use qrkit::lexer::Span;
use qrkit::{Lexer, LexerError};

fn collect_lexer<'a, T: From<&'a str>>(
    mut lexer: Lexer<'a, T>,
) -> Result<Vec<(T, Span)>, LexerError> {
    let mut values = Vec::new();
    while let Some(item) = lexer.next() {
        match item {
            Ok(pair) => values.push(pair),
            Err(err) => return Err(err),
        }
    }
    Ok(values)
}

#[test]
fn lexer_accurately_clone_spans() {
    let expected = Span { start: 10, end: 20 };
    let value = expected.clone();
    assert_eq!(expected, value);
}

#[test]
fn lexer_return_single_none_for_empty_string() {
    let mut lexer = Lexer::<'_, String>::new("");
    assert_eq!(None, lexer.next());
}

#[test]
fn lexer_return_invalid_path_error_for_missing_leading_slash() {
    let expected = Err(LexerError::InvalidPath(Some(0), "foo".to_owned()));
    let mut lexer = Lexer::<'_, String>::new("foo");
    assert_eq!(Some(expected), lexer.next());
}

#[test]
fn parse_bare_root_as_empty_str() {
    let expected = vec![("".to_owned(), Span { start: 0, end: 0 })];
    let lexer = Lexer::new("/");
    let values = collect_lexer::<String>(lexer).unwrap();
    assert_eq!(expected, values);
}

#[test]
fn lexer_parse_static_segment() {
    let expected = vec![("foo".to_owned(), Span { start: 1, end: 4 })];
    let lexer = Lexer::new("/foo");
    let values = collect_lexer::<String>(lexer).unwrap();
    assert_eq!(expected, values);
}

#[test]
fn lexer_parse_param_segment() {
    let expected = vec![(":foo".to_owned(), Span { start: 1, end: 5 })];
    let lexer = Lexer::new("/:foo");
    let values = collect_lexer::<String>(lexer).unwrap();
    assert_eq!(expected, values);
}

#[test]
fn lexer_parse_consume_segment() {
    let expected = vec![("*foo".to_owned(), Span { start: 1, end: 5 })];
    let lexer = Lexer::new("/*foo");
    let values = collect_lexer::<String>(lexer).unwrap();
    assert_eq!(expected, values);
}

#[test]
fn lexer_parse_wildcard_segment() {
    let expected = vec![("*", Span { start: 1, end: 2 })];
    let lexer = Lexer::new("/*");
    let values = collect_lexer::<&str>(lexer).unwrap();
    assert_eq!(expected, values);
}

#[test]
fn lexer_parse_two_static_segments() {
    let expected = vec![
        ("foo".to_owned(), Span { start: 1, end: 4 }),
        (":bar".to_owned(), Span { start: 5, end: 9 }),
    ];
    let lexer = Lexer::new("/foo/:bar");
    let values = collect_lexer::<String>(lexer).unwrap();
    assert_eq!(expected, values);
}
