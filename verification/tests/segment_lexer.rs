use qrkit::segment_lexer::Span;
use qrkit::{InsertError, SegmentLexer};

fn collect_segments<'a, T: From<&'a str>>(
    mut lexer: SegmentLexer<'a, T>,
) -> Result<Vec<(T, Span)>, InsertError> {
    let mut values = Vec::new();
    while let Some(item) = lexer.next() {
        match item {
            Ok(pair) => values.push(pair),
            Err(err) => return Err(err),
        }
    }
    Ok(values)
}

#[test]
fn segment_lexer_accurately_clone_spans() {
    let expected = Span { start: 10, end: 20 };
    let value = expected.clone();
    assert_eq!(expected, value);
}

#[test]
fn segment_lexer_return_single_none_for_empty_string() {
    let mut lexer = SegmentLexer::<'_, String>::new("");
    assert_eq!(None, lexer.next());
}

#[test]
fn segment_lexer_return_invalid_path_error_for_missing_leading_slash() {
    let expected = Err(InsertError::InvalidPath(Some(0), "foo".to_owned()));
    let mut lexer = SegmentLexer::<'_, String>::new("foo");
    assert_eq!(Some(expected), lexer.next());
}

#[test]
fn parse_bare_root_as_none() {
    let mut lexer = SegmentLexer::<'_, String>::new("/");
    assert_eq!(None, lexer.next());
}

#[test]
fn segment_lexer_parse_static_segment() {
    let expected = vec![("foo".to_owned(), Span { start: 1, end: 4 })];
    let lexer = SegmentLexer::new("/foo");
    let values = collect_segments::<String>(lexer).unwrap();
    assert_eq!(expected, values);
}

#[test]
fn segment_lexer_parse_param_segment() {
    let expected = vec![(":foo".to_owned(), Span { start: 1, end: 5 })];
    let lexer = SegmentLexer::new("/:foo");
    let values = collect_segments::<String>(lexer).unwrap();
    assert_eq!(expected, values);
}

#[test]
fn segment_lexer_parse_consume_segment() {
    let expected = vec![("*foo".to_owned(), Span { start: 1, end: 5 })];
    let lexer = SegmentLexer::new("/*foo");
    let values = collect_segments::<String>(lexer).unwrap();
    assert_eq!(expected, values);
}

#[test]
fn segment_lexer_parse_wildcard_segment() {
    let expected = vec![("*", Span { start: 1, end: 2 })];
    let lexer = SegmentLexer::new("/*");
    let values = collect_segments::<&str>(lexer).unwrap();
    assert_eq!(expected, values);
}

#[test]
fn segment_lexer_parse_two_static_segments() {
    let expected = vec![
        ("foo".to_owned(), Span { start: 1, end: 4 }),
        (":bar".to_owned(), Span { start: 5, end: 9 }),
    ];
    let lexer = SegmentLexer::new("/foo/:bar");
    let values = collect_segments::<String>(lexer).unwrap();
    assert_eq!(expected, values);
}
