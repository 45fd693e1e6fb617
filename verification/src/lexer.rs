use core::marker::PhantomData;
use vstd::prelude::*;
use vstd::std_specs::convert::FromSpec;
use vstd::string::StringSliceAdditionalSpecFns;

verus! {

broadcast use
    vstd::utf8::encode_utf8_valid_utf8,
    vstd::utf8::is_char_boundary_start_end_of_seq,
    vstd::utf8::is_char_boundary_iff_not_is_continuation_byte,
    vstd::utf8::valid_utf8_split;

/// The byte value of the path separator '/'.
pub open spec fn spec_slash() -> u8 {
    47u8
}

/// The position of the next '/' byte at or after `i`, or the length of
/// the sequence when none follows.
pub open spec fn spec_next_slash(bytes: Seq<u8>, i: int) -> int
    recommends
        0 <= i <= bytes.len(),
    decreases bytes.len() - i,
{
    if i < 0 || i >= bytes.len() {
        bytes.len() as int
    } else if bytes[i] == spec_slash() {
        i
    } else {
        spec_next_slash(bytes, i + 1)
    }
}

/// In valid UTF-8, the position after a one-byte character that starts at
/// a character boundary is again a character boundary.
pub proof fn lemma_ascii_boundary_next(bytes: Seq<u8>, i: int)
    requires
        vstd::utf8::valid_utf8(bytes),
        vstd::utf8::is_char_boundary(bytes, i),
        0 <= i < bytes.len(),
        bytes[i] < 0x80,
    ensures
        vstd::utf8::is_char_boundary(bytes, i + 1),
    decreases bytes.len(),
{
    reveal_with_fuel(vstd::utf8::valid_utf8, 2);
    reveal_with_fuel(vstd::utf8::is_char_boundary, 2);
    let lf = vstd::utf8::length_of_first_scalar(bytes);
    if i == 0 {
        assert(vstd::utf8::is_leading_byte_width_1(bytes[0]));
        assert(lf == 1);
    } else {
        let tail = vstd::utf8::pop_first_scalar(bytes);
        assert(vstd::utf8::is_char_boundary(tail, i - lf));
        assert(i - lf >= 0);
        assert(tail[i - lf] == bytes[i]);
        lemma_ascii_boundary_next(tail, i - lf);
    }
}

/// A path's UTF-8 encoding is empty exactly when the path itself is.
pub proof fn lemma_bytes_empty_iff(s: Seq<char>)
    ensures
        (vstd::utf8::encode_utf8(s).len() == 0) <==> (s.len() == 0),
{
    if s.len() != 0 {
        assert(vstd::utf8::encode_scalar(s[0] as u32).len() >= 1);
    }
}

/// A '/' scan never moves backward and never runs past the end.
pub proof fn lemma_next_slash_bounds(bytes: Seq<u8>, i: int)
    requires
        0 <= i <= bytes.len(),
    ensures
        i <= spec_next_slash(bytes, i) <= bytes.len(),
    decreases bytes.len() - i,
{
    if i < bytes.len() && bytes[i] != spec_slash() {
        lemma_next_slash_bounds(bytes, i + 1);
    }
}


/// One scan step yields a token exactly when the rest starts with '/'.
pub open spec fn spec_step_is_token(b: Seq<u8>, c: int) -> bool {
    0 <= c < b.len() && b[c] == spec_slash()
}

/// One scan step ends the iteration exactly at the end of the path.
pub open spec fn spec_step_is_end(b: Seq<u8>, c: int) -> bool {
    c == b.len()
}

/// The bytes of the token one step yields: empty at a bare trailing
/// slash, else the section up to the next slash.
pub open spec fn spec_token_bytes(b: Seq<u8>, c: int) -> Seq<u8> {
    if c == b.len() - 1 {
        Seq::<u8>::empty()
    } else {
        b.subrange(c + 1, spec_next_slash(b, c + 1))
    }
}

/// The cursor after one scan step: advanced past a token, unmoved at the
/// end of the path or on a malformed rest.
pub open spec fn spec_step_cursor(b: Seq<u8>, c: int) -> int {
    if spec_step_is_token(b, c) {
        if c == b.len() - 1 {
            c + 1
        } else {
            spec_next_slash(b, c + 1)
        }
    } else {
        c
    }
}

/// The cursor after `n` scan steps.
pub open spec fn spec_steps_cursor(b: Seq<u8>, c: int, n: int) -> int
    decreases n,
{
    if n <= 0 {
        c
    } else {
        spec_steps_cursor(b, spec_step_cursor(b, c), n - 1)
    }
}

/// Taking one more step steps once from where `n` steps arrive.
pub proof fn lemma_steps_snoc(b: Seq<u8>, c: int, n: int)
    requires
        n >= 0,
    ensures
        spec_steps_cursor(b, c, n + 1) == spec_step_cursor(b, spec_steps_cursor(b, c, n)),
    decreases n,
{
    if n > 0 {
        lemma_steps_snoc(b, spec_step_cursor(b, c), n - 1);
    } else {
        assert(spec_steps_cursor(b, spec_step_cursor(b, c), 0) == spec_step_cursor(b, c));
    }
}

/// A lexing error: the path does not have the required shape at the given
/// byte position.
#[derive(Clone, Debug, PartialEq)]
pub enum LexerError {
    InvalidPath(Option<usize>, String),
}

/// A half-open byte range of the source path covering one token.
#[derive(Clone, Copy, Debug, PartialEq, Eq, Structural)]
pub struct Span {
    pub start: usize,
    pub end: usize,
}

impl Span {
    /// The length of the span, where an empty span counts as one.
    pub fn distance(&self) -> (r: usize)
        requires
            self.start <= self.end,
        ensures
            r == if self.start == self.end {
                1int
            } else {
                self.end - self.start
            },
    {
        if self.start == self.end {
            1
        } else {
            self.end - self.start
        }
    }
}

/// Extracts string sections between forward slashes and converts them
/// into segment values per the rules.
#[derive(Debug)]
pub struct Lexer<'a, T = String> where T: From<&'a str> {
    src: &'a str,
    cursor: usize,
    t: PhantomData<T>,
}

impl<'a, T> Lexer<'a, T> where T: From<&'a str> {
    /// The UTF-8 bytes of the source path.
    pub closed spec fn spec_bytes(self) -> Seq<u8> {
        self.src.spec_bytes()
    }

    /// The current byte position in the source path.
    pub closed spec fn spec_cursor(self) -> int {
        self.cursor as int
    }

    /// The cursor always sits on a character boundary of the source.
    pub open spec fn wf(self) -> bool {
        &&& 0 <= self.spec_cursor() <= self.spec_bytes().len()
        &&& vstd::utf8::is_char_boundary(self.spec_bytes(), self.spec_cursor())
    }

    /// An identical lexer at the same position.
    pub fn snapshot(&self) -> (r: Self)
        ensures
            r == *self,
    {
        Lexer { src: self.src, cursor: self.cursor, t: PhantomData }
    }

    /// A lexer that starts at the beginning of the given path.
    pub fn new(src: &'a str) -> (r: Self)
        ensures
            r.wf(),
            r.spec_bytes() == src.spec_bytes(),
            r.spec_cursor() == 0,
    {
        Lexer { src, cursor: 0, t: PhantomData }
    }

    /// The not yet consumed rest of the source path.
    pub fn rest(&self) -> (r: &'a str)
        requires
            self.wf(),
        ensures
            r.spec_bytes() == self.spec_bytes().subrange(
                self.spec_cursor(),
                self.spec_bytes().len() as int,
            ),
    {
        self.src.split_at(self.cursor).1
    }

    /// The number of bytes that remain.
    pub fn remaining(&self) -> (r: usize)
        requires
            self.wf(),
        ensures
            r == self.spec_bytes().len() - self.spec_cursor(),
    {
        self.src.as_bytes().len() - self.cursor
    }

    /// Looks at the next token without consuming it: the advanced lexer,
    /// and the token, its byte distance and its span, or None at the end
    /// of the path, or an error when the rest does not start with '/'.
    pub fn peek(&self) -> (r: (Self, Option<Result<(T, usize, Span), LexerError>>))
        requires
            self.wf(),
        ensures
            peek_post(*self, r.0, r.1),
    {
        let bytes = self.src.as_bytes();
        let len = bytes.len();
        if self.cursor == len {
            return (Lexer { src: self.src, cursor: self.cursor, t: PhantomData }, None);
        }
        // Each segment has to start with a leading slash
        if bytes[self.cursor] != 47 {
            return (
                Lexer { src: self.src, cursor: self.cursor, t: PhantomData },
                Some(Err(LexerError::InvalidPath(Some(self.cursor), self.rest().to_owned()))),
            );
        }
        // Either root slash or a trailing empty slash
        if len - self.cursor == 1 {
            let span = Span { start: self.cursor, end: self.cursor };
            proof {
                lemma_ascii_boundary_next(self.spec_bytes(), self.spec_cursor());
            }
            let next = Lexer { src: self.src, cursor: self.cursor + 1, t: PhantomData };
            let (_, empty_rest) = self.src.split_at(len);
            proof {
                assert(empty_rest.spec_bytes() =~= Seq::<u8>::empty());
            }
            return (next, Some(Ok((empty_rest.into(), 1, span))));
        }
        // Scan to the beginning of the next segment
        let mut d: usize = self.cursor + 1;
        while d < len && bytes[d] != 47
            invariant
                self.wf(),
                bytes@ == self.spec_bytes(),
                len == self.spec_bytes().len(),
                self.spec_cursor() < d <= len,
                spec_next_slash(self.spec_bytes(), self.spec_cursor() + 1) == spec_next_slash(
                    self.spec_bytes(),
                    d as int,
                ),
            decreases len - d,
        {
            d = d + 1;
        }
        proof {
            assert(spec_next_slash(self.spec_bytes(), d as int) == d);
        }
        let distance = d - self.cursor;
        let span = Span { start: self.cursor + 1, end: self.cursor + distance };
        proof {
            lemma_ascii_boundary_next(self.spec_bytes(), self.spec_cursor());
            if d < len {
                assert(self.spec_bytes()[d as int] == 47);
            }
        }
        let (_, tail) = self.src.split_at(self.cursor + 1);
        proof {
            assert(tail.spec_bytes() == self.spec_bytes().subrange(
                self.spec_cursor() + 1,
                len as int,
            ));
            if d < len {
                assert(tail.spec_bytes()[d - self.spec_cursor() - 1] == 47);
            }
        }
        proof {
            vstd::utf8::valid_utf8_split(self.spec_bytes(), self.spec_cursor() + 1);
            let tb = tail.spec_bytes();
            if d < len {
                vstd::utf8::is_char_boundary_iff_not_is_continuation_byte(
                    tb,
                    d - self.spec_cursor() - 1,
                );
            } else {
                vstd::utf8::is_char_boundary_start_end_of_seq(tb);
            }
            if d < len {
                vstd::utf8::is_char_boundary_iff_not_is_continuation_byte(
                    self.spec_bytes(),
                    d as int,
                );
            } else {
                vstd::utf8::is_char_boundary_start_end_of_seq(self.spec_bytes());
            }
        }
        let (seg, _) = tail.split_at(distance - 1);
        let next = Lexer { src: self.src, cursor: self.cursor + distance, t: PhantomData };
        proof {
            assert(seg.spec_bytes() =~= self.spec_bytes().subrange(
                self.spec_cursor() + 1,
                d as int,
            ));
        }
        (next, Some(Ok((seg.into(), distance, span))))
    }

    /// Consumes and returns the next token, with its distance and span.
    pub fn pop(&mut self) -> (r: Option<Result<(T, usize, Span), LexerError>>)
        requires
            old(self).wf(),
        ensures
            peek_post(*old(self), *final(self), r),
    {
        // Look at the next token
        let (lexer, peek) = self.peek();
        // Move the lexer reference to the next position
        *self = lexer;
        // Return the peek result
        peek
    }

    /// Consumes and returns the next token and its span.
    pub fn next(&mut self) -> (r: Option<Result<(T, Span), LexerError>>)
        requires
            old(self).wf(),
        ensures
            exists|rp: Option<Result<(T, usize, Span), LexerError>>|
                #[trigger] peek_post(*old(self), *final(self), rp) && r == spec_drop_distance(
                    rp,
                ),
    {
        let p = self.pop();
        let ghost p0 = p;
        let r = match p {
            Some(Ok((item, distance, span))) => Some(Ok((item, span))),
            Some(Err(err)) => Some(Err(err)),
            None => None,
        };
        proof {
            assert(peek_post(*old(self), *self, p0));
            assert(r == spec_drop_distance(p0));
        }
        r
    }
}

/// The peek result without its byte distance, as `next` returns it.
pub open spec fn spec_drop_distance<T>(
    rp: Option<Result<(T, usize, Span), LexerError>>,
) -> Option<Result<(T, Span), LexerError>> {
    match rp {
        Some(Ok((t, d, sp))) => Some(Ok((t, sp))),
        Some(Err(e)) => Some(Err(e)),
        None => None,
    }
}

/// What one peek or pop step guarantees: how the lexer advanced and what
/// the returned token, span and distance are, in terms of the source
/// bytes. The token itself is the `From` image of the scanned section.
pub open spec fn peek_post<'a, T: From<&'a str>>(
    pre: Lexer<'a, T>,
    post: Lexer<'a, T>,
    r: Option<Result<(T, usize, Span), LexerError>>,
) -> bool {
    let b = pre.spec_bytes();
    let c = pre.spec_cursor();
    &&& post.spec_bytes() == b
    &&& post.wf()
    &&& if c == b.len() {
        // End of the path
        &&& r is None
        &&& post.spec_cursor() == c
    } else if b[c] != spec_slash() {
        // Missing leading slash
        &&& post.spec_cursor() == c
        &&& r matches Some(Err(LexerError::InvalidPath(p, s))) && p == Some(c as usize)
            && vstd::utf8::encode_utf8(s@) == b.subrange(c, b.len() as int)
    } else if c == b.len() - 1 {
        // Root slash or trailing empty slash
        &&& post.spec_cursor() == c + 1
        &&& r matches Some(Ok((t, d, sp))) && d == 1 && sp == (Span {
            start: c as usize,
            end: c as usize,
        }) && token_from(t, Seq::<u8>::empty())
    } else {
        let nd = spec_next_slash(b, c + 1);
        &&& post.spec_cursor() == nd
        &&& r matches Some(Ok((t, d, sp))) && d == nd - c && sp == (Span {
            start: (c + 1) as usize,
            end: nd as usize,
        }) && token_from(t, b.subrange(c + 1, nd))
    }
}

/// True when the token is the `From` image of some string slice holding
/// exactly the given bytes.
pub open spec fn token_from<'a, T: From<&'a str>>(t: T, bytes: Seq<u8>) -> bool {
    exists|s: &'a str|
        (#[trigger] s.spec_bytes()) == bytes && (T::obeys_from_spec() ==> t == T::from_spec(s))
}

} // verus!
