use crate::lexer::{lemma_ascii_boundary_next, spec_next_slash, spec_slash};
use crate::route_error::InsertError;
use core::marker::PhantomData;
use vstd::prelude::*;
use vstd::std_specs::convert::FromSpec;
use vstd::string::StringSliceAdditionalSpecFns;

verus! {

broadcast use
    vstd::utf8::encode_utf8_valid_utf8,
    vstd::utf8::is_char_boundary_start_end_of_seq,
    vstd::utf8::is_char_boundary_iff_not_is_continuation_byte,
    vstd::utf8::valid_utf8_split;

/// A half-open byte range of the source path covering one segment.
#[derive(Clone, Copy, Debug, PartialEq, Eq, Structural)]
pub struct Span {
    pub start: usize,
    pub end: usize,
}

/// Extracts string sections between forward slashes and converts them
/// into segment values per the rules; a bare or trailing slash ends the
/// iteration rather than yielding an empty segment.
pub struct SegmentLexer<'a, T> where T: From<&'a str> {
    src: &'a str,
    cursor: usize,
    t: PhantomData<T>,
}

/// What one step of the segment lexer guarantees, over the source bytes.
pub open spec fn seg_next_post<'a, T: From<&'a str>>(
    pre: SegmentLexer<'a, T>,
    post: SegmentLexer<'a, T>,
    r: Option<Result<(T, Span), InsertError>>,
) -> bool {
    let b = pre.spec_bytes();
    let c = pre.spec_cursor();
    &&& post.spec_bytes() == b
    &&& post.wf()
    &&& if c == b.len() || (c == b.len() - 1 && b[c] == spec_slash()) {
        // End of the path, or a bare root or trailing slash
        &&& r is None
        &&& post.spec_cursor() == c
    } else if b[c] != spec_slash() {
        // Missing leading slash
        &&& post.spec_cursor() == c
        &&& r matches Some(Err(InsertError::InvalidPath(p, s))) && p == Some(c as usize)
            && vstd::utf8::encode_utf8(s@) == b.subrange(c, b.len() as int)
    } else {
        let nd = spec_next_slash(b, c + 1);
        &&& post.spec_cursor() == nd
        &&& r matches Some(Ok((t, sp))) && sp == (Span {
            start: (c + 1) as usize,
            end: nd as usize,
        }) && crate::lexer::token_from(t, b.subrange(c + 1, nd))
    }
}

impl<'a, T> SegmentLexer<'a, T> where T: From<&'a str> {
    /// The UTF-8 bytes of the source path.
    pub closed spec fn spec_bytes(self) -> Seq<u8> {
        self.src.spec_bytes()
    }

    /// The current byte position in the source path.
    pub closed spec fn spec_cursor(self) -> int {
        self.cursor as int
    }

    /// The cursor always sits on a character boundary of the source.
    pub open spec fn wf(self) -> bool {
        &&& 0 <= self.spec_cursor() <= self.spec_bytes().len()
        &&& vstd::utf8::is_char_boundary(self.spec_bytes(), self.spec_cursor())
    }

    /// A segment lexer that starts at the beginning of the given path.
    pub fn new(src: &'a str) -> (r: Self)
        ensures
            r.wf(),
            r.spec_bytes() == src.spec_bytes(),
            r.spec_cursor() == 0,
    {
        SegmentLexer { src, cursor: 0, t: PhantomData }
    }

    /// The not yet consumed rest of the source path.
    pub fn rest(&self) -> (r: &'a str)
        requires
            self.wf(),
        ensures
            r.spec_bytes() == self.spec_bytes().subrange(
                self.spec_cursor(),
                self.spec_bytes().len() as int,
            ),
    {
        self.src.split_at(self.cursor).1
    }

    /// Consumes and returns the next segment with its span, None at the
    /// end of the path or at a bare or trailing slash, or an error when
    /// the rest does not start with '/'.
    pub fn next(&mut self) -> (r: Option<Result<(T, Span), InsertError>>)
        requires
            old(self).wf(),
        ensures
            seg_next_post(*old(self), *final(self), r),
    {
        let bytes = self.src.as_bytes();
        let len = bytes.len();
        if self.cursor == len {
            return None;
        }
        // Each segment has to start with a leading slash
        if bytes[self.cursor] != 47 {
            return Some(
                Err(InsertError::InvalidPath(Some(self.cursor), self.rest().to_owned())),
            );
        }
        // Either root slash or a trailing empty slash
        if len - self.cursor == 1 {
            return None;
        }
        // Scan to the beginning of the next segment
        let mut d: usize = self.cursor + 1;
        while d < len && bytes[d] != 47
            invariant
                self.wf(),
                bytes@ == self.spec_bytes(),
                len == self.spec_bytes().len(),
                self.spec_cursor() < d <= len,
                spec_next_slash(self.spec_bytes(), self.spec_cursor() + 1) == spec_next_slash(
                    self.spec_bytes(),
                    d as int,
                ),
            decreases len - d,
        {
            d = d + 1;
        }
        proof {
            assert(spec_next_slash(self.spec_bytes(), d as int) == d);
        }
        let distance = d - self.cursor;
        let span = Span { start: self.cursor + 1, end: self.cursor + distance };
        proof {
            lemma_ascii_boundary_next(self.spec_bytes(), self.spec_cursor());
            vstd::utf8::valid_utf8_split(self.spec_bytes(), self.spec_cursor() + 1);
            if d < len {
                assert(self.spec_bytes()[d as int] == 47);
                vstd::utf8::is_char_boundary_iff_not_is_continuation_byte(
                    self.spec_bytes(),
                    d as int,
                );
            } else {
                vstd::utf8::is_char_boundary_start_end_of_seq(self.spec_bytes());
            }
        }
        let (_, tail) = self.src.split_at(self.cursor + 1);
        proof {
            let tb = tail.spec_bytes();
            assert(tb == self.spec_bytes().subrange(self.spec_cursor() + 1, len as int));
            if d < len {
                assert(tb[d - self.spec_cursor() - 1] == 47);
                vstd::utf8::is_char_boundary_iff_not_is_continuation_byte(
                    tb,
                    d - self.spec_cursor() - 1,
                );
            } else {
                vstd::utf8::is_char_boundary_start_end_of_seq(tb);
            }
        }
        let (seg, _) = tail.split_at(distance - 1);
        let ghost pre = *self;
        self.cursor = self.cursor + distance;
        proof {
            assert(seg.spec_bytes() =~= pre.spec_bytes().subrange(
                pre.spec_cursor() + 1,
                d as int,
            ));
        }
        Some(Ok((seg.into(), span)))
    }
}

} // verus!
