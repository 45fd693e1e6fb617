use crate::lexer::{
    lemma_steps_snoc, spec_step_cursor, spec_step_is_end, spec_step_is_token, spec_steps_cursor,
    spec_token_bytes, token_from, Lexer, LexerError,
};
use vstd::prelude::*;
use vstd::string::StringSliceAdditionalSpecFns;

verus! {

/// Why a fixed number of segments could not be taken from a path.
#[derive(Clone, Debug, PartialEq)]
pub enum RouterError {
    Lexer(LexerError),
    InsufficientSegments,
}

impl From<LexerError> for RouterError {
    fn from(src: LexerError) -> (r: Self) {
        RouterError::Lexer(src)
    }
}

impl vstd::std_specs::convert::FromSpecImpl<LexerError> for RouterError {
    open spec fn obeys_from_spec() -> bool {
        true
    }

    open spec fn from_spec(v: LexerError) -> Self {
        RouterError::Lexer(v)
    }
}

/// A scan cursor that is not at a token stays put, however many steps
/// are taken from it.
proof fn lemma_steps_fixpoint(b: Seq<u8>, c: int, n: int)
    requires
        n >= 0,
        !spec_step_is_token(b, c),
    ensures
        spec_steps_cursor(b, c, n) == c,
    decreases n,
{
    if n > 0 {
        lemma_steps_fixpoint(b, c, n - 1);
    }
}

/// Walks the segments of one path, taking a fixed number at a time.
#[derive(Debug)]
pub struct Router<'a> {
    lexer: Lexer<'a, &'a str>,
}

impl<'a> Router<'a> {
    /// The UTF-8 bytes of the path being walked.
    pub closed spec fn spec_bytes(self) -> Seq<u8> {
        self.lexer.spec_bytes()
    }

    /// The current byte position in the path.
    pub closed spec fn spec_cursor(self) -> int {
        self.lexer.spec_cursor()
    }

    /// The router's lexer stays on a character boundary of the path.
    pub closed spec fn wf(self) -> bool {
        self.lexer.wf()
    }

    /// A router over the given path.
    pub fn new(path: &'a str) -> (r: Self)
        ensures
            r.wf(),
            r.spec_bytes() == path.spec_bytes(),
            r.spec_cursor() == 0,
    {
        Router { lexer: Lexer::new(path) }
    }

    /// Looks at the next N segments without consuming them: position `t`
    /// holds the `t`-th scanned section, or None once the path ends or
    /// turns malformed.
    pub fn peek<const N: usize>(&mut self) -> (r: [Option<&'a str>; N])
        requires
            old(self).wf(),
        ensures
            *final(self) == *old(self),
            r@.len() == N,
            forall|t: int|
                0 <= t < N ==> ((r@[t] is Some) == spec_step_is_token(
                    old(self).spec_bytes(),
                    #[trigger] spec_steps_cursor(old(self).spec_bytes(), old(self).spec_cursor(), t),
                )),
            forall|t: int|
                0 <= t < N && r@[t] is Some ==> token_from(
                    r@[t]->0,
                    spec_token_bytes(
                        old(self).spec_bytes(),
                        #[trigger] spec_steps_cursor(
                            old(self).spec_bytes(),
                            old(self).spec_cursor(),
                            t,
                        ),
                    ),
                ),
    {
        let ghost b = self.spec_bytes();
        let ghost c0 = self.spec_cursor();
        let mut result: [Option<&'a str>; N] = [None; N];
        let mut cur: Lexer<'a, &'a str> = self.lexer.snapshot();
        let mut i: usize = 0;
        while i < N
            invariant
                b == old(self).spec_bytes(),
                c0 == old(self).spec_cursor(),
                *self == *old(self),
                cur.wf(),
                i <= N,
                result@.len() == N,
                cur.spec_bytes() == b,
                cur.spec_cursor() == spec_steps_cursor(b, c0, i as int),
                forall|t: int|
                    0 <= t < i ==> ((result@[t] is Some) == spec_step_is_token(
                        b,
                        #[trigger] spec_steps_cursor(b, c0, t),
                    )),
                forall|t: int|
                    0 <= t < i && result@[t] is Some ==> token_from(
                        result@[t]->0,
                        spec_token_bytes(b, #[trigger] spec_steps_cursor(b, c0, t)),
                    ),
                forall|t: int| i <= t < N ==> result@[t] is None,
            decreases N - i,
        {
            let (next, peeked) = cur.peek();
            cur = next;
            match peeked {
                Some(Ok((value, _distance, _span))) => {
                    result[i] = Some(value);
                },
                _ => {},
            }
            proof {
                lemma_steps_snoc(b, c0, i as int);
            }
            i = i + 1;
        }
        result
    }

    /// Consumes and returns the next N segments: position `t` holds the
    /// `t`-th scanned section, or None once the path ends or turns
    /// malformed.
    pub fn consume<const N: usize>(&mut self) -> (r: [Option<&'a str>; N])
        requires
            old(self).wf(),
        ensures
            final(self).wf(),
            final(self).spec_bytes() == old(self).spec_bytes(),
            final(self).spec_cursor() == spec_steps_cursor(
                old(self).spec_bytes(),
                old(self).spec_cursor(),
                N as int,
            ),
            r@.len() == N,
            forall|t: int|
                0 <= t < N ==> ((r@[t] is Some) == spec_step_is_token(
                    old(self).spec_bytes(),
                    #[trigger] spec_steps_cursor(old(self).spec_bytes(), old(self).spec_cursor(), t),
                )),
            forall|t: int|
                0 <= t < N && r@[t] is Some ==> token_from(
                    r@[t]->0,
                    spec_token_bytes(
                        old(self).spec_bytes(),
                        #[trigger] spec_steps_cursor(
                            old(self).spec_bytes(),
                            old(self).spec_cursor(),
                            t,
                        ),
                    ),
                ),
    {
        let ghost b = self.spec_bytes();
        let ghost c0 = self.spec_cursor();
        let mut result: [Option<&'a str>; N] = [None; N];
        let mut i: usize = 0;
        while i < N
            invariant
                b == old(self).spec_bytes(),
                c0 == old(self).spec_cursor(),
                self.wf(),
                i <= N,
                result@.len() == N,
                self.spec_bytes() == b,
                self.spec_cursor() == spec_steps_cursor(b, c0, i as int),
                forall|t: int|
                    0 <= t < i ==> ((result@[t] is Some) == spec_step_is_token(
                        b,
                        #[trigger] spec_steps_cursor(b, c0, t),
                    )),
                forall|t: int|
                    0 <= t < i && result@[t] is Some ==> token_from(
                        result@[t]->0,
                        spec_token_bytes(b, #[trigger] spec_steps_cursor(b, c0, t)),
                    ),
                forall|t: int| i <= t < N ==> result@[t] is None,
            decreases N - i,
        {
            let ghost ci = spec_steps_cursor(b, c0, i as int);
            let ghost pre_lex = self.lexer;
            let p = self.lexer.next();
            let ghost rp = choose|rp: Option<
                Result<(&'a str, usize, crate::lexer::Span), LexerError>,
            >|
                #[trigger] crate::lexer::peek_post(pre_lex, self.lexer, rp) && p
                    == crate::lexer::spec_drop_distance(rp);
            proof {
                assert(crate::lexer::peek_post(pre_lex, self.lexer, rp));
                if spec_step_is_token(b, ci) {
                    assert(rp matches Some(Ok(_)));
                } else if spec_step_is_end(b, ci) {
                    assert(rp is None);
                } else {
                    assert(rp matches Some(Err(_)));
                }
            }
            match p {
                Some(Ok((value, _span))) => {
                    result[i] = Some(value);
                },
                _ => {},
            }
            proof {
                lemma_steps_snoc(b, c0, i as int);
            }
            i = i + 1;
        }
        result
    }

    /// Consumes exactly N segments, or reports why it could not: an
    /// `InsufficientSegments` error when the path ends first, a lexer
    /// error when the rest turns malformed first.
    pub fn try_consume<const N: usize>(&mut self) -> (r: Result<[&'a str; N], RouterError>)
        requires
            old(self).wf(),
        ensures
            final(self).wf(),
            final(self).spec_bytes() == old(self).spec_bytes(),
            final(self).spec_cursor() == spec_steps_cursor(
                old(self).spec_bytes(),
                old(self).spec_cursor(),
                N as int,
            ),
            (r is Ok) == (forall|t: int|
                0 <= t < N ==> spec_step_is_token(
                    old(self).spec_bytes(),
                    #[trigger] spec_steps_cursor(old(self).spec_bytes(), old(self).spec_cursor(), t),
                )),
            r matches Ok(a) ==> a@.len() == N && forall|t: int|
                0 <= t < N ==> token_from(
                    a@[t],
                    spec_token_bytes(
                        old(self).spec_bytes(),
                        #[trigger] spec_steps_cursor(
                            old(self).spec_bytes(),
                            old(self).spec_cursor(),
                            t,
                        ),
                    ),
                ),
            (r == Err::<[&'a str; N], RouterError>(RouterError::InsufficientSegments)) == (
            exists|t: int|
                0 <= t < N && spec_step_is_end(
                    old(self).spec_bytes(),
                    #[trigger] spec_steps_cursor(old(self).spec_bytes(), old(self).spec_cursor(), t),
                ) && (forall|u: int|
                    0 <= u < t ==> spec_step_is_token(
                        old(self).spec_bytes(),
                        #[trigger] spec_steps_cursor(
                            old(self).spec_bytes(),
                            old(self).spec_cursor(),
                            u,
                        ),
                    ))),
    {
        let ghost b = self.spec_bytes();
        let ghost c0 = self.spec_cursor();
        let mut result: [&'a str; N] = [""; N];
        let mut i: usize = 0;
        while i < N
            invariant
                b == old(self).spec_bytes(),
                c0 == old(self).spec_cursor(),
                self.wf(),
                i <= N,
                result@.len() == N,
                self.spec_bytes() == b,
                self.spec_cursor() == spec_steps_cursor(b, c0, i as int),
                forall|t: int|
                    0 <= t < i ==> spec_step_is_token(b, #[trigger] spec_steps_cursor(b, c0, t)),
                forall|t: int|
                    0 <= t < i ==> token_from(
                        result@[t],
                        spec_token_bytes(b, #[trigger] spec_steps_cursor(b, c0, t)),
                    ),
            decreases N - i,
        {
            let ghost ci = spec_steps_cursor(b, c0, i as int);
            let ghost pre_lex = self.lexer;
            let p = self.lexer.next();
            let ghost rp = choose|rp: Option<
                Result<(&'a str, usize, crate::lexer::Span), LexerError>,
            >|
                #[trigger] crate::lexer::peek_post(pre_lex, self.lexer, rp) && p
                    == crate::lexer::spec_drop_distance(rp);
            proof {
                assert(crate::lexer::peek_post(pre_lex, self.lexer, rp));
                if spec_step_is_token(b, ci) {
                    assert(rp matches Some(Ok(_)));
                } else if spec_step_is_end(b, ci) {
                    assert(rp is None);
                } else {
                    assert(rp matches Some(Err(_)));
                }
            }
            match p {
                Some(Ok((value, _span))) => {
                    result[i] = value;
                },
                Some(Err(e)) => {
                    proof {
                        assert(!spec_step_is_token(b, ci) && !spec_step_is_end(b, ci));
                        lemma_steps_fixpoint(b, ci, N - i as int);
                        lemma_steps_snoc_chain(b, c0, i as int, N as int);
                    }
                    return Err(RouterError::Lexer(e));
                },
                None => {
                    proof {
                        assert(spec_step_is_end(b, ci) && !spec_step_is_token(b, ci));
                        lemma_steps_fixpoint(b, ci, N - i as int);
                        lemma_steps_snoc_chain(b, c0, i as int, N as int);
                    }
                    return Err(RouterError::InsufficientSegments);
                },
            }
            proof {
                lemma_steps_snoc(b, c0, i as int);
            }
            i = i + 1;
        }
        Ok(result)
    }

    /// Consumes and returns the next segment, or None at the end of the
    /// path or on a malformed rest.
    pub fn next(&mut self) -> (r: Option<&'a str>)
        requires
            old(self).wf(),
        ensures
            final(self).wf(),
            final(self).spec_bytes() == old(self).spec_bytes(),
            final(self).spec_cursor() == spec_step_cursor(
                old(self).spec_bytes(),
                old(self).spec_cursor(),
            ),
            (r is Some) == spec_step_is_token(old(self).spec_bytes(), old(self).spec_cursor()),
            r matches Some(v) ==> token_from(
                v,
                spec_token_bytes(old(self).spec_bytes(), old(self).spec_cursor()),
            ),
    {
        let ghost b = self.spec_bytes();
        let ghost c = self.spec_cursor();
        let ghost pre_lex = self.lexer;
        let p = self.lexer.next();
        let ghost rp = choose|rp: Option<
            Result<(&'a str, usize, crate::lexer::Span), LexerError>,
        >|
            #[trigger] crate::lexer::peek_post(pre_lex, self.lexer, rp) && p
                == crate::lexer::spec_drop_distance(rp);
        proof {
            assert(crate::lexer::peek_post(pre_lex, self.lexer, rp));
            if spec_step_is_token(b, c) {
                assert(rp matches Some(Ok(_)));
            } else if spec_step_is_end(b, c) {
                assert(rp is None);
            } else {
                assert(rp matches Some(Err(_)));
            }
        }
        match p {
            Some(Ok((item, _span))) => Some(item),
            _ => None,
        }
    }
}

/// Stepping `n` times is stepping `i` times and then `n - i` more.
proof fn lemma_steps_snoc_chain(b: Seq<u8>, c: int, i: int, n: int)
    requires
        0 <= i <= n,
    ensures
        spec_steps_cursor(b, c, n) == spec_steps_cursor(b, spec_steps_cursor(b, c, i), n - i),
    decreases i,
{
    if i > 0 {
        lemma_steps_snoc_chain(b, spec_step_cursor(b, c), i - 1, n - 1);
    }
}

} // verus!
