//! The input cursor and the speculative-parsing discipline.
//!
//! A [`Cursor`] is a read-only token sequence together with a position.
//! Productions advance the position on success and restore it on a soft
//! failure; a fork is just the saved position, so backtracking is a
//! single assignment.  Groups (`{ ... }`, `[ ... ]`) and generic
//! argument lists (`< ... >`) are captured verbatim as token runs by
//! scanning for the matching closing token.

use vstd::prelude::*;

use crate::diag::{obeys, POut, Parsed};
use crate::token::{Delim, Token, TokenV};

verus! {

/// A position in a token sequence.
pub struct Cursor {
    pub toks: Vec<Token>,
    pub pos: usize,
}

impl Cursor {
    /// The position never stands past the end of the input.
    pub open spec fn wf(self) -> bool {
        self.pos <= self.toks.len()
    }

    /// The model of the input.
    pub open spec fn tv(self) -> Seq<TokenV> {
        self.toks.deep_view()
    }

    /// A cursor at the start of the given input.
    pub fn new(toks: Vec<Token>) -> (r: Cursor)
        ensures
            r.wf(),
            r.toks == toks,
            r.pos == 0,
    {
        Cursor { toks, pos: 0 }
    }

    /// Whether every token has been consumed.
    pub fn at_end(&self) -> (r: bool)
        ensures
            r == (self.pos == self.toks.len()),
    {
        self.pos == self.toks.len()
    }

    /// A structural copy of the tokens `i..j`.
    pub fn copy_range(&self, i: usize, j: usize) -> (r: Vec<Token>)
        requires
            i <= j,
            j <= self.toks.len(),
        ensures
            r.deep_view() == self.tv().subrange(i as int, j as int),
        decreases j - i,
    {
        if i == j {
            let r = Vec::<Token>::new();
            proof {
                assert(r.deep_view() =~= self.tv().subrange(i as int, j as int));
            }
            r
        } else {
            let d = self.toks[i].dup();
            let mut rest = self.copy_range(i + 1, j);
            let ghost rv = rest.deep_view();
            rest.insert(0, d);
            proof {
                let goal = self.tv().subrange(i as int, j as int);
                assert(rv == self.tv().subrange(i + 1, j as int));
                assert(rv.len() == j - i - 1);
                assert(rest@.len() == rv.len() + 1);
                assert forall|k: int| 0 <= k < rest@.len() implies rest.deep_view()[k] == goal[k] by {
                    if k == 0 {
                        assert(rest@[0] == d);
                        assert(d.deep_view() == self.tv()[i as int]);
                    } else {
                        assert(rest@[k].deep_view() == rv[k - 1]);
                        assert(rv[k - 1] == self.tv().subrange(i + 1, j as int)[k - 1]);
                        assert(rv[k - 1] == self.tv()[i + k]);
                    }
                }
                assert(rest.deep_view() =~= goal);
            }
            rest
        }
    }
}

/// The index of the closing token matching an already-open group of
/// delimiter `d`, scanning from `i` with `depth` still-open inner
/// groups of the same delimiter.
pub open spec fn scan_close(t: Seq<TokenV>, d: Delim, i: int, depth: nat) -> Option<int>
    decreases t.len() - i,
{
    if i < 0 || i >= t.len() {
        None
    } else {
        match t[i] {
            TokenV::Open { delim } => if delim == d {
                scan_close(t, d, i + 1, depth + 1)
            } else {
                scan_close(t, d, i + 1, depth)
            },
            TokenV::Close { delim } => if delim == d {
                if depth == 0 {
                    Some(i)
                } else {
                    scan_close(t, d, i + 1, (depth - 1) as nat)
                }
            } else {
                scan_close(t, d, i + 1, depth)
            },
            _ => scan_close(t, d, i + 1, depth),
        }
    }
}

/// A found closing token lies between the scan start and the end of the
/// input.
pub proof fn lemma_scan_close_bounds(t: Seq<TokenV>, d: Delim, i: int, depth: nat)
    requires
        scan_close(t, d, i, depth) is Some,
    ensures
        i <= scan_close(t, d, i, depth)->Some_0 < t.len(),
    decreases t.len() - i,
{
    if 0 <= i < t.len() {
        match t[i] {
            TokenV::Open { delim } => if delim == d {
                lemma_scan_close_bounds(t, d, i + 1, depth + 1);
            } else {
                lemma_scan_close_bounds(t, d, i + 1, depth);
            },
            TokenV::Close { delim } => if delim == d {
                if depth != 0 {
                    lemma_scan_close_bounds(t, d, i + 1, (depth - 1) as nat);
                }
            } else {
                lemma_scan_close_bounds(t, d, i + 1, depth);
            },
            _ => {
                lemma_scan_close_bounds(t, d, i + 1, depth);
            },
        }
    }
}

/// Speculative capture of a whole `d`-delimited group starting at `p`:
/// on success the captured run is the group interior and the position
/// stands just after the closing token.
pub open spec fn spec_group(t: Seq<TokenV>, d: Delim, p: int) -> POut<Seq<TokenV>> {
    if 0 <= p < t.len() && t[p] == (TokenV::Open { delim: d }) {
        match scan_close(t, d, p + 1, 0) {
            Some(e) => POut::Found { v: t.subrange(p + 1, e), next: e + 1 },
            None => POut::Fail,
        }
    } else {
        POut::Fail
    }
}

impl Cursor {
    /// The matching closing token of delimiter `d` from `i` on, with
    /// `depth` open inner groups.
    pub fn find_close(&self, d: Delim, i: usize, depth: usize) -> (r: Option<usize>)
        requires
            depth <= i,
            i <= self.toks.len(),
        ensures
            match scan_close(self.tv(), d, i as int, depth as nat) {
                Some(e) => r matches Some(x) && x as int == e,
                None => r is None,
            },
        decreases self.toks.len() - i,
    {
        if i == self.toks.len() {
            None
        } else {
            match &self.toks[i] {
                Token::Open { delim } => if *delim == d {
                    self.find_close(d, i + 1, depth + 1)
                } else {
                    self.find_close(d, i + 1, depth)
                },
                Token::Close { delim } => if *delim == d {
                    if depth == 0 {
                        Some(i)
                    } else {
                        self.find_close(d, i + 1, depth - 1)
                    }
                } else {
                    self.find_close(d, i + 1, depth)
                },
                _ => self.find_close(d, i + 1, depth),
            }
        }
    }

    /// Attempts to consume a `d`-delimited group and hand back its
    /// interior verbatim.  On failure the cursor is untouched.
    pub fn capture_group(&mut self, d: Delim) -> (r: Parsed<Vec<Token>>)
        requires
            old(self).wf(),
        ensures
            final(self).wf(),
            final(self).toks == old(self).toks,
            obeys::<Vec<Token>>(
                spec_group(old(self).tv(), d, old(self).pos as int),
                r,
                old(self).pos as int,
                final(self).pos as int,
            ),
            r is Found ==> final(self).pos > old(self).pos,
    {
        if self.pos < self.toks.len() {
            let is_open = match &self.toks[self.pos] {
                Token::Open { delim } => *delim == d,
                _ => false,
            };
            if is_open {
                match self.find_close(d, self.pos + 1, 0) {
                    Some(e) => {
                        proof {
                            lemma_scan_close_bounds(self.tv(), d, self.pos + 1, 0);
                        }
                        let inner = self.copy_range(self.pos + 1, e);
                        self.pos = e + 1;
                        Parsed::Found(inner)
                    },
                    None => Parsed::Fail,
                }
            } else {
                Parsed::Fail
            }
        } else {
            Parsed::Fail
        }
    }
}

} // verus!
