//! Kebab-cased identifiers.
//!
//! A [`KebabIdent`] is one or more identifier segments joined by single
//! hyphens with no whitespace around them, like `data-index`.  It can
//! be written as an underscore-joined host identifier (`data_index`) or
//! as a quoted string keeping the hyphens (`"data-index"`).

use vstd::prelude::*;

use crate::cursor::Cursor;
use crate::diag::{obeys, POut, Parsed};
use crate::seq_util::lemma_deep_push;
use crate::token::{push_char, Token, TokenV};

verus! {

/// An identifier permitting internal hyphens: at least one segment,
/// segments joined by single hyphens.
#[derive(Debug)]
pub struct KebabIdent {
    pub segments: Vec<String>,
}

/// The model of a [`KebabIdent`]: its segments' texts.
pub type KebabIdentV = Seq<Seq<char>>;

impl DeepView for KebabIdent {
    type V = KebabIdentV;

    open spec fn deep_view(&self) -> KebabIdentV {
        self.segments.deep_view()
    }
}

/// The segments joined by the separator.
pub open spec fn join_chars(segs: Seq<Seq<char>>, sep: char) -> Seq<char>
    decreases segs.len(),
{
    if segs.len() == 0 {
        Seq::empty()
    } else if segs.len() == 1 {
        segs[0]
    } else {
        segs[0] + seq![sep] + join_chars(segs.drop_first(), sep)
    }
}

/// The hyphen-joined text of a kebab identifier, as it stood in the
/// source.
pub open spec fn dash_of(k: KebabIdentV) -> Seq<char> {
    join_chars(k, '-')
}

/// The underscore-joined host identifier of a kebab identifier.
pub open spec fn snake_of(k: KebabIdentV) -> Seq<char> {
    join_chars(k, '_')
}

/// Joins `segs[i..]` with the separator.
fn join_from(segs: &Vec<String>, sep: char, i: usize) -> (r: String)
    requires
        i <= segs.len(),
    ensures
        r@ == join_chars(segs.deep_view().skip(i as int), sep),
    decreases segs.len() - i,
{
    if i == segs.len() {
        proof {
            assert(segs.deep_view().skip(i as int) =~= Seq::<Seq<char>>::empty());
        }
        String::new()
    } else if i + 1 == segs.len() {
        proof {
            assert(segs.deep_view().skip(i as int) =~= seq![segs.deep_view()[i as int]]);
        }
        segs[i].clone()
    } else {
        let mut s = segs[i].clone();
        push_char(&mut s, sep);
        let rest = join_from(segs, sep, i + 1);
        s.append(rest.as_str());
        proof {
            let suffix = segs.deep_view().skip(i as int);
            assert(suffix[0] == segs.deep_view()[i as int]);
            assert(suffix.drop_first() =~= segs.deep_view().skip(i + 1));
            assert(s@ =~= join_chars(suffix, sep));
        }
        s
    }
}

impl KebabIdent {
    /// At least one segment.
    pub open spec fn wf(self) -> bool {
        self.deep_view().len() >= 1
    }

    /// An identifier made of the given segments.
    pub fn new(segments: Vec<String>) -> (r: KebabIdent)
        requires
            segments.len() >= 1,
        ensures
            r.deep_view() == segments.deep_view(),
            r.wf(),
    {
        KebabIdent { segments }
    }

    /// The segments' texts.
    pub fn segments(&self) -> (r: &Vec<String>)
        ensures
            r.deep_view() == self.deep_view(),
    {
        &self.segments
    }

    /// The hyphen-joined source text, fit for a quoted string.
    pub fn to_lit_str(&self) -> (r: String)
        ensures
            r@ == dash_of(self.deep_view()),
    {
        let r = join_from(&self.segments, '-', 0);
        proof {
            assert(self.segments.deep_view().skip(0) =~= self.deep_view());
        }
        r
    }

    /// The underscore-joined host identifier.
    pub fn to_snake_string(&self) -> (r: String)
        ensures
            r@ == snake_of(self.deep_view()),
    {
        let r = join_from(&self.segments, '_', 0);
        proof {
            assert(self.segments.deep_view().skip(0) =~= self.deep_view());
        }
        r
    }

    /// An identifier of a single segment.
    pub fn from_one(name: String) -> (r: KebabIdent)
        ensures
            r.deep_view() == seq![name@],
            r.wf(),
    {
        let ghost pushed = name;
        let mut segments: Vec<String> = Vec::new();
        segments.push(name);
        proof {
            assert(segments@ =~= seq![pushed]);
            crate::seq_util::lemma_deep_singleton(segments, pushed);
        }
        KebabIdent { segments }
    }

    /// A structural copy.
    pub fn dup(&self) -> (r: KebabIdent)
        ensures
            r.deep_view() == self.deep_view(),
    {
        let mut segments: Vec<String> = Vec::new();
        let mut i: usize = 0;
        while i < self.segments.len()
            invariant
                i <= self.segments.len(),
                segments.deep_view() == self.segments.deep_view().take(i as int),
            decreases self.segments.len() - i,
        {
            let s = self.segments[i].clone();
            let ghost before = segments;
            segments.push(s);
            proof {
                lemma_deep_push(before, segments, s);
            }
            i = i + 1;
            proof {
                assert(segments.deep_view() =~= self.segments.deep_view().take(i as int));
            }
        }
        proof {
            assert(self.segments.deep_view().take(self.segments.len() as int) =~= self.deep_view());
        }
        KebabIdent { segments }
    }
}

/// The continuation of a kebab identifier: while an unspaced hyphen and
/// an unspaced identifier segment follow, they belong to the identifier.
pub open spec fn spec_kebab_more(t: Seq<TokenV>, p: int, segs: Seq<Seq<char>>) -> POut<
    KebabIdentV,
>
    decreases t.len() - p,
{
    if 0 <= p && p + 1 < t.len() {
        match (t[p], t[p + 1]) {
            (
                TokenV::Punct { ch, spaced: hyphen_spaced },
                TokenV::Ident { name, spaced: seg_spaced },
            ) => {
                if ch == '-' && !hyphen_spaced && !seg_spaced {
                    spec_kebab_more(t, p + 2, segs.push(name))
                } else {
                    POut::Found { v: segs, next: p }
                }
            },
            _ => POut::Found { v: segs, next: p },
        }
    } else {
        POut::Found { v: segs, next: p }
    }
}

/// One kebab identifier starting at `p`; fails if `t[p]` is not an
/// identifier token.
pub open spec fn spec_kebab(t: Seq<TokenV>, p: int) -> POut<KebabIdentV> {
    if 0 <= p < t.len() {
        match t[p] {
            TokenV::Ident { name, .. } => spec_kebab_more(t, p + 1, seq![name]),
            _ => POut::Fail,
        }
    } else {
        POut::Fail
    }
}

/// The continuation never moves backwards and stays in bounds.
pub proof fn lemma_kebab_more_bounds(t: Seq<TokenV>, p: int, segs: Seq<Seq<char>>)
    requires
        0 <= p <= t.len(),
    ensures
        spec_kebab_more(t, p, segs) matches POut::Found { v, next } && p <= next <= t.len()
            && v.len() >= segs.len(),
    decreases t.len() - p,
{
    if p + 1 < t.len() {
        match (t[p], t[p + 1]) {
            (
                TokenV::Punct { ch, spaced: hyphen_spaced },
                TokenV::Ident { name, spaced: seg_spaced },
            ) => {
                if ch == '-' && !hyphen_spaced && !seg_spaced {
                    lemma_kebab_more_bounds(t, p + 2, segs.push(name));
                }
            },
            _ => {},
        }
    }
}

/// A parsed kebab identifier consumes at least one token and has at
/// least one segment.
pub proof fn lemma_kebab_bounds(t: Seq<TokenV>, p: int)
    requires
        0 <= p <= t.len(),
        spec_kebab(t, p) is Found,
    ensures
        spec_kebab(t, p) matches POut::Found { v, next } && p < next <= t.len() && v.len() >= 1,
{
    match t[p] {
        TokenV::Ident { name, .. } => {
            lemma_kebab_more_bounds(t, p + 1, seq![name]);
        },
        _ => {},
    }
}

impl Cursor {
    /// The kebab-identifier continuation from the current position.
    fn parse_kebab_more(&mut self, segs: Vec<String>) -> (r: KebabIdent)
        requires
            old(self).wf(),
        ensures
            final(self).wf(),
            final(self).toks == old(self).toks,
            spec_kebab_more(old(self).tv(), old(self).pos as int, segs.deep_view()) == (
            POut::Found { v: r.deep_view(), next: final(self).pos as int }),
            final(self).pos >= old(self).pos,
        decreases old(self).toks.len() - old(self).pos,
    {
        let mut continuation: Option<String> = None;
        if self.toks.len() - self.pos >= 2 {
            match (&self.toks[self.pos], &self.toks[self.pos + 1]) {
                (
                    Token::Punct { ch, spaced: hyphen_spaced },
                    Token::Ident { name, spaced: seg_spaced },
                ) => {
                    if *ch == '-' && !*hyphen_spaced && !*seg_spaced {
                        continuation = Some(name.clone());
                    }
                },
                _ => {},
            }
        }
        match continuation {
            Some(name) => {
                self.pos = self.pos + 2;
                let mut extended = segs;
                let ghost before = extended;
                let ghost pushed = name;
                extended.push(name);
                proof {
                    lemma_deep_push(before, extended, pushed);
                }
                self.parse_kebab_more(extended)
            },
            None => {
                KebabIdent { segments: segs }
            },
        }
    }

    /// One kebab identifier.  On failure the cursor is untouched.
    pub fn parse_kebab(&mut self) -> (r: Parsed<KebabIdent>)
        requires
            old(self).wf(),
        ensures
            final(self).wf(),
            final(self).toks == old(self).toks,
            obeys::<KebabIdent>(
                spec_kebab(old(self).tv(), old(self).pos as int),
                r,
                old(self).pos as int,
                final(self).pos as int,
            ),
            r is Found ==> final(self).pos > old(self).pos,
            !(r is Abort),
    {
        let mut first: Option<String> = None;
        if self.pos < self.toks.len() {
            match (&self.toks[self.pos]) {
                Token::Ident { name, .. } => {
                    first = Some(name.clone());
                },
                _ => {},
            }
        }
        match first {
            Some(name) => {
                proof {
                    lemma_kebab_more_bounds(self.tv(), self.pos + 1, seq![name@]);
                }
                self.pos = self.pos + 1;
                let mut segs: Vec<String> = Vec::new();
                let ghost pushed = name;
                segs.push(name);
                proof {
                    assert(segs@ =~= seq![pushed]);
                    crate::seq_util::lemma_deep_singleton(segs, pushed);
                }
                let ident = self.parse_kebab_more(segs);
                Parsed::Found(ident)
            },
            None => Parsed::Fail,
        }
    }
}

} // verus!
