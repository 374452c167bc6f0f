//! The selector and tag model.
//!
//! A selector is a tag name, an optional generic argument list captured
//! verbatim, and CSS-flavoured class and id shorthand: `.name` adds a
//! class, and a space followed by `#name` sets the id — the mandatory
//! space keeps `#` unambiguous in the host grammar.  A repeated id
//! keeps the last one.
//!
//! Tags are told apart by shape: an identifier starting with an
//! upper-case letter names a component, `slot:Name` names a slot, and
//! anything else is an HTML element (possibly kebab-cased).

use vstd::prelude::*;

use crate::cursor::Cursor;
use crate::diag::{obeys, POut, Parsed};
use crate::ident::{spec_kebab, KebabIdent, KebabIdentV};
use crate::seq_util::lemma_deep_push;
use crate::token::{tok_ident_name, tok_is_punct, Token, TokenV};

verus! {

/// The tag of a selector.
#[derive(Debug)]
pub enum Tag {
    /// An HTML element tag, possibly kebab-cased.
    Html(KebabIdent),
    /// A component tag: one identifier starting with an upper-case
    /// letter.
    Component(String),
    /// A slot tag, written `slot:Name`.
    Slot(String),
}

/// The model of a [`Tag`].
pub enum TagV {
    Html(KebabIdentV),
    Component(Seq<char>),
    Slot(Seq<char>),
}

impl DeepView for Tag {
    type V = TagV;

    open spec fn deep_view(&self) -> TagV {
        match self {
            Tag::Html(k) => TagV::Html(k.deep_view()),
            Tag::Component(s) => TagV::Component(s@),
            Tag::Slot(s) => TagV::Slot(s@),
        }
    }
}

impl TagV {
    /// Components and slots take the builder API: attribute namespaces
    /// are rejected on them.
    pub open spec fn is_component_like(self) -> bool {
        match self {
            TagV::Html(_) => false,
            TagV::Component(_) => true,
            TagV::Slot(_) => true,
        }
    }

    /// Whether this tag names a slot.
    pub open spec fn is_slot(self) -> bool {
        self matches TagV::Slot(_)
    }
}

/// A selector: tag, verbatim generics, classes, and an optional id.
#[derive(Debug)]
pub struct Selector {
    pub tag: Tag,
    pub generics: Vec<Token>,
    pub classes: Vec<KebabIdent>,
    pub id: Option<KebabIdent>,
}

/// The model of a [`Selector`].
pub struct SelectorV {
    pub tag: TagV,
    pub generics: Seq<TokenV>,
    pub classes: Seq<KebabIdentV>,
    pub id: Option<KebabIdentV>,
}

impl DeepView for Selector {
    type V = SelectorV;

    open spec fn deep_view(&self) -> SelectorV {
        SelectorV {
            tag: self.tag.deep_view(),
            generics: self.generics.deep_view(),
            classes: self.classes.deep_view(),
            id: self.id.deep_view(),
        }
    }
}

/// Whether an identifier names a component: it starts with an
/// upper-case ASCII letter.
pub open spec fn component_name(name: Seq<char>) -> bool {
    name.len() > 0 && 'A' <= name[0] && name[0] <= 'Z'
}

/// Exec mirror of [`component_name`].
pub fn is_component_name(name: &String) -> (r: bool)
    ensures
        r == component_name(name@),
{
    if name.as_str().unicode_len() == 0 {
        false
    } else {
        let c = name.as_str().get_char(0);
        'A' <= c && c <= 'Z'
    }
}

/// The tag at `p`: `slot:Name`, a component, or an HTML tag.
pub open spec fn spec_tag(t: Seq<TokenV>, p: int) -> POut<TagV> {
    match tok_ident_name(t, p) {
        Some(name) => if name == "slot"@ && tok_is_punct(t, p + 1, ':') {
            match tok_ident_name(t, p + 2) {
                Some(slot_name) => POut::Found { v: TagV::Slot(slot_name), next: p + 3 },
                None => POut::Fail,
            }
        } else if component_name(name) {
            POut::Found { v: TagV::Component(name), next: p + 1 }
        } else {
            match spec_kebab(t, p) {
                POut::Found { v, next } => POut::Found { v: TagV::Html(v), next },
                _ => POut::Fail,
            }
        },
        None => POut::Fail,
    }
}

/// The index of the `>` closing a generic argument list, counting
/// nested `<`/`>` pairs.
pub open spec fn scan_gt(t: Seq<TokenV>, i: int, depth: nat) -> Option<int>
    decreases t.len() - i,
{
    if i < 0 || i >= t.len() {
        None
    } else {
        match t[i] {
            TokenV::Punct { ch, .. } => if ch == '<' {
                scan_gt(t, i + 1, depth + 1)
            } else if ch == '>' {
                if depth == 0 {
                    Some(i)
                } else {
                    scan_gt(t, i + 1, (depth - 1) as nat)
                }
            } else {
                scan_gt(t, i + 1, depth)
            },
            _ => scan_gt(t, i + 1, depth),
        }
    }
}

/// A found closing `>` lies between the scan start and the end of the
/// input.
pub proof fn lemma_scan_gt_bounds(t: Seq<TokenV>, i: int, depth: nat)
    requires
        scan_gt(t, i, depth) is Some,
    ensures
        i <= scan_gt(t, i, depth)->Some_0 < t.len(),
    decreases t.len() - i,
{
    if 0 <= i < t.len() {
        match t[i] {
            TokenV::Punct { ch, .. } => if ch == '<' {
                lemma_scan_gt_bounds(t, i + 1, depth + 1);
            } else if ch == '>' {
                if depth != 0 {
                    lemma_scan_gt_bounds(t, i + 1, (depth - 1) as nat);
                }
            } else {
                lemma_scan_gt_bounds(t, i + 1, depth);
            },
            _ => {
                lemma_scan_gt_bounds(t, i + 1, depth);
            },
        }
    }
}

/// The optional generic argument list `<...>` at `p`, captured
/// verbatim.
pub open spec fn spec_generics(t: Seq<TokenV>, p: int) -> POut<Seq<TokenV>> {
    if tok_is_punct(t, p, '<') {
        match scan_gt(t, p + 1, 0) {
            Some(e) => POut::Found { v: t.subrange(p + 1, e), next: e + 1 },
            None => POut::Fail,
        }
    } else {
        POut::Found { v: Seq::empty(), next: p }
    }
}

/// The class and id shorthand after the tag: `.name` adds a class, a
/// spaced `#name` sets the id (the last one wins).
pub open spec fn spec_sel_suffix(
    t: Seq<TokenV>,
    p: int,
    classes: Seq<KebabIdentV>,
    id: Option<KebabIdentV>,
) -> POut<(Seq<KebabIdentV>, Option<KebabIdentV>)>
    decreases t.len() - p,
{
    if tok_is_punct(t, p, '.') {
        match spec_kebab(t, p + 1) {
            POut::Found { v, next } => if p + 1 < next && next <= t.len() {
                spec_sel_suffix(t, next, classes.push(v), id)
            } else {
                POut::Found { v: (classes, id), next: p }
            },
            _ => POut::Fail,
        }
    } else if 0 <= p < t.len() && t[p] == (TokenV::Punct { ch: '#', spaced: true }) {
        match spec_kebab(t, p + 1) {
            POut::Found { v, next } => if p + 1 < next && next <= t.len() {
                spec_sel_suffix(t, next, classes, Some(v))
            } else {
                POut::Found { v: (classes, id), next: p }
            },
            _ => POut::Fail,
        }
    } else {
        POut::Found { v: (classes, id), next: p }
    }
}

/// A whole selector.
pub open spec fn spec_selector(t: Seq<TokenV>, p: int) -> POut<SelectorV> {
    match spec_tag(t, p) {
        POut::Found { v: tag, next: n1 } => match spec_generics(t, n1) {
            POut::Found { v: generics, next: n2 } => match spec_sel_suffix(
                t,
                n2,
                Seq::empty(),
                None,
            ) {
                POut::Found { v, next } => POut::Found {
                    v: SelectorV { tag, generics, classes: v.0, id: v.1 },
                    next,
                },
                _ => POut::Fail,
            },
            _ => POut::Fail,
        },
        _ => POut::Fail,
    }
}

impl Cursor {
    /// The matching `>` of a generic argument list.
    fn find_gt(&self, i: usize, depth: usize) -> (r: Option<usize>)
        requires
            depth <= i,
            i <= self.toks.len(),
        ensures
            match scan_gt(self.tv(), i as int, depth as nat) {
                Some(e) => r matches Some(x) && x as int == e,
                None => r is None,
            },
        decreases self.toks.len() - i,
    {
        if i == self.toks.len() {
            None
        } else {
            match &self.toks[i] {
                Token::Punct { ch, .. } => if *ch == '<' {
                    self.find_gt(i + 1, depth + 1)
                } else if *ch == '>' {
                    if depth == 0 {
                        Some(i)
                    } else {
                        self.find_gt(i + 1, depth - 1)
                    }
                } else {
                    self.find_gt(i + 1, depth)
                },
                _ => self.find_gt(i + 1, depth),
            }
        }
    }

    /// The tag of a selector.  On failure the cursor is untouched.
    fn parse_tag(&mut self) -> (r: Parsed<Tag>)
        requires
            old(self).wf(),
        ensures
            final(self).wf(),
            final(self).toks == old(self).toks,
            obeys::<Tag>(
                spec_tag(old(self).tv(), old(self).pos as int),
                r,
                old(self).pos as int,
                final(self).pos as int,
            ),
            r is Found ==> final(self).pos > old(self).pos,
            !(r is Abort),
    {
        let mut name_found: Option<String> = None;
        if self.pos < self.toks.len() {
            match &self.toks[self.pos] {
                Token::Ident { name, .. } => {
                    name_found = Some(name.clone());
                },
                _ => {},
            }
        }
        match name_found {
            Some(name) => {
                let mut slot_colon = false;
                if name == "slot".to_owned() && self.toks.len() - self.pos >= 2 {
                    match &self.toks[self.pos + 1] {
                        Token::Punct { ch, .. } => {
                            slot_colon = *ch == ':';
                        },
                        _ => {},
                    }
                }
                if slot_colon {
                    let mut slot_name: Option<String> = None;
                    if self.toks.len() - self.pos >= 3 {
                        match &self.toks[self.pos + 2] {
                            Token::Ident { name: n2, .. } => {
                                slot_name = Some(n2.clone());
                            },
                            _ => {},
                        }
                    }
                    match slot_name {
                        Some(n2) => {
                            self.pos = self.pos + 3;
                            Parsed::Found(Tag::Slot(n2))
                        },
                        None => Parsed::Fail,
                    }
                } else if is_component_name(&name) {
                    self.pos = self.pos + 1;
                    Parsed::Found(Tag::Component(name))
                } else {
                    match self.parse_kebab() {
                        Parsed::Found(k) => Parsed::Found(Tag::Html(k)),
                        Parsed::Fail => Parsed::Fail,
                        Parsed::Abort(d) => {
                            proof {
                                assert(false);
                            }
                            Parsed::Abort(d)
                        },
                    }
                }
            },
            None => Parsed::Fail,
        }
    }

    /// The optional verbatim generic argument list.  On failure the
    /// cursor is untouched.
    fn parse_generics(&mut self) -> (r: Parsed<Vec<Token>>)
        requires
            old(self).wf(),
        ensures
            final(self).wf(),
            final(self).toks == old(self).toks,
            obeys::<Vec<Token>>(
                spec_generics(old(self).tv(), old(self).pos as int),
                r,
                old(self).pos as int,
                final(self).pos as int,
            ),
            final(self).pos >= old(self).pos,
            !(r is Abort),
    {
        let mut lt = false;
        if self.pos < self.toks.len() {
            match &self.toks[self.pos] {
                Token::Punct { ch, .. } => {
                    lt = *ch == '<';
                },
                _ => {},
            }
        }
        if lt {
            match self.find_gt(self.pos + 1, 0) {
                Some(e) => {
                    proof {
                        lemma_scan_gt_bounds(self.tv(), self.pos + 1, 0);
                    }
                    let generics = self.copy_range(self.pos + 1, e);
                    self.pos = e + 1;
                    Parsed::Found(generics)
                },
                None => Parsed::Fail,
            }
        } else {
            let r = Vec::<Token>::new();
            proof {
                assert(r.deep_view() =~= Seq::<TokenV>::empty());
            }
            Parsed::Found(r)
        }
    }

    /// The class and id shorthand after the tag.
    fn parse_sel_suffix(&mut self, classes: Vec<KebabIdent>, id: Option<KebabIdent>) -> (r: Parsed<
        (Vec<KebabIdent>, Option<KebabIdent>),
    >)
        requires
            old(self).wf(),
        ensures
            final(self).wf(),
            final(self).toks == old(self).toks,
            obeys::<(Vec<KebabIdent>, Option<KebabIdent>)>(
                spec_sel_suffix(
                    old(self).tv(),
                    old(self).pos as int,
                    classes.deep_view(),
                    id.deep_view(),
                ),
                r,
                old(self).pos as int,
                final(self).pos as int,
            ),
            r is Found ==> final(self).pos >= old(self).pos,
            !(r is Abort),
        decreases old(self).toks.len() - old(self).pos,
    {
        let mut dot = false;
        let mut hash = false;
        if self.pos < self.toks.len() {
            match &self.toks[self.pos] {
                Token::Punct { ch, spaced } => {
                    if *ch == '.' {
                        dot = true;
                    } else if *ch == '#' && *spaced {
                        hash = true;
                    }
                },
                _ => {},
            }
        }
        if dot {
            let save = self.pos;
            self.pos = self.pos + 1;
            match self.parse_kebab() {
                Parsed::Found(k) => {
                    let ghost previous = classes;
                    let ghost pushed = k;
                    let mut extended = classes;
                    extended.push(k);
                    proof {
                        lemma_deep_push(previous, extended, pushed);
                    }
                    match self.parse_sel_suffix(extended, id) {
                        Parsed::Found(x) => Parsed::Found(x),
                        Parsed::Fail => {
                            self.pos = save;
                            Parsed::Fail
                        },
                        Parsed::Abort(d) => {
                            proof {
                                assert(false);
                            }
                            Parsed::Abort(d)
                        },
                    }
                },
                Parsed::Fail => {
                    self.pos = save;
                    Parsed::Fail
                },
                Parsed::Abort(d) => {
                    proof {
                        assert(false);
                    }
                    Parsed::Abort(d)
                },
            }
        } else if hash {
            let save = self.pos;
            self.pos = self.pos + 1;
            match self.parse_kebab() {
                Parsed::Found(k) => match self.parse_sel_suffix(classes, Some(k)) {
                    Parsed::Found(x) => Parsed::Found(x),
                    Parsed::Fail => {
                        self.pos = save;
                        Parsed::Fail
                    },
                    Parsed::Abort(d) => {
                        proof {
                            assert(false);
                        }
                        Parsed::Abort(d)
                    },
                },
                Parsed::Fail => {
                    self.pos = save;
                    Parsed::Fail
                },
                Parsed::Abort(d) => {
                    proof {
                        assert(false);
                    }
                    Parsed::Abort(d)
                },
            }
        } else {
            Parsed::Found((classes, id))
        }
    }

    /// A whole selector.  On failure the cursor is untouched.
    pub fn parse_selector(&mut self) -> (r: Parsed<Selector>)
        requires
            old(self).wf(),
        ensures
            final(self).wf(),
            final(self).toks == old(self).toks,
            obeys::<Selector>(
                spec_selector(old(self).tv(), old(self).pos as int),
                r,
                old(self).pos as int,
                final(self).pos as int,
            ),
            r is Found ==> final(self).pos > old(self).pos,
            !(r is Abort),
    {
        let save = self.pos;
        match self.parse_tag() {
            Parsed::Found(tag) => {
                match self.parse_generics() {
                    Parsed::Found(generics) => {
                        let classes = Vec::<KebabIdent>::new();
                        proof {
                            assert(classes.deep_view() =~= Seq::<KebabIdentV>::empty());
                        }
                        match self.parse_sel_suffix(classes, None) {
                            Parsed::Found((cs, id)) => Parsed::Found(
                                Selector { tag, generics, classes: cs, id },
                            ),
                            Parsed::Fail => {
                                self.pos = save;
                                Parsed::Fail
                            },
                            Parsed::Abort(d) => {
                                proof {
                                    assert(false);
                                }
                                Parsed::Abort(d)
                            },
                        }
                    },
                    Parsed::Fail => {
                        self.pos = save;
                        Parsed::Fail
                    },
                    Parsed::Abort(d) => {
                        proof {
                            assert(false);
                        }
                        Parsed::Abort(d)
                    },
                }
            },
            Parsed::Fail => Parsed::Fail,
            Parsed::Abort(d) => {
                proof {
                    assert(false);
                }
                Parsed::Abort(d)
            },
        }
    }
}

} // verus!
