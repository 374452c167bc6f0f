//! The element grammar: a selector, attributes, an optional closure
//! parameter list, and either a braced child block, a semicolon, or —
//! for the last item of its enclosing sequence — nothing.

use vstd::prelude::*;

use crate::attribute::{spec_attribute, Attr, AttrV};
use crate::children::{children_vec_view, spec_children, Children, ChildrenV};
use crate::cursor::{scan_close, Cursor};
use crate::diag::{obeys, POut, Parsed};
use crate::seq_util::lemma_deep_push;
use crate::selector::{spec_selector, Selector, SelectorV};
use crate::token::{tok_ident_name, tok_is_open, tok_is_punct, Delim, Token, TokenV};

verus! {

/// One element node.
///
/// `self_closing` and `children` are mutually exclusive: an element
/// ends with a child block, with a semicolon, or — only as the last
/// item of its enclosing children sequence — with neither.
#[derive(Debug)]
pub struct Element {
    /// The token index where the element's selector began; diagnostics
    /// raised while expanding this element point here.
    pub span: usize,
    pub selector: Selector,
    pub attrs: Vec<Attr>,
    pub closure_params: Option<Vec<String>>,
    pub children: Option<Children>,
    pub self_closing: bool,
}

/// The model of an [`Element`].
pub struct ElementV {
    pub span: int,
    pub selector: SelectorV,
    pub attrs: Seq<AttrV>,
    pub closure_params: Option<Seq<Seq<char>>>,
    pub children: Option<ChildrenV>,
    pub self_closing: bool,
}

/// The model of one element.
pub open spec fn elem_view(e: Element) -> ElementV
    decreases e,
{
    ElementV {
        span: e.span as int,
        selector: e.selector.deep_view(),
        attrs: e.attrs.deep_view(),
        closure_params: e.closure_params.deep_view(),
        children: match e.children {
            Some(cs) => Some(children_vec_view(cs.0)),
            None => None,
        },
        self_closing: e.self_closing,
    }
}

impl DeepView for Element {
    type V = ElementV;

    open spec fn deep_view(&self) -> ElementV {
        elem_view(*self)
    }
}

impl ElementV {
    /// `self_closing` and `children` are mutually exclusive.
    pub open spec fn wf(self) -> bool {
        !(self.self_closing && self.children is Some)
    }
}

/// Zero or more attributes: attributes are taken while one parses, and
/// the first soft failure ends the list.
pub open spec fn spec_attrs(t: Seq<TokenV>, p: int, acc: Seq<AttrV>) -> POut<Seq<AttrV>>
    decreases t.len() - p,
{
    match spec_attribute(t, p) {
        POut::Found { v, next } => if p < next && next <= t.len() {
            spec_attrs(t, next, acc.push(v))
        } else {
            POut::Found { v: acc, next: p }
        },
        POut::Fail => POut::Found { v: acc, next: p },
        POut::Abort { at, msg } => POut::Abort { at, msg },
    }
}

/// The identifiers of a closure parameter list, read until the closing
/// `|`; commas between identifiers are optional.
pub open spec fn spec_params_items(t: Seq<TokenV>, p: int, acc: Seq<Seq<char>>) -> POut<
    Seq<Seq<char>>,
>
    decreases t.len() - p,
{
    if tok_is_punct(t, p, '|') {
        POut::Found { v: acc, next: p + 1 }
    } else {
        match tok_ident_name(t, p) {
            Some(name) => if tok_is_punct(t, p + 1, ',') {
                spec_params_items(t, p + 2, acc.push(name))
            } else {
                spec_params_items(t, p + 1, acc.push(name))
            },
            None => POut::Fail,
        }
    }
}

/// An optional closure parameter list `|a, b|` before the child block.
pub open spec fn spec_params(t: Seq<TokenV>, p: int) -> POut<Option<Seq<Seq<char>>>> {
    if tok_is_punct(t, p, '|') {
        match spec_params_items(t, p + 1, Seq::empty()) {
            POut::Found { v, next } => POut::Found { v: Some(v), next },
            _ => POut::Fail,
        }
    } else {
        POut::Found { v: None, next: p }
    }
}

/// The end of an element, after selector, attributes and parameters:
/// a braced child block, a semicolon, or — exactly at the end of the
/// enclosing sequence — nothing.
pub open spec fn spec_elem_end(
    t: Seq<TokenV>,
    p: int,
    limit: int,
    span: int,
    selector: SelectorV,
    attrs: Seq<AttrV>,
    closure_params: Option<Seq<Seq<char>>>,
) -> POut<ElementV>
    decreases limit - p, 0int,
{
    if tok_is_open(t, p, Delim::Brace) {
        match scan_close(t, Delim::Brace, p + 1, 0) {
            Some(e) => if p + 1 <= e && e < limit {
                match spec_children(t, p + 1, e, Seq::empty()) {
                    POut::Found { v: cs, next: used } => if used == e {
                        POut::Found {
                            v: ElementV {
                                span,
                                selector,
                                attrs,
                                closure_params,
                                children: Some(cs),
                                self_closing: false,
                            },
                            next: e + 1,
                        }
                    } else {
                        POut::Fail
                    },
                    POut::Fail => POut::Fail,
                    POut::Abort { at, msg } => POut::Abort { at, msg },
                }
            } else {
                POut::Fail
            },
            None => POut::Fail,
        }
    } else if tok_is_punct(t, p, ';') {
        POut::Found {
            v: ElementV {
                span,
                selector,
                attrs,
                closure_params,
                children: None,
                self_closing: true,
            },
            next: p + 1,
        }
    } else if p == limit {
        POut::Found {
            v: ElementV {
                span,
                selector,
                attrs,
                closure_params,
                children: None,
                self_closing: false,
            },
            next: p,
        }
    } else {
        POut::Fail
    }
}

/// One element within `t[..limit]`.  On failure nothing is consumed.
pub open spec fn spec_element(t: Seq<TokenV>, p: int, limit: int) -> POut<ElementV>
    decreases limit - p, 1int,
{
    match spec_selector(t, p) {
        POut::Found { v: selector, next: n1 } => match spec_attrs(t, n1, Seq::empty()) {
            POut::Found { v: attrs, next: n2 } => match spec_params(t, n2) {
                POut::Found { v: closure_params, next: n3 } => if p <= n3 && n3 <= limit {
                    spec_elem_end(t, n3, limit, p, selector, attrs, closure_params)
                } else {
                    POut::Fail
                },
                POut::Fail => POut::Fail,
                POut::Abort { at, msg } => POut::Abort { at, msg },
            },
            POut::Fail => POut::Fail,
            POut::Abort { at, msg } => POut::Abort { at, msg },
        },
        POut::Fail => POut::Fail,
        POut::Abort { at, msg } => POut::Abort { at, msg },
    }
}

impl Cursor {
    /// Zero or more attributes; the accumulated list grows until the
    /// first soft failure.  Never fails softly itself.
    pub fn parse_attrs(&mut self, acc: Vec<Attr>) -> (r: Parsed<Vec<Attr>>)
        requires
            old(self).wf(),
        ensures
            final(self).wf(),
            final(self).toks == old(self).toks,
            obeys::<Vec<Attr>>(
                spec_attrs(old(self).tv(), old(self).pos as int, acc.deep_view()),
                r,
                old(self).pos as int,
                final(self).pos as int,
            ),
            !(r is Abort) ==> final(self).pos >= old(self).pos,
            !(r is Fail),
        decreases old(self).toks.len() - old(self).pos,
    {
        match self.parse_attribute() {
            Parsed::Found(a) => {
                let ghost previous = acc;
                let ghost pushed = a;
                let mut extended = acc;
                extended.push(a);
                proof {
                    lemma_deep_push(previous, extended, pushed);
                }
                self.parse_attrs(extended)
            },
            Parsed::Fail => Parsed::Found(acc),
            Parsed::Abort(d) => Parsed::Abort(d),
        }
    }

    /// The identifiers of a closure parameter list, up to the closing
    /// `|`.
    fn parse_params_items(&mut self, acc: Vec<String>) -> (r: Parsed<Vec<String>>)
        requires
            old(self).wf(),
        ensures
            final(self).wf(),
            final(self).toks == old(self).toks,
            obeys::<Vec<String>>(
                spec_params_items(old(self).tv(), old(self).pos as int, acc.deep_view()),
                r,
                old(self).pos as int,
                final(self).pos as int,
            ),
            final(self).pos >= old(self).pos,
            !(r is Abort),
        decreases old(self).toks.len() - old(self).pos,
    {
        let save = self.pos;
        let mut bar = false;
        if self.pos < self.toks.len() {
            match &self.toks[self.pos] {
                Token::Punct { ch, .. } => {
                    bar = *ch == '|';
                },
                _ => {},
            }
        }
        if bar {
            self.pos = self.pos + 1;
            Parsed::Found(acc)
        } else {
            let mut name_found: Option<String> = None;
            if self.pos < self.toks.len() {
                match &self.toks[self.pos] {
                    Token::Ident { name, .. } => {
                        name_found = Some(name.clone());
                    },
                    _ => {},
                }
            }
            match name_found {
                Some(name) => {
                    let mut comma = false;
                    if self.toks.len() - self.pos >= 2 {
                        match &self.toks[self.pos + 1] {
                            Token::Punct { ch, .. } => {
                                comma = *ch == ',';
                            },
                            _ => {},
                        }
                    }
                    let ghost previous = acc;
                    let ghost pushed = name;
                    let mut extended = acc;
                    extended.push(name);
                    proof {
                        lemma_deep_push(previous, extended, pushed);
                    }
                    if comma {
                        self.pos = self.pos + 2;
                    } else {
                        self.pos = self.pos + 1;
                    }
                    match self.parse_params_items(extended) {
                        Parsed::Found(v) => Parsed::Found(v),
                        Parsed::Fail => {
                            self.pos = save;
                            Parsed::Fail
                        },
                        Parsed::Abort(d) => {
                            proof {
                                assert(false);
                            }
                            Parsed::Abort(d)
                        },
                    }
                },
                None => Parsed::Fail,
            }
        }
    }

    /// An optional closure parameter list before the child block.  On
    /// failure the cursor is untouched.
    fn parse_params(&mut self) -> (r: Parsed<Option<Vec<String>>>)
        requires
            old(self).wf(),
        ensures
            final(self).wf(),
            final(self).toks == old(self).toks,
            obeys::<Option<Vec<String>>>(
                spec_params(old(self).tv(), old(self).pos as int),
                r,
                old(self).pos as int,
                final(self).pos as int,
            ),
            final(self).pos >= old(self).pos,
            !(r is Abort),
    {
        let save = self.pos;
        let mut bar = false;
        if self.pos < self.toks.len() {
            match &self.toks[self.pos] {
                Token::Punct { ch, .. } => {
                    bar = *ch == '|';
                },
                _ => {},
            }
        }
        if bar {
            self.pos = self.pos + 1;
            let acc = Vec::<String>::new();
            proof {
                assert(acc.deep_view() =~= Seq::<Seq<char>>::empty());
            }
            match self.parse_params_items(acc) {
                Parsed::Found(v) => Parsed::Found(Some(v)),
                Parsed::Fail => {
                    self.pos = save;
                    Parsed::Fail
                },
                Parsed::Abort(d) => {
                    proof {
                        assert(false);
                    }
                    Parsed::Abort(d)
                },
            }
        } else {
            Parsed::Found(None)
        }
    }

    /// One element within `self.toks[..limit]`.  On failure the cursor
    /// is untouched.
    pub fn parse_element(&mut self, limit: usize) -> (r: Parsed<Element>)
        requires
            old(self).wf(),
            limit <= old(self).toks.len(),
            old(self).pos <= limit,
        ensures
            final(self).wf(),
            final(self).toks == old(self).toks,
            obeys::<Element>(
                spec_element(old(self).tv(), old(self).pos as int, limit as int),
                r,
                old(self).pos as int,
                final(self).pos as int,
            ),
            r is Found ==> final(self).pos > old(self).pos,
        decreases limit - old(self).pos, 1int,
    {
        let save = self.pos;
        let selector = match self.parse_selector() {
            Parsed::Found(s) => s,
            Parsed::Fail => {
                return Parsed::Fail;
            },
            Parsed::Abort(d) => {
                proof {
                    assert(false);
                }
                return Parsed::Abort(d);
            },
        };
        let empty_attrs = Vec::<Attr>::new();
        proof {
            assert(empty_attrs.deep_view() =~= Seq::<AttrV>::empty());
        }
        let attrs = match self.parse_attrs(empty_attrs) {
            Parsed::Found(a) => a,
            Parsed::Fail => {
                proof {
                    assert(false);
                }
                return Parsed::Fail;
            },
            Parsed::Abort(d) => {
                return Parsed::Abort(d);
            },
        };
        let closure_params = match self.parse_params() {
            Parsed::Found(ps) => ps,
            Parsed::Fail => {
                self.pos = save;
                return Parsed::Fail;
            },
            Parsed::Abort(d) => {
                proof {
                    assert(false);
                }
                return Parsed::Abort(d);
            },
        };
        // end of the element: child block, semicolon, or end of the
        // enclosing sequence
        if self.pos > limit {
            self.pos = save;
            return Parsed::Fail;
        }
        let mut brace = false;
        if self.pos < self.toks.len() {
            brace = matches!(&self.toks[self.pos], Token::Open { delim: Delim::Brace });
        }
        if brace {
            match self.find_close(Delim::Brace, self.pos + 1, 0) {
                Some(e) => {
                    proof {
                        crate::cursor::lemma_scan_close_bounds(
                            self.tv(),
                            Delim::Brace,
                            self.pos + 1,
                            0,
                        );
                    }
                    if e < limit {
                        let block_open = self.pos;
                        self.pos = self.pos + 1;
                        let empty_children: Vec<crate::children::Child> = Vec::new();
                        proof {
                            assert(empty_children.deep_view() =~= Seq::<
                                crate::children::ChildV,
                            >::empty());
                        }
                        match self.parse_children_vec(e, empty_children) {
                            Parsed::Found(cs) => {
                                proof {
                                    assert(children_vec_view(cs) =~= cs.deep_view());
                                }
                                if self.pos == e {
                                    self.pos = e + 1;
                                    Parsed::Found(
                                        Element {
                                            span: save,
                                            selector,
                                            attrs,
                                            closure_params,
                                            children: Some(Children(cs)),
                                            self_closing: false,
                                        },
                                    )
                                } else {
                                    self.pos = save;
                                    Parsed::Fail
                                }
                            },
                            Parsed::Fail => {
                                proof {
                                    assert(false);
                                }
                                self.pos = save;
                                Parsed::Fail
                            },
                            Parsed::Abort(d) => Parsed::Abort(d),
                        }
                    } else {
                        self.pos = save;
                        Parsed::Fail
                    }
                },
                None => {
                    self.pos = save;
                    Parsed::Fail
                },
            }
        } else {
            let mut semi = false;
            if self.pos < self.toks.len() {
                match &self.toks[self.pos] {
                    Token::Punct { ch, .. } => {
                        semi = *ch == ';';
                    },
                    _ => {},
                }
            }
            if semi {
                self.pos = self.pos + 1;
                Parsed::Found(
                    Element {
                        span: save,
                        selector,
                        attrs,
                        closure_params,
                        children: None,
                        self_closing: true,
                    },
                )
            } else if self.pos == limit {
                Parsed::Found(
                    Element {
                        span: save,
                        selector,
                        attrs,
                        closure_params,
                        children: None,
                        self_closing: false,
                    },
                )
            } else {
                self.pos = save;
                Parsed::Fail
            }
        }
    }
}

} // verus!
