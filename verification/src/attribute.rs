//! The attribute model: key-value pairs, boolean attributes, the brace
//! shorthand, directive-namespaced attributes, and spread attributes.
//!
//! Dispatch is by lookahead.  A directive keyword immediately followed
//! by a colon commits the parse: any later failure inside that
//! attribute aborts the whole translation.  Every other attribute form
//! is speculative — on failure the cursor is untouched, so the caller
//! can cleanly detect the end of an attribute list.

use vstd::prelude::*;

use crate::cursor::{scan_close, spec_group, Cursor};
use crate::diag::{obeys, Diag, POut, Parsed};
use crate::ident::{snake_of, spec_kebab, KebabIdent, KebabIdentV};
use crate::seq_util::lemma_deep_singleton;
use crate::token::{
    tok_ident_name, tok_is_dotdot, tok_is_open, tok_is_punct, Delim, Token, TokenV,
};
use crate::value::{spec_value, Value, ValueV};

verus! {

/// A `key = value` attribute.
///
/// This may arise from a written pair `key={value}`, from the brace
/// shorthand `{key}` (which synthesizes a block value referencing the
/// key), or — at the level of [`Attr`] — from a bare boolean attribute.
#[derive(Debug)]
pub struct KvAttr {
    pub key: KebabIdent,
    pub value: Value,
}

/// The model of a [`KvAttr`].
pub struct KvAttrV {
    pub key: KebabIdentV,
    pub value: ValueV,
}

impl DeepView for KvAttr {
    type V = KvAttrV;

    open spec fn deep_view(&self) -> KvAttrV {
        KvAttrV { key: self.key.deep_view(), value: self.value.deep_view() }
    }
}

impl KvAttr {
    /// A pair of the given key and value.
    pub fn new(key: KebabIdent, value: Value) -> (r: KvAttr)
        ensures
            r.deep_view() == (KvAttrV { key: key.deep_view(), value: value.deep_view() }),
    {
        KvAttr { key, value }
    }

    /// The attribute's key.
    pub fn key(&self) -> (r: &KebabIdent)
        ensures
            r.deep_view() == self.deep_view().key,
    {
        &self.key
    }

    /// The attribute's value.
    pub fn value(&self) -> (r: &Value)
        ensures
            r.deep_view() == self.deep_view().value,
    {
        &self.value
    }
}

/// The directive namespaces.
#[derive(Clone, Copy, PartialEq, Eq, Structural, Debug)]
pub enum DirKind {
    Class,
    Style,
    On,
    Prop,
    Attr,
    Clone,
    Use,
}

/// A directive key: a kebab identifier, or — for `class:` and `style:`
/// only — a string literal naming a compound class or style key.
#[derive(Debug)]
pub enum KebabIdentOrStr {
    KebabIdent(KebabIdent),
    Str(String),
}

/// The model of a [`KebabIdentOrStr`].
pub enum KebabIdentOrStrV {
    Kebab(KebabIdentV),
    Str(Seq<char>),
}

impl DeepView for KebabIdentOrStr {
    type V = KebabIdentOrStrV;

    open spec fn deep_view(&self) -> KebabIdentOrStrV {
        match self {
            KebabIdentOrStr::KebabIdent(k) => KebabIdentOrStrV::Kebab(k.deep_view()),
            KebabIdentOrStr::Str(s) => KebabIdentOrStrV::Str(s@),
        }
    }
}

/// The text of the key as it stands in a quoted string.
pub open spec fn lit_str_chars(v: KebabIdentOrStrV) -> Seq<char> {
    match v {
        KebabIdentOrStrV::Kebab(k) => crate::ident::dash_of(k),
        KebabIdentOrStrV::Str(s) => s,
    }
}

impl KebabIdentOrStr {
    /// The key as string-literal content: a kebab identifier keeps its
    /// hyphens.
    pub fn into_lit_str(self) -> (r: String)
        ensures
            r@ == lit_str_chars(self.deep_view()),
    {
        match self {
            KebabIdentOrStr::KebabIdent(k) => k.to_lit_str(),
            KebabIdentOrStr::Str(s) => s,
        }
    }

    /// The key as string-literal content, borrowed.
    pub fn lit_str(&self) -> (r: String)
        ensures
            r@ == lit_str_chars(self.deep_view()),
    {
        match self {
            KebabIdentOrStr::KebabIdent(k) => k.to_lit_str(),
            KebabIdentOrStr::Str(s) => s.clone(),
        }
    }

    /// The key as a plain host identifier: a kebab identifier joins
    /// with underscores.
    pub fn ident_str(&self) -> (r: String)
        ensures
            r@ == crate::expand::key_ident_chars(self.deep_view()),
    {
        match self {
            KebabIdentOrStr::KebabIdent(k) => k.to_snake_string(),
            KebabIdentOrStr::Str(s) => s.clone(),
        }
    }
}

/// A directive-namespaced attribute such as `class:red={signal}`,
/// `on:click={handler}`, `clone:data` or `use:hook`.
///
/// `span` is the token index of the directive keyword, used when the
/// expander rejects the directive on an unsupported node kind.
#[derive(Debug)]
pub struct Directive {
    pub dir: DirKind,
    pub key: KebabIdentOrStr,
    pub value: Option<Value>,
    pub span: usize,
}

/// The model of a [`Directive`].
pub struct DirectiveV {
    pub dir: DirKind,
    pub key: KebabIdentOrStrV,
    pub value: Option<ValueV>,
    pub span: int,
}

impl DeepView for Directive {
    type V = DirectiveV;

    open spec fn deep_view(&self) -> DirectiveV {
        DirectiveV {
            dir: self.dir,
            key: self.key.deep_view(),
            value: self.value.deep_view(),
            span: self.span as int,
        }
    }
}

/// A spread attribute `{..expr}` attaching a dynamic attribute
/// collection; `span` is the token index of the opening brace.
#[derive(Debug)]
pub struct Spread {
    pub expr: Vec<Token>,
    pub span: usize,
}

/// The model of a [`Spread`].
pub struct SpreadV {
    pub expr: Seq<TokenV>,
    pub span: int,
}

impl DeepView for Spread {
    type V = SpreadV;

    open spec fn deep_view(&self) -> SpreadV {
        SpreadV { expr: self.expr.deep_view(), span: self.span as int }
    }
}

/// One attribute of an element.
#[derive(Debug)]
pub enum Attr {
    /// `key=value`, or the shorthand `{key}`.
    Kv(KvAttr),
    /// A bare identifier: sugar for `key=true`.
    Bool(KebabIdent),
    /// A namespaced directive.
    Directive(Directive),
    /// `{..expr}`.
    Spread(Spread),
}

/// The model of an [`Attr`].
pub enum AttrV {
    Kv(KvAttrV),
    Bool(KebabIdentV),
    Directive(DirectiveV),
    Spread(SpreadV),
}

impl DeepView for Attr {
    type V = AttrV;

    open spec fn deep_view(&self) -> AttrV {
        match self {
            Attr::Kv(a) => AttrV::Kv(a.deep_view()),
            Attr::Bool(k) => AttrV::Bool(k.deep_view()),
            Attr::Directive(d) => AttrV::Directive(d.deep_view()),
            Attr::Spread(s) => AttrV::Spread(s.deep_view()),
        }
    }
}

/// The directive namespace named by an identifier, if any.
pub open spec fn dir_kind_of(name: Seq<char>) -> Option<DirKind> {
    if name == "class"@ {
        Some(DirKind::Class)
    } else if name == "style"@ {
        Some(DirKind::Style)
    } else if name == "on"@ {
        Some(DirKind::On)
    } else if name == "prop"@ {
        Some(DirKind::Prop)
    } else if name == "attr"@ {
        Some(DirKind::Attr)
    } else if name == "clone"@ {
        Some(DirKind::Clone)
    } else if name == "use"@ {
        Some(DirKind::Use)
    } else {
        None
    }
}

/// Exec mirror of [`dir_kind_of`].
pub fn dir_kind(name: &String) -> (r: Option<DirKind>)
    ensures
        r == dir_kind_of(name@),
{
    if *name == "class".to_owned() {
        Some(DirKind::Class)
    } else if *name == "style".to_owned() {
        Some(DirKind::Style)
    } else if *name == "on".to_owned() {
        Some(DirKind::On)
    } else if *name == "prop".to_owned() {
        Some(DirKind::Prop)
    } else if *name == "attr".to_owned() {
        Some(DirKind::Attr)
    } else if *name == "clone".to_owned() {
        Some(DirKind::Clone)
    } else if *name == "use".to_owned() {
        Some(DirKind::Use)
    } else {
        None
    }
}

/// The block value synthesized by the shorthand `{key}`: a block
/// holding the key as an underscore-joined identifier.
pub open spec fn shorthand_value(k: KebabIdentV) -> ValueV {
    ValueV::Block(seq![TokenV::Ident { name: snake_of(k), spaced: false }])
}

/// A braced kebab identifier `{abc-123}`: the group must hold exactly
/// one kebab identifier.
pub open spec fn spec_braced_kebab(t: Seq<TokenV>, p: int) -> POut<KebabIdentV> {
    match spec_group(t, Delim::Brace, p) {
        POut::Found { v: inner, next } => match spec_kebab(inner, 0) {
            POut::Found { v, next: used } => if used == inner.len() {
                POut::Found { v, next }
            } else {
                POut::Fail
            },
            _ => POut::Fail,
        },
        _ => POut::Fail,
    }
}

/// A braced plain identifier `{abc_123}`: the group must hold exactly
/// one identifier token.
pub open spec fn spec_braced_ident(t: Seq<TokenV>, p: int) -> POut<Seq<char>> {
    match spec_group(t, Delim::Brace, p) {
        POut::Found { v: inner, next } => if inner.len() == 1 {
            match inner[0] {
                TokenV::Ident { name, .. } => POut::Found { v: name, next },
                _ => POut::Fail,
            }
        } else {
            POut::Fail
        },
        _ => POut::Fail,
    }
}

/// A key and value accepting `key={value}` pairs and the shorthand
/// `{key}`; keys may be kebab-cased.
pub open spec fn spec_braced_bool(t: Seq<TokenV>, p: int) -> POut<(KebabIdentV, ValueV)> {
    if tok_is_open(t, p, Delim::Brace) {
        match spec_braced_kebab(t, p) {
            POut::Found { v, next } => POut::Found { v: (v, shorthand_value(v)), next },
            _ => POut::Fail,
        }
    } else {
        match spec_kebab(t, p) {
            POut::Found { v: k, next: n1 } => if tok_is_punct(t, n1, '=') {
                match spec_value(t, n1 + 1) {
                    POut::Found { v, next } => POut::Found { v: (k, v), next },
                    _ => POut::Fail,
                }
            } else {
                POut::Fail
            },
            _ => POut::Fail,
        }
    }
}

/// The string-literal content at `i`, if the token there is a string
/// literal.
pub open spec fn lit_str_at(t: Seq<TokenV>, i: int) -> Option<Seq<char>> {
    if 0 <= i < t.len() {
        match t[i] {
            TokenV::LitStr { text } => Some(text),
            _ => None,
        }
    } else {
        None
    }
}

/// A kebab identifier or a string-literal key.
pub open spec fn spec_kebab_or_str(t: Seq<TokenV>, p: int) -> POut<KebabIdentOrStrV> {
    match lit_str_at(t, p) {
        Some(text) => POut::Found { v: KebabIdentOrStrV::Str(text), next: p + 1 },
        None => match spec_kebab(t, p) {
            POut::Found { v, next } => POut::Found { v: KebabIdentOrStrV::Kebab(v), next },
            _ => POut::Fail,
        },
    }
}

/// A key and value where the key may also be a string literal, for
/// `class:` and `style:` directives; the shorthand `{key}` is accepted.
pub open spec fn spec_str_braced(t: Seq<TokenV>, p: int) -> POut<(KebabIdentOrStrV, ValueV)> {
    if tok_is_open(t, p, Delim::Brace) {
        match spec_braced_kebab(t, p) {
            POut::Found { v, next } => POut::Found {
                v: (KebabIdentOrStrV::Kebab(v), shorthand_value(v)),
                next,
            },
            _ => POut::Fail,
        }
    } else {
        match spec_kebab_or_str(t, p) {
            POut::Found { v: k, next: n1 } => if tok_is_punct(t, n1, '=') {
                match spec_value(t, n1 + 1) {
                    POut::Found { v, next } => POut::Found { v: (k, v), next },
                    _ => POut::Fail,
                }
            } else {
                POut::Fail
            },
            _ => POut::Fail,
        }
    }
}

/// A key and value whose key is one plain identifier (never kebab-cased
/// or a string literal); the shorthand `{key}` is accepted.
pub open spec fn spec_ident_braced(t: Seq<TokenV>, p: int) -> POut<(Seq<char>, ValueV)> {
    if tok_is_open(t, p, Delim::Brace) {
        match spec_braced_ident(t, p) {
            POut::Found { v, next } => POut::Found {
                v: (v, shorthand_value(seq![v])),
                next,
            },
            _ => POut::Fail,
        }
    } else {
        match tok_ident_name(t, p) {
            Some(name) => if tok_is_punct(t, p + 1, '=') {
                match spec_value(t, p + 2) {
                    POut::Found { v, next } => POut::Found { v: (name, v), next },
                    _ => POut::Fail,
                }
            } else {
                POut::Fail
            },
            None => POut::Fail,
        }
    }
}

/// The directive keyword and colon at `p`, if any.
pub open spec fn dir_lookahead(t: Seq<TokenV>, p: int) -> Option<DirKind> {
    match tok_ident_name(t, p) {
        Some(name) => if tok_is_punct(t, p + 1, ':') {
            dir_kind_of(name)
        } else {
            None
        },
        None => None,
    }
}

/// A directive attribute whose keyword and colon stand at `p`; the
/// grammar is committed, so failures abort with a diagnostic.
pub open spec fn spec_directive(t: Seq<TokenV>, p: int, kind: DirKind) -> POut<AttrV> {
    let q = p + 2;
    match kind {
        DirKind::Clone => match tok_ident_name(t, q) {
            Some(name) => POut::Found {
                v: AttrV::Directive(
                    DirectiveV {
                        dir: kind,
                        key: KebabIdentOrStrV::Kebab(seq![name]),
                        value: None,
                        span: p,
                    },
                ),
                next: q + 1,
            },
            None => POut::Abort { at: q, msg: "expected an identifier after the directive"@ },
        },
        DirKind::Use => match tok_ident_name(t, q) {
            Some(name) => if tok_is_punct(t, q + 1, '=') {
                match spec_value(t, q + 2) {
                    POut::Found { v, next } => POut::Found {
                        v: AttrV::Directive(
                            DirectiveV {
                                dir: kind,
                                key: KebabIdentOrStrV::Kebab(seq![name]),
                                value: Some(v),
                                span: p,
                            },
                        ),
                        next,
                    },
                    _ => POut::Abort { at: q + 2, msg: "expected a value after `=`"@ },
                }
            } else {
                POut::Found {
                    v: AttrV::Directive(
                        DirectiveV {
                            dir: kind,
                            key: KebabIdentOrStrV::Kebab(seq![name]),
                            value: None,
                            span: p,
                        },
                    ),
                    next: q + 1,
                }
            },
            None => POut::Abort { at: q, msg: "expected an identifier after the directive"@ },
        },
        DirKind::Class | DirKind::Style => match spec_str_braced(t, q) {
            POut::Found { v, next } => POut::Found {
                v: AttrV::Directive(
                    DirectiveV { dir: kind, key: v.0, value: Some(v.1), span: p },
                ),
                next,
            },
            _ => POut::Abort { at: q, msg: "expected a key and value after the directive"@ },
        },
        DirKind::On => match spec_braced_bool(t, q) {
            POut::Found { v, next } => POut::Found {
                v: AttrV::Directive(
                    DirectiveV {
                        dir: kind,
                        key: KebabIdentOrStrV::Kebab(v.0),
                        value: Some(v.1),
                        span: p,
                    },
                ),
                next,
            },
            _ => POut::Abort { at: q, msg: "expected a key and value after the directive"@ },
        },
        DirKind::Prop | DirKind::Attr => match spec_ident_braced(t, q) {
            POut::Found { v, next } => POut::Found {
                v: AttrV::Directive(
                    DirectiveV {
                        dir: kind,
                        key: KebabIdentOrStrV::Kebab(seq![v.0]),
                        value: Some(v.1),
                        span: p,
                    },
                ),
                next,
            },
            _ => POut::Abort { at: q, msg: "expected a key and value after the directive"@ },
        },
    }
}

/// One attribute: a directive, the brace shorthand, a spread, a
/// key-value pair, or a boolean attribute.
pub open spec fn spec_attribute(t: Seq<TokenV>, p: int) -> POut<AttrV> {
    match dir_lookahead(t, p) {
        Some(kind) => spec_directive(t, p, kind),
        None => if tok_is_open(t, p, Delim::Brace) {
            if tok_is_dotdot(t, p + 1) {
                match scan_close(t, Delim::Brace, p + 1, 0) {
                    Some(e) => POut::Found {
                        v: AttrV::Spread(SpreadV { expr: t.subrange(p + 2, e), span: p }),
                        next: e + 1,
                    },
                    None => POut::Fail,
                }
            } else {
                match spec_braced_kebab(t, p) {
                    POut::Found { v, next } => POut::Found {
                        v: AttrV::Kv(KvAttrV { key: v, value: shorthand_value(v) }),
                        next,
                    },
                    _ => POut::Fail,
                }
            }
        } else {
            match spec_kebab(t, p) {
                POut::Found { v: k, next: n1 } => if tok_is_punct(t, n1, '=') {
                    match spec_value(t, n1 + 1) {
                        POut::Found { v, next } => POut::Found {
                            v: AttrV::Kv(KvAttrV { key: k, value: v }),
                            next,
                        },
                        _ => POut::Fail,
                    }
                } else {
                    POut::Found { v: AttrV::Bool(k), next: n1 }
                },
                _ => POut::Fail,
            }
        },
    }
}

/// A braced kebab identifier, as written in the shorthand `{key}`.
#[derive(Debug)]
pub struct BracedKebabIdent {
    pub ident: KebabIdent,
}

impl DeepView for BracedKebabIdent {
    type V = KebabIdentV;

    open spec fn deep_view(&self) -> KebabIdentV {
        self.ident.deep_view()
    }
}

impl BracedKebabIdent {
    /// Wraps an already-parsed identifier.
    pub fn new(ident: KebabIdent) -> (r: BracedKebabIdent)
        ensures
            r.deep_view() == ident.deep_view(),
    {
        BracedKebabIdent { ident }
    }

    /// The identifier between the braces.
    pub fn ident(&self) -> (r: &KebabIdent)
        ensures
            r.deep_view() == self.deep_view(),
    {
        &self.ident
    }

    /// The block value the shorthand synthesizes: a block holding the
    /// underscore-joined identifier.
    pub fn into_block_value(self) -> (r: Value)
        ensures
            r.deep_view() == shorthand_value(self.deep_view()),
    {
        let name = self.ident.to_snake_string();
        let tok = Token::Ident { name, spaced: false };
        let ghost tok_ghost = tok;
        let mut ts: Vec<Token> = Vec::new();
        ts.push(tok);
        proof {
            assert(ts@ =~= seq![tok_ghost]);
            lemma_deep_singleton(ts, tok_ghost);
        }
        Value::Block(ts)
    }
}

/// A braced plain identifier, as written in the shorthand `{key}` for
/// directives whose keys must be plain identifiers.
#[derive(Debug)]
pub struct BracedIdent {
    pub ident: String,
}

impl DeepView for BracedIdent {
    type V = Seq<char>;

    open spec fn deep_view(&self) -> Seq<char> {
        self.ident@
    }
}

impl BracedIdent {
    /// Wraps an already-parsed identifier.
    pub fn new(ident: String) -> (r: BracedIdent)
        ensures
            r.deep_view() == ident@,
    {
        BracedIdent { ident }
    }

    /// The identifier between the braces.
    pub fn ident(&self) -> (r: &String)
        ensures
            r@ == self.deep_view(),
    {
        &self.ident
    }

    /// The block value the shorthand synthesizes.
    pub fn into_block_value(self) -> (r: Value)
        ensures
            r.deep_view() == shorthand_value(seq![self.ident@]),
    {
        let ghost name_view = self.ident@;
        let tok = Token::Ident { name: self.ident, spaced: false };
        let ghost tok_ghost = tok;
        let mut ts: Vec<Token> = Vec::new();
        ts.push(tok);
        proof {
            assert(ts@ =~= seq![tok_ghost]);
            lemma_deep_singleton(ts, tok_ghost);
            assert(tok_ghost.deep_view() == (TokenV::Ident { name: name_view, spaced: false }));
            assert(snake_of(seq![name_view]) == name_view);
        }
        Value::Block(ts)
    }
}

impl Cursor {
    /// A braced kebab identifier `{abc-123}`.  On failure the cursor is
    /// untouched.
    pub fn parse_braced_kebab(&mut self) -> (r: Parsed<BracedKebabIdent>)
        requires
            old(self).wf(),
        ensures
            final(self).wf(),
            final(self).toks == old(self).toks,
            obeys::<BracedKebabIdent>(
                spec_braced_kebab(old(self).tv(), old(self).pos as int),
                r,
                old(self).pos as int,
                final(self).pos as int,
            ),
            r is Found ==> final(self).pos > old(self).pos,
    {
        let save = self.pos;
        match self.capture_group(Delim::Brace) {
            Parsed::Found(ts) => {
                let mut sub = Cursor::new(ts);
                match sub.parse_kebab() {
                    Parsed::Found(k) => {
                        if sub.at_end() {
                            Parsed::Found(BracedKebabIdent::new(k))
                        } else {
                            self.pos = save;
                            Parsed::Fail
                        }
                    },
                    Parsed::Fail => {
                        self.pos = save;
                        Parsed::Fail
                    },
                    Parsed::Abort(d) => {
                        proof {
                            assert(false);
                        }
                        Parsed::Abort(d)
                    },
                }
            },
            Parsed::Fail => Parsed::Fail,
            Parsed::Abort(d) => {
                proof {
                    assert(false);
                }
                Parsed::Abort(d)
            },
        }
    }

    /// A braced plain identifier `{abc_123}`.  On failure the cursor is
    /// untouched.
    pub fn parse_braced_ident(&mut self) -> (r: Parsed<BracedIdent>)
        requires
            old(self).wf(),
        ensures
            final(self).wf(),
            final(self).toks == old(self).toks,
            obeys::<BracedIdent>(
                spec_braced_ident(old(self).tv(), old(self).pos as int),
                r,
                old(self).pos as int,
                final(self).pos as int,
            ),
            r is Found ==> final(self).pos > old(self).pos,
    {
        let save = self.pos;
        match self.capture_group(Delim::Brace) {
            Parsed::Found(ts) => {
                if ts.len() == 1 {
                    match &ts[0] {
                        Token::Ident { name, .. } => Parsed::Found(BracedIdent::new(name.clone())),
                        _ => {
                            self.pos = save;
                            Parsed::Fail
                        },
                    }
                } else {
                    self.pos = save;
                    Parsed::Fail
                }
            },
            Parsed::Fail => Parsed::Fail,
            Parsed::Abort(d) => {
                proof {
                    assert(false);
                }
                Parsed::Abort(d)
            },
        }
    }

    /// A key and value: `key={value}` pairs or the shorthand `{key}`,
    /// with kebab-cased keys.  On failure the cursor is untouched.
    pub fn parse_braced_bool(&mut self) -> (r: Parsed<(KebabIdent, Value)>)
        requires
            old(self).wf(),
        ensures
            final(self).wf(),
            final(self).toks == old(self).toks,
            obeys::<(KebabIdent, Value)>(
                spec_braced_bool(old(self).tv(), old(self).pos as int),
                r,
                old(self).pos as int,
                final(self).pos as int,
            ),
            r is Found ==> final(self).pos > old(self).pos,
    {
        let mut brace = false;
        if self.pos < self.toks.len() {
            brace = matches!(&self.toks[self.pos], Token::Open { delim: Delim::Brace });
        }
        if brace {
            match self.parse_braced_kebab() {
                Parsed::Found(bk) => {
                    let key = bk.ident().dup();
                    let value = bk.into_block_value();
                    Parsed::Found((key, value))
                },
                Parsed::Fail => Parsed::Fail,
                Parsed::Abort(d) => {
                    proof {
                        assert(false);
                    }
                    Parsed::Abort(d)
                },
            }
        } else {
            let save = self.pos;
            match self.parse_kebab() {
                Parsed::Found(k) => {
                    let mut eq = false;
                    if self.pos < self.toks.len() {
                        match &self.toks[self.pos] {
                            Token::Punct { ch, .. } => {
                                eq = *ch == '=';
                            },
                            _ => {},
                        }
                    }
                    if eq {
                        self.pos = self.pos + 1;
                        match self.parse_value() {
                            Parsed::Found(v) => Parsed::Found((k, v)),
                            Parsed::Fail => {
                                self.pos = save;
                                Parsed::Fail
                            },
                            Parsed::Abort(d) => {
                                proof {
                                    assert(false);
                                }
                                Parsed::Abort(d)
                            },
                        }
                    } else {
                        self.pos = save;
                        Parsed::Fail
                    }
                },
                Parsed::Fail => Parsed::Fail,
                Parsed::Abort(d) => {
                    proof {
                        assert(false);
                    }
                    Parsed::Abort(d)
                },
            }
        }
    }

    /// A kebab identifier or a string-literal key.  On failure the
    /// cursor is untouched.
    pub fn parse_kebab_or_str(&mut self) -> (r: Parsed<KebabIdentOrStr>)
        requires
            old(self).wf(),
        ensures
            final(self).wf(),
            final(self).toks == old(self).toks,
            obeys::<KebabIdentOrStr>(
                spec_kebab_or_str(old(self).tv(), old(self).pos as int),
                r,
                old(self).pos as int,
                final(self).pos as int,
            ),
            r is Found ==> final(self).pos > old(self).pos,
    {
        let mut lit: Option<String> = None;
        if self.pos < self.toks.len() {
            match &self.toks[self.pos] {
                Token::LitStr { text } => {
                    lit = Some(text.clone());
                },
                _ => {},
            }
        }
        match lit {
            Some(text) => {
                self.pos = self.pos + 1;
                Parsed::Found(KebabIdentOrStr::Str(text))
            },
            None => match self.parse_kebab() {
                Parsed::Found(k) => Parsed::Found(KebabIdentOrStr::KebabIdent(k)),
                Parsed::Fail => Parsed::Fail,
                Parsed::Abort(d) => {
                    proof {
                        assert(false);
                    }
                    Parsed::Abort(d)
                },
            },
        }
    }

    /// A key and value where the key may be a string literal, for
    /// `class:` and `style:` directives.  On failure the cursor is
    /// untouched.
    pub fn parse_str_braced(&mut self) -> (r: Parsed<(KebabIdentOrStr, Value)>)
        requires
            old(self).wf(),
        ensures
            final(self).wf(),
            final(self).toks == old(self).toks,
            obeys::<(KebabIdentOrStr, Value)>(
                spec_str_braced(old(self).tv(), old(self).pos as int),
                r,
                old(self).pos as int,
                final(self).pos as int,
            ),
            r is Found ==> final(self).pos > old(self).pos,
    {
        let mut brace = false;
        if self.pos < self.toks.len() {
            brace = matches!(&self.toks[self.pos], Token::Open { delim: Delim::Brace });
        }
        if brace {
            match self.parse_braced_kebab() {
                Parsed::Found(bk) => {
                    let key = bk.ident().dup();
                    let value = bk.into_block_value();
                    Parsed::Found((KebabIdentOrStr::KebabIdent(key), value))
                },
                Parsed::Fail => Parsed::Fail,
                Parsed::Abort(d) => {
                    proof {
                        assert(false);
                    }
                    Parsed::Abort(d)
                },
            }
        } else {
            let save = self.pos;
            match self.parse_kebab_or_str() {
                Parsed::Found(k) => {
                    let mut eq = false;
                    if self.pos < self.toks.len() {
                        match &self.toks[self.pos] {
                            Token::Punct { ch, .. } => {
                                eq = *ch == '=';
                            },
                            _ => {},
                        }
                    }
                    if eq {
                        self.pos = self.pos + 1;
                        match self.parse_value() {
                            Parsed::Found(v) => Parsed::Found((k, v)),
                            Parsed::Fail => {
                                self.pos = save;
                                Parsed::Fail
                            },
                            Parsed::Abort(d) => {
                                proof {
                                    assert(false);
                                }
                                Parsed::Abort(d)
                            },
                        }
                    } else {
                        self.pos = save;
                        Parsed::Fail
                    }
                },
                Parsed::Fail => Parsed::Fail,
                Parsed::Abort(d) => {
                    proof {
                        assert(false);
                    }
                    Parsed::Abort(d)
                },
            }
        }
    }

    /// A key and value whose key is one plain identifier.  On failure
    /// the cursor is untouched.
    pub fn parse_ident_braced(&mut self) -> (r: Parsed<(String, Value)>)
        requires
            old(self).wf(),
        ensures
            final(self).wf(),
            final(self).toks == old(self).toks,
            obeys::<(String, Value)>(
                spec_ident_braced(old(self).tv(), old(self).pos as int),
                r,
                old(self).pos as int,
                final(self).pos as int,
            ),
            r is Found ==> final(self).pos > old(self).pos,
    {
        let mut brace = false;
        if self.pos < self.toks.len() {
            brace = matches!(&self.toks[self.pos], Token::Open { delim: Delim::Brace });
        }
        if brace {
            match self.parse_braced_ident() {
                Parsed::Found(bi) => {
                    let key = bi.ident().clone();
                    let value = bi.into_block_value();
                    Parsed::Found((key, value))
                },
                Parsed::Fail => Parsed::Fail,
                Parsed::Abort(d) => {
                    proof {
                        assert(false);
                    }
                    Parsed::Abort(d)
                },
            }
        } else {
            let save = self.pos;
            let mut name_found: Option<String> = None;
            if self.pos < self.toks.len() {
                match &self.toks[self.pos] {
                    Token::Ident { name, .. } => {
                        name_found = Some(name.clone());
                    },
                    _ => {},
                }
            }
            match name_found {
                Some(name) => {
                    let mut eq = false;
                    if self.toks.len() - self.pos >= 2 {
                        match &self.toks[self.pos + 1] {
                            Token::Punct { ch, .. } => {
                                eq = *ch == '=';
                            },
                            _ => {},
                        }
                    }
                    if eq {
                        self.pos = self.pos + 2;
                        match self.parse_value() {
                            Parsed::Found(v) => Parsed::Found((name, v)),
                            Parsed::Fail => {
                                self.pos = save;
                                Parsed::Fail
                            },
                            Parsed::Abort(d) => {
                                proof {
                                    assert(false);
                                }
                                Parsed::Abort(d)
                            },
                        }
                    } else {
                        Parsed::Fail
                    }
                },
                None => Parsed::Fail,
            }
        }
    }

    /// A directive attribute whose keyword and colon stand at the
    /// cursor: consumes them, then the namespace-specific rest.  The
    /// colon commits the grammar: failures abort.
    pub fn parse_dir_then(&mut self, kind: DirKind) -> (r: Parsed<Attr>)
        requires
            old(self).wf(),
            dir_lookahead(old(self).tv(), old(self).pos as int) == Some(kind),
        ensures
            final(self).wf(),
            final(self).toks == old(self).toks,
            obeys::<Attr>(
                spec_directive(old(self).tv(), old(self).pos as int, kind),
                r,
                old(self).pos as int,
                final(self).pos as int,
            ),
            r is Found ==> final(self).pos > old(self).pos,
    {
        let span = self.pos;
        self.pos = self.pos + 2;
        match kind {
            DirKind::Clone => {
                let mut name_found: Option<String> = None;
                if self.pos < self.toks.len() {
                    match &self.toks[self.pos] {
                        Token::Ident { name, .. } => {
                            name_found = Some(name.clone());
                        },
                        _ => {},
                    }
                }
                match name_found {
                    Some(name) => {
                        self.pos = self.pos + 1;
                        Parsed::Found(
                            Attr::Directive(
                                Directive {
                                    dir: kind,
                                    key: KebabIdentOrStr::KebabIdent(KebabIdent::from_one(name)),
                                    value: None,
                                    span,
                                },
                            ),
                        )
                    },
                    None => Parsed::Abort(
                        Diag::new(self.pos, "expected an identifier after the directive"),
                    ),
                }
            },
            DirKind::Use => {
                let mut name_found: Option<String> = None;
                if self.pos < self.toks.len() {
                    match &self.toks[self.pos] {
                        Token::Ident { name, .. } => {
                            name_found = Some(name.clone());
                        },
                        _ => {},
                    }
                }
                match name_found {
                    Some(name) => {
                        let mut eq = false;
                        if self.toks.len() - self.pos >= 2 {
                            match &self.toks[self.pos + 1] {
                                Token::Punct { ch, .. } => {
                                    eq = *ch == '=';
                                },
                                _ => {},
                            }
                        }
                        if eq {
                            self.pos = self.pos + 2;
                            match self.parse_value() {
                                Parsed::Found(v) => Parsed::Found(
                                    Attr::Directive(
                                        Directive {
                                            dir: kind,
                                            key: KebabIdentOrStr::KebabIdent(
                                                KebabIdent::from_one(name),
                                            ),
                                            value: Some(v),
                                            span,
                                        },
                                    ),
                                ),
                                Parsed::Fail => Parsed::Abort(
                                    Diag::new(self.pos, "expected a value after `=`"),
                                ),
                                Parsed::Abort(d) => {
                                    proof {
                                        assert(false);
                                    }
                                    Parsed::Abort(d)
                                },
                            }
                        } else {
                            self.pos = self.pos + 1;
                            Parsed::Found(
                                Attr::Directive(
                                    Directive {
                                        dir: kind,
                                        key: KebabIdentOrStr::KebabIdent(
                                            KebabIdent::from_one(name),
                                        ),
                                        value: None,
                                        span,
                                    },
                                ),
                            )
                        }
                    },
                    None => Parsed::Abort(
                        Diag::new(self.pos, "expected an identifier after the directive"),
                    ),
                }
            },
            DirKind::Class | DirKind::Style => match self.parse_str_braced() {
                Parsed::Found((key, v)) => Parsed::Found(
                    Attr::Directive(Directive { dir: kind, key, value: Some(v), span }),
                ),
                Parsed::Fail => Parsed::Abort(
                    Diag::new(self.pos, "expected a key and value after the directive"),
                ),
                Parsed::Abort(d) => {
                    proof {
                        assert(false);
                    }
                    Parsed::Abort(d)
                },
            },
            DirKind::On => match self.parse_braced_bool() {
                Parsed::Found((key, v)) => Parsed::Found(
                    Attr::Directive(
                        Directive {
                            dir: kind,
                            key: KebabIdentOrStr::KebabIdent(key),
                            value: Some(v),
                            span,
                        },
                    ),
                ),
                Parsed::Fail => Parsed::Abort(
                    Diag::new(self.pos, "expected a key and value after the directive"),
                ),
                Parsed::Abort(d) => {
                    proof {
                        assert(false);
                    }
                    Parsed::Abort(d)
                },
            },
            DirKind::Prop | DirKind::Attr => match self.parse_ident_braced() {
                Parsed::Found((name, v)) => Parsed::Found(
                    Attr::Directive(
                        Directive {
                            dir: kind,
                            key: KebabIdentOrStr::KebabIdent(KebabIdent::from_one(name)),
                            value: Some(v),
                            span,
                        },
                    ),
                ),
                Parsed::Fail => Parsed::Abort(
                    Diag::new(self.pos, "expected a key and value after the directive"),
                ),
                Parsed::Abort(d) => {
                    proof {
                        assert(false);
                    }
                    Parsed::Abort(d)
                },
            },
        }
    }

    /// One attribute.  On soft failure the cursor is untouched so the
    /// caller can detect the end of the attribute list.
    pub fn parse_attribute(&mut self) -> (r: Parsed<Attr>)
        requires
            old(self).wf(),
        ensures
            final(self).wf(),
            final(self).toks == old(self).toks,
            obeys::<Attr>(
                spec_attribute(old(self).tv(), old(self).pos as int),
                r,
                old(self).pos as int,
                final(self).pos as int,
            ),
            r is Found ==> final(self).pos > old(self).pos,
    {
        let mut kind_opt: Option<DirKind> = None;
        if self.toks.len() - self.pos >= 2 {
            match (&self.toks[self.pos], &self.toks[self.pos + 1]) {
                (Token::Ident { name, .. }, Token::Punct { ch, .. }) => {
                    if *ch == ':' {
                        kind_opt = dir_kind(name);
                    }
                },
                _ => {},
            }
        }
        match kind_opt {
            Some(kind) => self.parse_dir_then(kind),
            None => {
                let mut brace = false;
                if self.pos < self.toks.len() {
                    brace = matches!(&self.toks[self.pos], Token::Open { delim: Delim::Brace });
                }
                if brace {
                    let mut dotdot = false;
                    if self.toks.len() - self.pos >= 2 {
                        dotdot = matches!(&self.toks[self.pos + 1], Token::DotDot);
                    }
                    if dotdot {
                        let span = self.pos;
                        match self.find_close(Delim::Brace, self.pos + 1, 0) {
                            Some(e) => {
                                proof {
                                    crate::cursor::lemma_scan_close_bounds(
                                        self.tv(),
                                        Delim::Brace,
                                        self.pos + 2,
                                        0,
                                    );
                                }
                                let expr = self.copy_range(self.pos + 2, e);
                                self.pos = e + 1;
                                Parsed::Found(Attr::Spread(Spread { expr, span }))
                            },
                            None => Parsed::Fail,
                        }
                    } else {
                        match self.parse_braced_kebab() {
                            Parsed::Found(bk) => {
                                let key = bk.ident().dup();
                                let value = bk.into_block_value();
                                Parsed::Found(Attr::Kv(KvAttr::new(key, value)))
                            },
                            Parsed::Fail => Parsed::Fail,
                            Parsed::Abort(d) => {
                                proof {
                                    assert(false);
                                }
                                Parsed::Abort(d)
                            },
                        }
                    }
                } else {
                    let save = self.pos;
                    match self.parse_kebab() {
                        Parsed::Found(k) => {
                            let mut eq = false;
                            if self.pos < self.toks.len() {
                                match &self.toks[self.pos] {
                                    Token::Punct { ch, .. } => {
                                        eq = *ch == '=';
                                    },
                                    _ => {},
                                }
                            }
                            if eq {
                                self.pos = self.pos + 1;
                                match self.parse_value() {
                                    Parsed::Found(v) => Parsed::Found(Attr::Kv(KvAttr::new(k, v))),
                                    Parsed::Fail => {
                                        self.pos = save;
                                        Parsed::Fail
                                    },
                                    Parsed::Abort(d) => {
                                        proof {
                                            assert(false);
                                        }
                                        Parsed::Abort(d)
                                    },
                                }
                            } else {
                                Parsed::Found(Attr::Bool(k))
                            }
                        },
                        Parsed::Fail => Parsed::Fail,
                        Parsed::Abort(d) => {
                            proof {
                                assert(false);
                            }
                            Parsed::Abort(d)
                        },
                    }
                }
            },
        }
    }
}

} // verus!
