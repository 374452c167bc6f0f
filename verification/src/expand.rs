//! The expander: lowers a parsed tree into a builder-call expression
//! of the host language, written out as text.
//!
//! Emission rules, chosen once and kept deterministic:
//! - a captured token run is re-emitted with single spaces between
//!   tokens (the host language is whitespace-insensitive there);
//! - `Block(ts)` emits `{ ts }`; `BracketClosure(ts)` emits the same
//!   block with `move | |` prefixed, a zero-parameter closure;
//! - an element emits its tag constructor (`div()`, with `::<...>` for
//!   generics), then `.class("...", true)` per selector class, then
//!   `.id("...")`, then one setter per attribute, then its children;
//! - on an HTML element a plain attribute emits
//!   `.attr("key", value)` with the kebab-cased key quoted; on a
//!   component it emits `.snake_key(value)`;
//! - directives emit `.class("k", v)`, `.style("k", v)`, `.on("k", v)`,
//!   `.prop("k", v)`, `.attr("k", v)`, `.directive(k, v)`; `clone:x`
//!   emits `let x = x.clone();` inside the children closure;
//! - `class:`, `style:`, `prop:`, `attr:` and spread attributes are
//!   rejected on components; `clone:` is rejected on HTML elements;
//! - children attach with `.child(body)`, or with
//!   `.children(move |params| { lets body })` when closure parameters
//!   or clones are present; a single child is attached directly, while
//!   zero or several children build a `Fragment::new(vec![...])` in
//!   source order.

use vstd::prelude::*;

use crate::attribute::{lit_str_chars, Attr, AttrV, DirKind, KebabIdentOrStrV};
use crate::children::{Child, ChildV};
use crate::diag::{res_obeys, Diag, DiagV};
use crate::element::{Element, ElementV};
use crate::ident::{dash_of, snake_of, KebabIdent};
use crate::selector::{Selector, SelectorV, Tag, TagV};
use crate::seq_util::lemma_deep_push;
use crate::token::{render_tokens, render_toks, Token, TokenV};
use crate::value::{Lit, LitV, Value, ValueV};

verus! {

/// The text of a braced block holding the token run.
pub open spec fn block_chars(ts: Seq<TokenV>) -> Seq<char> {
    "{ "@ + render_toks(ts) + " }"@
}

/// The tokens prefixed to a bracket value's payload: `move | |`, a
/// zero-parameter closure head.
pub open spec fn closure_prefix() -> Seq<TokenV> {
    seq![
        TokenV::Ident { name: "move"@, spaced: false },
        TokenV::Punct { ch: '|', spaced: true },
        TokenV::Punct { ch: '|', spaced: false },
    ]
}

/// The emitted text of a value.
pub open spec fn value_chars(v: ValueV) -> Seq<char> {
    match v {
        ValueV::Lit(LitV::Str(s)) => "\""@ + s + "\""@,
        ValueV::Lit(LitV::Int(d)) => d,
        ValueV::Lit(LitV::Bool(b)) => if b {
            "true"@
        } else {
            "false"@
        },
        ValueV::Block(ts) => block_chars(ts),
        ValueV::BracketClosure(ts) => block_chars(closure_prefix() + ts),
    }
}

/// The emitted text of an optional directive value; an absent value
/// emits the unit value.
pub open spec fn opt_value_chars(v: Option<ValueV>) -> Seq<char> {
    match v {
        Some(v) => value_chars(v),
        None => "()"@,
    }
}

/// A directive key used as a plain identifier.
pub open spec fn key_ident_chars(k: KebabIdentOrStrV) -> Seq<char> {
    match k {
        KebabIdentOrStrV::Kebab(k) => snake_of(k),
        KebabIdentOrStrV::Str(s) => s,
    }
}

/// The setter emitted for a `key = value` pair: the component builder
/// call, or the quoted-attribute call on an HTML element.
pub open spec fn kv_chars(key: Seq<Seq<char>>, value: ValueV, component: bool) -> Seq<char> {
    if component {
        "."@ + snake_of(key) + "("@ + value_chars(value) + ")"@
    } else {
        ".attr(\""@ + dash_of(key) + "\", "@ + value_chars(value) + ")"@
    }
}

/// The setter emitted for one attribute, or the diagnostic rejecting
/// it on this node kind.
pub open spec fn attr_chars(a: AttrV, component: bool) -> Result<Seq<char>, DiagV> {
    match a {
        AttrV::Kv(kv) => Ok(kv_chars(kv.key, kv.value, component)),
        AttrV::Bool(k) => Ok(kv_chars(k, ValueV::Lit(LitV::Bool(true)), component)),
        AttrV::Directive(d) => match d.dir {
            DirKind::Class => if component {
                Err(DiagV { at: d.span, msg: "this attribute is not supported on components"@ })
            } else {
                Ok(".class(\""@ + lit_str_chars(d.key) + "\", "@ + opt_value_chars(d.value) + ")"@)
            },
            DirKind::Style => if component {
                Err(DiagV { at: d.span, msg: "this attribute is not supported on components"@ })
            } else {
                Ok(".style(\""@ + lit_str_chars(d.key) + "\", "@ + opt_value_chars(d.value) + ")"@)
            },
            DirKind::On => Ok(
                ".on(\""@ + lit_str_chars(d.key) + "\", "@ + opt_value_chars(d.value) + ")"@,
            ),
            DirKind::Prop => if component {
                Err(DiagV { at: d.span, msg: "this attribute is not supported on components"@ })
            } else {
                Ok(".prop(\""@ + lit_str_chars(d.key) + "\", "@ + opt_value_chars(d.value) + ")"@)
            },
            DirKind::Attr => if component {
                Err(DiagV { at: d.span, msg: "this attribute is not supported on components"@ })
            } else {
                Ok(".attr(\""@ + lit_str_chars(d.key) + "\", "@ + opt_value_chars(d.value) + ")"@)
            },
            DirKind::Use => Ok(
                ".directive("@ + key_ident_chars(d.key) + ", "@ + opt_value_chars(d.value) + ")"@,
            ),
            DirKind::Clone => if component {
                Ok(Seq::empty())
            } else {
                Err(
                    DiagV {
                        at: d.span,
                        msg: "the clone directive is only supported on components"@,
                    },
                )
            },
        },
        AttrV::Spread(s) => if component {
            Err(DiagV { at: s.span, msg: "this attribute is not supported on components"@ })
        } else {
            Ok(".attrs("@ + render_toks(s.expr) + ")"@)
        },
    }
}

/// Whether an attribute is a spread: spread attachments are applied
/// after every other setter.
pub open spec fn is_spread(a: AttrV) -> bool {
    a matches AttrV::Spread(_)
}

/// The setter chain of the attributes whose spread-ness matches
/// `spreads`, in source order; the first rejected such attribute wins.
pub open spec fn attrs_emit(attrs: Seq<AttrV>, component: bool, spreads: bool) -> Result<
    Seq<char>,
    DiagV,
>
    decreases attrs.len(),
{
    if attrs.len() == 0 {
        Ok(Seq::empty())
    } else if is_spread(attrs[0]) != spreads {
        attrs_emit(attrs.drop_first(), component, spreads)
    } else {
        match attr_chars(attrs[0], component) {
            Ok(s) => match attrs_emit(attrs.drop_first(), component, spreads) {
                Ok(rest) => Ok(s + rest),
                Err(d) => Err(d),
            },
            Err(d) => Err(d),
        }
    }
}

/// The `let x = x.clone();` prologue collected from `clone:` directives,
/// in source order.
pub open spec fn clone_lets_chars(attrs: Seq<AttrV>) -> Seq<char>
    decreases attrs.len(),
{
    if attrs.len() == 0 {
        Seq::empty()
    } else {
        let rest = clone_lets_chars(attrs.drop_first());
        match attrs[0] {
            AttrV::Directive(d) => if d.dir is Clone {
                "let "@ + key_ident_chars(d.key) + " = "@ + key_ident_chars(d.key)
                    + ".clone(); "@ + rest
            } else {
                rest
            },
            _ => rest,
        }
    }
}

/// The `.class("...", true)` chain of the selector's classes.
pub open spec fn classes_chars(cs: Seq<Seq<Seq<char>>>) -> Seq<char>
    decreases cs.len(),
{
    if cs.len() == 0 {
        Seq::empty()
    } else {
        ".class(\""@ + dash_of(cs[0]) + "\", true)"@ + classes_chars(cs.drop_first())
    }
}

/// The `.id("...")` call of the selector's id, if any.
pub open spec fn id_chars(id: Option<Seq<Seq<char>>>) -> Seq<char> {
    match id {
        Some(k) => ".id(\""@ + dash_of(k) + "\")"@,
        None => Seq::empty(),
    }
}

/// The constructor name of a tag.
pub open spec fn tag_name_chars(tag: TagV) -> Seq<char> {
    match tag {
        TagV::Html(k) => snake_of(k),
        TagV::Component(n) => n,
        TagV::Slot(n) => n,
    }
}

/// The turbofish emitted for a captured generic argument list.
pub open spec fn generics_chars(g: Seq<TokenV>) -> Seq<char> {
    if g.len() == 0 {
        Seq::empty()
    } else {
        "::<"@ + render_toks(g) + ">"@
    }
}

/// The start of an element's call chain: constructor, classes, id.
pub open spec fn head_chars(sel: SelectorV) -> Seq<char> {
    tag_name_chars(sel.tag) + generics_chars(sel.generics) + "()"@ + classes_chars(sel.classes)
        + id_chars(sel.id)
}

/// The closure parameters joined by commas.
pub open spec fn params_join(ps: Seq<Seq<char>>) -> Seq<char>
    decreases ps.len(),
{
    if ps.len() == 0 {
        Seq::empty()
    } else if ps.len() == 1 {
        ps[0]
    } else {
        ps[0] + ", "@ + params_join(ps.drop_first())
    }
}

/// The emitted text of one child.
pub open spec fn child_chars(c: ChildV) -> Result<Seq<char>, DiagV>
    decreases c, 0int, 0int,
{
    match c {
        ChildV::Value(v) => Ok(value_chars(v)),
        ChildV::Element(e) => elem_chars(e),
    }
}

/// The comma-separated fragment items from `cs[i]` on, each converted
/// into a view.
pub open spec fn fragment_items(cs: Seq<ChildV>, i: int) -> Result<Seq<char>, DiagV>
    decreases cs, cs.len() - i, 1int,
{
    if i < 0 || i >= cs.len() {
        Ok(Seq::empty())
    } else {
        match child_chars(cs[i]) {
            Ok(s) => match fragment_items(cs, i + 1) {
                Ok(rest) => if i + 1 < cs.len() {
                    Ok(s + ".into_view()"@ + ", "@ + rest)
                } else {
                    Ok(s + ".into_view()"@)
                },
                Err(d) => Err(d),
            },
            Err(d) => Err(d),
        }
    }
}

/// The body that carries a children sequence: nothing for zero
/// children builds the unit value, one child stands alone, and two or
/// more build a fragment in source order.
pub open spec fn body_chars(cs: Seq<ChildV>) -> Result<Seq<char>, DiagV>
    decreases cs, cs.len(), 2int,
{
    if cs.len() == 0 {
        Ok("()"@)
    } else if cs.len() == 1 {
        child_chars(cs[0])
    } else {
        match fragment_items(cs, 0) {
            Ok(items) => Ok("Fragment::new(vec!["@ + items + "])"@),
            Err(d) => Err(d),
        }
    }
}

/// How children attach to their element: a direct `.child(...)`, or a
/// `.children(move |...| { ... })` closure when closure parameters or
/// clones are present.
pub open spec fn attach_chars(
    cs: Seq<ChildV>,
    closure_params: Option<Seq<Seq<char>>>,
    lets: Seq<char>,
) -> Result<Seq<char>, DiagV>
    decreases cs, cs.len() + 1, 0int,
{
    if closure_params is None && lets.len() == 0 {
        if cs.len() == 0 {
            Ok(Seq::empty())
        } else {
            match body_chars(cs) {
                Ok(b) => Ok(".child("@ + b + ")"@),
                Err(d) => Err(d),
            }
        }
    } else {
        match body_chars(cs) {
            Ok(b) => Ok(
                ".children(move |"@ + params_join(
                    match closure_params {
                        Some(ps) => ps,
                        None => Seq::empty(),
                    },
                ) + "| { "@ + lets + b + " })"@,
            ),
            Err(d) => Err(d),
        }
    }
}

/// The emitted call chain of one element, or the first diagnostic its
/// expansion raises.
pub open spec fn elem_chars(e: ElementV) -> Result<Seq<char>, DiagV>
    decreases e, 0int, 0int,
{
    let component = e.selector.tag.is_component_like();
    match attrs_emit(e.attrs, component, false) {
        Ok(setters) => match attrs_emit(e.attrs, component, true) {
            Err(d) => Err(d),
            Ok(spread_setters) => {
            let head = head_chars(e.selector) + setters + spread_setters;
            match e.children {
                Some(cs) => match attach_chars(
                    cs,
                    e.closure_params,
                    clone_lets_chars(e.attrs),
                ) {
                    Ok(att) => Ok(head + att),
                    Err(d) => Err(d),
                },
                None => Ok(head),
            }
            },
        },
        Err(d) => Err(d),
    }
}

/// The span of the first top-level slot child, if any.
pub open spec fn first_slot_span(cs: Seq<ChildV>, i: int) -> Option<int>
    decreases cs.len() - i,
{
    if i < 0 || i >= cs.len() {
        None
    } else {
        match cs[i] {
            ChildV::Element(e) => if e.selector.tag.is_slot() {
                Some(e.span)
            } else {
                first_slot_span(cs, i + 1)
            },
            _ => first_slot_span(cs, i + 1),
        }
    }
}

/// The whole translation's output for a parsed top level: exactly one
/// child expands alone, without a fragment wrapper; zero or several
/// children first reject top-level slots and then build a fragment in
/// source order.
pub open spec fn top_chars(cs: Seq<ChildV>) -> Result<Seq<char>, DiagV>
    decreases cs, cs.len() + 2, 0int,
{
    if cs.len() == 1 {
        match child_chars(cs[0]) {
            Ok(s) => Ok("{ "@ + s + " }"@),
            Err(d) => Err(d),
        }
    } else {
        match first_slot_span(cs, 0) {
            Some(at) => Err(
                DiagV { at, msg: "slots should be inside a parent that supports slots"@ },
            ),
            None => match fragment_items(cs, 0) {
                Ok(items) => Ok("{ "@ + "Fragment::new(vec!["@ + items + "])"@ + " }"@),
                Err(d) => Err(d),
            },
        }
    }
}

/// Appends structural copies of `src[i..]` to `dst`.
fn append_dups(dst: &mut Vec<Token>, src: &Vec<Token>, i: usize)
    requires
        i <= src.len(),
    ensures
        final(dst).deep_view() == old(dst).deep_view() + src.deep_view().skip(i as int),
    decreases src.len() - i,
{
    if i == src.len() {
        proof {
            assert(src.deep_view().skip(i as int) =~= Seq::<TokenV>::empty());
            assert(dst.deep_view() =~= dst.deep_view() + Seq::<TokenV>::empty());
        }
    } else {
        let t = src[i].dup();
        let ghost before = *dst;
        let ghost pushed = t;
        dst.push(t);
        proof {
            lemma_deep_push(before, *dst, pushed);
        }
        append_dups(dst, src, i + 1);
        proof {
            let sv = src.deep_view();
            assert(sv.skip(i as int) =~= seq![sv[i as int]] + sv.skip(i + 1));
            assert(before.deep_view() + sv.skip(i as int) =~= before.deep_view().push(sv[i as int])
                + sv.skip(i + 1));
        }
    }
}

/// The text of a braced block holding the token run, verbatim.
pub fn expand_block(ts: &Vec<Token>) -> (r: String)
    ensures
        r@ == block_chars(ts.deep_view()),
{
    let mut out = "{ ".to_owned();
    let body = render_tokens(ts);
    out.append(body.as_str());
    out.append(" }");
    out
}

/// The emitted text of a value.
pub fn expand_value(v: &Value) -> (r: String)
    ensures
        r@ == value_chars(v.deep_view()),
{
    match v {
        Value::Lit(Lit::Str(s)) => {
            let mut out = "\"".to_owned();
            out.append(s.as_str());
            out.append("\"");
            out
        },
        Value::Lit(Lit::Int(d)) => d.clone(),
        Value::Lit(Lit::Bool(b)) => if *b {
            "true".to_owned()
        } else {
            "false".to_owned()
        },
        Value::Block(ts) => expand_block(ts),
        Value::BracketClosure(ts) => {
            let mut pts: Vec<Token> = Vec::new();
            let ghost e0 = pts;
            let t0 = Token::Ident { name: "move".to_owned(), spaced: false };
            let ghost g0 = t0;
            pts.push(t0);
            proof {
                lemma_deep_push(e0, pts, g0);
            }
            let ghost e1 = pts;
            let t1 = Token::Punct { ch: '|', spaced: true };
            let ghost g1 = t1;
            pts.push(t1);
            proof {
                lemma_deep_push(e1, pts, g1);
            }
            let ghost e2 = pts;
            let t2 = Token::Punct { ch: '|', spaced: false };
            let ghost g2 = t2;
            pts.push(t2);
            proof {
                lemma_deep_push(e2, pts, g2);
                assert(pts.deep_view() =~= closure_prefix());
            }
            append_dups(&mut pts, ts, 0);
            proof {
                assert(ts.deep_view().skip(0) =~= ts.deep_view());
            }
            expand_block(&pts)
        },
    }
}

/// The emitted text of an optional directive value.
pub fn expand_opt_value(v: &Option<Value>) -> (r: String)
    ensures
        r@ == opt_value_chars(v.deep_view()),
{
    match v {
        Some(v) => expand_value(v),
        None => "()".to_owned(),
    }
}

/// The setter emitted for a `key = value` pair.
pub fn expand_kv(key: &KebabIdent, value: &Value, component: bool) -> (r: String)
    ensures
        r@ == kv_chars(key.deep_view(), value.deep_view(), component),
{
    if component {
        let mut out = ".".to_owned();
        let k = key.to_snake_string();
        out.append(k.as_str());
        out.append("(");
        let v = expand_value(value);
        out.append(v.as_str());
        out.append(")");
        out
    } else {
        let mut out = ".attr(\"".to_owned();
        let k = key.to_lit_str();
        out.append(k.as_str());
        out.append("\", ");
        let v = expand_value(value);
        out.append(v.as_str());
        out.append(")");
        out
    }
}

/// A directive setter: the call name, the quoted key, and the value.
fn dir_call(name: &str, key: &String, value: &Option<Value>) -> (r: String)
    ensures
        r@ == name@ + key@ + "\", "@ + opt_value_chars(value.deep_view()) + ")"@,
{
    let mut out = name.to_owned();
    out.append(key.as_str());
    out.append("\", ");
    let v = expand_opt_value(value);
    out.append(v.as_str());
    out.append(")");
    out
}

/// The setter emitted for one attribute, or the diagnostic rejecting
/// it on this node kind.
pub fn expand_attr(a: &Attr, component: bool) -> (r: Result<String, Diag>)
    ensures
        res_obeys(attr_chars(a.deep_view(), component), r),
{
    match a {
        Attr::Kv(kv) => Ok(expand_kv(&kv.key, &kv.value, component)),
        Attr::Bool(k) => Ok(expand_kv(k, &Value::Lit(Lit::Bool(true)), component)),
        Attr::Directive(d) => match d.dir {
            DirKind::Class => if component {
                Err(Diag::new(d.span, "this attribute is not supported on components"))
            } else {
                let key = d.key.lit_str();
                Ok(dir_call(".class(\"", &key, &d.value))
            },
            DirKind::Style => if component {
                Err(Diag::new(d.span, "this attribute is not supported on components"))
            } else {
                let key = d.key.lit_str();
                Ok(dir_call(".style(\"", &key, &d.value))
            },
            DirKind::On => {
                let key = d.key.lit_str();
                Ok(dir_call(".on(\"", &key, &d.value))
            },
            DirKind::Prop => if component {
                Err(Diag::new(d.span, "this attribute is not supported on components"))
            } else {
                let key = d.key.lit_str();
                Ok(dir_call(".prop(\"", &key, &d.value))
            },
            DirKind::Attr => if component {
                Err(Diag::new(d.span, "this attribute is not supported on components"))
            } else {
                let key = d.key.lit_str();
                Ok(dir_call(".attr(\"", &key, &d.value))
            },
            DirKind::Use => {
                let mut out = ".directive(".to_owned();
                let key = d.key.ident_str();
                out.append(key.as_str());
                out.append(", ");
                let v = expand_opt_value(&d.value);
                out.append(v.as_str());
                out.append(")");
                Ok(out)
            },
            DirKind::Clone => if component {
                let out = String::new();
                proof {
                    assert(out@ =~= Seq::<char>::empty());
                }
                Ok(out)
            } else {
                Err(Diag::new(d.span, "the clone directive is only supported on components"))
            },
        },
        Attr::Spread(s) => if component {
            Err(Diag::new(s.span, "this attribute is not supported on components"))
        } else {
            let mut out = ".attrs(".to_owned();
            let e = render_tokens(&s.expr);
            out.append(e.as_str());
            out.append(")");
            Ok(out)
        },
    }
}

/// The setter chain of the attributes `attrs[i..]` whose spread-ness
/// matches `spreads`.
pub fn expand_attrs(attrs: &Vec<Attr>, component: bool, spreads: bool, i: usize) -> (r: Result<
    String,
    Diag,
>)
    requires
        i <= attrs.len(),
    ensures
        res_obeys(attrs_emit(attrs.deep_view().skip(i as int), component, spreads), r),
    decreases attrs.len() - i,
{
    if i == attrs.len() {
        proof {
            assert(attrs.deep_view().skip(i as int) =~= Seq::<AttrV>::empty());
        }
        let out = String::new();
        proof {
            assert(out@ =~= Seq::<char>::empty());
        }
        Ok(out)
    } else {
        proof {
            let av = attrs.deep_view();
            assert(av.skip(i as int)[0] == av[i as int]);
            assert(av.skip(i as int).drop_first() =~= av.skip(i + 1));
        }
        let here_spread = matches!(&attrs[i], Attr::Spread(_));
        if here_spread != spreads {
            expand_attrs(attrs, component, spreads, i + 1)
        } else {
            match expand_attr(&attrs[i], component) {
                Ok(s0) => match expand_attrs(attrs, component, spreads, i + 1) {
                    Ok(rest) => {
                        let mut out = s0;
                        out.append(rest.as_str());
                        Ok(out)
                    },
                    Err(d) => Err(d),
                },
                Err(d) => Err(d),
            }
        }
    }
}

/// The clone prologue of the attributes `attrs[i..]`.
pub fn expand_clone_lets(attrs: &Vec<Attr>, i: usize) -> (r: String)
    requires
        i <= attrs.len(),
    ensures
        r@ == clone_lets_chars(attrs.deep_view().skip(i as int)),
    decreases attrs.len() - i,
{
    if i == attrs.len() {
        proof {
            assert(attrs.deep_view().skip(i as int) =~= Seq::<AttrV>::empty());
        }
        String::new()
    } else {
        proof {
            let av = attrs.deep_view();
            assert(av.skip(i as int)[0] == av[i as int]);
            assert(av.skip(i as int).drop_first() =~= av.skip(i + 1));
        }
        let rest = expand_clone_lets(attrs, i + 1);
        let mut is_clone = false;
        match &attrs[i] {
            Attr::Directive(d) => {
                is_clone = matches!(d.dir, DirKind::Clone);
            },
            _ => {},
        }
        if is_clone {
            match &attrs[i] {
                Attr::Directive(d) => {
                    let mut out = "let ".to_owned();
                    let key = d.key.ident_str();
                    out.append(key.as_str());
                    out.append(" = ");
                    out.append(key.as_str());
                    out.append(".clone(); ");
                    out.append(rest.as_str());
                    out
                },
                _ => {
                    proof {
                        assert(false);
                    }
                    rest
                },
            }
        } else {
            rest
        }
    }
}

/// The `.class(...)` chain of the selector classes `cs[i..]`.
fn expand_classes(cs: &Vec<KebabIdent>, i: usize) -> (r: String)
    requires
        i <= cs.len(),
    ensures
        r@ == classes_chars(cs.deep_view().skip(i as int)),
    decreases cs.len() - i,
{
    if i == cs.len() {
        proof {
            assert(cs.deep_view().skip(i as int) =~= Seq::<Seq<Seq<char>>>::empty());
        }
        String::new()
    } else {
        proof {
            let cv = cs.deep_view();
            assert(cv.skip(i as int)[0] == cv[i as int]);
            assert(cv.skip(i as int).drop_first() =~= cv.skip(i + 1));
        }
        let mut out = ".class(\"".to_owned();
        let k = cs[i].to_lit_str();
        out.append(k.as_str());
        out.append("\", true)");
        let rest = expand_classes(cs, i + 1);
        out.append(rest.as_str());
        out
    }
}

/// The start of an element's call chain: constructor, classes, id.
pub fn expand_head(sel: &Selector) -> (r: String)
    ensures
        r@ == head_chars(sel.deep_view()),
{
    let mut out = match &sel.tag {
        Tag::Html(k) => k.to_snake_string(),
        Tag::Component(n) => n.clone(),
        Tag::Slot(n) => n.clone(),
    };
    if sel.generics.len() > 0 {
        out.append("::<");
        let g = render_tokens(&sel.generics);
        out.append(g.as_str());
        out.append(">");
    }
    out.append("()");
    let classes = expand_classes(&sel.classes, 0);
    out.append(classes.as_str());
    match &sel.id {
        Some(k) => {
            out.append(".id(\"");
            let ks = k.to_lit_str();
            out.append(ks.as_str());
            out.append("\")");
        },
        None => {},
    }
    proof {
        assert(sel.classes.deep_view().skip(0) =~= sel.deep_view().classes);
    }
    out
}

/// The closure parameters `ps[i..]` joined by commas.
fn expand_params_join(ps: &Vec<String>, i: usize) -> (r: String)
    requires
        i <= ps.len(),
    ensures
        r@ == params_join(ps.deep_view().skip(i as int)),
    decreases ps.len() - i,
{
    if i == ps.len() {
        proof {
            assert(ps.deep_view().skip(i as int) =~= Seq::<Seq<char>>::empty());
        }
        String::new()
    } else if i + 1 == ps.len() {
        proof {
            assert(ps.deep_view().skip(i as int) =~= seq![ps.deep_view()[i as int]]);
        }
        ps[i].clone()
    } else {
        let mut out = ps[i].clone();
        out.append(", ");
        let rest = expand_params_join(ps, i + 1);
        out.append(rest.as_str());
        proof {
            let pv = ps.deep_view();
            assert(pv.skip(i as int)[0] == pv[i as int]);
            assert(pv.skip(i as int).drop_first() =~= pv.skip(i + 1));
            assert(out@ =~= params_join(pv.skip(i as int)));
        }
        out
    }
}

/// The emitted text of one child.
pub fn expand_child(c: &Child) -> (r: Result<String, Diag>)
    ensures
        res_obeys(child_chars(c.deep_view()), r),
    decreases c, 0int, 0int,
{
    match c {
        Child::Value(v) => Ok(expand_value(v)),
        Child::Element(e) => expand_element(e),
    }
}

/// The comma-separated fragment items from `cs[i]` on.
fn expand_fragment_items(cs: &Vec<Child>, i: usize) -> (r: Result<String, Diag>)
    requires
        i <= cs.len(),
    ensures
        res_obeys(fragment_items(cs.deep_view(), i as int), r),
    decreases cs, cs.len() - i, 1int,
{
    if i == cs.len() {
        let out = String::new();
        proof {
            assert(out@ =~= Seq::<char>::empty());
        }
        Ok(out)
    } else {
        match expand_child(&cs[i]) {
            Ok(s) => match expand_fragment_items(cs, i + 1) {
                Ok(rest) => {
                    let mut out = s;
                    out.append(".into_view()");
                    if i + 1 < cs.len() {
                        out.append(", ");
                        out.append(rest.as_str());
                    }
                    Ok(out)
                },
                Err(d) => Err(d),
            },
            Err(d) => Err(d),
        }
    }
}

/// The body carrying a children sequence: unit, a single child, or a
/// fragment in source order.
fn expand_body(cs: &Vec<Child>) -> (r: Result<String, Diag>)
    ensures
        res_obeys(body_chars(cs.deep_view()), r),
    decreases cs, cs.len(), 2int,
{
    if cs.len() == 0 {
        Ok("()".to_owned())
    } else if cs.len() == 1 {
        expand_child(&cs[0])
    } else {
        match expand_fragment_items(cs, 0) {
            Ok(items) => {
                let mut out = "Fragment::new(vec![".to_owned();
                out.append(items.as_str());
                out.append("])");
                Ok(out)
            },
            Err(d) => Err(d),
        }
    }
}

/// How children attach to their element.
fn expand_attach(cs: &Vec<Child>, closure_params: &Option<Vec<String>>, lets: &String) -> (r:
    Result<String, Diag>)
    ensures
        res_obeys(attach_chars(cs.deep_view(), closure_params.deep_view(), lets@), r),
    decreases cs, cs.len() + 1, 0int,
{
    let no_params = matches!(closure_params, None);
    let no_lets = lets.as_str().unicode_len() == 0;
    if no_params && no_lets {
        if cs.len() == 0 {
            let out = String::new();
            proof {
                assert(out@ =~= Seq::<char>::empty());
            }
            Ok(out)
        } else {
            match expand_body(cs) {
                Ok(b) => {
                    let mut out = ".child(".to_owned();
                    out.append(b.as_str());
                    out.append(")");
                    Ok(out)
                },
                Err(d) => Err(d),
            }
        }
    } else {
        match expand_body(cs) {
            Ok(b) => {
                let mut out = ".children(move |".to_owned();
                let ps = match closure_params {
                    Some(ps) => expand_params_join(ps, 0),
                    None => {
                        let s = String::new();
                        proof {
                            assert(s@ =~= params_join(Seq::<Seq<char>>::empty()));
                        }
                        s
                    },
                };
                proof {
                    match closure_params {
                        Some(p) => {
                            assert(p.deep_view().skip(0) =~= p.deep_view());
                        },
                        None => {},
                    }
                }
                out.append(ps.as_str());
                out.append("| { ");
                out.append(lets.as_str());
                out.append(b.as_str());
                out.append(" })");
                Ok(out)
            },
            Err(d) => Err(d),
        }
    }
}

/// The emitted call chain of one element, or the first diagnostic its
/// expansion raises.
pub fn expand_element(e: &Element) -> (r: Result<String, Diag>)
    ensures
        res_obeys(elem_chars(e.deep_view()), r),
    decreases e, 0int, 0int,
{
    let component = !matches!(&e.selector.tag, Tag::Html(_));
    proof {
        assert(e.attrs.deep_view().skip(0) =~= e.attrs.deep_view());
    }
    match expand_attrs(&e.attrs, component, false, 0) {
        Err(d) => Err(d),
        Ok(setters) => match expand_attrs(&e.attrs, component, true, 0) {
            Err(d) => Err(d),
            Ok(spread_setters) => {
            let mut out = expand_head(&e.selector);
            out.append(setters.as_str());
            out.append(spread_setters.as_str());
            match &e.children {
                Some(children) => {
                    let lets = expand_clone_lets(&e.attrs, 0);
                    proof {
                        assert(crate::children::children_vec_view(children.0)
                            =~= children.0.deep_view());
                    }
                    match expand_attach(&children.0, &e.closure_params, &lets) {
                        Ok(att) => {
                            out.append(att.as_str());
                            Ok(out)
                        },
                        Err(d) => Err(d),
                    }
                },
                None => Ok(out),
            }
            },
        },
    }
}

/// The index span of the first top-level slot child, if any.
fn find_slot(cs: &Vec<Child>, i: usize) -> (r: Option<usize>)
    requires
        i <= cs.len(),
    ensures
        match first_slot_span(cs.deep_view(), i as int) {
            Some(at) => r matches Some(x) && x as int == at,
            None => r is None,
        },
    decreases cs.len() - i,
{
    if i == cs.len() {
        None
    } else {
        let mut here: Option<usize> = None;
        match &cs[i] {
            Child::Element(e) => {
                match &e.selector.tag {
                    Tag::Slot(_) => {
                        here = Some(e.span);
                    },
                    _ => {},
                }
            },
            _ => {},
        }
        match here {
            Some(x) => Some(x),
            None => find_slot(cs, i + 1),
        }
    }
}

/// The whole translation's output for a parsed top level.
pub fn expand_top(cs: &Vec<Child>) -> (r: Result<String, Diag>)
    ensures
        res_obeys(top_chars(cs.deep_view()), r),
    decreases cs, cs.len() + 2, 0int,
{
    if cs.len() == 1 {
        match expand_child(&cs[0]) {
            Ok(s) => {
                let mut out = "{ ".to_owned();
                out.append(s.as_str());
                out.append(" }");
                Ok(out)
            },
            Err(d) => Err(d),
        }
    } else {
        match find_slot(cs, 0) {
            Some(at) => Err(Diag::new(at, "slots should be inside a parent that supports slots")),
            None => match expand_fragment_items(cs, 0) {
                Ok(items) => {
                    let mut out = "{ ".to_owned();
                    out.append("Fragment::new(vec![");
                    out.append(items.as_str());
                    out.append("])");
                    out.append(" }");
                    Ok(out)
                },
                Err(d) => Err(d),
            },
        }
    }
}

} // verus!
