//! The library's general guarantees, stated once and proved.
//!
//! Each parse production's own contract already pins its result to a
//! spec-level function of the input and says that a soft failure never
//! advances the cursor; the proofs here state the cross-cutting
//! consequences a user may rely on.

use vstd::prelude::*;

use crate::attribute::{AttrV, DirKind, DirectiveV, KvAttrV};
use crate::children::{spec_child, ChildV};
use crate::diag::{obeys, POut, Parsed};
use crate::element::ElementV;
use crate::expand::{
    attr_chars, attrs_emit, block_chars, child_chars, closure_prefix, elem_chars,
    first_slot_span, fragment_items, is_spread, top_chars, value_chars,
};
use crate::ident::{snake_of, KebabIdentV};
use crate::token::{render_toks, tok_chars, TokenV};
use crate::value::{spec_value, LitV, ValueV};

verus! {

/// Parsing is idempotent: any two runs of a production on the same
/// input and position agree — they succeed or fail together, and on
/// success they produce structurally identical trees and leave the
/// cursor at the same place.
pub proof fn lemma_parse_idempotent<T: DeepView>(
    s: POut<T::V>,
    r1: Parsed<T>,
    r2: Parsed<T>,
    p0: int,
    q1: int,
    q2: int,
)
    requires
        obeys::<T>(s, r1, p0, q1),
        obeys::<T>(s, r2, p0, q2),
    ensures
        r1 is Found <==> r2 is Found,
        r1 is Fail <==> r2 is Fail,
        r1 matches Parsed::Found(x1) ==> r2 matches Parsed::Found(x2) && x1.deep_view()
            == x2.deep_view() && q1 == q2,
{
}

/// A production that fails softly leaves the cursor exactly where it
/// stood before the attempt.
pub proof fn lemma_fail_non_advancing<T: DeepView>(s: POut<T::V>, r: Parsed<T>, p0: int, p1: int)
    requires
        obeys::<T>(s, r, p0, p1),
        r is Fail,
    ensures
        p1 == p0,
{
}

/// Attribute shorthand: the attribute that `{name}` parses to expands
/// byte-for-byte like the explicit pair `name={name}` — both are the
/// key with a block value holding the underscore-joined name.
pub proof fn lemma_shorthand_equivalence(k: KebabIdentV, component: bool)
    ensures
        attr_chars(AttrV::Kv(KvAttrV { key: k, value: crate::attribute::shorthand_value(k) }),
            component) == attr_chars(
            AttrV::Kv(
                KvAttrV {
                    key: k,
                    value: ValueV::Block(
                        seq![TokenV::Ident { name: snake_of(k), spaced: false }],
                    ),
                },
            ),
            component,
        ),
{
}

/// What the shorthand parses to: where `{name}` is read as an
/// attribute, the parse yields exactly the key together with the
/// synthesized block value — the pair that `name={name}` denotes.
pub proof fn lemma_shorthand_parse(t: Seq<TokenV>, p: int, k: KebabIdentV, next: int)
    requires
        crate::attribute::dir_lookahead(t, p) is None,
        crate::token::tok_is_open(t, p, crate::token::Delim::Brace),
        !crate::token::tok_is_dotdot(t, p + 1),
        crate::attribute::spec_braced_kebab(t, p) == (POut::Found { v: k, next }),
    ensures
        crate::attribute::spec_attribute(t, p) == (POut::Found {
            v: AttrV::Kv(KvAttrV { key: k, value: crate::attribute::shorthand_value(k) }),
            next,
        }),
{
}

/// Boolean sugar: a bare attribute `flag` expands exactly like
/// `flag=true`.
pub proof fn lemma_boolean_sugar(k: KebabIdentV, component: bool)
    ensures
        attr_chars(AttrV::Bool(k), component) == attr_chars(
            AttrV::Kv(KvAttrV { key: k, value: ValueV::Lit(LitV::Bool(true)) }),
            component,
        ),
{
}

/// Two token runs whose tokens read the same render the same: recorded
/// spacing never reaches the output.
pub proof fn lemma_render_ignores_spacing(a: Seq<TokenV>, b: Seq<TokenV>)
    requires
        a.len() == b.len(),
        forall|i: int| 0 <= i < a.len() ==> tok_chars(a[i]) == tok_chars(b[i]),
    ensures
        render_toks(a) == render_toks(b),
    decreases a.len(),
{
    if a.len() > 1 {
        assert forall|i: int| 0 <= i < a.drop_first().len() implies tok_chars(
            a.drop_first()[i],
        ) == tok_chars(b.drop_first()[i]) by {
            assert(a.drop_first()[i] == a[i + 1]);
            assert(b.drop_first()[i] == b[i + 1]);
        }
        lemma_render_ignores_spacing(a.drop_first(), b.drop_first());
    }
}

/// Bracket sugar: `key=[expr]` emits byte-for-byte what
/// `key={move || expr}` emits — a block whose body is the zero-
/// parameter closure around the expression, whatever spacing the
/// written closure tokens carried.
pub proof fn lemma_bracket_sugar(ts: Seq<TokenV>, sp0: bool, sp1: bool, sp2: bool)
    ensures
        value_chars(ValueV::BracketClosure(ts)) == value_chars(
            ValueV::Block(
                seq![
                    TokenV::Ident { name: "move"@, spaced: sp0 },
                    TokenV::Punct { ch: '|', spaced: sp1 },
                    TokenV::Punct { ch: '|', spaced: sp2 },
                ] + ts,
            ),
        ),
{
    let a = closure_prefix() + ts;
    let b = seq![
        TokenV::Ident { name: "move"@, spaced: sp0 },
        TokenV::Punct { ch: '|', spaced: sp1 },
        TokenV::Punct { ch: '|', spaced: sp2 },
    ] + ts;
    assert(a.len() == b.len());
    assert forall|i: int| 0 <= i < a.len() implies tok_chars(a[i]) == tok_chars(b[i]) by {
        if i >= 3 {
            assert(a[i] == ts[i - 3]);
            assert(b[i] == ts[i - 3]);
        }
    }
    lemma_render_ignores_spacing(a, b);
    assert(block_chars(a) == block_chars(b));
}

/// A single top-level child expands alone, with no fragment wrapper
/// around it.
pub proof fn lemma_single_root(cs: Seq<ChildV>, s: Seq<char>)
    requires
        cs.len() == 1,
        child_chars(cs[0]) == Ok::<Seq<char>, crate::diag::DiagV>(s),
    ensures
        top_chars(cs) == Ok::<Seq<char>, crate::diag::DiagV>("{ "@ + s + " }"@),
{
}

/// Zero or several top-level children, none of them a slot, expand to
/// a fragment collection whose items stand in source order.
pub proof fn lemma_fragment_root(cs: Seq<ChildV>, items: Seq<char>)
    requires
        cs.len() != 1,
        first_slot_span(cs, 0) is None,
        fragment_items(cs, 0) == Ok::<Seq<char>, crate::diag::DiagV>(items),
    ensures
        top_chars(cs) == Ok::<Seq<char>, crate::diag::DiagV>(
            "{ "@ + "Fragment::new(vec!["@ + items + "])"@ + " }"@,
        ),
{
}

/// A numeric or boolean literal directly in child position is a hard
/// abort; the same expression inside braces is an ordinary block child.
pub proof fn lemma_child_literal_restriction(
    t: Seq<TokenV>,
    p: int,
    limit: int,
    v: ValueV,
    next: int,
)
    requires
        spec_value(t, p) == (POut::Found { v, next }),
    ensures
        v.is_non_string_lit() ==> spec_child(t, p, limit) == (POut::<ChildV>::Abort {
            at: p,
            msg: "only string literals are allowed in children"@,
        }),
        (v matches ValueV::Block(_)) ==> spec_child(t, p, limit) == (POut::<ChildV>::Found {
            v: ChildV::Value(v),
            next,
        }),
{
}

/// Directive legality is decided by the node kind: `class:`, `style:`,
/// `prop:` and `attr:` directives are rejected on components with a
/// diagnostic at the directive, and accepted on HTML elements.
pub proof fn lemma_directive_legality(d: DirectiveV)
    requires
        d.dir is Class || d.dir is Style || d.dir is Prop || d.dir is Attr,
    ensures
        attr_chars(AttrV::Directive(d), true) is Err,
        attr_chars(AttrV::Directive(d), true)->Err_0.at == d.span,
        attr_chars(AttrV::Directive(d), false) is Ok,
{
}

/// The clone directive is the mirror image: accepted on components,
/// rejected on HTML elements.
pub proof fn lemma_clone_legality(d: DirectiveV)
    requires
        d.dir is Clone,
    ensures
        attr_chars(AttrV::Directive(d), true) is Ok,
        attr_chars(AttrV::Directive(d), false) is Err,
{
}

/// An attribute list holding one rejected attribute rejects as a
/// whole: the setter chain is never emitted around an illegal setter.
pub proof fn lemma_attrs_reject(attrs: Seq<AttrV>, i: int, component: bool, spreads: bool)
    requires
        0 <= i < attrs.len(),
        attr_chars(attrs[i], component) is Err,
        is_spread(attrs[i]) == spreads,
    ensures
        attrs_emit(attrs, component, spreads) is Err,
    decreases i,
{
    if i > 0 {
        assert(attrs.drop_first()[i - 1] == attrs[i]);
        lemma_attrs_reject(attrs.drop_first(), i - 1, component, spreads);
    }
}

/// A component-kind element with any `class:`, `style:`, `prop:` or
/// `attr:` directive among its attributes fails to expand.
pub proof fn lemma_element_rejects_illegal_attr(e: ElementV, i: int)
    requires
        e.selector.tag.is_component_like(),
        0 <= i < e.attrs.len(),
        e.attrs[i] matches AttrV::Directive(d) && (d.dir is Class || d.dir is Style || d.dir
            is Prop || d.dir is Attr),
    ensures
        elem_chars(e) is Err,
{
    match e.attrs[i] {
        AttrV::Directive(d) => {
            lemma_directive_legality(d);
            lemma_attrs_reject(e.attrs, i, true, false);
        },
        _ => {},
    }
}

} // verus!
