//! Child nodes: the contents of an element's child block and of the
//! top level of a template.
//!
//! A child is either a value (a string literal, a block, or bracket
//! sugar) or a nested element.  A literal child must be a string:
//! numeric and boolean literals are rejected with a hard abort, since
//! they parsed correctly as values and only their use as a child is
//! illegal.

use vstd::prelude::*;

use crate::cursor::Cursor;
use crate::diag::{obeys, Diag, POut, Parsed};
use crate::element::{elem_view, spec_element, Element, ElementV};
use crate::seq_util::lemma_deep_push;
use crate::token::TokenV;
use crate::value::{spec_value, Lit, Value, ValueV};

verus! {

/// One child node.
#[derive(Debug)]
pub enum Child {
    /// A value child: a string literal, block, or bracket sugar.
    Value(Value),
    /// A nested element.
    Element(Element),
}

/// The model of a [`Child`].
pub enum ChildV {
    Value(ValueV),
    Element(ElementV),
}

/// The model of one child.
pub open spec fn child_view(c: Child) -> ChildV
    decreases c,
{
    match c {
        Child::Value(v) => ChildV::Value(v.deep_view()),
        Child::Element(e) => ChildV::Element(elem_view(e)),
    }
}

impl DeepView for Child {
    type V = ChildV;

    open spec fn deep_view(&self) -> ChildV {
        child_view(*self)
    }
}

/// A space-separated series of children; empty is valid.
#[derive(Debug)]
pub struct Children(pub Vec<Child>);

/// The model of [`Children`].
pub type ChildrenV = Seq<ChildV>;

/// The model of a vector of children, element by element.
pub open spec fn children_vec_view(v: Vec<Child>) -> Seq<ChildV>
    decreases v,
{
    Seq::new(
        v@.len(),
        |i: int|
            if 0 <= i < v@.len() {
                child_view(v@[i])
            } else {
                vstd::pervasive::arbitrary()
            },
    )
}

/// The model of a series of children.
pub open spec fn children_view(cs: Children) -> ChildrenV {
    children_vec_view(cs.0)
}

impl DeepView for Children {
    type V = ChildrenV;

    open spec fn deep_view(&self) -> ChildrenV {
        children_view(*self)
    }
}

impl Children {
    /// The number of children.
    pub fn len(&self) -> (r: usize)
        ensures
            r == self.deep_view().len(),
    {
        self.0.len()
    }

    /// The children as a plain vector.
    pub fn into_vec(self) -> (r: Vec<Child>)
        ensures
            r.deep_view() == self.deep_view(),
    {
        self.0
    }

    /// The children, borrowed in order.
    pub fn iter(&self) -> (r: &Vec<Child>)
        ensures
            r.deep_view() == self.deep_view(),
    {
        &self.0
    }
}

/// One child within `t[..limit]`: a value first, falling back to an
/// element.  A value that is a non-string literal is a hard abort, not
/// a soft failure: it parsed correctly as a value and only its use as
/// a child is illegal.
pub open spec fn spec_child(t: Seq<TokenV>, p: int, limit: int) -> POut<ChildV>
    decreases limit - p, 2int,
{
    match spec_value(t, p) {
        POut::Found { v, next } => if v.is_non_string_lit() {
            POut::Abort { at: p, msg: "only string literals are allowed in children"@ }
        } else {
            POut::Found { v: ChildV::Value(v), next }
        },
        _ => match spec_element(t, p, limit) {
            POut::Found { v, next } => POut::Found { v: ChildV::Element(v), next },
            POut::Fail => POut::Fail,
            POut::Abort { at, msg } => POut::Abort { at, msg },
        },
    }
}

/// Zero or more children within `t[..limit]`: children are taken while
/// one parses and stays inside the limit; the remaining input is left
/// for the caller.
pub open spec fn spec_children(t: Seq<TokenV>, p: int, limit: int, acc: Seq<ChildV>) -> POut<
    Seq<ChildV>,
>
    decreases limit - p, 3int,
{
    match spec_child(t, p, limit) {
        POut::Found { v, next } => if p < next && next <= limit {
            spec_children(t, next, limit, acc.push(v))
        } else {
            POut::Found { v: acc, next: p }
        },
        POut::Fail => POut::Found { v: acc, next: p },
        POut::Abort { at, msg } => POut::Abort { at, msg },
    }
}

impl Cursor {
    /// One child.  On failure the cursor is untouched.
    pub fn parse_child(&mut self, limit: usize) -> (r: Parsed<Child>)
        requires
            old(self).wf(),
            limit <= old(self).toks.len(),
            old(self).pos <= limit,
        ensures
            final(self).wf(),
            final(self).toks == old(self).toks,
            obeys::<Child>(
                spec_child(old(self).tv(), old(self).pos as int, limit as int),
                r,
                old(self).pos as int,
                final(self).pos as int,
            ),
            r is Found ==> final(self).pos > old(self).pos,
        decreases limit - old(self).pos, 2int,
    {
        let save = self.pos;
        match self.parse_value() {
            Parsed::Found(v) => {
                let bad = match &v {
                    Value::Lit(l) => !matches!(l, Lit::Str(_)),
                    _ => false,
                };
                if bad {
                    Parsed::Abort(Diag::new(save, "only string literals are allowed in children"))
                } else {
                    Parsed::Found(Child::Value(v))
                }
            },
            Parsed::Fail => match self.parse_element(limit) {
                Parsed::Found(e) => Parsed::Found(Child::Element(e)),
                Parsed::Fail => Parsed::Fail,
                Parsed::Abort(d) => Parsed::Abort(d),
            },
            Parsed::Abort(d) => {
                proof {
                    assert(false);
                }
                Parsed::Abort(d)
            },
        }
    }

    /// Zero or more children up to `limit`.  Never fails softly: an
    /// empty list is a valid result.
    pub fn parse_children_vec(&mut self, limit: usize, acc: Vec<Child>) -> (r: Parsed<Vec<Child>>)
        requires
            old(self).wf(),
            limit <= old(self).toks.len(),
            old(self).pos <= limit,
        ensures
            final(self).wf(),
            final(self).toks == old(self).toks,
            obeys::<Vec<Child>>(
                spec_children(old(self).tv(), old(self).pos as int, limit as int, acc.deep_view()),
                r,
                old(self).pos as int,
                final(self).pos as int,
            ),
            !(r is Abort) ==> final(self).pos >= old(self).pos,
            !(r is Fail),
        decreases limit - old(self).pos, 3int,
    {
        let save = self.pos;
        match self.parse_child(limit) {
            Parsed::Found(c) => {
                if self.pos <= limit {
                    let ghost previous = acc;
                    let ghost pushed = c;
                    let mut extended = acc;
                    extended.push(c);
                    proof {
                        lemma_deep_push(previous, extended, pushed);
                    }
                    self.parse_children_vec(limit, extended)
                } else {
                    self.pos = save;
                    Parsed::Found(acc)
                }
            },
            Parsed::Fail => Parsed::Found(acc),
            Parsed::Abort(d) => Parsed::Abort(d),
        }
    }
}

} // verus!
