//! Small helpers connecting element-wise views of vectors to sequence
//! operations.

use vstd::prelude::*;

verus! {

/// Pushing onto a vector pushes the element's model onto the vector's
/// model.
pub proof fn lemma_deep_push<T: DeepView>(v: Vec<T>, w: Vec<T>, x: T)
    requires
        w@ == v@.push(x),
    ensures
        w.deep_view() == v.deep_view().push(x.deep_view()),
{
    assert forall|k: int| 0 <= k < w@.len() implies w.deep_view()[k] == v.deep_view().push(
        x.deep_view(),
    )[k] by {
        if k < v@.len() {
            assert(w@[k] == v@[k]);
        } else {
            assert(w@[k] == x);
        }
    }
    assert(w.deep_view() =~= v.deep_view().push(x.deep_view()));
}

/// A one-element vector models a one-element sequence.
pub proof fn lemma_deep_singleton<T: DeepView>(v: Vec<T>, x: T)
    requires
        v@ == seq![x],
    ensures
        v.deep_view() == seq![x.deep_view()],
{
    assert(v@[0] == x);
    assert(v.deep_view() =~= seq![x.deep_view()]);
}

} // verus!
