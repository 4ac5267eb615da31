//! Properties that tie the operations of the capability contract together,
//! stated over the abstract state the contracts speak of.

use crate::common::{ascending, clamp_axis, CallbackId, MouseActions, MouseEvent};
use vstd::prelude::*;

verus! {

/// Within the screen, clamping changes nothing: a successful
/// `move_to(x, y)` with `x` below the width and `y` below the height puts
/// the pointer exactly at `(x, y)`, so a following `get_position` on a
/// backend that answers position queries returns `Ok((x, y))` by its
/// contract.
pub proof fn lemma_move_to_exact_within_screen<C: Fn(MouseEvent), M: MouseActions<C>>(
    pre: &M,
    post: &M,
    x: usize,
    y: usize,
)
    requires
        (x as int) < pre.screen_w() as int,
        (y as int) < pre.screen_h() as int,
        post.pos_x() == clamp_axis(x, pre.screen_w()),
        post.pos_y() == clamp_axis(y, pre.screen_h()),
    ensures
        post.pos_x() == x as i32,
        post.pos_y() == y as i32,
{
}

/// Ids registered at the same time are pairwise distinct: they stand in
/// strictly ascending order.
pub proof fn lemma_ascending_ids_distinct(s: Seq<CallbackId>)
    requires
        ascending(s),
    ensures
        forall|i: int, j: int| 0 <= i < j < s.len() ==> s[i] != s[j],
{
}

/// The sets of registered ids only grow over a run of registrations.
proof fn lemma_states_grow(ids: Seq<CallbackId>, states: Seq<Set<CallbackId>>, i: int, j: int)
    requires
        states.len() == ids.len() + 1,
        forall|k: int| 0 <= k < ids.len() ==> states[k + 1] == (#[trigger] states[k]).insert(
            ids[k],
        ),
        0 <= i <= j < states.len(),
    ensures
        states[i].subset_of(states[j]),
    decreases j - i,
{
    if i < j {
        lemma_states_grow(ids, states, i, j - 1);
        assert(states[j] == states[j - 1].insert(ids[j - 1]));
    }
}

/// A run of registrations with no removal in between hands out pairwise
/// distinct callback ids: each returned id is absent from the set of ids
/// registered before its call, and every call only adds its id.
///
/// `states` are the sets of registered ids between the calls, `ids` the
/// ids the calls returned, so `states` is one longer than `ids`.
pub proof fn lemma_fresh_ids_distinct(ids: Seq<CallbackId>, states: Seq<Set<CallbackId>>)
    requires
        states.len() == ids.len() + 1,
        forall|k: int| 0 <= k < ids.len() ==> !(#[trigger] states[k]).contains(ids[k]),
        forall|k: int| 0 <= k < ids.len() ==> states[k + 1] == (#[trigger] states[k]).insert(
            ids[k],
        ),
    ensures
        forall|i: int, j: int| 0 <= i < j < ids.len() ==> ids[i] != ids[j],
{
    assert forall|i: int, j: int| 0 <= i < j < ids.len() implies ids[i] != ids[j] by {
        lemma_states_grow(ids, states, i + 1, j);
        assert(states[i + 1] == states[i].insert(ids[i]));
        assert(states[i + 1].contains(ids[i]));
        assert(states[j].contains(ids[i]));
    }
}

} // verus!
