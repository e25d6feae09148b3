//! The chaos controller: randomly terminates one consumer at a time and
//! replaces it under the same logical name, and performs no further
//! kills once told to stop.

use vstd::prelude::*;

use crate::rng::draw_in_range;

verus! {

/// One fleet member: a stable logical name together with ownership of
/// the current process instance, an opaque handle that is replaced
/// wholesale on restart, never mutated in place.
pub struct Member<H> {
    pub name: String,
    pub handle: H,
}

/// What the chaos controller does on one iteration.
#[derive(Clone, Copy, PartialEq, Eq, Structural, Debug)]
pub enum ChaosAction {
    /// Terminate the process of the member at this roster slot and
    /// replace it, under the same logical name.
    Kill { victim: usize },
    /// Leave the fleet alone this round: sleep and go round again.
    Idle,
    /// Stop signal received: no further kills; hand the roster back.
    Halt,
}

/// Decide one chaos iteration. After a stop signal, never a kill — the
/// roster is handed back to the caller instead. Otherwise, about one
/// round in eleven, a victim slot is drawn uniformly from the roster.
pub fn chaos_decide(stop: bool, roster_len: usize) -> (a: ChaosAction)
    requires
        roster_len > 0,
    ensures
        stop <==> a is Halt,
        a matches ChaosAction::Kill { victim } ==> victim < roster_len,
{
    if stop {
        return ChaosAction::Halt;
    }
    let d = draw_in_range(2, 13);
    if d == 2 {
        let v = draw_in_range(0, roster_len as u64);
        ChaosAction::Kill { victim: v as usize }
    } else {
        ChaosAction::Idle
    }
}

/// Replace the member at `victim`: its process handle is taken out and
/// returned, for the caller to terminate, and the fresh handle is
/// installed in the same slot under the unchanged logical name. Every
/// other slot is untouched, and no window exists in which two handles
/// claim the same name.
pub fn replace_member<H>(roster: &mut Vec<Member<H>>, victim: usize, new_handle: H) -> (old_h: H)
    requires
        victim < old(roster)@.len(),
    ensures
        final(roster)@.len() == old(roster)@.len(),
        final(roster)@[victim as int].name == old(roster)@[victim as int].name,
        final(roster)@[victim as int].handle == new_handle,
        forall|i: int|
            0 <= i < old(roster)@.len() && i != victim ==> final(roster)@[i] == old(roster)@[i],
        old_h == old(roster)@[victim as int].handle,
{
    let m = roster.remove(victim);
    let Member { name, handle } = m;
    roster.insert(victim, Member { name, handle: new_handle });
    handle
}

} // verus!
