//! The orchestrator's decisions: idempotent setup of the stream and its
//! consumer group, the fleet's logical names, and the fixed shutdown
//! order.

use vstd::prelude::*;

use crate::ids::{dec_rep, u64_to_dec};

verus! {

/// A command the orchestrator issues to its collaborators, in the order
/// the plans lay down.
#[derive(Clone, Copy, PartialEq, Eq, Structural, Debug)]
pub enum Command {
    /// Delete the stream, so setup starts from a clean slate and
    /// shutdown leaves nothing behind.
    DeleteStream,
    /// Create the stream together with its consumer group, positioned
    /// at the beginning of the stream.
    CreateGroup,
    /// Signal the producer task to stop.
    StopProducer,
    /// Signal the chaos task to stop, then collect its roster.
    StopChaos,
    /// Terminate the process of the roster member at this slot.
    KillConsumer { slot: usize },
}

/// Setup plan: delete whatever stream of the same name an earlier run
/// left behind, then create the stream and group. Safe to re-run.
pub fn setup_plan() -> (r: Vec<Command>)
    ensures
        r@ == seq![Command::DeleteStream, Command::CreateGroup],
{
    let mut v: Vec<Command> = Vec::new();
    v.push(Command::DeleteStream);
    v.push(Command::CreateGroup);
    proof {
        assert(v@ =~= seq![Command::DeleteStream, Command::CreateGroup]);
    }
    v
}

/// Shutdown plan for a roster of `n` consumers, in the exact required
/// order: stop the producer first, so no new entries arrive during
/// teardown; then stop the chaos controller, so no consumer is
/// restarted while being killed; then terminate every consumer process
/// in the roster; and delete the stream last.
pub fn shutdown_plan(n: usize) -> (r: Vec<Command>)
    requires
        n + 3 <= usize::MAX,
    ensures
        r@.len() == n + 3,
        r@[0] == Command::StopProducer,
        r@[1] == Command::StopChaos,
        forall|i: int|
            2 <= i < n + 2 ==> (#[trigger] r@[i]) == (Command::KillConsumer {
                slot: (i - 2) as usize,
            }),
        r@[n + 2] == Command::DeleteStream,
{
    let mut v: Vec<Command> = Vec::new();
    v.push(Command::StopProducer);
    v.push(Command::StopChaos);
    let mut i: usize = 0;
    while i < n
        invariant
            i <= n,
            n + 3 <= usize::MAX,
            v@.len() == i + 2,
            v@[0] == Command::StopProducer,
            v@[1] == Command::StopChaos,
            forall|j: int|
                2 <= j < i + 2 ==> (#[trigger] v@[j]) == (Command::KillConsumer {
                    slot: (j - 2) as usize,
                }),
        decreases n - i,
    {
        v.push(Command::KillConsumer { slot: i });
        i = i + 1;
    }
    v.push(Command::DeleteStream);
    v
}

/// The logical name of fleet member `i`: the fixed prefix followed by
/// the member number, zero-padded to two digits.
pub open spec fn member_name_rep(i: nat) -> Seq<char> {
    "BOB-"@ + (if i < 10 {
        seq!['0'] + dec_rep(i)
    } else {
        dec_rep(i)
    })
}

/// Format the logical name of fleet member `i`.
pub fn member_name(i: u64) -> (r: String)
    ensures
        r@ == member_name_rep(i as nat),
{
    proof {
        reveal_strlit("0");
    }
    let mut s = String::from_str("BOB-");
    if i < 10 {
        s.append("0");
    }
    let digits = u64_to_dec(i);
    let r = s.concat(digits.as_str());
    assert(r@ =~= member_name_rep(i as nat));
    r
}

/// The fleet's logical names, one per member, in order: member `k` of
/// `members` bears the name numbered `k + 1`.
pub fn fleet_names(members: usize) -> (r: Vec<String>)
    ensures
        r@.len() == members,
        forall|i: int| 0 <= i < members ==> (#[trigger] r@[i])@ == member_name_rep((i + 1) as nat),
{
    let mut v: Vec<String> = Vec::new();
    let mut i: usize = 0;
    while i < members
        invariant
            i <= members,
            v@.len() == i,
            forall|j: int| 0 <= j < i ==> (#[trigger] v@[j])@ == member_name_rep((j + 1) as nat),
        decreases members - i,
    {
        v.push(member_name(i as u64 + 1));
        i = i + 1;
    }
    v
}

/// The name of the stream the fleet drains.
pub fn stream_key() -> (r: String)
    ensures
        r@ == "numbers"@,
{
    String::from_str("numbers")
}

/// The name of the consumer group over the stream.
pub fn group_name() -> (r: String)
    ensures
        r@ == "primes"@,
{
    String::from_str("primes")
}

} // verus!
