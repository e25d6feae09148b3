//! The producer: appends a strictly increasing sequence of numbers to
//! the stream at a randomized cadence scaled to the fleet size, and
//! recognizes a stop request between iterations.

use vstd::prelude::*;

use crate::ids::{dec_rep, u64_to_dec};
use crate::rng::draw_in_range;

verus! {

/// The producer's local state: the next number to append.
#[derive(Clone, Copy, PartialEq, Eq, Structural, Debug)]
pub struct ProducerState {
    pub next_n: u64,
}

/// What the producer does on one iteration.
#[derive(Clone, Copy, PartialEq, Eq, Structural, Debug)]
pub enum ProducerAction {
    /// Append an entry with the single field `n = <n>`, then pause.
    Append { n: u64 },
    /// Stop signal received: append nothing further and exit.
    Halt,
}

impl ProducerState {
    /// The producer starts counting from zero.
    pub fn start() -> (r: ProducerState)
        ensures
            r.next_n == 0,
    {
        ProducerState { next_n: 0 }
    }

    /// One iteration. The stop signal is checked first, before any
    /// append, so after a stop nothing further is ever appended; the
    /// worst-case stop latency is one append-and-pause cycle. Without a
    /// stop the current number is appended and the counter steps up.
    pub fn step(self, stop: bool) -> (out: (ProducerState, ProducerAction))
        requires
            self.next_n < u64::MAX,
        ensures
            stop ==> out.0 == self && out.1 is Halt,
            !stop ==> out.1 == (ProducerAction::Append { n: self.next_n }) && out.0.next_n
                == self.next_n + 1,
    {
        if stop {
            (self, ProducerAction::Halt)
        } else {
            (ProducerState { next_n: self.next_n + 1 }, ProducerAction::Append { n: self.next_n })
        }
    }
}

/// The field list appended for the number `n`: the single field `n`,
/// holding its decimal representation.
pub fn append_fields(n: u64) -> (r: Vec<(String, String)>)
    ensures
        r@.len() == 1,
        r@[0].0@ == "n"@,
        r@[0].1@ == dec_rep(n as nat),
{
    let mut v: Vec<(String, String)> = Vec::new();
    v.push((String::from_str("n"), u64_to_dec(n)));
    v
}

/// The pause between appends, scaled down by the fleet size so that
/// aggregate throughput stays roughly constant however wide the fleet.
pub fn pace_millis(drawn: u64, members: u64) -> (r: u64)
    requires
        members > 0,
    ensures
        r == drawn / members,
{
    drawn / members
}

/// A randomized pause before the next append: a draw of 1000 to 2000
/// milliseconds, scaled down by the fleet size.
pub fn producer_pause(members: u64) -> (r: u64)
    requires
        members > 0,
    ensures
        exists|d: u64| 1000 <= d <= 2000 && r == #[trigger] (d / members),
{
    let d = draw_in_range(1000, 2001);
    let r = pace_millis(d, members);
    assert(1000 <= d <= 2000 && r == d / members);
    r
}

} // verus!
