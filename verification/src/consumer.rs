//! The consumer state machine: two-phase recovery-then-live draining of
//! a stream through a consumer group, with escalating idle backoff and a
//! give-up policy for a quiet stream.
//!
//! The machine itself performs no reads: each blocking group read is
//! issued by the surrounding process, and its outcome is handed to
//! [`ConsumerState::on_reply`], which returns the next state together
//! with a directive saying what to do before the next read.

use vstd::prelude::*;

use crate::CoreError;
use crate::ids::EntryId;
use crate::rng::draw_in_range;

verus! {

/// Idle timeout, in milliseconds, of a consumer's first blocking read
/// and of the first read after any delivery.
pub const INITIAL_IDLE_TIMEOUT: u64 = 100;

/// Number of idle retries a consumer takes past its first empty read
/// before giving up.
pub const MAX_IDLE_RETRIES: u64 = 5;

/// Powers of two.
pub open spec fn pow2(k: nat) -> nat
    decreases k,
{
    if k == 0 {
        1
    } else {
        2 * pow2((k - 1) as nat)
    }
}

/// An entry delivered from the stream: its id and its single numeric
/// field.
#[derive(Clone, Copy, PartialEq, Eq, Structural, Debug)]
pub struct Entry {
    pub id: EntryId,
    pub n: u64,
}

/// The phase of a consumer's read loop.
#[derive(Clone, Copy, PartialEq, Eq, Structural, Debug)]
pub enum Phase {
    /// Draining entries delivered to this consumer's name but never
    /// acknowledged.
    Recovering,
    /// Competing for entries never delivered to any group member.
    Live,
    /// Terminated, after the idle ceiling or a store failure.
    Stopped,
}

/// The lower bound handed to the next group read.
#[derive(Clone, Copy, PartialEq, Eq, Structural, Debug)]
pub enum Cursor {
    /// All pending entries of this consumer, from the beginning.
    PendingFromStart,
    /// Only entries never delivered to any group member.
    NewOnly,
}

/// What a blocking group read came back with.
#[derive(Debug)]
pub enum ReadReply {
    /// The block duration elapsed with nothing delivered.
    Timeout,
    /// The connection to the store was lost.
    Failed,
    /// Entries delivered in order; an empty batch means this consumer
    /// has no pending entries left.
    Batch(Vec<Entry>),
}

/// What the consumer is to do after digesting a reply.
#[derive(Debug)]
pub enum Directive {
    /// Read again, with the same cursor and the new idle timeout.
    Retry,
    /// Recovery is complete: read again, now for undelivered entries.
    BeginLive,
    /// Process these entries in delivery order, acknowledging each.
    Process(Vec<Entry>),
    /// Idle ceiling reached: stop reading and exit.
    GiveUp,
    /// Fatal store failure: stop reading and exit.
    Fail(CoreError),
}

/// The local state of one consumer process.
#[derive(Clone, Copy, PartialEq, Eq, Structural, Debug)]
pub struct ConsumerState {
    pub phase: Phase,
    pub cursor: Cursor,
    pub idle_timeout: u64,
    pub idle_retries: u64,
}

/// The state a consumer starts in: recovering its pending entries from
/// the beginning, with backoff counters at their initial values.
pub open spec fn initial_consumer() -> ConsumerState {
    ConsumerState {
        phase: Phase::Recovering,
        cursor: Cursor::PendingFromStart,
        idle_timeout: INITIAL_IDLE_TIMEOUT,
        idle_retries: 0,
    }
}

/// One transition of the consumer state machine: the state after a
/// reply, and the entries processed on it.
pub open spec fn spec_step(s: ConsumerState, r: ReadReply) -> (ConsumerState, Seq<Entry>) {
    match r {
        ReadReply::Timeout => {
            if s.idle_retries == MAX_IDLE_RETRIES {
                (ConsumerState { phase: Phase::Stopped, ..s }, Seq::empty())
            } else {
                (
                    ConsumerState {
                        idle_timeout: (s.idle_timeout * 2) as u64,
                        idle_retries: (s.idle_retries + 1) as u64,
                        ..s
                    },
                    Seq::empty(),
                )
            }
        },
        ReadReply::Failed => (ConsumerState { phase: Phase::Stopped, ..s }, Seq::empty()),
        ReadReply::Batch(b) => {
            if s.phase is Recovering && b@.len() == 0 {
                (
                    ConsumerState {
                        phase: Phase::Live,
                        cursor: Cursor::NewOnly,
                        idle_timeout: INITIAL_IDLE_TIMEOUT,
                        idle_retries: 0,
                    },
                    Seq::empty(),
                )
            } else {
                (
                    ConsumerState { idle_timeout: INITIAL_IDLE_TIMEOUT, idle_retries: 0, ..s },
                    b@,
                )
            }
        },
    }
}

proof fn lemma_pow2_small(k: nat)
    requires
        k <= 6,
    ensures
        pow2(k) == (if k == 0 {
            1nat
        } else if k == 1 {
            2nat
        } else if k == 2 {
            4nat
        } else if k == 3 {
            8nat
        } else if k == 4 {
            16nat
        } else if k == 5 {
            32nat
        } else {
            64nat
        }),
    decreases k,
{
    if k > 0 {
        lemma_pow2_small((k - 1) as nat);
    }
}

impl ConsumerState {
    /// Backoff bookkeeping: the idle timeout is the initial timeout
    /// doubled once per idle retry taken, the retry count is within its
    /// ceiling, and the cursor agrees with the phase.
    pub open spec fn wf(self) -> bool {
        &&& self.idle_retries <= MAX_IDLE_RETRIES
        &&& self.idle_timeout as nat == INITIAL_IDLE_TIMEOUT as nat * pow2(
            self.idle_retries as nat,
        )
        &&& (self.phase is Recovering ==> self.cursor is PendingFromStart)
        &&& (self.phase is Live ==> self.cursor is NewOnly)
    }

    /// The state a consumer process begins in.
    pub fn start() -> (r: ConsumerState)
        ensures
            r == initial_consumer(),
            r.wf(),
    {
        ConsumerState {
            phase: Phase::Recovering,
            cursor: Cursor::PendingFromStart,
            idle_timeout: INITIAL_IDLE_TIMEOUT,
            idle_retries: 0,
        }
    }

    /// Digest the outcome of one blocking group read.
    ///
    /// On a timeout the backoff escalates — the retry counter steps up
    /// and the idle timeout doubles — until the ceiling, where the
    /// consumer gives up. On a delivery the backoff resets; an empty
    /// batch during recovery marks recovery complete and switches the
    /// cursor to undelivered-only; any other batch is handed back for
    /// processing, in delivery order. A failed read stops the consumer.
    pub fn on_reply(self, reply: ReadReply) -> (out: (ConsumerState, Directive))
        requires
            self.wf(),
            !(self.phase is Stopped),
        ensures
            out.0.wf(),
            out.0 == spec_step(self, reply).0,
            (match out.1 {
                Directive::Process(v) => v@,
                _ => Seq::<Entry>::empty(),
            }) == spec_step(self, reply).1,
            reply is Timeout ==> (if self.idle_retries == MAX_IDLE_RETRIES {
                out.1 is GiveUp
            } else {
                out.1 is Retry
            }),
            reply is Failed ==> (out.1 matches Directive::Fail(e) && e
                == CoreError::StoreUnavailable),
            (match reply {
                ReadReply::Batch(b) => if self.phase is Recovering && b@.len() == 0 {
                    out.1 is BeginLive
                } else {
                    out.1 matches Directive::Process(v) && v@ == b@
                },
                _ => true,
            }),
    {
        match reply {
            ReadReply::Timeout => {
                if self.idle_retries == MAX_IDLE_RETRIES {
                    (ConsumerState { phase: Phase::Stopped, ..self }, Directive::GiveUp)
                } else {
                    proof {
                        lemma_pow2_small(self.idle_retries as nat);
                    }
                    (
                        ConsumerState {
                            idle_timeout: self.idle_timeout * 2,
                            idle_retries: self.idle_retries + 1,
                            ..self
                        },
                        Directive::Retry,
                    )
                }
            },
            ReadReply::Failed => (
                ConsumerState { phase: Phase::Stopped, ..self },
                Directive::Fail(CoreError::StoreUnavailable),
            ),
            ReadReply::Batch(b) => {
                if matches!(self.phase, Phase::Recovering) && b.len() == 0 {
                    (
                        ConsumerState {
                            phase: Phase::Live,
                            cursor: Cursor::NewOnly,
                            idle_timeout: INITIAL_IDLE_TIMEOUT,
                            idle_retries: 0,
                        },
                        Directive::BeginLive,
                    )
                } else {
                    (
                        ConsumerState {
                            idle_timeout: INITIAL_IDLE_TIMEOUT,
                            idle_retries: 0,
                            ..self
                        },
                        Directive::Process(b),
                    )
                }
            },
        }
    }

    /// The cursor token handed to the next group read: `0` asks for this
    /// consumer's pending entries, `>` for undelivered ones.
    pub fn cursor_token(&self) -> (r: String)
        ensures
            self.cursor is PendingFromStart ==> r@ == "0"@,
            self.cursor is NewOnly ==> r@ == ">"@,
    {
        match self.cursor {
            Cursor::PendingFromStart => String::from_str("0"),
            Cursor::NewOnly => String::from_str(">"),
        }
    }
}

/// A small randomized batch size for the next group read, between one
/// and six inclusive, so that read boundaries vary between iterations.
pub fn choose_batch_size() -> (r: u64)
    ensures
        1 <= r <= 6,
{
    draw_in_range(1, 6)
}

/// Carry out the per-entry work for one delivered batch: classify each
/// entry's number, in delivery order, and return the acknowledgment
/// list — each entry's id, in the same order, with its verdict.
pub fn process_batch(batch: &Vec<Entry>) -> (r: Vec<(EntryId, bool)>)
    ensures
        r@.len() == batch@.len(),
        forall|i: int|
            0 <= i < batch@.len() ==> (#[trigger] r@[i]).0 == batch@[i].id && r@[i].1
                == crate::primes::prime_verdict(crate::ids::dec_rep(batch@[i].n as nat)),
{
    let mut r: Vec<(EntryId, bool)> = Vec::new();
    let mut i: usize = 0;
    while i < batch.len()
        invariant
            i <= batch@.len(),
            r@.len() == i,
            forall|j: int|
                0 <= j < i ==> (#[trigger] r@[j]).0 == batch@[j].id && r@[j].1
                    == crate::primes::prime_verdict(crate::ids::dec_rep(batch@[j].n as nat)),
        decreases batch@.len() - i,
    {
        let e = batch[i];
        let verdict = crate::primes::classify(e.n);
        r.push((e.id, verdict));
        i = i + 1;
    }
    r
}

/// The state after a whole sequence of read replies, and every entry
/// processed along the way, in order.
pub open spec fn run_consumer(s: ConsumerState, replies: Seq<ReadReply>) -> (
    ConsumerState,
    Seq<Entry>,
)
    decreases replies.len(),
{
    if replies.len() == 0 {
        (s, Seq::empty())
    } else {
        let first = spec_step(s, replies[0]);
        let rest = run_consumer(first.0, replies.drop_first());
        (rest.0, first.1 + rest.1)
    }
}

/// The concatenation of a sequence of delivery batches.
pub open spec fn concat_all(chunks: Seq<Seq<Entry>>) -> Seq<Entry>
    decreases chunks.len(),
{
    if chunks.len() == 0 {
        Seq::empty()
    } else {
        chunks.first() + concat_all(chunks.drop_first())
    }
}

/// Law: a consumer that starts out recovering and is fed its pending
/// entries in nonempty batches, closed by one empty batch, processes
/// every pending entry, in delivery order, before it switches to the
/// live phase — nothing delivered to its name before a restart is
/// skipped after the restart.
pub proof fn lemma_recovery_drains_pending(
    s: ConsumerState,
    replies: Seq<ReadReply>,
    chunks: Seq<Seq<Entry>>,
)
    requires
        s.wf(),
        s.phase is Recovering,
        replies.len() == chunks.len() + 1,
        forall|i: int|
            0 <= i < chunks.len() ==> ((#[trigger] replies[i]) matches ReadReply::Batch(b) && b@
                == chunks[i] && chunks[i].len() > 0),
        replies[chunks.len() as int] matches ReadReply::Batch(b) && b@.len() == 0,
    ensures
        run_consumer(s, replies).0.phase is Live,
        run_consumer(s, replies).0.wf(),
        run_consumer(s, replies).1 == concat_all(chunks),
    decreases chunks.len(),
{
    reveal_with_fuel(run_consumer, 3);
    reveal_with_fuel(concat_all, 2);
    let first = spec_step(s, replies[0]);
    assert(first.0.wf());
    if chunks.len() == 0 {
        assert(first.0.phase is Live);
        assert(replies.drop_first().len() == 0);
        assert(run_consumer(s, replies).1 =~= concat_all(chunks));
    } else {
        assert(first.0.phase is Recovering);
        assert(first.1 == chunks[0]);
        let replies1 = replies.drop_first();
        let chunks1 = chunks.drop_first();
        assert forall|i: int| 0 <= i < chunks1.len() implies ((#[trigger] replies1[i])
            matches ReadReply::Batch(b) && b@ == chunks1[i] && chunks1[i].len() > 0) by {
            assert(replies1[i] == replies[i + 1]);
        }
        assert(replies1[chunks1.len() as int] == replies[chunks.len() as int]);
        lemma_recovery_drains_pending(first.0, replies1, chunks1);
        assert(run_consumer(s, replies).1 =~= concat_all(chunks));
    }
}

/// The views of the delivered batches among a sequence of replies, in
/// order.
pub open spec fn batches_of(replies: Seq<ReadReply>) -> Seq<Seq<Entry>>
    decreases replies.len(),
{
    if replies.len() == 0 {
        Seq::empty()
    } else {
        match replies[0] {
            ReadReply::Batch(b) => seq![b@] + batches_of(replies.drop_first()),
            _ => batches_of(replies.drop_first()),
        }
    }
}

proof fn lemma_stopped_absorbs(s: ConsumerState, replies: Seq<ReadReply>)
    requires
        s.phase is Stopped,
    ensures
        run_consumer(s, replies).0.phase is Stopped,
    decreases replies.len(),
{
    if replies.len() > 0 {
        lemma_stopped_absorbs(spec_step(s, replies[0]).0, replies.drop_first());
    }
}

proof fn lemma_no_batches_process_nothing(s: ConsumerState, replies: Seq<ReadReply>)
    requires
        forall|i: int| 0 <= i < replies.len() ==> !((#[trigger] replies[i]) is Batch),
    ensures
        run_consumer(s, replies).1 =~= Seq::<Entry>::empty(),
        run_consumer(s, replies).0.phase == s.phase || run_consumer(s, replies).0.phase
            is Stopped,
    decreases replies.len(),
{
    if replies.len() > 0 {
        let s1 = spec_step(s, replies[0]).0;
        assert forall|i: int| 0 <= i < replies.drop_first().len() implies !((#[trigger] replies
            .drop_first()[i]) is Batch) by {
            assert(replies.drop_first()[i] == replies[i + 1]);
        }
        lemma_no_batches_process_nothing(s1, replies.drop_first());
        if s1.phase is Stopped {
            lemma_stopped_absorbs(s1, replies.drop_first());
        }
    }
}

/// Law: however timeouts interleave with the deliveries, a recovering
/// consumer that survives to the live phase has processed exactly the
/// pending entries that were delivered to it, in delivery order. Here
/// `chunks` are the delivered batches in order; during recovery the
/// store delivers nonempty batches of pending entries and closes with
/// one empty batch, after which nothing further is delivered.
pub proof fn lemma_recovery_drains_despite_timeouts(
    s: ConsumerState,
    replies: Seq<ReadReply>,
    chunks: Seq<Seq<Entry>>,
)
    requires
        s.wf(),
        s.phase is Recovering,
        batches_of(replies) == chunks,
        chunks.len() > 0,
        forall|i: int| 0 <= i < chunks.len() - 1 ==> (#[trigger] chunks[i]).len() > 0,
        chunks.last().len() == 0,
        forall|i: int| 0 <= i < replies.len() ==> !((#[trigger] replies[i]) is Failed),
        run_consumer(s, replies).0.phase is Live,
    ensures
        run_consumer(s, replies).1 == concat_all(chunks.drop_last()),
    decreases replies.len(),
{
    reveal_with_fuel(run_consumer, 2);
    reveal_with_fuel(batches_of, 2);
    reveal_with_fuel(concat_all, 2);
    assert(replies.len() > 0);
    let rest = replies.drop_first();
    let s1 = spec_step(s, replies[0]).0;
    assert forall|i: int| 0 <= i < rest.len() implies !((#[trigger] rest[i]) is Failed) by {
        assert(rest[i] == replies[i + 1]);
    }
    match replies[0] {
        ReadReply::Timeout => {
            if s.idle_retries == MAX_IDLE_RETRIES {
                lemma_stopped_absorbs(s1, rest);
            } else {
                lemma_pow2_small(s.idle_retries as nat);
                assert(s1.wf());
                lemma_recovery_drains_despite_timeouts(s1, rest, chunks);
                assert(run_consumer(s, replies).1 =~= run_consumer(s1, rest).1);
            }
        },
        ReadReply::Failed => {
            assert(false);
        },
        ReadReply::Batch(b) => {
            assert(b@ == chunks[0]);
            if chunks.len() == 1 {
                // The closing empty batch: recovery is complete, and
                // whatever follows delivers nothing further.
                assert(b@.len() == 0);
                assert(batches_of(rest) =~= Seq::<Seq<Entry>>::empty());
                assert forall|i: int| 0 <= i < rest.len() implies !((#[trigger] rest[i])
                    is Batch) by {
                    if rest[i] is Batch {
                        lemma_batches_of_nonempty(rest, i);
                    }
                }
                lemma_no_batches_process_nothing(s1, rest);
                assert(run_consumer(s, replies).1 =~= Seq::<Entry>::empty());
                assert(concat_all(chunks.drop_last()) =~= Seq::<Entry>::empty());
            } else {
                assert(chunks[0].len() > 0);
                assert(s1.phase is Recovering);
                assert(s1.wf());
                assert(batches_of(rest) =~= chunks.drop_first());
                assert(chunks.drop_first().last() == chunks.last());
                assert forall|i: int|
                    0 <= i < chunks.drop_first().len() - 1 implies (#[trigger] chunks.drop_first()[i]).len()
                    > 0 by {
                    assert(chunks.drop_first()[i] == chunks[i + 1]);
                }
                lemma_recovery_drains_despite_timeouts(s1, rest, chunks.drop_first());
                assert(chunks.drop_first().drop_last() =~= chunks.drop_last().drop_first());
                assert(run_consumer(s, replies).1 =~= chunks[0] + run_consumer(s1, rest).1);
                assert(concat_all(chunks.drop_last()) == chunks.drop_last().first() + concat_all(
                    chunks.drop_last().drop_first(),
                ));
                assert(chunks.drop_last().first() == chunks[0]);
                assert(run_consumer(s, replies).1 =~= concat_all(chunks.drop_last()));
            }
        },
    }
}

proof fn lemma_batches_of_nonempty(replies: Seq<ReadReply>, i: int)
    requires
        0 <= i < replies.len(),
        replies[i] is Batch,
    ensures
        batches_of(replies).len() > 0,
    decreases replies.len(),
{
    if i > 0 {
        lemma_batches_of_nonempty(replies.drop_first(), i - 1);
    }
}

proof fn lemma_consecutive_timeouts(s: ConsumerState, k: nat)
    requires
        s.wf(),
        !(s.phase is Stopped),
        s.idle_retries + k <= MAX_IDLE_RETRIES,
    ensures
        ({
            let r = run_consumer(s, Seq::new(k, |i: int| ReadReply::Timeout));
            &&& r.0.phase == s.phase
            &&& r.0.cursor == s.cursor
            &&& r.0.idle_retries == s.idle_retries + k
            &&& r.0.idle_timeout as nat == s.idle_timeout as nat * pow2(k)
            &&& r.0.wf()
            &&& r.1 =~= Seq::<Entry>::empty()
        }),
    decreases k,
{
    let replies = Seq::new(k, |i: int| ReadReply::Timeout);
    if k == 0 {
        lemma_pow2_small(0);
        assert(s.idle_timeout as nat * pow2(0) == s.idle_timeout as nat);
    } else {
        let first = spec_step(s, replies[0]);
        lemma_pow2_small(s.idle_retries as nat);
        assert(first.0.wf());
        assert(replies.drop_first() =~= Seq::new((k - 1) as nat, |i: int| ReadReply::Timeout));
        lemma_consecutive_timeouts(first.0, (k - 1) as nat);
        let r = run_consumer(first.0, replies.drop_first());
        assert(r.0.idle_timeout as nat == (s.idle_timeout as nat * 2) * pow2((k - 1) as nat));
        assert((s.idle_timeout as nat * 2) * pow2((k - 1) as nat) == s.idle_timeout as nat * (2
            * pow2((k - 1) as nat))) by (nonlinear_arith);
        assert(pow2(k) == 2 * pow2((k - 1) as nat));
    }
}

proof fn lemma_run_snoc(s: ConsumerState, rs: Seq<ReadReply>, r: ReadReply)
    ensures
        run_consumer(s, rs.push(r)).0 == spec_step(run_consumer(s, rs).0, r).0,
        run_consumer(s, rs.push(r)).1 == run_consumer(s, rs).1 + spec_step(
            run_consumer(s, rs).0,
            r,
        ).1,
    decreases rs.len(),
{
    reveal_with_fuel(run_consumer, 3);
    if rs.len() == 0 {
        assert(rs.push(r)[0] == r);
        assert(rs.push(r).drop_first() =~= Seq::<ReadReply>::empty());
        assert(run_consumer(s, rs.push(r)).1 =~= run_consumer(s, rs).1 + spec_step(
            run_consumer(s, rs).0,
            r,
        ).1);
    } else {
        assert(rs.push(r)[0] == rs[0]);
        assert(rs.push(r).drop_first() =~= rs.drop_first().push(r));
        lemma_run_snoc(spec_step(s, rs[0]).0, rs.drop_first(), r);
        assert(run_consumer(s, rs.push(r)).1 =~= run_consumer(s, rs).1 + spec_step(
            run_consumer(s, rs).0,
            r,
        ).1);
    }
}

/// Law: reading a quiet stream, a fresh consumer's idle timeout doubles
/// with each consecutive empty read, starting from the initial timeout
/// — after `k` empty reads the next read blocks for `100 * 2^k`
/// milliseconds — and the sixth consecutive empty read, one past the
/// retry ceiling, makes the consumer give up, processing nothing.
pub proof fn lemma_idle_backoff(k: nat)
    requires
        k <= MAX_IDLE_RETRIES,
    ensures
        ({
            let r = run_consumer(initial_consumer(), Seq::new(k, |i: int| ReadReply::Timeout));
            &&& r.0.phase is Recovering
            &&& r.0.idle_retries == k
            &&& r.0.idle_timeout as nat == INITIAL_IDLE_TIMEOUT as nat * pow2(k)
            &&& r.1 =~= Seq::<Entry>::empty()
        }),
        ({
            let r = run_consumer(
                initial_consumer(),
                Seq::new((MAX_IDLE_RETRIES + 1) as nat, |i: int| ReadReply::Timeout),
            );
            &&& r.0.phase is Stopped
            &&& r.1 =~= Seq::<Entry>::empty()
        }),
{
    assert(initial_consumer().wf()) by {
        lemma_pow2_small(0);
    }
    lemma_consecutive_timeouts(initial_consumer(), k);
    lemma_consecutive_timeouts(initial_consumer(), MAX_IDLE_RETRIES as nat);
    let five = Seq::new(MAX_IDLE_RETRIES as nat, |i: int| ReadReply::Timeout);
    let six = Seq::new((MAX_IDLE_RETRIES + 1) as nat, |i: int| ReadReply::Timeout);
    assert(six =~= five.push(ReadReply::Timeout));
    lemma_run_snoc(initial_consumer(), five, ReadReply::Timeout);
    assert(run_consumer(initial_consumer(), six).1 =~= Seq::<Entry>::empty());
}

} // verus!
