use std::collections::HashMap;

use stream_group::chaos::{chaos_decide, replace_member, ChaosAction, Member};
use stream_group::consumer::{ConsumerState, Directive, Entry, Phase, ReadReply};
use stream_group::ids::EntryId;
use stream_group::orchestrator::{
    fleet_names, group_name, member_name, setup_plan, shutdown_plan, stream_key, Command,
};
use stream_group::producer::{append_fields, pace_millis, producer_pause, ProducerAction, ProducerState};
use stream_group::MEMBERS;

#[test]
fn producer_counts_up_until_stopped() {
    let mut p = ProducerState::start();
    for expected in 0u64..5 {
        let (next, action) = p.step(false);
        assert_eq!(action, ProducerAction::Append { n: expected });
        p = next;
    }
    // After the stop signal, zero further entries are appended.
    let (stopped, action) = p.step(true);
    assert_eq!(action, ProducerAction::Halt);
    assert_eq!(stopped.next_n, p.next_n);
}

#[test]
fn producer_fields_and_pace() {
    let fields = append_fields(42);
    assert_eq!(fields.len(), 1);
    assert_eq!(fields[0].0, "n");
    assert_eq!(fields[0].1, "42");
    assert_eq!(pace_millis(1500, 10), 150);
    for _ in 0..20 {
        let pause = producer_pause(10);
        assert!((100..=200).contains(&pause));
    }
}

#[test]
fn chaos_never_kills_after_stop() {
    for _ in 0..50 {
        assert_eq!(chaos_decide(true, MEMBERS), ChaosAction::Halt);
    }
}

#[test]
fn chaos_kills_within_roster() {
    for _ in 0..200 {
        match chaos_decide(false, MEMBERS) {
            ChaosAction::Kill { victim } => assert!(victim < MEMBERS),
            ChaosAction::Idle => {}
            ChaosAction::Halt => panic!("halt without a stop signal"),
        }
    }
}

#[test]
fn replacement_keeps_the_logical_name() {
    let mut roster: Vec<Member<u32>> = vec![
        Member { name: member_name(1), handle: 11 },
        Member { name: member_name(2), handle: 22 },
        Member { name: member_name(3), handle: 33 },
    ];
    let old = replace_member(&mut roster, 1, 99);
    assert_eq!(old, 22);
    assert_eq!(roster.len(), 3);
    assert_eq!(roster[1].name, "BOB-02");
    assert_eq!(roster[1].handle, 99);
    assert_eq!(roster[0].handle, 11);
    assert_eq!(roster[2].handle, 33);
}

#[test]
fn fleet_names_are_zero_padded_and_ordered() {
    assert_eq!(member_name(1), "BOB-01");
    assert_eq!(member_name(9), "BOB-09");
    assert_eq!(member_name(10), "BOB-10");
    let names = fleet_names(MEMBERS);
    assert_eq!(names.len(), MEMBERS);
    assert_eq!(names[0], "BOB-01");
    assert_eq!(names[MEMBERS - 1], "BOB-10");
    assert_eq!(stream_key(), "numbers");
    assert_eq!(group_name(), "primes");
}

#[test]
fn setup_is_delete_then_create() {
    assert_eq!(setup_plan(), vec![Command::DeleteStream, Command::CreateGroup]);
}

#[test]
fn shutdown_follows_the_fixed_order() {
    let plan = shutdown_plan(3);
    assert_eq!(
        plan,
        vec![
            Command::StopProducer,
            Command::StopChaos,
            Command::KillConsumer { slot: 0 },
            Command::KillConsumer { slot: 1 },
            Command::KillConsumer { slot: 2 },
            Command::DeleteStream,
        ]
    );
}

#[test]
fn shutdown_scenario_stops_everything_and_deletes_the_stream() {
    let mut producer = ProducerState::start();
    let (next, _) = producer.step(false);
    producer = next;
    let mut stream_exists = true;
    let mut kills: Vec<usize> = Vec::new();
    let roster_len = 4;
    let before_stop = producer.next_n;
    for command in shutdown_plan(roster_len) {
        match command {
            Command::StopProducer => {
                let (next, action) = producer.step(true);
                assert_eq!(action, ProducerAction::Halt);
                producer = next;
            }
            Command::StopChaos => {
                assert_eq!(chaos_decide(true, roster_len), ChaosAction::Halt);
            }
            Command::KillConsumer { slot } => kills.push(slot),
            Command::DeleteStream => stream_exists = false,
            Command::CreateGroup => panic!("no group creation during shutdown"),
        }
    }
    // Zero further appends after the stop, every consumer terminated,
    // and the stream gone.
    assert_eq!(producer.next_n, before_stop);
    assert_eq!(kills, vec![0, 1, 2, 3]);
    assert!(!stream_exists);
}

/// The log store's consumer-group bookkeeping, simulated: an ordered
/// stream of entries, the first never-delivered position, and each
/// member's delivered-but-unacknowledged entries.
struct SimStore {
    stream: Vec<Entry>,
    next_undelivered: usize,
    pending: HashMap<String, Vec<Entry>>,
    ack_counts: HashMap<(u64, u64), usize>,
}

impl SimStore {
    fn new(names: &[String]) -> SimStore {
        let mut pending = HashMap::new();
        for name in names {
            pending.insert(name.clone(), Vec::new());
        }
        SimStore { stream: Vec::new(), next_undelivered: 0, pending, ack_counts: HashMap::new() }
    }

    fn append(&mut self, n: u64) {
        let id = EntryId { time: n, seq: 0 };
        self.stream.push(Entry { id, n });
    }

    /// One blocking group read for `name`: pending redeliveries while
    /// recovering, undelivered entries while live, a timeout when the
    /// stream is quiet.
    fn read(&mut self, name: &str, state: &ConsumerState, batch: usize) -> ReadReply {
        match state.phase {
            Phase::Recovering => {
                let pend = &self.pending[name];
                let chunk: Vec<Entry> = pend.iter().take(batch).cloned().collect();
                ReadReply::Batch(chunk)
            }
            Phase::Live => {
                let avail = self.stream.len() - self.next_undelivered;
                if avail == 0 {
                    return ReadReply::Timeout;
                }
                let take = avail.min(batch);
                let chunk: Vec<Entry> =
                    self.stream[self.next_undelivered..self.next_undelivered + take].to_vec();
                self.next_undelivered += take;
                self.pending.get_mut(name).unwrap().extend(chunk.iter().cloned());
                ReadReply::Batch(chunk)
            }
            Phase::Stopped => ReadReply::Timeout,
        }
    }

    fn ack(&mut self, name: &str, id: EntryId) {
        *self.ack_counts.entry((id.time, id.seq)).or_insert(0) += 1;
        self.pending.get_mut(name).unwrap().retain(|e| e.id != id);
    }
}

#[test]
fn fleet_acknowledges_every_entry_exactly_once_under_chaos() {
    let names = fleet_names(MEMBERS);
    let mut store = SimStore::new(&names);
    let mut consumers: Vec<ConsumerState> =
        (0..MEMBERS).map(|_| ConsumerState::start()).collect();
    let mut producer = ProducerState::start();
    let total_entries = 60u64;

    // Scripted kill points: (round, member) pairs. A kill happens right
    // after the member has been delivered a batch and before it
    // acknowledges anything, imitating a process death mid-work; the
    // replacement starts over in the recovery phase.
    let kills = [(2usize, 0usize), (3, 4), (5, 0), (7, 9)];

    let mut round = 0usize;
    loop {
        round += 1;
        assert!(round < 10_000, "simulation failed to settle");

        // The producer appends a few entries per round until done.
        for _ in 0..3 {
            if producer.next_n < total_entries {
                let (next, action) = producer.step(false);
                match action {
                    ProducerAction::Append { n } => store.append(n),
                    ProducerAction::Halt => unreachable!(),
                }
                producer = next;
            }
        }

        for (i, name) in names.iter().enumerate() {
            if consumers[i].phase == Phase::Stopped {
                continue;
            }
            let reply = store.read(name, &consumers[i], 4);
            if kills.contains(&(round, i)) {
                // Chaos strikes: delivered entries stay pending, the
                // slot is refilled under the same logical name.
                consumers[i] = ConsumerState::start();
                continue;
            }
            let (next, directive) = consumers[i].on_reply(reply);
            consumers[i] = next;
            if let Directive::Process(entries) = directive {
                for e in &entries {
                    store.ack(name, e.id);
                }
            }
        }

        let produced_all = producer.next_n == total_entries;
        let all_stopped = consumers.iter().all(|c| c.phase == Phase::Stopped);
        if produced_all && all_stopped {
            break;
        }
    }

    // Every appended entry was delivered and acknowledged exactly once,
    // and no entry is left pending for any consumer name.
    assert_eq!(store.next_undelivered, store.stream.len());
    assert_eq!(store.ack_counts.len(), total_entries as usize);
    for n in 0..total_entries {
        assert_eq!(store.ack_counts[&(n, 0)], 1, "entry {} not acked exactly once", n);
    }
    for name in &names {
        assert!(store.pending[name].is_empty(), "{} left entries pending", name);
    }
}
