use stream_group::consumer::{
    choose_batch_size, process_batch, ConsumerState, Cursor, Directive, Entry, Phase, ReadReply,
    INITIAL_IDLE_TIMEOUT, MAX_IDLE_RETRIES,
};
use stream_group::ids::EntryId;
use stream_group::primes::{classify, judgement_message};
use stream_group::CoreError;

fn entry(time: u64, seq: u64, n: u64) -> Entry {
    Entry { id: EntryId { time, seq }, n }
}

#[test]
fn fresh_consumer_recovers_from_start() {
    let s = ConsumerState::start();
    assert_eq!(s.phase, Phase::Recovering);
    assert_eq!(s.cursor, Cursor::PendingFromStart);
    assert_eq!(s.idle_timeout, INITIAL_IDLE_TIMEOUT);
    assert_eq!(s.idle_retries, 0);
    assert_eq!(s.cursor_token(), "0");
}

#[test]
fn idle_backoff_doubles_then_gives_up() {
    // Timeout values the six consecutive empty reads block for.
    let mut s = ConsumerState::start();
    let expected = [100u64, 200, 400, 800, 1600, 3200];
    for k in 0..5 {
        assert_eq!(s.idle_timeout, expected[k]);
        let (next, d) = s.on_reply(ReadReply::Timeout);
        assert!(matches!(d, Directive::Retry));
        assert_eq!(next.idle_retries as usize, k + 1);
        assert_eq!(next.idle_timeout, expected[k + 1]);
        assert_eq!(next.phase, Phase::Recovering);
        s = next;
    }
    assert_eq!(s.idle_retries, MAX_IDLE_RETRIES);
    let (stopped, d) = s.on_reply(ReadReply::Timeout);
    assert!(matches!(d, Directive::GiveUp));
    assert_eq!(stopped.phase, Phase::Stopped);
}

#[test]
fn delivery_resets_backoff() {
    let s = ConsumerState::start();
    let (s, _) = s.on_reply(ReadReply::Timeout);
    let (s, _) = s.on_reply(ReadReply::Timeout);
    assert_eq!(s.idle_timeout, 400);
    let (s, d) = s.on_reply(ReadReply::Batch(vec![entry(1, 0, 4)]));
    assert!(matches!(d, Directive::Process(_)));
    assert_eq!(s.idle_timeout, INITIAL_IDLE_TIMEOUT);
    assert_eq!(s.idle_retries, 0);
}

#[test]
fn recovery_processes_pending_before_live() {
    let s = ConsumerState::start();
    // Pending redeliveries keep the consumer recovering.
    let pending = vec![entry(1, 0, 0), entry(1, 1, 1)];
    let (s, d) = s.on_reply(ReadReply::Batch(pending.clone()));
    match d {
        Directive::Process(v) => assert_eq!(v, pending),
        other => panic!("expected Process, got {:?}", other),
    }
    assert_eq!(s.phase, Phase::Recovering);
    assert_eq!(s.cursor, Cursor::PendingFromStart);
    // An empty batch marks recovery complete.
    let (s, d) = s.on_reply(ReadReply::Batch(vec![]));
    assert!(matches!(d, Directive::BeginLive));
    assert_eq!(s.phase, Phase::Live);
    assert_eq!(s.cursor, Cursor::NewOnly);
    assert_eq!(s.cursor_token(), ">");
    // Live deliveries are processed as they come.
    let fresh = vec![entry(2, 0, 7)];
    let (s, d) = s.on_reply(ReadReply::Batch(fresh.clone()));
    match d {
        Directive::Process(v) => assert_eq!(v, fresh),
        other => panic!("expected Process, got {:?}", other),
    }
    assert_eq!(s.phase, Phase::Live);
}

#[test]
fn failed_read_is_fatal() {
    let s = ConsumerState::start();
    let (s, d) = s.on_reply(ReadReply::Failed);
    match d {
        Directive::Fail(e) => assert_eq!(e, CoreError::StoreUnavailable),
        other => panic!("expected Fail, got {:?}", other),
    }
    assert_eq!(s.phase, Phase::Stopped);
}

#[test]
fn batch_size_is_small_and_positive() {
    for _ in 0..100 {
        let c = choose_batch_size();
        assert!((1..=6).contains(&c));
    }
}

#[test]
fn process_batch_acknowledges_in_delivery_order() {
    let batch = vec![entry(1, 0, 2), entry(1, 1, 4), entry(1, 2, 5)];
    let acks = process_batch(&batch);
    assert_eq!(acks.len(), 3);
    assert_eq!(acks[0], (EntryId { time: 1, seq: 0 }, true));
    assert_eq!(acks[1], (EntryId { time: 1, seq: 1 }, false));
    assert_eq!(acks[2], (EntryId { time: 1, seq: 2 }, true));
}

#[test]
fn classify_judges_primality() {
    assert!(!classify(0));
    assert!(!classify(1));
    assert!(classify(2));
    assert!(classify(3));
    assert!(!classify(4));
    assert!(classify(7));
    assert!(!classify(100));
    assert!(classify(104729));
}

#[test]
fn judgement_message_reports_verdict() {
    assert_eq!(judgement_message(7), "7 is a prime number");
    assert_eq!(judgement_message(8), "8 is a not prime number");
}
