use vyasoai_daemon::envelope::{EventEnvelope, PrivacyFlag};
use vyasoai_daemon::worker::{
    chunk_rows, stores_content, Batcher, ChunkFields, EnrichmentOutput, EnrichmentRun, RetryPolicy,
    RunOutcome, WorkerEvent, BATCH_SIZE,
};

fn env(i: usize) -> EventEnvelope {
    EventEnvelope {
        event_id: format!("id-{}", i),
        timestamp: "2024-03-07T10:00:00Z".to_string(),
        source: "s".to_string(),
        app: "a".to_string(),
        content_pointer: String::new(),
        content_hash: "a".repeat(64),
        size_bytes: 0,
        tags: vec![],
        privacy_flag: PrivacyFlag::Default,
    }
}

#[test]
fn full_batch_is_flushed_in_order() {
    let mut b = Batcher::new();
    for i in 0..BATCH_SIZE - 1 {
        let s = b.step(WorkerEvent::Received(env(i)));
        assert!(s.flush.is_empty() && !s.reset_deadline && !s.stop);
    }
    let s = b.step(WorkerEvent::Received(env(63)));
    assert_eq!(s.flush.len(), 64);
    assert_eq!(s.flush[0].event_id, "id-0");
    assert_eq!(s.flush[63].event_id, "id-63");
    assert!(s.reset_deadline && !s.stop);
    assert_eq!(b.pending(), 0);
}

#[test]
fn deadline_flushes_what_is_buffered() {
    let mut b = Batcher::new();
    let s = b.step(WorkerEvent::TimedOut);
    assert!(s.flush.is_empty() && s.reset_deadline);
    b.step(WorkerEvent::Received(env(1)));
    b.step(WorkerEvent::Received(env(2)));
    let s = b.step(WorkerEvent::TimedOut);
    let ids: Vec<String> = s.flush.iter().map(|e| e.event_id.clone()).collect();
    assert_eq!(ids, vec!["id-1".to_string(), "id-2".to_string()]);
    assert!(s.reset_deadline && !s.stop);
}

#[test]
fn closing_flushes_and_stops() {
    let mut b = Batcher::new();
    b.step(WorkerEvent::Received(env(1)));
    let s = b.step(WorkerEvent::Closed);
    assert_eq!(s.flush.len(), 1);
    assert!(s.stop);
}

#[test]
fn never_store_content_is_not_kept() {
    let mut e = env(1);
    assert!(stores_content(&e));
    e.privacy_flag = PrivacyFlag::Sensitive;
    assert!(stores_content(&e));
    e.privacy_flag = PrivacyFlag::NeverStore;
    assert!(!stores_content(&e));
}

#[test]
fn test_mode_makes_no_attempt() {
    let run = EnrichmentRun::start(RetryPolicy::test_mode());
    assert!(!run.wants_attempt());
    assert_eq!(RetryPolicy::test_mode().timeout_ms, 100);
}

#[test]
fn production_retries_up_to_three_runs() {
    let mut run = EnrichmentRun::start(RetryPolicy::production());
    assert_eq!(run.policy.timeout_ms, 15_000);
    let mut runs = 0;
    while run.wants_attempt() {
        run.record(RunOutcome::TimedOut);
        runs += 1;
    }
    assert_eq!(runs, 3);
    assert!(!run.succeeded);
    let mut run = EnrichmentRun::start(RetryPolicy::production());
    run.record(RunOutcome::Failed);
    run.record(RunOutcome::Succeeded);
    assert!(run.succeeded && !run.wants_attempt());
    assert_eq!(run.attempts, 2);
}

fn fields(id: Option<&str>, start: Option<i64>, end: Option<i64>, kind: Option<&str>) -> ChunkFields {
    ChunkFields { id: id.map(|s| s.to_string()), start, end, kind: kind.map(|s| s.to_string()) }
}

#[test]
fn complete_chunk_entries_become_rows() {
    let out = EnrichmentOutput {
        status: Some("ok".to_string()),
        event_id: Some("ev".to_string()),
        chunks: Some(vec![
            fields(Some("c1"), Some(0), Some(4), Some("prose")),
            fields(Some("c2"), None, Some(9), Some("prose")),
            fields(Some("c3"), Some(4), Some(9), Some("code")),
        ]),
    };
    let rows = chunk_rows(&out);
    assert_eq!(rows.len(), 2);
    assert_eq!(rows[0].chunk_id, "c1");
    assert_eq!(rows[0].event_id, "ev");
    assert_eq!((rows[1].start_offset, rows[1].end_offset), (4, 9));
    assert_eq!(rows[1].content_type, "code");
}

#[test]
fn other_results_yield_no_chunks() {
    let chunks = Some(vec![fields(Some("c1"), Some(0), Some(4), Some("prose"))]);
    let failed = EnrichmentOutput { status: Some("error".to_string()), event_id: Some("ev".to_string()), chunks: chunks.clone() };
    assert!(chunk_rows(&failed).is_empty());
    let anonymous = EnrichmentOutput { status: Some("ok".to_string()), event_id: None, chunks: chunks.clone() };
    assert!(chunk_rows(&anonymous).is_empty());
    let empty = EnrichmentOutput { status: Some("ok".to_string()), event_id: Some("ev".to_string()), chunks: None };
    assert!(chunk_rows(&empty).is_empty());
}
