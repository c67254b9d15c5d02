use indexer::layout::{StorageEvent, StoreLayout};
use indexer::pipeline::{Action, Config, Indexer};
use indexer::resolve::{Document, Policy};

fn config(policy: Policy) -> Config {
    Config {
        layout: StoreLayout { index_key: "index".to_string(), document_prefix: "data/".to_string() },
        policy,
        stop_on_publish_error: true,
    }
}

fn put(key: &str) -> Option<StorageEvent> {
    Some(StorageEvent { event_name: "s3:ObjectCreated:Put".to_string(), key: key.to_string() })
}

fn annotated(identifier: &str, digest: &str) -> Option<Document> {
    Some(Document {
        data: b"{}".to_vec(),
        digest: Some(digest.to_string()),
        identifier: Some(identifier.to_string()),
    })
}

/// Runs one flush cycle whose push and commit succeed; returns what was pushed
/// and committed.
fn flush(ix: &mut Indexer) -> (Vec<u8>, Vec<u64>) {
    let pushed = match ix.on_tick() {
        Action::Push(b) => b,
        other => panic!("expected a push, got {:?}", other),
    };
    let committed = match ix.on_pushed(true) {
        Action::Commit(e) => e,
        other => panic!("expected a commit, got {:?}", other),
    };
    ix.on_committed(true);
    (pushed, committed)
}

#[test]
fn single_put_is_indexed_pushed_and_committed() {
    let mut ix = Indexer::new(config(Policy::Annotated));
    assert_eq!(ix.on_event(7, put("data/docs/a")), Action::Fetch("docs/a".to_string()));
    assert_eq!(ix.on_fetched(annotated("pkg:generic/a", "deadbeef")), Action::PublishIndexed("docs/a".to_string()));
    assert_eq!(ix.changes(), 1);
    assert_eq!(ix.lookup(&"pkg:generic/a".to_string()), Some(("deadbeef".to_string(), "docs/a".to_string())));
    let (pushed, committed) = flush(&mut ix);
    assert!(!pushed.is_empty());
    assert_eq!(committed, vec![7]);
    assert_eq!(ix.changes(), 0);
    assert!(ix.pending().is_empty());
    assert!(ix.is_ready());
}

#[test]
fn two_puts_in_one_window_are_batched() {
    let mut ix = Indexer::new(config(Policy::Annotated));
    assert_eq!(ix.on_event(1, put("data/a")), Action::Fetch("a".to_string()));
    assert_eq!(ix.on_fetched(annotated("A", "d1")), Action::PublishIndexed("a".to_string()));
    assert_eq!(ix.on_event(2, put("data/b")), Action::Fetch("b".to_string()));
    assert_eq!(ix.on_fetched(annotated("B", "d2")), Action::PublishIndexed("b".to_string()));
    assert_eq!(ix.changes(), 2);
    let (pushed, committed) = flush(&mut ix);
    let expected: Vec<u8> = vec![
        0, 0, 0, 1, b'A', 0, 0, 0, 2, b'd', b'1', 0, 0, 0, 1, b'a', 0, 0, 0, 1, b'B', 0, 0, 0, 2, b'd', b'2', 0, 0,
        0, 1, b'b',
    ];
    assert_eq!(pushed, expected);
    assert_eq!(committed, vec![1, 2]);
    assert_eq!(ix.on_tick(), Action::Nothing);
}

#[test]
fn own_snapshot_notification_is_ignored() {
    let mut ix = Indexer::new(config(Policy::Annotated));
    assert_eq!(ix.on_event(3, put("index")), Action::Nothing);
    assert_eq!(ix.pending(), vec![3]);
    assert_eq!(ix.indexed(), 0);
    assert_eq!(ix.changes(), 0);
    assert!(ix.is_ready());
}

#[test]
fn undecodable_and_other_events_are_consumed() {
    let mut ix = Indexer::new(config(Policy::Annotated));
    assert_eq!(ix.on_event(1, None), Action::Nothing);
    let delete = Some(StorageEvent { event_name: "s3:ObjectRemoved:Delete".to_string(), key: "data/a".to_string() });
    assert_eq!(ix.on_event(2, delete), Action::Nothing);
    assert_eq!(ix.on_event(3, put("elsewhere/a")), Action::Nothing);
    assert_eq!(ix.pending(), vec![1, 2, 3]);
    assert_eq!(ix.changes(), 0);
}

#[test]
fn failed_fetch_is_consumed() {
    let mut ix = Indexer::new(config(Policy::Annotated));
    assert_eq!(ix.on_event(4, put("data/a")), Action::Fetch("a".to_string()));
    assert_eq!(ix.on_fetched(None), Action::Nothing);
    assert_eq!(ix.pending(), vec![4]);
    assert_eq!(ix.indexed(), 0);
}

#[test]
fn document_without_digest_is_skipped() {
    let mut ix = Indexer::new(config(Policy::Annotated));
    assert_eq!(ix.on_event(1, put("data/a")), Action::Fetch("a".to_string()));
    let d = Document { data: b"{}".to_vec(), digest: None, identifier: Some("A".to_string()) };
    assert_eq!(ix.on_fetched(Some(d)), Action::Nothing);
    assert_eq!(ix.indexed(), 0);
    assert_eq!(ix.changes(), 0);
    assert_eq!(ix.on_event(2, put("data/b")), Action::Fetch("b".to_string()));
    assert_eq!(ix.on_fetched(annotated("B", "d")), Action::PublishIndexed("b".to_string()));
    assert_eq!(ix.pending(), vec![1, 2]);
}

#[test]
fn document_without_identifier_is_reported() {
    let mut ix = Indexer::new(config(Policy::ParseAndHash));
    assert_eq!(ix.on_event(1, put("data/a")), Action::Fetch("a".to_string()));
    let d = Document { data: b"{}".to_vec(), digest: None, identifier: None };
    assert_eq!(
        ix.on_fetched(Some(d)),
        Action::PublishFailed(
            "{\"error\":\"Unable to locate package URL (pURL) for SBOM\",\"key\":\"a\"}".to_string()
        )
    );
    assert_eq!(ix.indexed(), 0);
    assert_eq!(ix.changes(), 0);
}

#[test]
fn upsert_failure_is_reported() {
    let mut ix = Indexer::new(config(Policy::Annotated));
    assert_eq!(ix.on_event(1, put("data/a")), Action::Fetch("a".to_string()));
    assert_eq!(
        ix.on_fetched(annotated("A", "")),
        Action::PublishFailed("{\"error\":\"digest is empty\",\"key\":\"a\"}".to_string())
    );
    assert_eq!(ix.changes(), 0);
    assert_eq!(ix.pending(), vec![1]);
}

#[test]
fn parse_and_hash_indexes_content_hash() {
    let mut ix = Indexer::new(config(Policy::ParseAndHash));
    assert_eq!(ix.on_event(1, put("data/a")), Action::Fetch("a".to_string()));
    let d = Document { data: b"abc".to_vec(), digest: None, identifier: Some("pkg:a".to_string()) };
    assert_eq!(ix.on_fetched(Some(d)), Action::PublishIndexed("a".to_string()));
    assert_eq!(
        ix.lookup(&"pkg:a".to_string()),
        Some(("ba7816bf8f01cfea414140de5dae2223b00361a396177a9cb410ff61f20015ad".to_string(), "a".to_string()))
    );
}

#[test]
fn tick_without_changes_does_nothing() {
    let mut ix = Indexer::new(config(Policy::Annotated));
    assert_eq!(ix.on_event(1, None), Action::Nothing);
    assert_eq!(ix.on_tick(), Action::Nothing);
    assert!(ix.is_ready());
    assert_eq!(ix.pending(), vec![1]);
}

#[test]
fn failed_push_leads_to_no_commit() {
    let mut ix = Indexer::new(config(Policy::Annotated));
    ix.on_event(1, put("data/a"));
    ix.on_fetched(annotated("A", "d"));
    assert!(matches!(ix.on_tick(), Action::Push(_)));
    assert_eq!(ix.on_pushed(false), Action::Nothing);
    assert_eq!(ix.changes(), 1);
    assert_eq!(ix.pending(), vec![1]);
    let (_, committed) = flush(&mut ix);
    assert_eq!(committed, vec![1]);
}

#[test]
fn failed_commit_keeps_batch() {
    let mut ix = Indexer::new(config(Policy::Annotated));
    ix.on_event(1, put("data/a"));
    ix.on_fetched(annotated("A", "d"));
    assert!(matches!(ix.on_tick(), Action::Push(_)));
    assert_eq!(ix.on_pushed(true), Action::Commit(vec![1]));
    ix.on_committed(false);
    assert_eq!(ix.changes(), 1);
    assert_eq!(ix.pending(), vec![1]);
    ix.on_event(2, None);
    let (_, committed) = flush(&mut ix);
    assert_eq!(committed, vec![1, 2]);
}

#[test]
fn replayed_events_leave_same_index() {
    let events = [(1u64, "data/a", "A", "d1"), (2, "data/b", "B", "d2"), (3, "data/a", "A", "d3")];
    let mut once = Indexer::new(config(Policy::Annotated));
    let mut replayed = Indexer::new(config(Policy::Annotated));
    for (round, ix) in [(1, &mut once), (2, &mut replayed)] {
        for _ in 0..round {
            for (e, key, id, digest) in events.iter() {
                ix.on_event(*e, put(key));
                ix.on_fetched(annotated(id, digest));
            }
        }
    }
    assert_eq!(once.indexed(), 2);
    assert_eq!(replayed.indexed(), 2);
    assert_eq!(once.lookup(&"A".to_string()), Some(("d3".to_string(), "a".to_string())));
    assert_eq!(replayed.lookup(&"A".to_string()), Some(("d3".to_string(), "a".to_string())));
    assert_eq!(once.lookup(&"B".to_string()), replayed.lookup(&"B".to_string()));
    assert_eq!(flush(&mut once).0, flush(&mut replayed).0);
}

#[test]
fn publish_failure_policy() {
    let stopping = Indexer::new(config(Policy::Annotated));
    assert!(stopping.continues_after_publish(true));
    assert!(!stopping.continues_after_publish(false));
    let mut c = config(Policy::Annotated);
    c.stop_on_publish_error = false;
    let lenient = Indexer::new(c);
    assert!(lenient.continues_after_publish(false));
}
