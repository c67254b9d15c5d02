use indexer::layout::{StorageEvent, StoreLayout};

fn layout() -> StoreLayout {
    StoreLayout { index_key: "index".to_string(), document_prefix: "data/".to_string() }
}

#[test]
fn index_key_is_recognized() {
    let l = layout();
    assert!(l.is_index(&"index".to_string()));
    assert!(!l.is_index(&"data/index".to_string()));
    assert!(!l.is_index(&"".to_string()));
}

#[test]
fn document_key_is_extracted() {
    let l = layout();
    assert_eq!(l.extract_key(&"data/docs/a".to_string()), Some("docs/a".to_string()));
    assert_eq!(l.extract_key(&"data/é".to_string()), Some("é".to_string()));
    assert_eq!(l.extract_key(&"data/".to_string()), None);
    assert_eq!(l.extract_key(&"other/x".to_string()), None);
    assert_eq!(l.extract_key(&"dat".to_string()), None);
}

#[test]
fn only_put_events_are_puts() {
    let put = StorageEvent { event_name: "s3:ObjectCreated:Put".to_string(), key: "k".to_string() };
    let del = StorageEvent { event_name: "s3:ObjectRemoved:Delete".to_string(), key: "k".to_string() };
    let longer = StorageEvent { event_name: "s3:ObjectCreated:Put2".to_string(), key: "k".to_string() };
    assert!(put.is_put());
    assert!(!del.is_put());
    assert!(!longer.is_put());
}
