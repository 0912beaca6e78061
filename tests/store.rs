use rusqlite::Connection;
use vyasoai_daemon::blobs::{blob_path, BlobDate};
use vyasoai_daemon::db::{
    events_matching, get_blob_index, get_event, init_schema, insert_chunks, insert_event,
    insert_event_on, query_events_by_app_source, query_events_by_timerange, ChunkRow, StoreError,
};
use vyasoai_daemon::purge::{purge_events, PurgeCriteria};
use vyasoai_daemon::envelope::{EventEnvelope, PrivacyFlag};

const DAY: BlobDate = BlobDate { year: 2024, month: 3, day: 7 };

fn store() -> Connection {
    let mut db = Connection::open_in_memory().unwrap();
    init_schema(&mut db).unwrap();
    db
}

fn hash(c: char) -> String {
    std::iter::repeat(c).take(64).collect()
}

fn event(id: &str, ts: &str, h: &str) -> EventEnvelope {
    EventEnvelope {
        event_id: id.to_string(),
        timestamp: ts.to_string(),
        source: "purger".to_string(),
        app: "purge-app".to_string(),
        content_pointer: "/tmp/vyaso_purge.txt".to_string(),
        content_hash: h.to_string(),
        size_bytes: 8,
        tags: vec!["x".to_string(), "y".to_string()],
        privacy_flag: PrivacyFlag::Default,
    }
}

fn count(db: &Connection, sql: &str) -> i64 {
    db.query_row(sql, [], |r| r.get(0)).unwrap()
}

fn by_ids(ids: &[&str]) -> PurgeCriteria {
    PurgeCriteria { event_ids: Some(ids.iter().map(|s| s.to_string()).collect()), ..Default::default() }
}

#[test]
fn insert_then_get_event() {
    let mut db = store();
    let h = hash('a');
    let e = event("id-1", "2024-03-07T10:00:00Z", &h);
    insert_event_on(&mut db, &e, DAY).unwrap();
    let got = get_event(&db, "id-1").unwrap();
    assert_eq!(got.event_id, "id-1");
    assert_eq!(got.timestamp, "2024-03-07T10:00:00Z");
    assert_eq!(got.content_pointer, "/tmp/vyaso_purge.txt");
    assert_eq!(got.size_bytes, 8);
    assert_eq!(got.tags, vec!["x".to_string(), "y".to_string()]);
    assert_eq!(got.privacy_flag, PrivacyFlag::Default);
    let (path, refs) = get_blob_index(&db, &h).unwrap().unwrap();
    assert_eq!(path, blob_path(DAY, &h));
    assert_eq!(path, format!("data/blobs/2024/03/07/{}.zst.enc", h));
    assert_eq!(refs, 1);
}

#[test]
fn missing_event_is_not_found() {
    let db = store();
    assert!(matches!(get_event(&db, "nope"), Err(StoreError::NotFound)));
    assert!(get_blob_index(&db, &hash('b')).unwrap().is_none());
}

#[test]
fn blank_pointer_is_stored_as_blob_path() {
    let mut db = store();
    let h = hash('c');
    let mut e = event("id-1", "2024-03-07T10:00:00Z", &h);
    e.content_pointer = "   ".to_string();
    insert_event_on(&mut db, &e, DAY).unwrap();
    assert_eq!(get_event(&db, "id-1").unwrap().content_pointer, blob_path(DAY, &h));
}

#[test]
fn shared_hash_is_indexed_once_and_counted() {
    let mut db = store();
    let h = hash('d');
    for id in ["id-1", "id-2", "id-3"] {
        insert_event_on(&mut db, &event(id, "2024-03-07T10:00:00Z", &h), DAY).unwrap();
    }
    let later = BlobDate { year: 2025, month: 1, day: 2 };
    insert_event_on(&mut db, &event("id-4", "2024-03-07T10:00:00Z", &h), later).unwrap();
    let (path, refs) = get_blob_index(&db, &h).unwrap().unwrap();
    assert_eq!(refs, 4);
    assert_eq!(path, blob_path(DAY, &h));
    assert_eq!(count(&db, "SELECT COUNT(*) FROM events"), 4);
    assert_eq!(count(&db, "SELECT COUNT(*) FROM blob_index"), 1);
}

#[test]
fn second_insert_of_an_id_fails_without_touching_the_index() {
    let mut db = store();
    let h = hash('e');
    let e = event("id-1", "2024-03-07T10:00:00Z", &h);
    insert_event(&mut db, &e).unwrap();
    assert!(matches!(insert_event(&mut db, &e), Err(StoreError::DuplicateEvent)));
    assert_eq!(get_blob_index(&db, &h).unwrap().unwrap().1, 1);
    assert_eq!(count(&db, "SELECT COUNT(*) FROM events"), 1);
}

#[test]
fn never_store_event_still_indexes_its_hash() {
    let mut db = store();
    let h = hash('f');
    let mut e = event("id-1", "2024-03-07T10:00:00Z", &h);
    e.privacy_flag = PrivacyFlag::NeverStore;
    insert_event_on(&mut db, &e, DAY).unwrap();
    assert_eq!(get_event(&db, "id-1").unwrap().privacy_flag, PrivacyFlag::NeverStore);
    assert_eq!(get_blob_index(&db, &h).unwrap().unwrap().1, 1);
}

#[test]
fn purge_with_empty_criteria_changes_nothing() {
    let mut db = store();
    insert_event_on(&mut db, &event("id-1", "2024-03-07T10:00:00Z", &hash('a')), DAY).unwrap();
    let rep = purge_events(&mut db, PurgeCriteria::default()).unwrap();
    assert_eq!((rep.deleted_events, rep.deleted_blobs), (0, 0));
    assert!(rep.released_paths.is_empty());
    assert_eq!(count(&db, "SELECT COUNT(*) FROM events"), 1);
    assert_eq!(get_blob_index(&db, &hash('a')).unwrap().unwrap().1, 1);
}

#[test]
fn partial_purge_keeps_the_shared_blob() {
    let mut db = store();
    let h = hash('1');
    insert_event_on(&mut db, &event("id-1", "2024-03-07T10:00:00Z", &h), DAY).unwrap();
    insert_event_on(&mut db, &event("id-2", "2024-03-07T11:00:00Z", &h), DAY).unwrap();
    assert_eq!(get_blob_index(&db, &h).unwrap().unwrap().1, 2);
    let rep = purge_events(&mut db, by_ids(&["id-1"])).unwrap();
    assert_eq!(rep.deleted_events, 1);
    assert_eq!(rep.deleted_blobs, 1);
    assert!(rep.released_paths.is_empty());
    assert_eq!(get_blob_index(&db, &h).unwrap().unwrap().1, 1);
    assert!(matches!(get_event(&db, "id-1"), Err(StoreError::NotFound)));
    assert!(get_event(&db, "id-2").is_ok());
}

#[test]
fn purge_to_zero_drops_the_index_row() {
    let mut db = store();
    let h = hash('2');
    for id in ["id-1", "id-2", "id-3"] {
        insert_event_on(&mut db, &event(id, "2024-03-07T10:00:00Z", &h), DAY).unwrap();
    }
    let rep = purge_events(&mut db, by_ids(&["id-1", "id-2", "id-3"])).unwrap();
    assert_eq!(rep.deleted_events, 3);
    assert_eq!(rep.deleted_blobs, 1);
    assert_eq!(rep.released_paths, vec![blob_path(DAY, &h)]);
    assert!(get_blob_index(&db, &h).unwrap().is_none());
    assert_eq!(count(&db, "SELECT COUNT(*) FROM events"), 0);
}

#[test]
fn purge_by_ids_reports_the_ids_asked_for() {
    let mut db = store();
    let h = hash('3');
    insert_event_on(&mut db, &event("id-1", "2024-03-07T10:00:00Z", &h), DAY).unwrap();
    let rep = purge_events(&mut db, by_ids(&["id-1", "id-unknown"])).unwrap();
    assert_eq!(rep.deleted_events, 2);
    assert_eq!(rep.deleted_blobs, 1);
    assert_eq!(count(&db, "SELECT COUNT(*) FROM events"), 0);
}

#[test]
fn purge_by_criteria_counts_rows_and_freed_blobs() {
    let mut db = store();
    let (h1, h2) = (hash('4'), hash('5'));
    insert_event_on(&mut db, &event("id-1", "2024-03-01T00:00:00Z", &h1), DAY).unwrap();
    insert_event_on(&mut db, &event("id-2", "2024-03-02T00:00:00Z", &h1), DAY).unwrap();
    insert_event_on(&mut db, &event("id-3", "2024-03-03T00:00:00Z", &h2), DAY).unwrap();
    let mut other = event("id-4", "2024-03-02T12:00:00Z", &h1);
    other.app = "other-app".to_string();
    insert_event_on(&mut db, &other, DAY).unwrap();
    let c = PurgeCriteria {
        start: Some("2024-03-02T00:00:00Z".to_string()),
        end: Some("2024-03-09T00:00:00Z".to_string()),
        app: Some("purge-app".to_string()),
        ..Default::default()
    };
    let rep = purge_events(&mut db, c).unwrap();
    assert_eq!(rep.deleted_events, 2);
    assert_eq!(rep.deleted_blobs, 1);
    assert_eq!(rep.released_paths, vec![blob_path(DAY, &h2)]);
    assert_eq!(get_blob_index(&db, &h1).unwrap().unwrap().1, 2);
    assert!(get_blob_index(&db, &h2).unwrap().is_none());
    assert_eq!(count(&db, "SELECT COUNT(*) FROM events"), 2);
}

#[test]
fn queries_filter_and_order_by_timestamp() {
    let mut db = store();
    let h = hash('6');
    insert_event_on(&mut db, &event("id-3", "2024-03-03T00:00:00Z", &h), DAY).unwrap();
    insert_event_on(&mut db, &event("id-1", "2024-03-01T00:00:00Z", &h), DAY).unwrap();
    let mut e = event("id-2", "2024-03-02T00:00:00Z", &h);
    e.source = "other".to_string();
    insert_event_on(&mut db, &e, DAY).unwrap();
    let got = query_events_by_timerange(&db, "2024-03-01T00:00:00Z", "2024-03-02T00:00:00Z").unwrap();
    let ids: Vec<&str> = got.iter().map(|e| e.event_id.as_str()).collect();
    assert_eq!(ids, vec!["id-1", "id-2"]);
    let got = query_events_by_app_source(&db, Some("purge-app"), Some("purger")).unwrap();
    let ids: Vec<&str> = got.iter().map(|e| e.event_id.as_str()).collect();
    assert_eq!(ids, vec!["id-1", "id-3"]);
    let all = query_events_by_app_source(&db, None, None).unwrap();
    assert_eq!(all.len(), 3);
    assert_eq!(events_matching(&db, &PurgeCriteria::default()).unwrap().len(), 3);
}

#[test]
fn chunks_are_inserted_once() {
    let mut db = store();
    insert_event_on(&mut db, &event("id-1", "2024-03-07T10:00:00Z", &hash('7')), DAY).unwrap();
    let rows = vec![
        ChunkRow { chunk_id: "c1".to_string(), event_id: "id-1".to_string(), start_offset: 0, end_offset: 5, content_type: "prose".to_string() },
        ChunkRow { chunk_id: "c2".to_string(), event_id: "id-1".to_string(), start_offset: 5, end_offset: 9, content_type: "prose".to_string() },
    ];
    assert_eq!(insert_chunks(&mut db, &rows).unwrap(), 2);
    assert_eq!(insert_chunks(&mut db, &rows).unwrap(), 2);
    assert_eq!(count(&db, "SELECT COUNT(*) FROM chunks"), 2);
    let end: i64 = db.query_row("SELECT end_offset FROM chunks WHERE chunk_id = 'c2'", [], |r| r.get(0)).unwrap();
    assert_eq!(end, 9);
}

#[test]
fn tags_are_stored_as_a_json_array() {
    let mut db = store();
    insert_event_on(&mut db, &event("id-1", "2024-03-07T10:00:00Z", &hash('8')), DAY).unwrap();
    let tags: String = db.query_row("SELECT tags FROM events WHERE event_id = 'id-1'", [], |r| r.get(0)).unwrap();
    assert_eq!(tags, "[\"x\",\"y\"]");
    let flag: String = db.query_row("SELECT privacy_flag FROM events WHERE event_id = 'id-1'", [], |r| r.get(0)).unwrap();
    assert_eq!(flag, "default");
}

#[test]
fn unreadable_tags_read_back_as_none() {
    let mut db = store();
    insert_event_on(&mut db, &event("id-1", "2024-03-07T10:00:00Z", &hash('9')), DAY).unwrap();
    db.execute("UPDATE events SET tags = 'not json' WHERE event_id = 'id-1'", []).unwrap();
    assert!(get_event(&db, "id-1").unwrap().tags.is_empty());
}

#[test]
fn failed_insert_leaves_rows_unchanged() {
    let mut db = store();
    let h = hash('a');
    insert_event_on(&mut db, &event("id-1", "2024-03-07T10:00:00Z", &h), DAY).unwrap();
    db.execute("UPDATE blob_index SET ref_count = ?1", [i64::MAX]).unwrap();
    let r = insert_event_on(&mut db, &event("id-2", "2024-03-07T10:00:00Z", &h), DAY);
    assert!(matches!(r, Err(StoreError::CountOverflow)));
    assert_eq!(count(&db, "SELECT COUNT(*) FROM events"), 1);
    assert!(db.is_autocommit());
    insert_event_on(&mut db, &event("id-3", "2024-03-07T10:00:00Z", &hash('b')), DAY).unwrap();
}

#[test]
fn failed_purge_rolls_back() {
    let mut db = store();
    let h = hash('c');
    insert_event_on(&mut db, &event("id-1", "2024-03-07T10:00:00Z", &h), DAY).unwrap();
    insert_event_on(&mut db, &event("id-2", "2024-03-07T10:00:00Z", &h), DAY).unwrap();
    let rows = vec![ChunkRow { chunk_id: "c1".to_string(), event_id: "id-2".to_string(), start_offset: 0, end_offset: 1, content_type: "prose".to_string() }];
    insert_chunks(&mut db, &rows).unwrap();
    // The chunk of id-2 makes its deletion fail on the foreign key.
    let r = purge_events(&mut db, by_ids(&["id-1", "id-2"]));
    assert!(matches!(r, Err(StoreError::Sql(_))));
    assert_eq!(count(&db, "SELECT COUNT(*) FROM events"), 2);
    assert_eq!(get_blob_index(&db, &h).unwrap().unwrap().1, 2);
    assert!(db.is_autocommit());
}
