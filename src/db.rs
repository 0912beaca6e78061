//! The metadata store: event rows, the blob index with its reference counts,
//! and enrichment chunks, kept in SQLite through rusqlite (see `sql` for the
//! statements and the model of the rows).
use vstd::prelude::*;
use crate::blobs::{BlobDate, blob_path, blob_path_text};
use crate::envelope::{EventEnvelope, PrivacyFlag, privacy_label, privacy_from_text};
use crate::purge::PurgeCriteria;
use crate::sql::{
    BlobRecord, ChunkRecord, EventRecord, blob_index_in, chunk_added, chunks_in, events_in,
    hash_refs, lists_events, ordered_by_time, ref_total, same_rows, sql_all_events, sql_begin,
    autocommit_in, begun_with, rows_at_begin, statement_kept,
    sql_commit, sql_create_schema, sql_find_blob, sql_find_event, sql_insert_blob,
    sql_insert_chunk, sql_insert_event, sql_rollback, sql_set_ref_count, tags_from_json,
    tags_json, read_tags, write_tags,
};
use crate::text::{text_le, is_blank, is_blank_text};

verus! {

/// An event row as it is read from or written to table `events`.
#[derive(Clone, Debug)]
pub struct StoredEvent {
    pub event_id: String,
    pub timestamp: String,
    pub source: String,
    pub app: String,
    pub content_pointer: String,
    pub content_hash: String,
    pub size_bytes: i64,
    pub tags: String,
    pub privacy_flag: String,
}

impl View for StoredEvent {
    type V = EventRecord;

    open spec fn view(&self) -> EventRecord {
        EventRecord {
            event_id: self.event_id@,
            timestamp: self.timestamp@,
            source: self.source@,
            app: self.app@,
            content_pointer: self.content_pointer@,
            content_hash: self.content_hash@,
            size_bytes: self.size_bytes as int,
            tags: self.tags@,
            privacy_flag: self.privacy_flag@,
        }
    }
}

/// An enrichment chunk: a span of an event's content.
#[derive(Clone, Debug)]
pub struct ChunkRow {
    pub chunk_id: String,
    pub event_id: String,
    pub start_offset: i64,
    pub end_offset: i64,
    pub content_type: String,
}

impl View for ChunkRow {
    type V = ChunkRecord;

    open spec fn view(&self) -> ChunkRecord {
        ChunkRecord {
            event_id: self.event_id@,
            start_offset: self.start_offset as int,
            end_offset: self.end_offset as int,
            content_type: self.content_type@,
        }
    }
}

/// The blob index agrees with the events: every event's hash has an index row,
/// and every index row counts exactly the events that reference its hash.
pub open spec fn index_consistent(
    events: Map<Seq<char>, EventRecord>,
    blobs: Map<Seq<char>, BlobRecord>,
) -> bool {
    &&& events.dom().finite()
    &&& forall|id: Seq<char>|
        #[trigger] events.contains_key(id) ==> blobs.contains_key(events[id].content_hash)
    &&& forall|h: Seq<char>|
        #[trigger] blobs.contains_key(h) ==> blobs[h].ref_count == ref_total(events, h)
}

/// The rows that a connection sees keep the blob index consistent.
pub open spec fn store_consistent(db: rusqlite::Connection) -> bool {
    index_consistent(events_in(db), blob_index_in(db))
}

/// A failure of a store operation.
#[derive(Debug)]
pub enum StoreError {
    /// The database refused or failed a statement.
    Sql(rusqlite::Error),
    /// An event with this id is already stored.
    DuplicateEvent,
    /// No event has this id.
    NotFound,
    /// A reference count is at the largest value the store holds.
    CountOverflow,
}


/// Creates the store's tables and indexes where they are missing.
pub fn init_schema(db: &mut rusqlite::Connection) -> (r: Result<(), StoreError>)
    ensures
        same_rows(*final(db), *old(db)),
{
    match sql_create_schema(db) {
        Ok(()) => Ok(()),
        Err(e) => Err(StoreError::Sql(e)),
    }
}


/// Rolls back the open transaction (or finds it rolled back already) and
/// hands back the error that ended it: the rows are those seen at BEGIN.
pub(crate) fn abandon<T>(db: &mut rusqlite::Connection, e: StoreError) -> (r: Result<T, StoreError>)
    requires
        autocommit_in(*old(db)) ==> rows_at_begin(*old(db), *old(db)),
    ensures
        rows_at_begin(*final(db), *old(db)),
        r == Err::<T, StoreError>(e),
{
    let _ = sql_rollback(db);
    Err(e)
}

/// An empty store is consistent.
pub proof fn lemma_empty_store_consistent()
    ensures
        index_consistent(Map::<Seq<char>, EventRecord>::empty(), Map::<Seq<char>, BlobRecord>::empty()),
{
    assert(Map::<Seq<char>, EventRecord>::empty().dom() =~= Set::<Seq<char>>::empty());
}

/// The blob index once one more event references `h`: its count goes up by
/// one, or a row with count 1 and the path `fresh_path` is made.
pub open spec fn upserted_index(
    blobs: Map<Seq<char>, BlobRecord>,
    h: Seq<char>,
    fresh_path: Seq<char>,
) -> Map<Seq<char>, BlobRecord> {
    if blobs.contains_key(h) {
        blobs.insert(h, BlobRecord { blob_path: blobs[h].blob_path, ref_count: blobs[h].ref_count + 1 })
    } else {
        blobs.insert(h, BlobRecord { blob_path: fresh_path, ref_count: 1 })
    }
}

/// Adding an event under a new id, with its hash's index row upserted, keeps the
/// blob index consistent with the events.
pub proof fn lemma_insert_keeps_index_consistent(
    events: Map<Seq<char>, EventRecord>,
    blobs: Map<Seq<char>, BlobRecord>,
    rec: EventRecord,
    fresh_path: Seq<char>,
)
    requires
        index_consistent(events, blobs),
        !events.contains_key(rec.event_id),
    ensures
        index_consistent(
            events.insert(rec.event_id, rec),
            upserted_index(blobs, rec.content_hash, fresh_path),
        ),
{
    let e1 = events.insert(rec.event_id, rec);
    let b1 = upserted_index(blobs, rec.content_hash, fresh_path);
    let h = rec.content_hash;
    assert(e1.dom() =~= events.dom().insert(rec.event_id));
    assert(hash_refs(e1, h) =~= hash_refs(events, h).insert(rec.event_id));
    if !blobs.contains_key(h) {
        assert(hash_refs(events, h) =~= Set::<Seq<char>>::empty());
    }
    assert forall|g: Seq<char>| #[trigger] b1.contains_key(g) implies b1[g].ref_count == ref_total(
        e1,
        g,
    ) by {
        if g != h {
            assert(hash_refs(e1, g) =~= hash_refs(events, g));
        }
    }
}

/// The chunks once each of `rows` is inserted in turn, unless its id is there.
pub open spec fn chunks_added(chunks: Map<Seq<char>, ChunkRecord>, rows: Seq<ChunkRow>) -> Map<
    Seq<char>,
    ChunkRecord,
>
    decreases rows.len(),
{
    if rows.len() == 0 {
        chunks
    } else {
        chunk_added(chunks_added(chunks, rows.drop_last()), rows.last())
    }
}

/// The row stored for `env`, whose hash's blob lives at `blob_path`: a blank
/// content pointer is replaced by that path.
pub open spec fn record_of(env: EventEnvelope, blob_path: Seq<char>) -> EventRecord {
    EventRecord {
        event_id: env.event_id@,
        timestamp: env.timestamp@,
        source: env.source@,
        app: env.app@,
        content_pointer: if is_blank_text(env.content_pointer@) {
            blob_path
        } else {
            env.content_pointer@
        },
        content_hash: env.content_hash@,
        size_bytes: (env.size_bytes as i64) as int,
        tags: tags_json(env.tags.deep_view()),
        privacy_flag: privacy_label(env.privacy_flag),
    }
}

/// The blob path recorded for `h`: the indexed one, or the one of day `d`.
pub open spec fn indexed_path(blobs: Map<Seq<char>, BlobRecord>, h: Seq<char>, d: BlobDate) -> Seq<
    char,
> {
    if blobs.contains_key(h) {
        blobs[h].blob_path
    } else {
        blob_path_text(d, h)
    }
}

/// The effect of storing `env` on day `d` on a store seen as `before`, left as `after`.
pub open spec fn insert_outcome(
    before: rusqlite::Connection,
    after: rusqlite::Connection,
    env: EventEnvelope,
    d: BlobDate,
) -> bool {
    let e0 = events_in(before);
    let b0 = blob_index_in(before);
    let h = env.content_hash@;
    let path = indexed_path(b0, h, d);
    &&& !e0.contains_key(env.event_id@)
    &&& events_in(after) == e0.insert(env.event_id@, record_of(env, path))
    &&& blob_index_in(after) == upserted_index(b0, h, blob_path_text(d, h))
    &&& chunks_in(after) == chunks_in(before)
    &&& tags_from_json(tags_json(env.tags.deep_view())) == Some(env.tags.deep_view())
}

/// What storing `env` on day `d` guarantees, with `r` its result: an id already
/// stored is refused; a count already at its largest value is refused; any
/// failure leaves the rows as they were; on success the event is added and
/// its hash's index row counted up or made.
pub open spec fn insert_contract(
    before: rusqlite::Connection,
    after: rusqlite::Connection,
    env: EventEnvelope,
    d: BlobDate,
    r: Result<(), StoreError>,
) -> bool {
    let h = env.content_hash@;
    &&& events_in(before).contains_key(env.event_id@) ==> r is Err
    &&& r is Err ==> same_rows(after, before)
    &&& r matches Err(StoreError::DuplicateEvent) ==> events_in(before).contains_key(env.event_id@)
    &&& r matches Err(StoreError::CountOverflow) ==> blob_index_in(before).contains_key(h)
        && blob_index_in(before)[h].ref_count == i64::MAX as int
    &&& !(r matches Err(StoreError::NotFound))
    &&& r is Ok ==> insert_outcome(before, after, env, d)
}

/// Storing the same event a second time fails, and leaves the blob index (and
/// every other table) as the first store left it.
pub proof fn lemma_repeated_insert_refused(
    before: rusqlite::Connection,
    middle: rusqlite::Connection,
    after: rusqlite::Connection,
    env: EventEnvelope,
    d1: BlobDate,
    d2: BlobDate,
    second: Result<(), StoreError>,
)
    requires
        insert_outcome(before, middle, env, d1),
        insert_contract(middle, after, env, d2, second),
    ensures
        second is Err,
        blob_index_in(after) == blob_index_in(middle),
        events_in(after) == events_in(middle),
{
    assert(events_in(middle).contains_key(env.event_id@));
}

/// Counts one more reference to `hash`, or indexes it at its path for day `d`.
/// Returns the blob path recorded for the hash.
fn upsert_blob_index(db: &mut rusqlite::Connection, hash: &str, d: BlobDate) -> (r: Result<
    String,
    StoreError,
>)
    requires
        !autocommit_in(*old(db)),
    ensures
        statement_kept(*old(db), *final(db), r is Ok),
        r is Err ==> (r matches Err(StoreError::Sql(_))) || ((r matches Err(
            StoreError::CountOverflow,
        )) && blob_index_in(*old(db)).contains_key(hash@) && blob_index_in(*old(db))[hash@].ref_count
            == i64::MAX as int),
        r matches Ok(path) ==> {
            &&& path@ == indexed_path(blob_index_in(*old(db)), hash@, d)
            &&& blob_index_in(*final(db)) == upserted_index(
                blob_index_in(*old(db)),
                hash@,
                blob_path_text(d, hash@),
            )
            &&& events_in(*final(db)) == events_in(*old(db))
            &&& chunks_in(*final(db)) == chunks_in(*old(db))
        },
{
    let existing = match sql_find_blob(db, hash) {
        Ok(found) => found,
        Err(e) => return Err(StoreError::Sql(e)),
    };
    match existing {
        Some((path, count)) => {
            if count == i64::MAX {
                return Err(StoreError::CountOverflow);
            }
            match sql_set_ref_count(db, hash, count + 1) {
                Ok(_) => {},
                Err(e) => return Err(StoreError::Sql(e)),
            }
            Ok(path)
        },
        None => {
            let path = blob_path(d, hash);
            match sql_insert_blob(db, hash, path.as_str()) {
                Ok(_) => {},
                Err(e) => return Err(StoreError::Sql(e)),
            }
            Ok(path)
        },
    }
}

/// Stores `env` as first indexed on day `d`: its hash's index row is counted up
/// (or made), then the event row is inserted, in one transaction. A blank
/// content pointer is stored as the blob path. An id that is already stored
/// fails with `DuplicateEvent` and changes nothing.
pub fn insert_event_on(db: &mut rusqlite::Connection, env: &EventEnvelope, d: BlobDate) -> (r: Result<
    (),
    StoreError,
>)
    ensures
        insert_contract(*old(db), *final(db), *env, d, r),
        r is Ok && store_consistent(*old(db)) ==> store_consistent(*final(db)),
{
    match sql_find_event(db, env.event_id.as_str()) {
        Ok(Some(_)) => return Err(StoreError::DuplicateEvent),
        Ok(None) => {},
        Err(e) => return Err(StoreError::Sql(e)),
    }
    let tags = write_tags(&env.tags);
    match sql_begin(db) {
        Ok(()) => {},
        Err(e) => return Err(StoreError::Sql(e)),
    }
    let ghost e0 = events_in(*db);
    let ghost b0 = blob_index_in(*db);
    let path = match upsert_blob_index(db, env.content_hash.as_str(), d) {
        Ok(p) => p,
        Err(e) => return abandon(db, e),
    };
    let pointer = if is_blank(env.content_pointer.as_str()) {
        path
    } else {
        env.content_pointer.clone()
    };
    let row = StoredEvent {
        event_id: env.event_id.clone(),
        timestamp: env.timestamp.clone(),
        source: env.source.clone(),
        app: env.app.clone(),
        content_pointer: pointer,
        content_hash: env.content_hash.clone(),
        size_bytes: #[verifier::truncate] (env.size_bytes as i64),
        tags,
        privacy_flag: String::from_str(env.privacy_flag.label()),
    };
    assert(row@ == record_of(*env, indexed_path(b0, env.content_hash@, d)));
    match sql_insert_event(db, &row) {
        Ok(_) => {},
        Err(e) => return abandon(db, StoreError::Sql(e)),
    }
    match sql_commit(db) {
        Ok(()) => {},
        Err(e) => return abandon(db, StoreError::Sql(e)),
    }
    proof {
        if index_consistent(e0, b0) {
            lemma_insert_keeps_index_consistent(
                e0,
                b0,
                row@,
                blob_path_text(d, env.content_hash@),
            );
        }
    }
    Ok(())
}

/// Stores `env`, indexing a hash seen for the first time under today's date
/// (UTC); see `insert_event_on`.
pub fn insert_event(db: &mut rusqlite::Connection, env: &EventEnvelope) -> (r: Result<
    (),
    StoreError,
>)
    ensures
        exists|d: BlobDate| insert_contract(*old(db), *final(db), *env, d, r),
        r is Ok && store_consistent(*old(db)) ==> store_consistent(*final(db)),
{
    let d = BlobDate::today();
    insert_event_on(db, env, d)
}


/// What reading the stored row `rec` gives back: the tags parsed from their JSON
/// text (none where it does not parse) and the privacy flag from its text.
pub open spec fn reads_as(e: EventEnvelope, rec: EventRecord) -> bool {
    &&& e.event_id@ == rec.event_id
    &&& e.timestamp@ == rec.timestamp
    &&& e.source@ == rec.source
    &&& e.app@ == rec.app
    &&& e.content_pointer@ == rec.content_pointer
    &&& e.content_hash@ == rec.content_hash
    &&& e.size_bytes == rec.size_bytes as u64
    &&& e.tags.deep_view() == match tags_from_json(rec.tags) {
        Some(t) => t,
        None => Seq::<Seq<char>>::empty(),
    }
    &&& e.privacy_flag == privacy_from_text(rec.privacy_flag)
}

/// The envelope that a stored row reads as.
fn envelope_from_row(row: &StoredEvent) -> (e: EventEnvelope)
    ensures
        reads_as(e, row@),
{
    let tags = match read_tags(row.tags.as_str()) {
        Some(t) => t,
        None => {
            let v: Vec<String> = Vec::new();
            assert(v.deep_view() =~= Seq::<Seq<char>>::empty());
            v
        },
    };
    EventEnvelope {
        event_id: row.event_id.clone(),
        timestamp: row.timestamp.clone(),
        source: row.source.clone(),
        app: row.app.clone(),
        content_pointer: row.content_pointer.clone(),
        content_hash: row.content_hash.clone(),
        size_bytes: #[verifier::truncate] (row.size_bytes as u64),
        tags,
        privacy_flag: PrivacyFlag::from_text(row.privacy_flag.as_str()),
    }
}

/// The stored event of `id`; `NotFound` where there is none.
pub fn get_event(db: &rusqlite::Connection, id: &str) -> (r: Result<EventEnvelope, StoreError>)
    ensures
        r matches Ok(e) ==> events_in(*db).contains_key(id@) && reads_as(e, events_in(*db)[id@]),
        !events_in(*db).contains_key(id@) ==> r is Err,
        r matches Err(StoreError::NotFound) ==> !events_in(*db).contains_key(id@),
        r is Err ==> (r matches Err(StoreError::Sql(_))) || (r matches Err(StoreError::NotFound)),
        !(r matches Err(StoreError::DuplicateEvent)),
{
    match sql_find_event(db, id) {
        Ok(Some(row)) => Ok(envelope_from_row(&row)),
        Ok(None) => Err(StoreError::NotFound),
        Err(e) => Err(StoreError::Sql(e)),
    }
}

/// The blob path and reference count indexed for `hash`, if any.
pub fn get_blob_index(db: &rusqlite::Connection, hash: &str) -> (r: Result<
    Option<(String, i64)>,
    StoreError,
>)
    ensures
        r matches Ok(found) ==> (match found {
            Some(row) => blob_index_in(*db).contains_key(hash@) && blob_index_in(*db)[hash@]
                == (BlobRecord { blob_path: row.0@, ref_count: row.1 as int }),
            None => !blob_index_in(*db).contains_key(hash@),
        }),
        r is Err ==> r matches Err(StoreError::Sql(_)),
{
    match sql_find_blob(db, hash) {
        Ok(found) => Ok(found),
        Err(e) => Err(StoreError::Sql(e)),
    }
}

/// `v` holds, once each and in ascending order of timestamp, the events of
/// `events` that `p` holds of, each as it reads back.
pub open spec fn lists_matching(
    v: Seq<EventEnvelope>,
    events: Map<Seq<char>, EventRecord>,
    p: spec_fn(EventRecord) -> bool,
) -> bool {
    &&& forall|i: int|
        0 <= i < v.len() ==> #[trigger] events.contains_key(v[i].event_id@) && p(
            events[v[i].event_id@],
        ) && reads_as(v[i], events[v[i].event_id@])
    &&& forall|id: Seq<char>|
        #[trigger] events.contains_key(id) && p(events[id]) ==> exists|i: int|
            0 <= i < v.len() && #[trigger] v[i].event_id@ == id
    &&& forall|i: int, j: int|
        0 <= i < j < v.len() ==> #[trigger] v[i].event_id@ != #[trigger] v[j].event_id@
    &&& forall|i: int, j: int|
        0 <= i < j < v.len() ==> text_le(#[trigger] v[i].timestamp@, #[trigger] v[j].timestamp@)
}

/// The stored events that `c` selects, in ascending order of timestamp.
pub fn events_matching(db: &rusqlite::Connection, c: &PurgeCriteria) -> (r: Result<
    Vec<EventEnvelope>,
    StoreError,
>)
    ensures
        r matches Ok(v) ==> lists_matching(v@, events_in(*db), |rec: EventRecord| c.selects(rec)),
        r is Err ==> r matches Err(StoreError::Sql(_)),
{
    let rows = match sql_all_events(db) {
        Ok(rows) => rows,
        Err(e) => return Err(StoreError::Sql(e)),
    };
    let ghost events = events_in(*db);
    let mut out: Vec<EventEnvelope> = Vec::new();
    let ghost mut picked: Seq<int> = Seq::empty();
    let mut i: usize = 0;
    while i < rows.len()
        invariant
            i <= rows@.len(),
            events == events_in(*db),
            lists_events(rows@, events),
            ordered_by_time(rows@),
            picked.len() == out@.len(),
            forall|m: int| 0 <= m < picked.len() ==> 0 <= #[trigger] picked[m] < i,
            forall|m: int, n: int| 0 <= m < n < picked.len() ==> #[trigger] picked[m] < #[trigger] picked[n],
            forall|m: int|
                0 <= m < out@.len() ==> reads_as(#[trigger] out@[m], rows@[picked[m]]@)
                    && c.selects(rows@[picked[m]]@),
            forall|k: int|
                0 <= k < i && c.selects(#[trigger] rows@[k]@) ==> exists|m: int|
                    0 <= m < picked.len() && picked[m] == k,
        decreases rows@.len() - i,
    {
        let row = &rows[i];
        let ghost picked_before = picked;
        if c.selects_row(row) {
            out.push(envelope_from_row(row));
            proof {
                picked = picked.push(i as int);
            }
        }
        proof {
            assert forall|k: int|
                0 <= k < i + 1 && c.selects(#[trigger] rows@[k]@) implies exists|m: int|
                    0 <= m < picked.len() && picked[m] == k by {
                if k == i {
                    assert(picked[picked.len() - 1] == k);
                } else {
                    let m = choose|m: int| 0 <= m < picked_before.len() && picked_before[m] == k;
                    assert(picked[m] == k);
                }
            }
        }
        i = i + 1;
    }
    proof {
        let p = |rec: EventRecord| c.selects(rec);
        assert forall|m: int| 0 <= m < out@.len() implies #[trigger] events.contains_key(
            out@[m].event_id@,
        ) && p(events[out@[m].event_id@]) && reads_as(out@[m], events[out@[m].event_id@]) by {
            let k = picked[m];
            assert(events.contains_key(rows@[k].event_id@));
        }
        assert forall|id: Seq<char>| #[trigger] events.contains_key(id) && p(events[id]) implies exists|
            m: int,
        | 0 <= m < out@.len() && #[trigger] out@[m].event_id@ == id by {
            let k = choose|k: int| 0 <= k < rows@.len() && #[trigger] rows@[k].event_id@ == id;
            assert(c.selects(rows@[k]@));
            let m = choose|m: int| 0 <= m < picked.len() && picked[m] == k;
            assert(out@[m].event_id@ == id);
        }
        assert forall|m: int, n: int| 0 <= m < n < out@.len() implies #[trigger] out@[m].event_id@
            != #[trigger] out@[n].event_id@ by {
            assert(picked[m] < picked[n]);
            assert(rows@[picked[m]].event_id@ != rows@[picked[n]].event_id@);
        }
        assert forall|m: int, n: int| 0 <= m < n < out@.len() implies text_le(
            #[trigger] out@[m].timestamp@,
            #[trigger] out@[n].timestamp@,
        ) by {
            assert(picked[m] < picked[n]);
            assert(text_le(rows@[picked[m]].timestamp@, rows@[picked[n]].timestamp@));
        }
    }
    Ok(out)
}

/// The stored events whose timestamp lies between `start` and `end`
/// (inclusive, by bytes), in ascending order of timestamp.
pub fn query_events_by_timerange(db: &rusqlite::Connection, start: &str, end: &str) -> (r: Result<
    Vec<EventEnvelope>,
    StoreError,
>)
    ensures
        r matches Ok(v) ==> lists_matching(
            v@,
            events_in(*db),
            |rec: EventRecord| text_le(start@, rec.timestamp) && text_le(rec.timestamp, end@),
        ),
        r is Err ==> r matches Err(StoreError::Sql(_)),
{
    let c = PurgeCriteria {
        event_ids: None,
        start: Some(start.to_owned()),
        end: Some(end.to_owned()),
        app: None,
        source: None,
        privacy_flag: None,
    };
    let r = events_matching(db, &c);
    proof {
        let p = |rec: EventRecord| c.selects(rec);
        let q = |rec: EventRecord| text_le(start@, rec.timestamp) && text_le(rec.timestamp, end@);
        assert forall|rec: EventRecord| #[trigger] p(rec) == q(rec) by {}
        assert(p =~= q);
    }
    r
}

/// Whether an optional filter value admits `field`.
pub open spec fn admits(filter: Option<&str>, field: Seq<char>) -> bool {
    match filter {
        Some(f) => field == f@,
        None => true,
    }
}

/// The stored events of `app` and `source`, each filter applied where present,
/// in ascending order of timestamp.
pub fn query_events_by_app_source(
    db: &rusqlite::Connection,
    app: Option<&str>,
    source: Option<&str>,
) -> (r: Result<Vec<EventEnvelope>, StoreError>)
    ensures
        r matches Ok(v) ==> lists_matching(
            v@,
            events_in(*db),
            |rec: EventRecord| admits(app, rec.app) && admits(source, rec.source),
        ),
        r is Err ==> r matches Err(StoreError::Sql(_)),
{
    let c = PurgeCriteria {
        event_ids: None,
        start: None,
        end: None,
        app: match app {
            Some(a) => Some(a.to_owned()),
            None => None,
        },
        source: match source {
            Some(s) => Some(s.to_owned()),
            None => None,
        },
        privacy_flag: None,
    };
    let r = events_matching(db, &c);
    proof {
        let p = |rec: EventRecord| c.selects(rec);
        let q = |rec: EventRecord| admits(app, rec.app) && admits(source, rec.source);
        assert forall|rec: EventRecord| #[trigger] p(rec) == q(rec) by {}
        assert(p =~= q);
    }
    r
}

/// Inserts each chunk whose id is not stored yet, in one transaction; a stored
/// id is left as it is. Returns how many chunks were handed in. A failure
/// leaves the rows as they were.
pub fn insert_chunks(db: &mut rusqlite::Connection, chunks: &[ChunkRow]) -> (r: Result<
    u64,
    StoreError,
>)
    ensures
        r matches Ok(n) ==> {
            &&& n == chunks@.len()
            &&& chunks_in(*final(db)) == chunks_added(chunks_in(*old(db)), chunks@)
            &&& events_in(*final(db)) == events_in(*old(db))
            &&& blob_index_in(*final(db)) == blob_index_in(*old(db))
        },
        r is Err ==> (r matches Err(StoreError::Sql(_))) && same_rows(*final(db), *old(db)),
{
    match sql_begin(db) {
        Ok(()) => {},
        Err(e) => return Err(StoreError::Sql(e)),
    }
    let ghost c0 = chunks_in(*db);
    let ghost e0 = events_in(*db);
    let ghost b0 = blob_index_in(*db);
    let mut inserted: u64 = 0;
    let mut i: usize = 0;
    assert(chunks@.take(0) =~= Seq::<ChunkRow>::empty());
    while i < chunks.len()
        invariant
            i <= chunks@.len(),
            inserted == i,
            chunks_in(*db) == chunks_added(c0, chunks@.take(i as int)),
            events_in(*db) == e0,
            blob_index_in(*db) == b0,
            !autocommit_in(*db),
            begun_with(*db, e0, b0, c0),
            events_in(*old(db)) == e0,
            blob_index_in(*old(db)) == b0,
            chunks_in(*old(db)) == c0,
        decreases chunks@.len() - i,
    {
        match sql_insert_chunk(db, &chunks[i]) {
            Ok(_) => {},
            Err(e) => return abandon(db, StoreError::Sql(e)),
        }
        assert(chunks@.take(i + 1).drop_last() =~= chunks@.take(i as int));
        inserted = inserted + 1;
        i = i + 1;
    }
    match sql_commit(db) {
        Ok(()) => {},
        Err(e) => return abandon(db, StoreError::Sql(e)),
    }
    assert(chunks@.take(i as int) =~= chunks@);
    Ok(inserted)
}

/// An event stored with a content pointer that is not blank reads back as it
/// was submitted, field by field.
pub proof fn lemma_stored_event_reads_back(
    before: rusqlite::Connection,
    after: rusqlite::Connection,
    env: EventEnvelope,
    d: BlobDate,
    e: EventEnvelope,
)
    requires
        insert_outcome(before, after, env, d),
        !is_blank_text(env.content_pointer@),
        reads_as(e, events_in(after)[env.event_id@]),
    ensures
        e.event_id@ == env.event_id@,
        e.timestamp@ == env.timestamp@,
        e.source@ == env.source@,
        e.app@ == env.app@,
        e.content_pointer@ == env.content_pointer@,
        e.content_hash@ == env.content_hash@,
        e.size_bytes == env.size_bytes,
        e.tags.deep_view() == env.tags.deep_view(),
        e.privacy_flag == env.privacy_flag,
{
    let x = env.size_bytes;
    assert(((x as i64) as u64) == x) by (bit_vector);
    assert(privacy_from_text(privacy_label(env.privacy_flag)) == env.privacy_flag) by {
        reveal_strlit("default");
        reveal_strlit("sensitive");
        reveal_strlit("never_store");
        assert("default"@.len() == 7);
        assert("sensitive"@.len() == 9);
        assert("never_store"@.len() == 11);
        assert("default"@ != "sensitive"@);
        assert("default"@ != "never_store"@);
        assert("never_store"@ != "sensitive"@);
    }
}

} // verus!
