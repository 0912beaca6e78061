//! The SQL statements of the metadata store, each behind a wrapper whose
//! contract says what it does to the rows, the model of those rows, and the
//! JSON text of the tags column.
//!
//! The rows that a connection sees are modelled by three maps, one per table.
//! The store is written through a single connection, so no other writer
//! changes them between two calls.
use vstd::prelude::*;
use crate::db::{ChunkRow, StoredEvent};
use crate::text::text_le;

verus! {

#[verifier::external_type_specification]
#[verifier::external_body]
pub struct ExConnection(rusqlite::Connection);

#[verifier::external_type_specification]
#[verifier::external_body]
pub struct ExSqlError(rusqlite::Error);

/// An event row as plain values.
pub struct EventRecord {
    pub event_id: Seq<char>,
    pub timestamp: Seq<char>,
    pub source: Seq<char>,
    pub app: Seq<char>,
    pub content_pointer: Seq<char>,
    pub content_hash: Seq<char>,
    pub size_bytes: int,
    pub tags: Seq<char>,
    pub privacy_flag: Seq<char>,
}

/// A blob index row as plain values.
pub struct BlobRecord {
    pub blob_path: Seq<char>,
    pub ref_count: int,
}

/// A chunk row as plain values.
pub struct ChunkRecord {
    pub event_id: Seq<char>,
    pub start_offset: int,
    pub end_offset: int,
    pub content_type: Seq<char>,
}

/// The rows of table `events` that the connection sees, by `event_id`.
pub uninterp spec fn events_in(db: rusqlite::Connection) -> Map<Seq<char>, EventRecord>;

/// The rows of table `blob_index` that the connection sees, by `blob_hash`.
pub uninterp spec fn blob_index_in(db: rusqlite::Connection) -> Map<Seq<char>, BlobRecord>;

/// The rows of table `chunks` that the connection sees, by `chunk_id`.
pub uninterp spec fn chunks_in(db: rusqlite::Connection) -> Map<Seq<char>, ChunkRecord>;

/// The rows of table `events` as they were when the connection last began a
/// transaction.
pub uninterp spec fn events_at_begin(db: rusqlite::Connection) -> Map<Seq<char>, EventRecord>;

/// The rows of table `blob_index` as they were when the connection last began
/// a transaction.
pub uninterp spec fn blob_index_at_begin(db: rusqlite::Connection) -> Map<Seq<char>, BlobRecord>;

/// The rows of table `chunks` as they were when the connection last began a
/// transaction.
pub uninterp spec fn chunks_at_begin(db: rusqlite::Connection) -> Map<Seq<char>, ChunkRecord>;

/// Whether no transaction is open on the connection, as
/// `rusqlite::Connection::is_autocommit` reports.
pub uninterp spec fn autocommit_in(db: rusqlite::Connection) -> bool;

/// The rows that `now` sees are those that `then` saw when its transaction began.
pub open spec fn rows_at_begin(now: rusqlite::Connection, then: rusqlite::Connection) -> bool {
    &&& events_in(now) == events_at_begin(then)
    &&& blob_index_in(now) == blob_index_at_begin(then)
    &&& chunks_in(now) == chunks_at_begin(then)
}

/// The rows recorded at the last BEGIN are `events`, `blobs` and `chunks`.
pub open spec fn begun_with(
    db: rusqlite::Connection,
    events: Map<Seq<char>, EventRecord>,
    blobs: Map<Seq<char>, BlobRecord>,
    chunks: Map<Seq<char>, ChunkRecord>,
) -> bool {
    &&& events_at_begin(db) == events
    &&& blob_index_at_begin(db) == blobs
    &&& chunks_at_begin(db) == chunks
}

/// What a data statement leaves of the transaction state: the rows recorded at
/// BEGIN stay; a statement that succeeds neither opens nor closes a
/// transaction; one that closes the open transaction rolled it back.
pub open spec fn statement_kept(before: rusqlite::Connection, after: rusqlite::Connection, ok: bool) -> bool {
    &&& begun_with(after, events_at_begin(before), blob_index_at_begin(before), chunks_at_begin(before))
    &&& ok ==> autocommit_in(after) == autocommit_in(before)
    &&& (!autocommit_in(before) && autocommit_in(after)) ==> rows_at_begin(after, before)
}

/// Two connections see the same rows in every table.
pub open spec fn same_rows(a: rusqlite::Connection, b: rusqlite::Connection) -> bool {
    &&& events_in(a) == events_in(b)
    &&& blob_index_in(a) == blob_index_in(b)
    &&& chunks_in(a) == chunks_in(b)
}

/// `rows` lists every event of `events` once, each as stored.
pub open spec fn lists_events(rows: Seq<StoredEvent>, events: Map<Seq<char>, EventRecord>) -> bool {
    &&& forall|i: int|
        0 <= i < rows.len() ==> #[trigger] events.contains_key(rows[i].event_id@)
            && events[rows[i].event_id@] == rows[i]@
    &&& forall|id: Seq<char>|
        #[trigger] events.contains_key(id) ==> exists|i: int|
            0 <= i < rows.len() && #[trigger] rows[i].event_id@ == id
    &&& forall|i: int, j: int|
        0 <= i < j < rows.len() ==> #[trigger] rows[i].event_id@ != #[trigger] rows[j].event_id@
}

/// `rows` are in ascending order of timestamp.
pub open spec fn ordered_by_time(rows: Seq<StoredEvent>) -> bool {
    forall|i: int, j: int|
        0 <= i < j < rows.len() ==> text_le(#[trigger] rows[i].timestamp@, #[trigger] rows[j].timestamp@)
}

/// The SQL that creates the store's tables and indexes.
pub const SCHEMA: &'static str = "
PRAGMA foreign_keys = ON;

CREATE TABLE IF NOT EXISTS events (
  event_id TEXT PRIMARY KEY,
  timestamp TEXT,
  source TEXT,
  app TEXT,
  content_pointer TEXT,
  content_hash TEXT,
  size_bytes INTEGER,
  tags TEXT,
  privacy_flag TEXT,
  created_at TEXT DEFAULT CURRENT_TIMESTAMP,
  FOREIGN KEY(content_hash) REFERENCES blob_index(blob_hash)
);

CREATE TABLE IF NOT EXISTS blob_index (
  blob_hash TEXT PRIMARY KEY,
  blob_path TEXT,
  ref_count INTEGER,
  created_at TEXT DEFAULT CURRENT_TIMESTAMP
);

CREATE TABLE IF NOT EXISTS chunks (
  chunk_id TEXT PRIMARY KEY,
  event_id TEXT,
  start_offset INTEGER,
  end_offset INTEGER,
  content_type TEXT,
  created_at TEXT DEFAULT CURRENT_TIMESTAMP,
  FOREIGN KEY(event_id) REFERENCES events(event_id)
);

CREATE INDEX IF NOT EXISTS idx_events_timestamp ON events(timestamp);
CREATE INDEX IF NOT EXISTS idx_events_app ON events(app);
CREATE INDEX IF NOT EXISTS idx_events_content_hash ON events(content_hash);
CREATE INDEX IF NOT EXISTS idx_chunks_event_id ON chunks(event_id);
";

/// Relies on rusqlite::Connection::execute_batch running the schema: tables and
/// indexes are created only where missing, so no row changes.
#[verifier::external_body]
pub(crate) fn sql_create_schema(db: &mut rusqlite::Connection) -> (r: Result<(), rusqlite::Error>)
    ensures
        same_rows(*final(db), *old(db)),
{
    db.execute_batch(SCHEMA)
}

/// Relies on rusqlite::Connection::execute_batch opening a write transaction;
/// the rows seen do not change, and are those recorded at BEGIN.
#[verifier::external_body]
pub(crate) fn sql_begin(db: &mut rusqlite::Connection) -> (r: Result<(), rusqlite::Error>)
    ensures
        same_rows(*final(db), *old(db)),
        r is Ok ==> !autocommit_in(*final(db)),
        r is Ok ==> events_at_begin(*final(db)) == events_in(*old(db)),
        r is Ok ==> blob_index_at_begin(*final(db)) == blob_index_in(*old(db)),
        r is Ok ==> chunks_at_begin(*final(db)) == chunks_in(*old(db)),
{
    db.execute_batch("BEGIN IMMEDIATE")
}

/// Relies on rusqlite::Connection::execute_batch committing the open
/// transaction; the rows seen do not change. A COMMIT that fails commits
/// nothing: the transaction stays open or was rolled back.
#[verifier::external_body]
pub(crate) fn sql_commit(db: &mut rusqlite::Connection) -> (r: Result<(), rusqlite::Error>)
    ensures
        r is Ok ==> same_rows(*final(db), *old(db)),
        r is Err ==> statement_kept(*old(db), *final(db), false),
{
    db.execute_batch("COMMIT")
}

/// Relies on rusqlite::Connection::execute_batch rolling back the open
/// transaction: the rows seen are again those recorded at BEGIN. With no
/// transaction open, ROLLBACK fails and changes nothing.
#[verifier::external_body]
pub(crate) fn sql_rollback(db: &mut rusqlite::Connection) -> (r: Result<(), rusqlite::Error>)
    ensures
        !autocommit_in(*old(db)) ==> rows_at_begin(*final(db), *old(db)),
        autocommit_in(*old(db)) ==> same_rows(*final(db), *old(db)),
{
    db.execute_batch("ROLLBACK")
}

/// Relies on rusqlite::Connection::query_row with OptionalExtension::optional:
/// the blob index row of `hash`, if there is one.
#[verifier::external_body]
pub(crate) fn sql_find_blob(db: &rusqlite::Connection, hash: &str) -> (r: Result<
    Option<(String, i64)>,
    rusqlite::Error,
>)
    ensures
        r matches Ok(found) ==> (match found {
            Some(row) => blob_index_in(*db).contains_key(hash@) && blob_index_in(*db)[hash@]
                == (BlobRecord { blob_path: row.0@, ref_count: row.1 as int }),
            None => !blob_index_in(*db).contains_key(hash@),
        }),
{
    rusqlite::OptionalExtension::optional(db.query_row(
        "SELECT blob_path, ref_count FROM blob_index WHERE blob_hash = ?1",
        (hash,),
        |row| Ok((row.get(0)?, row.get(1)?)),
    ))
}

/// Relies on rusqlite::Connection::execute inserting a blob index row with a
/// reference count of 1; the primary key refuses a hash that is already there.
#[verifier::external_body]
pub(crate) fn sql_insert_blob(db: &mut rusqlite::Connection, hash: &str, path: &str) -> (r: Result<
    usize,
    rusqlite::Error,
>)
    ensures
        statement_kept(*old(db), *final(db), r is Ok),
        r is Ok ==> {
            &&& !blob_index_in(*old(db)).contains_key(hash@)
            &&& blob_index_in(*final(db)) == blob_index_in(*old(db)).insert(
                hash@,
                BlobRecord { blob_path: path@, ref_count: 1 },
            )
            &&& events_in(*final(db)) == events_in(*old(db))
            &&& chunks_in(*final(db)) == chunks_in(*old(db))
        },
{
    db.execute(
        "INSERT INTO blob_index (blob_hash, blob_path, ref_count) VALUES (?1, ?2, 1)",
        (hash, path),
    )
}

/// Relies on rusqlite::Connection::execute setting the reference count of the
/// blob index row of `hash`, where there is one.
#[verifier::external_body]
pub(crate) fn sql_set_ref_count(db: &mut rusqlite::Connection, hash: &str, count: i64) -> (r: Result<
    usize,
    rusqlite::Error,
>)
    ensures
        statement_kept(*old(db), *final(db), r is Ok),
        r is Ok ==> {
            &&& blob_index_in(*final(db)) == if blob_index_in(*old(db)).contains_key(hash@) {
                blob_index_in(*old(db)).insert(
                    hash@,
                    BlobRecord {
                        blob_path: blob_index_in(*old(db))[hash@].blob_path,
                        ref_count: count as int,
                    },
                )
            } else {
                blob_index_in(*old(db))
            }
            &&& events_in(*final(db)) == events_in(*old(db))
            &&& chunks_in(*final(db)) == chunks_in(*old(db))
        },
{
    db.execute("UPDATE blob_index SET ref_count = ?2 WHERE blob_hash = ?1", (hash, count))
}

/// Relies on rusqlite::Connection::execute deleting the blob index row of `hash`.
#[verifier::external_body]
pub(crate) fn sql_delete_blob(db: &mut rusqlite::Connection, hash: &str) -> (r: Result<
    usize,
    rusqlite::Error,
>)
    ensures
        statement_kept(*old(db), *final(db), r is Ok),
        r is Ok ==> {
            &&& blob_index_in(*final(db)) == blob_index_in(*old(db)).remove(hash@)
            &&& events_in(*final(db)) == events_in(*old(db))
            &&& chunks_in(*final(db)) == chunks_in(*old(db))
        },
{
    db.execute("DELETE FROM blob_index WHERE blob_hash = ?1", (hash,))
}

/// Relies on rusqlite::Connection::execute deleting the event row of `id`.
#[verifier::external_body]
pub(crate) fn sql_delete_event(db: &mut rusqlite::Connection, id: &str) -> (r: Result<
    usize,
    rusqlite::Error,
>)
    ensures
        statement_kept(*old(db), *final(db), r is Ok),
        r is Ok ==> {
            &&& events_in(*final(db)) == events_in(*old(db)).remove(id@)
            &&& blob_index_in(*final(db)) == blob_index_in(*old(db))
            &&& chunks_in(*final(db)) == chunks_in(*old(db))
        },
{
    db.execute("DELETE FROM events WHERE event_id = ?1", (id,))
}

/// Relies on rusqlite::Connection::query_row counting the event rows that
/// reference `hash`.
#[verifier::external_body]
pub(crate) fn sql_count_refs(db: &rusqlite::Connection, hash: &str) -> (r: Result<i64, rusqlite::Error>)
    ensures
        r matches Ok(n) ==> n as int == ref_total(events_in(*db), hash@),
{
    db.query_row(
        "SELECT COUNT(*) FROM events WHERE content_hash = ?1",
        (hash,),
        |row| row.get::<_, i64>(0),
    )
}

/// Relies on rusqlite::Statement::query_map over every event row, in ascending
/// order of timestamp (text columns compare by their bytes).
#[verifier::external_body]
pub(crate) fn sql_all_events(db: &rusqlite::Connection) -> (r: Result<Vec<StoredEvent>, rusqlite::Error>)
    ensures
        r matches Ok(rows) ==> lists_events(rows@, events_in(*db)) && ordered_by_time(rows@),
{
    let mut stmt = db.prepare(
        "SELECT event_id, timestamp, source, app, content_pointer, content_hash, size_bytes, tags, privacy_flag FROM events ORDER BY timestamp",
    )?;
    let rows = stmt.query_map((), |row| Ok(StoredEvent {
        event_id: row.get(0)?, timestamp: row.get(1)?, source: row.get(2)?, app: row.get(3)?,
        content_pointer: row.get(4)?, content_hash: row.get(5)?, size_bytes: row.get(6)?,
        tags: row.get(7)?, privacy_flag: row.get(8)?,
    }))?;
    rows.collect()
}

/// The ids of the events that reference `h`.
pub open spec fn hash_refs(events: Map<Seq<char>, EventRecord>, h: Seq<char>) -> Set<Seq<char>> {
    events.dom().filter(|id: Seq<char>| events[id].content_hash == h)
}

/// How many events reference `h`.
pub open spec fn ref_total(events: Map<Seq<char>, EventRecord>, h: Seq<char>) -> nat {
    hash_refs(events, h).len()
}

/// Relies on rusqlite::Connection::query_row with OptionalExtension::optional:
/// the event row of `id`, if there is one.
#[verifier::external_body]
pub(crate) fn sql_find_event(db: &rusqlite::Connection, id: &str) -> (r: Result<
    Option<StoredEvent>,
    rusqlite::Error,
>)
    ensures
        r matches Ok(found) ==> (match found {
            Some(row) => events_in(*db).contains_key(id@) && events_in(*db)[id@] == row@
                && row.event_id@ == id@,
            None => !events_in(*db).contains_key(id@),
        }),
{
    rusqlite::OptionalExtension::optional(db.query_row(
        "SELECT event_id, timestamp, source, app, content_pointer, content_hash, size_bytes, tags, privacy_flag FROM events WHERE event_id = ?1",
        (id,),
        |row| Ok(StoredEvent {
            event_id: row.get(0)?, timestamp: row.get(1)?, source: row.get(2)?, app: row.get(3)?,
            content_pointer: row.get(4)?, content_hash: row.get(5)?, size_bytes: row.get(6)?,
            tags: row.get(7)?, privacy_flag: row.get(8)?,
        }),
    ))
}

/// Relies on rusqlite::Connection::execute inserting an event row; the primary
/// key refuses an id that is already there.
#[verifier::external_body]
pub(crate) fn sql_insert_event(db: &mut rusqlite::Connection, row: &StoredEvent) -> (r: Result<
    usize,
    rusqlite::Error,
>)
    ensures
        statement_kept(*old(db), *final(db), r is Ok),
        r is Ok ==> {
            &&& !events_in(*old(db)).contains_key(row.event_id@)
            &&& events_in(*final(db)) == events_in(*old(db)).insert(row.event_id@, row@)
            &&& blob_index_in(*final(db)) == blob_index_in(*old(db))
            &&& chunks_in(*final(db)) == chunks_in(*old(db))
        },
{
    db.execute(
        "INSERT INTO events (event_id, timestamp, source, app, content_pointer, content_hash, size_bytes, tags, privacy_flag) VALUES (?1, ?2, ?3, ?4, ?5, ?6, ?7, ?8, ?9)",
        (&row.event_id, &row.timestamp, &row.source, &row.app, &row.content_pointer,
         &row.content_hash, row.size_bytes, &row.tags, &row.privacy_flag),
    )
}

/// Relies on rusqlite::Connection::execute with INSERT OR IGNORE: a chunk whose
/// id is already stored is left as it is.
#[verifier::external_body]
pub(crate) fn sql_insert_chunk(db: &mut rusqlite::Connection, chunk: &ChunkRow) -> (r: Result<
    usize,
    rusqlite::Error,
>)
    ensures
        statement_kept(*old(db), *final(db), r is Ok),
        r is Ok ==> {
            &&& chunks_in(*final(db)) == chunk_added(chunks_in(*old(db)), *chunk)
            &&& events_in(*final(db)) == events_in(*old(db))
            &&& blob_index_in(*final(db)) == blob_index_in(*old(db))
        },
{
    db.execute(
        "INSERT OR IGNORE INTO chunks (chunk_id, event_id, start_offset, end_offset, content_type) VALUES (?1, ?2, ?3, ?4, ?5)",
        (&chunk.chunk_id, &chunk.event_id, chunk.start_offset, chunk.end_offset, &chunk.content_type),
    )
}

/// The chunks once `c` is inserted unless its id is already there.
pub open spec fn chunk_added(chunks: Map<Seq<char>, ChunkRecord>, c: ChunkRow) -> Map<
    Seq<char>,
    ChunkRecord,
> {
    if chunks.contains_key(c.chunk_id@) {
        chunks
    } else {
        chunks.insert(c.chunk_id@, c@)
    }
}

/// The JSON array text that `serde_json::to_string` writes for a list of strings.
pub uninterp spec fn tags_json(tags: Seq<Seq<char>>) -> Seq<char>;

/// The list of strings that `serde_json::from_str` reads from a text, or
/// `None` where the text is not a JSON array of strings.
pub uninterp spec fn tags_from_json(s: Seq<char>) -> Option<Seq<Seq<char>>>;

/// Relies on serde_json::to_string writing a list of strings as a JSON array,
/// which serde_json::from_str reads back as the same list. Serializing strings
/// cannot fail (serde_json fails only on a failing Serialize impl or a map
/// with non-string keys), so the error arm is never taken.
#[verifier::external_body]
pub(crate) fn write_tags(tags: &Vec<String>) -> (r: String)
    ensures
        r@ == tags_json(tags.deep_view()),
        tags_from_json(r@) == Some(tags.deep_view()),
{
    match serde_json::to_string(tags) {
        Ok(s) => s,
        Err(_) => String::new(),
    }
}

/// Relies on serde_json::from_str reading a JSON array of strings.
#[verifier::external_body]
pub(crate) fn read_tags(s: &str) -> (r: Option<Vec<String>>)
    ensures
        match r {
            Some(v) => tags_from_json(s@) == Some(v.deep_view()),
            None => tags_from_json(s@) is None,
        },
{
    serde_json::from_str(s).ok()
}

} // verus!
