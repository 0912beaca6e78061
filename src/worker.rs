//! The decisions of the ingest worker: when a batch is flushed, whether an
//! event's content is kept, how often enrichment is attempted, and which
//! chunks an enrichment result yields.
use vstd::prelude::*;
use crate::db::{ChunkRow, StoreError, get_blob_index};
use crate::sql::{ChunkRecord, blob_index_in};
use crate::envelope::{EventEnvelope, PrivacyFlag, same_text};

verus! {

/// A batch is flushed once it holds this many events.
pub const BATCH_SIZE: usize = 64;

/// A batch is flushed at the latest this long after the previous flush.
pub const FLUSH_INTERVAL_MS: u64 = 100;

/// What the worker's wait on the intake channel ended with.
pub enum WorkerEvent {
    /// An envelope arrived.
    Received(EventEnvelope),
    /// The flush deadline passed first.
    TimedOut,
    /// Every sender is gone.
    Closed,
}

/// What the worker does after an event.
pub struct BatchStep {
    /// The events to process now, in arrival order (possibly none).
    pub flush: Vec<EventEnvelope>,
    /// Whether the flush deadline starts anew from now.
    pub reset_deadline: bool,
    /// Whether the worker stops.
    pub stop: bool,
}

/// The events received since the last flush.
pub struct Batcher {
    buffer: Vec<EventEnvelope>,
}

impl View for Batcher {
    type V = Seq<EventEnvelope>;

    /// The buffered events, in arrival order.
    closed spec fn view(&self) -> Seq<EventEnvelope> {
        self.buffer@
    }
}

impl Batcher {
    /// Holds fewer events than a full batch.
    pub open spec fn well_formed(&self) -> bool {
        self@.len() < BATCH_SIZE
    }

    /// An empty batcher.
    pub fn new() -> (r: Batcher)
        ensures
            r@.len() == 0,
            r.well_formed(),
    {
        Batcher { buffer: Vec::new() }
    }

    /// How many events are buffered.
    pub fn pending(&self) -> (r: usize)
        ensures
            r == self@.len(),
    {
        self.buffer.len()
    }

    /// Takes every buffered event, leaving the buffer empty.
    fn take_all(&mut self) -> (r: Vec<EventEnvelope>)
        ensures
            r@ == old(self)@,
            final(self)@.len() == 0,
    {
        let mut out: Vec<EventEnvelope> = Vec::new();
        std::mem::swap(&mut out, &mut self.buffer);
        out
    }

    /// Decides on one event. An arriving envelope is buffered, and a full batch
    /// is flushed with the deadline reset. At the deadline whatever is buffered
    /// is flushed and the deadline reset. When the channel closes, whatever is
    /// buffered is flushed and the worker stops.
    pub fn step(&mut self, ev: WorkerEvent) -> (r: BatchStep)
        requires
            old(self).well_formed(),
        ensures
            final(self).well_formed(),
            match ev {
                WorkerEvent::Received(e) => if old(self)@.len() + 1 >= BATCH_SIZE {
                    &&& r.flush@ == old(self)@.push(e)
                    &&& final(self)@.len() == 0
                    &&& r.reset_deadline && !r.stop
                } else {
                    &&& r.flush@.len() == 0
                    &&& final(self)@ == old(self)@.push(e)
                    &&& !r.reset_deadline && !r.stop
                },
                WorkerEvent::TimedOut => {
                    &&& r.flush@ == old(self)@
                    &&& final(self)@.len() == 0
                    &&& r.reset_deadline && !r.stop
                },
                WorkerEvent::Closed => {
                    &&& r.flush@ == old(self)@
                    &&& final(self)@.len() == 0
                    &&& r.stop
                },
            },
    {
        match ev {
            WorkerEvent::Received(e) => {
                self.buffer.push(e);
                if self.buffer.len() >= BATCH_SIZE {
                    let flush = self.take_all();
                    BatchStep { flush, reset_deadline: true, stop: false }
                } else {
                    BatchStep { flush: Vec::new(), reset_deadline: false, stop: false }
                }
            },
            WorkerEvent::TimedOut => {
                let flush = self.take_all();
                BatchStep { flush, reset_deadline: true, stop: false }
            },
            WorkerEvent::Closed => {
                let flush = self.take_all();
                BatchStep { flush, reset_deadline: false, stop: true }
            },
        }
    }
}

/// Whether the content of an event with this flag is read and kept as a blob.
pub open spec fn keeps_content(flag: PrivacyFlag) -> bool {
    flag != PrivacyFlag::NeverStore
}

/// Whether the content of `env` is read and kept, and the event enriched: not
/// for `never_store` events, whose row alone is recorded.
pub fn stores_content(env: &EventEnvelope) -> (r: bool)
    ensures
        r == keeps_content(env.privacy_flag),
{
    env.privacy_flag != PrivacyFlag::NeverStore
}

/// The blob path handed to enrichment: the one indexed for the event's hash,
/// else the event's own content pointer.
pub fn enrichment_blob_path(db: &rusqlite::Connection, env: &EventEnvelope) -> (r: Result<
    String,
    StoreError,
>)
    ensures
        r matches Ok(p) ==> p@ == if blob_index_in(*db).contains_key(env.content_hash@) {
            blob_index_in(*db)[env.content_hash@].blob_path
        } else {
            env.content_pointer@
        },
        r is Err ==> r matches Err(StoreError::Sql(_)),
{
    match get_blob_index(db, env.content_hash.as_str()) {
        Ok(Some((path, _))) => Ok(path),
        Ok(None) => Ok(env.content_pointer.clone()),
        Err(e) => Err(e),
    }
}

/// How enrichment is attempted: at most `max_retries` runs, each cut off after
/// `timeout_ms` milliseconds.
#[derive(Clone, Copy, Debug, PartialEq, Eq, Structural)]
pub struct RetryPolicy {
    pub max_retries: usize,
    pub timeout_ms: u64,
}

impl RetryPolicy {
    /// Three runs of at most fifteen seconds each.
    pub fn production() -> (r: RetryPolicy)
        ensures
            r.max_retries == 3 && r.timeout_ms == 15_000,
    {
        RetryPolicy { max_retries: 3, timeout_ms: 15_000 }
    }

    /// No run at all, with a timeout of a tenth of a second.
    pub fn test_mode() -> (r: RetryPolicy)
        ensures
            r.max_retries == 0 && r.timeout_ms == 100,
    {
        RetryPolicy { max_retries: 0, timeout_ms: 100 }
    }
}

/// How one run of the enrichment process ended.
#[derive(Clone, Copy, Debug, PartialEq, Eq, Structural)]
pub enum RunOutcome {
    /// It exited with status zero.
    Succeeded,
    /// It exited with another status.
    Failed,
    /// It ran past the timeout and was killed.
    TimedOut,
    /// It could not be started.
    SpawnError,
}

/// The progress of enrichment for one event.
#[derive(Clone, Copy, Debug, PartialEq, Eq, Structural)]
pub struct EnrichmentRun {
    pub policy: RetryPolicy,
    pub attempts: usize,
    pub succeeded: bool,
}

impl EnrichmentRun {
    /// No run made yet.
    pub fn start(policy: RetryPolicy) -> (r: EnrichmentRun)
        ensures
            r.policy == policy && r.attempts == 0 && !r.succeeded,
    {
        EnrichmentRun { policy, attempts: 0, succeeded: false }
    }

    /// Whether another run is made: none has succeeded and fewer than
    /// `max_retries` were made.
    pub fn wants_attempt(&self) -> (r: bool)
        ensures
            r == (!self.succeeded && self.attempts < self.policy.max_retries),
    {
        !self.succeeded && self.attempts < self.policy.max_retries
    }

    /// Records how a run ended.
    pub fn record(&mut self, outcome: RunOutcome)
        requires
            old(self).attempts < old(self).policy.max_retries,
        ensures
            final(self).policy == old(self).policy,
            final(self).attempts == old(self).attempts + 1,
            final(self).succeeded == (old(self).succeeded || outcome == RunOutcome::Succeeded),
    {
        self.attempts = self.attempts + 1;
        if outcome == RunOutcome::Succeeded {
            self.succeeded = true;
        }
    }
}

/// One entry of an enrichment result's `chunks` array, as far as it has fields
/// of the expected kinds.
#[derive(Clone, Debug)]
pub struct ChunkFields {
    pub id: Option<String>,
    pub start: Option<i64>,
    pub end: Option<i64>,
    pub kind: Option<String>,
}

/// An enrichment result, as far as it has fields of the expected kinds:
/// string `status`, string `event_id`, array `chunks`.
#[derive(Clone, Debug)]
pub struct EnrichmentOutput {
    pub status: Option<String>,
    pub event_id: Option<String>,
    pub chunks: Option<Vec<ChunkFields>>,
}

/// A chunk row as its id and its plain values.
pub open spec fn chunk_entry(c: ChunkRow) -> (Seq<char>, ChunkRecord) {
    (c.chunk_id@, c@)
}

/// An entry with all four fields present.
pub open spec fn complete_entry(f: ChunkFields) -> bool {
    f.id is Some && f.start is Some && f.end is Some && f.kind is Some
}

/// The chunk row of a complete entry, for the event `eid`.
pub open spec fn entry_chunk(f: ChunkFields, eid: Seq<char>) -> (Seq<char>, ChunkRecord) {
    (
        f.id->Some_0@,
        ChunkRecord {
            event_id: eid,
            start_offset: f.start->Some_0 as int,
            end_offset: f.end->Some_0 as int,
            content_type: f.kind->Some_0@,
        },
    )
}

/// The chunk rows of the complete entries of `fs`, in order.
pub open spec fn entry_chunks(fs: Seq<ChunkFields>, eid: Seq<char>) -> Seq<(Seq<char>, ChunkRecord)>
    decreases fs.len(),
{
    if fs.len() == 0 {
        Seq::empty()
    } else if complete_entry(fs.last()) {
        entry_chunks(fs.drop_last(), eid).push(entry_chunk(fs.last(), eid))
    } else {
        entry_chunks(fs.drop_last(), eid)
    }
}

/// The chunks that an enrichment result yields: where its status is `ok` and
/// it names an event and holds a chunk array, the complete entries of that
/// array, for that event; otherwise none.
pub open spec fn output_chunks(out: EnrichmentOutput) -> Seq<(Seq<char>, ChunkRecord)> {
    match (out.status, out.event_id, out.chunks) {
        (Some(s), Some(eid), Some(fs)) => if s@ == "ok"@ {
            entry_chunks(fs@, eid@)
        } else {
            Seq::empty()
        },
        _ => Seq::empty(),
    }
}

/// The chunk rows of the complete entries of `fs`, for the event `eid`.
fn rows_of_entries(fs: &Vec<ChunkFields>, eid: &String) -> (r: Vec<ChunkRow>)
    ensures
        r@.map_values(|c: ChunkRow| chunk_entry(c)) == entry_chunks(fs@, eid@),
{
    let mut rows: Vec<ChunkRow> = Vec::new();
    let mut i: usize = 0;
    while i < fs.len()
        invariant
            i <= fs@.len(),
            rows@.map_values(|c: ChunkRow| chunk_entry(c)) == entry_chunks(fs@.take(i as int), eid@),
        decreases fs@.len() - i,
    {
        let f = &fs[i];
        let ghost before = rows@;
        assert(fs@.take(i + 1).drop_last() =~= fs@.take(i as int));
        assert(fs@.take(i + 1).last() == fs@[i as int]);
        match (&f.id, &f.start, &f.end, &f.kind) {
            (Some(id), Some(start), Some(end), Some(kind)) => {
                rows.push(
                    ChunkRow {
                        chunk_id: id.clone(),
                        event_id: eid.clone(),
                        start_offset: *start,
                        end_offset: *end,
                        content_type: kind.clone(),
                    },
                );
                assert(rows@.map_values(|c: ChunkRow| chunk_entry(c)) =~= before.map_values(
                    |c: ChunkRow| chunk_entry(c),
                ).push(entry_chunk(fs@[i as int], eid@)));
            },
            _ => {},
        }
        i = i + 1;
    }
    assert(fs@.take(i as int) =~= fs@);
    rows
}

/// The chunk rows that an enrichment result yields; see `output_chunks`.
pub fn chunk_rows(out: &EnrichmentOutput) -> (r: Vec<ChunkRow>)
    ensures
        r@.map_values(|c: ChunkRow| chunk_entry(c)) == output_chunks(*out),
{
    match (&out.status, &out.event_id, &out.chunks) {
        (Some(s), Some(eid), Some(fs)) => {
            if same_text(s.as_str(), "ok") {
                rows_of_entries(fs, eid)
            } else {
                let v: Vec<ChunkRow> = Vec::new();
                assert(v@.map_values(|c: ChunkRow| chunk_entry(c)) =~= Seq::empty());
                v
            }
        },
        _ => {
            let v: Vec<ChunkRow> = Vec::new();
            assert(v@.map_values(|c: ChunkRow| chunk_entry(c)) =~= Seq::empty());
            v
        },
    }
}

} // verus!
