//! Purging events by criteria, with the blob index recounted and the blobs
//! left without events released.
use vstd::prelude::*;
use crate::db::{StoreError, StoredEvent, abandon, index_consistent, store_consistent};
use crate::envelope::same_text;
use crate::sql::{
    BlobRecord, EventRecord, blob_index_in, chunks_in, events_in, hash_refs,
    ref_total, same_rows, sql_all_events, autocommit_in, begun_with, sql_begin, sql_commit, sql_count_refs, sql_delete_blob,
    sql_delete_event, sql_find_blob, sql_set_ref_count,
};
use crate::text::{text_le, text_le_exec};

verus! {

/// The texts of a sequence of strings.
pub open spec fn texts(v: Seq<String>) -> Seq<Seq<char>> {
    v.map_values(|s: String| s@)
}

/// The set of the first `n` elements of `s`.
pub open spec fn prefix_set(s: Seq<Seq<char>>, n: int) -> Set<Seq<char>> {
    Set::new(|x: Seq<char>| exists|k: int| 0 <= k < n && s[k] == x)
}

/// Whether `t` is one of the strings of `v`.
pub fn contains_text(v: &Vec<String>, t: &str) -> (r: bool)
    ensures
        r == texts(v@).contains(t@),
{
    let mut i: usize = 0;
    while i < v.len()
        invariant
            i <= v@.len(),
            forall|k: int| 0 <= k < i ==> v@[k]@ != t@,
        decreases v@.len() - i,
    {
        if same_text(v[i].as_str(), t) {
            assert(texts(v@)[i as int] == t@);
            return true;
        }
        i = i + 1;
    }
    assert(!texts(v@).contains(t@)) by {
        if texts(v@).contains(t@) {
            let k = choose|k: int| 0 <= k < texts(v@).len() && texts(v@)[k] == t@;
            assert(v@[k]@ == t@);
        }
    }
    false
}

/// Which events a purge removes: every predicate that is present must hold.
/// An id list, even an empty one, admits only the ids it holds.
#[derive(Clone, Debug, Default)]
pub struct PurgeCriteria {
    pub event_ids: Option<Vec<String>>,
    pub start: Option<String>,
    pub end: Option<String>,
    pub app: Option<String>,
    pub source: Option<String>,
    pub privacy_flag: Option<String>,
}

impl PurgeCriteria {
    /// No predicate is present.
    pub open spec fn is_unconstrained(&self) -> bool {
        &&& self.event_ids is None
        &&& self.start is None
        &&& self.end is None
        &&& self.app is None
        &&& self.source is None
        &&& self.privacy_flag is None
    }

    /// The event row `r` meets every present predicate: its id is in the list,
    /// its timestamp is at or after `start` and at or before `end` (by bytes),
    /// and `app`, `source` and `privacy_flag` are equal.
    pub open spec fn selects(&self, r: EventRecord) -> bool {
        &&& match self.event_ids {
            Some(ids) => texts(ids@).contains(r.event_id),
            None => true,
        }
        &&& match self.start {
            Some(s) => text_le(s@, r.timestamp),
            None => true,
        }
        &&& match self.end {
            Some(e) => text_le(r.timestamp, e@),
            None => true,
        }
        &&& match self.app {
            Some(a) => r.app == a@,
            None => true,
        }
        &&& match self.source {
            Some(s) => r.source == s@,
            None => true,
        }
        &&& match self.privacy_flag {
            Some(p) => r.privacy_flag == p@,
            None => true,
        }
    }

    /// Whether no predicate is present.
    pub fn is_empty(&self) -> (r: bool)
        ensures
            r == self.is_unconstrained(),
    {
        self.event_ids.is_none() && self.start.is_none() && self.end.is_none() && self.app.is_none()
            && self.source.is_none() && self.privacy_flag.is_none()
    }

    /// Whether the criteria select the event row `row`.
    pub fn selects_row(&self, row: &StoredEvent) -> (r: bool)
        ensures
            r == self.selects(row@),
    {
        let ids_ok = match &self.event_ids {
            Some(ids) => contains_text(ids, row.event_id.as_str()),
            None => true,
        };
        let start_ok = match &self.start {
            Some(s) => text_le_exec(s.as_str(), row.timestamp.as_str()),
            None => true,
        };
        let end_ok = match &self.end {
            Some(e) => text_le_exec(row.timestamp.as_str(), e.as_str()),
            None => true,
        };
        let app_ok = match &self.app {
            Some(a) => same_text(row.app.as_str(), a.as_str()),
            None => true,
        };
        let source_ok = match &self.source {
            Some(s) => same_text(row.source.as_str(), s.as_str()),
            None => true,
        };
        let privacy_ok = match &self.privacy_flag {
            Some(p) => same_text(row.privacy_flag.as_str(), p.as_str()),
            None => true,
        };
        ids_ok && start_ok && end_ok && app_ok && source_ok && privacy_ok
    }
}

/// The ids of the events that the criteria select.
pub open spec fn selected_ids(events: Map<Seq<char>, EventRecord>, c: PurgeCriteria) -> Set<Seq<char>> {
    events.dom().filter(|id: Seq<char>| c.selects(events[id]))
}

/// The hashes that the selected events reference.
pub open spec fn impacted_hashes(events: Map<Seq<char>, EventRecord>, c: PurgeCriteria) -> Set<
    Seq<char>,
> {
    Set::new(
        |h: Seq<char>|
            exists|id: Seq<char>| #[trigger] selected_ids(events, c).contains(id) && events[id].content_hash == h,
    )
}

/// The events left once the selected ones are gone.
pub open spec fn purged_events(events: Map<Seq<char>, EventRecord>, c: PurgeCriteria) -> Map<
    Seq<char>,
    EventRecord,
> {
    events.remove_keys(selected_ids(events, c))
}

/// The hashes of `hs` that no event of `events` references any more.
pub open spec fn released_hashes(events: Map<Seq<char>, EventRecord>, hs: Set<Seq<char>>) -> Set<
    Seq<char>,
> {
    hs.filter(|h: Seq<char>| ref_total(events, h) == 0)
}

/// The blob index once the counts of the hashes `hs` are set to what `events`
/// reference, and the rows of those left with none are dropped.
pub open spec fn purged_index(
    blobs: Map<Seq<char>, BlobRecord>,
    events: Map<Seq<char>, EventRecord>,
    hs: Set<Seq<char>>,
) -> Map<Seq<char>, BlobRecord> {
    Map::new(
        |h: Seq<char>| blobs.contains_key(h) && !(hs.contains(h) && ref_total(events, h) == 0),
        |h: Seq<char>|
            if hs.contains(h) {
                BlobRecord { blob_path: blobs[h].blob_path, ref_count: ref_total(events, h) as int }
            } else {
                blobs[h]
            },
    )
}

/// `paths` are the blob paths of the index rows that a purge dropped.
pub open spec fn lists_released(
    blobs: Map<Seq<char>, BlobRecord>,
    events: Map<Seq<char>, EventRecord>,
    hs: Set<Seq<char>>,
    paths: Seq<Seq<char>>,
) -> bool {
    forall|p: Seq<char>|
        paths.contains(p) <==> exists|h: Seq<char>|
            #[trigger] released_hashes(events, hs).contains(h) && blobs.contains_key(h)
                && blobs[h].blob_path == p
}

/// What a purge reports: the events and blobs it counts as deleted, and the
/// paths of the blob files whose index rows it dropped (to be removed from disk).
#[derive(Clone, Debug)]
pub struct PurgeReport {
    pub deleted_events: u64,
    pub deleted_blobs: u64,
    pub released_paths: Vec<String>,
}

/// The effect of purging with `c` a store seen as `before`, left as `after`.
pub open spec fn purge_outcome(
    before: rusqlite::Connection,
    after: rusqlite::Connection,
    c: PurgeCriteria,
    rep: PurgeReport,
) -> bool {
    if c.is_unconstrained() {
        &&& rep.deleted_events == 0
        &&& rep.deleted_blobs == 0
        &&& rep.released_paths@.len() == 0
        &&& same_rows(after, before)
    } else {
        let e0 = events_in(before);
        let b0 = blob_index_in(before);
        let e1 = purged_events(e0, c);
        let hs = impacted_hashes(e0, c);
        &&& e0.dom().finite()
        &&& events_in(after) == e1
        &&& blob_index_in(after) == purged_index(b0, e1, hs)
        &&& chunks_in(after) == chunks_in(before)
        &&& rep.deleted_events == match c.event_ids {
            Some(ids) => ids.len() as int,
            None => selected_ids(e0, c).len() as int,
        }
        &&& rep.deleted_blobs == match c.event_ids {
            Some(_) => hs.len() as int,
            None => released_hashes(e1, hs).len() as int,
        }
        &&& lists_released(b0, e1, hs, texts(rep.released_paths@))
    }
}

/// The ids and the distinct hashes of the rows that `c` selects.
fn collect_selected(rows: &Vec<StoredEvent>, c: &PurgeCriteria) -> (r: (Vec<String>, Vec<String>))
    requires
        forall|i: int, j: int|
            0 <= i < j < rows@.len() ==> #[trigger] rows@[i].event_id@ != #[trigger] rows@[j].event_id@,
    ensures
        texts(r.0@).no_duplicates(),
        texts(r.1@).no_duplicates(),
        forall|x: Seq<char>|
            texts(r.0@).contains(x) <==> exists|k: int|
                0 <= k < rows@.len() && #[trigger] rows@[k].event_id@ == x && c.selects(rows@[k]@),
        forall|h: Seq<char>|
            texts(r.1@).contains(h) <==> exists|k: int|
                0 <= k < rows@.len() && #[trigger] rows@[k].content_hash@ == h && c.selects(rows@[k]@),
{
    let mut ids: Vec<String> = Vec::new();
    let mut hashes: Vec<String> = Vec::new();
    let mut i: usize = 0;
    while i < rows.len()
        invariant
            i <= rows@.len(),
            forall|a: int, b: int|
                0 <= a < b < rows@.len() ==> #[trigger] rows@[a].event_id@ != #[trigger] rows@[b].event_id@,
            texts(ids@).no_duplicates(),
            texts(hashes@).no_duplicates(),
            forall|x: Seq<char>|
                texts(ids@).contains(x) <==> exists|k: int|
                    0 <= k < i && #[trigger] rows@[k].event_id@ == x && c.selects(rows@[k]@),
            forall|h: Seq<char>|
                texts(hashes@).contains(h) <==> exists|k: int|
                    0 <= k < i && #[trigger] rows@[k].content_hash@ == h && c.selects(rows@[k]@),
        decreases rows@.len() - i,
    {
        let row = &rows[i];
        if c.selects_row(row) {
            let ghost old_ids = texts(ids@);
            let ghost old_hashes = texts(hashes@);
            proof {
                if old_ids.contains(row.event_id@) {
                    let k = choose|k: int|
                        0 <= k < i && #[trigger] rows@[k].event_id@ == row.event_id@ && c.selects(
                            rows@[k]@,
                        );
                    assert(rows@[k].event_id@ != rows@[i as int].event_id@);
                }
            }
            ids.push(row.event_id.clone());
            assert(texts(ids@) =~= old_ids.push(row.event_id@));
            if !contains_text(&hashes, row.content_hash.as_str()) {
                hashes.push(row.content_hash.clone());
                assert(texts(hashes@) =~= old_hashes.push(row.content_hash@));
            }
            assert forall|x: Seq<char>|
                texts(ids@).contains(x) <==> exists|k: int|
                    0 <= k < i + 1 && #[trigger] rows@[k].event_id@ == x && c.selects(rows@[k]@) by {
                if texts(ids@).contains(x) {
                    if x == row.event_id@ {
                        assert(rows@[i as int].event_id@ == x && c.selects(rows@[i as int]@));
                    } else {
                        let j = choose|j: int| 0 <= j < texts(ids@).len() && texts(ids@)[j] == x;
                        assert(old_ids[j] == x);
                        assert(old_ids.contains(x));
                    }
                }
                if exists|k: int|
                    0 <= k < i + 1 && #[trigger] rows@[k].event_id@ == x && c.selects(rows@[k]@) {
                    let k = choose|k: int|
                        0 <= k < i + 1 && #[trigger] rows@[k].event_id@ == x && c.selects(rows@[k]@);
                    if k == i {
                        assert(texts(ids@)[old_ids.len() as int] == x);
                    } else {
                        assert(old_ids.contains(x));
                        let j = choose|j: int| 0 <= j < old_ids.len() && old_ids[j] == x;
                        assert(texts(ids@)[j] == x);
                    }
                }
            }
            assert forall|h: Seq<char>|
                texts(hashes@).contains(h) <==> exists|k: int|
                    0 <= k < i + 1 && #[trigger] rows@[k].content_hash@ == h && c.selects(rows@[k]@) by {
                if texts(hashes@).contains(h) {
                    if h == row.content_hash@ {
                        assert(rows@[i as int].content_hash@ == h && c.selects(rows@[i as int]@));
                    } else {
                        let j = choose|j: int| 0 <= j < texts(hashes@).len() && texts(hashes@)[j] == h;
                        assert(old_hashes[j] == h);
                        assert(old_hashes.contains(h));
                    }
                }
                if exists|k: int|
                    0 <= k < i + 1 && #[trigger] rows@[k].content_hash@ == h && c.selects(rows@[k]@) {
                    let k = choose|k: int|
                        0 <= k < i + 1 && #[trigger] rows@[k].content_hash@ == h && c.selects(rows@[k]@);
                    if old_hashes.contains(h) {
                        let j = choose|j: int| 0 <= j < old_hashes.len() && old_hashes[j] == h;
                        assert(texts(hashes@)[j] == h);
                    } else {
                        assert(k == i);
                        assert(texts(hashes@)[old_hashes.len() as int] == h);
                    }
                }
            }
        }
        i = i + 1;
    }
    (ids, hashes)
}


/// The first `n` elements of a sequence make a finite set.
proof fn lemma_prefix_set_finite(s: Seq<Seq<char>>, n: int)
    requires
        0 <= n <= s.len(),
    ensures
        prefix_set(s, n).finite(),
    decreases n,
{
    if n == 0 {
        assert(prefix_set(s, 0) =~= Set::<Seq<char>>::empty());
    } else {
        lemma_prefix_set_finite(s, n - 1);
        assert(prefix_set(s, n) =~= prefix_set(s, n - 1).insert(s[n - 1]));
    }
}

/// A finite set that holds an element is not empty.
proof fn lemma_member_count(s: Set<Seq<char>>, x: Seq<char>)
    requires
        s.finite(),
        s.contains(x),
    ensures
        s.len() > 0,
{
    vstd::set_lib::lemma_set_empty_equivalency_len(s);
    assert(!(s =~= Set::<Seq<char>>::empty()));
}

/// A purge keeps the blob index consistent with the events: every remaining
/// event's hash keeps its index row, and every remaining row counts exactly the
/// events that still reference its hash.
pub proof fn lemma_purge_keeps_index_consistent(
    events: Map<Seq<char>, EventRecord>,
    blobs: Map<Seq<char>, BlobRecord>,
    c: PurgeCriteria,
)
    requires
        index_consistent(events, blobs),
    ensures
        index_consistent(
            purged_events(events, c),
            purged_index(blobs, purged_events(events, c), impacted_hashes(events, c)),
        ),
{
    let sel = selected_ids(events, c);
    let e1 = purged_events(events, c);
    let hs = impacted_hashes(events, c);
    let b1 = purged_index(blobs, e1, hs);
    assert(e1.dom() =~= events.dom().difference(sel));
    assert forall|id: Seq<char>| #[trigger] e1.contains_key(id) implies b1.contains_key(
        e1[id].content_hash,
    ) by {
        let h = e1[id].content_hash;
        assert(events.contains_key(id));
        if hs.contains(h) {
            assert(hash_refs(e1, h).contains(id));
            lemma_member_count(hash_refs(e1, h), id);
        }
    }
    assert forall|h: Seq<char>| #[trigger] b1.contains_key(h) implies b1[h].ref_count == ref_total(
        e1,
        h,
    ) by {
        if !hs.contains(h) {
            assert forall|id: Seq<char>| hash_refs(events, h).contains(id) implies #[trigger] hash_refs(
                e1,
                h,
            ).contains(id) by {
                if sel.contains(id) {
                    assert(hs.contains(h));
                }
            }
            assert(hash_refs(e1, h) =~= hash_refs(events, h));
        }
    }
}

/// Removes the events that `c` selects, in one transaction. Each hash that the
/// removed events referenced gets its index count set to the events left; an
/// index row left at zero is dropped and its blob path reported for removal.
/// With no predicate present nothing changes and `(0, 0)` is reported. With
/// an id list, the events reported are the ids asked for and the blobs reported
/// are the hashes touched; otherwise they are the rows removed and the hashes
/// left without events.
pub fn purge_events(db: &mut rusqlite::Connection, c: PurgeCriteria) -> (r: Result<
    PurgeReport,
    StoreError,
>)
    ensures
        c.is_unconstrained() ==> r is Ok,
        r matches Ok(rep) ==> purge_outcome(*old(db), *final(db), c, rep),
        r is Err ==> (r matches Err(StoreError::Sql(_))) && same_rows(*final(db), *old(db)),
        r is Ok && store_consistent(*old(db)) ==> store_consistent(*final(db)),
{
    if c.is_empty() {
        return Ok(PurgeReport { deleted_events: 0, deleted_blobs: 0, released_paths: Vec::new() });
    }
    match sql_begin(db) {
        Ok(()) => {},
        Err(e) => return Err(StoreError::Sql(e)),
    }
    let ghost e0 = events_in(*db);
    let ghost b0 = blob_index_in(*db);
    let ghost ch0 = chunks_in(*db);
    let rows = match sql_all_events(db) {
        Ok(rows) => rows,
        Err(e) => return abandon(db, StoreError::Sql(e)),
    };
    let (ids, hashes) = collect_selected(&rows, &c);
    let ghost sel = selected_ids(e0, c);
    let ghost hs = impacted_hashes(e0, c);
    let ghost idv = texts(ids@);
    let ghost hv = texts(hashes@);
    proof {
        assert forall|x: Seq<char>| prefix_set(idv, idv.len() as int).contains(x) <==> sel.contains(
            x,
        ) by {
            if sel.contains(x) {
                let k = choose|k: int| 0 <= k < rows@.len() && #[trigger] rows@[k].event_id@ == x;
                assert(idv.contains(x));
            }
            if prefix_set(idv, idv.len() as int).contains(x) {
                assert(idv.contains(x));
                let k = choose|k: int|
                    0 <= k < rows@.len() && #[trigger] rows@[k].event_id@ == x && c.selects(
                        rows@[k]@,
                    );
                assert(e0.contains_key(rows@[k].event_id@));
            }
        }
        assert(prefix_set(idv, idv.len() as int) =~= sel);
        let row_ids = rows@.map_values(|r: StoredEvent| r.event_id@);
        lemma_prefix_set_finite(row_ids, row_ids.len() as int);
        assert forall|x: Seq<char>| e0.dom().contains(x) <==> prefix_set(
            row_ids,
            row_ids.len() as int,
        ).contains(x) by {
            if e0.dom().contains(x) {
                let k = choose|k: int| 0 <= k < rows@.len() && #[trigger] rows@[k].event_id@ == x;
                assert(row_ids[k] == x);
            }
            if prefix_set(row_ids, row_ids.len() as int).contains(x) {
                let k = choose|k: int| 0 <= k < row_ids.len() && row_ids[k] == x;
                assert(rows@[k].event_id@ == x);
            }
        }
        assert(e0.dom() =~= prefix_set(row_ids, row_ids.len() as int));
        assert forall|h: Seq<char>| prefix_set(hv, hv.len() as int).contains(h) <==> hs.contains(
            h,
        ) by {
            if hs.contains(h) {
                let id = choose|id: Seq<char>| #[trigger] sel.contains(id) && e0[id].content_hash == h;
                let k = choose|k: int| 0 <= k < rows@.len() && #[trigger] rows@[k].event_id@ == id;
                assert(rows@[k].content_hash@ == h);
                assert(hv.contains(h));
            }
            if prefix_set(hv, hv.len() as int).contains(h) {
                assert(hv.contains(h));
                let k = choose|k: int|
                    0 <= k < rows@.len() && #[trigger] rows@[k].content_hash@ == h && c.selects(
                        rows@[k]@,
                    );
                assert(e0.contains_key(rows@[k].event_id@));
                assert(sel.contains(rows@[k].event_id@));
            }
        }
        assert(prefix_set(hv, hv.len() as int) =~= hs);
        assert(prefix_set(idv, 0) =~= Set::<Seq<char>>::empty());
        assert(e0.remove_keys(prefix_set(idv, 0)) =~= e0);
    }
    let mut j: usize = 0;
    while j < ids.len()
        invariant
            j <= ids@.len(),
            idv == texts(ids@),
            idv.no_duplicates(),
            !c.is_unconstrained(),
            sel == selected_ids(e0, c),
            prefix_set(idv, idv.len() as int) == sel,
            prefix_set(hv, hv.len() as int) == hs,
            hs == impacted_hashes(e0, c),
            hv == texts(hashes@),
            hv.no_duplicates(),
            !autocommit_in(*db),
            begun_with(*db, e0, b0, ch0),
            e0.dom().finite(),
            events_in(*old(db)) == e0,
            blob_index_in(*old(db)) == b0,
            chunks_in(*old(db)) == ch0,
            prefix_set(idv, j as int).finite(),
            prefix_set(idv, j as int).len() == j,
            events_in(*db) == e0.remove_keys(prefix_set(idv, j as int)),
            blob_index_in(*db) == b0,
            chunks_in(*db) == ch0,
        decreases ids@.len() - j,
    {
        match sql_delete_event(db, ids[j].as_str()) {
            Ok(_) => {},
            Err(e) => return abandon(db, StoreError::Sql(e)),
        }
        proof {
            let x = idv[j as int];
            assert(prefix_set(idv, j + 1) =~= prefix_set(idv, j as int).insert(x));
            if prefix_set(idv, j as int).contains(x) {
                let k = choose|k: int| 0 <= k < j && idv[k] == x;
                assert(idv[k] == idv[j as int]);
            }
            assert(e0.remove_keys(prefix_set(idv, j as int)).remove(x) =~= e0.remove_keys(
                prefix_set(idv, j + 1),
            ));
        }
        j = j + 1;
    }
    let ghost e1 = purged_events(e0, c);
    assert(events_in(*db) == e1);
    let mut released_paths: Vec<String> = Vec::new();
    let mut freed: usize = 0;
    let mut k: usize = 0;
    proof {
        assert(prefix_set(hv, 0) =~= Set::<Seq<char>>::empty());
        assert(released_hashes(e1, prefix_set(hv, 0)) =~= Set::<Seq<char>>::empty());
        assert(purged_index(b0, e1, prefix_set(hv, 0)) =~= b0);
    }
    while k < hashes.len()
        invariant
            k <= hashes@.len(),
            hv == texts(hashes@),
            hv.no_duplicates(),
            !c.is_unconstrained(),
            sel == selected_ids(e0, c),
            prefix_set(idv, idv.len() as int) == sel,
            prefix_set(idv, idv.len() as int).len() == ids@.len(),
            idv == texts(ids@),
            prefix_set(hv, hv.len() as int) == hs,
            hs == impacted_hashes(e0, c),
            freed <= k,
            !autocommit_in(*db),
            begun_with(*db, e0, b0, ch0),
            e0.dom().finite(),
            events_in(*old(db)) == e0,
            blob_index_in(*old(db)) == b0,
            chunks_in(*old(db)) == ch0,
            prefix_set(hv, k as int).finite(),
            prefix_set(hv, k as int).len() == k,
            released_hashes(e1, prefix_set(hv, k as int)).finite(),
            freed == released_hashes(e1, prefix_set(hv, k as int)).len(),
            events_in(*db) == e1,
            blob_index_in(*db) == purged_index(b0, e1, prefix_set(hv, k as int)),
            chunks_in(*db) == ch0,
            lists_released(b0, e1, prefix_set(hv, k as int), texts(released_paths@)),
        decreases hashes@.len() - k,
    {
        let h = hashes[k].as_str();
        let ghost before = prefix_set(hv, k as int);
        let ghost after = prefix_set(hv, k + 1);
        proof {
            assert(h@ == hv[k as int]);
            assert(after =~= before.insert(h@));
            if before.contains(h@) {
                let i = choose|i: int| 0 <= i < k && hv[i] == h@;
                assert(hv[i] == hv[k as int]);
            }
        }
        let found = match sql_find_blob(db, h) {
            Ok(found) => found,
            Err(e) => return abandon(db, StoreError::Sql(e)),
        };
        let remaining = match sql_count_refs(db, h) {
            Ok(n) => n,
            Err(e) => return abandon(db, StoreError::Sql(e)),
        };
        let ghost paths_before = texts(released_paths@);
        let ghost pushed = found is Some && remaining <= 0;
        proof {
            assert(purged_index(b0, e1, before).contains_key(h@) == b0.contains_key(h@));
            if found is Some {
                assert(found->Some_0.0@ == b0[h@].blob_path);
            }
            assert(found is Some <==> b0.contains_key(h@));
            assert(remaining as int == ref_total(e1, h@));
        }
        match found {
            Some((path, _)) => {
                match sql_set_ref_count(db, h, remaining) {
                    Ok(_) => {},
                    Err(e) => return abandon(db, StoreError::Sql(e)),
                }
                if remaining <= 0 {
                    match sql_delete_blob(db, h) {
                        Ok(_) => {},
                        Err(e) => return abandon(db, StoreError::Sql(e)),
                    }
                    released_paths.push(path);
                    freed = freed + 1;
                }
            },
            None => {
                if remaining <= 0 {
                    freed = freed + 1;
                }
            },
        }
        proof {
            assert(texts(released_paths@) =~= (if pushed {
                paths_before.push(b0[h@].blob_path)
            } else {
                paths_before
            }));
            assert(blob_index_in(*db) =~= purged_index(b0, e1, after));
            if remaining <= 0 {
                assert(released_hashes(e1, after) =~= released_hashes(e1, before).insert(h@));
            } else {
                assert(released_hashes(e1, after) =~= released_hashes(e1, before));
            }
            assert forall|p: Seq<char>|
                texts(released_paths@).contains(p) <==> exists|g: Seq<char>|
                    #[trigger] released_hashes(e1, after).contains(g) && b0.contains_key(g)
                        && b0[g].blob_path == p by {
                if texts(released_paths@).contains(p) {
                    let i = choose|i: int|
                        0 <= i < texts(released_paths@).len() && texts(released_paths@)[i] == p;
                    if i < paths_before.len() {
                        assert(paths_before[i] == p);
                        assert(paths_before.contains(p));
                        let g = choose|g: Seq<char>|
                            #[trigger] released_hashes(e1, before).contains(g) && b0.contains_key(g)
                                && b0[g].blob_path == p;
                        assert(released_hashes(e1, after).contains(g));
                    } else {
                        assert(pushed);
                        assert(released_hashes(e1, after).contains(h@));
                    }
                }
                if exists|g: Seq<char>|
                    #[trigger] released_hashes(e1, after).contains(g) && b0.contains_key(g)
                        && b0[g].blob_path == p {
                    let g = choose|g: Seq<char>|
                        #[trigger] released_hashes(e1, after).contains(g) && b0.contains_key(g)
                            && b0[g].blob_path == p;
                    if g == h@ {
                        assert(pushed);
                        assert(texts(released_paths@)[paths_before.len() as int] == p);
                    } else {
                        assert(released_hashes(e1, before).contains(g));
                        assert(paths_before.contains(p));
                        let i = choose|i: int| 0 <= i < paths_before.len() && paths_before[i] == p;
                        assert(texts(released_paths@)[i] == p);
                    }
                }
            }
        }
        k = k + 1;
    }
    match sql_commit(db) {
        Ok(()) => {},
        Err(e) => return abandon(db, StoreError::Sql(e)),
    }
    let deleted_events: u64 = match &c.event_ids {
        Some(list) => list.len() as u64,
        None => ids.len() as u64,
    };
    let deleted_blobs: u64 = match &c.event_ids {
        Some(_) => hashes.len() as u64,
        None => freed as u64,
    };
    proof {
        if index_consistent(e0, b0) {
            lemma_purge_keeps_index_consistent(e0, b0, c);
        }
    }
    Ok(PurgeReport { deleted_events, deleted_blobs, released_paths })
}

/// A hash that an event left by the purge still references keeps its index
/// row, counting exactly the events left, and its blob is not released.
pub proof fn lemma_shared_blob_survives_purge(
    events: Map<Seq<char>, EventRecord>,
    blobs: Map<Seq<char>, BlobRecord>,
    c: PurgeCriteria,
    kept: Seq<char>,
)
    requires
        index_consistent(events, blobs),
        events.contains_key(kept),
        !c.selects(events[kept]),
    ensures
        ({
            let h = events[kept].content_hash;
            let e1 = purged_events(events, c);
            let b1 = purged_index(blobs, e1, impacted_hashes(events, c));
            &&& b1.contains_key(h)
            &&& b1[h].ref_count == ref_total(e1, h)
            &&& ref_total(e1, h) >= 1
            &&& !released_hashes(e1, impacted_hashes(events, c)).contains(h)
        }),
{
    let h = events[kept].content_hash;
    let e1 = purged_events(events, c);
    assert(e1.dom() =~= events.dom().difference(selected_ids(events, c)));
    assert(e1.contains_key(kept));
    assert(hash_refs(e1, h).contains(kept));
    lemma_member_count(hash_refs(e1, h), kept);
    lemma_purge_keeps_index_consistent(events, blobs, c);
}

/// A purge leaves every remaining event that is not `never_store` with an
/// index row for its hash, where that held before.
pub proof fn lemma_purge_keeps_events_indexed(
    events: Map<Seq<char>, EventRecord>,
    blobs: Map<Seq<char>, BlobRecord>,
    c: PurgeCriteria,
)
    requires
        events.dom().finite(),
        forall|id: Seq<char>|
            #[trigger] events.contains_key(id) && events[id].privacy_flag != "never_store"@
                ==> blobs.contains_key(events[id].content_hash),
    ensures
        ({
            let e1 = purged_events(events, c);
            let b1 = purged_index(blobs, e1, impacted_hashes(events, c));
            forall|id: Seq<char>|
                #[trigger] e1.contains_key(id) && e1[id].privacy_flag != "never_store"@
                    ==> b1.contains_key(e1[id].content_hash)
        }),
{
    let e1 = purged_events(events, c);
    let hs = impacted_hashes(events, c);
    let b1 = purged_index(blobs, e1, hs);
    assert(e1.dom() =~= events.dom().difference(selected_ids(events, c)));
    assert forall|id: Seq<char>|
        #[trigger] e1.contains_key(id) && e1[id].privacy_flag != "never_store"@ implies b1.contains_key(
            e1[id].content_hash,
        ) by {
        let h = e1[id].content_hash;
        assert(events.contains_key(id));
        if hs.contains(h) {
            assert(hash_refs(e1, h).contains(id));
            lemma_member_count(hash_refs(e1, h), id);
        }
    }
}

} // verus!
