//! The row-to-record grouping pass: an ordered stream of flat join rows —
//! one row per parent/visit pair, sorted ascending by parent key — folded
//! into page records, each emitted exactly when the parent key changes or
//! the stream ends. At most one parent record is buffered at a time.

use crate::record::EntryView;
use crate::record::PlaceEntry;
use crate::record::VisitInfo;
use vstd::prelude::*;

verus! {

/// One flat join row: the parent page's columns beside one visit's.
pub struct PlaceRow {
    pub place_id: i64,
    pub url: String,
    pub description: Option<String>,
    pub preview_image_url: Option<String>,
    pub title: Option<String>,
    pub origin_id: i64,
    pub guid: String,
    pub visit_date: i64,
    pub visit_type: i8,
}

/// The mathematical shape of a join row.
#[verifier::ext_equal]
pub ghost struct RowView {
    pub place_id: i64,
    pub url: Seq<char>,
    pub description: Option<Seq<char>>,
    pub preview_image_url: Option<Seq<char>>,
    pub title: Option<Seq<char>>,
    pub origin_id: i64,
    pub guid: Seq<char>,
    pub visit_date: i64,
    pub visit_type: i8,
}

impl View for PlaceRow {
    type V = RowView;

    open spec fn view(&self) -> RowView {
        RowView {
            place_id: self.place_id,
            url: self.url@,
            description: self.description.deep_view(),
            preview_image_url: self.preview_image_url.deep_view(),
            title: self.title.deep_view(),
            origin_id: self.origin_id,
            guid: self.guid@,
            visit_date: self.visit_date,
            visit_type: self.visit_type,
        }
    }
}

/// The visit a row carries.
pub open spec fn row_visit(r: RowView) -> VisitInfo {
    VisitInfo { date: r.visit_date, sync15_type: r.visit_type }
}

/// The record a group's first row starts: the parent columns as they
/// stand — the title defaulting to empty when absent — and that row's
/// visit as the first sub-record.
pub open spec fn entry_of_row(r: RowView) -> EntryView {
    EntryView {
        id: r.place_id,
        url: r.url,
        description: r.description,
        preview_image_url: r.preview_image_url,
        title: match r.title {
            Some(t) => t,
            None => Seq::empty(),
        },
        sync_guid: r.guid,
        origin_id: r.origin_id,
        visits: seq![row_visit(r)],
    }
}

/// One fold step: a row under the current record's key appends its visit;
/// any other row completes the current record and starts a new one.
pub open spec fn spec_step(
    emitted: Seq<EntryView>,
    cur: Option<EntryView>,
    row: RowView,
) -> (Seq<EntryView>, Option<EntryView>) {
    match cur {
        Some(e) => {
            if e.id == row.place_id {
                (emitted, Some(EntryView { visits: e.visits.push(row_visit(row)), ..e }))
            } else {
                (emitted.push(e), Some(entry_of_row(row)))
            }
        },
        None => (emitted, Some(entry_of_row(row))),
    }
}

/// The fold over a whole row sequence: the records emitted so far and the
/// record still under assembly.
pub open spec fn spec_fold(rows: Seq<RowView>) -> (Seq<EntryView>, Option<EntryView>)
    decreases rows.len(),
{
    if rows.len() == 0 {
        (Seq::empty(), None)
    } else {
        let prev = spec_fold(rows.drop_last());
        spec_step(prev.0, prev.1, rows.last())
    }
}

/// Every record the pass yields for a row sequence, the final pending one
/// included: the last group needs no trailing key change to be emitted.
pub open spec fn spec_complete(rows: Seq<RowView>) -> Seq<EntryView> {
    match spec_fold(rows).1 {
        Some(e) => spec_fold(rows).0.push(e),
        None => spec_fold(rows).0,
    }
}

impl PlaceEntry {
    /// Starts a record from one row, the row's visit as its first
    /// sub-record; an absent title becomes the empty string.
    pub fn from_row(row: &PlaceRow) -> (e: PlaceEntry)
        ensures
            e@ == entry_of_row(row@),
    {
        let e = PlaceEntry {
            id: row.place_id,
            url: row.url.clone(),
            description: match &row.description {
                Some(d) => Some(d.clone()),
                None => None,
            },
            preview_image_url: match &row.preview_image_url {
                Some(p) => Some(p.clone()),
                None => None,
            },
            title: match &row.title {
                Some(t) => t.clone(),
                None => String::new(),
            },
            sync_guid: row.guid.clone(),
            origin_id: row.origin_id,
            visits: vec![VisitInfo { date: row.visit_date, sync15_type: row.visit_type }],
        };
        proof {
            assert(e@ =~= entry_of_row(row@));
        }
        e
    }
}

/// The grouping pass itself: the record under assembly (a sentinel key
/// below zero meaning none yet) and a count of records handed out.
pub struct Grouper {
    pub current: PlaceEntry,
    pub so_far: usize,
    pub rows: Ghost<Seq<RowView>>,
    pub emitted: Ghost<Seq<EntryView>>,
}

impl Grouper {
    /// The record under assembly, if any: the sentinel stands for none.
    pub open spec fn current_model(&self) -> Option<EntryView> {
        if self.current.id < 0 {
            None
        } else {
            Some(self.current@)
        }
    }

    /// The pass tracks the fold of exactly the rows it has seen.
    pub open spec fn wf(&self) -> bool {
        &&& spec_fold(self.rows@).0 == self.emitted@
        &&& spec_fold(self.rows@).1 == self.current_model()
        &&& self.so_far == self.emitted@.len()
    }

    /// A fresh pass: nothing seen, nothing pending.
    pub fn new() -> (g: Grouper)
        ensures
            g.wf(),
            g.rows@ == Seq::<RowView>::empty(),
            g.emitted@ == Seq::<EntryView>::empty(),
    {
        Grouper {
            current: PlaceEntry {
                id: -1,
                url: String::new(),
                description: None,
                preview_image_url: None,
                title: String::new(),
                sync_guid: String::new(),
                origin_id: 0,
                visits: Vec::new(),
            },
            so_far: 0,
            rows: Ghost(Seq::empty()),
            emitted: Ghost(Seq::empty()),
        }
    }

    /// Feeds one row. A row under the current key only grows the current
    /// record; any other row hands the completed record out and starts a
    /// new one from this row.
    pub fn step(&mut self, row: &PlaceRow) -> (r: Option<PlaceEntry>)
        requires
            old(self).wf(),
            row.place_id >= 0,
            old(self).emitted@.len() < usize::MAX,
        ensures
            final(self).wf(),
            final(self).rows@ == old(self).rows@.push(row@),
            match r {
                Some(e) => {
                    &&& final(self).emitted@ == old(self).emitted@.push(e@)
                    &&& Some(e@) == old(self).current_model()
                    &&& final(self).current_model() == Some(entry_of_row(row@))
                },
                None => final(self).emitted@ == old(self).emitted@,
            },
    {
        proof {
            assert(old(self).rows@.push(row@).drop_last() =~= old(self).rows@);
            assert(old(self).rows@.push(row@).last() == row@);
        }
        if self.current.id == row.place_id {
            self.current.visits.push(
                VisitInfo { date: row.visit_date, sync15_type: row.visit_type },
            );
            self.rows = Ghost(self.rows@.push(row@));
            proof {
                let e = spec_fold(old(self).rows@).1->Some_0;
                assert(self.current@ =~= EntryView {
                    visits: e.visits.push(row_visit(row@)),
                    ..e
                });
            }
            None
        } else if self.current.id >= 0 {
            let mut finished = PlaceEntry::from_row(row);
            core::mem::swap(&mut self.current, &mut finished);
            self.so_far = self.so_far + 1;
            self.rows = Ghost(self.rows@.push(row@));
            self.emitted = Ghost(self.emitted@.push(finished@));
            Some(finished)
        } else {
            self.current = PlaceEntry::from_row(row);
            self.rows = Ghost(self.rows@.push(row@));
            None
        }
    }

    /// Ends the stream: the record still under assembly, if any, is the
    /// last group's — it is handed out even though no further key change
    /// follows.
    pub fn finish(self) -> (r: Option<PlaceEntry>)
        requires
            self.wf(),
        ensures
            (r is Some) == (self.current_model() is Some),
            match r {
                Some(e) => spec_complete(self.rows@) == self.emitted@.push(e@),
                None => spec_complete(self.rows@) == self.emitted@,
            },
    {
        if self.current.id >= 0 {
            Some(self.current)
        } else {
            None
        }
    }
}

/// Rows sorted ascending by parent key — the reader's guarantee — with
/// keys in range; equal keys are then contiguous.
pub open spec fn rows_ordered(rows: Seq<RowView>) -> bool {
    &&& forall|i: int, j: int|
        0 <= i < j < rows.len() ==> rows[i].place_id <= rows[j].place_id
    &&& forall|i: int| 0 <= i < rows.len() ==> rows[i].place_id >= 0
}

/// The distinct parent keys of a sorted row sequence, in order.
pub open spec fn distinct_keys(rows: Seq<RowView>) -> Seq<i64>
    decreases rows.len(),
{
    if rows.len() == 0 {
        Seq::empty()
    } else {
        let d = distinct_keys(rows.drop_last());
        if d.len() > 0 && d.last() == rows.last().place_id {
            d
        } else {
            d.push(rows.last().place_id)
        }
    }
}

/// The visits of every row carrying one parent key, in row order.
pub open spec fn visits_for_key(rows: Seq<RowView>, key: i64) -> Seq<VisitInfo>
    decreases rows.len(),
{
    if rows.len() == 0 {
        Seq::empty()
    } else {
        let rest = visits_for_key(rows.drop_last(), key);
        if rows.last().place_id == key {
            rest.push(row_visit(rows.last()))
        } else {
            rest
        }
    }
}

/// Grouping law: over rows with contiguous, ascending parent keys the
/// pass yields exactly one record per distinct key, keyed in ascending
/// order, and each record's sub-records are the visits of all and only
/// the rows carrying its key, in original row order.
pub proof fn lemma_grouping(rows: Seq<RowView>)
    requires
        rows_ordered(rows),
    ensures
        spec_complete(rows).map_values(|e: EntryView| e.id) == distinct_keys(rows),
        forall|k: int|
            0 <= k < spec_complete(rows).len() ==> #[trigger] spec_complete(rows)[k].visits
                == visits_for_key(rows, spec_complete(rows)[k].id),
        forall|k1: int, k2: int|
            0 <= k1 < k2 < spec_complete(rows).len() ==> spec_complete(rows)[k1].id
                < spec_complete(rows)[k2].id,
        rows.len() > 0 ==> spec_complete(rows).len() > 0 && spec_complete(rows).last().id
            == rows.last().place_id,
    decreases rows.len(),
{
    if rows.len() == 0 {
        assert(spec_complete(rows).map_values(|e: EntryView| e.id) =~= distinct_keys(rows));
    } else {
        let prefix = rows.drop_last();
        let rlast = rows.last();
        lemma_grouping(prefix);
        let cp = spec_complete(prefix);
        let out = spec_complete(rows);
        let d = distinct_keys(prefix);
        assert(forall|i: int|
            0 <= i < prefix.len() ==> prefix[i] == rows[i] && prefix[i].place_id
                <= rlast.place_id);
        if prefix.len() == 0 {
            assert(spec_fold(rows).1 == Some(entry_of_row(rlast)));
            assert(out =~= seq![entry_of_row(rlast)]);
            assert(out.map_values(|e: EntryView| e.id) =~= distinct_keys(rows));
            assert(visits_for_key(prefix, rlast.place_id) == Seq::<VisitInfo>::empty());
            assert(rows.last().place_id == rlast.place_id);
            assert(visits_for_key(rows, rlast.place_id) == visits_for_key(
                prefix,
                rlast.place_id,
            ).push(row_visit(rlast)));
            assert(visits_for_key(rows, rlast.place_id) =~= seq![row_visit(rlast)]);
        } else {
            let em = spec_fold(prefix).0;
            let cur = spec_fold(prefix).1;
            assert(cur is Some);
            let e = cur->Some_0;
            assert(cp == em.push(e));
            assert(cp.last() == e);
            assert(e.id == prefix.last().place_id);
            assert(e.id <= rlast.place_id);
            // every earlier record's key is below the current one
            assert(forall|k: int|
                0 <= k < cp.len() - 1 ==> #[trigger] cp[k].id < e.id);
            if e.id == rlast.place_id {
                let e2 = EntryView { visits: e.visits.push(row_visit(rlast)), ..e };
                assert(spec_fold(rows).0 == em && spec_fold(rows).1 == Some(e2));
                assert(out =~= cp.update(cp.len() - 1, e2));
                assert(d.len() > 0 && d.last() == cp.last().id);
                assert(distinct_keys(rows) == d);
                assert(out.map_values(|e: EntryView| e.id) =~= distinct_keys(rows));
                assert forall|k: int| 0 <= k < out.len() implies #[trigger] out[k].visits
                    == visits_for_key(rows, out[k].id) by {
                    if k < out.len() - 1 {
                        assert(out[k] == cp[k]);
                        assert(cp[k].id != rlast.place_id);
                        assert(visits_for_key(rows, cp[k].id) == visits_for_key(
                            prefix,
                            cp[k].id,
                        ));
                    } else {
                        assert(out[k] == e2);
                        assert(visits_for_key(rows, e.id) == visits_for_key(
                            prefix,
                            e.id,
                        ).push(row_visit(rlast)));
                    }
                }
            } else {
                assert(rlast.place_id > e.id);
                let e2 = entry_of_row(rlast);
                assert(spec_fold(rows).0 == em.push(e) && spec_fold(rows).1 == Some(e2));
                assert(out =~= cp.push(e2));
                assert(d.len() > 0 && d.last() == e.id);
                assert(distinct_keys(rows) == d.push(rlast.place_id));
                assert(out.map_values(|e: EntryView| e.id) =~= distinct_keys(rows));
                assert forall|k: int| 0 <= k < out.len() implies #[trigger] out[k].visits
                    == visits_for_key(rows, out[k].id) by {
                    if k < out.len() - 1 {
                        assert(out[k] == cp[k]);
                        assert(cp[k].id <= e.id);
                        assert(cp[k].id != rlast.place_id);
                        assert(visits_for_key(rows, cp[k].id) == visits_for_key(
                            prefix,
                            cp[k].id,
                        ));
                    } else {
                        assert(out[k] == e2);
                        assert forall|i: int|
                            0 <= i < prefix.len() implies #[trigger] prefix[i].place_id
                            != rlast.place_id by {
                            assert(prefix[i] == rows[i]);
                            assert(prefix.last() == rows[prefix.len() - 1]);
                            assert(rows[i].place_id <= rows[prefix.len() - 1].place_id);
                            assert(prefix[i].place_id <= e.id);
                        }
                        lemma_visits_for_absent_key(prefix, rlast.place_id);
                        assert(visits_for_key(prefix, rlast.place_id)
                            == Seq::<VisitInfo>::empty());
                        assert(visits_for_key(rows, rlast.place_id) =~= seq![row_visit(rlast)]);
                    }
                }
            }
        }
    }
}

proof fn lemma_visits_for_absent_key(rows: Seq<RowView>, key: i64)
    requires
        forall|i: int| 0 <= i < rows.len() ==> rows[i].place_id != key,
    ensures
        visits_for_key(rows, key) == Seq::<VisitInfo>::empty(),
    decreases rows.len(),
{
    if rows.len() > 0 {
        assert(forall|i: int|
            0 <= i < rows.len() - 1 ==> rows.drop_last()[i].place_id != key);
        lemma_visits_for_absent_key(rows.drop_last(), key);
    }
}

} // verus!
