//! The record emitter: one completed page record — the page itself, its
//! external-sync identity record, and every visit — rendered into the open
//! batch, every reference wired through temp identifiers minted here, with
//! one flush decision after the whole record.

use crate::builder::TransactBuilder;
use crate::builder::byte_size;
use crate::numeral::tempid_numeral;
use crate::remap::RemapTable;
use crate::statement::instant_value_seq;
use crate::statement::long_value_seq;
use crate::statement::ref_value_seq;
use crate::statement::statement_seq;
use crate::statement::text_value_seq;
use vstd::prelude::*;
use vstd::string::StringExecFns;

verus! {

/// One visit event: a microsecond timestamp and a small visit-kind tag.
#[derive(Clone, Copy, PartialEq, Eq, Structural)]
pub struct VisitInfo {
    pub date: i64,
    pub sync15_type: i8,
}

/// One browsable page under assembly or emission, with its visits.
pub struct PlaceEntry {
    pub id: i64,
    pub url: String,
    pub description: Option<String>,
    pub preview_image_url: Option<String>,
    pub title: String,
    pub sync_guid: String,
    pub origin_id: i64,
    pub visits: Vec<VisitInfo>,
}

/// The mathematical shape of a page record: strings as character
/// sequences, visits in order.
#[verifier::ext_equal]
pub ghost struct EntryView {
    pub id: i64,
    pub url: Seq<char>,
    pub description: Option<Seq<char>>,
    pub preview_image_url: Option<Seq<char>>,
    pub title: Seq<char>,
    pub sync_guid: Seq<char>,
    pub origin_id: i64,
    pub visits: Seq<VisitInfo>,
}

impl View for PlaceEntry {
    type V = EntryView;

    open spec fn view(&self) -> EntryView {
        EntryView {
            id: self.id,
            url: self.url@,
            description: self.description.deep_view(),
            preview_image_url: self.preview_image_url.deep_view(),
            title: self.title@,
            sync_guid: self.sync_guid@,
            origin_id: self.origin_id,
            visits: self.visits@,
        }
    }
}

/// The statements emitted for the page subject itself: url and title
/// always, the origin reference only when the remap table resolved it,
/// description and preview image only when present.
pub open spec fn page_stmts(e: EntryView, origin: Option<i64>, page: Seq<char>) -> Seq<char> {
    statement_seq(page, ":page/url"@, text_value_seq(e.url)) + (match origin {
        Some(eid) => statement_seq(page, ":page/origin"@, long_value_seq(eid)),
        None => Seq::empty(),
    }) + statement_seq(page, ":page/title"@, text_value_seq(e.title)) + (match e.description {
        Some(d) => statement_seq(page, ":page/description"@, text_value_seq(d)),
        None => Seq::empty(),
    }) + (match e.preview_image_url {
        Some(p) => statement_seq(page, ":page/preview_image_url"@, text_value_seq(p)),
        None => Seq::empty(),
    })
}

/// The statements for the external-sync identity record: its guid and a
/// reference back to the page subject.
pub open spec fn sync_stmts(e: EntryView, sync: Seq<char>, page: Seq<char>) -> Seq<char> {
    statement_seq(sync, ":sync15.history/guid"@, text_value_seq(e.sync_guid)) + statement_seq(
        sync,
        ":sync15.history/page"@,
        ref_value_seq(page),
    )
}

/// The statements for one visit under its own subject: a reference to the
/// page, the chosen context, timestamp and kind, and the deliberate
/// self-reference standing in for a causally-prior visit.
pub open spec fn visit_stmts(v: VisitInfo, page: Seq<char>, vid: Seq<char>, ctx: i64) -> Seq<
    char,
> {
    statement_seq(vid, ":visit/page"@, ref_value_seq(page)) + statement_seq(
        vid,
        ":visit/context"@,
        long_value_seq(ctx),
    ) + statement_seq(vid, ":visit/date"@, instant_value_seq(v.date)) + statement_seq(
        vid,
        ":visit/sync15_type"@,
        long_value_seq(v.sync15_type as i64),
    ) + statement_seq(vid, ":visit/source_visit"@, ref_value_seq(vid))
}

/// The statements of the first `k` visits, whose subjects are minted at
/// counter values `cb + 1` through `cb + k`.
pub open spec fn visits_stmts_upto(
    vs: Seq<VisitInfo>,
    page: Seq<char>,
    cb: int,
    ctxs: Seq<i64>,
    k: int,
) -> Seq<char>
    decreases k,
{
    if k <= 0 {
        Seq::empty()
    } else {
        visits_stmts_upto(vs, page, cb, ctxs, k - 1) + visit_stmts(
            vs[k - 1],
            page,
            tempid_numeral(cb + k),
            ctxs[k - 1],
        )
    }
}

/// Every statement one completed record emits when the builder's counter
/// stood at `c`: the page subject is minted at `c + 1`, the sync identity
/// at `c + 2`, and the visits from `c + 3` on.
pub open spec fn entry_stmts(e: EntryView, origin: Option<i64>, c: int, ctxs: Seq<i64>) -> Seq<
    char,
> {
    page_stmts(e, origin, tempid_numeral(c + 1)) + sync_stmts(
        e,
        tempid_numeral(c + 2),
        tempid_numeral(c + 1),
    ) + visits_stmts_upto(e.visits, tempid_numeral(c + 1), c + 2, ctxs, e.visits.len() as int)
}

/// The record's statement count apart from its visits: url, title, guid
/// and the page reference always; origin, description and preview image
/// only when present.
pub open spec fn entry_base_count(e: EntryView, origin: Option<i64>) -> nat {
    (4 + (if origin is Some {
        1int
    } else {
        0int
    }) + (if e.description is Some {
        1int
    } else {
        0int
    }) + (if e.preview_image_url is Some {
        1int
    } else {
        0int
    })) as nat
}

/// The record's whole statement count: five statements per visit on top
/// of the base.
pub open spec fn entry_stmt_count(e: EntryView, origin: Option<i64>) -> nat {
    entry_base_count(e, origin) + 5 * e.visits.len()
}

/// What the remap table makes of an origin reference.
pub open spec fn origin_resolution(table: Map<i64, i64>, origin_id: i64) -> Option<i64> {
    if table.contains_key(origin_id) {
        Some(table[origin_id])
    } else {
        None
    }
}

/// What emitting one completed record guarantees. All of the record's
/// statements are appended to the open batch in one piece; then, iff the
/// batch has reached its watermark, it is handed over whole. A record's
/// statements are never split across two batches: either they all sit in
/// the still-open buffer, or they all sit inside the one returned batch.
pub open spec fn emit_post(
    e: EntryView,
    origin: Option<i64>,
    ctxs: Seq<i64>,
    pre: TransactBuilder,
    post: TransactBuilder,
    r: Option<String>,
) -> bool {
    let appended = pre.data@ + entry_stmts(e, origin, pre.counter as int, ctxs);
    let count = entry_stmt_count(e, origin);
    &&& post.counter == pre.counter + 2 + e.visits.len()
    &&& post.total_terms == pre.total_terms + count
    &&& post.max_buffer_size == pre.max_buffer_size
    &&& if byte_size(appended) as usize >= pre.max_buffer_size {
        &&& r is Some
        &&& r->Some_0@ == appended + "]"@
        &&& post.data@ == "[\n"@
        &&& post.terms == 0
    } else {
        &&& r is None
        &&& post.data@ == appended
        &&& post.terms == pre.terms + count
    }
}

/// Relies on rand::Rng::gen_range over `0..len`: the result is always
/// below `len`; the call panics only on an empty range, which the
/// precondition rules out.
#[verifier::external_body]
fn random_index(len: usize) -> (r: usize)
    requires
        len > 0,
    ensures
        r < len,
{
    rand::Rng::gen_range(&mut rand::thread_rng(), 0..len)
}

impl PlaceEntry {
    /// Emits one completed record with the given context chosen for each
    /// visit, then asks the buffer to hand the batch over if it is now
    /// full: one flush decision per record, never per visit, so the record
    /// is never split across batches (the batch may overshoot the
    /// watermark by up to one record's statements).
    #[verifier::rlimit(100)]
    fn push_page_and_sync(&self, builder: &mut TransactBuilder, origin_ids: &RemapTable) -> (page_id:
        String)
        requires
            old(builder).counter + 2 <= u64::MAX,
            old(builder).terms + entry_base_count(
                self@,
                origin_resolution(origin_ids@, self.origin_id),
            ) <= u64::MAX,
            old(builder).total_terms + entry_base_count(
                self@,
                origin_resolution(origin_ids@, self.origin_id),
            ) <= u64::MAX,
        ensures
            ({
                let origin = origin_resolution(origin_ids@, self.origin_id);
                let c = old(builder).counter as int;
                &&& final(builder).counter == old(builder).counter + 2
                &&& final(builder).terms == old(builder).terms + entry_base_count(self@, origin)
                &&& final(builder).total_terms == old(builder).total_terms + entry_base_count(
                    self@,
                    origin,
                )
                &&& final(builder).max_buffer_size == old(builder).max_buffer_size
                &&& final(builder).data@ == old(builder).data@ + page_stmts(
                    self@,
                    origin,
                    tempid_numeral(c + 1),
                ) + sync_stmts(self@, tempid_numeral(c + 2), tempid_numeral(c + 1))
                &&& page_id@ == tempid_numeral(c + 1)
            }),
    {
        let ghost origin = origin_resolution(origin_ids@, self.origin_id);
        let ghost c = old(builder).counter as int;
        let ghost data0 = old(builder).data@;

        let page_id = builder.next_tempid();
        builder.add_str(page_id.as_str(), ":page/url", self.url.as_str());
        match origin_ids.get(self.origin_id) {
            Some(origin_entid) => {
                builder.add_long(page_id.as_str(), ":page/origin", origin_entid);
            },
            None => {
                // Unresolved origin reference: the fact is omitted, not fatal;
                // the caller may log a warning.
            },
        }
        builder.add_str(page_id.as_str(), ":page/title", self.title.as_str());
        match &self.description {
            Some(desc) => {
                builder.add_str(page_id.as_str(), ":page/description", desc.as_str());
            },
            None => {},
        }
        match &self.preview_image_url {
            Some(preview) => {
                builder.add_str(page_id.as_str(), ":page/preview_image_url", preview.as_str());
            },
            None => {},
        }

        let sync15_history_id = builder.next_tempid();
        builder.add_str(sync15_history_id.as_str(), ":sync15.history/guid", self.sync_guid.as_str());
        builder.add_ref_to_tmpid(
            sync15_history_id.as_str(),
            ":sync15.history/page",
            page_id.as_str(),
        );

        proof {
            assert(builder.data@ =~= data0 + page_stmts(self@, origin, tempid_numeral(c + 1))
                + sync_stmts(self@, tempid_numeral(c + 2), tempid_numeral(c + 1)));
        }
        page_id
    }

    #[verifier::rlimit(100)]
    pub fn add_with_contexts(
        &self,
        builder: &mut TransactBuilder,
        contexts: &Vec<i64>,
        origin_ids: &RemapTable,
    ) -> (r: Option<String>)
        requires
            contexts@.len() == self.visits@.len(),
            old(builder).counter + 2 + self.visits@.len() <= u64::MAX,
            old(builder).terms + entry_stmt_count(
                self@,
                origin_resolution(origin_ids@, self.origin_id),
            ) <= u64::MAX,
            old(builder).total_terms + entry_stmt_count(
                self@,
                origin_resolution(origin_ids@, self.origin_id),
            ) <= u64::MAX,
        ensures
            emit_post(
                self@,
                origin_resolution(origin_ids@, self.origin_id),
                contexts@,
                *old(builder),
                *final(builder),
                r,
            ),
    {
        let ghost origin = origin_resolution(origin_ids@, self.origin_id);
        let ghost c = old(builder).counter as int;
        let ghost data0 = old(builder).data@;
        let ghost base = entry_base_count(self@, origin);

        let page_id = self.push_page_and_sync(builder, origin_ids);

        let n = self.visits.len();
        let mut i: usize = 0;
        while i < n
            invariant
                n == self.visits@.len(),
                contexts@.len() == n,
                i <= n,
                c == old(builder).counter as int,
                c + 2 + n <= u64::MAX,
                builder.counter as int == c + 2 + i,
                builder.terms == old(builder).terms + base + 5 * i,
                builder.total_terms == old(builder).total_terms + base + 5 * i,
                old(builder).terms + base + 5 * n <= u64::MAX,
                old(builder).total_terms + base + 5 * n <= u64::MAX,
                builder.max_buffer_size == old(builder).max_buffer_size,
                builder.data@ == data0 + page_stmts(self@, origin, tempid_numeral(c + 1))
                    + sync_stmts(self@, tempid_numeral(c + 2), tempid_numeral(c + 1))
                    + visits_stmts_upto(
                    self@.visits,
                    tempid_numeral(c + 1),
                    c + 2,
                    contexts@,
                    i as int,
                ),
                page_id@ == tempid_numeral(c + 1),
            decreases n - i,
        {
            let visit = &self.visits[i];
            let visit_id = builder.next_tempid();
            builder.add_ref_to_tmpid(visit_id.as_str(), ":visit/page", page_id.as_str());
            builder.add_long(visit_id.as_str(), ":visit/context", contexts[i]);
            builder.add_inst(visit_id.as_str(), ":visit/date", visit.date);
            builder.add_long(visit_id.as_str(), ":visit/sync15_type", visit.sync15_type as i64);
            // The visit points at itself as its own source: a deliberate
            // stand-in for a causally-prior visit, kept to avoid holding an
            // index of every minted visit in memory.
            builder.add_ref_to_tmpid(visit_id.as_str(), ":visit/source_visit", visit_id.as_str());
            proof {
                assert(builder.data@ =~= data0 + page_stmts(self@, origin, tempid_numeral(c + 1))
                    + sync_stmts(self@, tempid_numeral(c + 2), tempid_numeral(c + 1))
                    + visits_stmts_upto(
                    self@.visits,
                    tempid_numeral(c + 1),
                    c + 2,
                    contexts@,
                    i + 1,
                ));
            }
            i = i + 1;
        }
        proof {
            assert(builder.data@ =~= data0 + entry_stmts(self@, origin, c, contexts@));
            assert(builder.terms == old(builder).terms + entry_stmt_count(self@, origin));
        }
        builder.maybe_transact()
    }

    /// Emits one completed record, choosing each visit's context uniformly
    /// at random from the pool, as a fresh draw per visit. The pool must
    /// not be empty.
    pub fn add(
        &self,
        builder: &mut TransactBuilder,
        context_ids: &Vec<i64>,
        origin_ids: &RemapTable,
    ) -> (r: Option<String>)
        requires
            context_ids@.len() > 0,
            old(builder).counter + 2 + self.visits@.len() <= u64::MAX,
            old(builder).terms + entry_stmt_count(
                self@,
                origin_resolution(origin_ids@, self.origin_id),
            ) <= u64::MAX,
            old(builder).total_terms + entry_stmt_count(
                self@,
                origin_resolution(origin_ids@, self.origin_id),
            ) <= u64::MAX,
        ensures
            exists|ctxs: Seq<i64>|
                {
                    &&& #[trigger] emit_post(
                        self@,
                        origin_resolution(origin_ids@, self.origin_id),
                        ctxs,
                        *old(builder),
                        *final(builder),
                        r,
                    )
                    &&& ctxs.len() == self.visits@.len()
                    &&& forall|i: int| 0 <= i < ctxs.len() ==> context_ids@.contains(ctxs[i])
                },
    {
        let mut chosen: Vec<i64> = Vec::new();
        let n = self.visits.len();
        let mut i: usize = 0;
        while i < n
            invariant
                chosen@.len() == i,
                i <= n,
                context_ids@.len() > 0,
                forall|j: int| 0 <= j < i ==> context_ids@.contains(chosen@[j]),
            decreases n - i,
        {
            let idx = random_index(context_ids.len());
            chosen.push(context_ids[idx]);
            i = i + 1;
        }
        let r = self.add_with_contexts(builder, &chosen, origin_ids);
        proof {
            assert(emit_post(
                self@,
                origin_resolution(origin_ids@, self.origin_id),
                chosen@,
                *old(builder),
                *final(builder),
                r,
            ));
        }
        r
    }
}

} // verus!
