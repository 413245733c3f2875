//! The transaction buffer: accumulates rendered statements, tracks a
//! per-batch and a cumulative statement counter, owns the temp identifier
//! counter, and decides — against a configured byte-size watermark — when
//! an open batch is full and must be handed over for commit.
//!
//! The destination store itself is an outside service: callers send the
//! batch text this buffer hands them and read the store's commit report.

use crate::numeral::dec_u64;
use crate::numeral::u64_to_dec_string;
use crate::statement::Value;
use crate::statement::instant_value_seq;
use crate::statement::long_value_seq;
use crate::statement::ref_value_seq;
use crate::statement::render_statement;
use crate::statement::statement_seq;
use crate::statement::text_value_seq;
use crate::statement::value_seq;
use vstd::prelude::*;
use vstd::string::StrSliceExecFns;
use vstd::string::StringExecFns;

verus! {

/// The byte length of a string's UTF-8 encoding; the buffer watermark is
/// measured in these bytes, as the serialized batch is.
pub open spec fn byte_size(s: Seq<char>) -> nat {
    vstd::utf8::encode_utf8(s).len()
}

/// The open transaction batch under construction, with its counters.
pub struct TransactBuilder {
    /// Temp identifier counter; never reset, so identifiers stay unique
    /// across every batch of the run.
    pub counter: u64,
    /// The open statement list, starting from an opening bracket.
    pub data: String,
    /// Statements rendered over the whole run.
    pub total_terms: u64,
    /// Statements in the currently open batch.
    pub terms: u64,
    /// The byte-size watermark: at or above it the batch counts as full.
    pub max_buffer_size: usize,
}

impl TransactBuilder {
    /// The batch is full: its serialized size has reached the watermark.
    /// A watermark of zero is always reached (commit after every record);
    /// one larger than any feasible buffer is never reached (one bulk
    /// commit at the end of the run).
    pub open spec fn spec_should_finish(&self) -> bool {
        byte_size(self.data@) as usize >= self.max_buffer_size
    }

    /// What handing a batch over leaves behind: nothing is handed over iff
    /// no statement is pending, and then nothing changes at all; otherwise
    /// the batch is the whole buffer closed by a bracket, and the buffer
    /// reopens empty with the per-batch counter zeroed while the temp
    /// identifier counter and the cumulative counter carry on.
    pub open spec fn transact_post(pre: TransactBuilder, post: TransactBuilder, r: Option<String>) -> bool {
        &&& (r is Some <==> pre.terms != 0)
        &&& (pre.terms == 0 ==> post == pre)
        &&& (pre.terms != 0 ==> {
            &&& r->Some_0@ == pre.data@ + "]"@
            &&& post.data@ == "[\n"@
            &&& post.terms == 0
            &&& post.counter == pre.counter
            &&& post.total_terms == pre.total_terms
            &&& post.max_buffer_size == pre.max_buffer_size
        })
    }

    /// A fresh buffer: zeroed counters and an opened statement list.
    pub fn new_with_size(max_buffer_size: usize) -> (r: Self)
        ensures
            r.counter == 0,
            r.terms == 0,
            r.total_terms == 0,
            r.max_buffer_size == max_buffer_size,
            r.data@ == "[\n"@,
    {
        TransactBuilder {
            counter: 0,
            data: String::from_str("[\n"),
            terms: 0,
            total_terms: 0,
            max_buffer_size,
        }
    }

    /// Mints the next temp identifier: the decimal numeral of the strictly
    /// increased counter. Distinct counter values render to distinct
    /// numerals (`numeral::lemma_dec_u64_injective`), so every identifier
    /// minted in a run is unique.
    pub fn next_tempid(&mut self) -> (r: String)
        requires
            old(self).counter < u64::MAX,
        ensures
            final(self).counter == old(self).counter + 1,
            r@ == dec_u64(final(self).counter),
            final(self).data == old(self).data,
            final(self).terms == old(self).terms,
            final(self).total_terms == old(self).total_terms,
            final(self).max_buffer_size == old(self).max_buffer_size,
    {
        self.counter = self.counter + 1;
        u64_to_dec_string(self.counter)
    }

    fn push_statement(&mut self, tmpid: &str, attr: &str, value: &Value)
        requires
            old(self).terms < u64::MAX,
            old(self).total_terms < u64::MAX,
        ensures
            final(self).data@ == old(self).data@ + statement_seq(tmpid@, attr@, value_seq(*value)),
            final(self).terms == old(self).terms + 1,
            final(self).total_terms == old(self).total_terms + 1,
            final(self).counter == old(self).counter,
            final(self).max_buffer_size == old(self).max_buffer_size,
    {
        let stmt = render_statement(tmpid, attr, value);
        self.data.append(stmt.as_str());
        self.terms = self.terms + 1;
        self.total_terms = self.total_terms + 1;
    }

    /// Appends a reference statement: the target must be a temp identifier
    /// minted within the currently open batch.
    pub fn add_ref_to_tmpid(&mut self, tmpid: &str, attr: &str, ref_tmpid: &str)
        requires
            old(self).terms < u64::MAX,
            old(self).total_terms < u64::MAX,
        ensures
            final(self).data@ == old(self).data@ + statement_seq(
                tmpid@,
                attr@,
                ref_value_seq(ref_tmpid@),
            ),
            final(self).terms == old(self).terms + 1,
            final(self).total_terms == old(self).total_terms + 1,
            final(self).counter == old(self).counter,
            final(self).max_buffer_size == old(self).max_buffer_size,
    {
        self.push_statement(tmpid, attr, &Value::Ref(String::from_str(ref_tmpid)));
    }

    /// Appends an instant statement: a microsecond timestamp behind the
    /// instant type tag.
    pub fn add_inst(&mut self, tmpid: &str, attr: &str, micros: i64)
        requires
            old(self).terms < u64::MAX,
            old(self).total_terms < u64::MAX,
        ensures
            final(self).data@ == old(self).data@ + statement_seq(
                tmpid@,
                attr@,
                instant_value_seq(micros),
            ),
            final(self).terms == old(self).terms + 1,
            final(self).total_terms == old(self).total_terms + 1,
            final(self).counter == old(self).counter,
            final(self).max_buffer_size == old(self).max_buffer_size,
    {
        self.push_statement(tmpid, attr, &Value::Instant(micros));
    }

    /// Appends a string statement, escaping the value for the syntax.
    pub fn add_str(&mut self, tmpid: &str, attr: &str, val: &str)
        requires
            old(self).terms < u64::MAX,
            old(self).total_terms < u64::MAX,
        ensures
            final(self).data@ == old(self).data@ + statement_seq(
                tmpid@,
                attr@,
                text_value_seq(val@),
            ),
            final(self).terms == old(self).terms + 1,
            final(self).total_terms == old(self).total_terms + 1,
            final(self).counter == old(self).counter,
            final(self).max_buffer_size == old(self).max_buffer_size,
    {
        self.push_statement(tmpid, attr, &Value::Text(String::from_str(val)));
    }

    /// Appends a plain signed integer statement.
    pub fn add_long(&mut self, tmpid: &str, attr: &str, val: i64)
        requires
            old(self).terms < u64::MAX,
            old(self).total_terms < u64::MAX,
        ensures
            final(self).data@ == old(self).data@ + statement_seq(
                tmpid@,
                attr@,
                long_value_seq(val),
            ),
            final(self).terms == old(self).terms + 1,
            final(self).total_terms == old(self).total_terms + 1,
            final(self).counter == old(self).counter,
            final(self).max_buffer_size == old(self).max_buffer_size,
    {
        self.push_statement(tmpid, attr, &Value::Long(val));
    }

    /// Closes the statement list with the outer bracket and exposes the
    /// full serialized batch.
    pub fn finish(&mut self) -> (r: &str)
        ensures
            final(self).data@ == old(self).data@ + "]"@,
            r@ == final(self).data@,
            final(self).terms == old(self).terms,
            final(self).total_terms == old(self).total_terms,
            final(self).counter == old(self).counter,
            final(self).max_buffer_size == old(self).max_buffer_size,
    {
        self.data.append("]");
        self.data.as_str()
    }

    /// Reopens the batch: statement list back to the opening bracket,
    /// per-batch counter zeroed. The temp identifier counter and the
    /// cumulative statement counter are deliberately kept.
    pub fn reset(&mut self)
        ensures
            final(self).terms == 0,
            final(self).data@ == "[\n"@,
            final(self).counter == old(self).counter,
            final(self).total_terms == old(self).total_terms,
            final(self).max_buffer_size == old(self).max_buffer_size,
    {
        self.terms = 0;
        self.data = String::from_str("[\n");
    }

    /// Whether the serialized batch has reached the byte watermark.
    pub fn should_finish(&self) -> (r: bool)
        ensures
            r == self.spec_should_finish(),
    {
        self.data.as_str().len() >= self.max_buffer_size
    }

    /// Hands the closed batch text over for commit — unless no statement
    /// is pending, in which case nothing is handed over and nothing
    /// changes, so no empty transaction is ever issued. The caller submits
    /// the text to the destination store as one atomic transaction and, on
    /// store failure, surfaces this very text in its error report.
    pub fn transact(&mut self) -> (r: Option<String>)
        ensures
            Self::transact_post(*old(self), *final(self), r),
    {
        if self.terms != 0 {
            let batch = String::from_str(self.finish());
            self.reset();
            Some(batch)
        } else {
            None
        }
    }

    /// Hands the batch over iff it is full: `transact` gated on the
    /// watermark.
    pub fn maybe_transact(&mut self) -> (r: Option<String>)
        ensures
            old(self).spec_should_finish() ==> Self::transact_post(*old(self), *final(self), r),
            !old(self).spec_should_finish() ==> r is None && *final(self) == *old(self),
    {
        if self.should_finish() {
            self.transact()
        } else {
            None
        }
    }
}

} // verus!
