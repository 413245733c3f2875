//! The identifier remap table: source-side integer primary keys mapped to
//! the entity identifiers the destination store assigned at commit time.
//! It is populated once, up front — mint a temp identifier per origin row,
//! commit that one batch, read the commit report's resolution back — and
//! is read-only for the rest of the run.

use crate::builder::TransactBuilder;
use crate::numeral::tempid_numeral;
use crate::statement::statement_seq;
use crate::statement::text_value_seq;
use std::collections::HashMap;
use vstd::prelude::*;
use vstd::string::StrSliceExecFns;
use vstd::string::StringExecFns;

verus! {

broadcast use vstd::std_specs::hash::group_hash_axioms;

/// Source id to committed entity id.
pub struct RemapTable {
    pub map: HashMap<i64, i64>,
}

impl View for RemapTable {
    type V = Map<i64, i64>;

    open spec fn view(&self) -> Map<i64, i64> {
        self.map@
    }
}

impl RemapTable {
    /// An empty table: what a run with no origin rows keeps for good.
    pub fn new() -> (r: Self)
        ensures
            r@ == Map::<i64, i64>::empty(),
    {
        RemapTable { map: HashMap::new() }
    }

    /// Binds one source id to its committed entity id.
    pub fn insert(&mut self, source_id: i64, entity_id: i64)
        ensures
            final(self)@ == old(self)@.insert(source_id, entity_id),
    {
        self.map.insert(source_id, entity_id);
    }

    /// The committed entity id for a source id, if the table holds one.
    pub fn get(&self, source_id: i64) -> (r: Option<i64>)
        ensures
            r == (if self@.contains_key(source_id) {
                Some(self@[source_id])
            } else {
                None::<i64>
            }),
    {
        match self.map.get(&source_id) {
            Some(v) => Some(*v),
            None => None,
        }
    }

    /// How many source ids the table binds.
    pub fn len(&self) -> (r: usize)
        ensures
            r == self@.len(),
    {
        self.map.len()
    }
}

/// The statements that encode the first `k` origin rows, each under the
/// temp identifier minted for it: counter values `c0 + 1` through `c0 + k`.
/// An origin row is `(source id, prefix, host)`.
pub open spec fn origins_stmts(os: Seq<(i64, String, String)>, c0: int, k: int) -> Seq<char>
    decreases k,
{
    if k <= 0 {
        Seq::empty()
    } else {
        origins_stmts(os, c0, k - 1) + statement_seq(
            tempid_numeral(c0 + k),
            ":origin/prefix"@,
            text_value_seq(os[k - 1].1@),
        ) + statement_seq(tempid_numeral(c0 + k), ":origin/host"@, text_value_seq(os[k - 1].2@))
    }
}

/// Encodes every origin row into the open batch, minting one temp
/// identifier per row, and returns the (source id, temp identifier) pairs
/// to resolve once that batch commits.
pub fn add_origins(builder: &mut TransactBuilder, origins: &Vec<(i64, String, String)>) -> (pairs:
    Vec<(i64, String)>)
    requires
        old(builder).counter + origins@.len() <= u64::MAX,
        old(builder).terms + 2 * origins@.len() <= u64::MAX,
        old(builder).total_terms + 2 * origins@.len() <= u64::MAX,
    ensures
        final(builder).counter == old(builder).counter + origins@.len(),
        final(builder).terms == old(builder).terms + 2 * origins@.len(),
        final(builder).total_terms == old(builder).total_terms + 2 * origins@.len(),
        final(builder).max_buffer_size == old(builder).max_buffer_size,
        final(builder).data@ == old(builder).data@ + origins_stmts(
            origins@,
            old(builder).counter as int,
            origins@.len() as int,
        ),
        pairs@.len() == origins@.len(),
        forall|i: int|
            0 <= i < origins@.len() ==> pairs@[i].0 == origins@[i].0 && pairs@[i].1@
                == tempid_numeral(old(builder).counter + 1 + i),
{
    let ghost c0 = old(builder).counter as int;
    let ghost data0 = old(builder).data@;
    let mut pairs: Vec<(i64, String)> = Vec::new();
    let n = origins.len();
    let mut i: usize = 0;
    while i < n
        invariant
            n == origins@.len(),
            i <= n,
            builder.counter as int == c0 + i,
            c0 + n <= u64::MAX,
            builder.terms == old(builder).terms + 2 * i,
            builder.total_terms == old(builder).total_terms + 2 * i,
            old(builder).terms + 2 * n <= u64::MAX,
            old(builder).total_terms + 2 * n <= u64::MAX,
            builder.max_buffer_size == old(builder).max_buffer_size,
            builder.data@ == data0 + origins_stmts(origins@, c0, i as int),
            pairs@.len() == i,
            forall|j: int|
                0 <= j < i ==> pairs@[j].0 == origins@[j].0 && pairs@[j].1@ == tempid_numeral(
                    c0 + 1 + j,
                ),
        decreases n - i,
    {
        let tmpid = builder.next_tempid();
        let row = &origins[i];
        builder.add_str(tmpid.as_str(), ":origin/prefix", row.1.as_str());
        builder.add_str(tmpid.as_str(), ":origin/host", row.2.as_str());
        pairs.push((row.0, tmpid));
        proof {
            assert(builder.data@ =~= data0 + origins_stmts(origins@, c0, i + 1));
        }
        i = i + 1;
    }
    pairs
}

/// The entity id a commit report's resolution list assigns to a temp
/// identifier: the value beside its first occurrence.
pub open spec fn res_lookup(rs: Seq<(String, i64)>, key: Seq<char>) -> Option<i64>
    decreases rs.len(),
{
    if rs.len() == 0 {
        None
    } else if rs[0].0@ == key {
        Some(rs[0].1)
    } else {
        res_lookup(rs.drop_first(), key)
    }
}

/// Character-wise string equality.
pub fn str_eq(a: &str, b: &str) -> (r: bool)
    ensures
        r == (a@ == b@),
{
    let na = a.unicode_len();
    let nb = b.unicode_len();
    if na != nb {
        return false;
    }
    let mut i: usize = 0;
    while i < na
        invariant
            na == a@.len(),
            nb == b@.len(),
            na == nb,
            i <= na,
            forall|j: int| 0 <= j < i ==> a@[j] == b@[j],
        decreases na - i,
    {
        if a.get_char(i) != b.get_char(i) {
            return false;
        }
        i = i + 1;
    }
    proof {
        assert(a@ =~= b@);
    }
    true
}

fn lookup_resolution(rs: &Vec<(String, i64)>, key: &str) -> (r: Option<i64>)
    ensures
        r == res_lookup(rs@, key@),
{
    let n = rs.len();
    let mut i: usize = 0;
    proof {
        assert(rs@.subrange(0, n as int) =~= rs@);
    }
    while i < n
        invariant
            n == rs@.len(),
            i <= n,
            res_lookup(rs@, key@) == res_lookup(rs@.subrange(i as int, n as int), key@),
        decreases n - i,
    {
        let ghost tail = rs@.subrange(i as int, n as int);
        let p = &rs[i];
        proof {
            assert(tail[0] == rs@[i as int]);
            assert(tail.drop_first() =~= rs@.subrange((i + 1) as int, n as int));
        }
        if str_eq(p.0.as_str(), key) {
            return Some(p.1);
        }
        i = i + 1;
    }
    proof {
        assert(rs@.subrange(n as int, n as int) =~= Seq::<(String, i64)>::empty());
    }
    None
}

/// Builds the remap table from the minted (source id, temp identifier)
/// pairs and the commit report's resolution list. Every pair's temp
/// identifier must have been resolved — the store reports every temp
/// identifier of a committed batch — and source ids are primary keys, so
/// distinct. The table then binds exactly the given source ids, each to
/// the entity id its temp identifier resolved to.
pub fn build_remap(pairs: &Vec<(i64, String)>, resolutions: &Vec<(String, i64)>) -> (t: RemapTable)
    requires
        forall|i: int| 0 <= i < pairs@.len() ==> res_lookup(resolutions@, pairs@[i].1@) is Some,
        forall|i: int, j: int| 0 <= i < j < pairs@.len() ==> pairs@[i].0 != pairs@[j].0,
    ensures
        forall|i: int|
            0 <= i < pairs@.len() ==> t@.contains_key(pairs@[i].0) && Some(t@[pairs@[i].0])
                == res_lookup(resolutions@, pairs@[i].1@),
        forall|k: i64|
            t@.contains_key(k) ==> exists|i: int| 0 <= i < pairs@.len() && pairs@[i].0 == k,
        t@.len() == pairs@.len(),
{
    let mut t = RemapTable::new();
    let n = pairs.len();
    let mut i: usize = 0;
    while i < n
        invariant
            n == pairs@.len(),
            i <= n,
            forall|i2: int| 0 <= i2 < n ==> res_lookup(resolutions@, pairs@[i2].1@) is Some,
            forall|i2: int, j2: int| 0 <= i2 < j2 < n ==> pairs@[i2].0 != pairs@[j2].0,
            forall|j: int|
                0 <= j < i ==> t@.contains_key(pairs@[j].0) && Some(t@[pairs@[j].0]) == res_lookup(
                    resolutions@,
                    pairs@[j].1@,
                ),
            forall|k: i64| t@.contains_key(k) ==> exists|j: int| 0 <= j < i && pairs@[j].0 == k,
            t@.dom().finite(),
            t@.len() == i,
        decreases n - i,
    {
        let p = &pairs[i];
        let entity = lookup_resolution(resolutions, p.1.as_str()).unwrap();
        proof {
            assert(!t@.contains_key(p.0));
        }
        t.insert(p.0, entity);
        i = i + 1;
    }
    t
}

} // verus!
