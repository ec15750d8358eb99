//! Database queries.
//!
//! The on-disk database itself belongs to the native engine; a [`Database`]
//! here is the snapshot of decoded records a caller hands in, in record
//! order. Queries are the two shapes the engine supports — exact match on
//! one field, or every record — and an [`Iter`] pulls the results lazily:
//! single-pass, never restartable, yielding each matching record as an owned
//! [`Package`].

use crate::package::{views_of_strings, FieldsView, Package, TransientRecord};
use vstd::prelude::*;

verus! {

/// Searchable fields of a package record.
#[derive(Copy, Clone, Debug, Eq, PartialEq, Structural)]
pub enum Index {
    /// Search by package name.
    Name,
    /// Search by package version.
    Version,
    /// Search by package license.
    License,
    /// Search by package summary.
    Summary,
    /// Search by package description.
    Description,
    /// Search by provided name.
    ProvideName,
    /// Search by installed filename.
    InstFilenames,
}

impl Index {
    /// The native tag identifier this field maps to.
    pub open spec fn tag_spec(self) -> u32 {
        match self {
            Index::Name => 1000u32,
            Index::Version => 1001u32,
            Index::License => 1014u32,
            Index::Summary => 1004u32,
            Index::Description => 1005u32,
            Index::ProvideName => 1047u32,
            Index::InstFilenames => 5040u32,
        }
    }

    /// The native tag identifier this field maps to, for callers opening a
    /// cursor against the native engine.
    pub fn tag(self) -> (t: u32)
        ensures
            t == self.tag_spec(),
    {
        match self {
            Index::Name => 1000u32,
            Index::Version => 1001u32,
            Index::License => 1014u32,
            Index::Summary => 1004u32,
            Index::Description => 1005u32,
            Index::ProvideName => 1047u32,
            Index::InstFilenames => 5040u32,
        }
    }
}

/// The values a record carries under one searchable field: one value for the
/// scalar fields, every element for the list-valued ones.
pub open spec fn field_values(r: FieldsView, field: Index) -> Seq<Seq<char>> {
    match field {
        Index::Name => seq![r.name],
        Index::Version => seq![r.version],
        Index::License => seq![r.license],
        Index::Summary => seq![r.summary],
        Index::Description => seq![r.description],
        Index::ProvideName => r.provide_names,
        Index::InstFilenames => r.installed_filenames,
    }
}

/// Whether a record answers a query: no key matches every record, and a key
/// matches exactly the records carrying that precise value — character for
/// character, no partial or glob matching — under the queried field.
pub open spec fn record_matches(r: FieldsView, field: Index, key: Option<Seq<char>>) -> bool {
    match key {
        None => true,
        Some(k) => field_values(r, field).contains(k),
    }
}

/// The query's predicate as a function value.
pub open spec fn query_pred(field: Index, key: Option<Seq<char>>) -> spec_fn(FieldsView) -> bool {
    |r: FieldsView| record_matches(r, field, key)
}

/// Exactly the records of `db` that answer the query, in record order.
pub open spec fn query_results(
    db: Seq<FieldsView>,
    field: Index,
    key: Option<Seq<char>>,
) -> Seq<FieldsView> {
    db.filter(query_pred(field, key))
}

/// The view of an optional owned key.
pub open spec fn opt_key_view(key: Option<String>) -> Option<Seq<char>> {
    match key {
        Some(s) => Some(s@),
        None => None,
    }
}

/// The views of a sequence of records.
pub open spec fn views_of_records(records: Seq<TransientRecord>) -> Seq<FieldsView> {
    records.map_values(|r: TransientRecord| r@)
}

/// A snapshot of the installed-record store, in record order.
pub struct Database {
    records: Vec<TransientRecord>,
}

impl View for Database {
    type V = Seq<FieldsView>;

    closed spec fn view(&self) -> Seq<FieldsView> {
        views_of_records(self.records@)
    }
}

impl Database {
    /// A database holding exactly the given records, in order.
    pub fn new(records: Vec<TransientRecord>) -> (db: Self)
        ensures
            db@ == views_of_records(records@),
    {
        Database { records }
    }

    /// How many records the database holds.
    pub fn len(&self) -> (n: usize)
        ensures
            n == self@.len(),
    {
        self.records.len()
    }
}

/// A singleton sequence contains exactly its one element.
proof fn lemma_singleton_contains(x: Seq<char>, y: Seq<char>)
    ensures
        seq![x].contains(y) <==> x == y,
{
    if x == y {
        assert(seq![x][0] == y);
    }
    if seq![x].contains(y) {
        let i = choose|i: int| 0 <= i < seq![x].len() && seq![x][i] == y;
        assert(seq![x][0] == x);
    }
}

/// Whether one of the strings is exactly `k`.
fn contains_string(v: &Vec<String>, k: &String) -> (b: bool)
    ensures
        b == views_of_strings(v@).contains(k@),
{
    let mut i: usize = 0;
    while i < v.len()
        invariant
            0 <= i <= v@.len(),
            forall|j: int| 0 <= j < i ==> views_of_strings(v@)[j] != k@,
        decreases v@.len() - i,
    {
        if v[i] == *k {
            proof {
                assert(views_of_strings(v@)[i as int] == k@);
            }
            return true;
        }
        i = i + 1;
    }
    false
}

/// Whether a record answers a query, executably.
fn matches_record(r: &TransientRecord, field: Index, key: &Option<String>) -> (b: bool)
    ensures
        b == record_matches(r@, field, opt_key_view(*key)),
{
    match key {
        None => true,
        Some(k) => {
            let b = match field {
                Index::Name => r.name == *k,
                Index::Version => r.version == *k,
                Index::License => r.license == *k,
                Index::Summary => r.summary == *k,
                Index::Description => r.description == *k,
                Index::ProvideName => contains_string(&r.provide_names, k),
                Index::InstFilenames => contains_string(&r.installed_filenames, k),
            };
            proof {
                match field {
                    Index::Name => lemma_singleton_contains(r@.name, k@),
                    Index::Version => lemma_singleton_contains(r@.version, k@),
                    Index::License => lemma_singleton_contains(r@.license, k@),
                    Index::Summary => lemma_singleton_contains(r@.summary, k@),
                    Index::Description => lemma_singleton_contains(r@.description, k@),
                    Index::ProvideName => {},
                    Index::InstFilenames => {},
                }
            }
            b
        },
    }
}

/// The abstract state of a match iterator: what it has still to yield, and
/// whether it has reported exhaustion.
pub ghost struct IterState {
    /// The records still to be yielded, in order.
    pub pending: Seq<FieldsView>,
    /// Whether the iterator has reported exhaustion.
    pub exhausted: bool,
}

/// What one pull does to the abstract state: yield the head of the pending
/// sequence, or report exhaustion once nothing is left.
pub open spec fn advance(s: IterState) -> IterState {
    if s.pending.len() == 0 {
        IterState { pending: s.pending, exhausted: true }
    } else {
        IterState { pending: s.pending.drop_first(), exhausted: s.exhausted }
    }
}

/// The abstract state after `n` pulls.
pub open spec fn advance_n(s: IterState, n: nat) -> IterState
    decreases n,
{
    if n == 0 {
        s
    } else {
        advance_n(advance(s), (n - 1) as nat)
    }
}

/// The lazy, single-pass match iterator over one query's results.
///
/// It owns its position exclusively: it cannot be restarted, and once it has
/// reported exhaustion it reports exhaustion forever.
pub struct MatchIterator {
    matches: Vec<TransientRecord>,
    pos: usize,
    exhausted: bool,
}

impl MatchIterator {
    /// The records still to be yielded, in order.
    pub closed spec fn pending(&self) -> Seq<FieldsView> {
        views_of_records(self.matches@).skip(self.pos as int)
    }

    /// Whether the iterator has reported exhaustion.
    pub closed spec fn is_exhausted(&self) -> bool {
        self.exhausted
    }

    /// The iterator's position never passes its records, and exhaustion is
    /// only ever reported at the end.
    pub closed spec fn wf(&self) -> bool {
        self.pos <= self.matches@.len() && (self.exhausted ==> self.pos == self.matches@.len())
    }

    /// The iterator's abstract state.
    pub open spec fn st(&self) -> IterState {
        IterState { pending: self.pending(), exhausted: self.is_exhausted() }
    }

    /// Open a query over a database snapshot: the iterator will yield
    /// exactly the records answering `(field, key)`, in record order, where
    /// `key = None` matches every record.
    pub fn new(db: &Database, field: Index, key: Option<String>) -> (it: Self)
        ensures
            it.wf(),
            !it.is_exhausted(),
            it.pending() == query_results(db@, field, opt_key_view(key)),
    {
        let ghost k = opt_key_view(key);
        let ghost pred = query_pred(field, k);
        let mut matches: Vec<TransientRecord> = Vec::new();
        let mut i: usize = 0;
        let n = db.records.len();
        while i < n
            invariant
                0 <= i <= db.records@.len(),
                n == db.records@.len(),
                k == opt_key_view(key),
                pred == query_pred(field, k),
                views_of_records(matches@) == db@.take(i as int).filter(pred),
            decreases db.records@.len() - i,
        {
            let ghost prefix = db@.take(i as int);
            let ghost prefix1 = db@.take(i + 1 as int);
            let ghost x = db@[i as int];
            let rec = &db.records[i];
            proof {
                reveal(Seq::filter);
                assert(rec@ == x);
                assert(prefix1.drop_last() =~= prefix);
                assert(prefix1.last() == x);
                assert(prefix1.filter(pred) == prefix.filter(pred) + (if pred(x) {
                    seq![x]
                } else {
                    Seq::<FieldsView>::empty()
                }));
            }
            if matches_record(rec, field, &key) {
                let copied = rec.copy_record();
                let ghost ms = matches@;
                matches.push(copied);
                proof {
                    assert(views_of_records(matches@) =~= views_of_records(ms).push(x));
                    assert(views_of_records(ms).push(x) =~= prefix.filter(pred) + seq![x]);
                }
            } else {
                proof {
                    assert(prefix1.filter(pred) =~= prefix.filter(pred));
                }
            }
            i = i + 1;
        }
        proof {
            assert(db@.take(n as int) =~= db@);
        }
        let it = MatchIterator { matches, pos: 0, exhausted: false };
        proof {
            assert(it.pending() =~= views_of_records(it.matches@));
        }
        it
    }

    /// Pull the next record, or report exhaustion.
    ///
    /// Each yielded record is an owned copy of the head of the pending
    /// sequence; once the sequence is empty the iterator reports exhaustion,
    /// and it keeps reporting exhaustion on every later pull.
    pub fn next(&mut self) -> (r: Option<TransientRecord>)
        requires
            old(self).wf(),
        ensures
            final(self).wf(),
            final(self).st() == advance(old(self).st()),
            match r {
                Some(rec) => old(self).pending().len() > 0 && rec@ == old(self).pending()[0],
                None => old(self).pending().len() == 0 && final(self).is_exhausted(),
            },
            old(self).is_exhausted() ==> final(self).is_exhausted() && r is None,
    {
        if self.pos < self.matches.len() {
            let rec = self.matches[self.pos].copy_record();
            proof {
                assert(views_of_records(self.matches@)[self.pos as int] == rec@);
                assert(old(self).pending()[0] == rec@);
            }
            self.pos = self.pos + 1;
            proof {
                assert(self.pending() =~= old(self).pending().drop_first());
            }
            Some(rec)
        } else {
            self.exhausted = true;
            proof {
                assert(old(self).pending().len() == 0);
                assert(self.pending() =~= old(self).pending());
            }
            None
        }
    }
}

/// An iterator over the database which yields owned [`Package`] values.
pub struct Iter {
    inner: MatchIterator,
}

impl Iter {
    /// The records still to be yielded, in order.
    pub closed spec fn pending(&self) -> Seq<FieldsView> {
        self.inner.pending()
    }

    /// Whether the iterator has reported exhaustion.
    pub closed spec fn is_exhausted(&self) -> bool {
        self.inner.is_exhausted()
    }

    /// The iterator's positions stay in step with its records.
    pub closed spec fn wf(&self) -> bool {
        self.inner.wf()
    }

    /// The iterator's abstract state.
    pub open spec fn st(&self) -> IterState {
        IterState { pending: self.pending(), exhausted: self.is_exhausted() }
    }

    /// Pull the next package, or report exhaustion.
    ///
    /// Yields the head of the pending sequence, materialized into an owned
    /// [`Package`]; once exhausted, every later pull reports exhaustion too.
    pub fn next(&mut self) -> (r: Option<Package>)
        requires
            old(self).wf(),
        ensures
            final(self).wf(),
            final(self).st() == advance(old(self).st()),
            match r {
                Some(p) => old(self).pending().len() > 0 && p@ == old(self).pending()[0],
                None => old(self).pending().len() == 0 && final(self).is_exhausted(),
            },
            old(self).is_exhausted() ==> final(self).is_exhausted() && r is None,
    {
        match self.inner.next() {
            Some(rec) => Some(rec.to_package()),
            None => None,
        }
    }
}

impl Index {
    /// Find the packages whose `self` field exactly matches `key`, in record
    /// order.
    pub fn find(self, db: &Database, key: &str) -> (it: Iter)
        ensures
            it.wf(),
            !it.is_exhausted(),
            it.pending() == query_results(db@, self, Some(key@)),
    {
        let k = String::from_str(key);
        Iter { inner: MatchIterator::new(db, self, Some(k)) }
    }
}

/// Find all packages installed on the local system's database snapshot: one
/// per record, in record order.
pub fn installed_packages(db: &Database) -> (it: Iter)
    ensures
        it.wf(),
        !it.is_exhausted(),
        it.pending() == db@,
        it.pending().len() == db@.len(),
{
    let it = Iter { inner: MatchIterator::new(db, Index::Name, None) };
    proof {
        lemma_match_all(db@, Index::Name);
    }
    it
}

/// Find installed packages whose `index` field exactly matches `key`.
pub fn find(db: &Database, index: Index, key: &str) -> (it: Iter)
    ensures
        it.wf(),
        !it.is_exhausted(),
        it.pending() == query_results(db@, index, Some(key@)),
{
    index.find(db, key)
}

/// A keyless query keeps every record: what `installed_packages` yields is
/// the whole database, one package per installed record, so its count is the
/// database's record count — and, being fixed by the snapshot alone, it is
/// the same on every full drain of an unchanged database.
pub proof fn lemma_match_all(db: Seq<FieldsView>, field: Index)
    ensures
        query_results(db, field, None) == db,
    decreases db.len(),
{
    let pred = query_pred(field, None);
    reveal(Seq::filter);
    if db.len() == 0 {
        assert(db.filter(pred) =~= db);
    } else {
        lemma_match_all(db.drop_last(), field);
        assert(pred(db.last()));
        assert(db.filter(pred) == db.drop_last().filter(pred) + seq![db.last()]);
        assert(db.drop_last() + seq![db.last()] =~= db);
        assert(db.filter(pred) =~= db);
    }
}

/// A query with a key yields only exact matches — every yielded record
/// carries precisely the key under the queried field — and misses none: every
/// matching record of the database is yielded.
pub proof fn lemma_find_matches_exactly(db: Seq<FieldsView>, field: Index, key: Seq<char>)
    ensures
        forall|i: int|
            0 <= i < query_results(db, field, Some(key)).len() ==> field_values(
                #[trigger] query_results(db, field, Some(key))[i],
                field,
            ).contains(key),
        forall|j: int|
            0 <= j < db.len() && field_values(#[trigger] db[j], field).contains(key)
                ==> query_results(db, field, Some(key)).contains(db[j]),
{
    let pred = query_pred(field, Some(key));
    assert forall|i: int|
        0 <= i < query_results(db, field, Some(key)).len() implies field_values(
        #[trigger] query_results(db, field, Some(key))[i],
        field,
    ).contains(key) by {
        db.lemma_filter_pred(pred, i);
    }
    assert forall|j: int|
        0 <= j < db.len() && field_values(#[trigger] db[j], field).contains(key)
        implies query_results(db, field, Some(key)).contains(db[j]) by {
        db.lemma_filter_contains(pred, j);
    }
}

/// Once an iterator has reported exhaustion, every later pull still reports
/// exhaustion: records are never resurrected.
pub proof fn lemma_exhaustion_is_permanent(s: IterState, n: nat)
    requires
        s.exhausted,
    ensures
        advance_n(s, n).exhausted,
    decreases n,
{
    if n > 0 {
        assert(advance(s).exhausted);
        lemma_exhaustion_is_permanent(advance(s), (n - 1) as nat);
    }
}

/// What the `k`-th pull yields was fixed when the iterator was built: after
/// `k` pulls the pending sequence is the original one without its first `k`
/// records, so later pulls can never change — and materializing can never be
/// affected by — a record already yielded.
pub proof fn lemma_pull_sequence(s: IterState, k: nat)
    requires
        k <= s.pending.len(),
    ensures
        advance_n(s, k).pending == s.pending.skip(k as int),
        advance_n(s, k).exhausted == s.exhausted,
    decreases k,
{
    if k == 0 {
        assert(s.pending.skip(0) =~= s.pending);
    } else {
        assert(advance(s).pending == s.pending.drop_first());
        lemma_pull_sequence(advance(s), (k - 1) as nat);
        assert(s.pending.drop_first().skip(k - 1) =~= s.pending.skip(k as int));
    }
}

} // verus!
