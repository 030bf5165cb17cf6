//! The announcement history: an append-only list of records, at most one per key.

use vstd::prelude::*;

verus! {

/// A record that an item was announced.
#[derive(Debug, Clone)]
pub struct HistoryRecord {
    pub key: String,
    pub label: String,
    pub recorded_at: String,
}

/// Some record of `rows` has key `k`.
pub open spec fn has_key(rows: Seq<HistoryRecord>, k: Seq<char>) -> bool {
    exists|i: int| 0 <= i < rows.len() && (#[trigger] rows[i]).key@ == k
}

/// No two records of `rows` share a key.
pub open spec fn keys_unique(rows: Seq<HistoryRecord>) -> bool {
    forall|i: int, j: int| 0 <= i < j < rows.len() ==> rows[i].key@ != rows[j].key@
}

/// The records after recording `rec`: unchanged where its key is already there.
pub open spec fn after_record(rows: Seq<HistoryRecord>, rec: HistoryRecord) -> Seq<HistoryRecord> {
    if has_key(rows, rec.key@) {
        rows
    } else {
        rows.push(rec)
    }
}

/// The records after recording each of `recs` in turn into an empty history.
pub open spec fn recorded_all(recs: Seq<HistoryRecord>) -> Seq<HistoryRecord>
    decreases recs.len(),
{
    if recs.len() == 0 {
        Seq::empty()
    } else {
        after_record(recorded_all(recs.drop_last()), recs.last())
    }
}

/// How many records of `rows` have key `k`.
pub open spec fn key_count(rows: Seq<HistoryRecord>, k: Seq<char>) -> nat
    decreases rows.len(),
{
    if rows.len() == 0 {
        0
    } else {
        key_count(rows.drop_last(), k) + if rows.last().key@ == k {
            1nat
        } else {
            0nat
        }
    }
}

/// The announcement history, held in memory.
pub struct HistoryStore {
    records: Vec<HistoryRecord>,
}

impl HistoryStore {
    /// The records, oldest first.
    pub closed spec fn rows(&self) -> Seq<HistoryRecord> {
        self.records@
    }

    /// An empty history.
    pub fn new() -> (r: HistoryStore)
        ensures
            r.rows() == Seq::<HistoryRecord>::empty(),
    {
        HistoryStore { records: Vec::new() }
    }

    /// How many records there are.
    pub fn len(&self) -> (r: usize)
        ensures
            r == self.rows().len(),
    {
        self.records.len()
    }

    /// Whether a record with `key` exists.
    pub fn contains_key(&self, key: &str) -> (r: bool)
        ensures
            r == has_key(self.rows(), key@),
    {
        let mut i: usize = 0;
        while i < self.records.len()
            invariant
                i <= self.records@.len(),
                forall|j: int| 0 <= j < i ==> (#[trigger] self.records@[j]).key@ != key@,
            decreases self.records@.len() - i,
        {
            if same_text(self.records[i].key.as_str(), key) {
                assert(self.records@[i as int].key@ == key@);
                return true;
            }
            i = i + 1;
        }
        false
    }

    /// Records `rec` unless its key is already recorded; says whether it was
    /// added. The store never holds two records with one key.
    pub fn record(&mut self, rec: HistoryRecord) -> (r: bool)
        ensures
            r == !has_key(old(self).rows(), rec.key@),
            final(self).rows() == after_record(old(self).rows(), rec),
            keys_unique(old(self).rows()) ==> keys_unique(final(self).rows()),
    {
        if self.contains_key(rec.key.as_str()) {
            false
        } else {
            let ghost before = self.records@;
            self.records.push(rec);
            proof {
                if keys_unique(before) {
                    lemma_record_unique(before, rec);
                }
            }
            true
        }
    }

    /// A history holding `recs`, where a later record with an earlier key is
    /// left out.
    pub fn from_records(recs: &Vec<HistoryRecord>) -> (r: HistoryStore)
        ensures
            r.rows() == recorded_all(recs@),
            keys_unique(r.rows()),
            forall|k: Seq<char>| has_key(r.rows(), k) <==> has_key(recs@, k),
    {
        let mut store = HistoryStore::new();
        let mut i: usize = 0;
        while i < recs.len()
            invariant
                i <= recs@.len(),
                keys_unique(store.rows()),
                store.rows() == recorded_all(recs@.subrange(0, i as int)),
                forall|k: Seq<char>|
                    has_key(store.rows(), k) <==> has_key(recs@.subrange(0, i as int), k),
            decreases recs@.len() - i,
        {
            let rec = recs[i].duplicate();
            let ghost before = store.rows();
            store.record(rec);
            proof {
                let pre = recs@.subrange(0, i as int);
                let pre1 = recs@.subrange(0, i as int + 1);
                lemma_after_record_keys(before, rec);
                assert(pre1 == pre.push(recs@[i as int]));
                assert(pre1.drop_last() == pre);
                lemma_push_keys(pre, recs@[i as int]);
                assert forall|k: Seq<char>| has_key(store.rows(), k) <==> has_key(pre1, k) by {
                    assert(has_key(store.rows(), k) <==> (has_key(before, k) || rec.key@ == k));
                    assert(has_key(pre1, k) <==> (has_key(pre, k) || recs@[i as int].key@ == k));
                }
            }
            i = i + 1;
        }
        assert(recs@.subrange(0, recs@.len() as int) == recs@);
        store
    }
}

impl HistoryRecord {
    /// A field-for-field copy of this record.
    pub fn duplicate(&self) -> (r: HistoryRecord)
        ensures
            r == *self,
    {
        HistoryRecord {
            key: self.key.clone(),
            label: self.label.clone(),
            recorded_at: self.recorded_at.clone(),
        }
    }
}

proof fn lemma_push_keys(rows: Seq<HistoryRecord>, rec: HistoryRecord)
    ensures
        forall|k: Seq<char>|
            has_key(rows.push(rec), k) <==> (has_key(rows, k) || rec.key@ == k),
{
    let p = rows.push(rec);
    assert forall|k: Seq<char>| has_key(p, k) <==> (has_key(rows, k) || rec.key@ == k) by {
        if has_key(p, k) {
            let i = choose|i: int| 0 <= i < p.len() && (#[trigger] p[i]).key@ == k;
            if i < rows.len() {
                assert(rows[i] == p[i]);
            }
        }
        if has_key(rows, k) {
            let i = choose|i: int| 0 <= i < rows.len() && (#[trigger] rows[i]).key@ == k;
            assert(p[i] == rows[i]);
        }
        if rec.key@ == k {
            assert(p[rows.len() as int] == rec);
        }
    }
}

/// Recording adds exactly the recorded key to the keys present.
pub proof fn lemma_after_record_keys(rows: Seq<HistoryRecord>, rec: HistoryRecord)
    ensures
        forall|k: Seq<char>|
            has_key(after_record(rows, rec), k) <==> (has_key(rows, k) || rec.key@ == k),
{
    lemma_push_keys(rows, rec);
}

proof fn lemma_record_unique(rows: Seq<HistoryRecord>, rec: HistoryRecord)
    requires
        keys_unique(rows),
    ensures
        keys_unique(after_record(rows, rec)),
{
    if !has_key(rows, rec.key@) {
        let p = rows.push(rec);
        assert forall|i: int, j: int| 0 <= i < j < p.len() implies p[i].key@ != p[j].key@ by {
            assert(p[i] == rows[i]);
            if j < rows.len() {
                assert(p[j] == rows[j]);
            }
        }
    }
}

/// Under unique keys, a key is counted once where present and not at all elsewhere.
pub proof fn lemma_key_count(rows: Seq<HistoryRecord>, k: Seq<char>)
    requires
        keys_unique(rows),
    ensures
        key_count(rows, k) == if has_key(rows, k) {
            1nat
        } else {
            0nat
        },
    decreases rows.len(),
{
    if rows.len() > 0 {
        let d = rows.drop_last();
        assert(keys_unique(d)) by {
            assert forall|i: int, j: int| 0 <= i < j < d.len() implies d[i].key@ != d[j].key@ by {
                assert(d[i] == rows[i] && d[j] == rows[j]);
            }
        }
        lemma_key_count(d, k);
        assert(rows == d.push(rows.last()));
        lemma_push_keys(d, rows.last());
        if rows.last().key@ == k && has_key(d, k) {
            let i = choose|i: int| 0 <= i < d.len() && (#[trigger] d[i]).key@ == k;
            assert(rows[i] == d[i]);
            assert(rows[rows.len() - 1] == rows.last());
        }
    }
}

/// Recording the same key twice leaves one record for it: the second recording
/// changes nothing, and the key is present after the first.
pub proof fn law_record_idempotent(
    rows: Seq<HistoryRecord>,
    first: HistoryRecord,
    second: HistoryRecord,
)
    requires
        keys_unique(rows),
        first.key@ == second.key@,
    ensures
        after_record(after_record(rows, first), second) == after_record(rows, first),
        has_key(after_record(rows, first), first.key@),
        key_count(after_record(after_record(rows, first), second), first.key@) == 1,
        keys_unique(after_record(after_record(rows, first), second)),
{
    lemma_after_record_keys(rows, first);
    lemma_record_unique(rows, first);
    lemma_key_count(after_record(rows, first), first.key@);
}

/// Whether two texts read the same.
pub fn same_text(a: &str, b: &str) -> (r: bool)
    ensures
        r == (a@ == b@),
{
    let n = a.unicode_len();
    if n != b.unicode_len() {
        return false;
    }
    let mut i: usize = 0;
    while i < n
        invariant
            n == a@.len(),
            n == b@.len(),
            i <= n,
            forall|j: int| 0 <= j < i ==> a@[j] == b@[j],
        decreases n - i,
    {
        if a.get_char(i) != b.get_char(i) {
            return false;
        }
        i = i + 1;
    }
    assert(a@ == b@);
    true
}

} // verus!
