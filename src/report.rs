//! Read-only summaries of a final record sequence.
use vstd::prelude::*;
use crate::document::{same_text, views};
use crate::record::{JobRecord, RecordView, Remote};
use crate::strategy::record_views;

verus! {

/// What a count is of: remote records (0), records with a salary (1), or
/// records that list technology `w` (2).
pub open spec fn counted(r: RecordView, kind: int, w: Seq<char>) -> bool {
    if kind == 0 {
        is_remote(r)
    } else if kind == 1 {
        has_salary(r)
    } else {
        uses_technology(r, w)
    }
}

/// How many records of `s` are counted under `kind` and `w`.
pub open spec fn count_where(s: Seq<RecordView>, kind: int, w: Seq<char>) -> nat
    decreases s.len(),
{
    if s.len() == 0 {
        0
    } else {
        count_where(s.drop_last(), kind, w) + if counted(s.last(), kind, w) {
            1nat
        } else {
            0nat
        }
    }
}

pub open spec fn is_remote(r: RecordView) -> bool {
    r.remote == Remote::Yes
}

pub open spec fn has_salary(r: RecordView) -> bool {
    r.salary.len() > 0
}

pub open spec fn uses_technology(r: RecordView, w: Seq<char>) -> bool {
    r.technologies.contains(w)
}

pub proof fn lemma_count_bound(s: Seq<RecordView>, kind: int, w: Seq<char>)
    ensures
        count_where(s, kind, w) <= s.len(),
    decreases s.len(),
{
    if s.len() > 0 {
        lemma_count_bound(s.drop_last(), kind, w);
    }
}

fn count_records(records: &Vec<JobRecord>, kind: u8, w: &Vec<char>) -> (r: usize)
    requires
        kind < 3,
    ensures
        r == count_where(record_views(records@), kind as int, w@),
{
    let ghost rv = record_views(records@);
    let mut n: usize = 0;
    let mut i: usize = 0;
    while i < records.len()
        invariant
            i <= records@.len(),
            rv == record_views(records@),
            kind < 3,
            n == count_where(rv.subrange(0, i as int), kind as int, w@),
        decreases records.len() - i,
    {
        let ghost sub = rv.subrange(0, i as int + 1);
        assert(sub.drop_last() =~= rv.subrange(0, i as int));
        assert(sub.last() == records@[i as int]@);
        proof {
            lemma_count_bound(rv.subrange(0, i as int), kind as int, w@);
        }
        let rec = &records[i];
        let hit = if kind == 0 {
            rec.remote == Remote::Yes
        } else if kind == 1 {
            rec.salary.len() > 0
        } else {
            has_word(&rec.technologies, w)
        };
        if hit {
            n += 1;
        }
        i += 1;
    }
    assert(rv.subrange(0, i as int) =~= rv);
    n
}

fn has_word(v: &Vec<Vec<char>>, w: &Vec<char>) -> (r: bool)
    ensures
        r == views(v@).contains(w@),
{
    let mut i: usize = 0;
    while i < v.len()
        invariant
            i <= v@.len(),
            forall|j: int| 0 <= j < i ==> views(v@)[j] != w@,
        decreases v.len() - i,
    {
        if same_text(&v[i], w) {
            assert(views(v@)[i as int] == w@);
            return true;
        }
        i += 1;
    }
    false
}

/// The number of remote records.
pub fn remote_count(records: &Vec<JobRecord>) -> (r: usize)
    ensures
        r == count_where(record_views(records@), 0, Seq::empty()),
{
    let none: Vec<char> = Vec::new();
    assert(none@ =~= Seq::<char>::empty());
    count_records(records, 0, &none)
}

/// The number of records that state a salary.
pub fn salary_count(records: &Vec<JobRecord>) -> (r: usize)
    ensures
        r == count_where(record_views(records@), 1, Seq::empty()),
{
    let none: Vec<char> = Vec::new();
    assert(none@ =~= Seq::<char>::empty());
    count_records(records, 1, &none)
}

/// For each word of the vocabulary, the number of records that list it as a technology.
pub fn technology_frequency(records: &Vec<JobRecord>, vocab: &Vec<Vec<char>>) -> (r: Vec<usize>)
    ensures
        r@.len() == vocab@.len(),
        forall|i: int| 0 <= i < vocab@.len() ==> #[trigger] r@[i] == count_where(record_views(records@), 2, vocab@[i]@),
{
    let mut r: Vec<usize> = Vec::new();
    let mut i: usize = 0;
    while i < vocab.len()
        invariant
            i <= vocab@.len(),
            r@.len() == i,
            forall|j: int| 0 <= j < i ==> #[trigger] r@[j] == count_where(record_views(records@), 2, vocab@[j]@),
        decreases vocab.len() - i,
    {
        r.push(count_records(records, 2, &vocab[i]));
        i += 1;
    }
    r
}

} // verus!
