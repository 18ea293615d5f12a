//! The deduplicator: keeps the first record of each identity key, the
//! lower-cased title and company joined by a hyphen. Lower-casing is ASCII
//! case folding, the same folding that keyword matching uses.
use vstd::prelude::*;
use crate::text::{lower, push_all, to_lower};
use crate::document::{same_text, views};
use crate::record::{JobRecord, RecordView};
use crate::strategy::record_views;

verus! {

pub open spec fn identity_key(r: RecordView) -> Seq<char> {
    lower(r.title) + seq!['-'] + lower(r.company)
}

/// Some record among the first `n` of `s` has key `k`.
pub open spec fn key_seen(s: Seq<RecordView>, k: Seq<char>, n: int) -> bool {
    exists|j: int| 0 <= j < n && identity_key(#[trigger] s[j]) == k
}

/// The records of `s` whose key no earlier record has, in their order.
pub open spec fn dedup_spec(s: Seq<RecordView>) -> Seq<RecordView>
    decreases s.len(),
{
    if s.len() == 0 {
        Seq::empty()
    } else {
        let p = dedup_spec(s.drop_last());
        if key_seen(s, identity_key(s.last()), s.len() - 1) {
            p
        } else {
            p.push(s.last())
        }
    }
}

/// A key occurs in the output exactly when it occurs in the input.
pub proof fn lemma_dedup_keys(s: Seq<RecordView>)
    ensures
        forall|k: Seq<char>|
            #![trigger key_seen(s, k, s.len() as int)]
            #![trigger key_seen(dedup_spec(s), k, dedup_spec(s).len() as int)]
            key_seen(s, k, s.len() as int) <==> key_seen(dedup_spec(s), k, dedup_spec(s).len() as int),
    decreases s.len(),
{
    if s.len() > 0 {
        let s0 = s.drop_last();
        lemma_dedup_keys(s0);
        let d0 = dedup_spec(s0);
        let d = dedup_spec(s);
        assert forall|k: Seq<char>| key_seen(s, k, s.len() as int) <==> key_seen(d, k, d.len() as int) by {
            if key_seen(s, k, s.len() as int) {
                let j = choose|j: int| 0 <= j < s.len() && identity_key(#[trigger] s[j]) == k;
                if j < s.len() - 1 {
                    assert(s0[j] == s[j]);
                    assert(key_seen(s0, k, s0.len() as int));
                    let m = choose|m: int| 0 <= m < d0.len() && identity_key(#[trigger] d0[m]) == k;
                    assert(d[m] == d0[m]);
                } else if key_seen(s, identity_key(s.last()), s.len() - 1) {
                    let i = choose|i: int| 0 <= i < s.len() - 1 && identity_key(#[trigger] s[i]) == identity_key(s.last());
                    assert(s0[i] == s[i]);
                    assert(key_seen(s0, k, s0.len() as int));
                    let m = choose|m: int| 0 <= m < d0.len() && identity_key(#[trigger] d0[m]) == k;
                    assert(d[m] == d0[m]);
                } else {
                    assert(d[d.len() - 1] == s.last());
                }
            }
            if key_seen(d, k, d.len() as int) {
                let m = choose|m: int| 0 <= m < d.len() && identity_key(#[trigger] d[m]) == k;
                if m < d0.len() {
                    assert(d[m] == d0[m]);
                    assert(key_seen(d0, k, d0.len() as int));
                    assert(key_seen(s0, k, s0.len() as int));
                    let j = choose|j: int| 0 <= j < s0.len() && identity_key(#[trigger] s0[j]) == k;
                    assert(s[j] == s0[j]);
                } else {
                    assert(s[s.len() - 1] == s.last());
                }
            }
        }
    }
}

/// No two records of the output share a key.
pub proof fn lemma_dedup_distinct(s: Seq<RecordView>)
    ensures
        forall|a: int, b: int|
            0 <= a < b < dedup_spec(s).len() ==> identity_key(#[trigger] dedup_spec(s)[a]) != identity_key(#[trigger] dedup_spec(s)[b]),
    decreases s.len(),
{
    if s.len() > 0 {
        let s0 = s.drop_last();
        lemma_dedup_distinct(s0);
        lemma_dedup_keys(s0);
        let d0 = dedup_spec(s0);
        let d = dedup_spec(s);
        assert forall|a: int, b: int| 0 <= a < b < d.len() implies identity_key(#[trigger] d[a]) != identity_key(#[trigger] d[b]) by {
            assert(d[a] == d0[a]);
            if b < d0.len() {
                assert(d[b] == d0[b]);
            } else {
                if identity_key(d[a]) == identity_key(d[b]) {
                    assert(d[b] == s.last());
                    assert(identity_key(d0[a]) == identity_key(s.last()));
                    assert(key_seen(d0, identity_key(s.last()), d0.len() as int));
                    assert(key_seen(s0, identity_key(s.last()), s0.len() as int));
                    let j = choose|j: int| 0 <= j < s0.len() && identity_key(#[trigger] s0[j]) == identity_key(s.last());
                    assert(s[j] == s0[j]);
                }
            }
        }
    }
}

/// Each output record is an input record that no earlier input record shares a key with.
pub proof fn lemma_dedup_first(s: Seq<RecordView>)
    ensures
        forall|m: int| 0 <= m < dedup_spec(s).len() ==> exists|i: int|
            0 <= i < s.len() && #[trigger] dedup_spec(s)[m] == s[i] && !key_seen(s, identity_key(s[i]), i),
    decreases s.len(),
{
    if s.len() > 0 {
        let s0 = s.drop_last();
        lemma_dedup_first(s0);
        let d0 = dedup_spec(s0);
        let d = dedup_spec(s);
        assert forall|m: int| 0 <= m < d.len() implies exists|i: int|
            0 <= i < s.len() && #[trigger] d[m] == s[i] && !key_seen(s, identity_key(s[i]), i) by {
            if m < d0.len() {
                assert(d[m] == d0[m]);
                let i = choose|i: int| 0 <= i < s0.len() && #[trigger] d0[m] == s0[i] && !key_seen(s0, identity_key(s0[i]), i);
                assert(s[i] == s0[i]);
                if key_seen(s, identity_key(s[i]), i) {
                    let j = choose|j: int| 0 <= j < i && identity_key(#[trigger] s[j]) == identity_key(s[i]);
                    assert(s0[j] == s[j]);
                }
            } else {
                let i = s.len() - 1;
                assert(d[m] == s[i]);
            }
        }
    }
}

/// Input with distinct keys passes through unchanged.
pub proof fn lemma_dedup_distinct_unchanged(s: Seq<RecordView>)
    requires
        forall|a: int, b: int| 0 <= a < b < s.len() ==> identity_key(#[trigger] s[a]) != identity_key(#[trigger] s[b]),
    ensures
        dedup_spec(s) == s,
    decreases s.len(),
{
    if s.len() > 0 {
        let s0 = s.drop_last();
        assert forall|a: int, b: int| 0 <= a < b < s0.len() implies identity_key(#[trigger] s0[a]) != identity_key(#[trigger] s0[b]) by {
            assert(s0[a] == s[a] && s0[b] == s[b]);
        }
        lemma_dedup_distinct_unchanged(s0);
        if key_seen(s, identity_key(s.last()), s.len() - 1) {
            let j = choose|j: int| 0 <= j < s.len() - 1 && identity_key(#[trigger] s[j]) == identity_key(s.last());
            assert(identity_key(s[j]) != identity_key(s[s.len() - 1]));
        }
        assert(s0.push(s.last()) =~= s);
    }
}

/// Deduplication keeps, of the records that share an identity key, only the
/// first one, and keeps the order of the records it keeps: no two output
/// records share a key, each output record is the first input record with its
/// key, every input key is still represented, and a second pass changes nothing.
pub proof fn lemma_dedup_correct(s: Seq<RecordView>)
    ensures
        forall|a: int, b: int|
            0 <= a < b < dedup_spec(s).len() ==> identity_key(#[trigger] dedup_spec(s)[a]) != identity_key(#[trigger] dedup_spec(s)[b]),
        forall|m: int| 0 <= m < dedup_spec(s).len() ==> exists|i: int|
            0 <= i < s.len() && #[trigger] dedup_spec(s)[m] == s[i] && !key_seen(s, identity_key(s[i]), i),
        forall|k: Seq<char>| key_seen(s, k, s.len() as int) <==> key_seen(dedup_spec(s), k, dedup_spec(s).len() as int),
        dedup_spec(dedup_spec(s)) == dedup_spec(s),
{
    lemma_dedup_distinct(s);
    lemma_dedup_first(s);
    lemma_dedup_keys(s);
    lemma_dedup_distinct_unchanged(dedup_spec(s));
}

pub fn identity_key_of(r: &JobRecord) -> (k: Vec<char>)
    ensures
        k@ == identity_key(r@),
{
    let mut k = to_lower(&r.title);
    k.push('-');
    push_all(&mut k, &to_lower(&r.company));
    assert(k@ =~= identity_key(r@));
    k
}

fn copy_text(t: &Vec<char>) -> (r: Vec<char>)
    ensures
        r@ == t@,
{
    let mut r: Vec<char> = Vec::new();
    push_all(&mut r, t);
    r
}

fn copy_words(v: &Vec<Vec<char>>) -> (r: Vec<Vec<char>>)
    ensures
        views(r@) == views(v@),
{
    let mut r: Vec<Vec<char>> = Vec::new();
    let mut i: usize = 0;
    while i < v.len()
        invariant
            i <= v@.len(),
            r@.len() == i,
            views(r@) == views(v@).subrange(0, i as int),
        decreases v.len() - i,
    {
        let w = copy_text(&v[i]);
        let ghost r0 = r@;
        r.push(w);
        assert forall|j: int| 0 <= j <= i implies views(r@)[j] == views(v@)[j] by {
            if j < i {
                assert(r@[j] == r0[j]);
                assert(views(r0)[j] == views(v@).subrange(0, i as int)[j]);
            }
        }
        i += 1;
        assert(views(r@) =~= views(v@).subrange(0, i as int));
    }
    assert(views(v@).subrange(0, i as int) =~= views(v@));
    r
}

/// A copy of the record, field for field.
pub fn copy_record(r: &JobRecord) -> (c: JobRecord)
    ensures
        c@ == r@,
{
    JobRecord {
        title: copy_text(&r.title),
        company: copy_text(&r.company),
        location: copy_text(&r.location),
        salary: copy_text(&r.salary),
        job_type: copy_text(&r.job_type),
        experience_level: copy_text(&r.experience_level),
        remote: r.remote,
        technologies: copy_words(&r.technologies),
        description: copy_text(&r.description),
        url: copy_text(&r.url),
        date_posted: copy_text(&r.date_posted),
    }
}

/// Some key of `seen` is `k`.
pub open spec fn seen_has(seen: Seq<Vec<char>>, k: Seq<char>) -> bool {
    exists|m: int| 0 <= m < seen.len() && (#[trigger] seen[m])@ == k
}

fn has_key(seen: &Vec<Vec<char>>, k: &Vec<char>) -> (r: bool)
    ensures
        r == seen_has(seen@, k@),
{
    let mut i: usize = 0;
    while i < seen.len()
        invariant
            i <= seen@.len(),
            forall|m: int| 0 <= m < i ==> (#[trigger] seen@[m])@ != k@,
        decreases seen.len() - i,
    {
        if same_text(&seen[i], k) {
            return true;
        }
        i += 1;
    }
    false
}

/// The records in order, keeping only the first of each identity key.
pub fn deduplicate(records: &Vec<JobRecord>) -> (r: Vec<JobRecord>)
    ensures
        record_views(r@) == dedup_spec(record_views(records@)),
{
    let ghost rv = record_views(records@);
    let mut out: Vec<JobRecord> = Vec::new();
    let mut seen: Vec<Vec<char>> = Vec::new();
    let mut i: usize = 0;
    while i < records.len()
        invariant
            i <= records@.len(),
            rv == record_views(records@),
            record_views(out@) == dedup_spec(rv.subrange(0, i as int)),
            forall|k: Seq<char>| #[trigger] seen_has(seen@, k) <==> key_seen(rv, k, i as int),
        decreases records.len() - i,
    {
        let k = identity_key_of(&records[i]);
        let ghost sub = rv.subrange(0, i as int + 1);
        proof {
            assert(sub.drop_last() =~= rv.subrange(0, i as int));
            assert(sub.last() == rv[i as int]);
            assert(key_seen(sub, k@, i as int) == key_seen(rv, k@, i as int)) by {
                if key_seen(sub, k@, i as int) {
                    let j = choose|j: int| 0 <= j < i && identity_key(#[trigger] sub[j]) == k@;
                    assert(rv[j] == sub[j]);
                }
                if key_seen(rv, k@, i as int) {
                    let j = choose|j: int| 0 <= j < i && identity_key(#[trigger] rv[j]) == k@;
                    assert(rv[j] == sub[j]);
                }
            }
        }
        let ghost old_seen = seen@;
        if !has_key(&seen, &k) {
            out.push(copy_record(&records[i]));
            seen.push(k);
            assert(record_views(out@) =~= dedup_spec(sub));
        } else {
            assert(record_views(out@) =~= dedup_spec(sub));
        }
        proof {
            assert forall|kk: Seq<char>| #[trigger] seen_has(seen@, kk) <==> key_seen(rv, kk, i + 1) by {
                if seen_has(seen@, kk) {
                    let m = choose|m: int| 0 <= m < seen@.len() && (#[trigger] seen@[m])@ == kk;
                    if m < old_seen.len() {
                        assert(old_seen[m] == seen@[m]);
                        assert(seen_has(old_seen, kk));
                        let j = choose|j: int| 0 <= j < i && identity_key(#[trigger] rv[j]) == kk;
                    } else {
                        assert(identity_key(rv[i as int]) == kk);
                    }
                }
                if key_seen(rv, kk, i + 1) {
                    let j = choose|j: int| 0 <= j < i + 1 && identity_key(#[trigger] rv[j]) == kk;
                    if j < i {
                        assert(key_seen(rv, kk, i as int));
                        assert(seen_has(old_seen, kk));
                        let m = choose|m: int| 0 <= m < old_seen.len() && (#[trigger] old_seen[m])@ == kk;
                        assert(seen@[m] == old_seen[m]);
                    } else {
                        assert(identity_key(rv[i as int]) == kk);
                        if seen@.len() == old_seen.len() {
                            let m = choose|m: int| 0 <= m < old_seen.len() && (#[trigger] old_seen[m])@ == k@;
                            assert(seen@[m] == old_seen[m]);
                        } else {
                            assert(seen@[seen@.len() - 1]@ == kk);
                        }
                    }
                }
            }
        }
        i += 1;
    }
    assert(rv.subrange(0, i as int) =~= rv);
    out
}

} // verus!
