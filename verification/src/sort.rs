//! Sorting the collected records by modification time: non-decreasing in the
//! instant, a stable permutation of the input (records with equal instants
//! keep their traversal order).

use vstd::prelude::*;
use vstd::seq_lib::lemma_multiset_commutative;

use crate::entry::FileRecord;
use crate::entry::key_le;

verus! {

/// Non-decreasing in the modification instant.
pub open spec fn sorted_by_mtime(s: Seq<FileRecord>) -> bool {
    forall|i: int, j: int| 0 <= i < j < s.len() ==> key_le(s[i], s[j])
}

/// The records of `s` whose modification instant is exactly `k`, in order.
pub open spec fn with_key(s: Seq<FileRecord>, k: (i64, u32)) -> Seq<FileRecord> {
    s.filter(|r: FileRecord| r.key() == k)
}

/// Stability: for every modification instant, the two sequences hold the same
/// records with that instant, in the same order.
pub open spec fn same_keyed_runs(a: Seq<FileRecord>, b: Seq<FileRecord>) -> bool {
    forall|k: (i64, u32)| #[trigger] with_key(a, k) == with_key(b, k)
}

/// Exec comparison mirroring `key_le`.
fn le(a: &FileRecord, b: &FileRecord) -> (r: bool)
    ensures
        r == key_le(*a, *b),
{
    a.mtime_secs < b.mtime_secs || (a.mtime_secs == b.mtime_secs && a.mtime_nanos
        <= b.mtime_nanos)
}

/// Splitting a sequence splits each key's run.
proof fn lemma_with_key_add(a: Seq<FileRecord>, b: Seq<FileRecord>, k: (i64, u32))
    ensures
        with_key(a + b, k) == with_key(a, k) + with_key(b, k),
{
    Seq::<FileRecord>::filter_distributes_over_add(a, b, |r: FileRecord| r.key() == k);
}

/// A run of records all strictly above `k` contributes nothing to key `k`.
proof fn lemma_with_key_none(s: Seq<FileRecord>, k: (i64, u32))
    requires
        forall|i: int| 0 <= i < s.len() ==> (#[trigger] s[i]).key() != k,
    ensures
        with_key(s, k) =~= Seq::<FileRecord>::empty(),
    decreases s.len(),
{
    reveal(Seq::filter);
    if s.len() > 0 {
        assert forall|i: int| 0 <= i < s.drop_last().len() implies (#[trigger] s.drop_last()[i]).key()
            != k by {
            assert(s.drop_last()[i] == s[i]);
        }
        lemma_with_key_none(s.drop_last(), k);
    }
}

/// One-element sequences filter to themselves or to nothing.
proof fn lemma_with_key_single(x: FileRecord, k: (i64, u32))
    ensures
        with_key(seq![x], k) == (if x.key() == k {
            seq![x]
        } else {
            Seq::<FileRecord>::empty()
        }),
{
    reveal_with_fuel(Seq::filter, 2);
    assert(seq![x].drop_last() =~= Seq::<FileRecord>::empty());
    if x.key() == k {
        assert(with_key(seq![x], k) =~= seq![x]);
    } else {
        assert(with_key(seq![x], k) =~= Seq::<FileRecord>::empty());
    }
}

/// Moving an element left across a run of records with strictly greater keys
/// neither reorders any key's run nor changes the multiset of records.
proof fn lemma_shift_preserves(
    a: Seq<FileRecord>,
    b: Seq<FileRecord>,
    x: FileRecord,
    c: Seq<FileRecord>,
)
    requires
        forall|i: int| 0 <= i < b.len() ==> !key_le(#[trigger] b[i], x),
    ensures
        same_keyed_runs(a + b + seq![x] + c, a + seq![x] + b + c),
        (a + b + seq![x] + c).to_multiset() == (a + seq![x] + b + c).to_multiset(),
{
    let old_s = a + b + seq![x] + c;
    let new_s = a + seq![x] + b + c;
    assert forall|k: (i64, u32)| #[trigger] with_key(old_s, k) == with_key(new_s, k) by {
        lemma_with_key_add(a + b + seq![x], c, k);
        lemma_with_key_add(a + b, seq![x], k);
        lemma_with_key_add(a, b, k);
        lemma_with_key_add(a + seq![x] + b, c, k);
        lemma_with_key_add(a + seq![x], b, k);
        lemma_with_key_add(a, seq![x], k);
        lemma_with_key_single(x, k);
        if k == x.key() {
            assert forall|i: int| 0 <= i < b.len() implies (#[trigger] b[i]).key() != k by {
                assert(!key_le(b[i], x));
            }
            lemma_with_key_none(b, k);
            assert(with_key(old_s, k) =~= with_key(a, k) + seq![x] + with_key(c, k));
            assert(with_key(new_s, k) =~= with_key(a, k) + seq![x] + with_key(c, k));
        } else {
            assert(with_key(old_s, k) =~= with_key(a, k) + with_key(b, k) + with_key(c, k));
            assert(with_key(new_s, k) =~= with_key(a, k) + with_key(b, k) + with_key(c, k));
        }
    }
    lemma_multiset_commutative(a + b + seq![x], c);
    lemma_multiset_commutative(a + b, seq![x]);
    lemma_multiset_commutative(a, b);
    lemma_multiset_commutative(a + seq![x] + b, c);
    lemma_multiset_commutative(a + seq![x], b);
    lemma_multiset_commutative(a, seq![x]);
    assert(old_s.to_multiset() =~= new_s.to_multiset());
}

/// Sort the records by modification instant, in place: afterwards they are
/// non-decreasing in the instant, a permutation of the input, and stable
/// (records with equal instants keep their relative order).
pub fn sort_by_mtime(v: &mut Vec<FileRecord>)
    ensures
        sorted_by_mtime(final(v)@),
        final(v)@.to_multiset() == old(v)@.to_multiset(),
        same_keyed_runs(old(v)@, final(v)@),
{
    let ghost orig = v@;
    if v.len() <= 1 {
        return ;
    }
    let mut i: usize = 1;
    while i < v.len()
        invariant
            1 <= i <= v@.len(),
            v@.len() == orig.len(),
            sorted_by_mtime(v@.subrange(0, i as int)),
            v@.to_multiset() == orig.to_multiset(),
            same_keyed_runs(orig, v@),
        decreases v@.len() - i,
    {
        let ghost pre = v@;
        // Find the insertion point: the first slot from the right whose
        // record's key is not above the moved record's key.
        let mut j: usize = i;
        while j > 0 && !le(&v[j - 1], &v[i])
            invariant
                0 <= j <= i < v@.len(),
                v@ == pre,
                forall|t: int| j <= t < i ==> !key_le(#[trigger] v@[t], v@[i as int]),
            decreases j,
        {
            j = j - 1;
        }
        proof {
            assert(j == 0 || key_le(pre[j as int - 1], pre[i as int]));
        }
        let x = v.remove(i);
        v.insert(j, x);
        proof {
            let a = pre.subrange(0, j as int);
            let b = pre.subrange(j as int, i as int);
            let c = pre.subrange(i as int + 1, pre.len() as int);
            assert(pre =~= a + b + seq![x] + c);
            assert(v@ =~= a + seq![x] + b + c);
            lemma_shift_preserves(a, b, x, c);
            assert forall|k: (i64, u32)| #[trigger] with_key(orig, k) == with_key(v@, k) by {
                assert(with_key(orig, k) == with_key(pre, k));
                assert(with_key(pre, k) == with_key(v@, k));
            }
            assert forall|p: int, q: int| 0 <= p < q < i + 1 implies key_le(
                #[trigger] v@.subrange(0, i as int + 1)[p],
                #[trigger] v@.subrange(0, i as int + 1)[q],
            ) by {
                let sub = pre.subrange(0, i as int);
                assert(sorted_by_mtime(sub));
                assert forall|t1: int, t2: int| 0 <= t1 < t2 < i implies key_le(
                    #[trigger] pre[t1],
                    #[trigger] pre[t2],
                ) by {
                    assert(sub[t1] == pre[t1]);
                    assert(sub[t2] == pre[t2]);
                }
                if p < j {
                    assert(v@[p] == pre[p]);
                }
                if q < j {
                    assert(v@[q] == pre[q]);
                }
                if p > j {
                    assert(v@[p] == pre[p - 1]);
                }
                if q > j {
                    assert(v@[q] == pre[q - 1]);
                }
                if q == j {
                    assert(v@[q] == x);
                }
                if p == j {
                    assert(v@[p] == x);
                    assert(!key_le(pre[q - 1], x));
                }
            }
        }
        i = i + 1;
    }
    proof {
        if v@.len() <= 1 {
            assert(sorted_by_mtime(v@));
        } else {
            assert(v@ =~= v@.subrange(0, v@.len() as int));
        }
    }
}

} // verus!
