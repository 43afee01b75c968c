//! Reconciliation of two independently scanned, time-ordered record
//! sequences into one deduplicated sequence.

use vstd::prelude::*;

use crate::errors::ScanError;
use crate::record::{models, OneRecord, RecordModel};

verus! {

/// The ordering invariant of a record sequence: non-increasing by
/// timestamp, newest first.
pub open spec fn is_time_sorted(s: Seq<RecordModel>) -> bool {
    forall|i: int| 0 < i < s.len() ==> #[trigger] s[i].timestamp <= s[i - 1].timestamp
}

/// The last `k` entries of `a` equal — by full field equality — the first
/// `k` entries of `b`.
pub open spec fn overlap_at(a: Seq<RecordModel>, b: Seq<RecordModel>, k: int) -> bool {
    0 <= k <= a.len() && k <= b.len() && a.subrange(a.len() - k, a.len() as int) == b.subrange(
        0,
        k,
    )
}

/// The largest `k <= upto` such that `overlap_at(a, b, k)` holds; 0 when no
/// positive `k` does.
pub open spec fn overlap_len(a: Seq<RecordModel>, b: Seq<RecordModel>, upto: int) -> int
    decreases upto,
{
    if upto <= 0 {
        0
    } else if overlap_at(a, b, upto) {
        upto
    } else {
        overlap_len(a, b, upto - 1)
    }
}

/// What reconciliation answers: the merged sequence together with the
/// number of entries that were not already stored, or nothing where the
/// assembled sequence violates the ordering invariant.
///
/// When either side is empty the result is the other side and every one of
/// its entries counts as added.  Otherwise the side with the later first
/// timestamp is the new side `a`; the largest overlap of `a`'s tail with
/// the old side's head is dropped from `a` and the old side is appended
/// whole.
pub open spec fn merge_model(n: Seq<RecordModel>, o: Seq<RecordModel>) -> Option<
    (Seq<RecordModel>, int),
> {
    if n.len() == 0 {
        Some((o, o.len() as int))
    } else if o.len() == 0 {
        Some((n, n.len() as int))
    } else {
        let a = if n[0].timestamp >= o[0].timestamp {
            n
        } else {
            o
        };
        let b = if n[0].timestamp >= o[0].timestamp {
            o
        } else {
            n
        };
        let upto = if a.len() <= b.len() {
            a.len() as int
        } else {
            b.len() as int
        };
        let k = overlap_len(a, b, upto);
        let merged = a.subrange(0, a.len() - k) + b;
        if is_time_sorted(merged) {
            Some((merged, a.len() - k))
        } else {
            None
        }
    }
}

/// `overlap_len` is pinned down by one witness and the absence of any
/// larger one.
proof fn lemma_overlap_len_is(a: Seq<RecordModel>, b: Seq<RecordModel>, upto: int, k: int)
    requires
        0 <= k <= upto,
        k > 0 ==> overlap_at(a, b, k),
        forall|j: int| k < j <= upto ==> !overlap_at(a, b, j),
    ensures
        overlap_len(a, b, upto) == k,
    decreases upto,
{
    if upto <= 0 {
    } else if overlap_at(a, b, upto) {
        assert(k == upto);
    } else {
        assert(k < upto);
        lemma_overlap_len_is(a, b, upto - 1, k);
    }
}

/// Exact copies of a slice of records.
fn clone_records(s: &[OneRecord]) -> (v: Vec<OneRecord>)
    ensures
        v@ == s@,
{
    let mut v: Vec<OneRecord> = Vec::new();
    let mut i: usize = 0;
    while i < s.len()
        invariant
            i <= s@.len(),
            v@.len() == i,
            forall|j: int| 0 <= j < i ==> v@[j] == s@[j],
        decreases s@.len() - i,
    {
        v.push(s[i].clone());
        i += 1;
    }
    proof {
        assert(v@ =~= s@);
    }
    v
}

/// Whether the `k`-entry tail of `a` equals the `k`-entry head of `b`.
fn ranges_match(a: &[OneRecord], b: &[OneRecord], k: usize) -> (r: bool)
    requires
        k <= a@.len(),
        k <= b@.len(),
    ensures
        r == overlap_at(models(a@), models(b@), k as int),
{
    let a_len = a.len();
    let a_start = a_len - k;
    let mut j: usize = 0;
    while j < k
        invariant
            j <= k,
            k <= a@.len(),
            k <= b@.len(),
            a_len == a@.len(),
            a_start == a_len - k,
            forall|m: int| 0 <= m < j ==> a@[a_start + m]@ == #[trigger] b@[m]@,
        decreases k - j,
    {
        if !(a[a_start + j] == b[j]) {
            proof {
                let am = models(a@);
                let bm = models(b@);
                assert(am.subrange(am.len() - k, am.len() as int)[j as int] == am[a_start + j]);
                assert(bm.subrange(0, k as int)[j as int] == bm[j as int]);
                assert(am[a_start + j] == a@[a_start + j]@);
                assert(bm[j as int] == b@[j as int]@);
            }
            return false;
        }
        j += 1;
    }
    proof {
        let am = models(a@);
        let bm = models(b@);
        assert forall|m: int| 0 <= m < k implies am.subrange(am.len() - k, am.len() as int)[m]
            == bm.subrange(0, k as int)[m] by {
            assert(a@[a_start + m]@ == b@[m]@);
        }
        assert(am.subrange(am.len() - k, am.len() as int) =~= bm.subrange(0, k as int));
    }
    true
}

/// The largest `k <= upto` whose `k`-entry tail of `a` equals the head of
/// `b`, found by scanning downward as the model prescribes.
fn largest_overlap(a: &[OneRecord], b: &[OneRecord], upto: usize) -> (k: usize)
    requires
        upto <= a@.len(),
        upto <= b@.len(),
    ensures
        k as int == overlap_len(models(a@), models(b@), upto as int),
        k <= upto,
{
    let mut i: usize = upto;
    while i >= 1
        invariant
            i <= upto,
            upto <= a@.len(),
            upto <= b@.len(),
            forall|j: int| i < j <= upto ==> !overlap_at(models(a@), models(b@), j),
        decreases i,
    {
        if ranges_match(a, b, i) {
            proof {
                lemma_overlap_len_is(models(a@), models(b@), upto as int, i as int);
            }
            return i;
        }
        i -= 1;
    }
    proof {
        lemma_overlap_len_is(models(a@), models(b@), upto as int, 0);
    }
    0
}

/// Merges a freshly scanned record sequence with a stored one.
///
/// Both sequences are expected newest-first.  The merged sequence and the
/// count of entries that were not yet stored are returned; a merge whose
/// assembled result is not ordered by non-increasing timestamp is rejected
/// as `ReconciliationOrderViolation` and neither input is touched.
pub fn merge_gacha_records(new_records: &[OneRecord], old_records: &[OneRecord]) -> (r: Result<
    (Vec<OneRecord>, u32),
    ScanError,
>)
    requires
        new_records@.len() <= u32::MAX,
        old_records@.len() <= u32::MAX,
    ensures
        (match r {
            Ok(p) => merge_model(models(new_records@), models(old_records@)) == Some(
                (models(p.0@), p.1 as int),
            ),
            Err(e) => e == ScanError::ReconciliationOrderViolation && merge_model(
                models(new_records@),
                models(old_records@),
            ) is None,
        }),
{
    let ghost nm = models(new_records@);
    let ghost om = models(old_records@);
    if new_records.len() == 0 {
        let out = clone_records(old_records);
        proof {
            assert(models(out@) =~= om);
        }
        return Ok((out, old_records.len() as u32));
    }
    if old_records.len() == 0 {
        let out = clone_records(new_records);
        proof {
            assert(models(out@) =~= nm);
        }
        return Ok((out, new_records.len() as u32));
    }

    // The side whose first (newest) timestamp is later is the new side; at
    // most this one swap is ever needed.
    let swapped = new_records[0].timestamp < old_records[0].timestamp;
    let a: &[OneRecord] = if swapped {
        old_records
    } else {
        new_records
    };
    let b: &[OneRecord] = if swapped {
        new_records
    } else {
        old_records
    };
    let ghost am = models(a@);
    let ghost bm = models(b@);
    proof {
        assert(nm[0] == new_records@[0]@);
        assert(om[0] == old_records@[0]@);
    }

    let a_len = a.len();
    let b_len = b.len();
    let upto = if a_len <= b_len {
        a_len
    } else {
        b_len
    };

    // Scan downward for the largest overlap of a's tail with b's head.
    let k = largest_overlap(a, b, upto);
    proof {
        // The model makes the same choice of sides, bound and overlap.
        if new_records@[0].timestamp >= old_records@[0].timestamp {
            assert(am == nm);
            assert(bm == om);
        } else {
            assert(am == om);
            assert(bm == nm);
        }
        assert(am.len() == a@.len());
        assert(bm.len() == b@.len());
    }

    // Assemble: a's entries before its overlapping tail, then all of b.
    let copy_len = a_len - k;
    let mut merged: Vec<OneRecord> = Vec::new();
    let mut i2: usize = 0;
    while i2 < copy_len
        invariant
            i2 <= copy_len,
            copy_len <= a@.len(),
            merged@.len() == i2,
            forall|j: int| 0 <= j < i2 ==> merged@[j] == a@[j],
        decreases copy_len - i2,
    {
        merged.push(a[i2].clone());
        i2 += 1;
    }
    let mut i3: usize = 0;
    while i3 < b_len
        invariant
            i3 <= b@.len(),
            b_len == b@.len(),
            copy_len <= a@.len(),
            merged@.len() == copy_len + i3,
            forall|j: int| 0 <= j < copy_len ==> merged@[j] == a@[j],
            forall|j: int| 0 <= j < i3 ==> merged@[copy_len + j] == b@[j],
        decreases b@.len() - i3,
    {
        merged.push(b[i3].clone());
        i3 += 1;
    }
    proof {
        assert forall|j: int| 0 <= j < merged@.len() implies models(merged@)[j] == (am.subrange(
            0,
            am.len() - k,
        ) + bm)[j] by {
            if j < copy_len {
                assert(merged@[j] == a@[j]);
            } else {
                assert(merged@[j] == b@[j - copy_len]);
            }
        }
        assert(models(merged@) =~= am.subrange(0, am.len() - k) + bm);
    }

    proof {
        let su: int = if am.len() <= bm.len() {
            am.len() as int
        } else {
            bm.len() as int
        };
        assert(su == upto as int);
        assert(overlap_len(am, bm, su) == k as int);
        assert(merge_model(nm, om) == (if is_time_sorted(models(merged@)) {
            Some((models(merged@), (a_len - k) as int))
        } else {
            None::<(Seq<RecordModel>, int)>
        }));
    }

    // The assembled sequence must satisfy the ordering invariant; a
    // violation is reported, never repaired.
    let merged_len = merged.len();
    let mut idx: usize = 1;
    while idx < merged_len
        invariant
            1 <= idx,
            merged_len == merged@.len(),
            nm == models(new_records@),
            om == models(old_records@),
            merge_model(nm, om) == (if is_time_sorted(models(merged@)) {
                Some((models(merged@), (a_len - k) as int))
            } else {
                None::<(Seq<RecordModel>, int)>
            }),
            forall|t: int|
                0 < t < idx ==> #[trigger] models(merged@)[t].timestamp <= models(
                    merged@,
                )[t - 1].timestamp,
        decreases merged_len - idx,
    {
        if merged[idx].timestamp > merged[idx - 1].timestamp {
            proof {
                assert(models(merged@)[idx as int].timestamp > models(
                    merged@,
                )[idx as int - 1].timestamp);
                assert(!is_time_sorted(models(merged@)));
                assert(merge_model(nm, om) is None);
            }
            return Err(ScanError::ReconciliationOrderViolation);
        }
        proof {
            assert(models(merged@)[idx as int].timestamp <= models(
                merged@,
            )[idx as int - 1].timestamp);
        }
        idx += 1;
    }
    proof {
        assert(is_time_sorted(models(merged@)));
        assert(merge_model(nm, om) == Some((models(merged@), (a_len - k) as int)));
    }
    Ok((merged, (a_len - k) as u32))
}

/// Merging with an empty sequence answers the other sequence, every entry
/// of it counted as added, and never fails.
pub proof fn lemma_merge_with_empty(x: Seq<RecordModel>, e: Seq<RecordModel>)
    requires
        e.len() == 0,
    ensures
        merge_model(x, e) == Some((x, x.len() as int)),
        merge_model(e, x) == Some((x, x.len() as int)),
{
    if x.len() == 0 {
        assert(x =~= e);
    }
}

/// Reconciliation does not depend on argument order: as long as the two
/// sides do not start at the very same timestamp, merging answers the same
/// sequence and the same count either way, and fails one way exactly when
/// it fails the other.
pub proof fn lemma_merge_symmetric(x: Seq<RecordModel>, y: Seq<RecordModel>)
    requires
        x.len() == 0 || y.len() == 0 || x[0].timestamp != y[0].timestamp,
    ensures
        merge_model(x, y) == merge_model(y, x),
{
    if x.len() == 0 && y.len() == 0 {
        assert(x =~= y);
    }
}

/// Reconciliation fails exactly when the assembled sequence — the new
/// side without its overlapping tail, then the whole old side — violates
/// the ordering invariant; a violation is reported as such, never
/// silently accepted or repaired.
pub proof fn lemma_merge_fails_exactly_on_disorder(n: Seq<RecordModel>, o: Seq<RecordModel>)
    requires
        n.len() > 0,
        o.len() > 0,
    ensures
        ({
            let a = if n[0].timestamp >= o[0].timestamp {
                n
            } else {
                o
            };
            let b = if n[0].timestamp >= o[0].timestamp {
                o
            } else {
                n
            };
            let upto = if a.len() <= b.len() {
                a.len() as int
            } else {
                b.len() as int
            };
            let k = overlap_len(a, b, upto);
            merge_model(n, o) is None <==> !is_time_sorted(a.subrange(0, a.len() - k) + b)
        }),
{
}

/// A merge that succeeds on two sequences that each satisfy the ordering
/// invariant answers a sequence that satisfies it as well.
pub proof fn lemma_merge_preserves_order(x: Seq<RecordModel>, y: Seq<RecordModel>)
    requires
        is_time_sorted(x),
        is_time_sorted(y),
        merge_model(x, y) is Some,
    ensures
        is_time_sorted(merge_model(x, y)->Some_0.0),
{
}

} // verus!
