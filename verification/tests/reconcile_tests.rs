use snowbreak_gacha_export::errors::ScanError;
use snowbreak_gacha_export::reconcile::merge_gacha_records;
use snowbreak_gacha_export::record::{ItemType, OneRecord};

fn rec(star: u8, name: &str, ts: u64) -> OneRecord {
    OneRecord::new(star, name.to_string(), ItemType::Character, ts)
}

fn ts_of(v: &[OneRecord]) -> Vec<u64> {
    v.iter().map(|r| r.timestamp).collect()
}

#[test]
fn merge_with_empty_old_keeps_new() {
    let a = vec![rec(5, "a", 30), rec(4, "b", 20), rec(3, "c", 10)];
    let (merged, added) = merge_gacha_records(&a, &[]).unwrap();
    assert_eq!(merged, a);
    assert_eq!(added, 3);
}

#[test]
fn merge_with_empty_new_keeps_old_counting_it() {
    let b = vec![rec(5, "a", 30), rec(3, "c", 10)];
    let (merged, added) = merge_gacha_records(&[], &b).unwrap();
    assert_eq!(merged, b);
    assert_eq!(added, 2);
}

#[test]
fn merge_of_two_empties_is_empty() {
    let (merged, added) = merge_gacha_records(&[], &[]).unwrap();
    assert!(merged.is_empty());
    assert_eq!(added, 0);
}

#[test]
fn merge_overlap_case() {
    // old = [t5, t4, t3], new = [t7, t6, t5, t4, t3]
    let old = vec![rec(3, "e", 5), rec(3, "d", 4), rec(3, "c", 3)];
    let new = vec![
        rec(5, "g", 7),
        rec(4, "f", 6),
        rec(3, "e", 5),
        rec(3, "d", 4),
        rec(3, "c", 3),
    ];
    let (merged, added) = merge_gacha_records(&new, &old).unwrap();
    assert_eq!(ts_of(&merged), vec![7, 6, 5, 4, 3]);
    assert_eq!(added, 2);
}

#[test]
fn merge_disjoint_case() {
    // old = [t2, t1], new = [t4, t3]
    let old = vec![rec(3, "b", 2), rec(3, "a", 1)];
    let new = vec![rec(3, "d", 4), rec(3, "c", 3)];
    let (merged, added) = merge_gacha_records(&new, &old).unwrap();
    assert_eq!(ts_of(&merged), vec![4, 3, 2, 1]);
    assert_eq!(added, 2);
}

#[test]
fn merge_is_symmetric_in_its_arguments() {
    let old = vec![rec(3, "b", 2), rec(3, "a", 1)];
    let new = vec![rec(3, "d", 4), rec(3, "c", 3)];
    let (m1, a1) = merge_gacha_records(&new, &old).unwrap();
    let (m2, a2) = merge_gacha_records(&old, &new).unwrap();
    assert_eq!(m1, m2);
    assert_eq!(a1, a2);
}

#[test]
fn merge_of_identical_sequences_adds_nothing() {
    let a = vec![rec(5, "a", 9), rec(4, "b", 8)];
    let (merged, added) = merge_gacha_records(&a, &a).unwrap();
    assert_eq!(merged, a);
    assert_eq!(added, 0);
}

#[test]
fn merge_compares_full_fields_not_only_timestamps() {
    // Same timestamps, different names: no overlap is found, and the
    // concatenation is still ordered, so everything from the new side
    // counts as added.
    let old = vec![rec(3, "x", 5)];
    let new = vec![rec(3, "y", 5)];
    let (merged, added) = merge_gacha_records(&new, &old).unwrap();
    assert_eq!(merged.len(), 2);
    assert_eq!(added, 1);
}

#[test]
fn merge_rejects_interleaved_sequences() {
    // Interleaved timestamps with no overlapping prefix cannot be
    // concatenated in order: the merge reports the violation instead of
    // repairing anything.
    let old = vec![rec(3, "b", 4), rec(3, "a", 1)];
    let new = vec![rec(3, "d", 5), rec(3, "c", 2)];
    let err = merge_gacha_records(&new, &old).unwrap_err();
    assert_eq!(err, ScanError::ReconciliationOrderViolation);
}

#[test]
fn merge_swaps_sides_when_old_is_later() {
    // The freshly scanned side is older: the algorithm treats the stored
    // side as the new one and the result is the same either way.
    let stored = vec![rec(3, "d", 4), rec(3, "c", 3)];
    let scanned = vec![rec(3, "b", 2), rec(3, "a", 1)];
    let (merged, added) = merge_gacha_records(&scanned, &stored).unwrap();
    assert_eq!(ts_of(&merged), vec![4, 3, 2, 1]);
    assert_eq!(added, 2);
}

#[test]
fn merge_content_can_depend_on_order_when_first_timestamps_tie() {
    // Two sequences that start at the very same timestamp: here the
    // merged content genuinely depends on the argument order, which is
    // why the symmetry law excludes exactly this boundary.
    let a = vec![rec(3, "x", 5), rec(3, "y", 5)];
    let b = vec![rec(3, "y", 5), rec(3, "x", 5)];
    let (m1, _) = merge_gacha_records(&a, &b).unwrap();
    let (m2, _) = merge_gacha_records(&b, &a).unwrap();
    let names1: Vec<&str> = m1.iter().map(|r| r.item_name.as_str()).collect();
    let names2: Vec<&str> = m2.iter().map(|r| r.item_name.as_str()).collect();
    assert_eq!(names1, vec!["x", "y", "x"]);
    assert_eq!(names2, vec!["y", "x", "y"]);
}
