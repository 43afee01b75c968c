//! The computed part of the spreadsheet export: the sheet's column
//! headers and the per-record pity counters.  Writing the spreadsheet
//! itself happens outside the library.

use vstd::prelude::*;

use crate::language::Language;
use crate::record::{models, spec_pity_count, BannerType, OneRecord, RecordModel};

verus! {

/// The spreadsheet's column headers in the given language.
pub fn headers(language: Language) -> (r: Vec<&'static str>)
    ensures
        r@.len() == 7,
        language == Language::ChineseSimplified ==> r@[0]@ == "品质"@ && r@[1]@ == "名称"@
            && r@[2]@ == "类型"@ && r@[3]@ == "时间"@ && r@[4]@ == "5星后"@ && r@[5]@
            == "5星保底"@ && r@[6]@ == "4星后"@,
        language == Language::English ==> r@[0]@ == "Star"@ && r@[1]@ == "Name"@ && r@[2]@
            == "Type"@ && r@[3]@ == "Time"@ && r@[4]@ == "After 5*"@ && r@[5]@ == "5* Pity"@
            && r@[6]@ == "After 4*"@,
{
    let mut v: Vec<&'static str> = Vec::new();
    match language {
        Language::ChineseSimplified => {
            v.push("品质");
            v.push("名称");
            v.push("类型");
            v.push("时间");
            v.push("5星后");
            v.push("5星保底");
            v.push("4星后");
        },
        Language::English => {
            v.push("Star");
            v.push("Name");
            v.push("Type");
            v.push("Time");
            v.push("After 5*");
            v.push("5* Pity");
            v.push("After 4*");
        },
    }
    v
}

/// The counter pair when record `i` of a newest-first sequence is
/// counted, walking from the oldest record towards the newest: how many
/// pulls since the last five-star and since the last four-star result,
/// both starting at 1 and reset by the records older than `i`.
pub open spec fn spec_counters(s: Seq<RecordModel>, i: int) -> (int, int)
    decreases s.len() - i,
{
    if i >= s.len() - 1 {
        (1, 1)
    } else {
        let p = spec_counters(s, i + 1);
        if s[i + 1].star == 5 {
            (1, p.1 + 1)
        } else if s[i + 1].star == 4 {
            (p.0 + 1, 1)
        } else {
            (p.0 + 1, p.1 + 1)
        }
    }
}

/// The counters never leave `1..=len`.
proof fn lemma_counters_bounds(s: Seq<RecordModel>, i: int)
    requires
        0 <= i < s.len(),
    ensures
        1 <= spec_counters(s, i).0 <= s.len() - i,
        1 <= spec_counters(s, i).1 <= s.len() - i,
    decreases s.len() - i,
{
    if i < s.len() - 1 {
        lemma_counters_bounds(s, i + 1);
    }
}

/// The per-record export columns for one banner's records, newest
/// first: pulls since the last five-star, pulls left to the banner's
/// five-star pity (never below zero), and pulls since the last
/// four-star.
pub fn get_other_data(one_records: &Vec<OneRecord>, banner_type: BannerType) -> (r: (
    Vec<u32>,
    Vec<u32>,
    Vec<u32>,
))
    requires
        one_records@.len() < u32::MAX,
    ensures
        r.0@.len() == one_records@.len(),
        r.1@.len() == one_records@.len(),
        r.2@.len() == one_records@.len(),
        forall|i: int|
            0 <= i < one_records@.len() ==> #[trigger] r.0@[i] == spec_counters(
                models(one_records@),
                i,
            ).0,
        forall|i: int|
            0 <= i < one_records@.len() ==> #[trigger] r.2@[i] == spec_counters(
                models(one_records@),
                i,
            ).1,
        forall|i: int|
            0 <= i < one_records@.len() ==> #[trigger] r.1@[i] == (if spec_counters(
                models(one_records@),
                i,
            ).0 <= spec_pity_count(banner_type) {
                spec_pity_count(banner_type) - spec_counters(models(one_records@), i).0
            } else {
                0
            }),
{
    let ghost m = models(one_records@);
    let n = one_records.len();
    let pity = banner_type.pity_count();

    // Walk from the oldest record to the newest, keeping the counters.
    let mut t5: Vec<u32> = Vec::new();
    let mut t4: Vec<u32> = Vec::new();
    let mut c5: u32 = 1;
    let mut c4: u32 = 1;
    let mut i: usize = n;
    while i > 0
        invariant
            i <= n,
            n == one_records@.len(),
            n < u32::MAX,
            m == models(one_records@),
            t5@.len() == n - i,
            t4@.len() == n - i,
            i > 0 ==> c5 == spec_counters(m, i - 1).0 && c4 == spec_counters(m, i - 1).1,
            forall|k: int|
                0 <= k < n - i ==> #[trigger] t5@[k] == spec_counters(m, n - 1 - k).0,
            forall|k: int|
                0 <= k < n - i ==> #[trigger] t4@[k] == spec_counters(m, n - 1 - k).1,
        decreases i,
    {
        i -= 1;
        proof {
            lemma_counters_bounds(m, i as int);
        }
        t5.push(c5);
        t4.push(c4);
        // Update for the next (newer) record using this record's tier.
        let star = one_records[i].star;
        proof {
            assert(m[i as int].star == one_records@[i as int].star);
            assert(c5 <= n && c4 <= n);
            if i > 0 {
                assert(spec_counters(m, i - 1) == (if m[i as int].star == 5 {
                    (1int, c4 + 1)
                } else if m[i as int].star == 4 {
                    (c5 + 1, 1int)
                } else {
                    (c5 + 1, c4 + 1)
                }));
            }
        }
        if star == 5 {
            c4 = c4 + 1;
            c5 = 1;
        } else if star == 4 {
            c4 = 1;
            c5 = c5 + 1;
        } else {
            c5 = c5 + 1;
            c4 = c4 + 1;
        }
    }

    // Turn the oldest-first walks back into newest-first columns.
    let mut out5: Vec<u32> = Vec::new();
    let mut out_pity: Vec<u32> = Vec::new();
    let mut out4: Vec<u32> = Vec::new();
    let mut j: usize = 0;
    while j < n
        invariant
            j <= n,
            n == one_records@.len(),
            m == models(one_records@),
            t5@.len() == n,
            t4@.len() == n,
            forall|k: int| 0 <= k < n ==> #[trigger] t5@[k] == spec_counters(m, n - 1 - k).0,
            forall|k: int| 0 <= k < n ==> #[trigger] t4@[k] == spec_counters(m, n - 1 - k).1,
            out5@.len() == j,
            out_pity@.len() == j,
            out4@.len() == j,
            pity == spec_pity_count(banner_type),
            forall|k: int| 0 <= k < j ==> #[trigger] out5@[k] == spec_counters(m, k).0,
            forall|k: int| 0 <= k < j ==> #[trigger] out4@[k] == spec_counters(m, k).1,
            forall|k: int|
                0 <= k < j ==> #[trigger] out_pity@[k] == (if spec_counters(m, k).0
                    <= spec_pity_count(banner_type) {
                    spec_pity_count(banner_type) - spec_counters(m, k).0
                } else {
                    0
                }),
        decreases n - j,
    {
        let v5 = t5[n - 1 - j];
        let v4 = t4[n - 1 - j];
        out5.push(v5);
        out4.push(v4);
        if v5 <= pity {
            out_pity.push(pity - v5);
        } else {
            out_pity.push(0);
        }
        j += 1;
    }
    (out5, out_pity, out4)
}

} // verus!
