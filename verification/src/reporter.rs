//! Report aggregation, cross-backend comparison, and CSV rendering.

use vstd::prelude::*;
use crate::results::{BenchmarkResult, BenchmarkReport};
use crate::textfmt::str_eq;
use vstd::string::StringExecFns;

verus! {

/// The canonical (backend-independent) display name of an operation:
/// the native and emulated wide-addition variants share one key; every
/// other name is its own key.
pub open spec fn spec_display_name(op: Seq<char>) -> Seq<char> {
    if op == "u64_add_native"@ || op == "u64_add_emulated"@ {
        "u64_add"@
    } else {
        op
    }
}

/// Canonical display name for an operation name.
pub fn get_display_name<'a>(op: &'a str) -> (r: &'a str)
    ensures
        r@ == spec_display_name(op@),
{
    if str_eq(op, "u64_add_native") || str_eq(op, "u64_add_emulated") {
        "u64_add"
    } else {
        op
    }
}

/// Whether `op` names the wide-addition family: either concrete variant
/// or the canonical key.
pub open spec fn spec_is_wide_add_key(op: Seq<char>) -> bool {
    op == "u64_add_native"@ || op == "u64_add_emulated"@ || op == "u64_add"@
}

/// The concrete operation names equivalent to `op` for comparison
/// matching: both wide-addition variants when `op` belongs to that
/// family, and nothing otherwise.
pub fn get_equivalent_ops(op: &str) -> (r: Vec<&'static str>)
    ensures
        spec_is_wide_add_key(op@) ==> r@.len() == 2 && r@[0]@ == "u64_add_native"@ && r@[1]@
            == "u64_add_emulated"@,
        !spec_is_wide_add_key(op@) ==> r@.len() == 0,
{
    if str_eq(op, "u64_add_native") || str_eq(op, "u64_add_emulated") || str_eq(op, "u64_add") {
        let mut v: Vec<&'static str> = Vec::new();
        v.push("u64_add_native");
        v.push("u64_add_emulated");
        v
    } else {
        Vec::new()
    }
}

/// A result named `result_name` belongs to the comparison row keyed
/// `key`: the name equals the key, or the key is the wide-addition family
/// and the name is one of its concrete variants.
pub open spec fn spec_matches_key(result_name: Seq<char>, key: Seq<char>) -> bool {
    ||| result_name == key
    ||| (spec_is_wide_add_key(key) && (result_name == "u64_add_native"@ || result_name
        == "u64_add_emulated"@))
}

/// Runtime form of `spec_matches_key`.
pub fn matches_key(result_name: &str, key: &str) -> (r: bool)
    ensures
        r == spec_matches_key(result_name@, key@),
{
    if str_eq(result_name, key) {
        return true;
    }
    let wide = str_eq(key, "u64_add_native") || str_eq(key, "u64_add_emulated") || str_eq(
        key,
        "u64_add",
    );
    wide && (str_eq(result_name, "u64_add_native") || str_eq(result_name, "u64_add_emulated"))
}

/// Throughput of the first result in `results` that belongs to the
/// comparison row keyed `key`.
pub open spec fn spec_first_match_gops(results: Seq<BenchmarkResult>, key: Seq<char>) -> Option<
    u128,
>
    decreases results.len(),
{
    if results.len() == 0 {
        Option::None
    } else if spec_matches_key(results[0].operation@, key) {
        Option::Some(results[0].gops_x10000)
    } else {
        spec_first_match_gops(results.skip(1), key)
    }
}

/// Canonical names of all results of `reports`, flattened in report
/// order and insertion order, repeats kept.
pub open spec fn spec_all_canonical_names(reports: Seq<BenchmarkReport>) -> Seq<Seq<char>>
    decreases reports.len(),
{
    if reports.len() == 0 {
        Seq::empty()
    } else {
        spec_all_canonical_names(reports.drop_last()) + reports.last().results@.map_values(
            |r: BenchmarkResult| spec_display_name(r.operation@),
        )
    }
}

/// First occurrences kept in order, repeats dropped.
pub open spec fn spec_dedup(names: Seq<Seq<char>>) -> Seq<Seq<char>>
    decreases names.len(),
{
    if names.len() == 0 {
        Seq::empty()
    } else {
        let p = spec_dedup(names.drop_last());
        if p.contains(names.last()) {
            p
        } else {
            p.push(names.last())
        }
    }
}

/// The fixed comparison priority, derived from the operation model:
/// baseline add, wide add, small-field add and multiply, large-field add
/// and multiply. Names outside this list follow in first-appearance
/// order.
pub open spec fn spec_known_order() -> Seq<Seq<char>> {
    seq![
        "u32_add"@,
        "u64_add"@,
        "mersenne_field_add"@,
        "mersenne_field_mul"@,
        "field_add"@,
        "field_mul"@,
    ]
}

/// Canonical row keys in comparison order: the known names that occur,
/// in priority order, then the remaining names in first-appearance
/// order.
pub open spec fn spec_ordered_canonicals(canon: Seq<Seq<char>>) -> Seq<Seq<char>> {
    spec_known_order().filter(|n: Seq<char>| canon.contains(n)) + canon.filter(
        |n: Seq<char>| !spec_known_order().contains(n),
    )
}

/// Cap on a throughput value entering a ratio, so the exact rounded
/// quotient fits 128 bits. The cap is far beyond any physical
/// throughput.
pub const RATIO_VALUE_CAP: u128 = 0x1_0000_0000_0000_0000_0000_0000;

/// The first-to-second throughput ratio of a two-report comparison row,
/// as a factor scaled by 100 and rounded to nearest (halves up): defined
/// exactly when both sides resolved, the denominator is non-zero, and
/// both values are within `RATIO_VALUE_CAP`.
pub open spec fn spec_ratio_x100(values: Seq<Option<u128>>) -> Option<u128> {
    if values.len() == 2 && values[0] is Some && values[1] is Some {
        let v1 = values[0]->Some_0;
        let v2 = values[1]->Some_0;
        if v2 > 0 && v1 <= RATIO_VALUE_CAP && v2 <= RATIO_VALUE_CAP {
            Option::Some(((200 * (v1 as int) + v2) / (2 * (v2 as int))) as u128)
        } else {
            Option::None
        }
    } else {
        Option::None
    }
}

/// One aligned comparison row: a canonical operation name, the resolved
/// throughput of each report (in row order), and, for a two-report
/// comparison, the first-to-second ratio.
#[derive(Debug)]
pub struct ComparisonRow {
    /// Canonical operation name keying the row.
    pub name: String,
    /// Per-report throughput in ten-thousandths of a GOP/s; absent where
    /// the report has no matching result.
    pub values: Vec<Option<u128>>,
    /// First-to-second throughput factor scaled by 100, for two-report
    /// comparisons where both sides resolve with a non-zero denominator.
    pub ratio_x100: Option<u128>,
}

/// The results of a sequence of reports, concatenated in report order
/// and per-report insertion order.
pub open spec fn spec_merged_results(reports: Seq<BenchmarkReport>) -> Seq<BenchmarkResult>
    decreases reports.len(),
{
    if reports.len() == 0 {
        Seq::empty()
    } else {
        spec_merged_results(reports.drop_last()) + reports.last().results@
    }
}

/// Labels joined with " + " between them.
pub open spec fn spec_joined_labels(labels: Seq<Seq<char>>) -> Seq<char>
    decreases labels.len(),
{
    if labels.len() == 0 {
        Seq::empty()
    } else if labels.len() == 1 {
        labels[0]
    } else {
        spec_joined_labels(labels.drop_last()) + " + "@ + labels.last()
    }
}

/// Merging a pair concatenates the two result sequences.
pub proof fn lemma_merged_results_pair(a: BenchmarkReport, b: BenchmarkReport)
    ensures
        spec_merged_results(seq![a, b]) == a.results@ + b.results@,
{
    let s = seq![a, b];
    assert(s.drop_last() =~= seq![a]);
    assert(seq![a].drop_last() =~= Seq::<BenchmarkReport>::empty());
    assert(spec_merged_results(Seq::<BenchmarkReport>::empty()) =~= Seq::<BenchmarkResult>::empty());
    assert(spec_merged_results(seq![a]) =~= a.results@);
    assert(spec_merged_results(s) =~= a.results@ + b.results@);
}

/// Merging is associative and order-preserving over result sequences:
/// merging a pairwise merge with the remaining report, in either
/// association, carries exactly the concatenation of the three result
/// sequences in report order.
pub proof fn lemma_merge_associative(
    a: BenchmarkReport,
    b: BenchmarkReport,
    c: BenchmarkReport,
    ab: BenchmarkReport,
    bc: BenchmarkReport,
)
    requires
        ab.results@ == spec_merged_results(seq![a, b]),
        bc.results@ == spec_merged_results(seq![b, c]),
    ensures
        spec_merged_results(seq![ab, c]) == spec_merged_results(seq![a, bc]),
        spec_merged_results(seq![ab, c]) == spec_merged_results(seq![a, b, c]),
{
    lemma_merged_results_pair(a, b);
    lemma_merged_results_pair(b, c);
    lemma_merged_results_pair(ab, c);
    lemma_merged_results_pair(a, bc);
    let s = seq![a, b, c];
    assert(s.drop_last() =~= seq![a, b]);
    assert(spec_merged_results(s) == spec_merged_results(seq![a, b]) + c.results@);
    assert((a.results@ + b.results@) + c.results@ =~= a.results@ + (b.results@ + c.results@));
}

/// Merge reports into one combined report: results are concatenated in
/// report order then per-report insertion order (fresh copies, sharing
/// nothing with the sources), and the device and vendor labels are
/// joined with " + ".
pub fn merge_reports(reports: &Vec<BenchmarkReport>) -> (r: BenchmarkReport)
    ensures
        r.results@ == spec_merged_results(reports@),
        r.device_name@ == spec_joined_labels(
            reports@.map_values(|rep: BenchmarkReport| rep.device_name@),
        ),
        r.device_vendor@ == spec_joined_labels(
            reports@.map_values(|rep: BenchmarkReport| rep.device_vendor@),
        ),
{
    let device_name = join_labels(reports, true);
    let device_vendor = join_labels(reports, false);
    let mut combined = BenchmarkReport::new(device_name, device_vendor);
    let n = reports.len();
    let mut k: usize = 0;
    proof {
        assert(reports@.take(0) =~= Seq::<BenchmarkReport>::empty());
    }
    while k < n
        invariant
            k <= n,
            n == reports@.len(),
            combined.results@ == spec_merged_results(reports@.take(k as int)),
            combined.device_name@ == spec_joined_labels(
                reports@.map_values(|rep: BenchmarkReport| rep.device_name@),
            ),
            combined.device_vendor@ == spec_joined_labels(
                reports@.map_values(|rep: BenchmarkReport| rep.device_vendor@),
            ),
        decreases n - k,
    {
        let rep = &reports[k];
        let m = rep.results.len();
        let mut j: usize = 0;
        proof {
            assert(rep.results@.take(0) =~= Seq::<BenchmarkResult>::empty());
        }
        while j < m
            invariant
                j <= m,
                k < n,
                n == reports@.len(),
                m == reports@[k as int].results@.len(),
                rep == &reports[k as int],
                combined.results@ == spec_merged_results(reports@.take(k as int))
                    + reports@[k as int].results@.take(j as int),
                combined.device_name@ == spec_joined_labels(
                    reports@.map_values(|rep: BenchmarkReport| rep.device_name@),
                ),
                combined.device_vendor@ == spec_joined_labels(
                    reports@.map_values(|rep: BenchmarkReport| rep.device_vendor@),
                ),
            decreases m - j,
        {
            combined.add_result(rep.results[j].clone());
            proof {
                assert(reports@[k as int].results@.take(j + 1 as int) =~= reports@[k as int]
                    .results@.take(j as int).push(reports@[k as int].results@[j as int]));
            }
            j += 1;
        }
        proof {
            let pre = reports@.take(k as int);
            let cur = reports@.take(k + 1 as int);
            assert(cur.drop_last() =~= pre);
            assert(cur.last() == reports@[k as int]);
            assert(reports@[k as int].results@.take(m as int) =~= reports@[k as int].results@);
        }
        k += 1;
    }
    proof {
        assert(reports@.take(n as int) =~= reports@);
    }
    combined
}

/// The character-sequence views of a vector of strings.
pub open spec fn views_of(v: Seq<String>) -> Seq<Seq<char>> {
    v.map_values(|t: String| t@)
}

/// Whether `s` occurs among the strings of `v`.
fn contains_name(v: &Vec<String>, s: &str) -> (r: bool)
    ensures
        r == views_of(v@).contains(s@),
{
    let n = v.len();
    let mut i: usize = 0;
    while i < n
        invariant
            i <= n,
            n == v@.len(),
            forall|j: int| 0 <= j < i ==> views_of(v@)[j] != s@,
        decreases n - i,
    {
        if str_eq(v[i].as_str(), s) {
            proof {
                assert(views_of(v@)[i as int] == s@);
            }
            return true;
        }
        proof {
            assert(views_of(v@)[i as int] == v@[i as int]@);
        }
        i += 1;
    }
    proof {
        assert(!views_of(v@).contains(s@)) by {
            if views_of(v@).contains(s@) {
                let j = choose|j: int| 0 <= j < views_of(v@).len() && views_of(v@)[j] == s@;
                assert(views_of(v@)[j] != s@);
            }
        }
    }
    false
}

/// The known priority names, in comparison order.
fn known_names() -> (v: Vec<&'static str>)
    ensures
        v@.map_values(|s: &str| s@) == spec_known_order(),
{
    let mut v: Vec<&'static str> = Vec::new();
    v.push("u32_add");
    v.push("u64_add");
    v.push("mersenne_field_add");
    v.push("mersenne_field_mul");
    v.push("field_add");
    v.push("field_mul");
    proof {
        assert(v@.map_values(|s: &str| s@) =~= spec_known_order());
    }
    v
}

/// Whether `s` is one of the known priority names.
fn known_contains(s: &str) -> (r: bool)
    ensures
        r == spec_known_order().contains(s@),
{
    let r = str_eq(s, "u32_add") || str_eq(s, "u64_add") || str_eq(s, "mersenne_field_add")
        || str_eq(s, "mersenne_field_mul") || str_eq(s, "field_add") || str_eq(s, "field_mul");
    proof {
        let k = spec_known_order();
        if r {
            assert(k.contains(s@)) by {
                if s@ == "u32_add"@ {
                    assert(k[0] == s@);
                } else if s@ == "u64_add"@ {
                    assert(k[1] == s@);
                } else if s@ == "mersenne_field_add"@ {
                    assert(k[2] == s@);
                } else if s@ == "mersenne_field_mul"@ {
                    assert(k[3] == s@);
                } else {
                    assert(k[4] == s@ || k[5] == s@);
                }
            }
        } else {
            assert(!k.contains(s@)) by {
                if k.contains(s@) {
                    let j = choose|j: int| 0 <= j < k.len() && k[j] == s@;
                    assert(0 <= j < 6);
                }
            }
        }
    }
    r
}

/// Throughput of the first result of `report` that belongs to the row
/// keyed `key`.
pub fn first_match_gops(report: &BenchmarkReport, key: &str) -> (r: Option<u128>)
    ensures
        r == spec_first_match_gops(report.results@, key@),
{
    let ghost rs = report.results@;
    let n = report.results.len();
    let mut i: usize = 0;
    proof {
        assert(rs.skip(0) =~= rs);
    }
    while i < n
        invariant
            i <= n,
            n == rs.len(),
            rs == report.results@,
            spec_first_match_gops(rs, key@) == spec_first_match_gops(rs.skip(i as int), key@),
        decreases n - i,
    {
        proof {
            assert(rs.skip(i as int)[0] == rs[i as int]);
            assert(rs.skip(i as int).skip(1) =~= rs.skip(i + 1 as int));
        }
        if matches_key(report.results[i].operation.as_str(), key) {
            return Option::Some(report.results[i].gops_x10000);
        }
        i += 1;
    }
    proof {
        assert(rs.skip(n as int).len() == 0);
    }
    Option::None
}

/// The canonical names occurring in `reports`, first occurrences in
/// order.
fn collect_canonicals(reports: &Vec<BenchmarkReport>) -> (canon: Vec<String>)
    ensures
        views_of(canon@) == spec_dedup(spec_all_canonical_names(reports@)),
{
    let mut canon: Vec<String> = Vec::new();
    let n = reports.len();
    let mut k: usize = 0;
    let ghost display = |r: BenchmarkResult| spec_display_name(r.operation@);
    proof {
        assert(reports@.take(0) =~= Seq::<BenchmarkReport>::empty());
        assert(views_of(canon@) =~= spec_dedup(spec_all_canonical_names(reports@.take(0))));
    }
    while k < n
        invariant
            k <= n,
            n == reports@.len(),
            display == (|r: BenchmarkResult| spec_display_name(r.operation@)),
            views_of(canon@) == spec_dedup(spec_all_canonical_names(reports@.take(k as int))),
        decreases n - k,
    {
        let rep = &reports[k];
        let m = rep.results.len();
        let mut j: usize = 0;
        let ghost processed0 = spec_all_canonical_names(reports@.take(k as int));
        while j < m
            invariant
                j <= m,
                k < n,
                n == reports@.len(),
                m == reports@[k as int].results@.len(),
                rep == &reports[k as int],
                display == (|r: BenchmarkResult| spec_display_name(r.operation@)),
                processed0 == spec_all_canonical_names(reports@.take(k as int)),
                views_of(canon@) == spec_dedup(
                    processed0 + reports@[k as int].results@.take(j as int).map_values(display),
                ),
            decreases m - j,
        {
            let name = get_display_name(rep.results[j].operation.as_str());
            let ghost pre = processed0 + reports@[k as int].results@.take(j as int).map_values(
                display,
            );
            let ghost cur = processed0 + reports@[k as int].results@.take(j + 1 as int).map_values(
                display,
            );
            proof {
                assert(reports@[k as int].results@.take(j + 1 as int).map_values(display)
                    =~= reports@[k as int].results@.take(j as int).map_values(display).push(
                    display(reports@[k as int].results@[j as int]),
                ));
                assert(cur =~= pre.push(name@));
                assert(cur.drop_last() =~= pre);
                assert(cur.last() == name@);
            }
            if !contains_name(&canon, name) {
                let owned = String::from_str(name);
                canon.push(owned);
                proof {
                    assert(views_of(canon@) =~= spec_dedup(pre).push(name@));
                }
            }
            j += 1;
        }
        proof {
            let prefix = reports@.take(k + 1 as int);
            assert(prefix.drop_last() =~= reports@.take(k as int));
            assert(prefix.last() == reports@[k as int]);
            assert(reports@[k as int].results@.take(m as int) =~= reports@[k as int].results@);
            assert(spec_all_canonical_names(prefix) == processed0 + reports@[k as int].results@
                .map_values(display));
        }
        k += 1;
    }
    proof {
        assert(reports@.take(n as int) =~= reports@);
    }
    canon
}

/// The canonical names of `reports` in comparison order: known priority
/// names first, in priority order, then the rest in first-appearance
/// order.
fn ordered_canonicals(reports: &Vec<BenchmarkReport>) -> (ordered: Vec<String>)
    ensures
        views_of(ordered@) == spec_ordered_canonicals(
            spec_dedup(spec_all_canonical_names(reports@)),
        ),
{
    let canon = collect_canonicals(reports);
    let ghost cv = views_of(canon@);
    let known = known_names();
    let ghost kv = spec_known_order();
    let mut ordered: Vec<String> = Vec::new();
    let mut i: usize = 0;
    let ghost in_canon = |n: Seq<char>| cv.contains(n);
    proof {
        assert(kv.take(0) =~= Seq::<Seq<char>>::empty());
        assert(views_of(ordered@) =~= kv.take(0).filter(in_canon));
    }
    while i < known.len()
        invariant
            i <= known@.len(),
            known@.map_values(|s: &str| s@) == kv,
            kv == spec_known_order(),
            cv == views_of(canon@),
            in_canon == (|n: Seq<char>| cv.contains(n)),
            views_of(ordered@) == kv.take(i as int).filter(in_canon),
        decreases known@.len() - i,
    {
        proof {
            reveal(Seq::filter);
            assert(kv.take(i + 1 as int).drop_last() =~= kv.take(i as int));
            assert(kv.take(i + 1 as int).last() == kv[i as int]);
            assert(known@[i as int]@ == kv[i as int]);
        }
        if contains_name(&canon, known[i]) {
            let owned = String::from_str(known[i]);
            ordered.push(owned);
            proof {
                assert(views_of(ordered@) =~= kv.take(i as int).filter(in_canon).push(
                    kv[i as int],
                ));
            }
        }
        i += 1;
    }
    proof {
        assert(kv.take(kv.len() as int) =~= kv);
    }
    let ghost not_known = |n: Seq<char>| !spec_known_order().contains(n);
    let mut j: usize = 0;
    proof {
        assert(cv.take(0) =~= Seq::<Seq<char>>::empty());
        assert(views_of(ordered@) =~= kv.filter(in_canon) + cv.take(0).filter(not_known));
    }
    while j < canon.len()
        invariant
            j <= canon@.len(),
            cv == views_of(canon@),
            kv == spec_known_order(),
            in_canon == (|n: Seq<char>| cv.contains(n)),
            not_known == (|n: Seq<char>| !spec_known_order().contains(n)),
            views_of(ordered@) == kv.filter(in_canon) + cv.take(j as int).filter(not_known),
        decreases canon@.len() - j,
    {
        proof {
            reveal(Seq::filter);
            assert(cv.take(j + 1 as int).drop_last() =~= cv.take(j as int));
            assert(cv.take(j + 1 as int).last() == cv[j as int]);
            assert(canon@[j as int]@ == cv[j as int]);
        }
        if !known_contains(canon[j].as_str()) {
            let owned = canon[j].clone();
            let ghost ov = ordered@;
            ordered.push(owned);
            proof {
                let a = kv.filter(in_canon);
                let b = cv.take(j as int).filter(not_known);
                assert(owned@ == cv[j as int]);
                assert(ordered@ == ov.push(owned));
                assert(views_of(ordered@) =~= views_of(ov).push(owned@));
                assert(views_of(ov) == a + b);
                assert((a + b).push(cv[j as int]) =~= a + b.push(cv[j as int]));
                assert(views_of(ordered@) =~= a + b.push(cv[j as int]));
            }
        }
        j += 1;
    }
    proof {
        assert(cv.take(cv.len() as int) =~= cv);
    }
    ordered
}

/// Align the reports into one comparison row per canonical operation
/// name: rows in canonical order, one resolved throughput per report,
/// and, for exactly two reports, the first-to-second ratio where both
/// sides resolve with a non-zero denominator.
pub fn comparison_rows(reports: &Vec<BenchmarkReport>) -> (rows: Vec<ComparisonRow>)
    ensures
        ({
            let ordered = spec_ordered_canonicals(spec_dedup(spec_all_canonical_names(reports@)));
            &&& rows@.len() == ordered.len()
            &&& forall|i: int|
                0 <= i < rows@.len() ==> {
                    &&& (#[trigger] rows@[i]).name@ == ordered[i]
                    &&& rows@[i].values@.len() == reports@.len()
                    &&& (forall|j: int|
                        0 <= j < reports@.len() ==> rows@[i].values@[j] == spec_first_match_gops(
                            reports@[j].results@,
                            ordered[i],
                        ))
                    &&& rows@[i].ratio_x100 == spec_ratio_x100(rows@[i].values@)
                }
        }),
{
    let ghost ordered_spec = spec_ordered_canonicals(
        spec_dedup(spec_all_canonical_names(reports@)),
    );
    let ordered = ordered_canonicals(reports);
    let mut rows: Vec<ComparisonRow> = Vec::new();
    let nrows = ordered.len();
    let nrep = reports.len();
    let mut i: usize = 0;
    while i < nrows
        invariant
            i <= nrows,
            nrows == ordered@.len(),
            nrep == reports@.len(),
            views_of(ordered@) == ordered_spec,
            rows@.len() == i,
            forall|p: int|
                0 <= p < i ==> {
                    &&& (#[trigger] rows@[p]).name@ == ordered_spec[p]
                    &&& rows@[p].values@.len() == reports@.len()
                    &&& (forall|j: int|
                        0 <= j < reports@.len() ==> rows@[p].values@[j] == spec_first_match_gops(
                            reports@[j].results@,
                            ordered_spec[p],
                        ))
                    &&& rows@[p].ratio_x100 == spec_ratio_x100(rows@[p].values@)
                },
        decreases nrows - i,
    {
        let key = &ordered[i];
        let mut values: Vec<Option<u128>> = Vec::new();
        let mut j: usize = 0;
        while j < nrep
            invariant
                j <= nrep,
                nrep == reports@.len(),
                i < ordered@.len(),
                views_of(ordered@) == ordered_spec,
                key == &ordered@[i as int],
                values@.len() == j,
                forall|q: int|
                    0 <= q < j ==> values@[q] == spec_first_match_gops(
                        reports@[q].results@,
                        ordered_spec[i as int],
                    ),
            decreases nrep - j,
        {
            let v = first_match_gops(&reports[j], key.as_str());
            values.push(v);
            j += 1;
        }
        let ratio_x100: Option<u128> = if nrep == 2 {
            let v1o = values[0];
            let v2o = values[1];
            match (v1o, v2o) {
                (Option::Some(v1), Option::Some(v2)) => {
                    if v2 > 0 && v1 <= RATIO_VALUE_CAP && v2 <= RATIO_VALUE_CAP {
                        Option::Some((200 * v1 + v2) / (2 * v2))
                    } else {
                        Option::None
                    }
                },
                _ => Option::None,
            }
        } else {
            Option::None
        };
        let row = ComparisonRow { name: key.clone(), values, ratio_x100 };
        rows.push(row);
        i += 1;
    }
    rows
}

/// The CSV header row (without the trailing newline).
pub open spec fn spec_csv_header() -> Seq<char> {
    "backend,operation,workgroup_size,total_threads,ops_per_thread,total_operations,min_ns,max_ns,mean_ns,std_dev_ns,gops_per_second,cycles_per_op"@
}

/// One CSV data row for a result (without the trailing newline): the
/// counts as decimal integers, mean and standard deviation with two
/// decimal places, throughput and cycles-per-operation with four, and an
/// empty final field when no cycles value is present.
pub open spec fn spec_csv_row(r: BenchmarkResult) -> Seq<char> {
    r.backend@ + seq![','] + r.operation@ + seq![','] + crate::textfmt::dec_rep(
        r.workgroup_size as int,
    ) + seq![','] + crate::textfmt::dec_rep(r.total_threads as int) + seq![',']
        + crate::textfmt::dec_rep(r.ops_per_thread as int) + seq![','] + crate::textfmt::dec_rep(
        r.total_operations as int,
    ) + seq![','] + crate::textfmt::dec_rep(r.min_ns as int) + seq![','] + crate::textfmt::dec_rep(
        r.max_ns as int,
    ) + seq![','] + crate::textfmt::fixed2_rep(r.mean_ns_x100 as int) + seq![',']
        + crate::textfmt::fixed2_rep(r.std_dev_ns_x100 as int) + seq![',']
        + crate::textfmt::fixed4_rep(r.gops_x10000 as int) + seq![','] + (match r
        .cycles_per_op_x10000 {
        Option::None => Seq::<char>::empty(),
        Option::Some(c) => crate::textfmt::fixed4_rep(c as int),
    })
}

/// The CSV data rows of `results`, each ended by a newline.
pub open spec fn spec_csv_rows(results: Seq<BenchmarkResult>) -> Seq<char>
    decreases results.len(),
{
    if results.len() == 0 {
        Seq::empty()
    } else {
        spec_csv_rows(results.drop_last()) + spec_csv_row(results.last()) + seq!['\n']
    }
}

/// The full CSV document of a report: the header, a newline, and one
/// newline-ended row per result in insertion order.
pub open spec fn spec_csv(report: BenchmarkReport) -> Seq<char> {
    spec_csv_header() + seq!['\n'] + spec_csv_rows(report.results@)
}

/// One CSV data row for `r`, without the trailing newline.
fn csv_row_string(r: &BenchmarkResult) -> (s: String)
    ensures
        s@ == spec_csv_row(*r),
{
    proof {
        reveal_strlit(",");
    }
    let mut s = String::new();
    s.append(r.backend.as_str());
    s.append(",");
    s.append(r.operation.as_str());
    s.append(",");
    let part = crate::textfmt::u64_to_string(r.workgroup_size as u64);
    s.append(part.as_str());
    s.append(",");
    let part = crate::textfmt::u64_to_string(r.total_threads);
    s.append(part.as_str());
    s.append(",");
    let part = crate::textfmt::u64_to_string(r.ops_per_thread as u64);
    s.append(part.as_str());
    s.append(",");
    let part = crate::textfmt::u64_to_string(r.total_operations);
    s.append(part.as_str());
    s.append(",");
    let part = crate::textfmt::u64_to_string(r.min_ns);
    s.append(part.as_str());
    s.append(",");
    let part = crate::textfmt::u64_to_string(r.max_ns);
    s.append(part.as_str());
    s.append(",");
    let part = crate::textfmt::fixed2_to_string(r.mean_ns_x100 as u128);
    s.append(part.as_str());
    s.append(",");
    let part = crate::textfmt::fixed2_to_string(r.std_dev_ns_x100 as u128);
    s.append(part.as_str());
    s.append(",");
    let part = crate::textfmt::fixed4_to_string(r.gops_x10000);
    s.append(part.as_str());
    s.append(",");
    match r.cycles_per_op_x10000 {
        Option::None => {},
        Option::Some(c) => {
            let part = crate::textfmt::fixed4_to_string(c);
            s.append(part.as_str());
        },
    }
    proof {
        assert(s@ =~= spec_csv_row(*r));
    }
    s
}

/// The CSV document of `report`, bit-exact as `spec_csv` describes it.
pub fn csv_string(report: &BenchmarkReport) -> (s: String)
    ensures
        s@ == spec_csv(*report),
{
    proof {
        reveal_strlit(
            "backend,operation,workgroup_size,total_threads,ops_per_thread,total_operations,min_ns,max_ns,mean_ns,std_dev_ns,gops_per_second,cycles_per_op",
        );
        reveal_strlit("\n");
    }
    let mut s = String::from_str(
        "backend,operation,workgroup_size,total_threads,ops_per_thread,total_operations,min_ns,max_ns,mean_ns,std_dev_ns,gops_per_second,cycles_per_op",
    );
    s.append("\n");
    let ghost rs = report.results@;
    let n = report.results.len();
    let mut i: usize = 0;
    proof {
        assert(rs.take(0) =~= Seq::<BenchmarkResult>::empty());
        assert(s@ =~= spec_csv_header() + seq!['\n'] + spec_csv_rows(rs.take(0)));
    }
    while i < n
        invariant
            i <= n,
            n == rs.len(),
            rs == report.results@,
            s@ == spec_csv_header() + seq!['\n'] + spec_csv_rows(rs.take(i as int)),
        decreases n - i,
    {
        let row = csv_row_string(&report.results[i]);
        s.append(row.as_str());
        proof {
            reveal_strlit("\n");
        }
        s.append("\n");
        proof {
            let pre = rs.take(i as int);
            let cur = rs.take(i + 1 as int);
            assert(cur.drop_last() =~= pre);
            assert(cur.last() == rs[i as int]);
            assert(s@ =~= spec_csv_header() + seq!['\n'] + spec_csv_rows(cur));
        }
        i += 1;
    }
    proof {
        assert(rs.take(n as int) =~= rs);
    }
    s
}

/// The device-name labels (or vendor labels) of `reports`, joined with
/// " + " between them.
fn join_labels(reports: &Vec<BenchmarkReport>, use_device_name: bool) -> (r: String)
    ensures
        use_device_name ==> r@ == spec_joined_labels(
            reports@.map_values(|rep: BenchmarkReport| rep.device_name@),
        ),
        !use_device_name ==> r@ == spec_joined_labels(
            reports@.map_values(|rep: BenchmarkReport| rep.device_vendor@),
        ),
{
    let ghost labels = if use_device_name {
        reports@.map_values(|rep: BenchmarkReport| rep.device_name@)
    } else {
        reports@.map_values(|rep: BenchmarkReport| rep.device_vendor@)
    };
    let mut r = String::new();
    let n = reports.len();
    let mut i: usize = 0;
    proof {
        assert(labels.take(0) =~= Seq::<Seq<char>>::empty());
    }
    while i < n
        invariant
            i <= n,
            n == reports@.len(),
            labels.len() == n,
            labels == if use_device_name {
                reports@.map_values(|rep: BenchmarkReport| rep.device_name@)
            } else {
                reports@.map_values(|rep: BenchmarkReport| rep.device_vendor@)
            },
            r@ == spec_joined_labels(labels.take(i as int)),
        decreases n - i,
    {
        proof {
            reveal_strlit(" + ");
            let pre = labels.take(i as int);
            let cur = labels.take(i + 1 as int);
            assert(cur.drop_last() =~= pre);
            assert(cur.last() == labels[i as int]);
        }
        if i > 0 {
            r.append(" + ");
        }
        if use_device_name {
            r.append(reports[i].device_name.as_str());
        } else {
            r.append(reports[i].device_vendor.as_str());
        }
        proof {
            if i == 0 {
                assert(labels.take(1).len() == 1);
                assert(r@ =~= spec_joined_labels(labels.take(1)));
            }
        }
        i += 1;
    }
    proof {
        assert(labels.take(n as int) =~= labels);
    }
    r
}

} // verus!
