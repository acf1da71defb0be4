use vstd::prelude::*;
use crate::position::{is_min_range, Range};
use crate::diagnostic::{DiagnosticReport, FixedContent, RawFinding, RelatedInformation, related_ranges};
use crate::hints::{hint_count, hints_of, holds_hints_of, is_hint_for, related_of, total_hints};
use crate::pipeline::is_file_report;

verus! {

/// Whether two optional lists of related places hold the same ranges and messages.
pub open spec fn same_related(a: Option<Vec<RelatedInformation>>, b: Option<Vec<RelatedInformation>>) -> bool {
    match (a, b) {
        (None, None) => true,
        (Some(x), Some(y)) => x@.len() == y@.len() && forall|k: int|
            0 <= k < x@.len() ==> (#[trigger] x@[k]).range == y@[k].range && x@[k].message@
                == y@[k].message@,
        _ => false,
    }
}

/// Whether two optional fixes replace the same range by the same text.
pub open spec fn same_fix(a: Option<FixedContent>, b: Option<FixedContent>) -> bool {
    match (a, b) {
        (None, None) => true,
        (Some(x), Some(y)) => x.code@ == y.code@ && x.range == y.range,
        _ => false,
    }
}

/// Whether two reports show the same thing: range, severity, message, source, related
/// places and fix.
pub open spec fn same_report(a: DiagnosticReport, b: DiagnosticReport) -> bool {
    &&& a.diagnostic.range == b.diagnostic.range
    &&& a.diagnostic.severity == b.diagnostic.severity
    &&& a.diagnostic.message@ == b.diagnostic.message@
    &&& a.diagnostic.source@ == b.diagnostic.source@
    &&& same_related(a.diagnostic.related_information, b.diagnostic.related_information)
    &&& same_fix(a.fixed_content, b.fixed_content)
}

/// A list of ranges has one lexicographic minimum.
pub proof fn lemma_min_range_unique(a: Range, b: Range, s: Seq<Range>)
    requires
        is_min_range(a, s),
        is_min_range(b, s),
    ensures
        a == b,
{
    let i = choose|i: int| 0 <= i < s.len() && s[i] == a;
    let j = choose|j: int| 0 <= j < s.len() && s[j] == b;
    assert(!crate::position::range_lt(s[i], b));
    assert(!crate::position::range_lt(s[j], a));
}

proof fn lemma_hint_count_same(r1: Seq<RelatedInformation>, r2: Seq<RelatedInformation>, p: Range, n: int)
    requires
        r1.len() == r2.len(),
        0 <= n <= r1.len(),
        forall|k: int| 0 <= k < r1.len() ==> (#[trigger] r1[k]).range == r2[k].range,
    ensures
        hint_count(r1, p, n) == hint_count(r2, p, n),
    decreases n,
{
    if n > 0 {
        lemma_hint_count_same(r1, r2, p, n - 1);
        assert(r1[n - 1].range == r2[n - 1].range);
    }
}

proof fn lemma_total_hints_same(d1: Seq<DiagnosticReport>, d2: Seq<DiagnosticReport>, n: int)
    requires
        d1.len() == d2.len(),
        0 <= n <= d1.len(),
        forall|k: int| 0 <= k < d1.len() ==> same_report(#[trigger] d1[k], d2[k]),
    ensures
        total_hints(d1, n) == total_hints(d2, n),
    decreases n,
{
    if n > 0 {
        lemma_total_hints_same(d1, d2, n - 1);
        assert(same_report(d1[n - 1], d2[n - 1]));
        let r1 = related_of(d1[n - 1].diagnostic);
        let r2 = related_of(d2[n - 1].diagnostic);
        assert forall|k: int| 0 <= k < r1.len() implies (#[trigger] r1[k]).range == r2[k].range by {
            if let (Some(x), Some(y)) = (d1[n - 1].diagnostic.related_information, d2[n - 1].diagnostic.related_information) {
                assert(x@[k].range == y@[k].range);
            }
        }
        lemma_hint_count_same(r1, r2, d1[n - 1].diagnostic.range, r1.len() as int);
    }
}

proof fn lemma_primary_same(
    findings: Seq<RawFinding>,
    text: Seq<u8>,
    r1: Seq<DiagnosticReport>,
    r2: Seq<DiagnosticReport>,
    k: int,
)
    requires
        is_file_report(findings, text, r1),
        is_file_report(findings, text, r2),
        0 <= k < findings.len(),
    ensures
        same_report(r1[k], r2[k]),
{
    let v1 = r1[k].diagnostic.related_information->Some_0;
    let v2 = r2[k].diagnostic.related_information->Some_0;
    assert(crate::pipeline::finding_reported(findings[k], r1[k], text));
    assert(crate::pipeline::finding_reported(findings[k], r2[k], text));
    assert forall|j: int| 0 <= j < v1@.len() implies (#[trigger] v1@[j]).range == v2@[j].range
        && v1@[j].message@ == v2@[j].message@ by {
        assert(v2@[j].range == v2@[j].range);
    }
    assert(related_ranges(v1@) =~= related_ranges(v2@));
    lemma_min_range_unique(r1[k].diagnostic.range, r2[k].diagnostic.range, related_ranges(v1@));
}

proof fn lemma_hint_index_exists(rel: Seq<RelatedInformation>, p: Range, n: int, c: int)
    requires
        0 <= n <= rel.len(),
        0 <= c < hint_count(rel, p, n),
    ensures
        exists|j: int| 0 <= j < n && rel[j].range != p && #[trigger] hint_count(rel, p, j) == c,
    decreases n,
{
    if c < hint_count(rel, p, n - 1) {
        lemma_hint_index_exists(rel, p, n - 1, c);
    } else {
        assert(hint_count(rel, p, n - 1) == c);
    }
}

proof fn lemma_total_index_exists(ds: Seq<DiagnosticReport>, n: int, m: int)
    requires
        0 <= n <= ds.len(),
        0 <= m < total_hints(ds, n),
    ensures
        exists|i: int|
            0 <= i < n && #[trigger] total_hints(ds, i) <= m < total_hints(ds, i) + hints_of(
                ds[i].diagnostic,
            ),
    decreases n,
{
    if m < total_hints(ds, n - 1) {
        lemma_total_index_exists(ds, n - 1, m);
    } else {
        assert(total_hints(ds, n - 1) <= m);
    }
}

/// The diagnostic and related place that the hint at `m` stands for.
proof fn lemma_hint_source(hs: Seq<DiagnosticReport>, ds: Seq<DiagnosticReport>, n: int, m: int) -> (ij: (
    int,
    int,
))
    requires
        0 <= n <= ds.len(),
        holds_hints_of(hs, ds, n),
        0 <= m < total_hints(ds, n),
    ensures
        0 <= ij.0 < n,
        0 <= ij.1 < related_of(ds[ij.0].diagnostic).len(),
        related_of(ds[ij.0].diagnostic)[ij.1].range != ds[ij.0].diagnostic.range,
        total_hints(ds, ij.0) + hint_count(
            related_of(ds[ij.0].diagnostic),
            ds[ij.0].diagnostic.range,
            ij.1,
        ) == m,
        is_hint_for(hs[m], related_of(ds[ij.0].diagnostic)[ij.1], ds[ij.0].diagnostic.range),
{
    lemma_total_index_exists(ds, n, m);
    let i = choose|i: int|
        0 <= i < n && #[trigger] total_hints(ds, i) <= m < total_hints(ds, i) + hints_of(
            ds[i].diagnostic,
        );
    let rel = related_of(ds[i].diagnostic);
    let pr = ds[i].diagnostic.range;
    lemma_hint_index_exists(rel, pr, rel.len() as int, m - total_hints(ds, i));
    let j = choose|j: int|
        0 <= j < rel.len() && rel[j].range != pr && #[trigger] hint_count(rel, pr, j) == m
            - total_hints(ds, i);
    assert(rel[j].range != pr);
    (i, j)
}

proof fn lemma_hints_agree(
    h1: DiagnosticReport,
    h2: DiagnosticReport,
    rel1: RelatedInformation,
    rel2: RelatedInformation,
    pr: Range,
)
    requires
        is_hint_for(h1, rel1, pr),
        is_hint_for(h2, rel2, pr),
        rel1.range == rel2.range,
        rel1.message@ == rel2.message@,
    ensures
        same_report(h1, h2),
{
    let b1 = h1.diagnostic.related_information->Some_0;
    let b2 = h2.diagnostic.related_information->Some_0;
    assert forall|q: int| 0 <= q < b1@.len() implies (#[trigger] b1@[q]).range == b2@[q].range
        && b1@[q].message@ == b2@[q].message@ by {
        assert(q == 0);
    }
}

/// Two lists of hints for diagnostics that show the same things agree place by place.
proof fn lemma_hints_same(
    hs1: Seq<DiagnosticReport>,
    hs2: Seq<DiagnosticReport>,
    ds1: Seq<DiagnosticReport>,
    ds2: Seq<DiagnosticReport>,
    m: int,
)
    requires
        ds1.len() == ds2.len(),
        forall|q: int| 0 <= q < ds1.len() ==> same_report(#[trigger] ds1[q], ds2[q]),
        holds_hints_of(hs1, ds1, ds1.len() as int),
        holds_hints_of(hs2, ds2, ds2.len() as int),
        0 <= m < total_hints(ds1, ds1.len() as int),
    ensures
        same_report(hs1[m], hs2[m]),
{
    let n = ds1.len() as int;
    let (i, j) = lemma_hint_source(hs1, ds1, n, m);
    let rel1 = related_of(ds1[i].diagnostic);
    let rel2 = related_of(ds2[i].diagnostic);
    let pr = ds1[i].diagnostic.range;
    assert(same_report(ds1[i], ds2[i]));
    assert forall|q: int| 0 <= q < rel1.len() implies (#[trigger] rel1[q]).range == rel2[q].range
        && rel1[q].message@ == rel2[q].message@ by {
        let x = ds1[i].diagnostic.related_information->Some_0;
        let y = ds2[i].diagnostic.related_information->Some_0;
        assert(x@[q].range == y@[q].range);
    }
    lemma_hint_count_same(rel1, rel2, pr, j);
    lemma_total_hints_same(ds1, ds2, i);
    assert(rel2[j].range != ds2[i].diagnostic.range);
    assert(is_hint_for(
        hs2[(total_hints(ds2, i) + hint_count(rel2, ds2[i].diagnostic.range, j)) as int],
        rel2[j],
        ds2[i].diagnostic.range,
    ));
    lemma_hints_agree(hs1[m], hs2[m], rel1[j], rel2[j], pr);
}

/// Analyzing the same findings over the same text twice gives the same diagnostics:
/// any two lists that meet the contract of a file's analysis are as long as each other,
/// and agree, place by place, on each diagnostic's range, severity, message, source,
/// related places and fix.
pub proof fn lemma_file_reports_repeatable(
    findings: Seq<RawFinding>,
    text: Seq<u8>,
    r1: Seq<DiagnosticReport>,
    r2: Seq<DiagnosticReport>,
)
    requires
        is_file_report(findings, text, r1),
        is_file_report(findings, text, r2),
    ensures
        r1.len() == r2.len(),
        forall|k: int| 0 <= k < r1.len() ==> same_report(#[trigger] r1[k], r2[k]),
{
    let n = findings.len() as int;
    let p1 = r1.subrange(0, n);
    let p2 = r2.subrange(0, n);
    let s1 = r1.subrange(n, r1.len() as int);
    let s2 = r2.subrange(n, r2.len() as int);
    assert forall|q: int| 0 <= q < n implies same_report(#[trigger] p1[q], p2[q]) by {
        lemma_primary_same(findings, text, r1, r2, q);
    }
    lemma_total_hints_same(p1, p2, n);
    assert forall|k: int| 0 <= k < r1.len() implies same_report(#[trigger] r1[k], r2[k]) by {
        if k < n {
            lemma_primary_same(findings, text, r1, r2, k);
        } else {
            lemma_hints_same(s1, s2, p1, p2, k - n);
            assert(s1[k - n] == r1[k]);
            assert(s2[k - n] == r2[k]);
        }
    }
}

} // verus!
