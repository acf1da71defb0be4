use vstd::prelude::*;
use vstd::string::*;
use crate::position::Range;
use crate::diagnostic::{Diagnostic, DiagnosticReport, DiagnosticSeverity, RelatedInformation};

verus! {

/// How many of the first `n` related places lie elsewhere than `primary`.
pub open spec fn hint_count(rel: Seq<RelatedInformation>, primary: Range, n: int) -> nat
    decreases n,
{
    if n <= 0 {
        0
    } else if rel[n - 1].range != primary {
        hint_count(rel, primary, n - 1) + 1
    } else {
        hint_count(rel, primary, n - 1)
    }
}

/// The related places of a diagnostic; none where it has no list.
pub open spec fn related_of(d: Diagnostic) -> Seq<RelatedInformation> {
    match d.related_information {
        Some(v) => v@,
        None => Seq::empty(),
    }
}

/// How many hints a diagnostic gives: one per related place other than its own range.
pub open spec fn hints_of(d: Diagnostic) -> nat {
    hint_count(related_of(d), d.range, related_of(d).len() as int)
}

/// Whether `h` is the hint for the related place `rel` of a diagnostic whose range is
/// `primary`: it stands at that place with its message, and points back to `primary`.
pub open spec fn is_hint_for(h: DiagnosticReport, rel: RelatedInformation, primary: Range) -> bool {
    &&& h.diagnostic.range == rel.range
    &&& h.diagnostic.severity == DiagnosticSeverity::Hint
    &&& h.diagnostic.message@ == rel.message@
    &&& h.diagnostic.source@ == "oxc"@
    &&& h.fixed_content.is_none()
    &&& h.diagnostic.related_information matches Some(back) && back@.len() == 1
        && back@[0].range == primary && back@[0].message@ == "original diagnostic"@
}

proof fn lemma_hint_count_bounds(rel: Seq<RelatedInformation>, primary: Range, n: int)
    requires
        0 <= n,
    ensures
        hint_count(rel, primary, n) <= n,
    decreases n,
{
    if n > 0 {
        lemma_hint_count_bounds(rel, primary, n - 1);
    }
}

proof fn lemma_hint_count_grows(rel: Seq<RelatedInformation>, primary: Range, j: int, n: int)
    requires
        0 <= j < n,
        rel[j].range != primary,
    ensures
        hint_count(rel, primary, j) < hint_count(rel, primary, n),
    decreases n,
{
    if j < n - 1 {
        lemma_hint_count_grows(rel, primary, j, n - 1);
    }
}

/// The hints of one diagnostic: for each related place whose range differs from the
/// diagnostic's range, in order, a hint there that points back to the diagnostic.
pub fn inverted_hints(d: &Diagnostic) -> (r: Vec<DiagnosticReport>)
    ensures
        r@.len() == hints_of(*d),
        forall|j: int|
            0 <= j < related_of(*d).len() && (#[trigger] related_of(*d)[j]).range != d.range
                ==> is_hint_for(r@[hint_count(related_of(*d), d.range, j) as int], related_of(*d)[j], d.range),
{
    let mut out: Vec<DiagnosticReport> = Vec::new();
    match &d.related_information {
        None => {},
        Some(rel) => {
            let mut i: usize = 0;
            while i < rel.len()
                invariant
                    i <= rel@.len(),
                    rel@ == related_of(*d),
                    out@.len() == hint_count(rel@, d.range, i as int),
                    forall|j: int|
                        0 <= j < i && (#[trigger] rel@[j]).range != d.range ==> is_hint_for(
                            out@[hint_count(rel@, d.range, j) as int],
                            rel@[j],
                            d.range,
                        ),
                decreases rel@.len() - i,
            {
                proof {
                    lemma_hint_count_bounds(rel@, d.range, i as int);
                }
                let r = &rel[i];
                let ghost prev = out@;
                if r.range != d.range {
                    let mut back: Vec<RelatedInformation> = Vec::new();
                    back.push(RelatedInformation {
                        range: d.range,
                        message: String::from_str("original diagnostic"),
                    });
                    let hint = DiagnosticReport {
                        diagnostic: Diagnostic {
                            range: r.range,
                            severity: DiagnosticSeverity::Hint,
                            message: r.message.clone(),
                            source: String::from_str("oxc"),
                            related_information: Some(back),
                        },
                        fixed_content: None,
                    };
                    out.push(hint);
                }
                proof {
                    assert forall|j: int|
                        0 <= j < i + 1 && (#[trigger] rel@[j]).range != d.range implies is_hint_for(
                            out@[hint_count(rel@, d.range, j) as int],
                            rel@[j],
                            d.range,
                        ) by {
                        if j < i {
                            lemma_hint_count_grows(rel@, d.range, j, i as int);
                            assert(out@[hint_count(rel@, d.range, j) as int] == prev[hint_count(
                                rel@,
                                d.range,
                                j,
                            ) as int]);
                        }
                    }
                }
                i = i + 1;
            }
        },
    }
    out
}


/// How many hints the first `n` diagnostics give together.
pub open spec fn total_hints(ds: Seq<DiagnosticReport>, n: int) -> nat
    decreases n,
{
    if n <= 0 {
        0
    } else {
        total_hints(ds, n - 1) + hints_of(ds[n - 1].diagnostic)
    }
}

proof fn lemma_total_hints_grows(ds: Seq<DiagnosticReport>, i: int, n: int)
    requires
        0 <= i < n,
    ensures
        total_hints(ds, i) + hints_of(ds[i].diagnostic) <= total_hints(ds, n),
    decreases n,
{
    if i < n - 1 {
        lemma_total_hints_grows(ds, i, n - 1);
    }
}

/// Whether `hs` holds, in order, the hints of the first `n` diagnostics of `ds`.
pub open spec fn holds_hints_of(hs: Seq<DiagnosticReport>, ds: Seq<DiagnosticReport>, n: int) -> bool {
    forall|i: int, j: int|
        0 <= i < n && 0 <= j < related_of(ds[i].diagnostic).len() && (#[trigger] related_of(
            ds[i].diagnostic,
        )[j]).range != ds[i].diagnostic.range ==> is_hint_for(
            hs[(total_hints(ds, i) + hint_count(
                related_of(ds[i].diagnostic),
                ds[i].diagnostic.range,
                j,
            )) as int],
            related_of(ds[i].diagnostic)[j],
            ds[i].diagnostic.range,
        )
}

/// The diagnostics of a file followed by their hints: the diagnostics stay as they are,
/// and after them come the hints of each one, diagnostic by diagnostic.
pub fn with_inverted_hints(diagnostics: Vec<DiagnosticReport>) -> (r: Vec<DiagnosticReport>)
    ensures
        r@.len() == diagnostics@.len() + total_hints(diagnostics@, diagnostics@.len() as int),
        r@.subrange(0, diagnostics@.len() as int) == diagnostics@,
        holds_hints_of(
            r@.subrange(diagnostics@.len() as int, r@.len() as int),
            diagnostics@,
            diagnostics@.len() as int,
        ),
{
    let mut diagnostics = diagnostics;
    let ghost ds = diagnostics@;
    let mut extra: Vec<DiagnosticReport> = Vec::new();
    let mut i: usize = 0;
    while i < diagnostics.len()
        invariant
            diagnostics@ == ds,
            i <= ds.len(),
            extra@.len() == total_hints(ds, i as int),
            holds_hints_of(extra@, ds, i as int),
        decreases ds.len() - i,
    {
        let mut hs = inverted_hints(&diagnostics[i].diagnostic);
        let ghost prev = extra@;
        let ghost added = hs@;
        extra.append(&mut hs);
        proof {
            assert forall|ii: int, j: int|
                0 <= ii < i + 1 && 0 <= j < related_of(ds[ii].diagnostic).len() && (#[trigger] related_of(
                    ds[ii].diagnostic,
                )[j]).range != ds[ii].diagnostic.range implies is_hint_for(
                extra@[(total_hints(ds, ii) + hint_count(
                    related_of(ds[ii].diagnostic),
                    ds[ii].diagnostic.range,
                    j,
                )) as int],
                related_of(ds[ii].diagnostic)[j],
                ds[ii].diagnostic.range,
            ) by {
                let rel = related_of(ds[ii].diagnostic);
                lemma_hint_count_grows(rel, ds[ii].diagnostic.range, j, rel.len() as int);
                if ii < i {
                    lemma_total_hints_grows(ds, ii, i as int);
                }
            }
        }
        i = i + 1;
    }
    let ghost before = diagnostics@;
    let ghost hints = extra@;
    diagnostics.append(&mut extra);
    proof {
        assert(diagnostics@.subrange(0, ds.len() as int) =~= ds);
        assert(diagnostics@.subrange(ds.len() as int, diagnostics@.len() as int) =~= hints);
    }
    diagnostics
}

} // verus!
