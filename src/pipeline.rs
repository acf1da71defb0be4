use vstd::prelude::*;
use vstd::string::*;
use crate::position::{is_min_range, mapped, Range};
use crate::diagnostic::{
    DiagnosticReport, ErrorWithPosition, FixedContent, LabeledSpan, RawFinding, assembled,
    fix_translated, label_end, label_text, related_of_labels, related_ranges, shown_severity,
    RelatedInformation,
    translate_fix,
};
use crate::hints::{holds_hints_of, total_hints, with_inverted_hints};

verus! {

/// The extensions of the dialects that are parsed directly.
pub open spec fn native_extensions() -> Seq<Seq<char>> {
    seq!["js"@, "mjs"@, "cjs"@, "jsx"@, "ts"@, "mts"@, "cts"@, "tsx"@]
}

/// The extensions of the files whose script a partial loader extracts.
pub open spec fn partial_loader_extensions() -> Seq<Seq<char>> {
    seq!["vue"@]
}

/// The extensions of the files that are analyzed.
pub open spec fn wanted_extensions() -> Seq<Seq<char>> {
    native_extensions() + partial_loader_extensions()
}

/// The extensions of the files that are analyzed, in order.
pub fn get_extensions() -> (r: Vec<String>)
    ensures
        r@.map_values(|s: String| s@) == wanted_extensions(),
{
    let mut r: Vec<String> = Vec::new();
    r.push(String::from_str("js"));
    r.push(String::from_str("mjs"));
    r.push(String::from_str("cjs"));
    r.push(String::from_str("jsx"));
    r.push(String::from_str("ts"));
    r.push(String::from_str("mts"));
    r.push(String::from_str("cts"));
    r.push(String::from_str("tsx"));
    r.push(String::from_str("vue"));
    assert(r@.map_values(|s: String| s@) =~= wanted_extensions());
    r
}

/// Whether a file with extension `ext` is analyzed.
pub fn is_wanted_ext(ext: &String) -> (r: bool)
    ensures
        r == wanted_extensions().contains(ext@),
{
    let exts = get_extensions();
    let ghost views = exts@.map_values(|s: String| s@);
    let mut i: usize = 0;
    while i < exts.len()
        invariant
            i <= exts@.len(),
            views == exts@.map_values(|s: String| s@),
            views == wanted_extensions(),
            forall|k: int| 0 <= k < i ==> views[k] != ext@,
        decreases exts@.len() - i,
    {
        if exts[i] == *ext {
            assert(views[i as int] == ext@);
            return true;
        }
        i = i + 1;
    }
    false
}

/// How the analyzable text of a file is had.
#[derive(Clone, Copy, Debug, PartialEq, Eq, Structural)]
pub enum Loader {
    /// The file is in a native dialect and is parsed as it is.
    Direct,
    /// The script is extracted from a template file first.
    Partial,
}

/// How a file with extension `ext` is loaded; `None` where it is not analyzable.
pub fn resolve_loader(ext: &String) -> (r: Option<Loader>)
    ensures
        native_extensions().contains(ext@) ==> r == Some(Loader::Direct),
        !native_extensions().contains(ext@) && partial_loader_extensions().contains(ext@) ==> r
            == Some(Loader::Partial),
        !wanted_extensions().contains(ext@) ==> r.is_none(),
{
    let exts = get_extensions();
    let ghost views = exts@.map_values(|s: String| s@);
    assert(wanted_extensions().len() == 9);
    assert(views.len() == exts@.len());
    let mut i: usize = 0;
    while i < exts.len()
        invariant
            i <= exts@.len(),
            views == exts@.map_values(|s: String| s@),
            exts@.len() == 9,
            views == wanted_extensions(),
            forall|k: int| 0 <= k < i ==> views[k] != ext@,
        decreases exts@.len() - i,
    {
        if exts[i] == *ext {
            assert(views[i as int] == ext@);
            if i < 8 {
                assert(wanted_extensions()[i as int] == native_extensions()[i as int]);
                assert(native_extensions()[i as int] == ext@);
                return Some(Loader::Direct);
            }
            proof {
                assert(native_extensions().len() == 8);
                assert forall|k: int| 0 <= k < 8 implies native_extensions()[k] != ext@ by {
                    assert(wanted_extensions()[k] == native_extensions()[k]);
                }
                assert(wanted_extensions()[8] == partial_loader_extensions()[0]);
                assert(partial_loader_extensions()[0] == ext@);
            }
            return Some(Loader::Partial);
        }
        i = i + 1;
    }
    proof {
        assert(native_extensions().len() == 8);
        assert forall|k: int| 0 <= k < 8 implies native_extensions()[k] != ext@ by {
            assert(wanted_extensions()[k] == native_extensions()[k]);
            assert(views[k] != ext@);
        }
        assert(wanted_extensions()[8] == partial_loader_extensions()[0]);
        assert(views[8] != ext@);
        assert(partial_loader_extensions().len() == 1);
    }
    None
}

/// The stages of a file's analysis whose findings decide what comes next.
#[derive(Clone, Copy, Debug, PartialEq, Eq, Structural)]
pub enum Stage {
    Parse,
    Semantic,
    Rules,
}

/// What the analysis of a file does after a stage.
#[derive(Clone, Debug)]
pub enum Step {
    /// Go on with the given stage.
    Next(Stage),
    /// Stop, and report these findings.
    Report(Vec<RawFinding>),
    /// Stop: the file has nothing to report.
    Clean,
}

/// Whether `out` holds the findings of `inp`, in order, with each fix kept only where
/// `keep_fix` holds.
pub open spec fn same_findings(inp: Seq<RawFinding>, out: Seq<RawFinding>, keep_fix: bool) -> bool {
    &&& out.len() == inp.len()
    &&& forall|k: int|
        0 <= k < inp.len() ==> {
            &&& (#[trigger] out[k]).message == inp[k].message
            &&& out[k].help == inp[k].help
            &&& out[k].severity == inp[k].severity
            &&& out[k].labels == inp[k].labels
            &&& out[k].fix == (if keep_fix {
                inp[k].fix
            } else {
                None
            })
        }
}

/// Keeps or drops the fixes of a list of findings.
fn with_fixes(findings: Vec<RawFinding>, keep_fix: bool) -> (r: Vec<RawFinding>)
    ensures
        same_findings(findings@, r@, keep_fix),
{
    if keep_fix {
        return findings;
    }
    let mut findings = findings;
    let ghost inp = findings@;
    let mut out: Vec<RawFinding> = Vec::new();
    while findings.len() > 0
        invariant
            out@.len() + findings@.len() == inp.len(),
            findings@ == inp.subrange(out@.len() as int, inp.len() as int),
            same_findings(inp.subrange(0, out@.len() as int), out@, false),
        decreases findings@.len(),
    {
        let f = findings.remove(0);
        proof {
            assert(f == inp[out@.len() as int]);
        }
        out.push(
            RawFinding {
                message: f.message,
                help: f.help,
                severity: f.severity,
                labels: f.labels,
                fix: None,
            },
        );
        proof {
            assert(findings@ =~= inp.subrange(out@.len() as int, inp.len() as int));
            assert forall|k: int| 0 <= k < out@.len() implies inp.subrange(0, out@.len() as int)[k]
                == inp[k] by {}
        }
    }
    assert(inp.subrange(0, inp.len() as int) =~= inp);
    out
}

/// Decides what follows a stage of a file's analysis, given that stage's findings.
/// Parse and semantic errors stop the analysis and are reported without fixes; otherwise
/// the next stage runs. The rules' findings end it: none leaves the file clean, and fixes
/// are kept only in fix mode.
pub fn after_stage(stage: Stage, findings: Vec<RawFinding>, fix_mode: bool) -> (r: Step)
    ensures
        stage == Stage::Parse && findings@.len() == 0 ==> r == Step::Next(Stage::Semantic),
        stage == Stage::Semantic && findings@.len() == 0 ==> r == Step::Next(Stage::Rules),
        stage == Stage::Rules && findings@.len() == 0 ==> r == Step::Clean,
        stage != Stage::Rules && findings@.len() > 0 ==> (r matches Step::Report(v) && same_findings(
            findings@,
            v@,
            false,
        )),
        stage == Stage::Rules && findings@.len() > 0 ==> (r matches Step::Report(v) && same_findings(
            findings@,
            v@,
            fix_mode,
        )),
{
    if findings.len() == 0 {
        return match stage {
            Stage::Parse => Step::Next(Stage::Semantic),
            Stage::Semantic => Step::Next(Stage::Rules),
            Stage::Rules => Step::Clean,
        };
    }
    match stage {
        Stage::Rules => Step::Report(with_fixes(findings, fix_mode)),
        _ => Step::Report(with_fixes(findings, false)),
    }
}

/// Whether every finding of a list has at least one label.
pub open spec fn all_labeled(findings: Seq<RawFinding>) -> bool {
    forall|k: int| 0 <= k < findings.len() ==> (#[trigger] findings[k]).labels@.len() >= 1
}

/// Whether `e` is `f` with positions mapped over `text`, and its fix translated.
pub open spec fn positioned(f: RawFinding, e: ErrorWithPosition, text: Seq<u8>) -> bool {
    &&& e.wf()
    &&& e.maps(f, text)
    &&& e.start_pos == e.labels_with_pos@[0].start_pos
    &&& e.end_pos == e.labels_with_pos@[e.labels_with_pos@.len() - 1].end_pos
    &&& e.message == f.message
    &&& e.help == f.help
    &&& e.severity == f.severity
    &&& match f.fix {
        Some(fx) => e.fixed_content matches Some(c) && fix_translated(text, fx, c),
        None => e.fixed_content.is_none(),
    }
}

/// Maps the labels and fixes of a file's findings to positions over its text.
pub fn wrap_diagnostics(findings: Vec<RawFinding>, text: &str) -> (r: Vec<ErrorWithPosition>)
    requires
        all_labeled(findings@),
    ensures
        r@.len() == findings@.len(),
        forall|k: int| 0 <= k < r@.len() ==> positioned(findings@[k], #[trigger] r@[k], text.spec_bytes()),
{
    let mut findings = findings;
    let ghost inp = findings@;
    let mut out: Vec<ErrorWithPosition> = Vec::new();
    while findings.len() > 0
        invariant
            out@.len() + findings@.len() == inp.len(),
            findings@ == inp.subrange(out@.len() as int, inp.len() as int),
            all_labeled(inp),
            forall|k: int| 0 <= k < out@.len() ==> positioned(inp[k], #[trigger] out@[k], text.spec_bytes()),
        decreases findings@.len(),
    {
        let f = findings.remove(0);
        proof {
            assert(f == inp[out@.len() as int]);
        }
        let fixed_content: Option<FixedContent> = match &f.fix {
            Some(fx) => Some(translate_fix(fx, text)),
            None => None,
        };
        let e = ErrorWithPosition::new(f, text, fixed_content);
        out.push(e);
        proof {
            assert(findings@ =~= inp.subrange(out@.len() as int, inp.len() as int));
        }
    }
    out
}

/// Whether `d` is the report of `e`.
pub open spec fn reported(e: ErrorWithPosition, d: DiagnosticReport) -> bool {
    &&& d.fixed_content == e.fixed_content
    &&& d.diagnostic.severity == shown_severity(e.severity)
    &&& d.diagnostic.message@ == assembled(e.message@, e.help)
    &&& d.diagnostic.source@ == "oxc"@
    &&& d.diagnostic.related_information matches Some(v) && related_of_labels(v@, e.labels_with_pos@)
        && is_min_range(d.diagnostic.range, related_ranges(v@))
}

/// Whether `v` holds one related place per labeled span of a file with text `text`, in
/// order: the span's mapped range and its label's text.
pub open spec fn related_of_spans(v: Seq<RelatedInformation>, spans: Seq<LabeledSpan>, text: Seq<u8>) -> bool {
    &&& v.len() == spans.len()
    &&& forall|k: int|
        0 <= k < v.len() ==> {
            &&& (#[trigger] v[k]).range == (Range {
                start: mapped(text, spans[k].offset as int),
                end: label_end(text, spans[k]),
            })
            &&& v[k].message@ == label_text(spans[k].label)
        }
}

/// Whether `d` reports the finding `f` of a file with text `text`: same severity, the
/// assembled message, one related place per label with the least of their ranges as its
/// own, and the fix translated.
pub open spec fn finding_reported(f: RawFinding, d: DiagnosticReport, text: Seq<u8>) -> bool {
    &&& d.diagnostic.severity == shown_severity(f.severity)
    &&& d.diagnostic.message@ == assembled(f.message@, f.help)
    &&& d.diagnostic.source@ == "oxc"@
    &&& d.diagnostic.related_information matches Some(v) && related_of_spans(v@, f.labels@, text)
        && is_min_range(d.diagnostic.range, related_ranges(v@))
    &&& match f.fix {
        Some(fx) => d.fixed_content matches Some(c) && fix_translated(text, fx, c),
        None => d.fixed_content.is_none(),
    }
}

/// The reports of a file's positioned findings, in order.
pub fn to_reports(errors: Vec<ErrorWithPosition>) -> (r: Vec<DiagnosticReport>)
    requires
        forall|k: int| 0 <= k < errors@.len() ==> (#[trigger] errors@[k]).wf(),
    ensures
        r@.len() == errors@.len(),
        forall|k: int| 0 <= k < r@.len() ==> reported(errors@[k], #[trigger] r@[k]),
{
    let mut errors = errors;
    let ghost inp = errors@;
    let mut out: Vec<DiagnosticReport> = Vec::new();
    while errors.len() > 0
        invariant
            out@.len() + errors@.len() == inp.len(),
            errors@ == inp.subrange(out@.len() as int, inp.len() as int),
            forall|k: int| 0 <= k < inp.len() ==> (#[trigger] inp[k]).wf(),
            forall|k: int| 0 <= k < out@.len() ==> reported(inp[k], #[trigger] out@[k]),
        decreases errors@.len(),
    {
        let e = errors.remove(0);
        proof {
            assert(e == inp[out@.len() as int]);
        }
        out.push(e.into_diagnostic_report());
        proof {
            assert(errors@ =~= inp.subrange(out@.len() as int, inp.len() as int));
        }
    }
    out
}

/// Whether `r` is the list of diagnostics of a file with text `text` and findings
/// `findings`: a report for each finding, in order, then the hints of those reports.
pub open spec fn is_file_report(findings: Seq<RawFinding>, text: Seq<u8>, r: Seq<DiagnosticReport>) -> bool {
    let n = findings.len() as int;
    &&& n <= r.len()
    &&& r.len() == n + total_hints(r.subrange(0, n), n)
    &&& forall|k: int| 0 <= k < n ==> finding_reported(findings[k], #[trigger] r[k], text)
    &&& holds_hints_of(r.subrange(n, r.len() as int), r.subrange(0, n), n)
}

/// The diagnostics of one file: a report for each finding, in order, followed by the
/// hints that point from each report's related places back to it.
pub fn file_reports(findings: Vec<RawFinding>, text: &str) -> (r: Vec<DiagnosticReport>)
    requires
        all_labeled(findings@),
    ensures
        is_file_report(findings@, text.spec_bytes(), r@),
{
    let errors = wrap_diagnostics(findings, text);
    let ghost es = errors@;
    let reports = to_reports(errors);
    let ghost rs = reports@;
    let r = with_inverted_hints(reports);
    proof {
        assert forall|k: int| 0 <= k < findings@.len() implies finding_reported(findings@[k], #[trigger] r@[k], text.spec_bytes()) by {
            assert(r@[k] == r@.subrange(0, rs.len() as int)[k]);
            assert(positioned(findings@[k], es[k], text.spec_bytes()));
            assert(reported(es[k], rs[k]));
            let v = r@[k].diagnostic.related_information->Some_0;
            assert forall|j: int| 0 <= j < v@.len() implies (#[trigger] v@[j]).range == (Range {
                start: mapped(text.spec_bytes(), findings@[k].labels@[j].offset as int),
                end: label_end(text.spec_bytes(), findings@[k].labels@[j]),
            }) && v@[j].message@ == label_text(findings@[k].labels@[j].label) by {
                assert(es[k].labels_with_pos@[j].start_pos == mapped(
                    text.spec_bytes(),
                    findings@[k].labels@[j].offset as int,
                ));
            }
        }
    }
    r
}

/// The result of a whole scan: each file that has diagnostics, with them. Files whose
/// list is empty are left out, and the others keep their order.
pub open spec fn nonempty_entries(s: Seq<(String, Vec<DiagnosticReport>)>, n: int) -> Seq<
    (String, Vec<DiagnosticReport>),
>
    decreases n,
{
    if n <= 0 {
        Seq::empty()
    } else if s[n - 1].1@.len() > 0 {
        nonempty_entries(s, n - 1).push(s[n - 1])
    } else {
        nonempty_entries(s, n - 1)
    }
}

/// Gathers the diagnostics of the files of a scan, leaving out the files that have none.
pub fn collect_scan(results: Vec<(String, Vec<DiagnosticReport>)>) -> (r: Vec<
    (String, Vec<DiagnosticReport>),
>)
    ensures
        r@ == nonempty_entries(results@, results@.len() as int),
        forall|k: int| 0 <= k < r@.len() ==> (#[trigger] r@[k]).1@.len() > 0,
{
    let mut results = results;
    let ghost inp = results@;
    let ghost mut taken: int = 0;
    let mut out: Vec<(String, Vec<DiagnosticReport>)> = Vec::new();
    while results.len() > 0
        invariant
            0 <= taken <= inp.len(),
            taken + results@.len() == inp.len(),
            results@ == inp.subrange(taken, inp.len() as int),
            out@ == nonempty_entries(inp, taken),
            forall|k: int| 0 <= k < out@.len() ==> (#[trigger] out@[k]).1@.len() > 0,
        decreases results@.len(),
    {
        let entry = results.remove(0);
        proof {
            assert(entry == inp[taken]);
        }
        if entry.1.len() > 0 {
            out.push(entry);
        }
        proof {
            taken = taken + 1;
            assert(results@ =~= inp.subrange(taken, inp.len() as int));
        }
    }
    out
}

} // verus!
