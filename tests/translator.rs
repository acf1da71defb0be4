use oxc_lint_server::diagnostic::{
    assemble_message, DiagnosticReport, DiagnosticSeverity, ErrorWithPosition, Fix, LabeledSpan,
    RawFinding, Severity,
};
use oxc_lint_server::hints::{inverted_hints, with_inverted_hints};
use oxc_lint_server::idx::Idx;
use oxc_lint_server::pipeline::{
    after_stage, collect_scan, file_reports, get_extensions, is_wanted_ext, resolve_loader, Loader,
    Stage, Step,
};
use oxc_lint_server::position::{
    cmp_range, min_range, offset_to_position, position_or_default, Position, Range,
};

fn pos(line: u32, character: u32) -> Position {
    Position { line, character }
}

fn range(a: (u32, u32), b: (u32, u32)) -> Range {
    Range { start: pos(a.0, a.1), end: pos(b.0, b.1) }
}

fn span(offset: usize, len: usize, label: Option<&str>) -> LabeledSpan {
    LabeledSpan { offset, len, label: label.map(|s| s.to_string()) }
}

fn finding(labels: Vec<LabeledSpan>, fix: Option<Fix>) -> RawFinding {
    RawFinding {
        message: "bad".to_string(),
        help: None,
        severity: Severity::Error,
        labels,
        fix,
    }
}

const THREE_LINES: &str = "let a = 1;\nlet b = 2;\nlet c = 3;\n";

#[test]
fn offset_maps_to_line_and_column() {
    let text = "ab\ncd\nef";
    assert_eq!(offset_to_position(0, text), Some(pos(0, 0)));
    assert_eq!(offset_to_position(4, text), Some(pos(1, 1)));
    assert_eq!(offset_to_position(6, text), Some(pos(2, 0)));
    assert_eq!(offset_to_position(8, text), Some(pos(2, 2)));
}

#[test]
fn offset_round_trips_through_line_start() {
    let text = THREE_LINES;
    let line_starts = [0u32, 11, 22, 33];
    for offset in 0..=text.len() {
        let p = offset_to_position(offset, text).unwrap();
        assert_eq!(line_starts[p.line as usize] + p.character, offset as u32);
    }
}

#[test]
fn out_of_range_offset_gives_default() {
    assert_eq!(offset_to_position(100, "abc"), None);
    assert_eq!(position_or_default(100, "abc"), pos(0, 0));
    assert_eq!(position_or_default(usize::MAX, ""), pos(0, 0));
}

#[test]
fn ranges_compare_lexicographically() {
    assert_eq!(cmp_range(&range((0, 1), (0, 2)), &range((0, 1), (0, 2))), std::cmp::Ordering::Equal);
    assert_eq!(cmp_range(&range((0, 1), (5, 0)), &range((1, 0), (1, 1))), std::cmp::Ordering::Less);
    assert_eq!(cmp_range(&range((2, 3), (2, 4)), &range((2, 1), (9, 9))), std::cmp::Ordering::Greater);
    assert_eq!(cmp_range(&range((2, 3), (2, 4)), &range((2, 3), (2, 5))), std::cmp::Ordering::Less);
}

#[test]
fn primary_range_is_minimum_of_related() {
    let rs = vec![range((3, 0), (3, 4)), range((1, 2), (1, 5)), range((1, 2), (1, 3)), range((2, 0), (2, 1))];
    assert_eq!(min_range(&rs), range((1, 2), (1, 3)));
    let max = Position { line: u32::MAX, character: u32::MAX };
    assert_eq!(min_range(&vec![]), Range { start: max, end: max });
}

#[test]
fn message_joins_help_on_new_line() {
    assert_eq!(assemble_message(&"main".to_string(), &Some("try this".to_string())), "main\nhelp: try this");
    assert_eq!(assemble_message(&"main".to_string(), &None), "main");
}

#[test]
fn diagnostic_from_finding() {
    let text = "foo.apply(null, [42]);\nbar();";
    let mut f = finding(vec![span(23, 3, Some("second")), span(4, 5, Some("first"))], None);
    f.severity = Severity::Warning;
    f.help = Some("use Reflect".to_string());
    let e = ErrorWithPosition::new(f, text, None);
    assert_eq!(e.start_pos, pos(1, 0));
    assert_eq!(e.end_pos, pos(0, 9));
    let d = e.to_lsp_diagnostic();
    assert_eq!(d.severity, DiagnosticSeverity::Warning);
    assert_eq!(d.message, "bad\nhelp: use Reflect");
    assert_eq!(d.source, "oxc");
    assert_eq!(d.range, range((0, 4), (0, 9)));
    let rel = d.related_information.unwrap();
    assert_eq!(rel.len(), 2);
    assert_eq!(rel[0].range, range((1, 0), (1, 3)));
    assert_eq!(rel[0].message, "second");
    assert_eq!(rel[1].message, "first");
}

#[test]
fn hints_point_back_to_primary() {
    let text = "aaaa\nbbbb\ncccc\n";
    let f = finding(vec![span(0, 2, Some("main")), span(5, 2, Some("one")), span(10, 2, None)], None);
    let d = ErrorWithPosition::new(f, text, None).into_diagnostic_report();
    let hs = inverted_hints(&d.diagnostic);
    assert_eq!(hs.len(), 2);
    assert_eq!(hs[0].diagnostic.range, range((1, 0), (1, 2)));
    assert_eq!(hs[0].diagnostic.message, "one");
    assert_eq!(hs[1].diagnostic.message, "");
    for h in &hs {
        assert_eq!(h.diagnostic.severity, DiagnosticSeverity::Hint);
        let back = h.diagnostic.related_information.as_ref().unwrap();
        assert_eq!(back.len(), 1);
        assert_eq!(back[0].range, range((0, 0), (0, 2)));
        assert_eq!(back[0].message, "original diagnostic");
        assert!(h.fixed_content.is_none());
    }
}

#[test]
fn two_related_locations_give_three_diagnostics() {
    let text = "aaaa\nbbbb\ncccc\n";
    let f = finding(vec![span(5, 2, Some("x")), span(0, 2, Some("y")), span(10, 2, Some("z"))], None);
    let r = file_reports(vec![f], text);
    assert_eq!(r.len(), 3);
    assert_eq!(r[0].diagnostic.range, range((0, 0), (0, 2)));
    assert_eq!(r[1].diagnostic.message, "x");
    assert_eq!(r[2].diagnostic.message, "z");
}

#[test]
fn parse_error_is_reported_alone_without_fix() {
    let fx = Fix { content: "x".to_string(), start: 0, end: 1 };
    let f = finding(vec![span(10, 1, None)], Some(fx));
    let step = after_stage(Stage::Parse, vec![f], true);
    let findings = match step {
        Step::Report(v) => v,
        _ => panic!("a parse error stops the analysis"),
    };
    assert_eq!(findings.len(), 1);
    assert!(findings[0].fix.is_none());
    let r = file_reports(findings, THREE_LINES);
    assert_eq!(r.len(), 1);
    assert!(r[0].fixed_content.is_none());
    assert_eq!(r[0].diagnostic.range, range((0, 10), (1, 0)));
}

#[test]
fn stages_go_on_when_clean() {
    assert!(matches!(after_stage(Stage::Parse, vec![], true), Step::Next(Stage::Semantic)));
    assert!(matches!(after_stage(Stage::Semantic, vec![], true), Step::Next(Stage::Rules)));
    assert!(matches!(after_stage(Stage::Rules, vec![], true), Step::Clean));
    let f = finding(vec![span(0, 1, None)], None);
    assert!(matches!(after_stage(Stage::Semantic, vec![f], true), Step::Report(_)));
}

#[test]
fn rule_fix_is_translated() {
    let text = "x = foo.apply(null);\n";
    let fx = Fix { content: "Reflect.apply(foo, null)".to_string(), start: 5, end: 8 };
    let f = finding(vec![span(5, 3, None)], Some(fx));
    let findings = match after_stage(Stage::Rules, vec![f], true) {
        Step::Report(v) => v,
        _ => panic!("a violation is reported"),
    };
    let r = file_reports(findings, text);
    assert_eq!(r.len(), 1);
    let c = r[0].fixed_content.as_ref().unwrap();
    assert_eq!(c.code, "Reflect.apply(foo, null)");
    assert_eq!(c.range, range((0, 5), (0, 8)));
}

#[test]
fn fixes_dropped_outside_fix_mode() {
    let fx = Fix { content: "y".to_string(), start: 0, end: 1 };
    let f = finding(vec![span(0, 1, None)], Some(fx));
    match after_stage(Stage::Rules, vec![f], false) {
        Step::Report(v) => assert!(v[0].fix.is_none()),
        _ => panic!("a violation is reported"),
    }
}

#[test]
fn analysis_is_repeatable() {
    let text = "aaaa\nbbbb\ncccc\n";
    let make = || {
        vec![
            finding(vec![span(5, 2, Some("x")), span(0, 2, Some("y"))], None),
            finding(vec![span(10, 3, None)], Some(Fix { content: "z".to_string(), start: 10, end: 13 })),
        ]
    };
    let a: Vec<DiagnosticReport> = file_reports(make(), text);
    let b: Vec<DiagnosticReport> = file_reports(make(), text);
    assert_eq!(format!("{:?}", a), format!("{:?}", b));
    assert_eq!(a.len(), 3);
}

#[test]
fn scan_leaves_out_clean_files() {
    let mut results = Vec::new();
    for i in 0..100 {
        let reports = if i % 40 == 7 {
            file_reports(vec![finding(vec![span(0, 1, None)], None)], "abc")
        } else {
            vec![]
        };
        results.push((format!("file{}.js", i), reports));
    }
    let scan = collect_scan(results);
    assert_eq!(scan.len(), 3);
    assert_eq!(scan[0].0, "file7.js");
    assert_eq!(scan[1].0, "file47.js");
    assert_eq!(scan[2].0, "file87.js");
}

#[test]
fn hints_follow_all_primaries() {
    let text = "aaaa\nbbbb\ncccc\n";
    let d1 = ErrorWithPosition::new(finding(vec![span(0, 1, None), span(5, 1, Some("p"))], None), text, None)
        .into_diagnostic_report();
    let d2 = ErrorWithPosition::new(finding(vec![span(10, 1, None)], None), text, None).into_diagnostic_report();
    let all = with_inverted_hints(vec![d1, d2]);
    assert_eq!(all.len(), 3);
    assert_eq!(all[2].diagnostic.message, "p");
    assert_eq!(all[2].diagnostic.severity, DiagnosticSeverity::Hint);
}

#[test]
fn wanted_extensions() {
    assert_eq!(get_extensions().len(), 9);
    assert!(is_wanted_ext(&"ts".to_string()));
    assert!(is_wanted_ext(&"vue".to_string()));
    assert!(!is_wanted_ext(&"md".to_string()));
}

#[test]
fn index_types_advance() {
    let mut a: usize = Idx::new(3);
    a.increment();
    a.increment_by(4);
    assert_eq!(a.index(), 8);
    let b: u32 = Idx::new(7);
    assert_eq!(b.plus(5), 12);
}

#[test]
fn offsets_count_bytes() {
    // "é" takes two bytes, so the newline is at byte 2 and "x" at byte 3.
    let text = "\u{e9}\nx";
    assert_eq!(offset_to_position(2, text), Some(pos(0, 2)));
    assert_eq!(offset_to_position(3, text), Some(pos(1, 0)));
    assert_eq!(offset_to_position(4, text), Some(pos(1, 1)));
    assert_eq!(offset_to_position(5, text), None);
}

#[test]
fn loaders_by_extension() {
    assert_eq!(resolve_loader(&"js".to_string()), Some(Loader::Direct));
    assert_eq!(resolve_loader(&"tsx".to_string()), Some(Loader::Direct));
    assert_eq!(resolve_loader(&"vue".to_string()), Some(Loader::Partial));
    assert_eq!(resolve_loader(&"txt".to_string()), None);
}
