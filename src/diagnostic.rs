use vstd::prelude::*;
use vstd::string::*;
use crate::position::{Position, Range, position_or_default, mapped, min_range, is_min_range};

verus! {

/// How serious a finding is, as the analysis reports it.
#[derive(Clone, Copy, Debug, PartialEq, Eq, Structural)]
pub enum Severity {
    Error,
    Warning,
}

/// How serious a diagnostic is, as an editor shows it.
#[derive(Clone, Copy, Debug, PartialEq, Eq, Structural)]
pub enum DiagnosticSeverity {
    Error,
    Warning,
    Hint,
}

/// A span of `len` bytes from `offset`, with an optional explanation.
#[derive(Clone, Debug)]
pub struct LabeledSpan {
    pub offset: usize,
    pub len: usize,
    pub label: Option<String>,
}

/// A proposed replacement of the bytes from `start` to `end` by `content`.
#[derive(Clone, Debug)]
pub struct Fix {
    pub content: String,
    pub start: usize,
    pub end: usize,
}

/// A finding of a parser, of the semantic checks or of a rule, before positions are known.
#[derive(Clone, Debug)]
pub struct RawFinding {
    pub message: String,
    pub help: Option<String>,
    pub severity: Severity,
    pub labels: Vec<LabeledSpan>,
    pub fix: Option<Fix>,
}

/// A fix in display form: the range to replace and the replacement text.
#[derive(Clone, Debug)]
pub struct FixedContent {
    pub code: String,
    pub range: Range,
}

/// A labeled span whose ends are mapped to positions.
#[derive(Clone, Debug)]
pub struct LabeledSpanWithPosition {
    pub start_pos: Position,
    pub end_pos: Position,
    pub message: Option<String>,
}

/// A finding with every label mapped to positions.
#[derive(Clone, Debug)]
pub struct ErrorWithPosition {
    pub start_pos: Position,
    pub end_pos: Position,
    pub message: String,
    pub help: Option<String>,
    pub severity: Severity,
    pub fixed_content: Option<FixedContent>,
    pub labels_with_pos: Vec<LabeledSpanWithPosition>,
}

/// A place related to a diagnostic, with what it has to do with it.
#[derive(Clone, Debug)]
pub struct RelatedInformation {
    pub range: Range,
    pub message: String,
}

/// A diagnostic as an editor shows it.
#[derive(Clone, Debug)]
pub struct Diagnostic {
    pub range: Range,
    pub severity: DiagnosticSeverity,
    pub message: String,
    pub source: String,
    pub related_information: Option<Vec<RelatedInformation>>,
}

/// A diagnostic with the fix that goes with it, if any.
#[derive(Clone, Debug)]
pub struct DiagnosticReport {
    pub diagnostic: Diagnostic,
    pub fixed_content: Option<FixedContent>,
}

/// The position of the end of a label: its offset plus its length.
pub open spec fn label_end(text: Seq<u8>, l: LabeledSpan) -> Position {
    mapped(text, l.offset + l.len)
}

/// The fix of a finding in display form.
pub open spec fn fix_translated(text: Seq<u8>, f: Fix, c: FixedContent) -> bool {
    &&& c.code@ == f.content@
    &&& c.range.start == mapped(text, f.start as int)
    &&& c.range.end == mapped(text, f.end as int)
}

/// Maps a fix's span to a display range and keeps its replacement text.
pub fn translate_fix(fix: &Fix, text: &str) -> (r: FixedContent)
    ensures
        fix_translated(text.spec_bytes(), *fix, r),
{
    let start = position_or_default(fix.start, text);
    let end = position_or_default(fix.end, text);
    FixedContent { code: fix.content.clone(), range: Range { start, end } }
}

fn clone_label(l: &Option<String>) -> (r: Option<String>)
    ensures
        r == *l,
{
    match l {
        Some(s) => Some(s.clone()),
        None => None,
    }
}

impl ErrorWithPosition {
    /// Whether the labels of `self` are those of `error`, mapped over `text`.
    pub open spec fn maps(self, error: RawFinding, text: Seq<u8>) -> bool {
        &&& self.labels_with_pos@.len() == error.labels@.len()
        &&& forall|k: int|
            0 <= k < error.labels@.len() ==> {
                &&& (#[trigger] self.labels_with_pos@[k]).start_pos == mapped(
                    text,
                    error.labels@[k].offset as int,
                )
                &&& self.labels_with_pos@[k].end_pos == label_end(text, error.labels@[k])
                &&& self.labels_with_pos@[k].message == error.labels@[k].label
            }
    }

    /// A finding with at least one label.
    pub open spec fn wf(self) -> bool {
        self.labels_with_pos@.len() >= 1
    }

    /// Maps every label of `error` to positions over `text`; an offset that cannot be
    /// mapped becomes line 0, column 0. The finding's own range runs from the start of
    /// its first label to the end of its last.
    pub fn new(error: RawFinding, text: &str, fixed_content: Option<FixedContent>) -> (r: Self)
        requires
            error.labels@.len() >= 1,
        ensures
            r.wf(),
            r.maps(error, text.spec_bytes()),
            r.start_pos == r.labels_with_pos@[0].start_pos,
            r.end_pos == r.labels_with_pos@[r.labels_with_pos@.len() - 1].end_pos,
            r.message == error.message,
            r.help == error.help,
            r.severity == error.severity,
            r.fixed_content == fixed_content,
    {
        let mut labels_with_pos: Vec<LabeledSpanWithPosition> = Vec::new();
        let mut i: usize = 0;
        while i < error.labels.len()
            invariant
                i <= error.labels@.len(),
                labels_with_pos@.len() == i,
                forall|k: int|
                    0 <= k < i ==> {
                        &&& (#[trigger] labels_with_pos@[k]).start_pos == mapped(
                            text.spec_bytes(),
                            error.labels@[k].offset as int,
                        )
                        &&& labels_with_pos@[k].end_pos == label_end(text.spec_bytes(), error.labels@[k])
                        &&& labels_with_pos@[k].message == error.labels@[k].label
                    },
            decreases error.labels@.len() - i,
        {
            let l = &error.labels[i];
            let start_pos = position_or_default(l.offset, text);
            let end_pos = if l.offset > usize::MAX - l.len {
                Position { line: 0, character: 0 }
            } else {
                position_or_default(l.offset + l.len, text)
            };
            let message = clone_label(&l.label);
            labels_with_pos.push(LabeledSpanWithPosition { start_pos, end_pos, message });
            i = i + 1;
        }
        let start_pos = labels_with_pos[0].start_pos;
        let end_pos = labels_with_pos[labels_with_pos.len() - 1].end_pos;
        ErrorWithPosition {
            start_pos,
            end_pos,
            message: error.message,
            help: error.help,
            severity: error.severity,
            fixed_content,
            labels_with_pos,
        }
    }
}


/// The severity an editor shows for a finding's severity.
pub open spec fn shown_severity(s: Severity) -> DiagnosticSeverity {
    match s {
        Severity::Error => DiagnosticSeverity::Error,
        Severity::Warning => DiagnosticSeverity::Warning,
    }
}

/// The display message: the main message, then the help text on a line of its own.
pub open spec fn assembled(message: Seq<char>, help: Option<String>) -> Seq<char> {
    match help {
        Some(h) => message + "\nhelp: "@ + h@,
        None => message,
    }
}

/// Joins a message and its help text into one display message.
pub fn assemble_message(message: &String, help: &Option<String>) -> (r: String)
    ensures
        r@ == assembled(message@, *help),
{
    match help {
        Some(h) => {
            let mut out = message.clone();
            out.append("\nhelp: ");
            out.append(h.as_str());
            out
        },
        None => message.clone(),
    }
}

/// The ranges of a list of related places.
pub open spec fn related_ranges(v: Seq<RelatedInformation>) -> Seq<Range> {
    v.map_values(|x: RelatedInformation| x.range)
}

/// The text of an optional label; the empty text where there is none.
pub open spec fn label_text(l: Option<String>) -> Seq<char> {
    match l {
        Some(s) => s@,
        None => Seq::empty(),
    }
}

/// Whether `v` holds one related place per label, in order: the label's range and text.
pub open spec fn related_of_labels(v: Seq<RelatedInformation>, labels: Seq<LabeledSpanWithPosition>) -> bool {
    &&& v.len() == labels.len()
    &&& forall|k: int|
        0 <= k < v.len() ==> {
            &&& (#[trigger] v[k]).range == (Range { start: labels[k].start_pos, end: labels[k].end_pos })
            &&& v[k].message@ == label_text(labels[k].message)
        }
}

impl ErrorWithPosition {
    /// The editor diagnostic of a finding: one related place per label, the lexicographic
    /// minimum of their ranges as its range, and the help text joined to its message.
    pub fn to_lsp_diagnostic(&self) -> (r: Diagnostic)
        requires
            self.wf(),
        ensures
            r.severity == shown_severity(self.severity),
            r.message@ == assembled(self.message@, self.help),
            r.source@ == "oxc"@,
            r.related_information matches Some(v) && related_of_labels(v@, self.labels_with_pos@)
                && is_min_range(r.range, related_ranges(v@)),
    {
        let severity = match self.severity {
            Severity::Error => DiagnosticSeverity::Error,
            Severity::Warning => DiagnosticSeverity::Warning,
        };
        let mut infos: Vec<RelatedInformation> = Vec::new();
        let mut ranges: Vec<Range> = Vec::new();
        let mut i: usize = 0;
        while i < self.labels_with_pos.len()
            invariant
                i <= self.labels_with_pos@.len(),
                infos@.len() == i,
                ranges@ == related_ranges(infos@),
                forall|k: int|
                    0 <= k < i ==> {
                        &&& (#[trigger] infos@[k]).range == (Range {
                            start: self.labels_with_pos@[k].start_pos,
                            end: self.labels_with_pos@[k].end_pos,
                        })
                        &&& infos@[k].message@ == label_text(self.labels_with_pos@[k].message)
                    },
            decreases self.labels_with_pos@.len() - i,
        {
            let l = &self.labels_with_pos[i];
            let range = Range { start: l.start_pos, end: l.end_pos };
            let message = match &l.message {
                Some(m) => m.clone(),
                None => String::new(),
            };
            infos.push(RelatedInformation { range, message });
            ranges.push(range);
            proof {
                assert(related_ranges(infos@) =~= ranges@);
            }
            i = i + 1;
        }
        let range = min_range(&ranges);
        let message = assemble_message(&self.message, &self.help);
        Diagnostic {
            range,
            severity,
            message,
            source: String::from_str("oxc"),
            related_information: Some(infos),
        }
    }

    /// The diagnostic of a finding, with its fix.
    pub fn into_diagnostic_report(self) -> (r: DiagnosticReport)
        requires
            self.wf(),
        ensures
            r.fixed_content == self.fixed_content,
            r.diagnostic.severity == shown_severity(self.severity),
            r.diagnostic.message@ == assembled(self.message@, self.help),
            r.diagnostic.source@ == "oxc"@,
            r.diagnostic.related_information matches Some(v) && related_of_labels(
                v@,
                self.labels_with_pos@,
            ) && is_min_range(r.diagnostic.range, related_ranges(v@)),
    {
        let diagnostic = self.to_lsp_diagnostic();
        DiagnosticReport { diagnostic, fixed_content: self.fixed_content }
    }
}

} // verus!
