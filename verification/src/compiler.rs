//! The structured-diagnostic model: a nested record mirroring the compiler
//! JSON schema that IDE tooling consumes, and the construction of one such
//! record per violation.

use vstd::prelude::*;
use vstd::string::*;

use crate::diag::LintError;
use crate::pattern::{clone_opt_string, Rule};
use crate::render::{render_text, rendered_text};

verus! {

/// How a suggested replacement may be applied by tooling.
#[derive(Clone, Copy, Debug, PartialEq, Eq, Structural)]
pub enum SuggestionApplicability {
    MachineApplicable,
    HasPlaceholders,
    MaybeIncorrect,
    Unspecified,
}

/// The schema identifier of each applicability class.
pub open spec fn applicability_label(a: SuggestionApplicability) -> Seq<char> {
    match a {
        SuggestionApplicability::MachineApplicable => "MachineApplicable"@,
        SuggestionApplicability::HasPlaceholders => "HasPlaceholders"@,
        SuggestionApplicability::MaybeIncorrect => "MaybeIncorrect"@,
        SuggestionApplicability::Unspecified => "Unspecified"@,
    }
}

impl SuggestionApplicability {
    /// The identifier this class carries in the schema.
    pub fn label(&self) -> (r: String)
        ensures
            r@ == applicability_label(*self),
    {
        match self {
            SuggestionApplicability::MachineApplicable => String::from_str("MachineApplicable"),
            SuggestionApplicability::HasPlaceholders => String::from_str("HasPlaceholders"),
            SuggestionApplicability::MaybeIncorrect => String::from_str("MaybeIncorrect"),
            SuggestionApplicability::Unspecified => String::from_str("Unspecified"),
        }
    }
}

/// Why a record was emitted; always a compiler-style message.
#[derive(Clone, Copy, Debug, PartialEq, Eq, Structural)]
pub enum CompilerMessageReason {
    CompilerMessage,
}

/// The schema identifier of the reason.
pub open spec fn reason_label(r: CompilerMessageReason) -> Seq<char> {
    "compiler-message"@
}

impl CompilerMessageReason {
    /// The identifier this reason carries in the schema.
    pub fn label(&self) -> (r: String)
        ensures
            r@ == reason_label(*self),
    {
        String::from_str("compiler-message")
    }
}

/// The kind of a message; always a diagnostic.
#[derive(Clone, Copy, Debug, PartialEq, Eq, Structural)]
pub enum CompilerMessageType {
    Diagnostic,
}

/// The schema identifier of the message kind.
pub open spec fn message_type_label(t: CompilerMessageType) -> Seq<char> {
    "diagnostic"@
}

impl CompilerMessageType {
    /// The identifier this kind carries in the schema.
    pub fn label(&self) -> (r: String)
        ensures
            r@ == message_type_label(*self),
    {
        String::from_str("diagnostic")
    }
}

/// The severity of a message or of one of its children.
#[derive(Clone, Copy, Debug, PartialEq, Eq, Structural)]
pub enum CompilerMessageLevel {
    Warning,
    Note,
    Help,
    ErrorNote,
    Error,
}

/// The schema identifier of each level.
pub open spec fn level_label(l: CompilerMessageLevel) -> Seq<char> {
    match l {
        CompilerMessageLevel::Warning => "warning"@,
        CompilerMessageLevel::Note => "note"@,
        CompilerMessageLevel::Help => "help"@,
        CompilerMessageLevel::ErrorNote => "error-note"@,
        CompilerMessageLevel::Error => "error"@,
    }
}

impl CompilerMessageLevel {
    /// The identifier this level carries in the schema.
    pub fn label(&self) -> (r: String)
        ensures
            r@ == level_label(*self),
    {
        match self {
            CompilerMessageLevel::Warning => String::from_str("warning"),
            CompilerMessageLevel::Note => String::from_str("note"),
            CompilerMessageLevel::Help => String::from_str("help"),
            CompilerMessageLevel::ErrorNote => String::from_str("error-note"),
            CompilerMessageLevel::Error => String::from_str("error"),
        }
    }
}

/// The severity a rule's violations report: error when the rule is a hard
/// failure, warning otherwise.
pub open spec fn level_of(fails: bool) -> CompilerMessageLevel {
    if fails {
        CompilerMessageLevel::Error
    } else {
        CompilerMessageLevel::Warning
    }
}

/// One excerpt of a span: the source line's text and the highlighted byte
/// range relative to the start of that line.
#[derive(Debug, PartialEq)]
pub struct CompilerSpanText {
    pub highlight_start: usize,
    pub highlight_end: usize,
    pub text: String,
}

/// One source span of a structured diagnostic: file-relative byte offsets,
/// 1-based columns, line numbers, and the excerpt of the starting line.
#[derive(Debug, PartialEq)]
pub struct CompilerSpan {
    pub byte_start: usize,
    pub byte_end: usize,
    pub column_start: usize,
    pub column_end: usize,
    pub line_end: usize,
    pub line_start: usize,
    pub expansion: Option<()>,
    pub file_name: String,
    pub is_primary: bool,
    pub label: Option<String>,
    pub suggested_replacement: Option<String>,
    pub suggestion_applicability: Option<SuggestionApplicability>,
    pub text: Vec<CompilerSpanText>,
}

/// One child of a message: a note or help record attached to the primary
/// diagnostic.
#[derive(Debug, PartialEq)]
pub struct CompilerMessageChild {
    pub children: Vec<()>,
    pub code: Option<String>,
    pub level: CompilerMessageLevel,
    pub message: String,
    pub rendered: Option<String>,
    pub spans: Vec<CompilerSpan>,
}

/// The stable identifier of a diagnostic.
#[derive(Debug, PartialEq)]
pub struct CompilerMessageCode {
    pub code: String,
    pub explanation: Option<String>,
}

/// Build-target metadata carried only for schema compatibility.
#[derive(Debug, PartialEq)]
pub struct CompilerMessageTarget {
    pub kind: Vec<String>,
    pub crate_types: Vec<String>,
    pub name: String,
    pub src_path: String,
    pub edition: String,
    pub doc: bool,
    pub doctest: bool,
    pub test: bool,
}

/// The message of a structured diagnostic: severity, identifier, spans,
/// children and the pre-rendered display text.
#[derive(Debug, PartialEq)]
pub struct CompilerMessageInner {
    pub rendered: Option<String>,
    pub message_type: CompilerMessageType,
    pub children: Vec<CompilerMessageChild>,
    pub code: CompilerMessageCode,
    pub level: CompilerMessageLevel,
    pub message: String,
    pub spans: Vec<CompilerSpan>,
}

/// One full structured-diagnostic record, one per violation.
#[derive(Debug, PartialEq)]
pub struct CompilerMessage {
    pub reason: CompilerMessageReason,
    pub package_id: String,
    pub manifest_path: String,
    pub target: CompilerMessageTarget,
    pub message: CompilerMessageInner,
}

/// What a violation's window demands of the machine's integer range before
/// its primary span can be built: 1-based columns must fit, the window's
/// byte extent must be ordered, and the highlight arithmetic within the
/// starting line must not go below zero.
pub open spec fn span_arith_ok(e: LintError) -> bool {
    let w = e.window@;
    &&& w.len() > 0
    &&& w[0].2.start_col < usize::MAX
    &&& w.last().2.end_col < usize::MAX
    &&& w[0].2.byte_start >= e.line.1
    &&& w.last().2.byte_end >= w[0].2.byte_start
    &&& w[0].2.byte_start - e.line.1 >= w.last().2.byte_end - w[0].2.byte_start
}

/// What the primary span of a violation holds: the window's byte extent,
/// its 1-based column extent, its line extent, the file's name, and one
/// excerpt carrying the starting line's text with the highlight range
/// relative to that line's start.
pub open spec fn span_wf(sp: CompilerSpan, e: LintError) -> bool {
    let w = e.window@;
    &&& sp.byte_start == w[0].2.byte_start
    &&& sp.byte_end == w.last().2.byte_end
    &&& sp.column_start == w[0].2.start_col + 1
    &&& sp.column_end == w.last().2.end_col + 1
    &&& sp.line_start == w[0].2.start_line
    &&& sp.line_end == w.last().2.end_line
    &&& sp.expansion is None
    &&& sp.file_name@ == e.file_name@
    &&& sp.is_primary
    &&& sp.label is None
    &&& sp.suggested_replacement == e.rule.replace
    &&& sp.suggestion_applicability is None
    &&& sp.text@.len() == 1
    &&& sp.text@[0].highlight_end == w[0].2.byte_start - e.line.1
    &&& sp.text@[0].highlight_start == (w[0].2.byte_start - e.line.1) - (w.last().2.byte_end
        - w[0].2.byte_start)
    &&& sp.text@[0].text@ == e.line.0@
}

/// The help text a diagnostic carries: the rule's own, or a fixed fallback
/// when the rule has none.
pub open spec fn spec_help_text(r: Rule) -> Seq<char> {
    match r.help {
        Option::Some(h) => h@,
        Option::None => "no help available for this rule"@,
    }
}

impl LintError {
    /// The primary span of this violation, for the structured schema.
    pub fn compiler_span(&self) -> (r: CompilerSpan)
        requires
            span_arith_ok(*self),
        ensures
            span_wf(r, *self),
    {
        let n = self.window.len();
        let first = &self.window[0];
        let last = &self.window[n - 1];
        let byte_start = first.2.byte_start;
        let byte_end = last.2.byte_end;
        let highlight_end = byte_start - self.line.1;
        let highlight_start = highlight_end - (byte_end - byte_start);
        let mut text: Vec<CompilerSpanText> = Vec::new();
        text.push(
            CompilerSpanText {
                highlight_start,
                highlight_end,
                text: self.line.0.clone(),
            },
        );
        CompilerSpan {
            byte_end,
            byte_start,
            column_end: last.2.end_col + 1,
            column_start: first.2.start_col + 1,
            expansion: Option::None,
            file_name: self.file_name.clone(),
            is_primary: true,
            label: Option::None,
            line_end: last.2.end_line,
            line_start: first.2.start_line,
            suggested_replacement: clone_opt_string(&self.rule.replace),
            suggestion_applicability: Option::None,
            text,
        }
    }

    /// One structured-diagnostic record for this violation: severity from
    /// the rule, the rule's name as message and stable code, the primary
    /// span, a note child with the rule's description, a help child with
    /// the rule's help text or its fallback, and the human-readable
    /// rendering. `src_path` is the linted file's canonical path, carried
    /// in the target metadata.
    pub fn json_diagnostic(&self, src_path: String) -> (r: CompilerMessage)
        requires
            span_arith_ok(*self),
        ensures
            r.reason is CompilerMessage,
            r.package_id@ == Seq::<char>::empty(),
            r.manifest_path@ == Seq::<char>::empty(),
            r.target.kind@.len() == 1 && r.target.kind@[0]@ == "bin"@,
            r.target.crate_types@.len() == 1 && r.target.crate_types@[0]@ == "bin"@,
            r.target.name@ == "splint"@,
            r.target.src_path == src_path,
            r.target.edition@ == "2021"@,
            r.target.doc && !r.target.doctest && r.target.test,
            r.message.message_type is Diagnostic,
            r.message.level == level_of(self.fails),
            r.message.message@ == self.rule.name@,
            r.message.code.code@ == self.rule.name@,
            r.message.code.explanation is None,
            r.message.rendered is Some,
            r.message.rendered->0@ == rendered_text(*self),
            r.message.spans@.len() == 1 && span_wf(r.message.spans@[0], *self),
            r.message.children@.len() == 2,
            r.message.children@[0].level is Note,
            r.message.children@[0].message@ == self.rule.description@,
            r.message.children@[0].spans@.len() == 0,
            r.message.children@[0].code is None,
            r.message.children@[0].rendered is None,
            r.message.children@[0].children@.len() == 0,
            r.message.children@[1].level is Help,
            r.message.children@[1].message@ == spec_help_text(self.rule),
            r.message.children@[1].spans@.len() == 1 && span_wf(
                r.message.children@[1].spans@[0],
                *self,
            ),
            r.message.children@[1].code is None,
            r.message.children@[1].rendered is None,
            r.message.children@[1].children@.len() == 0,
    {
        let span = self.compiler_span();
        let help_span = self.compiler_span();
        let level = if self.fails {
            CompilerMessageLevel::Error
        } else {
            CompilerMessageLevel::Warning
        };
        let help_message = match &self.rule.help {
            Option::Some(h) => h.clone(),
            Option::None => String::from_str("no help available for this rule"),
        };
        let mut children: Vec<CompilerMessageChild> = Vec::new();
        children.push(
            CompilerMessageChild {
                children: Vec::new(),
                code: Option::None,
                level: CompilerMessageLevel::Note,
                message: self.rule.description.clone(),
                rendered: Option::None,
                spans: Vec::new(),
            },
        );
        let mut help_spans: Vec<CompilerSpan> = Vec::new();
        help_spans.push(help_span);
        children.push(
            CompilerMessageChild {
                children: Vec::new(),
                code: Option::None,
                level: CompilerMessageLevel::Help,
                message: help_message,
                rendered: Option::None,
                spans: help_spans,
            },
        );
        let rendered = render_text(self);
        let mut spans: Vec<CompilerSpan> = Vec::new();
        spans.push(span);
        let mut kind: Vec<String> = Vec::new();
        kind.push(String::from_str("bin"));
        let mut crate_types: Vec<String> = Vec::new();
        crate_types.push(String::from_str("bin"));
        CompilerMessage {
            reason: CompilerMessageReason::CompilerMessage,
            package_id: String::new(),
            manifest_path: String::new(),
            target: CompilerMessageTarget {
                kind,
                crate_types,
                name: String::from_str("splint"),
                src_path,
                edition: String::from_str("2021"),
                doc: true,
                doctest: false,
                test: true,
            },
            message: CompilerMessageInner {
                message_type: CompilerMessageType::Diagnostic,
                children,
                level,
                rendered: Option::Some(rendered),
                message: self.rule.name.clone(),
                spans,
                code: CompilerMessageCode {
                    code: self.rule.name.clone(),
                    explanation: Option::None,
                },
            },
        }
    }
}

} // verus!
