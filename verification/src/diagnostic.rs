//! Structured diagnostic output for AI feedback loops.
//!
//! These types describe compiler errors as data: where they are, what was
//! expected and found, and what to try next. Serialising them to JSON is
//! left to the program around the library.
//!
//! Confidences are given in thousandths (`940` for 0.94).
use vstd::prelude::*;
use crate::text::{decimal, decimal_exec, push_char, push_chars, push_str};

pub mod codes;
pub mod analysis;

pub use analysis::{
    type_error_to_diagnostic_with_source, verify_error_to_diagnostic_with_source,
    parse_error_to_diagnostic, parse_error_diagnostic, TypeError, VerifyError, ErrorPosition,
};

verus! {

/// An optional text, by its characters.
pub open spec fn opt_text(o: Option<String>) -> Option<Seq<char>> {
    match o {
        Some(s) => Some(s@),
        None => None,
    }
}

/// Source location information
#[derive(Debug)]
pub struct SourceLocation {
    pub file: String,
    pub line: Option<u32>,
    pub column: Option<u32>,
    pub end_line: Option<u32>,
    pub end_column: Option<u32>,
    pub span_length: Option<u32>,
    pub source_line: Option<String>,
    /// Fallback context when precise location unavailable (e.g., "function add")
    pub context: Option<String>,
}

pub ghost struct LocationView {
    pub file: Seq<char>,
    pub line: Option<u32>,
    pub column: Option<u32>,
    pub end_line: Option<u32>,
    pub end_column: Option<u32>,
    pub span_length: Option<u32>,
    pub source_line: Option<Seq<char>>,
    pub context: Option<Seq<char>>,
}

impl View for SourceLocation {
    type V = LocationView;

    open spec fn view(&self) -> LocationView {
        LocationView {
            file: self.file@,
            line: self.line,
            column: self.column,
            end_line: self.end_line,
            end_column: self.end_column,
            span_length: self.span_length,
            source_line: opt_text(self.source_line),
            context: opt_text(self.context),
        }
    }
}

/// A location known only by its file and a context.
pub open spec fn context_location(file: Seq<char>, context: Seq<char>) -> LocationView {
    LocationView {
        file,
        line: None,
        column: None,
        end_line: None,
        end_column: None,
        span_length: None,
        source_line: None,
        context: Some(context),
    }
}

/// The length of a span on one line: the distance of the columns, at least 1.
pub open spec fn span_len(start_column: u32, end_column: u32) -> u32 {
    if end_column > start_column {
        (end_column - start_column) as u32
    } else {
        1
    }
}

pub open spec fn span_location(
    file: Seq<char>,
    start_line: u32,
    start_column: u32,
    end_line: u32,
    end_column: u32,
) -> LocationView {
    LocationView {
        file,
        line: Some(start_line),
        column: Some(start_column),
        end_line: Some(end_line),
        end_column: Some(end_column),
        span_length: Some(span_len(start_column, end_column)),
        source_line: None,
        context: None,
    }
}

impl SourceLocation {
    /// Create location with just context (no line/column yet)
    pub fn with_context(file: &str, context: &str) -> (r: Self)
        ensures
            r@ == context_location(file@, context@),
    {
        SourceLocation {
            file: file.to_owned(),
            line: None,
            column: None,
            end_line: None,
            end_column: None,
            span_length: None,
            source_line: None,
            context: Some(context.to_owned()),
        }
    }

    /// Create location with full position information
    pub fn with_position(file: &str, line: u32, column: u32) -> (r: Self)
        ensures
            r@ == (LocationView {
                file: file@,
                line: Some(line),
                column: Some(column),
                end_line: None,
                end_column: None,
                span_length: None,
                source_line: None,
                context: None,
            }),
    {
        SourceLocation {
            file: file.to_owned(),
            line: Some(line),
            column: Some(column),
            end_line: None,
            end_column: None,
            span_length: None,
            source_line: None,
            context: None,
        }
    }

    /// Create location with full span information.
    pub fn with_span(file: &str, start_line: u32, start_column: u32, end_line: u32, end_column: u32) -> (r:
        Self)
        ensures
            r@ == span_location(file@, start_line, start_column, end_line, end_column),
    {
        let width = end_column.saturating_sub(start_column);
        let span = if width > 1 {
            width
        } else {
            1
        };
        SourceLocation {
            file: file.to_owned(),
            line: Some(start_line),
            column: Some(start_column),
            end_line: Some(end_line),
            end_column: Some(end_column),
            span_length: Some(span),
            source_line: None,
            context: None,
        }
    }

    /// Attach a source line excerpt.
    pub fn with_source_line(self, source_line: &str) -> (r: Self)
        ensures
            r@ == (LocationView { source_line: Some(source_line@), ..self@ }),
    {
        let mut location = self;
        location.source_line = Some(source_line.to_owned());
        location
    }

    /// Attach fallback semantic context.
    pub fn with_context_value(self, context: &str) -> (r: Self)
        ensures
            r@ == (LocationView { context: Some(context@), ..self@ }),
    {
        let mut location = self;
        location.context = Some(context.to_owned());
        location
    }
}

/// Severity level for diagnostics
#[derive(Debug, Clone, Copy, PartialEq, Eq, Structural)]
pub enum Severity {
    Error,
    Warning,
    Info,
    Hint,
}

/// Type information for expected/found reporting
#[derive(Debug)]
pub struct TypeInfo {
    pub type_label: String,
    pub reason: Option<String>,
    pub source: Option<String>,
}

pub ghost struct TypeInfoView {
    pub type_label: Seq<char>,
    pub reason: Option<Seq<char>>,
    pub source: Option<Seq<char>>,
}

impl View for TypeInfo {
    type V = TypeInfoView;

    open spec fn view(&self) -> TypeInfoView {
        TypeInfoView {
            type_label: self.type_label@,
            reason: opt_text(self.reason),
            source: opt_text(self.source),
        }
    }
}

/// Code replacement for machine-applicable fixes
#[derive(Debug)]
pub struct Replacement {
    pub start_line: u32,
    pub start_column: u32,
    pub end_line: u32,
    pub end_column: u32,
    pub text: String,
}

pub ghost struct ReplacementView {
    pub start_line: u32,
    pub start_column: u32,
    pub end_line: u32,
    pub end_column: u32,
    pub text: Seq<char>,
}

impl View for Replacement {
    type V = ReplacementView;

    open spec fn view(&self) -> ReplacementView {
        ReplacementView {
            start_line: self.start_line,
            start_column: self.start_column,
            end_line: self.end_line,
            end_column: self.end_column,
            text: self.text@,
        }
    }
}

pub open spec fn opt_replacement(o: Option<Replacement>) -> Option<ReplacementView> {
    match o {
        Some(r) => Some(r@),
        None => None,
    }
}

/// Suggested fix for an error
#[derive(Debug)]
pub struct Suggestion {
    pub message: String,
    pub kind: Option<String>,
    pub applicability: Option<String>,
    /// Confidence in thousandths.
    pub confidence: Option<u32>,
    pub replacement: Option<Replacement>,
}

pub ghost struct SuggestionView {
    pub message: Seq<char>,
    pub kind: Option<Seq<char>>,
    pub applicability: Option<Seq<char>>,
    pub confidence: Option<u32>,
    pub replacement: Option<ReplacementView>,
}

impl View for Suggestion {
    type V = SuggestionView;

    open spec fn view(&self) -> SuggestionView {
        SuggestionView {
            message: self.message@,
            kind: opt_text(self.kind),
            applicability: opt_text(self.applicability),
            confidence: self.confidence,
            replacement: opt_replacement(self.replacement),
        }
    }
}

/// Related diagnostic information
#[derive(Debug)]
pub struct RelatedInfo {
    pub location: SourceLocation,
    pub message: String,
}

pub ghost struct RelatedView {
    pub location: LocationView,
    pub message: Seq<char>,
}

impl View for RelatedInfo {
    type V = RelatedView;

    open spec fn view(&self) -> RelatedView {
        RelatedView { location: self.location@, message: self.message@ }
    }
}

pub open spec fn related_view(s: Seq<RelatedInfo>) -> Seq<RelatedView> {
    s.map_values(|x: RelatedInfo| x@)
}

/// A single diagnostic (error, warning, etc.)
#[derive(Debug)]
pub struct Diagnostic {
    pub error_code: String,
    pub severity: Severity,
    pub message: String,
    pub location: SourceLocation,
    pub ai_prompt_hint: Option<String>,
    pub expected: Option<TypeInfo>,
    pub found: Option<TypeInfo>,
    pub suggestions: Vec<Suggestion>,
    pub related: Vec<RelatedInfo>,
}

pub ghost struct DiagnosticView {
    pub error_code: Seq<char>,
    pub severity: Severity,
    pub message: Seq<char>,
    pub location: LocationView,
    pub ai_prompt_hint: Option<Seq<char>>,
    pub expected: Option<TypeInfoView>,
    pub found: Option<TypeInfoView>,
    pub suggestions: Seq<SuggestionView>,
    pub related: Seq<RelatedView>,
}

pub open spec fn opt_type_info(o: Option<TypeInfo>) -> Option<TypeInfoView> {
    match o {
        Some(t) => Some(t@),
        None => None,
    }
}

pub open spec fn suggestions_view(s: Seq<Suggestion>) -> Seq<SuggestionView> {
    s.map_values(|x: Suggestion| x@)
}

impl View for Diagnostic {
    type V = DiagnosticView;

    open spec fn view(&self) -> DiagnosticView {
        DiagnosticView {
            error_code: self.error_code@,
            severity: self.severity,
            message: self.message@,
            location: self.location@,
            ai_prompt_hint: opt_text(self.ai_prompt_hint),
            expected: opt_type_info(self.expected),
            found: opt_type_info(self.found),
            suggestions: suggestions_view(self.suggestions@),
            related: related_view(self.related@),
        }
    }
}

/// A bare error: no hint, no types, no suggestions.
pub open spec fn error_view(code: Seq<char>, message: Seq<char>, location: LocationView) -> DiagnosticView {
    DiagnosticView {
        error_code: code,
        severity: Severity::Error,
        message,
        location,
        ai_prompt_hint: None,
        expected: None,
        found: None,
        suggestions: Seq::empty(),
        related: Seq::empty(),
    }
}

pub open spec fn with_expected_view(d: DiagnosticView, type_label: Seq<char>, reason: Option<Seq<char>>) -> DiagnosticView {
    DiagnosticView {
        expected: Some(TypeInfoView { type_label, reason, source: None }),
        ..d
    }
}

pub open spec fn with_found_view(d: DiagnosticView, type_label: Seq<char>, source: Option<Seq<char>>) -> DiagnosticView {
    DiagnosticView { found: Some(TypeInfoView { type_label, reason: None, source }), ..d }
}

pub open spec fn with_hint_view(d: DiagnosticView, hint: Seq<char>) -> DiagnosticView {
    DiagnosticView { ai_prompt_hint: Some(hint), ..d }
}

pub open spec fn with_structured_view(
    d: DiagnosticView,
    message: Seq<char>,
    kind: Seq<char>,
    applicability: Seq<char>,
    confidence: u32,
) -> DiagnosticView {
    DiagnosticView {
        suggestions: d.suggestions.push(
            SuggestionView {
                message,
                kind: Some(kind),
                applicability: Some(applicability),
                confidence: Some(confidence),
                replacement: None,
            },
        ),
        ..d
    }
}

fn push_suggestion(v: &mut Vec<Suggestion>, s: Suggestion)
    ensures
        suggestions_view(final(v)@) == suggestions_view(old(v)@).push(s@),
{
    v.push(s);
    proof {
        assert(suggestions_view(v@) =~= suggestions_view(old(v)@).push(s@));
    }
}

impl Diagnostic {
    /// Create a simple error diagnostic
    pub fn error(code: &str, message: &str, location: SourceLocation) -> (r: Self)
        ensures
            r@ == error_view(code@, message@, location@),
    {
        let r = Diagnostic {
            error_code: code.to_owned(),
            severity: Severity::Error,
            message: message.to_owned(),
            location,
            ai_prompt_hint: None,
            expected: None,
            found: None,
            suggestions: Vec::new(),
            related: Vec::new(),
        };
        assert(suggestions_view(r.suggestions@) =~= Seq::<SuggestionView>::empty());
        assert(related_view(r.related@) =~= Seq::<RelatedView>::empty());
        r
    }

    /// Add expected type information
    pub fn with_expected(self, type_label: &str, reason: Option<String>) -> (r: Self)
        ensures
            r@ == with_expected_view(self@, type_label@, opt_text(reason)),
    {
        let mut d = self;
        d.expected = Some(TypeInfo { type_label: type_label.to_owned(), reason, source: None });
        d
    }

    /// Add found type information
    pub fn with_found(self, type_label: &str, source: Option<String>) -> (r: Self)
        ensures
            r@ == with_found_view(self@, type_label@, opt_text(source)),
    {
        let mut d = self;
        d.found = Some(TypeInfo { type_label: type_label.to_owned(), reason: None, source });
        d
    }

    /// Add a suggestion
    pub fn with_suggestion(self, message: &str) -> (r: Self)
        ensures
            r@ == (DiagnosticView {
                suggestions: self@.suggestions.push(
                    SuggestionView {
                        message: message@,
                        kind: None,
                        applicability: None,
                        confidence: None,
                        replacement: None,
                    },
                ),
                ..self@
            }),
    {
        let mut d = self;
        push_suggestion(
            &mut d.suggestions,
            Suggestion {
                message: message.to_owned(),
                kind: None,
                applicability: None,
                confidence: None,
                replacement: None,
            },
        );
        d
    }

    /// Add an AI-facing repair hint.
    pub fn with_ai_prompt_hint(self, hint: &str) -> (r: Self)
        ensures
            r@ == with_hint_view(self@, hint@),
    {
        let mut d = self;
        d.ai_prompt_hint = Some(hint.to_owned());
        d
    }

    /// Add a structured suggestion with a known action kind; the confidence
    /// is in thousandths.
    pub fn with_structured_suggestion(
        self,
        message: &str,
        kind: &str,
        applicability: &str,
        confidence: u32,
    ) -> (r: Self)
        ensures
            r@ == with_structured_view(self@, message@, kind@, applicability@, confidence),
    {
        let mut d = self;
        push_suggestion(
            &mut d.suggestions,
            Suggestion {
                message: message.to_owned(),
                kind: Some(kind.to_owned()),
                applicability: Some(applicability.to_owned()),
                confidence: Some(confidence),
                replacement: None,
            },
        );
        d
    }
}

/// Summary statistics for diagnostics
#[derive(Debug)]
pub struct DiagnosticSummary {
    pub total: usize,
    pub errors: usize,
    pub warnings: usize,
}

/// Prompt-ready compiler context for agent repair loops.
#[derive(Debug)]
pub struct AiPromptContext {
    pub purpose: String,
    pub summary: String,
    pub instructions: Vec<String>,
    pub prompt_addition: String,
}

/// Collection of diagnostics for JSON output
#[derive(Debug)]
pub struct DiagnosticOutput {
    pub schema_version: String,
    pub file: String,
    pub success: bool,
    pub diagnostics: Vec<Diagnostic>,
    pub ai_prompt_context: AiPromptContext,
    pub summary: Option<DiagnosticSummary>,
}

// ---------------------------------------------------------------------------
// The prompt addition
// ---------------------------------------------------------------------------
/// The number of diagnostics that the prompt spells out.
pub open spec fn prompt_limit() -> int {
    20
}

/// How many diagnostics have the given severity.
pub open spec fn count_severity(s: Seq<Diagnostic>, sev: Severity) -> nat
    decreases s.len(),
{
    if s.len() == 0 {
        0
    } else {
        count_severity(s.drop_last(), sev) + if s.last().severity == sev {
            1nat
        } else {
            0nat
        }
    }
}

/// Lines joined with newlines.
pub open spec fn join_lines(lines: Seq<Seq<char>>) -> Seq<char>
    decreases lines.len(),
{
    if lines.len() == 0 {
        Seq::empty()
    } else if lines.len() == 1 {
        lines[0]
    } else {
        join_lines(lines.drop_last()) + seq!['\n'] + lines.last()
    }
}

pub open spec fn summary_text(success: bool, errors: nat, warnings: nat) -> Seq<char> {
    if success {
        "Bunker check succeeded with "@ + decimal(warnings) + " warning(s)."@
    } else {
        "Bunker check failed with "@ + decimal(errors) + " error(s) and "@ + decimal(warnings)
            + " warning(s)."@
    }
}

/// Where a diagnostic points, for the prompt: `file:line:column`, or
/// `file:context` when line or column is unknown.
pub open spec fn prompt_location(l: LocationView) -> Seq<char> {
    match (l.line, l.column) {
        (Some(line), Some(column)) => l.file + ":"@ + decimal(line as nat) + ":"@ + decimal(
            column as nat,
        ),
        _ => l.file + ":"@ + match l.context {
            Some(c) => c,
            None => "unknown context"@,
        },
    }
}

/// The prompt lines of the diagnostic at index `idx`.
pub open spec fn diagnostic_lines(idx: nat, d: DiagnosticView) -> Seq<Seq<char>> {
    let head = decimal(idx + 1) + ". ["@ + d.error_code + "] "@ + d.message + " at "@
        + prompt_location(d.location);
    let hint = match d.ai_prompt_hint {
        Some(h) => seq!["   Hint: "@ + h],
        None => Seq::empty(),
    };
    let expected = match d.expected {
        Some(t) => seq!["   Expected: "@ + t.type_label],
        None => Seq::empty(),
    };
    let found = match d.found {
        Some(t) => seq!["   Found: "@ + t.type_label],
        None => Seq::empty(),
    };
    seq![head] + hint + expected + found
}

/// The prompt lines of the first `k` diagnostics.
pub open spec fn diagnostics_lines(ds: Seq<Diagnostic>, k: int) -> Seq<Seq<char>>
    decreases k,
{
    if k <= 0 || ds.len() == 0 {
        Seq::empty()
    } else {
        diagnostics_lines(ds, k - 1) + diagnostic_lines((k - 1) as nat, ds[k - 1]@)
    }
}

pub open spec fn min_int(a: int, b: int) -> int {
    if a < b {
        a
    } else {
        b
    }
}

/// All the lines of the prompt addition.
pub open spec fn prompt_lines(success: bool, errors: nat, warnings: nat, ds: Seq<Diagnostic>) -> Seq<
    Seq<char>,
> {
    let head = seq![summary_text(success, errors, warnings)];
    if success {
        head
    } else {
        let repair = seq![
            "Repair the source while preserving the user's intent. Prefer the smallest code change that satisfies the compiler."@,
        ];
        let listed = diagnostics_lines(ds, min_int(ds.len() as int, prompt_limit()));
        let rest = if ds.len() > prompt_limit() {
            seq![
                "Only the first 20 diagnostic(s) are included here. Use the full diagnostics array for the remaining "@
                    + decimal((ds.len() - prompt_limit()) as nat) + " item(s)."@,
            ]
        } else {
            Seq::empty()
        };
        head + repair + listed + rest
    }
}

pub open spec fn instructions() -> Seq<Seq<char>> {
    seq![
        "Use diagnostics as authoritative constraints."@,
        "Do not silence errors with raw i64 handle casts unless a diagnostic explicitly recommends an explicit typed roundtrip."@,
        "Prefer adding explicit type annotations over relying on inference when the compiler asks for context."@,
        "After editing, rerun bunker check with --format=json and use the new diagnostics as the next prompt addition."@,
    ]
}

// ---------------------------------------------------------------------------
// Building the prompt
// ---------------------------------------------------------------------------
pub open spec fn texts(v: Seq<String>) -> Seq<Seq<char>> {
    v.map_values(|s: String| s@)
}

fn push_decimal(s: &mut String, n: u64)
    ensures
        final(s)@ == old(s)@ + decimal(n as nat),
{
    let digits = decimal_exec(n);
    push_chars(s, digits.as_slice());
}

proof fn lemma_join_push(lines: Seq<Seq<char>>, l: Seq<char>)
    requires
        lines.len() >= 1,
    ensures
        join_lines(lines.push(l)) == join_lines(lines) + seq!['\n'] + l,
{
    assert(lines.push(l).drop_last() =~= lines);
}

/// Appends lines, each after a newline.
fn append_lines(out: &mut String, Ghost(lines): Ghost<Seq<Seq<char>>>, more: &Vec<String>)
    requires
        old(out)@ == join_lines(lines),
        lines.len() >= 1,
    ensures
        final(out)@ == join_lines(lines + texts(more@)),
{
    let ghost mut done = lines;
    let n = more.len();
    for j in 0..n
        invariant
            n == more@.len(),
            done == lines + texts(more@.take(j as int)),
            done.len() >= 1,
            out@ == join_lines(done),
    {
        proof {
            lemma_join_push(done, more@[j as int]@);
            assert(texts(more@.take(j + 1)) =~= texts(more@.take(j as int)).push(more@[j as int]@));
            assert(lines + texts(more@.take(j + 1)) =~= done.push(more@[j as int]@));
        }
        push_char(out, '\n');
        push_str(out, more[j].as_str());
        proof {
            assert(out@ =~= join_lines(done) + seq!['\n'] + more@[j as int]@);
            done = done.push(more@[j as int]@);
        }
    }
    assert(more@.take(n as int) =~= more@);
}

fn location_text(l: &SourceLocation) -> (r: String)
    ensures
        r@ == prompt_location(l@),
{
    let mut r = l.file.clone();
    push_str(&mut r, ":");
    match (l.line, l.column) {
        (Some(line), Some(column)) => {
            push_decimal(&mut r, line as u64);
            push_str(&mut r, ":");
            push_decimal(&mut r, column as u64);
        },
        _ => match &l.context {
            Some(c) => push_str(&mut r, c.as_str()),
            None => push_str(&mut r, "unknown context"),
        },
    }
    r
}

/// The prompt lines of one diagnostic.
fn diagnostic_prompt_lines(idx: usize, d: &Diagnostic) -> (r: Vec<String>)
    requires
        idx < usize::MAX,
    ensures
        texts(r@) == diagnostic_lines(idx as nat, d@),
{
    let mut head = String::new();
    push_decimal(&mut head, (idx + 1) as u64);
    push_str(&mut head, ". [");
    push_str(&mut head, d.error_code.as_str());
    push_str(&mut head, "] ");
    push_str(&mut head, d.message.as_str());
    push_str(&mut head, " at ");
    let loc = location_text(&d.location);
    push_str(&mut head, loc.as_str());
    let mut r: Vec<String> = Vec::new();
    r.push(head);
    let ghost mut hint: Seq<Seq<char>> = Seq::empty();
    let ghost mut expected: Seq<Seq<char>> = Seq::empty();
    let ghost mut found: Seq<Seq<char>> = Seq::empty();
    if let Some(h) = &d.ai_prompt_hint {
        let mut line = "   Hint: ".to_owned();
        push_str(&mut line, h.as_str());
        proof {
            hint = seq![line@];
        }
        r.push(line);
    }
    let ghost after_hint = r@;
    if let Some(t) = &d.expected {
        let mut line = "   Expected: ".to_owned();
        push_str(&mut line, t.type_label.as_str());
        proof {
            expected = seq![line@];
        }
        r.push(line);
    }
    let ghost after_expected = r@;
    if let Some(t) = &d.found {
        let mut line = "   Found: ".to_owned();
        push_str(&mut line, t.type_label.as_str());
        proof {
            found = seq![line@];
        }
        r.push(line);
    }
    proof {
        let dl = diagnostic_lines(idx as nat, d@);
        assert(texts(r@) =~= seq![r@[0]@] + hint + expected + found);
        assert(r@[0]@ =~= decimal((idx + 1) as nat) + ". ["@ + d@.error_code + "] "@ + d@.message
            + " at "@ + prompt_location(d@.location));
        assert(texts(r@) =~= dl);
    }
    r
}

/// The prompt context: a summary, fixed instructions, and the prompt
/// addition that lists the first diagnostics.
fn build_ai_prompt_context(success: bool, errors: usize, warnings: usize, diagnostics: &[Diagnostic]) -> (r:
    AiPromptContext)
    ensures
        r.purpose@ == "Compiler feedback for AI repair loops"@,
        r.summary@ == summary_text(success, errors as nat, warnings as nat),
        texts(r.instructions@) == instructions(),
        r.prompt_addition@ == join_lines(
            prompt_lines(success, errors as nat, warnings as nat, diagnostics@),
        ),
{
    let mut summary = String::new();
    if success {
        push_str(&mut summary, "Bunker check succeeded with ");
        push_decimal(&mut summary, warnings as u64);
        push_str(&mut summary, " warning(s).");
    } else {
        push_str(&mut summary, "Bunker check failed with ");
        push_decimal(&mut summary, errors as u64);
        push_str(&mut summary, " error(s) and ");
        push_decimal(&mut summary, warnings as u64);
        push_str(&mut summary, " warning(s).");
    }
    assert(summary@ =~= summary_text(success, errors as nat, warnings as nat));
    let mut out = summary.clone();
    let ghost mut lines: Seq<Seq<char>> = seq![summary@];
    assert(join_lines(lines) == summary@);
    if !success {
        let mut repair: Vec<String> = Vec::new();
        repair.push(
            "Repair the source while preserving the user's intent. Prefer the smallest code change that satisfies the compiler.".to_owned(),
        );
        append_lines(&mut out, Ghost(lines), &repair);
        proof {
            lines = lines + texts(repair@);
        }
        let n = diagnostics.len();
        let limit: usize = if n < 20 {
            n
        } else {
            20
        };
        let ghost start = lines;
        for i in 0..limit
            invariant
                limit == min_int(diagnostics@.len() as int, prompt_limit()),
                n == diagnostics@.len(),
                lines == start + diagnostics_lines(diagnostics@, i as int),
                lines.len() >= 1,
                out@ == join_lines(lines),
        {
            let more = diagnostic_prompt_lines(i, &diagnostics[i]);
            append_lines(&mut out, Ghost(lines), &more);
            proof {
                assert(start + diagnostics_lines(diagnostics@, i + 1) =~= lines + texts(more@));
                lines = lines + texts(more@);
            }
        }
        if n > 20 {
            let mut last = "Only the first 20 diagnostic(s) are included here. Use the full diagnostics array for the remaining ".to_owned();
            push_decimal(&mut last, (n - 20) as u64);
            push_str(&mut last, " item(s).");
            let mut tail: Vec<String> = Vec::new();
            tail.push(last);
            append_lines(&mut out, Ghost(lines), &tail);
            proof {
                lines = lines + texts(tail@);
            }
        }
        proof {
            let pl = prompt_lines(success, errors as nat, warnings as nat, diagnostics@);
            assert(lines =~= pl);
        }
    }
    let mut instructions_v: Vec<String> = Vec::new();
    instructions_v.push("Use diagnostics as authoritative constraints.".to_owned());
    instructions_v.push(
        "Do not silence errors with raw i64 handle casts unless a diagnostic explicitly recommends an explicit typed roundtrip.".to_owned(),
    );
    instructions_v.push(
        "Prefer adding explicit type annotations over relying on inference when the compiler asks for context.".to_owned(),
    );
    instructions_v.push(
        "After editing, rerun bunker check with --format=json and use the new diagnostics as the next prompt addition.".to_owned(),
    );
    assert(texts(instructions_v@) =~= instructions());
    AiPromptContext {
        purpose: "Compiler feedback for AI repair loops".to_owned(),
        summary,
        instructions: instructions_v,
        prompt_addition: out,
    }
}

impl DiagnosticOutput {
    /// Collects diagnostics: counts errors and warnings, succeeds when there
    /// is no error, and prepares the prompt context.
    pub fn new(file: &str, diagnostics: Vec<Diagnostic>) -> (r: Self)
        ensures
            r.schema_version@ == "bunker.diagnostics.v1"@,
            r.file@ == file@,
            r.diagnostics@ == diagnostics@,
            r.success == (count_severity(diagnostics@, Severity::Error) == 0),
            r.summary matches Some(s) && s.total == diagnostics@.len() && s.errors == count_severity(
                diagnostics@,
                Severity::Error,
            ) && s.warnings == count_severity(diagnostics@, Severity::Warning),
            r.ai_prompt_context.purpose@ == "Compiler feedback for AI repair loops"@,
            r.ai_prompt_context.summary@ == summary_text(
                r.success,
                count_severity(diagnostics@, Severity::Error),
                count_severity(diagnostics@, Severity::Warning),
            ),
            texts(r.ai_prompt_context.instructions@) == instructions(),
            r.ai_prompt_context.prompt_addition@ == join_lines(
                prompt_lines(
                    r.success,
                    count_severity(diagnostics@, Severity::Error),
                    count_severity(diagnostics@, Severity::Warning),
                    diagnostics@,
                ),
            ),
    {
        let mut errors: usize = 0;
        let mut warnings: usize = 0;
        let n = diagnostics.len();
        for i in 0..n
            invariant
                n == diagnostics@.len(),
                errors == count_severity(diagnostics@.take(i as int), Severity::Error),
                warnings == count_severity(diagnostics@.take(i as int), Severity::Warning),
                errors <= i,
                warnings <= i,
        {
            assert(diagnostics@.take(i + 1).drop_last() =~= diagnostics@.take(i as int));
            if diagnostics[i].severity == Severity::Error {
                errors = errors + 1;
            }
            if diagnostics[i].severity == Severity::Warning {
                warnings = warnings + 1;
            }
        }
        assert(diagnostics@.take(n as int) =~= diagnostics@);
        let success = errors == 0;
        let ai_prompt_context = build_ai_prompt_context(
            success,
            errors,
            warnings,
            diagnostics.as_slice(),
        );
        DiagnosticOutput {
            schema_version: "bunker.diagnostics.v1".to_owned(),
            file: file.to_owned(),
            success,
            diagnostics,
            ai_prompt_context,
            summary: Some(DiagnosticSummary { total: n, errors, warnings }),
        }
    }
}

} // verus!
