//! The readiness report of the self-hosted compiler sources: which source
//! files pass the checks, what blocks the others, and the prompt context
//! for the whole directory.
use vstd::prelude::*;
use crate::ast::copy_opt_string;
use crate::diagnostic::{
    AiPromptContext, Diagnostic, DiagnosticOutput, RelatedInfo, Replacement, Severity,
    SourceLocation, Suggestion, TypeInfo, count_severity, prompt_lines, summary_text, join_lines,
    texts, instructions,
};
use crate::text::push_str;

verus! {

/// The checks of one source file.
#[derive(Debug)]
pub struct SelfHostFileReport {
    pub file: String,
    pub success: bool,
    pub diagnostics: Vec<Diagnostic>,
}

/// File and diagnostic counts of a readiness report.
#[derive(Debug)]
pub struct SelfHostSummary {
    pub total_files: usize,
    pub passing_files: usize,
    pub failing_files: usize,
    pub total_diagnostics: usize,
}

/// Whether the self-hosted compiler sources pass the current checks.
#[derive(Debug)]
pub struct SelfHostReadinessReport {
    pub schema_version: String,
    pub directory: String,
    pub success: bool,
    pub can_continue_in_bunker: bool,
    pub summary: SelfHostSummary,
    pub files: Vec<SelfHostFileReport>,
    pub blockers: Vec<String>,
    pub ai_prompt_context: AiPromptContext,
}

/// The diagnostics of all files, file after file.
pub open spec fn flat_diagnostics(files: Seq<(String, Vec<Diagnostic>)>) -> Seq<Diagnostic>
    decreases files.len(),
{
    if files.len() == 0 {
        Seq::empty()
    } else {
        flat_diagnostics(files.drop_last()) + files.last().1@
    }
}

/// How many files have no diagnostic.
pub open spec fn passing_count(files: Seq<(String, Vec<Diagnostic>)>) -> nat
    decreases files.len(),
{
    if files.len() == 0 {
        0
    } else {
        passing_count(files.drop_last()) + if files.last().1@.len() == 0 {
            1nat
        } else {
            0nat
        }
    }
}

/// For each failing file, in order: its name, `: ` and the message of its
/// first diagnostic.
pub open spec fn blocker_lines(files: Seq<(String, Vec<Diagnostic>)>) -> Seq<Seq<char>>
    decreases files.len(),
{
    if files.len() == 0 {
        Seq::empty()
    } else {
        let before = blocker_lines(files.drop_last());
        let (file, ds) = files.last();
        if ds@.len() == 0 {
            before
        } else {
            before.push(file@ + ": "@ + ds@[0].message@)
        }
    }
}

// ---------------------------------------------------------------------------
// Copies of diagnostics
// ---------------------------------------------------------------------------
fn copy_location(l: &SourceLocation) -> (r: SourceLocation)
    ensures
        r@ == l@,
{
    SourceLocation {
        file: l.file.clone(),
        line: l.line,
        column: l.column,
        end_line: l.end_line,
        end_column: l.end_column,
        span_length: l.span_length,
        source_line: copy_opt_string(&l.source_line),
        context: copy_opt_string(&l.context),
    }
}

fn copy_type_info(t: &Option<TypeInfo>) -> (r: Option<TypeInfo>)
    ensures
        match (r, *t) {
            (Some(a), Some(b)) => a@ == b@,
            (None, None) => true,
            _ => false,
        },
{
    match t {
        Some(info) => Some(
            TypeInfo {
                type_label: info.type_label.clone(),
                reason: copy_opt_string(&info.reason),
                source: copy_opt_string(&info.source),
            },
        ),
        None => None,
    }
}

fn copy_suggestion(s: &Suggestion) -> (r: Suggestion)
    ensures
        r@ == s@,
{
    let replacement = match &s.replacement {
        Some(rep) => Some(
            Replacement {
                start_line: rep.start_line,
                start_column: rep.start_column,
                end_line: rep.end_line,
                end_column: rep.end_column,
                text: rep.text.clone(),
            },
        ),
        None => None,
    };
    Suggestion {
        message: s.message.clone(),
        kind: copy_opt_string(&s.kind),
        applicability: copy_opt_string(&s.applicability),
        confidence: s.confidence,
        replacement,
    }
}

/// A copy of a diagnostic, equal to it in every part that the view shows.
pub fn copy_diagnostic(d: &Diagnostic) -> (r: Diagnostic)
    ensures
        r@ == d@,
        r.severity == d.severity,
{
    let mut suggestions: Vec<Suggestion> = Vec::new();
    for i in 0..d.suggestions.len()
        invariant
            suggestions@.len() == i,
            forall|j: int| 0 <= j < i ==> (#[trigger] suggestions@[j])@ == d.suggestions@[j]@,
    {
        suggestions.push(copy_suggestion(&d.suggestions[i]));
    }
    let mut related: Vec<RelatedInfo> = Vec::new();
    for i in 0..d.related.len()
        invariant
            related@.len() == i,
            forall|j: int| 0 <= j < i ==> (#[trigger] related@[j])@ == d.related@[j]@,
    {
        related.push(
            RelatedInfo {
                location: copy_location(&d.related[i].location),
                message: d.related[i].message.clone(),
            },
        );
    }
    let r = Diagnostic {
        error_code: d.error_code.clone(),
        severity: d.severity,
        message: d.message.clone(),
        location: copy_location(&d.location),
        ai_prompt_hint: copy_opt_string(&d.ai_prompt_hint),
        expected: copy_type_info(&d.expected),
        found: copy_type_info(&d.found),
        suggestions,
        related,
    };
    proof {
        assert(crate::diagnostic::suggestions_view(r.suggestions@) =~= crate::diagnostic::suggestions_view(d.suggestions@));
        assert(crate::diagnostic::related_view(r.related@) =~= crate::diagnostic::related_view(d.related@));
        assert(crate::diagnostic::opt_type_info(r.expected) == crate::diagnostic::opt_type_info(d.expected));
        assert(crate::diagnostic::opt_type_info(r.found) == crate::diagnostic::opt_type_info(d.found));
    }
    r
}

/// Lists of diagnostics that agree view by view.
pub open spec fn same_views(a: Seq<Diagnostic>, b: Seq<Diagnostic>) -> bool {
    a.len() == b.len() && forall|i: int| 0 <= i < a.len() ==> (#[trigger] a[i])@ == b[i]@
}

proof fn lemma_same_views_count(a: Seq<Diagnostic>, b: Seq<Diagnostic>, sev: Severity)
    requires
        same_views(a, b),
    ensures
        count_severity(a, sev) == count_severity(b, sev),
    decreases a.len(),
{
    if a.len() > 0 {
        assert(a.last()@ == b.last()@);
        lemma_same_views_count(a.drop_last(), b.drop_last(), sev);
    }
}

proof fn lemma_same_views_lines(a: Seq<Diagnostic>, b: Seq<Diagnostic>, k: int)
    requires
        same_views(a, b),
        k <= a.len(),
    ensures
        crate::diagnostic::diagnostics_lines(a, k) == crate::diagnostic::diagnostics_lines(b, k),
    decreases k,
{
    if k > 0 && a.len() > 0 {
        lemma_same_views_lines(a, b, k - 1);
        assert(a[k - 1]@ == b[k - 1]@);
    }
}

/// The prompt of a list of diagnostics depends on their views alone.
proof fn lemma_same_views_prompt(a: Seq<Diagnostic>, b: Seq<Diagnostic>, success: bool, errors: nat, warnings: nat)
    requires
        same_views(a, b),
    ensures
        prompt_lines(success, errors, warnings, a) == prompt_lines(success, errors, warnings, b),
{
    lemma_same_views_lines(a, b, crate::diagnostic::min_int(a.len() as int, crate::diagnostic::prompt_limit()));
}

/// Builds the readiness report of a directory of self-hosted sources from
/// the diagnostics of each file, in the order given: a file passes when it
/// has no diagnostic; the directory is ready when every file passes; each
/// failing file is a blocker, shown with its first diagnostic; and the
/// prompt context is that of all diagnostics, file after file.
pub fn readiness_report(directory: &str, files: Vec<(String, Vec<Diagnostic>)>) -> (r: SelfHostReadinessReport)
    ensures
        r.schema_version@ == "bunker.self_host_readiness.v1"@,
        r.directory@ == directory@,
        r.files@.len() == files@.len(),
        forall|i: int| 0 <= i < files@.len() ==> {
            &&& (#[trigger] r.files@[i]).file == files@[i].0
            &&& r.files@[i].success == (files@[i].1@.len() == 0)
            &&& r.files@[i].diagnostics@ == files@[i].1@
        },
        r.summary.total_files == files@.len(),
        r.summary.passing_files == passing_count(files@),
        r.summary.failing_files == files@.len() - passing_count(files@),
        r.summary.total_diagnostics == flat_diagnostics(files@).len(),
        r.success == (passing_count(files@) == files@.len()),
        r.can_continue_in_bunker == r.success,
        texts(r.blockers@) == blocker_lines(files@),
        ({
            let ds = flat_diagnostics(files@);
            let errors = count_severity(ds, Severity::Error);
            let warnings = count_severity(ds, Severity::Warning);
            &&& r.ai_prompt_context.purpose@ == "Compiler feedback for AI repair loops"@
            &&& r.ai_prompt_context.summary@ == summary_text(errors == 0, errors, warnings)
            &&& texts(r.ai_prompt_context.instructions@) == instructions()
            &&& r.ai_prompt_context.prompt_addition@ == join_lines(
                prompt_lines(errors == 0, errors, warnings, ds),
            )
        }),
{
    let ghost orig = files@;
    let n = files.len();
    let mut all: Vec<Diagnostic> = Vec::new();
    let mut passing: usize = 0;
    let mut blockers: Vec<String> = Vec::new();
    for i in 0..n
        invariant
            n == files@.len(),
            orig == files@,
            same_views(all@, flat_diagnostics(orig.take(i as int))),
            passing == passing_count(orig.take(i as int)),
            passing <= i,
            texts(blockers@) == blocker_lines(orig.take(i as int)),
    {
        assert(orig.take(i + 1).drop_last() =~= orig.take(i as int));
        let ds = &files[i].1;
        let ghost before = all@;
        for j in 0..ds.len()
            invariant
                ds == files@[i as int].1,
                before.len() + j == all@.len(),
                all@.subrange(0, before.len() as int) == before,
                forall|m: int| 0 <= m < j ==> (#[trigger] all@[before.len() + m])@ == ds@[m]@,
        {
            all.push(copy_diagnostic(&ds[j]));
        }
        proof {
            let fl = flat_diagnostics(orig.take(i + 1));
            assert(fl == flat_diagnostics(orig.take(i as int)) + ds@);
            let prev = flat_diagnostics(orig.take(i as int));
            assert forall|m: int| 0 <= m < all@.len() implies (#[trigger] all@[m])@ == fl[m]@ by {
                if m < before.len() {
                    assert(all@.subrange(0, before.len() as int)[m] == before[m]);
                    assert(all@[m] == before[m]);
                    assert(before[m]@ == prev[m]@);
                    assert(fl[m] == prev[m]);
                } else {
                    let m2 = m - before.len();
                    assert(all@[before.len() + m2]@ == ds@[m2]@);
                    assert(fl[m] == ds@[m2]);
                }
            }
        }
        if ds.len() == 0 {
            passing = passing + 1;
        } else {
            let mut line = files[i].0.clone();
            push_str(&mut line, ": ");
            push_str(&mut line, ds[0].message.as_str());
            blockers.push(line);
            proof {
                assert(texts(blockers@) =~= texts(blockers@.drop_last()).push(line@));
            }
        }
    }
    proof {
        assert(orig.take(n as int) =~= orig);
    }
    let total_diagnostics = all.len();
    let ghost all_seq = all@;
    let output = DiagnosticOutput::new(directory, all);
    proof {
        let ds = flat_diagnostics(orig);
        lemma_same_views_count(all_seq, ds, Severity::Error);
        lemma_same_views_count(all_seq, ds, Severity::Warning);
        let errors = count_severity(ds, Severity::Error);
        let warnings = count_severity(ds, Severity::Warning);
        lemma_same_views_prompt(all_seq, ds, errors == 0, errors, warnings);
    }
    let mut files = files;
    let mut reports: Vec<SelfHostFileReport> = Vec::new();
    let mut k: usize = 0;
    while k < n
        invariant
            k <= n,
            n == orig.len(),
            files@ == orig.subrange(k as int, n as int),
            reports@.len() == k,
            forall|i: int| 0 <= i < k ==> {
                &&& (#[trigger] reports@[i]).file == orig[i].0
                &&& reports@[i].success == (orig[i].1@.len() == 0)
                &&& reports@[i].diagnostics@ == orig[i].1@
            },
        decreases n - k,
    {
        let (file, diagnostics) = files.remove(0);
        let success = diagnostics.len() == 0;
        reports.push(SelfHostFileReport { file, success, diagnostics });
        proof {
            assert(orig.subrange(k + 1, n as int) =~= orig.subrange(k as int, n as int).remove(0));
        }
        k = k + 1;
    }
    let success = passing == n;
    SelfHostReadinessReport {
        schema_version: "bunker.self_host_readiness.v1".to_owned(),
        directory: directory.to_owned(),
        success,
        can_continue_in_bunker: success,
        summary: SelfHostSummary {
            total_files: n,
            passing_files: passing,
            failing_files: n - passing,
            total_diagnostics,
        },
        files: reports,
        blockers,
        ai_prompt_context: output.ai_prompt_context,
    }
}

/// A directory is ready exactly when no file has a diagnostic, and it has
/// one blocker line for each failing file.
pub proof fn lemma_ready_iff_all_pass(files: Seq<(String, Vec<Diagnostic>)>)
    ensures
        passing_count(files) <= files.len(),
        (passing_count(files) == files.len()) <==> (forall|i: int| 0 <= i < files.len() ==> (#[trigger] files[i]).1@.len() == 0),
        blocker_lines(files).len() == files.len() - passing_count(files),
    decreases files.len(),
{
    if files.len() > 0 {
        let before = files.drop_last();
        lemma_ready_iff_all_pass(before);
        if passing_count(files) == files.len() {
            assert forall|i: int| 0 <= i < files.len() implies (#[trigger] files[i]).1@.len() == 0 by {
                if i < files.len() - 1 {
                    assert(before[i] == files[i]);
                }
            }
        }
        if forall|i: int| 0 <= i < files.len() ==> (#[trigger] files[i]).1@.len() == 0 {
            assert forall|i: int| 0 <= i < before.len() implies (#[trigger] before[i]).1@.len() == 0 by {
                assert(before[i] == files[i]);
            }
            assert(files[files.len() - 1].1@.len() == 0);
        }
    }
}

} // verus!
