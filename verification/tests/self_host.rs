use bunker_cli::diagnostic::{Diagnostic, SourceLocation};
use bunker_cli::self_host::{copy_diagnostic, readiness_report};

fn diag(code: &str, message: &str, file: &str) -> Diagnostic {
    Diagnostic::error(code, message, SourceLocation::with_position(file, 3, 7))
        .with_ai_prompt_hint("fix it")
}

#[test]
fn test_readiness_report_all_passing() {
    let report = readiness_report(
        "selfhost",
        vec![("a.bkr".to_string(), vec![]), ("b.bkr".to_string(), vec![])],
    );
    assert_eq!(report.schema_version, "bunker.self_host_readiness.v1");
    assert_eq!(report.directory, "selfhost");
    assert!(report.success);
    assert!(report.can_continue_in_bunker);
    assert_eq!(report.summary.total_files, 2);
    assert_eq!(report.summary.passing_files, 2);
    assert_eq!(report.summary.failing_files, 0);
    assert_eq!(report.summary.total_diagnostics, 0);
    assert!(report.blockers.is_empty());
    assert_eq!(
        report.ai_prompt_context.summary,
        "Bunker check succeeded with 0 warning(s)."
    );
}

#[test]
fn test_readiness_report_with_failures() {
    let report = readiness_report(
        "selfhost",
        vec![
            ("a.bkr".to_string(), vec![diag("E0001", "first", "a.bkr"), diag("E0002", "second", "a.bkr")]),
            ("b.bkr".to_string(), vec![]),
            ("c.bkr".to_string(), vec![diag("E0003", "third", "c.bkr")]),
        ],
    );
    assert!(!report.success);
    assert!(!report.can_continue_in_bunker);
    assert_eq!(report.summary.total_files, 3);
    assert_eq!(report.summary.passing_files, 1);
    assert_eq!(report.summary.failing_files, 2);
    assert_eq!(report.summary.total_diagnostics, 3);
    assert_eq!(report.blockers, vec!["a.bkr: first".to_string(), "c.bkr: third".to_string()]);
    assert_eq!(report.files.len(), 3);
    assert!(!report.files[0].success);
    assert!(report.files[1].success);
    assert_eq!(report.files[0].diagnostics.len(), 2);
    assert_eq!(report.files[2].diagnostics[0].message, "third");
    assert_eq!(
        report.ai_prompt_context.summary,
        "Bunker check failed with 3 error(s) and 0 warning(s)."
    );
    assert!(report
        .ai_prompt_context
        .prompt_addition
        .contains("3. [E0003] third at c.bkr:3:7"));
}

#[test]
fn test_copy_diagnostic_keeps_fields() {
    let d = diag("E0100", "msg", "x.bkr").with_expected("i32", None).with_suggestion("try");
    let c = copy_diagnostic(&d);
    assert_eq!(c.error_code, "E0100");
    assert_eq!(c.message, "msg");
    assert_eq!(c.location.line, Some(3));
    assert_eq!(c.ai_prompt_hint.as_deref(), Some("fix it"));
    assert_eq!(c.expected.as_ref().map(|t| t.type_label.clone()), Some("i32".to_string()));
    assert_eq!(c.suggestions.len(), 1);
    assert_eq!(c.suggestions[0].message, "try");
}
