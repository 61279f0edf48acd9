use bunker_cli::diagnostic::analysis::{
    extract_quoted_name_after, extract_type_mismatch, parse_type_error_message,
    type_error_search_needles,
};
use bunker_cli::diagnostic::codes;
use bunker_cli::diagnostic::{
    parse_error_diagnostic, type_error_to_diagnostic_with_source,
    verify_error_to_diagnostic_with_source, Diagnostic, DiagnosticOutput, ErrorPosition, Severity,
    SourceLocation, TypeError, VerifyError,
};

#[test]
fn test_extract_type_mismatch() {
    let msg = "Type mismatch in let binding 'x': declared i32, got f64";
    let result = extract_type_mismatch(msg);
    assert_eq!(result, Some(("i32".to_string(), "f64".to_string())));
}

#[test]
fn test_success_output() {
    let output = DiagnosticOutput::new("test.bkr", vec![]);
    assert!(output.success);
    assert_eq!(output.summary.as_ref().unwrap().errors, 0);
}

#[test]
fn test_ai_prompt_context_caps_large_diagnostic_sets() {
    let diagnostics: Vec<_> = (0..25)
        .map(|idx| {
            Diagnostic::error(
                codes::TYPE_MISMATCH,
                &format!("diagnostic {}", idx),
                SourceLocation::with_context("test.bkr", "main"),
            )
        })
        .collect();

    let output = DiagnosticOutput::new("test.bkr", diagnostics);
    assert!(output
        .ai_prompt_context
        .prompt_addition
        .contains("Only the first 20 diagnostic(s)"));
}

#[test]
fn test_type_error_uses_offending_call_location() {
    let source = r#"kernel Demo {
    fn main() -> i32 {
        let values: Vec<i32> = vec_new();
        vec_push(values, "oops");
        return 0;
    }
}
"#;
    let err = TypeError {
        message: "vec_push value type mismatch: expected I32, got Str".to_string(),
        location: "main".to_string(),
    };

    let diag = type_error_to_diagnostic_with_source(&err, "test.bkr", Some(source));
    assert_eq!(diag.location.line, Some(4));
    assert_eq!(diag.location.column, Some(9));
    assert_eq!(
        diag.location.source_line.as_deref(),
        Some("        vec_push(values, \"oops\");")
    );
}

#[test]
fn test_diagnostic_output_fields() {
    let diag = Diagnostic::error(
        codes::TYPE_MISMATCH,
        "Type mismatch: expected i32, got String",
        SourceLocation::with_context("test.bkr", "function add"),
    )
    .with_expected("i32", Some("declared return type".to_string()))
    .with_found("String", None);
    let output = DiagnosticOutput::new("test.bkr", vec![diag]);
    assert_eq!(output.diagnostics[0].error_code, "E0201");
    assert!(!output.success);
    assert_eq!(output.summary.as_ref().unwrap().errors, 1);
    assert_eq!(output.summary.as_ref().unwrap().total, 1);
    assert_eq!(output.schema_version, "bunker.diagnostics.v1");
    assert_eq!(
        output.ai_prompt_context.summary,
        "Bunker check failed with 1 error(s) and 0 warning(s)."
    );
    assert_eq!(
        output.ai_prompt_context.prompt_addition,
        "Bunker check failed with 1 error(s) and 0 warning(s).\n\
         Repair the source while preserving the user's intent. Prefer the smallest code change that satisfies the compiler.\n\
         1. [E0201] Type mismatch: expected i32, got String at test.bkr:function add\n   Expected: i32\n   Found: String"
    );
    assert_eq!(output.ai_prompt_context.instructions.len(), 4);
}

#[test]
fn test_warnings_do_not_fail() {
    let mut warn = Diagnostic::error(
        codes::TYPE_MISMATCH,
        "something odd",
        SourceLocation::with_position("a.bkr", 3, 7),
    );
    warn.severity = Severity::Warning;
    let output = DiagnosticOutput::new("a.bkr", vec![warn]);
    assert!(output.success);
    assert_eq!(output.summary.as_ref().unwrap().warnings, 1);
    assert_eq!(
        output.ai_prompt_context.prompt_addition,
        "Bunker check succeeded with 1 warning(s)."
    );
}

#[test]
fn test_span_length_at_least_one() {
    let l = SourceLocation::with_span("f", 1, 5, 1, 5);
    assert_eq!(l.span_length, Some(1));
    let l = SourceLocation::with_span("f", 1, 5, 1, 9);
    assert_eq!(l.span_length, Some(4));
    let l = SourceLocation::with_span("f", 1, 9, 2, 3);
    assert_eq!(l.span_length, Some(1));
    let l = SourceLocation::with_context("f", "main").with_source_line("x").with_context_value("y");
    assert_eq!(l.source_line.as_deref(), Some("x"));
    assert_eq!(l.context.as_deref(), Some("y"));
}

#[test]
fn test_parse_type_error_codes() {
    let (code, expected, found) =
        parse_type_error_message("Return type mismatch: expected i32, got bool");
    assert_eq!(code, "E0201");
    assert_eq!(
        expected,
        Some(("i32".to_string(), Some("declared type".to_string())))
    );
    assert_eq!(found, Some(("bool".to_string(), None)));
    assert_eq!(parse_type_error_message("Use of moved value: x").0, "E0401");
    assert_eq!(parse_type_error_message("Undefined variable: y").0, "E0202");
    assert_eq!(parse_type_error_message("Cannot index into bool").0, "E0208");
    assert_eq!(parse_type_error_message("something else").0, "E0201");
}

#[test]
fn test_search_needles() {
    let n = type_error_search_needles("Undefined function:  helper ");
    assert_eq!(n, vec!["helper(".to_string()]);
    let n = type_error_search_needles("Condition must be bool in vec_len call");
    assert_eq!(
        n,
        vec!["vec_len(".to_string(), "if ".to_string(), "while ".to_string()]
    );
    assert_eq!(
        extract_quoted_name_after("in let binding 'total': bad", "let binding"),
        Some("total".to_string())
    );
    assert_eq!(extract_quoted_name_after("no quotes here", "let binding"), None);
}

#[test]
fn test_verify_error_codes_and_hints() {
    let err = VerifyError {
        message: "SMT timeout while checking".to_string(),
        location: "add".to_string(),
    };
    let source = "kernel K {\n    fn add(a: i32) -> i32 {\n        return a;\n    }\n}\n";
    let d = verify_error_to_diagnostic_with_source(&err, "k.bkr", Some(source));
    assert_eq!(d.error_code, "E0303");
    assert_eq!(d.location.line, Some(2));
    assert_eq!(d.location.column, Some(5));
    assert_eq!(d.location.span_length, Some(7));
    assert_eq!(
        d.ai_prompt_hint.as_deref(),
        Some("Use the error code, expected/found fields, and source context as constraints for the next repair attempt.")
    );
    let none = verify_error_to_diagnostic_with_source(&err, "k.bkr", None);
    assert_eq!(none.location.context.as_deref(), Some("add"));
    assert_eq!(none.location.line, None);
}

#[test]
fn test_enrich_moved_value() {
    let err = TypeError {
        message: "Use of moved value: v".to_string(),
        location: "main".to_string(),
    };
    let d = type_error_to_diagnostic_with_source(&err, "t.bkr", None);
    assert_eq!(d.error_code, "E0401");
    assert_eq!(d.suggestions.len(), 1);
    assert_eq!(d.suggestions[0].confidence, Some(820));
    assert_eq!(d.suggestions[0].kind.as_deref(), Some("fix_move_semantics"));
}

#[test]
fn test_parse_error_position() {
    let source = "kernel K {\n  fn f( {\n}\n";
    let d = parse_error_diagnostic(ErrorPosition::Pos(2, 8), "expected ident", "p.bkr", source);
    assert_eq!(d.error_code, "E0101");
    assert_eq!(d.message, "Parse error: expected ident");
    assert_eq!(d.location.line, Some(2));
    assert_eq!(d.location.column, Some(8));
    assert_eq!(d.location.end_column, Some(9));
    assert_eq!(d.location.span_length, Some(1));
    assert_eq!(d.location.source_line.as_deref(), Some("  fn f( {"));
    assert_eq!(d.location.context.as_deref(), Some("parsing"));
    let d = parse_error_diagnostic(ErrorPosition::Span(1, 3, 1, 10), "bad", "p.bkr", source);
    assert_eq!(d.location.span_length, Some(7));
}

#[derive(Clone, Copy, Debug, PartialEq, Eq, Hash, PartialOrd, Ord)]
enum TestRule {
    File,
}

#[test]
fn test_parse_error_from_pest() {
    let source = "kernel K {\n  fn f( {\n}\n";
    let pos = pest::Position::new(source, 16).unwrap();
    let err: pest::error::Error<TestRule> = pest::error::Error::new_from_pos(
        pest::error::ErrorVariant::ParsingError {
            positives: vec![TestRule::File],
            negatives: vec![],
        },
        pos,
    );
    let d = bunker_cli::diagnostic::parse_error_to_diagnostic(&err, "p.bkr", source);
    assert_eq!(d.error_code, "E0101");
    assert_eq!(d.message, "Parse error: expected File");
    assert_eq!(d.location.line, Some(2));
    assert_eq!(d.location.column, Some(6));
    assert_eq!(d.location.end_column, Some(7));
    assert_eq!(d.location.source_line.as_deref(), Some("  fn f( {"));
}
