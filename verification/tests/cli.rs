use bunker_cli::cli::{parse_run_args, parse_self_host_import};
use bunker_cli::shell_runtime::RunOptions;

#[test]
fn test_parse_self_host_import() {
    assert_eq!(
        parse_self_host_import("  import \"lib/util.bkr\" ;  "),
        Some("lib/util.bkr".to_string())
    );
    assert_eq!(parse_self_host_import("import \"\";"), None);
    assert_eq!(parse_self_host_import("import util;"), None);
    assert_eq!(parse_self_host_import("fn main() {}"), None);
}

#[test]
fn test_parse_run_args() {
    let args = vec!["n = 3".to_string(), "name=bob".to_string(), "n=4".to_string()];
    let parsed = parse_run_args(&args).unwrap();
    assert_eq!(
        parsed,
        vec![("n".to_string(), "4".to_string()), ("name".to_string(), "bob".to_string())]
    );
    let bad = vec!["a=1".to_string(), "oops".to_string()];
    assert_eq!(
        parse_run_args(&bad),
        Err("Invalid --arg value (expected name=value): oops".to_string())
    );
    let eq_in_value = vec!["expr=a=b".to_string()];
    assert_eq!(
        parse_run_args(&eq_in_value).unwrap(),
        vec![("expr".to_string(), "a=b".to_string())]
    );
}

#[test]
fn test_run_options_default() {
    let o = RunOptions::default();
    assert_eq!(o.entry_agent, None);
    assert_eq!(o.entry_message, "start");
    assert!(o.entry_args.is_empty());
    assert_eq!(o.max_steps, 50_000);
}
