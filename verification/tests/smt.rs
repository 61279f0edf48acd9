use bunker_cli::ast::{BinaryOp, Block, Expr, File, Literal, Stmt};
use bunker_cli::smt::{
    collect_places_in_block, format_expr_brief, gcd, place_key, smt_available, verify_file_smt,
    SmtConfig,
};

#[test]
fn test_smt_available() {
    // Just check the function compiles
    let _ = smt_available();
}

#[test]
fn test_place_key() {
    let expr = Expr::Ident("x".to_string());
    assert_eq!(place_key(&expr), Some("x".to_string()));

    let field_expr = Expr::Field {
        expr: Box::new(Expr::Ident("account".to_string())),
        field: "balance".to_string(),
    };
    assert_eq!(place_key(&field_expr), Some("account.balance".to_string()));
}

#[test]
fn test_place_key_of_non_place() {
    assert_eq!(place_key(&Expr::Literal(Literal::Int(1))), None);
}

#[test]
fn test_verify_without_solver() {
    let file = File { kernels: vec![], shells: vec![], views: vec![] };
    let config = SmtConfig::default();
    assert!(!config.use_bitvectors);
    assert_eq!(config.timeout, std::time::Duration::from_secs(5));
    let errors = verify_file_smt(&file, &config, false).unwrap();
    assert_eq!(errors.len(), 1);
    assert_eq!(
        errors[0].message,
        "SMT verification not available: compile with --features smt"
    );
    assert_eq!(errors[0].location, "compiler");
    assert!(!smt_available());
}

#[test]
fn test_gcd() {
    assert_eq!(gcd(12, 18), 6);
    assert_eq!(gcd(500000, 1000000), 500000);
    assert_eq!(gcd(7, 0), 7);
    assert_eq!(gcd(0, 9), 9);
}

#[test]
fn test_format_expr_brief() {
    let e = Expr::Binary {
        op: BinaryOp::Le,
        left: Box::new(Expr::Call {
            func: Box::new(Expr::Ident("f".to_string())),
            args: vec![Expr::Literal(Literal::Int(-2)), Expr::Literal(Literal::Bool(true))],
        }),
        right: Box::new(Expr::Field {
            expr: Box::new(Expr::Ident("a".to_string())),
            field: "b".to_string(),
        }),
    };
    assert_eq!(format_expr_brief(&e), "f(-2, true) <= a.b");
    assert_eq!(format_expr_brief(&Expr::NoneValue), "...");
}

#[test]
fn test_collect_places_is_a_set() {
    let block = Block {
        statements: vec![
            Stmt::Let {
                name: "x".to_string(),
                ty: None,
                value: Expr::Ident("y".to_string()),
            },
            Stmt::Assign {
                target: Expr::Field {
                    expr: Box::new(Expr::Ident("acc".to_string())),
                    field: "bal".to_string(),
                },
                value: Expr::Ident("x".to_string()),
            },
        ],
    };
    let mut out: Vec<String> = Vec::new();
    collect_places_in_block(&block, &mut out);
    let mut sorted = out.clone();
    sorted.sort();
    assert_eq!(sorted, vec!["acc", "acc.bal", "x", "y"]);
}
