use bunker_cli::ast::{
    BinaryOp, Block, ConstDef, Expr, File, Function, Kernel, KernelItem, Literal, Param, Stmt, Type,
    UnaryOp,
};
use bunker_cli::comptime::{fold_comptime_calls, ComptimeEvaluator, ComptimeValue};

fn ident(name: &str) -> Expr {
    Expr::Ident(name.to_string())
}

fn lit_int(n: i64) -> Expr {
    Expr::Literal(Literal::Int(n))
}

fn bin(op: BinaryOp, l: Expr, r: Expr) -> Expr {
    Expr::Binary { op, left: Box::new(l), right: Box::new(r) }
}

fn call(name: &str, args: Vec<Expr>) -> Expr {
    Expr::Call { func: Box::new(ident(name)), args }
}

fn add_fn() -> Function {
    Function {
        name: "add".to_string(),
        params: vec![
            Param { name: "x".to_string(), ty: Type::I32 },
            Param { name: "y".to_string(), ty: Type::I32 },
        ],
        return_type: Some(Type::I32),
        body: Block {
            statements: vec![Stmt::Return(Some(bin(BinaryOp::Add, ident("x"), ident("y"))))],
        },
        attributes: vec![],
    }
}

fn factorial_fn() -> Function {
    Function {
        name: "factorial".to_string(),
        params: vec![Param { name: "n".to_string(), ty: Type::I32 }],
        return_type: Some(Type::I32),
        body: Block {
            statements: vec![
                Stmt::If {
                    condition: bin(BinaryOp::Le, ident("n"), lit_int(1)),
                    then_block: Block { statements: vec![Stmt::Return(Some(lit_int(1)))] },
                    else_block: None,
                },
                Stmt::Return(Some(bin(
                    BinaryOp::Mul,
                    ident("n"),
                    call("factorial", vec![bin(BinaryOp::Sub, ident("n"), lit_int(1))]),
                ))),
            ],
        },
        attributes: vec![],
    }
}

fn kernel_with(items: Vec<KernelItem>) -> Kernel {
    Kernel { name: "K".to_string(), items }
}

#[test]
fn test_simple_addition() {
    let mut eval = ComptimeEvaluator::new();
    eval.register_kernel(&kernel_with(vec![KernelItem::ComptimeFn(add_fn())]));

    let result = eval.try_eval("add", &[lit_int(10), lit_int(32)]);

    assert_eq!(result, Some(ComptimeValue::Int(42)));
}

#[test]
fn test_recursive_comptime() {
    let mut eval = ComptimeEvaluator::new();
    eval.register_kernel(&kernel_with(vec![KernelItem::ComptimeFn(factorial_fn())]));

    let result = eval.try_eval("factorial", &[lit_int(5)]);

    assert_eq!(result, Some(ComptimeValue::Int(120)));
}

#[test]
fn test_try_eval_rejects_non_constant_args_and_unknown_functions() {
    let mut eval = ComptimeEvaluator::new();
    eval.register_kernel(&kernel_with(vec![KernelItem::ComptimeFn(add_fn())]));
    assert!(eval.is_comptime_fn("add"));
    assert!(!eval.is_comptime_fn("sub"));
    assert_eq!(eval.try_eval("add", &[lit_int(1), ident("z")]), None);
    assert_eq!(eval.try_eval("add", &[lit_int(1)]), None);
    assert_eq!(eval.try_eval("sub", &[lit_int(1), lit_int(2)]), None);
    // Negated literals are constants too.
    let neg = Expr::Unary { op: UnaryOp::Neg, expr: Box::new(lit_int(5)) };
    assert_eq!(eval.try_eval("add", &[neg, lit_int(2)]), Some(ComptimeValue::Int(-3)));
}

#[test]
fn test_division_by_zero_is_not_folded() {
    let div = Function {
        name: "div".to_string(),
        params: vec![
            Param { name: "a".to_string(), ty: Type::I32 },
            Param { name: "b".to_string(), ty: Type::I32 },
        ],
        return_type: Some(Type::I32),
        body: Block {
            statements: vec![Stmt::Return(Some(bin(BinaryOp::Div, ident("a"), ident("b"))))],
        },
        attributes: vec![],
    };
    let mut eval = ComptimeEvaluator::new();
    eval.register_kernel(&kernel_with(vec![KernelItem::ComptimeFn(div)]));
    assert_eq!(eval.try_eval("div", &[lit_int(7), lit_int(0)]), None);
    assert_eq!(eval.try_eval("div", &[lit_int(-7), lit_int(2)]), Some(ComptimeValue::Int(-3)));
}

#[test]
fn test_loop_with_break() {
    // comptime fn sum(n) { let s = 0; let i = 0; loop { if i > n { break; } s = s + i; i = i + 1; } return s; }
    let sum = Function {
        name: "sum".to_string(),
        params: vec![Param { name: "n".to_string(), ty: Type::I32 }],
        return_type: Some(Type::I32),
        body: Block {
            statements: vec![
                Stmt::Let { name: "s".to_string(), ty: None, value: lit_int(0) },
                Stmt::Let { name: "i".to_string(), ty: None, value: lit_int(0) },
                Stmt::Loop(Block {
                    statements: vec![
                        Stmt::If {
                            condition: bin(BinaryOp::Gt, ident("i"), ident("n")),
                            then_block: Block { statements: vec![Stmt::Break] },
                            else_block: None,
                        },
                        Stmt::Assign { target: ident("s"), value: bin(BinaryOp::Add, ident("s"), ident("i")) },
                        Stmt::Assign { target: ident("i"), value: bin(BinaryOp::Add, ident("i"), lit_int(1)) },
                    ],
                }),
                Stmt::Return(Some(ident("s"))),
            ],
        },
        attributes: vec![],
    };
    let mut eval = ComptimeEvaluator::new();
    eval.register_kernel(&kernel_with(vec![KernelItem::ComptimeFn(sum)]));
    assert_eq!(eval.try_eval("sum", &[lit_int(10)]), Some(ComptimeValue::Int(55)));
}

#[test]
fn test_for_range_inclusive() {
    let f = Function {
        name: "tri".to_string(),
        params: vec![Param { name: "n".to_string(), ty: Type::I32 }],
        return_type: Some(Type::I32),
        body: Block {
            statements: vec![
                Stmt::Let { name: "s".to_string(), ty: None, value: lit_int(0) },
                Stmt::For {
                    var: "k".to_string(),
                    iter: Expr::Range { start: Box::new(lit_int(1)), end: Box::new(ident("n")), inclusive: true },
                    body: Block {
                        statements: vec![Stmt::Assign {
                            target: ident("s"),
                            value: bin(BinaryOp::Add, ident("s"), ident("k")),
                        }],
                    },
                },
                Stmt::Return(Some(ident("s"))),
            ],
        },
        attributes: vec![],
    };
    let mut eval = ComptimeEvaluator::new();
    eval.register_kernel(&kernel_with(vec![KernelItem::ComptimeFn(f)]));
    assert_eq!(eval.try_eval("tri", &[lit_int(4)]), Some(ComptimeValue::Int(10)));
}

#[test]
fn test_value_to_expr_round_trip() {
    let v = ComptimeValue::SomeOf(Box::new(ComptimeValue::Int(-4)));
    assert_eq!(v.to_expr(), Expr::SomeOf(Box::new(lit_int(-4))));
    assert_eq!(ComptimeValue::Bool(true).to_expr(), Expr::Literal(Literal::Bool(true)));
}

#[test]
fn test_fold_replaces_constant_calls() {
    let main = Function {
        name: "main".to_string(),
        params: vec![Param { name: "z".to_string(), ty: Type::I32 }],
        return_type: Some(Type::I32),
        body: Block {
            statements: vec![
                Stmt::Let { name: "a".to_string(), ty: None, value: call("add", vec![lit_int(1), lit_int(2)]) },
                Stmt::Let { name: "b".to_string(), ty: None, value: call("add", vec![ident("z"), lit_int(2)]) },
                Stmt::Return(Some(call("add", vec![call("add", vec![lit_int(3), lit_int(4)]), lit_int(5)]))),
            ],
        },
        attributes: vec![],
    };
    let konst = ConstDef { name: "C".to_string(), ty: Type::I32, value: call("add", vec![lit_int(20), lit_int(22)]) };
    let mut file = File {
        kernels: vec![kernel_with(vec![
            KernelItem::ComptimeFn(add_fn()),
            KernelItem::Function(main),
            KernelItem::Const(konst),
        ])],
        shells: vec![],
        views: vec![],
    };
    let stats = fold_comptime_calls(&mut file);
    assert_eq!(stats.calls_folded, 4);
    assert_eq!(stats.calls_skipped, 1);
    match &file.kernels[0].items[1] {
        KernelItem::Function(f) => {
            assert_eq!(
                f.body.statements[0],
                Stmt::Let { name: "a".to_string(), ty: None, value: lit_int(3) }
            );
            assert_eq!(
                f.body.statements[1],
                Stmt::Let { name: "b".to_string(), ty: None, value: call("add", vec![ident("z"), lit_int(2)]) }
            );
            assert_eq!(f.body.statements[2], Stmt::Return(Some(lit_int(12))));
        }
        _ => panic!("the function stays a function"),
    }
    match &file.kernels[0].items[2] {
        KernelItem::Const(c) => assert_eq!(c.value, lit_int(42)),
        _ => panic!("the constant stays a constant"),
    }
}

#[test]
fn test_fold_without_comptime_functions_changes_nothing() {
    let main = Function {
        name: "main".to_string(),
        params: vec![],
        return_type: None,
        body: Block { statements: vec![Stmt::Expr(call("add", vec![lit_int(1), lit_int(2)]))] },
        attributes: vec![],
    };
    let mut file = File { kernels: vec![kernel_with(vec![KernelItem::Function(main)])], shells: vec![], views: vec![] };
    let stats = fold_comptime_calls(&mut file);
    assert_eq!(stats.calls_folded, 0);
    assert_eq!(stats.calls_skipped, 0);
    match &file.kernels[0].items[0] {
        KernelItem::Function(f) => {
            assert_eq!(f.body.statements[0], Stmt::Expr(call("add", vec![lit_int(1), lit_int(2)])))
        }
        _ => panic!("the function stays a function"),
    }
}

#[test]
fn test_fold_twice_changes_nothing_more() {
    let main = Function {
        name: "main".to_string(),
        params: vec![Param { name: "z".to_string(), ty: Type::I32 }],
        return_type: Some(Type::I32),
        body: Block {
            statements: vec![
                Stmt::Let { name: "a".to_string(), ty: None, value: call("add", vec![lit_int(1), lit_int(2)]) },
                Stmt::Expr(call("add", vec![ident("z"), call("add", vec![lit_int(5), lit_int(6)])])),
            ],
        },
        attributes: vec![],
    };
    let mut file = File {
        kernels: vec![kernel_with(vec![KernelItem::ComptimeFn(add_fn()), KernelItem::Function(main)])],
        shells: vec![],
        views: vec![],
    };
    let first = fold_comptime_calls(&mut file);
    assert_eq!(first.calls_folded, 2);
    assert_eq!(first.calls_skipped, 1);
    let once = file.clone();
    let second = fold_comptime_calls(&mut file);
    assert_eq!(second.calls_folded, 0);
    assert_eq!(second.calls_skipped, 1);
    assert_eq!(file, once);
}

#[test]
fn test_folded_values_are_constant_arguments() {
    let mut eval = ComptimeEvaluator::new();
    eval.register_kernel(&kernel_with(vec![KernelItem::ComptimeFn(add_fn())]));
    let folded = ComptimeValue::Int(-5).to_expr();
    assert_eq!(eval.try_eval("add", &[folded, lit_int(8)]), Some(ComptimeValue::Int(3)));
}
