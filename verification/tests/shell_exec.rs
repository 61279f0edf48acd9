use std::collections::VecDeque;

use bunker_cli::ast::{Agent, BinaryOp, Block, Expr, File, Function, Kernel, KernelItem, Literal, MatchArm, MatchBody, MessageHandler, Param, Pattern, Shell, StateDecl, Stmt, Type};
use bunker_cli::shell_exec::{eval_expr, exec_stmt, finish_step, new_vm, run_handler, ExecStop, Flow, RunError};
use bunker_cli::shell_runtime::ShellValue;
use bunker_cli::shell_entry::{entry_args_exec, parse_int, EntryArgError};
use bunker_cli::shell_vm::{env_get, step_begin, Event, StepStart};

const FUEL: u64 = 10_000;

fn empty_file() -> File {
    File { kernels: vec![], shells: vec![], views: vec![] }
}

fn num(n: i64) -> Expr {
    Expr::Literal(Literal::Int(n))
}

fn text(s: &str) -> Expr {
    Expr::Literal(Literal::String(s.to_string()))
}

fn float(x: f64) -> Expr {
    Expr::Literal(Literal::Float(x.to_bits()))
}

fn var(n: &str) -> Expr {
    Expr::Ident(n.to_string())
}

fn bin(op: BinaryOp, l: Expr, r: Expr) -> Expr {
    Expr::Binary { op, left: Box::new(l), right: Box::new(r) }
}

fn let_(n: &str, e: Expr) -> Stmt {
    Stmt::Let { name: n.to_string(), ty: None, value: e }
}

fn assign(n: &str, e: Expr) -> Stmt {
    Stmt::Assign { target: var(n), value: e }
}

fn block(stmts: Vec<Stmt>) -> Block {
    Block { statements: stmts }
}

fn run(stmts: Vec<Stmt>, env: &mut Vec<(String, ShellValue)>, queue: &mut VecDeque<Event>, answers: &Vec<ShellValue>) -> Result<usize, ExecStop> {
    run_handler(&empty_file(), &block(stmts), env, queue, answers, FUEL)
}

fn get_int(env: &Vec<(String, ShellValue)>, name: &str) -> Option<i64> {
    match env_get(env, name) {
        Some(ShellValue::Int(n)) => Some(n),
        _ => None,
    }
}

fn get_str(env: &Vec<(String, ShellValue)>, name: &str) -> Option<String> {
    match env_get(env, name) {
        Some(ShellValue::Str(s)) => Some(s),
        _ => None,
    }
}

#[test]
fn test_let_and_arithmetic() {
    let mut env = Vec::new();
    let mut queue = VecDeque::new();
    let stmts = vec![let_("x", bin(BinaryOp::Add, num(2), bin(BinaryOp::Mul, num(3), num(4))))];
    assert_eq!(run(stmts, &mut env, &mut queue, &vec![]).ok(), Some(0));
    assert_eq!(get_int(&env, "x"), Some(14));
}

#[test]
fn test_while_loop_sums() {
    let mut env = Vec::new();
    let mut queue = VecDeque::new();
    let stmts = vec![
        let_("i", num(0)),
        let_("s", num(0)),
        Stmt::While {
            condition: bin(BinaryOp::Lt, var("i"), num(5)),
            body: block(vec![
                assign("s", bin(BinaryOp::Add, var("s"), var("i"))),
                assign("i", bin(BinaryOp::Add, var("i"), num(1))),
            ]),
        },
    ];
    assert!(run(stmts, &mut env, &mut queue, &vec![]).is_ok());
    assert_eq!(get_int(&env, "s"), Some(10));
    assert_eq!(get_int(&env, "i"), Some(5));
}

#[test]
fn test_for_range_inclusive_restores_variable() {
    let mut env = vec![("total".to_string(), ShellValue::Int(0))];
    let mut queue = VecDeque::new();
    let stmts = vec![Stmt::For {
        var: "k".to_string(),
        iter: Expr::Range { start: Box::new(num(1)), end: Box::new(num(3)), inclusive: true },
        body: block(vec![assign("total", bin(BinaryOp::Add, var("total"), var("k")))]),
    }];
    assert!(run(stmts, &mut env, &mut queue, &vec![]).is_ok());
    assert_eq!(get_int(&env, "total"), Some(6));
    assert!(env_get(&env, "k").is_none());
}

#[test]
fn test_for_over_array_with_break() {
    let mut env = vec![("total".to_string(), ShellValue::Int(0))];
    let mut queue = VecDeque::new();
    let stmts = vec![Stmt::For {
        var: "k".to_string(),
        iter: Expr::Array(vec![num(5), num(7), num(100)]),
        body: block(vec![
            Stmt::If {
                condition: bin(BinaryOp::Gt, var("k"), num(50)),
                then_block: block(vec![Stmt::Break]),
                else_block: None,
            },
            assign("total", bin(BinaryOp::Add, var("total"), var("k"))),
        ]),
    }];
    assert!(run(stmts, &mut env, &mut queue, &vec![]).is_ok());
    assert_eq!(get_int(&env, "total"), Some(12));
}

#[test]
fn test_defers_run_last_first_after_return() {
    let mut env = vec![("log".to_string(), ShellValue::Str(String::new()))];
    let mut queue = VecDeque::new();
    let stmts = vec![
        Stmt::Defer(block(vec![assign("log", bin(BinaryOp::Add, var("log"), text("a")))])),
        Stmt::Defer(block(vec![assign("log", bin(BinaryOp::Add, var("log"), text("b")))])),
        assign("log", bin(BinaryOp::Add, var("log"), text("x"))),
        Stmt::Return(None),
        assign("log", bin(BinaryOp::Add, var("log"), text("never"))),
    ];
    assert!(run(stmts, &mut env, &mut queue, &vec![]).is_ok());
    assert_eq!(get_str(&env, "log"), Some("xba".to_string()));
}

#[test]
fn test_send_adds_message_to_queue() {
    let mut env = Vec::new();
    let mut queue = VecDeque::new();
    let stmts = vec![Stmt::Send {
        message: text("ping"),
        target: "Worker".to_string(),
        args: vec![("n".to_string(), num(1)), ("n".to_string(), num(2))],
    }];
    assert!(run(stmts, &mut env, &mut queue, &vec![]).is_ok());
    assert_eq!(queue.len(), 1);
    assert_eq!(queue[0].target, "Worker");
    assert_eq!(queue[0].message, "ping");
    assert_eq!(queue[0].args.len(), 1);
    assert!(matches!(queue[0].args[0].1, ShellValue::Int(2)));
}

#[test]
fn test_send_needs_text_message() {
    let mut env = Vec::new();
    let mut queue = VecDeque::new();
    let stmts = vec![Stmt::Send { message: num(3), target: "W".to_string(), args: vec![] }];
    let r = run(stmts, &mut env, &mut queue, &vec![]);
    assert!(matches!(r, Err(ExecStop::Fail(RunError::SendNotString))));
    assert!(queue.is_empty());
}

#[test]
fn test_match_binds_and_restores() {
    let mut env = vec![("v".to_string(), ShellValue::Int(1)), ("out".to_string(), ShellValue::Int(0))];
    let mut queue = VecDeque::new();
    let stmts = vec![Stmt::Match {
        expr: Expr::SomeOf(Box::new(num(41))),
        arms: vec![
            MatchArm { pattern: Pattern::NoneValue, body: MatchBody::Expr(num(0)) },
            MatchArm {
                pattern: Pattern::SomeOf("v".to_string()),
                body: MatchBody::Block(block(vec![assign("out", bin(BinaryOp::Add, var("v"), num(1)))])),
            },
        ],
    }];
    assert!(run(stmts, &mut env, &mut queue, &vec![]).is_ok());
    assert_eq!(get_int(&env, "out"), Some(42));
    assert_eq!(get_int(&env, "v"), Some(1));
}

#[test]
fn test_float_addition_is_asked_for() {
    let mut env = Vec::new();
    let mut queue = VecDeque::new();
    let stmts = vec![let_("x", bin(BinaryOp::Add, float(1.5), float(2.0)))];
    let r = run(stmts, &mut env, &mut queue, &vec![]);
    match r {
        Err(ExecStop::FloatOp { op, a, b }) => {
            assert_eq!(op, BinaryOp::Add);
            assert_eq!(a, 1.5f64.to_bits());
            assert_eq!(b, 2.0f64.to_bits());
        },
        _ => panic!("expected a float question"),
    }
    let mut env = Vec::new();
    let stmts = vec![let_("x", bin(BinaryOp::Add, float(1.5), float(2.0)))];
    let answers = vec![ShellValue::Float(3.5f64.to_bits())];
    assert_eq!(run(stmts, &mut env, &mut queue, &answers).ok(), Some(1));
    assert!(matches!(env_get(&env, "x"), Some(ShellValue::Float(b)) if b == 3.5f64.to_bits()));
}

#[test]
fn test_float_comparison_is_computed() {
    let mut env = Vec::new();
    let mut queue = VecDeque::new();
    let stmts = vec![
        let_("lt", bin(BinaryOp::Lt, float(-1.0), float(0.5))),
        let_("nan", bin(BinaryOp::Ge, float(f64::NAN), float(0.5))),
        let_("eq", bin(BinaryOp::Eq, float(0.0), float(-0.0))),
    ];
    assert!(run(stmts, &mut env, &mut queue, &vec![]).is_ok());
    assert!(matches!(env_get(&env, "lt"), Some(ShellValue::Bool(true))));
    assert!(matches!(env_get(&env, "nan"), Some(ShellValue::Bool(false))));
    assert!(matches!(env_get(&env, "eq"), Some(ShellValue::Bool(true))));
}

#[test]
fn test_large_integer_comparison_is_asked_for() {
    let mut env = Vec::new();
    let mut queue = VecDeque::new();
    let big = 9_007_199_254_740_993i64;
    let stmts = vec![let_("c", bin(BinaryOp::Lt, num(big - 1), num(big)))];
    let r = run(stmts, &mut env, &mut queue, &vec![]);
    assert!(matches!(r, Err(ExecStop::IntCompare { op: BinaryOp::Lt, .. })));
    let stmts = vec![let_("c", bin(BinaryOp::Lt, num(3), num(4)))];
    assert!(run(stmts, &mut env, &mut queue, &vec![]).is_ok());
    assert!(matches!(env_get(&env, "c"), Some(ShellValue::Bool(true))));
}

#[test]
fn test_integer_errors() {
    let file = empty_file();
    let env = Vec::new();
    let mut queue = VecDeque::new();
    let mut used = 0usize;
    let answers = vec![];
    let r = eval_expr(&file, &bin(BinaryOp::Div, num(7), num(0)), &env, &mut queue, &mut used, &answers, FUEL);
    assert!(matches!(r, Err(ExecStop::Fail(RunError::DivByZero))));
    let r = eval_expr(&file, &bin(BinaryOp::Mod, num(i64::MIN), num(-1)), &env, &mut queue, &mut used, &answers, FUEL);
    assert!(matches!(r, Err(ExecStop::Fail(RunError::Overflow))));
    let r = eval_expr(&file, &bin(BinaryOp::Div, num(-7), num(2)), &env, &mut queue, &mut used, &answers, FUEL);
    assert!(matches!(r, Ok(ShellValue::Int(-3))));
    let r = eval_expr(&file, &bin(BinaryOp::Mod, num(-7), num(2)), &env, &mut queue, &mut used, &answers, FUEL);
    assert!(matches!(r, Ok(ShellValue::Int(-1))));
    let r = eval_expr(&file, &bin(BinaryOp::Add, num(i64::MAX), num(1)), &env, &mut queue, &mut used, &answers, FUEL);
    assert!(matches!(r, Ok(ShellValue::Int(i64::MIN))));
    let r = eval_expr(&file, &bin(BinaryOp::Shl, num(1), num(64)), &env, &mut queue, &mut used, &answers, FUEL);
    assert!(matches!(r, Err(ExecStop::Fail(RunError::ShiftOutOfRange))));
    let r = eval_expr(&file, &bin(BinaryOp::Shl, num(3), num(2)), &env, &mut queue, &mut used, &answers, FUEL);
    assert!(matches!(r, Ok(ShellValue::Int(12))));
    let r = eval_expr(&file, &bin(BinaryOp::Shr, num(-8), num(1)), &env, &mut queue, &mut used, &answers, FUEL);
    assert!(matches!(r, Ok(ShellValue::Int(-4))));
    let r = eval_expr(&file, &var("missing"), &env, &mut queue, &mut used, &answers, FUEL);
    assert!(matches!(r, Err(ExecStop::Fail(RunError::Undefined(ref n))) if n == "missing"));
}

#[test]
fn test_text_joins_values() {
    let file = empty_file();
    let env = Vec::new();
    let mut queue = VecDeque::new();
    let mut used = 0usize;
    let answers = vec![];
    let e = bin(BinaryOp::Add, text("n="), Expr::Array(vec![num(5), Expr::SomeOf(Box::new(num(-2))), Expr::NoneValue]));
    let r = eval_expr(&file, &e, &env, &mut queue, &mut used, &answers, FUEL);
    assert!(matches!(r, Ok(ShellValue::Str(ref s)) if s == "n=[5, Some(-2), None]"));
    let e = bin(BinaryOp::Add, Expr::Literal(Literal::Bool(true)), text("!"));
    let r = eval_expr(&file, &e, &env, &mut queue, &mut used, &answers, FUEL);
    assert!(matches!(r, Ok(ShellValue::Str(ref s)) if s == "true!"));
    let e = bin(BinaryOp::Add, text("f="), float(0.25));
    let r = eval_expr(&file, &e, &env, &mut queue, &mut used, &answers, FUEL);
    assert!(matches!(r, Err(ExecStop::FloatText(b)) if b == 0.25f64.to_bits()));
}

#[test]
fn test_len_of_text_counts_bytes() {
    let file = empty_file();
    let env = Vec::new();
    let mut queue = VecDeque::new();
    let mut used = 0usize;
    let call = |arg: Expr| Expr::Call { func: Box::new(var("len")), args: vec![arg] };
    let r = eval_expr(&file, &call(text("héllo")), &env, &mut queue, &mut used, &vec![], FUEL);
    assert!(matches!(r, Ok(ShellValue::Int(6))));
    let r = eval_expr(&file, &call(Expr::Array(vec![num(1), num(2)])), &env, &mut queue, &mut used, &vec![], FUEL);
    assert!(matches!(r, Ok(ShellValue::Int(2))));
    let r = eval_expr(&file, &call(num(1)), &env, &mut queue, &mut used, &vec![], FUEL);
    assert!(matches!(r, Err(ExecStop::Fail(RunError::LenUnsupported))));
}

#[test]
fn test_index_and_field_assignment() {
    let mut env = Vec::new();
    let mut queue = VecDeque::new();
    let stmts = vec![
        let_("arr", Expr::Array(vec![num(1), num(2), num(3)])),
        Stmt::Assign {
            target: Expr::Index { expr: Box::new(var("arr")), index: Box::new(num(1)) },
            value: num(9),
        },
        let_("p", Expr::Struct { name: "P".to_string(), fields: vec![("x".to_string(), num(1)), ("y".to_string(), num(2))] }),
        Stmt::Assign { target: Expr::Field { expr: Box::new(var("p")), field: "y".to_string() }, value: num(20) },
        let_("second", Expr::Index { expr: Box::new(var("arr")), index: Box::new(num(1)) }),
        let_("py", Expr::Field { expr: Box::new(var("p")), field: "y".to_string() }),
        let_("same", bin(
            BinaryOp::Eq,
            var("p"),
            Expr::Struct { name: "P".to_string(), fields: vec![("y".to_string(), num(20)), ("x".to_string(), num(1))] },
        )),
    ];
    assert!(run(stmts, &mut env, &mut queue, &vec![]).is_ok());
    assert_eq!(get_int(&env, "second"), Some(9));
    assert_eq!(get_int(&env, "py"), Some(20));
    assert!(matches!(env_get(&env, "same"), Some(ShellValue::Bool(true))));
    let stmts = vec![Stmt::Assign {
        target: Expr::Index { expr: Box::new(var("arr")), index: Box::new(num(7)) },
        value: num(0),
    }];
    let r = run(stmts, &mut env, &mut queue, &vec![]);
    assert!(matches!(r, Err(ExecStop::Fail(RunError::IndexOutOfBounds(7)))));
}

#[test]
fn test_endless_loop_runs_out_of_fuel() {
    let file = empty_file();
    let mut env = Vec::new();
    let mut queue = VecDeque::new();
    let mut used = 0usize;
    let s = Stmt::Loop(block(vec![]));
    let r = exec_stmt(&file, &s, &mut env, &mut queue, &mut used, &vec![], 50);
    assert!(matches!(r, Err(ExecStop::OutOfFuel)));
}

#[test]
fn test_break_and_continue_flows() {
    let file = empty_file();
    let mut env = Vec::new();
    let mut queue = VecDeque::new();
    let mut used = 0usize;
    let r = exec_stmt(&file, &Stmt::Break, &mut env, &mut queue, &mut used, &vec![], FUEL);
    assert!(matches!(r, Ok(Flow::Break)));
    let r = exec_stmt(&file, &Stmt::Continue, &mut env, &mut queue, &mut used, &vec![], FUEL);
    assert!(matches!(r, Ok(Flow::Continue)));
    let r = exec_stmt(&file, &Stmt::Return(Some(num(1))), &mut env, &mut queue, &mut used, &vec![], FUEL);
    assert!(matches!(r, Ok(Flow::Break)));
}

#[test]
fn test_use_without_kernel_fails() {
    let file = empty_file();
    let env = Vec::new();
    let mut queue = VecDeque::new();
    let mut used = 0usize;
    let e = Expr::Use { path: vec!["K".to_string(), "f".to_string()], args: vec![] };
    let r = eval_expr(&file, &e, &env, &mut queue, &mut used, &vec![], FUEL);
    assert!(matches!(r, Err(ExecStop::Fail(RunError::Use(_)))));
}

fn counter_shell() -> Shell {
    Shell {
        name: "App".to_string(),
        imports: vec![],
        agents: vec![Agent {
            name: "Main".to_string(),
            state: vec![
                StateDecl { name: "total".to_string(), value: num(0) },
                StateDecl { name: "scale".to_string(), value: bin(BinaryOp::Add, num(1), num(1)) },
            ],
            handlers: vec![
                MessageHandler {
                    message: "start".to_string(),
                    params: vec![],
                    body: block(vec![
                        Stmt::Send { message: text("add"), target: "Main".to_string(), args: vec![("x".to_string(), num(5))] },
                        Stmt::Send { message: text("done"), target: "System".to_string(), args: vec![] },
                        Stmt::Send { message: text("add"), target: "Main".to_string(), args: vec![("x".to_string(), num(100))] },
                    ]),
                },
                MessageHandler {
                    message: "add".to_string(),
                    params: vec![Param { name: "x".to_string(), ty: Type::I64 }],
                    body: block(vec![
                        let_("tmp", bin(BinaryOp::Mul, var("x"), var("scale"))),
                        assign("total", bin(BinaryOp::Add, var("total"), var("tmp"))),
                    ]),
                },
            ],
        }],
    }
}

#[test]
fn test_shell_run_until_told_to_stop() {
    let file = empty_file();
    let shell = counter_shell();
    let answers = vec![];
    let mut vm = match new_vm(&file, &shell, 100, &answers, FUEL) {
        Ok(vm) => vm,
        Err(_) => panic!("the initialisers need nothing from outside"),
    };
    assert_eq!(vm.agents.len(), 1);
    assert_eq!(get_int(&vm.agents[0].state, "scale"), Some(2));
    vm.queue.push_back(Event { target: "Main".to_string(), message: "start".to_string(), args: vec![] });
    loop {
        match step_begin(&mut vm, &shell) {
            Ok(StepStart::Idle) => break,
            Ok(StepStart::Handled) => {},
            Ok(StepStart::Run { agent, handler, env }) => {
                assert!(finish_step(&mut vm, &file, &shell, agent, handler, &env, &answers, FUEL).is_ok());
            },
            Err(_) => panic!("the run does not fail"),
        }
    }
    assert!(vm.terminated);
    assert_eq!(vm.steps, 3);
    assert_eq!(get_int(&vm.agents[0].state, "total"), Some(10));
    assert!(env_get(&vm.agents[0].state, "tmp").is_none());
    assert_eq!(vm.queue.len(), 1);
}

#[test]
fn test_stopped_handler_leaves_the_run_as_it_was() {
    let file = empty_file();
    let mut shell = counter_shell();
    shell.agents[0].handlers[1].body = block(vec![
        assign("total", num(7)),
        let_("f", bin(BinaryOp::Mul, float(2.0), float(3.0))),
    ]);
    let mut vm = match new_vm(&file, &shell, 100, &vec![], FUEL) {
        Ok(vm) => vm,
        Err(_) => panic!("the initialisers need nothing from outside"),
    };
    vm.queue.push_back(Event { target: "Main".to_string(), message: "add".to_string(), args: vec![("x".to_string(), ShellValue::Int(1))] });
    let (agent, handler, env) = match step_begin(&mut vm, &shell) {
        Ok(StepStart::Run { agent, handler, env }) => (agent, handler, env),
        _ => panic!("the handler runs"),
    };
    let r = finish_step(&mut vm, &file, &shell, agent, handler, &env, &vec![], FUEL);
    assert!(matches!(r, Err(ExecStop::FloatOp { op: BinaryOp::Mul, .. })));
    assert_eq!(get_int(&vm.agents[0].state, "total"), Some(0));
    let answers = vec![ShellValue::Float(6.0f64.to_bits())];
    assert_eq!(finish_step(&mut vm, &file, &shell, agent, handler, &env, &answers, FUEL).ok(), Some(1));
    assert_eq!(get_int(&vm.agents[0].state, "total"), Some(7));
}

#[test]
fn test_entry_arguments_are_read_by_type() {
    let chars = |s: &str| s.chars().collect::<Vec<char>>();
    assert_eq!(parse_int(&chars("42")), Some(42));
    assert_eq!(parse_int(&chars("+7")), Some(7));
    assert_eq!(parse_int(&chars("-9223372036854775808")), Some(i64::MIN));
    assert_eq!(parse_int(&chars("9223372036854775808")), None);
    assert_eq!(parse_int(&chars("12a")), None);
    assert_eq!(parse_int(&chars("-")), None);
    assert_eq!(parse_int(&chars("")), None);
    let params = vec![
        Param { name: "n".to_string(), ty: Type::I64 },
        Param { name: "on".to_string(), ty: Type::Bool },
        Param { name: "maybe".to_string(), ty: Type::Option(Box::new(Type::I32)) },
        Param { name: "name".to_string(), ty: Type::Str },
    ];
    let raw = vec![
        ("n".to_string(), "1".to_string()),
        ("on".to_string(), "true".to_string()),
        ("maybe".to_string(), "Some( 5 )".to_string()),
        ("name".to_string(), "bob".to_string()),
        ("n".to_string(), "-3".to_string()),
    ];
    let args = match entry_args_exec(&params, &raw, &vec![]) {
        Ok(a) => a,
        Err(_) => panic!("the arguments are readable"),
    };
    assert_eq!(args.len(), 4);
    assert!(matches!(args[0].1, ShellValue::Int(-3)));
    assert!(matches!(args[1].1, ShellValue::Bool(true)));
    assert!(matches!(args[2].1, ShellValue::Opt(Some(ref b)) if matches!(**b, ShellValue::Int(5))));
    assert!(matches!(args[3].1, ShellValue::Str(ref s) if s == "bob"));
    let raw = vec![("x".to_string(), "1".to_string())];
    assert!(matches!(entry_args_exec(&params, &raw, &vec![]), Err(EntryArgError::Unknown(ref k)) if k == "x"));
    let raw = vec![("n".to_string(), "1".to_string())];
    assert!(matches!(entry_args_exec(&params, &raw, &vec![]), Err(EntryArgError::Missing(ref k)) if k == "on"));
    let fparams = vec![Param { name: "f".to_string(), ty: Type::F64 }];
    let raw = vec![("f".to_string(), "2.5".to_string())];
    assert!(matches!(entry_args_exec(&fparams, &raw, &vec![]), Err(EntryArgError::NeedFloat(ref t)) if t == "2.5"));
    let floats = vec![("2.5".to_string(), 2.5f64.to_bits())];
    let args = match entry_args_exec(&fparams, &raw, &floats) {
        Ok(a) => a,
        Err(_) => panic!("the float was given"),
    };
    assert!(matches!(args[0].1, ShellValue::Float(b) if b == 2.5f64.to_bits()));
}

#[test]
fn test_use_asks_for_the_kernel_value() {
    let file = File {
        kernels: vec![Kernel {
            name: "K".to_string(),
            items: vec![KernelItem::Function(Function {
                name: "f".to_string(),
                attributes: vec![],
                params: vec![Param { name: "a".to_string(), ty: Type::I32 }],
                return_type: Some(Type::I32),
                body: block(vec![]),
            })],
        }],
        shells: vec![],
        views: vec![],
    };
    let env = Vec::new();
    let mut queue = VecDeque::new();
    let mut used = 0usize;
    let e = Expr::Use {
        path: vec!["K".to_string(), "f".to_string()],
        args: vec![("a".to_string(), bin(BinaryOp::Add, num(1), num(2)))],
    };
    let r = eval_expr(&file, &e, &env, &mut queue, &mut used, &vec![], FUEL);
    match r {
        Err(ExecStop::Kernel { sig, args }) => {
            assert_eq!(sig.kernel, "K");
            assert_eq!(sig.func, "f");
            assert_eq!(args.len(), 1);
            assert_eq!(args[0].0, "a");
            assert!(matches!(args[0].1, ShellValue::Int(3)));
        },
        _ => panic!("expected a kernel question"),
    }
    let mut used = 0usize;
    let r = eval_expr(&file, &e, &env, &mut queue, &mut used, &vec![ShellValue::Int(7)], FUEL);
    assert!(matches!(r, Ok(ShellValue::Int(7))));
    assert_eq!(used, 1);
}
