use bunker_cli::ast::{
    Agent, Block, Expr, File, Function, Kernel, KernelItem, Literal, MessageHandler, Param, Pattern,
    Shell, Type, UnaryOp,
};
use bunker_cli::shell_runtime::{
    kernel_signatures, resolve_use, use_call_args, CallKind, KernelArg, ShellValue, UseError,
};
use bunker_cli::shell_values::{
    as_bool, eval_unary, get_field, get_index, match_bindings, UnaryError,
};
use bunker_cli::shell_vm::{
    env_get, step_begin, step_finish, AgentRuntime, Event, ShellVm, StepError, StepStart,
};

fn math_file() -> File {
    let sub = Function {
        name: "sub".to_string(),
        attributes: vec![],
        params: vec![
            Param { name: "a".to_string(), ty: Type::I32 },
            Param { name: "b".to_string(), ty: Type::I32 },
        ],
        return_type: Some(Type::I32),
        body: Block { statements: vec![] },
    };
    File {
        kernels: vec![Kernel { name: "Math".to_string(), items: vec![KernelItem::Function(sub)] }],
        shells: vec![],
        views: vec![],
    }
}

fn lit(n: i64) -> Expr {
    Expr::Literal(Literal::Int(n))
}

fn path(p: &[&str]) -> Vec<String> {
    p.iter().map(|s| s.to_string()).collect()
}

#[test]
fn test_use_argument_errors() {
    let f = math_file();
    let unknown = vec![("a".to_string(), lit(10)), ("c".to_string(), lit(2))];
    assert_eq!(
        resolve_use(&f, &path(&["Math", "sub"]), &unknown).unwrap_err(),
        UseError::UnknownArgument("c".to_string())
    );
    assert_eq!(
        resolve_use(&f, &path(&["Math", "mul"]), &vec![]).unwrap_err(),
        UseError::UnknownFunction
    );
    assert_eq!(resolve_use(&f, &vec![], &vec![]).unwrap_err(), UseError::InvalidPath);
    let partial = vec![("a".to_string(), lit(10))];
    let sig = resolve_use(&f, &path(&["Math", "sub"]), &partial).unwrap();
    let values = vec![("a".to_string(), ShellValue::Int(10))];
    assert_eq!(use_call_args(&sig, &values).unwrap_err(), UseError::MissingArgument("b".to_string()));
}

#[test]
fn test_use_call_args_converts() {
    let f = math_file();
    let sig = kernel_signatures(&f).remove(0);
    let values = vec![
        ("b".to_string(), ShellValue::Int(3)),
        ("a".to_string(), ShellValue::Int(10)),
        ("b".to_string(), ShellValue::Int(99)),
    ];
    let (kind, args) = use_call_args(&sig, &values).unwrap();
    assert_eq!(kind, CallKind::I32);
    assert_eq!(args, vec![KernelArg::I32(10), KernelArg::I32(3)]);
    let big = vec![("a".to_string(), ShellValue::Int(1 << 40)), ("b".to_string(), ShellValue::Int(1))];
    assert_eq!(use_call_args(&sig, &big).unwrap_err(), UseError::OutOfRange("a".to_string()));
    let text = vec![("a".to_string(), ShellValue::Str("x".to_string())), ("b".to_string(), ShellValue::Int(1))];
    assert_eq!(use_call_args(&sig, &text).unwrap_err(), UseError::NotAnInteger("a".to_string()));
}

#[test]
fn test_match_bindings() {
    let v = ShellValue::Opt(Some(Box::new(ShellValue::Int(4))));
    let b = match_bindings(&Pattern::SomeOf("x".to_string()), &v).unwrap();
    assert_eq!(b.len(), 1);
    assert_eq!(b[0].0, "x");
    assert!(matches!(b[0].1, ShellValue::Int(4)));
    assert!(match_bindings(&Pattern::NoneValue, &v).is_none());
    assert!(match_bindings(&Pattern::Ident("_".to_string()), &v).unwrap().is_empty());
    let zero = ShellValue::Float(0);
    let neg_zero = ShellValue::Float(0x8000_0000_0000_0000);
    assert!(match_bindings(&Pattern::Literal(Literal::Float(0)), &neg_zero).is_some());
    let nan = 0x7ff8_0000_0000_0000u64;
    assert!(match_bindings(&Pattern::Literal(Literal::Float(nan)), &ShellValue::Float(nan)).is_none());
    assert!(match_bindings(&Pattern::Literal(Literal::Char('A')), &ShellValue::Int(65)).is_some());
    assert!(match_bindings(&Pattern::Bool(true), &zero).is_none());
}

#[test]
fn test_value_reads_and_unary() {
    let arr = ShellValue::Array(vec![ShellValue::Int(1), ShellValue::Int(2)]);
    assert!(matches!(get_index(&arr, 1), Some(ShellValue::Int(2))));
    assert!(get_index(&arr, 2).is_none());
    assert!(get_index(&arr, -1).is_none());
    let st = ShellValue::Struct(vec![
        ("x".to_string(), ShellValue::Int(1)),
        ("x".to_string(), ShellValue::Int(5)),
    ]);
    assert!(matches!(get_field(&st, "x"), Some(ShellValue::Int(5))));
    assert!(get_field(&st, "y").is_none());
    assert_eq!(as_bool(&ShellValue::Bool(true)), Some(true));
    assert_eq!(as_bool(&ShellValue::Int(1)), None);
    assert!(matches!(eval_unary(UnaryOp::Neg, ShellValue::Int(3)), Ok(ShellValue::Int(-3))));
    assert_eq!(eval_unary(UnaryOp::Neg, ShellValue::Int(i64::MIN)).unwrap_err(), UnaryError::Overflow);
    assert!(matches!(
        eval_unary(UnaryOp::Neg, ShellValue::Float(0x3ff0_0000_0000_0000)),
        Ok(ShellValue::Float(0xbff0_0000_0000_0000))
    ));
    assert!(matches!(eval_unary(UnaryOp::Not, ShellValue::Bool(true)), Ok(ShellValue::Bool(false))));
    assert_eq!(eval_unary(UnaryOp::Not, ShellValue::Unit).unwrap_err(), UnaryError::NotBool);
}

fn counter_shell() -> Shell {
    Shell {
        name: "Counter".to_string(),
        imports: vec![],
        agents: vec![Agent {
            name: "C".to_string(),
            state: vec![],
            handlers: vec![MessageHandler {
                message: "add".to_string(),
                params: vec![Param { name: "n".to_string(), ty: Type::I64 }],
                body: Block { statements: vec![] },
            }],
        }],
    }
}

fn counter_vm(queue: Vec<Event>) -> ShellVm {
    ShellVm {
        agents: vec![AgentRuntime {
            name: "C".to_string(),
            decl: 0,
            state: vec![("count".to_string(), ShellValue::Int(1))],
            state_keys: vec!["count".to_string()],
        }],
        queue: queue.into_iter().collect(),
        steps: 0,
        max_steps: 10,
        terminated: false,
    }
}

fn ev(target: &str, message: &str, args: Vec<(String, ShellValue)>) -> Event {
    Event { target: target.to_string(), message: message.to_string(), args }
}

#[test]
fn test_step_runs_handler_and_writes_back() {
    let shell = counter_shell();
    let mut vm = counter_vm(vec![ev("C", "add", vec![("n".to_string(), ShellValue::Int(5))])]);
    let start = step_begin(&mut vm, &shell).unwrap();
    let StepStart::Run { agent, handler, mut env } = start else { panic!("expected a handler run") };
    assert_eq!((agent, handler), (0, 0));
    assert!(matches!(env_get(&env, "n"), Some(ShellValue::Int(5))));
    assert!(matches!(env_get(&env, "count"), Some(ShellValue::Int(1))));
    env.push(("count".to_string(), ShellValue::Int(6)));
    env.push(("tmp".to_string(), ShellValue::Int(0)));
    step_finish(&mut vm, agent, &env);
    assert!(matches!(env_get(&vm.agents[0].state, "count"), Some(ShellValue::Int(6))));
    assert!(env_get(&vm.agents[0].state, "tmp").is_none());
    assert_eq!(vm.steps, 1);
    assert!(vm.queue.is_empty());
    assert!(matches!(step_begin(&mut vm, &shell), Ok(StepStart::Idle)));
}

#[test]
fn test_step_outcomes() {
    let shell = counter_shell();
    let mut vm = counter_vm(vec![
        ev("C", "unknown", vec![]),
        ev("C", "add", vec![]),
        ev("Nobody", "add", vec![]),
        ev("System", "done", vec![]),
        ev("C", "add", vec![]),
    ]);
    assert!(matches!(step_begin(&mut vm, &shell), Ok(StepStart::Handled)));
    assert_eq!(step_begin(&mut vm, &shell).unwrap_err(), StepError::MissingArgument("n".to_string()));
    assert_eq!(step_begin(&mut vm, &shell).unwrap_err(), StepError::UnknownAgent("Nobody".to_string()));
    assert!(matches!(step_begin(&mut vm, &shell), Ok(StepStart::Handled)));
    assert!(vm.terminated);
    assert!(matches!(step_begin(&mut vm, &shell), Ok(StepStart::Idle)));
    assert_eq!(vm.queue.len(), 1);
}

#[test]
fn test_step_limit() {
    let shell = counter_shell();
    let mut vm = counter_vm(vec![ev("C", "unknown", vec![]), ev("C", "unknown", vec![])]);
    vm.max_steps = 1;
    assert!(matches!(step_begin(&mut vm, &shell), Ok(StepStart::Handled)));
    assert_eq!(step_begin(&mut vm, &shell).unwrap_err(), StepError::StepLimit);
}

#[test]
fn test_stopped_run_stays_idle() {
    let shell = counter_shell();
    let mut vm = counter_vm(vec![ev("System", "done", vec![]), ev("C", "add", vec![])]);
    assert!(matches!(step_begin(&mut vm, &shell), Ok(StepStart::Handled)));
    assert!(vm.terminated);
    for _ in 0..3 {
        assert!(matches!(step_begin(&mut vm, &shell), Ok(StepStart::Idle)));
        assert_eq!(vm.steps, 1);
        assert_eq!(vm.queue.len(), 1);
    }
    vm.steps = usize::MAX;
    assert!(matches!(step_begin(&mut vm, &shell), Ok(StepStart::Idle)));
}
