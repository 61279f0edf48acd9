use bunker_cli::ast::{
    Agent, Block, Expr, File, Function, Kernel, KernelItem, Literal, MessageHandler, Param, Shell,
    StructDef, Type,
};
use bunker_cli::shell_runtime::{
    find_entry_point, kernel_signatures, resolve_entry_agent, resolve_lvalue_path, resolve_use,
    run_target, EntryError, LValueError, LValueStep, RunOptions, RunTarget, UseError,
};

fn ident(name: &str) -> Expr {
    Expr::Ident(name.to_string())
}

fn index(e: Expr, i: Expr) -> Expr {
    Expr::Index { expr: Box::new(e), index: Box::new(i) }
}

fn field(e: Expr, f: &str) -> Expr {
    Expr::Field { expr: Box::new(e), field: f.to_string() }
}

fn lit_int(n: i64) -> Expr {
    Expr::Literal(Literal::Int(n))
}

fn func(name: &str, params: &[(&str, Type)], ret: Option<Type>) -> Function {
    Function {
        name: name.to_string(),
        attributes: vec![],
        params: params
            .iter()
            .map(|(n, t)| Param { name: n.to_string(), ty: t.clone() })
            .collect(),
        return_type: ret,
        body: Block { statements: vec![] },
    }
}

fn kernel(name: &str, items: Vec<KernelItem>) -> Kernel {
    Kernel { name: name.to_string(), items }
}

fn file(kernels: Vec<Kernel>) -> File {
    File { kernels, shells: vec![], views: vec![] }
}

fn handler(message: &str, params: &[&str]) -> MessageHandler {
    MessageHandler {
        message: message.to_string(),
        params: params.iter().map(|p| Param { name: p.to_string(), ty: Type::I64 }).collect(),
        body: Block { statements: vec![] },
    }
}

fn agent(name: &str, handlers: Vec<MessageHandler>) -> Agent {
    Agent { name: name.to_string(), state: vec![], handlers }
}

fn shell(agents: Vec<Agent>) -> Shell {
    Shell { name: "Main".to_string(), imports: vec![], agents }
}

fn names(v: &[(String, Expr)]) -> Vec<String> {
    v.iter().map(|(n, _)| n.clone()).collect()
}

#[test]
fn test_lvalue_path_of_nested_target() {
    let target = field(index(field(ident("grid"), "rows"), lit_int(2)), "cell");
    let (root, path) = resolve_lvalue_path(&target).unwrap();
    assert_eq!(root, "grid");
    assert_eq!(path.len(), 3);
    assert!(matches!(&path[0], LValueStep::Field(f) if f == "rows"));
    assert!(matches!(&path[1], LValueStep::Index(2)));
    assert!(matches!(&path[2], LValueStep::Field(f) if f == "cell"));
}

#[test]
fn test_lvalue_path_of_variable_is_empty() {
    let (root, path) = resolve_lvalue_path(&ident("x")).unwrap();
    assert_eq!(root, "x");
    assert!(path.is_empty());
}

#[test]
fn test_lvalue_path_rejects_computed_index() {
    let target = index(ident("arr"), ident("i"));
    assert_eq!(resolve_lvalue_path(&target).unwrap_err(), LValueError::NonLiteralIndex);
}

#[test]
fn test_lvalue_path_rejects_non_place() {
    assert_eq!(resolve_lvalue_path(&lit_int(3)).unwrap_err(), LValueError::NotAssignable);
    let target = field(Expr::NoneValue, "x");
    assert_eq!(resolve_lvalue_path(&target).unwrap_err(), LValueError::NotAssignable);
}

#[test]
fn test_kernel_signatures_in_source_order() {
    let f = file(vec![
        kernel(
            "Math",
            vec![
                KernelItem::Function(func("add", &[("a", Type::I32), ("b", Type::I32)], Some(Type::I32))),
                KernelItem::Struct(StructDef { name: "P".to_string(), fields: vec![] }),
                KernelItem::ComptimeFn(func("sq", &[("x", Type::I64)], Some(Type::I64))),
            ],
        ),
        kernel("Io", vec![KernelItem::Function(func("tick", &[], None))]),
    ]);
    let sigs = kernel_signatures(&f);
    let keys: Vec<(String, String)> =
        sigs.iter().map(|s| (s.kernel.clone(), s.func.clone())).collect();
    assert_eq!(
        keys,
        vec![
            ("Math".to_string(), "add".to_string()),
            ("Math".to_string(), "sq".to_string()),
            ("Io".to_string(), "tick".to_string()),
        ]
    );
    assert_eq!(sigs[0].params, vec![("a".to_string(), Type::I32), ("b".to_string(), Type::I32)]);
    assert_eq!(sigs[2].return_type, None);
}

fn two_kernels() -> File {
    file(vec![
        kernel(
            "A",
            vec![
                KernelItem::Function(func("f", &[("x", Type::I32)], Some(Type::I32))),
                KernelItem::Function(func("g", &[("x", Type::I32)], Some(Type::I32))),
                KernelItem::Function(func("g", &[("y", Type::I64)], Some(Type::I64))),
            ],
        ),
        kernel("B", vec![KernelItem::Function(func("f", &[("x", Type::I64)], Some(Type::I64)))]),
    ])
}

#[test]
fn test_use_of_qualified_function() {
    let f = two_kernels();
    let sig = resolve_use(&f, &vec!["B".to_string(), "f".to_string()], &vec![]).unwrap();
    assert_eq!(sig.kernel, "B");
    assert_eq!(sig.return_type, Some(Type::I64));
}

#[test]
fn test_use_takes_last_definition() {
    let f = two_kernels();
    let args = vec![("y".to_string(), lit_int(1))];
    let sig = resolve_use(&f, &vec!["g".to_string()], &args).unwrap();
    assert_eq!(sig.kernel, "A");
    assert_eq!(sig.params, vec![("y".to_string(), Type::I64)]);
    assert_eq!(names(&args), vec!["y".to_string()]);
}

#[test]
fn test_use_ambiguous_without_kernel() {
    let f = two_kernels();
    assert_eq!(resolve_use(&f, &vec!["f".to_string()], &vec![]).unwrap_err(), UseError::Ambiguous);
}

#[test]
fn test_use_errors() {
    let f = two_kernels();
    assert_eq!(resolve_use(&f, &vec![], &vec![]).unwrap_err(), UseError::InvalidPath);
    assert_eq!(
        resolve_use(&file(vec![]), &vec!["f".to_string()], &vec![]).unwrap_err(),
        UseError::NoKernels
    );
    assert_eq!(
        resolve_use(&f, &vec!["B".to_string(), "g".to_string()], &vec![]).unwrap_err(),
        UseError::UnknownFunction
    );
    let args = vec![("x".to_string(), lit_int(1)), ("z".to_string(), lit_int(2))];
    assert_eq!(
        resolve_use(&f, &vec!["A".to_string(), "f".to_string()], &args).unwrap_err(),
        UseError::UnknownArgument("z".to_string())
    );
}

#[test]
fn test_entry_agent_default_is_first_handler_of_message() {
    let s = shell(vec![
        agent("Logger", vec![handler("log", &[])]),
        agent("Main", vec![handler("start", &["n"])]),
        agent("Other", vec![handler("start", &[])]),
    ]);
    let options = RunOptions::default();
    assert_eq!(resolve_entry_agent(&s, &options).unwrap(), "Main");
    assert_eq!(find_entry_point(&s, &options).unwrap(), (1, 0));
}

#[test]
fn test_entry_agent_requested_by_qualified_name() {
    let s = shell(vec![agent("Worker", vec![handler("go", &[]), handler("go", &["k"])])]);
    let mut options = RunOptions::default();
    options.entry_agent = Some("App.Worker".to_string());
    options.entry_message = "go".to_string();
    assert_eq!(resolve_entry_agent(&s, &options).unwrap(), "Worker");
    assert_eq!(find_entry_point(&s, &options).unwrap(), (0, 1));
}

#[test]
fn test_entry_errors() {
    let s = shell(vec![agent("Worker", vec![handler("go", &[])])]);
    let mut options = RunOptions::default();
    assert_eq!(resolve_entry_agent(&s, &options).unwrap_err(), EntryError::NoDefaultEntry);
    options.entry_agent = Some("Nobody".to_string());
    assert_eq!(
        resolve_entry_agent(&s, &options).unwrap_err(),
        EntryError::UnknownAgent("Nobody".to_string())
    );
    options.entry_agent = Some("Worker".to_string());
    assert_eq!(find_entry_point(&s, &options).unwrap_err(), EntryError::NoEntryHandler);
}

#[test]
fn test_entry_agent_kept_namesake_decides() {
    // Of two agents with one name the later one is kept; the earlier one's
    // handlers do not count.
    let s = shell(vec![
        agent("Dup", vec![handler("start", &[])]),
        agent("Dup", vec![handler("other", &[])]),
        agent("Next", vec![handler("start", &[])]),
    ]);
    let options = RunOptions::default();
    assert_eq!(resolve_entry_agent(&s, &options).unwrap(), "Next");
}

#[test]
fn test_run_target_prefers_kernel_main() {
    let mut f = file(vec![kernel(
        "K",
        vec![
            KernelItem::Function(func("main", &[("x", Type::I32)], Some(Type::I32))),
            KernelItem::Function(func("main", &[], Some(Type::Str))),
        ],
    )]);
    f.shells.push(shell(vec![agent("A", vec![handler("start", &[])])]));
    // Neither `main` qualifies: one has a parameter, the other returns a string.
    assert_eq!(run_target(&f), RunTarget::Shell);
    f.kernels[0].items.push(KernelItem::ComptimeFn(func("main", &[], Some(Type::Bool))));
    assert_eq!(run_target(&f), RunTarget::KernelMain);
}

#[test]
fn test_run_target_nothing() {
    assert_eq!(run_target(&file(vec![])), RunTarget::Nothing);
}
