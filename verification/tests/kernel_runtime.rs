use bunker_cli::ast::{Agent, Block, Expr, File, Function, Kernel, KernelItem, Literal, Param, StateDecl, Type};
use bunker_cli::codegen::{
    common_numeric_type, compute_agent_layout, convert_ast_type, is_float_type, is_numeric_type,
    pattern_is_wildcard, MachineType,
};
use bunker_cli::kernel_runtime::{find_main_return_type, hash_i64};

#[test]
fn test_hash_i64_fnv1a() {
    assert_eq!(hash_i64(0), -6284781860667377211);
    assert_eq!(hash_i64(1), -8517097267634966620);
    assert_eq!(hash_i64(-1), -8289690350564177859);
    assert_eq!(hash_i64(42), -55488592825689361);
}

fn func(name: &str, params: usize, ret: Option<Type>) -> Function {
    Function {
        name: name.to_string(),
        attributes: vec![],
        params: (0..params).map(|i| Param { name: format!("p{i}"), ty: Type::I32 }).collect(),
        return_type: ret,
        body: Block { statements: vec![] },
    }
}

#[test]
fn test_find_main_return_type() {
    let file = File {
        kernels: vec![
            Kernel { name: "A".to_string(), items: vec![KernelItem::Function(func("main", 1, Some(Type::I32)))] },
            Kernel {
                name: "B".to_string(),
                items: vec![
                    KernelItem::ComptimeFn(func("main", 0, Some(Type::F64))),
                    KernelItem::Function(func("main", 0, Some(Type::I64))),
                ],
            },
        ],
        shells: vec![],
        views: vec![],
    };
    assert_eq!(find_main_return_type(&file), Some(Type::F64));
    let empty = File { kernels: vec![], shells: vec![], views: vec![] };
    assert_eq!(find_main_return_type(&empty), None);
}

#[test]
fn test_machine_types() {
    assert_eq!(convert_ast_type(&Type::Bool), MachineType::I8);
    assert_eq!(convert_ast_type(&Type::Option(Box::new(Type::I32))), MachineType::I64);
    assert_eq!(convert_ast_type(&Type::F32), MachineType::F32);
    assert!(is_float_type(MachineType::F64));
    assert!(!is_float_type(MachineType::I64));
    assert!(is_numeric_type(MachineType::I32));
    assert!(!is_numeric_type(MachineType::I8));
    assert_eq!(common_numeric_type(MachineType::I32, MachineType::F32), Some(MachineType::F32));
    assert_eq!(common_numeric_type(MachineType::I32, MachineType::I64), Some(MachineType::I64));
    assert_eq!(common_numeric_type(MachineType::I32, MachineType::I32), Some(MachineType::I32));
    assert_eq!(common_numeric_type(MachineType::I8, MachineType::I32), None);
    assert!(pattern_is_wildcard(&bunker_cli::ast::Pattern::Ident("x".to_string())));
    assert!(!pattern_is_wildcard(&bunker_cli::ast::Pattern::NoneValue));
}

#[test]
fn test_compute_agent_layout() {
    let state = |name: &str, value: Expr| StateDecl { name: name.to_string(), value };
    let agent = Agent {
        name: "Counter".to_string(),
        state: vec![
            state("flag", Expr::Literal(Literal::Bool(true))),
            state("count", Expr::Literal(Literal::Int(0))),
            state("ratio", Expr::Literal(Literal::Float(0))),
            state("name", Expr::Literal(Literal::String("x".to_string()))),
            state("small", Expr::Literal(Literal::Bool(false))),
        ],
        handlers: vec![],
    };
    let layout = compute_agent_layout(&agent);
    assert_eq!(layout.name, "Counter");
    assert_eq!(
        layout.fields,
        vec![
            ("flag".to_string(), 0, MachineType::I8),
            ("count".to_string(), 4, MachineType::I32),
            ("ratio".to_string(), 8, MachineType::F64),
            ("name".to_string(), 16, MachineType::I64),
            ("small".to_string(), 24, MachineType::I8),
        ]
    );
    assert_eq!(layout.size, 32);
}
