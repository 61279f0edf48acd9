use bunker_cli::ast::{
    file_counts, Agent, File, Function, Kernel, KernelItem, Shell,
    BinaryOp, Block, Expr, Literal, MatchArm, MatchBody, Pattern, Stmt, StructDef, StructField,
    Type,
};
use bunker_cli::codegen::{
    compute_struct_layout, infer_array_len, infer_block_value_type, infer_expr_type,
    infer_match_expr_type, merge_numeric_types, merge_types, resolve_field, type_size,
    types_compatible_ast, FnSig, StructLayout,
};

fn field(name: &str, ty: Type) -> StructField {
    StructField { name: name.to_string(), ty }
}

fn ident(name: &str) -> Expr {
    Expr::Ident(name.to_string())
}

#[test]
fn test_struct_layout_aligns_fields() {
    let def = StructDef {
        name: "S".to_string(),
        fields: vec![
            field("a", Type::Bool),
            field("b", Type::I32),
            field("c", Type::I64),
            field("d", Type::Bool),
        ],
    };
    let structs: Vec<(String, StructLayout)> = Vec::new();
    let layout = compute_struct_layout(&def, &structs);
    let offsets: Vec<u32> = layout.fields.iter().map(|f| f.1).collect();
    assert_eq!(offsets, vec![0, 4, 8, 16]);
    assert_eq!(layout.size, 24);
}

#[test]
fn test_type_size_of_named_struct() {
    let inner = StructDef { name: "P".to_string(), fields: vec![field("x", Type::F64), field("y", Type::F64)] };
    let mut structs: Vec<(String, StructLayout)> = Vec::new();
    let p = compute_struct_layout(&inner, &structs);
    assert_eq!(p.size, 16);
    structs.push(("P".to_string(), p));
    assert_eq!(type_size(&Type::Named("P".to_string()), &structs), 16);
    assert_eq!(type_size(&Type::Named("Q".to_string()), &structs), 8);
    assert_eq!(type_size(&Type::Bool, &structs), 1);
    assert_eq!(type_size(&Type::Str, &structs), 8);
    let outer = StructDef { name: "O".to_string(), fields: vec![field("flag", Type::Bool), field("p", Type::Named("P".to_string()))] };
    let o = compute_struct_layout(&outer, &structs);
    assert_eq!(o.fields[1].1, 8);
    assert_eq!(o.size, 24);
}

#[test]
fn test_merge_and_compatibility() {
    assert_eq!(merge_numeric_types(&Type::I32, &Type::F32), Type::F32);
    assert_eq!(merge_numeric_types(&Type::Bool, &Type::Bool), Type::Bool);
    assert_eq!(merge_numeric_types(&Type::Str, &Type::Bool), Type::I32);
    assert_eq!(
        merge_types(&Type::Option(Box::new(Type::I32)), &Type::Option(Box::new(Type::I64))),
        Type::Option(Box::new(Type::I64))
    );
    assert_eq!(merge_types(&Type::Str, &Type::I32), Type::Str);
    assert_eq!(
        merge_types(&Type::Array(Box::new(Type::I32), 2), &Type::Array(Box::new(Type::I32), 3)),
        Type::Array(Box::new(Type::I32), 2)
    );
    assert!(types_compatible_ast(&Type::I32, &Type::F64));
    assert!(types_compatible_ast(
        &Type::Vec(Box::new(Type::I64)),
        &Type::Vec(Box::new(Type::I32))
    ));
    assert!(!types_compatible_ast(&Type::Str, &Type::Bool));
    assert!(types_compatible_ast(
        &Type::Array(Box::new(Type::I32), 2),
        &Type::Array(Box::new(Type::I32), 5)
    ));
}

#[test]
fn test_infer_expression_types() {
    let vars = vec![("n".to_string(), Type::I64), ("p".to_string(), Type::Named("P".to_string()))];
    let sigs: Vec<(String, FnSig)> = vec![("f".to_string(), (vec![Type::I32], Some(Type::Bool)))];
    let structs: Vec<(String, StructLayout)> = vec![(
        "P".to_string(),
        StructLayout { size: 16, fields: vec![("x".to_string(), 0, Type::F64), ("y".to_string(), 8, Type::F64)] },
    )];
    let sum = Expr::Binary {
        op: BinaryOp::Add,
        left: Box::new(ident("n")),
        right: Box::new(Expr::Literal(Literal::Int(1))),
    };
    assert_eq!(infer_expr_type(&sum, &vars, &structs, &sigs), Type::I64);
    let call = Expr::Call { func: Box::new(ident("f")), args: vec![Expr::Literal(Literal::Int(1))] };
    assert_eq!(infer_expr_type(&call, &vars, &structs, &sigs), Type::Bool);
    let vec_new = Expr::Call { func: Box::new(ident("vec_new")), args: vec![] };
    assert_eq!(infer_expr_type(&vec_new, &vars, &structs, &sigs), Type::I64);
    let unknown = Expr::Call { func: Box::new(ident("g")), args: vec![] };
    assert_eq!(infer_expr_type(&unknown, &vars, &structs, &sigs), Type::I32);
    let fld = Expr::Field { expr: Box::new(ident("p")), field: "y".to_string() };
    assert_eq!(infer_expr_type(&fld, &vars, &structs, &sigs), Type::F64);
    assert_eq!(resolve_field(&structs, &ident("p"), "y", &vars), Some((8, Type::F64)));
    assert_eq!(resolve_field(&structs, &ident("zz"), "x", &vars), Some((0, Type::F64)));
    assert_eq!(resolve_field(&structs, &ident("p"), "w", &vars), None);
    let arr = Expr::Array(vec![Expr::Literal(Literal::Int(1)), Expr::Literal(Literal::Float(0))]);
    assert_eq!(
        infer_expr_type(&arr, &vars, &structs, &sigs),
        Type::Array(Box::new(Type::F64), 2)
    );
    assert_eq!(infer_array_len(&arr, &vars, &structs, &sigs), Some(2));
    let opt = Expr::If {
        condition: Box::new(Expr::Literal(Literal::Bool(true))),
        then_expr: Box::new(Expr::NoneValue),
        else_expr: Box::new(Expr::SomeOf(Box::new(Expr::Literal(Literal::Int(3))))),
    };
    assert_eq!(
        infer_expr_type(&opt, &vars, &structs, &sigs),
        Type::Option(Box::new(Type::I32))
    );
}

#[test]
fn test_infer_block_and_match_types() {
    let vars: Vec<(String, Type)> = Vec::new();
    let sigs: Vec<(String, FnSig)> = Vec::new();
    let structs: Vec<(String, StructLayout)> = Vec::new();
    let block = Block {
        statements: vec![
            Stmt::Let { name: "x".to_string(), ty: Some(Type::F32), value: Expr::Literal(Literal::Int(1)) },
            Stmt::Expr(ident("x")),
        ],
    };
    assert_eq!(infer_block_value_type(&block, &vars, &structs, &sigs), Some(Type::F32));
    let empty = Block { statements: vec![Stmt::Return(None)] };
    assert_eq!(infer_block_value_type(&empty, &vars, &structs, &sigs), None);
    let arms = vec![
        MatchArm { pattern: Pattern::Bool(true), body: MatchBody::Expr(Expr::NoneValue) },
        MatchArm { pattern: Pattern::Bool(false), body: MatchBody::Block(empty) },
    ];
    assert_eq!(
        infer_match_expr_type(&arms, &vars, &structs, &sigs),
        Type::Option(Box::new(Type::I32))
    );
    let arms = vec![
        MatchArm { pattern: Pattern::Bool(true), body: MatchBody::Expr(Expr::Literal(Literal::Int(1))) },
        MatchArm { pattern: Pattern::Bool(false), body: MatchBody::Expr(Expr::Literal(Literal::Float(0))) },
    ];
    assert_eq!(infer_match_expr_type(&arms, &vars, &structs, &sigs), Type::F64);
}

#[test]
fn test_merge_laws_on_examples() {
    let types = vec![
        Type::I32,
        Type::F64,
        Type::Bool,
        Type::Str,
        Type::Option(Box::new(Type::I64)),
        Type::Array(Box::new(Type::F32), 3),
        Type::Named("P".to_string()),
    ];
    for a in &types {
        assert_eq!(&merge_types(a, a), a);
        assert!(types_compatible_ast(a, a));
        for b in &types {
            assert_eq!(merge_numeric_types(a, b), merge_numeric_types(b, a));
            assert_eq!(types_compatible_ast(a, b), types_compatible_ast(b, a));
        }
    }
}

#[test]
fn test_file_counts() {
    let f = |name: &str| Function {
        name: name.to_string(),
        attributes: vec![],
        params: vec![],
        return_type: None,
        body: Block { statements: vec![] },
    };
    let file = File {
        kernels: vec![
            Kernel {
                name: "K".to_string(),
                items: vec![
                    KernelItem::Function(f("a")),
                    KernelItem::Struct(StructDef { name: "S".to_string(), fields: vec![] }),
                    KernelItem::ComptimeFn(f("b")),
                ],
            },
            Kernel { name: "L".to_string(), items: vec![KernelItem::Function(f("c"))] },
        ],
        shells: vec![Shell {
            name: "Main".to_string(),
            imports: vec![],
            agents: vec![
                Agent { name: "A".to_string(), state: vec![], handlers: vec![] },
                Agent { name: "B".to_string(), state: vec![], handlers: vec![] },
            ],
        }],
        views: vec![],
    };
    let counts = file_counts(&file);
    assert_eq!(counts.kernels, 2);
    assert_eq!(counts.shells, 1);
    assert_eq!(counts.views, 0);
    assert_eq!(counts.functions, 3);
    assert_eq!(counts.agents, 2);
}
