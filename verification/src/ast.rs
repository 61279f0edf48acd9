//! Abstract syntax of Bunker source files: the three layers (kernel, shell,
//! view), statements, expressions and types.
//!
//! Floating-point literals are carried as their IEEE-754 binary64 bit
//! pattern, so that the library itself never computes with floats.
use vstd::prelude::*;
use vstd::view::View as _;

verus! {

#[derive(Debug, Clone, PartialEq)]
pub struct File {
    pub kernels: Vec<Kernel>,
    pub shells: Vec<Shell>,
    pub views: Vec<View>,
}

// ====================
// KERNEL AST
// ====================
#[derive(Debug, Clone, PartialEq)]
pub struct Kernel {
    pub name: String,
    pub items: Vec<KernelItem>,
}

#[derive(Debug, Clone, PartialEq)]
pub enum KernelItem {
    Function(Function),
    Struct(StructDef),
    Enum(EnumDef),
    Const(ConstDef),
    ComptimeFn(Function),
}

#[derive(Debug, Clone, PartialEq)]
pub struct Function {
    pub name: String,
    pub attributes: Vec<Attribute>,
    pub params: Vec<Param>,
    pub return_type: Option<Type>,
    pub body: Block,
}

#[derive(Debug, Clone, PartialEq)]
pub struct StructDef {
    pub name: String,
    pub fields: Vec<StructField>,
}

#[derive(Debug, Clone, PartialEq)]
pub struct StructField {
    pub name: String,
    pub ty: Type,
}

#[derive(Debug, Clone, PartialEq)]
pub struct EnumVariantDecl {
    pub name: String,
    pub payload: Option<Type>,
}

#[derive(Debug, Clone, PartialEq)]
pub struct EnumDef {
    pub name: String,
    pub variants: Vec<EnumVariantDecl>,
}

impl EnumDef {
    /// The names of the variants, in declaration order.
    pub fn variant_names(&self) -> (names: Vec<String>)
        ensures
            names@.len() == self.variants@.len(),
            forall|i: int|
                0 <= i < names@.len() ==> #[trigger] names@[i] == self.variants@[i].name,
    {
        let mut names: Vec<String> = Vec::new();
        let n = self.variants.len();
        for i in 0..n
            invariant
                n == self.variants@.len(),
                names@.len() == i,
                forall|j: int| 0 <= j < i ==> #[trigger] names@[j] == self.variants@[j].name,
        {
            names.push(self.variants[i].name.clone());
        }
        names
    }
}

#[derive(Debug, Clone, PartialEq)]
pub struct ConstDef {
    pub name: String,
    pub ty: Type,
    pub value: Expr,
}

#[derive(Debug, Clone, PartialEq)]
pub struct Param {
    pub name: String,
    pub ty: Type,
}

#[derive(Debug, Clone, PartialEq)]
pub enum Attribute {
    Verified,
    UnsafeTrust,
    Requires(Expr),
    Ensures(Expr),
}

// ====================
// SHELL AST
// ====================
#[derive(Debug, Clone, PartialEq)]
pub struct Shell {
    pub name: String,
    pub imports: Vec<String>,
    pub agents: Vec<Agent>,
}

#[derive(Debug, Clone, PartialEq)]
pub struct Agent {
    pub name: String,
    pub state: Vec<StateDecl>,
    pub handlers: Vec<MessageHandler>,
}

#[derive(Debug, Clone, PartialEq)]
pub struct StateDecl {
    pub name: String,
    pub value: Expr,
}

#[derive(Debug, Clone, PartialEq)]
pub struct MessageHandler {
    pub message: String,
    pub params: Vec<Param>,
    pub body: Block,
}

// ====================
// VIEW AST
// ====================
#[derive(Debug, Clone, PartialEq)]
pub struct View {
    pub name: String,
    pub components: Vec<Component>,
}

#[derive(Debug, PartialEq)]
pub struct Component {
    pub target: Option<Target>,
    pub name: String,
    pub properties: Vec<Property>,
    pub children: Vec<Component>,
}

#[derive(Debug, Clone, PartialEq)]
pub enum Target {
    Graphics,
    Embedded,
}

#[derive(Debug, Clone, PartialEq)]
pub struct Property {
    pub name: String,
    pub value: Expr,
}

// ====================
// STATEMENTS
// ====================
#[derive(Debug, PartialEq)]
pub struct Block {
    pub statements: Vec<Stmt>,
}

#[derive(Debug, PartialEq)]
pub enum Stmt {
    Let { name: String, ty: Option<Type>, value: Expr },
    Assign { target: Expr, value: Expr },
    Return(Option<Expr>),
    If { condition: Expr, then_block: Block, else_block: Option<Block> },
    For { var: String, iter: Expr, body: Block },
    While { condition: Expr, body: Block },
    Loop(Block),
    Break,
    Continue,
    Match { expr: Expr, arms: Vec<MatchArm> },
    Defer(Block),
    Send { message: Expr, target: String, args: Vec<(String, Expr)> },
    Expr(Expr),
}

#[derive(Debug, PartialEq)]
pub struct MatchArm {
    pub pattern: Pattern,
    pub body: MatchBody,
}

#[derive(Debug, PartialEq)]
pub enum MatchBody {
    Expr(Expr),
    Block(Block),
}

#[derive(Debug, Clone, PartialEq)]
pub enum Pattern {
    SomeOf(String),
    NoneValue,
    Bool(bool),
    Literal(Literal),
    Ident(String),
    EnumVariant { enum_name: String, variant: String, binding: Option<String> },
    EnumPayload { tag: i64, binding: String },
}

// ====================
// EXPRESSIONS
// ====================
#[derive(Debug, PartialEq)]
pub enum Expr {
    Literal(Literal),
    Ident(String),
    Binary { op: BinaryOp, left: Box<Expr>, right: Box<Expr> },
    Unary { op: UnaryOp, expr: Box<Expr> },
    Call { func: Box<Expr>, args: Vec<Expr> },
    Index { expr: Box<Expr>, index: Box<Expr> },
    Field { expr: Box<Expr>, field: String },
    Use { path: Vec<String>, args: Vec<(String, Expr)> },
    Send { message: Box<Expr>, target: Vec<String>, args: Vec<(String, Expr)> },
    Lambda { params: Vec<Param>, body: Box<Expr> },
    If { condition: Box<Expr>, then_expr: Box<Expr>, else_expr: Box<Expr> },
    Match { expr: Box<Expr>, arms: Vec<MatchArm> },
    Block(Block),
    SomeOf(Box<Expr>),
    NoneValue,
    Array(Vec<Expr>),
    Struct { name: String, fields: Vec<(String, Expr)> },
    Copy(Box<Expr>),
    /// Range expression: `start..end` (exclusive) or `start..=end` (inclusive)
    Range { start: Box<Expr>, end: Box<Expr>, inclusive: bool },
    /// Type cast expression: `expr as Type`
    Cast { expr: Box<Expr>, target_type: Type },
}

/// A literal. `Float` holds the IEEE-754 binary64 bit pattern of the value.
#[derive(Debug, Clone, PartialEq)]
pub enum Literal {
    Int(i64),
    Float(u64),
    String(String),
    Char(char),
    Bool(bool),
    HexColor(String),
}

#[derive(Debug, Clone, Copy, PartialEq, Eq, Structural)]
pub enum BinaryOp {
    Add,
    Sub,
    Mul,
    Div,
    Mod,
    Eq,
    Ne,
    Lt,
    Le,
    Gt,
    Ge,
    And,
    Or,
    BitAnd,
    BitOr,
    BitXor,
    Shl,
    Shr,
    As,
}

#[derive(Debug, Clone, Copy, PartialEq, Eq, Structural)]
pub enum UnaryOp {
    Neg,
    Not,
}

// ====================
// TYPES
// ====================
#[derive(Debug, PartialEq)]
pub enum Type {
    I32,
    I64,
    F32,
    F64,
    Bool,
    Str,
    Vec2,
    Vec3,
    Option(Box<Type>),
    Result(Box<Type>, Box<Type>),
    Vec(Box<Type>),
    HashMap(Box<Type>, Box<Type>),
    Array(Box<Type>, usize),
    Ref { mutable: bool, ty: Box<Type> },
    Named(String),
}

/// Two types are the same type: the same shape, with names compared by
/// their characters.
pub open spec fn same_type(a: Type, b: Type) -> bool
    decreases a,
{
    match (a, b) {
        (Type::I32, Type::I32) => true,
        (Type::I64, Type::I64) => true,
        (Type::F32, Type::F32) => true,
        (Type::F64, Type::F64) => true,
        (Type::Bool, Type::Bool) => true,
        (Type::Str, Type::Str) => true,
        (Type::Vec2, Type::Vec2) => true,
        (Type::Vec3, Type::Vec3) => true,
        (Type::Option(x), Type::Option(y)) => same_type(*x, *y),
        (Type::Result(x1, x2), Type::Result(y1, y2)) => same_type(*x1, *y1) && same_type(
            *x2,
            *y2,
        ),
        (Type::Vec(x), Type::Vec(y)) => same_type(*x, *y),
        (Type::HashMap(x1, x2), Type::HashMap(y1, y2)) => same_type(*x1, *y1) && same_type(
            *x2,
            *y2,
        ),
        (Type::Array(x, n), Type::Array(y, m)) => n == m && same_type(*x, *y),
        (Type::Ref { mutable: m1, ty: x }, Type::Ref { mutable: m2, ty: y }) => m1 == m2
            && same_type(*x, *y),
        (Type::Named(x), Type::Named(y)) => x@ == y@,
        _ => false,
    }
}

/// `same_type` is an equivalence: reflexive.
pub proof fn lemma_same_type_reflexive(a: Type)
    ensures
        same_type(a, a),
    decreases a,
{
    match a {
        Type::Option(x) => lemma_same_type_reflexive(*x),
        Type::Result(x, y) => {
            lemma_same_type_reflexive(*x);
            lemma_same_type_reflexive(*y);
        },
        Type::Vec(x) => lemma_same_type_reflexive(*x),
        Type::HashMap(x, y) => {
            lemma_same_type_reflexive(*x);
            lemma_same_type_reflexive(*y);
        },
        Type::Array(x, _) => lemma_same_type_reflexive(*x),
        Type::Ref { ty, .. } => lemma_same_type_reflexive(*ty),
        _ => {},
    }
}

/// `same_type` is an equivalence: symmetric.
pub proof fn lemma_same_type_symmetric(a: Type, b: Type)
    requires
        same_type(a, b),
    ensures
        same_type(b, a),
    decreases a,
{
    match (a, b) {
        (Type::Option(x), Type::Option(y)) => lemma_same_type_symmetric(*x, *y),
        (Type::Result(x1, x2), Type::Result(y1, y2)) => {
            lemma_same_type_symmetric(*x1, *y1);
            lemma_same_type_symmetric(*x2, *y2);
        },
        (Type::Vec(x), Type::Vec(y)) => lemma_same_type_symmetric(*x, *y),
        (Type::HashMap(x1, x2), Type::HashMap(y1, y2)) => {
            lemma_same_type_symmetric(*x1, *y1);
            lemma_same_type_symmetric(*x2, *y2);
        },
        (Type::Array(x, _), Type::Array(y, _)) => lemma_same_type_symmetric(*x, *y),
        (Type::Ref { ty: x, .. }, Type::Ref { ty: y, .. }) => lemma_same_type_symmetric(*x, *y),
        _ => {},
    }
}

/// Decides `same_type`.
pub fn type_eq(a: &Type, b: &Type) -> (r: bool)
    ensures
        r == same_type(*a, *b),
    decreases a,
{
    match (a, b) {
        (Type::I32, Type::I32) => true,
        (Type::I64, Type::I64) => true,
        (Type::F32, Type::F32) => true,
        (Type::F64, Type::F64) => true,
        (Type::Bool, Type::Bool) => true,
        (Type::Str, Type::Str) => true,
        (Type::Vec2, Type::Vec2) => true,
        (Type::Vec3, Type::Vec3) => true,
        (Type::Option(x), Type::Option(y)) => type_eq(x, y),
        (Type::Result(x1, x2), Type::Result(y1, y2)) => type_eq(x1, y1) && type_eq(x2, y2),
        (Type::Vec(x), Type::Vec(y)) => type_eq(x, y),
        (Type::HashMap(x1, x2), Type::HashMap(y1, y2)) => type_eq(x1, y1) && type_eq(x2, y2),
        (Type::Array(x, n), Type::Array(y, m)) => *n == *m && type_eq(x, y),
        (Type::Ref { mutable: m1, ty: x }, Type::Ref { mutable: m2, ty: y }) => *m1 == *m2
            && type_eq(x, y),
        (Type::Named(x), Type::Named(y)) => x.eq(y),
        _ => false,
    }
}

/// A copy of a type that is equal to it.
pub fn copy_type(t: &Type) -> (r: Type)
    ensures
        r == *t,
    decreases t,
{
    match t {
        Type::I32 => Type::I32,
        Type::I64 => Type::I64,
        Type::F32 => Type::F32,
        Type::F64 => Type::F64,
        Type::Bool => Type::Bool,
        Type::Str => Type::Str,
        Type::Vec2 => Type::Vec2,
        Type::Vec3 => Type::Vec3,
        Type::Option(x) => Type::Option(Box::new(copy_type(x))),
        Type::Result(x, y) => Type::Result(Box::new(copy_type(x)), Box::new(copy_type(y))),
        Type::Vec(x) => Type::Vec(Box::new(copy_type(x))),
        Type::HashMap(x, y) => Type::HashMap(Box::new(copy_type(x)), Box::new(copy_type(y))),
        Type::Array(x, n) => Type::Array(Box::new(copy_type(x)), *n),
        Type::Ref { mutable, ty } => Type::Ref { mutable: *mutable, ty: Box::new(copy_type(ty)) },
        Type::Named(s) => Type::Named(s.clone()),
    }
}


// ====================
// MATHEMATICAL VIEW OF EXPRESSIONS AND STATEMENTS
// ====================
// Lists become sequences; everything else is kept as it is.
pub ghost enum SpecExpr {
    Literal(Literal),
    Ident(String),
    Binary { op: BinaryOp, left: Box<SpecExpr>, right: Box<SpecExpr> },
    Unary { op: UnaryOp, expr: Box<SpecExpr> },
    Call { func: Box<SpecExpr>, args: Seq<SpecExpr> },
    Index { expr: Box<SpecExpr>, index: Box<SpecExpr> },
    Field { expr: Box<SpecExpr>, field: String },
    Use { path: Seq<String>, args: Seq<(String, SpecExpr)> },
    Send { message: Box<SpecExpr>, target: Seq<String>, args: Seq<(String, SpecExpr)> },
    Lambda { params: Seq<Param>, body: Box<SpecExpr> },
    If { condition: Box<SpecExpr>, then_expr: Box<SpecExpr>, else_expr: Box<SpecExpr> },
    Match { expr: Box<SpecExpr>, arms: Seq<SpecArm> },
    Block(SpecBlock),
    SomeOf(Box<SpecExpr>),
    NoneValue,
    Array(Seq<SpecExpr>),
    Struct { name: String, fields: Seq<(String, SpecExpr)> },
    Copy(Box<SpecExpr>),
    Range { start: Box<SpecExpr>, end: Box<SpecExpr>, inclusive: bool },
    Cast { expr: Box<SpecExpr>, target_type: Type },
}

pub ghost struct SpecBlock {
    pub statements: Seq<SpecStmt>,
}

pub ghost enum SpecStmt {
    Let { name: String, ty: Option<Type>, value: SpecExpr },
    Assign { target: SpecExpr, value: SpecExpr },
    Return(Option<SpecExpr>),
    If { condition: SpecExpr, then_block: SpecBlock, else_block: Option<SpecBlock> },
    For { var: String, iter: SpecExpr, body: SpecBlock },
    While { condition: SpecExpr, body: SpecBlock },
    Loop(SpecBlock),
    Break,
    Continue,
    Match { expr: SpecExpr, arms: Seq<SpecArm> },
    Defer(SpecBlock),
    Send { message: SpecExpr, target: String, args: Seq<(String, SpecExpr)> },
    Expr(SpecExpr),
}

pub ghost struct SpecArm {
    pub pattern: Pattern,
    pub body: SpecBody,
}

pub ghost enum SpecBody {
    Expr(SpecExpr),
    Block(SpecBlock),
}

pub open spec fn expr_view(e: Expr) -> SpecExpr
    decreases e,
{
    match e {
        Expr::Literal(l) => SpecExpr::Literal(l),
        Expr::Ident(s) => SpecExpr::Ident(s),
        Expr::Binary { op, left, right } => SpecExpr::Binary {
            op,
            left: Box::new(expr_view(*left)),
            right: Box::new(expr_view(*right)),
        },
        Expr::Unary { op, expr } => SpecExpr::Unary { op, expr: Box::new(expr_view(*expr)) },
        Expr::Call { func, args } => SpecExpr::Call {
            func: Box::new(expr_view(*func)),
            args: exprs_view(args@),
        },
        Expr::Index { expr, index } => SpecExpr::Index {
            expr: Box::new(expr_view(*expr)),
            index: Box::new(expr_view(*index)),
        },
        Expr::Field { expr, field } => SpecExpr::Field { expr: Box::new(expr_view(*expr)), field },
        Expr::Use { path, args } => SpecExpr::Use { path: path@, args: named_exprs_view(args@) },
        Expr::Send { message, target, args } => SpecExpr::Send {
            message: Box::new(expr_view(*message)),
            target: target@,
            args: named_exprs_view(args@),
        },
        Expr::Lambda { params, body } => SpecExpr::Lambda {
            params: params@,
            body: Box::new(expr_view(*body)),
        },
        Expr::If { condition, then_expr, else_expr } => SpecExpr::If {
            condition: Box::new(expr_view(*condition)),
            then_expr: Box::new(expr_view(*then_expr)),
            else_expr: Box::new(expr_view(*else_expr)),
        },
        Expr::Match { expr, arms } => SpecExpr::Match {
            expr: Box::new(expr_view(*expr)),
            arms: arms_view(arms@),
        },
        Expr::Block(b) => SpecExpr::Block(block_view(b)),
        Expr::SomeOf(x) => SpecExpr::SomeOf(Box::new(expr_view(*x))),
        Expr::NoneValue => SpecExpr::NoneValue,
        Expr::Array(items) => SpecExpr::Array(exprs_view(items@)),
        Expr::Struct { name, fields } => SpecExpr::Struct { name, fields: named_exprs_view(fields@) },
        Expr::Copy(x) => SpecExpr::Copy(Box::new(expr_view(*x))),
        Expr::Range { start, end, inclusive } => SpecExpr::Range {
            start: Box::new(expr_view(*start)),
            end: Box::new(expr_view(*end)),
            inclusive,
        },
        Expr::Cast { expr, target_type } => SpecExpr::Cast {
            expr: Box::new(expr_view(*expr)),
            target_type,
        },
    }
}

pub open spec fn exprs_view(s: Seq<Expr>) -> Seq<SpecExpr>
    decreases s,
{
    if s.len() == 0 {
        Seq::empty()
    } else {
        exprs_view(s.drop_last()).push(expr_view(s.last()))
    }
}

pub open spec fn named_exprs_view(s: Seq<(String, Expr)>) -> Seq<(String, SpecExpr)>
    decreases s,
{
    if s.len() == 0 {
        Seq::empty()
    } else {
        named_exprs_view(s.drop_last()).push((s.last().0, expr_view(s.last().1)))
    }
}

pub open spec fn arm_view(a: MatchArm) -> SpecArm
    decreases a,
{
    SpecArm {
        pattern: a.pattern,
        body: match a.body {
            MatchBody::Expr(e) => SpecBody::Expr(expr_view(e)),
            MatchBody::Block(b) => SpecBody::Block(block_view(b)),
        },
    }
}

pub open spec fn arms_view(s: Seq<MatchArm>) -> Seq<SpecArm>
    decreases s,
{
    if s.len() == 0 {
        Seq::empty()
    } else {
        arms_view(s.drop_last()).push(arm_view(s.last()))
    }
}

pub open spec fn stmt_view(st: Stmt) -> SpecStmt
    decreases st,
{
    match st {
        Stmt::Let { name, ty, value } => SpecStmt::Let { name, ty, value: expr_view(value) },
        Stmt::Assign { target, value } => SpecStmt::Assign {
            target: expr_view(target),
            value: expr_view(value),
        },
        Stmt::Return(o) => SpecStmt::Return(
            match o {
                Some(e) => Some(expr_view(e)),
                None => None,
            },
        ),
        Stmt::If { condition, then_block, else_block } => SpecStmt::If {
            condition: expr_view(condition),
            then_block: block_view(then_block),
            else_block: match else_block {
                Some(b) => Some(block_view(b)),
                None => None,
            },
        },
        Stmt::For { var, iter, body } => SpecStmt::For {
            var,
            iter: expr_view(iter),
            body: block_view(body),
        },
        Stmt::While { condition, body } => SpecStmt::While {
            condition: expr_view(condition),
            body: block_view(body),
        },
        Stmt::Loop(b) => SpecStmt::Loop(block_view(b)),
        Stmt::Break => SpecStmt::Break,
        Stmt::Continue => SpecStmt::Continue,
        Stmt::Match { expr, arms } => SpecStmt::Match { expr: expr_view(expr), arms: arms_view(arms@) },
        Stmt::Defer(b) => SpecStmt::Defer(block_view(b)),
        Stmt::Send { message, target, args } => SpecStmt::Send {
            message: expr_view(message),
            target,
            args: named_exprs_view(args@),
        },
        Stmt::Expr(e) => SpecStmt::Expr(expr_view(e)),
    }
}

pub open spec fn stmts_view(s: Seq<Stmt>) -> Seq<SpecStmt>
    decreases s,
{
    if s.len() == 0 {
        Seq::empty()
    } else {
        stmts_view(s.drop_last()).push(stmt_view(s.last()))
    }
}

pub open spec fn block_view(b: Block) -> SpecBlock
    decreases b,
{
    SpecBlock { statements: stmts_view(b.statements@) }
}

impl vstd::view::View for Expr {
    type V = SpecExpr;

    open spec fn view(&self) -> SpecExpr {
        expr_view(*self)
    }
}

impl vstd::view::View for Stmt {
    type V = SpecStmt;

    open spec fn view(&self) -> SpecStmt {
        stmt_view(*self)
    }
}

impl vstd::view::View for Block {
    type V = SpecBlock;

    open spec fn view(&self) -> SpecBlock {
        block_view(*self)
    }
}

impl vstd::view::View for MatchArm {
    type V = SpecArm;

    open spec fn view(&self) -> SpecArm {
        arm_view(*self)
    }
}

/// A UI component by its parts: properties with their expressions' views,
/// and the views of its children.
pub ghost struct ComponentView {
    pub target: Option<Target>,
    pub name: Seq<char>,
    pub properties: Seq<(Seq<char>, SpecExpr)>,
    pub children: Seq<ComponentView>,
}

pub open spec fn properties_view(s: Seq<Property>) -> Seq<(Seq<char>, SpecExpr)> {
    s.map_values(|p: Property| (p.name@, expr_view(p.value)))
}

pub open spec fn component_view(c: Component) -> ComponentView
    decreases c,
{
    ComponentView {
        target: c.target,
        name: c.name@,
        properties: properties_view(c.properties@),
        children: components_view(c.children@),
    }
}

pub open spec fn components_view(s: Seq<Component>) -> Seq<ComponentView>
    decreases s,
{
    if s.len() == 0 {
        Seq::empty()
    } else {
        components_view(s.drop_last()).push(component_view(s.last()))
    }
}

impl vstd::view::View for Component {
    type V = ComponentView;

    open spec fn view(&self) -> ComponentView {
        component_view(*self)
    }
}

pub broadcast proof fn lemma_exprs_view(s: Seq<Expr>)
    ensures
        #[trigger] exprs_view(s).len() == s.len(),
        forall|i: int| 0 <= i < s.len() ==> #[trigger] exprs_view(s)[i] == expr_view(s[i]),
    decreases s.len(),
{
    if s.len() > 0 {
        lemma_exprs_view(s.drop_last());
    }
}

pub broadcast proof fn lemma_named_exprs_view(s: Seq<(String, Expr)>)
    ensures
        #[trigger] named_exprs_view(s).len() == s.len(),
        forall|i: int|
            0 <= i < s.len() ==> #[trigger] named_exprs_view(s)[i] == (s[i].0, expr_view(s[i].1)),
    decreases s.len(),
{
    if s.len() > 0 {
        lemma_named_exprs_view(s.drop_last());
    }
}

pub broadcast proof fn lemma_arms_view(s: Seq<MatchArm>)
    ensures
        #[trigger] arms_view(s).len() == s.len(),
        forall|i: int| 0 <= i < s.len() ==> #[trigger] arms_view(s)[i] == arm_view(s[i]),
    decreases s.len(),
{
    if s.len() > 0 {
        lemma_arms_view(s.drop_last());
    }
}

pub broadcast proof fn lemma_stmts_view(s: Seq<Stmt>)
    ensures
        #[trigger] stmts_view(s).len() == s.len(),
        forall|i: int| 0 <= i < s.len() ==> #[trigger] stmts_view(s)[i] == stmt_view(s[i]),
    decreases s.len(),
{
    if s.len() > 0 {
        lemma_stmts_view(s.drop_last());
    }
}

pub broadcast group group_ast_views {
    lemma_exprs_view,
    lemma_named_exprs_view,
    lemma_arms_view,
    lemma_stmts_view,
}

// ====================
// COPIES
// ====================
/// A copy of a list of names.
pub fn copy_strings(v: &Vec<String>) -> (r: Vec<String>)
    ensures
        r@ == v@,
{
    let mut r: Vec<String> = Vec::new();
    let n = v.len();
    for i in 0..n
        invariant
            n == v@.len(),
            r@ == v@.subrange(0, i as int),
    {
        r.push(v[i].clone());
        assert(r@ == v@.subrange(0, i + 1));
    }
    assert(v@.subrange(0, n as int) == v@);
    r
}

pub fn copy_param(p: &Param) -> (r: Param)
    ensures
        r == *p,
{
    Param { name: p.name.clone(), ty: copy_type(&p.ty) }
}

pub fn copy_params(v: &Vec<Param>) -> (r: Vec<Param>)
    ensures
        r@ == v@,
{
    let mut r: Vec<Param> = Vec::new();
    let n = v.len();
    for i in 0..n
        invariant
            n == v@.len(),
            r@ == v@.subrange(0, i as int),
    {
        r.push(copy_param(&v[i]));
        assert(r@ == v@.subrange(0, i + 1));
    }
    assert(v@.subrange(0, n as int) == v@);
    r
}

pub fn copy_literal(l: &Literal) -> (r: Literal)
    ensures
        r == *l,
{
    match l {
        Literal::Int(n) => Literal::Int(*n),
        Literal::Float(b) => Literal::Float(*b),
        Literal::String(s) => Literal::String(s.clone()),
        Literal::Char(c) => Literal::Char(*c),
        Literal::Bool(b) => Literal::Bool(*b),
        Literal::HexColor(s) => Literal::HexColor(s.clone()),
    }
}

pub fn copy_opt_string(o: &Option<String>) -> (r: Option<String>)
    ensures
        r == *o,
{
    match o {
        Some(s) => Some(s.clone()),
        None => None,
    }
}

pub fn copy_pattern(p: &Pattern) -> (r: Pattern)
    ensures
        r == *p,
{
    match p {
        Pattern::SomeOf(s) => Pattern::SomeOf(s.clone()),
        Pattern::NoneValue => Pattern::NoneValue,
        Pattern::Bool(b) => Pattern::Bool(*b),
        Pattern::Literal(l) => Pattern::Literal(copy_literal(l)),
        Pattern::Ident(s) => Pattern::Ident(s.clone()),
        Pattern::EnumVariant { enum_name, variant, binding } => Pattern::EnumVariant {
            enum_name: enum_name.clone(),
            variant: variant.clone(),
            binding: copy_opt_string(binding),
        },
        Pattern::EnumPayload { tag, binding } => Pattern::EnumPayload {
            tag: *tag,
            binding: binding.clone(),
        },
    }
}

pub fn copy_opt_type(o: &Option<Type>) -> (r: Option<Type>)
    ensures
        r == *o,
{
    match o {
        Some(t) => Some(copy_type(t)),
        None => None,
    }
}

pub fn copy_expr(e: &Expr) -> (r: Expr)
    ensures
        r@ == e@,
    decreases e,
{
    match e {
        Expr::Literal(l) => Expr::Literal(copy_literal(l)),
        Expr::Ident(s) => Expr::Ident(s.clone()),
        Expr::Binary { op, left, right } => Expr::Binary {
            op: *op,
            left: Box::new(copy_expr(left)),
            right: Box::new(copy_expr(right)),
        },
        Expr::Unary { op, expr } => Expr::Unary { op: *op, expr: Box::new(copy_expr(expr)) },
        Expr::Call { func, args } => Expr::Call {
            func: Box::new(copy_expr(func)),
            args: copy_exprs(args),
        },
        Expr::Index { expr, index } => Expr::Index {
            expr: Box::new(copy_expr(expr)),
            index: Box::new(copy_expr(index)),
        },
        Expr::Field { expr, field } => Expr::Field {
            expr: Box::new(copy_expr(expr)),
            field: field.clone(),
        },
        Expr::Use { path, args } => Expr::Use {
            path: copy_strings(path),
            args: copy_named_exprs(args),
        },
        Expr::Send { message, target, args } => Expr::Send {
            message: Box::new(copy_expr(message)),
            target: copy_strings(target),
            args: copy_named_exprs(args),
        },
        Expr::Lambda { params, body } => Expr::Lambda {
            params: copy_params(params),
            body: Box::new(copy_expr(body)),
        },
        Expr::If { condition, then_expr, else_expr } => Expr::If {
            condition: Box::new(copy_expr(condition)),
            then_expr: Box::new(copy_expr(then_expr)),
            else_expr: Box::new(copy_expr(else_expr)),
        },
        Expr::Match { expr, arms } => Expr::Match {
            expr: Box::new(copy_expr(expr)),
            arms: copy_arms(arms),
        },
        Expr::Block(b) => Expr::Block(copy_block(b)),
        Expr::SomeOf(x) => Expr::SomeOf(Box::new(copy_expr(x))),
        Expr::NoneValue => Expr::NoneValue,
        Expr::Array(items) => Expr::Array(copy_exprs(items)),
        Expr::Struct { name, fields } => Expr::Struct {
            name: name.clone(),
            fields: copy_named_exprs(fields),
        },
        Expr::Copy(x) => Expr::Copy(Box::new(copy_expr(x))),
        Expr::Range { start, end, inclusive } => Expr::Range {
            start: Box::new(copy_expr(start)),
            end: Box::new(copy_expr(end)),
            inclusive: *inclusive,
        },
        Expr::Cast { expr, target_type } => Expr::Cast {
            expr: Box::new(copy_expr(expr)),
            target_type: copy_type(target_type),
        },
    }
}

pub fn copy_exprs(v: &Vec<Expr>) -> (r: Vec<Expr>)
    ensures
        exprs_view(r@) == exprs_view(v@),
    decreases v,
{
    broadcast use group_ast_views;

    let mut r: Vec<Expr> = Vec::new();
    let n = v.len();
    for i in 0..n
        invariant
            n == v@.len(),
            r@.len() == i,
            forall|j: int| #![trigger r@[j]] 0 <= j < i ==> r@[j]@ == v@[j]@,
    {
        assert(decreases_to!(v => v@[i as int]));
        r.push(copy_expr(&v[i]));
    }
    assert(exprs_view(r@) =~= exprs_view(v@));
    r
}

pub fn copy_named_exprs(v: &Vec<(String, Expr)>) -> (r: Vec<(String, Expr)>)
    ensures
        named_exprs_view(r@) == named_exprs_view(v@),
    decreases v,
{
    broadcast use group_ast_views;

    let mut r: Vec<(String, Expr)> = Vec::new();
    let n = v.len();
    for i in 0..n
        invariant
            n == v@.len(),
            r@.len() == i,
            forall|j: int| #![trigger r@[j]] 0 <= j < i ==> r@[j].0 == v@[j].0 && r@[j].1@ == v@[j].1@,
    {
        assert(decreases_to!(v => v@[i as int].1));
        let item = (v[i].0.clone(), copy_expr(&v[i].1));
        r.push(item);
    }
    assert(named_exprs_view(r@) =~= named_exprs_view(v@));
    r
}

pub fn copy_arm(a: &MatchArm) -> (r: MatchArm)
    ensures
        r@ == a@,
    decreases a,
{
    let body = match &a.body {
        MatchBody::Expr(e) => MatchBody::Expr(copy_expr(e)),
        MatchBody::Block(b) => MatchBody::Block(copy_block(b)),
    };
    MatchArm { pattern: copy_pattern(&a.pattern), body }
}

pub fn copy_arms(v: &Vec<MatchArm>) -> (r: Vec<MatchArm>)
    ensures
        arms_view(r@) == arms_view(v@),
    decreases v,
{
    broadcast use group_ast_views;

    let mut r: Vec<MatchArm> = Vec::new();
    let n = v.len();
    for i in 0..n
        invariant
            n == v@.len(),
            r@.len() == i,
            forall|j: int| #![trigger r@[j]] 0 <= j < i ==> r@[j]@ == v@[j]@,
    {
        assert(decreases_to!(v => v@[i as int]));
        r.push(copy_arm(&v[i]));
    }
    assert(arms_view(r@) =~= arms_view(v@));
    r
}

pub fn copy_stmt(s: &Stmt) -> (r: Stmt)
    ensures
        r@ == s@,
    decreases s,
{
    match s {
        Stmt::Let { name, ty, value } => Stmt::Let {
            name: name.clone(),
            ty: copy_opt_type(ty),
            value: copy_expr(value),
        },
        Stmt::Assign { target, value } => Stmt::Assign {
            target: copy_expr(target),
            value: copy_expr(value),
        },
        Stmt::Return(o) => {
            let c = match o {
                Some(e) => Some(copy_expr(e)),
                None => None,
            };
            Stmt::Return(c)
        },
        Stmt::If { condition, then_block, else_block } => {
            let else_copy = match else_block {
                Some(b) => Some(copy_block(b)),
                None => None,
            };
            Stmt::If {
                condition: copy_expr(condition),
                then_block: copy_block(then_block),
                else_block: else_copy,
            }
        },
        Stmt::For { var, iter, body } => Stmt::For {
            var: var.clone(),
            iter: copy_expr(iter),
            body: copy_block(body),
        },
        Stmt::While { condition, body } => Stmt::While {
            condition: copy_expr(condition),
            body: copy_block(body),
        },
        Stmt::Loop(b) => Stmt::Loop(copy_block(b)),
        Stmt::Break => Stmt::Break,
        Stmt::Continue => Stmt::Continue,
        Stmt::Match { expr, arms } => Stmt::Match { expr: copy_expr(expr), arms: copy_arms(arms) },
        Stmt::Defer(b) => Stmt::Defer(copy_block(b)),
        Stmt::Send { message, target, args } => Stmt::Send {
            message: copy_expr(message),
            target: target.clone(),
            args: copy_named_exprs(args),
        },
        Stmt::Expr(e) => Stmt::Expr(copy_expr(e)),
    }
}

pub fn copy_block(b: &Block) -> (r: Block)
    ensures
        r@ == b@,
    decreases b,
{
    broadcast use group_ast_views;

    let mut r: Vec<Stmt> = Vec::new();
    let n = b.statements.len();
    for i in 0..n
        invariant
            n == b.statements@.len(),
            r@.len() == i,
            forall|j: int| #![trigger r@[j]] 0 <= j < i ==> r@[j]@ == b.statements@[j]@,
    {
        assert(decreases_to!(b => b.statements@[i as int]));
        r.push(copy_stmt(&b.statements[i]));
    }
    assert(stmts_view(r@) =~= stmts_view(b.statements@));
    Block { statements: r }
}

pub fn copy_component(c: &Component) -> (r: Component)
    ensures
        r@ == c@,
    decreases c,
{
    let mut properties: Vec<Property> = Vec::new();
    let np = c.properties.len();
    for i in 0..np
        invariant
            np == c.properties@.len(),
            properties_view(properties@) == properties_view(c.properties@).take(i as int),
    {
        let p = Property { name: c.properties[i].name.clone(), value: copy_expr(&c.properties[i].value) };
        let ghost before = properties@;
        let ghost item = (c.properties@[i as int].name@, expr_view(c.properties@[i as int].value));
        properties.push(p);
        assert(properties_view(properties@) =~= properties_view(before).push(item));
        assert(properties_view(c.properties@).take(i + 1) =~= properties_view(c.properties@).take(
            i as int,
        ).push(item));
    }
    assert(properties_view(properties@) =~= properties_view(c.properties@));
    let mut children: Vec<Component> = Vec::new();
    let n = c.children.len();
    for i in 0..n
        invariant
            n == c.children@.len(),
            components_view(children@) == components_view(c.children@.take(i as int)),
    {
        assert(decreases_to!(c => c.children@[i as int]));
        let ghost before = children@;
        children.push(copy_component(&c.children[i]));
        assert(children@.drop_last() =~= before);
        assert(c.children@.take(i + 1).drop_last() =~= c.children@.take(i as int));
    }
    assert(c.children@.take(n as int) =~= c.children@);
    let target = match &c.target {
        Some(Target::Graphics) => Some(Target::Graphics),
        Some(Target::Embedded) => Some(Target::Embedded),
        None => None,
    };
    Component { target, name: c.name.clone(), properties, children }
}

impl Clone for Type {
    fn clone(&self) -> (r: Self)
        ensures
            r == *self,
    {
        copy_type(self)
    }
}

impl Clone for Expr {
    fn clone(&self) -> (r: Self)
        ensures
            r@ == self@,
    {
        copy_expr(self)
    }
}

impl Clone for Stmt {
    fn clone(&self) -> (r: Self)
        ensures
            r@ == self@,
    {
        copy_stmt(self)
    }
}

impl Clone for Block {
    fn clone(&self) -> (r: Self)
        ensures
            r@ == self@,
    {
        copy_block(self)
    }
}

impl Clone for MatchArm {
    fn clone(&self) -> (r: Self)
        ensures
            r@ == self@,
    {
        copy_arm(self)
    }
}

impl Clone for MatchBody {
    fn clone(&self) -> (r: Self)
        ensures
            match (*self, r) {
                (MatchBody::Expr(a), MatchBody::Expr(b)) => b@ == a@,
                (MatchBody::Block(a), MatchBody::Block(b)) => b@ == a@,
                _ => false,
            },
    {
        match self {
            MatchBody::Expr(e) => MatchBody::Expr(copy_expr(e)),
            MatchBody::Block(b) => MatchBody::Block(copy_block(b)),
        }
    }
}

impl Clone for Component {
    fn clone(&self) -> (r: Self)
        ensures
            r@ == self@,
    {
        copy_component(self)
    }
}


// ====================
// COUNTS OF A FILE
// ====================

/// How many of the items are functions (comptime ones too).
pub open spec fn function_items(items: Seq<KernelItem>) -> nat
    decreases items.len(),
{
    if items.len() == 0 {
        0
    } else {
        function_items(items.drop_last()) + match items.last() {
            KernelItem::Function(_) => 1nat,
            KernelItem::ComptimeFn(_) => 1nat,
            _ => 0nat,
        }
    }
}

/// How many functions the kernels have together.
pub open spec fn kernel_functions(ks: Seq<Kernel>) -> nat
    decreases ks.len(),
{
    if ks.len() == 0 {
        0
    } else {
        kernel_functions(ks.drop_last()) + function_items(ks.last().items@)
    }
}

/// How many agents the shells have together.
pub open spec fn shell_agents(ss: Seq<Shell>) -> nat
    decreases ss.len(),
{
    if ss.len() == 0 {
        0
    } else {
        shell_agents(ss.drop_last()) + ss.last().agents@.len()
    }
}

/// What a build reports of a parsed file.
#[derive(Debug, Clone, Copy, PartialEq, Eq, Structural)]
pub struct FileCounts {
    pub kernels: usize,
    pub shells: usize,
    pub views: usize,
    /// Functions of all kernels, comptime ones included.
    pub functions: usize,
    /// Agents of all shells.
    pub agents: usize,
}

proof fn lemma_function_items_bound(items: Seq<KernelItem>)
    ensures
        function_items(items) <= items.len(),
    decreases items.len(),
{
    if items.len() > 0 {
        lemma_function_items_bound(items.drop_last());
    }
}

/// Counts the kernels, shells, views, kernel functions and shell agents of
/// a file.
pub fn file_counts(file: &File) -> (r: FileCounts)
    requires
        kernel_functions(file.kernels@) <= usize::MAX,
        shell_agents(file.shells@) <= usize::MAX,
    ensures
        r.kernels == file.kernels@.len(),
        r.shells == file.shells@.len(),
        r.views == file.views@.len(),
        r.functions == kernel_functions(file.kernels@),
        r.agents == shell_agents(file.shells@),
{
    let ghost ks = file.kernels@;
    let mut functions: usize = 0;
    for k in 0..file.kernels.len()
        invariant
            ks == file.kernels@,
            kernel_functions(ks) <= usize::MAX,
            functions == kernel_functions(ks.take(k as int)),
    {
        assert(ks.take(k + 1).drop_last() =~= ks.take(k as int));
        let items = &file.kernels[k].items;
        let ghost base = functions as nat;
        proof {
            lemma_kernel_functions_prefix(ks, k + 1);
        }
        for j in 0..items.len()
            invariant
                items == file.kernels@[k as int].items,
                base + function_items(items@) <= usize::MAX,
                functions == base + function_items(items@.take(j as int)),
        {
            assert(items@.take(j + 1).drop_last() =~= items@.take(j as int));
            proof {
                lemma_function_items_prefix(items@, j + 1);
            }
            match &items[j] {
                KernelItem::Function(_) => {
                    functions = functions + 1;
                },
                KernelItem::ComptimeFn(_) => {
                    functions = functions + 1;
                },
                _ => {},
            }
        }
        assert(items@.take(items@.len() as int) =~= items@);
    }
    assert(ks.take(ks.len() as int) =~= ks);
    let ghost ss = file.shells@;
    let mut agents: usize = 0;
    for s in 0..file.shells.len()
        invariant
            ss == file.shells@,
            shell_agents(ss) <= usize::MAX,
            agents == shell_agents(ss.take(s as int)),
    {
        assert(ss.take(s + 1).drop_last() =~= ss.take(s as int));
        proof {
            lemma_shell_agents_prefix(ss, s + 1);
        }
        agents = agents + file.shells[s].agents.len();
    }
    assert(ss.take(ss.len() as int) =~= ss);
    FileCounts {
        kernels: file.kernels.len(),
        shells: file.shells.len(),
        views: file.views.len(),
        functions,
        agents,
    }
}

proof fn lemma_function_items_prefix(items: Seq<KernelItem>, j: int)
    requires
        0 <= j <= items.len(),
    ensures
        function_items(items.take(j)) <= function_items(items),
    decreases items.len(),
{
    if j < items.len() {
        assert(items.drop_last().take(j) =~= items.take(j));
        lemma_function_items_prefix(items.drop_last(), j);
    } else {
        assert(items.take(j) =~= items);
    }
}

proof fn lemma_kernel_functions_prefix(ks: Seq<Kernel>, k: int)
    requires
        0 <= k <= ks.len(),
    ensures
        kernel_functions(ks.take(k)) <= kernel_functions(ks),
    decreases ks.len(),
{
    if k < ks.len() {
        assert(ks.drop_last().take(k) =~= ks.take(k));
        lemma_kernel_functions_prefix(ks.drop_last(), k);
    } else {
        assert(ks.take(k) =~= ks);
    }
}

proof fn lemma_shell_agents_prefix(ss: Seq<Shell>, s: int)
    requires
        0 <= s <= ss.len(),
    ensures
        shell_agents(ss.take(s)) <= shell_agents(ss),
    decreases ss.len(),
{
    if s < ss.len() {
        assert(ss.drop_last().take(s) =~= ss.take(s));
        lemma_shell_agents_prefix(ss.drop_last(), s);
    } else {
        assert(ss.take(s) =~= ss);
    }
}

} // verus!
