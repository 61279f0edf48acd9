//! The part of code generation that does not depend on the target: the
//! memory layout of structs, and the types that expressions are given when
//! nothing declares them.
//!
//! Tables keyed by name (variables, struct layouts, function signatures) are
//! lists of entries in which the last entry of a name counts; `assoc_insert`
//! keeps one entry per name.
use vstd::prelude::*;
use crate::assoc::{assoc_get, find_last, table_map, lemma_assoc_last, lemma_assoc_absent};
use crate::ast::{
    group_ast_views, lemma_stmts_view, lemma_arms_view, lemma_exprs_view, same_type,
    lemma_same_type_reflexive, lemma_same_type_symmetric, type_eq, copy_type, BinaryOp, Block, Expr,
    Literal, MatchArm, MatchBody, SpecArm, SpecBlock, SpecBody, SpecExpr, SpecStmt, Stmt,
    StructDef, StructField, Type, UnaryOp, arms_view, exprs_view, stmts_view, Agent, StateDecl,
    Pattern,
};
use crate::builtins::{infer_special_builtin_call_type, special_builtin_call_type};
use crate::text::str_eq;

verus! {

broadcast use group_ast_views;

/// The layout of a struct: its size, and each field's name, offset and type.
#[derive(Debug)]
pub struct StructLayout {
    pub size: u32,
    pub fields: Vec<(String, u32, Type)>,
}

/// The type of a function: its parameter types and its return type.
pub type FnSig = (Vec<Type>, Option<Type>);

// ---------------------------------------------------------------------------
// Sizes and layouts
// ---------------------------------------------------------------------------
/// The size of a value of a type, in bytes; pointers, arrays and unknown
/// structs take 8.
pub open spec fn size_of(ty: Type, structs: Seq<(String, StructLayout)>) -> u32 {
    match ty {
        Type::I32 => 4,
        Type::I64 => 8,
        Type::F32 => 4,
        Type::F64 => 8,
        Type::Bool => 1,
        Type::Option(_) => 8,
        Type::Array(_, _) => 8,
        Type::Named(name) => if table_map(structs).contains_key(name@) {
            table_map(structs)[name@].size
        } else {
            8
        },
        _ => 8,
    }
}

/// Get the size of a type in bytes
pub fn type_size(ty: &Type, structs: &Vec<(String, StructLayout)>) -> (r: u32)
    ensures
        r == size_of(*ty, structs@),
{
    match ty {
        Type::I32 => 4,
        Type::I64 => 8,
        Type::F32 => 4,
        Type::F64 => 8,
        Type::Bool => 1,
        Type::Option(_) => 8,
        Type::Array(_, _) => 8,
        Type::Named(name) => match assoc_get(structs, name.as_str()) {
            Some(layout) => layout.size,
            None => 8,
        },
        _ => 8,
    }
}

/// The alignment of a field of the given size: the size, at most 8.
pub open spec fn align_of(size: u32) -> u32 {
    if size < 8 {
        size
    } else {
        8
    }
}

/// The fields of a struct placed one after the other, each at its offset
/// rounded up with the bit mask of its alignment: the first `k` of them and
/// the offset after them. `None` when a field has size 0 or an offset does
/// not fit in `u32`.
pub open spec fn place_fields(fields: Seq<StructField>, structs: Seq<(String, StructLayout)>, k: int) -> Option<
    (Seq<(Seq<char>, u32, Type)>, u32),
>
    decreases k,
{
    if k <= 0 {
        Some((Seq::empty(), 0u32))
    } else {
        match place_fields(fields, structs, k - 1) {
            None => None,
            Some((placed, off)) => {
                let size = size_of(fields[k - 1].ty, structs);
                let align = align_of(size);
                if align == 0 || off + align > u32::MAX {
                    None
                } else {
                    let start = ((off + align - 1) as u32) & !((align - 1) as u32);
                    if start + size > u32::MAX {
                        None
                    } else {
                        Some(
                            (
                                placed.push((fields[k - 1].name@, start, fields[k - 1].ty)),
                                (start + size) as u32,
                            ),
                        )
                    }
                }
            },
        }
    }
}

/// A struct can be laid out: no field has size 0 and every offset, and the
/// size rounded up to 8, fit in `u32`.
pub open spec fn layout_fits(def: StructDef, structs: Seq<(String, StructLayout)>) -> bool {
    place_fields(def.fields@, structs, def.fields@.len() as int) matches Some((_, end)) && end + 7
        <= u32::MAX
}

pub open spec fn layout_fields_view(v: Seq<(String, u32, Type)>) -> Seq<(Seq<char>, u32, Type)> {
    v.map_values(|f: (String, u32, Type)| (f.0@, f.1, f.2))
}

/// The layout of a struct: fields in declaration order, each aligned to its
/// size (at most 8), and the total size rounded up to a multiple of 8.
pub fn compute_struct_layout(def: &StructDef, structs: &Vec<(String, StructLayout)>) -> (r: StructLayout)
    requires
        layout_fits(*def, structs@),
    ensures
        place_fields(def.fields@, structs@, def.fields@.len() as int) matches Some((placed, end))
            && layout_fields_view(r.fields@) == placed && r.size == ((end + 7) as u32) & !7u32,
{
    let ghost fs = def.fields@;
    let mut offset: u32 = 0;
    let mut fields: Vec<(String, u32, Type)> = Vec::new();
    let n = def.fields.len();
    proof {
        lemma_place_fields_prefix(fs, structs@, n as int);
    }
    for i in 0..n
        invariant
            n == fs.len(),
            fs == def.fields@,
            forall|k: int| 0 <= k <= n ==> #[trigger] place_fields(fs, structs@, k) is Some,
            place_fields(fs, structs@, i as int) == Some((layout_fields_view(fields@), offset)),
    {
        let size = type_size(&def.fields[i].ty, structs);
        let align = if size < 8 {
            size
        } else {
            8
        };
        assert(place_fields(fs, structs@, i + 1) is Some);
        offset = (offset + align - 1) & !(align - 1);
        let ghost before = fields@;
        fields.push((def.fields[i].name.clone(), offset, copy_type(&def.fields[i].ty)));
        assert(layout_fields_view(fields@) =~= layout_fields_view(before).push(
            (fs[i as int].name@, offset, fs[i as int].ty),
        ));
        offset = offset + size;
    }
    let size = (offset + 7) & !7u32;
    StructLayout { size, fields }
}

/// When the first `n` fields can be placed, so can the first `k`, for every
/// `k <= n`.
proof fn lemma_place_fields_prefix(fs: Seq<StructField>, structs: Seq<(String, StructLayout)>, n: int)
    requires
        place_fields(fs, structs, n) is Some,
    ensures
        forall|k: int| 0 <= k <= n ==> #[trigger] place_fields(fs, structs, k) is Some,
    decreases n,
{
    if n > 0 {
        lemma_place_fields_prefix(fs, structs, n - 1);
    }
}

/// The size of a laid-out struct is a multiple of 8 and covers its fields.
pub proof fn lemma_struct_size_aligned(end: u32)
    requires
        end + 7 <= u32::MAX,
    ensures
        (((end + 7) as u32) & !7u32) % 8 == 0,
        (((end + 7) as u32) & !7u32) >= end,
{
    assert((((end + 7) as u32) & !7u32) % 8 == 0 && (((end + 7) as u32) & !7u32) >= end)
        by (bit_vector)
        requires
            end + 7 <= 0xffff_ffffu32,
    ;
}

/// A field whose alignment is 1, 2, 4 or 8 starts at a multiple of its
/// alignment, at or after the end of the field before it, and less than one
/// alignment after it.
pub proof fn lemma_field_offset_aligned(off: u32, align: u32)
    requires
        align == 1 || align == 2 || align == 4 || align == 8,
        off + align - 1 <= u32::MAX,
    ensures
        (((off + align - 1) as u32) & !((align - 1) as u32)) % align == 0,
        off <= (((off + align - 1) as u32) & !((align - 1) as u32)),
        (((off + align - 1) as u32) & !((align - 1) as u32)) < off + align,
{
    assert((((off + align - 1) as u32) & !((align - 1) as u32)) % align == 0 && off <= (((off
        + align - 1) as u32) & !((align - 1) as u32)) && (((off + align - 1) as u32) & !((align
        - 1) as u32)) < off + align) by (bit_vector)
        requires
            align == 1u32 || align == 2u32 || align == 4u32 || align == 8u32,
            off + align - 1 <= 0xffff_ffffu32,
    ;
}

// ---------------------------------------------------------------------------
// Machine types and agent state layouts
// ---------------------------------------------------------------------------
/// The machine-level types values are given in generated code.
#[derive(Debug, Clone, Copy, PartialEq, Eq, Structural)]
pub enum MachineType {
    I8,
    I32,
    I64,
    F32,
    F64,
}

/// The machine type of a source type: booleans are bytes, and options,
/// arrays, structs and the rest are 64-bit pointers or handles.
pub open spec fn machine_type_of(ty: Type) -> MachineType {
    match ty {
        Type::I32 => MachineType::I32,
        Type::I64 => MachineType::I64,
        Type::F32 => MachineType::F32,
        Type::F64 => MachineType::F64,
        Type::Bool => MachineType::I8,
        _ => MachineType::I64,
    }
}

/// The machine type of a source type.
pub fn convert_ast_type(ty: &Type) -> (r: MachineType)
    ensures
        r == machine_type_of(*ty),
{
    match ty {
        Type::I32 => MachineType::I32,
        Type::I64 => MachineType::I64,
        Type::F32 => MachineType::F32,
        Type::F64 => MachineType::F64,
        Type::Bool => MachineType::I8,
        _ => MachineType::I64,
    }
}

/// Whether a machine type is a floating-point type.
pub fn is_float_type(t: MachineType) -> (r: bool)
    ensures
        r == (t is F32 || t is F64),
{
    match t {
        MachineType::F32 => true,
        MachineType::F64 => true,
        _ => false,
    }
}

/// Whether a machine type takes part in arithmetic.
pub fn is_numeric_type(t: MachineType) -> (r: bool)
    ensures
        r == (t is I32 || t is I64 || t is F32 || t is F64),
{
    match t {
        MachineType::I8 => false,
        _ => true,
    }
}

/// The machine type of arithmetic on two numeric operands: the widest of
/// them, floats first. `None` when an operand is not numeric.
pub open spec fn common_numeric(a: MachineType, b: MachineType) -> Option<MachineType> {
    if a is I8 || b is I8 {
        None
    } else if a is F64 || b is F64 {
        Some(MachineType::F64)
    } else if a is F32 || b is F32 {
        Some(MachineType::F32)
    } else if a is I64 || b is I64 {
        Some(MachineType::I64)
    } else {
        Some(MachineType::I32)
    }
}

/// The machine type of arithmetic on two operands; see `common_numeric`.
pub fn common_numeric_type(lhs_ty: MachineType, rhs_ty: MachineType) -> (r: Option<MachineType>)
    ensures
        r == common_numeric(lhs_ty, rhs_ty),
{
    if !is_numeric_type(lhs_ty) || !is_numeric_type(rhs_ty) {
        return None;
    }
    Some(
        if lhs_ty == MachineType::F64 || rhs_ty == MachineType::F64 {
            MachineType::F64
        } else if lhs_ty == MachineType::F32 || rhs_ty == MachineType::F32 {
            MachineType::F32
        } else if lhs_ty == MachineType::I64 || rhs_ty == MachineType::I64 {
            MachineType::I64
        } else {
            MachineType::I32
        },
    )
}

/// Whether a match pattern matches every value (a binding).
pub fn pattern_is_wildcard(pattern: &Pattern) -> (r: bool)
    ensures
        r == (*pattern is Ident),
{
    match pattern {
        Pattern::Ident(_) => true,
        _ => false,
    }
}

/// The layout of an agent's state: its size, and each state variable's
/// name, offset and machine type.
#[derive(Debug)]
pub struct AgentLayout {
    pub name: String,
    pub size: u32,
    pub fields: Vec<(String, u32, MachineType)>,
}

/// The machine type of a state variable, from its initial value: integer
/// literals are i32, float literals f64, boolean literals bytes, and every
/// other value a 64-bit handle.
pub open spec fn state_type(value: Expr) -> MachineType {
    match value {
        Expr::Literal(Literal::Int(_)) => MachineType::I32,
        Expr::Literal(Literal::Float(_)) => MachineType::F64,
        Expr::Literal(Literal::Bool(_)) => MachineType::I8,
        _ => MachineType::I64,
    }
}

/// The size of a state slot of a machine type.
pub open spec fn slot_size(t: MachineType) -> u32 {
    match t {
        MachineType::I32 => 4,
        MachineType::I8 => 1,
        _ => 8,
    }
}

/// The state variables placed one after the other, each at its offset
/// rounded up with the bit mask of its size: the first `k` of them and the
/// offset after them. `None` when an offset does not fit in `u32`.
pub open spec fn place_state(states: Seq<StateDecl>, k: int) -> Option<(Seq<(Seq<char>, u32, MachineType)>, u32)>
    decreases k,
{
    if k <= 0 {
        Some((Seq::empty(), 0u32))
    } else {
        match place_state(states, k - 1) {
            None => None,
            Some((placed, off)) => {
                let ty = state_type(states[k - 1].value);
                let size = slot_size(ty);
                if off + size > u32::MAX {
                    None
                } else {
                    let start = ((off + size - 1) as u32) & !((size - 1) as u32);
                    if start + size > u32::MAX {
                        None
                    } else {
                        Some((placed.push((states[k - 1].name@, start, ty)), (start + size) as u32))
                    }
                }
            },
        }
    }
}

/// An agent's state can be laid out: every offset, and the size rounded up
/// to 8, fit in `u32`.
pub open spec fn agent_layout_fits(agent: Agent) -> bool {
    place_state(agent.state@, agent.state@.len() as int) matches Some((_, end)) && end + 7 <= u32::MAX
}

pub open spec fn agent_fields_view(v: Seq<(String, u32, MachineType)>) -> Seq<(Seq<char>, u32, MachineType)> {
    v.map_values(|f: (String, u32, MachineType)| (f.0@, f.1, f.2))
}

proof fn lemma_place_state_prefix(states: Seq<StateDecl>, n: int)
    requires
        place_state(states, n) is Some,
    ensures
        forall|k: int| 0 <= k <= n ==> #[trigger] place_state(states, k) is Some,
    decreases n,
{
    if n > 0 {
        lemma_place_state_prefix(states, n - 1);
    }
}

/// The layout of an agent's state: state variables in declaration order,
/// each aligned to its size, and the total size rounded up to a multiple
/// of 8.
pub fn compute_agent_layout(agent: &Agent) -> (r: AgentLayout)
    requires
        agent_layout_fits(*agent),
    ensures
        r.name == agent.name,
        place_state(agent.state@, agent.state@.len() as int) matches Some((placed, end))
            && agent_fields_view(r.fields@) == placed && r.size == ((end + 7) as u32) & !7u32,
{
    let ghost st = agent.state@;
    let mut offset: u32 = 0;
    let mut fields: Vec<(String, u32, MachineType)> = Vec::new();
    let n = agent.state.len();
    proof {
        lemma_place_state_prefix(st, n as int);
    }
    for i in 0..n
        invariant
            n == st.len(),
            st == agent.state@,
            forall|k: int| 0 <= k <= n ==> #[trigger] place_state(st, k) is Some,
            place_state(st, i as int) == Some((agent_fields_view(fields@), offset)),
    {
        let ty = match &agent.state[i].value {
            Expr::Literal(Literal::Int(_)) => MachineType::I32,
            Expr::Literal(Literal::Float(_)) => MachineType::F64,
            Expr::Literal(Literal::Bool(_)) => MachineType::I8,
            _ => MachineType::I64,
        };
        let size: u32 = match ty {
            MachineType::I32 => 4,
            MachineType::I8 => 1,
            _ => 8,
        };
        assert(place_state(st, i + 1) is Some);
        offset = (offset + size - 1) & !(size - 1);
        let ghost before = fields@;
        fields.push((agent.state[i].name.clone(), offset, ty));
        assert(agent_fields_view(fields@) =~= agent_fields_view(before).push(
            (st[i as int].name@, offset, ty),
        ));
        offset = offset + size;
    }
    let size = (offset + 7) & !7u32;
    AgentLayout { name: agent.name.clone(), size, fields }
}

// ---------------------------------------------------------------------------
// Merging types
// ---------------------------------------------------------------------------
pub open spec fn is_numeric(t: Type) -> bool {
    t is I32 || t is I64 || t is F32 || t is F64
}

/// The type of arithmetic on two operands: the widest of them, floats
/// first; two booleans stay boolean; anything else is `i32`.
pub open spec fn merge_numeric(a: Type, b: Type) -> Type {
    if a is F64 || b is F64 {
        Type::F64
    } else if a is F32 || b is F32 {
        Type::F32
    } else if a is I64 || b is I64 {
        Type::I64
    } else if a is I32 || b is I32 {
        Type::I32
    } else if a is Bool && b is Bool {
        Type::Bool
    } else {
        Type::I32
    }
}

pub fn merge_numeric_types(left: &Type, right: &Type) -> (r: Type)
    ensures
        r == merge_numeric(*left, *right),
{
    match (left, right) {
        (Type::F64, _) | (_, Type::F64) => Type::F64,
        (Type::F32, _) | (_, Type::F32) => Type::F32,
        (Type::I64, _) | (_, Type::I64) => Type::I64,
        (Type::I32, _) | (_, Type::I32) => Type::I32,
        (Type::Bool, Type::Bool) => Type::Bool,
        _ => Type::I32,
    }
}

/// The type that two branches or arms of the same value have: the same
/// type, merged inside options, vectors, maps, results and arrays of one
/// length; numbers merged as in arithmetic; otherwise the first.
pub open spec fn merge(a: Type, b: Type) -> Type
    decreases a,
{
    if same_type(a, b) {
        a
    } else {
        match (a, b) {
            (Type::Option(x), Type::Option(y)) => Type::Option(Box::new(merge(*x, *y))),
            (Type::Vec(x), Type::Vec(y)) => Type::Vec(Box::new(merge(*x, *y))),
            (Type::HashMap(k1, v1), Type::HashMap(k2, v2)) => Type::HashMap(
                Box::new(merge(*k1, *k2)),
                Box::new(merge(*v1, *v2)),
            ),
            (Type::Result(o1, e1), Type::Result(o2, e2)) => Type::Result(
                Box::new(merge(*o1, *o2)),
                Box::new(merge(*e1, *e2)),
            ),
            (Type::Array(x, n), Type::Array(y, m)) => if n == m {
                Type::Array(Box::new(merge(*x, *y)), n)
            } else {
                merge_flat(a, b)
            },
            _ => merge_flat(a, b),
        }
    }
}

/// Merging of types that are not containers of the same kind.
pub open spec fn merge_flat(a: Type, b: Type) -> Type {
    if is_numeric(a) && is_numeric(b) {
        merge_numeric(a, b)
    } else if a is Bool && b is Bool {
        Type::Bool
    } else if a is Str && b is Str {
        Type::Str
    } else {
        a
    }
}

fn merge_flat_exec(left: &Type, right: &Type) -> (r: Type)
    ensures
        r == merge_flat(*left, *right),
{
    let ln = matches!(left, Type::I32 | Type::I64 | Type::F32 | Type::F64);
    let rn = matches!(right, Type::I32 | Type::I64 | Type::F32 | Type::F64);
    if ln && rn {
        return merge_numeric_types(left, right);
    }
    if matches!(left, Type::Bool) && matches!(right, Type::Bool) {
        return Type::Bool;
    }
    if matches!(left, Type::Str) && matches!(right, Type::Str) {
        return Type::Str;
    }
    copy_type(left)
}

pub fn merge_types(left: &Type, right: &Type) -> (r: Type)
    ensures
        r == merge(*left, *right),
    decreases left,
{
    if type_eq(left, right) {
        return copy_type(left);
    }
    match (left, right) {
        (Type::Option(a), Type::Option(b)) => Type::Option(Box::new(merge_types(a, b))),
        (Type::Vec(a), Type::Vec(b)) => Type::Vec(Box::new(merge_types(a, b))),
        (Type::HashMap(ka, va), Type::HashMap(kb, vb)) => Type::HashMap(
            Box::new(merge_types(ka, kb)),
            Box::new(merge_types(va, vb)),
        ),
        (Type::Result(oa, ea), Type::Result(ob, eb)) => Type::Result(
            Box::new(merge_types(oa, ob)),
            Box::new(merge_types(ea, eb)),
        ),
        (Type::Array(a, la), Type::Array(b, lb)) => {
            if *la == *lb {
                Type::Array(Box::new(merge_types(a, b)), *la)
            } else {
                merge_flat_exec(left, right)
            }
        },
        _ => merge_flat_exec(left, right),
    }
}

/// Whether a value of type `actual` can stand where `expected` is wanted:
/// the same type, two numeric types, or containers of compatible types.
pub open spec fn compatible(expected: Type, actual: Type) -> bool
    decreases expected,
{
    if same_type(expected, actual) || (is_numeric(expected) && is_numeric(actual)) {
        true
    } else {
        match (expected, actual) {
            (Type::Option(x), Type::Option(y)) => compatible(*x, *y),
            (Type::Vec(x), Type::Vec(y)) => compatible(*x, *y),
            (Type::HashMap(k1, v1), Type::HashMap(k2, v2)) => compatible(*k1, *k2) && compatible(
                *v1,
                *v2,
            ),
            (Type::Result(o1, e1), Type::Result(o2, e2)) => compatible(*o1, *o2) && compatible(
                *e1,
                *e2,
            ),
            (Type::Array(x, _), Type::Array(y, _)) => compatible(*x, *y),
            _ => false,
        }
    }
}

pub fn types_compatible_ast(expected: &Type, actual: &Type) -> (r: bool)
    ensures
        r == compatible(*expected, *actual),
    decreases expected,
{
    if type_eq(expected, actual) {
        return true;
    }
    if matches!(expected, Type::I32 | Type::I64 | Type::F32 | Type::F64) && matches!(
        actual,
        Type::I32 | Type::I64 | Type::F32 | Type::F64
    ) {
        return true;
    }
    match (expected, actual) {
        (Type::Option(e1), Type::Option(e2)) => types_compatible_ast(e1, e2),
        (Type::Vec(e1), Type::Vec(e2)) => types_compatible_ast(e1, e2),
        (Type::HashMap(k1, v1), Type::HashMap(k2, v2)) => types_compatible_ast(k1, k2)
            && types_compatible_ast(v1, v2),
        (Type::Result(o1, e1), Type::Result(o2, e2)) => types_compatible_ast(o1, o2)
            && types_compatible_ast(e1, e2),
        (Type::Array(e1, _), Type::Array(e2, _)) => types_compatible_ast(e1, e2),
        _ => false,
    }
}

/// Merging a type with itself gives it back.
pub proof fn lemma_merge_same(t: Type)
    ensures
        merge(t, t) == t,
{
    lemma_same_type_reflexive(t);
}

/// The arithmetic type of two operands does not depend on their order.
pub proof fn lemma_merge_numeric_commutes(a: Type, b: Type)
    ensures
        merge_numeric(a, b) == merge_numeric(b, a),
{
}

/// Every type is compatible with itself.
pub proof fn lemma_compatible_reflexive(t: Type)
    ensures
        compatible(t, t),
{
    lemma_same_type_reflexive(t);
}

/// Compatibility does not depend on which type is the expected one.
pub proof fn lemma_compatible_symmetric(a: Type, b: Type)
    requires
        compatible(a, b),
    ensures
        compatible(b, a),
    decreases a,
{
    if same_type(a, b) {
        lemma_same_type_symmetric(a, b);
    } else if is_numeric(a) && is_numeric(b) {
    } else {
        match (a, b) {
            (Type::Option(x), Type::Option(y)) => lemma_compatible_symmetric(*x, *y),
            (Type::Vec(x), Type::Vec(y)) => lemma_compatible_symmetric(*x, *y),
            (Type::HashMap(k1, v1), Type::HashMap(k2, v2)) => {
                lemma_compatible_symmetric(*k1, *k2);
                lemma_compatible_symmetric(*v1, *v2);
            },
            (Type::Result(o1, e1), Type::Result(o2, e2)) => {
                lemma_compatible_symmetric(*o1, *o2);
                lemma_compatible_symmetric(*e1, *e2);
            },
            (Type::Array(x, _), Type::Array(y, _)) => lemma_compatible_symmetric(*x, *y),
            _ => {},
        }
    }
}

// ---------------------------------------------------------------------------
// Fields
// ---------------------------------------------------------------------------
/// The offset and type of the first field named `name`, from index `i` on.
pub open spec fn field_in(fields: Seq<(String, u32, Type)>, name: Seq<char>, i: int) -> Option<(u32, Type)>
    decreases fields.len() - i,
{
    if i < 0 || i >= fields.len() {
        None
    } else if fields[i].0@ == name {
        Some((fields[i].1, fields[i].2))
    } else {
        field_in(fields, name, i + 1)
    }
}

/// The entry at index `i` is the one that counts for its name.
pub open spec fn live<X>(s: Seq<(String, X)>, i: int) -> bool {
    forall|j: int| i < j < s.len() ==> s[j].0@ != s[i].0@
}

/// The first field named `name` in any struct, from entry `i` on.
pub open spec fn field_anywhere(s: Seq<(String, StructLayout)>, name: Seq<char>, i: int) -> Option<
    (u32, Type),
>
    decreases s.len() - i,
{
    if i < 0 || i >= s.len() {
        None
    } else if live(s, i) && field_in(s[i].1.fields@, name, 0) is Some {
        field_in(s[i].1.fields@, name, 0)
    } else {
        field_anywhere(s, name, i + 1)
    }
}

/// The field `field` of the value an expression denotes: looked up in the
/// struct of the expression's known type, else in any struct that has a
/// field of that name.
pub open spec fn field_of(
    structs: Seq<(String, StructLayout)>,
    e: SpecExpr,
    field: Seq<char>,
    vars: Map<Seq<char>, Type>,
) -> Option<(u32, Type)>
    decreases e,
{
    let base: Option<Type> = match e {
        SpecExpr::Ident(n) => if vars.contains_key(n@) {
            Some(vars[n@])
        } else {
            None
        },
        SpecExpr::Field { expr, field: f } => match field_of(structs, *expr, f@, vars) {
            Some((_, t)) => Some(t),
            None => None,
        },
        _ => None,
    };
    let direct = match base {
        Some(Type::Named(sn)) => if table_map(structs).contains_key(sn@) {
            field_in(table_map(structs)[sn@].fields@, field, 0)
        } else {
            None
        },
        _ => None,
    };
    if direct is Some {
        direct
    } else {
        field_anywhere(structs, field, 0)
    }
}

fn field_in_exec(fields: &Vec<(String, u32, Type)>, name: &str) -> (r: Option<(u32, Type)>)
    ensures
        r == field_in(fields@, name@, 0),
{
    let n = fields.len();
    for i in 0..n
        invariant
            n == fields@.len(),
            field_in(fields@, name@, 0) == field_in(fields@, name@, i as int),
    {
        if str_eq(fields[i].0.as_str(), name) {
            return Some((fields[i].1, copy_type(&fields[i].2)));
        }
    }
    None
}

fn field_anywhere_exec(structs: &Vec<(String, StructLayout)>, name: &str) -> (r: Option<(u32, Type)>)
    ensures
        r == field_anywhere(structs@, name@, 0),
{
    let n = structs.len();
    for i in 0..n
        invariant
            n == structs@.len(),
            field_anywhere(structs@, name@, 0) == field_anywhere(structs@, name@, i as int),
    {
        let is_live = match find_last(structs, structs[i].0.as_str()) {
            Some(j) => j == i,
            None => false,
        };
        assert(is_live == live(structs@, i as int));
        if is_live {
            let found = field_in_exec(&structs[i].1.fields, name);
            if found.is_some() {
                return found;
            }
        }
    }
    None
}

/// Resolve field access: the offset and type of the field, if known.
pub fn resolve_field(
    structs: &Vec<(String, StructLayout)>,
    expr: &Expr,
    field: &str,
    var_types: &Vec<(String, Type)>,
) -> (r: Option<(u32, Type)>)
    ensures
        r == field_of(structs@, expr@, field@, table_map(var_types@)),
    decreases expr,
{
    let base: Option<Type> = match expr {
        Expr::Ident(name) => match assoc_get(var_types, name.as_str()) {
            Some(t) => Some(copy_type(t)),
            None => None,
        },
        Expr::Field { expr: inner, field: f } => match resolve_field(
            structs,
            inner,
            f.as_str(),
            var_types,
        ) {
            Some((_, t)) => Some(t),
            None => None,
        },
        _ => None,
    };
    if let Some(Type::Named(struct_name)) = &base {
        if let Some(layout) = assoc_get(structs, struct_name.as_str()) {
            let found = field_in_exec(&layout.fields, field);
            if found.is_some() {
                return found;
            }
        }
    }
    field_anywhere_exec(structs, field)
}

// ---------------------------------------------------------------------------
// The types of expressions
// ---------------------------------------------------------------------------
pub open spec fn literal_type(l: Literal) -> Type {
    match l {
        Literal::Int(_) => Type::I32,
        Literal::Float(_) => Type::F64,
        Literal::Bool(_) => Type::Bool,
        Literal::Char(_) => Type::I32,
        Literal::String(_) => Type::Str,
        Literal::HexColor(_) => Type::I32,
    }
}

/// The type of a binary operation on operands of the given types.
pub open spec fn binary_type(op: BinaryOp, l: Type, r: Type) -> Type {
    match op {
        BinaryOp::Add | BinaryOp::Sub | BinaryOp::Mul | BinaryOp::Div | BinaryOp::Mod => merge_numeric(
            l,
            r,
        ),
        BinaryOp::Eq | BinaryOp::Ne | BinaryOp::Lt | BinaryOp::Le | BinaryOp::Gt | BinaryOp::Ge
        | BinaryOp::And | BinaryOp::Or => Type::Bool,
        BinaryOp::BitAnd | BinaryOp::BitOr | BinaryOp::BitXor | BinaryOp::Shl | BinaryOp::Shr => if l is I64
            || r is I64 {
            Type::I64
        } else {
            Type::I32
        },
        BinaryOp::As => l,
    }
}

/// The type an expression is given: from its literal, the variable's known
/// type, its operators, the builtin or function it calls, the struct field
/// it reads, or the branches and arms it chooses among; `i32` when nothing
/// tells.
pub open spec fn infer(
    e: SpecExpr,
    vars: Map<Seq<char>, Type>,
    structs: Seq<(String, StructLayout)>,
    sigs: Map<Seq<char>, FnSig>,
) -> Type
    decreases e, 0int,
{
    match e {
        SpecExpr::Literal(l) => literal_type(l),
        SpecExpr::Ident(n) => if vars.contains_key(n@) {
            vars[n@]
        } else {
            Type::I32
        },
        SpecExpr::Unary { op, expr } => match op {
            UnaryOp::Neg => infer(*expr, vars, structs, sigs),
            UnaryOp::Not => Type::Bool,
        },
        SpecExpr::Binary { op, left, right } => binary_type(
            op,
            infer(*left, vars, structs, sigs),
            infer(*right, vars, structs, sigs),
        ),
        SpecExpr::Call { func, args } => match *func {
            SpecExpr::Ident(name) => {
                let tys = infer_each(args, 0, vars, structs, sigs);
                match special_builtin_call_type(name@, tys, None) {
                    Some(t) => t,
                    None => if sigs.contains_key(name@) {
                        match sigs[name@].1 {
                            Some(t) => t,
                            None => Type::I32,
                        }
                    } else {
                        Type::I32
                    },
                }
            },
            _ => Type::I32,
        },
        SpecExpr::Index { expr, .. } => match infer(*expr, vars, structs, sigs) {
            Type::Array(elem, _) => *elem,
            _ => Type::I32,
        },
        SpecExpr::Field { expr, field } => match field_of(structs, *expr, field@, vars) {
            Some((_, t)) => t,
            None => Type::I32,
        },
        SpecExpr::Array(els) => Type::Array(
            Box::new(array_literal_type(els, vars, structs, sigs)),
            els.len() as usize,
        ),
        SpecExpr::Struct { name, .. } => Type::Named(name),
        SpecExpr::If { then_expr, else_expr, .. } => {
            let tn = branch_is_none(*then_expr, vars, structs, sigs);
            let en = branch_is_none(*else_expr, vars, structs, sigs);
            if tn && !en {
                infer(*else_expr, vars, structs, sigs)
            } else if en && !tn {
                infer(*then_expr, vars, structs, sigs)
            } else {
                let tt = infer(*then_expr, vars, structs, sigs);
                let et = infer(*else_expr, vars, structs, sigs);
                if compatible(tt, et) {
                    merge(tt, et)
                } else {
                    tt
                }
            }
        },
        SpecExpr::Match { arms, .. } => match_type(arms, 0, vars, structs, sigs, None, false),
        SpecExpr::Block(b) => match block_value(b.statements, 0, vars, structs, sigs, None) {
            Some(t) => t,
            None => Type::I32,
        },
        SpecExpr::SomeOf(inner) => Type::Option(Box::new(infer(*inner, vars, structs, sigs))),
        SpecExpr::NoneValue => Type::Option(Box::new(Type::I32)),
        SpecExpr::Copy(x) => infer(*x, vars, structs, sigs),
        _ => Type::I32,
    }
}

/// The types of the expressions from index `i` on.
pub open spec fn infer_each(
    s: Seq<SpecExpr>,
    i: int,
    vars: Map<Seq<char>, Type>,
    structs: Seq<(String, StructLayout)>,
    sigs: Map<Seq<char>, FnSig>,
) -> Seq<Type>
    decreases s, s.len() - i,
{
    if i < 0 || i >= s.len() {
        Seq::empty()
    } else {
        seq![infer(s[i], vars, structs, sigs)] + infer_each(s, i + 1, vars, structs, sigs)
    }
}

/// The element type of an array literal: the arithmetic merge of its
/// elements' types (`i32` when empty).
pub open spec fn array_literal_type(
    s: Seq<SpecExpr>,
    vars: Map<Seq<char>, Type>,
    structs: Seq<(String, StructLayout)>,
    sigs: Map<Seq<char>, FnSig>,
) -> Type
    decreases s, s.len() + 1,
{
    if s.len() == 0 {
        Type::I32
    } else {
        array_fold(s, 1, infer(s[0], vars, structs, sigs), vars, structs, sigs)
    }
}

pub open spec fn array_fold(
    s: Seq<SpecExpr>,
    i: int,
    current: Type,
    vars: Map<Seq<char>, Type>,
    structs: Seq<(String, StructLayout)>,
    sigs: Map<Seq<char>, FnSig>,
) -> Type
    decreases s, s.len() - i,
{
    if i < 0 || i >= s.len() {
        current
    } else {
        array_fold(
            s,
            i + 1,
            merge_numeric(current, infer(s[i], vars, structs, sigs)),
            vars,
            structs,
            sigs,
        )
    }
}

/// A branch that gives no value: `None`, or a block without a value.
pub open spec fn branch_is_none(
    x: SpecExpr,
    vars: Map<Seq<char>, Type>,
    structs: Seq<(String, StructLayout)>,
    sigs: Map<Seq<char>, FnSig>,
) -> bool
    decreases x, 1int,
{
    match x {
        SpecExpr::NoneValue => true,
        SpecExpr::Block(b) => block_value(b.statements, 0, vars, structs, sigs, None) is None,
        _ => false,
    }
}

/// The type of the value of a block, from statement `i` on, with the
/// variables its `let`s bind: the type of its last expression statement
/// (none for `None`).
pub open spec fn block_value(
    s: Seq<SpecStmt>,
    i: int,
    vars: Map<Seq<char>, Type>,
    structs: Seq<(String, StructLayout)>,
    sigs: Map<Seq<char>, FnSig>,
    last: Option<Type>,
) -> Option<Type>
    decreases s, s.len() - i,
{
    if i < 0 || i >= s.len() {
        last
    } else {
        match s[i] {
            SpecStmt::Let { name, ty, value } => {
                let t = match ty {
                    Some(t) => t,
                    None => infer(value, vars, structs, sigs),
                };
                block_value(s, i + 1, vars.insert(name@, t), structs, sigs, last)
            },
            SpecStmt::Expr(e) => if e is NoneValue {
                block_value(s, i + 1, vars, structs, sigs, None)
            } else {
                block_value(s, i + 1, vars, structs, sigs, Some(infer(e, vars, structs, sigs)))
            },
            _ => block_value(s, i + 1, vars, structs, sigs, last),
        }
    }
}

/// The type of a `match` expression from arm `i` on: the merge of the arms'
/// types, an option when an arm gives `None` and no other type is known.
pub open spec fn match_type(
    arms: Seq<SpecArm>,
    i: int,
    vars: Map<Seq<char>, Type>,
    structs: Seq<(String, StructLayout)>,
    sigs: Map<Seq<char>, FnSig>,
    result: Option<Type>,
    saw_none: bool,
) -> Type
    decreases arms, arms.len() - i,
{
    if i < 0 || i >= arms.len() {
        if saw_none && result is None {
            Type::Option(Box::new(Type::I32))
        } else {
            match result {
                Some(t) => t,
                None => Type::I32,
            }
        }
    } else {
        let arm_ty: Option<Type> = match arms[i].body {
            SpecBody::Expr(e) => if e is NoneValue {
                None
            } else {
                Some(infer(e, vars, structs, sigs))
            },
            SpecBody::Block(b) => block_value(b.statements, 0, vars, structs, sigs, None),
        };
        let none_here = arm_ty is None;
        let next = match arm_ty {
            Some(t) => match result {
                None => Some(t),
                Some(ex) => Some(merge(ex, t)),
            },
            None => result,
        };
        match_type(arms, i + 1, vars, structs, sigs, next, saw_none || none_here)
    }
}

/// A copy of a table of types.
fn copy_types(v: &Vec<(String, Type)>) -> (r: Vec<(String, Type)>)
    ensures
        r@ == v@,
{
    let mut r: Vec<(String, Type)> = Vec::new();
    let n = v.len();
    for i in 0..n
        invariant
            n == v@.len(),
            r@ == v@.take(i as int),
    {
        r.push((v[i].0.clone(), copy_type(&v[i].1)));
        assert(r@ =~= v@.take(i + 1));
    }
    assert(v@.take(n as int) =~= v@);
    r
}

/// Infer the type of an expression.
#[verifier::rlimit(100)]
#[verifier::spinoff_prover]
pub fn infer_expr_type(
    expr: &Expr,
    var_types: &Vec<(String, Type)>,
    structs: &Vec<(String, StructLayout)>,
    fn_sigs: &Vec<(String, FnSig)>,
) -> (r: Type)
    ensures
        r == infer(expr@, table_map(var_types@), structs@, table_map(fn_sigs@)),
    decreases expr, 0int,
{
    match expr {
        Expr::Literal(lit) => match lit {
            Literal::Int(_) => Type::I32,
            Literal::Float(_) => Type::F64,
            Literal::Bool(_) => Type::Bool,
            Literal::Char(_) => Type::I32,
            Literal::String(_) => Type::Str,
            Literal::HexColor(_) => Type::I32,
        },
        Expr::Ident(name) => match assoc_get(var_types, name.as_str()) {
            Some(t) => copy_type(t),
            None => Type::I32,
        },
        Expr::Unary { op, expr: inner } => {
            let t = infer_expr_type(inner, var_types, structs, fn_sigs);
            match op {
                UnaryOp::Neg => t,
                UnaryOp::Not => Type::Bool,
            }
        },
        Expr::Binary { op, left, right } => {
            let l = infer_expr_type(left, var_types, structs, fn_sigs);
            let r = infer_expr_type(right, var_types, structs, fn_sigs);
            match op {
                BinaryOp::Add | BinaryOp::Sub | BinaryOp::Mul | BinaryOp::Div | BinaryOp::Mod => {
                    merge_numeric_types(&l, &r)
                },
                BinaryOp::Eq | BinaryOp::Ne | BinaryOp::Lt | BinaryOp::Le | BinaryOp::Gt
                | BinaryOp::Ge | BinaryOp::And | BinaryOp::Or => Type::Bool,
                BinaryOp::BitAnd | BinaryOp::BitOr | BinaryOp::BitXor | BinaryOp::Shl
                | BinaryOp::Shr => {
                    if matches!(l, Type::I64) || matches!(r, Type::I64) {
                        Type::I64
                    } else {
                        Type::I32
                    }
                },
                BinaryOp::As => l,
            }
        },
        Expr::Call { func, args } => match &**func {
            Expr::Ident(name) => {
                assert((**func)@ == SpecExpr::Ident(*name));
                let arg_types = infer_args(args, var_types, structs, fn_sigs);
                match infer_special_builtin_call_type(name.as_str(), arg_types.as_slice(), None) {
                    Some(t) => t,
                    None => match assoc_get(fn_sigs, name.as_str()) {
                        Some(sig) => match &sig.1 {
                            Some(t) => copy_type(t),
                            None => Type::I32,
                        },
                        None => Type::I32,
                    },
                }
            },
            _ => {
                assert(!((**func)@ is Ident));
                Type::I32
            },
        },
        Expr::Index { expr: inner, .. } => match infer_expr_type(inner, var_types, structs, fn_sigs) {
            Type::Array(elem, _) => *elem,
            _ => Type::I32,
        },
        Expr::Field { expr: inner, field } => match resolve_field(
            structs,
            inner,
            field.as_str(),
            var_types,
        ) {
            Some((_, t)) => t,
            None => Type::I32,
        },
        Expr::Array(elements) => {
            let elem = infer_array_literal_type(elements, var_types, structs, fn_sigs);
            Type::Array(Box::new(elem), elements.len())
        },
        Expr::Struct { name, .. } => Type::Named(name.clone()),
        Expr::If { then_expr, else_expr, .. } => {
            let tn = branch_is_none_exec(then_expr, var_types, structs, fn_sigs);
            let en = branch_is_none_exec(else_expr, var_types, structs, fn_sigs);
            if tn && !en {
                return infer_expr_type(else_expr, var_types, structs, fn_sigs);
            }
            if en && !tn {
                return infer_expr_type(then_expr, var_types, structs, fn_sigs);
            }
            let tt = infer_expr_type(then_expr, var_types, structs, fn_sigs);
            let et = infer_expr_type(else_expr, var_types, structs, fn_sigs);
            if types_compatible_ast(&tt, &et) {
                merge_types(&tt, &et)
            } else {
                tt
            }
        },
        Expr::Match { arms, .. } => infer_match_expr_type(arms, var_types, structs, fn_sigs),
        Expr::Block(block) => match infer_block_value_type(block, var_types, structs, fn_sigs) {
            Some(t) => t,
            None => Type::I32,
        },
        Expr::SomeOf(inner) => Type::Option(
            Box::new(infer_expr_type(inner, var_types, structs, fn_sigs)),
        ),
        Expr::NoneValue => Type::Option(Box::new(Type::I32)),
        Expr::Copy(inner) => infer_expr_type(inner, var_types, structs, fn_sigs),
        _ => Type::I32,
    }
}

fn infer_args(
    args: &Vec<Expr>,
    var_types: &Vec<(String, Type)>,
    structs: &Vec<(String, StructLayout)>,
    fn_sigs: &Vec<(String, FnSig)>,
) -> (r: Vec<Type>)
    ensures
        r@ == infer_each(
            exprs_view(args@),
            0,
            table_map(var_types@),
            structs@,
            table_map(fn_sigs@),
        ),
    decreases args, 1int,
{
    let ghost sv = exprs_view(args@);
    let ghost vars = table_map(var_types@);
    let ghost sigs = table_map(fn_sigs@);
    let mut r: Vec<Type> = Vec::new();
    let n = args.len();
    for i in 0..n
        invariant
            n == args@.len(),
            sv == exprs_view(args@),
            vars == table_map(var_types@),
            sigs == table_map(fn_sigs@),
            infer_each(sv, 0, vars, structs@, sigs) == r@ + infer_each(sv, i as int, vars, structs@, sigs),
    {
        assert(decreases_to!(args => args@[i as int]));
        let t = infer_expr_type(&args[i], var_types, structs, fn_sigs);
        let ghost before = r@;
        r.push(t);
        assert(before + (seq![t] + infer_each(sv, i + 1, vars, structs@, sigs)) =~= r@ + infer_each(
            sv,
            i + 1,
            vars,
            structs@,
            sigs,
        ));
    }
    assert(r@ + Seq::<Type>::empty() =~= r@);
    r
}

/// The element type of an array literal.
pub fn infer_array_literal_type(
    elements: &Vec<Expr>,
    var_types: &Vec<(String, Type)>,
    structs: &Vec<(String, StructLayout)>,
    fn_sigs: &Vec<(String, FnSig)>,
) -> (r: Type)
    ensures
        r == array_literal_type(
            exprs_view(elements@),
            table_map(var_types@),
            structs@,
            table_map(fn_sigs@),
        ),
    decreases elements, 1int,
{
    let ghost sv = exprs_view(elements@);
    let ghost vars = table_map(var_types@);
    let ghost sigs = table_map(fn_sigs@);
    if elements.len() == 0 {
        return Type::I32;
    }
    assert(decreases_to!(elements => elements@[0]));
    let mut current = infer_expr_type(&elements[0], var_types, structs, fn_sigs);
    let n = elements.len();
    for i in 1..n
        invariant
            n == elements@.len(),
            sv == exprs_view(elements@),
            vars == table_map(var_types@),
            sigs == table_map(fn_sigs@),
            array_literal_type(sv, vars, structs@, sigs) == array_fold(
                sv,
                i as int,
                current,
                vars,
                structs@,
                sigs,
            ),
    {
        assert(decreases_to!(elements => elements@[i as int]));
        let next = infer_expr_type(&elements[i], var_types, structs, fn_sigs);
        current = merge_numeric_types(&current, &next);
    }
    current
}

/// The element type of an array-typed expression.
pub fn infer_array_elem_type(
    expr: &Expr,
    var_types: &Vec<(String, Type)>,
    structs: &Vec<(String, StructLayout)>,
    fn_sigs: &Vec<(String, FnSig)>,
) -> (r: Option<Type>)
    ensures
        r == match infer(expr@, table_map(var_types@), structs@, table_map(fn_sigs@)) {
            Type::Array(elem, _) => Some(*elem),
            _ => None,
        },
{
    match infer_expr_type(expr, var_types, structs, fn_sigs) {
        Type::Array(elem, _) => Some(*elem),
        _ => None,
    }
}

/// The length of an array-typed expression.
pub fn infer_array_len(
    expr: &Expr,
    var_types: &Vec<(String, Type)>,
    structs: &Vec<(String, StructLayout)>,
    fn_sigs: &Vec<(String, FnSig)>,
) -> (r: Option<usize>)
    ensures
        r == match infer(expr@, table_map(var_types@), structs@, table_map(fn_sigs@)) {
            Type::Array(_, len) => Some(len),
            _ => None,
        },
{
    match infer_expr_type(expr, var_types, structs, fn_sigs) {
        Type::Array(_, len) => Some(len),
        _ => None,
    }
}

fn branch_is_none_exec(
    x: &Expr,
    var_types: &Vec<(String, Type)>,
    structs: &Vec<(String, StructLayout)>,
    fn_sigs: &Vec<(String, FnSig)>,
) -> (r: bool)
    ensures
        r == branch_is_none(x@, table_map(var_types@), structs@, table_map(fn_sigs@)),
    decreases x, 1int,
{
    match x {
        Expr::NoneValue => true,
        Expr::Block(b) => infer_block_value_type(b, var_types, structs, fn_sigs).is_none(),
        _ => false,
    }
}

/// The type of the value of a block, if it has one.
#[verifier::rlimit(100)]
#[verifier::spinoff_prover]
pub fn infer_block_value_type(
    block: &Block,
    var_types: &Vec<(String, Type)>,
    structs: &Vec<(String, StructLayout)>,
    fn_sigs: &Vec<(String, FnSig)>,
) -> (r: Option<Type>)
    ensures
        r == block_value(
            block@.statements,
            0,
            table_map(var_types@),
            structs@,
            table_map(fn_sigs@),
            None,
        ),
    decreases block, 1int,
{
    let ghost ss = block@.statements;
    let ghost sigs = table_map(fn_sigs@);
    let mut env = copy_types(var_types);
    let mut last: Option<Type> = None;
    let n = block.statements.len();
    for i in 0..n
        invariant
            n == block.statements@.len(),
            ss == block@.statements,
            ss == stmts_view(block.statements@),
            sigs == table_map(fn_sigs@),
            block_value(ss, 0, table_map(var_types@), structs@, sigs, None) == block_value(
                ss,
                i as int,
                table_map(env@),
                structs@,
                sigs,
                last,
            ),
    {
        assert(decreases_to!(block => block.statements@[i as int]));
        proof {
            lemma_stmts_view(block.statements@);
        }
        match &block.statements[i] {
            Stmt::Let { name, ty, value } => {
                let inferred = match ty {
                    Some(t) => copy_type(t),
                    None => infer_expr_type(value, &env, structs, fn_sigs),
                };
                crate::assoc::assoc_insert(&mut env, name.clone(), inferred);
            },
            Stmt::Expr(e) => {
                if matches!(e, Expr::NoneValue) {
                    last = None;
                } else {
                    last = Some(infer_expr_type(e, &env, structs, fn_sigs));
                }
            },
            _ => {},
        }
    }
    last
}

/// The type of a `match` expression.
#[verifier::rlimit(100)]
#[verifier::spinoff_prover]
pub fn infer_match_expr_type(
    arms: &Vec<MatchArm>,
    var_types: &Vec<(String, Type)>,
    structs: &Vec<(String, StructLayout)>,
    fn_sigs: &Vec<(String, FnSig)>,
) -> (r: Type)
    ensures
        r == match_type(
            arms_view(arms@),
            0,
            table_map(var_types@),
            structs@,
            table_map(fn_sigs@),
            None,
            false,
        ),
    decreases arms, 1int,
{
    let ghost sv = arms_view(arms@);
    let ghost vars = table_map(var_types@);
    let ghost sigs = table_map(fn_sigs@);
    let mut result: Option<Type> = None;
    let mut saw_none = false;
    let n = arms.len();
    for i in 0..n
        invariant
            n == arms@.len(),
            sv == arms_view(arms@),
            vars == table_map(var_types@),
            sigs == table_map(fn_sigs@),
            match_type(sv, 0, vars, structs@, sigs, None, false) == match_type(
                sv,
                i as int,
                vars,
                structs@,
                sigs,
                result,
                saw_none,
            ),
    {
        assert(decreases_to!(arms => arms@[i as int]));
        let arm_ty: Option<Type> = match &arms[i].body {
            MatchBody::Expr(e) => {
                if matches!(e, Expr::NoneValue) {
                    None
                } else {
                    Some(infer_expr_type(e, var_types, structs, fn_sigs))
                }
            },
            MatchBody::Block(b) => infer_block_value_type(b, var_types, structs, fn_sigs),
        };
        if arm_ty.is_none() {
            saw_none = true;
        }
        match arm_ty {
            Some(t) => {
                result = match result {
                    None => Some(t),
                    Some(existing) => Some(merge_types(&existing, &t)),
                };
            },
            None => {},
        }
    }
    if saw_none && result.is_none() {
        return Type::Option(Box::new(Type::I32));
    }
    match result {
        Some(t) => t,
        None => Type::I32,
    }
}

} // verus!
