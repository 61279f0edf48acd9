//! The builtin functions of the bootstrap standard library: what the type
//! checker accepts for each, and the signature the runtime gives each.
use vstd::prelude::*;
use crate::ast::{Type, same_type, copy_type, type_eq};
use crate::text::str_eq;

verus! {

#[derive(Clone, Copy, Debug, PartialEq, Eq, Structural)]
pub enum BuiltinArgRule {
    Any,
    Str,
    Integer,
    StrOrArray,
}

#[derive(Clone, Copy, Debug, PartialEq, Eq)]
pub struct BuiltinParamSpec {
    pub rule: BuiltinArgRule,
    pub type_error: &'static str,
}

#[derive(Clone, Copy, Debug, PartialEq, Eq, Structural)]
pub enum RuntimeBuiltinType {
    I32,
    I64,
    Bool,
    Str,
}

pub open spec fn runtime_type_to_ast(t: RuntimeBuiltinType) -> Type {
    match t {
        RuntimeBuiltinType::I32 => Type::I32,
        RuntimeBuiltinType::I64 => Type::I64,
        RuntimeBuiltinType::Bool => Type::Bool,
        RuntimeBuiltinType::Str => Type::Str,
    }
}

impl RuntimeBuiltinType {
    pub fn to_ast_type(self) -> (t: Type)
        ensures
            t == runtime_type_to_ast(self),
    {
        match self {
            Self::I32 => Type::I32,
            Self::I64 => Type::I64,
            Self::Bool => Type::Bool,
            Self::Str => Type::Str,
        }
    }
}

#[derive(Clone, Copy, Debug, PartialEq, Eq, Structural)]
pub enum BuiltinReturnType {
    Runtime(RuntimeBuiltinType),
    ResultI64I64,
}

pub open spec fn return_type_to_ast(t: BuiltinReturnType) -> Type {
    match t {
        BuiltinReturnType::Runtime(r) => runtime_type_to_ast(r),
        BuiltinReturnType::ResultI64I64 => Type::Result(Box::new(Type::I64), Box::new(Type::I64)),
    }
}

impl BuiltinReturnType {
    pub fn to_ast_type(self) -> (t: Type)
        ensures
            t == return_type_to_ast(self),
    {
        match self {
            Self::Runtime(ty) => ty.to_ast_type(),
            Self::ResultI64I64 => { Type::Result(Box::new(Type::I64), Box::new(Type::I64)) },
        }
    }
}

#[derive(Clone, Copy, Debug, PartialEq, Eq)]
pub struct TypecheckBuiltinSpec {
    pub name: &'static str,
    pub arity_error: &'static str,
    pub params: &'static [BuiltinParamSpec],
    pub return_type: BuiltinReturnType,
}

#[derive(Clone, Copy, Debug, PartialEq, Eq)]
pub struct RuntimeBuiltinSpec {
    pub name: &'static str,
    pub params: &'static [RuntimeBuiltinType],
    pub return_type: Option<RuntimeBuiltinType>,
}

/// The contents of a type checker entry.
#[verifier::ext_equal]
pub ghost struct TypecheckBuiltinView {
    pub name: Seq<char>,
    pub arity_error: Seq<char>,
    pub params: Seq<BuiltinParamSpec>,
    pub return_type: BuiltinReturnType,
}

/// The contents of a runtime entry.
#[verifier::ext_equal]
pub ghost struct RuntimeBuiltinView {
    pub name: Seq<char>,
    pub params: Seq<RuntimeBuiltinType>,
    pub return_type: Option<RuntimeBuiltinType>,
}

impl View for TypecheckBuiltinSpec {
    type V = TypecheckBuiltinView;

    open spec fn view(&self) -> TypecheckBuiltinView {
        TypecheckBuiltinView {
            name: self.name@,
            arity_error: self.arity_error@,
            params: self.params@,
            return_type: self.return_type,
        }
    }
}

impl View for RuntimeBuiltinSpec {
    type V = RuntimeBuiltinView;

    open spec fn view(&self) -> RuntimeBuiltinView {
        RuntimeBuiltinView { name: self.name@, params: self.params@, return_type: self.return_type }
    }
}

/// The entry of the type checker's builtin table for `name`.
pub open spec fn typecheck_builtin(name: Seq<char>) -> Option<TypecheckBuiltinView> {
    if name == "strlen"@ {
        Some(TypecheckBuiltinView { name: "strlen"@, arity_error: "strlen expects 1 argument"@, params: seq![BuiltinParamSpec { rule: BuiltinArgRule::Str, type_error: "strlen expects str" }], return_type: BuiltinReturnType::Runtime(RuntimeBuiltinType::I32) })
    } else     if name == "len"@ {
        Some(TypecheckBuiltinView { name: "len"@, arity_error: "len expects 1 argument"@, params: seq![BuiltinParamSpec { rule: BuiltinArgRule::StrOrArray, type_error: "len expects array or str" }], return_type: BuiltinReturnType::Runtime(RuntimeBuiltinType::I32) })
    } else     if name == "read_file"@ {
        Some(TypecheckBuiltinView { name: "read_file"@, arity_error: "read_file expects 1 argument"@, params: seq![BuiltinParamSpec { rule: BuiltinArgRule::Str, type_error: "read_file expects str path" }], return_type: BuiltinReturnType::Runtime(RuntimeBuiltinType::Str) })
    } else     if name == "write_file"@ {
        Some(TypecheckBuiltinView { name: "write_file"@, arity_error: "write_file expects 2 arguments"@, params: seq![BuiltinParamSpec { rule: BuiltinArgRule::Str, type_error: "write_file path must be str" }, BuiltinParamSpec { rule: BuiltinArgRule::Str, type_error: "write_file content must be str" }], return_type: BuiltinReturnType::Runtime(RuntimeBuiltinType::Bool) })
    } else     if name == "file_exists"@ {
        Some(TypecheckBuiltinView { name: "file_exists"@, arity_error: "file_exists expects 1 argument"@, params: seq![BuiltinParamSpec { rule: BuiltinArgRule::Str, type_error: "file_exists expects str path" }], return_type: BuiltinReturnType::Runtime(RuntimeBuiltinType::Bool) })
    } else     if name == "char_at"@ {
        Some(TypecheckBuiltinView { name: "char_at"@, arity_error: "char_at expects 2 arguments (string, index)"@, params: seq![BuiltinParamSpec { rule: BuiltinArgRule::Str, type_error: "char_at expects str" }, BuiltinParamSpec { rule: BuiltinArgRule::Integer, type_error: "char_at expects i64 index" }], return_type: BuiltinReturnType::Runtime(RuntimeBuiltinType::Str) })
    } else     if name == "substring"@ {
        Some(TypecheckBuiltinView { name: "substring"@, arity_error: "substring expects 3 arguments (string, start, end)"@, params: seq![BuiltinParamSpec { rule: BuiltinArgRule::Str, type_error: "substring expects str" }, BuiltinParamSpec { rule: BuiltinArgRule::Any, type_error: "" }, BuiltinParamSpec { rule: BuiltinArgRule::Any, type_error: "" }], return_type: BuiltinReturnType::Runtime(RuntimeBuiltinType::Str) })
    } else     if name == "contains"@ {
        Some(TypecheckBuiltinView { name: "contains"@, arity_error: "contains expects 2 arguments (string, substring)"@, params: seq![BuiltinParamSpec { rule: BuiltinArgRule::Str, type_error: "contains expects str" }, BuiltinParamSpec { rule: BuiltinArgRule::Str, type_error: "contains expects str substring" }], return_type: BuiltinReturnType::Runtime(RuntimeBuiltinType::Bool) })
    } else     if name == "starts_with"@ {
        Some(TypecheckBuiltinView { name: "starts_with"@, arity_error: "starts_with expects 2 arguments (string, prefix)"@, params: seq![BuiltinParamSpec { rule: BuiltinArgRule::Str, type_error: "starts_with expects str" }, BuiltinParamSpec { rule: BuiltinArgRule::Str, type_error: "starts_with expects str prefix" }], return_type: BuiltinReturnType::Runtime(RuntimeBuiltinType::Bool) })
    } else     if name == "ends_with"@ {
        Some(TypecheckBuiltinView { name: "ends_with"@, arity_error: "ends_with expects 2 arguments (string, suffix)"@, params: seq![BuiltinParamSpec { rule: BuiltinArgRule::Str, type_error: "ends_with expects str" }, BuiltinParamSpec { rule: BuiltinArgRule::Str, type_error: "ends_with expects str suffix" }], return_type: BuiltinReturnType::Runtime(RuntimeBuiltinType::Bool) })
    } else     if name == "trim"@ {
        Some(TypecheckBuiltinView { name: "trim"@, arity_error: "trim expects 1 argument (string)"@, params: seq![BuiltinParamSpec { rule: BuiltinArgRule::Str, type_error: "trim expects str" }], return_type: BuiltinReturnType::Runtime(RuntimeBuiltinType::Str) })
    } else     if name == "parse_int"@ {
        Some(TypecheckBuiltinView { name: "parse_int"@, arity_error: "parse_int expects 1 argument (string)"@, params: seq![BuiltinParamSpec { rule: BuiltinArgRule::Str, type_error: "parse_int expects str" }], return_type: BuiltinReturnType::Runtime(RuntimeBuiltinType::I64) })
    } else     if name == "int_to_string"@ {
        Some(TypecheckBuiltinView { name: "int_to_string"@, arity_error: "int_to_string expects 1 argument (integer)"@, params: seq![BuiltinParamSpec { rule: BuiltinArgRule::Integer, type_error: "int_to_string expects i64 or i32" }], return_type: BuiltinReturnType::Runtime(RuntimeBuiltinType::Str) })
    } else     if name == "char_code"@ {
        Some(TypecheckBuiltinView { name: "char_code"@, arity_error: "char_code expects 1 argument (string)"@, params: seq![BuiltinParamSpec { rule: BuiltinArgRule::Str, type_error: "char_code expects str" }], return_type: BuiltinReturnType::Runtime(RuntimeBuiltinType::I64) })
    } else     if name == "char_code_at"@ {
        Some(TypecheckBuiltinView { name: "char_code_at"@, arity_error: "char_code_at expects 2 arguments (string, index)"@, params: seq![BuiltinParamSpec { rule: BuiltinArgRule::Str, type_error: "char_code_at expects str" }, BuiltinParamSpec { rule: BuiltinArgRule::Integer, type_error: "char_code_at expects i64 index" }], return_type: BuiltinReturnType::Runtime(RuntimeBuiltinType::I64) })
    } else     if name == "from_char_code"@ {
        Some(TypecheckBuiltinView { name: "from_char_code"@, arity_error: "from_char_code expects 1 argument (integer)"@, params: seq![BuiltinParamSpec { rule: BuiltinArgRule::Integer, type_error: "from_char_code expects i64 or i32" }], return_type: BuiltinReturnType::Runtime(RuntimeBuiltinType::Str) })
    } else     if name == "vec_new"@ {
        Some(TypecheckBuiltinView { name: "vec_new"@, arity_error: "vec_new expects 0 arguments"@, params: seq![], return_type: BuiltinReturnType::Runtime(RuntimeBuiltinType::I64) })
    } else     if name == "vec_push"@ {
        Some(TypecheckBuiltinView { name: "vec_push"@, arity_error: "vec_push expects 2 arguments (vec, value)"@, params: seq![BuiltinParamSpec { rule: BuiltinArgRule::Any, type_error: "" }, BuiltinParamSpec { rule: BuiltinArgRule::Any, type_error: "" }], return_type: BuiltinReturnType::Runtime(RuntimeBuiltinType::I64) })
    } else     if name == "vec_pop"@ {
        Some(TypecheckBuiltinView { name: "vec_pop"@, arity_error: "vec_pop expects 1 argument (vec)"@, params: seq![BuiltinParamSpec { rule: BuiltinArgRule::Any, type_error: "" }], return_type: BuiltinReturnType::Runtime(RuntimeBuiltinType::I64) })
    } else     if name == "vec_len"@ {
        Some(TypecheckBuiltinView { name: "vec_len"@, arity_error: "vec_len expects 1 argument (vec)"@, params: seq![BuiltinParamSpec { rule: BuiltinArgRule::Any, type_error: "" }], return_type: BuiltinReturnType::Runtime(RuntimeBuiltinType::I64) })
    } else     if name == "vec_capacity"@ {
        Some(TypecheckBuiltinView { name: "vec_capacity"@, arity_error: "vec_capacity expects 1 argument (vec)"@, params: seq![BuiltinParamSpec { rule: BuiltinArgRule::Any, type_error: "" }], return_type: BuiltinReturnType::Runtime(RuntimeBuiltinType::I64) })
    } else     if name == "vec_get"@ {
        Some(TypecheckBuiltinView { name: "vec_get"@, arity_error: "vec_get expects 2 arguments (vec, index)"@, params: seq![BuiltinParamSpec { rule: BuiltinArgRule::Any, type_error: "" }, BuiltinParamSpec { rule: BuiltinArgRule::Any, type_error: "" }], return_type: BuiltinReturnType::Runtime(RuntimeBuiltinType::I64) })
    } else     if name == "vec_set"@ {
        Some(TypecheckBuiltinView { name: "vec_set"@, arity_error: "vec_set expects 3 arguments (vec, index, value)"@, params: seq![BuiltinParamSpec { rule: BuiltinArgRule::Any, type_error: "" }, BuiltinParamSpec { rule: BuiltinArgRule::Any, type_error: "" }, BuiltinParamSpec { rule: BuiltinArgRule::Any, type_error: "" }], return_type: BuiltinReturnType::Runtime(RuntimeBuiltinType::Bool) })
    } else     if name == "vec_clear"@ {
        Some(TypecheckBuiltinView { name: "vec_clear"@, arity_error: "vec_clear expects 1 argument (vec)"@, params: seq![BuiltinParamSpec { rule: BuiltinArgRule::Any, type_error: "" }], return_type: BuiltinReturnType::Runtime(RuntimeBuiltinType::I32) })
    } else     if name == "result_ok"@ {
        Some(TypecheckBuiltinView { name: "result_ok"@, arity_error: "result_ok expects 1 argument (value)"@, params: seq![BuiltinParamSpec { rule: BuiltinArgRule::Any, type_error: "" }], return_type: BuiltinReturnType::ResultI64I64 })
    } else     if name == "result_err"@ {
        Some(TypecheckBuiltinView { name: "result_err"@, arity_error: "result_err expects 1 argument (error)"@, params: seq![BuiltinParamSpec { rule: BuiltinArgRule::Any, type_error: "" }], return_type: BuiltinReturnType::ResultI64I64 })
    } else     if name == "result_is_ok"@ {
        Some(TypecheckBuiltinView { name: "result_is_ok"@, arity_error: "result_is_ok expects 1 argument (result)"@, params: seq![BuiltinParamSpec { rule: BuiltinArgRule::Any, type_error: "" }], return_type: BuiltinReturnType::Runtime(RuntimeBuiltinType::Bool) })
    } else     if name == "result_is_err"@ {
        Some(TypecheckBuiltinView { name: "result_is_err"@, arity_error: "result_is_err expects 1 argument (result)"@, params: seq![BuiltinParamSpec { rule: BuiltinArgRule::Any, type_error: "" }], return_type: BuiltinReturnType::Runtime(RuntimeBuiltinType::Bool) })
    } else     if name == "result_unwrap"@ {
        Some(TypecheckBuiltinView { name: "result_unwrap"@, arity_error: "result_unwrap expects 1 argument (result)"@, params: seq![BuiltinParamSpec { rule: BuiltinArgRule::Any, type_error: "" }], return_type: BuiltinReturnType::Runtime(RuntimeBuiltinType::I64) })
    } else     if name == "result_unwrap_err"@ {
        Some(TypecheckBuiltinView { name: "result_unwrap_err"@, arity_error: "result_unwrap_err expects 1 argument (result)"@, params: seq![BuiltinParamSpec { rule: BuiltinArgRule::Any, type_error: "" }], return_type: BuiltinReturnType::Runtime(RuntimeBuiltinType::I64) })
    } else     if name == "result_tag"@ {
        Some(TypecheckBuiltinView { name: "result_tag"@, arity_error: "result_tag expects 1 argument (result)"@, params: seq![BuiltinParamSpec { rule: BuiltinArgRule::Any, type_error: "" }], return_type: BuiltinReturnType::Runtime(RuntimeBuiltinType::I64) })
    } else     if name == "result_value"@ {
        Some(TypecheckBuiltinView { name: "result_value"@, arity_error: "result_value expects 1 argument (result)"@, params: seq![BuiltinParamSpec { rule: BuiltinArgRule::Any, type_error: "" }], return_type: BuiltinReturnType::Runtime(RuntimeBuiltinType::I64) })
    } else     if name == "hashmap_new"@ {
        Some(TypecheckBuiltinView { name: "hashmap_new"@, arity_error: "hashmap_new expects 0 arguments"@, params: seq![], return_type: BuiltinReturnType::Runtime(RuntimeBuiltinType::I64) })
    } else     if name == "hashmap_insert"@ {
        Some(TypecheckBuiltinView { name: "hashmap_insert"@, arity_error: "hashmap_insert expects 3 arguments (map, key, value)"@, params: seq![BuiltinParamSpec { rule: BuiltinArgRule::Any, type_error: "" }, BuiltinParamSpec { rule: BuiltinArgRule::Any, type_error: "" }, BuiltinParamSpec { rule: BuiltinArgRule::Any, type_error: "" }], return_type: BuiltinReturnType::Runtime(RuntimeBuiltinType::Bool) })
    } else     if name == "hashmap_get"@ {
        Some(TypecheckBuiltinView { name: "hashmap_get"@, arity_error: "hashmap_get expects 2 arguments (map, key)"@, params: seq![BuiltinParamSpec { rule: BuiltinArgRule::Any, type_error: "" }, BuiltinParamSpec { rule: BuiltinArgRule::Any, type_error: "" }], return_type: BuiltinReturnType::Runtime(RuntimeBuiltinType::I64) })
    } else     if name == "hashmap_contains"@ {
        Some(TypecheckBuiltinView { name: "hashmap_contains"@, arity_error: "hashmap_contains expects 2 arguments (map, key)"@, params: seq![BuiltinParamSpec { rule: BuiltinArgRule::Any, type_error: "" }, BuiltinParamSpec { rule: BuiltinArgRule::Any, type_error: "" }], return_type: BuiltinReturnType::Runtime(RuntimeBuiltinType::Bool) })
    } else     if name == "hashmap_remove"@ {
        Some(TypecheckBuiltinView { name: "hashmap_remove"@, arity_error: "hashmap_remove expects 2 arguments (map, key)"@, params: seq![BuiltinParamSpec { rule: BuiltinArgRule::Any, type_error: "" }, BuiltinParamSpec { rule: BuiltinArgRule::Any, type_error: "" }], return_type: BuiltinReturnType::Runtime(RuntimeBuiltinType::Bool) })
    } else     if name == "hashmap_len"@ {
        Some(TypecheckBuiltinView { name: "hashmap_len"@, arity_error: "hashmap_len expects 1 argument (map)"@, params: seq![BuiltinParamSpec { rule: BuiltinArgRule::Any, type_error: "" }], return_type: BuiltinReturnType::Runtime(RuntimeBuiltinType::I64) })
    } else     if name == "hashmap_clear"@ {
        Some(TypecheckBuiltinView { name: "hashmap_clear"@, arity_error: "hashmap_clear expects 1 argument (map)"@, params: seq![BuiltinParamSpec { rule: BuiltinArgRule::Any, type_error: "" }], return_type: BuiltinReturnType::Runtime(RuntimeBuiltinType::I32) })
    } else     if name == "hashmap_keys"@ {
        Some(TypecheckBuiltinView { name: "hashmap_keys"@, arity_error: "hashmap_keys expects 1 argument (map)"@, params: seq![BuiltinParamSpec { rule: BuiltinArgRule::Any, type_error: "" }], return_type: BuiltinReturnType::Runtime(RuntimeBuiltinType::I64) })
    } else {
        None
    }
}

/// The entry of the runtime's builtin table for `name`.
pub open spec fn runtime_builtin(name: Seq<char>) -> Option<RuntimeBuiltinView> {
    if name == "read_file"@ {
        Some(RuntimeBuiltinView { name: "read_file"@, params: seq![RuntimeBuiltinType::Str], return_type: Some(RuntimeBuiltinType::Str) })
    } else     if name == "write_file"@ {
        Some(RuntimeBuiltinView { name: "write_file"@, params: seq![RuntimeBuiltinType::Str, RuntimeBuiltinType::Str], return_type: Some(RuntimeBuiltinType::Bool) })
    } else     if name == "file_exists"@ {
        Some(RuntimeBuiltinView { name: "file_exists"@, params: seq![RuntimeBuiltinType::Str], return_type: Some(RuntimeBuiltinType::Bool) })
    } else     if name == "char_at"@ {
        Some(RuntimeBuiltinView { name: "char_at"@, params: seq![RuntimeBuiltinType::Str, RuntimeBuiltinType::I64], return_type: Some(RuntimeBuiltinType::Str) })
    } else     if name == "substring"@ {
        Some(RuntimeBuiltinView { name: "substring"@, params: seq![RuntimeBuiltinType::Str, RuntimeBuiltinType::I64, RuntimeBuiltinType::I64], return_type: Some(RuntimeBuiltinType::Str) })
    } else     if name == "contains"@ {
        Some(RuntimeBuiltinView { name: "contains"@, params: seq![RuntimeBuiltinType::Str, RuntimeBuiltinType::Str], return_type: Some(RuntimeBuiltinType::Bool) })
    } else     if name == "starts_with"@ {
        Some(RuntimeBuiltinView { name: "starts_with"@, params: seq![RuntimeBuiltinType::Str, RuntimeBuiltinType::Str], return_type: Some(RuntimeBuiltinType::Bool) })
    } else     if name == "ends_with"@ {
        Some(RuntimeBuiltinView { name: "ends_with"@, params: seq![RuntimeBuiltinType::Str, RuntimeBuiltinType::Str], return_type: Some(RuntimeBuiltinType::Bool) })
    } else     if name == "trim"@ {
        Some(RuntimeBuiltinView { name: "trim"@, params: seq![RuntimeBuiltinType::Str], return_type: Some(RuntimeBuiltinType::Str) })
    } else     if name == "parse_int"@ {
        Some(RuntimeBuiltinView { name: "parse_int"@, params: seq![RuntimeBuiltinType::Str], return_type: Some(RuntimeBuiltinType::I64) })
    } else     if name == "int_to_string"@ {
        Some(RuntimeBuiltinView { name: "int_to_string"@, params: seq![RuntimeBuiltinType::I64], return_type: Some(RuntimeBuiltinType::Str) })
    } else     if name == "char_code"@ {
        Some(RuntimeBuiltinView { name: "char_code"@, params: seq![RuntimeBuiltinType::Str], return_type: Some(RuntimeBuiltinType::I64) })
    } else     if name == "char_code_at"@ {
        Some(RuntimeBuiltinView { name: "char_code_at"@, params: seq![RuntimeBuiltinType::Str, RuntimeBuiltinType::I64], return_type: Some(RuntimeBuiltinType::I64) })
    } else     if name == "from_char_code"@ {
        Some(RuntimeBuiltinView { name: "from_char_code"@, params: seq![RuntimeBuiltinType::I64], return_type: Some(RuntimeBuiltinType::Str) })
    } else     if name == "str_eq"@ {
        Some(RuntimeBuiltinView { name: "str_eq"@, params: seq![RuntimeBuiltinType::Str, RuntimeBuiltinType::Str], return_type: Some(RuntimeBuiltinType::Bool) })
    } else     if name == "vec_new"@ {
        Some(RuntimeBuiltinView { name: "vec_new"@, params: seq![], return_type: Some(RuntimeBuiltinType::I64) })
    } else     if name == "vec_push"@ {
        Some(RuntimeBuiltinView { name: "vec_push"@, params: seq![RuntimeBuiltinType::I64, RuntimeBuiltinType::I64], return_type: Some(RuntimeBuiltinType::I64) })
    } else     if name == "vec_pop"@ {
        Some(RuntimeBuiltinView { name: "vec_pop"@, params: seq![RuntimeBuiltinType::I64], return_type: Some(RuntimeBuiltinType::I64) })
    } else     if name == "vec_len"@ {
        Some(RuntimeBuiltinView { name: "vec_len"@, params: seq![RuntimeBuiltinType::I64], return_type: Some(RuntimeBuiltinType::I64) })
    } else     if name == "vec_capacity"@ {
        Some(RuntimeBuiltinView { name: "vec_capacity"@, params: seq![RuntimeBuiltinType::I64], return_type: Some(RuntimeBuiltinType::I64) })
    } else     if name == "vec_get"@ {
        Some(RuntimeBuiltinView { name: "vec_get"@, params: seq![RuntimeBuiltinType::I64, RuntimeBuiltinType::I64], return_type: Some(RuntimeBuiltinType::I64) })
    } else     if name == "vec_set"@ {
        Some(RuntimeBuiltinView { name: "vec_set"@, params: seq![RuntimeBuiltinType::I64, RuntimeBuiltinType::I64, RuntimeBuiltinType::I64], return_type: Some(RuntimeBuiltinType::Bool) })
    } else     if name == "vec_clear"@ {
        Some(RuntimeBuiltinView { name: "vec_clear"@, params: seq![RuntimeBuiltinType::I64], return_type: None })
    } else     if name == "result_ok"@ {
        Some(RuntimeBuiltinView { name: "result_ok"@, params: seq![RuntimeBuiltinType::I64], return_type: Some(RuntimeBuiltinType::I64) })
    } else     if name == "result_err"@ {
        Some(RuntimeBuiltinView { name: "result_err"@, params: seq![RuntimeBuiltinType::I64], return_type: Some(RuntimeBuiltinType::I64) })
    } else     if name == "result_is_ok"@ {
        Some(RuntimeBuiltinView { name: "result_is_ok"@, params: seq![RuntimeBuiltinType::I64], return_type: Some(RuntimeBuiltinType::Bool) })
    } else     if name == "result_is_err"@ {
        Some(RuntimeBuiltinView { name: "result_is_err"@, params: seq![RuntimeBuiltinType::I64], return_type: Some(RuntimeBuiltinType::Bool) })
    } else     if name == "result_unwrap"@ {
        Some(RuntimeBuiltinView { name: "result_unwrap"@, params: seq![RuntimeBuiltinType::I64], return_type: Some(RuntimeBuiltinType::I64) })
    } else     if name == "result_unwrap_err"@ {
        Some(RuntimeBuiltinView { name: "result_unwrap_err"@, params: seq![RuntimeBuiltinType::I64], return_type: Some(RuntimeBuiltinType::I64) })
    } else     if name == "result_tag"@ {
        Some(RuntimeBuiltinView { name: "result_tag"@, params: seq![RuntimeBuiltinType::I64], return_type: Some(RuntimeBuiltinType::I64) })
    } else     if name == "result_value"@ {
        Some(RuntimeBuiltinView { name: "result_value"@, params: seq![RuntimeBuiltinType::I64], return_type: Some(RuntimeBuiltinType::I64) })
    } else     if name == "hashmap_new"@ {
        Some(RuntimeBuiltinView { name: "hashmap_new"@, params: seq![], return_type: Some(RuntimeBuiltinType::I64) })
    } else     if name == "hashmap_insert"@ {
        Some(RuntimeBuiltinView { name: "hashmap_insert"@, params: seq![RuntimeBuiltinType::I64, RuntimeBuiltinType::I64, RuntimeBuiltinType::I64], return_type: Some(RuntimeBuiltinType::Bool) })
    } else     if name == "hashmap_get"@ {
        Some(RuntimeBuiltinView { name: "hashmap_get"@, params: seq![RuntimeBuiltinType::I64, RuntimeBuiltinType::I64], return_type: Some(RuntimeBuiltinType::I64) })
    } else     if name == "hashmap_contains"@ {
        Some(RuntimeBuiltinView { name: "hashmap_contains"@, params: seq![RuntimeBuiltinType::I64, RuntimeBuiltinType::I64], return_type: Some(RuntimeBuiltinType::Bool) })
    } else     if name == "hashmap_remove"@ {
        Some(RuntimeBuiltinView { name: "hashmap_remove"@, params: seq![RuntimeBuiltinType::I64, RuntimeBuiltinType::I64], return_type: Some(RuntimeBuiltinType::Bool) })
    } else     if name == "hashmap_len"@ {
        Some(RuntimeBuiltinView { name: "hashmap_len"@, params: seq![RuntimeBuiltinType::I64], return_type: Some(RuntimeBuiltinType::I64) })
    } else     if name == "hashmap_clear"@ {
        Some(RuntimeBuiltinView { name: "hashmap_clear"@, params: seq![RuntimeBuiltinType::I64], return_type: None })
    } else     if name == "hashmap_keys"@ {
        Some(RuntimeBuiltinView { name: "hashmap_keys"@, params: seq![RuntimeBuiltinType::I64], return_type: Some(RuntimeBuiltinType::I64) })
    } else {
        None
    }
}

/// Looks a builtin up in the type checker's table.
#[verifier::rlimit(100)]
pub fn lookup_typecheck_builtin(name: &str) -> (r: Option<TypecheckBuiltinSpec>)
    ensures
        match r {
            Some(s) => typecheck_builtin(name@) == Some(s@),
            None => typecheck_builtin(name@) is None,
        },
{
    if str_eq(name, "strlen") {
        return Some(TypecheckBuiltinSpec { name: "strlen", arity_error: "strlen expects 1 argument", params: &[BuiltinParamSpec { rule: BuiltinArgRule::Str, type_error: "strlen expects str" }], return_type: BuiltinReturnType::Runtime(RuntimeBuiltinType::I32) });
    }
    if str_eq(name, "len") {
        return Some(TypecheckBuiltinSpec { name: "len", arity_error: "len expects 1 argument", params: &[BuiltinParamSpec { rule: BuiltinArgRule::StrOrArray, type_error: "len expects array or str" }], return_type: BuiltinReturnType::Runtime(RuntimeBuiltinType::I32) });
    }
    if str_eq(name, "read_file") {
        return Some(TypecheckBuiltinSpec { name: "read_file", arity_error: "read_file expects 1 argument", params: &[BuiltinParamSpec { rule: BuiltinArgRule::Str, type_error: "read_file expects str path" }], return_type: BuiltinReturnType::Runtime(RuntimeBuiltinType::Str) });
    }
    if str_eq(name, "write_file") {
        return Some(TypecheckBuiltinSpec { name: "write_file", arity_error: "write_file expects 2 arguments", params: &[BuiltinParamSpec { rule: BuiltinArgRule::Str, type_error: "write_file path must be str" }, BuiltinParamSpec { rule: BuiltinArgRule::Str, type_error: "write_file content must be str" }], return_type: BuiltinReturnType::Runtime(RuntimeBuiltinType::Bool) });
    }
    if str_eq(name, "file_exists") {
        return Some(TypecheckBuiltinSpec { name: "file_exists", arity_error: "file_exists expects 1 argument", params: &[BuiltinParamSpec { rule: BuiltinArgRule::Str, type_error: "file_exists expects str path" }], return_type: BuiltinReturnType::Runtime(RuntimeBuiltinType::Bool) });
    }
    if str_eq(name, "char_at") {
        return Some(TypecheckBuiltinSpec { name: "char_at", arity_error: "char_at expects 2 arguments (string, index)", params: &[BuiltinParamSpec { rule: BuiltinArgRule::Str, type_error: "char_at expects str" }, BuiltinParamSpec { rule: BuiltinArgRule::Integer, type_error: "char_at expects i64 index" }], return_type: BuiltinReturnType::Runtime(RuntimeBuiltinType::Str) });
    }
    if str_eq(name, "substring") {
        return Some(TypecheckBuiltinSpec { name: "substring", arity_error: "substring expects 3 arguments (string, start, end)", params: &[BuiltinParamSpec { rule: BuiltinArgRule::Str, type_error: "substring expects str" }, BuiltinParamSpec { rule: BuiltinArgRule::Any, type_error: "" }, BuiltinParamSpec { rule: BuiltinArgRule::Any, type_error: "" }], return_type: BuiltinReturnType::Runtime(RuntimeBuiltinType::Str) });
    }
    if str_eq(name, "contains") {
        return Some(TypecheckBuiltinSpec { name: "contains", arity_error: "contains expects 2 arguments (string, substring)", params: &[BuiltinParamSpec { rule: BuiltinArgRule::Str, type_error: "contains expects str" }, BuiltinParamSpec { rule: BuiltinArgRule::Str, type_error: "contains expects str substring" }], return_type: BuiltinReturnType::Runtime(RuntimeBuiltinType::Bool) });
    }
    if str_eq(name, "starts_with") {
        return Some(TypecheckBuiltinSpec { name: "starts_with", arity_error: "starts_with expects 2 arguments (string, prefix)", params: &[BuiltinParamSpec { rule: BuiltinArgRule::Str, type_error: "starts_with expects str" }, BuiltinParamSpec { rule: BuiltinArgRule::Str, type_error: "starts_with expects str prefix" }], return_type: BuiltinReturnType::Runtime(RuntimeBuiltinType::Bool) });
    }
    if str_eq(name, "ends_with") {
        return Some(TypecheckBuiltinSpec { name: "ends_with", arity_error: "ends_with expects 2 arguments (string, suffix)", params: &[BuiltinParamSpec { rule: BuiltinArgRule::Str, type_error: "ends_with expects str" }, BuiltinParamSpec { rule: BuiltinArgRule::Str, type_error: "ends_with expects str suffix" }], return_type: BuiltinReturnType::Runtime(RuntimeBuiltinType::Bool) });
    }
    if str_eq(name, "trim") {
        return Some(TypecheckBuiltinSpec { name: "trim", arity_error: "trim expects 1 argument (string)", params: &[BuiltinParamSpec { rule: BuiltinArgRule::Str, type_error: "trim expects str" }], return_type: BuiltinReturnType::Runtime(RuntimeBuiltinType::Str) });
    }
    if str_eq(name, "parse_int") {
        return Some(TypecheckBuiltinSpec { name: "parse_int", arity_error: "parse_int expects 1 argument (string)", params: &[BuiltinParamSpec { rule: BuiltinArgRule::Str, type_error: "parse_int expects str" }], return_type: BuiltinReturnType::Runtime(RuntimeBuiltinType::I64) });
    }
    if str_eq(name, "int_to_string") {
        return Some(TypecheckBuiltinSpec { name: "int_to_string", arity_error: "int_to_string expects 1 argument (integer)", params: &[BuiltinParamSpec { rule: BuiltinArgRule::Integer, type_error: "int_to_string expects i64 or i32" }], return_type: BuiltinReturnType::Runtime(RuntimeBuiltinType::Str) });
    }
    if str_eq(name, "char_code") {
        return Some(TypecheckBuiltinSpec { name: "char_code", arity_error: "char_code expects 1 argument (string)", params: &[BuiltinParamSpec { rule: BuiltinArgRule::Str, type_error: "char_code expects str" }], return_type: BuiltinReturnType::Runtime(RuntimeBuiltinType::I64) });
    }
    if str_eq(name, "char_code_at") {
        return Some(TypecheckBuiltinSpec { name: "char_code_at", arity_error: "char_code_at expects 2 arguments (string, index)", params: &[BuiltinParamSpec { rule: BuiltinArgRule::Str, type_error: "char_code_at expects str" }, BuiltinParamSpec { rule: BuiltinArgRule::Integer, type_error: "char_code_at expects i64 index" }], return_type: BuiltinReturnType::Runtime(RuntimeBuiltinType::I64) });
    }
    if str_eq(name, "from_char_code") {
        return Some(TypecheckBuiltinSpec { name: "from_char_code", arity_error: "from_char_code expects 1 argument (integer)", params: &[BuiltinParamSpec { rule: BuiltinArgRule::Integer, type_error: "from_char_code expects i64 or i32" }], return_type: BuiltinReturnType::Runtime(RuntimeBuiltinType::Str) });
    }
    if str_eq(name, "vec_new") {
        return Some(TypecheckBuiltinSpec { name: "vec_new", arity_error: "vec_new expects 0 arguments", params: &[], return_type: BuiltinReturnType::Runtime(RuntimeBuiltinType::I64) });
    }
    if str_eq(name, "vec_push") {
        return Some(TypecheckBuiltinSpec { name: "vec_push", arity_error: "vec_push expects 2 arguments (vec, value)", params: &[BuiltinParamSpec { rule: BuiltinArgRule::Any, type_error: "" }, BuiltinParamSpec { rule: BuiltinArgRule::Any, type_error: "" }], return_type: BuiltinReturnType::Runtime(RuntimeBuiltinType::I64) });
    }
    if str_eq(name, "vec_pop") {
        return Some(TypecheckBuiltinSpec { name: "vec_pop", arity_error: "vec_pop expects 1 argument (vec)", params: &[BuiltinParamSpec { rule: BuiltinArgRule::Any, type_error: "" }], return_type: BuiltinReturnType::Runtime(RuntimeBuiltinType::I64) });
    }
    if str_eq(name, "vec_len") {
        return Some(TypecheckBuiltinSpec { name: "vec_len", arity_error: "vec_len expects 1 argument (vec)", params: &[BuiltinParamSpec { rule: BuiltinArgRule::Any, type_error: "" }], return_type: BuiltinReturnType::Runtime(RuntimeBuiltinType::I64) });
    }
    if str_eq(name, "vec_capacity") {
        return Some(TypecheckBuiltinSpec { name: "vec_capacity", arity_error: "vec_capacity expects 1 argument (vec)", params: &[BuiltinParamSpec { rule: BuiltinArgRule::Any, type_error: "" }], return_type: BuiltinReturnType::Runtime(RuntimeBuiltinType::I64) });
    }
    if str_eq(name, "vec_get") {
        return Some(TypecheckBuiltinSpec { name: "vec_get", arity_error: "vec_get expects 2 arguments (vec, index)", params: &[BuiltinParamSpec { rule: BuiltinArgRule::Any, type_error: "" }, BuiltinParamSpec { rule: BuiltinArgRule::Any, type_error: "" }], return_type: BuiltinReturnType::Runtime(RuntimeBuiltinType::I64) });
    }
    if str_eq(name, "vec_set") {
        return Some(TypecheckBuiltinSpec { name: "vec_set", arity_error: "vec_set expects 3 arguments (vec, index, value)", params: &[BuiltinParamSpec { rule: BuiltinArgRule::Any, type_error: "" }, BuiltinParamSpec { rule: BuiltinArgRule::Any, type_error: "" }, BuiltinParamSpec { rule: BuiltinArgRule::Any, type_error: "" }], return_type: BuiltinReturnType::Runtime(RuntimeBuiltinType::Bool) });
    }
    if str_eq(name, "vec_clear") {
        return Some(TypecheckBuiltinSpec { name: "vec_clear", arity_error: "vec_clear expects 1 argument (vec)", params: &[BuiltinParamSpec { rule: BuiltinArgRule::Any, type_error: "" }], return_type: BuiltinReturnType::Runtime(RuntimeBuiltinType::I32) });
    }
    if str_eq(name, "result_ok") {
        return Some(TypecheckBuiltinSpec { name: "result_ok", arity_error: "result_ok expects 1 argument (value)", params: &[BuiltinParamSpec { rule: BuiltinArgRule::Any, type_error: "" }], return_type: BuiltinReturnType::ResultI64I64 });
    }
    if str_eq(name, "result_err") {
        return Some(TypecheckBuiltinSpec { name: "result_err", arity_error: "result_err expects 1 argument (error)", params: &[BuiltinParamSpec { rule: BuiltinArgRule::Any, type_error: "" }], return_type: BuiltinReturnType::ResultI64I64 });
    }
    if str_eq(name, "result_is_ok") {
        return Some(TypecheckBuiltinSpec { name: "result_is_ok", arity_error: "result_is_ok expects 1 argument (result)", params: &[BuiltinParamSpec { rule: BuiltinArgRule::Any, type_error: "" }], return_type: BuiltinReturnType::Runtime(RuntimeBuiltinType::Bool) });
    }
    if str_eq(name, "result_is_err") {
        return Some(TypecheckBuiltinSpec { name: "result_is_err", arity_error: "result_is_err expects 1 argument (result)", params: &[BuiltinParamSpec { rule: BuiltinArgRule::Any, type_error: "" }], return_type: BuiltinReturnType::Runtime(RuntimeBuiltinType::Bool) });
    }
    if str_eq(name, "result_unwrap") {
        return Some(TypecheckBuiltinSpec { name: "result_unwrap", arity_error: "result_unwrap expects 1 argument (result)", params: &[BuiltinParamSpec { rule: BuiltinArgRule::Any, type_error: "" }], return_type: BuiltinReturnType::Runtime(RuntimeBuiltinType::I64) });
    }
    if str_eq(name, "result_unwrap_err") {
        return Some(TypecheckBuiltinSpec { name: "result_unwrap_err", arity_error: "result_unwrap_err expects 1 argument (result)", params: &[BuiltinParamSpec { rule: BuiltinArgRule::Any, type_error: "" }], return_type: BuiltinReturnType::Runtime(RuntimeBuiltinType::I64) });
    }
    if str_eq(name, "result_tag") {
        return Some(TypecheckBuiltinSpec { name: "result_tag", arity_error: "result_tag expects 1 argument (result)", params: &[BuiltinParamSpec { rule: BuiltinArgRule::Any, type_error: "" }], return_type: BuiltinReturnType::Runtime(RuntimeBuiltinType::I64) });
    }
    if str_eq(name, "result_value") {
        return Some(TypecheckBuiltinSpec { name: "result_value", arity_error: "result_value expects 1 argument (result)", params: &[BuiltinParamSpec { rule: BuiltinArgRule::Any, type_error: "" }], return_type: BuiltinReturnType::Runtime(RuntimeBuiltinType::I64) });
    }
    if str_eq(name, "hashmap_new") {
        return Some(TypecheckBuiltinSpec { name: "hashmap_new", arity_error: "hashmap_new expects 0 arguments", params: &[], return_type: BuiltinReturnType::Runtime(RuntimeBuiltinType::I64) });
    }
    if str_eq(name, "hashmap_insert") {
        return Some(TypecheckBuiltinSpec { name: "hashmap_insert", arity_error: "hashmap_insert expects 3 arguments (map, key, value)", params: &[BuiltinParamSpec { rule: BuiltinArgRule::Any, type_error: "" }, BuiltinParamSpec { rule: BuiltinArgRule::Any, type_error: "" }, BuiltinParamSpec { rule: BuiltinArgRule::Any, type_error: "" }], return_type: BuiltinReturnType::Runtime(RuntimeBuiltinType::Bool) });
    }
    if str_eq(name, "hashmap_get") {
        return Some(TypecheckBuiltinSpec { name: "hashmap_get", arity_error: "hashmap_get expects 2 arguments (map, key)", params: &[BuiltinParamSpec { rule: BuiltinArgRule::Any, type_error: "" }, BuiltinParamSpec { rule: BuiltinArgRule::Any, type_error: "" }], return_type: BuiltinReturnType::Runtime(RuntimeBuiltinType::I64) });
    }
    if str_eq(name, "hashmap_contains") {
        return Some(TypecheckBuiltinSpec { name: "hashmap_contains", arity_error: "hashmap_contains expects 2 arguments (map, key)", params: &[BuiltinParamSpec { rule: BuiltinArgRule::Any, type_error: "" }, BuiltinParamSpec { rule: BuiltinArgRule::Any, type_error: "" }], return_type: BuiltinReturnType::Runtime(RuntimeBuiltinType::Bool) });
    }
    if str_eq(name, "hashmap_remove") {
        return Some(TypecheckBuiltinSpec { name: "hashmap_remove", arity_error: "hashmap_remove expects 2 arguments (map, key)", params: &[BuiltinParamSpec { rule: BuiltinArgRule::Any, type_error: "" }, BuiltinParamSpec { rule: BuiltinArgRule::Any, type_error: "" }], return_type: BuiltinReturnType::Runtime(RuntimeBuiltinType::Bool) });
    }
    if str_eq(name, "hashmap_len") {
        return Some(TypecheckBuiltinSpec { name: "hashmap_len", arity_error: "hashmap_len expects 1 argument (map)", params: &[BuiltinParamSpec { rule: BuiltinArgRule::Any, type_error: "" }], return_type: BuiltinReturnType::Runtime(RuntimeBuiltinType::I64) });
    }
    if str_eq(name, "hashmap_clear") {
        return Some(TypecheckBuiltinSpec { name: "hashmap_clear", arity_error: "hashmap_clear expects 1 argument (map)", params: &[BuiltinParamSpec { rule: BuiltinArgRule::Any, type_error: "" }], return_type: BuiltinReturnType::Runtime(RuntimeBuiltinType::I32) });
    }
    if str_eq(name, "hashmap_keys") {
        return Some(TypecheckBuiltinSpec { name: "hashmap_keys", arity_error: "hashmap_keys expects 1 argument (map)", params: &[BuiltinParamSpec { rule: BuiltinArgRule::Any, type_error: "" }], return_type: BuiltinReturnType::Runtime(RuntimeBuiltinType::I64) });
    }
    None
}

/// Looks a builtin up in the runtime's table.
#[verifier::rlimit(100)]
pub fn lookup_runtime_builtin(name: &str) -> (r: Option<RuntimeBuiltinSpec>)
    ensures
        match r {
            Some(s) => runtime_builtin(name@) == Some(s@),
            None => runtime_builtin(name@) is None,
        },
{
    if str_eq(name, "read_file") {
        return Some(RuntimeBuiltinSpec { name: "read_file", params: &[RuntimeBuiltinType::Str], return_type: Some(RuntimeBuiltinType::Str) });
    }
    if str_eq(name, "write_file") {
        return Some(RuntimeBuiltinSpec { name: "write_file", params: &[RuntimeBuiltinType::Str, RuntimeBuiltinType::Str], return_type: Some(RuntimeBuiltinType::Bool) });
    }
    if str_eq(name, "file_exists") {
        return Some(RuntimeBuiltinSpec { name: "file_exists", params: &[RuntimeBuiltinType::Str], return_type: Some(RuntimeBuiltinType::Bool) });
    }
    if str_eq(name, "char_at") {
        return Some(RuntimeBuiltinSpec { name: "char_at", params: &[RuntimeBuiltinType::Str, RuntimeBuiltinType::I64], return_type: Some(RuntimeBuiltinType::Str) });
    }
    if str_eq(name, "substring") {
        return Some(RuntimeBuiltinSpec { name: "substring", params: &[RuntimeBuiltinType::Str, RuntimeBuiltinType::I64, RuntimeBuiltinType::I64], return_type: Some(RuntimeBuiltinType::Str) });
    }
    if str_eq(name, "contains") {
        return Some(RuntimeBuiltinSpec { name: "contains", params: &[RuntimeBuiltinType::Str, RuntimeBuiltinType::Str], return_type: Some(RuntimeBuiltinType::Bool) });
    }
    if str_eq(name, "starts_with") {
        return Some(RuntimeBuiltinSpec { name: "starts_with", params: &[RuntimeBuiltinType::Str, RuntimeBuiltinType::Str], return_type: Some(RuntimeBuiltinType::Bool) });
    }
    if str_eq(name, "ends_with") {
        return Some(RuntimeBuiltinSpec { name: "ends_with", params: &[RuntimeBuiltinType::Str, RuntimeBuiltinType::Str], return_type: Some(RuntimeBuiltinType::Bool) });
    }
    if str_eq(name, "trim") {
        return Some(RuntimeBuiltinSpec { name: "trim", params: &[RuntimeBuiltinType::Str], return_type: Some(RuntimeBuiltinType::Str) });
    }
    if str_eq(name, "parse_int") {
        return Some(RuntimeBuiltinSpec { name: "parse_int", params: &[RuntimeBuiltinType::Str], return_type: Some(RuntimeBuiltinType::I64) });
    }
    if str_eq(name, "int_to_string") {
        return Some(RuntimeBuiltinSpec { name: "int_to_string", params: &[RuntimeBuiltinType::I64], return_type: Some(RuntimeBuiltinType::Str) });
    }
    if str_eq(name, "char_code") {
        return Some(RuntimeBuiltinSpec { name: "char_code", params: &[RuntimeBuiltinType::Str], return_type: Some(RuntimeBuiltinType::I64) });
    }
    if str_eq(name, "char_code_at") {
        return Some(RuntimeBuiltinSpec { name: "char_code_at", params: &[RuntimeBuiltinType::Str, RuntimeBuiltinType::I64], return_type: Some(RuntimeBuiltinType::I64) });
    }
    if str_eq(name, "from_char_code") {
        return Some(RuntimeBuiltinSpec { name: "from_char_code", params: &[RuntimeBuiltinType::I64], return_type: Some(RuntimeBuiltinType::Str) });
    }
    if str_eq(name, "str_eq") {
        return Some(RuntimeBuiltinSpec { name: "str_eq", params: &[RuntimeBuiltinType::Str, RuntimeBuiltinType::Str], return_type: Some(RuntimeBuiltinType::Bool) });
    }
    if str_eq(name, "vec_new") {
        return Some(RuntimeBuiltinSpec { name: "vec_new", params: &[], return_type: Some(RuntimeBuiltinType::I64) });
    }
    if str_eq(name, "vec_push") {
        return Some(RuntimeBuiltinSpec { name: "vec_push", params: &[RuntimeBuiltinType::I64, RuntimeBuiltinType::I64], return_type: Some(RuntimeBuiltinType::I64) });
    }
    if str_eq(name, "vec_pop") {
        return Some(RuntimeBuiltinSpec { name: "vec_pop", params: &[RuntimeBuiltinType::I64], return_type: Some(RuntimeBuiltinType::I64) });
    }
    if str_eq(name, "vec_len") {
        return Some(RuntimeBuiltinSpec { name: "vec_len", params: &[RuntimeBuiltinType::I64], return_type: Some(RuntimeBuiltinType::I64) });
    }
    if str_eq(name, "vec_capacity") {
        return Some(RuntimeBuiltinSpec { name: "vec_capacity", params: &[RuntimeBuiltinType::I64], return_type: Some(RuntimeBuiltinType::I64) });
    }
    if str_eq(name, "vec_get") {
        return Some(RuntimeBuiltinSpec { name: "vec_get", params: &[RuntimeBuiltinType::I64, RuntimeBuiltinType::I64], return_type: Some(RuntimeBuiltinType::I64) });
    }
    if str_eq(name, "vec_set") {
        return Some(RuntimeBuiltinSpec { name: "vec_set", params: &[RuntimeBuiltinType::I64, RuntimeBuiltinType::I64, RuntimeBuiltinType::I64], return_type: Some(RuntimeBuiltinType::Bool) });
    }
    if str_eq(name, "vec_clear") {
        return Some(RuntimeBuiltinSpec { name: "vec_clear", params: &[RuntimeBuiltinType::I64], return_type: None });
    }
    if str_eq(name, "result_ok") {
        return Some(RuntimeBuiltinSpec { name: "result_ok", params: &[RuntimeBuiltinType::I64], return_type: Some(RuntimeBuiltinType::I64) });
    }
    if str_eq(name, "result_err") {
        return Some(RuntimeBuiltinSpec { name: "result_err", params: &[RuntimeBuiltinType::I64], return_type: Some(RuntimeBuiltinType::I64) });
    }
    if str_eq(name, "result_is_ok") {
        return Some(RuntimeBuiltinSpec { name: "result_is_ok", params: &[RuntimeBuiltinType::I64], return_type: Some(RuntimeBuiltinType::Bool) });
    }
    if str_eq(name, "result_is_err") {
        return Some(RuntimeBuiltinSpec { name: "result_is_err", params: &[RuntimeBuiltinType::I64], return_type: Some(RuntimeBuiltinType::Bool) });
    }
    if str_eq(name, "result_unwrap") {
        return Some(RuntimeBuiltinSpec { name: "result_unwrap", params: &[RuntimeBuiltinType::I64], return_type: Some(RuntimeBuiltinType::I64) });
    }
    if str_eq(name, "result_unwrap_err") {
        return Some(RuntimeBuiltinSpec { name: "result_unwrap_err", params: &[RuntimeBuiltinType::I64], return_type: Some(RuntimeBuiltinType::I64) });
    }
    if str_eq(name, "result_tag") {
        return Some(RuntimeBuiltinSpec { name: "result_tag", params: &[RuntimeBuiltinType::I64], return_type: Some(RuntimeBuiltinType::I64) });
    }
    if str_eq(name, "result_value") {
        return Some(RuntimeBuiltinSpec { name: "result_value", params: &[RuntimeBuiltinType::I64], return_type: Some(RuntimeBuiltinType::I64) });
    }
    if str_eq(name, "hashmap_new") {
        return Some(RuntimeBuiltinSpec { name: "hashmap_new", params: &[], return_type: Some(RuntimeBuiltinType::I64) });
    }
    if str_eq(name, "hashmap_insert") {
        return Some(RuntimeBuiltinSpec { name: "hashmap_insert", params: &[RuntimeBuiltinType::I64, RuntimeBuiltinType::I64, RuntimeBuiltinType::I64], return_type: Some(RuntimeBuiltinType::Bool) });
    }
    if str_eq(name, "hashmap_get") {
        return Some(RuntimeBuiltinSpec { name: "hashmap_get", params: &[RuntimeBuiltinType::I64, RuntimeBuiltinType::I64], return_type: Some(RuntimeBuiltinType::I64) });
    }
    if str_eq(name, "hashmap_contains") {
        return Some(RuntimeBuiltinSpec { name: "hashmap_contains", params: &[RuntimeBuiltinType::I64, RuntimeBuiltinType::I64], return_type: Some(RuntimeBuiltinType::Bool) });
    }
    if str_eq(name, "hashmap_remove") {
        return Some(RuntimeBuiltinSpec { name: "hashmap_remove", params: &[RuntimeBuiltinType::I64, RuntimeBuiltinType::I64], return_type: Some(RuntimeBuiltinType::Bool) });
    }
    if str_eq(name, "hashmap_len") {
        return Some(RuntimeBuiltinSpec { name: "hashmap_len", params: &[RuntimeBuiltinType::I64], return_type: Some(RuntimeBuiltinType::I64) });
    }
    if str_eq(name, "hashmap_clear") {
        return Some(RuntimeBuiltinSpec { name: "hashmap_clear", params: &[RuntimeBuiltinType::I64], return_type: None });
    }
    if str_eq(name, "hashmap_keys") {
        return Some(RuntimeBuiltinSpec { name: "hashmap_keys", params: &[RuntimeBuiltinType::I64], return_type: Some(RuntimeBuiltinType::I64) });
    }
    None
}

/// The parameter and return types that the runtime gives a builtin.
pub open spec fn runtime_signature_spec(name: Seq<char>) -> Option<(Seq<Type>, Option<Type>)> {
    match runtime_builtin(name) {
        Some(e) => Some(
            (
                e.params.map_values(|t: RuntimeBuiltinType| runtime_type_to_ast(t)),
                match e.return_type {
                    Some(t) => Some(runtime_type_to_ast(t)),
                    None => None,
                },
            ),
        ),
        None => None,
    }
}

pub fn runtime_signature(name: &str) -> (r: Option<(Vec<Type>, Option<Type>)>)
    ensures
        match r {
            Some((params, ret)) => runtime_signature_spec(name@) == Some((params@, ret)),
            None => runtime_signature_spec(name@) is None,
        },
{
    match lookup_runtime_builtin(name) {
        Some(spec) => {
            let mut params: Vec<Type> = Vec::new();
            let n = spec.params.len();
            for i in 0..n
                invariant
                    n == spec.params@.len(),
                    params@ == spec.params@.subrange(0, i as int).map_values(
                        |t: RuntimeBuiltinType| runtime_type_to_ast(t),
                    ),
            {
                params.push(spec.params[i].to_ast_type());
                assert(spec.params@.subrange(0, i + 1) =~= spec.params@.subrange(
                    0,
                    i as int,
                ).push(spec.params@[i as int]));
                assert(params@ =~= spec.params@.subrange(0, i + 1).map_values(
                    |t: RuntimeBuiltinType| runtime_type_to_ast(t),
                ));
            }
            assert(spec.params@.subrange(0, n as int) =~= spec.params@);
            let ret = match spec.return_type {
                Some(t) => Some(t.to_ast_type()),
                None => None,
            };
            Some((params, ret))
        },
        None => None,
    }
}

/// The type a call of one of the builtins with generic results has, given
/// the argument types and the type the context expects; `None` for any
/// other name.
pub open spec fn special_builtin_call_type(
    name: Seq<char>,
    arg_types: Seq<Type>,
    expected: Option<Type>,
) -> Option<Type> {
    let first = if arg_types.len() > 0 {
        Some(arg_types[0])
    } else {
        None
    };
    if name == "vec_new"@ {
        Some(
            match expected {
                Some(Type::Vec(_)) => expected->0,
                _ => Type::I64,
            },
        )
    } else if name == "vec_get"@ || name == "vec_pop"@ {
        Some(
            match first {
                Some(Type::Vec(elem)) => *elem,
                _ => Type::I64,
            },
        )
    } else if name == "hashmap_new"@ {
        Some(
            match expected {
                Some(Type::HashMap(_, _)) => expected->0,
                _ => Type::I64,
            },
        )
    } else if name == "hashmap_get"@ {
        Some(
            match first {
                Some(Type::HashMap(_, value)) => *value,
                _ => Type::I64,
            },
        )
    } else if name == "hashmap_keys"@ {
        Some(
            match first {
                Some(Type::HashMap(key, _)) => Type::Vec(key),
                _ => Type::I64,
            },
        )
    } else if name == "result_ok"@ {
        let ok_ty = match first {
            Some(t) => t,
            None => Type::I64,
        };
        let err_ty = match expected {
            Some(Type::Result(_, err)) => *err,
            _ => Type::I32,
        };
        Some(Type::Result(Box::new(ok_ty), Box::new(err_ty)))
    } else if name == "result_err"@ {
        let ok_ty = match expected {
            Some(Type::Result(ok, _)) => *ok,
            _ => Type::I32,
        };
        let err_ty = match first {
            Some(t) => t,
            None => Type::I64,
        };
        Some(Type::Result(Box::new(ok_ty), Box::new(err_ty)))
    } else if name == "result_unwrap"@ {
        Some(
            match first {
                Some(Type::Result(ok, _)) => *ok,
                _ => Type::I64,
            },
        )
    } else if name == "result_unwrap_err"@ {
        Some(
            match first {
                Some(Type::Result(_, err)) => *err,
                _ => Type::I64,
            },
        )
    } else if name == "result_value"@ {
        Some(
            match first {
                Some(Type::Result(ok, err)) => if same_type(*ok, *err) {
                    *ok
                } else {
                    Type::I64
                },
                _ => Type::I64,
            },
        )
    } else {
        None
    }
}

pub fn infer_special_builtin_call_type(
    name: &str,
    arg_types: &[Type],
    expected: Option<&Type>,
) -> (r: Option<Type>)
    ensures
        r == special_builtin_call_type(
            name@,
            arg_types@,
            match expected {
                Some(t) => Some(*t),
                None => None,
            },
        ),
{
    let first: Option<&Type> = if arg_types.len() > 0 {
        Some(&arg_types[0])
    } else {
        None
    };
    if str_eq(name, "vec_new") {
        Some(
            match expected {
                Some(Type::Vec(_)) => copy_type(expected.unwrap()),
                _ => Type::I64,
            },
        )
    } else if str_eq(name, "vec_get") || str_eq(name, "vec_pop") {
        Some(
            match first {
                Some(Type::Vec(elem)) => copy_type(elem),
                _ => Type::I64,
            },
        )
    } else if str_eq(name, "hashmap_new") {
        Some(
            match expected {
                Some(Type::HashMap(_, _)) => copy_type(expected.unwrap()),
                _ => Type::I64,
            },
        )
    } else if str_eq(name, "hashmap_get") {
        Some(
            match first {
                Some(Type::HashMap(_, value)) => copy_type(value),
                _ => Type::I64,
            },
        )
    } else if str_eq(name, "hashmap_keys") {
        Some(
            match first {
                Some(Type::HashMap(key, _)) => Type::Vec(Box::new(copy_type(key))),
                _ => Type::I64,
            },
        )
    } else if str_eq(name, "result_ok") {
        let ok_ty = match first {
            Some(t) => copy_type(t),
            None => Type::I64,
        };
        let err_ty = match expected {
            Some(Type::Result(_, err)) => copy_type(err),
            _ => Type::I32,
        };
        Some(Type::Result(Box::new(ok_ty), Box::new(err_ty)))
    } else if str_eq(name, "result_err") {
        let ok_ty = match expected {
            Some(Type::Result(ok, _)) => copy_type(ok),
            _ => Type::I32,
        };
        let err_ty = match first {
            Some(t) => copy_type(t),
            None => Type::I64,
        };
        Some(Type::Result(Box::new(ok_ty), Box::new(err_ty)))
    } else if str_eq(name, "result_unwrap") {
        Some(
            match first {
                Some(Type::Result(ok, _)) => copy_type(ok),
                _ => Type::I64,
            },
        )
    } else if str_eq(name, "result_unwrap_err") {
        Some(
            match first {
                Some(Type::Result(_, err)) => copy_type(err),
                _ => Type::I64,
            },
        )
    } else if str_eq(name, "result_value") {
        Some(
            match first {
                Some(Type::Result(ok, err)) => if type_eq(ok, err) {
                    copy_type(ok)
                } else {
                    Type::I64
                },
                _ => Type::I64,
            },
        )
    } else {
        None
    }
}

} // verus!
