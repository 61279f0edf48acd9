//! The decisions of a run: the run options, what `bunker run` starts for
//! a file, where an assignment writes, which kernel function a `use`
//! names and what arguments it hands over, and which agent and handler a
//! shell run starts with. The kernel call itself is made by the caller.
use vstd::prelude::*;
use crate::ast::{Expr, SpecExpr, Literal, File, Kernel, KernelItem, Function, Param, Type, Shell, Agent, MessageHandler};
use crate::text::{str_eq, chars_of, slice_chars, string_from_chars};

verus! {

/// The options of a shell run: the agent and message to start with, the
/// message's arguments as text, and the step budget.
#[derive(Debug)]
pub struct RunOptions {
    pub entry_agent: Option<String>,
    pub entry_message: String,
    /// Argument name and text; the last entry of a name counts.
    pub entry_args: Vec<(String, String)>,
    pub max_steps: usize,
}

impl Default for RunOptions {
    fn default() -> (r: Self)
        ensures
            r.entry_agent is None,
            r.entry_message@ == "start"@,
            r.entry_args@.len() == 0,
            r.max_steps == 50_000,
    {
        RunOptions {
            entry_agent: None,
            entry_message: "start".to_owned(),
            entry_args: Vec::new(),
            max_steps: 50_000,
        }
    }
}

// ====================
// ASSIGNMENT TARGETS
// ====================

/// One step below the root variable of an assignment target.
#[derive(Debug)]
pub enum LValueStep {
    Index(i64),
    Field(String),
}

/// Why an expression names no place that can be assigned.
#[derive(Debug, Clone, Copy, PartialEq, Eq, Structural)]
pub enum LValueError {
    /// An index below the root that is not an integer literal.
    NonLiteralIndex,
    /// Something other than a variable, an index or a field.
    NotAssignable,
}

/// The root variable and the steps below it that an assignment target
/// names: a variable, then indexes by integer literals and fields.
pub open spec fn lvalue_path(e: SpecExpr) -> Result<(String, Seq<LValueStep>), LValueError>
    decreases e,
{
    match e {
        SpecExpr::Ident(name) => Ok((name, Seq::empty())),
        SpecExpr::Index { expr, index } => match lvalue_path(*expr) {
            Err(err) => Err(err),
            Ok((root, path)) => match *index {
                SpecExpr::Literal(Literal::Int(i)) => Ok((root, path.push(LValueStep::Index(i)))),
                _ => Err(LValueError::NonLiteralIndex),
            },
        },
        SpecExpr::Field { expr, field } => match lvalue_path(*expr) {
            Err(err) => Err(err),
            Ok((root, path)) => Ok((root, path.push(LValueStep::Field(field)))),
        },
        _ => Err(LValueError::NotAssignable),
    }
}

/// Resolves an assignment target to its root variable and the steps
/// below it.
pub fn resolve_lvalue_path(expr: &Expr) -> (r: Result<(String, Vec<LValueStep>), LValueError>)
    ensures
        match lvalue_path(expr@) {
            Ok((root, path)) => r matches Ok((n, p)) && n == root && p@ == path,
            Err(err) => r matches Err(e) && e == err,
        },
    decreases expr,
{
    proof {
        reveal_with_fuel(crate::ast::expr_view, 2);
    }
    match expr {
        Expr::Ident(name) => Ok((name.clone(), Vec::new())),
        Expr::Index { expr: inner, index } => {
            match resolve_lvalue_path(inner) {
                Err(e) => Err(e),
                Ok((root, path)) => {
                    let mut path = path;
                    match &**index {
                        Expr::Literal(Literal::Int(i)) => {
                            path.push(LValueStep::Index(*i));
                            Ok((root, path))
                        },
                        _ => Err(LValueError::NonLiteralIndex),
                    }
                },
            }
        },
        Expr::Field { expr: inner, field } => {
            match resolve_lvalue_path(inner) {
                Err(e) => Err(e),
                Ok((root, path)) => {
                    let mut path = path;
                    path.push(LValueStep::Field(field.clone()));
                    Ok((root, path))
                },
            }
        },
        _ => Err(LValueError::NotAssignable),
    }
}


// ====================
// KERNEL FUNCTIONS CALLED BY `use`
// ====================

/// The signature of a kernel function as a shell's `use` sees it.
#[derive(Debug)]
pub struct KernelSig {
    pub kernel: String,
    pub func: String,
    pub params: Vec<(String, Type)>,
    pub return_type: Option<Type>,
}

pub ghost struct KernelSigView {
    pub kernel: String,
    pub func: String,
    pub params: Seq<(String, Type)>,
    pub return_type: Option<Type>,
}

impl View for KernelSig {
    type V = KernelSigView;

    open spec fn view(&self) -> KernelSigView {
        KernelSigView {
            kernel: self.kernel,
            func: self.func,
            params: self.params@,
            return_type: self.return_type,
        }
    }
}

/// Each parameter as its name and type.
pub open spec fn param_pairs(ps: Seq<Param>) -> Seq<(String, Type)> {
    Seq::new(ps.len(), |i: int| (ps[i].name, ps[i].ty))
}

pub open spec fn fn_sig(kernel: String, f: Function) -> KernelSigView {
    KernelSigView {
        kernel,
        func: f.name,
        params: param_pairs(f.params@),
        return_type: f.return_type,
    }
}

/// The signatures of the functions (comptime ones too) among a kernel's
/// items, in order.
pub open spec fn items_sigs(kernel: String, items: Seq<KernelItem>) -> Seq<KernelSigView>
    decreases items.len(),
{
    if items.len() == 0 {
        Seq::empty()
    } else {
        let before = items_sigs(kernel, items.drop_last());
        match items.last() {
            KernelItem::Function(f) => before.push(fn_sig(kernel, f)),
            KernelItem::ComptimeFn(f) => before.push(fn_sig(kernel, f)),
            _ => before,
        }
    }
}

/// The signatures of all kernel functions of the file, kernel by kernel.
pub open spec fn kernels_sigs(ks: Seq<Kernel>) -> Seq<KernelSigView>
    decreases ks.len(),
{
    if ks.len() == 0 {
        Seq::empty()
    } else {
        kernels_sigs(ks.drop_last()) + items_sigs(ks.last().name, ks.last().items@)
    }
}

fn param_pairs_exec(ps: &Vec<Param>) -> (r: Vec<(String, Type)>)
    ensures
        r@ == param_pairs(ps@),
{
    let mut r: Vec<(String, Type)> = Vec::new();
    for i in 0..ps.len()
        invariant
            r@ == param_pairs(ps@.subrange(0, i as int)),
    {
        r.push((ps[i].name.clone(), ps[i].ty.clone()));
        assert(r@ =~= param_pairs(ps@.subrange(0, i + 1)));
    }
    assert(ps@.subrange(0, ps@.len() as int) =~= ps@);
    r
}

/// Collects the signatures of the kernel functions of a file, kernel by
/// kernel and in source order. A later function with the same kernel and
/// name replaces an earlier one when looked up.
pub fn kernel_signatures(file: &File) -> (r: Vec<KernelSig>)
    ensures
        r@.len() == kernels_sigs(file.kernels@).len(),
        forall|i: int| 0 <= i < r@.len() ==> #[trigger] r@[i]@ == kernels_sigs(file.kernels@)[i],
{
    let mut r: Vec<KernelSig> = Vec::new();
    let ghost ks = file.kernels@;
    for k in 0..file.kernels.len()
        invariant
            ks == file.kernels@,
            r@.len() == kernels_sigs(ks.subrange(0, k as int)).len(),
            forall|i: int| 0 <= i < r@.len() ==> #[trigger] r@[i]@ == kernels_sigs(ks.subrange(0, k as int))[i],
    {
        let kernel = &file.kernels[k];
        let ghost base = kernels_sigs(ks.subrange(0, k as int));
        let ghost items = kernel.items@;
        for j in 0..kernel.items.len()
            invariant
                ks == file.kernels@,
                kernel == file.kernels@[k as int],
                items == kernel.items@,
                base == kernels_sigs(ks.subrange(0, k as int)),
                r@.len() == base.len() + items_sigs(kernel.name, items.subrange(0, j as int)).len(),
                forall|i: int| 0 <= i < r@.len() ==> #[trigger] r@[i]@ == (base + items_sigs(kernel.name, items.subrange(0, j as int)))[i],
        {
            assert(items.subrange(0, j + 1).drop_last() =~= items.subrange(0, j as int));
            match &kernel.items[j] {
                KernelItem::Function(f) => {
                    let sig = KernelSig {
                        kernel: kernel.name.clone(),
                        func: f.name.clone(),
                        params: param_pairs_exec(&f.params),
                        return_type: f.return_type.clone(),
                    };
                    r.push(sig);
                },
                KernelItem::ComptimeFn(f) => {
                    let sig = KernelSig {
                        kernel: kernel.name.clone(),
                        func: f.name.clone(),
                        params: param_pairs_exec(&f.params),
                        return_type: f.return_type.clone(),
                    };
                    r.push(sig);
                },
                _ => {},
            }
        }
        assert(items.subrange(0, items.len() as int) =~= items);
        assert(ks.subrange(0, k + 1).drop_last() =~= ks.subrange(0, k as int));
    }
    assert(ks.subrange(0, ks.len() as int) =~= ks);
    r
}

pub open spec fn sig_views(v: Seq<KernelSig>) -> Seq<KernelSigView> {
    Seq::new(v.len(), |i: int| v[i]@)
}

/// Whether a signature answers to a function name, and to a kernel name
/// where one is given.
pub open spec fn sig_answers(s: KernelSigView, kernel: Option<Seq<char>>, func: Seq<char>) -> bool {
    &&& s.func@ == func
    &&& match kernel {
        Some(k) => s.kernel@ == k,
        None => true,
    }
}

/// The index of the last signature that answers.
pub open spec fn last_answering(sigs: Seq<KernelSigView>, kernel: Option<Seq<char>>, func: Seq<char>) -> Option<int>
    decreases sigs.len(),
{
    if sigs.len() == 0 {
        None
    } else if sig_answers(sigs.last(), kernel, func) {
        Some(sigs.len() - 1)
    } else {
        last_answering(sigs.drop_last(), kernel, func)
    }
}

/// Why a `use` names no kernel function that can be called.
#[derive(Debug, Clone, PartialEq, Eq)]
pub enum UseError {
    /// The path is empty.
    InvalidPath,
    /// The file has no kernel.
    NoKernels,
    /// No kernel function of that name (in that kernel, where one is named).
    UnknownFunction,
    /// No kernel is named and more than one kernel has a function of that name.
    Ambiguous,
    /// An argument that the function has no parameter for.
    UnknownArgument(String),
    /// The function returns a type that a shell cannot call it for.
    UnsupportedReturn,
    /// A parameter whose type does not go with the return type.
    UnsupportedParameter(String),
    /// A parameter that no argument names.
    MissingArgument(String),
    /// An argument that should be an integer and is not.
    NotAnInteger(String),
    /// An integer argument out of the range of `i32`.
    OutOfRange(String),
    /// An argument that should be a number and is not.
    NotANumber(String),
    /// An argument that is not an option of the kind the function takes.
    InvalidOption(String),
}

/// Whether a kernel other than `kernel` has a function named `func`.
pub open spec fn elsewhere(sigs: Seq<KernelSigView>, func: Seq<char>, kernel: Seq<char>) -> bool {
    exists|j: int| 0 <= j < sigs.len() && (#[trigger] sigs[j]).func@ == func && sigs[j].kernel@ != kernel
}

/// The signature that a `use` of `func` finds, in `kernel` where one is
/// named: the last one that answers. Without a kernel name, functions of
/// that name in two different kernels make the `use` ambiguous.
pub open spec fn use_lookup(sigs: Seq<KernelSigView>, kernel: Option<Seq<char>>, func: Seq<char>) -> Result<KernelSigView, UseError> {
    match last_answering(sigs, kernel, func) {
        None => Err(UseError::UnknownFunction),
        Some(i) => if kernel is None && elsewhere(sigs, func, sigs[i].kernel@) {
            Err(UseError::Ambiguous)
        } else {
            Ok(sigs[i])
        },
    }
}

proof fn lemma_last_answering(sigs: Seq<KernelSigView>, kernel: Option<Seq<char>>, func: Seq<char>, i: int)
    requires
        -1 <= i < sigs.len(),
        i >= 0 ==> sig_answers(sigs[i], kernel, func),
        forall|j: int| i < j < sigs.len() ==> !sig_answers(#[trigger] sigs[j], kernel, func),
    ensures
        last_answering(sigs, kernel, func) == (if i >= 0 { Some(i) } else { None::<int> }),
    decreases sigs.len(),
{
    if sigs.len() > 0 && i < sigs.len() - 1 {
        lemma_last_answering(sigs.drop_last(), kernel, func, i);
    }
}

fn answers_exec(s: &KernelSig, kernel: Option<&str>, func: &str) -> (r: bool)
    ensures
        r == sig_answers(s@, match kernel { Some(k) => Some(k@), None => None }, func@),
{
    if !str_eq(s.func.as_str(), func) {
        return false;
    }
    match kernel {
        Some(k) => str_eq(s.kernel.as_str(), k),
        None => true,
    }
}

/// Finds the kernel function that a `use` of `func` calls, in `kernel`
/// where one is named; see `use_lookup`. Gives its index.
pub fn find_kernel_sig(sigs: &Vec<KernelSig>, kernel: Option<&str>, func: &str) -> (r: Result<usize, UseError>)
    ensures
        match use_lookup(sig_views(sigs@), match kernel { Some(k) => Some(k@), None => None }, func@) {
            Ok(sig) => r matches Ok(i) && i < sigs@.len() && sigs@[i as int]@ == sig,
            Err(e) => r == Err::<usize, UseError>(e),
        },
{
    let ghost kv = match kernel { Some(k) => Some(k@), None => None::<Seq<char>> };
    let ghost views = sig_views(sigs@);
    let mut i = sigs.len();
    let mut found: Option<usize> = None;
    while i > 0 && found.is_none()
        invariant
            i <= sigs@.len(),
            views == sig_views(sigs@),
            kv == (match kernel { Some(k) => Some(k@), None => None::<Seq<char>> }),
            found is None ==> forall|j: int| i <= j < sigs@.len() ==> !sig_answers(#[trigger] views[j], kv, func@),
            found matches Some(f) ==> f < sigs@.len() && sig_answers(views[f as int], kv, func@)
                && forall|j: int| f < j < sigs@.len() ==> !sig_answers(#[trigger] views[j], kv, func@),
        decreases i,
    {
        assert(views[i - 1] == sigs@[i - 1]@);
        if answers_exec(&sigs[i - 1], kernel, func) {
            found = Some(i - 1);
        }
        i = i - 1;
    }
    match found {
        None => {
            proof {
                lemma_last_answering(views, kv, func@, -1);
            }
            Err(UseError::UnknownFunction)
        },
        Some(f) => {
            proof {
                lemma_last_answering(views, kv, func@, f as int);
            }
            if kernel.is_none() {
                for j in 0..sigs.len()
                    invariant
                        f < sigs@.len(),
                        views == sig_views(sigs@),
                        kernel is None,
                        kv == (match kernel { Some(k) => Some(k@), None => None::<Seq<char>> }),
                        last_answering(views, kv, func@) == Some(f as int),
                        forall|m: int| 0 <= m < j ==> !(#[trigger] views[m].func@ == func@ && views[m].kernel@ != views[f as int].kernel@),
                {
                    assert(views[j as int] == sigs@[j as int]@);
                    assert(views[f as int] == sigs@[f as int]@);
                    if str_eq(sigs[j].func.as_str(), func) && !str_eq(sigs[j].kernel.as_str(), sigs[f].kernel.as_str()) {
                        assert(views[j as int].func@ == func@ && views[j as int].kernel@ != views[f as int].kernel@);
                        assert(elsewhere(views, func@, views[f as int].kernel@));
                        return Err(UseError::Ambiguous);
                    }
                }
            }
            assert(views[f as int] == sigs@[f as int]@);
            Ok(f)
        },
    }
}

/// Whether some parameter has this name.
pub open spec fn is_param(params: Seq<(String, Type)>, name: Seq<char>) -> bool {
    exists|p: int| 0 <= p < params.len() && (#[trigger] params[p]).0@ == name
}

/// The first argument from index `i` on that names no parameter.
pub open spec fn first_unknown_from(params: Seq<(String, Type)>, args: Seq<(String, Expr)>, i: int) -> Option<int>
    decreases args.len() - i,
{
    if i >= args.len() {
        None
    } else if !is_param(params, args[i].0@) {
        Some(i)
    } else {
        first_unknown_from(params, args, i + 1)
    }
}

/// The kernel function that `use path(args)` calls, as far as it is
/// decided before any argument is evaluated: the path names a function
/// (the last segment) and, with two or more segments, its kernel (the
/// first); the file has a kernel; the lookup succeeds; and every argument
/// names a parameter.
pub open spec fn use_target(file: File, path: Seq<String>, args: Seq<(String, Expr)>) -> Result<KernelSigView, UseError> {
    if path.len() == 0 {
        Err(UseError::InvalidPath)
    } else if file.kernels@.len() == 0 {
        Err(UseError::NoKernels)
    } else {
        let kernel = if path.len() >= 2 { Some(path[0]@) } else { None };
        match use_lookup(kernels_sigs(file.kernels@), kernel, path.last()@) {
            Err(e) => Err(e),
            Ok(sig) => match first_unknown_from(sig.params, args, 0) {
                Some(a) => Err(UseError::UnknownArgument(args[a].0)),
                None => Ok(sig),
            },
        }
    }
}

fn is_param_exec(params: &Vec<(String, Type)>, name: &str) -> (r: bool)
    ensures
        r == is_param(params@, name@),
{
    for p in 0..params.len()
        invariant
            forall|q: int| 0 <= q < p ==> (#[trigger] params@[q]).0@ != name@,
    {
        if str_eq(params[p].0.as_str(), name) {
            return true;
        }
    }
    false
}

/// Finds the kernel function that `use path(args)` calls; see
/// `use_target`. Compiling the kernels and evaluating the arguments come
/// after this and are not part of it.
pub fn resolve_use(file: &File, path: &Vec<String>, args: &Vec<(String, Expr)>) -> (r: Result<KernelSig, UseError>)
    ensures
        match use_target(*file, path@, args@) {
            Ok(sig) => r matches Ok(s) && s@ == sig,
            Err(e) => r == Err::<KernelSig, UseError>(e),
        },
{
    if path.len() == 0 {
        return Err(UseError::InvalidPath);
    }
    if file.kernels.len() == 0 {
        return Err(UseError::NoKernels);
    }
    let mut sigs = kernel_signatures(file);
    proof {
        assert(sig_views(sigs@) =~= kernels_sigs(file.kernels@));
    }
    let func = path[path.len() - 1].as_str();
    let found = if path.len() >= 2 {
        find_kernel_sig(&sigs, Some(path[0].as_str()), func)
    } else {
        find_kernel_sig(&sigs, None, func)
    };
    let idx = match found {
        Err(e) => {
            return Err(e);
        },
        Ok(i) => i,
    };
    let ghost sig = sigs@[idx as int]@;
    let ghost kernel = if path@.len() >= 2 { Some(path@[0]@) } else { None };
    assert(use_lookup(kernels_sigs(file.kernels@), kernel, path@.last()@) == Ok::<KernelSigView, UseError>(sig));
    for a in 0..args.len()
        invariant
            path@.len() > 0,
            file.kernels@.len() > 0,
            kernel == (if path@.len() >= 2 { Some(path@[0]@) } else { None }),
            use_lookup(kernels_sigs(file.kernels@), kernel, path@.last()@) == Ok::<KernelSigView, UseError>(sig),
            idx < sigs@.len(),
            sig == sigs@[idx as int]@,
            forall|b: int| 0 <= b < a ==> is_param(sig.params, (#[trigger] args@[b]).0@),
            first_unknown_from(sig.params, args@, 0) == first_unknown_from(sig.params, args@, a as int),
    {
        if !is_param_exec(&sigs[idx].params, args[a].0.as_str()) {
            return Err(UseError::UnknownArgument(args[a].0.clone()));
        }
    }
    Ok(sigs.remove(idx))
}

// ====================
// VALUES OF A SHELL RUN, AND THE ARGUMENTS OF A KERNEL CALL
// ====================

/// A value of a shell run. Floats are carried as their IEEE-754 binary64
/// bit pattern; structs as their fields, the last entry of a name counting.
#[derive(Debug)]
pub enum ShellValue {
    Int(i64),
    Float(u64),
    Bool(bool),
    Str(String),
    Opt(Option<Box<ShellValue>>),
    Array(Vec<ShellValue>),
    Struct(Vec<(String, ShellValue)>),
    Unit,
}

/// How a kernel function is called from a shell, by its return type.
#[derive(Debug, Clone, Copy, PartialEq, Eq, Structural)]
pub enum CallKind {
    I32,
    I64,
    F64,
    OptI32,
    OptI64,
    OptF64,
}

/// The call kind of a return type; `None` for the types a shell cannot
/// call a kernel function for.
pub open spec fn call_kind(ret: Option<Type>) -> Option<CallKind> {
    match ret {
        Some(Type::I32) => Some(CallKind::I32),
        Some(Type::I64) => Some(CallKind::I64),
        Some(Type::F64) => Some(CallKind::F64),
        Some(Type::Option(inner)) => match *inner {
            Type::I32 => Some(CallKind::OptI32),
            Type::I64 => Some(CallKind::OptI64),
            Type::F64 => Some(CallKind::OptF64),
            _ => None,
        },
        _ => None,
    }
}

/// Whether a parameter type goes with a call kind: the return type itself.
pub open spec fn param_fits(kind: CallKind, ty: Type) -> bool {
    match kind {
        CallKind::I32 => match ty {
            Type::I32 => true,
            _ => false,
        },
        CallKind::I64 => ty is I64,
        CallKind::F64 => match ty {
            Type::F64 => true,
            _ => false,
        },
        CallKind::OptI32 => ty matches Type::Option(t) && *t is I32,
        CallKind::OptI64 => ty matches Type::Option(t) && *t is I64,
        CallKind::OptF64 => ty matches Type::Option(t) && *t is F64,
    }
}

/// An argument of a kernel call, as the machine receives it. A float
/// argument that was an integer is handed on as the integer, for the
/// caller to convert.
#[derive(Debug, Clone, Copy, PartialEq, Eq, Structural)]
pub enum KernelArg {
    I32(i32),
    I64(i64),
    FloatBits(u64),
    IntAsFloat(i64),
    OptNone,
    OptI32(i32),
    OptI64(i64),
    OptFloatBits(u64),
    OptIntAsFloat(i64),
}

/// The argument made of a value for a parameter of a call kind.
pub open spec fn kernel_arg(kind: CallKind, name: String, v: ShellValue) -> Result<KernelArg, UseError> {
    match kind {
        CallKind::I32 => match v {
            ShellValue::Int(n) => if i32::MIN <= n <= i32::MAX {
                Ok(KernelArg::I32(n as i32))
            } else {
                Err(UseError::OutOfRange(name))
            },
            _ => Err(UseError::NotAnInteger(name)),
        },
        CallKind::I64 => match v {
            ShellValue::Int(n) => Ok(KernelArg::I64(n)),
            _ => Err(UseError::NotAnInteger(name)),
        },
        CallKind::F64 => match v {
            ShellValue::Float(b) => Ok(KernelArg::FloatBits(b)),
            ShellValue::Int(n) => Ok(KernelArg::IntAsFloat(n)),
            _ => Err(UseError::NotANumber(name)),
        },
        _ => match v {
            ShellValue::Opt(None) => Ok(KernelArg::OptNone),
            ShellValue::Opt(Some(inner)) => match (kind, *inner) {
                (CallKind::OptI32, ShellValue::Int(n)) => if i32::MIN <= n <= i32::MAX {
                    Ok(KernelArg::OptI32(n as i32))
                } else {
                    Err(UseError::InvalidOption(name))
                },
                (CallKind::OptI64, ShellValue::Int(n)) => Ok(KernelArg::OptI64(n)),
                (CallKind::OptF64, ShellValue::Float(b)) => Ok(KernelArg::OptFloatBits(b)),
                (CallKind::OptF64, ShellValue::Int(n)) => Ok(KernelArg::OptIntAsFloat(n)),
                _ => Err(UseError::InvalidOption(name)),
            },
            _ => Err(UseError::InvalidOption(name)),
        },
    }
}

/// The index of the first argument with this name.
pub open spec fn first_arg(args: Seq<(String, ShellValue)>, name: Seq<char>, i: int) -> Option<int>
    decreases args.len() - i,
{
    if i < 0 || i >= args.len() {
        None
    } else if args[i].0@ == name {
        Some(i)
    } else {
        first_arg(args, name, i + 1)
    }
}

/// The arguments of a call, parameter by parameter from index `i`: each
/// parameter must have the type the call kind asks for and an argument of
/// its name (the first one), whose value makes an argument of that kind.
pub open spec fn use_args_from(
    kind: CallKind,
    params: Seq<(String, Type)>,
    args: Seq<(String, ShellValue)>,
    i: int,
) -> Result<Seq<KernelArg>, UseError>
    decreases params.len() - i,
{
    if i < 0 || i >= params.len() {
        Ok(Seq::empty())
    } else if !param_fits(kind, params[i].1) {
        Err(UseError::UnsupportedParameter(params[i].0))
    } else {
        match first_arg(args, params[i].0@, 0) {
            None => Err(UseError::MissingArgument(params[i].0)),
            Some(a) => match kernel_arg(kind, params[i].0, args[a].1) {
                Err(e) => Err(e),
                Ok(arg) => match use_args_from(kind, params, args, i + 1) {
                    Err(e) => Err(e),
                    Ok(rest) => Ok(seq![arg] + rest),
                },
            },
        }
    }
}

/// The arguments a `use` hands to the kernel function, from the values of
/// its arguments; see `use_args_from`.
pub open spec fn use_args_spec(sig: KernelSigView, args: Seq<(String, ShellValue)>) -> Result<(CallKind, Seq<KernelArg>), UseError> {
    match call_kind(sig.return_type) {
        None => Err(UseError::UnsupportedReturn),
        Some(kind) => match use_args_from(kind, sig.params, args, 0) {
            Err(e) => Err(e),
            Ok(v) => Ok((kind, v)),
        },
    }
}

fn call_kind_exec(ret: &Option<Type>) -> (r: Option<CallKind>)
    ensures
        r == call_kind(*ret),
{
    match ret {
        Some(Type::I32) => Some(CallKind::I32),
        Some(Type::I64) => Some(CallKind::I64),
        Some(Type::F64) => Some(CallKind::F64),
        Some(Type::Option(inner)) => match &**inner {
            Type::I32 => Some(CallKind::OptI32),
            Type::I64 => Some(CallKind::OptI64),
            Type::F64 => Some(CallKind::OptF64),
            _ => None,
        },
        _ => None,
    }
}

fn param_fits_exec(kind: CallKind, ty: &Type) -> (r: bool)
    ensures
        r == param_fits(kind, *ty),
{
    match kind {
        CallKind::I32 => match ty {
            Type::I32 => true,
            _ => false,
        },
        CallKind::I64 => match ty {
            Type::I64 => true,
            _ => false,
        },
        CallKind::F64 => match ty {
            Type::F64 => true,
            _ => false,
        },
        CallKind::OptI32 => match ty {
            Type::Option(t) => match &**t {
                Type::I32 => true,
                _ => false,
            },
            _ => false,
        },
        CallKind::OptI64 => match ty {
            Type::Option(t) => match &**t {
                Type::I64 => true,
                _ => false,
            },
            _ => false,
        },
        CallKind::OptF64 => match ty {
            Type::Option(t) => match &**t {
                Type::F64 => true,
                _ => false,
            },
            _ => false,
        },
    }
}

fn kernel_arg_exec(kind: CallKind, name: &String, v: &ShellValue) -> (r: Result<KernelArg, UseError>)
    ensures
        r == kernel_arg(kind, *name, *v),
{
    match kind {
        CallKind::I32 => match v {
            ShellValue::Int(n) => if i32::MIN as i64 <= *n && *n <= i32::MAX as i64 {
                Ok(KernelArg::I32(*n as i32))
            } else {
                Err(UseError::OutOfRange(name.clone()))
            },
            _ => Err(UseError::NotAnInteger(name.clone())),
        },
        CallKind::I64 => match v {
            ShellValue::Int(n) => Ok(KernelArg::I64(*n)),
            _ => Err(UseError::NotAnInteger(name.clone())),
        },
        CallKind::F64 => match v {
            ShellValue::Float(b) => Ok(KernelArg::FloatBits(*b)),
            ShellValue::Int(n) => Ok(KernelArg::IntAsFloat(*n)),
            _ => Err(UseError::NotANumber(name.clone())),
        },
        _ => match v {
            ShellValue::Opt(None) => Ok(KernelArg::OptNone),
            ShellValue::Opt(Some(inner)) => match (kind, &**inner) {
                (CallKind::OptI32, ShellValue::Int(n)) => if i32::MIN as i64 <= *n && *n <= i32::MAX as i64 {
                    Ok(KernelArg::OptI32(*n as i32))
                } else {
                    Err(UseError::InvalidOption(name.clone()))
                },
                (CallKind::OptI64, ShellValue::Int(n)) => Ok(KernelArg::OptI64(*n)),
                (CallKind::OptF64, ShellValue::Float(b)) => Ok(KernelArg::OptFloatBits(*b)),
                (CallKind::OptF64, ShellValue::Int(n)) => Ok(KernelArg::OptIntAsFloat(*n)),
                _ => Err(UseError::InvalidOption(name.clone())),
            },
            _ => Err(UseError::InvalidOption(name.clone())),
        },
    }
}

fn first_arg_exec(args: &Vec<(String, ShellValue)>, name: &str) -> (r: Option<usize>)
    ensures
        match r {
            Some(j) => first_arg(args@, name@, 0) == Some(j as int) && j < args@.len(),
            None => first_arg(args@, name@, 0) is None,
        },
{
    for i in 0..args.len()
        invariant
            first_arg(args@, name@, 0) == first_arg(args@, name@, i as int),
    {
        if str_eq(args[i].0.as_str(), name) {
            return Some(i);
        }
    }
    None
}

/// Checks and converts the evaluated arguments of a `use` of a kernel
/// function, parameter by parameter; see `use_args_spec`.
pub fn use_call_args(sig: &KernelSig, args: &Vec<(String, ShellValue)>) -> (r: Result<(CallKind, Vec<KernelArg>), UseError>)
    ensures
        match use_args_spec(sig@, args@) {
            Ok((kind, v)) => r matches Ok((k, w)) && k == kind && w@ == v,
            Err(e) => r == Err::<(CallKind, Vec<KernelArg>), UseError>(e),
        },
{
    let kind = match call_kind_exec(&sig.return_type) {
        None => {
            return Err(UseError::UnsupportedReturn);
        },
        Some(k) => k,
    };
    let ghost params = sig.params@;
    let mut out: Vec<KernelArg> = Vec::new();
    let n = sig.params.len();
    for i in 0..n
        invariant
            n == params.len(),
            params == sig.params@,
            call_kind(sig.return_type) == Some(kind),
            use_args_from(kind, params, args@, 0) == (match use_args_from(kind, params, args@, i as int) {
                Err(e) => Err(e),
                Ok(rest) => Ok(out@ + rest),
            }),
    {
        let name = &sig.params[i].0;
        if !param_fits_exec(kind, &sig.params[i].1) {
            return Err(UseError::UnsupportedParameter(name.clone()));
        }
        let a = match first_arg_exec(args, name.as_str()) {
            None => {
                return Err(UseError::MissingArgument(name.clone()));
            },
            Some(a) => a,
        };
        let arg = match kernel_arg_exec(kind, name, &args[a].1) {
            Err(e) => {
                return Err(e);
            },
            Ok(x) => x,
        };
        proof {
            match use_args_from(kind, params, args@, i + 1) {
                Err(e) => {},
                Ok(rest) => {
                    assert(out@ + (seq![arg] + rest) =~= out@.push(arg) + rest);
                },
            }
        }
        out.push(arg);
    }
    proof {
        assert(out@ + Seq::<KernelArg>::empty() =~= out@);
    }
    Ok((kind, out))
}

// ====================
// THE ENTRY POINT OF A RUN
// ====================

/// Why a run has no entry point.
#[derive(Debug, Clone, PartialEq, Eq)]
pub enum EntryError {
    /// The requested entry agent (as given) is not an agent of the shell.
    UnknownAgent(String),
    /// No entry agent was requested and no agent handles the entry message.
    NoDefaultEntry,
    /// The entry agent has no handler for the entry message.
    NoEntryHandler,
}

/// What follows the last `.` of a text, or the whole text without one.
pub open spec fn after_last_dot(s: Seq<char>) -> Seq<char>
    decreases s.len(),
{
    if s.len() == 0 {
        s
    } else if s.last() == '.' {
        Seq::empty()
    } else {
        after_last_dot(s.drop_last()).push(s.last())
    }
}

/// The index of the last agent with this name: the one a run keeps.
pub open spec fn last_agent(agents: Seq<Agent>, name: Seq<char>) -> Option<int>
    decreases agents.len(),
{
    if agents.len() == 0 {
        None
    } else if agents.last().name@ == name {
        Some(agents.len() - 1)
    } else {
        last_agent(agents.drop_last(), name)
    }
}

/// The index of the last handler of this message: the one a run keeps.
pub open spec fn last_handler(hs: Seq<MessageHandler>, message: Seq<char>) -> Option<int>
    decreases hs.len(),
{
    if hs.len() == 0 {
        None
    } else if hs.last().message@ == message {
        Some(hs.len() - 1)
    } else {
        last_handler(hs.drop_last(), message)
    }
}

/// Whether the agent that a run keeps under the name of agent `i` handles
/// the message.
pub open spec fn kept_handles(agents: Seq<Agent>, i: int, message: Seq<char>) -> bool {
    match last_agent(agents, agents[i].name@) {
        Some(a) => last_handler(agents[a].handlers@, message) is Some,
        None => false,
    }
}

/// The first agent from index `i` on whose kept namesake handles the message.
pub open spec fn first_entry_from(agents: Seq<Agent>, message: Seq<char>, i: int) -> Option<int>
    decreases agents.len() - i,
{
    if i < 0 || i >= agents.len() {
        None
    } else if kept_handles(agents, i, message) {
        Some(i)
    } else {
        first_entry_from(agents, message, i + 1)
    }
}

/// The name of the agent a run starts with: the requested one (the part
/// after its last `.`), which must be an agent of the shell; or, when none
/// is requested, the first agent in source order that handles the entry
/// message.
pub open spec fn entry_agent(shell: Shell, options: RunOptions) -> Result<Seq<char>, EntryError> {
    match options.entry_agent {
        Some(agent) => {
            let name = after_last_dot(agent@);
            if last_agent(shell.agents@, name) is Some {
                Ok(name)
            } else {
                Err(EntryError::UnknownAgent(agent))
            }
        },
        None => match first_entry_from(shell.agents@, options.entry_message@, 0) {
            Some(i) => Ok(shell.agents@[i].name@),
            None => Err(EntryError::NoDefaultEntry),
        },
    }
}

/// The entry point of a run: the index of the entry agent that the run
/// keeps and of its handler of the entry message.
pub open spec fn entry_point(shell: Shell, options: RunOptions) -> Result<(int, int), EntryError> {
    match entry_agent(shell, options) {
        Err(e) => Err(e),
        Ok(name) => match last_agent(shell.agents@, name) {
            None => Err(EntryError::NoEntryHandler),
            Some(a) => match last_handler(shell.agents@[a].handlers@, options.entry_message@) {
                Some(h) => Ok((a, h)),
                None => Err(EntryError::NoEntryHandler),
            },
        },
    }
}

proof fn lemma_after_last_dot(s: Seq<char>, i: int)
    requires
        0 <= i <= s.len(),
        i > 0 ==> s[i - 1] == '.',
        forall|j: int| i <= j < s.len() ==> s[j] != '.',
    ensures
        after_last_dot(s) == s.subrange(i, s.len() as int),
    decreases s.len(),
{
    if s.len() > 0 {
        if i == s.len() {
            assert(s.subrange(i, s.len() as int) =~= Seq::<char>::empty());
        } else {
            lemma_after_last_dot(s.drop_last(), i);
            assert(s.subrange(i, s.len() as int) =~= s.drop_last().subrange(i, s.len() - 1).push(s.last()));
        }
    }
}

fn after_last_dot_exec(s: &str) -> (r: String)
    ensures
        r@ == after_last_dot(s@),
{
    let v = chars_of(s);
    let mut i = v.len();
    while i > 0 && v[i - 1] != '.'
        invariant
            i <= v@.len(),
            forall|j: int| i <= j < v@.len() ==> v@[j] != '.',
        decreases i,
    {
        i = i - 1;
    }
    proof {
        lemma_after_last_dot(v@, i as int);
    }
    let w = slice_chars(v.as_slice(), i, v.len());
    string_from_chars(w.as_slice())
}

proof fn lemma_last_agent(agents: Seq<Agent>, name: Seq<char>, i: int)
    requires
        -1 <= i < agents.len(),
        i >= 0 ==> agents[i].name@ == name,
        forall|j: int| i < j < agents.len() ==> (#[trigger] agents[j]).name@ != name,
    ensures
        last_agent(agents, name) == (if i >= 0 { Some(i) } else { None::<int> }),
    decreases agents.len(),
{
    if agents.len() > 0 && i < agents.len() - 1 {
        lemma_last_agent(agents.drop_last(), name, i);
    }
}

proof fn lemma_last_handler(hs: Seq<MessageHandler>, message: Seq<char>, i: int)
    requires
        -1 <= i < hs.len(),
        i >= 0 ==> hs[i].message@ == message,
        forall|j: int| i < j < hs.len() ==> (#[trigger] hs[j]).message@ != message,
    ensures
        last_handler(hs, message) == (if i >= 0 { Some(i) } else { None::<int> }),
    decreases hs.len(),
{
    if hs.len() > 0 && i < hs.len() - 1 {
        lemma_last_handler(hs.drop_last(), message, i);
    }
}

fn last_agent_exec(agents: &Vec<Agent>, name: &str) -> (r: Option<usize>)
    ensures
        match r {
            Some(j) => last_agent(agents@, name@) == Some(j as int) && j < agents@.len(),
            None => last_agent(agents@, name@) is None,
        },
{
    let mut i = agents.len();
    while i > 0
        invariant
            i <= agents@.len(),
            forall|j: int| i <= j < agents@.len() ==> (#[trigger] agents@[j]).name@ != name@,
        decreases i,
    {
        if str_eq(agents[i - 1].name.as_str(), name) {
            proof {
                lemma_last_agent(agents@, name@, i - 1);
            }
            return Some(i - 1);
        }
        i = i - 1;
    }
    proof {
        lemma_last_agent(agents@, name@, -1);
    }
    None
}

fn last_handler_exec(hs: &Vec<MessageHandler>, message: &str) -> (r: Option<usize>)
    ensures
        match r {
            Some(j) => last_handler(hs@, message@) == Some(j as int) && j < hs@.len(),
            None => last_handler(hs@, message@) is None,
        },
{
    let mut i = hs.len();
    while i > 0
        invariant
            i <= hs@.len(),
            forall|j: int| i <= j < hs@.len() ==> (#[trigger] hs@[j]).message@ != message@,
        decreases i,
    {
        if str_eq(hs[i - 1].message.as_str(), message) {
            proof {
                lemma_last_handler(hs@, message@, i - 1);
            }
            return Some(i - 1);
        }
        i = i - 1;
    }
    proof {
        lemma_last_handler(hs@, message@, -1);
    }
    None
}

/// Picks the agent a run starts with; see `entry_agent`.
pub fn resolve_entry_agent(shell: &Shell, options: &RunOptions) -> (r: Result<String, EntryError>)
    ensures
        match entry_agent(*shell, *options) {
            Ok(name) => r matches Ok(s) && s@ == name,
            Err(e) => r == Err::<String, EntryError>(e),
        },
{
    match &options.entry_agent {
        Some(agent) => {
            let name = after_last_dot_exec(agent.as_str());
            match last_agent_exec(&shell.agents, name.as_str()) {
                Some(_) => Ok(name),
                None => Err(EntryError::UnknownAgent(agent.clone())),
            }
        },
        None => {
            let ghost agents = shell.agents@;
            let ghost message = options.entry_message@;
            let n = shell.agents.len();
            for i in 0..n
                invariant
                    n == agents.len(),
                    agents == shell.agents@,
                    message == options.entry_message@,
                    options.entry_agent is None,
                    first_entry_from(agents, message, 0) == first_entry_from(agents, message, i as int),
            {
                let kept = last_agent_exec(&shell.agents, shell.agents[i].name.as_str());
                let handles = match kept {
                    Some(a) => last_handler_exec(&shell.agents[a].handlers, options.entry_message.as_str()).is_some(),
                    None => false,
                };
                if handles {
                    return Ok(shell.agents[i].name.clone());
                }
            }
            Err(EntryError::NoDefaultEntry)
        },
    }
}

/// Finds the entry point of a run; see `entry_point`. Gives the index of
/// the agent and of its handler.
pub fn find_entry_point(shell: &Shell, options: &RunOptions) -> (r: Result<(usize, usize), EntryError>)
    ensures
        match entry_point(*shell, *options) {
            Ok((a, h)) => r == Ok::<(usize, usize), EntryError>((a as usize, h as usize)),
            Err(e) => r == Err::<(usize, usize), EntryError>(e),
        },
        r matches Ok((a, h)) ==> a < shell.agents@.len() && h < shell.agents@[a as int].handlers@.len(),
{
    let name = match resolve_entry_agent(shell, options) {
        Err(e) => {
            return Err(e);
        },
        Ok(n) => n,
    };
    match last_agent_exec(&shell.agents, name.as_str()) {
        None => Err(EntryError::NoEntryHandler),
        Some(a) => match last_handler_exec(&shell.agents[a].handlers, options.entry_message.as_str()) {
            Some(h) => Ok((a, h)),
            None => Err(EntryError::NoEntryHandler),
        },
    }
}

// ====================
// WHAT A RUN STARTS
// ====================

/// What `bunker run` starts for a file.
#[derive(Debug, Clone, Copy, PartialEq, Eq, Structural)]
pub enum RunTarget {
    /// A kernel `fn main()` without parameters returning i32, i64, f64 or bool.
    KernelMain,
    /// The views of the file.
    Views,
    /// The first shell of the file.
    Shell,
    /// Nothing runnable.
    Nothing,
}

/// Whether a function is a kernel entry point.
pub open spec fn is_kernel_main(f: Function) -> bool {
    &&& f.name@ == "main"@
    &&& f.params@.len() == 0
    &&& match f.return_type {
        Some(Type::I32) => true,
        Some(Type::I64) => true,
        Some(Type::F64) => true,
        Some(Type::Bool) => true,
        _ => false,
    }
}

pub open spec fn item_is_main(item: KernelItem) -> bool {
    match item {
        KernelItem::Function(f) => is_kernel_main(f),
        KernelItem::ComptimeFn(f) => is_kernel_main(f),
        _ => false,
    }
}

/// Whether some kernel of the file has an entry point.
pub open spec fn has_kernel_main(file: File) -> bool {
    exists|k: int, j: int|
        0 <= k < file.kernels@.len() && 0 <= j < file.kernels@[k].items@.len()
            && item_is_main(#[trigger] file.kernels@[k].items@[j])
}

/// A kernel entry point first, then views, then shells.
pub open spec fn run_target_of(file: File) -> RunTarget {
    if has_kernel_main(file) {
        RunTarget::KernelMain
    } else if file.views@.len() > 0 {
        RunTarget::Views
    } else if file.shells@.len() > 0 {
        RunTarget::Shell
    } else {
        RunTarget::Nothing
    }
}

fn item_is_main_exec(item: &KernelItem) -> (r: bool)
    ensures
        r == item_is_main(*item),
{
    let f = match item {
        KernelItem::Function(f) => f,
        KernelItem::ComptimeFn(f) => f,
        _ => {
            return false;
        },
    };
    if !str_eq(f.name.as_str(), "main") || f.params.len() != 0 {
        return false;
    }
    match &f.return_type {
        Some(Type::I32) => true,
        Some(Type::I64) => true,
        Some(Type::F64) => true,
        Some(Type::Bool) => true,
        _ => false,
    }
}

/// Decides what `bunker run` starts for a file; see `run_target_of`.
pub fn run_target(file: &File) -> (r: RunTarget)
    ensures
        r == run_target_of(*file),
{
    for k in 0..file.kernels.len()
        invariant
            forall|k2: int, j: int|
                0 <= k2 < k && 0 <= j < file.kernels@[k2].items@.len()
                    ==> !item_is_main(#[trigger] file.kernels@[k2].items@[j]),
    {
        let items = &file.kernels[k].items;
        for j in 0..items.len()
            invariant
                k < file.kernels@.len(),
                items == file.kernels@[k as int].items,
                forall|k2: int, j2: int|
                    0 <= k2 < k && 0 <= j2 < file.kernels@[k2].items@.len()
                        ==> !item_is_main(#[trigger] file.kernels@[k2].items@[j2]),
                forall|j2: int| 0 <= j2 < j ==> !item_is_main(#[trigger] items@[j2]),
        {
            if item_is_main_exec(&items[j]) {
                assert(item_is_main(file.kernels@[k as int].items@[j as int]));
                return RunTarget::KernelMain;
            }
        }
    }
    if file.views.len() > 0 {
        RunTarget::Views
    } else if file.shells.len() > 0 {
        RunTarget::Shell
    } else {
        RunTarget::Nothing
    }
}

// ====================
// LAWS
// ====================

proof fn lemma_last_answering_answers(sigs: Seq<KernelSigView>, kernel: Option<Seq<char>>, func: Seq<char>)
    ensures
        last_answering(sigs, kernel, func) matches Some(i) ==> 0 <= i < sigs.len() && sig_answers(sigs[i], kernel, func),
    decreases sigs.len(),
{
    if sigs.len() > 0 {
        lemma_last_answering_answers(sigs.drop_last(), kernel, func);
    }
}

proof fn lemma_no_unknown_arg(params: Seq<(String, Type)>, args: Seq<(String, Expr)>, i: int)
    requires
        0 <= i,
        first_unknown_from(params, args, i) is None,
    ensures
        forall|b: int| i <= b < args.len() ==> is_param(params, (#[trigger] args[b]).0@),
    decreases args.len() - i,
{
    if i < args.len() {
        lemma_no_unknown_arg(params, args, i + 1);
    }
}

/// A `use` that resolves calls the function it names, in the kernel it
/// names where it names one, and every argument it passes names one of
/// that function's parameters.
pub proof fn lemma_use_calls_what_it_names(file: File, path: Seq<String>, args: Seq<(String, Expr)>)
    requires
        use_target(file, path, args) is Ok,
    ensures
        path.len() > 0,
        use_target(file, path, args)->Ok_0.func@ == path.last()@,
        path.len() >= 2 ==> use_target(file, path, args)->Ok_0.kernel@ == path[0]@,
        forall|b: int| 0 <= b < args.len() ==> is_param(use_target(file, path, args)->Ok_0.params, (#[trigger] args[b]).0@),
{
    let kernel = if path.len() >= 2 { Some(path[0]@) } else { None };
    lemma_last_answering_answers(kernels_sigs(file.kernels@), kernel, path.last()@);
    let sig = use_target(file, path, args)->Ok_0;
    lemma_no_unknown_arg(sig.params, args, 0);
}

proof fn lemma_last_handler_matches(hs: Seq<MessageHandler>, message: Seq<char>)
    ensures
        last_handler(hs, message) matches Some(h) ==> 0 <= h < hs.len() && hs[h].message@ == message,
    decreases hs.len(),
{
    if hs.len() > 0 {
        lemma_last_handler_matches(hs.drop_last(), message);
    }
}

proof fn lemma_last_agent_matches(agents: Seq<Agent>, name: Seq<char>)
    ensures
        last_agent(agents, name) matches Some(a) ==> 0 <= a < agents.len() && agents[a].name@ == name,
    decreases agents.len(),
{
    if agents.len() > 0 {
        lemma_last_agent_matches(agents.drop_last(), name);
    }
}

/// A run starts with a handler of the entry message, on an agent whose
/// name is the requested one (after its last `.`) where one is requested,
/// and which is the last agent of that name in the shell.
pub proof fn lemma_entry_point_handles_message(shell: Shell, options: RunOptions)
    requires
        entry_point(shell, options) is Ok,
    ensures
        ({
            let (a, h) = entry_point(shell, options)->Ok_0;
            &&& 0 <= a < shell.agents@.len()
            &&& 0 <= h < shell.agents@[a].handlers@.len()
            &&& shell.agents@[a].handlers@[h].message@ == options.entry_message@
            &&& forall|j: int| a < j < shell.agents@.len() ==> (#[trigger] shell.agents@[j]).name@ != shell.agents@[a].name@
            &&& (options.entry_agent matches Some(agent) ==> shell.agents@[a].name@ == after_last_dot(agent@))
        }),
{
    let name = entry_agent(shell, options)->Ok_0;
    lemma_last_agent_matches(shell.agents@, name);
    let a = last_agent(shell.agents@, name)->0;
    lemma_last_handler_matches(shell.agents@[a].handlers@, options.entry_message@);
    lemma_last_agent_is_last(shell.agents@, name);
}

proof fn lemma_last_agent_is_last(agents: Seq<Agent>, name: Seq<char>)
    ensures
        last_agent(agents, name) matches Some(a) ==> forall|j: int| a < j < agents.len() ==> (#[trigger] agents[j]).name@ != name,
    decreases agents.len(),
{
    if agents.len() > 0 {
        lemma_last_agent_is_last(agents.drop_last(), name);
        lemma_last_agent_matches(agents.drop_last(), name);
        if agents.last().name@ != name {
            if let Some(a) = last_agent(agents, name) {
                assert forall|j: int| a < j < agents.len() implies (#[trigger] agents[j]).name@ != name by {
                    if j < agents.len() - 1 {
                        assert(agents.drop_last()[j] == agents[j]);
                    }
                }
            }
        }
    }
}

} // verus!
