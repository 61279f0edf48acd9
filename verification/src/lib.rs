pub mod assoc;
pub mod ast;
pub mod text;
pub mod builtins;
pub mod comptime;
pub mod comptime_fold;
pub mod diagnostic;
pub mod smt;
pub mod codegen;
pub mod cli;
pub mod shell_runtime;
pub mod self_host;
pub mod kernel_runtime;
pub mod runtime_map;
pub mod runtime_values;
pub mod shell_values;
pub mod shell_vm;
pub mod shell_exec;
pub mod shell_entry;
pub mod shell_replay;
pub mod laws;
