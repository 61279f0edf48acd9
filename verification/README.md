# bunker_cli

The front half of the Bunker language compiler, written in Verus: the parts
of the compiler that decide things about programs, each with a contract
that Verus proves.

## Layout

- `src/ast.rs` — the syntax tree, with a mathematical view of expressions,
  statements and blocks (lists become sequences) and verified copies.
- `src/text.rs` — text operations specified over `Seq<char>`: search,
  trimming, line splitting, decimal numbers, UTF-8 lengths.
- `src/assoc.rs` — association lists read as maps (the last entry of a
  name counts), used wherever the compiler keys tables by name.
- `src/builtins.rs` — the builtin function tables of the type checker and
  the runtime, and the result types of the generic builtins.
- `src/comptime.rs` — the compile-time evaluator of `comptime fn` calls,
  proved against a big-step semantics (`eval_expr`, `eval_block_cf`, ...)
  with a depth limit of 100 nested blocks and 100000 loop iterations.
- `src/comptime_fold.rs` — the pass that replaces constant calls of
  comptime functions by their values, and the proof that one pass reaches a
  fixpoint.
- `src/codegen.rs` — struct and agent-state layouts, machine types, and
  the types given to expressions during code generation.
- `src/kernel_runtime.rs` — the hash of the kernel runtime's map keys and
  the return type of a file's entry point.
- `src/runtime_map.rs` — the kernel runtime's `HashMap<i64, i64>`: open
  addressing with linear probing and removal markers, specified slot by
  slot, with the map laws proved.
- `src/runtime_values.rs` — the kernel runtime's dynamic arrays and boxed
  results.
- `src/diagnostic.rs`, `src/diagnostic/` — structured diagnostics: where an
  error is in the source, its code and types, the repair hints, and the
  prompt text for AI repair loops.
- `src/smt.rs` — what contract verification does without a solver: the
  places a function touches, short renderings of expressions, `gcd`.
- `src/cli.rs` — command-line arguments.
- `src/self_host.rs` — the readiness report of the self-hosted compiler
  sources.
- `src/shell_runtime.rs` — the decisions of a run that need no kernel
  JIT: run options, what `bunker run` starts, where an assignment writes,
  which kernel function a `use` calls and the arguments it hands over, and
  which agent and handler a shell run starts with.
- `src/shell_values.rs` — values of a shell run: copies, reads, match
  pattern bindings, unary operators.
- `src/shell_vm.rs` — the message queue of a shell run: taking a message,
  binding the handler's parameters, writing the agent's state back.
- `src/shell_exec.rs` — running a handler: every statement and expression
  of the shell language, proved against a big-step semantics (`exec`,
  `eval`, `block_run`, ...) with fuel. What only the outside can give (the
  value of a kernel call, float arithmetic, the text of a float) comes as a
  list of replies; a run that needs one more stops and says what it needs,
  and the caller runs it again with the reply added.
- `app/` — the `bunker` command: files, JSON output, the CLI, and the loop
  of a shell run, which answers what the run asks for.
- `tests/` — tests of the library.

Floating-point values are carried as IEEE-754 bit patterns; confidences of
suggestions are in thousandths.
