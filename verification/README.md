# dioscript

DioScript is a small scripting language for generating web elements. This
crate holds its parser and its interpreter, each function with a contract
that Verus proves.

Numbers are 64-bit integers: a literal with a fractional part is refused,
`/` and `%` truncate toward zero, and a result that does not fit is the error
`NumberOverflow`.

- `src/grammar.rs`, `src/parser.rs`, `src/report.rs`: the grammar as spec
  functions over characters, the parser that follows it, and the messages of
  a failed parse.
- `src/semantics.rs`: the runtime's state and the evaluation of scripts as
  spec functions; `src/runtime.rs`, `src/interp.rs`, `src/library.rs`,
  `src/ops.rs`: the interpreter, proved equal to that model.
- `src/laws.rs`, `src/depth.rs`: properties that hold across operations
  (reads after writes, fresh ids, balanced scopes, parser guarantees).
- `src/shell.rs`: what each line typed into the interactive shell does.
- `src/host.rs`: functions of the host program that scripts can call. A
  program implements `HostFunctions` (stating in `host_result` what each of
  its functions returns), builds its executor with `Executor::with_host`, and
  names the functions in a module with `ModuleGenerator::insert_host_function`
  before binding the module with `Runtime::bind_module`.
- `app/`: the `ds` command line (build, run, interactive shell).
