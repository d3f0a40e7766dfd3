# actus

The back end and driver logic of the Actus compiler, verified with Verus.

Actus programs are verbs, structs, enums, roles and performances. This crate holds
the parts of the compiler that decide things, each with a contract that Verus proves:

- `ast`: the syntax tree, the built-in types and enums, the intrinsics.
- `semantic`: what semantic analysis hands to code generation (cleanup plans,
  generic instances, reachable performances) and type substitution.
- `codegen`: native layouts of structs and enums (plain and generic), the cleanup
  schedule and its validation, performance symbols and their ordering, the native
  calling convention, argument ordering, case payload bindings, the plans of case
  branches, loops and loop jumps, string data, linker command lines, and the checks
  that precede emission.
- `build_graph`: the metadata kept beside artifacts and when an artifact is stale.
- `configuration`, `target`: build profiles, entry contracts, linker conventions.
- `cli`: the command line: help, subcommand dispatch, option reading, entry checks,
  meta test programs and their result lines, and the decisions of a watch session.
- `fuzzing`: the inputs that the fuzz targets feed to the front end.

`app/` is the program around the library: it reads the command line, prints,
touches the file system, runs the linker and git, and emits the zero-return object with
Cranelift; building, running and checking programs stop where the front end (lexer, parser,
semantic analysis), which this crate does not hold, would take over.

Laws of the library are public proof functions whose names begin with `law_`.
