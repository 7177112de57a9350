# chili

A verified core of the front end of the chili compiler, written in Verus.

`src/` is the library; every function in it is verified against its contract:

- `hir`, `pretty_spec`, `pretty`: the high-level intermediate representation
  and its pretty printer. `pretty_spec` says, as spec functions, exactly which
  text printing a node, a function or a whole cache writes; `pretty` prints and
  checks whether a tree can be printed at all.
- `call`: checking a call against its callee's function type: matching
  arguments to parameters, variadic arguments (individual or spread),
  defaults, the caller location of `track_caller` functions, and the
  diagnostics of each error. `resolve_call` states the result.
- `ast`, `import`, `astgen`: module exports, glob-import expansion and the
  import of intrinsic modules.
- `parse_spec`, `parse`: the parser of function prototypes and bodies over a
  token sequence, with a spec parser as its contract.
- `check`, `diagnostic`, `span`, `text`: session state, diagnostics, spans and
  decimal text.

`app/` holds the edges: writing the printed HIR to `hir.pretty.chili` and
emitting diagnostics to the terminal with codespan-reporting.

Not included: the driver that checks a whole program (it checks each
module's imports and top-level bindings, substitutes the inferred types and
prints every binding with its type). It only runs the checking of single
imports and bindings and the type-inference engine, which are not part of
this crate, and then prints; there is no decision of its own to verify. The
helper that adds the import of the standard library module is left out for
the same reason: the module's description comes from code outside this
crate.
