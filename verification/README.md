# ic_hir

The high-level intermediate representation (HIR) of an IDL compiler, with
the parts of lowering that work on it: constant evaluation with C-like
integer promotions, initializer lists, annotation decoding, definition
bookkeeping and the rules for names declared more than once, redirection
of forward declarations, dependency collection and folding.

Every function of `src/` is verified with Verus against the contract in its
header, but three thin wrappers of std (`char::from_u32`,
`str::to_ascii_lowercase`, `char::to_string`), whose contracts restate what
std documents; the laws of the library are public proof functions.

Layout of `src/`:

- `hir.rs`: definitions, types and constant values, with the view of a
  constant value that contracts speak of.
- `ctx.rs`: the context that owns the definitions, lookup through typedefs,
  names and integer and string values of constants.
- `eval/`: constant evaluation: values and integer ranks, operators, casts,
  expressions, evaluation against a declared type and initializer lists,
  and the laws of arithmetic and promotion.
- `annotation.rs`, `annotations.rs`: decoding applied annotations into
  typed values.
- `deps.rs`: the definitions a definition refers to.
- `graph.rs`: the resolved graph and iteration in definition order.
- `fold.rs`: rebuilding HIR nodes through a folder.
- `lower/`: collection of names into placeholder definitions with the
  name table and duplicate errors, lowering of written types, resolution of
  value type headers and bodies, the definition registry and duplicate
  rules, parent checks, scopes, definition building, evaluation of struct
  bounds, constants, struct initializers and enums, flag numbering, and
  redirection of forward declarations.
- `interp.rs`: negation and complement of constant values.
- `diag.rs`, `text.rs`: diagnostics and text helpers.

The tests under `tests/` exercise the library from outside.
