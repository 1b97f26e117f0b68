# proc_macro_flow

Plumbing for procedural macros that read attribute grammars, in three stages:

- **extraction** reads a syntax node into a tree of `Extraction`s - a value, the reasons recorded
  against it, or both - and never judges what it carries;
- **processing** narrows a tree into what generation consumes, carrying every reason upward;
- **generation** builds the output item, and its vacant *stub* whenever the real one cannot be
  built, so a failure never leaves use sites reporting a missing item on top of the real error.

The library in `src/` is verified with Verus. Its contracts state, among other things, that the
render walk reports every reason in a tree in source order, that a pipeline always emits its stub
beside its errors, that a failed child costs only itself, that the key walk dispatches each name
at most once and reports every unknown or repeated key, and that each derive's reading of an item
is exactly what its specification says, message for message and with where each complaint
points. Where they point is stated too for the render walk, for every error a pipeline emits, and
for the key walk and the list reader a derived grammar calls.

## Layout

- `src/extractor.rs`, `processor.rs`, `generator.rs`, `render.rs` - the three stages, the render
  walk, and `Pipeline`, which runs them as one.
- `src/vocab/` - closed name sets, the key walk, flags, leaves, list and variant readers.
- `src/meta.rs`, `node.rs`, `resolution.rs` - shapes, the reflection table, deferred tokens.
- `src/derive/` - what each derive reads off the item it is applied to: plain models of the
  item, and the plans the generated code is written from.
- `src/base/` - the framework's own first pipeline, over a struct, its fields and their helper
  attributes.
- `src/tokens.rs`, `src/case.rs` - the calls into `syn`, `proc-macro2` and `heck`, each with the
  contract the library relies on.
- `app/` - the macro boundary: parsing with `syn` into the models, and writing the generated code
  with `quote`.
- `tests/` - the library exercised on concrete input.
