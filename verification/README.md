# c_ast

A typed C syntax tree in Verus: the nodes of a translation unit, the context
that owns them, and the questions that a translator asks of it.

- `src/` is the library. `ids`, `types`, `exprs`, `stmts`, `decls` and
  `attributes` define the nodes; `nodes`, `files` and `context` hold them.
  `resolve` looks through typedefs and casts, `purity` finds expressions
  without side effects, `locations` and `order` compare and sort places,
  `iterators` and `prune` walk the tree and drop what nothing asks for, and
  `comments` hands out the comments of a file.
- `chain`, `paths` and `text` are helpers: following references to their end,
  comparing file paths, and writing numbers.
- `decl_map` and `attributes` say what is relied on of the `indexmap` crate.
- Public proof functions whose names begin with `law_` state what holds across
  functions.
- `app/` surrounds the library with paths, floating-point numbers, `Display`
  and shared comments.
