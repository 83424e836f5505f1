# larql

A verified library for reading models, keeping key-value caches and serving
indexes.  Every function under `src/` is proved against its contract with
Verus, but for the few that call another crate or the standard library: what
those say of the call is taken on trust, and their comments name it.

- `src/gguf/` reads GGUF files: headers, split files, configurations, tensors,
  and the orientation of matrices.
- `src/vision/` reads the vision parts of a model out of safetensors files.
- `src/models/` describes model families and makes small made-up models.
- `src/quant/` decodes quantised blocks and gives the pairs of a rotation.
- `src/kv/` holds the cache engines, their windows, and generation.
- `src/server/` holds the rules of the server: extract jobs, slots, queries,
  inserts and searches.
- `src/text.rs`, `src/table.rs`, `src/tensor.rs`, `src/path.rs` and
  `src/layout.rs` are shared by the others.

Floating-point numbers are carried as their bit patterns.  `app/` reads files,
talks to other machines and computes with floating point; `tests/` runs the
library from outside.
