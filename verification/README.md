# fusion

The verified core of the Fusion Wayland desktop: the parts of the compositor,
its plugin tooling and its widget toolkit that decide and compute, written in
Verus with their contracts proved.

- `src/` is the library. `value` and `lexical` read plugin configuration
  values; `button`, `anchor` and `color` hold widget state and styling;
  `batch` groups draw commands; `resource` keeps loaded resources and their
  ids (over `slotmap`); `input`, `compositor` and `ffi` hold the compositor's
  decisions on keys, focus, windows and values handed to plugins; `window`
  checks the surface size a window backend reports;
  `packaging` and `protocol` are the decisions of the two command-line tools.
- `tests/` runs the library on concrete values.
- `app/` is the ordinary Rust around it: the `fusionctl` and `cargo-fusion`
  tools (sockets, files, processes, archives) and the serde forms of the
  control messages.
