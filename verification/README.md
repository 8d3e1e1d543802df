# fractal-core

The verified core of Fractron 9000, an interactive fractal flame editor.

- `src/` is the library, written in Verus: the variation catalogue and its
  names, palette grid indexing, the `.f9k` persistence rules (format
  version, `#RRGGBB` colors, palette references), scanning `.flame` files
  and reading their XML (through quick-xml) into fields, picking a flame by name, the GPU buffer
  and dispatch layout, the editor's branch, variation-slot and drag rules,
  and command-line parsing.  Each public function carries a contract;
  properties that span several functions are public proof functions.
- `tests/` runs the library on concrete values.
- `app/` is the application around it: the egui window, the wgpu renderer
  and its shaders, floating-point geometry, XML attribute values and JSON
  through serde.  It calls the library for every rule above.
