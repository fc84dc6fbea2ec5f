# forge_paint

The logic of a painter for USD meshes, as a verified library with a program around it.

- `src/` is the library. Every function states what it does in its contract, and Verus proves
  it. Numbers that a graphics card takes as single precision are held by their bit patterns
  (`single.rs`); paths are texts with `/` between their names (`paths.rs`).
  - Models: `obj_to_usd`, `gltf_to_usd`, `usda`, `mesh`, `tile_mesh`, `accel`.
  - Painting: `paint` (layers, brushes, masks, tiles), `pixels`, `export`, `uv_view`, `tools`.
  - Baking: `bake`, `bake_cli`, `bake_panel`.
  - Materials: `material_library`, `material_graph`, `material_session`, `bindings`,
    `stage_textures`, `stage_materials`, `preview_material`.
  - The view: `camera`, `lights`, `env`, `renderer`, `hydra_view`, `hydra_startup`, `selection`.
  - The program: `asset_browser`, `assets`, `exr_import`, `status`, `runtime_env`.
  - Shared: `text`, `paths`, `order`, `single`, `counting`.
- `tests/` runs the library on examples.
- `app/` is the program: files, windows, the graphics card, and floating-point arithmetic.

What the library takes on trust of other crates stands in `material_graph.rs` (the graph
container of `egui-snarl`), `pixels.rs` (resampling by `image`), `mesh.rs` (bytes by
`bytemuck`) and `text.rs` (`String::push`).
