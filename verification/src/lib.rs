//! The logic of a USD texture painter: what it reads, decides and writes.

pub mod accel;
pub mod asset_browser;
pub mod assets;
pub mod bake;
pub mod bake_cli;
pub mod bake_panel;
pub mod bindings;
pub mod camera;
pub mod counting;
pub mod env;
pub mod export;
pub mod exr_import;
pub mod gltf_to_usd;
pub mod hydra_startup;
pub mod hydra_view;
pub mod lights;
pub mod lines;
pub mod material_graph;
pub mod material_library;
pub mod material_session;
pub mod mesh;
pub mod obj_to_usd;
pub mod order;
pub mod paint;
pub mod paths;
pub mod pixels;
pub mod preview_material;
pub mod preview_network;
pub mod renderer;
pub mod runtime_env;
pub mod selection;
pub mod single;
pub mod stage_materials;
pub mod stage_textures;
pub mod status;
pub mod text;
pub mod tile_mesh;
pub mod tools;
pub mod usda;
pub mod uv_view;
