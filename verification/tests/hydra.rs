use forge_paint::assets::{MaterialAsset, MaterialInputs, MaterialKind};
use forge_paint::hydra_view::{projection_entries, DomeEnv, HydraView};
use forge_paint::lights::{GpuLight, Light};
use forge_paint::material_graph::{MaterialNode, TextureNode};
use forge_paint::material_session::{binding_line, bindings_caption, MaterialSession};
use forge_paint::paint::composite::pipeline_label;
use forge_paint::paint::layer::BlendMode;
use forge_paint::renderer::{entry_label, RendererChoice, RendererMode};
use forge_paint::single::{Pair, Single, Triple};

fn single(x: f32) -> Single {
    Single { bits: x.to_bits() }
}

fn triple(x: f32, y: f32, z: f32) -> Triple {
    Triple { x: single(x), y: single(y), z: single(z) }
}

#[test]
fn lights_are_packed() {
    let mut spot = Light::new_spot();
    assert_eq!(spot.heading(2), "#2 Spot");
    assert_eq!(spot.position, triple(0.0, 2.0, 2.0));
    assert_eq!(spot.direction, triple(0.0, -1.0, -1.0));
    assert_eq!(Light::new_directional().color, triple(1.0, 1.0, 1.0));
    let packed = GpuLight::from_light(&spot, triple(0.0, -1.0, 0.0), single(0.9), single(0.8));
    assert_eq!(packed.direction_type.w, single(1.0));
    assert_eq!(packed.position_enabled.w, single(1.0));
    assert_eq!(packed.cone.y, single(0.8));
    spot.enabled = false;
    assert_eq!(spot.heading(2), "#2 Spot — disabled");
    let off = GpuLight::from_light(&spot, triple(0.0, -1.0, 0.0), single(0.9), single(0.8));
    assert_eq!(off.position_enabled.w, single(0.0));
    assert_ne!(packed, off);
}

#[test]
fn lights_and_sky_are_told_once() {
    let mut view = HydraView::new("/s.usda");
    let light =
        GpuLight::from_light(&Light::new_directional(), triple(0.0, 1.0, 0.0), single(1.0), single(1.0));
    assert!(view.wants_user_lights(&vec![light]));
    view.note_user_lights(vec![light]);
    assert!(!view.wants_user_lights(&vec![light]));
    let mut odd = light;
    odd.cone.x = single(f32::NAN);
    assert!(view.wants_user_lights(&vec![odd]));
    view.note_user_lights(vec![odd]);
    assert!(!view.wants_user_lights(&vec![odd]));
    assert!(view.wants_user_lights(&vec![]));
    let dome = DomeEnv {
        path: "/sky.hdr".to_string(),
        intensity: single(1.0),
        exposure_stops: single(0.0),
        rotation_y_radians: single(0.5),
    };
    assert!(!view.wants_environment(None));
    assert!(view.wants_environment(Some(&dome)));
    view.note_environment(Some(&dome));
    assert!(!view.wants_environment(Some(&dome)));
    assert!(view.wants_environment(None));
}

#[test]
fn materials_on_prims_are_told_once() {
    let mut view = HydraView::new("/s.usda");
    let prims = vec!["/a".to_string()];
    assert!(view.wants_external_material_on_prims("/m.usda", "/Mat", &prims));
    view.note_external_material_on_prims("/m.usda", "/Mat", &prims);
    assert!(!view.wants_external_material_on_prims("/m.usda", "/Mat", &prims));
    assert!(view.wants_external_material_on_prims("/m.usda", "/Mat", &vec![]));
    assert!(view.wants_external_material("/m.usda", "/Mat"));
    view.note_external_material("/m.usda", "/Mat");
    assert!(!view.wants_external_material("/m.usda", "/Mat"));
    assert!(!view.wants_external_material_on_prims("/m.usda", "/Mat", &vec![]));
    assert!(view.wants_external_material_on_prims("/m.usda", "/Mat", &prims));
}

#[test]
fn projections_have_five_entries() {
    let m = projection_entries(single(2.0), single(3.0), single(4.0), single(5.0));
    let values: Vec<f32> = m.iter().map(|x| f32::from_bits(x.bits)).collect();
    assert_eq!(
        values,
        vec![2.0, 0.0, 0.0, 0.0, 0.0, 3.0, 0.0, 0.0, 0.0, 0.0, 4.0, -1.0, 0.0, 0.0, 5.0, 0.0]
    );
}

#[test]
fn nodes_say_what_they_are() {
    let shader = MaterialNode::Shader { binding_id: 1 };
    let image = MaterialNode::Texture(TextureNode::default());
    assert!(shader.has_body() && !image.has_body());
    assert_eq!((shader.output_label(), image.output_label()), ("Surface", "RGB"));
    assert_eq!((shader.inputs(), image.inputs()), (10, 0));
}

#[test]
fn renderers_have_names() {
    assert_eq!(entry_label("__wgpu"), "wgpu painter");
    assert_eq!(entry_label("HdStormRendererPlugin"), "Storm");
    assert_eq!(entry_label("Other"), "Other");
    let choice = RendererChoice { mode: RendererMode::Hydra, delegate: None };
    assert!(choice.storm_notice("HdStormRendererPlugin"));
    assert!(!choice.storm_notice("Other"));
    let labels: Vec<&str> = BlendMode::ALL.iter().map(|m| pipeline_label(*m)).collect();
    assert!(labels.iter().all(|l| !l.is_empty()));
}

#[test]
fn library_materials_start_unassigned() {
    let mut session = MaterialSession::new();
    let asset = MaterialAsset {
        name: "steel".to_string(),
        source: "/m/steel.usda".to_string(),
        prim_path: String::new(),
        kind: MaterialKind::MaterialX,
        preview_inputs: MaterialInputs::default(),
    };
    let moved = Pair { u: Single { bits: 0 }, v: Single { bits: 0 } };
    session.add_from_library(&asset, MaterialInputs::default(), moved);
    assert_eq!(session.bindings.len(), 1);
    assert!(!session.bindings[0].assigned);
    assert_eq!(session.bindings[0].source, "/m/steel.usda");
    assert_eq!(binding_line(&session.bindings[0]), "· steel → stage-wide");
    session.bindings[0].target_prims = vec!["/a".to_string(), "/b".to_string()];
    assert_eq!(binding_line(&session.bindings[0]), "· steel → 2 prim(s)");
    assert_eq!(bindings_caption(1), "1 binding(s) active");
    session.clear_bindings();
    assert!(session.bindings.is_empty());
}
