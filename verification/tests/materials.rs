use forge_paint::asset_browser::{shown_materials, AssetBrowser, Located};
use forge_paint::assets::{MaterialAsset, MaterialInputs, MaterialKind, Tab};
use forge_paint::bindings::{
    push_bindings, HydraCommand, MaterialBindingInstance, MaterialBindingSnapshot,
};
use forge_paint::material_graph::{
    assign_label, pin_at, pin_index, GraphAction, MaterialGraph, MaterialNode, ShaderPin,
    COLUMN_STEP, ROW_STEP,
};
use forge_paint::material_library::{
    classify_material_file, discover_materials, material_dirs, read_material_inputs, scan_material,
    MaterialNumbers,
};
use forge_paint::material_session::{
    find_source, stage_material_file, MaterialSession, Restored, SourcePath,
};
use forge_paint::single::{Pair, Single};
use std::collections::HashMap;

fn strings(list: &[&str]) -> Vec<String> {
    list.iter().map(|s| s.to_string()).collect()
}

fn at(u: f32, v: f32) -> Pair {
    Pair { u: Single { bits: u.to_bits() }, v: Single { bits: v.to_bits() } }
}

fn here() -> Pair {
    at(0.0, 0.0)
}

fn place(graph: &MaterialGraph, node: usize) -> (f32, f32) {
    let pos = graph.snarl.get_node_info(egui_snarl::NodeId(node)).unwrap().pos;
    (pos.x, pos.y)
}

#[test]
fn shader_nodes_fill_rows() {
    let mut graph = MaterialGraph::new();
    assert_eq!(graph.next_node_pos, at(40.0, 40.0));
    let mut places = Vec::new();
    for id in 0..9u64 {
        let (u, v) = (graph.next_node_pos.u.bits, graph.next_node_pos.v.bits);
        let (u, v) = (f32::from_bits(u), f32::from_bits(v));
        let node = graph.spawn_shader_node(id, at(u + COLUMN_STEP as f32, v + ROW_STEP as f32));
        places.push(place(&graph, node));
    }
    assert_eq!(
        places,
        vec![
            (40.0, 40.0),
            (260.0, 40.0),
            (480.0, 40.0),
            (700.0, 40.0),
            (40.0, 300.0),
            (260.0, 300.0),
            (480.0, 300.0),
            (700.0, 300.0),
            (40.0, 560.0)
        ]
    );
    let image = graph.spawn_texture_node_at("/t/a.png", at(-3.5, 0.25));
    assert_eq!(place(&graph, image), (-3.5, 0.25));
    assert_eq!(graph.next_node_pos, at(260.0, 560.0));
}

fn numbers(list: &[String]) -> Vec<Option<Single>> {
    list.iter()
        .map(|s| s.trim().parse::<f32>().ok().map(|x| Single { bits: x.to_bits() }))
        .collect()
}

fn inputs_of(text: &str) -> MaterialInputs {
    let scan = scan_material(text);
    read_material_inputs(&MaterialNumbers {
        diffuse_color: scan.diffuse_color.iter().map(|l| numbers(l)).collect(),
        metallic: numbers(&scan.metallic),
        roughness: numbers(&scan.roughness),
        opacity: numbers(&scan.opacity),
        clearcoat: numbers(&scan.clearcoat),
        clearcoat_roughness: numbers(&scan.clearcoat_roughness),
        emission_color: scan.emission_color.iter().map(|l| numbers(l)).collect(),
        emission_intensity: numbers(&scan.emission_intensity),
        is_glass: scan.is_glass,
    })
}

fn wires(graph: &MaterialGraph) -> Vec<(usize, usize, usize)> {
    let mut list: Vec<(usize, usize, usize)> =
        graph.snarl.wires().map(|(o, i)| (o.node.0, i.node.0, i.input)).collect();
    list.sort();
    list
}

#[test]
fn graphs_have_nodes_and_wires() {
    let mut graph = MaterialGraph::new();
    let shader = graph.spawn_shader_node(7, here());
    let a = graph.spawn_texture_node_at("/t/a.png", here());
    let b = graph.spawn_texture_node_at("/t/b.png", here());
    let at = graph.connect_texture_to_shader(a, shader, ShaderPin::Roughness);
    assert_eq!(at, pin_index(ShaderPin::Roughness));
    assert_eq!(wires(&graph), vec![(a, shader, at)]);
    graph.connect(b, 0, shader, at);
    assert_eq!(wires(&graph), vec![(b, shader, at)]);
    assert!(matches!(graph.snarl.get_node(egui_snarl::NodeId(a)), Some(MaterialNode::Texture(_))));
    graph.remove(b);
    assert!(wires(&graph).is_empty());
    graph.remove_shader_node(7);
    assert_eq!(graph.snarl.node_ids().count(), 1);
}

#[test]
fn pins_have_places() {
    for (i, pin) in ShaderPin::ALL.iter().enumerate() {
        assert_eq!(pin_index(*pin), i);
        assert_eq!(pin_at(i), *pin);
    }
    let names = MaterialKind::DlPrincipled.input_names();
    assert_eq!(ShaderPin::DiffuseColor.shader_input_name(&names), Some("i_color"));
    let names = MaterialKind::UsdPreviewSurface.input_names();
    assert_eq!(ShaderPin::EmissionIntensity.shader_input_name(&names), None);
    assert!(assign_label(2).contains('2'));
}

#[test]
fn sessions_give_each_binding_a_number() {
    let mut session = MaterialSession::new();
    let inputs = MaterialInputs::default();
    let targets = strings(&["/root/a"]);
    let first = session.add("/m/a.usda", "", MaterialKind::Other, inputs, &targets, true, here());
    let second = session.add("/m/b.usda", "", MaterialKind::Other, inputs, &vec![], false, here());
    assert_ne!(first, second);
    let ids: Vec<u64> = session.bindings.iter().map(|b| b.id).collect();
    assert_ne!(ids[0], ids[1]);
    let node = MaterialNode::Shader { binding_id: ids[0] };
    assert!(session.title(&node).contains('a'));
    session.apply(GraphAction::AssignToSelection(ids[1]), &strings(&["/root/b"]));
    assert!(session.bindings[1].assigned);
    assert_eq!(session.bindings[1].target_prims, strings(&["/root/b"]));
    session.apply(GraphAction::AssignToStage(ids[1]), &strings(&["/root/b"]));
    assert!(session.bindings[1].target_prims.is_empty());
    session.apply(GraphAction::Unassign(ids[1]), &vec![]);
    assert!(!session.bindings[1].assigned);
    session.apply(GraphAction::Remove(ids[0]), &vec![]);
    assert_eq!(session.bindings.len(), 1);
    assert!(session.binding_for(ids[0]).is_none());
}

#[test]
fn saved_bindings_come_back() {
    let mut session = MaterialSession::new();
    let inputs = MaterialInputs::default();
    session.add("/m/a.usda", "/mat", MaterialKind::Other, inputs, &strings(&["/r"]), true, here());
    let saved = session.bound_materials();
    assert_eq!(saved.len(), 1);
    let mut other = MaterialSession::new();
    let asset = MaterialAsset {
        name: "a".to_string(),
        source: "/m/a.usda".to_string(),
        prim_path: "/mat".to_string(),
        kind: MaterialKind::Other,
        preview_inputs: inputs,
    };
    let end = other.restore(&saved[0], Some(&asset), true, "/gen", here());
    assert!(matches!(end, Restored::Added));
    assert_eq!(other.bound_materials()[0].target_prims, strings(&["/r"]));
    let end = other.restore(&saved[0], None, false, "/gen", here());
    assert!(matches!(end, Restored::Missing));
    other.reset();
    assert!(other.bindings.is_empty());
}

#[test]
fn stage_materials_bring_their_textures() {
    let mut session = MaterialSession::new();
    let textures = vec![
        ("/t/a.png".to_string(), ShaderPin::DiffuseColor),
        ("/t/n.png".to_string(), ShaderPin::Normal),
    ];
    let places = vec![at(40.0, 330.0), at(40.0, 416.0)];
    let (shader, nodes) =
        session.add_stage_material("/g/m.usda", &strings(&["/r"]), &textures, here(), &places);
    assert_eq!(nodes.len(), 2);
    assert_eq!(place(&session.graph, shader), (40.0, 40.0));
    assert_eq!(place(&session.graph, nodes[1]), (40.0, 416.0));
    assert_eq!(
        wires(&session.graph),
        vec![
            (nodes[0], shader, pin_index(ShaderPin::DiffuseColor)),
            (nodes[1], shader, pin_index(ShaderPin::Normal))
        ]
    );
    assert!(stage_material_file(3).ends_with(".usda"));
}

#[test]
fn sources_are_the_same_file() {
    let known = vec![
        SourcePath { path: "/m/a.usda".to_string(), real: Some("/real/a.usda".to_string()) },
        SourcePath { path: "/m/b.usda".to_string(), real: None },
    ];
    let by_path = SourcePath { path: "/m/b.usda".to_string(), real: None };
    let by_file = SourcePath { path: "/x".to_string(), real: Some("/real/a.usda".to_string()) };
    let none = SourcePath { path: "/x".to_string(), real: Some("/real/c.usda".to_string()) };
    assert_eq!(find_source(&known, &by_path), Some(1));
    assert_eq!(find_source(&known, &by_file), Some(0));
    assert_eq!(find_source(&known, &none), None);
}

#[test]
fn the_renderer_is_told_what_changed() {
    let mut bindings = vec![MaterialBindingInstance {
        id: 3,
        source: "/m/a.usda".to_string(),
        prim_path: String::new(),
        kind: MaterialKind::UsdPreviewSurface,
        inputs: MaterialInputs::default(),
        target_prims: strings(&["/r"]),
        assigned: true,
    }];
    let mut told: HashMap<u64, MaterialBindingSnapshot> = HashMap::new();
    let first = push_bindings(&bindings, &mut told);
    assert!(matches!(first[0], HydraCommand::Apply { id: 3, .. }));
    assert!(first.len() > 1);
    assert!(push_bindings(&bindings, &mut told).is_empty());
    bindings[0].source = "/m//./a.usda".to_string();
    assert!(push_bindings(&bindings, &mut told).is_empty());
    bindings[0].inputs.roughness = Single { bits: 0.125f32.to_bits() };
    let changed = push_bindings(&bindings, &mut told);
    assert!(changed
        .iter()
        .any(|c| matches!(c, HydraCommand::SetNumber { id: 3, input: "roughness", .. })));
    bindings[0].assigned = false;
    let removed = push_bindings(&bindings, &mut told);
    assert!(matches!(removed[..], [HydraCommand::Remove { id: 3 }]));
    assert!(push_bindings(&bindings, &mut told).is_empty());
}

#[test]
fn material_files_are_classified() {
    assert_eq!(classify_material_file("lib/gold_MaterialX.usda", None), MaterialKind::MaterialX);
    assert_eq!(
        classify_material_file("a.usda", Some("uniform token info:id = \"UsdPreviewSurface\"")),
        MaterialKind::UsdPreviewSurface
    );
    assert_eq!(classify_material_file("a.usda", Some("nothing")), MaterialKind::Other);
    assert_eq!(classify_material_file("a.usda", None), MaterialKind::Other);
    for kind in MaterialKind::ALL {
        assert!(!kind.label().is_empty());
    }
}

#[test]
fn values_are_read_from_a_material() {
    let inputs = inputs_of(
        "color3f inputs:diffuseColor = (0.25, 0.5, 0.75)\nfloat inputs:roughness = 0.125\n",
    );
    let c = inputs.diffuse_color;
    assert_eq!([c.x, c.y, c.z].map(|x| f32::from_bits(x.bits)), [0.25, 0.5, 0.75]);
    assert_eq!(f32::from_bits(inputs.roughness.bits), 0.125);
    assert!(inputs.metallic.equals(MaterialInputs::default().metallic));
    assert!(inputs_of("").equals(MaterialInputs::default()));
}

#[test]
fn the_library_is_the_first_folder_with_materials() {
    assert_eq!(
        material_dirs("/w", Some("/o/b/fp"), Some("/mine")),
        strings(&[
            "/w/assets/materials",
            "/o/b/assets/materials",
            "/o/assets/materials",
            "/assets/materials",
            "/mine"
        ])
    );
    let folders = vec![
        strings(&["/a/readme.md"]),
        strings(&["/b/steel.usda", "/b/notes.txt", "/b/brass.USD"]),
        strings(&["/c/x.usda"]),
    ];
    let found = discover_materials(&folders);
    assert_eq!(
        found,
        vec![
            ("brass".to_string(), "/b/brass.USD".to_string()),
            ("steel".to_string(), "/b/steel.usda".to_string())
        ]
    );
    assert!(discover_materials(&vec![strings(&["/a/readme.md"])]).is_empty());
}

#[test]
fn images_are_imported_once() {
    let mut browser = AssetBrowser::default();
    assert!(browser.active_tab == Tab::Textures);
    let file = Located { path: "/t/a.png", target: "/real/a.png" };
    assert_eq!(browser.texture_index_for_source(&file, &vec![]), None);
    assert_eq!(browser.import_texture("/t/a.png", 1, 1, vec![1, 2, 3, 4]), 0);
    assert_eq!(browser.textures[0].name, "a");
    assert_eq!(browser.texture_index_for_source(&file, &vec![None]), Some(0));
    let link = Located { path: "/t/link.png", target: "/real/a.png" };
    assert_eq!(
        browser.texture_index_for_source(&link, &vec![Some("/real/a.png".to_string())]),
        Some(0)
    );
    assert_eq!(browser.texture_index_for_source(&link, &vec![None]), None);
}

#[test]
fn hidden_kinds_are_not_shown() {
    let asset = |kind: MaterialKind| MaterialAsset {
        name: String::new(),
        source: String::new(),
        prim_path: String::new(),
        kind,
        preview_inputs: MaterialInputs::default(),
    };
    let list = vec![
        asset(MaterialKind::Other),
        asset(MaterialKind::MaterialX),
        asset(MaterialKind::UsdPreviewSurface),
    ];
    assert_eq!(shown_materials(&list, [true, false, true, true]), vec![0, 2]);
    assert_eq!(shown_materials(&list, [true; 4]), vec![0, 1, 2]);
}
