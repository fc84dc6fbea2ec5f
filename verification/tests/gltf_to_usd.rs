use forge_paint::gltf_to_usd::{
    convert_meshes, dedup_names, keep_winding, pick_scene, plan_node, visit_order,
    GltfConversionSummary, GltfError, GltfPrimitive, UsdMeshData, Visit,
};
use forge_paint::usda::{PairText, TripleText};

fn words(v: [f32; 3]) -> TripleText {
    TripleText { x: format!("{}", v[0]), y: format!("{}", v[1]), z: format!("{}", v[2]) }
}

fn vertex_normals(points: &[[f32; 3]], indices: &[u32]) -> Vec<[f32; 3]> {
    let mut acc = vec![glam::Vec3::ZERO; points.len()];
    for tri in indices.chunks_exact(3) {
        let p0 = glam::Vec3::from_array(points[tri[0] as usize]);
        let p1 = glam::Vec3::from_array(points[tri[1] as usize]);
        let p2 = glam::Vec3::from_array(points[tri[2] as usize]);
        let n = (p1 - p0).cross(p2 - p0);
        for i in tri {
            acc[*i as usize] += n;
        }
    }
    acc.into_iter().map(|n| n.normalize_or(glam::Vec3::Y).to_array()).collect()
}

fn convert(json: &str, buffers: &[Vec<u8>]) -> Result<(GltfConversionSummary, String), GltfError> {
    let document = gltf::Gltf::from_slice(json.as_bytes()).expect("glTF").document;
    let scene_at = pick_scene(
        document.default_scene().map(|s| s.index()),
        document.scenes().count(),
    )?;
    let scene = document.scenes().nth(scene_at).unwrap();
    let nodes: Vec<gltf::Node> = document.nodes().collect();
    let children: Vec<Vec<usize>> =
        nodes.iter().map(|n| n.children().map(|c| c.index()).collect()).collect();
    let roots: Vec<usize> = scene.nodes().map(|n| n.index()).collect();
    let visits = visit_order(&children, &roots).unwrap();
    let mut worlds: Vec<glam::Mat4> = Vec::new();
    let mut meshes = Vec::new();
    for visit in &visits {
        let node = &nodes[visit.node];
        let parent = visit.parent.map(|p| worlds[p]).unwrap_or(glam::Mat4::IDENTITY);
        let world = parent * glam::Mat4::from_cols_array_2d(&node.transform().matrix());
        worlds.push(world);
        let Some(mesh) = node.mesh() else { continue };
        let mut primitives = Vec::new();
        let mut points = Vec::new();
        for primitive in mesh.primitives() {
            let reader = primitive.reader(|b| Some(buffers[b.index()].as_slice()));
            let raw: Vec<[f32; 3]> = reader.read_positions().map(|i| i.collect()).unwrap_or_default();
            primitives.push(GltfPrimitive {
                triangles: primitive.mode() == gltf::mesh::Mode::Triangles,
                point_count: raw.len(),
                indices: reader.read_indices().map(|i| i.into_u32().collect()),
            });
            points.push(raw);
        }
        let name = node.name().or_else(|| mesh.name()).map(|s| s.to_string());
        for plan in plan_node(&primitives, name, None) {
            let primitive = mesh.primitives().nth(plan.primitive).unwrap();
            let reader = primitive.reader(|b| Some(buffers[b.index()].as_slice()));
            let baked: Vec<[f32; 3]> = points[plan.primitive]
                .iter()
                .map(|p| world.transform_point3(glam::Vec3::from_array(*p)).to_array())
                .collect();
            let normals: Vec<[f32; 3]> = match reader.read_normals() {
                Some(list) => list.collect(),
                None => vertex_normals(&baked, &plan.indices),
            };
            let uvs: Vec<[f32; 2]> = reader
                .read_tex_coords(0)
                .map(|list| list.into_f32().map(|uv| [uv[0], 1.0 - uv[1]]).collect())
                .unwrap_or_else(|| vec![[0.0, 0.0]; baked.len()]);
            meshes.push(UsdMeshData {
                name: plan.name.clone(),
                points: baked.into_iter().map(words).collect(),
                normals: normals.into_iter().map(words).collect(),
                uvs: uvs
                    .into_iter()
                    .map(|uv| PairText { u: format!("{}", uv[0]), v: format!("{}", uv[1]) })
                    .collect(),
                indices: keep_winding(&plan.indices, world.determinant() < 0.0),
            });
        }
    }
    convert_meshes(&meshes)
}

fn quad_buffer() -> Vec<u8> {
    let positions: [[f32; 3]; 4] =
        [[0.0, 0.0, 0.0], [1.0, 0.0, 0.0], [1.0, 1.0, 0.0], [0.0, 1.0, 0.0]];
    let uvs: [[f32; 2]; 4] = [[0.0, 1.0], [1.0, 1.0], [1.0, 0.0], [0.0, 0.0]];
    let indices: [u16; 6] = [0, 1, 2, 0, 2, 3];
    let mut bin = Vec::<u8>::new();
    for p in &positions {
        for c in p {
            bin.extend_from_slice(&c.to_le_bytes());
        }
    }
    for uv in &uvs {
        for c in uv {
            bin.extend_from_slice(&c.to_le_bytes());
        }
    }
    for i in &indices {
        bin.extend_from_slice(&i.to_le_bytes());
    }
    bin
}

fn quad_json(bytes: usize, nodes: &str, scenes: &str) -> String {
    format!(
        r#"{{
  "asset": {{"version": "2.0"}},
  "buffers": [{{"uri": "quad.bin", "byteLength": {bytes}}}],
  "bufferViews": [
    {{"buffer": 0, "byteOffset": 0, "byteLength": 48}},
    {{"buffer": 0, "byteOffset": 48, "byteLength": 32}},
    {{"buffer": 0, "byteOffset": 80, "byteLength": 12}}
  ],
  "accessors": [
    {{"bufferView": 0, "componentType": 5126, "count": 4, "type": "VEC3",
      "min": [0, 0, 0], "max": [1, 1, 0]}},
    {{"bufferView": 1, "componentType": 5126, "count": 4, "type": "VEC2"}},
    {{"bufferView": 2, "componentType": 5123, "count": 6, "type": "SCALAR"}}
  ],
  "meshes": [{{"primitives": [{{
    "attributes": {{"POSITION": 0, "TEXCOORD_0": 1}}, "indices": 2}}]}}],
  "nodes": [{nodes}],
  {scenes}
}}"#
    )
}

#[test]
fn converts_translated_quad_and_flips_v() {
    let bin = quad_buffer();
    let json = quad_json(
        bin.len(),
        r#"{"mesh": 0, "name": "quad", "translation": [1, 0, 0]}"#,
        r#""scenes": [{"nodes": [0]}], "scene": 0"#,
    );
    let (summary, text) = convert(&json, &[bin]).unwrap();
    assert_eq!(summary.meshes, 1);
    assert_eq!(summary.vertices, 4);
    assert_eq!(summary.triangles, 2);

    assert!(text.contains("def Mesh \"quad\""));
    assert!(text.contains("int[] faceVertexCounts = [3, 3]"));
    assert!(text.contains("int[] faceVertexIndices = [0, 1, 2, 0, 2, 3]"));
    assert!(text.contains("(1, 0, 0)"));
    assert!(text.contains("(0, 0, 1)"));
    assert!(text.contains("interpolation = \"vertex\""));
    assert!(text.contains("            (0, 0),") || text.contains("            (0, 0)\n"));
}

#[test]
fn mirrored_nodes_keep_their_front() {
    let bin = quad_buffer();
    let json = quad_json(
        bin.len(),
        r#"{"mesh": 0, "name": "quad", "scale": [-1, 1, 1]}"#,
        r#""scenes": [{"nodes": [0]}], "scene": 0"#,
    );
    let (_, text) = convert(&json, &[bin]).unwrap();
    assert!(text.contains("int[] faceVertexIndices = [0, 2, 1, 0, 3, 2]"));
}

#[test]
fn sibling_meshes_get_names_of_their_own() {
    let bin = quad_buffer();
    let json = quad_json(
        bin.len(),
        r#"{"mesh": 0, "name": "quad", "children": [1]}, {"mesh": 0, "name": "quad", "translation": [0, 0, 2]}"#,
        r#""scenes": [{"nodes": [0]}], "scene": 0"#,
    );
    let (summary, text) = convert(&json, &[bin]).unwrap();
    assert_eq!(summary.meshes, 2);
    assert_eq!(summary.vertices, 8);
    assert_eq!(summary.triangles, 4);
    assert!(text.contains("def Mesh \"quad\"\n"));
    assert!(text.contains("def Mesh \"quad_1\"\n"));
}

#[test]
fn scenes_without_geometry_are_refused() {
    let bin = quad_buffer();
    let json = quad_json(bin.len(), r#"{"name": "empty"}"#, r#""scenes": [{"nodes": [0]}]"#);
    assert!(matches!(convert(&json, &[bin]), Err(GltfError::NoGeometry)));
    assert_eq!(
        GltfError::NoGeometry.message("a.gltf"),
        "glTF contains no triangle geometry in its default scene: a.gltf"
    );
    assert!(matches!(pick_scene(None, 0), Err(GltfError::NoScenes)));
    assert_eq!(GltfError::NoScenes.message("a.gltf"), "glTF has no scenes: a.gltf");
    assert!(matches!(pick_scene(None, 2), Ok(0)));
    assert!(matches!(pick_scene(Some(1), 2), Ok(1)));
}

#[test]
fn nodes_are_visited_depth_first() {
    let children = vec![vec![2, 1], vec![], vec![3], vec![]];
    let visits = visit_order(&children, &vec![0]).unwrap();
    let seen: Vec<(usize, Option<usize>)> = visits.iter().map(|v| (v.node, v.parent)).collect();
    assert_eq!(seen, vec![(0, None), (2, Some(0)), (3, Some(1)), (1, Some(0))]);
    assert!(visit_order(&vec![vec![0]], &vec![0]).is_none());
    let Visit { node, parent } = visits[0];
    assert_eq!((node, parent), (0, None));
}

#[test]
fn broken_primitives_are_left_out() {
    let part = |triangles: bool, point_count: usize, indices: Option<Vec<u32>>| GltfPrimitive {
        triangles,
        point_count,
        indices,
    };
    let list = vec![
        part(false, 3, None),
        part(true, 0, None),
        part(true, 5, None),
        part(true, 4, Some(vec![0, 1])),
        part(true, 4, Some(vec![3, 2, 1, 0])),
    ];
    let plans = plan_node(&list, None, None);
    assert_eq!(plans.len(), 2);
    assert_eq!(plans[0].primitive, 2);
    assert_eq!(plans[0].name, "mesh_prim2");
    assert_eq!(plans[0].indices, vec![0, 1, 2]);
    assert_eq!(plans[1].primitive, 4);
    assert_eq!(plans[1].name, "mesh_prim4");
    assert_eq!(plans[1].indices, vec![3, 2, 1]);
    let one = plan_node(&vec![part(true, 3, None)], Some(String::new()), Some("m".to_string()));
    assert_eq!(one[0].name, "mesh");
    let one = plan_node(&vec![part(true, 3, None)], None, Some("m".to_string()));
    assert_eq!(one[0].name, "m");
}

#[test]
fn names_are_counted() {
    let names = |list: &[&str]| -> Vec<String> { list.iter().map(|s| s.to_string()).collect() };
    assert_eq!(dedup_names(&names(&["a", "b", "a", "a"])), names(&["a", "b", "a_1", "a_2"]));
    assert_eq!(dedup_names(&names(&["a", "a", "a_1"])), names(&["a", "a_2", "a_1"]));
    assert_eq!(
        dedup_names(&names(&["a", "a", "a_1", "a_1", "a"])),
        names(&["a", "a_2", "a_1", "a_1_1", "a_3"])
    );
}

#[test]
fn triangles_turned_over_twice_are_as_before() {
    let indices = vec![0, 1, 2, 5, 4, 3];
    let once = keep_winding(&indices, true);
    assert_eq!(once, vec![0, 2, 1, 5, 3, 4]);
    assert_eq!(keep_winding(&once, true), indices);
    assert_eq!(keep_winding(&indices, false), indices);
}
