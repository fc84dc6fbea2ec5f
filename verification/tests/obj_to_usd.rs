use forge_paint::obj_to_usd::{
    mesh_name, number_texts, obj_statements, read_obj, write_usda, NormalSource, ObjConversionSummary,
    ObjError, ObjNumber,
};
use forge_paint::single::{Pair, Single, Triple};
use forge_paint::usda::{PairText, TripleText};

fn number(text: &String) -> ObjNumber {
    match text.parse::<f32>() {
        Ok(x) if x.is_finite() => ObjNumber::Finite(Single { bits: x.to_bits() }),
        Ok(_) => ObjNumber::NotFinite,
        Err(_) => ObjNumber::Malformed,
    }
}

fn floats(t: Triple) -> [f32; 3] {
    [f32::from_bits(t.x.bits), f32::from_bits(t.y.bits), f32::from_bits(t.z.bits)]
}

fn normalize(v: [f32; 3]) -> [f32; 3] {
    let len = (v[0] * v[0] + v[1] * v[1] + v[2] * v[2]).sqrt();
    if len > 1e-8 {
        [v[0] / len, v[1] / len, v[2] / len]
    } else {
        [0.0, 1.0, 0.0]
    }
}

fn face_normal(a: [f32; 3], b: [f32; 3], c: [f32; 3]) -> [f32; 3] {
    let ab = [b[0] - a[0], b[1] - a[1], b[2] - a[2]];
    let ac = [c[0] - a[0], c[1] - a[1], c[2] - a[2]];
    normalize([
        ab[1] * ac[2] - ab[2] * ac[1],
        ab[2] * ac[0] - ab[0] * ac[2],
        ab[0] * ac[1] - ab[1] * ac[0],
    ])
}

fn words(v: [f32; 3]) -> TripleText {
    TripleText { x: format!("{}", v[0]), y: format!("{}", v[1]), z: format!("{}", v[2]) }
}

fn uv_words(p: Pair) -> PairText {
    PairText { u: format!("{}", f32::from_bits(p.u.bits)), v: format!("{}", f32::from_bits(p.v.bits)) }
}

fn convert(text: &str, stem: &str) -> Result<(ObjConversionSummary, String), ObjError> {
    let statements = obj_statements(text);
    let numbers: Vec<ObjNumber> = number_texts(&statements).iter().map(number).collect();
    let mesh = read_obj(&statements, &numbers)?;
    let mut points = Vec::new();
    let mut normals = Vec::new();
    let mut uvs = Vec::new();
    for v in mesh.face_vertices() {
        points.push(words(floats(v.position)));
        normals.push(words(match v.normal {
            NormalSource::Authored(n) => normalize(floats(n)),
            NormalSource::Plane(a, b, c) => face_normal(floats(a), floats(b), floats(c)),
        }));
        uvs.push(uv_words(v.texcoord));
    }
    let name = mesh_name(Some(stem.to_string()));
    Ok((mesh.summary(), write_usda(&name, &points, &normals, &uvs)))
}

#[test]
fn converts_quad_with_uvs_and_normals() {
    let (summary, text) = convert(
        "\
v 0 0 0
v 1 0 0
v 1 1 0
v 0 1 0
vt 0 0
vt 1 0
vt 1 1
vt 0 1
vn 0 0 1
f 1/1/1 2/2/1 3/3/1 4/4/1
",
        "quad",
    )
    .unwrap_or_else(|e| panic!("{}", e.message("quad.obj")));
    assert_eq!(summary.vertices, 6);
    assert_eq!(summary.triangles, 2);
    assert!(text.contains("int[] faceVertexCounts = [3, 3]"));
    assert!(text.contains("texCoord2f[] primvars:st"));
    assert!(text.contains("(0, 0, 1)"));
}

#[test]
fn accepts_negative_obj_indices() {
    let (summary, text) = convert(
        "\
v 0 0 0
v 1 0 0
v 1 1 0
v 0 1 0
f -4 -3 -2 -1
",
        "negative",
    )
    .unwrap_or_else(|e| panic!("{}", e.message("negative.obj")));
    assert_eq!(summary.vertices, 6);
    assert_eq!(summary.triangles, 2);
    assert!(text.contains("normal3f[] normals"));
    assert!(text.contains("texCoord2f[] primvars:st"));
}

fn refused(text: &str) -> String {
    match convert(text, "x") {
        Ok(_) => panic!("accepted"),
        Err(e) => e.message("x.obj"),
    }
}

#[test]
fn reports_the_first_thing_that_is_wrong() {
    assert_eq!(refused("v 0 0\n"), "OBJ line 1: `v` is missing a component");
    assert_eq!(refused("\nvt 1 x\nv 0\n"), "OBJ line 2: parse float `x`");
    assert_eq!(refused("vn 0 inf 1\n"), "OBJ line 1: non-finite float `inf`");
    assert_eq!(refused("v 0 0 0\nf 1 /1 1\n"), "OBJ line 2: invalid face vertex `/1`");
    assert_eq!(refused("f 1/2/3/4 1 1\n"), "OBJ line 1: invalid face vertex `1/2/3/4`");
    assert_eq!(refused("v 0 0 0\nf 1 x 1\n"), "OBJ line 2: parse position index `x`");
    assert_eq!(refused("v 0 0 0\nf 1/y 1 1\n"), "OBJ line 2: parse texcoord index `y`");
    assert_eq!(refused("v 0 0 0\nf 1//+ 1 1\n"), "OBJ line 2: parse normal index `+`");
    assert_eq!(refused("v 0 0 0\nf 0 1 1\n"), "OBJ line 2: OBJ indices are 1-based, got 0");
    assert_eq!(
        refused("v 0 0 0\nf 1 2 1\n"),
        "OBJ line 2: position index `2` is out of range for 1 entries"
    );
    assert_eq!(
        refused("v 0 0 0\nf 1 -2 1\n"),
        "OBJ line 2: position index `-2` is out of range for 1 entries"
    );
    assert_eq!(
        refused("v 0 0 0\nf 1 99999999999999999999 1\n"),
        "OBJ line 2: parse position index `99999999999999999999`"
    );
    assert_eq!(refused("v 0 0 0\nf 1 1\n"), "OBJ line 2: face has fewer than 3 vertices");
    assert_eq!(refused("v 0 0 0 # f 1 1 1\n"), "OBJ contains no polygon faces: x.obj");
}

#[test]
fn ignores_comments_blank_lines_and_other_tags() {
    let (summary, _) = convert(
        "# a mesh\r\n\r\no thing\r\nv 0 0 0 1.0\r\nv 1 0 0\t# second\r\nv 0 1 0\r\ns off\r\nf 1 2 3\r\n",
        "x",
    )
    .unwrap_or_else(|e| panic!("{}", e.message("x.obj")));
    assert_eq!(summary, ObjConversionSummary { vertices: 3, triangles: 1 });
}

#[test]
fn a_polygon_becomes_a_fan() {
    let text = "v 0 0 0\nv 1 0 0\nv 2 1 0\nv 1 2 0\nv 0 1 0\nf 1 2 3 4 5\n";
    let statements = obj_statements(text);
    let numbers: Vec<ObjNumber> = number_texts(&statements).iter().map(number).collect();
    let mesh = match read_obj(&statements, &numbers) {
        Ok(mesh) => mesh,
        Err(e) => panic!("{}", e.message("x.obj")),
    };
    let order: Vec<usize> = mesh.corners.iter().map(|c| c.position).collect();
    assert_eq!(order, vec![0, 1, 2, 0, 2, 3, 0, 3, 4]);
}

#[test]
fn a_nameless_file_gives_a_mesh_called_mesh() {
    assert_eq!(mesh_name(None), "mesh");
    assert_eq!(mesh_name(Some(String::new())), "mesh");
    assert_eq!(mesh_name(Some("quad".to_string())), "quad");
}
