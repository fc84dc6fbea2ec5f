use forge_paint::accel::{nearest_hit, Candidate};
use forge_paint::mesh::{
    cube, flat_indices, index_bytes, is_selected_or_descendant, line_index_bytes, line_indices,
    selection_mask, subdivide_once, subdivide_plan, Blend, CpuMesh, PrimRange,
};
use forge_paint::paint::target::{initial_fills, PaintTarget, TargetChannel};
use forge_paint::paint::udim::{tile_id, tiles_for_mesh, udim_offset};
use forge_paint::lights::Quad;
use forge_paint::pixels::{flip_rows, flip_rows_rgba8, resize_rgba8, tile_pixels};
use forge_paint::single::{Pair, Single, Triple};
use forge_paint::tile_mesh::extract_tile_mesh;

fn single(x: f32) -> Single {
    Single { bits: x.to_bits() }
}

fn pair(u: f32, v: f32) -> Pair {
    Pair { u: single(u), v: single(v) }
}

fn triple(x: f32, y: f32, z: f32) -> Triple {
    Triple { x: single(x), y: single(y), z: single(z) }
}

fn strings(list: &[&str]) -> Vec<String> {
    list.iter().map(|s| s.to_string()).collect()
}

fn mesh_with_uvs(uvs: &[(f32, f32)], indices: &[[u32; 3]]) -> CpuMesh {
    CpuMesh {
        positions: uvs.iter().enumerate().map(|(i, _)| triple(i as f32, 0.0, 0.0)).collect(),
        normals: uvs.iter().map(|_| triple(0.0, 0.0, 1.0)).collect(),
        uvs: uvs.iter().map(|p| pair(p.0, p.1)).collect(),
        indices: indices.to_vec(),
        prim_ranges: Vec::new(),
    }
}

#[test]
fn triangles_become_bytes() {
    let tris = vec![[0u32, 1, 2], [2, 1, 0x01020304]];
    assert_eq!(flat_indices(&tris), vec![0, 1, 2, 2, 1, 0x01020304]);
    let expected: Vec<u8> = [0u32, 1, 2, 2, 1, 0x01020304].iter().flat_map(|i| i.to_ne_bytes()).collect();
    assert_eq!(index_bytes(&tris), expected);
    let lines = line_indices(&tris);
    assert_eq!(lines, vec![0, 1, 1, 2, 2, 0, 2, 1, 1, 0x01020304, 0x01020304, 2]);
    let expected: Vec<u8> = lines.iter().flat_map(|i| i.to_ne_bytes()).collect();
    assert_eq!(line_index_bytes(&tris), expected);
}

#[test]
fn prims_below_a_selected_one_are_selected() {
    let selected = strings(&["/root/car"]);
    assert!(is_selected_or_descendant("/root/car", &selected));
    assert!(is_selected_or_descendant("/root/car/wheel", &selected));
    assert!(!is_selected_or_descendant("/root/cart", &selected));
    assert!(!is_selected_or_descendant("/root", &selected));
    assert!(!is_selected_or_descendant("/root", &vec![]));
}

#[test]
fn vertices_of_selected_prims_are_marked() {
    let ranges = vec![
        PrimRange { prim_path: "/a".to_string(), vert_start: 0, vert_count: 2 },
        PrimRange { prim_path: "/b/c".to_string(), vert_start: 2, vert_count: 3 },
    ];
    assert_eq!(
        selection_mask(&ranges, 5, &strings(&["/b"])),
        Some(vec![false, false, true, true, true])
    );
}

#[test]
fn triangles_are_split_in_four() {
    let split = subdivide_once(&vec![[0, 1, 2], [2, 1, 3]]);
    assert_eq!(split.indices.len(), 8);
    let corners: Vec<u32> = split
        .vertices
        .iter()
        .filter_map(|v| match v {
            Blend::Corner(i) => Some(*i),
            Blend::Middle(_, _) => None,
        })
        .collect();
    assert!(corners.iter().all(|i| *i < 4));
    let n = split.vertices.len() as u32;
    assert!(split.indices.iter().flatten().all(|i| *i < n));
}

#[test]
fn the_cube_has_six_faces() {
    let mesh = cube();
    assert_eq!(mesh.positions.len(), 24);
    assert_eq!(mesh.indices.len(), 12);
    for p in &mesh.positions {
        for c in [p.x, p.y, p.z] {
            assert_eq!(f32::from_bits(c.bits).abs(), 0.5);
        }
    }
    for n in &mesh.normals {
        let n = [n.x, n.y, n.z].map(|c| f32::from_bits(c.bits));
        assert_eq!(n.iter().map(|c| c * c).sum::<f32>(), 1.0);
    }
}

#[test]
fn the_cube_goes_round_counter_clockwise() {
    let mesh = cube();
    let point = |t: Triple| [t.x, t.y, t.z].map(|c| f32::from_bits(c.bits));
    for tri in &mesh.indices {
        let [a, b, c] = tri.map(|i| point(mesh.positions[i as usize]));
        let n = point(mesh.normals[tri[0] as usize]);
        let u = [b[0] - a[0], b[1] - a[1], b[2] - a[2]];
        let v = [c[0] - a[0], c[1] - a[1], c[2] - a[2]];
        let cross = [
            u[1] * v[2] - u[2] * v[1],
            u[2] * v[0] - u[0] * v[2],
            u[0] * v[1] - u[1] * v[0],
        ];
        assert_eq!(cross[0] * n[0] + cross[1] * n[1] + cross[2] * n[2], 1.0);
    }
}

#[test]
fn subdivision_goes_level_by_level() {
    let plan = subdivide_plan(&vec![[0, 1, 2], [2, 1, 3]], 3).unwrap();
    let counts: Vec<usize> = plan.iter().map(|s| s.indices.len()).collect();
    assert_eq!(counts, vec![8, 32, 128]);
    assert_eq!(plan[1].vertices.len(), 48);
    let once = subdivide_once(&plan[0].indices);
    assert_eq!(once.indices, plan[1].indices);
    assert_eq!(once.vertices, plan[1].vertices);
    assert!(subdivide_plan(&vec![], 5).unwrap().iter().all(|s| s.indices.is_empty()));
    assert!(subdivide_plan(&vec![[0, 1, 2]], 0).unwrap().is_empty());
}

#[test]
fn tiles_are_numbered_by_row() {
    assert_eq!(tile_id(pair(0.5, 0.5)), 1001);
    assert_eq!(tile_id(pair(1.5, 0.2)), 1002);
    assert_eq!(tile_id(pair(0.1, 1.0)), 1011);
    assert_eq!(tile_id(pair(-3.0, -0.5)), 1001);
    assert_eq!(udim_offset(1001), (0, 0));
    assert_eq!(udim_offset(1012), (1, 1));
    for tile in [1001u32, 1010, 1011, 1099] {
        let (u, v) = udim_offset(tile);
        assert_eq!(tile_id(pair(u as f32 + 0.5, v as f32 + 0.5)), tile);
    }
    let mesh = mesh_with_uvs(&[(0.1, 0.1), (1.4, 0.1), (0.1, 0.9)], &[[0, 1, 2]]);
    assert_eq!(tiles_for_mesh(&mesh), vec![1001, 1002]);
    assert!(tiles_for_mesh(&mesh_with_uvs(&[], &[])).is_empty());
    assert_eq!(PaintTarget::new(&mesh_with_uvs(&[], &[]), 8).tiles, vec![1001]);
}

#[test]
fn targets_have_a_layer_for_each_tile() {
    let mesh = mesh_with_uvs(&[(0.1, 0.1), (1.4, 0.1), (0.1, 0.9)], &[[0, 1, 2]]);
    let target = PaintTarget::new(&mesh, 1024);
    assert_eq!(target.tiles, vec![1001, 1002]);
    assert_eq!(target.layer_for_tile(1002), Some(1));
    assert_eq!(target.layer_for_tile(1003), None);
    let zero = single(0.0);
    let factor = Quad { x: single(1.0), y: single(1.0), z: single(1.0), w: single(1.0) };
    let uniforms = target.material_uniforms(factor, zero, single(0.5), single(1.0), zero);
    assert_eq!(uniforms.tile_count, 2);
    assert_eq!(uniforms.tile_ids[0], [1001, 1002, 0, 0]);
    assert_eq!(initial_fills(2).len(), 8);
    assert_eq!(TargetChannel::Normal.neutral(), (128, 128, 255, 255));
}

#[test]
fn triangles_belong_to_the_tile_of_their_centre() {
    let mesh = mesh_with_uvs(
        &[(0.1, 0.1), (0.9, 0.1), (0.1, 0.9), (1.1, 0.1), (1.9, 0.1), (1.1, 0.9)],
        &[[0, 1, 2], [3, 4, 5]],
    );
    let centres = vec![pair(0.36, 0.36), pair(1.36, 0.36)];
    let tile = extract_tile_mesh("m", &mesh, None, &centres, 1002).unwrap();
    assert_eq!(tile.indices, vec![[0, 1, 2]]);
    assert_eq!(tile.origin, (1, 0));
    let xs: Vec<f32> = tile.positions.iter().map(|p| f32::from_bits(p.x.bits)).collect();
    assert_eq!(xs, vec![3.0, 4.0, 5.0]);
    assert!(extract_tile_mesh("m", &mesh, None, &centres, 1003).is_none());
    let cage = mesh_with_uvs(&[(0.0, 0.0); 6], &[]);
    let tile = extract_tile_mesh("m", &mesh, Some(&cage), &centres, 1001).unwrap();
    assert_eq!(tile.cage.unwrap().positions.len(), 3);
}

#[test]
fn the_nearest_triangle_is_hit() {
    let at = |tri_index: usize, t: f32| Candidate {
        tri_index,
        t: single(t),
        u: single(0.0),
        v: single(0.0),
    };
    assert_eq!(nearest_hit(&vec![]), None);
    assert_eq!(nearest_hit(&vec![at(4, 2.0), at(7, 1.0), at(9, 1.0)]), Some(1));
}

#[test]
fn rows_are_flipped() {
    let mut pixels: Vec<u8> = (0..16).collect();
    flip_rows_rgba8(&mut pixels, 2, 2);
    assert_eq!(pixels[..8], [8, 9, 10, 11, 12, 13, 14, 15]);
    flip_rows_rgba8(&mut pixels, 2, 2);
    assert_eq!(pixels, (0..16).collect::<Vec<u8>>());
    let mut bytes = vec![1u8, 2, 3];
    flip_rows(&mut bytes, 1, 3, 1);
    assert_eq!(bytes, vec![3, 2, 1]);
}

#[test]
fn images_are_resampled() {
    let src: Vec<u8> = vec![0, 0, 0, 255, 200, 100, 50, 255];
    assert_eq!(resize_rgba8(&src, 2, 1, 2, 1), src);
    assert_eq!(resize_rgba8(&src, 1, 1, 1, 1), src[..4].to_vec());
    let image = image::RgbaImage::from_raw(2, 1, src.clone()).unwrap();
    let expected =
        image::imageops::resize(&image, 4, 3, image::imageops::FilterType::Triangle).into_raw();
    let resized = resize_rgba8(&src, 2, 1, 4, 3);
    assert_eq!(resized, expected);
    assert_eq!(resized.len(), 4 * 4 * 3);
    assert_ne!(resized[..8], src[..]);
    let same = vec![1u8, 2, 3, 4, 5, 6, 7, 8, 9, 10, 11, 12, 13, 14, 15, 16];
    assert_eq!(
        tile_pixels(&same, 2, 2, 2),
        vec![9, 10, 11, 12, 13, 14, 15, 16, 1, 2, 3, 4, 5, 6, 7, 8]
    );
}
