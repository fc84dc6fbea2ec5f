//! Triangle meshes: index lists for drawing, selection by prim, subdivision.

use crate::lights::triple;
use crate::single::{Pair, Single, Triple, HALF, ONE, SIGN};
use crate::text::{chars_of, matches_at, same_chars, views};
use vstd::prelude::*;

verus! {

/// The vertices of a merged mesh that come from one prim.
#[derive(Clone, Debug)]
pub struct PrimRange {
    pub prim_path: String,
    pub vert_start: u32,
    pub vert_count: u32,
}

/// A mesh with one normal and one texture coordinate for each position.
pub struct CpuMesh {
    pub positions: Vec<Triple>,
    pub normals: Vec<Triple>,
    pub uvs: Vec<Pair>,
    pub indices: Vec<[u32; 3]>,
    pub prim_ranges: Vec<PrimRange>,
}

/// The corners of all triangles, one after the other.
pub open spec fn flat(tris: Seq<[u32; 3]>) -> Seq<u32> {
    Seq::new(3 * tris.len(), |k: int| tris[k / 3]@[k % 3])
}

/// The ends of the edges of all triangles: from each corner to the next.
pub open spec fn edges(tris: Seq<[u32; 3]>) -> Seq<u32> {
    Seq::new(6 * tris.len(), |k: int| tris[k / 6]@[((k % 6 + 1) / 2) % 3])
}

/// The corners of all triangles, one after the other.
pub fn flat_indices(tris: &Vec<[u32; 3]>) -> (r: Vec<u32>)
    ensures
        r@ == flat(tris@),
{
    let mut out: Vec<u32> = Vec::new();
    let mut i: usize = 0;
    while i < tris.len()
        invariant
            i <= tris@.len(),
            out@ == flat(tris@).take(3 * i),
        decreases tris@.len() - i,
    {
        let t = tris[i];
        out.push(t[0]);
        out.push(t[1]);
        out.push(t[2]);
        proof {
            let f = flat(tris@);
            let k = 3 * i;
            assert(k / 3 == i && (k + 1) / 3 == i && (k + 2) / 3 == i);
            assert(k % 3 == 0 && (k + 1) % 3 == 1 && (k + 2) % 3 == 2);
            assert(out@ =~= f.take(k + 3));
        }
        i = i + 1;
    }
    proof {
        assert(flat(tris@).take(3 * tris@.len() as int) =~= flat(tris@));
    }
    out
}

/// The ends of the edges of all triangles.
pub fn line_indices(tris: &Vec<[u32; 3]>) -> (r: Vec<u32>)
    ensures
        r@ == edges(tris@),
{
    let mut out: Vec<u32> = Vec::new();
    let mut i: usize = 0;
    while i < tris.len()
        invariant
            i <= tris@.len(),
            out@ == edges(tris@).take(6 * i),
        decreases tris@.len() - i,
    {
        let t = tris[i];
        out.push(t[0]);
        out.push(t[1]);
        out.push(t[1]);
        out.push(t[2]);
        out.push(t[2]);
        out.push(t[0]);
        proof {
            let e = edges(tris@);
            let k = 6 * i;
            assert(forall|d: int| 0 <= d < 6 ==> #[trigger] ((k + d) / 6) == i && (k + d) % 6 == d);
            assert(e[k] == t@[0]);
            assert((k + 1) / 6 == i && e[k + 1] == t@[1]);
            assert((k + 2) / 6 == i && e[k + 2] == t@[1]);
            assert((k + 3) / 6 == i && e[k + 3] == t@[2]);
            assert((k + 4) / 6 == i && e[k + 4] == t@[2]);
            assert((k + 5) / 6 == i && e[k + 5] == t@[0]);
            assert(out@ =~= e.take(k + 6));
        }
        i = i + 1;
    }
    proof {
        assert(edges(tris@).take(6 * tris@.len() as int) =~= edges(tris@));
    }
    out
}

/// The `b`-th byte of a number, counted from its low end.
pub open spec fn byte_of(x: u32, b: int) -> u8 {
    (if b == 0 {
        x as int % 256
    } else if b == 1 {
        (x as int / 256) % 256
    } else if b == 2 {
        (x as int / 65536) % 256
    } else {
        x as int / 16777216
    }) as u8
}

/// Numbers as bytes, four for each, low end first.
pub open spec fn low_first(list: Seq<u32>) -> Seq<u8> {
    Seq::new(4 * list.len(), |k: int| byte_of(list[k / 4], k % 4))
}

/// Numbers as bytes, four for each, high end first.
pub open spec fn high_first(list: Seq<u32>) -> Seq<u8> {
    Seq::new(4 * list.len(), |k: int| byte_of(list[k / 4], 3 - k % 4))
}

/// Calls `bytemuck::cast_slice` from `u32` to `u8`, and copies what it points at. The bytes
/// are those of the numbers as they lie in memory, so the machine decides which end comes
/// first.
#[verifier::external_body]
fn bytes_in_memory(list: &Vec<u32>) -> (r: Vec<u8>)
    ensures
        r@ == low_first(list@) || r@ == high_first(list@),
{
    bytemuck::cast_slice::<u32, u8>(list.as_slice()).to_vec()
}

/// The corners of all triangles as the bytes of an index buffer.
pub fn index_bytes(tris: &Vec<[u32; 3]>) -> (r: Vec<u8>)
    ensures
        r@ == low_first(flat(tris@)) || r@ == high_first(flat(tris@)),
{
    bytes_in_memory(&flat_indices(tris))
}

/// The ends of the edges of all triangles as the bytes of an index buffer.
pub fn line_index_bytes(tris: &Vec<[u32; 3]>) -> (r: Vec<u8>)
    ensures
        r@ == low_first(edges(tris@)) || r@ == high_first(edges(tris@)),
{
    bytes_in_memory(&line_indices(tris))
}

/// Whether a selected path covers a prim: it is the prim, the root, or one of its
/// ancestors.
pub open spec fn covers(selected: Seq<char>, prim: Seq<char>) -> bool {
    ||| selected == prim
    ||| selected == seq!['/']
    ||| selected.is_prefix_of(prim) && selected.len() < prim.len() && prim[selected.len() as int]
        == '/'
}

/// Whether a selection covers a prim.
pub open spec fn is_covered(prim: Seq<char>, selected: Seq<Seq<char>>) -> bool {
    exists|i: int| 0 <= i < selected.len() && covers(#[trigger] selected[i], prim)
}

/// Whether a selection covers a prim.
pub fn is_selected_or_descendant(prim_path: &str, selected: &Vec<String>) -> (r: bool)
    ensures
        r == is_covered(prim_path@, views(selected@)),
{
    let prim = chars_of(prim_path);
    let mut i: usize = 0;
    while i < selected.len()
        invariant
            i <= selected@.len(),
            prim@ == prim_path@,
            forall|k: int| 0 <= k < i ==> !covers(#[trigger] views(selected@)[k], prim_path@),
        decreases selected@.len() - i,
    {
        let sel = chars_of(selected[i].as_str());
        let root = sel.len() == 1 && sel[0] == '/';
        proof {
            assert(root == (sel@ == seq!['/'])) by {
                if root {
                    assert(sel@ =~= seq!['/']);
                }
            }
        }
        if root || same_chars(&sel, &prim) || (matches_at(&prim, &sel, 0) && sel.len()
            < prim.len() && prim[sel.len()] == '/') {
            proof {
                assert(covers(views(selected@)[i as int], prim_path@));
            }
            return true;
        }
        i = i + 1;
    }
    false
}

/// What covers a prim covers everything below it.
pub proof fn descendants_are_covered(selected: Seq<char>, prim: Seq<char>, child: Seq<char>)
    requires
        covers(selected, prim),
        covers(prim, child),
        prim != seq!['/'],
    ensures
        covers(selected, child),
{
    if selected != seq!['/'] && selected != prim && prim != child {
        assert(child.subrange(0, selected.len() as int) =~= prim.subrange(
            0,
            selected.len() as int,
        )) by {
            assert forall|k: int| 0 <= k < selected.len() implies child[k] == prim[k] by {
                assert(child.subrange(0, prim.len() as int)[k] == child[k]);
            }
        }
        assert(child.subrange(0, prim.len() as int)[selected.len() as int]
            == child[selected.len() as int]);
    }
}

/// A path that is only the beginning of a name covers nothing of that name: whatever a
/// path other than the root covers, besides itself, goes on with a separator.
pub proof fn half_a_name_covers_nothing(selected: Seq<char>, prim: Seq<char>)
    requires
        covers(selected, prim),
        selected != prim,
        selected != seq!['/'],
    ensures
        selected.push('/').is_prefix_of(prim),
{
    assert(prim.subrange(0, selected.len() as int + 1) =~= selected.push('/')) by {
        assert forall|k: int| 0 <= k < selected.len() implies prim[k] == selected[k] by {
            assert(prim.subrange(0, selected.len() as int)[k] == prim[k]);
        }
    }
}

/// Whether a vertex belongs to a prim of the first `n` that the selection covers.
pub open spec fn is_marked(
    ranges: Seq<PrimRange>,
    selected: Seq<Seq<char>>,
    n: nat,
    v: int,
) -> bool {
    exists|i: int|
        0 <= i < n && (#[trigger] ranges[i]).vert_start <= v < ranges[i].vert_start
            + ranges[i].vert_count && is_covered(ranges[i].prim_path@, selected)
}

/// Which vertices are marked as selected. A mesh whose vertices are not assigned to prims
/// keeps the marks that it has.
pub fn selection_mask(ranges: &Vec<PrimRange>, vertex_count: u32, selected: &Vec<String>) -> (r:
    Option<Vec<bool>>)
    requires
        forall|i: int|
            0 <= i < ranges@.len() ==> (#[trigger] ranges@[i]).vert_start + ranges@[i].vert_count
                <= vertex_count,
    ensures
        match r {
            None => ranges@.len() == 0,
            Some(mask) => ranges@.len() > 0 && mask@.len() == vertex_count && forall|v: int|
                0 <= v < vertex_count ==> #[trigger] mask@[v] == is_marked(
                    ranges@,
                    views(selected@),
                    ranges@.len(),
                    v,
                ),
        },
{
    if ranges.len() == 0 {
        return None;
    }
    let count: usize = vertex_count as usize;
    let mut mask: Vec<bool> = Vec::new();
    let mut v: usize = 0;
    while v < count
        invariant
            v <= count,
            mask@.len() == v,
            forall|k: int| 0 <= k < v ==> !#[trigger] mask@[k],
        decreases count - v,
    {
        mask.push(false);
        v = v + 1;
    }
    let ghost sel = views(selected@);
    let mut i: usize = 0;
    while i < ranges.len()
        invariant
            i <= ranges@.len(),
            count == vertex_count,
            mask@.len() == count,
            sel == views(selected@),
            forall|i: int|
                0 <= i < ranges@.len() ==> (#[trigger] ranges@[i]).vert_start
                    + ranges@[i].vert_count <= vertex_count,
            forall|k: int|
                0 <= k < count ==> #[trigger] mask@[k] == is_marked(ranges@, sel, i as nat, k),
        decreases ranges@.len() - i,
    {
        let range = &ranges[i];
        let ghost before = mask@;
        let covered = is_selected_or_descendant(range.prim_path.as_str(), selected);
        if covered {
            let start: usize = range.vert_start as usize;
            let end: usize = start + range.vert_count as usize;
            let mut k: usize = start;
            while k < end
                invariant
                    start <= k <= end <= count,
                    mask@.len() == count,
                    before.len() == count,
                    forall|j: int|
                        0 <= j < count ==> #[trigger] mask@[j] == (before[j] || start <= j < k),
                decreases end - k,
            {
                mask.set(k, true);
                k = k + 1;
            }
        }
        proof {
            assert forall|j: int| 0 <= j < count implies #[trigger] mask@[j] == is_marked(
                ranges@,
                sel,
                (i + 1) as nat,
                j,
            ) by {
                let inside = range.vert_start <= j < range.vert_start + range.vert_count;
                assert(mask@[j] == (before[j] || (covered && inside)));
                assert(before[j] == is_marked(ranges@, sel, i as nat, j));
                if is_marked(ranges@, sel, i as nat, j) {
                    let w = choose|w: int|
                        0 <= w < i && (#[trigger] ranges@[w]).vert_start <= j
                            < ranges@[w].vert_start + ranges@[w].vert_count && is_covered(
                            ranges@[w].prim_path@,
                            sel,
                        );
                    assert(ranges@[w].vert_start <= j);
                }
                if covered && inside {
                    assert(ranges@[i as int].vert_start <= j);
                }
            }
        }
        i = i + 1;
    }
    Some(mask)
}

/// A vertex of a subdivided mesh: one of the old ones, or the middle between two of them.
#[derive(Clone, Copy, Debug, PartialEq, Eq, Structural)]
pub enum Blend {
    Corner(u32),
    Middle(u32, u32),
}

/// The vertices and triangles of a subdivided mesh.
pub struct Subdivision {
    pub vertices: Vec<Blend>,
    pub indices: Vec<[u32; 3]>,
}

/// The six vertices that a triangle becomes: its corners, then the middles of its edges.
pub open spec fn triangle_vertex(t: [u32; 3], k: int) -> Blend {
    if k < 3 {
        Blend::Corner(t@[k])
    } else {
        Blend::Middle(t@[k - 3], t@[(k - 2) % 3])
    }
}

/// The four triangles that a triangle becomes: one at each corner and one in the middle.
/// Their corners are numbers of its six vertices.
pub open spec fn quarter(k: int) -> (int, int, int) {
    if k == 0 {
        (0, 3, 5)
    } else if k == 1 {
        (3, 1, 4)
    } else if k == 2 {
        (5, 4, 2)
    } else {
        (3, 4, 5)
    }
}

/// Whether a mesh is another one with every triangle split into four.
pub open spec fn splits(s: Subdivision, tris: Seq<[u32; 3]>) -> bool {
    &&& s.vertices@ == Seq::new(6 * tris.len(), |k: int| triangle_vertex(tris[k / 6], k % 6))
    &&& s.indices@.len() == 4 * tris.len()
    &&& forall|k: int|
        0 <= k < s.indices@.len() ==> {
            let q = quarter(k % 4);
            let base = 6 * (k / 4);
            &&& (#[trigger] s.indices@[k])@[0] == base + q.0
            &&& s.indices@[k]@[1] == base + q.1
            &&& s.indices@[k]@[2] == base + q.2
        }
}

/// Splits every triangle into four at the middles of its edges. Triangles share no vertices
/// afterwards.
pub fn subdivide_once(tris: &Vec<[u32; 3]>) -> (r: Subdivision)
    requires
        6 * tris@.len() <= u32::MAX,
    ensures
        splits(r, tris@),
{
    let mut vertices: Vec<Blend> = Vec::new();
    let mut indices: Vec<[u32; 3]> = Vec::new();
    let mut i: usize = 0;
    while i < tris.len()
        invariant
            i <= tris@.len(),
            6 * tris@.len() <= u32::MAX,
            vertices@ == Seq::new((6 * i) as nat, |k: int| triangle_vertex(tris@[k / 6], k % 6)),
            indices@.len() == 4 * i,
            forall|k: int|
                0 <= k < indices@.len() ==> {
                    let q = quarter(k % 4);
                    let base = 6 * (k / 4);
                    &&& (#[trigger] indices@[k])@[0] == base + q.0
                    &&& indices@[k]@[1] == base + q.1
                    &&& indices@[k]@[2] == base + q.2
                },
        decreases tris@.len() - i,
    {
        let t = tris[i];
        let base: u32 = (6 * i) as u32;
        vertices.push(Blend::Corner(t[0]));
        vertices.push(Blend::Corner(t[1]));
        vertices.push(Blend::Corner(t[2]));
        vertices.push(Blend::Middle(t[0], t[1]));
        vertices.push(Blend::Middle(t[1], t[2]));
        vertices.push(Blend::Middle(t[2], t[0]));
        indices.push([base, base + 3, base + 5]);
        indices.push([base + 3, base + 1, base + 4]);
        indices.push([base + 5, base + 4, base + 2]);
        indices.push([base + 3, base + 4, base + 5]);
        proof {
            let k = 6 * i;
            assert(forall|d: int|
                0 <= d < 6 ==> #[trigger] ((k + d) / 6) == i && (k + d) % 6 == d);
            assert((k + 1) / 6 == i && (k + 2) / 6 == i && (k + 3) / 6 == i);
            assert((k + 4) / 6 == i && (k + 5) / 6 == i && k / 6 == i);
            assert(vertices@ =~= Seq::new(
                (6 * (i + 1)) as nat,
                |k: int| triangle_vertex(tris@[k / 6], k % 6),
            ));
            let m = 4 * i;
            assert(m / 4 == i && (m + 1) / 4 == i && (m + 2) / 4 == i && (m + 3) / 4 == i);
            assert(m % 4 == 0 && (m + 1) % 4 == 1 && (m + 2) % 4 == 2 && (m + 3) % 4 == 3);
        }
        i = i + 1;
    }
    Subdivision { vertices, indices }
}

/// How many triangles there are after some levels of subdivision.
pub open spec fn triangles_after(count: nat, levels: nat) -> nat
    decreases levels,
{
    if levels == 0 {
        count
    } else {
        4 * triangles_after(count, (levels - 1) as nat)
    }
}

/// The triangles that a level of subdivision starts from.
pub open spec fn before_level(tris: Seq<[u32; 3]>, plan: Seq<Subdivision>, level: int) -> Seq<
    [u32; 3],
> {
    if level == 0 {
        tris
    } else {
        plan[level - 1].indices@
    }
}

/// Splits every triangle into four, some times over. Nothing is given where a vertex would
/// get a number that is too large.
pub fn subdivide_plan(tris: &Vec<[u32; 3]>, levels: u32) -> (r: Option<Vec<Subdivision>>)
    ensures
        match r {
            Some(plan) => {
                &&& plan@.len() == levels
                &&& forall|k: int|
                    0 <= k < levels ==> splits(
                        #[trigger] plan@[k],
                        before_level(tris@, plan@, k),
                    ) && plan@[k].indices@.len() == triangles_after(tris@.len(), (k + 1) as nat)
                &&& forall|k: nat|
                    k < levels ==> 6 * #[trigger] triangles_after(tris@.len(), k) <= u32::MAX
            },
            None => exists|k: nat|
                k < levels && 6 * #[trigger] triangles_after(tris@.len(), k) > u32::MAX,
        },
{
    let mut plan: Vec<Subdivision> = Vec::new();
    let mut level: u32 = 0;
    while level < levels
        invariant
            level <= levels,
            plan@.len() == level,
            forall|k: int|
                0 <= k < level ==> splits(#[trigger] plan@[k], before_level(tris@, plan@, k))
                    && plan@[k].indices@.len() == triangles_after(tris@.len(), (k + 1) as nat),
            forall|k: nat|
                k < level ==> 6 * #[trigger] triangles_after(tris@.len(), k) <= u32::MAX,
        decreases levels - level,
    {
        let ghost before = plan@;
        let split = {
            let current: &Vec<[u32; 3]> = if plan.len() == 0 {
                tris
            } else {
                &plan[plan.len() - 1].indices
            };
            proof {
                assert(current@ == before_level(tris@, plan@, level as int));
                assert(current@.len() == triangles_after(tris@.len(), level as nat));
            }
            if current.len() > 0x2aaa_aaaa {
                return None;
            }
            subdivide_once(current)
        };
        plan.push(split);
        proof {
            assert forall|k: int| 0 <= k < level + 1 implies splits(
                #[trigger] plan@[k],
                before_level(tris@, plan@, k),
            ) && plan@[k].indices@.len() == triangles_after(tris@.len(), (k + 1) as nat) by {
                assert(before_level(tris@, plan@, k) == before_level(tris@, before, k));
                if k < level {
                    assert(plan@[k] == before[k]);
                }
            }
        }
        level = level + 1;
    }
    Some(plan)
}

/// Subdivision makes four triangles out of each, whose corners are vertices of the new
/// mesh that come from that triangle.
pub proof fn subdivision_stays_within(count: nat, k: int, c: int)
    requires
        0 <= k < 4 * count,
        0 <= c < 3,
    ensures
        ({
            let q = quarter(k % 4);
            let corner = 6 * (k / 4) + if c == 0 {
                q.0
            } else if c == 1 {
                q.1
            } else {
                q.2
            };
            &&& 0 <= corner < 6 * count
            &&& corner / 6 == k / 4
        }),
{
}

/// Half of a sign.
pub open spec fn half_of(sign: int) -> Single {
    Single { bits: (if sign < 0 { SIGN + HALF } else { HALF as int }) as u32 }
}

/// A sign as a number.
pub open spec fn unit_of(sign: int) -> Single {
    Single { bits: (if sign < 0 { SIGN + ONE } else if sign > 0 { ONE as int } else { 0 }) as u32 }
}

/// The corners of a cube around the origin, by the signs of their coordinates: four for
/// each face, counter-clockwise seen from outside.
pub open spec fn cube_corners() -> Seq<(int, int, int)> {
    seq![
        (1, -1, -1), (1, 1, -1), (1, 1, 1), (1, -1, 1),
        (-1, -1, 1), (-1, 1, 1), (-1, 1, -1), (-1, -1, -1),
        (-1, 1, -1), (-1, 1, 1), (1, 1, 1), (1, 1, -1),
        (-1, -1, 1), (-1, -1, -1), (1, -1, -1), (1, -1, 1),
        (-1, -1, 1), (1, -1, 1), (1, 1, 1), (-1, 1, 1),
        (1, -1, -1), (-1, -1, -1), (-1, 1, -1), (1, 1, -1),
    ]
}

/// The directions in which the faces of the cube look.
pub open spec fn cube_directions() -> Seq<(int, int, int)> {
    seq![
        (1, 0, 0),
        (-1, 0, 0),
        (0, 1, 0),
        (0, -1, 0),
        (0, 0, 1),
        (0, 0, -1),
    ]
}

/// The texture coordinates of the four corners of a face: once around the unit square.
pub open spec fn square_corner(k: int) -> (int, int) {
    (if k == 1 || k == 2 { 1 } else { 0 }, if k >= 2 { 1 } else { 0 })
}

/// Whether a corner lies on the side to which a direction points.
pub open spec fn lies_towards(corner: (int, int, int), direction: (int, int, int)) -> bool {
    &&& direction.0 != 0 ==> corner.0 == direction.0
    &&& direction.1 != 0 ==> corner.1 == direction.1
    &&& direction.2 != 0 ==> corner.2 == direction.2
}

/// How many coordinates of two corners differ.
pub open spec fn differences(a: (int, int, int), b: (int, int, int)) -> int {
    (if a.0 != b.0 { 1int } else { 0 }) + (if a.1 != b.1 { 1int } else { 0 }) + (if a.2 != b.2 {
        1int
    } else {
        0
    })
}

/// On which side of a triangle a direction points: positive where its corners go round
/// counter-clockwise seen from there.
pub open spec fn turn(
    a: (int, int, int),
    b: (int, int, int),
    c: (int, int, int),
    direction: (int, int, int),
) -> int {
    let (ux, uy, uz) = (b.0 - a.0, b.1 - a.1, b.2 - a.2);
    let (vx, vy, vz) = (c.0 - a.0, c.1 - a.1, c.2 - a.2);
    (uy * vz - uz * vy) * direction.0 + (uz * vx - ux * vz) * direction.1 + (ux * vy - uy * vx)
        * direction.2
}

/// Every face of the cube is a square: its corners lie on the side to which the face
/// looks, and going round it changes one coordinate at each step. Seen from outside, both of
/// its triangles go round counter-clockwise.
pub proof fn cube_faces_are_squares(face: int, k: int)
    requires
        0 <= face < 6,
        0 <= k < 4,
    ensures
        lies_towards(cube_corners()[4 * face + k], cube_directions()[face]),
        differences(
            cube_corners()[4 * face + k],
            cube_corners()[4 * face + (k + 1) % 4],
        ) == 1,
        k < 2 ==> differences(cube_corners()[4 * face + k], cube_corners()[4 * face + k + 2]) == 2,
        k < 2 ==> turn(
            cube_corners()[4 * face],
            cube_corners()[4 * face + 1 + k],
            cube_corners()[4 * face + 2 + k],
            cube_directions()[face],
        ) > 0,
{
    assert(turn((1, -1, -1), (1, 1, -1), (1, 1, 1), (1, 0, 0)) == 4) by (nonlinear_arith);
    assert(turn((1, -1, -1), (1, 1, 1), (1, -1, 1), (1, 0, 0)) == 4) by (nonlinear_arith);
    assert(turn((-1, -1, 1), (-1, 1, 1), (-1, 1, -1), (-1, 0, 0)) == 4) by (nonlinear_arith);
    assert(turn((-1, -1, 1), (-1, 1, -1), (-1, -1, -1), (-1, 0, 0)) == 4) by (nonlinear_arith);
    assert(turn((-1, 1, -1), (-1, 1, 1), (1, 1, 1), (0, 1, 0)) == 4) by (nonlinear_arith);
    assert(turn((-1, 1, -1), (1, 1, 1), (1, 1, -1), (0, 1, 0)) == 4) by (nonlinear_arith);
    assert(turn((-1, -1, 1), (-1, -1, -1), (1, -1, -1), (0, -1, 0)) == 4) by (nonlinear_arith);
    assert(turn((-1, -1, 1), (1, -1, -1), (1, -1, 1), (0, -1, 0)) == 4) by (nonlinear_arith);
    assert(turn((-1, -1, 1), (1, -1, 1), (1, 1, 1), (0, 0, 1)) == 4) by (nonlinear_arith);
    assert(turn((-1, -1, 1), (1, 1, 1), (-1, 1, 1), (0, 0, 1)) == 4) by (nonlinear_arith);
    assert(turn((1, -1, -1), (-1, -1, -1), (-1, 1, -1), (0, 0, -1)) == 4) by (nonlinear_arith);
    assert(turn((1, -1, -1), (-1, 1, -1), (1, 1, -1), (0, 0, -1)) == 4) by (nonlinear_arith);
    assert(face == 0 || face == 1 || face == 2 || face == 3 || face == 4 || face == 5);
    assert(k == 0 || k == 1 || k == 2 || k == 3);
}

/// The unit cube around the origin. Each face has corners of its own, so that it has its
/// own normal and its own unit square of texture.
pub fn cube() -> (r: CpuMesh)
    ensures
        r.positions@ == Seq::new(
            24,
            |k: int|
                {
                    let c = cube_corners()[k];
                    (Triple { x: half_of(c.0), y: half_of(c.1), z: half_of(c.2) })
                },
        ),
        r.normals@ == Seq::new(
            24,
            |k: int|
                {
                    let d = cube_directions()[k / 4];
                    (Triple { x: unit_of(d.0), y: unit_of(d.1), z: unit_of(d.2) })
                },
        ),
        r.uvs@ == Seq::new(
            24,
            |k: int|
                {
                    let c = square_corner(k % 4);
                    (Pair { u: unit_of(c.0), v: unit_of(c.1) })
                },
        ),
        r.indices@.len() == 12,
        forall|k: int|
            0 <= k < 12 ==> {
                let base = 4 * (k / 2);
                &&& (#[trigger] r.indices@[k])@[0] == base
                &&& r.indices@[k]@[1] == base + 1 + k % 2
                &&& r.indices@[k]@[2] == base + 2 + k % 2
            },
        r.prim_ranges@.len() == 0,
{
    let h: u32 = HALF;
    let n: u32 = SIGN + HALF;
    let one: u32 = ONE;
    let minus: u32 = SIGN + ONE;
    let positions: Vec<Triple> = vec![
        triple(h, n, n),
        triple(h, h, n),
        triple(h, h, h),
        triple(h, n, h),
        triple(n, n, h),
        triple(n, h, h),
        triple(n, h, n),
        triple(n, n, n),
        triple(n, h, n),
        triple(n, h, h),
        triple(h, h, h),
        triple(h, h, n),
        triple(n, n, h),
        triple(n, n, n),
        triple(h, n, n),
        triple(h, n, h),
        triple(n, n, h),
        triple(h, n, h),
        triple(h, h, h),
        triple(n, h, h),
        triple(h, n, n),
        triple(n, n, n),
        triple(n, h, n),
        triple(h, h, n),
    ];
    let directions: Vec<Triple> = vec![
        triple(one, 0, 0),
        triple(minus, 0, 0),
        triple(0, one, 0),
        triple(0, minus, 0),
        triple(0, 0, one),
        triple(0, 0, minus),
    ];
    let square: Vec<Pair> = vec![
        Pair { u: Single { bits: 0 }, v: Single { bits: 0 } },
        Pair { u: Single { bits: one }, v: Single { bits: 0 } },
        Pair { u: Single { bits: one }, v: Single { bits: one } },
        Pair { u: Single { bits: 0 }, v: Single { bits: one } },
    ];
    let mut normals: Vec<Triple> = Vec::new();
    let mut uvs: Vec<Pair> = Vec::new();
    let mut indices: Vec<[u32; 3]> = Vec::new();
    let mut face: usize = 0;
    while face < 6
        invariant
            face <= 6,
            directions@.len() == 6,
            square@.len() == 4,
            normals@ == Seq::new((4 * face) as nat, |k: int| directions@[k / 4]),
            uvs@ == Seq::new((4 * face) as nat, |k: int| square@[k % 4]),
            indices@.len() == 2 * face,
            forall|k: int|
                0 <= k < indices@.len() ==> {
                    let base = 4 * (k / 2);
                    &&& (#[trigger] indices@[k])@[0] == base
                    &&& indices@[k]@[1] == base + 1 + k % 2
                    &&& indices@[k]@[2] == base + 2 + k % 2
                },
        decreases 6 - face,
    {
        let base: u32 = (4 * face) as u32;
        let d = directions[face];
        normals.push(d);
        normals.push(d);
        normals.push(d);
        normals.push(d);
        uvs.push(square[0]);
        uvs.push(square[1]);
        uvs.push(square[2]);
        uvs.push(square[3]);
        indices.push([base, base + 1, base + 2]);
        indices.push([base, base + 2, base + 3]);
        face = face + 1;
    }
    proof {
        let f = |k: int|
            {
                let d = cube_directions()[k / 4];
                (Triple { x: unit_of(d.0), y: unit_of(d.1), z: unit_of(d.2) })
            };
        assert forall|k: int| 0 <= k < 24 implies normals@[k] == f(k) by {
            let j = k / 4;
            assert(j == 0 || j == 1 || j == 2 || j == 3 || j == 4 || j == 5);
        }
        let g = |k: int|
            {
                let c = square_corner(k % 4);
                (Pair { u: unit_of(c.0), v: unit_of(c.1) })
            };
        assert forall|k: int| 0 <= k < 24 implies uvs@[k] == g(k) by {
            let j = k % 4;
            assert(j == 0 || j == 1 || j == 2 || j == 3);
        }
        assert(normals@ =~= Seq::new(24, f));
        assert(uvs@ =~= Seq::new(24, g));
    }
    CpuMesh { positions, normals, uvs, indices, prim_ranges: Vec::new() }
}

/// The corners of a triangle stand three by three in the order in which it has them.
pub proof fn triangles_stand_in_threes(tris: Seq<[u32; 3]>, i: int)
    requires
        0 <= i < tris.len(),
    ensures
        flat(tris).len() == 3 * tris.len(),
        flat(tris)[3 * i] == tris[i]@[0],
        flat(tris)[3 * i + 1] == tris[i]@[1],
        flat(tris)[3 * i + 2] == tris[i]@[2],
{
    assert((3 * i) / 3 == i && (3 * i + 1) / 3 == i && (3 * i + 2) / 3 == i);
    assert((3 * i) % 3 == 0 && (3 * i + 1) % 3 == 1 && (3 * i + 2) % 3 == 2);
}

/// A triangle has three edges, each from one corner to the next, and the last one closes it.
pub proof fn triangles_have_three_edges(tris: Seq<[u32; 3]>, i: int)
    requires
        0 <= i < tris.len(),
    ensures
        edges(tris).len() == 6 * tris.len(),
        edges(tris)[6 * i] == tris[i]@[0] && edges(tris)[6 * i + 1] == tris[i]@[1],
        edges(tris)[6 * i + 2] == tris[i]@[1] && edges(tris)[6 * i + 3] == tris[i]@[2],
        edges(tris)[6 * i + 4] == tris[i]@[2] && edges(tris)[6 * i + 5] == tris[i]@[0],
{
    assert((6 * i) / 6 == i && (6 * i + 1) / 6 == i && (6 * i + 2) / 6 == i && (6 * i + 3) / 6 == i
        && (6 * i + 4) / 6 == i && (6 * i + 5) / 6 == i);
    assert((6 * i) % 6 == 0 && (6 * i + 1) % 6 == 1 && (6 * i + 2) % 6 == 2 && (6 * i + 3) % 6 == 3
        && (6 * i + 4) % 6 == 4 && (6 * i + 5) % 6 == 5);
}

/// A triangle that is split keeps its corners, and each of the three new triangles at a corner
/// goes round in the same direction as it: from the corner to the middle of the edge that
/// leaves it, and on to the middle of the edge that comes to it. The fourth one lies between the
/// three middles.
#[verifier::spinoff_prover]
#[verifier::rlimit(40)]
pub proof fn triangles_are_split_at_their_middles(s: Subdivision, tris: Seq<[u32; 3]>, i: int)
    requires
        splits(s, tris),
        0 <= i < tris.len(),
    ensures
        ({
            let t = tris[i]@;
            let at = |k: int, c: int| s.vertices@[s.indices@[4 * i + k]@[c] as int];
            &&& at(0, 0) == Blend::Corner(t[0]) && at(0, 1) == Blend::Middle(t[0], t[1]) && at(0, 2)
                == Blend::Middle(t[2], t[0])
            &&& at(1, 0) == Blend::Middle(t[0], t[1]) && at(1, 1) == Blend::Corner(t[1]) && at(1, 2)
                == Blend::Middle(t[1], t[2])
            &&& at(2, 0) == Blend::Middle(t[2], t[0]) && at(2, 1) == Blend::Middle(t[1], t[2]) && at(
                2,
                2,
            ) == Blend::Corner(t[2])
            &&& at(3, 0) == Blend::Middle(t[0], t[1]) && at(3, 1) == Blend::Middle(t[1], t[2]) && at(
                3,
                2,
            ) == Blend::Middle(t[2], t[0])
        }),
{
    let m = 4 * i;
    assert(m / 4 == i && (m + 1) / 4 == i && (m + 2) / 4 == i && (m + 3) / 4 == i);
    assert(m % 4 == 0 && (m + 1) % 4 == 1 && (m + 2) % 4 == 2 && (m + 3) % 4 == 3);
    let b = 6 * i;
    assert(b / 6 == i && (b + 1) / 6 == i && (b + 2) / 6 == i && (b + 3) / 6 == i && (b + 4) / 6 == i
        && (b + 5) / 6 == i);
    assert(b % 6 == 0 && (b + 1) % 6 == 1 && (b + 2) % 6 == 2 && (b + 3) % 6 == 3 && (b + 4) % 6 == 4
        && (b + 5) % 6 == 5);
    assert(s.indices@[m]@[0] == b && s.indices@[m + 1]@[0] == b + 3 && s.indices@[m + 2]@[0] == b + 5
        && s.indices@[m + 3]@[0] == b + 3);
    assert(s.indices@[m + 0] == s.indices@[m]);
}

} // verus!
