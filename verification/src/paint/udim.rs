//! UDIM tiles: the unit squares of texture space, numbered from 1001 on, ten to a row.

use crate::mesh::CpuMesh;
use crate::single::{floor_is_monotone, Pair, Single};
use std::collections::BTreeSet;
use vstd::prelude::*;
use vstd::std_specs::cmp::OrdSpec;
use vstd::std_specs::iter::IteratorSpec;

verus! {

/// The number of the tile that is `u` columns to the right of and `v` rows above the first.
pub open spec fn tile_number(u: int, v: int) -> int {
    1001 + u + 10 * v
}

/// The number of the tile in which a point of texture space lies. A negative coordinate
/// counts as zero.
pub open spec fn tile_of(uv: Pair) -> int {
    tile_number(uv.u.floor_spec() as int, uv.v.floor_spec() as int)
}

/// The number of the tile in which a point of texture space lies.
pub fn tile_id(uv: Pair) -> (r: u32)
    requires
        tile_of(uv) <= u32::MAX,
    ensures
        r == tile_of(uv),
{
    let u: u32 = uv.u.floor();
    let v: u32 = uv.v.floor();
    1001 + u + 10 * v
}

/// Points left of and below the first tile count for it.
pub proof fn negative_points_lie_on_the_first_tile(uv: Pair)
    requires
        uv.u.less_spec(Single { bits: 0 }),
        uv.v.less_spec(Single { bits: 0 }),
    ensures
        tile_of(uv) == 1001,
{
}

/// Column and row of a tile. Numbers below the first tile count as the first.
pub open spec fn tile_place(tile: u32) -> (int, int) {
    if tile < 1001 {
        (0, 0)
    } else {
        ((tile - 1001) % 10, (tile - 1001) / 10)
    }
}

/// Column and row of a tile.
pub fn udim_offset(tile: u32) -> (r: (u32, u32))
    ensures
        (r.0 as int, r.1 as int) == tile_place(tile),
{
    let n: u32 = if tile < 1001 {
        0
    } else {
        tile - 1001
    };
    (n % 10, n / 10)
}

/// Within the ten columns, a tile's number gives back where it lies.
pub proof fn tile_place_reads_back(u: int, v: int)
    requires
        0 <= u < 10,
        0 <= v,
        tile_number(u, v) <= u32::MAX,
    ensures
        tile_place(tile_number(u, v) as u32) == (u, v),
{
}

/// The place of every tile gives back its number.
pub proof fn tile_number_reads_back(tile: u32)
    requires
        tile >= 1001,
    ensures
        tile_number(tile_place(tile).0, tile_place(tile).1) == tile,
{
}

/// The columns, or rows, that a triangle spans: from that of its smallest coordinate to
/// that of its largest.
pub open spec fn span(a: Single, b: Single, c: Single) -> (int, int) {
    (
        a.min_spec(b).min_spec(c).floor_spec() as int,
        a.max_spec(b).max_spec(c).floor_spec() as int,
    )
}

/// The columns that a triangle spans.
pub open spec fn columns(uvs: Seq<Pair>, tri: [u32; 3]) -> (int, int) {
    span(uvs[tri@[0] as int].u, uvs[tri@[1] as int].u, uvs[tri@[2] as int].u)
}

/// The rows that a triangle spans.
pub open spec fn rows(uvs: Seq<Pair>, tri: [u32; 3]) -> (int, int) {
    span(uvs[tri@[0] as int].v, uvs[tri@[1] as int].v, uvs[tri@[2] as int].v)
}

/// Whether a tile lies in one of the columns and in one of the rows that a triangle spans.
pub open spec fn is_spanned(uvs: Seq<Pair>, tri: [u32; 3], tile: u32) -> bool {
    exists|u: int, v: int|
        columns(uvs, tri).0 <= u <= columns(uvs, tri).1 && rows(uvs, tri).0 <= v <= rows(
            uvs,
            tri,
        ).1 && tile == #[trigger] tile_number(u, v)
}

/// Whether one of the first `n` triangles spans a tile.
pub open spec fn is_touched(uvs: Seq<Pair>, tris: Seq<[u32; 3]>, n: int, tile: u32) -> bool {
    exists|i: int| 0 <= i < n && is_spanned(uvs, #[trigger] tris[i], tile)
}

/// The list goes upwards, without repetition.
pub open spec fn is_rising(list: Seq<u32>) -> bool {
    forall|i: int, j: int| 0 <= i < j < list.len() ==> list[i] < list[j]
}

/// Every triangle refers to vertices that there are, and no tile that it spans has a
/// number that is too large.
pub open spec fn tiles_are_numbered(uvs: Seq<Pair>, tris: Seq<[u32; 3]>) -> bool {
    forall|i: int|
        0 <= i < tris.len() ==> {
            &&& (#[trigger] tris[i])@[0] < uvs.len()
            &&& tris[i]@[1] < uvs.len()
            &&& tris[i]@[2] < uvs.len()
            &&& tile_number(columns(uvs, tris[i]).1, rows(uvs, tris[i]).1) <= u32::MAX
        }
}

/// Puts the tiles of one row, from one column to another, into a set.
fn insert_row(set: &mut BTreeSet<u32>, from: u32, to: u32, row: u32)
    requires
        tile_number(to as int, row as int) <= u32::MAX,
    ensures
        forall|y: u32| #[trigger]
            final(set)@.contains(y) <==> old(set)@.contains(y) || exists|u: int|
                from <= u <= to && y == #[trigger] tile_number(u, row as int),
{
    let ghost before = set@;
    let mut u: u32 = from;
    while u <= to
        invariant
            from <= u,
            from <= to ==> u <= to + 1,
            from > to ==> u == from,
            tile_number(to as int, row as int) <= u32::MAX,
            forall|y: u32| #[trigger]
                set@.contains(y) <==> before.contains(y) || exists|k: int|
                    from <= k < u && y == #[trigger] tile_number(k, row as int),
        decreases to + 1 - u,
    {
        let ghost mid = set@;
        let tile: u32 = 1001 + u + 10 * row;
        set.insert(tile);
        proof {
            assert(tile == tile_number(u as int, row as int));
            assert forall|y: u32| #[trigger] set@.contains(y) implies before.contains(y)
                || exists|k: int| from <= k < u + 1 && y == #[trigger] tile_number(
                k,
                row as int,
            ) by {
                if mid.contains(y) && !before.contains(y) {
                    let k = choose|k: int|
                        from <= k < u && y == #[trigger] tile_number(k, row as int);
                    assert(y == tile_number(k, row as int));
                }
            }
            assert forall|y: u32|
                before.contains(y) || exists|k: int|
                    from <= k < u + 1 && y == #[trigger] tile_number(
                        k,
                        row as int,
                    ) implies #[trigger] set@.contains(y) by {
                if !before.contains(y) {
                    let k = choose|k: int|
                        from <= k < u + 1 && y == #[trigger] tile_number(k, row as int);
                    if k < u {
                        assert(mid.contains(y));
                    }
                }
            }
        }
        u = u + 1;
    }
}

/// The lowest and the highest column, or row, that a triangle spans.
fn span_of(a: Single, b: Single, c: Single) -> (r: (u32, u32))
    ensures
        (r.0 as int, r.1 as int) == span(a, b, c),
{
    (a.min(b).min(c).floor(), a.max(b).max(c).floor())
}

/// Puts the tiles that a triangle spans into a set.
fn insert_triangle(set: &mut BTreeSet<u32>, uvs: &Vec<Pair>, tri: [u32; 3])
    requires
        tri@[0] < uvs@.len(),
        tri@[1] < uvs@.len(),
        tri@[2] < uvs@.len(),
        tile_number(columns(uvs@, tri).1, rows(uvs@, tri).1) <= u32::MAX,
    ensures
        forall|y: u32| #[trigger]
            final(set)@.contains(y) <==> old(set)@.contains(y) || is_spanned(uvs@, tri, y),
{
    let ghost before = set@;
    let a = uvs[tri[0] as usize];
    let b = uvs[tri[1] as usize];
    let c = uvs[tri[2] as usize];
    let (u_min, u_max) = span_of(a.u, b.u, c.u);
    let (v_min, v_max) = span_of(a.v, b.v, c.v);
    let mut v: u32 = v_min;
    while v <= v_max
        invariant
            v_min <= v,
            v_min <= v_max ==> v <= v_max + 1,
            v_min > v_max ==> v == v_min,
            tile_number(u_max as int, v_max as int) <= u32::MAX,
            forall|y: u32| #[trigger]
                set@.contains(y) <==> before.contains(y) || exists|i: int, j: int|
                    u_min <= i <= u_max && v_min <= j < v && y == #[trigger] tile_number(i, j),
        decreases v_max + 1 - v,
    {
        let ghost mid = set@;
        insert_row(set, u_min, u_max, v);
        proof {
            assert forall|y: u32| #[trigger] set@.contains(y) implies before.contains(y)
                || exists|i: int, j: int|
                u_min <= i <= u_max && v_min <= j < v + 1 && y == #[trigger] tile_number(i, j) by {
                if mid.contains(y) {
                    if !before.contains(y) {
                        let (i, j) = choose|i: int, j: int|
                            u_min <= i <= u_max && v_min <= j < v && y == #[trigger] tile_number(
                                i,
                                j,
                            );
                        assert(y == tile_number(i, j));
                    }
                } else {
                    let i = choose|i: int|
                        u_min <= i <= u_max && y == #[trigger] tile_number(i, v as int);
                    assert(y == tile_number(i, v as int));
                }
            }
            assert forall|y: u32|
                before.contains(y) || exists|i: int, j: int|
                    u_min <= i <= u_max && v_min <= j < v + 1 && y == #[trigger] tile_number(
                        i,
                        j,
                    ) implies #[trigger] set@.contains(y) by {
                if !before.contains(y) {
                    let (i, j) = choose|i: int, j: int|
                        u_min <= i <= u_max && v_min <= j < v + 1 && y == #[trigger] tile_number(
                            i,
                            j,
                        );
                    if j < v {
                        assert(mid.contains(y));
                    } else {
                        assert(y == tile_number(i, v as int));
                    }
                } else {
                    assert(mid.contains(y));
                }
            }
        }
        v = v + 1;
    }
    proof {
        assert forall|y: u32| #[trigger] set@.contains(y) <==> before.contains(y) || is_spanned(
            uvs@,
            tri,
            y,
        ) by {
            if set@.contains(y) && !before.contains(y) {
                let (i, j) = choose|i: int, j: int|
                    u_min <= i <= u_max && v_min <= j < v && y == #[trigger] tile_number(i, j);
                assert(y == tile_number(i, j));
            }
            if is_spanned(uvs@, tri, y) {
                let (i, j) = choose|i: int, j: int|
                    columns(uvs@, tri).0 <= i <= columns(uvs@, tri).1 && rows(uvs@, tri).0 <= j
                        <= rows(uvs@, tri).1 && y == #[trigger] tile_number(i, j);
                assert(y == tile_number(i, j));
            }
        }
    }
}

/// The numbers of a set, in rising order.
fn rising_list(set: &BTreeSet<u32>) -> (r: Vec<u32>)
    ensures
        is_rising(r@),
        forall|x: u32| #[trigger] r@.contains(x) <==> set@.contains(x),
{
    let rising = set.iter();
    let ghost all = rising.remaining();
    proof {
        assert(all.unref().to_set() == set@);
        assert(vstd::laws_cmp::obeys_cmp::<&u32>());
        assert(vstd::std_specs::btree::increasing_seq(all));
        assert forall|i: int, j: int| 0 <= i < j < all.len() implies *all[i] < *all[j] by {
            assert(OrdSpec::cmp_spec(&all[i], &all[j]) is Less);
        }
    }
    let mut list: Vec<u32> = Vec::new();
    for tile in tiles: rising
        invariant
            tiles.seq() == all,
            list@ == tiles.seq().take(tiles.index()).unref(),
    {
        list.push(*tile);
    }
    proof {
        assert(list@ =~= all.unref());
    }
    list
}

/// The tiles that the triangles of a mesh touch, in rising order. A triangle counts for
/// every tile that the box around it meets.
pub fn tiles_for_mesh(mesh: &CpuMesh) -> (r: Vec<u32>)
    requires
        tiles_are_numbered(mesh.uvs@, mesh.indices@),
    ensures
        is_rising(r@),
        forall|tile: u32| #[trigger]
            r@.contains(tile) <==> is_touched(
                mesh.uvs@,
                mesh.indices@,
                mesh.indices@.len() as int,
                tile,
            ),
{
    let mut set: BTreeSet<u32> = BTreeSet::new();
    let mut i: usize = 0;
    while i < mesh.indices.len()
        invariant
            i <= mesh.indices@.len(),
            tiles_are_numbered(mesh.uvs@, mesh.indices@),
            forall|tile: u32| #[trigger]
                set@.contains(tile) <==> is_touched(mesh.uvs@, mesh.indices@, i as int, tile),
        decreases mesh.indices@.len() - i,
    {
        let ghost mid = set@;
        insert_triangle(&mut set, &mesh.uvs, mesh.indices[i]);
        proof {
            assert forall|tile: u32| #[trigger] set@.contains(tile) <==> is_touched(
                mesh.uvs@,
                mesh.indices@,
                i + 1,
                tile,
            ) by {
                if mid.contains(tile) {
                    let k = choose|k: int|
                        0 <= k < i && is_spanned(mesh.uvs@, #[trigger] mesh.indices@[k], tile);
                    assert(is_spanned(mesh.uvs@, mesh.indices@[k], tile));
                }
                if is_spanned(mesh.uvs@, mesh.indices@[i as int], tile) {
                    assert(is_touched(mesh.uvs@, mesh.indices@, i + 1, tile));
                }
                if is_touched(mesh.uvs@, mesh.indices@, i + 1, tile) {
                    let k = choose|k: int|
                        0 <= k < i + 1 && is_spanned(mesh.uvs@, #[trigger] mesh.indices@[k], tile);
                    if k < i {
                        assert(is_touched(mesh.uvs@, mesh.indices@, i as int, tile));
                        assert(mid.contains(tile));
                    }
                }
            }
        }
        i = i + 1;
    }
    rising_list(&set)
}

/// The tile of every corner of a triangle is one of the mesh's tiles, if its coordinates
/// are numbers.
pub proof fn corner_tiles_are_touched(uvs: Seq<Pair>, tris: Seq<[u32; 3]>, i: int, c: int)
    requires
        tiles_are_numbered(uvs, tris),
        0 <= i < tris.len(),
        0 <= c < 3,
        forall|k: int|
            0 <= k < uvs.len() ==> !(#[trigger] uvs[k]).u.is_nan_spec() && !uvs[k].v.is_nan_spec(),
    ensures
        0 <= tile_of(uvs[tris[i]@[c] as int]) <= u32::MAX,
        is_touched(uvs, tris, tris.len() as int, tile_of(uvs[tris[i]@[c] as int]) as u32),
{
    let tri = tris[i];
    let p = uvs[tri@[0] as int];
    let q = uvs[tri@[1] as int];
    let s = uvs[tri@[2] as int];
    let x = uvs[tri@[c] as int];
    assert(c == 0 || c == 1 || c == 2);
    floor_is_monotone(p.u.min_spec(q.u).min_spec(s.u), x.u);
    floor_is_monotone(x.u, p.u.max_spec(q.u).max_spec(s.u));
    floor_is_monotone(p.v.min_spec(q.v).min_spec(s.v), x.v);
    floor_is_monotone(x.v, p.v.max_spec(q.v).max_spec(s.v));
    let tile = tile_of(x) as u32;
    assert(tile == tile_number(x.u.floor_spec() as int, x.v.floor_spec() as int));
    assert(is_spanned(uvs, tri, tile));
}

/// A point lies on the tile of its column and row, counted from 1001, ten columns to a row.
pub proof fn points_lie_on_the_tile_of_their_column_and_row(uv: Pair)
    ensures
        tile_of(uv) == 1001 + uv.u.floor_spec() + 10 * uv.v.floor_spec(),
{
}

/// The columns of a triangle go from the smallest to the largest of its first coordinates, and
/// its rows from the smallest to the largest of its second ones: no corner lies outside.
pub proof fn corners_lie_within_columns_and_rows(uvs: Seq<Pair>, tri: [u32; 3], c: int)
    requires
        0 <= c < 3,
        !uvs[tri@[0] as int].u.is_nan_spec() && !uvs[tri@[0] as int].v.is_nan_spec(),
        !uvs[tri@[1] as int].u.is_nan_spec() && !uvs[tri@[1] as int].v.is_nan_spec(),
        !uvs[tri@[2] as int].u.is_nan_spec() && !uvs[tri@[2] as int].v.is_nan_spec(),
    ensures
        columns(uvs, tri).0 <= uvs[tri@[c] as int].u.floor_spec() <= columns(uvs, tri).1,
        rows(uvs, tri).0 <= uvs[tri@[c] as int].v.floor_spec() <= rows(uvs, tri).1,
{
    let p = uvs[tri@[0] as int];
    let q = uvs[tri@[1] as int];
    let r = uvs[tri@[2] as int];
    let s = uvs[tri@[c] as int];
    floor_is_monotone(p.u.min_spec(q.u).min_spec(r.u), s.u);
    floor_is_monotone(s.u, p.u.max_spec(q.u).max_spec(r.u));
    floor_is_monotone(p.v.min_spec(q.v).min_spec(r.v), s.v);
    floor_is_monotone(s.v, p.v.max_spec(q.v).max_spec(r.v));
}

} // verus!
