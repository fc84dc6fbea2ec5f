//! The part of a mesh that lies in one tile, as a mesh of its own.

use crate::counting::distinct_numbers_are_few;
use crate::mesh::{flat, CpuMesh};
use crate::paint::udim::{tile_id, tile_of, tile_place, udim_offset};
use crate::single::{Pair, Triple};
use crate::text::{decimal, decimal_text};
use std::collections::HashMap;
use vstd::prelude::*;

verus! {

broadcast use vstd::std_specs::hash::group_hash_axioms;

/// The vertices of a cage, one for each vertex of the mesh that it encloses.
pub struct TileCage {
    pub name: String,
    pub positions: Vec<Triple>,
    pub normals: Vec<Triple>,
}

/// The triangles of a mesh that lie in one tile, with the vertices that they use. The
/// texture coordinates are still those of the whole mesh; the tile begins at `origin`.
pub struct TileMesh {
    pub name: String,
    pub positions: Vec<Triple>,
    pub normals: Vec<Triple>,
    pub uvs: Vec<Pair>,
    pub origin: (u32, u32),
    pub indices: Vec<[u32; 3]>,
    pub cage: Option<TileCage>,
}

/// The triangles, among the first `n`, whose centre lies in a tile.
pub open spec fn kept(tris: Seq<[u32; 3]>, centres: Seq<Pair>, tile: u32, n: nat) -> Seq<[u32; 3]>
    decreases n,
{
    if n == 0 {
        Seq::empty()
    } else {
        let before = kept(tris, centres, tile, (n - 1) as nat);
        if tile_of(centres[n - 1]) == tile {
            before.push(tris[n - 1])
        } else {
            before
        }
    }
}

/// A list with one more element, unless it holds it already.
pub open spec fn extended(list: Seq<u32>, x: u32) -> Seq<u32> {
    if list.contains(x) {
        list
    } else {
        list.push(x)
    }
}

/// The elements of a list, each where it first comes.
pub open spec fn distinct(list: Seq<u32>) -> Seq<u32>
    decreases list.len(),
{
    if list.len() == 0 {
        Seq::empty()
    } else {
        extended(distinct(list.drop_last()), list.last())
    }
}

/// The vertices that a tile uses, in the order in which its triangles come to them.
pub open spec fn tile_vertices(tris: Seq<[u32; 3]>, centres: Seq<Pair>, tile: u32) -> Seq<u32> {
    distinct(flat(kept(tris, centres, tile, tris.len())))
}

/// Nothing comes twice in a list of distinct elements, and nothing gets lost.
pub proof fn distinct_is_complete(list: Seq<u32>)
    ensures
        distinct(list).no_duplicates(),
        forall|x: u32| #[trigger] distinct(list).contains(x) <==> list.contains(x),
    decreases list.len(),
{
    if list.len() > 0 {
        let front = list.drop_last();
        let d = distinct(front);
        let last = list.last();
        distinct_is_complete(front);
        assert(list =~= front.push(last));
        assert forall|x: u32| #[trigger] distinct(list).contains(x) <==> list.contains(x) by {
            if list.contains(x) {
                let k = choose|k: int| 0 <= k < list.len() && list[k] == x;
                if k < front.len() {
                    assert(front[k] == x);
                    assert(d.contains(x));
                    let j = choose|j: int| 0 <= j < d.len() && d[j] == x;
                    assert(distinct(list)[j] == x);
                } else if !d.contains(last) {
                    assert(distinct(list)[d.len() as int] == x);
                }
            }
            if distinct(list).contains(x) {
                let j = choose|j: int| 0 <= j < distinct(list).len() && distinct(list)[j] == x;
                if j < d.len() {
                    assert(d[j] == x);
                    assert(d.contains(x));
                    assert(front.contains(x));
                    let k = choose|k: int| 0 <= k < front.len() && front[k] == x;
                    assert(list[k] == x);
                } else {
                    assert(list[list.len() - 1] == x);
                }
            }
        }
    }
}

/// One more triangle adds its three corners.
proof fn flat_of_one_more(tris: Seq<[u32; 3]>, t: [u32; 3])
    ensures
        flat(tris.push(t)) == flat(tris).push(t@[0]).push(t@[1]).push(t@[2]),
        distinct(flat(tris.push(t))) == extended(
            extended(extended(distinct(flat(tris)), t@[0]), t@[1]),
            t@[2],
        ),
{
    let f = flat(tris);
    let g = flat(tris.push(t));
    let n = tris.len();
    assert forall|k: int| 0 <= k < g.len() implies g[k] == f.push(t@[0]).push(t@[1]).push(
        t@[2],
    )[k] by {
        if k < 3 * n {
            assert(0 <= k / 3 < n);
        } else {
            assert(k / 3 == n);
            assert(k % 3 == k - 3 * n);
        }
    }
    assert(g =~= f.push(t@[0]).push(t@[1]).push(t@[2]));
    let a = f.push(t@[0]);
    let b = a.push(t@[1]);
    assert(a.drop_last() =~= f);
    assert(b.drop_last() =~= a);
    assert(g.drop_last() =~= b);
    assert(distinct(a) == extended(distinct(f), t@[0]));
    assert(distinct(b) == extended(distinct(a), t@[1]));
    assert(distinct(g) == extended(distinct(b), t@[2]));
}

/// The table says where each vertex stands in the list, and nothing else.
spec fn table_is_right(table: Map<u32, u32>, sources: Seq<u32>) -> bool {
    &&& sources.no_duplicates()
    &&& forall|x: u32| #[trigger] table.contains_key(x) <==> sources.contains(x)
    &&& forall|x: u32| #[trigger]
        table.contains_key(x) ==> table[x] < sources.len() && sources[table[x] as int] == x
}

/// Where a vertex stands in the list, after it was added if it was missing.
fn place(table: &mut HashMap<u32, u32>, sources: &mut Vec<u32>, x: u32) -> (r: u32)
    requires
        table_is_right(old(table)@, old(sources)@),
        old(sources)@.len() <= u32::MAX,
    ensures
        table_is_right(final(table)@, final(sources)@),
        final(sources)@ == extended(old(sources)@, x),
        r < final(sources)@.len(),
        final(sources)@[r as int] == x,
{
    let found: Option<u32> = match table.get(&x) {
        Some(i) => Some(*i),
        None => None,
    };
    match found {
        Some(i) => i,
        None => {
            let ghost before = sources@;
            let ghost known = table@;
            let i: u32 = sources.len() as u32;
            sources.push(x);
            table.insert(x, i);
            proof {
                assert(!before.contains(x));
                assert(sources@[before.len() as int] == x);
                assert forall|y: u32| #[trigger] table@.contains_key(y) <==> sources@.contains(
                    y,
                ) by {
                    if before.contains(y) {
                        let k = choose|k: int| 0 <= k < before.len() && before[k] == y;
                        assert(sources@[k] == y);
                    }
                    if sources@.contains(y) && y != x {
                        let k = choose|k: int| 0 <= k < sources@.len() && sources@[k] == y;
                        assert(before[k] == y);
                        assert(known.contains_key(y));
                    }
                    if table@.contains_key(y) && y != x {
                        assert(known.contains_key(y));
                    }
                }
                assert forall|y: u32| #[trigger] table@.contains_key(y) implies table@[y]
                    < sources@.len() && sources@[table@[y] as int] == y by {
                    if y != x {
                        assert(known.contains_key(y));
                    }
                }
            }
            i
        },
    }
}

/// The list with only the chosen elements, in the order of the choice.
fn pick<T: Copy>(list: &Vec<T>, sources: &Vec<u32>) -> (r: Vec<T>)
    requires
        forall|k: int| 0 <= k < sources@.len() ==> #[trigger] sources@[k] < list@.len(),
    ensures
        r@ == sources@.map_values(|v: u32| list@[v as int]),
{
    let mut out: Vec<T> = Vec::new();
    let ghost all = sources@.map_values(|v: u32| list@[v as int]);
    let mut i: usize = 0;
    while i < sources.len()
        invariant
            i <= sources@.len(),
            all == sources@.map_values(|v: u32| list@[v as int]),
            out@ == all.take(i as int),
            forall|k: int| 0 <= k < sources@.len() ==> #[trigger] sources@[k] < list@.len(),
        decreases sources@.len() - i,
    {
        out.push(list[sources[i] as usize]);
        proof {
            assert(out@ =~= all.take(i + 1));
        }
        i = i + 1;
    }
    proof {
        assert(all.take(sources@.len() as int) =~= all);
    }
    out
}

/// Every vertex of the mesh has a position, a normal and texture coordinates, and its
/// triangles use no others.
pub open spec fn mesh_is_complete(mesh: CpuMesh) -> bool {
    &&& mesh.normals@.len() == mesh.positions@.len()
    &&& mesh.uvs@.len() == mesh.positions@.len()
    &&& mesh.positions@.len() <= u32::MAX
    &&& forall|k: int|
        0 <= k < 3 * mesh.indices@.len() ==> #[trigger] flat(mesh.indices@)[k]
            < mesh.positions@.len()
}

/// The corners of the kept triangles are vertices of the mesh.
proof fn kept_corners_exist(tris: Seq<[u32; 3]>, centres: Seq<Pair>, tile: u32, n: nat, limit: nat)
    requires
        n <= tris.len(),
        forall|k: int| 0 <= k < 3 * tris.len() ==> #[trigger] flat(tris)[k] < limit,
    ensures
        forall|k: int|
            0 <= k < flat(kept(tris, centres, tile, n)).len() ==> #[trigger] flat(
                kept(tris, centres, tile, n),
            )[k] < limit,
    decreases n,
{
    if n > 0 {
        kept_corners_exist(tris, centres, tile, (n - 1) as nat, limit);
        let before = kept(tris, centres, tile, (n - 1) as nat);
        let t = tris[n - 1];
        flat_of_one_more(before, t);
        let base = 3 * (n - 1);
        assert((base + 0) / 3 == n - 1 && (base + 1) / 3 == n - 1 && (base + 2) / 3 == n - 1);
        assert(flat(tris)[base] == t@[0]);
        assert(flat(tris)[base + 1] == t@[1]);
        assert(flat(tris)[base + 2] == t@[2]);
    }
}

/// The list of used vertices stays below the number of vertices.
proof fn tile_vertices_are_few(
    tris: Seq<[u32; 3]>,
    centres: Seq<Pair>,
    tile: u32,
    n: nat,
    limit: nat,
)
    requires
        n <= tris.len(),
        forall|k: int| 0 <= k < 3 * tris.len() ==> #[trigger] flat(tris)[k] < limit,
    ensures
        distinct(flat(kept(tris, centres, tile, n))).len() <= limit,
        forall|k: int|
            0 <= k < distinct(flat(kept(tris, centres, tile, n))).len() ==> #[trigger] distinct(
                flat(kept(tris, centres, tile, n)),
            )[k] < limit,
{
    let corners = flat(kept(tris, centres, tile, n));
    let d = distinct(corners);
    kept_corners_exist(tris, centres, tile, n, limit);
    distinct_is_complete(corners);
    assert forall|k: int| 0 <= k < d.len() implies #[trigger] d[k] < limit by {
        assert(d.contains(d[k]));
        assert(corners.contains(d[k]));
        let j = choose|j: int| 0 <= j < corners.len() && corners[j] == d[k];
        assert(corners[j] < limit);
    }
    let numbers = d.map_values(|v: u32| v as int);
    assert(numbers.no_duplicates());
    distinct_numbers_are_few(numbers, limit);
}

/// The triangles of a tile, over a list of the vertices that they use.
struct Cut {
    sources: Vec<u32>,
    indices: Vec<[u32; 3]>,
}

/// The new triangles are the kept ones, with each corner given by its place in the list.
pub open spec fn renumbered(
    indices: Seq<[u32; 3]>,
    sources: Seq<u32>,
    tris: Seq<[u32; 3]>,
) -> bool {
    &&& indices.len() == tris.len()
    &&& forall|k: int, c: int|
        0 <= k < indices.len() && 0 <= c < 3 ==> (#[trigger] indices[k]@[c]) < sources.len()
            && sources[indices[k]@[c] as int] == tris[k]@[c]
}

/// Longer lists of vertices keep the places that triangles refer to.
proof fn renumbered_grows(
    indices: Seq<[u32; 3]>,
    sources: Seq<u32>,
    more: Seq<u32>,
    tris: Seq<[u32; 3]>,
    new: [u32; 3],
    t: [u32; 3],
)
    requires
        renumbered(indices, sources, tris),
        sources.is_prefix_of(more),
        forall|c: int| 0 <= c < 3 ==> (#[trigger] new@[c]) < more.len() && more[new@[c] as int] == t@[c],
    ensures
        renumbered(indices.push(new), more, tris.push(t)),
{
    let all = indices.push(new);
    assert forall|k: int, c: int| 0 <= k < all.len() && 0 <= c < 3 implies (
    #[trigger] all[k]@[c]) < more.len() && more[all[k]@[c] as int] == tris.push(t)[k]@[c] by {
        if k < indices.len() {
            assert(indices[k]@[c] < sources.len());
            assert(more.take(sources.len() as int)[indices[k]@[c] as int]
                == more[indices[k]@[c] as int]);
        } else {
            assert(new@[c] < more.len());
        }
    }
}

/// The triangles of a mesh whose centre lies in a tile, over a list of the vertices that
/// they use.
fn cut(mesh: &CpuMesh, centres: &Vec<Pair>, tile: u32) -> (r: Cut)
    requires
        mesh_is_complete(*mesh),
        centres@.len() == mesh.indices@.len(),
        forall|i: int| 0 <= i < centres@.len() ==> tile_of(#[trigger] centres@[i]) <= u32::MAX,
    ensures
        r.sources@ == tile_vertices(mesh.indices@, centres@, tile),
        renumbered(
            r.indices@,
            r.sources@,
            kept(mesh.indices@, centres@, tile, mesh.indices@.len()),
        ),
        forall|k: int| 0 <= k < r.sources@.len() ==> #[trigger] r.sources@[k] < mesh.positions@.len(),
{
    let ghost tris = mesh.indices@;
    let ghost limit = mesh.positions@.len();
    let mut table: HashMap<u32, u32> = HashMap::new();
    let mut sources: Vec<u32> = Vec::new();
    let mut indices: Vec<[u32; 3]> = Vec::new();
    proof {
        assert(flat(kept(tris, centres@, tile, 0)) =~= Seq::<u32>::empty());
    }
    let mut i: usize = 0;
    while i < mesh.indices.len()
        invariant
            i <= tris.len(),
            tris == mesh.indices@,
            limit == mesh.positions@.len(),
            mesh_is_complete(*mesh),
            centres@.len() == tris.len(),
            forall|i: int| 0 <= i < centres@.len() ==> tile_of(#[trigger] centres@[i]) <= u32::MAX,
            table_is_right(table@, sources@),
            sources@ == distinct(flat(kept(tris, centres@, tile, i as nat))),
            renumbered(indices@, sources@, kept(tris, centres@, tile, i as nat)),
        decreases tris.len() - i,
    {
        let ghost before = kept(tris, centres@, tile, i as nat);
        let ghost s0 = sources@;
        if tile_id(centres[i]) == tile {
            let t = mesh.indices[i];
            proof {
                flat_of_one_more(before, t);
                tile_vertices_are_few(tris, centres@, tile, (i + 1) as nat, limit);
            }
            let a = place(&mut table, &mut sources, t[0]);
            let ghost s1 = sources@;
            let b = place(&mut table, &mut sources, t[1]);
            let ghost s2 = sources@;
            let c = place(&mut table, &mut sources, t[2]);
            let new: [u32; 3] = [a, b, c];
            proof {
                let s3 = sources@;
                assert(s0.is_prefix_of(s1) && s1.is_prefix_of(s2) && s2.is_prefix_of(s3));
                assert(s3.take(s1.len() as int)[a as int] == s3[a as int]) by {
                    assert(s2.take(s1.len() as int) =~= s1);
                    assert(s3.take(s2.len() as int) =~= s2);
                }
                assert(s0.is_prefix_of(s3)) by {
                    assert(s1.take(s0.len() as int) =~= s0);
                    assert(s2.take(s1.len() as int) =~= s1);
                    assert(s3.take(s2.len() as int) =~= s2);
                    assert(s3.take(s0.len() as int) =~= s0);
                }
                assert forall|j: int| 0 <= j < 3 implies (#[trigger] new@[j]) < s3.len()
                    && s3[new@[j] as int] == t@[j] by {
                    assert(s2.take(s1.len() as int) =~= s1);
                    assert(s3.take(s2.len() as int) =~= s2);
                    if j == 0 {
                        assert(s1[a as int] == s2[a as int]);
                        assert(s2[a as int] == s3[a as int]);
                    } else if j == 1 {
                        assert(s2[b as int] == s3[b as int]);
                    }
                }
                renumbered_grows(indices@, s0, s3, before, new, t);
            }
            indices.push(new);
        }
        i = i + 1;
    }
    proof {
        tile_vertices_are_few(tris, centres@, tile, tris.len(), limit);
    }
    Cut { sources, indices }
}

/// The name of a tile of a mesh.
pub open spec fn tile_name(name: Seq<char>, between: Seq<char>, tile: u32) -> Seq<char> {
    name + between + decimal(tile as nat)
}

/// A cage is used only where it has a vertex for each vertex of the mesh.
pub open spec fn cage_fits(mesh: CpuMesh, cage: Option<&CpuMesh>) -> bool {
    match cage {
        Some(c) => c.positions@.len() == mesh.positions@.len(),
        None => false,
    }
}

/// The part of a mesh whose triangles have their centre in a tile, with the part of its
/// cage that goes with it. A cage that does not fit is left out. Nothing comes back where
/// the tile is empty.
pub fn extract_tile_mesh(
    name: &str,
    mesh: &CpuMesh,
    cage: Option<&CpuMesh>,
    centres: &Vec<Pair>,
    tile: u32,
) -> (r: Option<TileMesh>)
    requires
        mesh_is_complete(*mesh),
        centres@.len() == mesh.indices@.len(),
        forall|i: int| 0 <= i < centres@.len() ==> tile_of(#[trigger] centres@[i]) <= u32::MAX,
        cage_fits(*mesh, cage) ==> cage->0.normals@.len() == mesh.positions@.len(),
    ensures
        ({
            let tris = kept(mesh.indices@, centres@, tile, mesh.indices@.len());
            let used = tile_vertices(mesh.indices@, centres@, tile);
            match r {
                None => tris.len() == 0,
                Some(m) => {
                    &&& tris.len() > 0
                    &&& m.name@ == tile_name(name@, ".tile"@, tile)
                    &&& m.positions@ == used.map_values(|v: u32| mesh.positions@[v as int])
                    &&& m.normals@ == used.map_values(|v: u32| mesh.normals@[v as int])
                    &&& m.uvs@ == used.map_values(|v: u32| mesh.uvs@[v as int])
                    &&& (m.origin.0 as int, m.origin.1 as int) == tile_place(tile)
                    &&& renumbered(m.indices@, used, tris)
                    &&& match m.cage {
                        None => !cage_fits(*mesh, cage),
                        Some(c) => {
                            &&& cage_fits(*mesh, cage)
                            &&& c.name@ == tile_name(name@, ".cage.tile"@, tile)
                            &&& c.positions@ == used.map_values(
                                |v: u32| cage->0.positions@[v as int],
                            )
                            &&& c.normals@ == used.map_values(|v: u32| cage->0.normals@[v as int])
                        },
                    }
                },
            }
        }),
{
    let part = cut(mesh, centres, tile);
    if part.indices.len() == 0 {
        return None;
    }
    let number = decimal_text(tile as u64);
    let tile_cage: Option<TileCage> = match cage {
        Some(c) => {
            if c.positions.len() == mesh.positions.len() {
                Some(
                    TileCage {
                        name: String::from_str(name).concat(".cage.tile").concat(number.as_str()),
                        positions: pick(&c.positions, &part.sources),
                        normals: pick(&c.normals, &part.sources),
                    },
                )
            } else {
                None
            }
        },
        None => None,
    };
    Some(
        TileMesh {
            name: String::from_str(name).concat(".tile").concat(number.as_str()),
            positions: pick(&mesh.positions, &part.sources),
            normals: pick(&mesh.normals, &part.sources),
            uvs: pick(&mesh.uvs, &part.sources),
            origin: udim_offset(tile),
            indices: part.indices,
            cage: tile_cage,
        },
    )
}

/// Whether a triangle is one of the first `n` and has its centre in a tile.
pub open spec fn centred_in(
    tris: Seq<[u32; 3]>,
    centres: Seq<Pair>,
    tile: u32,
    n: nat,
    t: [u32; 3],
) -> bool {
    exists|i: int| 0 <= i < n && tile_of(#[trigger] centres[i]) == tile && tris[i] == t
}

/// Every triangle is kept for the tile in which its centre lies, and whatever is kept for
/// a tile has its centre there.
pub proof fn triangles_go_to_the_tile_of_their_centre(
    tris: Seq<[u32; 3]>,
    centres: Seq<Pair>,
    tile: u32,
    n: nat,
)
    requires
        centres.len() == tris.len(),
        n <= tris.len(),
    ensures
        forall|i: int|
            0 <= i < n && tile_of(#[trigger] centres[i]) == tile ==> kept(
                tris,
                centres,
                tile,
                n,
            ).contains(tris[i]),
        forall|j: int|
            0 <= j < kept(tris, centres, tile, n).len() ==> centred_in(
                tris,
                centres,
                tile,
                n,
                #[trigger] kept(tris, centres, tile, n)[j],
            ),
    decreases n,
{
    if n > 0 {
        let before = kept(tris, centres, tile, (n - 1) as nat);
        let after = kept(tris, centres, tile, n);
        triangles_go_to_the_tile_of_their_centre(tris, centres, tile, (n - 1) as nat);
        assert forall|i: int| 0 <= i < n && tile_of(#[trigger] centres[i]) == tile implies after.contains(
            tris[i],
        ) by {
            if i < n - 1 {
                assert(before.contains(tris[i]));
                let k = choose|k: int| 0 <= k < before.len() && before[k] == tris[i];
                assert(after[k] == tris[i]);
            } else {
                assert(after[before.len() as int] == tris[i]);
            }
        }
        assert forall|j: int| 0 <= j < after.len() implies centred_in(
            tris,
            centres,
            tile,
            n,
            #[trigger] after[j],
        ) by {
            if j < before.len() {
                assert(after[j] == before[j]);
                assert(centred_in(tris, centres, tile, (n - 1) as nat, before[j]));
                let i = choose|i: int|
                    0 <= i < n - 1 && tile_of(#[trigger] centres[i]) == tile && tris[i]
                        == before[j];
                assert(tile_of(centres[i]) == tile);
            } else {
                assert(tile_of(centres[n - 1]) == tile);
            }
        }
    }
}

/// Cutting a tile out moves no corner: a corner of the part has the position, the normal and the
/// texture coordinate of the corner that it was cut from.
pub proof fn corners_stay_where_they_are(
    mesh: CpuMesh,
    used: Seq<u32>,
    indices: Seq<[u32; 3]>,
    tris: Seq<[u32; 3]>,
    k: int,
    c: int,
)
    requires
        renumbered(indices, used, tris),
        0 <= k < indices.len(),
        0 <= c < 3,
    ensures
        ({
            let at = indices[k]@[c] as int;
            let from = tris[k]@[c] as int;
            &&& 0 <= at < used.len()
            &&& used.map_values(|v: u32| mesh.positions@[v as int])[at] == mesh.positions@[from]
            &&& used.map_values(|v: u32| mesh.normals@[v as int])[at] == mesh.normals@[from]
            &&& used.map_values(|v: u32| mesh.uvs@[v as int])[at] == mesh.uvs@[from]
        }),
{
}

} // verus!
