//! glTF scenes as USD text.
//!
//! The caller reads the file and does the arithmetic on coordinates; what is decided here
//! is in which order the nodes are visited, which primitives become meshes, what the
//! meshes are called, how their triangles are wound, and what the document says.

use crate::counting::distinct_numbers_are_few;
use crate::lines::{are_lines, is_line, lines_read_back, of_lines};
use crate::renderer::list_contains;
use crate::text::{decimal, decimal_reads_back, decimal_text, opt_view, same_text, split, views};
use crate::usda::{
    a_mesh_is_shown, begin_document, begin_mesh, document_start, document_start_is_lines, end_mesh,
    face_vertex_counts, face_vertex_indices, lines_follow, mesh_end, mesh_height, mesh_lines,
    mesh_start, meshes_are_shown_anywhere, normals_block, numbers, numbers_read_back, one_line,
    pairs_are_lines, points_block, root_lines, shown_by_a_part, shows_mesh, triples_are_lines, uvs_block,
    write_face_vertex_counts, write_index_list, write_normals, write_points, write_uvs,
    Interpolation, PairText, TripleText,
};
use vstd::prelude::*;

verus! {

/// What a conversion produced.
#[derive(Clone, Copy, Debug, PartialEq, Eq, Structural)]
pub struct GltfConversionSummary {
    pub meshes: usize,
    pub vertices: usize,
    pub triangles: usize,
}

/// One step of a walk over the nodes: the node, and the step at which its parent was
/// visited.
#[derive(Clone, Copy, Debug)]
pub struct Visit {
    pub node: usize,
    pub parent: Option<usize>,
}

/// The walk below one node, parents before children and children in order, where the
/// steps are numbered from `start`. There is none when nodes are nested more than
/// `depth` deep.
pub open spec fn walk(
    children: Seq<Seq<usize>>,
    node: usize,
    parent: Option<usize>,
    start: nat,
    depth: nat,
) -> Option<Seq<Visit>>
    decreases depth, children[node as int].len() + 1,
{
    if depth == 0 {
        None
    } else {
        match walk_children(
            children,
            node,
            start as usize,
            start + 1,
            (depth - 1) as nat,
            children[node as int].len(),
        ) {
            Some(below) => Some(seq![Visit { node, parent }] + below),
            None => None,
        }
    }
}

/// The walk below the first `n` children of a node that was visited at step `at`.
pub open spec fn walk_children(
    children: Seq<Seq<usize>>,
    node: usize,
    at: usize,
    start: nat,
    depth: nat,
    n: nat,
) -> Option<Seq<Visit>>
    decreases depth + 1, n,
{
    if n == 0 {
        Some(Seq::empty())
    } else {
        match walk_children(children, node, at, start, depth, (n - 1) as nat) {
            None => None,
            Some(before) => if depth == 0 {
                None
            } else {
                match walk(
                    children,
                    children[node as int][n - 1],
                    Some(at),
                    start + before.len(),
                    depth,
                ) {
                    None => None,
                    Some(below) => Some(before + below),
                }
            },
        }
    }
}

/// The walk below the first `n` roots.
pub open spec fn walk_roots(
    children: Seq<Seq<usize>>,
    roots: Seq<usize>,
    depth: nat,
    n: nat,
) -> Option<Seq<Visit>>
    decreases n,
{
    if n == 0 {
        Some(Seq::empty())
    } else {
        match walk_roots(children, roots, depth, (n - 1) as nat) {
            None => None,
            Some(before) => match walk(children, roots[n - 1], None, before.len(), depth) {
                None => None,
                Some(below) => Some(before + below),
            },
        }
    }
}

/// The lists of children as a value of the specification.
pub open spec fn tree(children: Seq<Vec<usize>>) -> Seq<Seq<usize>> {
    Seq::new(children.len(), |i: int| children[i]@)
}

/// Whether every node that is mentioned exists.
pub open spec fn nodes_exist(list: Seq<usize>, count: nat) -> bool {
    forall|k: int| 0 <= k < list.len() ==> #[trigger] list[k] < count
}

/// Visits a node and what is below it. Gives up when nodes are nested more than `depth`
/// deep.
fn collect_node(
    children: &Vec<Vec<usize>>,
    node: usize,
    parent: Option<usize>,
    depth: usize,
    out: &mut Vec<Visit>,
) -> (r: bool)
    requires
        node < children@.len(),
        forall|i: int|
            0 <= i < children@.len() ==> nodes_exist(#[trigger] children@[i]@, children@.len()),
    ensures
        match walk(tree(children@), node, parent, old(out)@.len(), depth as nat) {
            Some(steps) => r && final(out)@ == old(out)@ + steps,
            None => !r,
        },
    decreases depth,
{
    if depth == 0 {
        return false;
    }
    let at: usize = out.len();
    let ghost start = out@;
    let ghost all = tree(children@);
    out.push(Visit { node, parent });
    let ghost first = out@;
    let below = &children[node];
    let mut k: usize = 0;
    proof {
        assert(first + Seq::<Visit>::empty() =~= first);
        assert(nodes_exist(children@[node as int]@, children@.len()));
    }
    while k < below.len()
        invariant
            k <= below@.len(),
            depth > 0,
            node < children@.len(),
            all == tree(children@),
            below@ == all[node as int],
            nodes_exist(below@, children@.len()),
            forall|i: int|
                0 <= i < children@.len() ==> nodes_exist(
                    #[trigger] children@[i]@,
                    children@.len(),
                ),
            start == old(out)@,
            first == start.push(Visit { node, parent }),
            at == start.len(),
            match walk_children(
                all,
                node,
                at,
                (at + 1) as nat,
                (depth - 1) as nat,
                k as nat,
            ) {
                Some(steps) => out@ == first + steps,
                None => false,
            },
        decreases below@.len() - k,
    {
        let ghost before = out@;
        let ghost steps = walk_children(
            all,
            node,
            at,
            (at + 1) as nat,
            (depth - 1) as nat,
            k as nat,
        )->0;
        if !collect_node(children, below[k], Some(at), depth - 1, out) {
            proof {
                assert(before.len() == at + 1 + steps.len());
                assert(walk_children(
                    all,
                    node,
                    at,
                    (at + 1) as nat,
                    (depth - 1) as nat,
                    (k + 1) as nat,
                ) is None);
                walk_children_gives_up(
                    all,
                    node,
                    at,
                    (at + 1) as nat,
                    (depth - 1) as nat,
                    (k + 1) as nat,
                    below@.len(),
                );
            }
            return false;
        }
        proof {
            let more = walk(
                all,
                below@[k as int],
                Some(at),
                before.len(),
                (depth - 1) as nat,
            )->0;
            assert(out@ =~= first + (steps + more));
        }
        k = k + 1;
    }
    proof {
        let steps = walk_children(
            all,
            node,
            at,
            (at + 1) as nat,
            (depth - 1) as nat,
            below@.len(),
        )->0;
        assert(out@ =~= start + (seq![Visit { node, parent }] + steps));
    }
    true
}

/// Once a walk was given up, further children do not help.
proof fn walk_children_gives_up(
    children: Seq<Seq<usize>>,
    node: usize,
    at: usize,
    start: nat,
    depth: nat,
    k: nat,
    n: nat,
)
    requires
        k <= n,
        walk_children(children, node, at, start, depth, k) is None,
    ensures
        walk_children(children, node, at, start, depth, n) is None,
    decreases n,
{
    if k < n {
        walk_children_gives_up(children, node, at, start, depth, k, (n - 1) as nat);
    }
}

/// Once a walk was given up, further roots do not help.
proof fn walk_roots_gives_up(
    children: Seq<Seq<usize>>,
    roots: Seq<usize>,
    depth: nat,
    k: nat,
    n: nat,
)
    requires
        k <= n,
        walk_roots(children, roots, depth, k) is None,
    ensures
        walk_roots(children, roots, depth, n) is None,
    decreases n,
{
    if k < n {
        walk_roots_gives_up(children, roots, depth, k, (n - 1) as nat);
    }
}

/// The order in which the nodes of a scene are visited. There is none when nodes are
/// nested deeper than there are nodes, which takes a node that contains itself.
pub fn visit_order(children: &Vec<Vec<usize>>, roots: &Vec<usize>) -> (r: Option<Vec<Visit>>)
    requires
        nodes_exist(roots@, children@.len()),
        forall|i: int|
            0 <= i < children@.len() ==> nodes_exist(#[trigger] children@[i]@, children@.len()),
    ensures
        match walk_roots(tree(children@), roots@, children@.len(), roots@.len()) {
            Some(steps) => r matches Some(list) && list@ == steps,
            None => r is None,
        },
{
    let mut out: Vec<Visit> = Vec::new();
    let depth: usize = children.len();
    let mut k: usize = 0;
    while k < roots.len()
        invariant
            k <= roots@.len(),
            depth == children@.len(),
            nodes_exist(roots@, children@.len()),
            forall|i: int|
                0 <= i < children@.len() ==> nodes_exist(
                    #[trigger] children@[i]@,
                    children@.len(),
                ),
            walk_roots(tree(children@), roots@, depth as nat, k as nat) == Some(out@),
        decreases roots@.len() - k,
    {
        if !collect_node(children, roots[k], None, depth, &mut out) {
            proof {
                walk_roots_gives_up(
                    tree(children@),
                    roots@,
                    depth as nat,
                    (k + 1) as nat,
                    roots@.len(),
                );
            }
            return None;
        }
        k = k + 1;
    }
    Some(out)
}

/// Whether `rank` shows that no node contains itself: every child ranks below its parent.
pub open spec fn is_ranked(children: Seq<Seq<usize>>, rank: Seq<nat>) -> bool {
    &&& rank.len() == children.len()
    &&& forall|i: int, k: int|
        0 <= i < children.len() && 0 <= k < children[i].len() ==> (
        #[trigger] children[i][k]) < children.len() && rank[children[i][k] as int] < rank[i]
    &&& forall|i: int| 0 <= i < rank.len() ==> #[trigger] rank[i] < children.len()
}

/// A walk over nodes of which none contains itself is never given up.
pub proof fn ranked_nodes_are_visited(
    children: Seq<Seq<usize>>,
    rank: Seq<nat>,
    roots: Seq<usize>,
    n: nat,
)
    requires
        is_ranked(children, rank),
        n <= roots.len(),
        nodes_exist(roots, children.len()),
    ensures
        walk_roots(children, roots, children.len(), n) is Some,
    decreases n,
{
    if n > 0 {
        ranked_nodes_are_visited(children, rank, roots, (n - 1) as nat);
        let before = walk_roots(children, roots, children.len(), (n - 1) as nat)->0;
        assert(roots[n - 1] < children.len());
        ranked_walk(children, rank, roots[n - 1], None, before.len(), children.len());
    }
}

/// A walk below a node needs no more depth than the rank of the node.
proof fn ranked_walk(
    children: Seq<Seq<usize>>,
    rank: Seq<nat>,
    node: usize,
    parent: Option<usize>,
    start: nat,
    depth: nat,
)
    requires
        is_ranked(children, rank),
        node < children.len(),
        rank[node as int] < depth,
    ensures
        walk(children, node, parent, start, depth) is Some,
    decreases depth, children[node as int].len() + 1,
{
    ranked_children(
        children,
        rank,
        node,
        start as usize,
        start + 1,
        (depth - 1) as nat,
        children[node as int].len(),
    );
}

/// The same for the first `n` children of a node.
proof fn ranked_children(
    children: Seq<Seq<usize>>,
    rank: Seq<nat>,
    node: usize,
    at: usize,
    start: nat,
    depth: nat,
    n: nat,
)
    requires
        is_ranked(children, rank),
        node < children.len(),
        rank[node as int] <= depth,
        n <= children[node as int].len(),
    ensures
        walk_children(children, node, at, start, depth, n) is Some,
    decreases depth + 1, n,
{
    if n > 0 {
        ranked_children(children, rank, node, at, start, depth, (n - 1) as nat);
        let before = walk_children(children, node, at, start, depth, (n - 1) as nat)->0;
        let child = children[node as int][n - 1];
        assert(child < children.len() && rank[child as int] < rank[node as int]);
        ranked_walk(children, rank, child, Some(at), start + before.len(), depth);
    }
}

/// What is known of a primitive before its coordinates are touched.
pub struct GltfPrimitive {
    /// Whether it is made of separate triangles.
    pub triangles: bool,
    pub point_count: usize,
    pub indices: Option<Vec<u32>>,
}

impl GltfPrimitive {
    /// The indices of the corners. Without an index list every point is used once.
    pub open spec fn index_list(self) -> Seq<u32> {
        match self.indices {
            Some(list) => list@,
            None => Seq::new(self.point_count as nat, |i: int| i as u32),
        }
    }

    /// The indices of the corners of whole triangles.
    pub open spec fn whole_triangles(self) -> Seq<u32> {
        let all = self.index_list();
        all.take(all.len() - all.len() % 3)
    }

    /// Whether the primitive becomes a mesh: it has points and at least one triangle.
    pub open spec fn is_kept(self) -> bool {
        self.triangles && self.point_count > 0 && self.whole_triangles().len() > 0
    }

    /// The indices of the corners of whole triangles.
    pub fn triangle_indices(&self) -> (r: Vec<u32>)
        requires
            self.point_count <= u32::MAX,
        ensures
            r@ == self.whole_triangles(),
    {
        let mut out: Vec<u32> = Vec::new();
        match &self.indices {
            Some(list) => {
                let n: usize = list.len() - list.len() % 3;
                let mut i: usize = 0;
                while i < n
                    invariant
                        i <= n <= list@.len(),
                        out@ == list@.take(i as int),
                    decreases n - i,
                {
                    out.push(list[i]);
                    proof {
                        assert(out@ =~= list@.take(i + 1));
                    }
                    i = i + 1;
                }
            },
            None => {
                let n: usize = self.point_count - self.point_count % 3;
                let ghost all = self.index_list();
                let mut i: usize = 0;
                while i < n
                    invariant
                        i <= n <= self.point_count <= u32::MAX,
                        all == Seq::new(self.point_count as nat, |k: int| k as u32),
                        out@ == all.take(i as int),
                    decreases n - i,
                {
                    out.push(i as u32);
                    proof {
                        assert(out@ =~= all.take(i + 1));
                    }
                    i = i + 1;
                }
            },
        }
        out
    }
}

/// The triangles turned over: the second and third corner of each are exchanged.
pub open spec fn turned_over(indices: Seq<u32>) -> Seq<u32> {
    Seq::new(
        indices.len(),
        |k: int|
            if k % 3 == 1 {
                indices[k + 1]
            } else if k % 3 == 2 {
                indices[k - 1]
            } else {
                indices[k]
            },
    )
}

/// Turning triangles over twice changes nothing.
pub proof fn turned_over_twice(indices: Seq<u32>)
    requires
        indices.len() % 3 == 0,
    ensures
        turned_over(turned_over(indices)) == indices,
{
    assert(turned_over(turned_over(indices)) =~= indices);
}

/// Turns the triangles over where the transform mirrors, so that their front stays
/// outside.
pub fn keep_winding(indices: &Vec<u32>, mirrored: bool) -> (r: Vec<u32>)
    requires
        indices@.len() % 3 == 0,
    ensures
        r@ == if mirrored {
            turned_over(indices@)
        } else {
            indices@
        },
{
    let mut out: Vec<u32> = Vec::new();
    let ghost all = if mirrored {
        turned_over(indices@)
    } else {
        indices@
    };
    let mut i: usize = 0;
    while i < indices.len()
        invariant
            i <= indices@.len(),
            i % 3 == 0,
            indices@.len() % 3 == 0,
            all == if mirrored {
                turned_over(indices@)
            } else {
                indices@
            },
            out@ == all.take(i as int),
        decreases indices@.len() - i,
    {
        out.push(indices[i]);
        if mirrored {
            out.push(indices[i + 2]);
            out.push(indices[i + 1]);
        } else {
            out.push(indices[i + 1]);
            out.push(indices[i + 2]);
        }
        proof {
            assert(out@ =~= all.take(i + 3));
        }
        i = i + 3;
    }
    proof {
        assert(all.take(all.len() as int) =~= all);
    }
    out
}

/// A primitive that becomes a mesh.
pub struct PlannedMesh {
    pub primitive: usize,
    pub name: String,
    pub indices: Vec<u32>,
}

/// The same as a value of the specification.
pub struct PlanModel {
    pub primitive: int,
    pub name: Seq<char>,
    pub indices: Seq<u32>,
}

impl View for PlannedMesh {
    type V = PlanModel;

    open spec fn view(&self) -> PlanModel {
        PlanModel {
            primitive: self.primitive as int,
            name: self.name@,
            indices: self.indices@,
        }
    }
}

/// Each planned mesh as a value of the specification.
pub open spec fn plans(list: Seq<PlannedMesh>) -> Seq<PlanModel> {
    Seq::new(list.len(), |i: int| list[i]@)
}

/// What the meshes of a node are called after: the node, else its mesh, else `mesh`. The
/// names are those that are left once everything that USD does not allow is taken out.
pub open spec fn base_name(node: Option<Seq<char>>, mesh: Option<Seq<char>>) -> Seq<char> {
    let name = match node {
        Some(n) => n,
        None => match mesh {
            Some(m) => m,
            None => Seq::empty(),
        },
    };
    if name.len() == 0 {
        "mesh"@
    } else {
        name
    }
}

/// The name of the mesh for one primitive out of `count`.
pub open spec fn primitive_name(base: Seq<char>, primitive: nat, count: nat) -> Seq<char> {
    if count > 1 {
        base + "_prim"@ + decimal(primitive)
    } else {
        base
    }
}

/// The meshes for the first `n` primitives.
pub open spec fn planned(primitives: Seq<GltfPrimitive>, base: Seq<char>, n: nat) -> Seq<PlanModel>
    decreases n,
{
    if n == 0 {
        Seq::empty()
    } else {
        let before = planned(primitives, base, (n - 1) as nat);
        if primitives[n - 1].is_kept() {
            before.push(
                PlanModel {
                    primitive: n - 1,
                    name: primitive_name(base, (n - 1) as nat, primitives.len()),
                    indices: primitives[n - 1].whole_triangles(),
                },
            )
        } else {
            before
        }
    }
}

/// The meshes that the primitives of a node become.
pub fn plan_node(
    primitives: &Vec<GltfPrimitive>,
    node_name: Option<String>,
    mesh_name: Option<String>,
) -> (r: Vec<PlannedMesh>)
    requires
        forall|i: int|
            0 <= i < primitives@.len() ==> (#[trigger] primitives@[i]).point_count <= u32::MAX,
    ensures
        plans(r@) == planned(
            primitives@,
            base_name(opt_view(node_name), opt_view(mesh_name)),
            primitives@.len(),
        ),
{
    let ghost base_view = base_name(opt_view(node_name), opt_view(mesh_name));
    let given = match node_name {
        Some(n) => n,
        None => match mesh_name {
            Some(m) => m,
            None => String::new(),
        },
    };
    let base = if given.as_str().is_empty() {
        String::from_str("mesh")
    } else {
        given
    };
    let mut out: Vec<PlannedMesh> = Vec::new();
    let mut i: usize = 0;
    proof {
        assert(plans(out@) =~= Seq::<PlanModel>::empty());
    }
    while i < primitives.len()
        invariant
            i <= primitives@.len(),
            base@ == base_view,
            forall|k: int|
                0 <= k < primitives@.len() ==> (#[trigger] primitives@[k]).point_count
                    <= u32::MAX,
            plans(out@) == planned(primitives@, base_view, i as nat),
        decreases primitives@.len() - i,
    {
        let p = &primitives[i];
        if p.triangles && p.point_count > 0 {
            let indices = p.triangle_indices();
            if indices.len() > 0 {
                let name = if primitives.len() > 1 {
                    let number = decimal_text(i as u64);
                    base.clone().concat("_prim").concat(number.as_str())
                } else {
                    base.clone()
                };
                let ghost before = out@;
                let plan = PlannedMesh { primitive: i, name, indices };
                out.push(plan);
                proof {
                    assert(plans(out@) =~= plans(before).push(plan@));
                }
            }
        }
        i = i + 1;
    }
    out
}

/// A name with a number appended.
pub open spec fn numbered(name: Seq<char>, k: nat) -> Seq<char> {
    name + "_"@ + decimal(k)
}

/// Whether no earlier name is the same as the `i`-th.
pub open spec fn is_new(names: Seq<Seq<char>>, i: int) -> bool {
    forall|k: int| 0 <= k < i ==> #[trigger] names[k] != names[i]
}

/// The first number, from one on, with which a name is not taken.
pub open spec fn is_first_free(taken: Seq<Seq<char>>, name: Seq<char>, at: nat) -> bool {
    &&& 1 <= at
    &&& !taken.contains(numbered(name, at))
    &&& forall|k: nat| 1 <= k < at ==> taken.contains(#[trigger] numbered(name, k))
}

/// The first number with which a name is not taken.
pub open spec fn free_number(taken: Seq<Seq<char>>, name: Seq<char>) -> nat {
    choose|at: nat| is_first_free(taken, name, at)
}

/// The names of the first `n` siblings. The first bearer of a name keeps it; every later one
/// gets the first number appended with which the name is neither given nor handed out.
pub open spec fn first_siblings(names: Seq<Seq<char>>, n: nat) -> Seq<Seq<char>>
    decreases n,
{
    if n == 0 {
        Seq::empty()
    } else {
        let before = first_siblings(names, (n - 1) as nat);
        let name = names[n - 1];
        before.push(
            if is_new(names, n - 1) {
                name
            } else {
                numbered(name, free_number(names + before, name))
            },
        )
    }
}

/// The names of siblings.
pub open spec fn sibling_names(names: Seq<Seq<char>>) -> Seq<Seq<char>> {
    first_siblings(names, names.len())
}

/// Every name that is given has a first bearer.
proof fn names_have_a_first_bearer(names: Seq<Seq<char>>, i: int) -> (j: int)
    requires
        0 <= i < names.len(),
    ensures
        0 <= j <= i,
        names[j] == names[i],
        is_new(names, j),
    decreases i,
{
    if is_new(names, i) {
        i
    } else {
        let k = choose|k: int| 0 <= k < i && #[trigger] names[k] == names[i];
        names_have_a_first_bearer(names, k)
    }
}

/// A number is appended only once.
proof fn numbers_tell_names_apart(name: Seq<char>, x: nat, y: nat)
    requires
        numbered(name, x) == numbered(name, y),
    ensures
        x == y,
{
    let front = name + "_"@;
    let k = front.len() as int;
    assert((front + decimal(x)).skip(k) =~= decimal(x));
    assert((front + decimal(y)).skip(k) =~= decimal(y));
    decimal_reads_back(x);
    decimal_reads_back(y);
}

/// Who bears a name: the first one that it was given to, or else one that was handed it with
/// a number.
spec fn bears(names: Seq<Seq<char>>, before: Seq<Seq<char>>, name: Seq<char>, j: int) -> bool {
    if names.contains(name) {
        0 <= j < names.len() && is_new(names, j) && names[j] == name
    } else {
        0 <= j < before.len() && !is_new(names, j) && before[j] == name
    }
}

/// The one who bears a name.
spec fn bearer(names: Seq<Seq<char>>, before: Seq<Seq<char>>, name: Seq<char>) -> int {
    choose|j: int| bears(names, before, name, j)
}

/// There are no more taken numbers than siblings other than the one that gets a number.
proof fn few_numbers_are_taken(names: Seq<Seq<char>>, i: int, at: nat)
    requires
        0 <= i < names.len(),
        !is_new(names, i),
        1 <= at,
        forall|k: nat|
            1 <= k < at ==> (names + first_siblings(names, i as nat)).contains(
                #[trigger] numbered(names[i], k),
            ),
    ensures
        at <= names.len(),
    decreases i, 1int, 0int,
{
    let before = first_siblings(names, i as nat);
    siblings_are_told_apart(names, i as nat);
    let holder = Seq::new(
        at,
        |k: int|
            if k == 0 {
                i
            } else {
                bearer(names, before, numbered(names[i], k as nat))
            },
    );
    assert forall|k: int| 1 <= k < at implies bears(
        names,
        before,
        numbered(names[i], k as nat),
        #[trigger] holder[k],
    ) by {
        let name = numbered(names[i], k as nat);
        assert((names + before).contains(name));
        let j = choose|j: int| 0 <= j < (names + before).len() && (names + before)[j] == name;
        if names.contains(name) {
            let m = choose|m: int| 0 <= m < names.len() && names[m] == name;
            let first = names_have_a_first_bearer(names, m);
            assert(bears(names, before, name, first));
        } else {
            if j < names.len() {
                assert(names[j] == name);
            }
            let m = j - names.len();
            assert(before[m] == name);
            if is_new(names, m) {
                assert(names[m] == name);
            }
            assert(bears(names, before, name, m));
        }
    }
    assert(holder.no_duplicates()) by {
        assert forall|x: int, y: int|
            0 <= x < holder.len() && 0 <= y < holder.len() && x != y implies holder[x]
            != holder[y] by {
            if x > 0 && y > 0 && holder[x] == holder[y] {
                assert(numbered(names[i], x as nat) == numbered(names[i], y as nat));
                numbers_tell_names_apart(names[i], x as nat, y as nat);
            }
        }
    }
    distinct_numbers_are_few(holder, names.len());
}

/// There is a number with which the name of a later bearer is free.
proof fn a_number_is_free(names: Seq<Seq<char>>, i: int, at: nat)
    requires
        0 <= i < names.len(),
        !is_new(names, i),
        1 <= at,
        forall|k: nat|
            1 <= k < at ==> (names + first_siblings(names, i as nat)).contains(
                #[trigger] numbered(names[i], k),
            ),
    ensures
        is_first_free(
            names + first_siblings(names, i as nat),
            names[i],
            free_number(names + first_siblings(names, i as nat), names[i]),
        ),
    decreases i, 2int, names.len() + 1 - at,
{
    let taken = names + first_siblings(names, i as nat);
    few_numbers_are_taken(names, i, at);
    if taken.contains(numbered(names[i], at)) {
        a_number_is_free(names, i, at + 1);
    } else {
        assert(is_first_free(taken, names[i], at));
    }
}

/// There is one first free number.
proof fn first_free_is_unique(taken: Seq<Seq<char>>, name: Seq<char>, a: nat, b: nat)
    requires
        is_first_free(taken, name, a),
        is_first_free(taken, name, b),
    ensures
        a == b,
{
    if a < b {
        assert(taken.contains(numbered(name, a)));
    }
    if b < a {
        assert(taken.contains(numbered(name, b)));
    }
}

/// The first bearer of a name keeps it, and no other name is given or handed out twice.
proof fn siblings_are_told_apart(names: Seq<Seq<char>>, n: nat)
    requires
        n <= names.len(),
    ensures
        first_siblings(names, n).len() == n,
        forall|i: int|
            0 <= i < n ==> (is_new(names, i) ==> #[trigger] first_siblings(names, n)[i]
                == names[i]) && (!is_new(names, i) ==> !names.contains(
                first_siblings(names, n)[i],
            )),
        forall|i: int, j: int|
            0 <= i < j < n ==> #[trigger] first_siblings(names, n)[i]
                != #[trigger] first_siblings(names, n)[j],
    decreases n as int, 0int, 0int,
{
    if n > 0 {
        let m = (n - 1) as nat;
        let before = first_siblings(names, m);
        let now = first_siblings(names, n);
        siblings_are_told_apart(names, m);
        assert(now.drop_last() =~= before);
        if !is_new(names, m as int) {
            a_number_is_free(names, m as int, 1);
            let name = now.last();
            assert(!(names + before).contains(name));
            if names.contains(name) {
                let k = choose|k: int| 0 <= k < names.len() && names[k] == name;
                assert((names + before)[k] == name);
            }
        }
        assert forall|i: int, j: int| 0 <= i < j < n implies #[trigger] now[i]
            != #[trigger] now[j] by {
            assert(now[i] == before[i]);
            if j < m {
                assert(now[j] == before[j]);
            } else if is_new(names, j) {
                assert(now[j] == names[j]);
                if is_new(names, i) {
                    assert(before[i] == names[i]);
                } else {
                    assert(names.contains(names[j]));
                }
            } else {
                assert((names + before)[names.len() + i] == before[i]);
            }
        }
        assert forall|i: int| 0 <= i < n implies (is_new(names, i) ==> #[trigger] now[i]
            == names[i]) && (!is_new(names, i) ==> !names.contains(now[i])) by {
            if i < m {
                assert(now[i] == before[i]);
            }
        }
    }
}

/// Siblings have different names, and the first bearer of a name keeps it.
pub proof fn sibling_names_differ(names: Seq<Seq<char>>, i: int, j: int)
    requires
        0 <= i < names.len(),
        0 <= j < names.len(),
    ensures
        i != j ==> sibling_names(names)[i] != sibling_names(names)[j],
        is_new(names, i) ==> sibling_names(names)[i] == names[i],
{
    siblings_are_told_apart(names, names.len());
    assert(sibling_names(names)[i] == first_siblings(names, names.len())[i]);
}

/// Sibling prims need names of their own; glTF nodes do not have them.
pub fn dedup_names(names: &Vec<String>) -> (r: Vec<String>)
    ensures
        views(r@) == sibling_names(views(names@)),
        r@.len() == names@.len(),
        forall|i: int, j: int|
            0 <= i < j < r@.len() ==> (#[trigger] r@[i])@ != (#[trigger] r@[j])@,
{
    let mut out: Vec<String> = Vec::new();
    let ghost all = views(names@);
    let total: usize = names.len();
    let mut i: usize = 0;
    proof {
        assert(views(out@) =~= first_siblings(all, 0));
    }
    while i < total
        invariant
            i <= total == names@.len(),
            all == views(names@),
            views(out@) == first_siblings(all, i as nat),
        decreases names@.len() - i,
    {
        let ghost before = out@;
        let ghost taken = all + first_siblings(all, i as nat);
        let mut is_first = true;
        let mut k: usize = 0;
        while k < i
            invariant
                k <= i < names@.len(),
                all == views(names@),
                is_first ==> forall|m: int| 0 <= m < k ==> #[trigger] all[m] != all[i as int],
                !is_first ==> !is_new(all, i as int),
            decreases i - k,
        {
            if same_text(names[k].as_str(), names[i].as_str()) {
                proof {
                    assert(all[k as int] == all[i as int]);
                }
                is_first = false;
            }
            k = k + 1;
        }
        if is_first {
            out.push(names[i].clone());
        } else {
            let mut n: usize = 1;
            let mut name = names[i].clone().concat("_").concat(decimal_text(1).as_str());
            while list_contains(names, name.as_str()) || list_contains(&out, name.as_str())
                invariant
                    i < total == names@.len(),
                    all == views(names@),
                    !is_new(all, i as int),
                    views(out@) == first_siblings(all, i as nat),
                    taken == all + first_siblings(all, i as nat),
                    1 <= n <= names@.len(),
                    name@ == numbered(all[i as int], n as nat),
                    forall|k: nat|
                        1 <= k < n ==> taken.contains(#[trigger] numbered(all[i as int], k)),
                decreases names@.len() - n,
            {
                proof {
                    taken_names_are_listed(all, views(out@), name@);
                    few_numbers_are_taken(all, i as int, (n + 1) as nat);
                }
                n = n + 1;
                name = names[i].clone().concat("_").concat(decimal_text(n as u64).as_str());
            }
            proof {
                taken_names_are_listed(all, views(out@), name@);
                assert(is_first_free(taken, all[i as int], n as nat));
                first_free_is_unique(
                    taken,
                    all[i as int],
                    n as nat,
                    free_number(taken, all[i as int]),
                );
            }
            out.push(name);
        }
        proof {
            assert(views(out@) =~= views(before).push(out@.last()@));
        }
        i = i + 1;
    }
    proof {
        siblings_are_told_apart(all, all.len());
        assert forall|i: int, j: int| 0 <= i < j < out@.len() implies (#[trigger] out@[i])@ != (
        #[trigger] out@[j])@ by {
            assert(views(out@)[i] == out@[i]@);
            assert(views(out@)[j] == out@[j]@);
        }
    }
    out
}

/// A name is taken where it is given or handed out.
proof fn taken_names_are_listed(names: Seq<Seq<char>>, before: Seq<Seq<char>>, name: Seq<char>)
    ensures
        (names + before).contains(name) <==> names.contains(name) || before.contains(name),
{
    if names.contains(name) {
        let k = choose|k: int| 0 <= k < names.len() && names[k] == name;
        assert((names + before)[k] == name);
    }
    if before.contains(name) {
        let k = choose|k: int| 0 <= k < before.len() && before[k] == name;
        assert((names + before)[names.len() + k] == name);
    }
}

/// A mesh whose coordinates have been put into words.
pub struct UsdMeshData {
    pub name: String,
    pub points: Vec<TripleText>,
    pub normals: Vec<TripleText>,
    pub uvs: Vec<PairText>,
    pub indices: Vec<u32>,
}

impl UsdMeshData {
    /// The prim for the mesh under a given name.
    pub open spec fn prim(self, name: Seq<char>) -> Seq<char> {
        mesh_start(name) + face_vertex_counts(self.indices@.len() / 3) + face_vertex_indices(
            numbers(self.indices@, self.indices@.len()),
        ) + points_block(self.points@) + normals_block(self.normals@, Interpolation::Vertex)
            + uvs_block(self.uvs@, Interpolation::Vertex) + mesh_end()
    }

    /// Writes the prim for the mesh under a given name.
    fn write(&self, text: &mut String, name: &str)
        ensures
            final(text)@ == old(text)@ + self.prim(name@),
    {
        let ghost start = text@;
        begin_mesh(text, name);
        write_face_vertex_counts(text, self.indices.len() / 3);
        write_index_list(text, &self.indices);
        write_points(text, &self.points);
        write_normals(text, &self.normals, Interpolation::Vertex);
        write_uvs(text, &self.uvs, Interpolation::Vertex);
        end_mesh(text);
        proof {
            assert(text@ =~= start + self.prim(name@));
        }
    }
}

/// The names of a list of meshes.
pub open spec fn mesh_names(meshes: Seq<UsdMeshData>) -> Seq<Seq<char>> {
    Seq::new(meshes.len(), |i: int| meshes[i].name@)
}

/// The prims for the first `n` meshes.
pub open spec fn prims(meshes: Seq<UsdMeshData>, names: Seq<Seq<char>>, n: nat) -> Seq<char>
    decreases n,
{
    if n == 0 {
        Seq::empty()
    } else {
        prims(meshes, names, (n - 1) as nat) + meshes[n - 1].prim(names[n - 1])
    }
}

/// The USD document for a list of meshes under the given names.
pub open spec fn document(meshes: Seq<UsdMeshData>, names: Seq<Seq<char>>) -> Seq<char> {
    document_start() + prims(meshes, names, meshes.len()) + "}\n"@
}

/// The USD document for a list of meshes under the given names.
pub fn emit_usda_text(meshes: &Vec<UsdMeshData>, names: &Vec<String>) -> (r: String)
    requires
        names@.len() == meshes@.len(),
    ensures
        r@ == document(meshes@, views(names@)),
{
    let mut text = begin_document();
    let ghost start = text@;
    let mut i: usize = 0;
    proof {
        assert(start + Seq::<char>::empty() =~= start);
    }
    while i < meshes.len()
        invariant
            i <= meshes@.len() == names@.len(),
            text@ == start + prims(meshes@, views(names@), i as nat),
        decreases meshes@.len() - i,
    {
        meshes[i].write(&mut text, names[i].as_str());
        proof {
            assert(text@ =~= start + prims(meshes@, views(names@), (i + 1) as nat));
        }
        i = i + 1;
    }
    text.append("}\n");
    text
}

impl UsdMeshData {
    /// The points of the corners as numbers.
    pub open spec fn corners(self) -> Seq<nat> {
        Seq::new(self.indices@.len(), |i: int| self.indices@[i] as nat)
    }

    /// Whether the coordinates stay on one line, as numbers do.
    pub open spec fn is_plain(self) -> bool {
        triples_are_lines(self.points@) && triples_are_lines(self.normals@) && pairs_are_lines(
            self.uvs@,
        )
    }

    /// How many lines the mesh takes.
    pub open spec fn height(self) -> nat {
        mesh_height(self.points@.len(), self.normals@.len(), self.uvs@.len())
    }
}

/// The line on which a mesh begins: below the nine lines of the root and the meshes before it.
pub open spec fn first_line(meshes: Seq<UsdMeshData>, k: nat) -> nat
    decreases k,
{
    if k == 0 {
        9
    } else {
        first_line(meshes, (k - 1) as nat) + meshes[k - 1].height()
    }
}

/// The lines of the first `n` meshes.
spec fn prim_lines(meshes: Seq<UsdMeshData>, names: Seq<Seq<char>>, n: nat) -> Seq<Seq<char>>
    decreases n,
{
    if n == 0 {
        root_lines()
    } else {
        let m = meshes[n - 1];
        prim_lines(meshes, names, (n - 1) as nat) + mesh_lines(
            names[n - 1],
            m.indices@.len() / 3,
            numbers(m.indices@, m.indices@.len()),
            m.points@,
            m.normals@,
            m.uvs@,
            Interpolation::Vertex,
        )
    }
}

/// The prims are lines that show the meshes.
#[verifier::spinoff_prover]
#[verifier::rlimit(40)]
proof fn prims_are_shown(meshes: Seq<UsdMeshData>, names: Seq<Seq<char>>, n: nat)
    requires
        n <= meshes.len() == names.len(),
        are_lines(names),
        forall|i: int| 0 <= i < meshes.len() ==> (#[trigger] meshes[i]).is_plain(),
    ensures
        are_lines(prim_lines(meshes, names, n)),
        of_lines(prim_lines(meshes, names, n)) == document_start() + prims(meshes, names, n),
        prim_lines(meshes, names, n).len() == first_line(meshes, n),
        n == 0 ==> prim_lines(meshes, names, n) == root_lines(),
        forall|k: int|
            0 <= k < n ==> shows_mesh(
                prim_lines(meshes, names, n),
                first_line(meshes, k as nat) as int,
                #[trigger] names[k],
                meshes[k].corners(),
                meshes[k].points@,
                meshes[k].normals@,
                meshes[k].uvs@,
                Interpolation::Vertex,
            ),
        root_lines().is_prefix_of(prim_lines(meshes, names, n)),
    decreases n,
{
    document_start_is_lines();
    let lines = prim_lines(meshes, names, n);
    if n == 0 {
        assert(document_start() + prims(meshes, names, n) =~= document_start());
        assert(root_lines().subrange(0, 9) =~= root_lines());
    } else {
        let b = (n - 1) as nat;
        prims_are_shown(meshes, names, b);
        let before = prim_lines(meshes, names, b);
        let m = meshes[b as int];
        let name = names[b as int];
        assert(is_line(name) && m.is_plain());
        numbers_read_back(m.indices@, m.indices@.len());
        assert(m.corners() =~= Seq::new(m.indices@.len(), |i: int| m.indices@[i] as nat));
        let text = numbers(m.indices@, m.indices@.len());
        a_mesh_is_shown(
            name,
            m.corners(),
            text,
            m.points@,
            m.normals@,
            m.uvs@,
            Interpolation::Vertex,
        );
        let part = mesh_lines(
            name,
            m.indices@.len() / 3,
            text,
            m.points@,
            m.normals@,
            m.uvs@,
            Interpolation::Vertex,
        );
        lines_follow(before, part);
        assert(of_lines(lines) =~= document_start() + prims(meshes, names, n));
        assert(root_lines() =~= lines.subrange(0, 9)) by {
            assert(before.subrange(0, 9) =~= lines.subrange(0, 9));
        }
        assert forall|k: int| 0 <= k < n implies shows_mesh(
            lines,
            first_line(meshes, k as nat) as int,
            #[trigger] names[k],
            meshes[k].corners(),
            meshes[k].points@,
            meshes[k].normals@,
            meshes[k].uvs@,
            Interpolation::Vertex,
        ) by {
            let at = first_line(meshes, k as nat) as int;
            if k == b {
                assert forall|i: int| 0 <= i < part.len() implies lines[at + i]
                    == #[trigger] part[i] by {}
                meshes_are_shown_anywhere(
                    lines,
                    at,
                    part,
                    name,
                    m.corners(),
                    m.points@,
                    m.normals@,
                    m.uvs@,
                    Interpolation::Vertex,
                );
            } else {
                shown_meshes_stay(meshes, names, k, b, before, lines);
            }
        }
    }
}

/// A mesh that is shown is shown where more lines follow.
#[verifier::spinoff_prover]
#[verifier::rlimit(40)]
proof fn shown_meshes_stay(
    meshes: Seq<UsdMeshData>,
    names: Seq<Seq<char>>,
    k: int,
    b: nat,
    before: Seq<Seq<char>>,
    lines: Seq<Seq<char>>,
)
    requires
        0 <= k < b,
        before.len() >= first_line(meshes, b),
        before.len() <= lines.len(),
        forall|i: int| 0 <= i < before.len() ==> lines[i] == #[trigger] before[i],
        shows_mesh(
            before,
            first_line(meshes, k as nat) as int,
            names[k],
            meshes[k].corners(),
            meshes[k].points@,
            meshes[k].normals@,
            meshes[k].uvs@,
            Interpolation::Vertex,
        ),
    ensures
        shows_mesh(
            lines,
            first_line(meshes, k as nat) as int,
            names[k],
            meshes[k].corners(),
            meshes[k].points@,
            meshes[k].normals@,
            meshes[k].uvs@,
            Interpolation::Vertex,
        ),
{
    let m = meshes[k];
    let at = first_line(meshes, k as nat) as int;
    first_lines_grow(meshes, (k + 1) as nat, b);
    let part = before.subrange(at, at + m.height());
    assert forall|i: int| 0 <= i < part.len() implies #[trigger] part[0 + i] == before[at + i] by {}
    assert forall|i: int| 0 <= i < part.len() implies before[at + i] == #[trigger] part[i] by {}
    shown_by_a_part(
        before,
        at,
        part,
        names[k],
        m.corners(),
        m.points@,
        m.normals@,
        m.uvs@,
        Interpolation::Vertex,
    );
    assert forall|i: int| 0 <= i < part.len() implies lines[at + i] == #[trigger] part[i] by {
        assert(before[at + i] == lines[at + i]);
    }
    meshes_are_shown_anywhere(
        lines,
        at,
        part,
        names[k],
        m.corners(),
        m.points@,
        m.normals@,
        m.uvs@,
        Interpolation::Vertex,
    );
}

/// Later meshes begin further down.
proof fn first_lines_grow(meshes: Seq<UsdMeshData>, m: nat, n: nat)
    requires
        m <= n,
    ensures
        first_line(meshes, m) <= first_line(meshes, n),
    decreases n,
{
    if m < n {
        first_lines_grow(meshes, m, (n - 1) as nat);
    }
}

/// A document reads back as the meshes that it was made of: line by line, each mesh stands
/// under its own name, with its own points, normals, texture coordinates and corners, each
/// list under the heading that is meant for it and in its own order. Nothing else stands in
/// the document.
#[verifier::spinoff_prover]
#[verifier::rlimit(40)]
pub proof fn documents_read_back(meshes: Seq<UsdMeshData>, names: Seq<Seq<char>>)
    requires
        meshes.len() == names.len(),
        are_lines(names),
        forall|i: int| 0 <= i < meshes.len() ==> (#[trigger] meshes[i]).is_plain(),
    ensures
        ({
            let lines = split(document(meshes, names), '\n');
            let end = first_line(meshes, meshes.len()) as int;
            &&& lines.len() == end + 2
            &&& root_lines().is_prefix_of(lines)
            &&& lines[end] == "}"@
            &&& lines[end + 1].len() == 0
            &&& forall|k: int|
                0 <= k < meshes.len() ==> shows_mesh(
                    lines,
                    first_line(meshes, k as nat) as int,
                    #[trigger] names[k],
                    meshes[k].corners(),
                    meshes[k].points@,
                    meshes[k].normals@,
                    meshes[k].uvs@,
                    Interpolation::Vertex,
                )
        }),
{
    let n = meshes.len();
    let before = prim_lines(meshes, names, n);
    let close = seq!["}"@];
    let all = before + close;
    prims_are_shown(meshes, names, n);
    reveal_strlit("}");
    reveal_strlit("}\n");
    one_line("}"@);
    assert("}\n"@ =~= "}"@ + seq!['\n']);
    assert(is_line("}"@));
    lines_follow(before, close);
    lines_read_back(all);
    let lines = split(document(meshes, names), '\n');
    assert(lines == all.push(Seq::<char>::empty()));
    assert(root_lines() =~= lines.subrange(0, root_lines().len() as int)) by {
        assert(before.subrange(0, root_lines().len() as int) =~= lines.subrange(
            0,
            root_lines().len() as int,
        ));
    }
    assert forall|k: int| 0 <= k < n implies shows_mesh(
        lines,
        first_line(meshes, k as nat) as int,
        #[trigger] names[k],
        meshes[k].corners(),
        meshes[k].points@,
        meshes[k].normals@,
        meshes[k].uvs@,
        Interpolation::Vertex,
    ) by {
        shown_meshes_stay(meshes, names, k, n, before, lines);
    }
}

/// A sibling is called what it was called, or that with a number after it.
pub proof fn sibling_names_are_kept_or_numbered(names: Seq<Seq<char>>, i: int)
    requires
        0 <= i < names.len(),
    ensures
        sibling_names(names).len() == names.len(),
        sibling_names(names)[i] == names[i] || exists|k: nat|
            sibling_names(names)[i] == #[trigger] numbered(names[i], k),
        is_line(names[i]) ==> is_line(sibling_names(names)[i]),
{
    siblings_are_numbered(names, names.len(), i);
    let name = sibling_names(names)[i];
    if is_line(names[i]) && name != names[i] {
        let k = choose|k: nat| name == #[trigger] numbered(names[i], k);
        reveal_strlit("_");
        decimal_reads_back(k);
        assert(is_line(numbered(names[i], k)));
    }
}

/// The same for the first `n` siblings.
proof fn siblings_are_numbered(names: Seq<Seq<char>>, n: nat, i: int)
    requires
        0 <= i < n <= names.len(),
    ensures
        first_siblings(names, n).len() == n,
        first_siblings(names, n)[i] == names[i] || exists|k: nat|
            first_siblings(names, n)[i] == #[trigger] numbered(names[i], k),
    decreases n,
{
    siblings_are_told_apart(names, n);
    if i < n - 1 {
        siblings_are_numbered(names, (n - 1) as nat, i);
        siblings_are_told_apart(names, (n - 1) as nat);
        assert(first_siblings(names, n)[i] == first_siblings(names, (n - 1) as nat)[i]);
    }
}

/// A conversion reads back as the meshes that it was given, in their order, each under a name
/// of its own that begins with the one that it was given.
#[verifier::spinoff_prover]
#[verifier::rlimit(40)]
pub proof fn conversions_read_back(meshes: Seq<UsdMeshData>, k: int)
    requires
        0 <= k < meshes.len(),
        forall|i: int|
            0 <= i < meshes.len() ==> (#[trigger] meshes[i]).is_plain() && is_line(meshes[i].name@),
    ensures
        ({
            let names = sibling_names(mesh_names(meshes));
            let lines = split(document(meshes, names), '\n');
            let m = meshes[k];
            &&& names.len() == meshes.len()
            &&& names.no_duplicates()
            &&& m.name@.is_prefix_of(names[k])
            &&& shows_mesh(
                lines,
                first_line(meshes, k as nat) as int,
                names[k],
                m.corners(),
                m.points@,
                m.normals@,
                m.uvs@,
                Interpolation::Vertex,
            )
        }),
{
    let given = mesh_names(meshes);
    let names = sibling_names(given);
    assert forall|i: int| 0 <= i < meshes.len() implies is_line(given[i]) by {
        assert(is_line(meshes[i].name@));
    }
    siblings_are_told_apart(given, given.len());
    assert forall|i: int| 0 <= i < names.len() implies is_line(#[trigger] names[i]) by {
        sibling_names_are_kept_or_numbered(given, i);
        assert(is_line(given[i]));
    }
    sibling_names_are_kept_or_numbered(given, k);
    if names[k] == given[k] {
        assert(given[k].subrange(0, given[k].len() as int) =~= given[k]);
    } else {
        let n = choose|n: nat| names[k] == #[trigger] numbered(given[k], n);
        assert(numbered(given[k], n).subrange(0, given[k].len() as int) =~= given[k]);
    }
    documents_read_back(meshes, names);
    assert forall|i: int, j: int|
        0 <= i < names.len() && 0 <= j < names.len() && i != j implies names[i] != names[j] by {
        sibling_names_differ(given, i, j);
    }
    assert(shows_mesh(
        split(document(meshes, names), '\n'),
        first_line(meshes, k as nat) as int,
        names[k],
        meshes[k].corners(),
        meshes[k].points@,
        meshes[k].normals@,
        meshes[k].uvs@,
        Interpolation::Vertex,
    ));
}

/// Why there is nothing to write.
#[derive(Clone, Copy, Debug, PartialEq, Eq, Structural)]
pub enum GltfError {
    NoScenes,
    NoGeometry,
}

impl GltfError {
    /// What the user is told, where the file is called `source`.
    pub open spec fn message_text(self, source: Seq<char>) -> Seq<char> {
        match self {
            GltfError::NoScenes => "glTF has no scenes: "@ + source,
            GltfError::NoGeometry =>
                "glTF contains no triangle geometry in its default scene: "@ + source,
        }
    }

    /// What the user is told, where the file is called `source`.
    pub fn message(self, source: &str) -> (r: String)
        ensures
            r@ == self.message_text(source@),
    {
        match self {
            GltfError::NoScenes => String::from_str("glTF has no scenes: ").concat(source),
            GltfError::NoGeometry => String::from_str(
                "glTF contains no triangle geometry in its default scene: ",
            ).concat(source),
        }
    }
}

/// The scene that is converted: the default one, else the first.
pub fn pick_scene(default_scene: Option<usize>, scene_count: usize) -> (r: Result<
    usize,
    GltfError,
>)
    ensures
        r == match default_scene {
            Some(scene) => Ok(scene),
            None => if scene_count > 0 {
                Ok(0usize)
            } else {
                Err(GltfError::NoScenes)
            },
        },
{
    match default_scene {
        Some(scene) => Ok(scene),
        None => if scene_count > 0 {
            Ok(0)
        } else {
            Err(GltfError::NoScenes)
        },
    }
}

/// How many points the first `n` meshes have.
pub open spec fn point_total(meshes: Seq<UsdMeshData>, n: nat) -> nat
    decreases n,
{
    if n == 0 {
        0
    } else {
        point_total(meshes, (n - 1) as nat) + meshes[n - 1].points@.len()
    }
}

/// How many triangles the first `n` meshes have.
pub open spec fn triangle_total(meshes: Seq<UsdMeshData>, n: nat) -> nat
    decreases n,
{
    if n == 0 {
        0
    } else {
        triangle_total(meshes, (n - 1) as nat) + meshes[n - 1].indices@.len() / 3
    }
}

/// Totals only grow.
proof fn totals_grow(meshes: Seq<UsdMeshData>, m: nat, n: nat)
    requires
        m <= n,
    ensures
        point_total(meshes, m) <= point_total(meshes, n),
        triangle_total(meshes, m) <= triangle_total(meshes, n),
    decreases n,
{
    if m < n {
        totals_grow(meshes, m, (n - 1) as nat);
    }
}

/// What a conversion to the given meshes produces: a document in which siblings are told
/// apart, and its totals. Without a single mesh there is nothing to convert.
pub fn convert_meshes(meshes: &Vec<UsdMeshData>) -> (r: Result<
    (GltfConversionSummary, String),
    GltfError,
>)
    requires
        point_total(meshes@, meshes@.len()) <= usize::MAX,
        triangle_total(meshes@, meshes@.len()) <= usize::MAX,
    ensures
        match r {
            Err(e) => meshes@.len() == 0 && e == GltfError::NoGeometry,
            Ok((summary, text)) => {
                &&& meshes@.len() > 0
                &&& summary.meshes == meshes@.len()
                &&& summary.vertices == point_total(meshes@, meshes@.len())
                &&& summary.triangles == triangle_total(meshes@, meshes@.len())
                &&& text@ == document(meshes@, sibling_names(mesh_names(meshes@)))
            },
        },
{
    if meshes.len() == 0 {
        return Err(GltfError::NoGeometry);
    }
    let mut given: Vec<String> = Vec::new();
    let mut vertices: usize = 0;
    let mut triangles: usize = 0;
    let mut i: usize = 0;
    while i < meshes.len()
        invariant
            i <= meshes@.len(),
            point_total(meshes@, meshes@.len()) <= usize::MAX,
            triangle_total(meshes@, meshes@.len()) <= usize::MAX,
            vertices == point_total(meshes@, i as nat),
            triangles == triangle_total(meshes@, i as nat),
            views(given@) == mesh_names(meshes@).take(i as int),
        decreases meshes@.len() - i,
    {
        proof {
            totals_grow(meshes@, (i + 1) as nat, meshes@.len());
        }
        let ghost before = given@;
        given.push(meshes[i].name.clone());
        proof {
            assert(views(given@) =~= views(before).push(meshes@[i as int].name@));
            assert(views(given@) =~= mesh_names(meshes@).take(i + 1));
        }
        vertices = vertices + meshes[i].points.len();
        triangles = triangles + meshes[i].indices.len() / 3;
        i = i + 1;
    }
    proof {
        assert(mesh_names(meshes@).take(meshes@.len() as int) =~= mesh_names(meshes@));
    }
    let names = dedup_names(&given);
    proof {
        assert(views(names@).len() == names@.len());
    }
    let text = emit_usda_text(meshes, &names);
    Ok((GltfConversionSummary { meshes: meshes.len(), vertices, triangles }, text))
}

/// Whether a walk goes down from parent to child: every step but the first comes after the
/// step at which its parent was visited, and its node is a child of that parent.
pub open spec fn goes_down(
    children: Seq<Seq<usize>>,
    steps: Seq<Visit>,
    start: nat,
    from: int,
) -> bool {
    forall|i: int|
        from <= i < steps.len() ==> {
            let v = #[trigger] steps[i];
            &&& v.parent is Some
            &&& start <= v.parent->0 < start + i
            &&& children[steps[v.parent->0 - start].node as int].contains(v.node)
        }
}

/// A walk below a node begins with it, and goes down from there.
#[verifier::spinoff_prover]
#[verifier::rlimit(40)]
pub proof fn walks_go_from_parent_to_child(
    children: Seq<Seq<usize>>,
    node: usize,
    parent: Option<usize>,
    start: nat,
    depth: nat,
)
    requires
        walk(children, node, parent, start, depth) is Some,
        start <= usize::MAX,
    ensures
        ({
            let steps = walk(children, node, parent, start, depth)->0;
            &&& steps.len() > 0
            &&& steps[0].node == node && steps[0].parent == parent
            &&& start + steps.len() <= usize::MAX ==> goes_down(children, steps, start, 1)
        }),
    decreases depth, children[node as int].len() + 1,
{
    let n = children[node as int].len();
    let below = walk_children(
        children,
        node,
        start as usize,
        start + 1,
        (depth - 1) as nat,
        n,
    )->0;
    let steps = walk(children, node, parent, start, depth)->0;
    assert(steps =~= seq![Visit { node, parent }] + below);
    if start + steps.len() <= usize::MAX {
        children_go_down(children, node, parent, start, (depth - 1) as nat, n);
        assert(seq![Visit { node, parent }] + below =~= steps);
    }
}

/// The same below the first `n` children of a node that was visited at step `start`.
#[verifier::spinoff_prover]
#[verifier::rlimit(40)]
proof fn children_go_down(
    children: Seq<Seq<usize>>,
    node: usize,
    parent: Option<usize>,
    start: nat,
    depth: nat,
    n: nat,
)
    requires
        n <= children[node as int].len(),
        walk_children(children, node, start as usize, start + 1, depth, n) is Some,
        start + 1 + walk_children(
            children,
            node,
            start as usize,
            start + 1,
            depth,
            n,
        )->0.len() <= usize::MAX,
    ensures
        goes_down(
            children,
            seq![Visit { node, parent }] + walk_children(
                children,
                node,
                start as usize,
                start + 1,
                depth,
                n,
            )->0,
            start,
            1,
        ),
    decreases depth + 1, n,
{
    let at = start as usize;
    let top = seq![Visit { node, parent }];
    if n > 0 {
        let b = (n - 1) as nat;
        let before = walk_children(children, node, at, start + 1, depth, b)->0;
        let child = children[node as int][n - 1];
        let below = walk(children, child, Some(at), start + 1 + before.len(), depth)->0;
        let all = walk_children(children, node, at, start + 1, depth, n)->0;
        assert(all == before + below);
        children_go_down(children, node, parent, start, depth, b);
        walks_go_from_parent_to_child(children, child, Some(at), start + 1 + before.len(), depth);
        let steps = top + all;
        let shorter = top + before;
        let from = shorter.len() as int;
        assert forall|i: int| 1 <= i < steps.len() implies {
            let v = #[trigger] steps[i];
            &&& v.parent is Some
            &&& start <= v.parent->0 < start + i
            &&& children[steps[v.parent->0 - start].node as int].contains(v.node)
        } by {
            if i < from {
                assert(steps[i] == shorter[i]);
                let p = shorter[i].parent->0 - start;
                assert(steps[p] == shorter[p]);
            } else if i == from {
                assert(steps[i] == below[0]);
                assert(steps[0].node == node);
            } else {
                assert(steps[i] == below[i - from]);
                let v = below[i - from];
                let p = v.parent->0 - (start + from);
                assert(steps[p + from] == below[p]);
            }
        }
    }
}

/// The meshes of a node are its primitives that are made of triangles, in order: each under the
/// name of the node, with its own number where there are several, and with the corners of its
/// whole triangles.
#[verifier::spinoff_prover]
#[verifier::rlimit(40)]
pub proof fn primitives_become_meshes(primitives: Seq<GltfPrimitive>, base: Seq<char>, n: nat)
    requires
        n <= primitives.len(),
    ensures
        ({
            let all = planned(primitives, base, n);
            &&& forall|i: int|
                0 <= i < all.len() ==> {
                    let m = #[trigger] all[i];
                    let p = primitives[m.primitive];
                    &&& 0 <= m.primitive < n
                    &&& p.is_kept()
                    &&& m.indices == p.index_list().take(
                        p.index_list().len() - p.index_list().len() % 3,
                    )
                    &&& m.name == (if primitives.len() > 1 {
                        base + "_prim"@ + decimal(m.primitive as nat)
                    } else {
                        base
                    })
                }
            &&& forall|i: int, j: int|
                0 <= i < j < all.len() ==> (#[trigger] all[i]).primitive < (
                #[trigger] all[j]).primitive
            &&& forall|k: int|
                0 <= k < n && (#[trigger] primitives[k]).is_kept() ==> is_planned(all, k)
        }),
    decreases n,
{
    if n > 0 {
        let b = (n - 1) as nat;
        primitives_become_meshes(primitives, base, b);
        let before = planned(primitives, base, b);
        let all = planned(primitives, base, n);
        assert forall|k: int| 0 <= k < n && (#[trigger] primitives[k]).is_kept() implies is_planned(
            all,
            k,
        ) by {
            if k < b {
                assert(is_planned(before, k));
                let i = choose|i: int| 0 <= i < before.len() && (#[trigger] before[i]).primitive == k;
                assert(all[i].primitive == k);
            } else {
                assert(all[all.len() - 1].primitive == k);
            }
        }
    }
}

/// Whether a primitive becomes a mesh.
pub open spec fn is_planned(list: Seq<PlanModel>, primitive: int) -> bool {
    exists|i: int| 0 <= i < list.len() && (#[trigger] list[i]).primitive == primitive
}

/// The meshes of a node are called after it; one without a name after its mesh, and after
/// nothing where neither has one.
pub proof fn nodes_name_their_meshes(node: Option<Seq<char>>, mesh: Option<Seq<char>>)
    ensures
        node matches Some(n) && n.len() > 0 ==> base_name(node, mesh) == node->0,
        node is None && (mesh matches Some(m) && m.len() > 0) ==> base_name(node, mesh) == mesh->0,
        node is None && mesh is None ==> base_name(node, mesh) == "mesh"@,
{
}

/// A triangle that is turned over keeps its first corner and exchanges the other two.
pub proof fn turned_triangles_exchange_two_corners(indices: Seq<u32>, t: int)
    requires
        0 <= t,
        3 * t + 2 < indices.len(),
    ensures
        turned_over(indices).len() == indices.len(),
        turned_over(indices)[3 * t] == indices[3 * t],
        turned_over(indices)[3 * t + 1] == indices[3 * t + 2],
        turned_over(indices)[3 * t + 2] == indices[3 * t + 1],
{
    assert((3 * t) % 3 == 0 && (3 * t + 1) % 3 == 1 && (3 * t + 2) % 3 == 2);
}

/// The children of a node are visited in their order: the walk below the first of them comes
/// whole before the walk below the next.
pub proof fn children_are_visited_in_order(
    children: Seq<Seq<usize>>,
    node: usize,
    at: usize,
    start: nat,
    depth: nat,
    n: nat,
)
    requires
        0 < n <= children[node as int].len(),
        walk_children(children, node, at, start, depth, n) is Some,
    ensures
        ({
            let b = (n - 1) as nat;
            let all = walk_children(children, node, at, start, depth, n)->0;
            let before = walk_children(children, node, at, start, depth, b);
            &&& before is Some
            &&& before->0.is_prefix_of(all)
            &&& before->0.len() < all.len()
            &&& all[before->0.len() as int].node == children[node as int][n - 1]
            &&& all[before->0.len() as int].parent == Some(at)
        }),
{
    let b = (n - 1) as nat;
    let before = walk_children(children, node, at, start, depth, b)->0;
    let child = children[node as int][n - 1];
    let below = walk(children, child, Some(at), start + before.len(), depth)->0;
    let all = walk_children(children, node, at, start, depth, n)->0;
    assert(all == before + below);
    assert(below[0].node == child && below[0].parent == Some(at) && below.len() > 0);
    assert(all.subrange(0, before.len() as int) =~= before);
    assert(all[before.len() as int] == below[0]);
}

/// The roots of a scene are visited in their order, none of them below another.
pub proof fn roots_are_visited_in_order(
    children: Seq<Seq<usize>>,
    roots: Seq<usize>,
    depth: nat,
    n: nat,
)
    requires
        0 < n <= roots.len(),
        walk_roots(children, roots, depth, n) is Some,
    ensures
        ({
            let b = (n - 1) as nat;
            let all = walk_roots(children, roots, depth, n)->0;
            let before = walk_roots(children, roots, depth, b);
            &&& before is Some
            &&& before->0.is_prefix_of(all)
            &&& before->0.len() < all.len()
            &&& all[before->0.len() as int].node == roots[n - 1]
            &&& all[before->0.len() as int].parent is None
        }),
{
    let b = (n - 1) as nat;
    let before = walk_roots(children, roots, depth, b)->0;
    let below = walk(children, roots[n - 1], None, before.len(), depth)->0;
    let all = walk_roots(children, roots, depth, n)->0;
    assert(all == before + below);
    assert(below[0].node == roots[n - 1] && below[0].parent is None && below.len() > 0);
    assert(all.subrange(0, before.len() as int) =~= before);
    assert(all[before.len() as int] == below[0]);
}

} // verus!
