//! The materials in use on a stage: the bindings, and the graph in which each of them has a
//! shader node.

use crate::assets::{MaterialAsset, MaterialInputs, MaterialKind};
use crate::bindings::{copy_list, BindingModel, MaterialBindingInstance};
use crate::material_graph::{
    first_place, is_input, next_place, shader_of, texture_of, GraphAction, MaterialGraph, MaterialNode, NodeModel,
    ShaderPin, Wire,
};
use crate::paths::{
    file_stem, file_stem_of, lies_under, path_lies_under, paths_equal, same_path, stem_of_or,
    stem_or,
};
use crate::single::Pair;
use crate::stage_materials::node_views;
use crate::text::{decimal, decimal_text, views};
use vstd::prelude::*;

verus! {

/// The materials in use on a stage.
pub struct MaterialSession {
    pub bindings: Vec<MaterialBindingInstance>,
    pub graph: MaterialGraph,
    pub next_binding_id: u64,
    pub active_binding_id: Option<u64>,
}

/// The values of bindings.
pub open spec fn binding_models(list: Seq<MaterialBindingInstance>) -> Seq<BindingModel> {
    list.map_values(|b: MaterialBindingInstance| b@)
}

/// A binding that was written down with a project.
#[derive(Clone, Debug)]
pub struct BoundMaterialBinding {
    pub source: String,
    pub prim_path: String,
    pub inputs: MaterialInputs,
    pub target_prims: Vec<String>,
}

/// A written binding as a value of the specification.
pub struct BoundModel {
    pub source: Seq<char>,
    pub prim_path: Seq<char>,
    pub inputs: MaterialInputs,
    pub target_prims: Seq<Seq<char>>,
}

impl View for BoundMaterialBinding {
    type V = BoundModel;

    open spec fn view(&self) -> BoundModel {
        BoundModel {
            source: self.source@,
            prim_path: self.prim_path@,
            inputs: self.inputs,
            target_prims: views(self.target_prims@),
        }
    }
}

impl BoundModel {
    /// The binding that is put in use again under a number, with the material of the library
    /// that it names if there is one.
    pub open spec fn read(self, id: u64, asset: Option<&MaterialAsset>) -> BindingModel {
        BindingModel {
            id,
            source: match asset {
                Some(a) => a.source@,
                None => self.source,
            },
            prim_path: match asset {
                Some(a) => a.prim_path@,
                None => self.prim_path,
            },
            kind: match asset {
                Some(a) => a.kind,
                None => MaterialKind::UsdPreviewSurface,
            },
            inputs: self.inputs,
            target_prims: self.target_prims,
            assigned: true,
        }
    }
}

/// Whether a network gained the shader node of a binding at its next place, and nothing else.
pub open spec fn gained_shader(
    before: MaterialGraph,
    after: MaterialGraph,
    id: u64,
    moved: Pair,
) -> bool {
    &&& exists|n: usize|
        !before.nodes().contains_key(n) && after.nodes() == #[trigger] before.nodes().insert(
            n,
            shader_of(id),
        ) && after.places() == before.places().insert(n, before.next_node_pos)
    &&& after.wires() == before.wires()
    &&& after.next_node_pos == next_place(before.next_node_pos, moved)
}

/// The values of written bindings.
pub open spec fn bound_models(list: Seq<BoundMaterialBinding>) -> Seq<BoundModel> {
    list.map_values(|b: BoundMaterialBinding| b@)
}

impl BindingModel {
    /// The binding as it is written down.
    pub open spec fn written(self) -> BoundModel {
        BoundModel {
            source: self.source,
            prim_path: self.prim_path,
            inputs: self.inputs,
            target_prims: self.target_prims,
        }
    }

    /// What an action of the user makes of the binding.
    pub open spec fn after(self, action: GraphAction, selection: Seq<Seq<char>>) -> BindingModel {
        match action {
            GraphAction::AssignToSelection(id) => if self.id == id {
                BindingModel { target_prims: selection, assigned: true, ..self }
            } else {
                self
            },
            GraphAction::AssignToStage(id) => if self.id == id {
                BindingModel { target_prims: Seq::empty(), assigned: true, ..self }
            } else {
                self
            },
            GraphAction::Unassign(id) => if self.id == id {
                BindingModel { assigned: false, ..self }
            } else {
                self
            },
            GraphAction::Remove(_) => self,
        }
    }
}

/// What became of a written binding.
#[derive(Clone, Copy, Debug, PartialEq, Eq, Structural)]
pub enum Restored {
    /// It is in use again.
    Added,
    /// Its material was generated and will be generated anew from the stage.
    Rebuilt,
    /// Its material is gone.
    Missing,
}

/// The assigned bindings, as they are written down.
pub open spec fn to_write(list: Seq<BindingModel>) -> Seq<BoundModel>
    decreases list.len(),
{
    if list.len() == 0 {
        Seq::empty()
    } else {
        let front = to_write(list.drop_last());
        if list.last().assigned {
            front.push(list.last().written())
        } else {
            front
        }
    }
}

/// The bindings without one.
pub open spec fn without(list: Seq<BindingModel>, id: u64) -> Seq<BindingModel>
    decreases list.len(),
{
    if list.len() == 0 {
        Seq::empty()
    } else {
        let front = without(list.drop_last(), id);
        if list.last().id == id {
            front
        } else {
            front.push(list.last())
        }
    }
}

/// The bindings without one are those of the bindings that have another number.
proof fn without_is_a_part(list: Seq<BindingModel>, id: u64)
    ensures
        forall|i: int|
            0 <= i < without(list, id).len() ==> (#[trigger] without(list, id)[i]).id != id && exists|
                k: int,
            | 0 <= k < list.len() && #[trigger] list[k] == without(list, id)[i],
        ids_differ(list) ==> ids_differ(without(list, id)),
    decreases list.len(),
{
    if list.len() > 0 {
        let front = list.drop_last();
        let part = without(front, id);
        let all = without(list, id);
        without_is_a_part(front, id);
        assert forall|i: int| 0 <= i < all.len() implies (#[trigger] all[i]).id != id && exists|
            k: int,
        | 0 <= k < list.len() && #[trigger] list[k] == all[i] by {
            if i < part.len() {
                assert(all[i] == part[i]);
                let k = choose|k: int| 0 <= k < front.len() && #[trigger] front[k] == part[i];
                assert(list[k] == all[i]);
            } else {
                assert(list[list.len() - 1] == all[i]);
            }
        }
        if ids_differ(list) {
            assert(ids_differ(front));
            assert forall|i: int, j: int| 0 <= i < j < all.len() implies (#[trigger] all[i]).id != (
            #[trigger] all[j]).id by {
                assert(all[i] == part[i]);
                if j < part.len() {
                    assert(all[j] == part[j]);
                } else {
                    let k = choose|k: int| 0 <= k < front.len() && #[trigger] front[k] == part[i];
                    assert(list[k].id != list[list.len() - 1].id);
                }
            }
        }
    }
}

/// No two bindings have the same number.
pub open spec fn ids_differ(list: Seq<BindingModel>) -> bool {
    forall|i: int, j: int|
        0 <= i < j < list.len() ==> (#[trigger] list[i]).id != (#[trigger] list[j]).id
}

/// The path of a file, and where it really lies, if it does.
#[derive(Clone, Debug)]
pub struct SourcePath {
    pub path: String,
    pub real: Option<String>,
}

impl SourcePath {
    /// Where the file really lies, or else its path.
    pub open spec fn target(self) -> Seq<char> {
        match self.real {
            Some(r) => r@,
            None => self.path@,
        }
    }

    /// Whether this is the file that is looked for: under the same path, or really there.
    pub open spec fn is_for(self, wanted: SourcePath) -> bool {
        ||| same_path(self.path@, wanted.path@)
        ||| match self.real {
            Some(r) => same_path(r@, wanted.target()),
            None => false,
        }
    }

    /// Whether this is the file that is looked for.
    pub fn matches(&self, wanted: &SourcePath) -> (r: bool)
        ensures
            r == self.is_for(*wanted),
    {
        if paths_equal(self.path.as_str(), wanted.path.as_str()) {
            return true;
        }
        match &self.real {
            Some(mine) => match &wanted.real {
                Some(target) => paths_equal(mine.as_str(), target.as_str()),
                None => paths_equal(mine.as_str(), wanted.path.as_str()),
            },
            None => false,
        }
    }
}

/// The first of the known files that is the one looked for.
pub fn find_source(known: &Vec<SourcePath>, wanted: &SourcePath) -> (r: Option<usize>)
    ensures
        match r {
            Some(i) => i < known@.len() && known@[i as int].is_for(*wanted) && forall|k: int|
                0 <= k < i ==> !(#[trigger] known@[k]).is_for(*wanted),
            None => forall|k: int| 0 <= k < known@.len() ==> !(#[trigger] known@[k]).is_for(*wanted),
        },
{
    let mut i: usize = 0;
    while i < known.len()
        invariant
            i <= known@.len(),
            forall|k: int| 0 <= k < i ==> !(#[trigger] known@[k]).is_for(*wanted),
        decreases known@.len() - i,
    {
        if known[i].matches(wanted) {
            return Some(i);
        }
        i = i + 1;
    }
    None
}

/// The name of a material that is generated from the stage: its number has two digits at
/// least.
pub open spec fn stage_material_file_text(n: nat) -> Seq<char> {
    "stage_material_"@ + (if n < 10 {
        "0"@ + decimal(n)
    } else {
        decimal(n)
    }) + ".usda"@
}

/// The name of a material that is generated from the stage.
pub fn stage_material_file(n: usize) -> (r: String)
    ensures
        r@ == stage_material_file_text(n as nat),
{
    let number = if n < 10 {
        String::from_str("0").concat(decimal_text(n as u64).as_str())
    } else {
        decimal_text(n as u64)
    };
    String::from_str("stage_material_").concat(number.as_str()).concat(".usda")
}

/// What is written above a node that is the shader of a binding.
pub open spec fn shader_title(b: Option<BindingModel>, id: u64) -> Seq<char> {
    let number = "material#"@ + decimal(id as nat);
    match b {
        None => number + " (missing)"@,
        Some(b) => (match file_stem(b.source) {
            Some(stem) => stem,
            None => number,
        }) + " · "@ + (if !b.assigned {
            "unassigned"@
        } else if b.target_prims.len() == 0 {
            "stage"@
        } else {
            decimal(b.target_prims.len()) + " prim(s)"@
        }),
    }
}

/// What is written above a node.
pub open spec fn title_text(b: Option<BindingModel>, node: NodeModel) -> Seq<char> {
    match node {
        NodeModel::Shader { binding_id } => shader_title(b, binding_id),
        NodeModel::Texture { path, .. } => match file_stem(path) {
            Some(stem) => stem,
            None => "texture"@,
        },
    }
}

/// The first binding with a number.
pub open spec fn binding_with(list: Seq<BindingModel>, id: u64) -> Option<BindingModel>
    decreases list.len(),
{
    if list.len() == 0 {
        None
    } else if list[0].id == id {
        Some(list[0])
    } else {
        binding_with(list.skip(1), id)
    }
}

/// Where a binding applies, as it is said in the list of bindings.
pub open spec fn scope_text(b: BindingModel) -> Seq<char> {
    if b.target_prims.len() == 0 {
        "stage-wide"@
    } else {
        decimal(b.target_prims.len()) + " prim(s)"@
    }
}

/// The line of a binding in the list of bindings.
pub fn binding_line(b: &MaterialBindingInstance) -> (r: String)
    ensures
        r@ == "· "@ + stem_or(b@.source, "(material)"@) + " → "@ + scope_text(b@),
{
    let scope = if b.target_prims.len() == 0 {
        String::from_str("stage-wide")
    } else {
        decimal_text(b.target_prims.len() as u64).concat(" prim(s)")
    };
    String::from_str("· ").concat(stem_of_or(b.source.as_str(), "(material)").as_str()).concat(
        " → ",
    ).concat(scope.as_str())
}

/// What is said above the list of bindings.
pub fn bindings_caption(count: usize) -> (r: String)
    ensures
        r@ == decimal(count as nat) + " binding(s) active"@,
{
    decimal_text(count as u64).concat(" binding(s) active")
}

impl MaterialSession {
    /// The numbers of the bindings differ and are all used up, and each binding has a shader
    /// node. Nodes may outlive their binding.
    pub open spec fn wf(self) -> bool {
        &&& self.graph.wf()
        &&& ids_differ(binding_models(self.bindings@))
        &&& forall|i: int|
            0 <= i < self.bindings@.len() ==> (#[trigger] binding_models(self.bindings@)[i]).id
                < self.next_binding_id && self.has_shader(binding_models(self.bindings@)[i].id)
    }

    /// Whether a binding has a shader node.
    pub open spec fn has_shader(self, id: u64) -> bool {
        exists|n: usize| #[trigger] self.graph.is_shader_of(n, id)
    }

    /// Nothing is in use.
    pub fn new() -> (r: MaterialSession)
        ensures
            r.wf(),
            r.bindings@.len() == 0,
            r.graph.nodes() == (Map::<usize, NodeModel>::empty()),
            r.graph.wires() == Set::<Wire>::empty(),
            r.graph.places() == (Map::<usize, Pair>::empty()),
            r.graph.next_node_pos == first_place(),
            r.next_binding_id == 0,
            r.active_binding_id is None,
    {
        MaterialSession {
            bindings: Vec::new(),
            graph: MaterialGraph::new(),
            next_binding_id: 0,
            active_binding_id: None,
        }
    }

    /// Takes everything out of use, for another stage. Numbers are not used again.
    pub fn reset(&mut self)
        ensures
            final(self).wf(),
            final(self).bindings@.len() == 0,
            final(self).graph.nodes() == (Map::<usize, NodeModel>::empty()),
            final(self).graph.wires() == Set::<Wire>::empty(),
            final(self).graph.places() == (Map::<usize, Pair>::empty()),
            final(self).graph.next_node_pos == first_place(),
            final(self).next_binding_id == old(self).next_binding_id,
            final(self).active_binding_id is None,
    {
        self.bindings = Vec::new();
        self.graph = MaterialGraph::new();
        self.active_binding_id = None;
    }

    /// Takes all bindings out of use; the graph stays.
    pub fn clear_bindings(&mut self)
        requires
            old(self).wf(),
        ensures
            final(self).wf(),
            final(self).bindings@.len() == 0,
            final(self).graph == old(self).graph,
            final(self).next_binding_id == old(self).next_binding_id,
            final(self).active_binding_id is None,
    {
        self.bindings = Vec::new();
        self.active_binding_id = None;
    }

    /// Puts a material in use, with a shader node, and goes to work on it.
    pub fn add(
        &mut self,
        source: &str,
        prim_path: &str,
        kind: MaterialKind,
        inputs: MaterialInputs,
        target_prims: &Vec<String>,
        assigned: bool,
        moved: Pair,
    ) -> (r: usize)
        requires
            old(self).wf(),
            old(self).next_binding_id < u64::MAX,
        ensures
            final(self).wf(),
            binding_models(final(self).bindings@) == binding_models(old(self).bindings@).push(
                (BindingModel {
                    id: old(self).next_binding_id,
                    source: source@,
                    prim_path: prim_path@,
                    kind,
                    inputs,
                    target_prims: views(target_prims@),
                    assigned,
                }),
            ),
            final(self).next_binding_id == old(self).next_binding_id + 1,
            final(self).active_binding_id == Some(old(self).next_binding_id),
            !old(self).graph.nodes().contains_key(r),
            final(self).graph.nodes() == old(self).graph.nodes().insert(
                r,
                shader_of(old(self).next_binding_id),
            ),
            final(self).graph.wires() == old(self).graph.wires(),
            final(self).graph.places() == old(self).graph.places().insert(
                r,
                old(self).graph.next_node_pos,
            ),
            final(self).graph.next_node_pos == next_place(old(self).graph.next_node_pos, moved),
    {
        let ghost s = *self;
        let ghost before = binding_models(self.bindings@);
        let id: u64 = self.next_binding_id;
        self.next_binding_id = id + 1;
        self.bindings.push(
            MaterialBindingInstance {
                id,
                source: String::from_str(source),
                prim_path: String::from_str(prim_path),
                kind,
                inputs,
                target_prims: copy_list(target_prims),
                assigned,
            },
        );
        let node = self.graph.spawn_shader_node(id, moved);
        self.active_binding_id = Some(id);
        proof {
            let after = binding_models(self.bindings@);
            assert(after =~= before.push(self.bindings@.last()@));
            assert(self.graph.is_shader_of(node, id));
            assert forall|i: int| 0 <= i < self.bindings@.len() implies (#[trigger] after[i]).id
                < self.next_binding_id && self.has_shader(after[i].id) by {
                if i < before.len() {
                    assert(after[i] == before[i]);
                    let n = choose|n: usize| #[trigger] s.graph.is_shader_of(n, before[i].id);
                    assert(self.graph.is_shader_of(n, before[i].id));
                }
            }
            assert(ids_differ(after)) by {
                assert forall|i: int, j: int| 0 <= i < j < after.len() implies (
                #[trigger] after[i]).id != (#[trigger] after[j]).id by {
                    assert(after[i] == before[i]);
                    if j < before.len() {
                        assert(after[j] == before[j]);
                    }
                }
            }
        }
        node
    }

    /// Puts a material of the library in use, not yet assigned to anything.
    pub fn add_from_library(
        &mut self,
        asset: &MaterialAsset,
        inputs: MaterialInputs,
        moved: Pair,
    )
        requires
            old(self).wf(),
            old(self).next_binding_id < u64::MAX,
        ensures
            final(self).wf(),
            binding_models(final(self).bindings@) == binding_models(old(self).bindings@).push(
                (BindingModel {
                    id: old(self).next_binding_id,
                    source: asset.source@,
                    prim_path: asset.prim_path@,
                    kind: asset.kind,
                    inputs,
                    target_prims: Seq::empty(),
                    assigned: false,
                }),
            ),
            final(self).next_binding_id == old(self).next_binding_id + 1,
            final(self).active_binding_id == Some(old(self).next_binding_id),
            gained_shader(
                old(self).graph,
                final(self).graph,
                old(self).next_binding_id,
                moved,
            ),
    {
        let none: Vec<String> = Vec::new();
        self.add(
            asset.source.as_str(),
            asset.prim_path.as_str(),
            asset.kind,
            inputs,
            &none,
            false,
            moved,
        );
        proof {
            assert(views(none@) =~= Seq::<Seq<char>>::empty());
        }
    }

    /// Puts a written binding in use again: with the material of the library that it names,
    /// or else with the file that it names, if that exists and was not generated. Generated
    /// materials are left to be generated anew.
    pub fn restore(
        &mut self,
        saved: &BoundMaterialBinding,
        asset: Option<&MaterialAsset>,
        exists_on_disk: bool,
        generated_dir: &str,
        moved: Pair,
    ) -> (r: Restored)
        requires
            old(self).wf(),
            old(self).next_binding_id < u64::MAX,
        ensures
            final(self).wf(),
            r == (match asset {
                Some(_) => Restored::Added,
                None => if lies_under(saved.source@, generated_dir@) {
                    Restored::Rebuilt
                } else if exists_on_disk {
                    Restored::Added
                } else {
                    Restored::Missing
                },
            }),
            r != Restored::Added ==> *final(self) == *old(self),
            r == Restored::Added ==> binding_models(final(self).bindings@) == binding_models(
                old(self).bindings@,
            ).push(saved@.read(old(self).next_binding_id, asset)),
            r == Restored::Added ==> gained_shader(
                old(self).graph,
                final(self).graph,
                old(self).next_binding_id,
                moved,
            ),
            r == Restored::Added ==> final(self).next_binding_id == old(self).next_binding_id + 1
                && final(self).active_binding_id == Some(old(self).next_binding_id),
    {
        match asset {
            Some(a) => {
                self.add(
                    a.source.as_str(),
                    a.prim_path.as_str(),
                    a.kind,
                    saved.inputs,
                    &saved.target_prims,
                    true,
                    moved,
                );
                Restored::Added
            },
            None => {
                let generated = path_lies_under(saved.source.as_str(), generated_dir);
                if exists_on_disk && !generated {
                    self.add(
                        saved.source.as_str(),
                        saved.prim_path.as_str(),
                        MaterialKind::UsdPreviewSurface,
                        saved.inputs,
                        &saved.target_prims,
                        true,
                        moved,
                    );
                    Restored::Added
                } else if generated {
                    Restored::Rebuilt
                } else {
                    Restored::Missing
                }
            },
        }
    }

    /// The bindings that are written down with the project: the assigned ones.
    pub fn bound_materials(&self) -> (r: Vec<BoundMaterialBinding>)
        ensures
            bound_models(r@) == to_write(binding_models(self.bindings@)),
    {
        let ghost all = binding_models(self.bindings@);
        let mut out: Vec<BoundMaterialBinding> = Vec::new();
        let mut i: usize = 0;
        proof {
            assert(bound_models(out@) =~= to_write(all.take(0)));
        }
        while i < self.bindings.len()
            invariant
                i <= self.bindings@.len(),
                all == binding_models(self.bindings@),
                bound_models(out@) == to_write(all.take(i as int)),
            decreases self.bindings@.len() - i,
        {
            let b = &self.bindings[i];
            let ghost before = out@;
            proof {
                assert(all.take(i + 1).drop_last() =~= all.take(i as int));
                assert(all.take(i + 1).last() == b@);
            }
            if b.assigned {
                out.push(
                    BoundMaterialBinding {
                        source: String::from_str(b.source.as_str()),
                        prim_path: String::from_str(b.prim_path.as_str()),
                        inputs: b.inputs,
                        target_prims: copy_list(&b.target_prims),
                    },
                );
                proof {
                    assert(bound_models(out@) =~= bound_models(before).push(b@.written()));
                }
            }
            i = i + 1;
        }
        proof {
            assert(all.take(all.len() as int) =~= all);
        }
        out
    }

    /// Puts a material that was generated from the stage in use, assigned to prims of the
    /// stage, with an image node for each of its textures.
    pub fn add_stage_material(
        &mut self,
        source: &str,
        target_prims: &Vec<String>,
        textures: &Vec<(String, ShaderPin)>,
        moved: Pair,
        texture_places: &Vec<Pair>,
    ) -> (r: (usize, Vec<usize>))
        requires
            old(self).wf(),
            old(self).next_binding_id < u64::MAX,
            texture_places@.len() == textures@.len(),
        ensures
            final(self).wf(),
            binding_models(final(self).bindings@) == binding_models(old(self).bindings@).push(
                (BindingModel {
                    id: old(self).next_binding_id,
                    source: source@,
                    prim_path: "/Material"@,
                    kind: MaterialKind::UsdPreviewSurface,
                    inputs: MaterialInputs::default_spec(),
                    target_prims: views(target_prims@),
                    assigned: true,
                }),
            ),
            final(self).next_binding_id == old(self).next_binding_id + 1,
            final(self).active_binding_id == Some(old(self).next_binding_id),
            r.1@.len() == textures@.len(),
            old(self).graph.nodes().submap_of(final(self).graph.nodes()),
            final(self).graph.is_shader_of(r.0, old(self).next_binding_id),
            !old(self).graph.nodes().contains_key(r.0),
            old(self).graph.places().submap_of(final(self).graph.places()),
            final(self).graph.places()[r.0] == old(self).graph.next_node_pos,
            final(self).graph.next_node_pos == next_place(old(self).graph.next_node_pos, moved),
            forall|k: int|
                0 <= k < textures@.len() ==> {
                    &&& !old(self).graph.nodes().contains_key(#[trigger] r.1@[k])
                    &&& final(self).graph.nodes().contains_key(r.1@[k])
                    &&& final(self).graph.nodes()[r.1@[k]] == texture_of(
                        node_views(textures@)[k].0,
                    )
                    &&& final(self).graph.places()[r.1@[k]] == texture_places@[k]
                },
            r.1@.no_duplicates(),
            forall|n: usize| #[trigger]
                final(self).graph.nodes().contains_key(n) <==> old(self).graph.nodes().contains_key(
                    n,
                ) || n == r.0 || r.1@.contains(n),
            forall|w: Wire| #[trigger]
                final(self).graph.wires().contains(w) <==> old(self).graph.wires().contains(w)
                    || is_texture_wire(w, r.0, r.1@, node_views(textures@), r.1@.len()),
    {
        let ghost s = *self;
        let shader = self.add(
            source,
            "/Material",
            MaterialKind::UsdPreviewSurface,
            MaterialInputs::default(),
            target_prims,
            true,
            moved,
        );
        let ghost t = *self;
        let ghost all = node_views(textures@);
        let mut nodes: Vec<usize> = Vec::new();
        let mut k: usize = 0;
        while k < textures.len()
            invariant
                k <= textures@.len() == texture_places@.len(),
                nodes@.len() == k,
                all == node_views(textures@),
                t.wf(),
                self.bindings == t.bindings,
                self.next_binding_id == t.next_binding_id,
                self.active_binding_id == t.active_binding_id,
                self.graph.wf(),
                t.graph.nodes().submap_of(self.graph.nodes()),
                t.graph.nodes().contains_key(shader),
                t.graph.places().submap_of(self.graph.places()),
                self.graph.next_node_pos == t.graph.next_node_pos,
                forall|i: int|
                    0 <= i < k ==> {
                        &&& !t.graph.nodes().contains_key(#[trigger] nodes@[i])
                        &&& self.graph.nodes().contains_key(nodes@[i])
                        &&& self.graph.nodes()[nodes@[i]] == texture_of(all[i].0)
                        &&& self.graph.places()[nodes@[i]] == texture_places@[i]
                    },
                nodes@.no_duplicates(),
                forall|n: usize| #[trigger]
                    self.graph.nodes().contains_key(n) <==> t.graph.nodes().contains_key(n)
                        || nodes@.contains(n),
                forall|w: Wire| #[trigger]
                    self.graph.wires().contains(w) <==> t.graph.wires().contains(w)
                        || is_texture_wire(w, shader, nodes@, all, k as nat),
            decreases textures@.len() - k,
        {
            let ghost mid = *self;
            let ghost before = nodes@;
            let node = self.graph.spawn_texture_node_at(
                textures[k].0.as_str(),
                texture_places[k],
            );
            let input = self.graph.connect_texture_to_shader(node, shader, textures[k].1);
            nodes.push(node);
            proof {
                let new = Wire { from: node, output: 0, to: shader, input };
                assert(all[k as int] == (textures@[k as int].0@, textures@[k as int].1));
                assert(!before.contains(node)) by {
                    if before.contains(node) {
                        let i = choose|i: int| 0 <= i < before.len() && before[i] == node;
                        assert(mid.graph.nodes().contains_key(before[i]));
                    }
                }
                assert(nodes@.no_duplicates());
                assert forall|n: usize| #[trigger] self.graph.nodes().contains_key(n)
                    <==> t.graph.nodes().contains_key(n) || nodes@.contains(n) by {
                    if before.contains(n) {
                        let i = choose|i: int| 0 <= i < before.len() && before[i] == n;
                        assert(nodes@[i] == n);
                    }
                    if n == node {
                        assert(nodes@[k as int] == n);
                    }
                    if nodes@.contains(n) && n != node {
                        let i = choose|i: int| 0 <= i < nodes@.len() && nodes@[i] == n;
                        assert(before[i] == n);
                    }
                    assert(mid.graph.nodes().contains_key(n) <==> t.graph.nodes().contains_key(n)
                        || before.contains(n));
                }
                assert forall|i: int| 0 <= i < k + 1 implies {
                    &&& !t.graph.nodes().contains_key(#[trigger] nodes@[i])
                    &&& self.graph.nodes().contains_key(nodes@[i])
                    &&& self.graph.nodes()[nodes@[i]] == texture_of(all[i].0)
                    &&& self.graph.places()[nodes@[i]] == texture_places@[i]
                } by {
                    if i < k {
                        assert(nodes@[i] == before[i]);
                        assert(before[i] != node);
                    }
                }
                assert forall|w: Wire| #[trigger] self.graph.wires().contains(w)
                    <==> t.graph.wires().contains(w) || is_texture_wire(
                    w,
                    shader,
                    nodes@,
                    all,
                    (k + 1) as nat,
                ) by {
                    if mid.graph.wires().contains(w) && !t.graph.wires().contains(w) {
                        let i = choose|i: int| #[trigger]
                            is_wire_of(w, shader, before, all, i) && 0 <= i < k;
                        assert(is_wire_of(w, shader, nodes@, all, i));
                    }
                    if w == new {
                        assert(is_wire_of(w, shader, nodes@, all, k as int));
                    }
                    if is_texture_wire(w, shader, nodes@, all, (k + 1) as nat) {
                        let i = choose|i: int| #[trigger]
                            is_wire_of(w, shader, nodes@, all, i) && 0 <= i < k + 1;
                        if i < k {
                            assert(is_wire_of(w, shader, before, all, i));
                        } else {
                            crate::material_graph::inputs_have_one_place(
                                all[k as int].1,
                                w.input as int,
                                input as int,
                            );
                            assert(w == new);
                        }
                    }
                }
            }
            k = k + 1;
        }
        proof {
            let models = binding_models(self.bindings@);
            assert(t.graph.nodes().dom().contains(shader));
            assert(self.graph.nodes().dom().contains(shader));
            assert(self.graph.is_shader_of(shader, s.next_binding_id));
            assert forall|i: int| 0 <= i < self.bindings@.len() implies (#[trigger] models[i]).id
                < self.next_binding_id && self.has_shader(models[i].id) by {
                let n = choose|n: usize| #[trigger] t.graph.is_shader_of(n, models[i].id);
                assert(t.graph.nodes().dom().contains(n));
                assert(self.graph.nodes().dom().contains(n));
                assert(self.graph.is_shader_of(n, models[i].id));
            }
            assert(s.graph.nodes().submap_of(self.graph.nodes())) by {
                assert forall|n: usize| #[trigger]
                    s.graph.nodes().dom().contains(n) implies #[trigger] self.graph.nodes().dom().contains(
                    n,
                ) && s.graph.nodes()[n] == self.graph.nodes()[n] by {
                    assert(t.graph.nodes().dom().contains(n));
                }
            }
            assert forall|i: int| 0 <= i < nodes@.len() implies !s.graph.nodes().contains_key(
                #[trigger] nodes@[i],
            ) by {
                if s.graph.nodes().contains_key(nodes@[i]) {
                    assert(t.graph.nodes().contains_key(nodes@[i]));
                }
            }
        }
        (shader, nodes)
    }

    /// The binding with a number.
    pub fn binding_for(&self, id: u64) -> (r: Option<&MaterialBindingInstance>)
        ensures
            match r {
                Some(b) => binding_with(binding_models(self.bindings@), id) == Some(b@),
                None => binding_with(binding_models(self.bindings@), id) is None,
            },
    {
        let ghost all = binding_models(self.bindings@);
        let mut i: usize = 0;
        proof {
            assert(all.skip(0) =~= all);
        }
        while i < self.bindings.len()
            invariant
                i <= self.bindings@.len(),
                all == binding_models(self.bindings@),
                binding_with(all, id) == binding_with(all.skip(i as int), id),
            decreases self.bindings@.len() - i,
        {
            proof {
                assert(all.skip(i as int)[0] == self.bindings@[i as int]@);
                assert(all.skip(i as int).skip(1) =~= all.skip(i + 1));
            }
            if self.bindings[i].id == id {
                return Some(&self.bindings[i]);
            }
            i = i + 1;
        }
        None
    }

    /// What is written above a node.
    pub fn title(&self, node: &MaterialNode) -> (r: String)
        ensures
            r@ == title_text(
                (match node {
                    MaterialNode::Shader { binding_id } => binding_with(
                        binding_models(self.bindings@),
                        *binding_id,
                    ),
                    MaterialNode::Texture(_) => None,
                }),
                node@,
            ),
    {
        match node {
            MaterialNode::Shader { binding_id } => {
                let number = String::from_str("material#").concat(
                    decimal_text(*binding_id).as_str(),
                );
                match self.binding_for(*binding_id) {
                    None => number.concat(" (missing)"),
                    Some(b) => {
                        proof {
                            assert(b@.target_prims.len() == b.target_prims@.len());
                        }
                        let stem = match file_stem_of(b.source.as_str()) {
                            Some(stem) => stem,
                            None => number,
                        };
                        let scope = if !b.assigned {
                            String::from_str("unassigned")
                        } else if b.target_prims.len() == 0 {
                            String::from_str("stage")
                        } else {
                            decimal_text(b.target_prims.len() as u64).concat(" prim(s)")
                        };
                        stem.concat(" · ").concat(scope.as_str())
                    },
                }
            },
            MaterialNode::Texture(t) => {
                match file_stem_of(t.path.as_str()) {
                    Some(stem) => stem,
                    None => String::from_str("texture"),
                }
            },
        }
    }

    /// Changes the first binding with a number, as the action says.
    fn change(&mut self, id: u64, action: GraphAction, selection: &Vec<String>)
        requires
            old(self).wf(),
            match action {
                GraphAction::AssignToSelection(n) => n == id,
                GraphAction::AssignToStage(n) => n == id,
                GraphAction::Unassign(n) => n == id,
                GraphAction::Remove(_) => false,
            },
        ensures
            final(self).wf(),
            binding_models(final(self).bindings@) == binding_models(old(self).bindings@).map_values(
                |b: BindingModel| b.after(action, views(selection@)),
            ),
            final(self).graph == old(self).graph,
            final(self).next_binding_id == old(self).next_binding_id,
            final(self).active_binding_id == old(self).active_binding_id,
    {
        let ghost s = *self;
        let ghost all = binding_models(self.bindings@);
        let ghost done = all.map_values(|b: BindingModel| b.after(action, views(selection@)));
        let mut i: usize = 0;
        while i < self.bindings.len()
            invariant
                i <= self.bindings@.len() == all.len(),
                s == *old(self),
                s.wf(),
                all == binding_models(s.bindings@),
                self.bindings@ == s.bindings@,
                self.graph == s.graph,
                self.next_binding_id == s.next_binding_id,
                self.active_binding_id == s.active_binding_id,
                done == all.map_values(|b: BindingModel| b.after(action, views(selection@))),
                match action {
                    GraphAction::AssignToSelection(n) => n == id,
                    GraphAction::AssignToStage(n) => n == id,
                    GraphAction::Unassign(n) => n == id,
                    GraphAction::Remove(_) => false,
                },
                forall|k: int| 0 <= k < i ==> (#[trigger] all[k]).id != id,
            decreases self.bindings@.len() - i,
        {
            if self.bindings[i].id == id {
                match action {
                    GraphAction::AssignToSelection(_) => {
                        self.bindings[i].target_prims = copy_list(selection);
                        self.bindings[i].assigned = true;
                    },
                    GraphAction::AssignToStage(_) => {
                        self.bindings[i].target_prims = Vec::new();
                        self.bindings[i].assigned = true;
                        proof {
                            assert(views(self.bindings@[i as int].target_prims@) =~= Seq::<
                                Seq<char>,
                            >::empty());
                        }
                    },
                    GraphAction::Unassign(_) => {
                        self.bindings[i].assigned = false;
                    },
                    GraphAction::Remove(_) => {},
                }
                proof {
                    let now = binding_models(self.bindings@);
                    assert(all[i as int].id == id);
                    assert forall|k: int| 0 <= k < all.len() implies now[k] == done[k] by {
                        if k != i {
                            assert(all[k].id != all[i as int].id);
                        }
                    }
                    assert(now =~= done);
                    same_ids_keep_wf(s, *self);
                }
                return;
            }
            i = i + 1;
        }
        proof {
            assert(binding_models(self.bindings@) =~= done);
        }
    }

    /// Does what the user asks of a shader node: assigns its binding to the selected prims or
    /// to the stage, takes the assignment back, or takes binding and node away.
    pub fn apply(&mut self, action: GraphAction, selection: &Vec<String>)
        requires
            old(self).wf(),
        ensures
            final(self).wf(),
            final(self).next_binding_id == old(self).next_binding_id,
            final(self).active_binding_id == old(self).active_binding_id,
            match action {
                GraphAction::Remove(id) => {
                    &&& binding_models(final(self).bindings@) == without(
                        binding_models(old(self).bindings@),
                        id,
                    )
                    &&& forall|n: usize| #[trigger]
                        final(self).graph.nodes().contains_key(n) <==> old(
                            self,
                        ).graph.nodes().contains_key(n) && !old(self).graph.is_shader_of(n, id)
                    &&& forall|n: usize| #[trigger]
                        final(self).graph.nodes().contains_key(n) ==> final(self).graph.nodes()[n]
                            == old(self).graph.nodes()[n]
                    &&& final(self).graph.wires() == old(self).graph.wires().filter(
                        |w: Wire|
                            !old(self).graph.is_shader_of(w.from, id) && !old(
                                self,
                            ).graph.is_shader_of(w.to, id),
                    )
                    &&& forall|n: usize| #[trigger]
                        final(self).graph.places().contains_key(n) ==> final(self).graph.places()[n] == old(self).graph.places()[n]
                    &&& final(self).graph.next_node_pos == old(self).graph.next_node_pos
                },
                _ => {
                    &&& binding_models(final(self).bindings@) == binding_models(
                        old(self).bindings@,
                    ).map_values(|b: BindingModel| b.after(action, views(selection@)))
                    &&& final(self).graph == old(self).graph
                },
            },
    {
        match action {
            GraphAction::AssignToSelection(id) => self.change(id, action, selection),
            GraphAction::AssignToStage(id) => self.change(id, action, selection),
            GraphAction::Unassign(id) => self.change(id, action, selection),
            GraphAction::Remove(id) => self.remove(id),
        }
    }

    /// Takes a binding and its shader node away.
    fn remove(&mut self, id: u64)
        requires
            old(self).wf(),
        ensures
            final(self).wf(),
            final(self).next_binding_id == old(self).next_binding_id,
            final(self).active_binding_id == old(self).active_binding_id,
            binding_models(final(self).bindings@) == without(
                binding_models(old(self).bindings@),
                id,
            ),
            forall|n: usize| #[trigger]
                final(self).graph.nodes().contains_key(n) <==> old(
                    self,
                ).graph.nodes().contains_key(n) && !old(self).graph.is_shader_of(n, id),
            forall|n: usize| #[trigger]
                final(self).graph.nodes().contains_key(n) ==> final(self).graph.nodes()[n] == old(
                    self,
                ).graph.nodes()[n],
            final(self).graph.wires() == old(self).graph.wires().filter(
                |w: Wire|
                    !old(self).graph.is_shader_of(w.from, id) && !old(
                        self,
                    ).graph.is_shader_of(w.to, id),
            ),
            forall|n: usize| #[trigger]
                final(self).graph.places().contains_key(n) ==> final(self).graph.places()[n]
                    == old(self).graph.places()[n],
            final(self).graph.next_node_pos == old(self).graph.next_node_pos,
    {
        let ghost s = *self;
        let ghost all = binding_models(self.bindings@);
        let mut kept: Vec<MaterialBindingInstance> = Vec::new();
        let mut i: usize = 0;
        proof {
            assert(binding_models(kept@) =~= without(all.take(0), id));
        }
        while i < self.bindings.len()
            invariant
                i <= self.bindings@.len(),
                *self == s,
                all == binding_models(self.bindings@),
                binding_models(kept@) == without(all.take(i as int), id),
            decreases self.bindings@.len() - i,
        {
            let b = &self.bindings[i];
            let ghost before = kept@;
            proof {
                assert(all.take(i + 1).drop_last() =~= all.take(i as int));
                assert(all.take(i + 1).last() == b@);
            }
            if b.id != id {
                kept.push(
                    MaterialBindingInstance {
                        id: b.id,
                        source: String::from_str(b.source.as_str()),
                        prim_path: String::from_str(b.prim_path.as_str()),
                        kind: b.kind,
                        inputs: b.inputs,
                        target_prims: copy_list(&b.target_prims),
                        assigned: b.assigned,
                    },
                );
                proof {
                    assert(binding_models(kept@) =~= binding_models(before).push(b@));
                }
            }
            i = i + 1;
        }
        proof {
            assert(all.take(all.len() as int) =~= all);
        }
        self.bindings = kept;
        self.graph.remove_shader_node(id);
        proof {
            let now = binding_models(self.bindings@);
            without_is_a_part(all, id);
            assert forall|i: int| 0 <= i < self.bindings@.len() implies (#[trigger] now[i]).id
                < self.next_binding_id && self.has_shader(now[i].id) by {
                let k = choose|k: int| 0 <= k < all.len() && #[trigger] all[k] == now[i];
                assert(s.has_shader(all[k].id));
                let n = choose|n: usize| #[trigger] s.graph.is_shader_of(n, all[k].id);
                assert(!s.graph.is_shader_of(n, id));
                assert(self.graph.nodes().contains_key(n));
                assert(self.graph.is_shader_of(n, now[i].id));
            }
        }
    }
}

/// A wire that runs from the `i`-th image to the input that it is for.
pub open spec fn is_wire_of(
    w: Wire,
    shader: usize,
    nodes: Seq<usize>,
    textures: Seq<(Seq<char>, ShaderPin)>,
    i: int,
) -> bool {
    w.from == nodes[i] && w.output == 0 && w.to == shader && is_input(
        textures[i].1,
        w.input as int,
    )
}

/// A wire that runs from one of the first `n` images to the input that it is for.
pub open spec fn is_texture_wire(
    w: Wire,
    shader: usize,
    nodes: Seq<usize>,
    textures: Seq<(Seq<char>, ShaderPin)>,
    n: nat,
) -> bool {
    exists|i: int| #[trigger] is_wire_of(w, shader, nodes, textures, i) && 0 <= i < n
}

/// Bindings that keep their numbers keep a session in order.
proof fn same_ids_keep_wf(s: MaterialSession, t: MaterialSession)
    requires
        s.wf(),
        t.graph == s.graph,
        t.next_binding_id == s.next_binding_id,
        t.bindings@.len() == s.bindings@.len(),
        forall|k: int|
            0 <= k < s.bindings@.len() ==> (#[trigger] binding_models(t.bindings@)[k]).id
                == binding_models(s.bindings@)[k].id,
    ensures
        t.wf(),
{
    let a = binding_models(s.bindings@);
    let b = binding_models(t.bindings@);
    assert forall|i: int| 0 <= i < t.bindings@.len() implies (#[trigger] b[i]).id
        < t.next_binding_id && t.has_shader(b[i].id) by {
        assert(a[i].id < s.next_binding_id && s.has_shader(a[i].id));
        let n = choose|n: usize| #[trigger] s.graph.is_shader_of(n, a[i].id);
        assert(t.graph.is_shader_of(n, b[i].id));
    }
    assert forall|i: int, j: int| 0 <= i < j < b.len() implies (#[trigger] b[i]).id != (
    #[trigger] b[j]).id by {
        assert(a[i].id != a[j].id);
    }
}

/// A binding that is written down and put in use again from its file is what it was: the
/// same material, on the same prims, with the same inputs; and so it is where the library has
/// the material under the same path. It is written down as before.
pub proof fn written_bindings_come_back(b: BindingModel, id: u64, asset: Option<&MaterialAsset>)
    requires
        b.assigned,
        asset matches Some(a) ==> a.source@ == b.source && a.prim_path@ == b.prim_path,
    ensures
        ({
            let again = b.written().read(id, asset);
            again == (BindingModel { id, kind: again.kind, ..b })
        }),
        asset matches Some(a) ==> b.written().read(id, asset).kind == a.kind,
        b.written().read(id, asset).written() == b.written(),
{
}

/// What is written down of a binding is its own material, inputs and prims, and it comes back
/// with them, in use; where the library has the material, the library says where it lies and
/// of which kind it is.
pub proof fn bindings_are_written_as_they_are(b: BindingModel, id: u64, asset: Option<&MaterialAsset>)
    ensures
        b.written().source == b.source,
        b.written().prim_path == b.prim_path,
        b.written().inputs == b.inputs,
        b.written().target_prims == b.target_prims,
        ({
            let r = b.written().read(id, asset);
            &&& r.id == id && r.assigned
            &&& r.inputs == b.inputs && r.target_prims == b.target_prims
            &&& asset is None ==> r.source == b.source && r.prim_path == b.prim_path && r.kind
                == MaterialKind::UsdPreviewSurface
            &&& asset matches Some(a) ==> r.source == a.source@ && r.prim_path == a.prim_path@
                && r.kind == a.kind
        }),
{
}

/// An action on a binding changes that binding alone: it is bound to what is selected, or to the
/// whole stage, or taken out of use; its material and inputs stay.
pub proof fn actions_change_their_own_binding(
    b: BindingModel,
    action: GraphAction,
    selection: Seq<Seq<char>>,
)
    ensures
        ({
            let r = b.after(action, selection);
            &&& r.id == b.id && r.source == b.source && r.prim_path == b.prim_path && r.kind == b.kind
                && r.inputs == b.inputs
            &&& action matches GraphAction::AssignToSelection(id) ==> if id == b.id {
                r.assigned && r.target_prims == selection
            } else {
                r == b
            }
            &&& action matches GraphAction::AssignToStage(id) ==> if id == b.id {
                r.assigned && r.target_prims.len() == 0
            } else {
                r == b
            }
            &&& action matches GraphAction::Unassign(id) ==> if id == b.id {
                !r.assigned && r.target_prims == b.target_prims
            } else {
                r == b
            }
        }),
{
}

/// Whether something written is that of a binding in use.
pub open spec fn is_of_one_in_use(list: Seq<BindingModel>, written: BoundModel) -> bool {
    exists|i: int|
        0 <= i < list.len() && (#[trigger] list[i]).assigned && list[i].written() == written
}

/// What is written down are the bindings in use, all of them and no others.
pub proof fn bindings_in_use_are_written(list: Seq<BindingModel>)
    ensures
        forall|i: int|
            0 <= i < list.len() && (#[trigger] list[i]).assigned ==> to_write(list).contains(
                list[i].written(),
            ),
        forall|k: int|
            0 <= k < to_write(list).len() ==> is_of_one_in_use(list, #[trigger] to_write(list)[k]),
        to_write(list).len() <= list.len(),
    decreases list.len(),
{
    if list.len() > 0 {
        let before = list.drop_last();
        bindings_in_use_are_written(before);
        let front = to_write(before);
        let all = to_write(list);
        assert forall|i: int| 0 <= i < list.len() && (#[trigger] list[i]).assigned implies all.contains(
            list[i].written(),
        ) by {
            if i < before.len() {
                assert(before[i] == list[i]);
                assert(front.contains(list[i].written()));
                let k = choose|k: int| 0 <= k < front.len() && front[k] == list[i].written();
                assert(all[k] == front[k]);
            } else {
                assert(all[all.len() - 1] == list[i].written());
            }
        }
        assert forall|k: int| 0 <= k < all.len() implies is_of_one_in_use(
            list,
            #[trigger] all[k],
        ) by {
            if k < front.len() {
                assert(all[k] == front[k]);
                assert(is_of_one_in_use(before, front[k]));
                let i = choose|i: int|
                    0 <= i < before.len() && (#[trigger] before[i]).assigned && before[i].written()
                        == front[k];
                assert(list[i] == before[i]);
            } else {
                assert(list[list.len() - 1].assigned);
            }
        }
    }
}

} // verus!
