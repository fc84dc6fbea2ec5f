//! The material node graph.

use crate::assets::{name_view, ShaderInputNames};
use crate::single::{Pair, Single, ONE};
use crate::text::{decimal, decimal_text};
use egui_snarl::{InPinId, NodeId, OutPinId, Snarl};
use vstd::prelude::*;

verus! {

/// The inputs of a shader node.
#[derive(Clone, Copy, Debug, PartialEq, Eq, Structural)]
pub enum ShaderPin {
    DiffuseColor,
    Metallic,
    Roughness,
    Normal,
    Opacity,
    Clearcoat,
    ClearcoatRoughness,
    Occlusion,
    EmissionColor,
    EmissionIntensity,
}

impl ShaderPin {
    /// Every value, in the order in which they are shown.
    pub const ALL: [ShaderPin; 10] = [
        ShaderPin::DiffuseColor,
        ShaderPin::Metallic,
        ShaderPin::Roughness,
        ShaderPin::Normal,
        ShaderPin::Opacity,
        ShaderPin::Clearcoat,
        ShaderPin::ClearcoatRoughness,
        ShaderPin::Occlusion,
        ShaderPin::EmissionColor,
        ShaderPin::EmissionIntensity,
    ];

    /// The name shown to the user.
    pub open spec fn label_text(self) -> Seq<char> {
        match self {
            ShaderPin::DiffuseColor => "Base Color"@,
            ShaderPin::Metallic => "Metallic"@,
            ShaderPin::Roughness => "Roughness"@,
            ShaderPin::Normal => "Normal"@,
            ShaderPin::Opacity => "Opacity"@,
            ShaderPin::Clearcoat => "Clearcoat"@,
            ShaderPin::ClearcoatRoughness => "Clearcoat Rough"@,
            ShaderPin::Occlusion => "Occlusion"@,
            ShaderPin::EmissionColor => "Emission Color"@,
            ShaderPin::EmissionIntensity => "Emission Intensity"@,
        }
    }

    /// The name shown to the user.
    pub fn label(self) -> (r: &'static str)
        ensures
            r@ == self.label_text(),
    {
        match self {
            ShaderPin::DiffuseColor => "Base Color",
            ShaderPin::Metallic => "Metallic",
            ShaderPin::Roughness => "Roughness",
            ShaderPin::Normal => "Normal",
            ShaderPin::Opacity => "Opacity",
            ShaderPin::Clearcoat => "Clearcoat",
            ShaderPin::ClearcoatRoughness => "Clearcoat Rough",
            ShaderPin::Occlusion => "Occlusion",
            ShaderPin::EmissionColor => "Emission Color",
            ShaderPin::EmissionIntensity => "Emission Intensity",
        }
    }
}

impl ShaderPin {
    /// The name under which a shader takes this input, if it takes it at all.
    pub fn shader_input_name(self, names: &ShaderInputNames) -> (r: Option<&'static str>)
        ensures
            name_view(r) == names.name_of(self),
    {
        match self {
            ShaderPin::DiffuseColor => names.diffuse_color,
            ShaderPin::Metallic => names.metallic,
            ShaderPin::Roughness => names.roughness,
            ShaderPin::Opacity => names.opacity,
            ShaderPin::Clearcoat => names.clearcoat,
            ShaderPin::ClearcoatRoughness => names.clearcoat_roughness,
            ShaderPin::EmissionColor => names.emission_color,
            ShaderPin::Normal => names.normal,
            ShaderPin::Occlusion => names.occlusion,
            ShaderPin::EmissionIntensity => names.emission_intensity,
        }
    }
}

/// An image in the graph.
#[derive(Clone, Debug)]
pub struct TextureNode {
    pub path: String,
    pub uv_scale: Pair,
}

impl Default for TextureNode {
    fn default() -> (r: Self)
        ensures
            r.path@.len() == 0,
            r.uv_scale == (Pair { u: Single { bits: ONE }, v: Single { bits: ONE } }),
    {
        TextureNode {
            path: String::new(),
            uv_scale: Pair { u: Single { bits: ONE }, v: Single { bits: ONE } },
        }
    }
}

/// A node of the graph.
#[derive(Clone, Debug)]
pub enum MaterialNode {
    /// The shader of a binding.
    Shader { binding_id: u64 },
    /// An image.
    Texture(TextureNode),
}

/// The value of a node.
pub enum NodeModel {
    Shader { binding_id: u64 },
    Texture { path: Seq<char>, uv_scale: Pair },
}

impl View for MaterialNode {
    type V = NodeModel;

    open spec fn view(&self) -> NodeModel {
        match self {
            MaterialNode::Shader { binding_id } => NodeModel::Shader { binding_id: *binding_id },
            MaterialNode::Texture(t) => NodeModel::Texture {
                path: t.path@,
                uv_scale: t.uv_scale,
            },
        }
    }
}

/// A wire from an output of one node to an input of another.
pub struct Wire {
    pub from: usize,
    pub output: usize,
    pub to: usize,
    pub input: usize,
}

/// The container that holds the nodes and wires of a graph.
#[verifier::external_type_specification]
#[verifier::external_body]
#[verifier::reject_recursive_types(T)]
pub struct ExSnarl<T>(egui_snarl::Snarl<T>);

/// The nodes that a container holds, by their numbers.
pub uninterp spec fn nodes_of(snarl: Snarl<MaterialNode>) -> Map<usize, NodeModel>;

/// The wires that a container holds.
pub uninterp spec fn wires_of(snarl: Snarl<MaterialNode>) -> Set<Wire>;

/// Where the nodes of a container lie on the canvas, by their numbers.
pub uninterp spec fn places_of(snarl: Snarl<MaterialNode>) -> Map<usize, Pair>;

/// Calls `egui_snarl::Snarl::new`: the container is empty.
#[verifier::external_body]
fn new_snarl() -> (r: Snarl<MaterialNode>)
    ensures
        nodes_of(r) == (Map::<usize, NodeModel>::empty()),
        wires_of(r) == Set::<Wire>::empty(),
        places_of(r) == (Map::<usize, Pair>::empty()),
{
    Snarl::new()
}

/// Calls `egui_snarl::Snarl::insert_node`: the node gets a number that no other node has, and
/// lies where it is told to; the wires stay. The point is handed over by `bytemuck::cast`, which
/// keeps the bits of the two coordinates.
#[verifier::external_body]
fn insert_node(snarl: &mut Snarl<MaterialNode>, at: Pair, node: MaterialNode) -> (r: usize)
    ensures
        !nodes_of(*old(snarl)).contains_key(r),
        nodes_of(*final(snarl)) == nodes_of(*old(snarl)).insert(r, node@),
        wires_of(*final(snarl)) == wires_of(*old(snarl)),
        places_of(*final(snarl)) == places_of(*old(snarl)).insert(r, at),
{
    let pos = bytemuck::cast::<[u32; 2], egui::Pos2>([at.u.bits, at.v.bits]);
    snarl.insert_node(pos, node).0
}

/// Calls `egui_snarl::Snarl::remove_node`: the node goes, and with it every wire that begins
/// or ends at it. It panics where there is no such node.
#[verifier::external_body]
fn remove_node(snarl: &mut Snarl<MaterialNode>, node: usize)
    requires
        nodes_of(*old(snarl)).contains_key(node),
    ensures
        nodes_of(*final(snarl)) == nodes_of(*old(snarl)).remove(node),
        wires_of(*final(snarl)) == wires_of(*old(snarl)).filter(
            |w: Wire| w.from != node && w.to != node,
        ),
        places_of(*final(snarl)) == places_of(*old(snarl)).remove(node),
{
    snarl.remove_node(NodeId(node));
}

/// Calls `egui_snarl::Snarl::connect`: the wire is there afterwards, the rest stays. It panics
/// where one of the nodes is missing.
#[verifier::external_body]
fn connect(snarl: &mut Snarl<MaterialNode>, from: usize, output: usize, to: usize, input: usize)
    requires
        nodes_of(*old(snarl)).contains_key(from),
        nodes_of(*old(snarl)).contains_key(to),
    ensures
        nodes_of(*final(snarl)) == nodes_of(*old(snarl)),
        wires_of(*final(snarl)) == wires_of(*old(snarl)).insert(Wire { from, output, to, input }),
        places_of(*final(snarl)) == places_of(*old(snarl)),
{
    let out_pin = OutPinId { node: NodeId(from), output };
    let in_pin = InPinId { node: NodeId(to), input };
    snarl.connect(out_pin, in_pin);
}

/// Calls `egui_snarl::Snarl::disconnect`: the wire is gone afterwards, the rest stays. It
/// panics where one of the nodes is missing.
#[verifier::external_body]
fn disconnect(snarl: &mut Snarl<MaterialNode>, from: usize, output: usize, to: usize, input: usize)
    requires
        nodes_of(*old(snarl)).contains_key(from),
        nodes_of(*old(snarl)).contains_key(to),
    ensures
        nodes_of(*final(snarl)) == nodes_of(*old(snarl)),
        wires_of(*final(snarl)) == wires_of(*old(snarl)).remove(Wire { from, output, to, input }),
        places_of(*final(snarl)) == places_of(*old(snarl)),
{
    let out_pin = OutPinId { node: NodeId(from), output };
    let in_pin = InPinId { node: NodeId(to), input };
    snarl.disconnect(out_pin, in_pin);
}

/// Calls `egui_snarl::Snarl::node_ids`, which walks the nodes by rising number.
#[verifier::external_body]
fn node_numbers(snarl: &Snarl<MaterialNode>) -> (r: Vec<usize>)
    ensures
        forall|i: int, j: int| 0 <= i < j < r@.len() ==> r@[i] < r@[j],
        forall|n: usize| #[trigger] r@.contains(n) <==> nodes_of(*snarl).contains_key(n),
{
    snarl.node_ids().map(|(id, _)| id.0).collect()
}

/// Calls `egui_snarl::Snarl::get_node`: the node of a number, if there is one.
#[verifier::external_body]
fn get_node(snarl: &Snarl<MaterialNode>, node: usize) -> (r: Option<&MaterialNode>)
    ensures
        match r {
            Some(n) => nodes_of(*snarl).contains_key(node) && n@ == nodes_of(*snarl)[node],
            None => !nodes_of(*snarl).contains_key(node),
        },
{
    snarl.get_node(NodeId(node))
}

/// Calls `egui_snarl::Snarl::in_pin`, whose result lists the outputs that are wired to an
/// input. In which order is left open.
#[verifier::external_body]
fn wired_to(snarl: &Snarl<MaterialNode>, to: usize, input: usize) -> (r: Vec<(usize, usize)>)
    ensures
        forall|from: usize, output: usize| #[trigger]
            r@.contains((from, output)) <==> wires_of(*snarl).contains(
                (Wire { from, output, to, input }),
            ),
{
    let pin = snarl.in_pin(InPinId { node: NodeId(to), input });
    pin.remotes.iter().map(|p| (p.node.0, p.output)).collect()
}

/// The material network of a stage.
pub struct MaterialGraph {
    pub snarl: Snarl<MaterialNode>,
    /// Where the next shader node goes.
    pub next_node_pos: Pair,
}

/// How far the next shader node lies to the right of the last one.
pub const COLUMN_STEP: u32 = 220;

/// How far the next row of shader nodes lies below the last one.
pub const ROW_STEP: u32 = 260;

/// The coordinate at which rows begin: 40.
pub const ROW_START: u32 = 0x4220_0000;

/// The coordinate behind which no shader node begins: 800.
pub const ROW_END: u32 = 0x4448_0000;

/// Where the first shader node goes.
pub open spec fn first_place() -> Pair {
    Pair { u: Single { bits: ROW_START }, v: Single { bits: ROW_START } }
}

/// Where a shader node goes after one that lies at `at`, where `moved` is that place moved on
/// by a column and a row: to the right while there is room, and then to the next row.
pub open spec fn next_place(at: Pair, moved: Pair) -> Pair {
    if (Single { bits: ROW_END }).less_spec(moved.u) {
        Pair { u: Single { bits: ROW_START }, v: moved.v }
    } else {
        Pair { u: moved.u, v: at.v }
    }
}

/// Shader nodes that are added one after the other do not pile up.
pub proof fn next_shader_has_its_own_place(at: Pair, moved: Pair)
    requires
        at.u.less_spec(moved.u),
        at.v.less_spec(moved.v),
    ensures
        next_place(at, moved) != at,
{
}

/// The node of a shader.
pub open spec fn shader_of(binding_id: u64) -> NodeModel {
    NodeModel::Shader { binding_id }
}

/// The node of an image.
pub open spec fn texture_of(path: Seq<char>) -> NodeModel {
    NodeModel::Texture {
        path,
        uv_scale: Pair { u: Single { bits: ONE }, v: Single { bits: ONE } },
    }
}

/// The place of an input among all inputs of a shader.
pub open spec fn is_input(pin: ShaderPin, k: int) -> bool {
    0 <= k < 10 && ShaderPin::ALL@[k] == pin
}

/// The place of an input among all inputs of a shader.
pub fn pin_index(pin: ShaderPin) -> (r: usize)
    ensures
        is_input(pin, r as int),
{
    match pin {
        ShaderPin::DiffuseColor => 0,
        ShaderPin::Metallic => 1,
        ShaderPin::Roughness => 2,
        ShaderPin::Normal => 3,
        ShaderPin::Opacity => 4,
        ShaderPin::Clearcoat => 5,
        ShaderPin::ClearcoatRoughness => 6,
        ShaderPin::Occlusion => 7,
        ShaderPin::EmissionColor => 8,
        ShaderPin::EmissionIntensity => 9,
    }
}

/// The input at a place; the first one, where there is none.
pub fn pin_at(k: usize) -> (r: ShaderPin)
    ensures
        r == (if k < 10 {
            ShaderPin::ALL@[k as int]
        } else {
            ShaderPin::DiffuseColor
        }),
{
    if k < 10 {
        ShaderPin::ALL[k]
    } else {
        ShaderPin::DiffuseColor
    }
}

/// Every input has one place.
pub proof fn inputs_have_one_place(pin: ShaderPin, j: int, k: int)
    requires
        is_input(pin, j),
        is_input(pin, k),
    ensures
        j == k,
{
}

impl MaterialNode {
    /// How many inputs a node has.
    pub fn inputs(&self) -> (r: usize)
        ensures
            r == (if self is Shader { 10int } else { 0 }),
    {
        match self {
            MaterialNode::Shader { .. } => 10,
            MaterialNode::Texture(_) => 0,
        }
    }

    /// How many outputs a node has.
    pub fn outputs(&self) -> (r: usize)
        ensures
            r == 1,
    {
        1
    }

    /// Whether a node has a picture in it.
    pub fn has_body(&self) -> (r: bool)
        ensures
            r == (self is Shader),
    {
        match self {
            MaterialNode::Shader { .. } => true,
            MaterialNode::Texture(_) => false,
        }
    }

    /// What is written at the output of a node.
    pub fn output_label(&self) -> (r: &'static str)
        ensures
            r@ == (if self is Shader { "Surface"@ } else { "RGB"@ }),
    {
        match self {
            MaterialNode::Shader { .. } => "Surface",
            MaterialNode::Texture(_) => "RGB",
        }
    }
}

/// What the user asks of a shader node.
#[derive(Clone, Copy, Debug, PartialEq, Eq, Structural)]
pub enum GraphAction {
    AssignToSelection(u64),
    AssignToStage(u64),
    Unassign(u64),
    Remove(u64),
}

/// What the menu entry says that assigns a material to the selection.
pub open spec fn assign_label_text(selected: nat) -> Seq<char> {
    if selected > 0 {
        "Assign to selection ("@ + decimal(selected) + ")"@
    } else {
        "Assign to selection"@
    }
}

/// What the menu entry says that assigns a material to the selection.
pub fn assign_label(selected: usize) -> (r: String)
    ensures
        r@ == assign_label_text(selected as nat),
{
    if selected > 0 {
        String::from_str("Assign to selection (").concat(
            decimal_text(selected as u64).as_str(),
        ).concat(")")
    } else {
        String::from_str("Assign to selection")
    }
}

impl MaterialGraph {
    /// Wires run between nodes that there are, and those are the ones that lie somewhere.
    pub open spec fn wf(self) -> bool {
        &&& places_of(self.snarl).dom() == nodes_of(self.snarl).dom()
        &&& forall|w: Wire| #[trigger]
            wires_of(self.snarl).contains(w) ==> nodes_of(self.snarl).contains_key(w.from)
                && nodes_of(self.snarl).contains_key(w.to)
    }

    /// The nodes by their numbers.
    pub open spec fn nodes(self) -> Map<usize, NodeModel> {
        nodes_of(self.snarl)
    }

    /// The wires.
    pub open spec fn wires(self) -> Set<Wire> {
        wires_of(self.snarl)
    }

    /// Where the nodes lie.
    pub open spec fn places(self) -> Map<usize, Pair> {
        places_of(self.snarl)
    }

    /// Whether a node is there and is the shader of a binding.
    pub open spec fn is_shader_of(self, node: usize, binding_id: u64) -> bool {
        self.nodes().contains_key(node) && self.nodes()[node] == shader_of(binding_id)
    }

    /// An empty graph.
    pub fn new() -> (r: MaterialGraph)
        ensures
            r.wf(),
            r.nodes() == (Map::<usize, NodeModel>::empty()),
            r.wires() == Set::<Wire>::empty(),
            r.places() == (Map::<usize, Pair>::empty()),
            r.next_node_pos == first_place(),
    {
        let start = Single { bits: ROW_START };
        MaterialGraph { snarl: new_snarl(), next_node_pos: Pair { u: start, v: start } }
    }

    /// Adds the shader of a binding at the next place. The caller, which can add coordinates,
    /// says what that place moved on by `COLUMN_STEP` and `ROW_STEP` is.
    pub fn spawn_shader_node(&mut self, binding_id: u64, moved: Pair) -> (r: usize)
        requires
            old(self).wf(),
        ensures
            final(self).wf(),
            !old(self).nodes().contains_key(r),
            final(self).nodes() == old(self).nodes().insert(r, shader_of(binding_id)),
            final(self).wires() == old(self).wires(),
            final(self).places() == old(self).places().insert(r, old(self).next_node_pos),
            final(self).next_node_pos == next_place(old(self).next_node_pos, moved),
    {
        let at = self.next_node_pos;
        self.next_node_pos = if (Single { bits: ROW_END }).less(moved.u) {
            Pair { u: Single { bits: ROW_START }, v: moved.v }
        } else {
            Pair { u: moved.u, v: at.v }
        };
        insert_node(&mut self.snarl, at, MaterialNode::Shader { binding_id })
    }

    /// Adds an image at a place.
    pub fn spawn_texture_node_at(&mut self, path: &str, at: Pair) -> (r: usize)
        requires
            old(self).wf(),
        ensures
            final(self).wf(),
            !old(self).nodes().contains_key(r),
            final(self).nodes() == old(self).nodes().insert(r, texture_of(path@)),
            final(self).wires() == old(self).wires(),
            final(self).places() == old(self).places().insert(r, at),
            final(self).next_node_pos == old(self).next_node_pos,
    {
        let node = MaterialNode::Texture(
            TextureNode {
                path: String::from_str(path),
                uv_scale: Pair { u: Single { bits: ONE }, v: Single { bits: ONE } },
            },
        );
        insert_node(&mut self.snarl, at, node)
    }

    /// Wires an image to an input of a shader.
    pub fn connect_texture_to_shader(&mut self, texture: usize, shader: usize, pin: ShaderPin) -> (r:
        usize)
        requires
            old(self).wf(),
            old(self).nodes().contains_key(texture),
            old(self).nodes().contains_key(shader),
        ensures
            final(self).wf(),
            is_input(pin, r as int),
            final(self).nodes() == old(self).nodes(),
            final(self).wires() == old(self).wires().insert(
                (Wire { from: texture, output: 0, to: shader, input: r }),
            ),
            final(self).places() == old(self).places(),
            final(self).next_node_pos == old(self).next_node_pos,
    {
        let input: usize = pin_index(pin);
        connect(&mut self.snarl, texture, 0, shader, input);
        input
    }

    /// Takes a node away with its wires, if it is there.
    pub fn remove(&mut self, node: usize)
        requires
            old(self).wf(),
        ensures
            final(self).wf(),
            final(self).nodes() == old(self).nodes().remove(node),
            final(self).wires() == old(self).wires().filter(
                |w: Wire| w.from != node && w.to != node,
            ),
            final(self).places() == old(self).places().remove(node),
            final(self).next_node_pos == old(self).next_node_pos,
    {
        let ghost g = *self;
        if get_node(&self.snarl, node).is_some() {
            remove_node(&mut self.snarl, node);
        } else {
            proof {
                assert(g.nodes().remove(node) =~= g.nodes());
                assert(!g.nodes().dom().contains(node));
                assert(g.places().remove(node) =~= g.places());
                assert(g.wires().filter(|w: Wire| w.from != node && w.to != node) =~= g.wires());
            }
        }
    }

    /// The nodes that are shaders of a binding.
    fn shaders_of(&self, binding_id: u64) -> (r: Vec<usize>)
        ensures
            forall|n: usize| #[trigger] r@.contains(n) <==> self.is_shader_of(n, binding_id),
    {
        let all = node_numbers(&self.snarl);
        let mut out: Vec<usize> = Vec::new();
        let mut i: usize = 0;
        while i < all.len()
            invariant
                i <= all@.len(),
                forall|n: usize| #[trigger]
                    all@.contains(n) <==> nodes_of(self.snarl).contains_key(n),
                forall|n: usize| #[trigger]
                    out@.contains(n) <==> all@.take(i as int).contains(n) && self.is_shader_of(
                        n,
                        binding_id,
                    ),
            decreases all@.len() - i,
        {
            let n: usize = all[i];
            let ghost before = out@;
            let ghost seen = all@.take(i as int);
            let is_one = match get_node(&self.snarl, n) {
                Some(MaterialNode::Shader { binding_id: b }) => *b == binding_id,
                _ => false,
            };
            if is_one {
                out.push(n);
            }
            proof {
                assert(all@.contains(n));
                assert(is_one == self.is_shader_of(n, binding_id));
                let now = all@.take(i + 1);
                assert(now =~= seen.push(n));
                assert forall|m: usize| #[trigger] out@.contains(m) <==> now.contains(m)
                    && self.is_shader_of(m, binding_id) by {
                    if before.contains(m) {
                        let k = choose|k: int| 0 <= k < before.len() && before[k] == m;
                        assert(out@[k] == m);
                        let j = choose|j: int| 0 <= j < seen.len() && seen[j] == m;
                        assert(now[j] == m);
                    }
                    if out@.contains(m) && !before.contains(m) {
                        let k = choose|k: int| 0 <= k < out@.len() && out@[k] == m;
                        if k < before.len() {
                            assert(before[k] == m);
                        }
                        assert(m == n);
                        assert(now[i as int] == n);
                    }
                    if now.contains(m) && self.is_shader_of(m, binding_id) {
                        let j = choose|j: int| 0 <= j < now.len() && now[j] == m;
                        if j < i {
                            assert(seen[j] == m);
                            assert(before.contains(m));
                        } else {
                            assert(out@[before.len() as int] == n);
                        }
                    }
                }
            }
            i = i + 1;
        }
        proof {
            assert(all@.take(all@.len() as int) =~= all@);
        }
        out
    }

    /// Takes the shader nodes of a binding away, with their wires.
    pub fn remove_shader_node(&mut self, binding_id: u64)
        requires
            old(self).wf(),
        ensures
            final(self).wf(),
            forall|n: usize| #[trigger]
                final(self).nodes().contains_key(n) <==> old(self).nodes().contains_key(n) && !old(
                    self,
                ).is_shader_of(n, binding_id),
            forall|n: usize| #[trigger]
                final(self).nodes().contains_key(n) ==> final(self).nodes()[n] == old(
                    self,
                ).nodes()[n],
            final(self).wires() == old(self).wires().filter(
                |w: Wire|
                    !old(self).is_shader_of(w.from, binding_id) && !old(self).is_shader_of(
                        w.to,
                        binding_id,
                    ),
            ),
            forall|n: usize| #[trigger]
                final(self).places().contains_key(n) ==> final(self).places()[n] == old(
                    self,
                ).places()[n],
            final(self).next_node_pos == old(self).next_node_pos,
    {
        let ghost g = *self;
        let ids = self.shaders_of(binding_id);
        let mut i: usize = 0;
        proof {
            assert(g.wires().filter(
                |w: Wire| !ids@.take(0).contains(w.from) && !ids@.take(0).contains(w.to),
            ) =~= g.wires());
        }
        while i < ids.len()
            invariant
                i <= ids@.len(),
                self.wf(),
                forall|n: usize| #[trigger] ids@.contains(n) <==> g.is_shader_of(n, binding_id),
                forall|n: usize| #[trigger]
                    self.nodes().contains_key(n) <==> g.nodes().contains_key(n) && !ids@.take(
                        i as int,
                    ).contains(n),
                forall|n: usize| #[trigger]
                    self.nodes().contains_key(n) ==> self.nodes()[n] == g.nodes()[n],
                forall|n: usize| #[trigger]
                    self.places().contains_key(n) ==> self.places()[n] == g.places()[n],
                self.next_node_pos == g.next_node_pos,
                self.wires() == g.wires().filter(
                    |w: Wire|
                        !ids@.take(i as int).contains(w.from) && !ids@.take(i as int).contains(w.to),
                ),
            decreases ids@.len() - i,
        {
            let ghost mid = *self;
            let ghost gone = ids@.take(i as int);
            let id: usize = ids[i];
            self.remove(id);
            proof {
                let now = ids@.take(i + 1);
                assert(now =~= gone.push(id));
                assert forall|n: usize| #[trigger] now.contains(n) <==> gone.contains(n) || n
                    == id by {
                    if gone.contains(n) {
                        let k = choose|k: int| 0 <= k < gone.len() && gone[k] == n;
                        assert(now[k] == n);
                    }
                    if n == id {
                        assert(now[i as int] == n);
                    }
                    if now.contains(n) && n != id {
                        let k = choose|k: int| 0 <= k < now.len() && now[k] == n;
                        assert(gone[k] == n);
                    }
                }
                assert(self.wires() =~= g.wires().filter(
                    |w: Wire| !now.contains(w.from) && !now.contains(w.to),
                ));
            }
            i = i + 1;
        }
        proof {
            assert(ids@.take(ids@.len() as int) =~= ids@);
            assert(self.wires() =~= g.wires().filter(
                |w: Wire| !g.is_shader_of(w.from, binding_id) && !g.is_shader_of(w.to, binding_id),
            ));
        }
    }

    /// Whether a wire may run from one node to another: from an image to a shader.
    pub open spec fn may_connect(self, from: usize, to: usize) -> bool {
        &&& self.nodes().contains_key(from) && self.nodes()[from] is Texture
        &&& self.nodes().contains_key(to) && self.nodes()[to] is Shader
    }

    /// Wires an output to an input, in place of what was wired to that input. Only an image
    /// can be wired to a shader; nothing else happens.
    pub fn connect(&mut self, from: usize, output: usize, to: usize, input: usize)
        requires
            old(self).wf(),
            old(self).nodes().contains_key(from),
            old(self).nodes().contains_key(to),
        ensures
            final(self).wf(),
            final(self).nodes() == old(self).nodes(),
            final(self).wires() == (if old(self).may_connect(from, to) {
                old(self).wires().filter(|w: Wire| !(w.to == to && w.input == input)).insert(
                    Wire { from, output, to, input },
                )
            } else {
                old(self).wires()
            }),
            final(self).places() == old(self).places(),
            final(self).next_node_pos == old(self).next_node_pos,
    {
        let ghost g = *self;
        let from_is_texture = match get_node(&self.snarl, from) {
            Some(MaterialNode::Texture(_)) => true,
            _ => false,
        };
        let to_is_shader = match get_node(&self.snarl, to) {
            Some(MaterialNode::Shader { .. }) => true,
            _ => false,
        };
        if !(from_is_texture && to_is_shader) {
            return;
        }
        let remotes = wired_to(&self.snarl, to, input);
        let mut i: usize = 0;
        proof {
            assert(g.wires().filter(
                |w: Wire|
                    !(w.to == to && w.input == input && remotes@.take(0).contains(
                        (w.from, w.output),
                    )),
            ) =~= g.wires());
        }
        while i < remotes.len()
            invariant
                i <= remotes@.len(),
                g.wf(),
                self.nodes() == g.nodes(),
                self.places() == g.places(),
                self.next_node_pos == g.next_node_pos,
                g.nodes().contains_key(to),
                forall|f: usize, o: usize| #[trigger]
                    remotes@.contains((f, o)) <==> g.wires().contains(
                        (Wire { from: f, output: o, to, input }),
                    ),
                self.wires() == g.wires().filter(
                    |w: Wire|
                        !(w.to == to && w.input == input && remotes@.take(i as int).contains(
                            (w.from, w.output),
                        )),
                ),
            decreases remotes@.len() - i,
        {
            let (f, o) = remotes[i];
            let ghost gone = remotes@.take(i as int);
            proof {
                assert(remotes@[i as int] == (f, o));
                assert(remotes@.contains((f, o)));
                assert(g.wires().contains(Wire { from: f, output: o, to, input }));
            }
            disconnect(&mut self.snarl, f, o, to, input);
            proof {
                let now = remotes@.take(i + 1);
                assert(now =~= gone.push((f, o)));
                assert forall|p: (usize, usize)| #[trigger] now.contains(p) <==> gone.contains(p)
                    || p == (f, o) by {
                    if gone.contains(p) {
                        let k = choose|k: int| 0 <= k < gone.len() && gone[k] == p;
                        assert(now[k] == p);
                    }
                    if p == (f, o) {
                        assert(now[i as int] == p);
                    }
                    if now.contains(p) && p != (f, o) {
                        let k = choose|k: int| 0 <= k < now.len() && now[k] == p;
                        assert(gone[k] == p);
                    }
                }
                assert(self.wires() =~= g.wires().filter(
                    |w: Wire|
                        !(w.to == to && w.input == input && now.contains((w.from, w.output))),
                ));
            }
            i = i + 1;
        }
        proof {
            assert(remotes@.take(remotes@.len() as int) =~= remotes@);
            assert(self.wires() =~= g.wires().filter(
                |w: Wire| !(w.to == to && w.input == input),
            )) by {
                assert forall|w: Wire| g.wires().contains(w) && w.to == to && w.input
                    == input implies remotes@.contains((w.from, w.output)) by {
                    assert(w == Wire { from: w.from, output: w.output, to, input });
                }
            }
        }
        connect(&mut self.snarl, from, output, to, input);
    }
}

/// After a wire was drawn, nothing else runs to its input.
pub proof fn one_wire_for_each_drawn_input(before: Set<Wire>, new: Wire, other: Wire)
    requires
        before.filter(|w: Wire| !(w.to == new.to && w.input == new.input)).insert(new).contains(
            other,
        ),
        other.to == new.to,
        other.input == new.input,
    ensures
        other == new,
{
}

/// A new shader node goes to the right of the last one, on the same row; where there is no room
/// left it goes to the beginning of the next row.
pub proof fn shader_nodes_are_laid_out_in_rows(at: Pair, moved: Pair)
    ensures
        ({
            let next = next_place(at, moved);
            let full = (Single { bits: ROW_END }).less_spec(moved.u);
            &&& !full ==> next.u == moved.u && next.v == at.v
            &&& full ==> next.u == first_place().u && next.v == moved.v
        }),
{
}

} // verus!
