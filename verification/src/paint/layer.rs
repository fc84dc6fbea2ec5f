//! Paint layers and the stack that they form.

use crate::counting::distinct_numbers_are_few;
use crate::lights::{triple, triple_of};
use crate::paint::smart_mask::SmartMaskParams;
use crate::single::{Single, Triple, HALF, ONE};
use crate::text::{decimal, decimal_reads_back, decimal_text, same_text};
use vstd::prelude::*;

verus! {

/// How a layer is laid over those below it.
#[derive(Clone, Copy, Debug, PartialEq, Eq, Structural)]
pub enum BlendMode {
    Normal,
    Multiply,
    Screen,
    Add,
}

impl BlendMode {
    /// Every value, in the order in which they are shown.
    pub const ALL: [BlendMode; 4] = [
        BlendMode::Normal,
        BlendMode::Multiply,
        BlendMode::Screen,
        BlendMode::Add,
    ];

    /// The name shown to the user.
    pub open spec fn label_text(self) -> Seq<char> {
        match self {
            BlendMode::Normal => "Normal"@,
            BlendMode::Multiply => "Multiply"@,
            BlendMode::Screen => "Screen"@,
            BlendMode::Add => "Add"@,
        }
    }

    /// The name shown to the user.
    pub fn label(self) -> (r: &'static str)
        ensures
            r@ == self.label_text(),
    {
        match self {
            BlendMode::Normal => "Normal",
            BlendMode::Multiply => "Multiply",
            BlendMode::Screen => "Screen",
            BlendMode::Add => "Add",
        }
    }
}

/// The material of a layer that is the same everywhere.
#[derive(Clone, Copy, Debug, PartialEq, Eq, Structural)]
pub struct FillParams {
    pub base_color_srgb: Triple,
    pub roughness: Single,
    pub metallic: Single,
}

impl FillParams {
    /// A grey that is half rough and not metallic.
    pub open spec fn initial() -> FillParams {
        FillParams {
            base_color_srgb: triple_of(HALF, HALF, HALF),
            roughness: Single { bits: HALF },
            metallic: Single { bits: 0 },
        }
    }

    /// Numeric equality of all fields.
    pub open spec fn equals_spec(self, other: FillParams) -> bool {
        self.base_color_srgb.equals_spec(other.base_color_srgb) && self.roughness.equals_spec(
            other.roughness,
        ) && self.metallic.equals_spec(other.metallic)
    }

    /// Whether all fields are equal as numbers.
    pub fn equals(&self, other: &FillParams) -> (r: bool)
        ensures
            r == self.equals_spec(*other),
    {
        self.base_color_srgb.equals(other.base_color_srgb) && self.roughness.equals(
            other.roughness,
        ) && self.metallic.equals(other.metallic)
    }
}

impl Default for FillParams {
    fn default() -> (r: Self)
        ensures
            r == FillParams::initial(),
    {
        FillParams {
            base_color_srgb: triple(HALF, HALF, HALF),
            roughness: Single { bits: HALF },
            metallic: Single { bits: 0 },
        }
    }
}

/// What a layer holds.
#[derive(Clone, Copy, Debug, PartialEq, Eq, Structural)]
pub enum LayerKind {
    /// Brush strokes.
    Paint,
    /// The same material everywhere.
    Fill(FillParams),
}

/// A mask over a layer; where it is generated, how.
#[derive(Clone, Copy, Debug, PartialEq, Eq, Structural)]
pub struct Mask {
    pub smart: Option<SmartMaskParams>,
}

/// A paint layer.
#[derive(Clone, Debug)]
pub struct Layer {
    pub name: String,
    pub opacity: Single,
    pub visible: bool,
    pub blend_mode: BlendMode,
    pub kind: LayerKind,
    pub mask: Option<Mask>,
}

/// The value of a paint layer.
pub struct LayerModel {
    pub name: Seq<char>,
    pub opacity: Single,
    pub visible: bool,
    pub blend_mode: BlendMode,
    pub kind: LayerKind,
    pub mask: Option<Mask>,
}

impl View for Layer {
    type V = LayerModel;

    open spec fn view(&self) -> LayerModel {
        LayerModel {
            name: self.name@,
            opacity: self.opacity,
            visible: self.visible,
            blend_mode: self.blend_mode,
            kind: self.kind,
            mask: self.mask,
        }
    }
}

/// The bytes of the one pixel of a fill layer, channel by channel.
#[derive(Clone, Copy, Debug)]
pub struct FillTexels {
    pub base_color: [u8; 4],
    pub roughness: u8,
    pub metallic: u8,
    pub normal: [u8; 4],
}

impl LayerModel {
    /// A new layer: opaque, visible, laid over those below it, without a mask.
    pub open spec fn fresh(name: Seq<char>, kind: LayerKind) -> LayerModel {
        LayerModel {
            name,
            opacity: Single { bits: ONE },
            visible: true,
            blend_mode: BlendMode::Normal,
            kind,
            mask: None,
        }
    }

    /// The layer with another material, if it is a fill layer whose material differs.
    pub open spec fn with_fill(self, params: FillParams) -> LayerModel {
        match self.kind {
            LayerKind::Fill(stored) => if stored.equals_spec(params) {
                self
            } else {
                LayerModel { kind: LayerKind::Fill(params), ..self }
            },
            LayerKind::Paint => self,
        }
    }

    /// The layer with a mask, if it had none.
    pub open spec fn with_mask(self) -> LayerModel {
        match self.mask {
            Some(_) => self,
            None => LayerModel { mask: Some(Mask { smart: None }), ..self },
        }
    }
}

impl Layer {
    /// A new layer to paint on.
    pub fn new(name: &str) -> (r: Layer)
        ensures
            r@ == LayerModel::fresh(name@, LayerKind::Paint),
    {
        Layer {
            name: String::from_str(name),
            opacity: Single { bits: ONE },
            visible: true,
            blend_mode: BlendMode::Normal,
            kind: LayerKind::Paint,
            mask: None,
        }
    }

    /// A new layer that is the same everywhere.
    pub fn new_fill(name: &str) -> (r: Layer)
        ensures
            r@ == LayerModel::fresh(name@, LayerKind::Fill(FillParams::initial())),
    {
        Layer {
            name: String::from_str(name),
            opacity: Single { bits: ONE },
            visible: true,
            blend_mode: BlendMode::Normal,
            kind: LayerKind::Fill(FillParams::default()),
            mask: None,
        }
    }

    /// Gives the layer a mask, unless it has one.
    pub fn add_mask(&mut self)
        ensures
            final(self)@ == old(self)@.with_mask(),
    {
        if self.mask.is_none() {
            self.mask = Some(Mask { smart: None });
        }
    }

    /// Takes the mask away.
    pub fn remove_mask(&mut self)
        ensures
            final(self)@ == (LayerModel { mask: None, ..old(self)@ }),
    {
        self.mask = None;
    }

    /// Whether the layer is the same everywhere.
    pub fn is_fill(&self) -> (r: bool)
        ensures
            r == (self.kind is Fill),
    {
        match self.kind {
            LayerKind::Fill(_) => true,
            LayerKind::Paint => false,
        }
    }

    /// The material of a fill layer.
    pub fn fill_params(&self) -> (r: Option<FillParams>)
        ensures
            match r {
                Some(p) => self.kind == LayerKind::Fill(p),
                None => self.kind == LayerKind::Paint,
            },
    {
        match self.kind {
            LayerKind::Fill(p) => Some(p),
            LayerKind::Paint => None,
        }
    }

    /// Gives a fill layer another material. Says whether its pixels have to be written
    /// again.
    pub fn set_fill_params(&mut self, params: FillParams) -> (r: bool)
        ensures
            final(self)@ == old(self)@.with_fill(params),
            r == (match old(self).kind {
                LayerKind::Fill(stored) => !stored.equals_spec(params),
                LayerKind::Paint => false,
            }),
    {
        match self.kind {
            LayerKind::Fill(stored) => {
                if stored.equals(&params) {
                    return false;
                }
                self.kind = LayerKind::Fill(params);
                true
            },
            LayerKind::Paint => false,
        }
    }
}

/// The pixel of a fill layer from the bytes of its material: opaque, with a flat normal.
pub fn fill_texels(color: [u8; 3], roughness: u8, metallic: u8) -> (r: FillTexels)
    ensures
        r.base_color@ == color@.push(255),
        r.roughness == roughness,
        r.metallic == metallic,
        r.normal@ == seq![128u8, 128, 255, 255],
{
    let r = FillTexels {
        base_color: [color[0], color[1], color[2], 255],
        roughness,
        metallic,
        normal: [128, 128, 255, 255],
    };
    proof {
        assert(r.base_color@ =~= color@.push(255));
        assert(r.normal@ =~= seq![128u8, 128, 255, 255]);
    }
    r
}

/// The layers of an asset, from the bottom up, and the one that is worked on.
#[derive(Clone, Debug)]
pub struct LayerStack {
    pub layers: Vec<Layer>,
    pub active: usize,
    pub resolution: u32,
    pub tile_count: u32,
}

/// The values of layers.
pub open spec fn layer_models(layers: Seq<Layer>) -> Seq<LayerModel> {
    layers.map_values(|l: Layer| l@)
}

/// No two layers have the same name.
pub open spec fn names_differ(layers: Seq<LayerModel>) -> bool {
    forall|i: int, j: int|
        0 <= i < j < layers.len() ==> (#[trigger] layers[i]).name != (#[trigger] layers[j]).name
}

/// Whether a layer has a name.
pub open spec fn is_taken(layers: Seq<LayerModel>, name: Seq<char>) -> bool {
    exists|i: int| 0 <= i < layers.len() && (#[trigger] layers[i]).name == name
}

/// A name with a number.
pub open spec fn numbered(base: Seq<char>, n: nat) -> Seq<char> {
    base + " "@ + decimal(n)
}

/// The first number, from `n` on, with which a name is not taken.
pub open spec fn is_first_free(layers: Seq<LayerModel>, base: Seq<char>, n: nat, at: nat) -> bool {
    &&& n <= at
    &&& !is_taken(layers, numbered(base, at))
    &&& forall|k: nat| n <= k < at ==> is_taken(layers, #[trigger] numbered(base, k))
}

/// Different numbers give different names.
proof fn numbered_names_differ(base: Seq<char>, a: nat, b: nat)
    requires
        numbered(base, a) == numbered(base, b),
    ensures
        a == b,
{
    let front = base + " "@;
    let k = front.len() as int;
    assert(numbered(base, a) == front + decimal(a));
    assert(numbered(base, b) == front + decimal(b));
    assert((front + decimal(a)).skip(k) =~= decimal(a));
    assert((front + decimal(b)).skip(k) =~= decimal(b));
    decimal_reads_back(a);
    decimal_reads_back(b);
}

/// There are no more taken names than layers.
proof fn few_numbers_are_taken(layers: Seq<LayerModel>, base: Seq<char>, n: nat, at: nat)
    requires
        n <= at,
        forall|k: nat| n <= k < at ==> is_taken(layers, #[trigger] numbered(base, k)),
    ensures
        at - n <= layers.len(),
{
    let holder = Seq::new(
        (at - n) as nat,
        |i: int|
            choose|j: int|
                0 <= j < layers.len() && (#[trigger] layers[j]).name == numbered(
                    base,
                    (n + i) as nat,
                ),
    );
    assert forall|i: int| 0 <= i < holder.len() implies 0 <= #[trigger] holder[i] < layers.len()
        && layers[holder[i]].name == numbered(base, (n + i) as nat) by {
        assert(is_taken(layers, numbered(base, (n + i) as nat)));
    }
    assert(holder.no_duplicates()) by {
        assert forall|i: int, j: int|
            0 <= i < holder.len() && 0 <= j < holder.len() && i != j implies holder[i]
            != holder[j] by {
            if holder[i] == holder[j] {
                numbered_names_differ(base, (n + i) as nat, (n + j) as nat);
            }
        }
    }
    distinct_numbers_are_few(holder, layers.len());
}

impl LayerStack {
    /// There is a layer, and the one that is worked on is one of them.
    pub open spec fn wf(self) -> bool {
        self.active < self.layers@.len()
    }

    /// Nothing but the layers and the choice among them differs.
    pub open spec fn same_canvas(self, other: LayerStack) -> bool {
        self.resolution == other.resolution && self.tile_count == other.tile_count
    }

    /// A stack with one layer.
    pub fn new_with_initial_layer(resolution: u32, tile_count: u32) -> (r: LayerStack)
        ensures
            r.wf(),
            names_differ(layer_models(r.layers@)),
            layer_models(r.layers@) == seq![LayerModel::fresh("Layer 1"@, LayerKind::Paint)],
            r.active == 0,
            r.resolution == resolution,
            r.tile_count == tile_count,
    {
        let mut layers: Vec<Layer> = Vec::new();
        layers.push(Layer::new("Layer 1"));
        proof {
            assert(layer_models(layers@) =~= seq![
                LayerModel::fresh("Layer 1"@, LayerKind::Paint),
            ]);
        }
        LayerStack { layers, active: 0, resolution, tile_count }
    }

    /// The layer that is worked on.
    pub fn active_layer(&self) -> (r: &Layer)
        requires
            self.wf(),
        ensures
            *r == self.layers@[self.active as int],
    {
        &self.layers[self.active]
    }

    /// The layer that is worked on, to be changed.
    pub fn active_layer_mut(&mut self) -> (r: &mut Layer)
        requires
            old(self).wf(),
        ensures
            *r == old(self).layers@[old(self).active as int],
            final(self).layers@ == old(self).layers@.update(old(self).active as int, *final(r)),
            final(self).active == old(self).active,
            final(self).same_canvas(*old(self)),
    {
        let at: usize = self.active;
        &mut self.layers[at]
    }

    /// Whether a layer has a name.
    fn has_name(&self, name: &str) -> (r: bool)
        ensures
            r == is_taken(layer_models(self.layers@), name@),
    {
        let mut i: usize = 0;
        while i < self.layers.len()
            invariant
                i <= self.layers@.len(),
                forall|k: int|
                    0 <= k < i ==> (#[trigger] layer_models(self.layers@)[k]).name != name@,
            decreases self.layers@.len() - i,
        {
            if same_text(self.layers[i].name.as_str(), name) {
                proof {
                    assert(layer_models(self.layers@)[i as int].name == name@);
                }
                return true;
            }
            i = i + 1;
        }
        false
    }

    /// A name that no layer has: numbered from one more than there are layers on.
    fn unique_name(&self, base: &str) -> (r: String)
        requires
            2 * self.layers@.len() < usize::MAX,
        ensures
            exists|at: nat|
                is_first_free(
                    layer_models(self.layers@),
                    base@,
                    self.layers@.len() + 1,
                    at,
                ) && r@ == #[trigger] numbered(base@, at),
    {
        let ghost models = layer_models(self.layers@);
        let ghost start: nat = self.layers@.len() + 1;
        let mut n: usize = self.layers.len() + 1;
        loop
            invariant
                models == layer_models(self.layers@),
                start == self.layers@.len() + 1,
                2 * self.layers@.len() < usize::MAX,
                start <= n,
                forall|k: nat| start <= k < n ==> is_taken(models, #[trigger] numbered(base@, k)),
            decreases start + self.layers@.len() + 1 - n,
        {
            let candidate = String::from_str(base).concat(" ").concat(
                decimal_text(n as u64).as_str(),
            );
            proof {
                assert(candidate@ == numbered(base@, n as nat));
            }
            if !self.has_name(candidate.as_str()) {
                proof {
                    assert(is_first_free(models, base@, start, n as nat));
                }
                return candidate;
            }
            proof {
                few_numbers_are_taken(models, base@, start, (n + 1) as nat);
            }
            n = n + 1;
        }
    }

    /// Puts a layer on top and goes to work on it.
    fn put_on_top(&mut self, layer: Layer)
        requires
            !is_taken(layer_models(old(self).layers@), layer@.name),
        ensures
            final(self).wf(),
            final(self).same_canvas(*old(self)),
            layer_models(final(self).layers@) == layer_models(old(self).layers@).push(layer@),
            final(self).active == old(self).layers@.len(),
            names_differ(layer_models(old(self).layers@)) ==> names_differ(
                layer_models(final(self).layers@),
            ),
    {
        let ghost before = layer_models(self.layers@);
        self.layers.push(layer);
        self.active = self.layers.len() - 1;
        proof {
            let after = layer_models(self.layers@);
            assert(after =~= before.push(layer@));
            if names_differ(before) {
                assert forall|i: int, j: int| 0 <= i < j < after.len() implies (
                #[trigger] after[i]).name != (#[trigger] after[j]).name by {
                    assert(before[i] == after[i]);
                    if j < before.len() {
                        assert(before[j] == after[j]);
                    }
                }
            }
        }
    }

    /// Puts a layer to paint on on top, under a name of its own, and goes to work on it.
    pub fn add_layer(&mut self)
        requires
            2 * old(self).layers@.len() < usize::MAX,
        ensures
            final(self).wf(),
            final(self).same_canvas(*old(self)),
            exists|at: nat|
                is_first_free(
                    layer_models(old(self).layers@),
                    "Layer"@,
                    old(self).layers@.len() + 1,
                    at,
                ) && layer_models(final(self).layers@) == layer_models(old(self).layers@).push(
                    LayerModel::fresh(#[trigger] numbered("Layer"@, at), LayerKind::Paint),
                ),
            final(self).active == old(self).layers@.len(),
            names_differ(layer_models(old(self).layers@)) ==> names_differ(
                layer_models(final(self).layers@),
            ),
    {
        let name = self.unique_name("Layer");
        self.put_on_top(Layer::new(name.as_str()));
    }

    /// Puts a fill layer on top, under a name of its own, and goes to work on it.
    pub fn add_fill_layer(&mut self)
        requires
            2 * old(self).layers@.len() < usize::MAX,
        ensures
            final(self).wf(),
            final(self).same_canvas(*old(self)),
            exists|at: nat|
                is_first_free(
                    layer_models(old(self).layers@),
                    "Fill"@,
                    old(self).layers@.len() + 1,
                    at,
                ) && layer_models(final(self).layers@) == layer_models(old(self).layers@).push(
                    LayerModel::fresh(
                        #[trigger] numbered("Fill"@, at),
                        LayerKind::Fill(FillParams::initial()),
                    ),
                ),
            final(self).active == old(self).layers@.len(),
            names_differ(layer_models(old(self).layers@)) ==> names_differ(
                layer_models(final(self).layers@),
            ),
    {
        let name = self.unique_name("Fill");
        self.put_on_top(Layer::new_fill(name.as_str()));
    }

    /// Takes a layer away, unless it is the last one or there is none at that place. If the
    /// layer that was worked on lay beyond the new end, work goes on at the top.
    pub fn remove_at(&mut self, idx: usize)
        requires
            old(self).wf(),
        ensures
            final(self).wf(),
            final(self).same_canvas(*old(self)),
            ({
                let n = old(self).layers@.len();
                if n <= 1 || idx >= n {
                    *final(self) == *old(self)
                } else {
                    &&& final(self).layers@ == old(self).layers@.remove(idx as int)
                    &&& final(self).active == (if old(self).active == n - 1 {
                        n - 2
                    } else {
                        old(self).active as int
                    })
                }
            }),
            names_differ(layer_models(old(self).layers@)) ==> names_differ(
                layer_models(final(self).layers@),
            ),
    {
        let ghost before = layer_models(self.layers@);
        if self.layers.len() <= 1 || idx >= self.layers.len() {
            return;
        }
        self.layers.remove(idx);
        if self.active >= self.layers.len() {
            self.active = self.layers.len() - 1;
        }
        proof {
            let after = layer_models(self.layers@);
            assert(after =~= before.remove(idx as int));
            if names_differ(before) {
                assert forall|i: int, j: int| 0 <= i < j < after.len() implies (
                #[trigger] after[i]).name != (#[trigger] after[j]).name by {
                    let p = if i < idx {
                        i
                    } else {
                        i + 1
                    };
                    let q = if j < idx {
                        j
                    } else {
                        j + 1
                    };
                    assert(after[i] == before[p] && after[j] == before[q]);
                }
            }
        }
    }

    /// Goes to work on a layer, if there is one at that place.
    pub fn set_active(&mut self, idx: usize)
        ensures
            final(self).layers@ == old(self).layers@,
            final(self).same_canvas(*old(self)),
            final(self).active == (if idx < old(self).layers@.len() {
                idx
            } else {
                old(self).active
            }),
            old(self).wf() ==> final(self).wf(),
    {
        if idx < self.layers.len() {
            self.active = idx;
        }
    }

    /// Gives a layer a mask, if there is a layer at that place and it has none.
    pub fn add_mask_to(&mut self, idx: usize)
        ensures
            final(self).same_canvas(*old(self)),
            final(self).active == old(self).active,
            layer_models(final(self).layers@) == (if idx < old(self).layers@.len() {
                layer_models(old(self).layers@).update(
                    idx as int,
                    layer_models(old(self).layers@)[idx as int].with_mask(),
                )
            } else {
                layer_models(old(self).layers@)
            }),
            old(self).wf() ==> final(self).wf(),
    {
        if idx < self.layers.len() {
            let ghost before = layer_models(self.layers@);
            self.layers[idx].add_mask();
            proof {
                assert(layer_models(self.layers@) =~= before.update(
                    idx as int,
                    before[idx as int].with_mask(),
                ));
            }
        }
    }

    /// Takes the mask of a layer away, if there is a layer at that place.
    pub fn remove_mask_from(&mut self, idx: usize)
        ensures
            final(self).same_canvas(*old(self)),
            final(self).active == old(self).active,
            layer_models(final(self).layers@) == (if idx < old(self).layers@.len() {
                layer_models(old(self).layers@).update(
                    idx as int,
                    (LayerModel { mask: None, ..layer_models(old(self).layers@)[idx as int] }),
                )
            } else {
                layer_models(old(self).layers@)
            }),
            old(self).wf() ==> final(self).wf(),
    {
        if idx < self.layers.len() {
            let ghost before = layer_models(self.layers@);
            self.layers[idx].remove_mask();
            proof {
                assert(layer_models(self.layers@) =~= before.update(
                    idx as int,
                    LayerModel { mask: None, ..before[idx as int] },
                ));
            }
        }
    }
}

/// A new layer covers nothing up by accident: it is visible, fully opaque and laid over the
/// others, and has no mask. It bears the name and holds what it was made for.
pub proof fn new_layers_are_plain(name: Seq<char>, kind: LayerKind)
    ensures
        ({
            let l = LayerModel::fresh(name, kind);
            &&& l.name == name && l.kind == kind
            &&& l.visible && l.opacity.bits == 0x3f80_0000
            &&& l.blend_mode == BlendMode::Normal
            &&& l.mask is None
        }),
{
}

/// A layer that gets a mask keeps everything else, and one that has a mask keeps that.
pub proof fn masks_are_added_once(l: LayerModel)
    ensures
        ({
            let r = l.with_mask();
            &&& r.mask is Some
            &&& l.mask is Some ==> r == l
            &&& l.mask is None ==> r.mask->0.smart is None
            &&& r.name == l.name && r.opacity == l.opacity && r.visible == l.visible && r.blend_mode
                == l.blend_mode && r.kind == l.kind
        }),
{
}

/// A fill layer takes another material; a layer of strokes does not, and nothing else changes.
pub proof fn materials_are_filled_in(l: LayerModel, params: FillParams)
    ensures
        ({
            let r = l.with_fill(params);
            &&& l.kind is Paint ==> r == l
            &&& l.kind matches LayerKind::Fill(stored) ==> if stored.equals_spec(params) {
                r == l
            } else {
                r.kind == LayerKind::Fill(params)
            }
            &&& r.name == l.name && r.opacity == l.opacity && r.visible == l.visible && r.blend_mode
                == l.blend_mode && r.mask == l.mask
        }),
{
}

/// The value of a layer has everything where the layer has it.
pub proof fn values_keep_their_layers(l: Layer)
    ensures
        l@.name == l.name@,
        l@.opacity == l.opacity,
        l@.visible == l.visible,
        l@.blend_mode == l.blend_mode,
        l@.kind == l.kind,
        l@.mask == l.mask,
{
}

/// No number of a fill is passed over where two are compared.
pub proof fn equal_fills_look_the_same(a: FillParams, b: FillParams)
    ensures
        a.equals_spec(b) ==> {
            &&& a.base_color_srgb.x.place() == b.base_color_srgb.x.place()
            &&& a.base_color_srgb.y.place() == b.base_color_srgb.y.place()
            &&& a.base_color_srgb.z.place() == b.base_color_srgb.z.place()
            &&& a.roughness.place() == b.roughness.place()
            &&& a.metallic.place() == b.metallic.place()
        },
        a.equals_spec(b) == b.equals_spec(a),
{
}

} // verus!
