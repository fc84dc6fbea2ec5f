//! Laying the layers of a stack over one another.

use crate::paint::layer::{layer_models, BlendMode, Layer, LayerModel, LayerStack};
use crate::single::Single;
use vstd::prelude::*;

verus! {

/// What a colour is multiplied by before it is added.
#[derive(Clone, Copy, Debug, PartialEq, Eq, Structural)]
pub enum BlendFactor {
    One,
    Dst,
    OneMinusSrc,
    OneMinusSrcAlpha,
}

/// The factors of the new colour and of the colour below it.
#[derive(Clone, Copy, Debug, PartialEq, Eq, Structural)]
pub struct BlendComponent {
    pub src_factor: BlendFactor,
    pub dst_factor: BlendFactor,
}

/// How colours, and how opacities, are added up.
#[derive(Clone, Copy, Debug, PartialEq, Eq, Structural)]
pub struct BlendState {
    pub color: BlendComponent,
    pub alpha: BlendComponent,
}

/// How the layers of a mode are added up. The new colour is multiplied by its opacity
/// beforehand.
pub open spec fn blend_state_spec(mode: BlendMode) -> BlendState {
    let (src_factor, dst_factor) = match mode {
        BlendMode::Normal => (BlendFactor::One, BlendFactor::OneMinusSrcAlpha),
        BlendMode::Multiply => (BlendFactor::Dst, BlendFactor::OneMinusSrcAlpha),
        BlendMode::Screen => (BlendFactor::One, BlendFactor::OneMinusSrc),
        BlendMode::Add => (BlendFactor::One, BlendFactor::One),
    };
    BlendState {
        color: BlendComponent { src_factor, dst_factor },
        alpha: BlendComponent {
            src_factor: BlendFactor::One,
            dst_factor: BlendFactor::OneMinusSrcAlpha,
        },
    }
}

/// How the layers of a mode are added up.
pub fn blend_state(mode: BlendMode) -> (r: BlendState)
    ensures
        r == blend_state_spec(mode),
{
    let (src_factor, dst_factor) = match mode {
        BlendMode::Normal => (BlendFactor::One, BlendFactor::OneMinusSrcAlpha),
        BlendMode::Multiply => (BlendFactor::Dst, BlendFactor::OneMinusSrcAlpha),
        BlendMode::Screen => (BlendFactor::One, BlendFactor::OneMinusSrc),
        BlendMode::Add => (BlendFactor::One, BlendFactor::One),
    };
    BlendState {
        color: BlendComponent { src_factor, dst_factor },
        alpha: BlendComponent {
            src_factor: BlendFactor::One,
            dst_factor: BlendFactor::OneMinusSrcAlpha,
        },
    }
}

/// The value of a factor, in parts of `unit`, for a new colour `src` of opacity `alpha` over
/// a colour `dst`.
pub open spec fn factor_value(f: BlendFactor, unit: int, src: int, alpha: int, dst: int) -> int {
    match f {
        BlendFactor::One => unit,
        BlendFactor::Dst => dst,
        BlendFactor::OneMinusSrc => unit - src,
        BlendFactor::OneMinusSrcAlpha => unit - alpha,
    }
}

/// The colour that comes out, in parts of `unit * unit`.
pub open spec fn blended(c: BlendComponent, unit: int, src: int, alpha: int, dst: int) -> int {
    src * factor_value(c.src_factor, unit, src, alpha, dst) + dst * factor_value(
        c.dst_factor,
        unit,
        src,
        alpha,
        dst,
    )
}

/// A new colour that is fully transparent, and so is zero, changes nothing in any mode.
pub proof fn transparent_changes_nothing(mode: BlendMode, unit: int, dst: int)
    ensures
        blended(blend_state_spec(mode).color, unit, 0, 0, dst) == dst * unit,
        blended(blend_state_spec(mode).alpha, unit, 0, 0, dst) == dst * unit,
{
}

/// What the modes do: an opaque colour replaces what is below it, multiplies it, brightens
/// it, or is added to it.
pub proof fn opaque_colours_blend(unit: int, src: int, dst: int)
    ensures
        blended(blend_state_spec(BlendMode::Normal).color, unit, src, unit, dst) == src * unit,
        blended(blend_state_spec(BlendMode::Multiply).color, unit, src, unit, dst) == src * dst,
        blended(blend_state_spec(BlendMode::Screen).color, unit, src, unit, dst) == unit * unit
            - (unit - src) * (unit - dst),
        blended(blend_state_spec(BlendMode::Add).color, unit, src, unit, dst) == (src + dst) * unit,
{
    assert(dst * (unit - unit) == 0) by (nonlinear_arith);
    assert(src * unit + dst * (unit - src) == unit * unit - (unit - src) * (unit - dst))
        by (nonlinear_arith);
    assert(src * unit + dst * unit == (src + dst) * unit) by (nonlinear_arith);
}

/// The place of a mode's pipeline: that of the mode among all modes.
pub fn pipeline_index(mode: BlendMode) -> (r: usize)
    ensures
        r < 4,
        BlendMode::ALL@[r as int] == mode,
{
    match mode {
        BlendMode::Normal => 0,
        BlendMode::Multiply => 1,
        BlendMode::Screen => 2,
        BlendMode::Add => 3,
    }
}

/// The name of a mode's pipeline.
pub open spec fn pipeline_label_text(mode: BlendMode) -> Seq<char> {
    match mode {
        BlendMode::Normal => "composite.pipe.normal"@,
        BlendMode::Multiply => "composite.pipe.multiply"@,
        BlendMode::Screen => "composite.pipe.screen"@,
        BlendMode::Add => "composite.pipe.add"@,
    }
}

/// The name of a mode's pipeline.
pub fn pipeline_label(mode: BlendMode) -> (r: &'static str)
    ensures
        r@ == pipeline_label_text(mode),
{
    match mode {
        BlendMode::Normal => "composite.pipe.normal",
        BlendMode::Multiply => "composite.pipe.multiply",
        BlendMode::Screen => "composite.pipe.screen",
        BlendMode::Add => "composite.pipe.add",
    }
}

/// One layer laid over a tile.
#[derive(Clone, Copy, Debug, PartialEq, Eq, Structural)]
pub struct Draw {
    pub layer: usize,
    pub opacity: Single,
    pub blend_mode: BlendMode,
    pub masked: bool,
}

/// What is drawn of the first `n` layers: the visible ones, from the bottom up.
pub open spec fn visible_draws(layers: Seq<LayerModel>, n: nat) -> Seq<Draw>
    decreases n,
{
    if n == 0 {
        Seq::empty()
    } else {
        let below = visible_draws(layers, (n - 1) as nat);
        let l = layers[n - 1];
        if l.visible {
            below.push(
                Draw {
                    layer: (n - 1) as usize,
                    opacity: l.opacity,
                    blend_mode: l.blend_mode,
                    masked: l.mask is Some,
                },
            )
        } else {
            below
        }
    }
}

/// Whether a layer is among those that are drawn.
pub open spec fn is_drawn(draws: Seq<Draw>, layer: int) -> bool {
    exists|i: int| 0 <= i < draws.len() && (#[trigger] draws[i]).layer == layer
}

/// What is drawn on every tile, in this order. Nothing is drawn where there are no tiles.
pub fn draw_list(stack: &LayerStack, tile_count: usize) -> (r: Vec<Draw>)
    ensures
        r@ == (if tile_count == 0 {
            Seq::empty()
        } else {
            visible_draws(layer_models(stack.layers@), stack.layers@.len())
        }),
        forall|i: int|
            0 <= i < r@.len() ==> (#[trigger] r@[i]).layer < stack.layers@.len() && {
                let layer = stack.layers@[r@[i].layer as int];
                &&& layer.visible
                &&& r@[i].opacity == layer.opacity
                &&& r@[i].blend_mode == layer.blend_mode
                &&& r@[i].masked == (layer.mask is Some)
            },
        forall|i: int, j: int|
            0 <= i < j < r@.len() ==> (#[trigger] r@[i]).layer < (#[trigger] r@[j]).layer,
        tile_count > 0 ==> forall|k: int|
            0 <= k < stack.layers@.len() && stack.layers@[k].visible ==> #[trigger] is_drawn(
                r@,
                k,
            ),
{
    let mut out: Vec<Draw> = Vec::new();
    if tile_count == 0 {
        return out;
    }
    let ghost models = layer_models(stack.layers@);
    let mut i: usize = 0;
    while i < stack.layers.len()
        invariant
            i <= stack.layers@.len(),
            models == layer_models(stack.layers@),
            out@ == visible_draws(models, i as nat),
        decreases stack.layers@.len() - i,
    {
        let layer: &Layer = &stack.layers[i];
        proof {
            assert(models[i as int] == layer@);
        }
        if layer.visible {
            out.push(
                Draw {
                    layer: i,
                    opacity: layer.opacity,
                    blend_mode: layer.blend_mode,
                    masked: layer.mask.is_some(),
                },
            );
        }
        i = i + 1;
    }
    proof {
        assert(stack.layers.len() == stack.layers@.len());
        draws_show_the_layers(stack.layers@, out@);
    }
    out
}

/// What is drawn of a stack: its visible layers, from the bottom up, each with its own
/// opacity, mode and mask.
#[verifier::spinoff_prover]
#[verifier::rlimit(40)]
pub proof fn draws_show_the_layers(layers: Seq<Layer>, draws: Seq<Draw>)
    requires
        layers.len() <= usize::MAX,
        draws == visible_draws(layer_models(layers), layers.len()),
    ensures
        forall|i: int|
            0 <= i < draws.len() ==> (#[trigger] draws[i]).layer < layers.len() && {
                let layer = layers[draws[i].layer as int];
                &&& layer.visible
                &&& draws[i].opacity == layer.opacity
                &&& draws[i].blend_mode == layer.blend_mode
                &&& draws[i].masked == (layer.mask is Some)
            },
        forall|i: int, j: int|
            0 <= i < j < draws.len() ==> (#[trigger] draws[i]).layer < (#[trigger] draws[j]).layer,
        forall|k: int|
            0 <= k < layers.len() && layers[k].visible ==> #[trigger] is_drawn(draws, k),
{
    let n = layers.len();
    let models = layer_models(layers);
    draws_go_upwards(models, n);
    draws_are_those_of_their_layers(models, n);
    assert forall|i: int| 0 <= i < draws.len() implies (#[trigger] draws[i]).layer < n && {
        let layer = layers[draws[i].layer as int];
        &&& layer.visible
        &&& draws[i].opacity == layer.opacity
        &&& draws[i].blend_mode == layer.blend_mode
        &&& draws[i].masked == (layer.mask is Some)
    } by {
        let d = visible_draws(models, n)[i];
        assert(models[d.layer as int] == layers[d.layer as int]@);
    }
    assert forall|k: int| 0 <= k < n && layers[k].visible implies #[trigger] is_drawn(draws, k) by {
        assert(models[k] == layers[k]@);
        visible_layers_are_drawn(models, n, k);
    }
}

/// Every layer is drawn with its own opacity and in its own mode, and through its mask exactly
/// where it has one.
pub proof fn draws_are_those_of_their_layers(layers: Seq<LayerModel>, n: nat)
    requires
        n <= layers.len() <= usize::MAX,
    ensures
        forall|i: int|
            0 <= i < visible_draws(layers, n).len() ==> {
                let d = #[trigger] visible_draws(layers, n)[i];
                let layer = layers[d.layer as int];
                &&& d.layer < n
                &&& d.opacity == layer.opacity
                &&& d.blend_mode == layer.blend_mode
                &&& d.masked <==> layer.mask is Some
            },
    decreases n,
{
    if n > 0 {
        draws_are_those_of_their_layers(layers, (n - 1) as nat);
    }
}

/// Opacities add up in every mode as if each were a share of what is left uncovered.
pub proof fn opacities_add_up(mode: BlendMode, unit: int, alpha: int, below: int)
    ensures
        blended(blend_state_spec(mode).alpha, unit, alpha, alpha, below) == unit * unit - (unit
            - alpha) * (unit - below),
{
    assert(alpha * unit + below * (unit - alpha) == unit * unit - (unit - alpha) * (unit - below))
        by (nonlinear_arith);
}

/// A colour of part opacity, multiplied by it beforehand, lets through what is below as far as
/// it is not opaque; when it is added, nothing of what is below is lost.
pub proof fn part_opacity_lets_through(unit: int, src: int, alpha: int, dst: int)
    ensures
        blended(blend_state_spec(BlendMode::Normal).color, unit, src, alpha, dst) == src * unit
            + dst * (unit - alpha),
        blended(blend_state_spec(BlendMode::Multiply).color, unit, src, alpha, dst) == dst * (src
            + unit - alpha),
        blended(blend_state_spec(BlendMode::Add).color, unit, src, alpha, dst) == (src + dst)
            * unit,
{
    assert(src * dst + dst * (unit - alpha) == dst * (src + unit - alpha)) by (nonlinear_arith);
    assert(src * unit + dst * unit == (src + dst) * unit) by (nonlinear_arith);
}

/// Layers are drawn from the bottom up, each at most once, and only if they are visible.
pub proof fn draws_go_upwards(layers: Seq<LayerModel>, n: nat)
    requires
        n <= layers.len() <= usize::MAX,
    ensures
        forall|i: int|
            0 <= i < visible_draws(layers, n).len() ==> (#[trigger] visible_draws(layers, n)[i]).layer
                < n && layers[visible_draws(layers, n)[i].layer as int].visible,
        forall|i: int, j: int|
            0 <= i < j < visible_draws(layers, n).len() ==> (#[trigger] visible_draws(
                layers,
                n,
            )[i]).layer < (#[trigger] visible_draws(layers, n)[j]).layer,
    decreases n,
{
    if n > 0 {
        draws_go_upwards(layers, (n - 1) as nat);
    }
}

/// Every visible layer is drawn.
pub proof fn visible_layers_are_drawn(layers: Seq<LayerModel>, n: nat, k: int)
    requires
        n <= layers.len() <= usize::MAX,
        0 <= k < n,
        layers[k].visible,
    ensures
        exists|i: int|
            0 <= i < visible_draws(layers, n).len() && (#[trigger] visible_draws(
                layers,
                n,
            )[i]).layer == k,
    decreases n,
{
    let all = visible_draws(layers, n);
    let below = visible_draws(layers, (n - 1) as nat);
    if k == n - 1 {
        assert(all[below.len() as int].layer == k);
    } else {
        visible_layers_are_drawn(layers, (n - 1) as nat, k);
        let i = choose|i: int| 0 <= i < below.len() && (#[trigger] below[i]).layer == k;
        assert(all[i].layer == k);
    }
}

} // verus!
