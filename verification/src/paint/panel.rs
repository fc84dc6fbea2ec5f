//! Working on the layers: which one, its content or its mask, and how its mask is made.

use crate::bake::MeshMaps;
use crate::paint::layer::{
    layer_models, LayerKind, LayerModel, LayerStack, Mask, is_first_free, names_differ,
    numbered,
};
use crate::paint::presets::SmartMaterialPreset;
use crate::paint::smart_mask::SmartMaskParams;
use crate::text::{decimal, decimal_text};
use crate::tools::BrushTarget;
use vstd::prelude::*;

verus! {

/// The layers, and what the brush writes to.
pub struct PaintSession {
    pub stack: LayerStack,
    pub brush: BrushTarget,
}

impl PaintSession {
    /// The values of the layers.
    pub open spec fn models(self) -> Seq<LayerModel> {
        layer_models(self.stack.layers@)
    }

    /// The layer that is worked on.
    pub open spec fn active_model(self) -> LayerModel {
        self.models()[self.stack.active as int]
    }

    /// Only layers, the choice among them and the choice of the mask may differ.
    pub open spec fn same_canvas(self, other: PaintSession) -> bool {
        self.stack.same_canvas(other.stack) && self.brush.channel == other.brush.channel
    }

    /// Lets go of the mask if the layer that is worked on has none.
    pub fn settle(&mut self)
        requires
            old(self).stack.wf(),
        ensures
            final(self).stack == old(self).stack,
            final(self).brush == (BrushTarget {
                mask_edit: old(self).brush.mask_edit && old(self).active_model().mask is Some,
                ..old(self).brush
            }),
    {
        let has_mask = self.stack.active_layer().mask.is_some();
        let mask_edit = self.brush.mask_edit;
        proof {
            assert(self.active_model() == self.stack.layers@[self.stack.active as int]@);
        }
        self.brush.take_choice(mask_edit, has_mask);
    }

    /// Goes to work on the content of a layer, or on its mask.
    pub fn edit(&mut self, idx: usize, mask: bool)
        requires
            old(self).stack.wf(),
            idx < old(self).stack.layers@.len(),
        ensures
            final(self).stack.wf(),
            final(self).same_canvas(*old(self)),
            final(self).models() == old(self).models(),
            final(self).stack.active == idx,
            final(self).brush.mask_edit == mask,
    {
        self.stack.set_active(idx);
        self.brush.mask_edit = mask;
    }

    /// Gives a layer a mask and goes to work on it.
    pub fn add_mask(&mut self, idx: usize)
        requires
            old(self).stack.wf(),
            idx < old(self).stack.layers@.len(),
        ensures
            final(self).stack.wf(),
            final(self).same_canvas(*old(self)),
            final(self).models() == old(self).models().update(
                idx as int,
                old(self).models()[idx as int].with_mask(),
            ),
            final(self).stack.active == idx,
            final(self).brush.mask_edit,
            final(self).active_model().mask is Some,
    {
        let ghost before = self.models();
        self.stack.add_mask_to(idx);
        proof {
            assert(before.len() == self.models().len());
            assert(self.models().len() == self.stack.layers@.len());
        }
        self.stack.set_active(idx);
        self.brush.mask_edit = true;
    }

    /// Takes the mask of a layer away. Whoever was at work on it goes back to the content.
    pub fn remove_mask(&mut self, idx: usize)
        requires
            old(self).stack.wf(),
            idx < old(self).stack.layers@.len(),
        ensures
            final(self).stack.wf(),
            final(self).same_canvas(*old(self)),
            final(self).models() == old(self).models().update(
                idx as int,
                (LayerModel { mask: None, ..old(self).models()[idx as int] }),
            ),
            final(self).stack.active == old(self).stack.active,
            final(self).brush.mask_edit == (old(self).brush.mask_edit && idx != old(
                self,
            ).stack.active),
    {
        self.stack.remove_mask_from(idx);
        if idx == self.stack.active && self.brush.mask_edit {
            self.brush.mask_edit = false;
        }
    }

    /// Sets how the mask of a layer is made.
    fn set_mask(&mut self, idx: usize, smart: Option<SmartMaskParams>)
        requires
            old(self).stack.wf(),
            idx < old(self).stack.layers@.len(),
        ensures
            final(self).stack.wf(),
            final(self).same_canvas(*old(self)),
            final(self).models() == old(self).models().update(
                idx as int,
                (LayerModel {
                    mask: Some(Mask { smart }),
                    ..old(self).models()[idx as int]
                }),
            ),
            final(self).stack.active == old(self).stack.active,
            final(self).brush == old(self).brush,
    {
        let ghost before = self.models();
        self.stack.layers[idx].mask = Some(Mask { smart });
        proof {
            assert(self.models() =~= before.update(
                idx as int,
                LayerModel { mask: Some(Mask { smart }), ..before[idx as int] },
            ));
        }
    }

    /// How the mask of a layer is made, after it was switched between painted and made.
    pub open spec fn toggled_smart(mask: Mask) -> Mask {
        Mask {
            smart: match mask.smart {
                Some(_) => None,
                None => Some(SmartMaskParams::initial()),
            },
        }
    }

    /// Switches the mask of a layer between painted and made. Says whether it has to be made.
    pub fn toggle_smart(&mut self, idx: usize) -> (r: bool)
        requires
            old(self).stack.wf(),
            idx < old(self).stack.layers@.len(),
        ensures
            final(self).stack.wf(),
            final(self).same_canvas(*old(self)),
            final(self).stack.active == old(self).stack.active,
            final(self).brush == old(self).brush,
            match old(self).models()[idx as int].mask {
                None => !r && final(self).models() == old(self).models(),
                Some(mask) => {
                    &&& r == mask.smart is None
                    &&& final(self).models() == old(self).models().update(
                        idx as int,
                        (LayerModel {
                            mask: Some(Self::toggled_smart(mask)),
                            ..old(self).models()[idx as int]
                        }),
                    )
                },
            },
    {
        let mask = self.stack.layers[idx].mask;
        proof {
            assert(self.models()[idx as int].mask == mask);
        }
        match mask {
            None => false,
            Some(m) => match m.smart {
                Some(_) => {
                    self.set_mask(idx, None);
                    false
                },
                None => {
                    self.set_mask(idx, Some(SmartMaskParams::default()));
                    true
                },
            },
        }
    }

    /// Changes how the mask of a layer is made, with the ends of its band in order. Says
    /// whether it has to be made again: it has, if anything changed.
    pub fn set_smart_params(&mut self, idx: usize, params: SmartMaskParams) -> (r: bool)
        requires
            old(self).stack.wf(),
            idx < old(self).stack.layers@.len(),
            old(self).models()[idx as int].mask matches Some(m) && m.smart is Some,
        ensures
            final(self).stack.wf(),
            final(self).same_canvas(*old(self)),
            final(self).stack.active == old(self).stack.active,
            final(self).brush == old(self).brush,
            ({
                let before = old(self).models()[idx as int].mask->0.smart->0;
                &&& r == !params.equals_spec(before)
                &&& final(self).models() == old(self).models().update(
                    idx as int,
                    (LayerModel {
                        mask: Some(
                            Mask {
                                smart: Some(
                                    if r {
                                        params.ordered_spec()
                                    } else {
                                        params
                                    },
                                ),
                            },
                        ),
                        ..old(self).models()[idx as int]
                    }),
                )
            }),
    {
        proof {
            assert(self.models()[idx as int].mask == self.stack.layers@[idx as int].mask);
        }
        let changed = match self.stack.layers[idx].mask {
            Some(m) => match m.smart {
                Some(before) => !params.equals(&before),
                None => false,
            },
            None => false,
        };
        let next = if changed {
            params.ordered()
        } else {
            params
        };
        self.set_mask(idx, Some(next));
        changed
    }

    /// Adds a ready-made look: a fill layer with its material, under a mask that is made from
    /// the mesh. Says where the layer is.
    pub fn add_preset(&mut self, preset: SmartMaterialPreset) -> (r: usize)
        requires
            old(self).stack.wf(),
            2 * old(self).stack.layers@.len() < usize::MAX,
        ensures
            final(self).stack.wf(),
            final(self).same_canvas(*old(self)),
            final(self).brush == old(self).brush,
            r == old(self).stack.layers@.len(),
            final(self).stack.active == r,
            exists|at: nat|
                is_first_free(old(self).models(), "Fill"@, old(self).stack.layers@.len() + 1, at)
                    && final(self).models() == old(self).models().push(
                    preset_layer(#[trigger] numbered("Fill"@, at), preset),
                ),
            names_differ(old(self).models()) ==> names_differ(final(self).models()),
    {
        let ghost before = self.models();
        let at: usize = self.stack.layers.len();
        self.stack.add_fill_layer();
        let ghost added = self.models();
        let ghost n = choose|n: nat|
            is_first_free(before, "Fill"@, at as nat + 1, n) && added == before.push(
                LayerModel::fresh(
                    #[trigger] numbered("Fill"@, n),
                    LayerKind::Fill(crate::paint::layer::FillParams::initial()),
                ),
            );
        let ghost layers = self.stack.layers@;
        proof {
            assert(added.len() == layers.len());
            assert(added == before.push(
                LayerModel::fresh(
                    numbered("Fill"@, n),
                    LayerKind::Fill(crate::paint::layer::FillParams::initial()),
                ),
            ));
        }
        let params = preset.fill_params();
        self.stack.layers[at].kind = LayerKind::Fill(params);
        self.stack.layers[at].mask = Some(Mask { smart: Some(preset.smart_mask()) });
        proof {
            let after = self.models();
            let name = numbered("Fill"@, n);
            assert(added[at as int].name == name);
            assert(after =~= before.push(preset_layer(name, preset))) by {
                assert forall|k: int| 0 <= k < after.len() implies after[k] == before.push(
                    preset_layer(name, preset),
                )[k] by {
                    if k < at {
                        assert(added[k] == before[k]);
                        assert(self.stack.layers@[k] == layers[k]);
                    } else {
                        assert(k == at);
                    }
                }
            }
            if names_differ(before) {
                assert forall|i: int, j: int| 0 <= i < j < after.len() implies (
                #[trigger] after[i]).name != (#[trigger] after[j]).name by {
                    assert(added[i].name == after[i].name && added[j].name == after[j].name);
                }
            }
        }
        at
    }
}

/// The layer of a ready-made look.
pub open spec fn preset_layer(name: Seq<char>, preset: SmartMaterialPreset) -> LayerModel {
    LayerModel {
        mask: Some(Mask { smart: Some(preset.smart_mask_spec()) }),
        ..LayerModel::fresh(name, LayerKind::Fill(preset.fill_params_spec()))
    }
}

/// What the two buttons of a layer with a mask say.
pub open spec fn edit_labels_text(is_active: bool, mask_edit: bool) -> (Seq<char>, Seq<char>) {
    if is_active && mask_edit {
        ("edit content"@, "[editing mask]"@)
    } else if is_active {
        ("[editing content]"@, "edit mask"@)
    } else {
        ("content"@, "mask"@)
    }
}

/// What the two buttons of a layer with a mask say.
pub fn edit_labels(is_active: bool, mask_edit: bool) -> (r: (&'static str, &'static str))
    ensures
        (r.0@, r.1@) == edit_labels_text(is_active, mask_edit),
{
    if is_active && mask_edit {
        ("edit content", "[editing mask]")
    } else if is_active {
        ("[editing content]", "edit mask")
    } else {
        ("content", "mask")
    }
}

/// How many layers there are, in words.
pub fn layer_count_label(n: usize) -> (r: String)
    ensures
        r@ == decimal(n as nat) + " layer"@ + (if n == 1 {
            ""@
        } else {
            "s"@
        }),
{
    decimal_text(n as u64).concat(" layer").concat(if n == 1 {
        ""
    } else {
        "s"
    })
}

/// What is said of a ready-made look: what it does, or what it lacks.
pub open spec fn preset_tooltip_text(preset: SmartMaterialPreset, available: bool) -> Seq<char> {
    let source = preset.smart_mask_spec().source;
    if available {
        "Adds a "@ + preset.label_text() + " layer with a smart mask."@
    } else {
        "Bake "@ + source.required_map_spec().label_text()
            + " on the Bake tab first (this preset uses "@ + source.label_text()
            + " as its source)."@
    }
}

/// Whether a ready-made look can be added, and what is said of it.
pub fn preset_tooltip<T>(preset: SmartMaterialPreset, maps: &MeshMaps<T>) -> (r: (bool, String))
    ensures
        r.0 == preset.smart_mask_spec().source.is_available(*maps),
        r.1@ == preset_tooltip_text(preset, r.0),
{
    let source = preset.smart_mask().source;
    if source.source_map(maps).is_ok() {
        (
            true,
            String::from_str("Adds a ").concat(preset.label()).concat(" layer with a smart mask."),
        )
    } else {
        (
            false,
            String::from_str("Bake ").concat(source.required_map().label()).concat(
                " on the Bake tab first (this preset uses ",
            ).concat(source.label()).concat(" as its source)."),
        )
    }
}

/// A ready-made look is a visible, opaque fill layer with the material of the look behind the
/// mask of the look.
pub proof fn looks_become_layers(name: Seq<char>, preset: SmartMaterialPreset)
    ensures
        ({
            let layer = preset_layer(name, preset);
            &&& layer.name == name
            &&& layer.kind == LayerKind::Fill(preset.fill_params_spec())
            &&& layer.mask matches Some(m) && m.smart == Some(preset.smart_mask_spec())
            &&& layer.visible && layer.opacity.bits == 0x3f80_0000 && layer.blend_mode
                == crate::paint::layer::BlendMode::Normal
        }),
{
}

} // verus!
