//! The tools of the painter, what is shown, and what the brush writes to.

use crate::paint::brush::PaintChannel;
use vstd::prelude::*;

verus! {

/// The tools.
#[derive(Clone, Copy, Debug, PartialEq, Eq, Structural)]
pub enum Tool {
    Select,
    Paint,
    Erase,
    Fill,
    Eyedropper,
    Stencil,
}

/// Which of the tool keys were pressed.
#[derive(Clone, Copy, Debug, PartialEq, Eq, Structural)]
pub struct ToolKeys {
    pub v: bool,
    pub b: bool,
    pub e: bool,
    pub g: bool,
    pub i: bool,
}

/// The tool that a key stands for. Of several keys the first counts.
pub open spec fn tool_for_keys_spec(keys: ToolKeys) -> Option<Tool> {
    if keys.v {
        Some(Tool::Select)
    } else if keys.b {
        Some(Tool::Paint)
    } else if keys.e {
        Some(Tool::Erase)
    } else if keys.g {
        Some(Tool::Fill)
    } else if keys.i {
        Some(Tool::Eyedropper)
    } else {
        None
    }
}

/// The tool that a key stands for.
pub fn tool_for_keys(keys: ToolKeys) -> (r: Option<Tool>)
    ensures
        r == tool_for_keys_spec(keys),
{
    if keys.v {
        Some(Tool::Select)
    } else if keys.b {
        Some(Tool::Paint)
    } else if keys.e {
        Some(Tool::Erase)
    } else if keys.g {
        Some(Tool::Fill)
    } else if keys.i {
        Some(Tool::Eyedropper)
    } else {
        None
    }
}

/// The pages of the panel for properties.
#[derive(Clone, Copy, Debug, PartialEq, Eq, Structural)]
pub enum PropertiesTab {
    Layers,
    Lighting,
    Bake,
    Material,
    Project,
}

impl Default for PropertiesTab {
    /// The layers.
    fn default() -> (r: PropertiesTab)
        ensures
            r == PropertiesTab::Layers,
    {
        PropertiesTab::Layers
    }
}

impl PropertiesTab {
    /// Every page, in the order in which they are shown.
    pub const ALL: [PropertiesTab; 5] = [
        PropertiesTab::Layers,
        PropertiesTab::Lighting,
        PropertiesTab::Bake,
        PropertiesTab::Material,
        PropertiesTab::Project,
    ];

    /// The name shown to the user.
    pub fn label(self) -> (r: &'static str)
        ensures
            r@ == (match self {
                PropertiesTab::Layers => "Layers"@,
                PropertiesTab::Lighting => "Lighting"@,
                PropertiesTab::Bake => "Bake"@,
                PropertiesTab::Material => "Material"@,
                PropertiesTab::Project => "Project"@,
            }),
    {
        match self {
            PropertiesTab::Layers => "Layers",
            PropertiesTab::Lighting => "Lighting",
            PropertiesTab::Bake => "Bake",
            PropertiesTab::Material => "Material",
            PropertiesTab::Project => "Project",
        }
    }
}

/// What a view shows.
#[derive(Clone, Copy, Debug, PartialEq, Eq, Structural)]
pub enum ViewMode {
    Material,
    BaseColor,
    Roughness,
    Metallic,
    Normal,
    Mask,
    Height,
    WorldNormalBaked,
}

/// The channel that can be painted in a view. The whole material, its normals and the
/// baked normals can only be looked at.
pub open spec fn channel_of(view: ViewMode) -> Option<PaintChannel> {
    match view {
        ViewMode::BaseColor => Some(PaintChannel::BaseColor),
        ViewMode::Roughness => Some(PaintChannel::Roughness),
        ViewMode::Metallic => Some(PaintChannel::Metallic),
        ViewMode::Mask => Some(PaintChannel::Mask),
        ViewMode::Height => Some(PaintChannel::Displacement),
        ViewMode::Material | ViewMode::Normal | ViewMode::WorldNormalBaked => None,
    }
}

/// The channel that can be painted in a view.
pub fn paint_channel_from_view_mode(view: ViewMode) -> (r: Option<PaintChannel>)
    ensures
        r == channel_of(view),
{
    match view {
        ViewMode::BaseColor => Some(PaintChannel::BaseColor),
        ViewMode::Roughness => Some(PaintChannel::Roughness),
        ViewMode::Metallic => Some(PaintChannel::Metallic),
        ViewMode::Mask => Some(PaintChannel::Mask),
        ViewMode::Height => Some(PaintChannel::Displacement),
        ViewMode::Material | ViewMode::Normal | ViewMode::WorldNormalBaked => None,
    }
}

/// What the brush writes to: a channel of the layer, or its mask.
#[derive(Clone, Copy, Debug, PartialEq, Eq, Structural)]
pub struct BrushTarget {
    pub channel: PaintChannel,
    pub mask_edit: bool,
}

impl BrushTarget {
    /// The target after a view was chosen. A channel that can be painted becomes the target.
    /// The mask does if the layer has one. Other views change nothing.
    pub open spec fn following(self, view: ViewMode, has_mask: bool) -> BrushTarget {
        match channel_of(view) {
            Some(PaintChannel::Mask) => BrushTarget {
                mask_edit: self.mask_edit || has_mask,
                ..self
            },
            Some(channel) => BrushTarget { channel, mask_edit: false },
            None => self,
        }
    }

    /// Makes the brush write to what is shown.
    pub fn follow(&mut self, view: ViewMode, has_mask: bool)
        ensures
            *final(self) == old(self).following(view, has_mask),
    {
        match paint_channel_from_view_mode(view) {
            Some(PaintChannel::Mask) => {
                if has_mask {
                    self.mask_edit = true;
                }
            },
            Some(channel) => {
                self.channel = channel;
                self.mask_edit = false;
            },
            None => {},
        }
    }

    /// The channel that strokes go to.
    pub open spec fn effective_spec(self) -> PaintChannel {
        if self.mask_edit {
            PaintChannel::Mask
        } else {
            self.channel
        }
    }

    /// The channel that strokes go to.
    pub fn effective(&self) -> (r: PaintChannel)
        ensures
            r == self.effective_spec(),
    {
        if self.mask_edit {
            PaintChannel::Mask
        } else {
            self.channel
        }
    }

    /// Takes the choice of the user between content and mask; there is no choice where the
    /// layer has no mask.
    pub fn take_choice(&mut self, mask: bool, has_mask: bool)
        ensures
            *final(self) == (BrushTarget { mask_edit: mask && has_mask, ..*old(self) }),
    {
        self.mask_edit = mask && has_mask;
    }
}

/// Strokes land on what is shown, wherever that can be painted.
pub proof fn strokes_follow_the_view(target: BrushTarget, view: ViewMode, has_mask: bool)
    requires
        channel_of(view) is Some,
        view == ViewMode::Mask ==> has_mask,
    ensures
        target.following(view, has_mask).effective_spec() == channel_of(view)->0,
{
}

/// The tool in hand, the stencil, what the two views show, and what the brush writes to.
#[derive(Clone, Copy, Debug, PartialEq, Eq, Structural)]
pub struct ToolState {
    pub tool: Tool,
    pub active_stencil: Option<usize>,
    pub show_stencil_picker: bool,
    pub view_mode: ViewMode,
    pub uv_channel: ViewMode,
    pub brush: BrushTarget,
}

impl ToolState {
    /// The state after a tool was chosen. The stencil has to be picked first; any other tool
    /// puts the stencil away.
    pub open spec fn with_tool(self, tool: Tool) -> ToolState {
        if tool == Tool::Stencil {
            ToolState { show_stencil_picker: true, ..self }
        } else {
            ToolState {
                tool,
                active_stencil: None,
                show_stencil_picker: false,
                ..self
            }
        }
    }

    /// Takes a tool in hand.
    pub fn switch_tool(&mut self, tool: Tool)
        ensures
            *final(self) == old(self).with_tool(tool),
    {
        if tool == Tool::Stencil {
            self.show_stencil_picker = true;
            return;
        }
        self.active_stencil = None;
        self.tool = tool;
        self.show_stencil_picker = false;
    }

    /// Takes an image as the stencil, if there is one of that number. Says whether the mesh
    /// has to be baked first.
    pub fn activate_stencil(&mut self, idx: usize, texture_count: usize, baked: bool) -> (r: bool)
        ensures
            r == (idx < texture_count && !baked),
            *final(self) == (if idx < texture_count {
                ToolState { tool: Tool::Stencil, active_stencil: Some(idx), ..*old(self) }
            } else {
                *old(self)
            }),
    {
        if idx >= texture_count {
            return false;
        }
        self.tool = Tool::Stencil;
        self.active_stencil = Some(idx);
        !baked
    }

    /// Shows something else in the main view; the texture view and the brush follow.
    pub fn set_view_mode(&mut self, view: ViewMode, has_mask: bool)
        ensures
            *final(self) == (if view == old(self).view_mode {
                *old(self)
            } else {
                ToolState {
                    view_mode: view,
                    uv_channel: view,
                    brush: old(self).brush.following(view, has_mask),
                    ..*old(self)
                }
            }),
    {
        if view != self.view_mode {
            self.view_mode = view;
            self.uv_channel = view;
            self.brush.follow(view, has_mask);
        }
    }

    /// Shows something else in the texture view; the main view and the brush follow.
    pub fn set_uv_channel(&mut self, view: ViewMode, has_mask: bool)
        ensures
            *final(self) == (if view == old(self).uv_channel {
                *old(self)
            } else {
                ToolState {
                    view_mode: view,
                    uv_channel: view,
                    brush: old(self).brush.following(view, has_mask),
                    ..*old(self)
                }
            }),
    {
        if view != self.uv_channel {
            self.uv_channel = view;
            self.view_mode = view;
            self.brush.follow(view, has_mask);
        }
    }
}

/// After another tool was taken in hand, the stencil is in use only if it was before without
/// being the tool.
pub proof fn other_tools_put_the_stencil_away(s: ToolState, tool: Tool)
    requires
        tool != Tool::Stencil,
    ensures
        s.with_tool(tool).active_stencil is None,
        !s.with_tool(tool).show_stencil_picker,
{
}

/// What the user did in a window that offers images to pick.
#[derive(Clone, Copy, Debug, PartialEq, Eq, Structural)]
pub struct PickerInput {
    pub open: bool,
    pub cancel: bool,
    pub picked: Option<usize>,
    pub import: bool,
}

/// What follows: whether the window stays, which image is taken, and whether another one is
/// imported.
#[derive(Clone, Copy, Debug, PartialEq, Eq, Structural)]
pub struct PickerOutcome {
    pub stays_open: bool,
    pub take: Option<usize>,
    pub import: bool,
}

/// What follows from what the user did in a window that offers images to pick.
pub fn picker_outcome(input: PickerInput) -> (r: PickerOutcome)
    ensures
        r.take == input.picked,
        r.import == input.import,
        r.stays_open == (input.open && !input.cancel && input.picked is None && !input.import),
{
    PickerOutcome {
        stays_open: input.open && !input.cancel && input.picked.is_none() && !input.import,
        take: input.picked,
        import: input.import,
    }
}

/// A key takes its own tool in hand, whatever keys after it are held, and only a key does.
pub proof fn keys_take_their_tools(keys: ToolKeys)
    ensures
        ({
            let tool = tool_for_keys_spec(keys);
            &&& tool == Some(Tool::Select) <==> keys.v
            &&& tool == Some(Tool::Paint) <==> keys.b && !keys.v
            &&& tool == Some(Tool::Erase) <==> keys.e && !keys.v && !keys.b
            &&& tool == Some(Tool::Fill) <==> keys.g && !keys.v && !keys.b && !keys.e
            &&& tool == Some(Tool::Eyedropper) <==> keys.i && !keys.v && !keys.b && !keys.e
                && !keys.g
            &&& tool != Some(Tool::Stencil)
        }),
{
}

/// A view is painted in the channel that it shows; the whole material and normals are only
/// looked at.
pub proof fn views_are_painted_in_their_channels(view: ViewMode)
    ensures
        channel_of(view) == Some(PaintChannel::BaseColor) <==> view == ViewMode::BaseColor,
        channel_of(view) == Some(PaintChannel::Roughness) <==> view == ViewMode::Roughness,
        channel_of(view) == Some(PaintChannel::Metallic) <==> view == ViewMode::Metallic,
        channel_of(view) == Some(PaintChannel::Mask) <==> view == ViewMode::Mask,
        channel_of(view) == Some(PaintChannel::Displacement) <==> view == ViewMode::Height,
{
}

/// The brush follows the view to a channel of the content and leaves the mask; it goes over to
/// a mask only where there is one, and keeps what it wrote to where nothing can be painted.
pub proof fn brushes_follow_the_view(target: BrushTarget, view: ViewMode, has_mask: bool)
    ensures
        ({
            let next = target.following(view, has_mask);
            &&& view == ViewMode::Mask ==> next.channel == target.channel && (next.mask_edit
                <==> target.mask_edit || has_mask)
            &&& view == ViewMode::BaseColor || view == ViewMode::Roughness || view
                == ViewMode::Metallic || view == ViewMode::Height ==> !next.mask_edit && Some(
                next.channel,
            ) == channel_of(view)
            &&& view == ViewMode::Material || view == ViewMode::Normal || view
                == ViewMode::WorldNormalBaked ==> next == target
            &&& next.mask_edit ==> next.effective_spec() == PaintChannel::Mask
            &&& !next.mask_edit ==> next.effective_spec() == next.channel
        }),
{
}

/// A stencil is not taken in hand before it is picked; any other tool is, and what is shown and
/// painted stays.
pub proof fn tools_are_taken_in_hand(state: ToolState, tool: Tool)
    ensures
        ({
            let next = state.with_tool(tool);
            &&& tool == Tool::Stencil ==> next.show_stencil_picker && next.tool == state.tool
                && next.active_stencil == state.active_stencil
            &&& tool != Tool::Stencil ==> next.tool == tool && next.active_stencil is None
                && !next.show_stencil_picker
            &&& next.view_mode == state.view_mode && next.uv_channel == state.uv_channel
                && next.brush == state.brush
        }),
{
}

} // verus!
