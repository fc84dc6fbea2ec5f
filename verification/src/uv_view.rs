//! The flat view of an asset's texture: its tiles, its grid, its wireframe, and painting in
//! it.

use crate::paint::target::PaintTarget;
use crate::paint::udim::{tile_number, tile_place};
use crate::single::{Pair, Single};
use crate::text::{decimal, decimal_text};
use crate::tools::{channel_of, paint_channel_from_view_mode, ViewMode};
use vstd::prelude::*;

verus! {

/// What the flat view can show.
pub const ATLAS_CHANNELS: [ViewMode; 6] = [
    ViewMode::BaseColor,
    ViewMode::Roughness,
    ViewMode::Metallic,
    ViewMode::Normal,
    ViewMode::Mask,
    ViewMode::Height,
];

/// Whether something can be chosen to be shown; the mask only if the layer has one.
pub fn channel_is_offered(channel: ViewMode, has_mask: bool) -> (r: bool)
    ensures
        r == (channel != ViewMode::Mask || has_mask),
{
    channel != ViewMode::Mask || has_mask
}

/// Where the images of a view come from.
#[derive(Clone, Copy, Debug, PartialEq, Eq, Structural)]
pub enum AtlasSource {
    BaseColor,
    Roughness,
    Metallic,
    Normal,
    Displacement,
    LayerMask,
}

/// Where the images of a view come from; nowhere, if there is no flat image of it.
pub open spec fn atlas_source_spec(channel: ViewMode, has_mask: bool) -> Option<AtlasSource> {
    match channel {
        ViewMode::BaseColor => Some(AtlasSource::BaseColor),
        ViewMode::Roughness => Some(AtlasSource::Roughness),
        ViewMode::Metallic => Some(AtlasSource::Metallic),
        ViewMode::Normal => Some(AtlasSource::Normal),
        ViewMode::Height => Some(AtlasSource::Displacement),
        ViewMode::Mask => if has_mask {
            Some(AtlasSource::LayerMask)
        } else {
            None
        },
        ViewMode::Material | ViewMode::WorldNormalBaked => None,
    }
}

/// Where the images of a view come from.
pub fn atlas_source(channel: ViewMode, has_mask: bool) -> (r: Option<AtlasSource>)
    ensures
        r == atlas_source_spec(channel, has_mask),
{
    match channel {
        ViewMode::BaseColor => Some(AtlasSource::BaseColor),
        ViewMode::Roughness => Some(AtlasSource::Roughness),
        ViewMode::Metallic => Some(AtlasSource::Metallic),
        ViewMode::Normal => Some(AtlasSource::Normal),
        ViewMode::Height => Some(AtlasSource::Displacement),
        ViewMode::Mask => if has_mask {
            Some(AtlasSource::LayerMask)
        } else {
            None
        },
        ViewMode::Material | ViewMode::WorldNormalBaked => None,
    }
}

/// Everything that is offered has images.
pub proof fn offered_channels_have_images(k: int, has_mask: bool)
    requires
        0 <= k < 6,
        ATLAS_CHANNELS@[k] != ViewMode::Mask || has_mask,
    ensures
        atlas_source_spec(ATLAS_CHANNELS@[k], has_mask) is Some,
{
    assert(k == 0 || k == 1 || k == 2 || k == 3 || k == 4 || k == 5);
}

/// The images of the tiles that were made ready to be drawn, and what they show.
pub struct TileThumbs {
    pub ids: Vec<Option<u64>>,
    pub channel: Option<ViewMode>,
    pub layer_idx: Option<usize>,
}

impl TileThumbs {
    /// Whether the images are those of the given tiles, view and layer. The layer only counts
    /// where its mask is shown.
    pub open spec fn is_current(self, tile_count: usize, channel: ViewMode, layer: usize) -> bool {
        &&& self.ids@.len() == tile_count
        &&& self.channel == Some(channel)
        &&& channel == ViewMode::Mask ==> self.layer_idx == Some(layer)
    }

    /// Throws the images away unless they are current. Says whether it did.
    pub fn refresh(&mut self, tile_count: usize, channel: ViewMode, layer: usize) -> (r: bool)
        ensures
            final(self).is_current(tile_count, channel, layer),
            r == !old(self).is_current(tile_count, channel, layer),
            !r ==> *final(self) == *old(self),
            r ==> final(self).layer_idx == Some(layer) && forall|k: int|
                0 <= k < tile_count ==> #[trigger] final(self).ids@[k] is None,
    {
        let same_channel = match self.channel {
            Some(c) => c == channel,
            None => false,
        };
        let same_layer = match self.layer_idx {
            Some(l) => l == layer,
            None => false,
        };
        if self.ids.len() == tile_count && same_channel && (channel != ViewMode::Mask
            || same_layer) {
            return false;
        }
        let mut ids: Vec<Option<u64>> = Vec::new();
        let mut i: usize = 0;
        while i < tile_count
            invariant
                i <= tile_count,
                ids@.len() == i,
                forall|k: int| 0 <= k < i ==> #[trigger] ids@[k] is None,
            decreases tile_count - i,
        {
            ids.push(None);
            i = i + 1;
        }
        self.ids = ids;
        self.channel = Some(channel);
        self.layer_idx = Some(layer);
        true
    }
}

/// How far the grid reaches from the origin.
pub const GRID_HALF: i32 = 50;

/// The lines of the grid: from one column to another, from one row to another.
#[derive(Clone, Copy, Debug, PartialEq, Eq, Structural)]
pub struct GridExtent {
    pub x_min: i32,
    pub x_max: i32,
    pub y_min: i32,
    pub y_max: i32,
}

/// The larger of a number and the lower limit of the grid.
pub open spec fn from_grid_start(x: i32) -> int {
    if x < -GRID_HALF {
        -GRID_HALF
    } else {
        x as int
    }
}

/// The smaller of a number and the upper limit of the grid.
pub open spec fn to_grid_end(x: i32) -> int {
    if x > GRID_HALF {
        GRID_HALF as int
    } else {
        x as int
    }
}

/// The part of the visible grid that is drawn.
pub fn grid_extent(visible: GridExtent) -> (r: GridExtent)
    ensures
        r.x_min == from_grid_start(visible.x_min),
        r.x_max == to_grid_end(visible.x_max),
        r.y_min == from_grid_start(visible.y_min),
        r.y_max == to_grid_end(visible.y_max),
        r.x_max - r.x_min <= 2 * GRID_HALF,
        r.y_max - r.y_min <= 2 * GRID_HALF,
{
    let low: i32 = -GRID_HALF;
    GridExtent {
        x_min: if visible.x_min < low {
            low
        } else {
            visible.x_min
        },
        x_max: if visible.x_max > GRID_HALF {
            GRID_HALF
        } else {
            visible.x_max
        },
        y_min: if visible.y_min < low {
            low
        } else {
            visible.y_min
        },
        y_max: if visible.y_max > GRID_HALF {
            GRID_HALF
        } else {
            visible.y_max
        },
    }
}

/// The densest mesh whose wireframe is drawn, in triangles.
pub const TRI_CAP: usize = 50_000;

/// What is said in place of a wireframe that is too dense.
pub open spec fn hidden_wireframe_text(triangles: nat) -> Seq<char> {
    "UV wireframe hidden — "@ + decimal(triangles) + " triangles exceed cap of "@ + decimal(
        TRI_CAP as nat,
    )
}

/// Why the wireframe of a mesh is not drawn, if it is not.
pub fn hidden_wireframe(triangles: usize) -> (r: Option<String>)
    ensures
        match r {
            Some(text) => triangles > TRI_CAP && text@ == hidden_wireframe_text(triangles as nat),
            None => triangles <= TRI_CAP,
        },
{
    if triangles > TRI_CAP {
        Some(
            String::from_str("UV wireframe hidden — ").concat(
                decimal_text(triangles as u64).as_str(),
            ).concat(" triangles exceed cap of ").concat(decimal_text(TRI_CAP as u64).as_str()),
        )
    } else {
        None
    }
}

/// The most dabs that one movement of the pointer makes.
pub const MAX_STEPS: u32 = 128;

/// How many dabs a movement makes: as many as fit, but one at least.
pub fn stroke_steps(fitting: u32) -> (r: u32)
    ensures
        1 <= r <= MAX_STEPS,
        1 <= fitting <= MAX_STEPS ==> r == fitting,
        fitting == 0 ==> r == 1,
        fitting > MAX_STEPS ==> r == MAX_STEPS,
{
    if fitting < 1 {
        1
    } else if fitting > MAX_STEPS {
        MAX_STEPS
    } else {
        fitting
    }
}

/// The tile that lies at a column and a row; there are ten columns.
pub open spec fn stamped_tile(u: i32, v: i32) -> Option<int> {
    if u < 0 || v < 0 || u >= 10 {
        None
    } else {
        Some(tile_number(u as int, v as int))
    }
}

/// The image of the canvas that a dab at a column and a row goes to.
pub fn stamp_layer(target: &PaintTarget, u: i32, v: i32) -> (r: Option<u32>)
    requires
        target.wf(),
        stamped_tile(u, v) is Some ==> stamped_tile(u, v)->0 <= u32::MAX,
    ensures
        match r {
            Some(i) => i < target.tiles@.len() && stamped_tile(u, v) == Some(
                target.tiles@[i as int] as int,
            ),
            None => stamped_tile(u, v) is None || !target.tiles@.contains(
                stamped_tile(u, v)->0 as u32,
            ),
        },
{
    if u < 0 || v < 0 || u >= 10 {
        return None;
    }
    let tile: u32 = 1001 + u as u32 + 10 * v as u32;
    target.layer_for_tile(tile)
}

/// A dab within a tile of the canvas goes to the image of that tile.
pub proof fn dabs_land_on_their_tile(tile: u32)
    requires
        1001 <= tile,
        tile_place(tile).1 <= i32::MAX,
    ensures
        stamped_tile(tile_place(tile).0 as i32, tile_place(tile).1 as i32) == Some(tile as int),
{
}

/// Where the last dab of a stroke was, and how hard the pen was pressed.
#[derive(Clone, Copy, Debug, PartialEq, Eq, Structural)]
pub struct StrokeAnchor {
    pub uv: Option<Pair>,
    pub pressure: Option<Single>,
}

impl StrokeAnchor {
    /// The pressure from which a stroke goes on.
    pub fn pressure_or(&self, now: Single) -> (r: Single)
        ensures
            r == (match self.pressure {
                Some(p) => p,
                None => now,
            }),
    {
        match self.pressure {
            Some(p) => p,
            None => now,
        }
    }

    /// Remembers where the stroke is. A stroke that ended is forgotten. While the pointer
    /// cannot be found, nothing changes.
    pub fn advance(&mut self, painting: bool, at: Option<Pair>, pressure: Single)
        ensures
            *final(self) == (if !painting {
                StrokeAnchor { uv: None, pressure: None }
            } else {
                match at {
                    Some(uv) => StrokeAnchor { uv: Some(uv), pressure: Some(pressure) },
                    None => *old(self),
                }
            }),
    {
        if !painting {
            self.uv = None;
            self.pressure = None;
        } else if at.is_some() {
            self.uv = at;
            self.pressure = Some(pressure);
        }
    }
}

/// Whether the pointer paints: in a view that can be painted, with the first button.
pub fn is_painting(channel: ViewMode, dragged: bool, clicked: bool) -> (r: bool)
    ensures
        r == (channel_of(channel) is Some && (dragged || clicked)),
{
    paint_channel_from_view_mode(channel).is_some() && (dragged || clicked)
}

/// Every view shows the images of its own channel; a mask only where there is one.
pub proof fn views_show_their_own_images(channel: ViewMode, has_mask: bool)
    ensures
        ({
            let source = atlas_source_spec(channel, has_mask);
            &&& source == Some(AtlasSource::BaseColor) <==> channel == ViewMode::BaseColor
            &&& source == Some(AtlasSource::Roughness) <==> channel == ViewMode::Roughness
            &&& source == Some(AtlasSource::Metallic) <==> channel == ViewMode::Metallic
            &&& source == Some(AtlasSource::Normal) <==> channel == ViewMode::Normal
            &&& source == Some(AtlasSource::Displacement) <==> channel == ViewMode::Height
            &&& source == Some(AtlasSource::LayerMask) <==> channel == ViewMode::Mask && has_mask
        }),
{
}

/// A dab lands on the tile of its column and row, ten columns to a row, counted from 1001;
/// beside the tiles it lands nowhere.
pub proof fn dabs_are_counted_by_columns_and_rows(u: i32, v: i32)
    ensures
        0 <= u < 10 && 0 <= v ==> stamped_tile(u, v) == Some(1001 + u + 10 * v),
        u < 0 || u >= 10 || v < 0 ==> stamped_tile(u, v) is None,
{
}

} // verus!
