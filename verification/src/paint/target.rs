//! The canvas of an asset: one square image for each of its tiles.

use crate::lights::Quad;
use crate::mesh::CpuMesh;
use crate::paint::udim::{is_rising, is_touched, tiles_are_numbered, tiles_for_mesh};
use crate::single::{Single, HALF, ONE};
use vstd::prelude::*;

verus! {

/// The largest number of tiles that an asset can have.
pub const MAX_TILES: usize = 32;

/// The channels of the canvas.
#[derive(Clone, Copy, Debug, PartialEq, Eq, Structural)]
pub enum TargetChannel {
    BaseColor,
    RoughMetal,
    Normal,
    Displacement,
}

impl TargetChannel {
    /// What an untouched pixel holds: grey, half rough and not metallic, flat, and not
    /// displaced.
    pub open spec fn neutral_spec(self) -> (u8, u8, u8, u8) {
        match self {
            TargetChannel::BaseColor => (180, 180, 180, 255),
            TargetChannel::RoughMetal => (255, 128, 0, 255),
            TargetChannel::Normal => (128, 128, 255, 255),
            TargetChannel::Displacement => (0, 0, 0, 0),
        }
    }

    /// What an untouched pixel holds.
    pub fn neutral(self) -> (r: (u8, u8, u8, u8))
        ensures
            r == self.neutral_spec(),
    {
        match self {
            TargetChannel::BaseColor => (180, 180, 180, 255),
            TargetChannel::RoughMetal => (255, 128, 0, 255),
            TargetChannel::Normal => (128, 128, 255, 255),
            TargetChannel::Displacement => (0, 0, 0, 0),
        }
    }
}

/// The channel that is `k`-th to be cleared.
pub open spec fn channel_at(k: int) -> TargetChannel {
    if k == 0 {
        TargetChannel::BaseColor
    } else if k == 1 {
        TargetChannel::RoughMetal
    } else if k == 2 {
        TargetChannel::Normal
    } else {
        TargetChannel::Displacement
    }
}

/// What is cleared before anything is painted: every channel of every layer.
pub fn initial_fills(layer_count: u32) -> (r: Vec<(u32, TargetChannel)>)
    ensures
        r@ == Seq::new(
            4 * layer_count as nat,
            |k: int| ((k / 4) as u32, channel_at(k % 4)),
        ),
{
    let mut out: Vec<(u32, TargetChannel)> = Vec::new();
    let mut layer: u32 = 0;
    while layer < layer_count
        invariant
            layer <= layer_count,
            out@ == Seq::new(4 * layer as nat, |k: int| ((k / 4) as u32, channel_at(k % 4))),
        decreases layer_count - layer,
    {
        out.push((layer, TargetChannel::BaseColor));
        out.push((layer, TargetChannel::RoughMetal));
        out.push((layer, TargetChannel::Normal));
        out.push((layer, TargetChannel::Displacement));
        proof {
            let k = 4 * layer;
            assert(k / 4 == layer && (k + 1) / 4 == layer && (k + 2) / 4 == layer && (k + 3) / 4
                == layer);
            assert(out@ =~= Seq::new(
                4 * (layer + 1) as nat,
                |k: int| ((k / 4) as u32, channel_at(k % 4)),
            ));
        }
        layer = layer + 1;
    }
    out
}

/// What the material shader is told.
pub struct MaterialUniforms {
    pub base_color_factor: Quad,
    pub params: Quad,
    pub tile_count: u32,
    pub tile_ids: [[u32; 4]; 8],
}

impl Default for MaterialUniforms {
    fn default() -> (r: Self)
        ensures
            r.base_color_factor == (Quad {
                x: Single { bits: ONE },
                y: Single { bits: ONE },
                z: Single { bits: ONE },
                w: Single { bits: ONE },
            }),
            r.params == (Quad {
                x: Single { bits: 0 },
                y: Single { bits: HALF },
                z: Single { bits: ONE },
                w: Single { bits: 0 },
            }),
            r.tile_count == 0,
            forall|k: int| 0 <= k < MAX_TILES ==> #[trigger] packed(r.tile_ids, k) == 0,
    {
        MaterialUniforms {
            base_color_factor: Quad {
                x: Single { bits: ONE },
                y: Single { bits: ONE },
                z: Single { bits: ONE },
                w: Single { bits: ONE },
            },
            params: Quad {
                x: Single { bits: 0 },
                y: Single { bits: HALF },
                z: Single { bits: ONE },
                w: Single { bits: 0 },
            },
            tile_count: 0,
            tile_ids: [[0u32; 4]; 8],
        }
    }
}

/// The `k`-th number of a table of rows of four.
pub open spec fn packed(table: [[u32; 4]; 8], k: int) -> u32 {
    table@[k / 4]@[k % 4]
}

/// The canvas of an asset.
pub struct PaintTarget {
    pub tiles: Vec<u32>,
    pub resolution: u32,
}

impl PaintTarget {
    /// There is a tile, there are not too many, and none comes twice.
    pub open spec fn wf(self) -> bool {
        &&& 0 < self.tiles@.len() <= MAX_TILES
        &&& is_rising(self.tiles@)
    }

    /// A canvas for the tiles that a mesh touches: the first ones, where there are too many,
    /// and the very first tile, where there is none.
    pub fn new(mesh: &CpuMesh, resolution: u32) -> (r: PaintTarget)
        requires
            tiles_are_numbered(mesh.uvs@, mesh.indices@),
        ensures
            r.wf(),
            r.resolution == resolution,
            ({
                let n = mesh.indices@.len() as int;
                let touched = |t: u32| is_touched(mesh.uvs@, mesh.indices@, n, t);
                if forall|t: u32| !#[trigger] touched(t) {
                    r.tiles@ == seq![1001u32]
                } else {
                    &&& forall|t: u32| #[trigger] r.tiles@.contains(t) ==> touched(t)
                    &&& forall|t: u32| #[trigger]
                        touched(t) && !r.tiles@.contains(t) ==> r.tiles@.len() == MAX_TILES && t
                            > r.tiles@.last()
                }
            }),
    {
        let mut tiles = tiles_for_mesh(mesh);
        let ghost all = tiles@;
        let ghost n = mesh.indices@.len() as int;
        let ghost touched = |t: u32| is_touched(mesh.uvs@, mesh.indices@, n, t);
        if tiles.len() > MAX_TILES {
            tiles.truncate(MAX_TILES);
        }
        if tiles.len() == 0 {
            tiles.push(1001);
        }
        proof {
            if all.len() == 0 {
                assert forall|t: u32| !#[trigger] touched(t) by {
                    assert(!all.contains(t));
                }
                assert(tiles@ =~= seq![1001u32]);
            } else {
                assert(all.contains(all[0]));
                assert(touched(all[0]));
                let kept = tiles@;
                assert(kept =~= all.take(kept.len() as int));
                assert forall|t: u32| #[trigger] kept.contains(t) implies touched(t) by {
                    let k = choose|k: int| 0 <= k < kept.len() && kept[k] == t;
                    assert(all[k] == t);
                    assert(all.contains(t));
                }
                assert forall|t: u32| #[trigger] touched(t) && !kept.contains(t) implies kept.len()
                    == MAX_TILES && t > kept.last() by {
                    assert(all.contains(t));
                    let k = choose|k: int| 0 <= k < all.len() && all[k] == t;
                    if k < kept.len() {
                        assert(kept[k] == t);
                    }
                }
            }
        }
        PaintTarget { tiles, resolution }
    }

    /// The place of a tile among the images of the canvas.
    pub fn layer_for_tile(&self, tile_id: u32) -> (r: Option<u32>)
        requires
            self.wf(),
        ensures
            match r {
                Some(i) => i < self.tiles@.len() && self.tiles@[i as int] == tile_id,
                None => !self.tiles@.contains(tile_id),
            },
    {
        let mut i: usize = 0;
        while i < self.tiles.len()
            invariant
                self.wf(),
                i <= self.tiles@.len(),
                forall|k: int| 0 <= k < i ==> self.tiles@[k] != tile_id,
            decreases self.tiles@.len() - i,
        {
            if self.tiles[i] == tile_id {
                return Some(i as u32);
            }
            i = i + 1;
        }
        None
    }

    /// What the material shader is told: the material, and the table of tiles, four to a
    /// row, filled up with zeros.
    pub fn material_uniforms(
        &self,
        base_color_factor: Quad,
        metallic: Single,
        roughness: Single,
        normal_scale: Single,
        displacement_scale: Single,
    ) -> (r: MaterialUniforms)
        requires
            self.wf(),
        ensures
            r.base_color_factor == base_color_factor,
            r.params == (Quad {
                x: metallic,
                y: roughness,
                z: normal_scale,
                w: displacement_scale,
            }),
            r.tile_count == self.tiles@.len(),
            forall|k: int|
                0 <= k < MAX_TILES ==> #[trigger] packed(r.tile_ids, k) == (if k
                    < self.tiles@.len() {
                    self.tiles@[k]
                } else {
                    0
                }),
    {
        let mut table: [[u32; 4]; 8] = [[0u32; 4]; 8];
        let mut i: usize = 0;
        while i < self.tiles.len()
            invariant
                self.wf(),
                i <= self.tiles@.len(),
                forall|k: int|
                    0 <= k < MAX_TILES ==> #[trigger] packed(table, k) == (if k < i {
                        self.tiles@[k]
                    } else {
                        0
                    }),
            decreases self.tiles@.len() - i,
        {
            let ghost before = table;
            let mut row: [u32; 4] = table[i / 4];
            row[i % 4] = self.tiles[i];
            table[i / 4] = row;
            proof {
                assert forall|k: int| 0 <= k < MAX_TILES implies #[trigger] packed(table, k) == (
                if k < i + 1 {
                    self.tiles@[k]
                } else {
                    0
                }) by {
                    assert(packed(before, k) == (if k < i {
                        self.tiles@[k]
                    } else {
                        0
                    }));
                    if k / 4 == i / 4 && k % 4 == i % 4 {
                        assert(k == i);
                    }
                }
            }
            i = i + 1;
        }
        MaterialUniforms {
            base_color_factor,
            params: Quad { x: metallic, y: roughness, z: normal_scale, w: displacement_scale },
            tile_count: self.tiles.len() as u32,
            tile_ids: table,
        }
    }
}

/// An untouched pixel is opaque grey, half rough in green and not metallic in blue, and points
/// straight out; it is not displaced.
pub proof fn untouched_pixels_are_neutral(channel: TargetChannel)
    ensures
        ({
            let (r, g, b, a) = channel.neutral_spec();
            &&& channel == TargetChannel::BaseColor ==> r == 180 && g == 180 && b == 180 && a == 255
            &&& channel == TargetChannel::RoughMetal ==> g == 128 && b == 0
            &&& channel == TargetChannel::Normal ==> r == 128 && g == 128 && b == 255
            &&& channel == TargetChannel::Displacement ==> r == 0 && g == 0 && b == 0 && a == 0
        }),
{
}

/// Four channels of a layer are cleared, each once.
pub proof fn channels_are_cleared_once(i: int, j: int)
    requires
        0 <= i < j < 4,
    ensures
        channel_at(i) != channel_at(j),
{
}

} // verus!
