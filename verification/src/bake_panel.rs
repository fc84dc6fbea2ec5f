//! Baking maps by hand: what can be baked, how it stands, and what it is baked from.

use crate::bake::{MapKind, MeshMaps};
use crate::paths::{stem_of_or, stem_or};
use crate::text::{decimal, decimal_text};
use vstd::prelude::*;

verus! {

/// The maps that are baked one at a time, in the order in which they are shown.
pub const PANEL_KINDS: [MapKind; 7] = [
    MapKind::AmbientOcclusion,
    MapKind::Curvature,
    MapKind::Thickness,
    MapKind::Height,
    MapKind::Normal,
    MapKind::BentNormal,
    MapKind::Id,
];

/// A baked map: its size and the number of its tiles.
#[derive(Clone, Copy, Debug, PartialEq, Eq, Structural)]
pub struct BakedMap {
    pub kind: MapKind,
    pub resolution: u32,
    pub tile_count: u32,
}

/// How a map stands.
#[derive(Clone, Copy, Debug, PartialEq, Eq, Structural)]
pub enum SlotStatus {
    /// It was not baked.
    Empty,
    /// It was baked for another number of tiles.
    OtherTiles,
    /// It was baked from an earlier state of the mesh.
    Stale,
    /// It is up to date.
    Current,
}

impl SlotStatus {
    /// How it is shown.
    pub open spec fn text(self) -> Seq<char> {
        match self {
            SlotStatus::Empty => "·"@,
            SlotStatus::OtherTiles => "⚠ tiles"@,
            SlotStatus::Stale => "⚠ stale"@,
            SlotStatus::Current => "✓"@,
        }
    }

    /// How it is shown.
    pub fn label(self) -> (r: &'static str)
        ensures
            r@ == self.text(),
    {
        match self {
            SlotStatus::Empty => "·",
            SlotStatus::OtherTiles => "⚠ tiles",
            SlotStatus::Stale => "⚠ stale",
            SlotStatus::Current => "✓",
        }
    }
}

/// How a map stands, for a mesh of the given revision with the given number of tiles.
pub open spec fn slot_status_spec(
    maps: MeshMaps<BakedMap>,
    kind: MapKind,
    tiles: u32,
    revision: u64,
) -> SlotStatus {
    match maps.slot_spec(kind) {
        None => SlotStatus::Empty,
        Some(b) => if b.tile_count != tiles {
            SlotStatus::OtherTiles
        } else if maps.baked_at_revision != revision {
            SlotStatus::Stale
        } else {
            SlotStatus::Current
        },
    }
}

/// How a map stands.
pub fn slot_status(maps: &MeshMaps<BakedMap>, kind: MapKind, tiles: u32, revision: u64) -> (r:
    SlotStatus)
    ensures
        r == slot_status_spec(*maps, kind, tiles, revision),
{
    match maps.slot(kind) {
        None => SlotStatus::Empty,
        Some(b) => {
            if b.tile_count != tiles {
                SlotStatus::OtherTiles
            } else if maps.baked_at_revision != revision {
                SlotStatus::Stale
            } else {
                SlotStatus::Current
            }
        },
    }
}

/// What is baked: everything, or what was asked for.
pub fn kinds_to_bake(all: bool, one: Option<MapKind>) -> (r: Vec<MapKind>)
    ensures
        r@ == (if all {
            PANEL_KINDS@
        } else {
            match one {
                Some(k) => seq![k],
                None => Seq::empty(),
            }
        }),
{
    let mut out: Vec<MapKind> = Vec::new();
    if all {
        let mut i: usize = 0;
        while i < 7
            invariant
                i <= 7,
                out@ == PANEL_KINDS@.take(i as int),
            decreases 7 - i,
        {
            out.push(PANEL_KINDS[i]);
            proof {
                assert(out@ =~= PANEL_KINDS@.take(i + 1));
            }
            i = i + 1;
        }
        proof {
            assert(PANEL_KINDS@.take(7) =~= PANEL_KINDS@);
        }
    } else {
        match one {
            Some(k) => {
                out.push(k);
                proof {
                    assert(out@ =~= seq![k]);
                }
            },
            None => {},
        }
    }
    out
}

/// How the last bake went.
#[derive(Clone, Debug)]
pub struct BakeStatus {
    pub kind: MapKind,
    pub tile_count: u32,
    pub resolution: u32,
    pub error: Option<String>,
}

/// What is said of a bake that took the given time.
pub open spec fn bake_text(status: BakeStatus, seconds: Seq<char>) -> Seq<char> {
    match status.error {
        None => "✓ "@ + status.kind.label_text() + " baked in "@ + seconds + "s · "@ + decimal(
            status.resolution as nat,
        ) + "×"@ + decimal(status.resolution as nat) + " · "@ + decimal(status.tile_count as nat)
            + " tiles"@,
        Some(e) => "✗ "@ + status.kind.label_text() + " bake failed: "@ + e@,
    }
}

impl BakeStatus {
    /// What is said of a bake that took the given time.
    pub fn text(&self, seconds: &str) -> (r: String)
        ensures
            r@ == bake_text(*self, seconds@),
    {
        match &self.error {
            None => String::from_str("✓ ").concat(self.kind.label()).concat(" baked in ").concat(
                seconds,
            ).concat("s · ").concat(decimal_text(self.resolution as u64).as_str()).concat(
                "×",
            ).concat(decimal_text(self.resolution as u64).as_str()).concat(" · ").concat(
                decimal_text(self.tile_count as u64).as_str(),
            ).concat(" tiles"),
            Some(e) => String::from_str("✗ ").concat(self.kind.label()).concat(
                " bake failed: ",
            ).concat(e.as_str()),
        }
    }
}

/// Records the end of a bake: a map that came out is put in its place, from the current state
/// of the mesh; an error leaves the maps as they were.
pub fn record_bake(
    maps: &mut MeshMaps<BakedMap>,
    kind: MapKind,
    tiles: u32,
    resolution: u32,
    revision: u64,
    error: Option<String>,
) -> (r: BakeStatus)
    ensures
        r.kind == kind,
        r.tile_count == tiles,
        r.resolution == resolution,
        r.error == error,
        match error {
            Some(_) => *final(maps) == *old(maps),
            None => {
                &&& final(maps).baked_at_revision == revision
                &&& final(maps).baked == old(maps).baked
                &&& forall|k: MapKind|
                    k != kind ==> #[trigger] final(maps).slot_spec(k) == old(maps).slot_spec(k)
                &&& MeshMaps::<BakedMap>::has_slot(kind) ==> final(maps).slot_spec(kind) == Some(
                    BakedMap { kind, resolution, tile_count: tiles },
                )
            },
        },
{
    let failed = error.is_some();
    let status = BakeStatus { kind, tile_count: tiles, resolution, error };
    if failed {
        return status;
    }
    maps.set(kind, BakedMap { kind, resolution, tile_count: tiles });
    let ghost mid = *maps;
    maps.baked_at_revision = revision;
    proof {
        assert forall|k: MapKind| k != kind implies #[trigger] maps.slot_spec(k) == old(
            maps,
        ).slot_spec(k) by {
            assert(mid.slot_spec(k) == old(maps).slot_spec(k));
        }
    }
    status
}

/// A map that was just baked is up to date.
pub proof fn baked_maps_are_current(
    maps: MeshMaps<BakedMap>,
    kind: MapKind,
    tiles: u32,
    resolution: u32,
    revision: u64,
)
    requires
        maps.slot_spec(kind) == Some(BakedMap { kind, resolution, tile_count: tiles }),
        maps.baked_at_revision == revision,
    ensures
        slot_status_spec(maps, kind, tiles, revision) == SlotStatus::Current,
{
}

/// A map is up to date exactly where it was baked, for as many tiles as there are, from the
/// mesh as it is; a map for other tiles is told apart from one that is only old.
pub proof fn maps_go_stale(maps: MeshMaps<BakedMap>, kind: MapKind, tiles: u32, revision: u64)
    ensures
        ({
            let status = slot_status_spec(maps, kind, tiles, revision);
            let slot = maps.slot_spec(kind);
            &&& status == SlotStatus::Empty <==> slot is None
            &&& status == SlotStatus::Current <==> (slot matches Some(b) && b.tile_count == tiles
                && maps.baked_at_revision == revision)
            &&& status == SlotStatus::OtherTiles <==> (slot matches Some(b) && b.tile_count
                != tiles)
            &&& status == SlotStatus::Stale <==> (slot matches Some(b) && b.tile_count == tiles
                && maps.baked_at_revision != revision)
        }),
{
}

/// How a detailed mesh is named.
pub fn high_poly_label(path: &str, triangles: usize) -> (r: String)
    ensures
        r@ == stem_or(path@, "hp"@) + " · "@ + decimal(triangles as nat) + " tris"@,
{
    stem_of_or(path, "hp").concat(" · ").concat(decimal_text(triangles as u64).as_str()).concat(
        " tris",
    )
}

/// How a cage is named, or what is wrong with it: it needs a vertex for each vertex of the
/// mesh that it encloses.
pub fn cage_label(path: &str, vertices: usize, expected: usize) -> (r: Result<String, String>)
    ensures
        match r {
            Ok(label) => vertices == expected && label@ == stem_or(path@, "cage"@) + " · "@
                + decimal(expected as nat) + " verts"@,
            Err(label) => vertices != expected && label@ == "⚠ "@ + decimal(vertices as nat)
                + " verts ≠ "@ + decimal(expected as nat) + " (low-poly)"@,
        },
{
    if vertices != expected {
        Err(
            String::from_str("⚠ ").concat(decimal_text(vertices as u64).as_str()).concat(
                " verts ≠ ",
            ).concat(decimal_text(expected as u64).as_str()).concat(" (low-poly)"),
        )
    } else {
        Ok(
            stem_of_or(path, "cage").concat(" · ").concat(
                decimal_text(expected as u64).as_str(),
            ).concat(" verts"),
        )
    }
}

} // verus!
