//! Export of painted tiles, to a folder of the user's or to the preview renderer.

use crate::paths::{is_absolute, join, join_path};
use crate::text::{decimal, decimal_reads_back, decimal_text, digits_value, same_text};
use vstd::prelude::*;

verus! {

/// The textures that are exported.
#[derive(Clone, Copy, Debug, PartialEq, Eq, Structural)]
pub enum ExportChannel {
    BaseColor,
    RoughMetal,
    Normal,
}

impl ExportChannel {
    /// The channels in the order in which they are written.
    pub const ALL: [ExportChannel; 3] = [
        ExportChannel::BaseColor,
        ExportChannel::RoughMetal,
        ExportChannel::Normal,
    ];

    /// How the files of the channel are called.
    pub open spec fn name_text(self) -> Seq<char> {
        match self {
            ExportChannel::BaseColor => "basecolor"@,
            ExportChannel::RoughMetal => "roughmetal"@,
            ExportChannel::Normal => "normal"@,
        }
    }

    /// How the files of the channel are called.
    pub fn name(self) -> (r: &'static str)
        ensures
            r@ == self.name_text(),
    {
        match self {
            ExportChannel::BaseColor => "basecolor",
            ExportChannel::RoughMetal => "roughmetal",
            ExportChannel::Normal => "normal",
        }
    }
}

/// One file to write: a channel of the tile on a layer of the paint target.
pub struct Export {
    pub path: String,
    pub channel: ExportChannel,
    pub udim: u32,
    pub layer: u32,
}

/// The same as a value of the specification.
pub struct ExportModel {
    pub path: Seq<char>,
    pub channel: ExportChannel,
    pub udim: u32,
    pub layer: u32,
}

impl View for Export {
    type V = ExportModel;

    open spec fn view(&self) -> ExportModel {
        ExportModel {
            path: self.path@,
            channel: self.channel,
            udim: self.udim,
            layer: self.layer,
        }
    }
}

/// Each export of a list as a value of the specification.
pub open spec fn export_models(list: Seq<Export>) -> Seq<ExportModel> {
    Seq::new(list.len(), |i: int| list[i]@)
}

/// The name of the file for a channel of a tile.
pub open spec fn tile_file(channel: ExportChannel, udim: u32) -> Seq<char> {
    channel.name_text() + "."@ + decimal(udim as nat) + ".png"@
}

/// The files for a list of tiles: for each tile all channels.
pub open spec fn exports_for(dir: Seq<char>, tiles: Seq<u32>) -> Seq<ExportModel> {
    Seq::new(
        3 * tiles.len(),
        |k: int|
            {
                let channel = ExportChannel::ALL@[k % 3];
                let udim = tiles[k / 3];
                ExportModel {
                    path: join(dir, tile_file(channel, udim)),
                    channel,
                    udim,
                    layer: (k / 3) as u32,
                }
            },
    )
}

/// Why nothing can be read back: the rows of a tile do not have the alignment that a copy
/// needs.
pub open spec fn misaligned_text(resolution: u32, alignment: u32) -> Seq<char> {
    "export resolution "@ + decimal(resolution as nat) + " yields stride "@ + decimal(
        (resolution * 4) as nat,
    ) + ", not "@ + decimal(alignment as nat) + "-aligned"@
}

/// The files to write for a paint target, or why they cannot be written.
pub fn plan_exports(dir: &str, tiles: &Vec<u32>, resolution: u32, alignment: u32) -> (r: Result<
    Vec<Export>,
    String,
>)
    requires
        resolution * 4 <= u32::MAX,
        alignment > 0,
        tiles@.len() <= u32::MAX,
    ensures
        match r {
            Ok(list) => (resolution * 4) % alignment as int == 0 && export_models(list@)
                == exports_for(dir@, tiles@),
            Err(message) => (resolution * 4) % alignment as int != 0 && message@
                == misaligned_text(resolution, alignment),
        },
{
    let bytes_per_row: u32 = resolution * 4;
    if bytes_per_row % alignment != 0 {
        let a = decimal_text(resolution as u64);
        let b = decimal_text(bytes_per_row as u64);
        let c = decimal_text(alignment as u64);
        return Err(
            String::from_str("export resolution ").concat(a.as_str()).concat(
                " yields stride ",
            ).concat(b.as_str()).concat(", not ").concat(c.as_str()).concat("-aligned"),
        );
    }
    let mut out: Vec<Export> = Vec::new();
    let ghost all = exports_for(dir@, tiles@);
    let mut i: usize = 0;
    while i < tiles.len()
        invariant
            i <= tiles@.len() <= u32::MAX,
            all == exports_for(dir@, tiles@),
            export_models(out@) == all.take(3 * i),
        decreases tiles@.len() - i,
    {
        let udim: u32 = tiles[i];
        let mut c: usize = 0;
        while c < 3
            invariant
                c <= 3,
                i < tiles@.len() <= u32::MAX,
                udim == tiles@[i as int],
                all == exports_for(dir@, tiles@),
                export_models(out@) == all.take(3 * i + c),
            decreases 3 - c,
        {
            let channel = ExportChannel::ALL[c];
            let number = decimal_text(udim as u64);
            let file = String::from_str(channel.name()).concat(".").concat(
                number.as_str(),
            ).concat(".png");
            let export = Export {
                path: join_path(dir, file.as_str()),
                channel,
                udim,
                layer: i as u32,
            };
            let ghost before = out@;
            out.push(export);
            proof {
                let k = 3 * i + c;
                assert(k / 3 == i && k % 3 == c);
                assert(all[k] == export@);
                assert(export_models(out@) =~= export_models(before).push(export@));
                assert(all.take(k + 1) =~= all.take(k).push(all[k]));
            }
            c = c + 1;
        }
        i = i + 1;
    }
    proof {
        assert(all.take(all.len() as int) =~= all);
    }
    Ok(out)
}

/// No two files of an export are the same, as long as no tile is listed twice.
pub proof fn export_files_differ(dir: Seq<char>, tiles: Seq<u32>, a: int, b: int)
    requires
        tiles.no_duplicates(),
        0 <= a < b < 3 * tiles.len(),
    ensures
        exports_for(dir, tiles)[a].path != exports_for(dir, tiles)[b].path,
{
    let ca = ExportChannel::ALL@[a % 3];
    let cb = ExportChannel::ALL@[b % 3];
    let ta = tiles[a / 3];
    let tb = tiles[b / 3];
    let fa = tile_file(ca, ta);
    let fb = tile_file(cb, tb);
    reveal_strlit("basecolor");
    reveal_strlit("roughmetal");
    reveal_strlit("normal");
    reveal_strlit(".");
    reveal_strlit(".png");
    assert(fa[0] != '/' && fb[0] != '/');
    if join(dir, fa) == join(dir, fb) {
        same_file_when_joined(dir, fa, fb);
        if a % 3 == b % 3 {
            assert(a / 3 != b / 3);
            assert(ta != tb);
            numbered_files_differ(ca.name_text(), ta as nat, tb as nat);
        } else {
            assert(fa[0] != fb[0]);
        }
    }
}

/// Two files in one directory are the same where their paths are.
proof fn same_file_when_joined(dir: Seq<char>, a: Seq<char>, b: Seq<char>)
    requires
        a.len() > 0,
        b.len() > 0,
        !is_absolute(a),
        !is_absolute(b),
        join(dir, a) == join(dir, b),
    ensures
        a == b,
{
    let base = if dir.len() == 0 || dir.last() == '/' {
        dir
    } else {
        dir.push('/')
    };
    assert(join(dir, a) == base + a);
    assert(join(dir, b) == base + b);
    assert(a.len() == b.len());
    assert forall|k: int| 0 <= k < a.len() implies a[k] == b[k] by {
        assert((base + a)[base.len() + k] == a[k]);
        assert((base + b)[base.len() + k] == b[k]);
    }
    assert(a =~= b);
}

/// Files with different numbers have different names.
proof fn numbered_files_differ(name: Seq<char>, x: nat, y: nat)
    requires
        x != y,
    ensures
        name + "."@ + decimal(x) + ".png"@ != name + "."@ + decimal(y) + ".png"@,
{
    decimal_reads_back(x);
    decimal_reads_back(y);
    let dx = decimal(x);
    let dy = decimal(y);
    let s = name + "."@ + dx + ".png"@;
    let t = name + "."@ + dy + ".png"@;
    if s == t {
        assert(s.len() == name.len() + "."@.len() + dx.len() + ".png"@.len());
        assert(t.len() == name.len() + "."@.len() + dy.len() + ".png"@.len());
        assert forall|k: int| 0 <= k < dx.len() implies dx[k] == dy[k] by {
            let at = name.len() + "."@.len() + k;
            assert(s[at] == dx[k]);
            assert(t[at] == dy[k]);
        }
        assert(dx =~= dy);
        assert(digits_value(dx) == digits_value(dy));
    }
}

/// The folder below `root` that the `seq`-th set of textures for the preview goes to.
pub open spec fn version_dir(root: Seq<char>, seq: nat) -> Seq<char> {
    join(root, "v"@ + decimal(seq))
}

/// The folder below `root` that the `seq`-th set of textures for the preview goes to.
pub fn version_path(root: &str, seq: u64) -> (r: String)
    ensures
        r@ == version_dir(root@, seq as nat),
{
    let number = decimal_text(seq);
    let name = String::from_str("v").concat(number.as_str());
    join_path(root, name.as_str())
}

/// Each set of textures for the preview goes to a folder of its own, so that what shows one
/// set never takes it for another.
pub proof fn versions_have_their_own_folders(root: Seq<char>, a: nat, b: nat)
    requires
        a != b,
    ensures
        version_dir(root, a) != version_dir(root, b),
{
    reveal_strlit("v");
    decimal_reads_back(a);
    decimal_reads_back(b);
    let x = "v"@ + decimal(a);
    let y = "v"@ + decimal(b);
    assert(x[0] == 'v' && y[0] == 'v');
    if version_dir(root, a) == version_dir(root, b) {
        same_file_when_joined(root, x, y);
        assert(x.skip(1) =~= decimal(a));
        assert(y.skip(1) =~= decimal(b));
    }
}

/// Begins another set of textures for the preview: a number that has not been used before,
/// for as long as there are such numbers.
pub fn next_version(seq: &mut u64) -> (r: u64)
    ensures
        r == *final(seq),
        *final(seq) == if *old(seq) == u64::MAX {
            u64::MAX
        } else {
            (*old(seq) + 1) as u64
        },
{
    *seq = (*seq).saturating_add(1);
    *seq
}

/// The set of textures that is deleted once set `seq` is in use: the one before the last.
pub fn outdated_version(seq: u64) -> (r: Option<u64>)
    ensures
        r == if seq >= 2 {
            Some((seq - 2) as u64)
        } else {
            None
        },
{
    if seq >= 2 {
        Some(seq - 2)
    } else {
        None
    }
}

/// Whether a channel of the given name was exported.
pub open spec fn was_exported(exports: Seq<ExportModel>, channel: Seq<char>) -> bool {
    exists|i: int| 0 <= i < exports.len() && (#[trigger] exports[i]).channel.name_text() == channel
}

/// Where the preview finds a channel of all tiles: the name of a tile's file with a
/// placeholder for its number, or nothing if the channel was not exported.
pub fn udim_path(exports: &Vec<Export>, dir: &str, channel: &str) -> (r: String)
    ensures
        r@ == if was_exported(export_models(exports@), channel@) {
            join(dir@, channel@ + ".<UDIM>.png"@)
        } else {
            Seq::empty()
        },
{
    let mut i: usize = 0;
    while i < exports.len()
        invariant
            i <= exports@.len(),
            forall|k: int|
                0 <= k < i ==> (#[trigger] export_models(exports@)[k]).channel.name_text()
                    != channel@,
        decreases exports@.len() - i,
    {
        if same_text(exports[i].channel.name(), channel) {
            proof {
                assert(export_models(exports@)[i as int].channel.name_text() == channel@);
            }
            let file = String::from_str(channel).concat(".<UDIM>.png");
            return join_path(dir, file.as_str());
        }
        i = i + 1;
    }
    String::new()
}

/// The files of some tiles, shared out over the channels, are as many as the tiles.
pub proof fn each_tile_has_its_files(dir: Seq<char>, tiles: Seq<u32>)
    ensures
        exports_for(dir, tiles).len() / 3 == tiles.len(),
{
}

/// What is shown once a set of textures is in use. Each tile has a file for every channel.
pub fn sync_status(seq: u64, export_count: usize) -> (r: String)
    ensures
        r@ == "synced v"@ + decimal(seq as nat) + " ("@ + decimal((export_count / 3) as nat)
            + " tiles)"@,
{
    let a = decimal_text(seq);
    let b = decimal_text((export_count / 3) as u64);
    String::from_str("synced v").concat(a.as_str()).concat(" (").concat(b.as_str()).concat(
        " tiles)",
    )
}

/// Every tile is written three times, from the layer at its own place: its colours, its
/// roughness and metalness, and its normals, each to the file that bears that name and the
/// number of the tile.
pub proof fn tiles_are_written_under_their_numbers(dir: Seq<char>, tiles: Seq<u32>, i: int)
    requires
        0 <= i < tiles.len() <= u32::MAX,
    ensures
        ({
            let all = exports_for(dir, tiles);
            let number = decimal(tiles[i] as nat);
            &&& all.len() == 3 * tiles.len()
            &&& all[3 * i].channel == ExportChannel::BaseColor
            &&& all[3 * i].path == join(dir, "basecolor"@ + "."@ + number + ".png"@)
            &&& all[3 * i + 1].channel == ExportChannel::RoughMetal
            &&& all[3 * i + 1].path == join(dir, "roughmetal"@ + "."@ + number + ".png"@)
            &&& all[3 * i + 2].channel == ExportChannel::Normal
            &&& all[3 * i + 2].path == join(dir, "normal"@ + "."@ + number + ".png"@)
            &&& forall|c: int|
                0 <= c < 3 ==> (#[trigger] all[3 * i + c]).udim == tiles[i] && all[3 * i + c].layer
                    == i
        }),
{
    assert((3 * i) / 3 == i && (3 * i + 1) / 3 == i && (3 * i + 2) / 3 == i);
    assert((3 * i) % 3 == 0 && (3 * i + 1) % 3 == 1 && (3 * i + 2) % 3 == 2);
    let all = exports_for(dir, tiles);
    assert forall|c: int| 0 <= c < 3 implies (#[trigger] all[3 * i + c]).udim == tiles[i] && all[3 * i
        + c].layer == i by {
        assert((3 * i + c) / 3 == i);
    }
}

/// The value of an export has everything where the export has it.
pub proof fn values_keep_their_exports(e: Export)
    ensures
        e@.path == e.path@,
        e@.channel == e.channel,
        e@.udim == e.udim,
        e@.layer == e.layer,
{
}

} // verus!
