//! The browser of images, meshes and materials: where bundled files are, which entries are
//! shown, and where images are put.

use crate::assets::{MaterialAsset, MaterialKind, MeshAsset, Tab};
use crate::material_library::{folders_above, folders_above_program};
use crate::order::{order_by_path, path_key, sorts};
use crate::paint::layer::{is_first_free, layer_models, LayerKind, LayerModel, LayerStack, numbered};
use crate::paint::target::PaintTarget;
use crate::paths::{
    extension, extension_of_path, join, join_path, paths_equal, same_path, stem_of_or, stem_or,
};
use crate::stage_materials::{resolved_models, ResolvedModel, ResolvedStageTexture};
use crate::stage_textures::MaterialSlot;
use crate::text::{decimal, decimal_text, lower, same_text, to_lower, views};
use vstd::prelude::*;

verus! {

/// The name under which an image is listed.
pub fn texture_name(path: &str) -> (r: String)
    ensures
        r@ == stem_or(path@, "texture"@),
{
    stem_of_or(path, "texture")
}

/// An image that was imported.
#[derive(Clone, Debug)]
pub struct TextureAsset {
    pub name: String,
    pub source: String,
    pub width: u32,
    pub height: u32,
    /// Four bytes for each pixel, from the top row down.
    pub pixels: Vec<u8>,
}

/// An imported image as a value of the specification.
pub struct TextureModel {
    pub name: Seq<char>,
    pub source: Seq<char>,
    pub width: u32,
    pub height: u32,
    pub pixels: Seq<u8>,
}

impl View for TextureAsset {
    type V = TextureModel;

    open spec fn view(&self) -> TextureModel {
        TextureModel {
            name: self.name@,
            source: self.source@,
            width: self.width,
            height: self.height,
            pixels: self.pixels@,
        }
    }
}

/// The values of imported images.
pub open spec fn texture_models(list: Seq<TextureAsset>) -> Seq<TextureModel> {
    list.map_values(|t: TextureAsset| t@)
}

/// What the browser holds.
pub struct AssetBrowser {
    pub textures: Vec<TextureAsset>,
    pub meshes: Vec<MeshAsset>,
    pub materials: Vec<MaterialAsset>,
    pub active_tab: Tab,
    /// Which kinds of materials are shown.
    pub material_kind_filter: [bool; 4],
}

impl Default for AssetBrowser {
    /// Nothing was imported yet; materials of every kind are shown.
    fn default() -> (r: AssetBrowser)
        ensures
            r.textures@.len() == 0,
            r.meshes@.len() == 0,
            r.materials@.len() == 0,
            r.active_tab == Tab::Textures,
            forall|i: int| 0 <= i < 4 ==> #[trigger] r.material_kind_filter@[i],
    {
        AssetBrowser {
            textures: Vec::new(),
            meshes: Vec::new(),
            materials: Vec::new(),
            active_tab: Tab::Textures,
            material_kind_filter: [true, true, true, true],
        }
    }
}

/// A file by its path and by where it really is.
pub struct Located<'a> {
    pub path: &'a str,
    pub target: &'a str,
}

/// Whether an imported image comes from a file: it has its path, or it really is the same
/// file.
pub open spec fn comes_from(
    source: Seq<char>,
    real_source: Option<String>,
    path: Seq<char>,
    target: Seq<char>,
) -> bool {
    same_path(source, path) || match real_source {
        Some(p) => same_path(p@, target),
        None => false,
    }
}

/// The first imported image that comes from a file, from the `from`th on.
pub open spec fn index_from(
    textures: Seq<TextureModel>,
    real_sources: Seq<Option<String>>,
    path: Seq<char>,
    target: Seq<char>,
    from: nat,
) -> Option<nat>
    decreases textures.len() - from,
{
    if from >= textures.len() {
        None
    } else if comes_from(textures[from as int].source, real_sources[from as int], path, target) {
        Some(from)
    } else {
        index_from(textures, real_sources, path, target, from + 1)
    }
}

impl AssetBrowser {
    /// The imported image that comes from a file. `real_sources` says of each image where
    /// its file really is, if it still exists.
    pub fn texture_index_for_source(
        &self,
        file: &Located,
        real_sources: &Vec<Option<String>>,
    ) -> (r: Option<usize>)
        requires
            real_sources@.len() == self.textures@.len(),
        ensures
            match r {
                Some(i) => i < self.textures@.len() && index_from(
                    texture_models(self.textures@),
                    real_sources@,
                    file.path@,
                    file.target@,
                    0,
                ) == Some(i as nat),
                None => index_from(
                    texture_models(self.textures@),
                    real_sources@,
                    file.path@,
                    file.target@,
                    0,
                ) is None,
            },
    {
        let mut i: usize = 0;
        while i < self.textures.len()
            invariant
                i <= self.textures@.len() == real_sources@.len(),
                index_from(
                    texture_models(self.textures@),
                    real_sources@,
                    file.path@,
                    file.target@,
                    0,
                ) == index_from(
                    texture_models(self.textures@),
                    real_sources@,
                    file.path@,
                    file.target@,
                    i as nat,
                ),
            decreases self.textures@.len() - i,
        {
            proof {
                assert(texture_models(self.textures@)[i as int] == self.textures@[i as int]@);
            }
            if paths_equal(self.textures[i].source.as_str(), file.path) {
                return Some(i);
            }
            match &real_sources[i] {
                Some(p) => {
                    if paths_equal(p.as_str(), file.target) {
                        return Some(i);
                    }
                },
                None => {},
            }
            i = i + 1;
        }
        None
    }

    /// Takes in an image that was read from a file. Returns its place.
    pub fn import_texture(&mut self, path: &str, width: u32, height: u32, pixels: Vec<u8>) -> (r:
        usize)
        ensures
            r == old(self).textures@.len(),
            texture_models(final(self).textures@) == texture_models(old(self).textures@).push(
                TextureModel {
                    name: stem_or(path@, "texture"@),
                    source: path@,
                    width,
                    height,
                    pixels: pixels@,
                },
            ),
            final(self).meshes == old(self).meshes,
            final(self).materials == old(self).materials,
            final(self).active_tab == old(self).active_tab,
            final(self).material_kind_filter == old(self).material_kind_filter,
    {
        let ghost before = self.textures@;
        let at: usize = self.textures.len();
        let asset = TextureAsset {
            name: texture_name(path),
            source: String::from_str(path),
            width,
            height,
            pixels,
        };
        let ghost model = asset@;
        self.textures.push(asset);
        proof {
            assert(texture_models(self.textures@) =~= texture_models(before).push(model));
        }
        at
    }
}

/// Where no image comes from a file, one more image that does is the one that is found: an
/// import that looks first never takes a file in twice.
pub proof fn imported_texture_is_found(
    textures: Seq<TextureModel>,
    real_sources: Seq<Option<String>>,
    added: TextureModel,
    real_source: Option<String>,
    target: Seq<char>,
    from: nat,
)
    requires
        real_sources.len() == textures.len(),
        from <= textures.len(),
        index_from(textures, real_sources, added.source, target, from) is None,
    ensures
        index_from(
            textures.push(added),
            real_sources.push(real_source),
            added.source,
            target,
            from,
        ) == Some(textures.len()),
    decreases textures.len() - from,
{
    if from < textures.len() {
        assert(textures.push(added)[from as int] == textures[from as int]);
        assert(real_sources.push(real_source)[from as int] == real_sources[from as int]);
        imported_texture_is_found(
            textures,
            real_sources,
            added,
            real_source,
            target,
            from + 1,
        );
    }
}

/// The place of a kind of material among all kinds.
pub fn kind_index(kind: MaterialKind) -> (r: usize)
    ensures
        r < 4,
        MaterialKind::ALL@[r as int] == kind,
{
    match kind {
        MaterialKind::UsdPreviewSurface => 0,
        MaterialKind::MaterialX => 1,
        MaterialKind::DlPrincipled => 2,
        MaterialKind::Other => 3,
    }
}

/// Whether the materials of a kind are shown.
pub open spec fn kind_is_shown(filter: [bool; 4], kind: MaterialKind) -> bool {
    exists|i: int| 0 <= i < 4 && #[trigger] MaterialKind::ALL@[i] == kind && filter@[i]
}

/// Which of the first `n` materials are shown.
pub open spec fn shown_spec(materials: Seq<MaterialAsset>, filter: [bool; 4], n: nat) -> Seq<usize>
    decreases n,
{
    if n == 0 {
        Seq::empty()
    } else {
        let front = shown_spec(materials, filter, (n - 1) as nat);
        if kind_is_shown(filter, materials[n - 1].kind) {
            front.push((n - 1) as usize)
        } else {
            front
        }
    }
}

/// Which materials are shown.
pub fn shown_materials(materials: &Vec<MaterialAsset>, filter: [bool; 4]) -> (r: Vec<usize>)
    ensures
        r@ == shown_spec(materials@, filter, materials@.len()),
{
    let mut out: Vec<usize> = Vec::new();
    let mut i: usize = 0;
    while i < materials.len()
        invariant
            i <= materials@.len(),
            out@ == shown_spec(materials@, filter, i as nat),
        decreases materials@.len() - i,
    {
        let kind = materials[i].kind;
        let k: usize = kind_index(kind);
        let shown = filter[k];
        proof {
            assert(shown == kind_is_shown(filter, kind)) by {
                if kind_is_shown(filter, kind) {
                    let j = choose|j: int|
                        0 <= j < 4 && #[trigger] MaterialKind::ALL@[j] == kind && filter@[j];
                    assert(j == k) by {
                        assert(j == 0 || j == 1 || j == 2 || j == 3);
                    }
                }
                if shown {
                    assert(MaterialKind::ALL@[k as int] == kind && filter@[k as int]);
                }
            }
        }
        if shown {
            out.push(i);
        }
        i = i + 1;
    }
    out
}

/// Where a bundled file may be: as it is named, below the working folder, below the folders
/// above the program, and below the folder of the sources.
pub open spec fn candidates_spec(
    rel: Seq<char>,
    cwd: Option<Seq<char>>,
    exe: Option<Seq<char>>,
    sources: Seq<char>,
) -> Seq<Seq<char>> {
    let above = folders_above(exe);
    seq![rel] + (match cwd {
        Some(dir) => seq![join(dir, rel)],
        None => Seq::empty(),
    }) + Seq::new(above.len(), |i: int| join(above[i], rel)) + seq![join(sources, rel)]
}

/// Whether a list holds a path.
pub open spec fn has_path(list: Seq<Seq<char>>, p: Seq<char>) -> bool {
    exists|i: int| 0 <= i < list.len() && same_path(#[trigger] list[i], p)
}

/// The paths of a list, each where it first comes.
pub open spec fn first_paths(list: Seq<Seq<char>>) -> Seq<Seq<char>>
    decreases list.len(),
{
    if list.len() == 0 {
        Seq::empty()
    } else {
        let front = first_paths(list.drop_last());
        if has_path(front, list.last()) {
            front
        } else {
            front.push(list.last())
        }
    }
}

/// No path comes twice in a list of first paths.
pub proof fn first_paths_differ(list: Seq<Seq<char>>)
    ensures
        forall|i: int, j: int|
            0 <= i < j < first_paths(list).len() ==> !same_path(
                #[trigger] first_paths(list)[i],
                #[trigger] first_paths(list)[j],
            ),
    decreases list.len(),
{
    if list.len() > 0 {
        let front = first_paths(list.drop_last());
        let all = first_paths(list);
        first_paths_differ(list.drop_last());
        assert forall|i: int, j: int| 0 <= i < j < all.len() implies !same_path(
            #[trigger] all[i],
            #[trigger] all[j],
        ) by {
            assert(all[i] == front[i]);
            if j < front.len() {
                assert(all[j] == front[j]);
            } else {
                assert(!has_path(front, list.last()));
            }
        }
    }
}

/// Every path of a list is still there in the list of first paths, and no other is.
pub proof fn first_paths_keep_every_path(list: Seq<Seq<char>>, p: Seq<char>)
    ensures
        list.contains(p) ==> has_path(first_paths(list), p),
        first_paths(list).contains(p) ==> list.contains(p),
    decreases list.len(),
{
    if list.len() > 0 {
        let front = list.drop_last();
        let before = first_paths(front);
        let all = first_paths(list);
        first_paths_keep_every_path(front, p);
        assert forall|i: int| 0 <= i < before.len() implies all[i] == #[trigger] before[i] by {}
        if list.contains(p) {
            let k = choose|k: int| 0 <= k < list.len() && list[k] == p;
            if k == list.len() - 1 {
                if !has_path(before, p) {
                    assert(same_path(all[before.len() as int], p));
                }
            } else {
                assert(front[k] == p);
            }
            if has_path(before, p) {
                let i = choose|i: int| 0 <= i < before.len() && same_path(#[trigger] before[i], p);
                assert(same_path(all[i], p));
            }
        }
        if all.contains(p) {
            let i = choose|i: int| 0 <= i < all.len() && all[i] == p;
            if i < before.len() {
                assert(before.contains(p));
                let k = choose|k: int| 0 <= k < front.len() && front[k] == p;
                assert(list[k] == p);
            } else {
                assert(list[list.len() - 1] == p);
            }
        }
    }
}

/// Whether a list holds a path.
pub fn holds_path(list: &Vec<String>, p: &str) -> (r: bool)
    ensures
        r == has_path(views(list@), p@),
{
    let mut i: usize = 0;
    while i < list.len()
        invariant
            i <= list@.len(),
            forall|k: int| 0 <= k < i ==> !same_path(#[trigger] views(list@)[k], p@),
        decreases list@.len() - i,
    {
        if paths_equal(list[i].as_str(), p) {
            proof {
                assert(same_path(views(list@)[i as int], p@));
            }
            return true;
        }
        i = i + 1;
    }
    false
}

/// The paths of a list, each where it first comes.
pub fn dedup_paths(list: &Vec<String>) -> (r: Vec<String>)
    ensures
        views(r@) == first_paths(views(list@)),
{
    let ghost all = views(list@);
    let mut out: Vec<String> = Vec::new();
    let mut i: usize = 0;
    proof {
        assert(views(out@) =~= first_paths(all.take(0)));
    }
    while i < list.len()
        invariant
            i <= list@.len(),
            all == views(list@),
            views(out@) == first_paths(all.take(i as int)),
        decreases list@.len() - i,
    {
        let ghost before = out@;
        proof {
            assert(all.take(i + 1).drop_last() =~= all.take(i as int));
            assert(all.take(i + 1).last() == list@[i as int]@);
        }
        if !holds_path(&out, list[i].as_str()) {
            out.push(String::from_str(list[i].as_str()));
            proof {
                assert(views(out@) =~= views(before).push(list@[i as int]@));
            }
        }
        i = i + 1;
    }
    proof {
        assert(all.take(all.len() as int) =~= all);
    }
    out
}

/// Where a bundled file may be, in the order in which it is looked for.
pub fn bundled_asset_candidates(
    rel: &str,
    cwd: Option<&str>,
    exe: Option<&str>,
    sources: &str,
) -> (r: Vec<String>)
    ensures
        views(r@) == first_paths(
            candidates_spec(
                rel@,
                (match cwd {
                    Some(s) => Some(s@),
                    None => None,
                }),
                (match exe {
                    Some(s) => Some(s@),
                    None => None,
                }),
                sources@,
            ),
        ),
{
    let above = folders_above_program(exe);
    let ghost dirs = views(above@);
    let mut out: Vec<String> = Vec::new();
    out.push(String::from_str(rel));
    match cwd {
        Some(dir) => out.push(join_path(dir, rel)),
        None => {},
    }
    let ghost head = seq![rel@] + (match cwd {
        Some(dir) => seq![join(dir@, rel@)],
        None => Seq::empty(),
    });
    proof {
        assert(views(out@) =~= head + Seq::new(0, |k: int| join(dirs[k], rel@)));
    }
    let mut i: usize = 0;
    while i < above.len()
        invariant
            i <= above@.len(),
            dirs == views(above@),
            views(out@) == head + Seq::new(i as nat, |k: int| join(dirs[k], rel@)),
        decreases above@.len() - i,
    {
        let ghost before = out@;
        out.push(join_path(above[i].as_str(), rel));
        proof {
            assert(views(out@) =~= views(before).push(join(dirs[i as int], rel@)));
            assert(views(out@) =~= head + Seq::new((i + 1) as nat, |k: int| join(dirs[k], rel@)));
        }
        i = i + 1;
    }
    let ghost before = out@;
    out.push(join_path(sources, rel));
    proof {
        assert(views(out@) =~= views(before).push(join(sources@, rel@)));
        assert(views(out@) =~= candidates_spec(
            rel@,
            match cwd {
                Some(s) => Some(s@),
                None => None,
            },
            match exe {
                Some(s) => Some(s@),
                None => None,
            },
            sources@,
        ));
    }
    dedup_paths(&out)
}

/// What is opened at the start: what the user named, or the mesh that was set as the default
/// if it exists, or the bundled one.
pub fn initial_open(
    named: Option<String>,
    default_mesh: Option<String>,
    default_exists: bool,
    bundled: Option<String>,
) -> (r: Option<String>)
    ensures
        r == (match named {
            Some(path) => Some(path),
            None => match default_mesh {
                Some(path) => if default_exists {
                    Some(path)
                } else {
                    bundled
                },
                None => bundled,
            },
        }),
{
    match named {
        Some(path) => Some(path),
        None => match default_mesh {
            Some(path) => if default_exists {
                Some(path)
            } else {
                bundled
            },
            None => bundled,
        },
    }
}

/// What kind of bundled file is looked for.
#[derive(Clone, Copy, Debug, PartialEq, Eq, Structural)]
pub enum BundledKind {
    Image,
    Mesh,
}

/// Whether the extension of a path, in any case, is one of those of a kind of file.
pub open spec fn is_bundled(path: Seq<char>, kind: BundledKind) -> bool {
    match extension(path) {
        None => false,
        Some(e) => match kind {
            BundledKind::Image => lower(e) == "png"@ || lower(e) == "jpg"@ || lower(e) == "jpeg"@
                || lower(e) == "exr"@,
            BundledKind::Mesh => lower(e) == "usd"@ || lower(e) == "usda"@ || lower(e) == "usdc"@
                || lower(e) == "usdz"@,
        },
    }
}

/// Whether a path is that of a kind of file.
pub fn is_bundled_file(path: &str, kind: BundledKind) -> (r: bool)
    ensures
        r == is_bundled(path@, kind),
{
    match extension_of_path(path) {
        None => false,
        Some(e) => {
            let l = to_lower(e.as_str());
            let l = l.as_str();
            match kind {
                BundledKind::Image => same_text(l, "png") || same_text(l, "jpg") || same_text(
                    l,
                    "jpeg",
                ) || same_text(l, "exr"),
                BundledKind::Mesh => same_text(l, "usd") || same_text(l, "usda") || same_text(
                    l,
                    "usdc",
                ) || same_text(l, "usdz"),
            }
        },
    }
}

/// The entries of an order that are files of a kind.
pub open spec fn bundled_in(
    order: Seq<usize>,
    paths: Seq<Seq<char>>,
    kind: BundledKind,
    n: nat,
) -> Seq<usize>
    decreases n,
{
    if n == 0 {
        Seq::empty()
    } else {
        let front = bundled_in(order, paths, kind, (n - 1) as nat);
        if is_bundled(paths[order[n - 1] as int], kind) {
            front.push(order[n - 1])
        } else {
            front
        }
    }
}

/// The files of a kind in a folder, in the order of their paths.
pub fn bundled_files(paths: &Vec<String>, kind: BundledKind) -> (r: Vec<usize>)
    ensures
        exists|order: Seq<usize>|
            sorts(
                order,
                Seq::new(paths@.len(), |i: int| path_key(paths@[i]@)),
                paths@.len(),
            ) && r@ == #[trigger] bundled_in(order, views(paths@), kind, paths@.len()),
        forall|i: int|
            0 <= i < r@.len() ==> #[trigger] r@[i] < paths@.len() && is_bundled(
                paths@[r@[i] as int]@,
                kind,
            ),
{
    let order = order_by_path(paths);
    let mut out: Vec<usize> = Vec::new();
    let mut i: usize = 0;
    while i < order.len()
        invariant
            i <= order@.len() == paths@.len(),
            sorts(
                order@,
                Seq::new(paths@.len(), |i: int| path_key(paths@[i]@)),
                paths@.len(),
            ),
            out@ == bundled_in(order@, views(paths@), kind, i as nat),
            forall|k: int|
                0 <= k < out@.len() ==> #[trigger] out@[k] < paths@.len() && is_bundled(
                    paths@[out@[k] as int]@,
                    kind,
                ),
        decreases order@.len() - i,
    {
        let at: usize = order[i];
        if is_bundled_file(paths[at].as_str(), kind) {
            out.push(at);
        }
        i = i + 1;
    }
    out
}

/// The mesh files of a folder, as they are listed.
pub fn mesh_assets(paths: &Vec<String>) -> (r: Vec<MeshAsset>)
    ensures
        exists|order: Seq<usize>|
            sorts(
                order,
                Seq::new(paths@.len(), |i: int| path_key(paths@[i]@)),
                paths@.len(),
            ) && {
                let files = #[trigger] bundled_in(
                    order,
                    views(paths@),
                    BundledKind::Mesh,
                    paths@.len(),
                );
                &&& r@.len() == files.len()
                &&& forall|i: int|
                    0 <= i < files.len() ==> (#[trigger] r@[i]).path@ == paths@[files[i] as int]@
                        && r@[i].name@ == stem_or(paths@[files[i] as int]@, "mesh"@)
            },
{
    let files = bundled_files(paths, BundledKind::Mesh);
    let mut out: Vec<MeshAsset> = Vec::new();
    let mut i: usize = 0;
    while i < files.len()
        invariant
            i <= files@.len(),
            out@.len() == i,
            forall|k: int| 0 <= k < files@.len() ==> #[trigger] files@[k] < paths@.len(),
            forall|k: int|
                0 <= k < i ==> (#[trigger] out@[k]).path@ == paths@[files@[k] as int]@
                    && out@[k].name@ == stem_or(paths@[files@[k] as int]@, "mesh"@),
        decreases files@.len() - i,
    {
        let at: usize = files[i];
        let path = paths[at].as_str();
        out.push(MeshAsset { name: stem_of_or(path, "mesh"), path: String::from_str(path) });
        i = i + 1;
    }
    out
}

/// What is said after bundled files were looked for, if any were found.
pub fn scan_status(images: usize, meshes: usize) -> (r: Option<String>)
    ensures
        match r {
            Some(text) => (images > 0 || meshes > 0) && text@ == "Imported "@ + decimal(
                images as nat,
            ) + " texture(s), "@ + decimal(meshes as nat) + " mesh(es)"@,
            None => images == 0 && meshes == 0,
        },
{
    if images > 0 || meshes > 0 {
        Some(
            String::from_str("Imported ").concat(decimal_text(images as u64).as_str()).concat(
                " texture(s), ",
            ).concat(decimal_text(meshes as u64).as_str()).concat(" mesh(es)"),
        )
    } else {
        None
    }
}

/// Where an image is put on a layer.
#[derive(Clone, Copy, Debug, PartialEq, Eq, Structural)]
pub enum ImageTarget {
    Slot(MaterialSlot),
    Mask,
}

/// Why an image cannot be put on a layer, if it cannot: a mask has to be there, and tiles.
pub open spec fn refusal(target: ImageTarget, has_mask: bool, tile_count: u32) -> Option<Seq<char>> {
    if target == ImageTarget::Mask && !has_mask {
        Some("layer has no mask"@)
    } else if tile_count == 0 {
        Some("layer has no tiles"@)
    } else {
        None
    }
}

/// Whether an image can be put on a layer.
pub fn check_apply(target: ImageTarget, has_mask: bool, tile_count: u32) -> (r: Result<(), String>)
    ensures
        match r {
            Ok(_) => refusal(target, has_mask, tile_count) is None,
            Err(e) => refusal(target, has_mask, tile_count) == Some(e@),
        },
{
    if target == ImageTarget::Mask && !has_mask {
        Err(String::from_str("layer has no mask"))
    } else if tile_count == 0 {
        Err(String::from_str("layer has no tiles"))
    } else {
        Ok(())
    }
}

/// What the user asks of an image.
#[derive(Clone, Copy, Debug, PartialEq, Eq, Structural)]
pub enum AssetAction {
    NewLayer,
    ApplyBaseColor,
    ApplyMask,
}

impl AssetAction {
    /// Where the image is put.
    pub open spec fn target_spec(self) -> ImageTarget {
        match self {
            AssetAction::ApplyMask => ImageTarget::Mask,
            _ => ImageTarget::Slot(MaterialSlot::BaseColor),
        }
    }

    /// Where the image is put.
    pub fn target(self) -> (r: ImageTarget)
        ensures
            r == self.target_spec(),
    {
        match self {
            AssetAction::ApplyMask => ImageTarget::Mask,
            _ => ImageTarget::Slot(MaterialSlot::BaseColor),
        }
    }

    /// What is said afterwards.
    pub open spec fn done_text(self, name: Seq<char>) -> Seq<char> {
        match self {
            AssetAction::NewLayer => "Created layer from '"@ + name + "'"@,
            AssetAction::ApplyBaseColor => "Applied '"@ + name + "' as base color"@,
            AssetAction::ApplyMask => "Applied '"@ + name + "' as mask"@,
        }
    }

    /// What is said afterwards.
    fn done(self, name: &str) -> (r: String)
        ensures
            r@ == self.done_text(name@),
    {
        match self {
            AssetAction::NewLayer => String::from_str("Created layer from '").concat(
                name,
            ).concat("'"),
            AssetAction::ApplyBaseColor => String::from_str("Applied '").concat(name).concat(
                "' as base color",
            ),
            AssetAction::ApplyMask => String::from_str("Applied '").concat(name).concat(
                "' as mask",
            ),
        }
    }

    /// Makes the layers ready for an image: adds a layer, or a mask to the layer that is
    /// worked on, as the action needs it. Says what follows: the text that is shown, and, if
    /// the image can be put there, on which layer.
    pub fn prepare(self, stack: &mut LayerStack, name: &str, tile_count: u32) -> (r: (
        Option<usize>,
        String,
    ))
        requires
            old(stack).wf(),
            2 * old(stack).layers@.len() < usize::MAX,
        ensures
            final(stack).wf(),
            final(stack).same_canvas(*old(stack)),
            r.0 == (if tile_count > 0 {
                Some(final(stack).active)
            } else {
                None
            }),
            r.1@ == (if tile_count > 0 {
                self.done_text(name@)
            } else {
                "Apply failed: layer has no tiles"@
            }),
            match self {
                AssetAction::NewLayer => {
                    &&& final(stack).active == old(stack).layers@.len()
                    &&& exists|at: nat|
                        is_first_free(
                            layer_models(old(stack).layers@),
                            "Layer"@,
                            old(stack).layers@.len() + 1,
                            at,
                        ) && layer_models(final(stack).layers@) == layer_models(
                            old(stack).layers@,
                        ).push(
                            LayerModel::fresh(#[trigger] numbered("Layer"@, at), LayerKind::Paint),
                        )
                },
                AssetAction::ApplyBaseColor => *final(stack) == *old(stack),
                AssetAction::ApplyMask => {
                    &&& final(stack).active == old(stack).active
                    &&& layer_models(final(stack).layers@) == layer_models(
                        old(stack).layers@,
                    ).update(
                        old(stack).active as int,
                        layer_models(old(stack).layers@)[old(stack).active as int].with_mask(),
                    )
                },
            },
    {
        match self {
            AssetAction::NewLayer => stack.add_layer(),
            AssetAction::ApplyBaseColor => {},
            AssetAction::ApplyMask => {
                let at: usize = stack.active;
                stack.add_mask_to(at);
            },
        }
        if tile_count == 0 {
            (None, String::from_str("Apply failed: layer has no tiles"))
        } else {
            (Some(stack.active), self.done(name))
        }
    }
}

/// What is said after an image was put into a slot of a layer, or could not be.
pub fn slot_status(slot: MaterialSlot, name: &str, layer: &str, tile_count: u32) -> (r: String)
    ensures
        r@ == (if tile_count > 0 {
            "Assigned '"@ + name@ + "' to "@ + slot.label_text() + " on '"@ + layer@ + "'"@
        } else {
            "Slot assign failed: layer has no tiles"@
        }),
{
    if tile_count == 0 {
        String::from_str("Slot assign failed: layer has no tiles")
    } else {
        String::from_str("Assigned '").concat(name).concat("' to ").concat(slot.label()).concat(
            " on '",
        ).concat(layer).concat("'")
    }
}

/// An image of the stage on a tile of a layer.
#[derive(Clone, Copy, Debug, PartialEq, Eq, Structural)]
pub struct Placement {
    pub texture: usize,
    pub asset: usize,
    pub slot: MaterialSlot,
    pub layer: u32,
}

/// Whether an image is already on a tile in a slot.
pub open spec fn is_placed(
    done: Seq<Placement>,
    textures: Seq<ResolvedModel>,
    slot: MaterialSlot,
    layer: u32,
    path: Seq<char>,
) -> bool {
    exists|i: int|
        0 <= i < done.len() && (#[trigger] done[i]).slot == slot && done[i].layer == layer
            && same_path(textures[done[i].texture as int].path, path)
}

/// The placements with an image on the first `n` of some tiles, where it is not yet.
pub open spec fn with_layers(
    done: Seq<Placement>,
    textures: Seq<ResolvedModel>,
    new: Placement,
    layers: Seq<u32>,
    n: nat,
) -> Seq<Placement>
    decreases n,
{
    if n == 0 {
        done
    } else {
        let front = with_layers(done, textures, new, layers, (n - 1) as nat);
        let layer = layers[n - 1];
        if is_placed(front, textures, new.slot, layer, textures[new.texture as int].path) {
            front
        } else {
            front.push(Placement { layer, ..new })
        }
    }
}

/// The tiles that an image is for: the one it is named after, if there is that tile, or all
/// of them.
pub open spec fn wanted_layers(tiles: Seq<u32>, udim: Option<u32>) -> Seq<u32> {
    match udim {
        Some(tile) => if tiles.contains(tile) {
            seq![tiles.index_of_first(tile)->0 as u32]
        } else {
            Seq::empty()
        },
        None => Seq::new(tiles.len(), |i: int| i as u32),
    }
}

/// Where the first `n` images of a stage are put: those for a slot that were imported, each
/// on the tiles that it is for.
pub open spec fn placements(
    textures: Seq<ResolvedModel>,
    assets: Seq<Option<usize>>,
    tiles: Seq<u32>,
    n: nat,
) -> Seq<Placement>
    decreases n,
{
    if n == 0 {
        Seq::empty()
    } else {
        let front = placements(textures, assets, tiles, (n - 1) as nat);
        match (textures[n - 1].slot, assets[n - 1]) {
            (Some(slot), Some(asset)) => {
                let layers = wanted_layers(tiles, textures[n - 1].udim);
                with_layers(
                    front,
                    textures,
                    Placement { texture: (n - 1) as usize, asset, slot, layer: 0 },
                    layers,
                    layers.len(),
                )
            },
            _ => front,
        }
    }
}

/// Whether an image is already on a tile in a slot.
fn placed(
    done: &Vec<Placement>,
    textures: &Vec<ResolvedStageTexture>,
    slot: MaterialSlot,
    layer: u32,
    path: &str,
) -> (r: bool)
    requires
        forall|i: int| 0 <= i < done@.len() ==> (#[trigger] done@[i]).texture < textures@.len(),
    ensures
        r == is_placed(done@, resolved_models(textures@), slot, layer, path@),
{
    let ghost models = resolved_models(textures@);
    let mut i: usize = 0;
    while i < done.len()
        invariant
            i <= done@.len(),
            models == resolved_models(textures@),
            forall|i: int| 0 <= i < done@.len() ==> (#[trigger] done@[i]).texture < textures@.len(),
            forall|k: int|
                0 <= k < i ==> !((#[trigger] done@[k]).slot == slot && done@[k].layer == layer
                    && same_path(models[done@[k].texture as int].path, path@)),
        decreases done@.len() - i,
    {
        let p = done[i];
        if p.slot == slot && p.layer == layer && paths_equal(
            textures[p.texture].path.as_str(),
            path,
        ) {
            proof {
                assert(models[p.texture as int].path == textures@[p.texture as int].path@);
            }
            return true;
        }
        i = i + 1;
    }
    false
}

/// The tiles that an image is for.
fn layers_for(target: &PaintTarget, udim: Option<u32>) -> (r: Vec<u32>)
    requires
        target.wf(),
    ensures
        r@ == wanted_layers(target.tiles@, udim),
{
    let mut out: Vec<u32> = Vec::new();
    match udim {
        Some(tile) => match target.layer_for_tile(tile) {
            Some(layer) => {
                out.push(layer);
                proof {
                    let tiles = target.tiles@;
                    assert(tiles.contains(tile));
                    tiles.index_of_first_ensures(tile);
                    let k = tiles.index_of_first(tile)->0;
                    assert(tiles[k] == tiles[layer as int]);
                    assert(k == layer) by {
                        if k < layer {
                            assert(tiles[k] < tiles[layer as int]);
                        } else if k > layer {
                            assert(tiles[layer as int] < tiles[k]);
                        }
                    }
                    assert(out@ =~= seq![k as u32]);
                }
            },
            None => {},
        },
        None => {
            let mut i: u32 = 0;
            let n: u32 = target.tiles.len() as u32;
            while i < n
                invariant
                    i <= n,
                    n == target.tiles@.len(),
                    out@ == Seq::new(i as nat, |k: int| k as u32),
                decreases n - i,
            {
                out.push(i);
                proof {
                    assert(out@ =~= Seq::new((i + 1) as nat, |k: int| k as u32));
                }
                i = i + 1;
            }
        },
    }
    out
}

/// Puts an image on tiles where it is not yet.
fn place_on(
    done: &mut Vec<Placement>,
    textures: &Vec<ResolvedStageTexture>,
    new: Placement,
    layers: &Vec<u32>,
)
    requires
        new.texture < textures@.len(),
        forall|i: int|
            0 <= i < old(done)@.len() ==> (#[trigger] old(done)@[i]).texture < textures@.len(),
    ensures
        final(done)@ == with_layers(
            old(done)@,
            resolved_models(textures@),
            new,
            layers@,
            layers@.len(),
        ),
        forall|i: int|
            0 <= i < final(done)@.len() ==> (#[trigger] final(done)@[i]).texture < textures@.len(),
{
    let ghost start = done@;
    let ghost models = resolved_models(textures@);
    let mut k: usize = 0;
    while k < layers.len()
        invariant
            k <= layers@.len(),
            new.texture < textures@.len(),
            models == resolved_models(textures@),
            done@ == with_layers(start, models, new, layers@, k as nat),
            forall|i: int| 0 <= i < done@.len() ==> (#[trigger] done@[i]).texture < textures@.len(),
        decreases layers@.len() - k,
    {
        let layer: u32 = layers[k];
        proof {
            assert(models[new.texture as int].path == textures@[new.texture as int].path@);
        }
        if !placed(done, textures, new.slot, layer, textures[new.texture].path.as_str()) {
            done.push(
                Placement { texture: new.texture, asset: new.asset, slot: new.slot, layer },
            );
        }
        k = k + 1;
    }
}

/// Where the images of a stage are put.
pub fn plan_placements(
    textures: &Vec<ResolvedStageTexture>,
    assets: &Vec<Option<usize>>,
    target: &PaintTarget,
) -> (r: Vec<Placement>)
    requires
        target.wf(),
        assets@.len() == textures@.len(),
    ensures
        r@ == placements(
            resolved_models(textures@),
            assets@,
            target.tiles@,
            textures@.len(),
        ),
{
    let ghost models = resolved_models(textures@);
    let mut done: Vec<Placement> = Vec::new();
    let mut i: usize = 0;
    while i < textures.len()
        invariant
            i <= textures@.len() == assets@.len(),
            target.wf(),
            models == resolved_models(textures@),
            done@ == placements(models, assets@, target.tiles@, i as nat),
            forall|k: int| 0 <= k < done@.len() ==> (#[trigger] done@[k]).texture < textures@.len(),
        decreases textures@.len() - i,
    {
        proof {
            assert(models[i as int] == textures@[i as int]@);
        }
        match (textures[i].slot, assets[i]) {
            (Some(slot), Some(asset)) => {
                let layers = layers_for(target, textures[i].udim);
                place_on(
                    &mut done,
                    textures,
                    Placement { texture: i, asset, slot, layer: 0 },
                    &layers,
                );
            },
            _ => {},
        }
        i = i + 1;
    }
    done
}

/// Two placements put the same image on the same tile in the same slot.
pub open spec fn is_same_placement(
    a: Placement,
    b: Placement,
    textures: Seq<ResolvedModel>,
) -> bool {
    a.slot == b.slot && a.layer == b.layer && same_path(
        textures[a.texture as int].path,
        textures[b.texture as int].path,
    )
}

/// No image is put on a tile twice in the same slot.
pub proof fn images_are_placed_once(
    textures: Seq<ResolvedModel>,
    assets: Seq<Option<usize>>,
    tiles: Seq<u32>,
    n: nat,
)
    requires
        n <= usize::MAX,
    ensures
        forall|i: int, j: int|
            0 <= i < j < placements(textures, assets, tiles, n).len() ==> !is_same_placement(
                #[trigger] placements(textures, assets, tiles, n)[i],
                #[trigger] placements(textures, assets, tiles, n)[j],
                textures,
            ),
    decreases n,
{
    if n > 0 {
        let front = placements(textures, assets, tiles, (n - 1) as nat);
        let all = placements(textures, assets, tiles, n);
        images_are_placed_once(textures, assets, tiles, (n - 1) as nat);
        if textures[n - 1].slot is Some && assets[n - 1] is Some {
            let layers = wanted_layers(tiles, textures[n - 1].udim);
            let new = Placement {
                texture: (n - 1) as usize,
                asset: assets[n - 1]->0,
                slot: textures[n - 1].slot->0,
                layer: 0,
            };
            layers_are_placed_once(front, textures, new, layers, layers.len());
            assert(all == with_layers(front, textures, new, layers, layers.len()));
        } else {
            assert(all == front);
        }
    }
}

/// Putting an image on tiles where it is not yet puts it nowhere twice.
proof fn layers_are_placed_once(
    done: Seq<Placement>,
    textures: Seq<ResolvedModel>,
    new: Placement,
    layers: Seq<u32>,
    n: nat,
)
    requires
        forall|i: int, j: int|
            0 <= i < j < done.len() ==> !is_same_placement(
                #[trigger] done[i],
                #[trigger] done[j],
                textures,
            ),
    ensures
        forall|i: int, j: int|
            0 <= i < j < with_layers(done, textures, new, layers, n).len() ==> !is_same_placement(
                #[trigger] with_layers(done, textures, new, layers, n)[i],
                #[trigger] with_layers(done, textures, new, layers, n)[j],
                textures,
            ),
    decreases n,
{
    if n > 0 {
        layers_are_placed_once(done, textures, new, layers, (n - 1) as nat);
        let front = with_layers(done, textures, new, layers, (n - 1) as nat);
        let all = with_layers(done, textures, new, layers, n);
        assert forall|i: int, j: int| 0 <= i < j < all.len() implies !is_same_placement(
            #[trigger] all[i],
            #[trigger] all[j],
            textures,
        ) by {
            assert(all[i] == front[i]);
            if j < front.len() {
                assert(all[j] == front[j]);
            } else if is_same_placement(all[i], all[j], textures) {
                assert(is_placed(
                    front,
                    textures,
                    new.slot,
                    layers[n - 1],
                    textures[new.texture as int].path,
                ));
            }
        }
    }
}

/// Whether a placement puts an image where it belongs: on the slot that it was found for, with
/// the copy that was imported of it, and on the tile that it is named after, if it is.
pub open spec fn is_in_place(
    p: Placement,
    textures: Seq<ResolvedModel>,
    assets: Seq<Option<usize>>,
    tiles: Seq<u32>,
    n: nat,
) -> bool {
    let t = textures[p.texture as int];
    &&& p.texture < n
    &&& t.slot == Some(p.slot)
    &&& assets[p.texture as int] == Some(p.asset)
    &&& p.layer < tiles.len()
    &&& t.udim matches Some(tile) ==> tiles[p.layer as int] == tile
}

/// Every image of a stage is put where it belongs.
#[verifier::spinoff_prover]
#[verifier::rlimit(40)]
pub proof fn images_are_put_in_their_places(
    textures: Seq<ResolvedModel>,
    assets: Seq<Option<usize>>,
    tiles: Seq<u32>,
    n: nat,
)
    requires
        n <= textures.len() <= usize::MAX,
        textures.len() == assets.len(),
        tiles.len() <= u32::MAX,
    ensures
        forall|i: int|
            0 <= i < placements(textures, assets, tiles, n).len() ==> is_in_place(
                #[trigger] placements(textures, assets, tiles, n)[i],
                textures,
                assets,
                tiles,
                n,
            ),
    decreases n,
{
    if n > 0 {
        let b = (n - 1) as nat;
        images_are_put_in_their_places(textures, assets, tiles, b);
        let front = placements(textures, assets, tiles, b);
        let t = textures[b as int];
        if let (Some(slot), Some(asset)) = (t.slot, assets[b as int]) {
            let layers = wanted_layers(tiles, t.udim);
            let new = Placement { texture: b as usize, asset, slot, layer: 0 };
            assert forall|k: int| 0 <= k < layers.len() implies #[trigger] layers[k] < tiles.len() && (
            t.udim matches Some(tile) ==> tiles[layers[k] as int] == tile) by {
                if let Some(tile) = t.udim {
                    tiles.index_of_first_ensures(tile);
                }
            }
            layers_are_in_place(front, textures, assets, tiles, new, layers, layers.len(), n);
        }
    }
}

/// The same for an image on the first `k` of its tiles.
#[verifier::spinoff_prover]
#[verifier::rlimit(40)]
proof fn layers_are_in_place(
    front: Seq<Placement>,
    textures: Seq<ResolvedModel>,
    assets: Seq<Option<usize>>,
    tiles: Seq<u32>,
    new: Placement,
    layers: Seq<u32>,
    k: nat,
    n: nat,
)
    requires
        k <= layers.len(),
        new.texture + 1 == n,
        textures[new.texture as int].slot == Some(new.slot),
        assets[new.texture as int] == Some(new.asset),
        forall|j: int|
            0 <= j < layers.len() ==> #[trigger] layers[j] < tiles.len() && (
            textures[new.texture as int].udim matches Some(tile) ==> tiles[layers[j] as int] == tile),
        forall|i: int|
            0 <= i < front.len() ==> is_in_place(
                #[trigger] front[i],
                textures,
                assets,
                tiles,
                (n - 1) as nat,
            ),
    ensures
        forall|i: int|
            0 <= i < with_layers(front, textures, new, layers, k).len() ==> is_in_place(
                #[trigger] with_layers(front, textures, new, layers, k)[i],
                textures,
                assets,
                tiles,
                n,
            ),
    decreases k,
{
    let all = with_layers(front, textures, new, layers, k);
    if k == 0 {
        assert forall|i: int| 0 <= i < all.len() implies is_in_place(
            #[trigger] all[i],
            textures,
            assets,
            tiles,
            n,
        ) by {
            assert(is_in_place(front[i], textures, assets, tiles, (n - 1) as nat));
        }
    } else {
        layers_are_in_place(front, textures, assets, tiles, new, layers, (k - 1) as nat, n);
        let before = with_layers(front, textures, new, layers, (k - 1) as nat);
        assert(layers[k - 1] < tiles.len());
        assert forall|i: int| 0 <= i < all.len() implies is_in_place(
            #[trigger] all[i],
            textures,
            assets,
            tiles,
            n,
        ) by {
            if i < before.len() {
                assert(all[i] == before[i]);
            }
        }
    }
}

/// The materials that are shown are those of a kind that is shown, in order, and all of them.
pub proof fn materials_of_shown_kinds_are_shown(
    materials: Seq<MaterialAsset>,
    filter: [bool; 4],
    n: nat,
)
    requires
        n <= materials.len() <= usize::MAX,
    ensures
        forall|i: int|
            0 <= i < shown_spec(materials, filter, n).len() ==> (#[trigger] shown_spec(
                materials,
                filter,
                n,
            )[i]) < n && kind_is_shown(
                filter,
                materials[shown_spec(materials, filter, n)[i] as int].kind,
            ),
        forall|i: int, j: int|
            0 <= i < j < shown_spec(materials, filter, n).len() ==> (#[trigger] shown_spec(
                materials,
                filter,
                n,
            )[i]) < (#[trigger] shown_spec(materials, filter, n)[j]),
        forall|k: int|
            0 <= k < n && kind_is_shown(filter, (#[trigger] materials[k]).kind) ==> shown_spec(
                materials,
                filter,
                n,
            ).contains(k as usize),
    decreases n,
{
    if n > 0 {
        let b = (n - 1) as nat;
        materials_of_shown_kinds_are_shown(materials, filter, b);
        let front = shown_spec(materials, filter, b);
        let all = shown_spec(materials, filter, n);
        assert forall|k: int|
            0 <= k < n && kind_is_shown(filter, (#[trigger] materials[k]).kind) implies all.contains(
            k as usize,
        ) by {
            if k < b {
                assert(front.contains(k as usize));
                let i = choose|i: int| 0 <= i < front.len() && front[i] == k as usize;
                assert(all[i] == k as usize);
            } else {
                assert(all[all.len() - 1] == k as usize);
            }
        }
    }
}

} // verus!
