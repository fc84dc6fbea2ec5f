//! Starting up: converting from the command line, the environment of bundled runs, and where
//! the log goes.

use crate::asset_browser::{dedup_paths, first_paths};
use crate::paths::{
    extension, extension_of_path, file_name, file_name_of, is_absolute, join, join_path, names,
    names_of, parent, parent_of, starts_here,
};
use crate::status::joined;
use crate::text::{
    chars_of, contains, decimal, decimal_text, has_text, lower, opt_view, same_ignoring_case,
    same_text, text_of, to_lower, views,
};
use vstd::prelude::*;

verus! {

/// How a model is converted.
#[derive(Clone, Copy, Debug, PartialEq, Eq, Structural)]
pub enum ConvertRoute {
    Obj,
    Gltf,
    /// By the USD runtime itself.
    Usd,
    Unsupported,
}

/// The extension of a file in small letters; nothing, where it has none.
pub open spec fn lower_extension(path: Seq<char>) -> Seq<char> {
    match extension(path) {
        Some(e) => lower(e),
        None => Seq::empty(),
    }
}

/// The extension of a file in small letters.
fn extension_in_lower(path: &str) -> (r: String)
    ensures
        r@ == lower_extension(path@),
{
    match extension_of_path(path) {
        Some(e) => to_lower(e.as_str()),
        None => {
            let r = String::new();
            proof {
                assert(r@ =~= Seq::<char>::empty());
            }
            r
        },
    }
}

/// How a model with an extension is converted.
pub open spec fn route_of(ext: Seq<char>) -> ConvertRoute {
    if ext == "obj"@ {
        ConvertRoute::Obj
    } else if ext == "gltf"@ || ext == "glb"@ {
        ConvertRoute::Gltf
    } else if ext == "abc"@ || ext == "usd"@ || ext == "usda"@ || ext == "usdc"@ || ext == "usdz"@ {
        ConvertRoute::Usd
    } else {
        ConvertRoute::Unsupported
    }
}

/// How a model is converted.
pub fn convert_route(source: &str) -> (r: ConvertRoute)
    ensures
        r == route_of(lower_extension(source@)),
{
    let ext = extension_in_lower(source);
    let e = ext.as_str();
    if same_text(e, "obj") {
        ConvertRoute::Obj
    } else if same_text(e, "gltf") || same_text(e, "glb") {
        ConvertRoute::Gltf
    } else if same_text(e, "abc") || same_text(e, "usd") || same_text(e, "usda") || same_text(
        e,
        "usdc",
    ) || same_text(e, "usdz") {
        ConvertRoute::Usd
    } else {
        ConvertRoute::Unsupported
    }
}

/// Why a model cannot be converted.
pub fn unsupported_message(source: &str) -> (r: String)
    ensures
        r@ == "unsupported source format `."@ + lower_extension(source@)
            + "` (supported: .obj, .gltf, .glb, .abc, .usd*)"@,
{
    String::from_str("unsupported source format `.").concat(
        extension_in_lower(source).as_str(),
    ).concat("` (supported: .obj, .gltf, .glb, .abc, .usd*)")
}

/// Why the USD runtime could not convert a file.
pub fn usd_failure_message(source: &str, dest: &str) -> (r: String)
    ensures
        r@ == "USD could not open "@ + source@
            + " as a layer (for .abc this needs the usdAbc plugin) or could not write "@ + dest@,
{
    String::from_str("USD could not open ").concat(source).concat(
        " as a layer (for .abc this needs the usdAbc plugin) or could not write ",
    ).concat(dest)
}

/// What was converted, for a model of one mesh.
pub fn obj_detail(vertices: usize, triangles: usize) -> (r: String)
    ensures
        r@ == decimal(vertices as nat) + " verts, "@ + decimal(triangles as nat) + " tris"@,
{
    decimal_text(vertices as u64).concat(" verts, ").concat(
        decimal_text(triangles as u64).as_str(),
    ).concat(" tris")
}

/// What was converted, for a model of several meshes.
pub fn gltf_detail(meshes: usize, vertices: usize, triangles: usize) -> (r: String)
    ensures
        r@ == decimal(meshes as nat) + " meshes, "@ + (decimal(vertices as nat) + " verts, "@
            + decimal(triangles as nat) + " tris"@),
{
    decimal_text(meshes as u64).concat(" meshes, ").concat(
        obj_detail(vertices, triangles).as_str(),
    )
}

/// How a conversion ended: the text that is printed and the code that the program ends with.
pub fn conversion_report(source: &str, dest: &str, result: Result<String, String>) -> (r: (
    String,
    i32,
))
    ensures
        match result {
            Ok(detail) => r.1 == 0 && r.0@ == "converted "@ + source@ + " -> "@ + dest@ + " ("@
                + detail@ + ")"@,
            Err(e) => r.1 == 1 && r.0@ == "conversion failed: "@ + e@,
        },
{
    match result {
        Ok(detail) => (
            String::from_str("converted ").concat(source).concat(" -> ").concat(dest).concat(
                " (",
            ).concat(detail.as_str()).concat(")"),
            0,
        ),
        Err(e) => (String::from_str("conversion failed: ").concat(e.as_str()), 1),
    }
}

/// What a start as a probe of the renderer asks for.
pub enum ProbeRequest {
    NotAsked,
    /// The stage is missing; the program ends with this code.
    MissingStage(i32),
    /// A stage is opened with a delegate, or with the default one.
    Run(String, Option<String>),
}

/// What a start as a probe of the renderer asks for. An empty delegate is none.
pub fn probe_request(asked: bool, stage: Option<String>, delegate: Option<String>) -> (r:
    ProbeRequest)
    ensures
        match r {
            ProbeRequest::NotAsked => !asked,
            ProbeRequest::MissingStage(code) => asked && stage is None && code == 2,
            ProbeRequest::Run(s, d) => asked && stage == Some(s) && (match delegate {
                Some(id) => if id@.len() == 0 {
                    d is None
                } else {
                    d == Some(id)
                },
                None => d is None,
            }),
        },
{
    if !asked {
        return ProbeRequest::NotAsked;
    }
    match stage {
        None => ProbeRequest::MissingStage(2),
        Some(s) => {
            let d = match delegate {
                Some(id) => {
                    if id.as_str().unicode_len() == 0 {
                        None
                    } else {
                        Some(id)
                    }
                },
                None => None,
            };
            ProbeRequest::Run(s, d)
        },
    }
}

/// The side of the image that a probe renders.
pub const PROBE_SIDE: usize = 64;

/// How many bytes the image of a probe has.
pub open spec fn probe_bytes() -> nat {
    (PROBE_SIDE * PROBE_SIDE * 4) as nat
}

/// Whether the image of a probe has the right size, and what is said where it has not.
pub fn check_probe_frame(bytes: usize) -> (r: Result<(), String>)
    ensures
        match r {
            Ok(_) => bytes == probe_bytes(),
            Err(e) => bytes != probe_bytes() && e@ == "Hydra probe returned "@ + decimal(
                bytes as nat,
            ) + " bytes, expected "@ + decimal(probe_bytes()),
        },
{
    let expected: usize = PROBE_SIDE * PROBE_SIDE * 4;
    if bytes == expected {
        Ok(())
    } else {
        Err(
            String::from_str("Hydra probe returned ").concat(
                decimal_text(bytes as u64).as_str(),
            ).concat(" bytes, expected ").concat(decimal_text(expected as u64).as_str()),
        )
    }
}

/// The code that a probe ends with.
pub fn probe_exit_code(succeeded: bool) -> (r: i32)
    ensures
        r == (if succeeded {
            0i32
        } else {
            3i32
        }),
{
    if succeeded {
        0
    } else {
        3
    }
}

/// What a renderer is called while it is probed.
pub fn probe_label(delegate: Option<&str>) -> (r: String)
    ensures
        r@ == (match delegate {
            Some(id) => id@,
            None => "default delegate"@,
        }),
{
    match delegate {
        Some(id) => String::from_str(id),
        None => String::from_str("default delegate"),
    }
}

/// Where the log may go, in the order in which it is tried: where it was told to, beside the
/// program, and in the folder for temporary files.
pub open spec fn log_places(
    told: Option<Seq<char>>,
    exe: Option<Seq<char>>,
    temp: Seq<char>,
) -> Seq<Seq<char>> {
    (match told {
        Some(p) => seq![p],
        None => Seq::empty(),
    }) + (match exe {
        Some(e) => match parent(e) {
            Some(dir) => seq![join(dir, "forge-paint.log"@)],
            None => Seq::empty(),
        },
        None => Seq::empty(),
    }) + seq![join(temp, "forge-paint.log"@)]
}

/// Where the log may go, in the order in which it is tried.
pub fn log_candidates(told: Option<String>, exe: Option<String>, temp: &str) -> (r: Vec<String>)
    ensures
        views(r@) == log_places(opt_view(told), opt_view(exe), temp@),
{
    let ghost places = log_places(opt_view(told), opt_view(exe), temp@);
    let mut out: Vec<String> = Vec::new();
    match told {
        Some(p) => out.push(p),
        None => {},
    }
    match exe {
        Some(e) => match parent_of(e.as_str()) {
            Some(dir) => out.push(join_path(dir.as_str(), "forge-paint.log")),
            None => {},
        },
        None => {},
    }
    out.push(join_path(temp, "forge-paint.log"));
    proof {
        assert(views(out@) =~= places);
    }
    out
}

/// The entries of a list that are marked, among the first `n`.
pub open spec fn marked(list: Seq<Seq<char>>, marks: Seq<bool>, n: nat) -> Seq<Seq<char>>
    decreases n,
{
    if n == 0 {
        Seq::empty()
    } else {
        let front = marked(list, marks, (n - 1) as nat);
        if marks[n - 1] {
            front.push(list[n - 1])
        } else {
            front
        }
    }
}

/// The folders of a list that exist, each where it first comes.
pub fn existing_dirs(list: &Vec<String>, exists: &Vec<bool>) -> (r: Vec<String>)
    requires
        exists@.len() == list@.len(),
    ensures
        views(r@) == first_paths(marked(views(list@), exists@, list@.len())),
{
    let ghost all = views(list@);
    let mut out: Vec<String> = Vec::new();
    let mut i: usize = 0;
    proof {
        assert(views(out@) =~= marked(all, exists@, 0));
    }
    while i < list.len()
        invariant
            i <= list@.len() == exists@.len(),
            all == views(list@),
            views(out@) == marked(all, exists@, i as nat),
        decreases list@.len() - i,
    {
        let ghost before = out@;
        if exists[i] {
            out.push(String::from_str(list[i].as_str()));
            proof {
                assert(views(out@) =~= views(before).push(all[i as int]));
            }
        }
        i = i + 1;
    }
    dedup_paths(&out)
}

/// A folder for programs, and the names of what is in it.
pub struct ProgramFolder {
    pub base: String,
    pub entries: Vec<String>,
}

/// The entries of a folder that may be an installation, among the first `n`.
pub open spec fn delight_entries(base: Seq<char>, entries: Seq<Seq<char>>, n: nat) -> Seq<Seq<char>>
    decreases n,
{
    if n == 0 {
        Seq::empty()
    } else {
        let front = delight_entries(base, entries, (n - 1) as nat);
        if contains(lower(entries[n - 1]), "3delight"@) {
            front.push(join(base, entries[n - 1]))
        } else {
            front
        }
    }
}

/// Where an installation may be below a folder for programs.
pub open spec fn delight_in(base: Seq<char>, entries: Seq<Seq<char>>) -> Seq<Seq<char>> {
    seq![join(base, "3Delight"@), join(base, "3DelightNSI"@)] + delight_entries(
        base,
        entries,
        entries.len(),
    )
}

/// Where installations may be below the first `n` folders for programs.
pub open spec fn delight_below(folders: Seq<ProgramFolder>, n: nat) -> Seq<Seq<char>>
    decreases n,
{
    if n == 0 {
        Seq::empty()
    } else {
        delight_below(folders, (n - 1) as nat) + delight_in(
            folders[n - 1].base@,
            views(folders[n - 1].entries@),
        )
    }
}

/// Adds where an installation may be below a folder for programs.
fn push_delight(out: &mut Vec<String>, folder: &ProgramFolder)
    ensures
        views(final(out)@) == views(old(out)@) + delight_in(folder.base@, views(folder.entries@)),
{
    let ghost start = views(out@);
    let base = folder.base.as_str();
    out.push(join_path(base, "3Delight"));
    out.push(join_path(base, "3DelightNSI"));
    let ghost two = seq![join(base@, "3Delight"@), join(base@, "3DelightNSI"@)];
    let ghost entries = views(folder.entries@);
    proof {
        assert(views(out@) =~= start + (two + delight_entries(base@, entries, 0)));
    }
    let mut i: usize = 0;
    while i < folder.entries.len()
        invariant
            i <= folder.entries@.len(),
            base@ == folder.base@,
            entries == views(folder.entries@),
            views(out@) == start + (two + delight_entries(base@, entries, i as nat)),
        decreases folder.entries@.len() - i,
    {
        let ghost before = out@;
        let name = folder.entries[i].as_str();
        if has_text(to_lower(name).as_str(), "3delight") {
            out.push(join_path(base, name));
            proof {
                assert(views(out@) =~= views(before).push(join(base@, name@)));
                assert(views(out@) =~= start + (two + delight_entries(
                    base@,
                    entries,
                    (i + 1) as nat,
                )));
            }
        }
        i = i + 1;
    }
}

/// Where 3Delight may be installed, in the order in which it is looked for: where variables
/// say, in the bundle, and below the folders for programs.
pub fn delight_candidates(
    told: &Vec<String>,
    bundle_dir: &str,
    folders: &Vec<ProgramFolder>,
) -> (r: Vec<String>)
    ensures
        views(r@) == views(told@) + seq![join(bundle_dir@, "3Delight"@)] + delight_below(
            folders@,
            folders@.len(),
        ),
{
    let mut out: Vec<String> = Vec::new();
    let mut i: usize = 0;
    proof {
        assert(views(out@) =~= views(told@).take(0));
    }
    while i < told.len()
        invariant
            i <= told@.len(),
            views(out@) == views(told@).take(i as int),
        decreases told@.len() - i,
    {
        let ghost before = out@;
        out.push(String::from_str(told[i].as_str()));
        proof {
            assert(views(out@) =~= views(before).push(told@[i as int]@));
            assert(views(out@) =~= views(told@).take(i + 1));
        }
        i = i + 1;
    }
    let ghost before = out@;
    out.push(join_path(bundle_dir, "3Delight"));
    let ghost head = views(told@) + seq![join(bundle_dir@, "3Delight"@)];
    proof {
        assert(views(told@).take(told@.len() as int) =~= views(told@));
        assert(views(out@) =~= views(before).push(join(bundle_dir@, "3Delight"@)));
        assert(views(out@) =~= head + delight_below(folders@, 0));
    }
    let mut k: usize = 0;
    while k < folders.len()
        invariant
            k <= folders@.len(),
            views(out@) == head + delight_below(folders@, k as nat),
        decreases folders@.len() - k,
    {
        push_delight(&mut out, &folders[k]);
        proof {
            assert(views(out@) =~= head + delight_below(folders@, (k + 1) as nat));
        }
        k = k + 1;
    }
    out
}

/// Where the runtime of the first `n` installations may be: in their folder, its programs and
/// its libraries.
pub open spec fn runtime_dirs(roots: Seq<Seq<char>>, n: nat) -> Seq<Seq<char>>
    decreases n,
{
    if n == 0 {
        Seq::empty()
    } else {
        let root = roots[n - 1];
        runtime_dirs(roots, (n - 1) as nat) + seq![root, join(root, "bin"@), join(root, "lib"@)]
    }
}

/// Where the runtime of installations may be.
pub fn delight_runtime_candidates(roots: &Vec<String>) -> (r: Vec<String>)
    ensures
        views(r@) == runtime_dirs(views(roots@), roots@.len()),
{
    let ghost all = views(roots@);
    let mut out: Vec<String> = Vec::new();
    let mut i: usize = 0;
    proof {
        assert(views(out@) =~= runtime_dirs(all, 0));
    }
    while i < roots.len()
        invariant
            i <= roots@.len(),
            all == views(roots@),
            views(out@) == runtime_dirs(all, i as nat),
        decreases roots@.len() - i,
    {
        let ghost before = views(out@);
        let root = roots[i].as_str();
        out.push(String::from_str(root));
        out.push(join_path(root, "bin"));
        out.push(join_path(root, "lib"));
        proof {
            assert(views(out@) =~= before + seq![root@, join(root@, "bin"@), join(root@, "lib"@)]);
        }
        i = i + 1;
    }
    out
}

/// Whether a path has a component of a name, in any case. The root is the component `/`, a
/// leading `.` is one too.
pub open spec fn has_component(path: Seq<char>, needle: Seq<char>) -> bool {
    ||| is_absolute(path) && lower(seq!['/']) == lower(needle)
    ||| starts_here(path) && lower(seq!['.']) == lower(needle)
    ||| exists|i: int| 0 <= i < names(path).len() && lower(#[trigger] names(path)[i]) == lower(needle)
}

/// Whether a path has a component of a name, in any case.
pub fn path_has_component_case_insensitive(path: &str, needle: &str) -> (r: bool)
    ensures
        r == has_component(path@, needle@),
{
    let chars = chars_of(path);
    proof {
        reveal_strlit("/");
        reveal_strlit(".");
        assert("/"@ =~= seq!['/']);
        assert("."@ =~= seq!['.']);
    }
    if chars.len() > 0 && chars[0] == '/' && same_ignoring_case("/", needle) {
        return true;
    }
    if crate::paths::is_here(&chars) && same_ignoring_case(".", needle) {
        return true;
    }
    let list = names_of(path);
    let mut i: usize = 0;
    while i < list.len()
        invariant
            i <= list@.len() == names(path@).len(),
            forall|k: int| 0 <= k < list@.len() ==> (#[trigger] list@[k])@ == names(path@)[k],
            forall|k: int| 0 <= k < i ==> lower(#[trigger] names(path@)[k]) != lower(needle@),
        decreases list@.len() - i,
    {
        let name = text_of(&list[i]);
        if same_ignoring_case(name.as_str(), needle) {
            proof {
                assert(lower(names(path@)[i as int]) == lower(needle@));
            }
            return true;
        }
        i = i + 1;
    }
    false
}

/// Where the plugin of an installation may be.
pub fn hdnsi_roots(root: &str) -> (r: Vec<String>)
    ensures
        views(r@) == seq![
            join(root@, "hdNSI"@),
            join(join(root@, "usd"@), "hdNSI"@),
            join(join(join(root@, "plugin"@), "usd"@), "hdNSI"@),
            join(join(join(root@, "plugins"@), "usd"@), "hdNSI"@),
            join(join(root@, "hydra"@), "hdNSI"@),
        ],
{
    let mut out: Vec<String> = Vec::new();
    out.push(join_path(root, "hdNSI"));
    out.push(join_path(join_path(root, "usd").as_str(), "hdNSI"));
    out.push(
        join_path(
            join_path(join_path(root, "plugin").as_str(), "usd").as_str(),
            "hdNSI",
        ),
    );
    out.push(
        join_path(
            join_path(join_path(root, "plugins").as_str(), "usd").as_str(),
            "hdNSI",
        ),
    );
    out.push(join_path(join_path(root, "hydra").as_str(), "hdNSI"));
    proof {
        assert(views(out@) =~= seq![
            join(root@, "hdNSI"@),
            join(join(root@, "usd"@), "hdNSI"@),
            join(join(join(root@, "plugin"@), "usd"@), "hdNSI"@),
            join(join(join(root@, "plugins"@), "usd"@), "hdNSI"@),
            join(join(root@, "hydra"@), "hdNSI"@),
        ]);
    }
    out
}

/// A path and the folders above it, up to so many.
pub open spec fn with_parents(path: Seq<char>, above: nat) -> Seq<Seq<char>>
    decreases above,
{
    seq![path] + (if above == 0 {
        Seq::empty()
    } else {
        match parent(path) {
            Some(dir) => with_parents(dir, (above - 1) as nat),
            None => Seq::empty(),
        }
    })
}

/// Where the libraries of the first `n` plugins may be: in their folder and the three above.
pub open spec fn library_places(paths: Seq<Seq<char>>, n: nat) -> Seq<Seq<char>>
    decreases n,
{
    if n == 0 {
        Seq::empty()
    } else {
        library_places(paths, (n - 1) as nat) + with_parents(paths[n - 1], 3)
    }
}

/// Adds a path and the folders above it, up to so many.
fn push_with_parents(out: &mut Vec<String>, path: &str, above: u32)
    ensures
        views(final(out)@) == views(old(out)@) + with_parents(path@, above as nat),
    decreases above,
{
    let ghost start = views(out@);
    out.push(String::from_str(path));
    proof {
        assert(views(out@) =~= start + seq![path@]);
    }
    if above > 0 {
        match parent_of(path) {
            Some(dir) => {
                push_with_parents(out, dir.as_str(), above - 1);
            },
            None => {},
        }
    }
    proof {
        assert(views(out@) =~= start + with_parents(path@, above as nat));
    }
}

/// Where the libraries of plugins may be.
pub fn usd_plugin_dll_candidates(plugin_paths: &Vec<String>) -> (r: Vec<String>)
    ensures
        views(r@) == library_places(views(plugin_paths@), plugin_paths@.len()),
{
    let ghost all = views(plugin_paths@);
    let mut out: Vec<String> = Vec::new();
    let mut i: usize = 0;
    proof {
        assert(views(out@) =~= library_places(all, 0));
    }
    while i < plugin_paths.len()
        invariant
            i <= plugin_paths@.len(),
            all == views(plugin_paths@),
            views(out@) == library_places(all, i as nat),
        decreases plugin_paths@.len() - i,
    {
        push_with_parents(&mut out, plugin_paths[i].as_str(), 3);
        i = i + 1;
    }
    out
}

/// Texts one after the other, with a separator between them.
pub fn join_list(list: &Vec<String>, sep: &str) -> (r: String)
    ensures
        r@ == joined(views(list@), sep@),
{
    let ghost all = views(list@);
    let mut out: String = String::new();
    proof {
        assert(out@ =~= joined(all.take(0), sep@));
    }
    let mut i: usize = 0;
    while i < list.len()
        invariant
            i <= list@.len(),
            all == views(list@),
            out@ == joined(all.take(i as int), sep@),
        decreases list@.len() - i,
    {
        proof {
            assert(all.take(i + 1).drop_last() =~= all.take(i as int));
            assert(all.take(i + 1).last() == list@[i as int]@);
        }
        if i > 0 {
            out.append(sep);
            out.append(list[i].as_str());
        } else {
            out = String::from_str(list[i].as_str());
        }
        i = i + 1;
    }
    proof {
        assert(all.take(all.len() as int) =~= all);
    }
    out
}

/// The search path with new folders before the ones that were there.
pub open spec fn search_path_text(
    list: Seq<Seq<char>>,
    sep: Seq<char>,
    before: Option<Seq<char>>,
) -> Seq<char> {
    match before {
        Some(p) => if p.len() > 0 {
            joined(list, sep) + sep + p
        } else {
            joined(list, sep)
        },
        None => joined(list, sep),
    }
}

/// The search path with new folders before the ones that were there.
pub fn search_path(list: &Vec<String>, sep: &str, before: Option<&str>) -> (r: String)
    ensures
        r@ == search_path_text(
            views(list@),
            sep@,
            (match before {
                Some(p) => Some(p@),
                None => None,
            }),
        ),
{
    let front = join_list(list, sep);
    match before {
        Some(p) => {
            if p.unicode_len() > 0 {
                front.concat(sep).concat(p)
            } else {
                front
            }
        },
        None => front,
    }
}

/// A folder that is still to be looked at, and how far below the first one it lies.
#[derive(Clone, Debug)]
pub struct PendingDir {
    pub path: String,
    pub depth: usize,
}

/// A pending folder as a value of the specification.
pub struct PendingModel {
    pub path: Seq<char>,
    pub depth: nat,
}

impl View for PendingDir {
    type V = PendingModel;

    open spec fn view(&self) -> PendingModel {
        PendingModel { path: self.path@, depth: self.depth as nat }
    }
}

/// The values of pending folders.
pub open spec fn pending_models(list: Seq<PendingDir>) -> Seq<PendingModel> {
    list.map_values(|d: PendingDir| d@)
}

/// How far a search for the plugin of an installation goes down.
pub const MAX_DEPTH: usize = 7;

/// A search for folders with plugins. Everything below a folder of plugins is looked at;
/// below an installation only folders of the renderer count, and the search goes only so far
/// down.
pub struct PluginWalk {
    pub stack: Vec<PendingDir>,
    pub found: Vec<String>,
    pub in_installation: bool,
}

/// The folders below a folder, one deeper than it.
pub open spec fn below(children: Seq<Seq<char>>, depth: nat) -> Seq<PendingModel> {
    Seq::new(children.len(), |i: int| PendingModel { path: children[i], depth: depth + 1 })
}

impl PluginWalk {
    /// A search that begins at a folder. A folder of plugins counts itself.
    pub fn new(root: &str, in_installation: bool) -> (r: PluginWalk)
        ensures
            pending_models(r.stack@) == seq![PendingModel { path: root@, depth: 0 }],
            views(r.found@) == (if in_installation {
                Seq::empty()
            } else {
                seq![root@]
            }),
            r.in_installation == in_installation,
    {
        let mut stack: Vec<PendingDir> = Vec::new();
        stack.push(PendingDir { path: String::from_str(root), depth: 0 });
        let mut found: Vec<String> = Vec::new();
        if !in_installation {
            found.push(String::from_str(root));
        }
        proof {
            assert(pending_models(stack@) =~= seq![PendingModel { path: root@, depth: 0 }]);
            assert(views(found@) =~= (if in_installation {
                Seq::<Seq<char>>::empty()
            } else {
                seq![root@]
            }));
        }
        PluginWalk { stack, found, in_installation }
    }

    /// The next folder to look at: the one that was found last.
    pub fn next(&mut self) -> (r: Option<PendingDir>)
        ensures
            final(self).found == old(self).found,
            final(self).in_installation == old(self).in_installation,
            match r {
                None => old(self).stack@.len() == 0 && final(self).stack@ == old(self).stack@,
                Some(d) => old(self).stack@.len() > 0 && d == old(self).stack@.last()
                    && final(self).stack@ == old(self).stack@.drop_last(),
            },
    {
        self.stack.pop()
    }

    /// Whether a folder with a plugin in it counts.
    pub open spec fn counts(self, path: Seq<char>, has_plugin: bool) -> bool {
        has_plugin && (!self.in_installation || has_component(path, "hdNSI"@))
    }

    /// Whether the search goes below a folder.
    pub open spec fn descends(self, depth: nat) -> bool {
        !self.in_installation || depth < MAX_DEPTH
    }

    /// Takes in what was seen of a folder: whether there is a plugin in it, and the folders
    /// below it.
    pub fn visit(&mut self, dir: &PendingDir, has_plugin: bool, children: &Vec<String>)
        requires
            dir.depth < usize::MAX,
        ensures
            final(self).in_installation == old(self).in_installation,
            views(final(self).found@) == (if old(self).counts(dir.path@, has_plugin) {
                views(old(self).found@).push(dir.path@)
            } else {
                views(old(self).found@)
            }),
            pending_models(final(self).stack@) == (if old(self).descends(dir.depth as nat) {
                pending_models(old(self).stack@) + below(views(children@), dir.depth as nat)
            } else {
                pending_models(old(self).stack@)
            }),
    {
        let ghost s = *self;
        if has_plugin && (!self.in_installation || path_has_component_case_insensitive(
            dir.path.as_str(),
            "hdNSI",
        )) {
            self.found.push(String::from_str(dir.path.as_str()));
            proof {
                assert(views(self.found@) =~= views(s.found@).push(dir.path@));
            }
        }
        if self.in_installation && dir.depth >= MAX_DEPTH {
            return;
        }
        let ghost all = below(views(children@), dir.depth as nat);
        let ghost start = pending_models(self.stack@);
        let ghost found = self.found;
        proof {
            assert(start =~= start + all.take(0));
        }
        let mut i: usize = 0;
        while i < children.len()
            invariant
                i <= children@.len(),
                dir.depth < usize::MAX,
                all == below(views(children@), dir.depth as nat),
                pending_models(self.stack@) == start + all.take(i as int),
                self.found == found,
                self.in_installation == s.in_installation,
            decreases children@.len() - i,
        {
            let ghost before = self.stack@;
            self.stack.push(
                PendingDir { path: String::from_str(children[i].as_str()), depth: dir.depth + 1 },
            );
            proof {
                assert(pending_models(self.stack@) =~= pending_models(before).push(all[i as int]));
                assert(pending_models(self.stack@) =~= start + all.take(i + 1));
            }
            i = i + 1;
        }
        proof {
            assert(all.take(all.len() as int) =~= all);
        }
    }
}

/// What was found out about a bundle: its folder for USD, what was set before, and which
/// folders there are.
pub struct Bundle {
    pub windows: bool,
    pub usd_dir: String,
    pub has_usd: bool,
    /// The installations of 3Delight that were found.
    pub delight_roots: Vec<String>,
    pub delight_is_set: bool,
    /// The folders with plugins, in the order in which they were found.
    pub plugin_paths: Vec<String>,
    pub plugins_before: Option<String>,
    /// The folders in which the libraries of plugins are.
    pub library_dirs: Vec<String>,
    /// The folders in which the runtimes of the installations are.
    pub runtime_dirs: Vec<String>,
    pub path_before: Option<String>,
}

impl Bundle {
    /// What stands between the folders of a search path.
    pub open spec fn separator(self) -> Seq<char> {
        if self.windows {
            ";"@
        } else {
            ":"@
        }
    }

    /// The folders in which programs and libraries are looked for first.
    pub open spec fn program_dirs(self) -> Seq<Seq<char>> {
        seq![join(self.usd_dir@, "lib"@), join(self.usd_dir@, "bin"@)] + views(
            self.library_dirs@,
        ) + views(self.runtime_dirs@)
    }

    /// The variables that a bundled run needs. What is no bundle needs none.
    pub open spec fn variables(self) -> Seq<(Seq<char>, Seq<char>)> {
        if !self.has_usd {
            Seq::empty()
        } else {
            (if self.windows && !self.delight_is_set && self.delight_roots@.len() > 0 {
                seq![("DELIGHT"@, self.delight_roots@[0]@)]
            } else {
                Seq::empty()
            }) + seq![
                (
                    "PXR_PLUGINPATH_NAME"@,
                    search_path_text(
                        first_paths(views(self.plugin_paths@)),
                        self.separator(),
                        opt_view(self.plugins_before),
                    ),
                ),
            ] + (if self.windows {
                seq![
                    (
                        "PATH"@,
                        search_path_text(
                            first_paths(self.program_dirs()),
                            ";"@,
                            opt_view(self.path_before),
                        ),
                    ),
                ]
            } else {
                Seq::empty()
            })
        }
    }
}

/// Variables with their values.
pub open spec fn pair_views(list: Seq<(String, String)>) -> Seq<(Seq<char>, Seq<char>)> {
    Seq::new(list.len(), |i: int| (list[i].0@, list[i].1@))
}

/// Adds the entries of a list to another.
fn push_all(out: &mut Vec<String>, list: &Vec<String>)
    ensures
        views(final(out)@) == views(old(out)@) + views(list@),
{
    let ghost start = views(out@);
    let ghost all = views(list@);
    let mut i: usize = 0;
    proof {
        assert(start + all.take(0) =~= start);
    }
    while i < list.len()
        invariant
            i <= list@.len(),
            all == views(list@),
            views(out@) == start + all.take(i as int),
        decreases list@.len() - i,
    {
        let ghost before = out@;
        out.push(String::from_str(list[i].as_str()));
        proof {
            assert(views(out@) =~= views(before).push(all[i as int]));
            assert(views(out@) =~= start + all.take(i + 1));
        }
        i = i + 1;
    }
    proof {
        assert(all.take(all.len() as int) =~= all);
    }
}

/// The text of an optional one.
fn as_text(s: &Option<String>) -> (r: Option<&str>)
    ensures
        opt_view(*s) == (match r {
            Some(t) => Some(t@),
            None => None,
        }),
{
    match s {
        Some(t) => Some(t.as_str()),
        None => None,
    }
}

/// The variables that a bundled run needs.
pub fn bundled_variables(bundle: &Bundle) -> (r: Vec<(String, String)>)
    ensures
        pair_views(r@) == bundle.variables(),
{
    let mut out: Vec<(String, String)> = Vec::new();
    if !bundle.has_usd {
        proof {
            assert(pair_views(out@) =~= bundle.variables());
        }
        return out;
    }
    if bundle.windows && !bundle.delight_is_set && bundle.delight_roots.len() > 0 {
        out.push(
            (String::from_str("DELIGHT"), String::from_str(bundle.delight_roots[0].as_str())),
        );
    }
    let sep = if bundle.windows {
        ";"
    } else {
        ":"
    };
    let plugins = dedup_paths(&bundle.plugin_paths);
    out.push(
        (
            String::from_str("PXR_PLUGINPATH_NAME"),
            search_path(&plugins, sep, as_text(&bundle.plugins_before)),
        ),
    );
    if bundle.windows {
        let mut dirs: Vec<String> = Vec::new();
        dirs.push(join_path(bundle.usd_dir.as_str(), "lib"));
        dirs.push(join_path(bundle.usd_dir.as_str(), "bin"));
        proof {
            assert(views(dirs@) =~= seq![
                join(bundle.usd_dir@, "lib"@),
                join(bundle.usd_dir@, "bin"@),
            ]);
        }
        push_all(&mut dirs, &bundle.library_dirs);
        push_all(&mut dirs, &bundle.runtime_dirs);
        let dirs = dedup_paths(&dirs);
        out.push(
            (
                String::from_str("PATH"),
                search_path(&dirs, ";", as_text(&bundle.path_before)),
            ),
        );
    }
    proof {
        assert(pair_views(out@) =~= bundle.variables());
    }
    out
}

/// The program that a bundled run starts again: its copy among the libraries. Nothing, where
/// it was started again already, where this is no bundle, or where there is no such copy.
pub open spec fn relaunch_spec(
    bootstrapped: bool,
    exe: Option<Seq<char>>,
    has_usd: bool,
    copy_exists: bool,
) -> Option<Seq<char>> {
    match exe {
        Some(e) => match (parent(e), file_name(e)) {
            (Some(dir), Some(name)) => if !bootstrapped && has_usd && copy_exists {
                Some(join(join(join(dir, "usd"@), "lib"@), name))
            } else {
                None
            },
            _ => None,
        },
        None => None,
    }
}

/// Where the copy of a program among the libraries of its bundle is.
pub fn bundled_copy(exe: &str) -> (r: Option<String>)
    ensures
        opt_view(r) == relaunch_spec(false, Some(exe@), true, true),
{
    match (parent_of(exe), file_name_of(exe)) {
        (Some(dir), Some(name)) => Some(
            join_path(
                join_path(join_path(dir.as_str(), "usd").as_str(), "lib").as_str(),
                name.as_str(),
            ),
        ),
        _ => None,
    }
}

/// The program that a bundled run starts again.
pub fn relaunch_target(
    bootstrapped: bool,
    exe: Option<&str>,
    has_usd: bool,
    copy_exists: bool,
) -> (r: Option<String>)
    ensures
        opt_view(r) == relaunch_spec(
            bootstrapped,
            (match exe {
                Some(e) => Some(e@),
                None => None,
            }),
            has_usd,
            copy_exists,
        ),
{
    match exe {
        Some(e) => {
            let copy = bundled_copy(e);
            if !bootstrapped && has_usd && copy_exists {
                copy
            } else {
                None
            }
        },
        None => None,
    }
}

/// A model is converted by what its extension says, and by nothing else.
pub proof fn extensions_say_how_models_are_converted(ext: Seq<char>)
    ensures
        route_of(ext) == ConvertRoute::Obj <==> ext == "obj"@,
        route_of(ext) == ConvertRoute::Gltf <==> ext != "obj"@ && (ext == "gltf"@ || ext == "glb"@),
        ext != "obj"@ && ext != "gltf"@ && ext != "glb"@ ==> (route_of(ext) == ConvertRoute::Usd
            <==> ext == "abc"@ || ext == "usd"@ || ext == "usda"@ || ext == "usdc"@ || ext
            == "usdz"@),
{
}

/// New folders stand before those that a search path had, and those stay.
pub proof fn search_paths_keep_what_they_had(
    list: Seq<Seq<char>>,
    sep: Seq<char>,
    before: Seq<char>,
)
    ensures
        before.len() > 0 ==> search_path_text(list, sep, Some(before)) == search_path_text(
            list,
            sep,
            None,
        ) + sep + before,
        before.len() == 0 ==> search_path_text(list, sep, Some(before)) == search_path_text(
            list,
            sep,
            None,
        ),
{
}

/// What a bundle sets: where plugins are, always; where programs are, on Windows only; and an
/// installation of 3Delight, where one was found and none was set. What search paths held
/// before stands at their ends.
pub proof fn bundles_set_what_they_need(bundle: Bundle)
    ensures
        ({
            let set = bundle.variables();
            let plugins: int = if bundle.windows {
                set.len() - 2
            } else {
                set.len() - 1
            };
            let delight = bundle.windows && !bundle.delight_is_set && bundle.delight_roots@.len()
                > 0;
            &&& !bundle.has_usd <==> set.len() == 0
            &&& bundle.has_usd ==> {
                &&& plugins == if delight {
                    1int
                } else {
                    0int
                }
                &&& delight ==> set[0] == ("DELIGHT"@, bundle.delight_roots@[0]@)
                &&& set[plugins].0 == "PXR_PLUGINPATH_NAME"@
                &&& bundle.plugins_before matches Some(p) ==> p@.is_suffix_of(set[plugins].1)
                &&& bundle.windows ==> {
                    &&& set.last().0 == "PATH"@
                    &&& bundle.path_before matches Some(p) ==> p@.is_suffix_of(set.last().1)
                }
            }
        }),
{
    let set = bundle.variables();
    if bundle.has_usd {
        let plugins: int = if bundle.windows {
            set.len() - 2
        } else {
            set.len() - 1
        };
        if let Some(p) = bundle.plugins_before {
            let v = set[plugins].1;
            assert(v == search_path_text(
                first_paths(views(bundle.plugin_paths@)),
                bundle.separator(),
                Some(p@),
            ));
            assert(v.subrange(v.len() - p@.len(), v.len() as int) =~= p@);
        }
        if bundle.windows {
            if let Some(p) = bundle.path_before {
                let v = set.last().1;
                assert(v == search_path_text(first_paths(bundle.program_dirs()), ";"@, Some(p@)));
                assert(v.subrange(v.len() - p@.len(), v.len() as int) =~= p@);
            }
        }
    }
}

} // verus!
