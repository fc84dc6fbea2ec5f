//! The textures that the materials of a stage refer to: what they are for, which tile they
//! are for, where they are, and which prims share them.

use crate::material_graph::ShaderPin;
use crate::paths::{
    extension, extension_of_path, file_name, file_name_of, file_stem, file_stem_of, is_absolute,
    is_absolute_path, join, join_path, parent, parent_of, replace_extension, stems_keep_case,
    with_extension,
};
use crate::text::{
    chars_of, contains, digits_value, ends_with, has_text, is_digit, lower, opt_view, rfind_char,
    same_ignoring_case, same_text, text_between, text_of, to_lower, trim, trim_text, views,
};
use vstd::prelude::*;

verus! {

/// Whether the extension of a path is the given one, in either case.
pub open spec fn has_extension(path: Seq<char>, ext: Seq<char>) -> bool {
    extension(path) matches Some(e) && lower(e) == lower(ext)
}

/// Whether the extension of a path is the given one, in either case.
fn extension_is(path: &str, ext: &str) -> (r: bool)
    ensures
        r == has_extension(path@, ext@),
{
    match extension_of_path(path) {
        Some(e) => same_ignoring_case(e.as_str(), ext),
        None => false,
    }
}

/// Whether the path names a USD package.
pub fn is_usdz_path(path: &str) -> (r: bool)
    ensures
        r == has_extension(path@, "usdz"@),
{
    extension_is(path, "usdz")
}

/// Whether the path names a file that can be opened as a stage.
pub open spec fn is_stage(path: Seq<char>) -> bool {
    has_extension(path, "usd"@) || has_extension(path, "usda"@) || has_extension(path, "usdc"@)
        || has_extension(path, "usdz"@)
}

/// Whether the path names a file that can be opened as a stage.
pub fn is_usd_stage_path(path: &str) -> (r: bool)
    ensures
        r == is_stage(path@),
{
    extension_is(path, "usd") || extension_is(path, "usda") || extension_is(path, "usdc")
        || extension_is(path, "usdz")
}

/// Where a converted model goes: beside the model, as USD text.
pub fn default_converted_usd_path(source: &str) -> (r: String)
    ensures
        r@ == with_extension(source@, "usda"@),
{
    replace_extension(source, "usda")
}

/// The kinds of models that can be converted on opening.
#[derive(Clone, Copy, Debug, PartialEq, Eq, Structural)]
pub enum ConvertibleModelKind {
    Obj,
}

impl ConvertibleModelKind {
    /// The kind of model that a path names.
    pub fn from_path(path: &str) -> (r: Option<ConvertibleModelKind>)
        ensures
            r == if has_extension(path@, "obj"@) {
                Some(ConvertibleModelKind::Obj)
            } else {
                None
            },
    {
        if extension_is(path, "obj") {
            Some(ConvertibleModelKind::Obj)
        } else {
            None
        }
    }

    /// The name shown to the user.
    pub fn label(self) -> (r: &'static str)
        ensures
            r@ == "OBJ"@,
    {
        match self {
            ConvertibleModelKind::Obj => "OBJ",
        }
    }
}

/// The path inside a package, from a reference like `asset.usdz[textures/a.png]`: what
/// stands between the last `]` and the last `[` before it.
pub open spec fn inner_path(s: Seq<char>, inner: Seq<char>) -> bool {
    exists|from: int, to: int|
        #![trigger s.subrange(from, to)]
        0 < from <= to < s.len() && s[from - 1] == '[' && s[to] == ']' && inner == s.subrange(
            from,
            to,
        ) && (forall|j: int| to < j < s.len() ==> s[j] != ']') && (forall|j: int|
            from <= j < to ==> s[j] != '[')
}

/// The path inside a package, if the reference has one.
pub fn package_inner_path(asset_ref: &str) -> (r: Option<String>)
    ensures
        match r {
            Some(inner) => inner_path(asset_ref@, inner@),
            None => forall|inner: Seq<char>| !inner_path(asset_ref@, inner),
        },
{
    let chars = chars_of(asset_ref);
    match rfind_char(&chars, ']', chars.len()) {
        None => None,
        Some(end) => match rfind_char(&chars, '[', end) {
            None => None,
            Some(start) => {
                let inner = text_between(&chars, start + 1, end);
                proof {
                    let from = start + 1;
                    assert(inner@ == asset_ref@.subrange(from, end as int));
                }
                Some(inner)
            },
        },
    }
}

/// What a texture is for, as its name tells. The stem of the file name decides first; only
/// a name that says nothing clearer is searched for `roughness` and `metal` anywhere.
pub open spec fn pin_for(reference: Seq<char>) -> Option<ShaderPin> {
    let stem = lower(
        match file_stem(reference) {
            Some(s) => s,
            None => reference,
        },
    );
    let name = lower(reference);
    if contains(stem, "basecolor"@) || contains(stem, "base_color"@) || contains(stem, "albedo"@)
        || contains(stem, "diffuse"@) || "_base"@.is_suffix_of(stem) {
        Some(ShaderPin::DiffuseColor)
    } else if contains(stem, "normal"@) || contains(stem, "_nrm"@) || contains(stem, "-nrm"@) {
        Some(ShaderPin::Normal)
    } else if contains(stem, "emissive"@) || contains(stem, "emission"@) || contains(
        stem,
        "_emit"@,
    ) {
        Some(ShaderPin::EmissionColor)
    } else if contains(stem, "occlusion"@) || contains(stem, "_occl"@) || "_ao"@.is_suffix_of(
        stem,
    ) {
        Some(ShaderPin::Occlusion)
    } else if contains(stem, "_rough"@) || "rough"@.is_suffix_of(stem) || contains(stem, "-rough"@) {
        Some(ShaderPin::Roughness)
    } else if contains(stem, "_metal"@) || "metal"@.is_suffix_of(stem) || contains(
        stem,
        "metallic"@,
    ) || contains(stem, "metalness"@) {
        Some(ShaderPin::Metallic)
    } else if contains(name, "roughness"@) {
        Some(ShaderPin::Roughness)
    } else if contains(name, "metal"@) {
        Some(ShaderPin::Metallic)
    } else {
        None
    }
}

/// What a texture is for, as its name tells.
pub fn classify_texture_pin(path_or_ref: &str) -> (r: Option<ShaderPin>)
    ensures
        r == pin_for(path_or_ref@),
{
    let own = match file_stem_of(path_or_ref) {
        Some(s) => s,
        None => text_of(&chars_of(path_or_ref)),
    };
    let low_stem = to_lower(own.as_str());
    let low_name = to_lower(path_or_ref);
    let stem = low_stem.as_str();
    let name = low_name.as_str();
    if has_text(stem, "basecolor") || has_text(stem, "base_color") || has_text(stem, "albedo")
        || has_text(stem, "diffuse") || ends_with(stem, "_base") {
        Some(ShaderPin::DiffuseColor)
    } else if has_text(stem, "normal") || has_text(stem, "_nrm") || has_text(stem, "-nrm") {
        Some(ShaderPin::Normal)
    } else if has_text(stem, "emissive") || has_text(stem, "emission") || has_text(
        stem,
        "_emit",
    ) {
        Some(ShaderPin::EmissionColor)
    } else if has_text(stem, "occlusion") || has_text(stem, "_occl") || ends_with(stem, "_ao") {
        Some(ShaderPin::Occlusion)
    } else if has_text(stem, "_rough") || ends_with(stem, "rough") || has_text(stem, "-rough") {
        Some(ShaderPin::Roughness)
    } else if has_text(stem, "_metal") || ends_with(stem, "metal") || has_text(stem, "metallic")
        || has_text(stem, "metalness") {
        Some(ShaderPin::Metallic)
    } else if has_text(name, "roughness") {
        Some(ShaderPin::Roughness)
    } else if has_text(name, "metal") {
        Some(ShaderPin::Metallic)
    } else {
        None
    }
}

/// Case does not matter when a texture is classified.
pub proof fn case_does_not_classify(a: Seq<char>, b: Seq<char>)
    requires
        lower(a) == lower(b),
    ensures
        pin_for(a) == pin_for(b),
{
    stems_keep_case(a, b);
}

/// The tile number that four characters of a name make up, if they do.
pub open spec fn udim_at(name: Seq<char>, i: int) -> Option<u32> {
    if 0 <= i && i + 4 <= name.len() && is_digit(name[i]) && is_digit(name[i + 1]) && is_digit(
        name[i + 2],
    ) && is_digit(name[i + 3]) {
        let value = (name[i] as int - 48) * 1000 + (name[i + 1] as int - 48) * 100 + (name[i + 2]
            as int - 48) * 10 + (name[i + 3] as int - 48);
        if 1001 <= value <= 1999 {
            Some(value as u32)
        } else {
            None
        }
    } else {
        None
    }
}

/// The first tile number in a name, from index `i` on.
pub open spec fn udim_from(name: Seq<char>, i: int) -> Option<u32>
    decreases name.len() - i,
{
    if i + 4 > name.len() {
        None
    } else {
        match udim_at(name, i) {
            Some(udim) => Some(udim),
            None => udim_from(name, i + 1),
        }
    }
}

/// The tile that a texture is for: the first four digits in its file name that make up a
/// number from 1001 to 1999.
pub open spec fn udim_of(path: Seq<char>) -> Option<u32> {
    match file_name(path) {
        Some(name) => udim_from(name, 0),
        None => None,
    }
}

/// The tile that a texture is for.
pub fn texture_udim(path: &str) -> (r: Option<u32>)
    ensures
        r == udim_of(path@),
{
    let name = match file_name_of(path) {
        Some(name) => name,
        None => return None,
    };
    let chars = chars_of(name.as_str());
    let n: usize = chars.len();
    let mut i: usize = 0;
    while i < n && n - i >= 4
        invariant
            i <= n == chars@.len(),
            chars@ == name@,
            file_name(path@) == Some(name@),
            udim_of(path@) == udim_from(name@, i as int),
        decreases n - i,
    {
        let a = chars[i];
        let b = chars[i + 1];
        let c = chars[i + 2];
        let d = chars[i + 3];
        if '0' <= a && a <= '9' && '0' <= b && b <= '9' && '0' <= c && c <= '9' && '0' <= d && d
            <= '9' {
            let value: u32 = (a as u32 - 48) * 1000 + (b as u32 - 48) * 100 + (c as u32 - 48) * 10
                + (d as u32 - 48);
            if 1001 <= value && value <= 1999 {
                assert(udim_at(name@, i as int) == Some(value));
                return Some(value);
            }
        }
        i = i + 1;
    }
    None
}

/// The channels of a layer that a texture can be assigned to.
#[derive(Clone, Copy, Debug, PartialEq, Eq, Structural)]
pub enum MaterialSlot {
    BaseColor,
    Roughness,
    Metallic,
    Normal,
}

impl MaterialSlot {
    /// Every slot, in the order in which they are shown.
    pub const ALL: [MaterialSlot; 4] = [
        MaterialSlot::BaseColor,
        MaterialSlot::Roughness,
        MaterialSlot::Metallic,
        MaterialSlot::Normal,
    ];

    /// The name shown to the user.
    pub open spec fn label_text(self) -> Seq<char> {
        match self {
            MaterialSlot::BaseColor => "Base color"@,
            MaterialSlot::Roughness => "Roughness"@,
            MaterialSlot::Metallic => "Metallic"@,
            MaterialSlot::Normal => "Normal"@,
        }
    }

    /// The name shown to the user.
    pub fn label(self) -> (r: &'static str)
        ensures
            r@ == self.label_text(),
    {
        match self {
            MaterialSlot::BaseColor => "Base color",
            MaterialSlot::Roughness => "Roughness",
            MaterialSlot::Metallic => "Metallic",
            MaterialSlot::Normal => "Normal",
        }
    }
}

/// The slot that corresponds to an input of a shader.
pub open spec fn slot_for(pin: ShaderPin) -> Option<MaterialSlot> {
    match pin {
        ShaderPin::DiffuseColor => Some(MaterialSlot::BaseColor),
        ShaderPin::Roughness => Some(MaterialSlot::Roughness),
        ShaderPin::Metallic => Some(MaterialSlot::Metallic),
        ShaderPin::Normal => Some(MaterialSlot::Normal),
        _ => None,
    }
}

/// The slot that corresponds to an input of a shader.
pub fn material_slot_for_pin(pin: ShaderPin) -> (r: Option<MaterialSlot>)
    ensures
        r == slot_for(pin),
{
    match pin {
        ShaderPin::DiffuseColor => Some(MaterialSlot::BaseColor),
        ShaderPin::Roughness => Some(MaterialSlot::Roughness),
        ShaderPin::Metallic => Some(MaterialSlot::Metallic),
        ShaderPin::Normal => Some(MaterialSlot::Normal),
        _ => None,
    }
}

/// A texture that was taken out of a package: its path inside, the same in normal form,
/// and where it is now.
pub struct ExtractedTexture {
    pub package_path: String,
    pub normalized: String,
    pub path: String,
}

/// Where the textures of a package are, by path inside and by file name, in lower case. Of
/// two textures with the same name the later one counts.
pub open spec fn package_map(list: Seq<ExtractedTexture>, n: nat) -> Map<Seq<char>, Seq<char>>
    decreases n,
{
    if n == 0 {
        Map::empty()
    } else {
        let t = list[n - 1];
        let m = package_map(list, (n - 1) as nat).insert(lower(t.normalized@), t.path@);
        match file_name(t.normalized@) {
            Some(name) => m.insert(lower(name), t.path@),
            None => m,
        }
    }
}

/// One entry of a lookup table.
pub struct LookupEntry {
    pub key: String,
    pub path: String,
}

/// A lookup table: a list in which later entries hide earlier ones with the same key.
pub struct PackageLookup {
    pub entries: Vec<LookupEntry>,
}

/// What the first `n` entries say.
pub open spec fn entries_map(entries: Seq<LookupEntry>, n: nat) -> Map<Seq<char>, Seq<char>>
    decreases n,
{
    if n == 0 {
        Map::empty()
    } else {
        entries_map(entries, (n - 1) as nat).insert(entries[n - 1].key@, entries[n - 1].path@)
    }
}

/// What entries say does not depend on later ones.
proof fn entries_map_prefix(a: Seq<LookupEntry>, b: Seq<LookupEntry>, n: nat)
    requires
        n <= a.len(),
        n <= b.len(),
        forall|i: int| 0 <= i < n ==> a[i] == b[i],
    ensures
        entries_map(a, n) == entries_map(b, n),
    decreases n,
{
    if n > 0 {
        entries_map_prefix(a, b, (n - 1) as nat);
    }
}

impl View for PackageLookup {
    type V = Map<Seq<char>, Seq<char>>;

    open spec fn view(&self) -> Map<Seq<char>, Seq<char>> {
        entries_map(self.entries@, self.entries@.len())
    }
}

impl PackageLookup {
    /// Adds an entry.
    fn insert(&mut self, key: String, path: String)
        ensures
            final(self)@ == old(self)@.insert(key@, path@),
    {
        let ghost before = self.entries@;
        self.entries.push(LookupEntry { key, path });
        proof {
            entries_map_prefix(before, self.entries@, before.len());
        }
    }

    /// What the table says of a key.
    pub fn get(&self, key: &str) -> (r: Option<String>)
        ensures
            opt_view(r) == self@.get(key@),
    {
        let mut i: usize = self.entries.len();
        while i > 0
            invariant
                i <= self.entries@.len(),
                self@.get(key@) == entries_map(self.entries@, i as nat).get(key@),
            decreases i,
        {
            i = i - 1;
            if same_text(self.entries[i].key.as_str(), key) {
                return Some(self.entries[i].path.clone());
            }
        }
        None
    }
}

/// Where the textures of a package are.
pub fn extracted_texture_lookup(extracted: &Vec<ExtractedTexture>) -> (r: PackageLookup)
    ensures
        r@ == package_map(extracted@, extracted@.len()),
{
    let mut lookup = PackageLookup { entries: Vec::new() };
    let mut i: usize = 0;
    while i < extracted.len()
        invariant
            i <= extracted@.len(),
            lookup@ == package_map(extracted@, i as nat),
        decreases extracted@.len() - i,
    {
        let t = &extracted[i];
        lookup.insert(to_lower(t.normalized.as_str()), t.path.clone());
        if let Some(name) = file_name_of(t.normalized.as_str()) {
            lookup.insert(to_lower(name.as_str()), t.path.clone());
        }
        i = i + 1;
    }
    lookup
}

/// What became of a reference: a texture of the package, or files that may exist, of
/// which the first one that does is meant.
pub enum Resolution {
    Found(String),
    OnDisk(Vec<String>),
}

/// The same as a value of the specification.
pub enum ResolutionModel {
    Found(Seq<char>),
    OnDisk(Seq<Seq<char>>),
}

impl View for Resolution {
    type V = ResolutionModel;

    open spec fn view(&self) -> ResolutionModel {
        match *self {
            Resolution::Found(path) => ResolutionModel::Found(path@),
            Resolution::OnDisk(list) => ResolutionModel::OnDisk(views(list@)),
        }
    }
}

/// The files outside of a package that a reference may mean: itself, if it is absolute,
/// then itself below the folder of the stage.
pub open spec fn files_for(stage_path: Seq<char>, trimmed: Seq<char>) -> Seq<Seq<char>> {
    (if is_absolute(trimmed) {
        seq![trimmed]
    } else {
        Seq::<Seq<char>>::empty()
    }) + (match parent(stage_path) {
        Some(dir) => seq![join(dir, trimmed)],
        None => Seq::empty(),
    })
}

/// What a reference means. The package is searched first: by the path inside it that the
/// reference names, by the whole reference, then by its file name; all in normal form and
/// lower case. A blank reference means nothing.
pub open spec fn resolution(
    stage_path: Seq<char>,
    reference: Seq<char>,
    normalized: Seq<char>,
    inner: Option<Seq<char>>,
    lookup: Map<Seq<char>, Seq<char>>,
) -> ResolutionModel {
    let trimmed = trim(reference);
    if trimmed.len() == 0 {
        ResolutionModel::OnDisk(Seq::empty())
    } else if inner is Some && lookup.contains_key(lower(inner->0)) {
        ResolutionModel::Found(lookup[lower(inner->0)])
    } else if lookup.contains_key(lower(normalized)) {
        ResolutionModel::Found(lookup[lower(normalized)])
    } else if file_name(normalized) is Some && lookup.contains_key(
        lower(file_name(normalized)->0),
    ) {
        ResolutionModel::Found(lookup[lower(file_name(normalized)->0)])
    } else {
        ResolutionModel::OnDisk(files_for(stage_path, trimmed))
    }
}

/// What a reference means, given it and the path inside a package that it names in normal
/// form.
pub fn resolve_texture_reference(
    stage_path: &str,
    texture_ref: &str,
    normalized: &str,
    inner: Option<&str>,
    lookup: &PackageLookup,
) -> (r: Resolution)
    ensures
        r@ == resolution(
            stage_path@,
            texture_ref@,
            normalized@,
            match inner {
                Some(s) => Some(s@),
                None => None,
            },
            lookup@,
        ),
{
    let trimmed = trim_text(texture_ref);
    let ghost nothing = Seq::<Seq<char>>::empty();
    if trimmed.as_str().is_empty() {
        let empty: Vec<String> = Vec::new();
        proof {
            assert(views(empty@) =~= nothing);
        }
        return Resolution::OnDisk(empty);
    }
    if let Some(s) = inner {
        let key = to_lower(s);
        if let Some(path) = lookup.get(key.as_str()) {
            return Resolution::Found(path);
        }
    }
    let key = to_lower(normalized);
    if let Some(path) = lookup.get(key.as_str()) {
        return Resolution::Found(path);
    }
    if let Some(name) = file_name_of(normalized) {
        let key = to_lower(name.as_str());
        if let Some(path) = lookup.get(key.as_str()) {
            return Resolution::Found(path);
        }
    }
    let chars = chars_of(trimmed.as_str());
    let mut list: Vec<String> = Vec::new();
    if is_absolute_path(&chars) {
        list.push(trimmed.clone());
    }
    if let Some(dir) = parent_of(stage_path) {
        list.push(join_path(dir.as_str(), trimmed.as_str()));
    }
    proof {
        assert(views(list@) =~= files_for(stage_path@, trimmed@));
    }
    Resolution::OnDisk(list)
}

/// The first of some files that exists.
pub fn first_existing(files: &Vec<String>, exists: &Vec<bool>) -> (r: Option<String>)
    requires
        files@.len() == exists@.len(),
    ensures
        match r {
            Some(path) => exists|i: int|
                0 <= i < files@.len() && path@ == #[trigger] files@[i]@ && exists@[i] && forall|
                    j: int,
                |
                    0 <= j < i ==> !#[trigger] exists@[j],
            None => forall|j: int| 0 <= j < exists@.len() ==> !#[trigger] exists@[j],
        },
{
    let mut i: usize = 0;
    while i < files.len()
        invariant
            i <= files@.len() == exists@.len(),
            forall|j: int| 0 <= j < i ==> !#[trigger] exists@[j],
        decreases files@.len() - i,
    {
        if exists[i] {
            let path = files[i].clone();
            assert(path@ == files@[i as int]@);
            return Some(path);
        }
        i = i + 1;
    }
    None
}

/// The stem of a reference in lower case, by which it is classified.
pub open spec fn classified_stem(reference: Seq<char>) -> Seq<char> {
    lower(
        match file_stem(reference) {
            Some(s) => s,
            None => reference,
        },
    )
}

/// A texture is taken for what its name says: colour before normals, normals before light
/// and light before occlusion, and roughness and metalness last. Nothing is taken for
/// something that its name does not speak of.
#[verifier::spinoff_prover]
#[verifier::rlimit(40)]
pub proof fn names_tell_what_textures_are_for(reference: Seq<char>)
    ensures
        ({
            let stem = classified_stem(reference);
            let name = lower(reference);
            let pin = pin_for(reference);
            let color = contains(stem, "basecolor"@) || contains(stem, "base_color"@) || contains(
                stem,
                "albedo"@,
            ) || contains(stem, "diffuse"@) || "_base"@.is_suffix_of(stem);
            let normal = contains(stem, "normal"@) || contains(stem, "_nrm"@) || contains(
                stem,
                "-nrm"@,
            );
            let emission = contains(stem, "emissive"@) || contains(stem, "emission"@) || contains(
                stem,
                "_emit"@,
            );
            let occlusion = contains(stem, "occlusion"@) || contains(stem, "_occl"@)
                || "_ao"@.is_suffix_of(stem);
            let rough = contains(stem, "_rough"@) || "rough"@.is_suffix_of(stem) || contains(
                stem,
                "-rough"@,
            );
            let metal = contains(stem, "_metal"@) || "metal"@.is_suffix_of(stem) || contains(
                stem,
                "metallic"@,
            ) || contains(stem, "metalness"@);
            let clear = color || normal || emission || occlusion;
            &&& pin == Some(ShaderPin::DiffuseColor) <==> color
            &&& pin == Some(ShaderPin::Normal) <==> normal && !color
            &&& pin == Some(ShaderPin::EmissionColor) <==> emission && !color && !normal
            &&& pin == Some(ShaderPin::Occlusion) <==> occlusion && !color && !normal && !emission
            &&& pin == Some(ShaderPin::Roughness) <==> !clear && (rough || (!metal && contains(
                name,
                "roughness"@,
            )))
            &&& pin == Some(ShaderPin::Metallic) <==> !clear && !rough && (metal || (!contains(
                name,
                "roughness"@,
            ) && contains(name, "metal"@)))
        }),
{
}

/// The channels of a layer take the textures of the inputs of the same name.
pub proof fn slots_take_their_own_inputs(pin: ShaderPin)
    ensures
        slot_for(pin) == Some(MaterialSlot::BaseColor) <==> pin == ShaderPin::DiffuseColor,
        slot_for(pin) == Some(MaterialSlot::Roughness) <==> pin == ShaderPin::Roughness,
        slot_for(pin) == Some(MaterialSlot::Metallic) <==> pin == ShaderPin::Metallic,
        slot_for(pin) == Some(MaterialSlot::Normal) <==> pin == ShaderPin::Normal,
{
}

/// The tile of a texture is written in four digits in the name of its file, and no earlier
/// four digits are a tile.
#[verifier::spinoff_prover]
#[verifier::rlimit(40)]
pub proof fn tiles_are_written_in_names(path: Seq<char>)
    ensures
        match udim_of(path) {
            Some(udim) => 1001 <= udim <= 1999 && file_name(path) is Some && exists|i: int|
                0 <= i && i + 4 <= file_name(path)->0.len() && digits_value(
                    #[trigger] file_name(path)->0.subrange(i, i + 4),
                ) == Some(udim as nat),
            None => file_name(path) matches Some(name) ==> forall|i: int|
                0 <= i && i + 4 <= name.len() ==> match digits_value(
                    #[trigger] name.subrange(i, i + 4),
                ) {
                    Some(v) => v < 1001 || v > 1999,
                    None => true,
                },
        },
{
    if let Some(name) = file_name(path) {
        tiles_are_written_from(name, 0);
    }
}

/// Four digits have the value that they write.
proof fn four_digits_have_a_value(name: Seq<char>, i: int)
    requires
        0 <= i,
        i + 4 <= name.len(),
    ensures
        udim_at(name, i) == (match digits_value(name.subrange(i, i + 4)) {
            Some(v) => if 1001 <= v <= 1999 {
                Some(v as u32)
            } else {
                None
            },
            None => None,
        }),
{
    let s = name.subrange(i, i + 4);
    let t = s.drop_last();
    let u = t.drop_last();
    let v = u.drop_last();
    assert(s[0] == name[i] && s[1] == name[i + 1] && s[2] == name[i + 2] && s[3] == name[i + 3]);
    assert(t.last() == s[2] && u.last() == s[1] && v.last() == s[0] && v.len() == 1);
    reveal_with_fuel(digits_value, 5);
}

/// The same from an index on.
#[verifier::spinoff_prover]
#[verifier::rlimit(40)]
proof fn tiles_are_written_from(name: Seq<char>, from: int)
    requires
        0 <= from,
    ensures
        match udim_from(name, from) {
            Some(udim) => 1001 <= udim <= 1999 && exists|i: int|
                from <= i && i + 4 <= name.len() && digits_value(
                    #[trigger] name.subrange(i, i + 4),
                ) == Some(udim as nat),
            None => forall|i: int|
                from <= i && i + 4 <= name.len() ==> match digits_value(
                    #[trigger] name.subrange(i, i + 4),
                ) {
                    Some(v) => v < 1001 || v > 1999,
                    None => true,
                },
        },
    decreases name.len() - from,
{
    if from + 4 <= name.len() {
        four_digits_have_a_value(name, from);
        if udim_at(name, from) is None {
            tiles_are_written_from(name, from + 1);
        }
    }
}

/// A texture of a package is found by its path inside and by its file name, in whatever case,
/// unless a later texture goes by the same.
pub proof fn packages_find_their_textures(list: Seq<ExtractedTexture>, n: nat)
    requires
        0 < n <= list.len(),
    ensures
        ({
            let t = list[n - 1];
            let m = package_map(list, n);
            &&& file_name(t.normalized@) is None ==> m.contains_key(lower(t.normalized@)) && m[lower(
                t.normalized@,
            )] == t.path@
            &&& file_name(t.normalized@) matches Some(name) ==> m.contains_key(lower(name)) && m[lower(
                name,
            )] == t.path@
            &&& m.contains_key(lower(t.normalized@)) && m[lower(t.normalized@)] == t.path@
            &&& forall|key: Seq<char>|
                key != lower(t.normalized@) && !(file_name(t.normalized@) matches Some(name)
                    && lower(name) == key) ==> (#[trigger] m.contains_key(key) == package_map(
                    list,
                    (n - 1) as nat,
                ).contains_key(key)) && (m.contains_key(key) ==> m[key] == package_map(
                    list,
                    (n - 1) as nat,
                )[key])
        }),
{
}

/// A reference that names a path inside a package means the texture at that path; any other
/// means the texture of the package at the whole reference, or else the one of its file name.
/// Only what the package does not have is looked for on disk: where an absolute reference says,
/// and beside the stage. A blank reference means nothing.
pub proof fn packages_come_before_the_disk(
    stage_path: Seq<char>,
    reference: Seq<char>,
    normalized: Seq<char>,
    inner: Option<Seq<char>>,
    lookup: Map<Seq<char>, Seq<char>>,
)
    ensures
        ({
            let r = resolution(stage_path, reference, normalized, inner, lookup);
            let blank = trim(reference).len() == 0;
            let by_inner = inner is Some && lookup.contains_key(lower(inner->0));
            let by_whole = lookup.contains_key(lower(normalized));
            let by_name = file_name(normalized) is Some && lookup.contains_key(
                lower(file_name(normalized)->0),
            );
            &&& blank ==> r == ResolutionModel::OnDisk(Seq::empty())
            &&& !blank && by_inner ==> r == ResolutionModel::Found(lookup[lower(inner->0)])
            &&& !blank && !by_inner && by_whole ==> r == ResolutionModel::Found(
                lookup[lower(normalized)],
            )
            &&& !blank && !by_inner && !by_whole && by_name ==> r == ResolutionModel::Found(
                lookup[lower(file_name(normalized)->0)],
            )
            &&& !blank && !by_inner && !by_whole && !by_name ==> {
                &&& r is OnDisk
                &&& is_absolute(trim(reference)) ==> r->OnDisk_0.len() > 0 && r->OnDisk_0[0] == trim(
                    reference,
                )
                &&& parent(stage_path) matches Some(dir) ==> r->OnDisk_0.len() > 0
                    && r->OnDisk_0.last() == join(dir, trim(reference))
                &&& !is_absolute(trim(reference)) && parent(stage_path) is Some
                    ==> r->OnDisk_0.len() == 1
            }
        }),
{
}

} // verus!
