//! The materials of a stage, rebuilt from the textures that they refer to.

use crate::material_graph::ShaderPin;
use crate::order::{
    is_less, key_less, keys_are_ordered, path_key, push_path, push_text, same_key, text_key,
};
use crate::stage_textures::{
    classify_texture_pin, material_slot_for_pin, pin_for, slot_for, texture_udim, udim_of,
    ExtractedTexture, MaterialSlot,
};
use crate::text::{chars_of, opt_view, views};
use vstd::prelude::*;

verus! {

/// The textures of a material, and the name of the texture coordinates that they use.
pub struct DetectedMaterialTextures {
    pub uv_primvar: String,
    pub base_color: Option<String>,
    pub roughness: Option<String>,
    pub metallic: Option<String>,
    pub normal: Option<String>,
    pub emission: Option<String>,
    pub occlusion: Option<String>,
}

/// The same as a value of the specification.
pub struct TexturesModel {
    pub uv_primvar: Seq<char>,
    pub base_color: Option<Seq<char>>,
    pub roughness: Option<Seq<char>>,
    pub metallic: Option<Seq<char>>,
    pub normal: Option<Seq<char>>,
    pub emission: Option<Seq<char>>,
    pub occlusion: Option<Seq<char>>,
}

impl View for DetectedMaterialTextures {
    type V = TexturesModel;

    open spec fn view(&self) -> TexturesModel {
        TexturesModel {
            uv_primvar: self.uv_primvar@,
            base_color: opt_view(self.base_color),
            roughness: opt_view(self.roughness),
            metallic: opt_view(self.metallic),
            normal: opt_view(self.normal),
            emission: opt_view(self.emission),
            occlusion: opt_view(self.occlusion),
        }
    }
}

impl TexturesModel {
    /// The texture for an input; there are six that can have one.
    pub open spec fn texture(self, pin: ShaderPin) -> Option<Seq<char>> {
        match pin {
            ShaderPin::DiffuseColor => self.base_color,
            ShaderPin::Roughness => self.roughness,
            ShaderPin::Metallic => self.metallic,
            ShaderPin::Normal => self.normal,
            ShaderPin::EmissionColor => self.emission,
            ShaderPin::Occlusion => self.occlusion,
            _ => None,
        }
    }

    /// No textures.
    pub open spec fn without(uv_primvar: Seq<char>) -> TexturesModel {
        TexturesModel {
            uv_primvar,
            base_color: None,
            roughness: None,
            metallic: None,
            normal: None,
            emission: None,
            occlusion: None,
        }
    }

    /// The textures after another one was found for an input.
    pub open spec fn with(self, pin: ShaderPin, path: Seq<char>) -> TexturesModel {
        match pin {
            ShaderPin::DiffuseColor => TexturesModel { base_color: Some(path), ..self },
            ShaderPin::Roughness => TexturesModel { roughness: Some(path), ..self },
            ShaderPin::Metallic => TexturesModel { metallic: Some(path), ..self },
            ShaderPin::Normal => TexturesModel { normal: Some(path), ..self },
            ShaderPin::EmissionColor => TexturesModel { emission: Some(path), ..self },
            ShaderPin::Occlusion => TexturesModel { occlusion: Some(path), ..self },
            _ => self,
        }
    }

    /// Whether there is no texture at all.
    pub open spec fn has_none(self) -> bool {
        self == TexturesModel::without(self.uv_primvar)
    }

    /// The texture for an input with the input, if there is one.
    pub open spec fn node(self, pin: ShaderPin) -> Seq<(Seq<char>, ShaderPin)> {
        match self.texture(pin) {
            Some(path) => seq![(path, pin)],
            None => Seq::empty(),
        }
    }

    /// All textures with their inputs.
    pub open spec fn nodes(self) -> Seq<(Seq<char>, ShaderPin)> {
        self.node(ShaderPin::DiffuseColor) + self.node(ShaderPin::Roughness) + self.node(
            ShaderPin::Metallic,
        ) + self.node(ShaderPin::Normal) + self.node(ShaderPin::EmissionColor) + self.node(
            ShaderPin::Occlusion,
        )
    }
}

/// Reading an input gives back the texture that was last found for it, and finding one
/// leaves the other inputs alone.
pub proof fn texture_reads_back(t: TexturesModel, pin: ShaderPin, path: Seq<char>, other: ShaderPin)
    requires
        TexturesModel::without(Seq::empty()).with(pin, path).texture(pin) is Some,
        other != pin,
    ensures
        t.with(pin, path).texture(pin) == Some(path),
        t.with(pin, path).texture(other) == t.texture(other),
        t.with(pin, path).uv_primvar == t.uv_primvar,
        !t.with(pin, path).has_none(),
{
}

impl DetectedMaterialTextures {
    /// No textures.
    pub fn empty(uv_primvar: String) -> (r: DetectedMaterialTextures)
        ensures
            r@ == TexturesModel::without(uv_primvar@),
    {
        DetectedMaterialTextures {
            uv_primvar,
            base_color: None,
            roughness: None,
            metallic: None,
            normal: None,
            emission: None,
            occlusion: None,
        }
    }

    /// Whether there is no texture at all.
    pub fn is_empty(&self) -> (r: bool)
        ensures
            r == self@.has_none(),
    {
        self.base_color.is_none() && self.roughness.is_none() && self.metallic.is_none()
            && self.normal.is_none() && self.emission.is_none() && self.occlusion.is_none()
    }

    /// Takes a texture for an input; one for an input that cannot have any is dropped.
    pub fn set(&mut self, pin: ShaderPin, path: String)
        ensures
            final(self)@ == old(self)@.with(pin, path@),
    {
        match pin {
            ShaderPin::DiffuseColor => self.base_color = Some(path),
            ShaderPin::Roughness => self.roughness = Some(path),
            ShaderPin::Metallic => self.metallic = Some(path),
            ShaderPin::Normal => self.normal = Some(path),
            ShaderPin::EmissionColor => self.emission = Some(path),
            ShaderPin::Occlusion => self.occlusion = Some(path),
            _ => {},
        }
    }

    /// All textures with their inputs.
    pub fn texture_nodes(&self) -> (r: Vec<(String, ShaderPin)>)
        ensures
            node_views(r@) == self@.nodes(),
    {
        let mut out: Vec<(String, ShaderPin)> = Vec::new();
        push_node(&mut out, &self.base_color, ShaderPin::DiffuseColor);
        push_node(&mut out, &self.roughness, ShaderPin::Roughness);
        push_node(&mut out, &self.metallic, ShaderPin::Metallic);
        push_node(&mut out, &self.normal, ShaderPin::Normal);
        push_node(&mut out, &self.emission, ShaderPin::EmissionColor);
        push_node(&mut out, &self.occlusion, ShaderPin::Occlusion);
        proof {
            assert(node_views(out@) =~= self@.nodes());
        }
        out
    }
}

/// Each texture with its input as a value of the specification.
pub open spec fn node_views(list: Seq<(String, ShaderPin)>) -> Seq<(Seq<char>, ShaderPin)> {
    Seq::new(list.len(), |i: int| (list[i].0@, list[i].1))
}

/// Adds a texture with its input, if there is one.
fn push_node(out: &mut Vec<(String, ShaderPin)>, texture: &Option<String>, pin: ShaderPin)
    ensures
        node_views(final(out)@) == node_views(old(out)@) + (match opt_view(*texture) {
            Some(path) => seq![(path, pin)],
            None => Seq::empty(),
        }),
{
    let ghost before = out@;
    if let Some(path) = texture {
        out.push((path.clone(), pin));
        proof {
            assert(node_views(out@) =~= node_views(before).push((path@, pin)));
        }
    } else {
        proof {
            assert(node_views(before) + Seq::<(Seq<char>, ShaderPin)>::empty() =~= node_views(
                before,
            ));
        }
    }
}

/// A texture that a material refers to, and where it was found.
pub struct StageTextureRef {
    pub reference: String,
    pub resolved: Option<String>,
}

/// A material of a stage.
pub struct StageMaterial {
    pub prim_path: String,
    pub uv_primvar_name: Option<String>,
    pub textures: Vec<StageTextureRef>,
}

/// A texture that was found, with the slot and the tile that it is for.
pub struct ResolvedStageTexture {
    pub path: String,
    pub slot: Option<MaterialSlot>,
    pub udim: Option<u32>,
}

/// The same as a value of the specification.
pub struct ResolvedModel {
    pub path: Seq<char>,
    pub slot: Option<MaterialSlot>,
    pub udim: Option<u32>,
}

impl View for ResolvedStageTexture {
    type V = ResolvedModel;

    open spec fn view(&self) -> ResolvedModel {
        ResolvedModel { path: self.path@, slot: self.slot, udim: self.udim }
    }
}

/// Each texture of a list as a value of the specification.
pub open spec fn resolved_models(list: Seq<ResolvedStageTexture>) -> Seq<ResolvedModel> {
    Seq::new(list.len(), |i: int| list[i]@)
}

/// A texture that was found for an input.
pub open spec fn found(path: Seq<char>, pin: ShaderPin) -> ResolvedModel {
    ResolvedModel { path, slot: slot_for(pin), udim: udim_of(path) }
}

/// What comes of the first `n` textures of a material: those whose name tells what they
/// are for and that were found.
pub open spec fn found_in_material(m: StageMaterial, n: nat) -> Seq<ResolvedModel>
    decreases n,
{
    if n == 0 {
        Seq::empty()
    } else {
        let before = found_in_material(m, (n - 1) as nat);
        let t = m.textures@[n - 1];
        match (pin_for(t.reference@), opt_view(t.resolved)) {
            (Some(pin), Some(path)) => before.push(found(path, pin)),
            _ => before,
        }
    }
}

/// What comes of the textures of the first `n` materials.
pub open spec fn found_in_materials(list: Seq<StageMaterial>, n: nat) -> Seq<ResolvedModel>
    decreases n,
{
    if n == 0 {
        Seq::empty()
    } else {
        found_in_materials(list, (n - 1) as nat) + found_in_material(
            list[n - 1],
            list[n - 1].textures@.len(),
        )
    }
}

/// What comes of the first `n` textures of a package.
pub open spec fn found_in_package(list: Seq<ExtractedTexture>, n: nat) -> Seq<ResolvedModel>
    decreases n,
{
    if n == 0 {
        Seq::empty()
    } else {
        let before = found_in_package(list, (n - 1) as nat);
        match pin_for(list[n - 1].package_path@) {
            Some(pin) => before.push(found(list[n - 1].path@, pin)),
            None => before,
        }
    }
}

/// The textures that a stage comes with: those of its materials, and only if there are
/// none, those of its package.
pub fn collect_resolved_stage_textures(
    materials: &Vec<StageMaterial>,
    extracted: &Vec<ExtractedTexture>,
) -> (r: Vec<ResolvedStageTexture>)
    ensures
        ({
            let of_materials = found_in_materials(materials@, materials@.len());
            resolved_models(r@) == if of_materials.len() > 0 {
                of_materials
            } else {
                found_in_package(extracted@, extracted@.len())
            }
        }),
{
    let mut out: Vec<ResolvedStageTexture> = Vec::new();
    let mut i: usize = 0;
    proof {
        assert(resolved_models(out@) =~= Seq::<ResolvedModel>::empty());
    }
    while i < materials.len()
        invariant
            i <= materials@.len(),
            resolved_models(out@) == found_in_materials(materials@, i as nat),
        decreases materials@.len() - i,
    {
        let ghost start = resolved_models(out@);
        let m = &materials[i];
        let mut k: usize = 0;
        proof {
            assert(start + found_in_material(*m, 0) =~= start);
        }
        while k < m.textures.len()
            invariant
                k <= m.textures@.len(),
                resolved_models(out@) == start + found_in_material(*m, k as nat),
            decreases m.textures@.len() - k,
        {
            let t = &m.textures[k];
            let ghost before = out@;
            if let Some(pin) = classify_texture_pin(t.reference.as_str()) {
                if let Some(path) = &t.resolved {
                    let texture = ResolvedStageTexture {
                        udim: texture_udim(path.as_str()),
                        slot: material_slot_for_pin(pin),
                        path: path.clone(),
                    };
                    out.push(texture);
                    proof {
                        assert(resolved_models(out@) =~= resolved_models(before).push(texture@));
                    }
                }
            }
            proof {
                assert(resolved_models(out@) =~= start + found_in_material(*m, (k + 1) as nat));
            }
            k = k + 1;
        }
        i = i + 1;
    }
    if out.len() > 0 {
        return out;
    }
    let mut j: usize = 0;
    while j < extracted.len()
        invariant
            j <= extracted@.len(),
            resolved_models(out@) == found_in_package(extracted@, j as nat),
        decreases extracted@.len() - j,
    {
        let t = &extracted[j];
        let ghost before = out@;
        if let Some(pin) = classify_texture_pin(t.package_path.as_str()) {
            let texture = ResolvedStageTexture {
                udim: texture_udim(t.path.as_str()),
                slot: material_slot_for_pin(pin),
                path: t.path.clone(),
            };
            out.push(texture);
            proof {
                assert(resolved_models(out@) =~= resolved_models(before).push(texture@));
            }
        }
        j = j + 1;
    }
    out
}

/// The textures of a material, among its first `n` references: of several for one input the
/// last one that was found counts.
pub open spec fn detected(m: StageMaterial, n: nat) -> TexturesModel
    decreases n,
{
    if n == 0 {
        TexturesModel::without(
            match opt_view(m.uv_primvar_name) {
                Some(name) => name,
                None => "st"@,
            },
        )
    } else {
        let before = detected(m, (n - 1) as nat);
        let t = m.textures@[n - 1];
        match (pin_for(t.reference@), opt_view(t.resolved)) {
            (Some(pin), Some(path)) => before.with(pin, path),
            _ => before,
        }
    }
}

/// The textures of a material.
pub open spec fn textures_of(m: StageMaterial) -> TexturesModel {
    detected(m, m.textures@.len())
}

/// The textures of a material.
fn detect(m: &StageMaterial) -> (r: DetectedMaterialTextures)
    ensures
        r@ == textures_of(*m),
{
    let uv = match &m.uv_primvar_name {
        Some(name) => name.clone(),
        None => String::from_str("st"),
    };
    let mut out = DetectedMaterialTextures::empty(uv);
    let mut k: usize = 0;
    while k < m.textures.len()
        invariant
            k <= m.textures@.len(),
            out@ == detected(*m, k as nat),
        decreases m.textures@.len() - k,
    {
        let t = &m.textures[k];
        if let Some(pin) = classify_texture_pin(t.reference.as_str()) {
            if let Some(path) = &t.resolved {
                out.set(pin, path.clone());
            }
        }
        k = k + 1;
    }
    out
}

/// A path that may be missing; none comes before any.
pub open spec fn optional_key(p: Option<Seq<char>>) -> Seq<u64> {
    match p {
        None => seq![0u64],
        Some(path) => seq![1u64] + path_key(path),
    }
}

/// The textures of a material as a sequence of numbers: materials share their textures
/// where these are equal, and are listed in their order.
#[verifier::opaque]
pub open spec fn sort_key(t: TexturesModel) -> Seq<u64> {
    text_key(t.uv_primvar) + optional_key(t.base_color) + optional_key(t.roughness)
        + optional_key(t.metallic) + optional_key(t.normal) + optional_key(t.emission)
        + optional_key(t.occlusion)
}

/// Adds a path that may be missing to a key.
fn push_optional(out: &mut Vec<u64>, path: &Option<String>)
    ensures
        final(out)@ == old(out)@ + optional_key(opt_view(*path)),
{
    let ghost start = out@;
    match path {
        None => {
            out.push(0);
            proof {
                assert(out@ =~= start + seq![0u64]);
            }
        },
        Some(p) => {
            out.push(1);
            push_path(out, p.as_str());
            proof {
                assert(out@ =~= start + optional_key(Some(p@)));
            }
        },
    }
}

impl DetectedMaterialTextures {
    /// The textures as a sequence of numbers.
    pub fn key(&self) -> (r: Vec<u64>)
        ensures
            r@ == sort_key(self@),
    {
        let mut out: Vec<u64> = Vec::new();
        push_text(&mut out, &chars_of(self.uv_primvar.as_str()));
        proof {
            reveal(sort_key);
            assert(out@ =~= text_key(self@.uv_primvar));
        }
        push_optional(&mut out, &self.base_color);
        push_optional(&mut out, &self.roughness);
        push_optional(&mut out, &self.metallic);
        push_optional(&mut out, &self.normal);
        push_optional(&mut out, &self.emission);
        push_optional(&mut out, &self.occlusion);
        out
    }
}

/// The prims whose materials share their textures.
pub struct MaterialGroup {
    pub textures: DetectedMaterialTextures,
    pub prims: Vec<String>,
}

/// The same as a value of the specification.
pub struct GroupModel {
    pub textures: TexturesModel,
    pub prims: Seq<Seq<char>>,
}

impl View for MaterialGroup {
    type V = GroupModel;

    open spec fn view(&self) -> GroupModel {
        GroupModel { textures: self.textures@, prims: views(self.prims@) }
    }
}

/// Each group of a list as a value of the specification.
pub open spec fn group_models(list: Seq<MaterialGroup>) -> Seq<GroupModel> {
    Seq::new(list.len(), |i: int| list[i]@)
}

/// How many groups at the start of a list come before a key.
pub open spec fn place(groups: Seq<GroupModel>, key: Seq<u64>) -> nat
    decreases groups.len(),
{
    if groups.len() > 0 && key_less(sort_key(groups[0].textures), key) {
        1 + place(groups.skip(1), key)
    } else {
        0
    }
}

/// The groups after one more prim: it joins the group that has the same textures, or
/// starts one in its place.
pub open spec fn with_prim(groups: Seq<GroupModel>, textures: TexturesModel, prim: Seq<char>) -> Seq<
    GroupModel,
> {
    let i = place(groups, sort_key(textures)) as int;
    if i < groups.len() && sort_key(groups[i].textures) == sort_key(textures) {
        groups.update(i, GroupModel { prims: groups[i].prims.push(prim), ..groups[i] })
    } else {
        groups.insert(i, GroupModel { textures, prims: seq![prim] })
    }
}

/// The groups that the first `n` materials form. Materials without textures form none.
pub open spec fn groups_of(materials: Seq<StageMaterial>, n: nat) -> Seq<GroupModel>
    decreases n,
{
    if n == 0 {
        Seq::empty()
    } else {
        let before = groups_of(materials, (n - 1) as nat);
        let m = materials[n - 1];
        if textures_of(m).has_none() {
            before
        } else {
            with_prim(before, textures_of(m), m.prim_path@)
        }
    }
}

/// The place of a key is within the list, what stands before it comes before the key, and
/// what stands there does not.
proof fn place_is_right(groups: Seq<GroupModel>, key: Seq<u64>)
    ensures
        place(groups, key) <= groups.len(),
        forall|j: int|
            0 <= j < place(groups, key) ==> key_less(
                sort_key((#[trigger] groups[j]).textures),
                key,
            ),
        place(groups, key) < groups.len() ==> !key_less(
            sort_key(groups[place(groups, key) as int].textures),
            key,
        ),
    decreases groups.len(),
{
    if groups.len() > 0 && key_less(sort_key(groups[0].textures), key) {
        place_is_right(groups.skip(1), key);
        assert forall|j: int| 0 <= j < place(groups, key) implies key_less(
            sort_key((#[trigger] groups[j]).textures),
            key,
        ) by {
            if j > 0 {
                assert(groups[j] == groups.skip(1)[j - 1]);
            }
        }
    }
}

/// The place of a key in a list of groups.
fn find_place(groups: &Vec<MaterialGroup>, key: &Vec<u64>) -> (r: usize)
    ensures
        r == place(group_models(groups@), key@),
        r <= groups@.len(),
{
    let ghost all = group_models(groups@);
    let mut i: usize = 0;
    proof {
        assert(all.skip(0) =~= all);
    }
    while i < groups.len()
        invariant
            i <= groups@.len(),
            all == group_models(groups@),
            i + place(all.skip(i as int), key@) == place(all, key@),
        decreases groups@.len() - i,
    {
        let own = groups[i].textures.key();
        proof {
            assert(all.skip(i as int)[0] == all[i as int]);
            assert(own@ == sort_key(all[i as int].textures));
        }
        if !is_less(&own, key) {
            return i;
        }
        proof {
            assert(all.skip(i as int).skip(1) =~= all.skip(i + 1));
        }
        i = i + 1;
    }
    i
}

/// Adds a prim to the group that has the same textures, or starts one.
fn add_prim(groups: &mut Vec<MaterialGroup>, textures: DetectedMaterialTextures, prim: String)
    ensures
        group_models(final(groups)@) == with_prim(group_models(old(groups)@), textures@, prim@),
{
    let key = textures.key();
    let i: usize = find_place(groups, &key);
    let ghost all = group_models(groups@);
    let ghost before = groups@;
    let shared = if i < groups.len() {
        let own = groups[i].textures.key();
        proof {
            assert(own@ == sort_key(all[i as int].textures));
        }
        same_key(&own, &key)
    } else {
        false
    };
    if shared {
        groups[i].prims.push(prim);
        proof {
            let grown = groups@[i as int];
            assert(grown.textures == before[i as int].textures);
            assert(views(grown.prims@) =~= views(before[i as int].prims@).push(prim@));
            assert(grown@ == (GroupModel {
                prims: all[i as int].prims.push(prim@),
                ..all[i as int]
            }));
            assert(group_models(groups@) =~= all.update(i as int, grown@));
        }
    } else {
        let mut prims: Vec<String> = Vec::new();
        prims.push(prim);
        let group = MaterialGroup { textures, prims };
        proof {
            assert(views(prims@) =~= seq![prim@]);
        }
        groups.insert(i, group);
        proof {
            assert(group_models(groups@) =~= all.insert(i as int, group@));
        }
    }
}

/// The groups that the materials of a stage form, in order.
pub fn stage_material_texture_groups(materials: &Vec<StageMaterial>) -> (r: Vec<MaterialGroup>)
    ensures
        group_models(r@) == groups_of(materials@, materials@.len()),
{
    let mut groups: Vec<MaterialGroup> = Vec::new();
    let mut n: usize = 0;
    proof {
        assert(group_models(groups@) =~= Seq::<GroupModel>::empty());
    }
    while n < materials.len()
        invariant
            n <= materials@.len(),
            group_models(groups@) == groups_of(materials@, n as nat),
        decreases materials@.len() - n,
    {
        let textures = detect(&materials[n]);
        if !textures.is_empty() {
            add_prim(&mut groups, textures, materials[n].prim_path.clone());
        }
        n = n + 1;
    }
    groups
}

/// Whether every group comes before the ones after it, so that no two have the same
/// textures.
pub open spec fn in_order(groups: Seq<GroupModel>) -> bool {
    forall|i: int, j: int|
        #![trigger groups[i], groups[j]]
        0 <= i < j < groups.len() ==> key_less(
            sort_key(groups[i].textures),
            sort_key(groups[j].textures),
        )
}

/// The groups of a stage are in order: no two have the same textures.
pub proof fn groups_are_in_order(materials: Seq<StageMaterial>, n: nat)
    ensures
        in_order(groups_of(materials, n)),
    decreases n,
{
    if n > 0 {
        groups_are_in_order(materials, (n - 1) as nat);
        let before = groups_of(materials, (n - 1) as nat);
        let m = materials[n - 1];
        if !textures_of(m).has_none() {
            with_prim_keeps_order(before, textures_of(m), m.prim_path@);
        }
    }
}

/// One more prim keeps the groups in order.
proof fn with_prim_keeps_order(groups: Seq<GroupModel>, textures: TexturesModel, prim: Seq<char>)
    requires
        in_order(groups),
    ensures
        in_order(with_prim(groups, textures, prim)),
{
    let key = sort_key(textures);
    let p = place(groups, key) as int;
    place_is_right(groups, key);
    let after = with_prim(groups, textures, prim);
    if p < groups.len() && sort_key(groups[p].textures) == key {
        assert forall|i: int, j: int|
            #![trigger after[i], after[j]]
            0 <= i < j < after.len() implies key_less(
            sort_key(after[i].textures),
            sort_key(after[j].textures),
        ) by {
            assert(key_less(sort_key(groups[i].textures), sort_key(groups[j].textures)));
        }
    } else {
        assert forall|i: int, j: int|
            #![trigger after[i], after[j]]
            0 <= i < j < after.len() implies key_less(
            sort_key(after[i].textures),
            sort_key(after[j].textures),
        ) by {
            if j < p {
                assert(after[i] == groups[i] && after[j] == groups[j]);
            } else if j == p {
                assert(after[i] == groups[i]);
                assert(key_less(sort_key(groups[i].textures), key));
            } else {
                let kj = sort_key(groups[j - 1].textures);
                assert(after[j] == groups[j - 1]);
                let kp = sort_key(groups[p].textures);
                keys_are_ordered(key, kp, kj);
                if p < j - 1 {
                    assert(key_less(kp, kj));
                }
                assert(key_less(key, kj));
                if i < p {
                    assert(after[i] == groups[i]);
                    keys_are_ordered(sort_key(groups[i].textures), key, kj);
                } else if i > p {
                    assert(after[i] == groups[i - 1]);
                    assert(key_less(sort_key(groups[i - 1].textures), kj));
                }
            }
        }
    }
}

/// Whether a prim is listed in the group that has the given textures.
pub open spec fn is_listed(groups: Seq<GroupModel>, textures: TexturesModel, prim: Seq<char>) -> bool {
    exists|g: int|
        0 <= g < groups.len() && sort_key((#[trigger] groups[g]).textures) == sort_key(textures)
            && groups[g].prims.contains(prim)
}

/// Every prim whose material has textures is listed in the group of these textures.
pub proof fn every_textured_prim_is_listed(materials: Seq<StageMaterial>, i: int, n: nat)
    requires
        0 <= i < n <= materials.len(),
        !textures_of(materials[i]).has_none(),
    ensures
        is_listed(groups_of(materials, n), textures_of(materials[i]), materials[i].prim_path@),
    decreases n,
{
    let before = groups_of(materials, (n - 1) as nat);
    let m = materials[n - 1];
    let key = sort_key(textures_of(m));
    place_is_right(before, key);
    let p = place(before, key) as int;
    let after = groups_of(materials, n);
    if i == n - 1 {
        if p < before.len() && sort_key(before[p].textures) == key {
            let grown = before[p].prims.push(m.prim_path@);
            assert(grown[grown.len() - 1] == m.prim_path@);
            assert(after[p].prims == grown);
        } else {
            assert(after[p].prims[0] == m.prim_path@);
        }
        assert(sort_key(after[p].textures) == key);
        assert(after[p].prims.contains(m.prim_path@));
    } else {
        every_textured_prim_is_listed(materials, i, (n - 1) as nat);
        if !textures_of(m).has_none() {
            let t = textures_of(materials[i]);
            let prim = materials[i].prim_path@;
            let g = choose|g: int|
                0 <= g < before.len() && sort_key((#[trigger] before[g]).textures) == sort_key(t)
                    && before[g].prims.contains(prim);
            let k = choose|k: int| 0 <= k < before[g].prims.len() && before[g].prims[k] == prim;
            if p < before.len() && sort_key(before[p].textures) == key {
                assert(after[g].textures == before[g].textures);
                assert(after[g].prims[k] == prim);
                assert(after[g].prims.contains(prim));
            } else if g < p {
                assert(after[g] == before[g]);
            } else {
                assert(after[g + 1] == before[g]);
            }
        }
    }
}

/// Every input that can have a texture has it in the field of its own name.
pub proof fn textures_lie_in_their_fields(t: TexturesModel)
    ensures
        t.texture(ShaderPin::DiffuseColor) == t.base_color,
        t.texture(ShaderPin::Roughness) == t.roughness,
        t.texture(ShaderPin::Metallic) == t.metallic,
        t.texture(ShaderPin::Normal) == t.normal,
        t.texture(ShaderPin::EmissionColor) == t.emission,
        t.texture(ShaderPin::Occlusion) == t.occlusion,
{
}

/// The nodes of a material are its textures, each for the input that it was found for, and no
/// others.
#[verifier::spinoff_prover]
#[verifier::rlimit(40)]
pub proof fn nodes_are_the_textures(t: TexturesModel, pin: ShaderPin, path: Seq<char>)
    ensures
        t.nodes().contains((path, pin)) <==> t.texture(pin) == Some(path),
{
    let all = t.nodes();
    let a = t.node(ShaderPin::DiffuseColor);
    let b = t.node(ShaderPin::Roughness);
    let c = t.node(ShaderPin::Metallic);
    let d = t.node(ShaderPin::Normal);
    let e = t.node(ShaderPin::EmissionColor);
    let f = t.node(ShaderPin::Occlusion);
    let n1 = a.len() as int;
    let n2 = n1 + b.len();
    let n3 = n2 + c.len();
    let n4 = n3 + d.len();
    let n5 = n4 + e.len();
    if t.texture(pin) == Some(path) {
        let at = match pin {
            ShaderPin::DiffuseColor => 0int,
            ShaderPin::Roughness => n1,
            ShaderPin::Metallic => n2,
            ShaderPin::Normal => n3,
            ShaderPin::EmissionColor => n4,
            _ => n5,
        };
        assert(t.node(pin)[0] == (path, pin));
        assert(all[at] == (path, pin));
    }
    if all.contains((path, pin)) {
        let i = choose|i: int| 0 <= i < all.len() && all[i] == (path, pin);
        if i < n1 {
            assert(all[i] == a[i]);
        } else if i < n2 {
            assert(all[i] == b[i - n1]);
        } else if i < n3 {
            assert(all[i] == c[i - n2]);
        } else if i < n4 {
            assert(all[i] == d[i - n3]);
        } else if i < n5 {
            assert(all[i] == e[i - n4]);
        } else {
            assert(all[i] == f[i - n5]);
        }
    }
}

/// Whether the `k`-th reference of a material was found and is for an input.
pub open spec fn is_found_for(m: StageMaterial, k: int, pin: ShaderPin) -> bool {
    pin_for(m.textures@[k].reference@) == Some(pin) && m.textures@[k].resolved is Some
}

/// The texture of an input is the file of the last reference that was found and whose name
/// says that it is for that input; an input that no reference is for has none.
#[verifier::spinoff_prover]
#[verifier::rlimit(40)]
pub proof fn the_last_reference_counts(m: StageMaterial, n: nat, pin: ShaderPin)
    requires
        n <= m.textures@.len(),
        TexturesModel::without(Seq::empty()).with(pin, Seq::empty()).texture(pin) is Some,
    ensures
        match detected(m, n).texture(pin) {
            Some(path) => exists|k: int|
                0 <= k < n && #[trigger] is_found_for(m, k, pin) && opt_view(
                    m.textures@[k].resolved,
                ) == Some(path) && forall|j: int| k < j < n ==> !#[trigger] is_found_for(m, j, pin),
            None => forall|j: int| 0 <= j < n ==> !#[trigger] is_found_for(m, j, pin),
        },
        detected(m, n).uv_primvar == (match opt_view(m.uv_primvar_name) {
            Some(name) => name,
            None => "st"@,
        }),
    decreases n,
{
    if n > 0 {
        let b = (n - 1) as nat;
        the_last_reference_counts(m, b, pin);
        if is_found_for(m, b as int, pin) {
            assert(detected(m, n).texture(pin) == opt_view(m.textures@[b as int].resolved));
        } else {
            assert(detected(m, n).texture(pin) == detected(m, b).texture(pin));
            if detected(m, b).texture(pin) is Some {
                let path = detected(m, b).texture(pin)->0;
                let k = choose|k: int|
                    0 <= k < b && #[trigger] is_found_for(m, k, pin) && opt_view(
                        m.textures@[k].resolved,
                    ) == Some(path) && forall|j: int|
                        k < j < b ==> !#[trigger] is_found_for(m, j, pin);
                assert(is_found_for(m, k, pin));
            }
        }
    }
}

/// What comes with a material are its files that were found, in order, each for the slot that
/// its reference names and the tile that its own name gives.
pub proof fn found_textures_are_those_of_the_material(m: StageMaterial, n: nat, i: int)
    requires
        n <= m.textures@.len(),
        0 <= i < found_in_material(m, n).len(),
    ensures
        exists|k: int|
            0 <= k < n && #[trigger] is_found_somehow(m, k) && {
                let r = found_in_material(m, n)[i];
                let path = m.textures@[k].resolved->0@;
                &&& r.path == path
                &&& r.udim == udim_of(path)
                &&& r.slot == slot_for(pin_for(m.textures@[k].reference@)->0)
            },
    decreases n,
{
    let b = (n - 1) as nat;
    if i < found_in_material(m, b).len() {
        found_textures_are_those_of_the_material(m, b, i);
    } else {
        assert(is_found_somehow(m, b as int));
    }
}

/// Whether the `k`-th reference of a material was found and is for some input.
pub open spec fn is_found_somehow(m: StageMaterial, k: int) -> bool {
    pin_for(m.textures@[k].reference@) is Some && m.textures@[k].resolved is Some
}

/// The value of the textures of a material has each texture where the textures have it.
pub proof fn values_keep_their_textures(t: DetectedMaterialTextures)
    ensures
        t@.uv_primvar == t.uv_primvar@,
        t@.base_color == opt_view(t.base_color),
        t@.roughness == opt_view(t.roughness),
        t@.metallic == opt_view(t.metallic),
        t@.normal == opt_view(t.normal),
        t@.emission == opt_view(t.emission),
        t@.occlusion == opt_view(t.occlusion),
{
}

/// The value of a texture that was found is its path, its slot and its tile.
pub proof fn values_keep_what_was_found(t: ResolvedStageTexture)
    ensures
        t@.path == t.path@,
        t@.slot == t.slot,
        t@.udim == t.udim,
{
}

} // verus!
