//! Material bindings: library materials bound to the stage or to some of its prims, and
//! the commands that bring the preview renderer up to date with them.

use crate::assets::{name_view, MaterialInputs, MaterialKind};
use crate::material_graph::ShaderPin;
use crate::paths::{paths_equal, same_path};
use crate::single::{Single, Triple};
use crate::text::{same_text, views};
use std::collections::{HashMap, HashSet};
use vstd::prelude::*;

verus! {

broadcast use vstd::std_specs::hash::group_hash_axioms;

/// A library material in use. Where it is assigned, it is bound to the listed prims, or
/// to the whole stage if none are listed.
#[derive(Clone, Debug)]
pub struct MaterialBindingInstance {
    pub id: u64,
    pub source: String,
    pub prim_path: String,
    pub kind: MaterialKind,
    pub inputs: MaterialInputs,
    pub target_prims: Vec<String>,
    pub assigned: bool,
}

/// A binding as a value of the specification.
pub struct BindingModel {
    pub id: u64,
    pub source: Seq<char>,
    pub prim_path: Seq<char>,
    pub kind: MaterialKind,
    pub inputs: MaterialInputs,
    pub target_prims: Seq<Seq<char>>,
    pub assigned: bool,
}

impl View for MaterialBindingInstance {
    type V = BindingModel;

    open spec fn view(&self) -> BindingModel {
        BindingModel {
            id: self.id,
            source: self.source@,
            prim_path: self.prim_path@,
            kind: self.kind,
            inputs: self.inputs,
            target_prims: views(self.target_prims@),
            assigned: self.assigned,
        }
    }
}

/// What the renderer was last told about a binding.
#[derive(Clone, Debug)]
pub struct MaterialBindingSnapshot {
    pub source: String,
    pub prim_path: String,
    pub inputs: MaterialInputs,
    pub target_prims: Vec<String>,
    pub assigned: bool,
}

/// A snapshot as a value of the specification.
pub struct SnapshotModel {
    pub source: Seq<char>,
    pub prim_path: Seq<char>,
    pub inputs: MaterialInputs,
    pub target_prims: Seq<Seq<char>>,
    pub assigned: bool,
}

impl View for MaterialBindingSnapshot {
    type V = SnapshotModel;

    open spec fn view(&self) -> SnapshotModel {
        SnapshotModel {
            source: self.source@,
            prim_path: self.prim_path@,
            inputs: self.inputs,
            target_prims: views(self.target_prims@),
            assigned: self.assigned,
        }
    }
}

impl MaterialBindingInstance {
    /// What the renderer has to be told about the binding.
    pub open spec fn snapshot(self) -> SnapshotModel {
        SnapshotModel {
            source: self.source@,
            prim_path: self.prim_path@,
            inputs: self.inputs,
            target_prims: views(self.target_prims@),
            assigned: self.assigned,
        }
    }
}

/// A copy of a list of strings.
pub fn copy_list(list: &Vec<String>) -> (r: Vec<String>)
    ensures
        views(r@) == views(list@),
{
    let mut out: Vec<String> = Vec::new();
    let mut i: usize = 0;
    while i < list.len()
        invariant
            i <= list@.len(),
            out@.len() == i,
            forall|k: int| 0 <= k < i ==> (#[trigger] out@[k])@ == list@[k]@,
        decreases list@.len() - i,
    {
        out.push(list[i].clone());
        i = i + 1;
    }
    proof {
        assert(views(out@) =~= views(list@));
    }
    out
}

/// Whether two lists hold the same strings in the same order.
pub fn same_list(a: &Vec<String>, b: &Vec<String>) -> (r: bool)
    ensures
        r == (views(a@) == views(b@)),
{
    if a.len() != b.len() {
        proof {
            assert(views(a@).len() != views(b@).len());
        }
        return false;
    }
    let mut i: usize = 0;
    while i < a.len()
        invariant
            i <= a@.len() == b@.len(),
            forall|k: int| 0 <= k < i ==> (#[trigger] a@[k])@ == b@[k]@,
        decreases a@.len() - i,
    {
        if !same_text(a[i].as_str(), b[i].as_str()) {
            proof {
                assert(views(a@)[i as int] != views(b@)[i as int]);
            }
            return false;
        }
        i = i + 1;
    }
    proof {
        assert(views(a@) =~= views(b@));
    }
    true
}

impl MaterialBindingSnapshot {
    /// What the renderer has to be told about a binding.
    pub fn of(b: &MaterialBindingInstance) -> (r: MaterialBindingSnapshot)
        ensures
            r@ == b.snapshot(),
    {
        MaterialBindingSnapshot {
            source: b.source.clone(),
            prim_path: b.prim_path.clone(),
            inputs: b.inputs,
            target_prims: copy_list(&b.target_prims),
            assigned: b.assigned,
        }
    }
}

/// One thing that the renderer is told.
pub enum HydraCommand {
    /// Reference the material and bind it.
    Apply { id: u64, source: String, prim_path: String, target_prims: Vec<String> },
    /// Override a colour input.
    SetColor { id: u64, input: &'static str, color: Triple },
    /// Override a scalar input.
    SetNumber { id: u64, input: &'static str, value: Single },
    /// Take the binding away.
    Remove { id: u64 },
}

/// A command as a value of the specification.
pub enum CommandModel {
    Apply { id: u64, source: Seq<char>, prim_path: Seq<char>, target_prims: Seq<Seq<char>> },
    SetColor { id: u64, input: Seq<char>, color: Triple },
    SetNumber { id: u64, input: Seq<char>, value: Single },
    Remove { id: u64 },
}

impl View for HydraCommand {
    type V = CommandModel;

    open spec fn view(&self) -> CommandModel {
        match *self {
            HydraCommand::Apply { id, source, prim_path, target_prims } => CommandModel::Apply {
                id,
                source: source@,
                prim_path: prim_path@,
                target_prims: views(target_prims@),
            },
            HydraCommand::SetColor { id, input, color } => CommandModel::SetColor {
                id,
                input: input@,
                color,
            },
            HydraCommand::SetNumber { id, input, value } => CommandModel::SetNumber {
                id,
                input: input@,
                value,
            },
            HydraCommand::Remove { id } => CommandModel::Remove { id },
        }
    }
}

/// Each command of a list as a value of the specification.
pub open spec fn command_models(list: Seq<HydraCommand>) -> Seq<CommandModel> {
    Seq::new(list.len(), |i: int| list[i]@)
}

/// The override of a colour input, where the shader has it.
pub open spec fn color_command(b: MaterialBindingInstance, pin: ShaderPin, color: Triple) -> Seq<
    CommandModel,
> {
    match b.kind.input_name(pin) {
        Some(input) => seq![CommandModel::SetColor { id: b.id, input, color }],
        None => Seq::empty(),
    }
}

/// The override of a scalar input, where the shader has it.
pub open spec fn number_command(b: MaterialBindingInstance, pin: ShaderPin, value: Single) -> Seq<
    CommandModel,
> {
    match b.kind.input_name(pin) {
        Some(input) => seq![CommandModel::SetNumber { id: b.id, input, value }],
        None => Seq::empty(),
    }
}

/// The overrides of all inputs that the shader has.
pub open spec fn input_commands(b: MaterialBindingInstance) -> Seq<CommandModel> {
    color_command(b, ShaderPin::DiffuseColor, b.inputs.diffuse_color) + number_command(
        b,
        ShaderPin::Metallic,
        b.inputs.metallic,
    ) + number_command(b, ShaderPin::Roughness, b.inputs.roughness) + number_command(
        b,
        ShaderPin::Opacity,
        b.inputs.opacity,
    ) + number_command(b, ShaderPin::Clearcoat, b.inputs.clearcoat) + number_command(
        b,
        ShaderPin::ClearcoatRoughness,
        b.inputs.clearcoat_roughness,
    ) + color_command(b, ShaderPin::EmissionColor, b.inputs.emission_color) + number_command(
        b,
        ShaderPin::EmissionIntensity,
        b.inputs.emission_intensity,
    )
}

/// Whether the material has to be bound anew: it is another one, or is bound elsewhere.
pub open spec fn rebinds(b: MaterialBindingInstance, told: Option<SnapshotModel>) -> bool {
    match told {
        Some(p) => !same_path(p.source, b.source@) || p.prim_path != b.prim_path@
            || p.target_prims != views(b.target_prims@),
        None => true,
    }
}

/// Whether the inputs have changed.
pub open spec fn inputs_change(b: MaterialBindingInstance, told: Option<SnapshotModel>) -> bool {
    match told {
        Some(p) => !p.inputs.equals_spec(b.inputs),
        None => true,
    }
}

/// What the renderer is told about one assigned binding, after what it was told last.
pub open spec fn binding_commands(b: MaterialBindingInstance, told: Option<SnapshotModel>) -> Seq<
    CommandModel,
> {
    let bind = if rebinds(b, told) {
        seq![
            CommandModel::Apply {
                id: b.id,
                source: b.source@,
                prim_path: b.prim_path@,
                target_prims: views(b.target_prims@),
            },
        ]
    } else {
        Seq::empty()
    };
    if rebinds(b, told) || inputs_change(b, told) {
        bind + input_commands(b)
    } else {
        bind
    }
}

/// What was told, by binding.
pub type Told = Map<u64, SnapshotModel>;

/// What has been told after the first `n` bindings.
pub open spec fn told_after(bindings: Seq<MaterialBindingInstance>, told: Told, n: nat) -> Told
    decreases n,
{
    if n == 0 {
        told
    } else {
        let before = told_after(bindings, told, (n - 1) as nat);
        let b = bindings[n - 1];
        if b.assigned {
            before.insert(b.id, b.snapshot())
        } else {
            before
        }
    }
}

/// What is told about the first `n` bindings.
pub open spec fn commands_after(
    bindings: Seq<MaterialBindingInstance>,
    told: Told,
    n: nat,
) -> Seq<CommandModel>
    decreases n,
{
    if n == 0 {
        Seq::empty()
    } else {
        let before = commands_after(bindings, told, (n - 1) as nat);
        let b = bindings[n - 1];
        if b.assigned {
            before + binding_commands(b, told_after(bindings, told, (n - 1) as nat).get(b.id))
        } else {
            before
        }
    }
}

/// The ids of the assigned ones among the first `n` bindings.
pub open spec fn assigned_ids(bindings: Seq<MaterialBindingInstance>, n: nat) -> Set<u64>
    decreases n,
{
    if n == 0 {
        Set::empty()
    } else if bindings[n - 1].assigned {
        assigned_ids(bindings, (n - 1) as nat).insert(bindings[n - 1].id)
    } else {
        assigned_ids(bindings, (n - 1) as nat)
    }
}

/// The bindings that were told and are not assigned any more.
pub open spec fn dropped_ids(bindings: Seq<MaterialBindingInstance>, told: Told) -> Set<u64> {
    told_after(bindings, told, bindings.len()).dom().difference(
        assigned_ids(bindings, bindings.len()),
    )
}

/// What has been told once everything is up to date.
pub open spec fn told_finally(bindings: Seq<MaterialBindingInstance>, told: Told) -> Told {
    told_after(bindings, told, bindings.len()).restrict(assigned_ids(bindings, bindings.len()))
}

/// The commands that take bindings away.
pub open spec fn removals(ids: Seq<u64>) -> Seq<CommandModel> {
    Seq::new(ids.len(), |i: int| CommandModel::Remove { id: ids[i] })
}

/// Whether `ids` lists the members of a set, each once.
pub open spec fn lists_set(ids: Seq<u64>, set: Set<u64>) -> bool {
    ids.no_duplicates() && ids.to_set() == set
}

/// The snapshots of a table as values of the specification.
pub open spec fn told_view(table: Map<u64, MaterialBindingSnapshot>) -> Told {
    Map::new(|id: u64| table.contains_key(id), |id: u64| table[id]@)
}

/// Adds the override of a colour input, where the shader has it.
fn push_color(
    out: &mut Vec<HydraCommand>,
    b: &MaterialBindingInstance,
    input: Option<&'static str>,
    color: Triple,
    Ghost(pin): Ghost<ShaderPin>,
)
    requires
        name_view(input) == b.kind.input_name(pin),
    ensures
        command_models(final(out)@) == command_models(old(out)@) + color_command(*b, pin, color),
{
    let ghost before = out@;
    if let Some(input) = input {
        out.push(HydraCommand::SetColor { id: b.id, input, color });
    }
    proof {
        assert(command_models(out@) =~= command_models(before) + color_command(*b, pin, color));
    }
}

/// Adds the override of a scalar input, where the shader has it.
fn push_number(
    out: &mut Vec<HydraCommand>,
    b: &MaterialBindingInstance,
    input: Option<&'static str>,
    value: Single,
    Ghost(pin): Ghost<ShaderPin>,
)
    requires
        name_view(input) == b.kind.input_name(pin),
    ensures
        command_models(final(out)@) == command_models(old(out)@) + number_command(*b, pin, value),
{
    let ghost before = out@;
    if let Some(input) = input {
        out.push(HydraCommand::SetNumber { id: b.id, input, value });
    }
    proof {
        assert(command_models(out@) =~= command_models(before) + number_command(*b, pin, value));
    }
}

/// Adds the overrides of all inputs that the shader has.
fn push_inputs(out: &mut Vec<HydraCommand>, b: &MaterialBindingInstance)
    ensures
        command_models(final(out)@) == command_models(old(out)@) + input_commands(*b),
{
    let ghost start = command_models(out@);
    let names = b.kind.input_names();
    proof {
        assert(names.name_of(ShaderPin::DiffuseColor) == b.kind.input_name(ShaderPin::DiffuseColor));
        assert(names.name_of(ShaderPin::Metallic) == b.kind.input_name(ShaderPin::Metallic));
        assert(names.name_of(ShaderPin::Roughness) == b.kind.input_name(ShaderPin::Roughness));
        assert(names.name_of(ShaderPin::Opacity) == b.kind.input_name(ShaderPin::Opacity));
        assert(names.name_of(ShaderPin::Clearcoat) == b.kind.input_name(ShaderPin::Clearcoat));
        assert(names.name_of(ShaderPin::ClearcoatRoughness) == b.kind.input_name(
            ShaderPin::ClearcoatRoughness,
        ));
        assert(names.name_of(ShaderPin::EmissionColor) == b.kind.input_name(
            ShaderPin::EmissionColor,
        ));
        assert(names.name_of(ShaderPin::EmissionIntensity) == b.kind.input_name(
            ShaderPin::EmissionIntensity,
        ));
    }
    push_color(
        out,
        b,
        names.diffuse_color,
        b.inputs.diffuse_color,
        Ghost(ShaderPin::DiffuseColor),
    );
    push_number(out, b, names.metallic, b.inputs.metallic, Ghost(ShaderPin::Metallic));
    push_number(out, b, names.roughness, b.inputs.roughness, Ghost(ShaderPin::Roughness));
    push_number(out, b, names.opacity, b.inputs.opacity, Ghost(ShaderPin::Opacity));
    push_number(out, b, names.clearcoat, b.inputs.clearcoat, Ghost(ShaderPin::Clearcoat));
    push_number(
        out,
        b,
        names.clearcoat_roughness,
        b.inputs.clearcoat_roughness,
        Ghost(ShaderPin::ClearcoatRoughness),
    );
    push_color(
        out,
        b,
        names.emission_color,
        b.inputs.emission_color,
        Ghost(ShaderPin::EmissionColor),
    );
    push_number(
        out,
        b,
        names.emission_intensity,
        b.inputs.emission_intensity,
        Ghost(ShaderPin::EmissionIntensity),
    );
    proof {
        assert(command_models(out@) =~= start + input_commands(*b));
    }
}

/// The snapshot of a table as a value of the specification.
pub open spec fn told_entry(entry: Option<&MaterialBindingSnapshot>) -> Option<SnapshotModel> {
    match entry {
        Some(s) => Some(s@),
        None => None,
    }
}

/// Adds what the renderer is told about one assigned binding.
fn push_binding(
    out: &mut Vec<HydraCommand>,
    b: &MaterialBindingInstance,
    told: Option<&MaterialBindingSnapshot>,
)
    ensures
        command_models(final(out)@) == command_models(old(out)@) + binding_commands(
            *b,
            told_entry(told),
        ),
{
    let ghost start = command_models(out@);
    let rebind = match told {
        Some(p) => !paths_equal(p.source.as_str(), b.source.as_str()) || !same_text(
            p.prim_path.as_str(),
            b.prim_path.as_str(),
        ) || !same_list(&p.target_prims, &b.target_prims),
        None => true,
    };
    let change = match told {
        Some(p) => !p.inputs.equals(b.inputs),
        None => true,
    };
    if rebind {
        let ghost before = out@;
        let apply = HydraCommand::Apply {
            id: b.id,
            source: b.source.clone(),
            prim_path: b.prim_path.clone(),
            target_prims: copy_list(&b.target_prims),
        };
        out.push(apply);
        proof {
            assert(command_models(out@) =~= command_models(before).push(apply@));
        }
    }
    if rebind || change {
        push_inputs(out, b);
    }
    proof {
        assert(command_models(out@) =~= start + binding_commands(*b, told_entry(told)));
    }
}

/// Brings the renderer up to date with the bindings: the commands that it has to be sent,
/// while `told` becomes what it knows once it has received them. Bindings that are gone
/// are taken away last, in no particular order.
pub fn push_bindings(
    bindings: &Vec<MaterialBindingInstance>,
    told: &mut HashMap<u64, MaterialBindingSnapshot>,
) -> (r: Vec<HydraCommand>)
    ensures
        told_view(final(told)@) == told_finally(bindings@, told_view(old(told)@)),
        exists|gone: Seq<u64>|
            #![trigger removals(gone)]
            lists_set(gone, dropped_ids(bindings@, told_view(old(told)@))) && command_models(r@)
                == commands_after(bindings@, told_view(old(told)@), bindings@.len()) + removals(
                gone,
            ),
{
    let ghost start = told_view(told@);
    let mut out: Vec<HydraCommand> = Vec::new();
    let mut current: HashSet<u64> = HashSet::new();
    let mut i: usize = 0;
    proof {
        assert(command_models(out@) =~= Seq::<CommandModel>::empty());
    }
    while i < bindings.len()
        invariant
            i <= bindings@.len(),
            told_view(told@) == told_after(bindings@, start, i as nat),
            command_models(out@) == commands_after(bindings@, start, i as nat),
            current@ == assigned_ids(bindings@, i as nat),
        decreases bindings@.len() - i,
    {
        let b = &bindings[i];
        if b.assigned {
            let ghost before = told@;
            current.insert(b.id);
            let entry = told.get(&b.id);
            proof {
                assert(told_entry(entry) == told_view(before).get(b.id));
            }
            push_binding(&mut out, b, entry);
            let snapshot = MaterialBindingSnapshot::of(b);
            told.insert(b.id, snapshot);
            proof {
                assert(told_view(told@) =~= told_view(before).insert(b.id, b.snapshot()));
            }
        }
        i = i + 1;
    }
    let ghost full = told@;
    let ghost commands = command_models(out@);
    let known = known_ids(told);
    let ghost mut gone: Seq<u64> = Seq::empty();
    proof {
        assert(commands + removals(gone) =~= commands);
        assert(full.remove_keys(gone.to_set()) =~= full);
    }
    let mut k: usize = 0;
    while k < known.len()
        invariant
            k <= known@.len(),
            known@.no_duplicates(),
            known@.to_set() == full.dom(),
            current@ == assigned_ids(bindings@, bindings@.len()),
            command_models(out@) == commands + removals(gone),
            gone.no_duplicates(),
            forall|x: u64|
                gone.contains(x) <==> known@.take(k as int).contains(x) && !current@.contains(x),
            told@ == full.remove_keys(gone.to_set()),
        decreases known@.len() - k,
    {
        let id: u64 = known[k];
        proof {
            assert(known@.take(k + 1) =~= known@.take(k as int).push(id));
            assert(!known@.take(k as int).contains(id));
            assert forall|x: u64|
                known@.take(k + 1).contains(x) <==> known@.take(k as int).contains(x) || x
                    == id by {
                vstd::seq_lib::lemma_seq_contains_after_push(known@.take(k as int), id, x);
            }
        }
        if !current.contains(&id) {
            let ghost before = out@;
            let ghost was_gone = gone;
            let ghost was_told = told@;
            out.push(HydraCommand::Remove { id });
            told.remove(&id);
            proof {
                assert(told@ =~= was_told.remove(id));
                assert(!was_gone.contains(id));
                gone = was_gone.push(id);
                assert(command_models(out@) =~= command_models(before).push(
                    CommandModel::Remove { id },
                ));
                assert(commands + removals(gone) =~= (commands + removals(was_gone)).push(
                    CommandModel::Remove { id },
                ));
                assert forall|x: u64| gone.contains(x) <==> was_gone.contains(x) || x == id by {
                    vstd::seq_lib::lemma_seq_contains_after_push(was_gone, id, x);
                }
                assert forall|i: int, j: int| 0 <= i < j < gone.len() implies gone[i] != gone[j] by {
                    assert(was_gone.contains(was_gone[i]));
                }
                assert(gone.to_set() =~= was_gone.to_set().insert(id));
                assert(told@ =~= full.remove_keys(gone.to_set()));
            }
        }
        k = k + 1;
    }
    proof {
        assert(known@.take(known@.len() as int) =~= known@);
        assert(gone.to_set() =~= dropped_ids(bindings@, start)) by {
            assert forall|x: u64|
                gone.to_set().contains(x) <==> dropped_ids(bindings@, start).contains(x) by {
                assert(known@.to_set().contains(x) == known@.contains(x));
                assert(told_view(full).dom().contains(x) == full.dom().contains(x));
            }
        }
        assert forall|x: u64|
            told_view(told@).contains_key(x) <==> told_finally(bindings@, start).contains_key(
                x,
            ) by {
            assert(known@.to_set().contains(x) == known@.contains(x));
            assert(full.dom().contains(x) == known@.contains(x));
            assert(told_view(full).contains_key(x) == full.contains_key(x));
            assert(gone.contains(x) <==> known@.contains(x) && !current@.contains(x));
            assert(gone.to_set().contains(x) == gone.contains(x));
        }
        assert(told_view(told@) =~= told_finally(bindings@, start));
        assert(lists_set(gone, dropped_ids(bindings@, start)));
        assert(command_models(out@) == commands + removals(gone));
    }
    out
}

/// The ids of a table, in some order.
fn known_ids(told: &HashMap<u64, MaterialBindingSnapshot>) -> (r: Vec<u64>)
    ensures
        r@.no_duplicates(),
        r@.to_set() == told@.dom(),
{
    let mut out: Vec<u64> = Vec::new();
    let ghost all = vstd::std_specs::iter::IteratorSpec::remaining(&told.keys());
    for id in it: told.keys()
        invariant
            it.seq() == all,
            out@ == all.unref().take(it.index() as int),
    {
        proof {
            assert(all.unref().take(it.index() + 1) =~= all.unref().take(it.index() as int).push(
                *id,
            ));
        }
        out.push(*id);
    }
    proof {
        assert(all.unref().take(all.len() as int) =~= all.unref());
        assert forall|i: int, j: int| 0 <= i < j < out@.len() implies out@[i] != out@[j] by {
            assert(all[i] != all[j]);
        }
    }
    out
}

/// Whether no two assigned bindings share an id.
pub open spec fn ids_differ(bindings: Seq<MaterialBindingInstance>) -> bool {
    forall|i: int, j: int|
        #![trigger bindings[i], bindings[j]]
        0 <= i < j < bindings.len() && bindings[i].assigned && bindings[j].assigned
            ==> bindings[i].id != bindings[j].id
}

/// Once everything is up to date, the renderer knows the assigned bindings as they are,
/// and no others.
pub proof fn renderer_knows_the_assigned_bindings(
    bindings: Seq<MaterialBindingInstance>,
    told: Told,
    i: int,
)
    requires
        ids_differ(bindings),
        0 <= i < bindings.len(),
        bindings[i].assigned,
    ensures
        told_finally(bindings, told).dom() == assigned_ids(bindings, bindings.len()),
        told_finally(bindings, told).contains_key(bindings[i].id),
        told_finally(bindings, told)[bindings[i].id] == bindings[i].snapshot(),
{
    assigned_are_told(bindings, told, bindings.len());
    latest_is_told(bindings, told, i, bindings.len());
    assert(told_finally(bindings, told).dom() =~= assigned_ids(bindings, bindings.len()));
}

/// The assigned ones among the first `n` bindings have been told.
proof fn assigned_are_told(bindings: Seq<MaterialBindingInstance>, told: Told, n: nat)
    requires
        n <= bindings.len(),
    ensures
        assigned_ids(bindings, n).subset_of(told_after(bindings, told, n).dom()),
    decreases n,
{
    if n > 0 {
        assigned_are_told(bindings, told, (n - 1) as nat);
    }
}

/// What was told last about an id is the binding that has it.
proof fn latest_is_told(bindings: Seq<MaterialBindingInstance>, told: Told, i: int, n: nat)
    requires
        ids_differ(bindings),
        0 <= i < n <= bindings.len(),
        bindings[i].assigned,
    ensures
        assigned_ids(bindings, n).contains(bindings[i].id),
        told_after(bindings, told, n).contains_key(bindings[i].id),
        told_after(bindings, told, n)[bindings[i].id] == bindings[i].snapshot(),
    decreases n,
{
    if i < n - 1 {
        latest_is_told(bindings, told, i, (n - 1) as nat);
        if bindings[n - 1].assigned {
            assert(bindings[i].id != bindings[n - 1].id);
        }
    }
}

/// Pushing the same bindings again tells the renderer nothing, as long as their inputs
/// are numbers.
pub proof fn second_push_is_silent(bindings: Seq<MaterialBindingInstance>, told: Told)
    requires
        ids_differ(bindings),
        forall|i: int|
            0 <= i < bindings.len() && (#[trigger] bindings[i]).assigned
                ==> bindings[i].inputs.are_numbers(),
    ensures
        commands_after(bindings, told_finally(bindings, told), bindings.len()) == Seq::<
            CommandModel,
        >::empty(),
        dropped_ids(bindings, told_finally(bindings, told)) == Set::<u64>::empty(),
        told_finally(bindings, told_finally(bindings, told)) == told_finally(bindings, told),
{
    let known = told_finally(bindings, told);
    assigned_are_told(bindings, told, bindings.len());
    assert(known.dom() =~= assigned_ids(bindings, bindings.len()));
    silent_so_far(bindings, told, bindings.len());
    assert(dropped_ids(bindings, known) =~= Set::<u64>::empty());
    assert(told_finally(bindings, known) =~= known);
}

/// Nothing is told about the first `n` bindings the second time.
proof fn silent_so_far(bindings: Seq<MaterialBindingInstance>, told: Told, n: nat)
    requires
        ids_differ(bindings),
        n <= bindings.len(),
        forall|i: int|
            0 <= i < bindings.len() && (#[trigger] bindings[i]).assigned
                ==> bindings[i].inputs.are_numbers(),
    ensures
        commands_after(bindings, told_finally(bindings, told), n) == Seq::<CommandModel>::empty(),
        told_after(bindings, told_finally(bindings, told), n) == told_finally(bindings, told),
    decreases n,
{
    if n > 0 {
        silent_so_far(bindings, told, (n - 1) as nat);
        let known = told_finally(bindings, told);
        let b = bindings[n - 1];
        if b.assigned {
            renderer_knows_the_assigned_bindings(bindings, told, n - 1);
            assert(known.insert(b.id, b.snapshot()) =~= known);
            assert(binding_commands(b, known.get(b.id)) =~= Seq::<CommandModel>::empty());
        }
    }
}

/// Whether the value of an input is told under the name that the shader has for it, and
/// nothing where it has none.
pub open spec fn number_is_told(b: MaterialBindingInstance, pin: ShaderPin, value: Single) -> bool {
    match b.kind.input_name(pin) {
        Some(input) => input_commands(b).contains(
            CommandModel::SetNumber { id: b.id, input, value },
        ),
        None => true,
    }
}

/// The same for a colour.
pub open spec fn color_is_told(b: MaterialBindingInstance, pin: ShaderPin, color: Triple) -> bool {
    match b.kind.input_name(pin) {
        Some(input) => input_commands(b).contains(
            CommandModel::SetColor { id: b.id, input, color },
        ),
        None => true,
    }
}

/// The renderer is told the value of every input under the name of that very input, in the
/// name of the binding that it belongs to, and is told nothing else of inputs.
#[verifier::spinoff_prover]
#[verifier::rlimit(40)]
pub proof fn inputs_are_told_under_their_names(b: MaterialBindingInstance, k: int)
    ensures
        color_is_told(b, ShaderPin::DiffuseColor, b.inputs.diffuse_color),
        number_is_told(b, ShaderPin::Metallic, b.inputs.metallic),
        number_is_told(b, ShaderPin::Roughness, b.inputs.roughness),
        number_is_told(b, ShaderPin::Opacity, b.inputs.opacity),
        number_is_told(b, ShaderPin::Clearcoat, b.inputs.clearcoat),
        number_is_told(b, ShaderPin::ClearcoatRoughness, b.inputs.clearcoat_roughness),
        color_is_told(b, ShaderPin::EmissionColor, b.inputs.emission_color),
        number_is_told(b, ShaderPin::EmissionIntensity, b.inputs.emission_intensity),
        input_commands(b).len() <= 8,
        0 <= k < input_commands(b).len() ==> match input_commands(b)[k] {
            CommandModel::SetColor { id, input, color } => id == b.id && (b.kind.input_name(
                ShaderPin::DiffuseColor,
            ) == Some(input) && color == b.inputs.diffuse_color || b.kind.input_name(
                ShaderPin::EmissionColor,
            ) == Some(input) && color == b.inputs.emission_color),
            CommandModel::SetNumber { id, input, value } => id == b.id,
            _ => false,
        },
{
    let all = input_commands(b);
    let s0 = color_command(b, ShaderPin::DiffuseColor, b.inputs.diffuse_color);
    let s1 = number_command(b, ShaderPin::Metallic, b.inputs.metallic);
    let s2 = number_command(b, ShaderPin::Roughness, b.inputs.roughness);
    let s3 = number_command(b, ShaderPin::Opacity, b.inputs.opacity);
    let s4 = number_command(b, ShaderPin::Clearcoat, b.inputs.clearcoat);
    let s5 = number_command(b, ShaderPin::ClearcoatRoughness, b.inputs.clearcoat_roughness);
    let s6 = color_command(b, ShaderPin::EmissionColor, b.inputs.emission_color);
    let s7 = number_command(b, ShaderPin::EmissionIntensity, b.inputs.emission_intensity);
    let n1 = s0.len() as int;
    let n2 = n1 + s1.len();
    let n3 = n2 + s2.len();
    let n4 = n3 + s3.len();
    let n5 = n4 + s4.len();
    let n6 = n5 + s5.len();
    let n7 = n6 + s6.len();
    if s0.len() > 0 {
        assert(all[0] == s0[0]);
    }
    if s1.len() > 0 {
        assert(all[n1] == s1[0]);
    }
    if s2.len() > 0 {
        assert(all[n2] == s2[0]);
    }
    if s3.len() > 0 {
        assert(all[n3] == s3[0]);
    }
    if s4.len() > 0 {
        assert(all[n4] == s4[0]);
    }
    if s5.len() > 0 {
        assert(all[n5] == s5[0]);
    }
    if s6.len() > 0 {
        assert(all[n6] == s6[0]);
    }
    if s7.len() > 0 {
        assert(all[n7] == s7[0]);
    }
}

/// A binding that is new to the renderer, or is bound to another material or elsewhere, is
/// bound first: its own material to its own prims; then come its inputs. A binding of which
/// only inputs have changed is not bound again, and one of which nothing has changed is left
/// alone.
pub proof fn bindings_are_told_as_far_as_they_changed(
    b: MaterialBindingInstance,
    told: Option<SnapshotModel>,
)
    ensures
        ({
            let all = binding_commands(b, told);
            &&& rebinds(b, told) ==> all.len() == 1 + input_commands(b).len() && all[0]
                == (CommandModel::Apply {
                id: b.id,
                source: b.source@,
                prim_path: b.prim_path@,
                target_prims: views(b.target_prims@),
            }) && all.skip(1) == input_commands(b)
            &&& !rebinds(b, told) && inputs_change(b, told) ==> all == input_commands(b)
            &&& !rebinds(b, told) && !inputs_change(b, told) ==> all.len() == 0
            &&& told is None ==> rebinds(b, told)
            &&& told matches Some(p) ==> (p.prim_path != b.prim_path@ ==> rebinds(b, told)) && (
            p.target_prims != views(b.target_prims@) ==> rebinds(b, told)) && (!same_path(
                p.source,
                b.source@,
            ) ==> rebinds(b, told))
        }),
{
    let all = binding_commands(b, told);
    if rebinds(b, told) {
        assert(all.skip(1) =~= input_commands(b));
    } else if inputs_change(b, told) {
        assert(all =~= input_commands(b));
    }
}

/// The value of a binding has everything where the binding has it, and so has what is told of
/// it.
pub proof fn values_keep_their_bindings(b: MaterialBindingInstance, s: MaterialBindingSnapshot)
    ensures
        b@.id == b.id && b@.kind == b.kind && b@.inputs == b.inputs && b@.assigned == b.assigned,
        b@.source == b.source@ && b@.prim_path == b.prim_path@,
        b@.target_prims == views(b.target_prims@),
        s@.source == s.source@ && s@.prim_path == s.prim_path@ && s@.inputs == s.inputs,
        s@.target_prims == views(s.target_prims@) && s@.assigned == s.assigned,
        b.snapshot().source == b.source@ && b.snapshot().prim_path == b.prim_path@,
        b.snapshot().inputs == b.inputs && b.snapshot().assigned == b.assigned,
        b.snapshot().target_prims == views(b.target_prims@),
{
}

/// The value of a command names the same binding, and what it says stands where it stood.
pub proof fn values_keep_their_commands(c: HydraCommand)
    ensures
        c matches HydraCommand::Apply { id, source, prim_path, target_prims } ==> c@
            == (CommandModel::Apply {
            id,
            source: source@,
            prim_path: prim_path@,
            target_prims: views(target_prims@),
        }),
        c matches HydraCommand::SetColor { id, input, color } ==> c@ == (CommandModel::SetColor {
            id,
            input: input@,
            color,
        }),
        c matches HydraCommand::SetNumber { id, input, value } ==> c@ == (CommandModel::SetNumber {
            id,
            input: input@,
            value,
        }),
        c matches HydraCommand::Remove { id } ==> c@ == (CommandModel::Remove { id }),
{
}

} // verus!
