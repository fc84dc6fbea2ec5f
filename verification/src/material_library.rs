//! The library of materials: where it is looked for, what the materials in it are built on,
//! and which values they start from.

use crate::assets::{MaterialInputs, MaterialKind};
use crate::order::{list_by_stem, lists_by_stem};
use crate::paths::{
    extension, extension_of_path, file_name, file_name_of, join, join_path, parent, parent_of,
};
use crate::single::{Single, Triple};
use crate::text::{
    chars_of, contains, find_from, has_text, lower, occurs_at, same_text, split, split_chars,
    starts_with, text_of, to_lower, trim, trim_text, views,
};
use vstd::prelude::*;

verus! {

/// What the name of a material file says of its kind.
pub open spec fn kind_by_name(path: Seq<char>) -> Option<MaterialKind> {
    let name = lower(
        match file_name(path) {
            Some(n) => n,
            None => Seq::empty(),
        },
    );
    if contains(name, "materialx"@) || contains(name, ".mtlx"@) {
        Some(MaterialKind::MaterialX)
    } else if "dl_"@.is_prefix_of(name) || contains(name, ".osl."@) || contains(name, "delight"@) {
        Some(MaterialKind::DlPrincipled)
    } else if contains(name, "preview"@) || contains(name, ".up."@) {
        Some(MaterialKind::UsdPreviewSurface)
    } else {
        None
    }
}

/// What the beginning of a material file says of its kind.
pub open spec fn kind_by_head(head: Seq<char>) -> MaterialKind {
    if contains(head, "UsdPreviewSurface"@) {
        MaterialKind::UsdPreviewSurface
    } else if contains(head, "MaterialX"@) || contains(head, "ND_"@) {
        MaterialKind::MaterialX
    } else if contains(head, "dlPrincipled"@) || contains(head, "dlMetal"@) || contains(
        head,
        "dlGlass"@,
    ) || contains(head, "dlSkin"@) || contains(head, "dlCarPaint"@) || contains(
        head,
        "dlHairAndFur"@,
    ) || contains(head, "dlSubstance"@) {
        MaterialKind::DlPrincipled
    } else {
        MaterialKind::Other
    }
}

/// What the name of a material file says of its kind.
pub fn classify_by_name(path: &str) -> (r: Option<MaterialKind>)
    ensures
        r == kind_by_name(path@),
{
    let own = match file_name_of(path) {
        Some(n) => n,
        None => String::new(),
    };
    let low = to_lower(own.as_str());
    let name = low.as_str();
    if has_text(name, "materialx") || has_text(name, ".mtlx") {
        Some(MaterialKind::MaterialX)
    } else if starts_with(name, "dl_") || has_text(name, ".osl.") || has_text(name, "delight") {
        Some(MaterialKind::DlPrincipled)
    } else if has_text(name, "preview") || has_text(name, ".up.") {
        Some(MaterialKind::UsdPreviewSurface)
    } else {
        None
    }
}

/// What the beginning of a material file says of its kind.
pub fn classify_by_head(head: &str) -> (r: MaterialKind)
    ensures
        r == kind_by_head(head@),
{
    if has_text(head, "UsdPreviewSurface") {
        MaterialKind::UsdPreviewSurface
    } else if has_text(head, "MaterialX") || has_text(head, "ND_") {
        MaterialKind::MaterialX
    } else if has_text(head, "dlPrincipled") || has_text(head, "dlMetal") || has_text(
        head,
        "dlGlass",
    ) || has_text(head, "dlSkin") || has_text(head, "dlCarPaint") || has_text(
        head,
        "dlHairAndFur",
    ) || has_text(head, "dlSubstance") {
        MaterialKind::DlPrincipled
    } else {
        MaterialKind::Other
    }
}

/// The kind of a material file: what its name says, else what its beginning says; a file
/// that cannot be read says nothing.
pub fn classify_material_file(path: &str, head: Option<&str>) -> (r: MaterialKind)
    ensures
        r == match kind_by_name(path@) {
            Some(kind) => kind,
            None => match head {
                Some(text) => kind_by_head(text@),
                None => MaterialKind::Other,
            },
        },
{
    match classify_by_name(path) {
        Some(kind) => kind,
        None => match head {
            Some(text) => classify_by_head(text),
            None => MaterialKind::Other,
        },
    }
}

/// What stands in `s` right after the first occurrence of `pat`.
pub open spec fn after_first(s: Seq<char>, pat: Seq<char>, from: int) -> Option<Seq<char>>
    decreases s.len() + 1 - from,
{
    if from > s.len() {
        None
    } else if occurs_at(s, pat, from) {
        Some(s.skip(from + pat.len()))
    } else {
        after_first(s, pat, from + 1)
    }
}

/// Where nothing is found before an index, the search can start there.
proof fn after_first_skips(s: Seq<char>, pat: Seq<char>, from: int, to: int)
    requires
        0 <= from <= to,
        forall|j: int| from <= j < to ==> !occurs_at(s, pat, j),
    ensures
        after_first(s, pat, from) == after_first(s, pat, to),
    decreases to - from,
{
    if from < to {
        after_first_skips(s, pat, from + 1, to);
    }
}

/// A text up to the first of the characters for which `stop` holds.
pub open spec fn up_to(s: Seq<char>, stop: spec_fn(char) -> bool, i: int) -> int
    decreases s.len() - i,
{
    if i >= s.len() || stop(s[i]) {
        i
    } else {
        up_to(s, stop, i + 1)
    }
}

/// The candidates for a colour: for each name both ways of writing it, in order, what
/// stands between the brackets, cut at the commas and trimmed.
pub open spec fn color_candidate(text: Seq<char>, prefix: Seq<char>) -> Option<Seq<Seq<char>>> {
    match after_first(text, prefix, 0) {
        None => None,
        Some(tail) => {
            let end = up_to(tail, |c: char| c == ')', 0);
            if end < tail.len() {
                let pieces = split(tail.take(end), ',');
                Some(Seq::new(pieces.len(), |i: int| trim(pieces[i])))
            } else {
                None
            }
        },
    }
}

/// The candidate for a number: what follows up to the end of the line or a blank.
pub open spec fn number_candidate(text: Seq<char>, prefix: Seq<char>) -> Option<Seq<char>> {
    match after_first(text, prefix, 0) {
        None => None,
        Some(tail) => Some(
            trim(tail.take(up_to(tail, |c: char| c == '\n' || c == ' ', 0))),
        ),
    }
}

/// The two ways in which an input is written: with a blank before the equals sign or
/// without.
pub open spec fn color_prefix(name: Seq<char>, blank: bool) -> Seq<char> {
    "color3f inputs:"@ + name + if blank {
        " = ("@
    } else {
        "= ("@
    }
}

/// The two ways in which an input is written.
pub open spec fn number_prefix(name: Seq<char>, blank: bool) -> Seq<char> {
    "float inputs:"@ + name + if blank {
        " = "@
    } else {
        "= "@
    }
}

/// A list with another entry, if there is one.
pub open spec fn with_entry<A>(list: Seq<A>, entry: Option<A>) -> Seq<A> {
    match entry {
        Some(e) => list.push(e),
        None => list,
    }
}

/// The candidates for a colour under the first `n` names.
pub open spec fn color_candidates(text: Seq<char>, names: Seq<Seq<char>>, n: nat) -> Seq<
    Seq<Seq<char>>,
>
    decreases n,
{
    if n == 0 {
        Seq::empty()
    } else {
        with_entry(
            with_entry(
                color_candidates(text, names, (n - 1) as nat),
                color_candidate(text, color_prefix(names[n - 1], true)),
            ),
            color_candidate(text, color_prefix(names[n - 1], false)),
        )
    }
}

/// The candidates for a number under the first `n` names.
pub open spec fn number_candidates(text: Seq<char>, names: Seq<Seq<char>>, n: nat) -> Seq<Seq<char>>
    decreases n,
{
    if n == 0 {
        Seq::empty()
    } else {
        with_entry(
            with_entry(
                number_candidates(text, names, (n - 1) as nat),
                number_candidate(text, number_prefix(names[n - 1], true)),
            ),
            number_candidate(text, number_prefix(names[n - 1], false)),
        )
    }
}

/// The index after the first occurrence of `pat`.
fn index_after(chars: &Vec<char>, pat: &Vec<char>) -> (r: Option<usize>)
    ensures
        match r {
            Some(at) => at <= chars@.len() && after_first(chars@, pat@, 0) == Some(
                chars@.skip(at as int),
            ),
            None => after_first(chars@, pat@, 0) is None,
        },
{
    match find_from(chars, pat, 0) {
        Some(at) => {
            proof {
                after_first_skips(chars@, pat@, 0, at as int);
                assert(at + pat.len() <= chars.len());
            }
            Some(at + pat.len())
        },
        None => {
            proof {
                after_first_skips(chars@, pat@, 0, chars@.len() as int + 1);
            }
            None
        },
    }
}

/// A copy of the characters `from..to`.
fn slice(chars: &Vec<char>, from: usize, to: usize) -> (r: Vec<char>)
    requires
        from <= to <= chars@.len(),
    ensures
        r@ == chars@.subrange(from as int, to as int),
{
    let mut out: Vec<char> = Vec::new();
    let mut i: usize = from;
    while i < to
        invariant
            from <= i <= to <= chars@.len(),
            out@ == chars@.subrange(from as int, i as int),
        decreases to - i,
    {
        out.push(chars[i]);
        proof {
            assert(out@ =~= chars@.subrange(from as int, i + 1));
        }
        i = i + 1;
    }
    out
}

/// The candidate for a colour after a prefix.
fn find_color(chars: &Vec<char>, prefix: &str) -> (r: Option<Vec<String>>)
    ensures
        match r {
            Some(list) => color_candidate(chars@, prefix@) == Some(views(list@)),
            None => color_candidate(chars@, prefix@) is None,
        },
{
    let at: usize = match index_after(chars, &chars_of(prefix)) {
        Some(at) => at,
        None => return None,
    };
    let ghost tail = chars@.skip(at as int);
    let ghost stop = |c: char| c == ')';
    let mut end: usize = at;
    while end < chars.len() && chars[end] != ')'
        invariant
            at <= end <= chars@.len(),
            tail == chars@.skip(at as int),
            stop == (|c: char| c == ')'),
            up_to(tail, stop, 0) == up_to(tail, stop, end - at),
        decreases chars@.len() - end,
    {
        proof {
            assert(tail[end - at] == chars@[end as int]);
        }
        end = end + 1;
    }
    if end == chars.len() {
        return None;
    }
    proof {
        assert(tail[end - at] == chars@[end as int]);
    }
    let inside = slice(chars, at, end);
    proof {
        assert(inside@ =~= tail.take(end - at));
    }
    let pieces = split_chars(&inside, ',');
    let ghost cut = split(inside@, ',');
    let mut out: Vec<String> = Vec::new();
    let mut i: usize = 0;
    while i < pieces.len()
        invariant
            i <= pieces@.len() == cut.len(),
            forall|k: int| 0 <= k < pieces@.len() ==> (#[trigger] pieces@[k])@ == cut[k],
            out@.len() == i,
            forall|k: int| 0 <= k < i ==> (#[trigger] out@[k])@ == trim(cut[k]),
        decreases pieces@.len() - i,
    {
        let piece = text_of(&pieces[i]);
        out.push(trim_text(piece.as_str()));
        i = i + 1;
    }
    proof {
        assert(views(out@) =~= Seq::new(cut.len(), |k: int| trim(cut[k])));
    }
    Some(out)
}

/// The candidate for a number after a prefix.
fn find_number(chars: &Vec<char>, prefix: &str) -> (r: Option<String>)
    ensures
        match r {
            Some(s) => number_candidate(chars@, prefix@) == Some(s@),
            None => number_candidate(chars@, prefix@) is None,
        },
{
    let at: usize = match index_after(chars, &chars_of(prefix)) {
        Some(at) => at,
        None => return None,
    };
    let ghost tail = chars@.skip(at as int);
    let ghost stop = |c: char| c == '\n' || c == ' ';
    let mut end: usize = at;
    while end < chars.len() && chars[end] != '\n' && chars[end] != ' '
        invariant
            at <= end <= chars@.len(),
            tail == chars@.skip(at as int),
            stop == (|c: char| c == '\n' || c == ' '),
            up_to(tail, stop, 0) == up_to(tail, stop, end - at),
        decreases chars@.len() - end,
    {
        proof {
            assert(tail[end - at] == chars@[end as int]);
        }
        end = end + 1;
    }
    proof {
        if end < chars@.len() {
            assert(tail[end - at] == chars@[end as int]);
        }
        assert(chars@.subrange(at as int, end as int) =~= tail.take(end - at));
    }
    let piece = text_of(&slice(chars, at, end));
    Some(trim_text(piece.as_str()))
}

/// Each list of strings as a value of the specification.
pub open spec fn list_views(list: Seq<Vec<String>>) -> Seq<Seq<Seq<char>>> {
    Seq::new(list.len(), |i: int| views(list[i]@))
}

/// The candidates for a colour under some names.
fn scan_color(chars: &Vec<char>, names: &Vec<&'static str>) -> (r: Vec<Vec<String>>)
    ensures
        list_views(r@) == color_candidates(
            chars@,
            Seq::new(names@.len(), |i: int| names@[i]@),
            names@.len(),
        ),
{
    let ghost all = Seq::new(names@.len(), |i: int| names@[i]@);
    let mut out: Vec<Vec<String>> = Vec::new();
    let mut i: usize = 0;
    proof {
        assert(list_views(out@) =~= Seq::<Seq<Seq<char>>>::empty());
    }
    while i < names.len()
        invariant
            i <= names@.len(),
            all == Seq::new(names@.len(), |k: int| names@[k]@),
            list_views(out@) == color_candidates(chars@, all, i as nat),
        decreases names@.len() - i,
    {
        let base = String::from_str("color3f inputs:").concat(names[i]);
        let wide = base.clone().concat(" = (");
        let narrow = base.concat("= (");
        let ghost before = out@;
        if let Some(list) = find_color(chars, wide.as_str()) {
            out.push(list);
            proof {
                assert(list_views(out@) =~= list_views(before).push(views(list@)));
            }
        }
        let ghost middle = out@;
        if let Some(list) = find_color(chars, narrow.as_str()) {
            out.push(list);
            proof {
                assert(list_views(out@) =~= list_views(middle).push(views(list@)));
            }
        }
        i = i + 1;
    }
    out
}

/// The candidates for a number under some names.
fn scan_float(chars: &Vec<char>, names: &Vec<&'static str>) -> (r: Vec<String>)
    ensures
        views(r@) == number_candidates(
            chars@,
            Seq::new(names@.len(), |i: int| names@[i]@),
            names@.len(),
        ),
{
    let ghost all = Seq::new(names@.len(), |i: int| names@[i]@);
    let mut out: Vec<String> = Vec::new();
    let mut i: usize = 0;
    proof {
        assert(views(out@) =~= Seq::<Seq<char>>::empty());
    }
    while i < names.len()
        invariant
            i <= names@.len(),
            all == Seq::new(names@.len(), |k: int| names@[k]@),
            views(out@) == number_candidates(chars@, all, i as nat),
        decreases names@.len() - i,
    {
        let base = String::from_str("float inputs:").concat(names[i]);
        let wide = base.clone().concat(" = ");
        let narrow = base.concat("= ");
        let ghost before = out@;
        if let Some(s) = find_number(chars, wide.as_str()) {
            out.push(s);
            proof {
                assert(views(out@) =~= views(before).push(s@));
            }
        }
        let ghost middle = out@;
        if let Some(s) = find_number(chars, narrow.as_str()) {
            out.push(s);
            proof {
                assert(views(out@) =~= views(middle).push(s@));
            }
        }
        i = i + 1;
    }
    out
}

/// What a material file says of the inputs that the editor drives: for each the texts that
/// may be its value, in the order in which they count.
pub struct MaterialScan {
    pub diffuse_color: Vec<Vec<String>>,
    pub metallic: Vec<String>,
    pub roughness: Vec<String>,
    pub opacity: Vec<String>,
    pub clearcoat: Vec<String>,
    pub clearcoat_roughness: Vec<String>,
    pub emission_color: Vec<Vec<String>>,
    pub emission_intensity: Vec<String>,
    pub is_glass: bool,
}

/// The candidates for a colour under some names.
pub open spec fn colors_under(text: Seq<char>, names: Seq<Seq<char>>) -> Seq<Seq<Seq<char>>> {
    color_candidates(text, names, names.len())
}

/// The candidates for a number under some names.
pub open spec fn numbers_under(text: Seq<char>, names: Seq<Seq<char>>) -> Seq<Seq<char>> {
    number_candidates(text, names, names.len())
}

/// Looks for the inputs in the beginning of a material file.
pub fn scan_material(text: &str) -> (r: MaterialScan)
    ensures
        list_views(r.diffuse_color@) == colors_under(
            text@,
            seq![
                "diffuseColor"@,
                "base_color"@,
                "i_color"@,
                "reflect_color"@,
                "refract_color"@,
            ],
        ),
        views(r.metallic@) == numbers_under(text@, seq!["metallic"@, "metalness"@]),
        views(r.roughness@) == numbers_under(
            text@,
            seq![
                "roughness"@,
                "specular_roughness"@,
                "reflect_roughness"@,
                "refract_roughness"@,
            ],
        ),
        views(r.opacity@) == numbers_under(text@, seq!["opacity"@]),
        views(r.clearcoat@) == numbers_under(
            text@,
            seq!["clearcoat"@, "coat"@, "coating_thickness"@],
        ),
        views(r.clearcoat_roughness@) == numbers_under(
            text@,
            seq!["clearcoatRoughness"@, "coat_roughness"@, "coating_roughness"@],
        ),
        list_views(r.emission_color@) == colors_under(
            text@,
            seq!["emissiveColor"@, "emission_color"@, "incandescence"@],
        ),
        views(r.emission_intensity@) == numbers_under(
            text@,
            seq!["emission"@, "incandescence_intensity"@],
        ),
        r.is_glass == contains(text@, "info:id = \"dlGlass\""@),
{
    let chars = chars_of(text);
    let diffuse_names: Vec<&'static str> = vec![
        "diffuseColor",
        "base_color",
        "i_color",
        "reflect_color",
        "refract_color",
    ];
    let metallic_names: Vec<&'static str> = vec!["metallic", "metalness"];
    let roughness_names: Vec<&'static str> = vec![
        "roughness",
        "specular_roughness",
        "reflect_roughness",
        "refract_roughness",
    ];
    let opacity_names: Vec<&'static str> = vec!["opacity"];
    let coat_names: Vec<&'static str> = vec!["clearcoat", "coat", "coating_thickness"];
    let coat_roughness_names: Vec<&'static str> = vec![
        "clearcoatRoughness",
        "coat_roughness",
        "coating_roughness",
    ];
    let emission_names: Vec<&'static str> = vec![
        "emissiveColor",
        "emission_color",
        "incandescence",
    ];
    let strength_names: Vec<&'static str> = vec!["emission", "incandescence_intensity"];
    proof {
        assert(Seq::new(diffuse_names@.len(), |i: int| diffuse_names@[i]@) =~= seq![
            "diffuseColor"@,
            "base_color"@,
            "i_color"@,
            "reflect_color"@,
            "refract_color"@,
        ]);
        assert(Seq::new(metallic_names@.len(), |i: int| metallic_names@[i]@) =~= seq![
            "metallic"@,
            "metalness"@,
        ]);
        assert(Seq::new(roughness_names@.len(), |i: int| roughness_names@[i]@) =~= seq![
            "roughness"@,
            "specular_roughness"@,
            "reflect_roughness"@,
            "refract_roughness"@,
        ]);
        assert(Seq::new(opacity_names@.len(), |i: int| opacity_names@[i]@) =~= seq!["opacity"@]);
        assert(Seq::new(coat_names@.len(), |i: int| coat_names@[i]@) =~= seq![
            "clearcoat"@,
            "coat"@,
            "coating_thickness"@,
        ]);
        assert(Seq::new(coat_roughness_names@.len(), |i: int| coat_roughness_names@[i]@) =~= seq![
            "clearcoatRoughness"@,
            "coat_roughness"@,
            "coating_roughness"@,
        ]);
        assert(Seq::new(emission_names@.len(), |i: int| emission_names@[i]@) =~= seq![
            "emissiveColor"@,
            "emission_color"@,
            "incandescence"@,
        ]);
        assert(Seq::new(strength_names@.len(), |i: int| strength_names@[i]@) =~= seq![
            "emission"@,
            "incandescence_intensity"@,
        ]);
    }
    MaterialScan {
        diffuse_color: scan_color(&chars, &diffuse_names),
        metallic: scan_float(&chars, &metallic_names),
        roughness: scan_float(&chars, &roughness_names),
        opacity: scan_float(&chars, &opacity_names),
        clearcoat: scan_float(&chars, &coat_names),
        clearcoat_roughness: scan_float(&chars, &coat_roughness_names),
        emission_color: scan_color(&chars, &emission_names),
        emission_intensity: scan_float(&chars, &strength_names),
        is_glass: has_text(text, "info:id = \"dlGlass\""),
    }
}

/// The candidates of a scan once they were read as numbers; nothing stands for a text that
/// is not one.
pub struct MaterialNumbers {
    pub diffuse_color: Vec<Vec<Option<Single>>>,
    pub metallic: Vec<Option<Single>>,
    pub roughness: Vec<Option<Single>>,
    pub opacity: Vec<Option<Single>>,
    pub clearcoat: Vec<Option<Single>>,
    pub clearcoat_roughness: Vec<Option<Single>>,
    pub emission_color: Vec<Vec<Option<Single>>>,
    pub emission_intensity: Vec<Option<Single>>,
    pub is_glass: bool,
}

/// The numbers among the candidates.
pub open spec fn present(list: Seq<Option<Single>>) -> Seq<Single>
    decreases list.len(),
{
    if list.len() == 0 {
        Seq::empty()
    } else {
        with_entry(present(list.drop_last()), list.last())
    }
}

/// The first number from index `i` on.
pub open spec fn first_number(list: Seq<Option<Single>>, i: int) -> Option<Single>
    decreases list.len() - i,
{
    if i >= list.len() {
        None
    } else if list[i] is Some {
        list[i]
    } else {
        first_number(list, i + 1)
    }
}

/// The first colour from index `i` on: a list that holds exactly three numbers.
pub open spec fn first_color(list: Seq<Seq<Option<Single>>>, i: int) -> Option<Triple>
    decreases list.len() - i,
{
    if i >= list.len() {
        None
    } else if present(list[i]).len() == 3 {
        let p = present(list[i]);
        Some(Triple { x: p[0], y: p[1], z: p[2] })
    } else {
        first_color(list, i + 1)
    }
}

/// A value, or another one where there is none.
pub open spec fn number_or(a: Option<Single>, b: Single) -> Single {
    match a {
        Some(x) => x,
        None => b,
    }
}

/// A colour, or another one where there is none.
pub open spec fn color_or(a: Option<Triple>, b: Triple) -> Triple {
    match a {
        Some(x) => x,
        None => b,
    }
}

/// Each list of candidates as a value of the specification.
pub open spec fn option_views(list: Seq<Vec<Option<Single>>>) -> Seq<Seq<Option<Single>>> {
    Seq::new(list.len(), |i: int| list[i]@)
}

/// The values that a material starts from: for each input the first candidate that is one,
/// else the default. Glass is never more than 0.28 opaque and never metallic.
pub open spec fn seeded_inputs(n: MaterialNumbers) -> MaterialInputs {
    let d = MaterialInputs::default_spec();
    let opacity = number_or(first_number(n.opacity@, 0), d.opacity);
    let metallic = number_or(first_number(n.metallic@, 0), d.metallic);
    MaterialInputs {
        diffuse_color: color_or(
            first_color(option_views(n.diffuse_color@), 0),
            d.diffuse_color,
        ),
        metallic: if n.is_glass {
            Single { bits: 0 }
        } else {
            metallic
        },
        roughness: number_or(first_number(n.roughness@, 0), d.roughness),
        opacity: if n.is_glass {
            opacity.min_spec(Single { bits: 0x3e8f_5c29 })
        } else {
            opacity
        },
        clearcoat: number_or(first_number(n.clearcoat@, 0), d.clearcoat),
        clearcoat_roughness: number_or(
            first_number(n.clearcoat_roughness@, 0),
            d.clearcoat_roughness,
        ),
        emission_color: color_or(
            first_color(option_views(n.emission_color@), 0),
            d.emission_color,
        ),
        emission_intensity: number_or(
            first_number(n.emission_intensity@, 0),
            d.emission_intensity,
        ),
    }
}

/// The first number of a list, or another one where there is none.
fn pick_number(list: &Vec<Option<Single>>, default: Single) -> (r: Single)
    ensures
        r == number_or(first_number(list@, 0), default),
{
    let mut i: usize = 0;
    while i < list.len()
        invariant
            i <= list@.len(),
            first_number(list@, 0) == first_number(list@, i as int),
        decreases list@.len() - i,
    {
        if let Some(x) = list[i] {
            return x;
        }
        i = i + 1;
    }
    default
}

/// The numbers among the candidates.
fn numbers_in(list: &Vec<Option<Single>>) -> (r: Vec<Single>)
    ensures
        r@ == present(list@),
{
    let mut out: Vec<Single> = Vec::new();
    let mut i: usize = 0;
    while i < list.len()
        invariant
            i <= list@.len(),
            out@ == present(list@.take(i as int)),
        decreases list@.len() - i,
    {
        proof {
            assert(list@.take(i + 1).drop_last() =~= list@.take(i as int));
            assert(list@.take(i + 1).last() == list@[i as int]);
        }
        if let Some(x) = list[i] {
            out.push(x);
        }
        i = i + 1;
    }
    proof {
        assert(list@.take(list@.len() as int) =~= list@);
    }
    out
}

/// The first colour of a list, or another one where there is none.
fn pick_color(list: &Vec<Vec<Option<Single>>>, default: Triple) -> (r: Triple)
    ensures
        r == color_or(first_color(option_views(list@), 0), default),
{
    let mut i: usize = 0;
    while i < list.len()
        invariant
            i <= list@.len(),
            first_color(option_views(list@), 0) == first_color(option_views(list@), i as int),
        decreases list@.len() - i,
    {
        let p = numbers_in(&list[i]);
        if p.len() == 3 {
            return Triple { x: p[0], y: p[1], z: p[2] };
        }
        i = i + 1;
    }
    default
}

/// The values that a material starts from.
pub fn read_material_inputs(numbers: &MaterialNumbers) -> (r: MaterialInputs)
    ensures
        r == seeded_inputs(*numbers),
{
    let d = MaterialInputs::default();
    let mut inputs = MaterialInputs {
        diffuse_color: pick_color(&numbers.diffuse_color, d.diffuse_color),
        metallic: pick_number(&numbers.metallic, d.metallic),
        roughness: pick_number(&numbers.roughness, d.roughness),
        opacity: pick_number(&numbers.opacity, d.opacity),
        clearcoat: pick_number(&numbers.clearcoat, d.clearcoat),
        clearcoat_roughness: pick_number(&numbers.clearcoat_roughness, d.clearcoat_roughness),
        emission_color: pick_color(&numbers.emission_color, d.emission_color),
        emission_intensity: pick_number(&numbers.emission_intensity, d.emission_intensity),
    };
    if numbers.is_glass {
        inputs.opacity = inputs.opacity.min(Single { bits: 0x3e8f_5c29 });
        inputs.metallic = Single { bits: 0 };
    }
    inputs
}

/// The library below a folder.
pub open spec fn library_in(dir: Seq<char>) -> Seq<char> {
    join(join(dir, "assets"@), "materials"@)
}

/// The library below a folder.
fn library_path(dir: &str) -> (r: String)
    ensures
        r@ == library_in(dir@),
{
    let assets = join_path(dir, "assets");
    join_path(assets.as_str(), "materials")
}

/// The folders above a program, up to three.
pub open spec fn folders_above(exe: Option<Seq<char>>) -> Seq<Seq<char>> {
    match exe {
        None => Seq::empty(),
        Some(path) => match parent(path) {
            None => Seq::empty(),
            Some(a) => match parent(a) {
                None => seq![a],
                Some(b) => match parent(b) {
                    None => seq![a, b],
                    Some(c) => seq![a, b, c],
                },
            },
        },
    }
}

/// The folders above a program, up to three.
pub fn folders_above_program(exe: Option<&str>) -> (r: Vec<String>)
    ensures
        views(r@) == folders_above(
            match exe {
                Some(s) => Some(s@),
                None => None,
            },
        ),
{
    let mut out: Vec<String> = Vec::new();
    if let Some(path) = exe {
        if let Some(a) = parent_of(path) {
            let second = parent_of(a.as_str());
            out.push(a);
            if let Some(b) = second {
                let third = parent_of(b.as_str());
                out.push(b);
                if let Some(c) = third {
                    out.push(c);
                }
            }
        }
    }
    proof {
        assert(views(out@) =~= folders_above(
            match exe {
                Some(s) => Some(s@),
                None => None,
            },
        ));
    }
    out
}

/// Where the library may be, in the order in which it is looked for: below the working
/// folder, below the folders above the program, and where the user said.
pub open spec fn library_dirs(
    root: Seq<char>,
    exe: Option<Seq<char>>,
    chosen: Option<Seq<char>>,
) -> Seq<Seq<char>> {
    let above = folders_above(exe);
    seq![library_in(root)] + Seq::new(above.len(), |i: int| library_in(above[i])) + (match chosen {
        Some(dir) => seq![dir],
        None => Seq::empty(),
    })
}

/// Where the library may be, in the order in which it is looked for.
pub fn material_dirs(root: &str, exe: Option<&str>, chosen: Option<&str>) -> (r: Vec<String>)
    ensures
        views(r@) == library_dirs(
            root@,
            match exe {
                Some(s) => Some(s@),
                None => None,
            },
            match chosen {
                Some(s) => Some(s@),
                None => None,
            },
        ),
{
    let above = folders_above_program(exe);
    let ghost dirs = views(above@);
    let mut out: Vec<String> = Vec::new();
    out.push(library_path(root));
    let mut i: usize = 0;
    proof {
        assert(views(out@) =~= seq![library_in(root@)] + Seq::new(
            0,
            |k: int| library_in(dirs[k]),
        ));
    }
    while i < above.len()
        invariant
            i <= above@.len(),
            dirs == views(above@),
            views(out@) == seq![library_in(root@)] + Seq::new(
                i as nat,
                |k: int| library_in(dirs[k]),
            ),
        decreases above@.len() - i,
    {
        let ghost before = out@;
        out.push(library_path(above[i].as_str()));
        proof {
            assert(views(out@) =~= views(before).push(library_in(dirs[i as int])));
            assert(views(out@) =~= seq![library_in(root@)] + Seq::new(
                (i + 1) as nat,
                |k: int| library_in(dirs[k]),
            ));
        }
        i = i + 1;
    }
    let ghost before = out@;
    if let Some(dir) = chosen {
        out.push(String::from_str(dir));
    }
    proof {
        assert(views(out@) =~= library_dirs(
            root@,
            match exe {
                Some(s) => Some(s@),
                None => None,
            },
            match chosen {
                Some(s) => Some(s@),
                None => None,
            },
        ));
    }
    out
}

/// Whether a file may hold a material.
pub open spec fn may_hold_material(path: Seq<char>) -> bool {
    match extension(path) {
        Some(e) => lower(e) == "usd"@ || lower(e) == "usda"@ || lower(e) == "usdc"@ || lower(e)
            == "usdz"@,
        None => false,
    }
}

/// The files that may hold a material among the first `n` of a folder.
pub open spec fn material_files(paths: Seq<Seq<char>>, n: nat) -> Seq<Seq<char>>
    decreases n,
{
    if n == 0 {
        Seq::empty()
    } else {
        let front = material_files(paths, (n - 1) as nat);
        if may_hold_material(paths[n - 1]) {
            front.push(paths[n - 1])
        } else {
            front
        }
    }
}

/// The files that may hold a material in a folder.
fn files_with_materials(paths: &Vec<String>) -> (r: Vec<String>)
    ensures
        views(r@) == material_files(views(paths@), paths@.len()),
{
    let ghost all = views(paths@);
    let mut found: Vec<String> = Vec::new();
    let mut i: usize = 0;
    proof {
        assert(views(found@) =~= material_files(all, 0));
    }
    while i < paths.len()
        invariant
            i <= paths@.len(),
            all == views(paths@),
            views(found@) == material_files(all, i as nat),
        decreases paths@.len() - i,
    {
        let path = paths[i].as_str();
        let ghost before = found@;
        let counts = match extension_of_path(path) {
            Some(e) => {
                let l = to_lower(e.as_str());
                same_text(l.as_str(), "usd") || same_text(l.as_str(), "usda") || same_text(
                    l.as_str(),
                    "usdc",
                ) || same_text(l.as_str(), "usdz")
            },
            None => false,
        };
        if counts {
            found.push(String::from_str(path));
            proof {
                assert(views(found@) =~= views(before).push(path@));
            }
        }
        i = i + 1;
    }
    found
}

/// The materials of the library: those of the first folder that has any, by name.
pub fn discover_materials(folders: &Vec<Vec<String>>) -> (r: Vec<(String, String)>)
    ensures
        r@.len() == 0 ==> forall|i: int|
            0 <= i < folders@.len() ==> material_files(
                views((#[trigger] folders@[i])@),
                folders@[i]@.len(),
            ).len() == 0,
        r@.len() > 0 ==> exists|i: int|
            0 <= i < folders@.len() && lists_by_stem(
                r@,
                material_files(views((#[trigger] folders@[i])@), folders@[i]@.len()),
                "material"@,
            ) && forall|j: int|
                0 <= j < i ==> material_files(
                    views((#[trigger] folders@[j])@),
                    folders@[j]@.len(),
                ).len() == 0,
{
    let mut i: usize = 0;
    while i < folders.len()
        invariant
            i <= folders@.len(),
            forall|j: int|
                0 <= j < i ==> material_files(
                    views((#[trigger] folders@[j])@),
                    folders@[j]@.len(),
                ).len() == 0,
        decreases folders@.len() - i,
    {
        let found = files_with_materials(&folders[i]);
        proof {
            assert(views(found@).len() == found@.len());
        }
        if found.len() > 0 {
            return list_by_stem(&found, "material");
        }
        i = i + 1;
    }
    Vec::new()
}

/// The number that counts is the first one there is.
pub proof fn the_first_number_counts(list: Seq<Option<Single>>, from: int)
    requires
        0 <= from,
    ensures
        match first_number(list, from) {
            Some(x) => exists|k: int|
                from <= k < list.len() && #[trigger] list[k] == Some(x) && forall|j: int|
                    from <= j < k ==> #[trigger] list[j] is None,
            None => forall|j: int| from <= j < list.len() ==> #[trigger] list[j] is None,
        },
    decreases list.len() - from,
{
    if from < list.len() && list[from] is None {
        the_first_number_counts(list, from + 1);
    }
}

/// The colour that counts is the first that is three numbers: red, green and blue in order.
pub proof fn the_first_colour_counts(list: Seq<Seq<Option<Single>>>, from: int)
    requires
        0 <= from,
    ensures
        match first_color(list, from) {
            Some(c) => exists|k: int|
                from <= k < list.len() && present(#[trigger] list[k]).len() == 3 && present(list[k])[0]
                    == c.x && present(list[k])[1] == c.y && present(list[k])[2] == c.z && forall|j: int|
                    from <= j < k ==> present(#[trigger] list[j]).len() != 3,
            None => forall|j: int| from <= j < list.len() ==> present(#[trigger] list[j]).len() != 3,
        },
    decreases list.len() - from,
{
    if from < list.len() && present(list[from]).len() != 3 {
        the_first_colour_counts(list, from + 1);
    }
}

/// Every input starts from its own candidates, and from its own default where none of them is a
/// value. Only glass is treated apart: it is not metallic, and it is no more opaque than 0.28.
pub proof fn inputs_start_from_their_own_candidates(n: MaterialNumbers)
    ensures
        ({
            let m = seeded_inputs(n);
            let d = MaterialInputs::default_spec();
            &&& m.roughness == number_or(first_number(n.roughness@, 0), d.roughness)
            &&& m.clearcoat == number_or(first_number(n.clearcoat@, 0), d.clearcoat)
            &&& m.clearcoat_roughness == number_or(
                first_number(n.clearcoat_roughness@, 0),
                d.clearcoat_roughness,
            )
            &&& m.emission_intensity == number_or(
                first_number(n.emission_intensity@, 0),
                d.emission_intensity,
            )
            &&& m.diffuse_color == color_or(
                first_color(option_views(n.diffuse_color@), 0),
                d.diffuse_color,
            )
            &&& m.emission_color == color_or(
                first_color(option_views(n.emission_color@), 0),
                d.emission_color,
            )
            &&& !n.is_glass ==> m.metallic == number_or(first_number(n.metallic@, 0), d.metallic)
                && m.opacity == number_or(first_number(n.opacity@, 0), d.opacity)
            &&& n.is_glass ==> m.metallic.bits == 0 && !(Single { bits: 0x3e8f_5c29 }).less_spec(
                m.opacity,
            )
        }),
{
}

/// The folders above a program are its own, the one above that, and the one above that; the
/// library is looked for below the working folder first, then below these, then where the user
/// says.
pub proof fn libraries_are_looked_for_in_order(
    root: Seq<char>,
    exe: Option<Seq<char>>,
    chosen: Option<Seq<char>>,
)
    ensures
        ({
            let above = folders_above(exe);
            let dirs = library_dirs(root, exe, chosen);
            &&& above.len() <= 3
            &&& above.len() > 0 ==> exe is Some && parent(exe->0) == Some(above[0])
            &&& forall|i: int|
                1 <= i < above.len() ==> parent(above[i - 1]) == Some(#[trigger] above[i])
            &&& dirs.len() == 1 + above.len() + (if chosen is Some {
                1nat
            } else {
                0
            })
            &&& dirs[0] == join(join(root, "assets"@), "materials"@)
            &&& forall|i: int|
                0 <= i < above.len() ==> #[trigger] dirs[1 + i] == join(
                    join(above[i], "assets"@),
                    "materials"@,
                )
            &&& chosen matches Some(dir) ==> dirs.last() == dir
        }),
{
}

/// What the name of a material file says counts in order: MaterialX, then 3Delight, then the
/// preview surface.
pub proof fn names_tell_kinds_of_materials(path: Seq<char>)
    requires
        file_name(path) is Some,
    ensures
        ({
            let name = lower(file_name(path)->0);
            let x = contains(name, "materialx"@) || contains(name, ".mtlx"@);
            let d = "dl_"@.is_prefix_of(name) || contains(name, ".osl."@) || contains(
                name,
                "delight"@,
            );
            let p = contains(name, "preview"@) || contains(name, ".up."@);
            &&& kind_by_name(path) == Some(MaterialKind::MaterialX) <==> x
            &&& kind_by_name(path) == Some(MaterialKind::DlPrincipled) <==> d && !x
            &&& kind_by_name(path) == Some(MaterialKind::UsdPreviewSurface) <==> p && !x && !d
            &&& kind_by_name(path) is None <==> !x && !d && !p
        }),
{
}

/// What follows a text in another follows its first occurrence there; nothing follows what does
/// not occur.
pub proof fn what_follows_follows_the_first(s: Seq<char>, pat: Seq<char>, from: int)
    requires
        0 <= from,
    ensures
        match after_first(s, pat, from) {
            Some(tail) => exists|at: int|
                from <= at && #[trigger] occurs_at(s, pat, at) && tail == s.skip(at + pat.len())
                    && forall|j: int| from <= j < at ==> !#[trigger] occurs_at(s, pat, j),
            None => forall|j: int| from <= j ==> !#[trigger] occurs_at(s, pat, j),
        },
    decreases s.len() + 1 - from,
{
    if from <= s.len() && !occurs_at(s, pat, from) {
        what_follows_follows_the_first(s, pat, from + 1);
    }
}

/// A text up to the first character that ends it holds none of these.
pub proof fn texts_end_at_the_first_stop(s: Seq<char>, stop: spec_fn(char) -> bool, from: int)
    requires
        0 <= from <= s.len(),
    ensures
        from <= up_to(s, stop, from) <= s.len(),
        forall|i: int| from <= i < up_to(s, stop, from) ==> !stop(#[trigger] s[i]),
        up_to(s, stop, from) < s.len() ==> stop(s[up_to(s, stop, from)]),
    decreases s.len() - from,
{
    if from < s.len() && !stop(s[from]) {
        texts_end_at_the_first_stop(s, stop, from + 1);
    }
}

/// A number of an input is what follows the input and an equals sign, up to the end of the line
/// or a blank; there is one exactly where the input is written.
#[verifier::spinoff_prover]
#[verifier::rlimit(40)]
pub proof fn numbers_follow_their_inputs(text: Seq<char>, name: Seq<char>, value: Seq<char>)
    requires
        number_candidate(text, "float inputs:"@ + name + " = "@) == Some(value),
    ensures
        exists|at: int, end: int|
            #![trigger text.subrange(at, end)]
            occurs_at(
                text,
                "float inputs:"@ + name + " = "@,
                at - ("float inputs:"@ + name + " = "@).len(),
            ) && at <= end <= text.len() && value == trim(text.subrange(at, end)) && (forall|i: int|
                at <= i < end ==> #[trigger] text[i] != '\n' && text[i] != ' ') && (end
                == text.len() || text[end] == '\n' || text[end] == ' '),
{
    let prefix = "float inputs:"@ + name + " = "@;
    what_follows_follows_the_first(text, prefix, 0);
    let tail = after_first(text, prefix, 0)->0;
    let k = choose|k: int|
        0 <= k && #[trigger] occurs_at(text, prefix, k) && tail == text.skip(k + prefix.len())
            && forall|j: int| 0 <= j < k ==> !#[trigger] occurs_at(text, prefix, j);
    let at = k + prefix.len();
    let stop = |c: char| c == '\n' || c == ' ';
    texts_end_at_the_first_stop(tail, stop, 0);
    let n = up_to(tail, stop, 0);
    assert(tail.take(n) =~= text.subrange(at, at + n));
    assert forall|i: int| at <= i < at + n implies #[trigger] text[i] != '\n' && text[i] != ' ' by {
        assert(tail[i - at] == text[i]);
        assert(!stop(tail[i - at]));
    }
    if n < tail.len() {
        assert(tail[n] == text[at + n]);
    }
    assert(value == trim(text.subrange(at, at + n)));
}

/// Inputs are looked for as they are written: with their type, their name and an equals sign,
/// with or without a blank before that.
pub proof fn inputs_are_looked_for_as_written(name: Seq<char>)
    ensures
        number_prefix(name, true) == "float inputs:"@ + name + " = "@,
        number_prefix(name, false) == "float inputs:"@ + name + "= "@,
        color_prefix(name, true) == "color3f inputs:"@ + name + " = ("@,
        color_prefix(name, false) == "color3f inputs:"@ + name + "= ("@,
{
}

} // verus!
