//! What the program says and decides around opening, converting, saving and exporting.

use crate::stage_textures::{has_extension, is_stage, is_usd_stage_path, ConvertibleModelKind};
use crate::text::{
    contains, decimal, decimal_text, has_text, replace_text, replaced, trim, trim_text,
};
use vstd::prelude::*;

verus! {

/// What is done with a file that the user wants to open.
pub enum OpenStep {
    /// It is loaded as a stage.
    Load,
    /// The user is asked whether to convert it.
    OfferConversion(ConvertibleModelKind, String),
    /// It cannot be opened.
    Refuse(String),
}

/// What is done with a file that the user wants to open: stages and anything with a scheme
/// are loaded, models can be converted.
pub fn open_step(path: &str) -> (r: OpenStep)
    ensures
        match r {
            OpenStep::Load => is_stage(path@) || contains(path@, "://"@),
            OpenStep::OfferConversion(kind, text) => {
                &&& !is_stage(path@) && !contains(path@, "://"@)
                &&& has_extension(path@, "obj"@)
                &&& kind == ConvertibleModelKind::Obj
                &&& text@ == "OBJ"@ + " needs USD conversion."@
            },
            OpenStep::Refuse(text) => {
                &&& !is_stage(path@) && !contains(path@, "://"@)
                &&& !has_extension(path@, "obj"@)
                &&& text@ == "Unsupported file type: "@ + path@
                    + ". Choose a USD file directly, or choose OBJ to convert."@
            },
        },
{
    if is_usd_stage_path(path) || has_text(path, "://") {
        return OpenStep::Load;
    }
    match ConvertibleModelKind::from_path(path) {
        Some(kind) => OpenStep::OfferConversion(
            kind,
            String::from_str(kind.label()).concat(" needs USD conversion."),
        ),
        None => OpenStep::Refuse(
            String::from_str("Unsupported file type: ").concat(path).concat(
                ". Choose a USD file directly, or choose OBJ to convert.",
            ),
        ),
    }
}

/// What the user decided about a conversion.
#[derive(Clone, Copy, Debug, PartialEq, Eq, Structural)]
pub enum ConversionDialogAction {
    Undecided,
    Convert,
    Cancel,
}

/// What the user decided about a conversion. Closing the window means no.
pub fn conversion_action(open: bool, convert: bool, cancel: bool) -> (r: ConversionDialogAction)
    ensures
        r == (if !open || cancel {
            ConversionDialogAction::Cancel
        } else if convert {
            ConversionDialogAction::Convert
        } else {
            ConversionDialogAction::Undecided
        }),
{
    if !open || cancel {
        ConversionDialogAction::Cancel
    } else if convert {
        ConversionDialogAction::Convert
    } else {
        ConversionDialogAction::Undecided
    }
}

/// The address that the user entered, if they want to load it and it is not blank.
pub fn uri_request(buffer: &str, load: bool) -> (r: Option<String>)
    ensures
        match r {
            Some(uri) => load && uri@ == trim(buffer@) && uri@.len() > 0,
            None => !load || trim(buffer@).len() == 0,
        },
{
    if !load {
        return None;
    }
    let uri = trim_text(buffer);
    if uri.as_str().unicode_len() == 0 {
        None
    } else {
        Some(uri)
    }
}

/// What is said of the project that the program was started for.
pub fn project_label(project: Option<&str>) -> (r: String)
    ensures
        r@ == (match project {
            Some(name) if name@.len() > 0 => "forge:"@ + name@,
            _ => "standalone"@,
        }),
{
    match project {
        Some(name) => {
            if name.unicode_len() > 0 {
                String::from_str("forge:").concat(name)
            } else {
                String::from_str("standalone")
            }
        },
        None => String::from_str("standalone"),
    }
}

/// What happened while a stage was loaded.
#[derive(Clone, Copy, Debug, PartialEq, Eq, Structural)]
pub struct LoadCounts {
    pub sidecars: usize,
    pub extracted: usize,
    pub imported: usize,
    pub seeded: usize,
    pub replicated: usize,
}

/// Whether the textures of the stage are painted on the layer: not over work that was loaded.
pub fn seeds_paint(sidecars: usize) -> (r: bool)
    ensures
        r == (sidecars == 0),
{
    sidecars == 0
}

/// Whether the materials of the stage are rebuilt: not where bindings came back.
pub fn replicates_materials(restored: usize) -> (r: bool)
    ensures
        r == (restored == 0),
{
    restored == 0
}

/// One of the things that happened, if it did.
pub open spec fn extra(front: Seq<char>, n: nat, back: Seq<char>) -> Seq<Seq<char>> {
    if n > 0 {
        seq![front + decimal(n) + back]
    } else {
        Seq::empty()
    }
}

/// The things that happened, in order.
pub open spec fn extras(c: LoadCounts) -> Seq<Seq<char>> {
    extra("loaded "@, c.sidecars as nat, " sidecar(s)"@) + extra(
        "extracted "@,
        c.extracted as nat,
        " embedded texture(s)"@,
    ) + extra("imported "@, c.imported as nat, " texture(s)"@) + extra(
        "seeded "@,
        c.seeded as nat,
        " paint tile(s)"@,
    ) + extra("replicated "@, c.replicated as nat, " material(s)"@)
}

/// Texts with a separator between them.
pub open spec fn joined(list: Seq<Seq<char>>, sep: Seq<char>) -> Seq<char>
    decreases list.len(),
{
    if list.len() == 0 {
        Seq::empty()
    } else if list.len() == 1 {
        list[0]
    } else {
        joined(list.drop_last(), sep) + sep + list.last()
    }
}

/// What is said of the things that happened.
pub open spec fn extras_text(c: LoadCounts) -> Seq<char> {
    if extras(c).len() == 0 {
        Seq::empty()
    } else {
        " — "@ + joined(extras(c), ", "@)
    }
}

/// Adds one of the things that happened to those that were joined.
fn push_extra(
    out: String,
    first: bool,
    front: &str,
    n: usize,
    back: &str,
    Ghost(list): Ghost<Seq<Seq<char>>>,
) -> (r: (String, bool))
    requires
        first == (list.len() == 0),
        out@ == joined(list, ", "@),
    ensures
        r.1 == (list.len() == 0 && n == 0),
        r.0@ == joined(list + extra(front@, n as nat, back@), ", "@),
{
    if n == 0 {
        proof {
            assert(list + extra(front@, 0, back@) =~= list);
        }
        return (out, first);
    }
    let entry = String::from_str(front).concat(decimal_text(n as u64).as_str()).concat(back);
    proof {
        let all = list + extra(front@, n as nat, back@);
        assert(all.last() == entry@);
        assert(all.drop_last() =~= list);
        if first {
            assert(all =~= seq![entry@]);
        }
    }
    if first {
        (entry, false)
    } else {
        (out.concat(", ").concat(entry.as_str()), false)
    }
}

/// What is said of the things that happened.
fn extras_message(c: &LoadCounts) -> (r: String)
    ensures
        r@ == extras_text(*c),
{
    let ghost l0 = Seq::<Seq<char>>::empty();
    let start = String::new();
    proof {
        assert(start@ =~= joined(l0, ", "@));
    }
    let (a, first) = push_extra(start, true, "loaded ", c.sidecars, " sidecar(s)", Ghost(l0));
    let ghost l1 = l0 + extra("loaded "@, c.sidecars as nat, " sidecar(s)"@);
    let (b, first) = push_extra(
        a,
        first,
        "extracted ",
        c.extracted,
        " embedded texture(s)",
        Ghost(l1),
    );
    let ghost l2 = l1 + extra("extracted "@, c.extracted as nat, " embedded texture(s)"@);
    let (d, first) = push_extra(b, first, "imported ", c.imported, " texture(s)", Ghost(l2));
    let ghost l3 = l2 + extra("imported "@, c.imported as nat, " texture(s)"@);
    let (e, first) = push_extra(d, first, "seeded ", c.seeded, " paint tile(s)", Ghost(l3));
    let ghost l4 = l3 + extra("seeded "@, c.seeded as nat, " paint tile(s)"@);
    let (f, first) = push_extra(
        e,
        first,
        "replicated ",
        c.replicated,
        " material(s)",
        Ghost(l4),
    );
    proof {
        let l5 = l4 + extra("replicated "@, c.replicated as nat, " material(s)"@);
        assert(l5 =~= extras(*c));
    }
    if first {
        String::new()
    } else {
        String::from_str(" — ").concat(f.as_str())
    }
}

/// What is said after a stage was loaded.
pub fn loaded_status(
    path: &str,
    vertices: usize,
    triangles: usize,
    tiles: usize,
    counts: &LoadCounts,
) -> (r: String)
    ensures
        r@ == "Loaded "@ + path@ + " — "@ + decimal(vertices as nat) + " verts, "@ + decimal(
            triangles as nat,
        ) + " tris, "@ + decimal(tiles as nat) + " UDIM tiles"@ + extras_text(*counts),
{
    String::from_str("Loaded ").concat(path).concat(" — ").concat(
        decimal_text(vertices as u64).as_str(),
    ).concat(" verts, ").concat(decimal_text(triangles as u64).as_str()).concat(" tris, ").concat(
        decimal_text(tiles as u64).as_str(),
    ).concat(" UDIM tiles").concat(extras_message(counts).as_str())
}

/// What is said of a stage that could not be loaded.
pub fn load_failed_status(path: &str, error: &str) -> (r: String)
    ensures
        r@ == "Failed to load "@ + path@ + ": "@ + error@,
{
    String::from_str("Failed to load ").concat(path).concat(": ").concat(error)
}

/// What is said after a model was converted.
pub fn converted_status(source: &str, dest: &str, vertices: usize, triangles: usize) -> (r: String)
    ensures
        r@ == "Converted "@ + source@ + " to "@ + dest@ + " — "@ + decimal(vertices as nat)
            + " verts, "@ + decimal(triangles as nat) + " tris"@,
{
    String::from_str("Converted ").concat(source).concat(" to ").concat(dest).concat(
        " — ",
    ).concat(decimal_text(vertices as u64).as_str()).concat(" verts, ").concat(
        decimal_text(triangles as u64).as_str(),
    ).concat(" tris")
}

/// What is said after files were written: with which word, how many, where, and what the hook
/// said.
pub fn written_status(word: &str, files: usize, dir: &str, hook: &str) -> (r: String)
    ensures
        r@ == word@ + " "@ + decimal(files as nat) + " files to "@ + dir@ + hook@,
{
    String::from_str(word).concat(" ").concat(decimal_text(files as u64).as_str()).concat(
        " files to ",
    ).concat(dir).concat(hook)
}

/// What is said after saved work was looked for again.
pub fn reload_status(loaded: usize, dir: &str) -> (r: String)
    ensures
        r@ == (if loaded > 0 {
            "Reloaded "@ + decimal(loaded as nat) + " sidecar(s) from "@ + dir@
        } else {
            "No sidecars at "@ + dir@
        }),
{
    if loaded > 0 {
        String::from_str("Reloaded ").concat(decimal_text(loaded as u64).as_str()).concat(
            " sidecar(s) from ",
        ).concat(dir)
    } else {
        String::from_str("No sidecars at ").concat(dir)
    }
}

/// The command that is run after an export, if one is set: its template with the folder in
/// place of `{dir}`.
pub fn hook_command(template: Option<&str>, dir: &str) -> (r: Option<String>)
    ensures
        match template {
            None => r is None,
            Some(t) => match r {
                Some(command) => trim(t@).len() > 0 && command@ == replaced(t@, "{dir}"@, dir@),
                None => trim(t@).len() == 0,
            },
        },
{
    match template {
        None => None,
        Some(t) => {
            if trim_text(t).as_str().unicode_len() == 0 {
                None
            } else {
                proof {
                    reveal_strlit("{dir}");
                }
                Some(replace_text(t, "{dir}", dir))
            }
        },
    }
}

/// How the command after an export ended.
pub enum HookEnd {
    Succeeded,
    /// It ended with this status.
    Failed(String),
    /// It could not be run.
    Error(String),
}

/// What is said of the command after an export.
pub open spec fn hook_text(end: HookEnd) -> Seq<char> {
    match end {
        HookEnd::Succeeded => " · post-export hook ok"@,
        HookEnd::Failed(s) => " · post-export hook failed ("@ + s@ + ")"@,
        HookEnd::Error(e) => " · post-export hook error: "@ + e@,
    }
}

impl HookEnd {
    /// What is said of the command.
    pub fn message(&self) -> (r: String)
        ensures
            r@ == hook_text(*self),
    {
        match self {
            HookEnd::Succeeded => String::from_str(" · post-export hook ok"),
            HookEnd::Failed(s) => String::from_str(" · post-export hook failed (").concat(
                s.as_str(),
            ).concat(")"),
            HookEnd::Error(e) => String::from_str(" · post-export hook error: ").concat(
                e.as_str(),
            ),
        }
    }
}

/// A quotient rounded to the nearest whole number, to the even one of two.
pub open spec fn half_even(num: int, den: int) -> int {
    let q = num / den;
    let rest = num % den;
    if 2 * rest < den || (2 * rest == den && q % 2 == 0) {
        q
    } else {
        q + 1
    }
}

/// A quotient rounded to the nearest whole number, to the even one of two.
fn round_half_even(num: u128, den: u128) -> (r: u128)
    requires
        0 < den <= 0x1_0000_0000,
        num < 0x100_0000_0000_0000_0000_0000,
    ensures
        r == half_even(num as int, den as int),
{
    let q: u128 = num / den;
    let rest: u128 = num % den;
    if 2 * rest < den || (2 * rest == den && q % 2 == 0) {
        q
    } else {
        q + 1
    }
}

/// The steps in which double-precision numbers of this size count.
pub open spec fn double_step(n: int) -> int {
    if n < 0x20_0000_0000_0000 {
        1
    } else if n < 0x40_0000_0000_0000 {
        2
    } else if n < 0x80_0000_0000_0000 {
        4
    } else if n < 0x100_0000_0000_0000 {
        8
    } else if n < 0x200_0000_0000_0000 {
        16
    } else if n < 0x400_0000_0000_0000 {
        32
    } else if n < 0x800_0000_0000_0000 {
        64
    } else if n < 0x1000_0000_0000_0000 {
        128
    } else if n < 0x2000_0000_0000_0000 {
        256
    } else if n < 0x4000_0000_0000_0000 {
        512
    } else if n < 0x8000_0000_0000_0000 {
        1024
    } else {
        2048
    }
}

/// The nearest double-precision number.
pub open spec fn as_double(n: int) -> int {
    half_even(n, double_step(n)) * double_step(n)
}

/// The steps in which double-precision numbers of this size count.
fn step_of(n: u64) -> (r: u128)
    ensures
        r == double_step(n as int),
{
    if n < 0x20_0000_0000_0000 {
        1
    } else if n < 0x40_0000_0000_0000 {
        2
    } else if n < 0x80_0000_0000_0000 {
        4
    } else if n < 0x100_0000_0000_0000 {
        8
    } else if n < 0x200_0000_0000_0000 {
        16
    } else if n < 0x400_0000_0000_0000 {
        32
    } else if n < 0x800_0000_0000_0000 {
        64
    } else if n < 0x1000_0000_0000_0000 {
        128
    } else if n < 0x2000_0000_0000_0000 {
        256
    } else if n < 0x4000_0000_0000_0000 {
        512
    } else if n < 0x8000_0000_0000_0000 {
        1024
    } else {
        2048
    }
}

/// The nearest double-precision number.
fn to_double(n: u64) -> (r: u128)
    ensures
        r == as_double(n as int),
        r <= 0x1_0000_0000_0000_0000,
{
    let step = step_of(n);
    let q = round_half_even(n as u128, step);
    proof {
        assert(q <= 0x20_0000_0000_0000);
        assert(q * step <= 0x20_0000_0000_0000 * 2048) by (nonlinear_arith)
            requires
                q <= 0x20_0000_0000_0000,
                step <= 2048,
        ;
    }
    q * step
}

/// A quotient with one or two digits after the point.
pub open spec fn fixed_point(num: int, den: int, digits: nat) -> Seq<char> {
    let scale = if digits == 1 { 10int } else { 100 };
    let q = half_even(num * scale, den);
    let fraction = decimal((q % scale) as nat);
    decimal((q / scale) as nat) + "."@ + (if digits == 2 && q % scale < 10 {
        "0"@ + fraction
    } else {
        fraction
    })
}

/// A quotient with one or two digits after the point.
fn fixed_point_text(num: u128, den: u128, digits: u8) -> (r: String)
    requires
        1024 <= den <= 0x4000_0000,
        num <= 0x1_0000_0000_0000_0000,
        num / den < 0x1_0000_0000_0000,
        digits == 1 || digits == 2,
    ensures
        r@ == fixed_point(num as int, den as int, digits as nat),
{
    let scale: u128 = if digits == 1 {
        10
    } else {
        100
    };
    let q = round_half_even(num * scale, den);
    proof {
        let n = num as int;
        let d = den as int;
        let s = scale as int;
        let whole = n / d;
        let rest = n % d;
        vstd::arithmetic::div_mod::lemma_fundamental_div_mod(n, d);
        assert(n < d * 0x1_0000_0000_0000) by (nonlinear_arith)
            requires
                n == d * whole + rest,
                0 <= rest < d,
                whole + 1 <= 0x1_0000_0000_0000,
        ;
        assert((n * s) / d <= 100 * 0x1_0000_0000_0000) by (nonlinear_arith)
            requires
                n < d * 0x1_0000_0000_0000,
                d > 0,
                0 < s <= 100,
                n >= 0,
        ;
    }
    let whole: u64 = (q / scale) as u64;
    let part: u64 = (q % scale) as u64;
    let head = decimal_text(whole).concat(".");
    if digits == 2 && part < 10 {
        let fraction = String::from_str("0").concat(decimal_text(part).as_str());
        head.concat(fraction.as_str())
    } else {
        head.concat(decimal_text(part).as_str())
    }
}

/// An amount of memory, in the largest unit that is not too large for it.
pub open spec fn human_bytes_text(n: u64) -> Seq<char> {
    if n >= 0x4000_0000 {
        fixed_point(as_double(n as int), 0x4000_0000, 2) + " GB"@
    } else if n >= 0x10_0000 {
        fixed_point(as_double(n as int), 0x10_0000, 1) + " MB"@
    } else if n >= 0x400 {
        fixed_point(as_double(n as int), 0x400, 1) + " KB"@
    } else {
        decimal(n as nat) + " B"@
    }
}

/// An amount of memory, in the largest unit that is not too large for it.
pub fn human_bytes(n: u64) -> (r: String)
    ensures
        r@ == human_bytes_text(n),
{
    if n < 0x400 {
        return decimal_text(n).concat(" B");
    }
    let d = to_double(n);
    if n >= 0x4000_0000 {
        fixed_point_text(d, 0x4000_0000, 2).concat(" GB")
    } else {
        proof {
            small_numbers_are_doubles(n as int);
        }
        if n >= 0x10_0000 {
            fixed_point_text(d, 0x10_0000, 1).concat(" MB")
        } else {
            fixed_point_text(d, 0x400, 1).concat(" KB")
        }
    }
}

/// Numbers of up to fifty-three bits are double-precision numbers.
proof fn small_numbers_are_doubles(n: int)
    requires
        0 <= n < 0x20_0000_0000_0000,
    ensures
        as_double(n) == n,
{
    assert(n / 1 == n && n % 1 == 0);
}

/// Rounding gives the nearest whole number; of two that are equally near, the even one.
pub proof fn rounding_goes_to_the_nearest(num: int, den: int)
    requires
        den > 0,
    ensures
        ({
            let q = half_even(num, den);
            &&& -den <= 2 * (q * den - num) <= den
            &&& 2 * (q * den - num) == den || 2 * (q * den - num) == -den ==> q % 2 == 0
        }),
{
    vstd::arithmetic::div_mod::lemma_fundamental_div_mod(num, den);
    let f = num / den;
    assert(0 <= num % den < den) by (nonlinear_arith)
        requires
            den > 0,
    ;
    assert(f * den == den * f && (f + 1) * den == den * f + den) by (nonlinear_arith);
}

/// Texts are joined one after the other, with the separator between each two.
pub proof fn joined_texts_follow_one_another(list: Seq<Seq<char>>, more: Seq<char>, sep: Seq<char>)
    ensures
        joined(Seq::<Seq<char>>::empty(), sep).len() == 0,
        joined(seq![more], sep) == more,
        list.len() > 0 ==> joined(list.push(more), sep) == joined(list, sep) + sep + more,
{
    assert(list.push(more).drop_last() =~= list);
}

/// What is counted on loading is said in the words for it, and what did not happen is not said.
#[verifier::spinoff_prover]
#[verifier::rlimit(40)]
pub proof fn counts_are_said_in_their_words(c: LoadCounts)
    ensures
        c.sidecars > 0 ==> extras(c).contains("loaded "@ + decimal(c.sidecars as nat) + " sidecar(s)"@),
        c.extracted > 0 ==> extras(c).contains(
            "extracted "@ + decimal(c.extracted as nat) + " embedded texture(s)"@,
        ),
        c.imported > 0 ==> extras(c).contains(
            "imported "@ + decimal(c.imported as nat) + " texture(s)"@,
        ),
        c.seeded > 0 ==> extras(c).contains(
            "seeded "@ + decimal(c.seeded as nat) + " paint tile(s)"@,
        ),
        c.replicated > 0 ==> extras(c).contains(
            "replicated "@ + decimal(c.replicated as nat) + " material(s)"@,
        ),
        extras(c).len() == (if c.sidecars > 0 { 1nat } else { 0 }) + (if c.extracted > 0 {
            1nat
        } else {
            0
        }) + (if c.imported > 0 { 1nat } else { 0 }) + (if c.seeded > 0 { 1nat } else { 0 }) + (
        if c.replicated > 0 { 1nat } else { 0 }),
{
    let a = extra("loaded "@, c.sidecars as nat, " sidecar(s)"@);
    let b = extra("extracted "@, c.extracted as nat, " embedded texture(s)"@);
    let d = extra("imported "@, c.imported as nat, " texture(s)"@);
    let e = extra("seeded "@, c.seeded as nat, " paint tile(s)"@);
    let f = extra("replicated "@, c.replicated as nat, " material(s)"@);
    let all = extras(c);
    let n1 = a.len() as int;
    let n2 = n1 + b.len();
    let n3 = n2 + d.len();
    let n4 = n3 + e.len();
    if c.sidecars > 0 {
        assert(all[0] == a[0]);
    }
    if c.extracted > 0 {
        assert(all[n1] == b[0]);
    }
    if c.imported > 0 {
        assert(all[n2] == d[0]);
    }
    if c.seeded > 0 {
        assert(all[n3] == e[0]);
    }
    if c.replicated > 0 {
        assert(all[n4] == f[0]);
    }
}

/// Amounts of memory are said in the unit of which there is at least one: bytes are counted, and
/// of the larger units there is a share of that unit.
pub proof fn amounts_are_said_in_their_units(n: u64)
    ensures
        n < 1024 ==> human_bytes_text(n) == decimal(n as nat) + " B"@,
        1024 <= n < 1024 * 1024 ==> human_bytes_text(n) == fixed_point(
            as_double(n as int),
            1024,
            1,
        ) + " KB"@,
        1024 * 1024 <= n < 1024 * 1024 * 1024 ==> human_bytes_text(n) == fixed_point(
            as_double(n as int),
            1024 * 1024int,
            1,
        ) + " MB"@,
        1024 * 1024 * 1024 <= n ==> human_bytes_text(n) == fixed_point(
            as_double(n as int),
            1024 * 1024 * 1024int,
            2,
        ) + " GB"@,
{
}

} // verus!
