//! Which channels of an EXR image make up its pixels, and what to do when it cannot be
//! read.

use crate::paths::{extension, extension_of_path};
use crate::text::{contains, has_text, lower, same_ignoring_case, to_lower, views};
use vstd::prelude::*;

verus! {

/// Whether an image is read as an EXR image.
pub fn is_exr_path(path: &str) -> (r: bool)
    ensures
        r == (match extension(path@) {
            Some(e) => lower(e) == lower("exr"@),
            None => false,
        }),
{
    match extension_of_path(path) {
        Some(e) => same_ignoring_case(e.as_str(), "exr"),
        None => false,
    }
}

/// Whether an error of the reader speaks of a compression that it does not know.
pub open spec fn speaks_of_dwa(message: Seq<char>) -> bool {
    let m = lower(message);
    ||| contains(m, "dwa"@)
    ||| contains(m, "not supported"@) && contains(m, "compression"@)
    ||| contains(m, "unimplemented compression"@)
}

/// Whether an error of the reader speaks of a compression that it does not know.
pub fn looks_like_unsupported_dwa(msg: &str) -> (r: bool)
    ensures
        r == speaks_of_dwa(msg@),
{
    let low = to_lower(msg);
    let m = low.as_str();
    has_text(m, "dwa") || (has_text(m, "not supported") && has_text(m, "compression"))
        || has_text(m, "unimplemented compression")
}

/// How far the reading of an image has come.
pub enum ExrAttempt {
    /// The image was read.
    Read,
    /// It was not, for this reason.
    Failed { message: String },
    /// It was not, for the first reason, and could not be converted, for the second.
    NotConverted { message: String, conversion: String },
    /// It was converted and still not read, for this reason.
    NotReadAgain { message: String },
}

/// What to do next.
pub enum ExrStep {
    Use,
    /// Have another program convert the image, and read that.
    Convert,
    /// Give up and say why.
    GiveUp { message: String },
}

/// A step as a value of the specification.
pub enum ExrStepModel {
    Use,
    Convert,
    GiveUp { message: Seq<char> },
}

impl View for ExrStep {
    type V = ExrStepModel;

    open spec fn view(&self) -> ExrStepModel {
        match *self {
            ExrStep::Use => ExrStepModel::Use,
            ExrStep::Convert => ExrStepModel::Convert,
            ExrStep::GiveUp { message } => ExrStepModel::GiveUp { message: message@ },
        }
    }
}

/// What to do after an attempt to read the image at `path`. Only an image whose
/// compression is not known is converted, and only once.
pub open spec fn step_after(attempt: ExrAttempt, path: Seq<char>) -> ExrStepModel {
    match attempt {
        ExrAttempt::Read => ExrStepModel::Use,
        ExrAttempt::Failed { message } => if speaks_of_dwa(message@) {
            ExrStepModel::Convert
        } else {
            ExrStepModel::GiveUp { message: "read EXR "@ + path + ": "@ + message@ }
        },
        ExrAttempt::NotConverted { message, conversion } => ExrStepModel::GiveUp {
            message: "EXR "@ + path
                + ": uses DWAA/DWAB compression, which the exr 1.74 Rust crate doesn't support. Install `oiiotool` (brew install openimageio) or `ffmpeg` so forge-paint can auto-transcode to ZIP on import, or re-export the file as ZIP / PIZ (or PNG) manually. \nTranscode attempt: "@
                + conversion@ + "\nExr error: "@ + message@,
        },
        ExrAttempt::NotReadAgain { message } => ExrStepModel::GiveUp {
            message: "EXR "@ + path
                + ": transcoded via external tool but re-read still failed: "@ + message@,
        },
    }
}

/// What to do after an attempt to read the image at `path`.
pub fn next_step(attempt: &ExrAttempt, path: &str) -> (r: ExrStep)
    ensures
        r@ == step_after(*attempt, path@),
{
    match attempt {
        ExrAttempt::Read => ExrStep::Use,
        ExrAttempt::Failed { message } => if looks_like_unsupported_dwa(message.as_str()) {
            ExrStep::Convert
        } else {
            ExrStep::GiveUp {
                message: String::from_str("read EXR ").concat(path).concat(": ").concat(
                    message.as_str(),
                ),
            }
        },
        ExrAttempt::NotConverted { message, conversion } => ExrStep::GiveUp {
            message: String::from_str("EXR ").concat(path).concat(
                ": uses DWAA/DWAB compression, which the exr 1.74 Rust crate doesn't support. Install `oiiotool` (brew install openimageio) or `ffmpeg` so forge-paint can auto-transcode to ZIP on import, or re-export the file as ZIP / PIZ (or PNG) manually. \nTranscode attempt: ",
            ).concat(conversion.as_str()).concat("\nExr error: ").concat(message.as_str()),
        },
        ExrAttempt::NotReadAgain { message } => ExrStep::GiveUp {
            message: String::from_str("EXR ").concat(path).concat(
                ": transcoded via external tool but re-read still failed: ",
            ).concat(message.as_str()),
        },
    }
}

/// Which channels make up the pixels: one for all three colours, or one for each.
#[derive(Clone, Copy, Debug)]
pub struct ChannelPlan {
    pub grey: Option<usize>,
    pub red: Option<usize>,
    pub green: Option<usize>,
    pub blue: Option<usize>,
    pub alpha: Option<usize>,
}

/// The first channel of a name, in either case, from index `i` on.
pub open spec fn channel_from(names: Seq<Seq<char>>, target: Seq<char>, i: int) -> Option<usize>
    decreases names.len() - i,
{
    if i >= names.len() {
        None
    } else if lower(names[i]) == lower(target) {
        Some(i as usize)
    } else {
        channel_from(names, target, i + 1)
    }
}

/// The first channel of a name, in either case.
pub open spec fn channel(names: Seq<Seq<char>>, target: Seq<char>) -> Option<usize> {
    channel_from(names, target, 0)
}

/// Of two, the first that there is.
pub open spec fn or_else(a: Option<usize>, b: Option<usize>) -> Option<usize> {
    if a is Some {
        a
    } else {
        b
    }
}

/// The channels of an image with the given channel names. A luminance channel makes it
/// grey; so does the first channel where there is neither luminance nor any colour.
pub open spec fn plan_for(names: Seq<Seq<char>>) -> ChannelPlan {
    let r = channel(names, "R"@);
    let g = channel(names, "G"@);
    let b = channel(names, "B"@);
    let y = or_else(
        or_else(channel(names, "Y"@), channel(names, "L"@)),
        channel(names, "Luminance"@),
    );
    ChannelPlan {
        grey: if y is None && r is None && g is None && b is None {
            Some(0usize)
        } else {
            y
        },
        red: r,
        green: g,
        blue: b,
        alpha: channel(names, "A"@),
    }
}

/// The first channel of a name, in either case.
fn find_channel(names: &Vec<String>, target: &str) -> (r: Option<usize>)
    ensures
        r == channel(views(names@), target@),
        r matches Some(i) ==> i < names@.len(),
{
    let mut i: usize = 0;
    while i < names.len()
        invariant
            i <= names@.len(),
            channel(views(names@), target@) == channel_from(views(names@), target@, i as int),
        decreases names@.len() - i,
    {
        if same_ignoring_case(names[i].as_str(), target) {
            return Some(i);
        }
        i = i + 1;
    }
    None
}

impl ChannelPlan {
    /// Whether all channels are among `n`.
    pub open spec fn within(self, n: nat) -> bool {
        &&& self.grey matches Some(i) ==> i < n
        &&& self.red matches Some(i) ==> i < n
        &&& self.green matches Some(i) ==> i < n
        &&& self.blue matches Some(i) ==> i < n
        &&& self.alpha matches Some(i) ==> i < n
    }
}

/// The channels of an image; an image without channels has none.
pub fn plan_channels(names: &Vec<String>) -> (r: Option<ChannelPlan>)
    ensures
        match r {
            Some(plan) => names@.len() > 0 && plan == plan_for(views(names@)) && plan.within(
                names@.len(),
            ),
            None => names@.len() == 0,
        },
{
    if names.len() == 0 {
        return None;
    }
    let red: Option<usize> = find_channel(names, "R");
    let green: Option<usize> = find_channel(names, "G");
    let blue: Option<usize> = find_channel(names, "B");
    let alpha: Option<usize> = find_channel(names, "A");
    let mut grey: Option<usize> = find_channel(names, "Y");
    if grey.is_none() {
        grey = find_channel(names, "L");
    }
    if grey.is_none() {
        grey = find_channel(names, "Luminance");
    }
    if grey.is_none() && red.is_none() && green.is_none() && blue.is_none() {
        grey = Some(0);
    }
    Some(ChannelPlan { grey, red, green, blue, alpha })
}

/// The `i`-th byte of a channel, or another one where there is none.
pub open spec fn byte_at(channels: Seq<Seq<u8>>, c: Option<usize>, i: int, missing: u8) -> u8 {
    match c {
        Some(k) => if i < channels[k as int].len() {
            channels[k as int][i]
        } else {
            missing
        },
        None => missing,
    }
}

/// The `k`-th byte of the image, four for each pixel. Missing colours are black, a missing
/// alpha is opaque.
pub open spec fn image_byte(
    plan: ChannelPlan,
    colors: Seq<Seq<u8>>,
    alphas: Seq<Seq<u8>>,
    k: int,
) -> u8 {
    let i = k / 4;
    if k % 4 == 3 {
        byte_at(alphas, plan.alpha, i, 255)
    } else if plan.grey is Some {
        byte_at(colors, plan.grey, i, 0)
    } else if k % 4 == 0 {
        byte_at(colors, plan.red, i, 0)
    } else if k % 4 == 1 {
        byte_at(colors, plan.green, i, 0)
    } else {
        byte_at(colors, plan.blue, i, 0)
    }
}

/// The bytes of each channel as a value of the specification.
pub open spec fn bytes(list: Seq<Vec<u8>>) -> Seq<Seq<u8>> {
    Seq::new(list.len(), |i: int| list[i]@)
}

/// The `i`-th byte of a channel, or another one where there is none.
fn channel_byte(channels: &Vec<Vec<u8>>, c: Option<usize>, i: usize, missing: u8) -> (r: u8)
    requires
        c matches Some(k) ==> k < channels@.len(),
    ensures
        r == byte_at(bytes(channels@), c, i as int, missing),
{
    match c {
        Some(k) => if i < channels[k].len() {
            channels[k][i]
        } else {
            missing
        },
        None => missing,
    }
}

/// Puts the channels together into an image of `total` pixels, given every channel both as
/// it counts for a colour and as it counts for alpha.
pub fn assemble_rgba(
    plan: ChannelPlan,
    colors: &Vec<Vec<u8>>,
    alphas: &Vec<Vec<u8>>,
    total: usize,
) -> (r: Vec<u8>)
    requires
        plan.within(colors@.len()),
        plan.within(alphas@.len()),
        4 * total <= usize::MAX,
    ensures
        r@ == Seq::new(
            (4 * total) as nat,
            |k: int| image_byte(plan, bytes(colors@), bytes(alphas@), k),
        ),
{
    let mut out: Vec<u8> = Vec::new();
    let mut i: usize = 0;
    while i < total
        invariant
            i <= total,
            4 * total <= usize::MAX,
            plan.within(colors@.len()),
            plan.within(alphas@.len()),
            out@ == Seq::new(
                (4 * i) as nat,
                |k: int| image_byte(plan, bytes(colors@), bytes(alphas@), k),
            ),
        decreases total - i,
    {
        let ghost before = out@;
        if plan.grey.is_some() {
            let v: u8 = channel_byte(colors, plan.grey, i, 0);
            out.push(v);
            out.push(v);
            out.push(v);
        } else {
            out.push(channel_byte(colors, plan.red, i, 0));
            out.push(channel_byte(colors, plan.green, i, 0));
            out.push(channel_byte(colors, plan.blue, i, 0));
        }
        out.push(channel_byte(alphas, plan.alpha, i, 255));
        proof {
            let k = 4 * i;
            assert(k / 4 == i && (k + 1) / 4 == i && (k + 2) / 4 == i && (k + 3) / 4 == i);
            assert(k % 4 == 0 && (k + 1) % 4 == 1 && (k + 2) % 4 == 2 && (k + 3) % 4 == 3);
            assert(out@ =~= Seq::new(
                (4 * (i + 1)) as nat,
                |k: int| image_byte(plan, bytes(colors@), bytes(alphas@), k),
            ));
        }
        i = i + 1;
    }
    out
}

/// A channel that is found bears the name, in either case, and is the first one that does;
/// where none is found, none does.
pub proof fn channels_are_found_by_name(names: Seq<Seq<char>>, target: Seq<char>)
    requires
        names.len() <= usize::MAX,
    ensures
        match channel(names, target) {
            Some(k) => k < names.len() && lower(names[k as int]) == lower(target) && forall|j: int|
                0 <= j < k ==> lower(#[trigger] names[j]) != lower(target),
            None => forall|j: int|
                0 <= j < names.len() ==> lower(#[trigger] names[j]) != lower(target),
        },
{
    channels_are_found_from(names, target, 0);
}

/// The same from an index on.
proof fn channels_are_found_from(names: Seq<Seq<char>>, target: Seq<char>, i: int)
    requires
        0 <= i <= names.len() <= usize::MAX,
    ensures
        match channel_from(names, target, i) {
            Some(k) => i <= k < names.len() && lower(names[k as int]) == lower(target) && forall|
                j: int,
            |
                i <= j < k ==> lower(#[trigger] names[j]) != lower(target),
            None => forall|j: int|
                i <= j < names.len() ==> lower(#[trigger] names[j]) != lower(target),
        },
    decreases names.len() - i,
{
    if i < names.len() && lower(names[i]) != lower(target) {
        channels_are_found_from(names, target, i + 1);
    }
}

/// Whether a channel is one of luminance.
pub open spec fn is_grey(name: Seq<char>) -> bool {
    lower(name) == lower("Y"@) || lower(name) == lower("L"@) || lower(name) == lower("Luminance"@)
}

/// Red comes from the channel `R`, green from `G`, blue from `B` and alpha from `A`; a channel
/// of luminance makes the image grey, and so does the first channel where no channel has a
/// name that is known.
pub proof fn channels_go_by_their_names(names: Seq<Seq<char>>)
    requires
        0 < names.len() <= usize::MAX,
    ensures
        ({
            let plan = plan_for(names);
            &&& plan.red == channel(names, "R"@)
            &&& plan.green == channel(names, "G"@)
            &&& plan.blue == channel(names, "B"@)
            &&& plan.alpha == channel(names, "A"@)
            &&& (exists|k: int| 0 <= k < names.len() && #[trigger] is_grey(names[k])) ==> (
            plan.grey matches Some(k) && k < names.len() && is_grey(names[k as int]))
            &&& (forall|k: int| 0 <= k < names.len() ==> !#[trigger] is_grey(names[k])) ==> (if plan.red is None
                && plan.green is None && plan.blue is None {
                plan.grey == Some(0usize)
            } else {
                plan.grey is None
            })
        }),
{
    channels_are_found_by_name(names, "Y"@);
    channels_are_found_by_name(names, "L"@);
    channels_are_found_by_name(names, "Luminance"@);
    if let Some(k) = plan_for(names).grey {
        if forall|j: int| 0 <= j < names.len() ==> !#[trigger] is_grey(names[j]) {
            assert(!is_grey(names[k as int]));
        }
    }
}

/// A pixel is four bytes in the order red, green, blue and alpha, each the byte of its own
/// channel for that pixel; in a grey image the three colours are the same.
pub proof fn pixels_come_from_their_channels(
    plan: ChannelPlan,
    colors: Seq<Seq<u8>>,
    alphas: Seq<Seq<u8>>,
    i: int,
)
    requires
        0 <= i,
        forall|c: int| 0 <= c < colors.len() ==> i < (#[trigger] colors[c]).len(),
        forall|c: int| 0 <= c < alphas.len() ==> i < (#[trigger] alphas[c]).len(),
        plan.within(colors.len()),
        plan.within(alphas.len()),
    ensures
        ({
            let red = image_byte(plan, colors, alphas, 4 * i);
            let green = image_byte(plan, colors, alphas, 4 * i + 1);
            let blue = image_byte(plan, colors, alphas, 4 * i + 2);
            let alpha = image_byte(plan, colors, alphas, 4 * i + 3);
            &&& plan.grey matches Some(c) ==> red == colors[c as int][i] && green == red && blue
                == red
            &&& plan.grey is None ==> {
                &&& red == (if plan.red is Some { colors[plan.red->0 as int][i] } else { 0 })
                &&& green == (if plan.green is Some { colors[plan.green->0 as int][i] } else { 0 })
                &&& blue == (if plan.blue is Some { colors[plan.blue->0 as int][i] } else { 0 })
            }
            &&& alpha == (if plan.alpha is Some { alphas[plan.alpha->0 as int][i] } else { 255 })
        }),
{
    assert((4 * i) / 4 == i && (4 * i + 1) / 4 == i && (4 * i + 2) / 4 == i && (4 * i + 3) / 4
        == i);
    assert((4 * i) % 4 == 0 && (4 * i + 1) % 4 == 1 && (4 * i + 2) % 4 == 2 && (4 * i + 3) % 4
        == 3);
}

/// An image that was read is used; one whose compression is not known is converted, and nothing
/// is tried a second time.
pub proof fn images_are_converted_once(attempt: ExrAttempt, path: Seq<char>)
    ensures
        ({
            let step = step_after(attempt, path);
            &&& step is Use <==> attempt is Read
            &&& step is Convert <==> (attempt matches ExrAttempt::Failed { message } && speaks_of_dwa(
                message@,
            ))
            &&& attempt is NotConverted || attempt is NotReadAgain ==> step is GiveUp
        }),
{
}

} // verus!
