//! Which renderer draws the viewport.

use crate::hydra_view::{delegate_label, delegate_name};
use crate::text::{opt_view, same_text, views};
use vstd::prelude::*;

verus! {

/// The painter, or the preview through a Hydra renderer.
#[derive(Clone, Copy, Debug, PartialEq, Eq, Structural)]
pub enum RendererMode {
    Wgpu,
    Hydra,
}

impl Default for RendererMode {
    /// The painter.
    fn default() -> (r: RendererMode)
        ensures
            r == RendererMode::Wgpu,
    {
        RendererMode::Wgpu
    }
}

impl RendererMode {
    /// The other mode.
    pub open spec fn other(self) -> RendererMode {
        match self {
            RendererMode::Wgpu => RendererMode::Hydra,
            RendererMode::Hydra => RendererMode::Wgpu,
        }
    }

    /// The other mode.
    pub fn toggled(self) -> (r: RendererMode)
        ensures
            r == self.other(),
    {
        match self {
            RendererMode::Wgpu => RendererMode::Hydra,
            RendererMode::Hydra => RendererMode::Wgpu,
        }
    }
}

/// Schedules that what was painted is shown by Hydra, where the mode has just become the
/// preview.
pub fn note_mode(before: RendererMode, now: RendererMode, pending: &mut bool)
    ensures
        *final(pending) == (*old(pending) || (before == RendererMode::Wgpu && now
            == RendererMode::Hydra)),
{
    if before == RendererMode::Wgpu && now == RendererMode::Hydra {
        *pending = true;
    }
}

/// The name of the menu entry that changes the mode.
pub fn switch_label(mode: RendererMode) -> (r: &'static str)
    ensures
        r@ == (match mode {
            RendererMode::Wgpu => "Switch to Hydra preview"@,
            RendererMode::Hydra => "Switch to wgpu painter"@,
        }),
{
    match mode {
        RendererMode::Wgpu => "Switch to Hydra preview",
        RendererMode::Hydra => "Switch to wgpu painter",
    }
}

/// Switching twice leads back.
pub proof fn toggled_twice(mode: RendererMode)
    ensures
        mode.other().other() == mode,
        mode.other() != mode,
{
}

/// What was picked: the mode, and the Hydra renderer.
pub struct RendererChoice {
    pub mode: RendererMode,
    pub delegate: Option<String>,
}

/// The entry of the picker that stands for the painter.
pub open spec fn painter_id() -> Seq<char> {
    "__wgpu"@
}

/// The choice among the renderers that there are: a Hydra renderer that is gone gives way
/// to the first one, and without any the painter draws.
pub open spec fn settled(
    mode: RendererMode,
    delegate: Option<Seq<char>>,
    available: Seq<Seq<char>>,
) -> (RendererMode, Option<Seq<char>>) {
    (
        if available.len() == 0 {
            RendererMode::Wgpu
        } else {
            mode
        },
        match delegate {
            Some(id) if !available.contains(id) => if available.len() > 0 {
                Some(available[0])
            } else {
                None
            },
            _ => delegate,
        },
    )
}

/// The entry of the picker that is marked.
pub open spec fn marked_entry(
    mode: RendererMode,
    delegate: Option<Seq<char>>,
    available: Seq<Seq<char>>,
) -> Seq<char> {
    match mode {
        RendererMode::Wgpu => painter_id(),
        RendererMode::Hydra => match delegate {
            Some(id) => id,
            None => if available.len() > 0 {
                available[0]
            } else {
                Seq::empty()
            },
        },
    }
}

/// The choice after the user picked an entry.
pub open spec fn picked(
    mode: RendererMode,
    delegate: Option<Seq<char>>,
    marked: Seq<char>,
    entry: Seq<char>,
) -> (RendererMode, Option<Seq<char>>) {
    if entry == marked {
        (mode, delegate)
    } else if entry == painter_id() {
        (RendererMode::Wgpu, delegate)
    } else {
        (RendererMode::Hydra, Some(entry))
    }
}

/// Whether a list holds a string.
pub fn list_contains(list: &Vec<String>, s: &str) -> (r: bool)
    ensures
        r == views(list@).contains(s@),
{
    let mut i: usize = 0;
    while i < list.len()
        invariant
            i <= list@.len(),
            forall|k: int| 0 <= k < i ==> (#[trigger] views(list@)[k]) != s@,
        decreases list@.len() - i,
    {
        if same_text(list[i].as_str(), s) {
            proof {
                assert(views(list@)[i as int] == s@);
            }
            return true;
        }
        i = i + 1;
    }
    false
}

impl RendererChoice {
    /// Fits the choice to the renderers that there are.
    pub fn settle(&mut self, available: &Vec<String>)
        ensures
            (final(self).mode, opt_view(final(self).delegate)) == settled(
                old(self).mode,
                opt_view(old(self).delegate),
                views(available@),
            ),
    {
        let gone = match &self.delegate {
            Some(id) => !list_contains(available, id.as_str()),
            None => false,
        };
        if gone {
            self.delegate = if available.len() > 0 {
                Some(available[0].clone())
            } else {
                None
            };
        }
        if available.len() == 0 {
            self.mode = RendererMode::Wgpu;
        }
    }

    /// The entry of the picker that is marked.
    pub fn current_id(&self, available: &Vec<String>) -> (r: String)
        ensures
            r@ == marked_entry(self.mode, opt_view(self.delegate), views(available@)),
    {
        match self.mode {
            RendererMode::Wgpu => String::from_str("__wgpu"),
            RendererMode::Hydra => match &self.delegate {
                Some(id) => id.clone(),
                None => if available.len() > 0 {
                    available[0].clone()
                } else {
                    String::new()
                },
            },
        }
    }

    /// Takes over what the user picked.
    pub fn pick(&mut self, marked: &str, entry: &str)
        ensures
            (final(self).mode, opt_view(final(self).delegate)) == picked(
                old(self).mode,
                opt_view(old(self).delegate),
                marked@,
                entry@,
            ),
    {
        if !same_text(entry, marked) {
            if same_text(entry, "__wgpu") {
                self.mode = RendererMode::Wgpu;
            } else {
                self.mode = RendererMode::Hydra;
                self.delegate = Some(String::from_str(entry));
            }
        }
    }

    /// Whether to remind that Storm only previews.
    pub fn storm_notice(&self, entry: &str) -> (r: bool)
        ensures
            r == (self.mode == RendererMode::Hydra && entry@ == "HdStormRendererPlugin"@),
    {
        self.mode == RendererMode::Hydra && same_text(entry, "HdStormRendererPlugin")
    }
}

/// How an entry of the picker is shown.
pub fn entry_label<'a>(entry: &'a str) -> (r: &'a str)
    ensures
        r@ == if entry@ == painter_id() {
            "wgpu painter"@
        } else {
            delegate_name(entry@)
        },
{
    if same_text(entry, "__wgpu") {
        "wgpu painter"
    } else {
        delegate_label(entry)
    }
}

/// A choice that fits the renderers that there are is left alone, and the preview is only
/// chosen where there is a renderer for it.
pub proof fn settled_choice_stays(
    mode: RendererMode,
    delegate: Option<Seq<char>>,
    available: Seq<Seq<char>>,
)
    ensures
        ({
            let (m, d) = settled(mode, delegate, available);
            &&& settled(m, d, available) == (m, d)
            &&& m == RendererMode::Hydra ==> available.len() > 0
            &&& d matches Some(id) ==> available.contains(id)
            &&& m == RendererMode::Hydra ==> available.contains(marked_entry(m, d, available))
        }),
{
    if available.len() > 0 {
        assert(available.contains(available[0]));
    }
}

/// Picking the entry of the painter lets the painter draw; picking any other entry lets that
/// renderer draw; picking the entry that is marked changes nothing.
pub proof fn picked_renderers_draw(
    mode: RendererMode,
    delegate: Option<Seq<char>>,
    marked: Seq<char>,
    entry: Seq<char>,
)
    ensures
        entry == marked ==> picked(mode, delegate, marked, entry) == (mode, delegate),
        entry != marked && entry == "__wgpu"@ ==> picked(mode, delegate, marked, entry).0
            == RendererMode::Wgpu && picked(mode, delegate, marked, entry).1 == delegate,
        entry != marked && entry != "__wgpu"@ ==> picked(mode, delegate, marked, entry).0
            == RendererMode::Hydra && picked(mode, delegate, marked, entry).1 == Some(entry),
{
}

/// Without a renderer the painter draws; a renderer that is gone gives way to the first, and
/// one that is there is kept.
pub proof fn choices_settle_on_what_there_is(
    mode: RendererMode,
    delegate: Option<Seq<char>>,
    available: Seq<Seq<char>>,
)
    ensures
        ({
            let r = settled(mode, delegate, available);
            &&& available.len() == 0 ==> r.0 == RendererMode::Wgpu
            &&& available.len() > 0 ==> r.0 == mode
            &&& delegate is None ==> r.1 is None
            &&& delegate matches Some(id) ==> (available.contains(id) ==> r.1 == delegate) && (
            !available.contains(id) && available.len() > 0 ==> r.1 == Some(available[0]))
            &&& r.1 matches Some(id) ==> available.contains(id)
        }),
{
}

} // verus!
