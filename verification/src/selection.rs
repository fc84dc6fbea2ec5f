//! The selected parts of the stage, and what the renderers were told of them.

use crate::bindings::copy_list;
use crate::renderer::list_contains;
use crate::text::views;
use vstd::prelude::*;

verus! {

/// The paths of a list as a set.
pub open spec fn path_set(list: Seq<Seq<char>>) -> Set<Seq<char>> {
    Set::new(|p: Seq<char>| list.contains(p))
}

/// Whether every path of a list is in another.
fn all_listed(a: &Vec<String>, b: &Vec<String>) -> (r: bool)
    ensures
        r == path_set(views(a@)).subset_of(path_set(views(b@))),
{
    let ghost x = views(a@);
    let ghost y = views(b@);
    let mut i: usize = 0;
    while i < a.len()
        invariant
            i <= a@.len(),
            x == views(a@),
            y == views(b@),
            forall|k: int| 0 <= k < i ==> y.contains(#[trigger] x[k]),
        decreases a@.len() - i,
    {
        if !list_contains(b, a[i].as_str()) {
            proof {
                assert(x[i as int] == a@[i as int]@);
                assert(path_set(x).contains(x[i as int]));
                assert(!path_set(y).contains(x[i as int]));
            }
            return false;
        }
        proof {
            assert(y.contains(x[i as int]));
        }
        i = i + 1;
    }
    proof {
        assert forall|p: Seq<char>| path_set(x).contains(p) implies path_set(y).contains(p) by {
            let k = choose|k: int| 0 <= k < x.len() && x[k] == p;
            assert(y.contains(x[k]));
        }
    }
    true
}

/// The selection that a renderer was told last.
pub struct ToldSelection {
    pub paths: Vec<String>,
}

impl ToldSelection {
    /// The selection as a set.
    pub open spec fn set(self) -> Set<Seq<char>> {
        path_set(views(self.paths@))
    }

    /// Nothing is selected.
    pub fn new() -> (r: ToldSelection)
        ensures
            r.set() == Set::<Seq<char>>::empty(),
    {
        let paths: Vec<String> = Vec::new();
        proof {
            assert(path_set(views(paths@)) =~= Set::<Seq<char>>::empty());
        }
        ToldSelection { paths }
    }

    /// Notes a selection. Says whether the renderer has to be told: whether something else is
    /// selected than before, in whatever order.
    pub fn tell(&mut self, now: &Vec<String>) -> (r: bool)
        ensures
            r == (old(self).set() != path_set(views(now@))),
            final(self).set() == path_set(views(now@)),
            r ==> views(final(self).paths@) == views(now@),
            !r ==> *final(self) == *old(self),
    {
        if all_listed(&self.paths, now) && all_listed(now, &self.paths) {
            proof {
                assert(self.set() =~= path_set(views(now@)));
            }
            return false;
        }
        self.paths = copy_list(now);
        true
    }
}

/// Where a click led to another selection, what is said.
pub fn selected_status(path: &str, changed: bool) -> (r: Option<String>)
    ensures
        match r {
            Some(s) => changed && s@ == "Selected "@ + path@,
            None => !changed,
        },
{
    if changed {
        Some(String::from_str("Selected ").concat(path))
    } else {
        None
    }
}

} // verus!
