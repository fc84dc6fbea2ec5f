//! Choosing among the triangles that a ray meets.

use crate::single::Single;
use vstd::prelude::*;

verus! {

/// A triangle that a ray meets: how far along the ray, and where in the triangle.
#[derive(Clone, Copy, Debug, PartialEq, Eq, Structural)]
pub struct Candidate {
    pub tri_index: usize,
    pub t: Single,
    pub u: Single,
    pub v: Single,
}

/// Whether a candidate is the nearest of a list: nothing is nearer, and those before it are
/// farther.
pub open spec fn is_nearest(list: Seq<Candidate>, i: int) -> bool {
    &&& 0 <= i < list.len()
    &&& forall|k: int| 0 <= k < list.len() ==> !(#[trigger] list[k]).t.less_spec(list[i].t)
    &&& forall|k: int| 0 <= k < i ==> list[i].t.less_spec((#[trigger] list[k]).t)
}

/// The nearest of the triangles that a ray meets; the first of equally near ones.
pub fn nearest_hit(list: &Vec<Candidate>) -> (r: Option<usize>)
    requires
        forall|k: int| 0 <= k < list@.len() ==> !(#[trigger] list@[k]).t.is_nan_spec(),
    ensures
        match r {
            None => list@.len() == 0,
            Some(i) => is_nearest(list@, i as int),
        },
{
    if list.len() == 0 {
        return None;
    }
    let mut best: usize = 0;
    let mut i: usize = 1;
    while i < list.len()
        invariant
            best < i <= list@.len(),
            forall|k: int| 0 <= k < list@.len() ==> !(#[trigger] list@[k]).t.is_nan_spec(),
            forall|k: int|
                0 <= k < i ==> !(#[trigger] list@[k]).t.less_spec(list@[best as int].t),
            forall|k: int|
                0 <= k < best ==> list@[best as int].t.less_spec((#[trigger] list@[k]).t),
        decreases list@.len() - i,
    {
        if list[i].t.less(list[best].t) {
            best = i;
        }
        i = i + 1;
    }
    Some(best)
}

/// The nearest triangle lies no farther along the ray than any other, nearer than all that
/// stand before it, and there is one only.
pub proof fn the_nearest_is_the_only_one(list: Seq<Candidate>, i: int, j: int)
    requires
        forall|k: int| 0 <= k < list.len() ==> !(#[trigger] list[k]).t.is_nan_spec(),
        is_nearest(list, i),
        is_nearest(list, j),
    ensures
        i == j,
        forall|k: int|
            0 <= k < list.len() ==> list[i].t.place() <= (#[trigger] list[k]).t.place(),
        forall|k: int| 0 <= k < i ==> list[i].t.place() < (#[trigger] list[k]).t.place(),
{
    assert(!list[i].t.less_spec(list[j].t));
    assert(!list[j].t.less_spec(list[i].t));
}

} // verus!
