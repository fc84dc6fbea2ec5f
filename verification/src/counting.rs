//! Counting distinct numbers.

use vstd::prelude::*;

verus! {

/// A list of distinct numbers that are not negative and below `n` is no longer than `n`.
pub proof fn distinct_numbers_are_few(list: Seq<int>, n: nat)
    requires
        list.no_duplicates(),
        forall|k: int| 0 <= k < list.len() ==> 0 <= #[trigger] list[k] < n,
    ensures
        list.len() <= n,
    decreases n,
{
    if n == 0 {
        if list.len() > 0 {
            assert(list[0] < n);
        }
    } else {
        let top = n - 1;
        if exists|i: int| 0 <= i < list.len() && list[i] == top {
            let i = choose|i: int| 0 <= i < list.len() && list[i] == top;
            let rest = list.remove(i);
            assert forall|k: int| 0 <= k < rest.len() implies 0 <= #[trigger] rest[k] < top by {
                let j = if k < i {
                    k
                } else {
                    k + 1
                };
                assert(rest[k] == list[j]);
                assert(list[j] != list[i]);
            }
            assert(rest.no_duplicates());
            distinct_numbers_are_few(rest, top as nat);
        } else {
            assert forall|k: int| 0 <= k < list.len() implies 0 <= #[trigger] list[k] < top by {
                assert(list[k] != top);
            }
            distinct_numbers_are_few(list, top as nat);
        }
    }
}

} // verus!
