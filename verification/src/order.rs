//! Orders: texts and lists of numbers are compared entry by entry, and lists are sorted so
//! that equal entries keep their order.

use crate::paths::{is_absolute, names, names_of, starts_here, stem_of_or, stem_or};
use crate::text::{chars_of, cut_is_not_empty, split_chars, views};
use vstd::prelude::*;

verus! {

/// A text as a sequence of numbers that is ordered as the text is: nothing that follows can
/// make a longer text come before its beginning.
pub open spec fn text_key(s: Seq<char>) -> Seq<u64> {
    Seq::new(s.len(), |i: int| (s[i] as u32 as u64 + 1) as u64).push(0)
}

/// Adds a text to a key.
pub fn push_text(out: &mut Vec<u64>, s: &Vec<char>)
    ensures
        final(out)@ == old(out)@ + text_key(s@),
{
    let ghost start = out@;
    let mut i: usize = 0;
    while i < s.len()
        invariant
            i <= s@.len(),
            out@ == start + Seq::new(i as nat, |k: int| (s@[k] as u32 as u64 + 1) as u64),
        decreases s@.len() - i,
    {
        let code: u32 = s[i] as u32;
        out.push(code as u64 + 1);
        proof {
            assert(out@ =~= start + Seq::new((i + 1) as nat, |k: int| (s@[k] as u32 as u64 + 1) as u64));
        }
        i = i + 1;
    }
    out.push(0);
    proof {
        assert(out@ =~= start + text_key(s@));
    }
}

/// Whether `a` comes before `b` because of index `i`: up to there they agree.
pub open spec fn less_at(a: Seq<u64>, b: Seq<u64>, i: int) -> bool {
    &&& 0 <= i <= a.len()
    &&& i < b.len()
    &&& forall|j: int| 0 <= j < i ==> a[j] == b[j]
    &&& i == a.len() || a[i] < b[i]
}

/// Whether `a` comes before `b`.
pub open spec fn key_less(a: Seq<u64>, b: Seq<u64>) -> bool {
    exists|i: int| less_at(a, b, i)
}

/// Whether `a` comes before `b`.
pub fn is_less(a: &Vec<u64>, b: &Vec<u64>) -> (r: bool)
    ensures
        r == key_less(a@, b@),
{
    let mut i: usize = 0;
    while i < a.len() && i < b.len() && a[i] == b[i]
        invariant
            i <= a@.len(),
            i <= b@.len(),
            forall|j: int| 0 <= j < i ==> a@[j] == b@[j],
        decreases a@.len() - i,
    {
        i = i + 1;
    }
    let less = i < b.len() && (i == a.len() || a[i] < b[i]);
    proof {
        if less {
            assert(less_at(a@, b@, i as int));
        } else if key_less(a@, b@) {
            let k = choose|k: int| less_at(a@, b@, k);
            if k < i {
                assert(a@[k] == b@[k]);
            } else if k > i {
                assert(a@[i as int] == b@[i as int]);
            }
        }
    }
    less
}

/// Keys are ordered: nothing comes before itself, and what comes before something that
/// comes before a third comes before that too.
pub proof fn keys_are_ordered(a: Seq<u64>, b: Seq<u64>, c: Seq<u64>)
    ensures
        !key_less(a, a),
        key_less(a, b) && key_less(b, c) ==> key_less(a, c),
        a == b || key_less(a, b) || key_less(b, a),
{
    if key_less(a, a) {
        let i = choose|i: int| less_at(a, a, i);
        assert(less_at(a, a, i));
    }
    if key_less(a, b) && key_less(b, c) {
        let i = choose|i: int| less_at(a, b, i);
        let k = choose|k: int| less_at(b, c, k);
        if i <= k {
            assert(less_at(a, c, i));
        } else {
            assert(less_at(a, c, k));
        }
    }
    if a != b {
        keys_differ_somewhere(a, b, 0);
    }
}

/// Keys that agree up to `i` and are not equal differ from there on.
proof fn keys_differ_somewhere(a: Seq<u64>, b: Seq<u64>, i: int)
    requires
        a != b,
        0 <= i <= a.len(),
        i <= b.len(),
        forall|j: int| 0 <= j < i ==> a[j] == b[j],
    ensures
        key_less(a, b) || key_less(b, a),
    decreases a.len() - i,
{
    if i == a.len() {
        if i == b.len() {
            assert(a =~= b);
        } else {
            assert(less_at(a, b, i));
        }
    } else if i == b.len() {
        assert(less_at(b, a, i));
    } else if a[i] < b[i] {
        assert(less_at(a, b, i));
    } else if b[i] < a[i] {
        assert(less_at(b, a, i));
    } else {
        keys_differ_somewhere(a, b, i + 1);
    }
}

/// Whether two keys are equal.
pub fn same_key(a: &Vec<u64>, b: &Vec<u64>) -> (r: bool)
    ensures
        r == (a@ == b@),
{
    if a.len() != b.len() {
        return false;
    }
    let mut i: usize = 0;
    while i < a.len()
        invariant
            i <= a@.len() == b@.len(),
            forall|j: int| 0 <= j < i ==> a@[j] == b@[j],
        decreases a@.len() - i,
    {
        if a[i] != b[i] {
            return false;
        }
        i = i + 1;
    }
    proof {
        assert(a@ =~= b@);
    }
    true
}

/// Whether entry `a` of a list of keys belongs before entry `b`: its key comes before, or is
/// the same and stands earlier in the list.
pub open spec fn goes_before(keys: Seq<Seq<u64>>, a: usize, b: usize) -> bool {
    key_less(keys[a as int], keys[b as int]) || (keys[a as int] == keys[b as int] && a < b)
}

/// Whether `order` lists the first `n` entries of a list of keys, each once and in order.
pub open spec fn sorts(order: Seq<usize>, keys: Seq<Seq<u64>>, n: nat) -> bool {
    &&& order.len() == n
    &&& forall|i: int| 0 <= i < order.len() ==> #[trigger] order[i] < n
    &&& forall|i: int, j: int|
        #![trigger order[i], order[j]]
        0 <= i < j < order.len() ==> goes_before(keys, order[i], order[j])
}

/// Each key as a value of the specification.
pub open spec fn key_views(keys: Seq<Vec<u64>>) -> Seq<Seq<u64>> {
    Seq::new(keys.len(), |i: int| keys[i]@)
}

/// The order of a list of keys.
pub fn sorted_order(keys: &Vec<Vec<u64>>) -> (r: Vec<usize>)
    ensures
        sorts(r@, key_views(keys@), keys@.len()),
{
    let ghost all = key_views(keys@);
    let mut order: Vec<usize> = Vec::new();
    let mut n: usize = 0;
    while n < keys.len()
        invariant
            n <= keys@.len(),
            all == key_views(keys@),
            sorts(order@, all, n as nat),
        decreases keys@.len() - n,
    {
        let mut p: usize = order.len();
        while p > 0 && is_less(&keys[n], &keys[order[p - 1]])
            invariant
                p <= order@.len(),
                n < keys@.len(),
                all == key_views(keys@),
                sorts(order@, all, n as nat),
                forall|j: int|
                    p <= j < order@.len() ==> key_less(
                        all[n as int],
                        all[(#[trigger] order@[j]) as int],
                    ),
            decreases p,
        {
            p = p - 1;
        }
        let ghost before = order@;
        proof {
            if p > 0 {
                assert(order@[p - 1] < n);
                keys_are_ordered(all[order@[p - 1] as int], all[n as int], all[n as int]);
            }
        }
        order.insert(p, n);
        proof {
            assert forall|i: int, j: int|
                #![trigger order@[i], order@[j]]
                0 <= i < j < order@.len() implies goes_before(all, order@[i], order@[j]) by {
                if j < p {
                    assert(order@[i] == before[i] && order@[j] == before[j]);
                } else if j == p {
                    assert(order@[i] == before[i]);
                    if i < p - 1 {
                        assert(goes_before(all, before[i], before[p - 1]));
                        keys_are_ordered(
                            all[before[i] as int],
                            all[before[p - 1] as int],
                            all[n as int],
                        );
                    }
                } else {
                    assert(order@[j] == before[j - 1]);
                    if i < p {
                        assert(order@[i] == before[i]);
                    } else if i > p {
                        assert(order@[i] == before[i - 1]);
                    }
                }
            }
            assert forall|i: int| 0 <= i < order@.len() implies #[trigger] order@[i] < n + 1 by {
                if i < p {
                    assert(order@[i] == before[i]);
                } else if i > p {
                    assert(order@[i] == before[i - 1]);
                }
            }
        }
        n = n + 1;
    }
    order
}

/// An order of a list leaves no entry out and takes none twice.
pub proof fn sorted_order_is_complete(order: Seq<usize>, keys: Seq<Seq<u64>>, n: nat)
    requires
        sorts(order, keys, n),
        n <= usize::MAX,
    ensures
        order.no_duplicates(),
        forall|k: usize| k < n ==> #[trigger] order.contains(k),
{
    assert forall|i: int, j: int| 0 <= i < j < order.len() implies order[i] != order[j] by {
        assert(goes_before(keys, order[i], order[j]));
        keys_are_ordered(keys[order[i] as int], keys[order[i] as int], keys[order[i] as int]);
    }
    all_below_are_listed(order, n);
}

/// Of `n` different numbers below `n` none is missing.
proof fn all_below_are_listed(order: Seq<usize>, n: nat)
    requires
        order.len() == n,
        n <= usize::MAX,
        order.no_duplicates(),
        forall|i: int| 0 <= i < order.len() ==> #[trigger] order[i] < n,
    ensures
        forall|k: usize| k < n ==> #[trigger] order.contains(k),
{
    let listed = order.to_set();
    order.unique_seq_to_set();
    let all = Set::new(|k: usize| k < n);
    numbers_below(n);
    assert(listed.subset_of(all));
    vstd::set_lib::lemma_len_subset(listed, all);
    vstd::set_lib::lemma_subset_equality(listed, all);
    assert forall|k: usize| k < n implies #[trigger] order.contains(k) by {
        assert(all.contains(k));
        assert(listed.contains(k));
    }
}

/// There are `n` numbers below `n`.
proof fn numbers_below(n: nat)
    requires
        n <= usize::MAX,
    ensures
        Set::new(|k: usize| k < n).finite(),
        Set::new(|k: usize| k < n).len() == n,
    decreases n,
{
    if n == 0 {
        assert(Set::new(|k: usize| k < n) =~= Set::<usize>::empty());
    } else {
        numbers_below((n - 1) as nat);
        let less = Set::new(|k: usize| k < (n - 1) as nat);
        assert(Set::new(|k: usize| k < n) =~= less.insert((n - 1) as usize));
    }
}

/// The order of a list of names.
pub fn order_by_name(names: &Vec<String>) -> (r: Vec<usize>)
    ensures
        sorts(r@, Seq::new(names@.len(), |i: int| text_key(names@[i]@)), names@.len()),
{
    let mut keys: Vec<Vec<u64>> = Vec::new();
    let mut i: usize = 0;
    while i < names.len()
        invariant
            i <= names@.len(),
            keys@.len() == i,
            forall|k: int| 0 <= k < i ==> (#[trigger] keys@[k])@ == text_key(names@[k]@),
        decreases names@.len() - i,
    {
        let mut key: Vec<u64> = Vec::new();
        push_text(&mut key, &chars_of(names[i].as_str()));
        proof {
            assert(key@ =~= text_key(names@[i as int]@));
        }
        keys.push(key);
        i = i + 1;
    }
    proof {
        assert(key_views(keys@) =~= Seq::new(names@.len(), |i: int| text_key(names@[i]@)));
    }
    sorted_order(&keys)
}

/// A component of a path: `..` comes before every name.
pub open spec fn component_key(c: Seq<char>) -> Seq<u64> {
    if c == seq!['.', '.'] {
        seq![3u64]
    } else {
        seq![4u64] + text_key(c)
    }
}

/// The first `n` components of a path.
pub open spec fn components_key(list: Seq<Seq<char>>, n: nat) -> Seq<u64>
    decreases n,
{
    if n == 0 {
        Seq::empty()
    } else {
        components_key(list, (n - 1) as nat) + component_key(list[n - 1])
    }
}

/// A path, component by component: the root comes before a leading `.`, and that before
/// anything else.
pub open spec fn path_key(p: Seq<char>) -> Seq<u64> {
    (if is_absolute(p) {
        seq![1u64]
    } else {
        Seq::<u64>::empty()
    }) + (if starts_here(p) {
        seq![2u64]
    } else {
        Seq::<u64>::empty()
    }) + components_key(names(p), names(p).len()) + seq![0u64]
}

/// Adds a path to a key.
pub fn push_path(out: &mut Vec<u64>, p: &str)
    ensures
        final(out)@ == old(out)@ + path_key(p@),
{
    let ghost start = out@;
    let chars = chars_of(p);
    if chars.len() > 0 && chars[0] == '/' {
        out.push(1);
    }
    let pieces = split_chars(&chars, '/');
    proof {
        cut_is_not_empty(p@, |c: char| c == '/');
    }
    let here = pieces[0].len() == 1 && pieces[0][0] == '.';
    proof {
        assert(here == starts_here(p@)) by {
            if here {
                assert(pieces@[0]@ =~= seq!['.']);
            }
        }
    }
    if here {
        out.push(2);
    }
    let ghost head = out@;
    let list = names_of(p);
    let mut i: usize = 0;
    proof {
        assert(head + Seq::<u64>::empty() =~= head);
    }
    while i < list.len()
        invariant
            i <= list@.len() == names(p@).len(),
            forall|k: int| 0 <= k < list@.len() ==> (#[trigger] list@[k])@ == names(p@)[k],
            out@ == head + components_key(names(p@), i as nat),
        decreases list@.len() - i,
    {
        let c = &list[i];
        let ghost before = out@;
        if c.len() == 2 && c[0] == '.' && c[1] == '.' {
            proof {
                assert(c@ =~= seq!['.', '.']);
            }
            out.push(3);
        } else {
            proof {
                if c@ == seq!['.', '.'] {
                    assert(c@[0] == '.' && c@[1] == '.');
                }
            }
            out.push(4);
            push_text(out, c);
        }
        proof {
            assert(out@ =~= before + component_key(names(p@)[i as int]));
            assert(out@ =~= head + components_key(names(p@), (i + 1) as nat));
        }
        i = i + 1;
    }
    out.push(0);
    proof {
        assert(out@ =~= start + path_key(p@));
    }
}

/// The order of a list of paths.
pub fn order_by_path(paths: &Vec<String>) -> (r: Vec<usize>)
    ensures
        sorts(r@, Seq::new(paths@.len(), |i: int| path_key(paths@[i]@)), paths@.len()),
{
    let mut keys: Vec<Vec<u64>> = Vec::new();
    let mut i: usize = 0;
    while i < paths.len()
        invariant
            i <= paths@.len(),
            keys@.len() == i,
            forall|k: int| 0 <= k < i ==> (#[trigger] keys@[k])@ == path_key(paths@[k]@),
        decreases paths@.len() - i,
    {
        let mut key: Vec<u64> = Vec::new();
        push_path(&mut key, paths[i].as_str());
        proof {
            assert(key@ =~= path_key(paths@[i as int]@));
        }
        keys.push(key);
        i = i + 1;
    }
    proof {
        assert(key_views(keys@) =~= Seq::new(paths@.len(), |i: int| path_key(paths@[i]@)));
    }
    sorted_order(&keys)
}

/// What files are listed by: their stems, or another name where a file has none.
pub open spec fn stem_keys(files: Seq<Seq<char>>, other: Seq<char>) -> Seq<Seq<u64>> {
    Seq::new(files.len(), |i: int| text_key(stem_or(files[i], other)))
}

/// Whether a list holds files with their names, in the order of the names.
pub open spec fn lists_by_stem(
    list: Seq<(String, String)>,
    files: Seq<Seq<char>>,
    other: Seq<char>,
) -> bool {
    &&& list.len() == files.len()
    &&& exists|order: Seq<usize>|
        #[trigger] sorts(order, stem_keys(files, other), files.len()) && forall|i: int|
            0 <= i < files.len() ==> (#[trigger] list[i]).0@ == stem_or(
                files[order[i] as int],
                other,
            ) && list[i].1@ == files[order[i] as int]
}

/// Files with their names, in the order of the names.
pub fn list_by_stem(files: &Vec<String>, other: &str) -> (r: Vec<(String, String)>)
    ensures
        lists_by_stem(r@, views(files@), other@),
{
    let ghost list = views(files@);
    let mut names: Vec<String> = Vec::new();
    let mut i: usize = 0;
    while i < files.len()
        invariant
            i <= files@.len(),
            names@.len() == i,
            forall|k: int| 0 <= k < i ==> (#[trigger] names@[k])@ == stem_or(files@[k]@, other@),
        decreases files@.len() - i,
    {
        names.push(stem_of_or(files[i].as_str(), other));
        i = i + 1;
    }
    let order = order_by_name(&names);
    proof {
        assert(Seq::new(names@.len(), |i: int| text_key(names@[i]@)) =~= stem_keys(list, other@));
    }
    let mut out: Vec<(String, String)> = Vec::new();
    let mut k: usize = 0;
    while k < order.len()
        invariant
            k <= order@.len(),
            order@.len() == files@.len() == names@.len(),
            list == views(files@),
            forall|j: int| 0 <= j < order@.len() ==> #[trigger] order@[j] < files@.len(),
            forall|j: int|
                0 <= j < names@.len() ==> (#[trigger] names@[j])@ == stem_or(files@[j]@, other@),
            out@.len() == k,
            forall|j: int|
                0 <= j < k ==> (#[trigger] out@[j]).0@ == stem_or(
                    list[order@[j] as int],
                    other@,
                ) && out@[j].1@ == list[order@[j] as int],
        decreases order@.len() - k,
    {
        let at: usize = order[k];
        out.push((String::from_str(names[at].as_str()), String::from_str(files[at].as_str())));
        k = k + 1;
    }
    out
}

} // verus!
