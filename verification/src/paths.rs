//! File paths as text, as Unix has them: components separated by `/`, of which empty ones and
//! `.` do not count except for a `.` at the very start.

use crate::text::{
    chars_of, cut_is_not_empty, lower, lower_char, split, split_chars, text_between, text_of,
};
use vstd::prelude::*;

verus! {

/// A path without what does not count at its end: separators and `.` components.
pub open spec fn without_tail(p: Seq<char>) -> Seq<char>
    decreases p.len(),
{
    if p.len() >= 2 && p.last() == '/' {
        without_tail(p.drop_last())
    } else if p.len() >= 2 && p.last() == '.' && p[p.len() - 2] == '/' {
        without_tail(p.drop_last())
    } else {
        p
    }
}

/// Where the last component of a path starts: after the last separator.
pub open spec fn name_start(p: Seq<char>) -> nat
    decreases p.len(),
{
    if p.len() == 0 || p.last() == '/' {
        p.len()
    } else {
        name_start(p.drop_last())
    }
}

/// The last component of a path, where that is the name of a file or directory.
pub open spec fn file_name(p: Seq<char>) -> Option<Seq<char>> {
    let t = without_tail(p);
    let name = t.skip(name_start(t) as int);
    if name.len() == 0 || name == seq!['.'] || name == seq!['.', '.'] {
        None
    } else {
        Some(name)
    }
}

/// The path of the directory that the last component stands in.
pub open spec fn parent(p: Seq<char>) -> Option<Seq<char>> {
    let t = without_tail(p);
    if t.len() == 0 || t == seq!['/'] {
        None
    } else {
        Some(without_tail(t.take(name_start(t) as int)))
    }
}

/// The index of the last dot of a name, or its length if there is none.
pub open spec fn last_dot(name: Seq<char>) -> nat
    decreases name.len(),
{
    if name.len() == 0 {
        0
    } else if name.last() == '.' {
        (name.len() - 1) as nat
    } else {
        let before = last_dot(name.drop_last());
        if before < name.len() - 1 {
            before
        } else {
            name.len()
        }
    }
}

/// The part of a file name before its last dot; a name that only starts with a dot has
/// no extension.
pub open spec fn stem_of(name: Seq<char>) -> Seq<char> {
    if last_dot(name) == 0 {
        name
    } else {
        name.take(last_dot(name) as int)
    }
}

/// The part of a file name after its last dot.
pub open spec fn extension_of(name: Seq<char>) -> Option<Seq<char>> {
    if last_dot(name) == 0 || last_dot(name) == name.len() {
        None
    } else {
        Some(name.skip(last_dot(name) as int + 1))
    }
}

/// The file name without its extension.
pub open spec fn file_stem(p: Seq<char>) -> Option<Seq<char>> {
    match file_name(p) {
        Some(name) => Some(stem_of(name)),
        None => None,
    }
}

/// The extension of the file name.
pub open spec fn extension(p: Seq<char>) -> Option<Seq<char>> {
    match file_name(p) {
        Some(name) => extension_of(name),
        None => None,
    }
}

/// A path below another one; an absolute path stays what it is.
pub open spec fn join(base: Seq<char>, rel: Seq<char>) -> Seq<char> {
    if is_absolute(rel) {
        rel
    } else if base.len() == 0 || base.last() == '/' {
        base + rel
    } else {
        base.push('/') + rel
    }
}

/// The path with the extension of its file name replaced, or added where there is none.
pub open spec fn with_extension(p: Seq<char>, ext: Seq<char>) -> Seq<char> {
    let t = without_tail(p);
    match file_name(p) {
        None => p,
        Some(name) => t.take(t.len() - name.len()) + stem_of(name) + if ext.len() > 0 {
            seq!['.'] + ext
        } else {
            Seq::empty()
        },
    }
}

/// The components that count, after the root.
pub open spec fn names(p: Seq<char>) -> Seq<Seq<char>> {
    split(p, '/').filter(|c: Seq<char>| c.len() > 0 && c != seq!['.'])
}

/// Whether the path starts at the root.
pub open spec fn is_absolute(p: Seq<char>) -> bool {
    p.len() > 0 && p[0] == '/'
}

/// Whether a relative path starts with a `.` component.
pub open spec fn starts_here(p: Seq<char>) -> bool {
    split(p, '/')[0] == seq!['.']
}

/// Whether two texts are the same path, component by component.
pub open spec fn same_path(a: Seq<char>, b: Seq<char>) -> bool {
    is_absolute(a) == is_absolute(b) && starts_here(a) == starts_here(b) && names(a) == names(b)
}

/// Whether a path is another one or lies under it, component by component. Everything lies
/// under the empty path.
pub open spec fn lies_under(p: Seq<char>, base: Seq<char>) -> bool {
    ||| names(base).len() == 0 && !is_absolute(base) && !starts_here(base)
    ||| is_absolute(p) == is_absolute(base) && starts_here(p) == starts_here(base) && names(
        base,
    ).is_prefix_of(names(p))
}

/// The length of a path without what does not count at its end.
fn tail_cut(chars: &Vec<char>) -> (r: usize)
    ensures
        r <= chars@.len(),
        chars@.take(r as int) == without_tail(chars@),
{
    let mut n: usize = chars.len();
    proof {
        assert(chars@.take(n as int) =~= chars@);
    }
    while n >= 2 && (chars[n - 1] == '/' || (chars[n - 1] == '.' && chars[n - 2] == '/'))
        invariant
            n <= chars@.len(),
            without_tail(chars@.take(n as int)) == without_tail(chars@),
        decreases n,
    {
        proof {
            assert(chars@.take(n as int).drop_last() =~= chars@.take(n - 1));
        }
        n = n - 1;
    }
    n
}

/// Where the last component of the first `n` characters starts.
fn name_cut(chars: &Vec<char>, n: usize) -> (r: usize)
    requires
        n <= chars@.len(),
    ensures
        r <= n,
        r == name_start(chars@.take(n as int)),
{
    let mut i: usize = n;
    while i > 0 && chars[i - 1] != '/'
        invariant
            i <= n <= chars@.len(),
            name_start(chars@.take(n as int)) == name_start(chars@.take(i as int)),
        decreases i,
    {
        proof {
            assert(chars@.take(i as int).drop_last() =~= chars@.take(i - 1));
        }
        i = i - 1;
    }
    i
}

/// Where the file name stands, and what it is.
fn locate_name(chars: &Vec<char>) -> (r: Option<(usize, usize)>)
    ensures
        match r {
            Some((from, to)) => from < to <= chars@.len() && chars@.take(to as int)
                == without_tail(chars@) && file_name(chars@) == Some(
                chars@.subrange(from as int, to as int),
            ),
            None => file_name(chars@) is None,
        },
{
    let to: usize = tail_cut(chars);
    let from: usize = name_cut(chars, to);
    let ghost name = chars@.take(to as int).skip(from as int);
    proof {
        assert(name =~= chars@.subrange(from as int, to as int));
    }
    if from == to {
        return None;
    }
    if chars[from] == '.' && to - from == 1 {
        proof {
            assert(name =~= seq!['.']);
        }
        return None;
    }
    if to - from == 2 && chars[from] == '.' && chars[from + 1] == '.' {
        proof {
            assert(name =~= seq!['.', '.']);
        }
        return None;
    }
    proof {
        if name == seq!['.'] {
            assert(name[0] == '.');
        }
        if name == seq!['.', '.'] {
            assert(name[0] == '.' && name[1] == '.');
        }
    }
    Some((from, to))
}

/// The last component of a path, where that is the name of a file or directory.
pub fn file_name_of(path: &str) -> (r: Option<String>)
    ensures
        match r {
            Some(name) => file_name(path@) == Some(name@),
            None => file_name(path@) is None,
        },
{
    let chars = chars_of(path);
    match locate_name(&chars) {
        Some((from, to)) => Some(text_between(&chars, from, to)),
        None => None,
    }
}

/// The index of the last dot among the characters `from..to`, counted from `from`.
fn dot_cut(chars: &Vec<char>, from: usize, to: usize) -> (r: usize)
    requires
        from <= to <= chars@.len(),
    ensures
        r == last_dot(chars@.subrange(from as int, to as int)),
        r <= to - from,
        r < to - from ==> chars@[from + r] == '.',
{
    let mut found: usize = 0;
    let mut i: usize = from;
    while i < to
        invariant
            from <= i <= to <= chars@.len(),
            found <= i - from,
            found == last_dot(chars@.subrange(from as int, i as int)),
            found < i - from ==> chars@[from + found] == '.',
        decreases to - i,
    {
        proof {
            assert(chars@.subrange(from as int, i + 1).drop_last() =~= chars@.subrange(
                from as int,
                i as int,
            ));
        }
        if chars[i] == '.' {
            found = i - from;
        } else if found == i - from {
            found = i - from + 1;
        }
        i = i + 1;
    }
    found
}

/// The file name without its extension.
pub fn file_stem_of(path: &str) -> (r: Option<String>)
    ensures
        match r {
            Some(stem) => file_stem(path@) == Some(stem@),
            None => file_stem(path@) is None,
        },
{
    let chars = chars_of(path);
    match locate_name(&chars) {
        Some((from, to)) => {
            let dot: usize = dot_cut(&chars, from, to);
            let ghost name = chars@.subrange(from as int, to as int);
            proof {
                assert(name.take(dot as int) =~= chars@.subrange(from as int, from + dot));
            }
            if dot == 0 {
                Some(text_between(&chars, from, to))
            } else {
                Some(text_between(&chars, from, from + dot))
            }
        },
        None => None,
    }
}

/// The name of a file without its extension, or else another name.
pub open spec fn stem_or(path: Seq<char>, other: Seq<char>) -> Seq<char> {
    match file_stem(path) {
        Some(stem) => stem,
        None => other,
    }
}

/// The name of a file without its extension, or else another name.
pub fn stem_of_or(path: &str, other: &str) -> (r: String)
    ensures
        r@ == stem_or(path@, other@),
{
    match file_stem_of(path) {
        Some(stem) => stem,
        None => String::from_str(other),
    }
}

/// The extension of the file name.
pub fn extension_of_path(path: &str) -> (r: Option<String>)
    ensures
        match r {
            Some(ext) => extension(path@) == Some(ext@),
            None => extension(path@) is None,
        },
{
    let chars = chars_of(path);
    match locate_name(&chars) {
        Some((from, to)) => {
            let dot: usize = dot_cut(&chars, from, to);
            let ghost name = chars@.subrange(from as int, to as int);
            if dot == 0 || dot == to - from {
                None
            } else {
                proof {
                    assert(name.skip(dot + 1) =~= chars@.subrange(from + dot + 1, to as int));
                }
                Some(text_between(&chars, from + dot + 1, to))
            }
        },
        None => None,
    }
}

/// The path of the directory that the last component stands in.
pub fn parent_of(path: &str) -> (r: Option<String>)
    ensures
        match r {
            Some(dir) => parent(path@) == Some(dir@),
            None => parent(path@) is None,
        },
{
    let chars = chars_of(path);
    let to: usize = tail_cut(&chars);
    let ghost t = chars@.take(to as int);
    if to == 0 {
        return None;
    }
    if to == 1 && chars[0] == '/' {
        proof {
            assert(t =~= seq!['/']);
        }
        return None;
    }
    proof {
        if t == seq!['/'] {
            assert(t[0] == '/');
        }
    }
    let from: usize = name_cut(&chars, to);
    let mut dir: Vec<char> = Vec::new();
    let mut i: usize = 0;
    while i < from
        invariant
            i <= from <= chars@.len(),
            dir@ == chars@.take(i as int),
        decreases from - i,
    {
        dir.push(chars[i]);
        proof {
            assert(dir@ =~= chars@.take(i + 1));
        }
        i = i + 1;
    }
    proof {
        assert(t.take(from as int) =~= chars@.take(from as int));
    }
    let end: usize = tail_cut(&dir);
    proof {
        assert(dir@.subrange(0, end as int) =~= dir@.take(end as int));
    }
    Some(text_between(&dir, 0, end))
}

/// Whether the path starts at the root.
pub fn is_absolute_path(chars: &Vec<char>) -> (r: bool)
    ensures
        r == is_absolute(chars@),
{
    chars.len() > 0 && chars[0] == '/'
}

/// A path below another one.
pub fn join_path(base: &str, rel: &str) -> (r: String)
    ensures
        r@ == join(base@, rel@),
{
    let b = chars_of(base);
    let t = chars_of(rel);
    if is_absolute_path(&t) {
        text_of(&t)
    } else if b.len() == 0 || b[b.len() - 1] == '/' {
        text_of(&b).concat(rel)
    } else {
        let mut out = text_of(&b);
        out.push('/');
        out.concat(rel)
    }
}

/// The path with the extension of its file name replaced.
pub fn replace_extension(path: &str, ext: &str) -> (r: String)
    ensures
        r@ == with_extension(path@, ext@),
{
    let chars = chars_of(path);
    match locate_name(&chars) {
        None => text_of(&chars),
        Some((from, to)) => {
            let dot: usize = dot_cut(&chars, from, to);
            let ghost name = chars@.subrange(from as int, to as int);
            let ghost t = chars@.take(to as int);
            let end: usize = if dot == 0 {
                to
            } else {
                from + dot
            };
            let kept = text_between(&chars, 0, end);
            proof {
                assert(kept@ =~= t.take(t.len() - name.len()) + if dot == 0 {
                    name
                } else {
                    name.take(dot as int)
                });
            }
            if ext.is_empty() {
                proof {
                    assert(kept@ + Seq::<char>::empty() =~= kept@);
                }
                kept
            } else {
                let mut out = kept;
                let ghost stem = out@;
                out.push('.');
                proof {
                    assert(out@ + ext@ =~= stem + (seq!['.'] + ext@));
                }
                out.concat(ext)
            }
        },
    }
}

/// Whether a component counts.
fn counts(piece: &Vec<char>) -> (r: bool)
    ensures
        r == (piece@.len() > 0 && piece@ != seq!['.']),
{
    if piece.len() == 0 {
        return false;
    }
    if piece.len() == 1 && piece[0] == '.' {
        proof {
            assert(piece@ =~= seq!['.']);
        }
        return false;
    }
    proof {
        if piece@ == seq!['.'] {
            assert(piece@[0] == '.');
        }
    }
    true
}

/// The components that count, after the root.
pub fn names_of(path: &str) -> (r: Vec<Vec<char>>)
    ensures
        r@.len() == names(path@).len(),
        forall|i: int| 0 <= i < r@.len() ==> (#[trigger] r@[i])@ == names(path@)[i],
{
    let pieces = split_chars(&chars_of(path), '/');
    let ghost all = split(path@, '/');
    let ghost keep = |c: Seq<char>| c.len() > 0 && c != seq!['.'];
    let mut out: Vec<Vec<char>> = Vec::new();
    let mut i: usize = 0;
    proof {
        reveal(Seq::filter);
        assert(all.take(0).filter(keep) =~= Seq::<Seq<char>>::empty());
    }
    while i < pieces.len()
        invariant
            i <= pieces@.len() == all.len(),
            keep == (|c: Seq<char>| c.len() > 0 && c != seq!['.']),
            forall|k: int| 0 <= k < pieces@.len() ==> (#[trigger] pieces@[k])@ == all[k],
            out@.len() == all.take(i as int).filter(keep).len(),
            forall|k: int|
                0 <= k < out@.len() ==> (#[trigger] out@[k])@ == all.take(i as int).filter(keep)[k],
        decreases pieces@.len() - i,
    {
        proof {
            reveal(Seq::filter);
            assert(all.take(i + 1).drop_last() =~= all.take(i as int));
            assert(all.take(i + 1).last() == all[i as int]);
        }
        if counts(&pieces[i]) {
            let mut copy: Vec<char> = Vec::new();
            let mut k: usize = 0;
            while k < pieces[i].len()
                invariant
                    i < pieces@.len(),
                    k <= pieces@[i as int]@.len(),
                    copy@ == pieces@[i as int]@.take(k as int),
                decreases pieces@[i as int]@.len() - k,
            {
                copy.push(pieces[i][k]);
                proof {
                    assert(copy@ =~= pieces@[i as int]@.take(k + 1));
                }
                k = k + 1;
            }
            proof {
                assert(copy@ =~= pieces@[i as int]@);
            }
            out.push(copy);
        }
        i = i + 1;
    }
    proof {
        assert(all.take(all.len() as int) =~= all);
    }
    out
}

/// Whether a path starts with a `.` component.
pub fn is_here(chars: &Vec<char>) -> (r: bool)
    ensures
        r == starts_here(chars@),
{
    let pieces = split_chars(chars, '/');
    proof {
        cut_is_not_empty(chars@, |c: char| c == '/');
    }
    let dot = pieces[0].len() == 1 && pieces[0][0] == '.';
    proof {
        if dot {
            assert(pieces@[0]@ =~= seq!['.']);
        }
    }
    dot
}

/// Whether the components of a path begin with those of another.
fn begins_with(path: &str, base: &str) -> (r: bool)
    ensures
        r == names(base@).is_prefix_of(names(path@)),
{
    let na = names_of(path);
    let nb = names_of(base);
    if na.len() < nb.len() {
        return false;
    }
    let mut i: usize = 0;
    while i < nb.len()
        invariant
            i <= nb@.len() <= na@.len(),
            na@.len() == names(path@).len(),
            nb@.len() == names(base@).len(),
            forall|k: int| 0 <= k < na@.len() ==> (#[trigger] na@[k])@ == names(path@)[k],
            forall|k: int| 0 <= k < nb@.len() ==> (#[trigger] nb@[k])@ == names(base@)[k],
            forall|k: int| 0 <= k < i ==> (#[trigger] names(path@)[k]) == names(base@)[k],
        decreases nb@.len() - i,
    {
        if !crate::text::same_chars(&na[i], &nb[i]) {
            proof {
                assert(na@[i as int]@ == names(path@)[i as int]);
                assert(nb@[i as int]@ == names(base@)[i as int]);
                if names(base@).is_prefix_of(names(path@)) {
                    assert(names(path@).subrange(0, names(base@).len() as int)[i as int]
                        == names(path@)[i as int]);
                }
            }
            return false;
        }
        i = i + 1;
    }
    proof {
        assert(names(path@).subrange(0, names(base@).len() as int) =~= names(base@));
    }
    true
}

/// Whether a path is another one or lies under it.
pub fn path_lies_under(path: &str, base: &str) -> (r: bool)
    ensures
        r == lies_under(path@, base@),
{
    let cp = chars_of(path);
    let cb = chars_of(base);
    let root_p = cp.len() > 0 && cp[0] == '/';
    let root_b = cb.len() > 0 && cb[0] == '/';
    let here_p = is_here(&cp);
    let here_b = is_here(&cb);
    if !root_b && !here_b && names_of(base).len() == 0 {
        return true;
    }
    root_p == root_b && here_p == here_b && begins_with(path, base)
}

/// Whether two texts are the same path, component by component.
pub fn paths_equal(a: &str, b: &str) -> (r: bool)
    ensures
        r == same_path(a@, b@),
{
    let ca = chars_of(a);
    let cb = chars_of(b);
    let root_a = ca.len() > 0 && ca[0] == '/';
    let root_b = cb.len() > 0 && cb[0] == '/';
    if root_a != root_b || is_here(&ca) != is_here(&cb) {
        return false;
    }
    if names_of(a).len() != names_of(b).len() {
        return false;
    }
    let same = begins_with(a, b);
    proof {
        assert(names(a@).subrange(0, names(a@).len() as int) =~= names(a@));
    }
    same
}

/// Texts that differ only in case have separators and dots at the same places.
proof fn case_keeps_marks(a: Seq<char>, b: Seq<char>)
    requires
        lower(a) == lower(b),
    ensures
        a.len() == b.len(),
        forall|i: int|
            0 <= i < a.len() ==> lower_char(#[trigger] a[i]) == lower_char(b[i]) && (a[i] == '/'
                <==> b[i] == '/') && (a[i] == '.' <==> b[i] == '.'),
{
    assert(lower(a).len() == a.len());
    assert(lower(b).len() == b.len());
    assert forall|i: int| 0 <= i < a.len() implies lower_char(#[trigger] a[i]) == lower_char(b[i])
        && (a[i] == '/' <==> b[i] == '/') && (a[i] == '.' <==> b[i] == '.') by {
        assert(lower(a)[i] == lower_char(a[i]));
        assert(lower(b)[i] == lower_char(b[i]));
    }
}

/// A part of texts that differ only in case differs only in case.
proof fn parts_keep_case(a: Seq<char>, b: Seq<char>, from: int, to: int)
    requires
        lower(a) == lower(b),
        0 <= from <= to <= a.len(),
    ensures
        lower(a.subrange(from, to)) == lower(b.subrange(from, to)),
{
    case_keeps_marks(a, b);
    assert(lower(a.subrange(from, to)) =~= lower(b.subrange(from, to))) by {
        assert forall|i: int| 0 <= i < to - from implies #[trigger] lower(a.subrange(from, to))[i]
            == lower(b.subrange(from, to))[i] by {
            assert(lower_char(a[from + i]) == lower_char(b[from + i]));
        }
    }
}

/// What does not count at the end of a path does not depend on case.
proof fn tails_keep_case(a: Seq<char>, b: Seq<char>)
    requires
        lower(a) == lower(b),
    ensures
        lower(without_tail(a)) == lower(without_tail(b)),
        name_start(a) == name_start(b),
        last_dot(a) == last_dot(b),
    decreases a.len(),
{
    case_keeps_marks(a, b);
    if a.len() > 0 {
        let n = a.len() as int;
        parts_keep_case(a, b, 0, n - 1);
        assert(a.drop_last() =~= a.subrange(0, n - 1));
        assert(b.drop_last() =~= b.subrange(0, n - 1));
        tails_keep_case(a.drop_last(), b.drop_last());
        assert(a.last() == a[n - 1] && b.last() == b[n - 1]);
        if n >= 2 {
            assert(a[n - 2] == '/' <==> b[n - 2] == '/');
        }
    }
}

/// Paths that differ only in case have stems that differ only in case.
pub proof fn stems_keep_case(a: Seq<char>, b: Seq<char>)
    requires
        lower(a) == lower(b),
    ensures
        file_stem(a) is Some <==> file_stem(b) is Some,
        file_stem(a) is Some ==> lower(file_stem(a)->0) == lower(file_stem(b)->0),
{
    let s = without_tail(a);
    let t = without_tail(b);
    tails_keep_case(a, b);
    tails_keep_case(s, t);
    case_keeps_marks(s, t);
    name_starts_within(s);
    let at = name_start(s) as int;
    let m = s.skip(at);
    let n = t.skip(at);
    parts_keep_case(s, t, at, s.len() as int);
    assert(m =~= s.subrange(at, s.len() as int));
    assert(n =~= t.subrange(at, t.len() as int));
    case_keeps_marks(m, n);
    tails_keep_case(m, n);
    assert(m == seq!['.'] <==> n == seq!['.']) by {
        assert(m == seq!['.'] <==> m.len() == 1 && m[0] == '.') by {
            if m.len() == 1 && m[0] == '.' {
                assert(m =~= seq!['.']);
            }
        }
        assert(n == seq!['.'] <==> n.len() == 1 && n[0] == '.') by {
            if n.len() == 1 && n[0] == '.' {
                assert(n =~= seq!['.']);
            }
        }
    }
    assert(m == seq!['.', '.'] <==> n == seq!['.', '.']) by {
        assert(m == seq!['.', '.'] <==> m.len() == 2 && m[0] == '.' && m[1] == '.') by {
            if m.len() == 2 && m[0] == '.' && m[1] == '.' {
                assert(m =~= seq!['.', '.']);
            }
        }
        assert(n == seq!['.', '.'] <==> n.len() == 2 && n[0] == '.' && n[1] == '.') by {
            if n.len() == 2 && n[0] == '.' && n[1] == '.' {
                assert(n =~= seq!['.', '.']);
            }
        }
    }
    if file_name(a) is Some {
        dot_lies_within(m);
        let dot = last_dot(m) as int;
        parts_keep_case(m, n, 0, dot);
        assert(m.take(dot) =~= m.subrange(0, dot));
        assert(n.take(dot) =~= n.subrange(0, dot));
    }
}

/// The last component starts within the path.
proof fn name_starts_within(p: Seq<char>)
    ensures
        name_start(p) <= p.len(),
    decreases p.len(),
{
    if p.len() > 0 && p.last() != '/' {
        name_starts_within(p.drop_last());
    }
}

/// The last dot lies within the name.
proof fn dot_lies_within(name: Seq<char>)
    ensures
        last_dot(name) <= name.len(),
    decreases name.len(),
{
    if name.len() > 0 {
        dot_lies_within(name.drop_last());
    }
}

/// Stem and extension make up a name again, with a dot between them, and no extension holds a
/// dot.
pub proof fn stems_and_extensions_make_up_names(name: Seq<char>)
    ensures
        match extension_of(name) {
            Some(ext) => name == stem_of(name) + seq!['.'] + ext && stem_of(name).len() > 0
                && forall|i: int| 0 <= i < ext.len() ==> #[trigger] ext[i] != '.',
            None => stem_of(name) == name,
        },
{
    dots_are_found(name);
    let d = last_dot(name) as int;
    if 0 < d < name.len() {
        assert(name =~= name.take(d) + seq!['.'] + name.skip(d + 1));
    } else if d == name.len() {
        assert(name.take(d) =~= name);
    }
}

/// The last dot of a name is one, and none comes after it.
proof fn dots_are_found(name: Seq<char>)
    ensures
        last_dot(name) <= name.len(),
        last_dot(name) < name.len() ==> name[last_dot(name) as int] == '.',
        forall|i: int| last_dot(name) < i < name.len() ==> #[trigger] name[i] != '.',
        last_dot(name) == name.len() ==> forall|i: int|
            0 <= i < name.len() ==> #[trigger] name[i] != '.',
    decreases name.len(),
{
    if name.len() > 0 {
        dots_are_found(name.drop_last());
        assert forall|i: int| 0 <= i < name.len() - 1 implies #[trigger] name[i]
            == name.drop_last()[i] by {}
    }
}

/// Whether a text is the name of a file: there is something of it, it holds no separator, and it
/// does not stand for a folder.
pub open spec fn is_name(name: Seq<char>) -> bool {
    &&& name.len() > 0
    &&& forall|i: int| 0 <= i < name.len() ==> #[trigger] name[i] != '/'
    &&& name != seq!['.']
    &&& name != seq!['.', '.']
}

/// A file below a folder bears its own name, and what stands before that is the folder.
#[verifier::spinoff_prover]
#[verifier::rlimit(40)]
pub proof fn files_stand_in_their_folders(base: Seq<char>, name: Seq<char>)
    requires
        is_name(name),
    ensures
        file_name(join(base, name)) == Some(name),
        base.len() > 0 && base.last() != '/' ==> join(base, name) == base + seq!['/'] + name,
        base.is_prefix_of(join(base, name)),
        parent(join(base, name)) is Some,
{
    let p = join(base, name);
    let front = if base.len() == 0 || base.last() == '/' {
        base
    } else {
        base.push('/')
    };
    assert(name[0] != '/');
    assert(p == front + name);
    assert(p.last() == name.last());
    if p.len() >= 2 && p.last() == '.' {
        if name.len() == 1 {
            assert(name =~= seq!['.']);
        } else {
            assert(p[p.len() - 2] == name[name.len() - 2]);
        }
    }
    assert(name[name.len() - 1] != '/');
    assert(without_tail(p) == p);
    names_start_after_the_last_separator(front, name);
    assert(p.skip(front.len() as int) =~= name);
    if base.len() == 0 || base.last() == '/' {
    } else {
        assert(front + name =~= base + seq!['/'] + name);
    }
    assert(p.subrange(0, base.len() as int) =~= base);
    if p == seq!['/'] {
        assert(p.last() == '/');
    }
}

/// Where a name starts that follows nothing or a separator.
proof fn names_start_after_the_last_separator(front: Seq<char>, name: Seq<char>)
    requires
        front.len() == 0 || front.last() == '/',
        forall|i: int| 0 <= i < name.len() ==> #[trigger] name[i] != '/',
    ensures
        name_start(front + name) == front.len(),
    decreases name.len(),
{
    if name.len() == 0 {
        assert(front + name =~= front);
    } else {
        let n = name.drop_last();
        assert forall|i: int| 0 <= i < n.len() implies #[trigger] n[i] != '/' by {
            assert(name[i] != '/');
        }
        names_start_after_the_last_separator(front, n);
        assert((front + name).drop_last() =~= front + n);
        assert((front + name).last() == name[name.len() - 1]);
    }
}

} // verus!
