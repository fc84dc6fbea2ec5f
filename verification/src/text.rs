//! Text as sequences of characters: searching, splitting, trimming, ASCII case
//! and decimal numbers.

use vstd::prelude::*;

verus! {

/// `String::push` appends one character to the end of the string.
pub assume_specification[ String::push ](s: &mut String, c: char)
    ensures
        final(s)@ == old(s)@.push(c),
;

/// The characters of each string of a list.
pub open spec fn views(list: Seq<String>) -> Seq<Seq<char>> {
    Seq::new(list.len(), |i: int| list[i]@)
}

/// The characters of an optional string.
pub open spec fn opt_view(s: Option<String>) -> Option<Seq<char>> {
    match s {
        Some(t) => Some(t@),
        None => None,
    }
}

/// The characters of a string, in order.
pub fn chars_of(s: &str) -> (r: Vec<char>)
    ensures
        r@ == s@,
{
    let mut out: Vec<char> = Vec::new();
    for c in it: s.chars()
        invariant
            it.seq() == s@,
            out@ == s@.take(it.index() as int),
    {
        proof {
            assert(s@.take(it.index() as int).push(c) =~= s@.take(it.index() + 1));
        }
        out.push(c);
    }
    proof {
        assert(s@.take(s@.len() as int) =~= s@);
    }
    out
}

/// The string made of the characters `from..to` of `chars`.
pub fn text_between(chars: &Vec<char>, from: usize, to: usize) -> (r: String)
    requires
        from <= to <= chars@.len(),
    ensures
        r@ == chars@.subrange(from as int, to as int),
{
    let mut out: String = String::new();
    let mut i: usize = from;
    while i < to
        invariant
            from <= i <= to <= chars@.len(),
            out@ == chars@.subrange(from as int, i as int),
        decreases to - i,
    {
        out.push(chars[i]);
        proof {
            assert(chars@.subrange(from as int, i as int).push(chars@[i as int])
                =~= chars@.subrange(from as int, i + 1));
        }
        i = i + 1;
    }
    out
}

/// The string made of all of `chars`.
pub fn text_of(chars: &Vec<char>) -> (r: String)
    ensures
        r@ == chars@,
{
    let n: usize = chars.len();
    proof {
        assert(chars@.subrange(0, n as int) =~= chars@);
    }
    text_between(chars, 0, n)
}

/// Whether `pat` stands in `s` at index `at`.
pub open spec fn occurs_at(s: Seq<char>, pat: Seq<char>, at: int) -> bool {
    0 <= at && at + pat.len() <= s.len() && s.subrange(at, at + pat.len()) == pat
}

/// Whether `pat` stands anywhere in `s`.
pub open spec fn contains(s: Seq<char>, pat: Seq<char>) -> bool {
    exists|at: int| occurs_at(s, pat, at)
}

/// Whether `pat` stands in `s` at index `at`.
pub fn matches_at(s: &Vec<char>, pat: &Vec<char>, at: usize) -> (r: bool)
    ensures
        r == occurs_at(s@, pat@, at as int),
{
    let n: usize = pat.len();
    if at > s.len() || n > s.len() - at {
        return false;
    }
    let mut i: usize = 0;
    while i < n
        invariant
            i <= n == pat@.len(),
            at + n <= s.len(),
            forall|j: int| 0 <= j < i ==> s@[at + j] == pat@[j],
        decreases n - i,
    {
        if s[at + i] != pat[i] {
            proof {
                assert(s@.subrange(at as int, at + n)[i as int] == s@[at + i]);
            }
            return false;
        }
        i = i + 1;
    }
    proof {
        assert(s@.subrange(at as int, at + n) =~= pat@);
    }
    true
}

/// The first index, not before `from`, at which `pat` stands in `s`.
pub fn find_from(s: &Vec<char>, pat: &Vec<char>, from: usize) -> (r: Option<usize>)
    ensures
        match r {
            Some(at) => from <= at && occurs_at(s@, pat@, at as int) && forall|j: int|
                from <= j < at ==> !occurs_at(s@, pat@, j),
            None => forall|j: int| from <= j ==> !occurs_at(s@, pat@, j),
        },
{
    let mut i: usize = from;
    while i <= s.len()
        invariant
            from <= i,
            i <= s@.len() + 1 || i == from,
            forall|j: int| from <= j < i ==> !occurs_at(s@, pat@, j),
        decreases s@.len() + 1 - i,
    {
        if matches_at(s, pat, i) {
            return Some(i);
        }
        if i == s.len() {
            return None;
        }
        i = i + 1;
    }
    None
}

/// Whether `s` and `t` hold the same characters.
pub fn same_chars(s: &Vec<char>, t: &Vec<char>) -> (r: bool)
    ensures
        r == (s@ == t@),
{
    if s.len() != t.len() {
        return false;
    }
    let same = matches_at(s, t, 0);
    proof {
        assert(s@.subrange(0, s@.len() as int) =~= s@);
    }
    same
}

/// Whether `s` and `t` are the same text.
pub fn same_text(s: &str, t: &str) -> (r: bool)
    ensures
        r == (s@ == t@),
{
    same_chars(&chars_of(s), &chars_of(t))
}

/// Whether `pat` stands anywhere in `s`.
pub fn has_text(s: &str, pat: &str) -> (r: bool)
    ensures
        r == contains(s@, pat@),
{
    let chars = chars_of(s);
    match find_from(&chars, &chars_of(pat), 0) {
        Some(at) => {
            assert(occurs_at(s@, pat@, at as int));
            true
        },
        None => false,
    }
}

/// Whether `s` begins with `pat`.
pub fn starts_with(s: &str, pat: &str) -> (r: bool)
    ensures
        r == pat@.is_prefix_of(s@),
{
    let chars = chars_of(s);
    matches_at(&chars, &chars_of(pat), 0)
}

/// Whether `s` ends with `pat`.
pub fn ends_with(s: &str, pat: &str) -> (r: bool)
    ensures
        r == pat@.is_suffix_of(s@),
{
    let chars = chars_of(s);
    let tail = chars_of(pat);
    if tail.len() > chars.len() {
        return false;
    }
    let at: usize = chars.len() - tail.len();
    matches_at(&chars, &tail, at)
}

/// The last index before `end` at which `c` stands in `s`.
pub fn rfind_char(s: &Vec<char>, c: char, end: usize) -> (r: Option<usize>)
    requires
        end <= s@.len(),
    ensures
        match r {
            Some(at) => at < end && s@[at as int] == c && forall|j: int|
                at < j < end ==> s@[j] != c,
            None => forall|j: int| 0 <= j < end ==> s@[j] != c,
        },
{
    let mut i: usize = end;
    while i > 0
        invariant
            i <= end <= s@.len(),
            forall|j: int| i <= j < end ==> s@[j] != c,
        decreases i,
    {
        i = i - 1;
        if s[i] == c {
            return Some(i);
        }
    }
    None
}

/// A text with every occurrence of `pat` replaced, from left to right.
pub open spec fn replaced(s: Seq<char>, pat: Seq<char>, with: Seq<char>) -> Seq<char>
    decreases s.len(),
{
    if pat.len() == 0 || s.len() < pat.len() {
        s
    } else if pat.is_prefix_of(s) {
        with + replaced(s.skip(pat.len() as int), pat, with)
    } else {
        seq![s[0]] + replaced(s.skip(1), pat, with)
    }
}

/// A text with every occurrence of `pat` replaced, from left to right.
pub fn replace_text(s: &str, pat: &str, with: &str) -> (r: String)
    requires
        pat@.len() > 0,
    ensures
        r@ == replaced(s@, pat@, with@),
{
    let chars = chars_of(s);
    let p = chars_of(pat);
    let mut out = String::new();
    let mut i: usize = 0;
    proof {
        assert(s@.skip(0) =~= s@);
        assert(out@ + replaced(s@.skip(0), pat@, with@) =~= replaced(s@, pat@, with@));
    }
    while i < chars.len() && chars.len() - i >= p.len()
        invariant
            i <= chars@.len(),
            chars@ == s@,
            p@ == pat@,
            p@.len() > 0,
            out@ + replaced(s@.skip(i as int), pat@, with@) == replaced(s@, pat@, with@),
        decreases chars@.len() - i,
    {
        let ghost rest = s@.skip(i as int);
        if matches_at(&chars, &p, i) {
            proof {
                assert(rest.subrange(0, pat@.len() as int) =~= s@.subrange(
                    i as int,
                    i + pat@.len(),
                ));
                assert(rest.skip(pat@.len() as int) =~= s@.skip(i + pat@.len()));
                assert(out@ + (with@ + replaced(rest.skip(pat@.len() as int), pat@, with@))
                    =~= (out@ + with@) + replaced(rest.skip(pat@.len() as int), pat@, with@));
            }
            out.append(with);
            i = i + p.len();
        } else {
            proof {
                assert(rest.subrange(0, pat@.len() as int) =~= s@.subrange(
                    i as int,
                    i + pat@.len(),
                ));
                assert(rest.skip(1) =~= s@.skip(i + 1));
                assert(out@ + (seq![rest[0]] + replaced(rest.skip(1), pat@, with@)) =~= out@.push(
                    rest[0],
                ) + replaced(rest.skip(1), pat@, with@));
            }
            out.push(chars[i]);
            i = i + 1;
        }
    }
    let tail = text_between(&chars, i, chars.len());
    proof {
        assert(tail@ =~= s@.skip(i as int));
    }
    out.concat(tail.as_str())
}

/// Replacing one character goes from character to character: what becomes of a text is what
/// becomes of its two parts, the character becomes its replacement, and any other stays.
#[verifier::spinoff_prover]
#[verifier::rlimit(40)]
pub proof fn characters_are_replaced_one_by_one(
    a: Seq<char>,
    b: Seq<char>,
    c: char,
    with: Seq<char>,
    d: char,
)
    ensures
        replaced(a + b, seq![c], with) == replaced(a, seq![c], with) + replaced(b, seq![c], with),
        replaced(seq![c], seq![c], with) == with,
        d != c ==> replaced(seq![d], seq![c], with) == seq![d],
        replaced(Seq::<char>::empty(), seq![c], with) == Seq::<char>::empty(),
    decreases a.len(),
{
    let pat = seq![c];
    assert(replaced(Seq::<char>::empty(), pat, with) == Seq::<char>::empty());
    assert(replaced(seq![c], pat, with) == with) by {
        assert(pat.is_prefix_of(seq![c])) by {
            assert(seq![c].subrange(0, 1) =~= pat);
        }
        assert(seq![c].skip(1) =~= Seq::<char>::empty());
        assert(with + Seq::<char>::empty() =~= with);
    }
    if d != c {
        assert(!pat.is_prefix_of(seq![d])) by {
            assert(seq![d].subrange(0, 1)[0] == d);
        }
        assert(seq![d].skip(1) =~= Seq::<char>::empty());
        assert(seq![d] + Seq::<char>::empty() =~= seq![d]);
    }
    if a.len() == 0 {
        assert(a + b =~= b);
        assert(a =~= Seq::<char>::empty());
        assert(replaced(a, pat, with) + replaced(b, pat, with) =~= replaced(b, pat, with));
    } else {
        characters_are_replaced_one_by_one(a.skip(1), b, c, with, d);
        assert((a + b).skip(1) =~= a.skip(1) + b);
        assert(a.subrange(0, 1) =~= seq![a[0]]);
        assert((a + b).subrange(0, 1) =~= seq![a[0]]);
        if a[0] == c {
            assert(a.subrange(0, 1) =~= pat);
        } else {
            assert(pat[0] != a.subrange(0, 1)[0]);
            assert(pat[0] != (a + b).subrange(0, 1)[0]);
        }
        assert(replaced(a + b, pat, with) =~= replaced(a, pat, with) + replaced(b, pat, with));
    }
}

/// A character that is replaced is gone, unless its replacement brings it back; any other
/// character that is there afterwards was there before or came with the replacement.
pub proof fn replaced_characters_are_gone(s: Seq<char>, c: char, with: Seq<char>, i: int)
    requires
        0 <= i < replaced(s, seq![c], with).len(),
    ensures
        ({
            let d = replaced(s, seq![c], with)[i];
            with.contains(d) || (d != c && s.contains(d))
        }),
    decreases s.len(),
{
    let pat = seq![c];
    if s.len() > 0 {
        assert(s.subrange(0, 1) =~= seq![s[0]]);
        let rest = s.skip(1);
        if s[0] == c {
            assert(s.subrange(0, 1) =~= pat);
            assert(pat.is_prefix_of(s));
            if i < with.len() {
                assert(with[i] == replaced(s, pat, with)[i]);
            } else {
                replaced_characters_are_gone(rest, c, with, i - with.len());
            }
        } else {
            assert(pat[0] != s.subrange(0, 1)[0]);
            assert(!pat.is_prefix_of(s));
            if i > 0 {
                replaced_characters_are_gone(rest, c, with, i - 1);
            }
        }
        let d = replaced(s, pat, with)[i];
        if rest.contains(d) {
            let k = choose|k: int| 0 <= k < rest.len() && rest[k] == d;
            assert(s[k + 1] == d);
        }
    }
}

/// The ASCII lower case of a character; every other character is itself.
pub open spec fn lower_char(c: char) -> char {
    if 'A' <= c <= 'Z' {
        (c as u8 + 32) as char
    } else {
        c
    }
}

/// ASCII lower case of a text, character by character.
pub open spec fn lower(s: Seq<char>) -> Seq<char> {
    Seq::new(s.len(), |i: int| lower_char(s[i]))
}

/// The ASCII lower case of a character.
pub fn to_lower_char(c: char) -> (r: char)
    ensures
        r == lower_char(c),
{
    if 'A' <= c && c <= 'Z' {
        (c as u8 + 32) as char
    } else {
        c
    }
}

/// ASCII lower case of a text.
pub fn to_lower_chars(s: &Vec<char>) -> (r: Vec<char>)
    ensures
        r@ == lower(s@),
{
    let mut out: Vec<char> = Vec::new();
    let mut i: usize = 0;
    while i < s.len()
        invariant
            i <= s@.len(),
            out@ == lower(s@.take(i as int)),
        decreases s@.len() - i,
    {
        out.push(to_lower_char(s[i]));
        proof {
            assert(lower(s@.take(i as int)).push(lower_char(s@[i as int])) =~= lower(
                s@.take(i + 1),
            ));
        }
        i = i + 1;
    }
    proof {
        assert(s@.take(s@.len() as int) =~= s@);
    }
    out
}

/// ASCII lower case of a text.
pub fn to_lower(s: &str) -> (r: String)
    ensures
        r@ == lower(s@),
{
    text_of(&to_lower_chars(&chars_of(s)))
}

/// Whether two texts differ at most in ASCII case.
pub fn same_ignoring_case(s: &str, t: &str) -> (r: bool)
    ensures
        r == (lower(s@) == lower(t@)),
{
    same_chars(&to_lower_chars(&chars_of(s)), &to_lower_chars(&chars_of(t)))
}

/// The Unicode white space characters.
pub open spec fn is_space(c: char) -> bool {
    ||| '\u{9}' <= c <= '\u{d}'
    ||| c == ' '
    ||| c == '\u{85}'
    ||| c == '\u{a0}'
    ||| c == '\u{1680}'
    ||| '\u{2000}' <= c <= '\u{200a}'
    ||| c == '\u{2028}'
    ||| c == '\u{2029}'
    ||| c == '\u{202f}'
    ||| c == '\u{205f}'
    ||| c == '\u{3000}'
}

/// Whether `c` is a Unicode white space character.
pub fn is_space_char(c: char) -> (r: bool)
    ensures
        r == is_space(c),
{
    ('\u{9}' <= c && c <= '\u{d}') || c == ' ' || c == '\u{85}' || c == '\u{a0}' || c
        == '\u{1680}' || ('\u{2000}' <= c && c <= '\u{200a}') || c == '\u{2028}' || c == '\u{2029}'
        || c == '\u{202f}' || c == '\u{205f}' || c == '\u{3000}'
}

/// A text cut at every character for which `sep` holds; the separators are left
/// out and there is always one piece more than there are separators.
pub open spec fn cut(s: Seq<char>, sep: spec_fn(char) -> bool) -> Seq<Seq<char>>
    decreases s.len(),
{
    if s.len() == 0 {
        seq![Seq::<char>::empty()]
    } else {
        let head = cut(s.drop_last(), sep);
        if sep(s.last()) {
            head.push(Seq::<char>::empty())
        } else {
            head.drop_last().push(head.last().push(s.last()))
        }
    }
}

/// A text cut at every `sep`.
pub open spec fn split(s: Seq<char>, sep: char) -> Seq<Seq<char>> {
    cut(s, |c: char| c == sep)
}

/// The words of a text: what stands between white space.
pub open spec fn words(s: Seq<char>) -> Seq<Seq<char>> {
    cut(s, |c: char| is_space(c)).filter(|w: Seq<char>| w.len() > 0)
}

/// There is always a first piece.
pub proof fn cut_is_not_empty(s: Seq<char>, sep: spec_fn(char) -> bool)
    ensures
        cut(s, sep).len() >= 1,
    decreases s.len(),
{
    if s.len() > 0 {
        cut_is_not_empty(s.drop_last(), sep);
    }
}

/// The pieces of `s` between occurrences of `sep`.
pub fn split_chars(s: &Vec<char>, sep: char) -> (r: Vec<Vec<char>>)
    ensures
        r@.len() == split(s@, sep).len(),
        forall|i: int| 0 <= i < r@.len() ==> (#[trigger] r@[i])@ == split(s@, sep)[i],
{
    let mut out: Vec<Vec<char>> = Vec::new();
    let mut piece: Vec<char> = Vec::new();
    let mut i: usize = 0;
    while i < s.len()
        invariant
            i <= s@.len(),
            out@.len() + 1 == split(s@.take(i as int), sep).len(),
            forall|k: int|
                0 <= k < out@.len() ==> (#[trigger] out@[k])@ == split(
                    s@.take(i as int),
                    sep,
                )[k],
            piece@ == split(s@.take(i as int), sep).last(),
        decreases s@.len() - i,
    {
        let c = s[i];
        proof {
            assert(s@.take(i + 1).drop_last() =~= s@.take(i as int));
        }
        if c == sep {
            out.push(piece);
            piece = Vec::new();
        } else {
            piece.push(c);
        }
        i = i + 1;
    }
    proof {
        assert(s@.take(s@.len() as int) =~= s@);
    }
    out.push(piece);
    out
}

/// The words of `s`.
pub fn words_of(s: &Vec<char>) -> (r: Vec<String>)
    ensures
        views(r@) == words(s@),
{
    let ghost sep = |c: char| is_space(c);
    let ghost full = |w: Seq<char>| w.len() > 0;
    let mut out: Vec<String> = Vec::new();
    let mut start: usize = 0;
    let mut i: usize = 0;
    proof {
        assert(cut(s@.take(0), sep) =~= seq![Seq::<char>::empty()]);
        assert(cut(s@.take(0), sep).drop_last() =~= Seq::<Seq<char>>::empty());
        assert(Seq::<Seq<char>>::empty().filter(full) =~= Seq::<Seq<char>>::empty());
        assert(views(out@) =~= Seq::<Seq<char>>::empty());
    }
    while i < s.len()
        invariant
            start <= i <= s@.len(),
            sep == (|c: char| is_space(c)),
            full == (|w: Seq<char>| w.len() > 0),
            cut(s@.take(i as int), sep).len() >= 1,
            views(out@) == cut(s@.take(i as int), sep).drop_last().filter(full),
            s@.subrange(start as int, i as int) == cut(s@.take(i as int), sep).last(),
        decreases s@.len() - i,
    {
        let ghost head = cut(s@.take(i as int), sep);
        proof {
            assert(s@.take(i + 1).drop_last() =~= s@.take(i as int));
            assert(head.drop_last().push(head.last()) =~= head);
            reveal(Seq::filter);
        }
        if is_space_char(s[i]) {
            proof {
                assert(cut(s@.take(i + 1), sep).drop_last() =~= head);
            }
            if start < i {
                let word = text_between(s, start, i);
                let ghost before = out@;
                out.push(word);
                proof {
                    assert(views(out@) =~= views(before).push(word@));
                }
            }
            start = i + 1;
            proof {
                assert(s@.subrange(start as int, i + 1) =~= Seq::<char>::empty());
            }
        } else {
            proof {
                assert(cut(s@.take(i + 1), sep).drop_last() =~= head.drop_last());
                assert(s@.subrange(start as int, i + 1) =~= s@.subrange(
                    start as int,
                    i as int,
                ).push(s@[i as int]));
            }
        }
        i = i + 1;
    }
    proof {
        let whole = cut(s@, sep);
        assert(s@.take(s@.len() as int) =~= s@);
        assert(whole.drop_last().push(whole.last()) =~= whole);
        reveal(Seq::filter);
    }
    if start < i {
        let word = text_between(s, start, i);
        let ghost before = out@;
        out.push(word);
        proof {
            assert(views(out@) =~= views(before).push(word@));
        }
    }
    out
}

/// A text without the white space at its two ends.
pub open spec fn trim(s: Seq<char>) -> Seq<char>
    decreases s.len(),
{
    if s.len() == 0 {
        s
    } else if is_space(s[0]) {
        trim(s.skip(1))
    } else if is_space(s.last()) {
        trim(s.drop_last())
    } else {
        s
    }
}

/// A text without the white space at its two ends.
pub fn trim_text(s: &str) -> (r: String)
    ensures
        r@ == trim(s@),
{
    let chars = chars_of(s);
    let n: usize = chars.len();
    let mut from: usize = 0;
    proof {
        assert(s@.subrange(0, n as int) =~= s@);
    }
    while from < n && is_space_char(chars[from])
        invariant
            from <= n == chars@.len(),
            chars@ == s@,
            trim(s@) == trim(s@.subrange(from as int, n as int)),
        decreases n - from,
    {
        proof {
            assert(s@.subrange(from as int, n as int).skip(1) =~= s@.subrange(
                from + 1,
                n as int,
            ));
        }
        from = from + 1;
    }
    let mut to: usize = n;
    while from < to && is_space_char(chars[to - 1])
        invariant
            from <= to <= n == chars@.len(),
            chars@ == s@,
            from < to ==> !is_space(s@[from as int]),
            trim(s@) == trim(s@.subrange(from as int, to as int)),
        decreases to - from,
    {
        proof {
            assert(s@.subrange(from as int, to as int).drop_last() =~= s@.subrange(
                from as int,
                to - 1,
            ));
        }
        to = to - 1;
    }
    text_between(&chars, from, to)
}

/// The decimal digit for a value below ten.
pub open spec fn digit(d: nat) -> char {
    (d + 48) as char
}

/// A number in decimal, without leading zeros.
pub open spec fn decimal(n: nat) -> Seq<char>
    decreases n,
{
    if n < 10 {
        seq![digit(n)]
    } else {
        decimal(n / 10).push(digit(n % 10))
    }
}

/// A number in decimal, without leading zeros.
pub fn decimal_text(n: u64) -> (r: String)
    ensures
        r@ == decimal(n as nat),
    decreases n,
{
    if n < 10 {
        let mut out: String = String::new();
        out.push((n as u8 + 48) as char);
        proof {
            assert(out@ =~= seq![digit(n as nat)]);
        }
        out
    } else {
        let mut out: String = decimal_text(n / 10);
        out.push(((n % 10) as u8 + 48) as char);
        out
    }
}

/// Whether `c` is one of the ten ASCII digits.
pub open spec fn is_digit(c: char) -> bool {
    '0' <= c <= '9'
}

/// The value of a run of ASCII digits; nothing for a text that holds anything
/// else, or nothing at all.
pub open spec fn digits_value(s: Seq<char>) -> Option<nat>
    decreases s.len(),
{
    if s.len() == 0 {
        None
    } else if !is_digit(s.last()) {
        None
    } else if s.len() == 1 {
        Some((s[0] as nat - 48) as nat)
    } else {
        match digits_value(s.drop_last()) {
            Some(high) => Some((10 * high + (s.last() as nat - 48)) as nat),
            None => None,
        }
    }
}

/// The value of a whole number with an optional sign.
pub open spec fn integer_value(s: Seq<char>) -> Option<int> {
    if s.len() > 0 && (s[0] == '-' || s[0] == '+') {
        match digits_value(s.skip(1)) {
            Some(n) => Some(if s[0] == '-' { -(n as int) } else { n as int }),
            None => None,
        }
    } else {
        match digits_value(s) {
            Some(n) => Some(n as int),
            None => None,
        }
    }
}

/// The value of the digits `from..`, while it fits; the first component says
/// whether only digits were seen, the second is the value unless it is larger
/// than `limit`.
fn digits_within(s: &Vec<char>, from: usize, limit: u64) -> (r: Option<u64>)
    requires
        from <= s@.len(),
        limit < u64::MAX,
    ensures
        match r {
            Some(v) => v <= limit && digits_value(s@.skip(from as int)) == Some(v as nat),
            None => match digits_value(s@.skip(from as int)) {
                Some(v) => v > limit,
                None => true,
            },
        },
{
    if from == s.len() {
        return None;
    }
    let mut value: u64 = 0;
    let mut big = false;
    let mut i: usize = from;
    while i < s.len()
        invariant
            from <= i <= s@.len(),
            limit < u64::MAX,
            from < s@.len(),
            i == from ==> value == 0 && !big,
            !big ==> value <= limit,
            from < i ==> (match digits_value(s@.subrange(from as int, i as int)) {
                Some(v) => if big {
                    v > limit
                } else {
                    v == value
                },
                None => false,
            }),
        decreases s@.len() - i,
    {
        let c = s[i];
        let ghost part = s@.subrange(from as int, i + 1);
        proof {
            assert(part.drop_last() =~= s@.subrange(from as int, i as int));
            assert(part.last() == c);
        }
        if !('0' <= c && c <= '9') {
            proof {
                no_digits_after(s@.skip(from as int), i - from);
            }
            return None;
        }
        let d: u64 = (c as u8 - 48) as u64;
        if !big {
            if value > (limit - if d <= limit { d } else { limit }) / 10 || d > limit {
                big = true;
            } else {
                value = value * 10 + d;
            }
        }
        i = i + 1;
    }
    proof {
        assert(s@.subrange(from as int, s@.len() as int) =~= s@.skip(from as int));
    }
    if big {
        None
    } else {
        Some(value)
    }
}

/// A whole number with an optional sign, where it fits in an `isize`.
pub fn parse_isize(s: &str) -> (r: Option<isize>)
    ensures
        match r {
            Some(v) => integer_value(s@) == Some(v as int),
            None => match integer_value(s@) {
                Some(v) => v < isize::MIN || v > isize::MAX,
                None => true,
            },
        },
{
    let chars = chars_of(s);
    if chars.len() == 0 {
        return None;
    }
    let top: u64 = isize::MAX as u64;
    if chars[0] == '-' {
        match digits_within(&chars, 1, top + 1) {
            Some(v) => if v == top + 1 {
                Some(isize::MIN)
            } else {
                Some(-(v as isize))
            },
            None => None,
        }
    } else if chars[0] == '+' {
        match digits_within(&chars, 1, top) {
            Some(v) => Some(v as isize),
            None => None,
        }
    } else {
        proof {
            assert(s@.skip(0) =~= s@);
        }
        match digits_within(&chars, 0, top) {
            Some(v) => Some(v as isize),
            None => None,
        }
    }
}

/// A text that holds a character other than a digit has no value.
proof fn no_digits_after(s: Seq<char>, at: int)
    requires
        0 <= at < s.len(),
        !is_digit(s[at]),
    ensures
        digits_value(s) is None,
    decreases s.len(),
{
    if at < s.len() - 1 {
        no_digits_after(s.drop_last(), at);
    }
}

/// Reading back what was written: the digits of a number have its value.
pub proof fn decimal_reads_back(n: nat)
    ensures
        digits_value(decimal(n)) == Some(n),
        decimal(n).len() > 0,
        forall|i: int| 0 <= i < decimal(n).len() ==> is_digit(#[trigger] decimal(n)[i]),
    decreases n,
{
    if n < 10 {
        assert(decimal(n) == seq![digit(n)]);
    } else {
        decimal_reads_back(n / 10);
        assert(decimal(n).drop_last() =~= decimal(n / 10));
        assert(is_digit(digit(n % 10)));
    }
}

/// Small letters are the capital ones thirty-two further on; everything else stays, and what is
/// small stays small.
pub proof fn capitals_become_small(s: Seq<char>, i: int)
    requires
        0 <= i < s.len(),
    ensures
        lower(s).len() == s.len(),
        'A' <= s[i] <= 'Z' ==> lower(s)[i] as int == s[i] as int + 32,
        !('A' <= s[i] <= 'Z') ==> lower(s)[i] == s[i],
        lower(lower(s))[i] == lower(s)[i],
{
}

/// Whether all of a text is white space.
pub open spec fn is_blank(s: Seq<char>) -> bool {
    forall|i: int| 0 <= i < s.len() ==> is_space(#[trigger] s[i])
}

/// A trimmed text has no white space at its ends; it stands in the text that it was trimmed
/// from, and what is before it and after it there is white space.
#[verifier::spinoff_prover]
#[verifier::rlimit(40)]
pub proof fn trimmed_texts_stand_between_space(s: Seq<char>) -> (r: (Seq<char>, Seq<char>))
    ensures
        trim(s).len() > 0 ==> !is_space(trim(s)[0]) && !is_space(trim(s).last()),
        is_blank(r.0),
        is_blank(r.1),
        s == r.0 + trim(s) + r.1,
    decreases s.len(),
{
    let none = Seq::<char>::empty();
    if s.len() == 0 || (!is_space(s[0]) && !is_space(s.last())) {
        assert(s =~= none + trim(s) + none);
        (none, none)
    } else if is_space(s[0]) {
        let (a, b) = trimmed_texts_stand_between_space(s.skip(1));
        assert(s =~= seq![s[0]] + s.skip(1));
        assert(s =~= (seq![s[0]] + a) + trim(s) + b);
        (seq![s[0]] + a, b)
    } else {
        let (a, b) = trimmed_texts_stand_between_space(s.drop_last());
        assert(s =~= s.drop_last().push(s.last()));
        assert(s =~= a + trim(s) + b.push(s.last()));
        (a, b.push(s.last()))
    }
}

} // verus!
