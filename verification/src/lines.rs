//! Text as lines.

use crate::text::{cut_is_not_empty, split};
use vstd::prelude::*;

verus! {

/// Whether a text stays on one line.
pub open spec fn is_line(s: Seq<char>) -> bool {
    forall|i: int| 0 <= i < s.len() ==> #[trigger] s[i] != '\n'
}

/// Whether each text of a list stays on one line.
pub open spec fn are_lines(list: Seq<Seq<char>>) -> bool {
    forall|i: int| 0 <= i < list.len() ==> is_line(#[trigger] list[i])
}

/// The text that a list of lines makes.
pub open spec fn of_lines(list: Seq<Seq<char>>) -> Seq<char>
    decreases list.len(),
{
    if list.len() == 0 {
        Seq::empty()
    } else {
        of_lines(list.drop_last()) + list.last() + seq!['\n']
    }
}

/// One more line is one more line break.
pub proof fn one_more_line(list: Seq<Seq<char>>, line: Seq<char>)
    ensures
        of_lines(list.push(line)) == of_lines(list) + line + seq!['\n'],
{
    assert(list.push(line).drop_last() =~= list);
}

/// The text of two lists of lines is that of one after that of the other.
pub proof fn lines_add_up(a: Seq<Seq<char>>, b: Seq<Seq<char>>)
    ensures
        of_lines(a + b) == of_lines(a) + of_lines(b),
    decreases b.len(),
{
    if b.len() == 0 {
        assert(a + b =~= a);
        assert(of_lines(a) + of_lines(b) =~= of_lines(a));
    } else {
        lines_add_up(a, b.drop_last());
        assert((a + b).drop_last() =~= a + b.drop_last());
        assert(of_lines(a + b) =~= of_lines(a) + of_lines(b));
    }
}

/// What holds no separator goes on with the last piece.
pub proof fn pieces_go_on(s: Seq<char>, t: Seq<char>, sep: char)
    requires
        forall|i: int| 0 <= i < t.len() ==> #[trigger] t[i] != sep,
    ensures
        split(s, sep).len() >= 1,
        split(s + t, sep) == split(s, sep).drop_last().push(split(s, sep).last() + t),
    decreases t.len(),
{
    cut_is_not_empty(s, |c: char| c == sep);
    let head = split(s, sep);
    if t.len() == 0 {
        assert(s + t =~= s);
        assert(head.drop_last().push(head.last() + t) =~= head) by {
            assert(head.last() + t =~= head.last());
        }
    } else {
        let u = t.drop_last();
        pieces_go_on(s, u, sep);
        assert((s + t).drop_last() =~= s + u);
        assert(t.last() != sep);
        let before = split(s + u, sep);
        assert(before.drop_last() =~= head.drop_last());
        assert((head.last() + u).push(t.last()) =~= head.last() + t);
    }
}

/// A separator ends a piece and begins an empty one.
pub proof fn pieces_end(s: Seq<char>, sep: char)
    ensures
        split(s + seq![sep], sep) == split(s, sep).push(Seq::<char>::empty()),
{
    assert((s + seq![sep]).drop_last() =~= s);
}

/// A text reads back as the lines that it was made of, with nothing after the last break.
pub proof fn lines_read_back(list: Seq<Seq<char>>)
    requires
        are_lines(list),
    ensures
        split(of_lines(list), '\n') == list.push(Seq::<char>::empty()),
    decreases list.len(),
{
    if list.len() == 0 {
        assert(split(of_lines(list), '\n') =~= list.push(Seq::<char>::empty()));
    } else {
        let before = list.drop_last();
        assert forall|i: int| 0 <= i < before.len() implies is_line(#[trigger] before[i]) by {
            assert(before[i] == list[i]);
        }
        lines_read_back(before);
        assert(is_line(list[list.len() - 1]));
        pieces_go_on(of_lines(before), list.last(), '\n');
        pieces_end(of_lines(before) + list.last(), '\n');
        assert(Seq::<char>::empty() + list.last() =~= list.last());
        assert(split(of_lines(list), '\n') =~= list.push(Seq::<char>::empty()));
    }
}

/// How often a line stands in a list.
pub open spec fn times(list: Seq<Seq<char>>, line: Seq<char>) -> nat
    decreases list.len(),
{
    if list.len() == 0 {
        0
    } else {
        times(list.drop_last(), line) + if list.last() == line {
            1nat
        } else {
            0
        }
    }
}

/// A line stands in two lists as often as in both.
pub proof fn times_add_up(a: Seq<Seq<char>>, b: Seq<Seq<char>>, line: Seq<char>)
    ensures
        times(a + b, line) == times(a, line) + times(b, line),
    decreases b.len(),
{
    if b.len() == 0 {
        assert(a + b =~= a);
    } else {
        times_add_up(a, b.drop_last(), line);
        assert((a + b).drop_last() =~= a + b.drop_last());
    }
}

/// A line that differs from each of a list does not stand in it.
pub proof fn missing_lines_are_not_counted(list: Seq<Seq<char>>, line: Seq<char>)
    requires
        forall|i: int| 0 <= i < list.len() ==> #[trigger] list[i] != line,
    ensures
        times(list, line) == 0,
    decreases list.len(),
{
    if list.len() > 0 {
        let before = list.drop_last();
        assert forall|i: int| 0 <= i < before.len() implies #[trigger] before[i] != line by {
            assert(before[i] == list[i]);
        }
        missing_lines_are_not_counted(before, line);
    }
}

/// A line that differs from all but one of a list stands in it once.
pub proof fn single_lines_are_counted_once(list: Seq<Seq<char>>, line: Seq<char>, at: int)
    requires
        0 <= at < list.len(),
        list[at] == line,
        forall|i: int| 0 <= i < list.len() && i != at ==> #[trigger] list[i] != line,
    ensures
        times(list, line) == 1,
{
    let before = list.take(at);
    let after = list.skip(at + 1);
    assert(list =~= before.push(line) + after);
    times_add_up(before.push(line), after, line);
    assert(before.push(line).drop_last() =~= before);
    assert forall|i: int| 0 <= i < after.len() implies #[trigger] after[i] != line by {
        assert(after[i] == list[at + 1 + i]);
    }
    missing_lines_are_not_counted(before, line);
    missing_lines_are_not_counted(after, line);
}

/// A line that is counted stands somewhere.
pub proof fn counted_lines_stand(list: Seq<Seq<char>>, line: Seq<char>) -> (at: int)
    requires
        times(list, line) > 0,
    ensures
        0 <= at < list.len(),
        list[at] == line,
    decreases list.len(),
{
    if list.last() == line {
        list.len() - 1
    } else {
        counted_lines_stand(list.drop_last(), line)
    }
}

} // verus!
