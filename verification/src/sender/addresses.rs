//! The file with the local addresses: one to a line, blank lines ignored.

use crate::sender::connections::texts;
use crate::text::{blank, characters, is_blank};
use vstd::prelude::*;

verus! {

/// A text without white space at its end.
pub open spec fn trimmed_end(s: Seq<char>) -> Seq<char>
    decreases s.len(),
{
    if s.len() > 0 && blank(s.last()) {
        trimmed_end(s.drop_last())
    } else {
        s
    }
}

/// A text without white space at its beginning.
pub open spec fn trimmed_start(s: Seq<char>) -> Seq<char>
    decreases s.len(),
{
    if s.len() > 0 && blank(s[0]) {
        trimmed_start(s.skip(1))
    } else {
        s
    }
}

/// A text without white space at either end.
pub open spec fn trimmed(s: Seq<char>) -> Seq<char> {
    trimmed_start(trimmed_end(s))
}

/// Where the first line of a text ends.
pub open spec fn line_end(s: Seq<char>) -> nat
    decreases s.len(),
{
    if s.len() == 0 || s[0] == '\n' {
        0
    } else {
        1 + line_end(s.skip(1))
    }
}

/// What a list holds: its lines, trimmed, without those that are blank.
pub open spec fn listed(s: Seq<char>) -> Seq<Seq<char>>
    decreases s.len(),
{
    let end = line_end(s) as int;
    let first = trimmed(s.take(end));
    let rest = if end < s.len() {
        listed(s.skip(end + 1))
    } else {
        Seq::empty()
    };
    if first.len() > 0 {
        seq![first] + rest
    } else {
        rest
    }
}

proof fn line_end_is_first(s: Seq<char>, end: nat)
    requires
        end <= s.len(),
        end < s.len() ==> s[end as int] == '\n',
        forall|i: int| 0 <= i < end ==> s[i] != '\n',
    ensures
        line_end(s) == end,
    decreases s.len(),
{
    if end > 0 {
        line_end_is_first(s.skip(1), (end - 1) as nat);
    }
}

proof fn trimmed_end_is(s: Seq<char>, end: nat)
    requires
        end <= s.len(),
        end > 0 ==> !blank(s[end - 1]),
        forall|i: int| end <= i < s.len() ==> blank(s[i]),
    ensures
        trimmed_end(s) == s.take(end as int),
    decreases s.len(),
{
    if end < s.len() {
        trimmed_end_is(s.drop_last(), end);
        assert(s.drop_last().take(end as int) =~= s.take(end as int));
    } else {
        assert(s.take(end as int) =~= s);
    }
}

proof fn trimmed_start_is(s: Seq<char>, start: nat)
    requires
        start <= s.len(),
        start < s.len() ==> !blank(s[start as int]),
        forall|i: int| 0 <= i < start ==> blank(s[i]),
    ensures
        trimmed_start(s) == s.skip(start as int),
    decreases s.len(),
{
    if start > 0 {
        trimmed_start_is(s.skip(1), (start - 1) as nat);
        assert(s.skip(1).skip(start - 1) =~= s.skip(start as int));
    } else {
        assert(s.skip(0) =~= s);
    }
}

/// The lines of a list, trimmed, without those that are blank.
pub fn address_lines(text: &str) -> (list: Vec<String>)
    ensures
        texts(list@) == listed(text@),
{
    let chars: Vec<char> = characters(text);
    let n: usize = chars.len();
    let mut list: Vec<String> = Vec::new();
    let mut pos: usize = 0;
    assert(text@.skip(0) =~= text@);
    assert(texts(list@) + listed(text@) =~= listed(text@));
    loop
        invariant
            pos <= n == chars@.len(),
            chars@ == text@,
            texts(list@) + listed(text@.skip(pos as int)) == listed(text@),
        decreases n - pos,
    {
        let ghost rest = text@.skip(pos as int);
        let mut end: usize = pos;
        while end < n && chars[end] != '\n'
            invariant
                pos <= end <= n == chars@.len(),
                forall|i: int| pos <= i < end ==> chars@[i] != '\n',
            decreases n - end,
        {
            end += 1;
        }
        let mut stop: usize = end;
        while stop > pos && is_blank(chars[stop - 1])
            invariant
                pos <= stop <= end <= n == chars@.len(),
                forall|i: int| stop <= i < end ==> blank(#[trigger] chars@[i]),
            decreases stop,
        {
            stop -= 1;
        }
        let mut start: usize = pos;
        while start < stop && is_blank(chars[start])
            invariant
                pos <= start <= stop <= n == chars@.len(),
                forall|i: int| pos <= i < start ==> blank(#[trigger] chars@[i]),
            decreases stop - start,
        {
            start += 1;
        }
        let ghost done = texts(list@);
        proof {
            line_end_is_first(rest, (end - pos) as nat);
            let line = rest.take(end - pos);
            trimmed_end_is(line, (stop - pos) as nat);
            trimmed_start_is(line.take(stop - pos), (start - pos) as nat);
            assert(trimmed(line) =~= text@.subrange(start as int, stop as int));
        }
        if start < stop {
            let line: String = text.substring_char(start, stop).to_owned();
            list.push(line);
            assert(texts(list@) =~= done.push(line@));
        }
        if end >= n {
            assert(texts(list@) =~= listed(text@));
            return list;
        }
        proof {
            assert(rest.skip(end - pos + 1) =~= text@.skip(end + 1));
            assert(texts(list@) + listed(text@.skip(end + 1)) =~= done + listed(rest));
        }
        pos = end + 1;
    }
}

/// Blank lines do not matter.
pub proof fn blank_lines_are_ignored(line: Seq<char>, rest: Seq<char>)
    requires
        forall|i: int| 0 <= i < line.len() ==> blank(#[trigger] line[i]) && line[i] != '\n',
    ensures
        listed(line.push('\n') + rest) == listed(rest),
{
    let s = line.push('\n') + rest;
    assert forall|i: int| 0 <= i < line.len() implies s[i] != '\n' by {
        assert(s[i] == line[i]);
    }
    line_end_is_first(s, line.len());
    assert(s.take(line.len() as int) =~= line);
    assert(s.skip(line.len() as int + 1) =~= rest);
    trimmed_end_is(line, 0);
    trimmed_start_is(line.take(0), 0);
}

/// A line of an address between white space, and a line break behind it, is that address,
/// in front of what the rest lists.
pub proof fn line_lists_its_address(
    left: Seq<char>,
    address: Seq<char>,
    right: Seq<char>,
    rest: Seq<char>,
)
    requires
        forall|i: int| 0 <= i < left.len() ==> blank(#[trigger] left[i]) && left[i] != '\n',
        forall|i: int| 0 <= i < right.len() ==> blank(#[trigger] right[i]) && right[i] != '\n',
        forall|i: int| 0 <= i < address.len() ==> #[trigger] address[i] != '\n',
        address.len() > 0,
        !blank(address[0]),
        !blank(address.last()),
    ensures
        listed(left + address + right + seq!['\n'] + rest) == seq![address] + listed(rest),
        listed(left + address + right) == seq![address],
        listed(Seq::empty()) == Seq::<Seq<char>>::empty(),
{
    let line = left + address + right;
    let n = line.len();
    let s = line + seq!['\n'] + rest;
    assert forall|i: int| 0 <= i < n implies line[i] != '\n' by {
        if i < left.len() {
            assert(line[i] == left[i]);
        } else if i < left.len() + address.len() {
            assert(line[i] == address[i - left.len()]);
        } else {
            assert(line[i] == right[i - left.len() - address.len()]);
        }
    }
    assert forall|i: int| 0 <= i < n implies s[i] != '\n' by {
        assert(s[i] == line[i]);
    }
    line_end_is_first(s, n);
    line_end_is_first(line, n);
    assert(s.take(n as int) =~= line);
    assert(line.take(n as int) =~= line);
    assert(s.skip(n as int + 1) =~= rest);
    assert forall|i: int| left.len() + address.len() <= i < line.len() implies blank(line[i]) by {
        assert(line[i] == right[i - left.len() - address.len()]);
    }
    trimmed_end_is(line, left.len() + address.len());
    let front = line.take((left.len() + address.len()) as int);
    assert forall|i: int| 0 <= i < left.len() implies blank(front[i]) by {
        assert(front[i] == left[i]);
    }
    trimmed_start_is(front, left.len());
    assert(front.skip(left.len() as int) =~= address);
    assert(trimmed(line) == address);
    assert(seq![address] + Seq::<Seq<char>>::empty() =~= seq![address]);
    let none = Seq::<char>::empty();
    line_end_is_first(none, 0);
    assert(none.take(0) =~= none);
    trimmed_end_is(none, 0);
    trimmed_start_is(none, 0);
    assert(none.skip(0) =~= none);
}

} // verus!
