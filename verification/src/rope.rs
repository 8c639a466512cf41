//! The text of a document, held in a rope.
//!
//! A line ends at a line feed and nowhere else: a lone carriage return is a
//! character of its line.

use ropey::Rope;
use vstd::prelude::*;

verus! {

/// The rope a document's text is held in.
#[verifier::external_type_specification]
#[verifier::external_body]
pub struct ExRope(Rope);

/// The characters a rope holds, in order.
pub uninterp spec fn rope_text(rope: Rope) -> Seq<char>;

/// How many line feeds `text` holds.
pub open spec fn breaks(text: Seq<char>) -> nat
    decreases text.len(),
{
    if text.len() == 0 {
        0
    } else {
        breaks(text.drop_last()) + if text.last() == '\n' {
            1nat
        } else {
            0nat
        }
    }
}

/// The line the character at `at` is on.
pub open spec fn line_of(text: Seq<char>, at: int) -> nat {
    breaks(text.take(at))
}

/// Where line `line` starts: just after the line feed that ends the line
/// before it, and at the end of the text where there is no such line.
pub open spec fn line_start(text: Seq<char>, line: int) -> int
    decreases text.len(),
{
    if text.len() == 0 {
        0
    } else if breaks(text.drop_last()) >= line {
        line_start(text.drop_last(), line)
    } else {
        text.len() as int
    }
}

/// Where line `line` ends, not counting the line feed that ends it.
pub open spec fn line_end(text: Seq<char>, line: int) -> int {
    if line < breaks(text) {
        line_start(text, line + 1) - 1
    } else {
        text.len() as int
    }
}

/// `Rope::from_str`: a rope that holds `text`.
#[verifier::external_body]
pub(crate) fn from_str(text: &str) -> (rope: Rope)
    ensures
        rope_text(rope) == text@,
{
    Rope::from_str(text)
}

/// `Rope::clone`: a rope that holds the same text.
#[verifier::external_body]
pub(crate) fn copied(rope: &Rope) -> (copy: Rope)
    ensures
        rope_text(copy) == rope_text(*rope),
{
    rope.clone()
}

/// `==` on ropes: whether they hold the same text.
#[verifier::external_body]
pub(crate) fn equal(a: &Rope, b: &Rope) -> (same: bool)
    ensures
        same == (rope_text(*a) == rope_text(*b)),
{
    a == b
}

/// `Rope::len_chars`: how many characters it holds.
#[verifier::external_body]
pub(crate) fn len_chars(rope: &Rope) -> (count: usize)
    ensures
        count == rope_text(*rope).len(),
{
    rope.len_chars()
}

/// `Rope::char`: the character at `at`. It panics past the end, which
/// `requires` leaves out.
#[verifier::external_body]
pub(crate) fn char_at(rope: &Rope, at: usize) -> (ch: char)
    requires
        at < rope_text(*rope).len(),
    ensures
        ch == rope_text(*rope)[at as int],
{
    rope.char(at)
}

/// `Rope::slice`, and the slice as a string: the characters from `from` up to
/// `to`. It panics where the two are out of order or past the end, which
/// `requires` leaves out.
#[verifier::external_body]
pub(crate) fn slice(rope: &Rope, from: usize, to: usize) -> (text: String)
    requires
        from <= to <= rope_text(*rope).len(),
    ensures
        text@ == rope_text(*rope).subrange(from as int, to as int),
{
    rope.slice(from..to).to_string()
}

/// `Rope::len_lines`: one line more than there are line feeds. Built without
/// its `cr_lines` and `unicode_lines` features, the rope ends a line at a line
/// feed only.
#[verifier::external_body]
pub(crate) fn len_lines(rope: &Rope) -> (count: usize)
    ensures
        count == breaks(rope_text(*rope)) + 1,
{
    rope.len_lines()
}

/// `Rope::char_to_line`: the line the character at `at` is on, where `at` may
/// be the end. It panics past that, which `requires` leaves out.
#[verifier::external_body]
pub(crate) fn char_to_line(rope: &Rope, at: usize) -> (line: usize)
    requires
        at <= rope_text(*rope).len(),
    ensures
        line == line_of(rope_text(*rope), at as int),
{
    rope.char_to_line(at)
}

/// `Rope::line_to_char`: where `line` starts, where `line` may be one past the
/// last and the answer then is the end. It panics past that, which `requires`
/// leaves out.
#[verifier::external_body]
pub(crate) fn line_to_char(rope: &Rope, line: usize) -> (at: usize)
    requires
        line <= breaks(rope_text(*rope)) + 1,
    ensures
        at == line_start(rope_text(*rope), line as int),
{
    rope.line_to_char(line)
}

/// Taking more of a text never loses a line feed.
pub proof fn breaks_grow(text: Seq<char>, from: int, to: int)
    requires
        0 <= from <= to <= text.len(),
    ensures
        breaks(text.take(from)) <= breaks(text.take(to)),
    decreases to - from,
{
    if from < to {
        breaks_grow(text, from, to - 1);
        assert(text.take(to).drop_last() =~= text.take(to - 1));
    }
}

/// A line starts somewhere in the text; everything before that is on an
/// earlier line, and the character there, if any, is on it.
pub proof fn a_line_starts_where_it_is_first_reached(text: Seq<char>, line: int)
    requires
        0 <= line <= breaks(text) + 1,
    ensures
        0 <= line_start(text, line) <= text.len(),
        line <= breaks(text) ==> line_of(text, line_start(text, line)) == line,
        forall|at: int|
            0 <= at < line_start(text, line) ==> #[trigger] line_of(text, at) < line,
        0 < line <= breaks(text) ==> line_start(text, line) > 0 && text[line_start(text, line) - 1]
            == '\n',
    decreases text.len(),
{
    if text.len() > 0 {
        let rest = text.drop_last();
        assert(text.take(text.len() as int) =~= text);
        if breaks(rest) >= line {
            a_line_starts_where_it_is_first_reached(rest, line);
            let start = line_start(rest, line);
            assert(text.take(start) =~= rest.take(start));
            assert forall|at: int| 0 <= at < start implies #[trigger] line_of(text, at) < line by {
                assert(text.take(at) =~= rest.take(at));
                assert(line_of(rest, at) < line);
            }
        } else {
            assert forall|at: int| 0 <= at < text.len() implies #[trigger] line_of(text, at)
                < line by {
                breaks_grow(rest, at, rest.len() as int);
                assert(rest.take(rest.len() as int) =~= rest);
                assert(text.take(at) =~= rest.take(at));
            }
        }
    } else {
        assert(text.take(0) =~= text);
    }
}

/// The line a place is on starts at or before it, and ends at or after it.
pub proof fn a_place_is_within_its_line(text: Seq<char>, at: int)
    requires
        0 <= at <= text.len(),
    ensures
        line_of(text, at) <= breaks(text),
        line_start(text, line_of(text, at) as int) <= at,
        at <= line_end(text, line_of(text, at) as int) <= text.len(),
{
    let line = line_of(text, at) as int;
    assert(text.take(text.len() as int) =~= text);
    breaks_grow(text, at, text.len() as int);
    a_line_starts_where_it_is_first_reached(text, line);
    let start = line_start(text, line);
    if at < start {
        assert(line_of(text, at) < line);
    }
    if line < breaks(text) {
        let next = line_start(text, line + 1);
        a_line_starts_where_it_is_first_reached(text, line + 1);
        if next <= at {
            breaks_grow(text, next, at);
        }
        assert(next > at);
    }
}

/// A place's line starts just after the last line feed before it, or at the start
/// of the text where there is none.
pub proof fn a_line_starts_after_a_line_feed(text: Seq<char>, at: int, from: int)
    requires
        0 <= from <= at <= text.len(),
        from == 0 || text[from - 1] == '\n',
        forall|i: int| from <= i < at ==> #[trigger] text[i] != '\n',
    ensures
        line_start(text, line_of(text, at) as int) == from,
{
    let line = line_of(text, at) as int;
    no_break_between(text, from, at);
    assert(line_of(text, from) == line);
    a_place_is_within_its_line(text, at);
    a_place_is_within_its_line(text, from);
    let start = line_start(text, line);
    if start < from {
        a_line_starts_where_it_is_first_reached(text, line);
        breaks_grow(text, start, from - 1);
        assert(text.take(from).drop_last() =~= text.take(from - 1));
        assert(text.take(from).last() == '\n');
        assert(breaks(text.take(from)) == breaks(text.take(from - 1)) + 1);
        assert(line_of(text, start) == line);
    }
}

proof fn no_break_between(text: Seq<char>, from: int, to: int)
    requires
        0 <= from <= to <= text.len(),
        forall|i: int| from <= i < to ==> #[trigger] text[i] != '\n',
    ensures
        breaks(text.take(from)) == breaks(text.take(to)),
    decreases to - from,
{
    if from < to {
        no_break_between(text, from, to - 1);
        assert(text.take(to).drop_last() =~= text.take(to - 1));
        assert(text.take(to).last() == text[to - 1]);
    }
}

/// A line ends at its line feed, which is the first from where it starts, or at
/// the end of the text.
pub proof fn a_line_ends_at_a_line_feed(text: Seq<char>, line: int)
    requires
        0 <= line <= breaks(text),
    ensures
        line_start(text, line) <= line_end(text, line) <= text.len(),
        line_end(text, line) < text.len() ==> text[line_end(text, line)] == '\n',
        forall|i: int|
            line_start(text, line) <= i < line_end(text, line) ==> #[trigger] text[i] != '\n',
{
    let start = line_start(text, line);
    let end = line_end(text, line);
    a_line_starts_where_it_is_first_reached(text, line);
    a_place_is_within_its_line(text, start);
    if line < breaks(text) {
        a_line_starts_where_it_is_first_reached(text, line + 1);
        let next = line_start(text, line + 1);
        if next < text.len() {
            assert(text[next - 1] == '\n');
        }
    } else {
        assert(text.take(text.len() as int) =~= text);
    }
    assert forall|i: int| start <= i < end implies #[trigger] text[i] != '\n' by {
        if text[i] == '\n' {
            breaks_grow(text, start, i);
            assert(text.take(i + 1).drop_last() =~= text.take(i));
            assert(text.take(i + 1).last() == '\n');
            breaks_grow(text, i + 1, end);
            if line < breaks(text) {
                assert(line_of(text, end) < line + 1);
            } else {
                assert(text.take(text.len() as int) =~= text);
            }
        }
    }
}

/// Where `line` ends, not counting the line feed that ends it.
pub(crate) fn end_of_line(rope: &Rope, line: usize) -> (end: usize)
    requires
        line <= breaks(rope_text(*rope)),
    ensures
        end == line_end(rope_text(*rope), line as int),
        line < usize::MAX,
{
    let last: usize = len_lines(rope) - 1;
    if line < last {
        proof {
            a_line_starts_where_it_is_first_reached(rope_text(*rope), line + 1);
        }
        line_to_char(rope, line + 1) - 1
    } else {
        len_chars(rope)
    }
}

} // verus!
