//! Which words changed within each change of a diff.

use ropey::Rope;
use vstd::prelude::*;

use crate::gutter::{Hunk, HunkKind};
use crate::place::Encoding;
use crate::rope::{
    a_line_starts_where_it_is_first_reached, breaks, end_of_line, from_str, len_chars, len_lines,
    line_end, line_start, line_to_char, rope_text,
};
use crate::spans::Span;
use crate::text::chars_of;

verus! {

/// A change longer than this, on either side, is washed as whole lines without
/// working out which words changed: a word diff of a rewritten file is slow and
/// says nothing a whole-line wash does not.
pub const MOST_INLINE_LINES: usize = 200;

/// The same for chars, on either side of one change.
pub const MOST_INLINE_CHARS: usize = 20_000;

/// The same across every change of one diff.
pub const MOST_INLINE_TOTAL: usize = 200_000;

/// A changed word: the line it is on, and its chars within that.
pub type Mark = (u32, Span);

/// The part of `range` that is on line `line` of `text`, in chars of that line.
pub open spec fn on_line(text: Seq<char>, range: Span, line: int) -> Option<Span> {
    let start = line_start(text, line);
    let end = line_end(text, line);
    let from = if range.0 >= start {
        range.0 as int
    } else {
        start
    };
    let to = if range.1 <= end {
        range.1 as int
    } else {
        end
    };
    if from < to {
        Some(((from - start) as usize, (to - start) as usize))
    } else {
        None
    }
}

/// The parts of `range` on the first `lines` lines of `text`, which starts at
/// line `first`.
pub open spec fn marks_of(text: Seq<char>, first: u32, range: Span, lines: int) -> Seq<Mark>
    decreases lines,
{
    if lines <= 0 {
        Seq::empty()
    } else {
        let before = marks_of(text, first, range, lines - 1);
        match on_line(text, range, lines - 1) {
            Some(span) => before.push(((first + (lines - 1)) as u32, span)),
            None => before,
        }
    }
}

/// The parts of the first `count` of `ranges` on each line of `text`.
pub open spec fn all_marks(text: Seq<char>, first: u32, ranges: Seq<Span>, count: int) -> Seq<Mark>
    decreases count,
{
    if count <= 0 {
        Seq::empty()
    } else {
        all_marks(text, first, ranges, count - 1) + marks_of(
            text,
            first,
            ranges[count - 1],
            breaks(text) as int + 1,
        )
    }
}

/// Split char ranges into a text that starts at line `first` into ranges within
/// each line, leaving out the line breaks, and add them to `out`.
pub fn by_line(text: &str, first: u32, ranges: &Vec<Span>, out: &mut Vec<Mark>)
    requires
        first + breaks(text@) <= u32::MAX,
    ensures
        final(out)@ == old(out)@ + all_marks(text@, first, ranges@, ranges@.len() as int),
{
    let ghost before = out@;
    let rope = from_str(text);
    let lines: usize = len_lines(&rope);
    let mut i: usize = 0;
    while i < ranges.len()
        invariant
            i <= ranges@.len(),
            rope_text(rope) == text@,
            lines == breaks(text@) + 1,
            first + breaks(text@) <= u32::MAX,
            out@ =~= before + all_marks(text@, first, ranges@, i as int),
        decreases ranges@.len() - i,
    {
        let range = ranges[i];
        let ghost so_far = out@;
        let mut line: usize = 0;
        while line < lines
            invariant
                line <= lines == breaks(text@) + 1,
                rope_text(rope) == text@,
                first + breaks(text@) <= u32::MAX,
                out@ =~= so_far + marks_of(text@, first, range, line as int),
            decreases lines - line,
        {
            let start: usize = line_to_char(&rope, line);
            let end: usize = end_of_line(&rope, line);
            let from: usize = if range.0 >= start {
                range.0
            } else {
                start
            };
            let to: usize = if range.1 <= end {
                range.1
            } else {
                end
            };
            if from < to {
                out.push((first + line as u32, (from - start, to - start)));
            }
            line = line + 1;
        }
        i = i + 1;
    }
}

/// No changed word takes in a line break, and every one is of chars that
/// changed.
pub proof fn a_changed_word_is_on_one_line(text: Seq<char>, range: Span, line: int)
    requires
        0 <= line <= breaks(text),
    ensures
        on_line(text, range, line) matches Some(span) ==> {
            let start = line_start(text, line);
            &&& span.0 < span.1
            &&& range.0 <= start + span.0
            &&& start + span.1 <= range.1
            &&& start + span.1 <= line_end(text, line) <= text.len()
            &&& forall|at: int|
                start + span.0 <= at < start + span.1 ==> #[trigger] text[at] != '\n'
        },
{
    a_line_starts_where_it_is_first_reached(text, line);
    let start = line_start(text, line);
    let end = line_end(text, line);
    assert(text.take(text.len() as int) =~= text);
    if line < breaks(text) {
        a_line_starts_where_it_is_first_reached(text, line + 1);
    }
    if let Some(span) = on_line(text, range, line) {
        assert forall|at: int| start + span.0 <= at < start + span.1 implies #[trigger] text[at]
            != '\n' by {
            crate::rope::breaks_grow(text, start, at);
            assert(text.take(at + 1).drop_last() =~= text.take(at));
            if text[at] == '\n' {
                if line < breaks(text) {
                    assert(crate::rope::line_of(text, at + 1) < line + 1 || at + 1 == end + 1);
                    if at + 1 < end + 1 {
                        assert(crate::rope::line_of(text, at + 1) < line + 1);
                    }
                } else {
                    crate::rope::breaks_grow(text, at + 1, text.len() as int);
                }
            }
        }
    }
}

/// A line's place in `text`, or its end where there is no such line.
pub open spec fn char_of(text: Seq<char>, line: u32) -> int {
    if line > breaks(text) {
        text.len() as int
    } else {
        line_start(text, line as int)
    }
}

/// How much there is to go through to work out the words that changed in
/// `hunk`, which replaced `old`: the bytes of that, or the chars of what is
/// there now, whichever is more.
pub open spec fn effort(hunk: Hunk, old: Seq<char>, after: Seq<char>) -> int {
    let new = char_of(after, hunk.after_end) - char_of(after, hunk.after_start);
    let bytes = Encoding::Utf8.length(old) as int;
    if bytes >= new {
        bytes
    } else {
        new
    }
}

/// Whether a change is one whose changed words are worth working out.
pub open spec fn worth(hunk: Hunk) -> bool {
    hunk.spec_kind() == HunkKind::Modified && hunk.before_end - hunk.before_start
        <= MOST_INLINE_LINES && hunk.after_end - hunk.after_start <= MOST_INLINE_LINES
}

/// What is left of the effort allowed once the first `count` changes have been
/// gone through, and which of them had their words worked out.
pub open spec fn inlined_of(
    hunks: Seq<Hunk>,
    olds: Seq<Seq<char>>,
    after: Seq<char>,
    count: int,
) -> (int, Seq<usize>)
    decreases count,
{
    if count <= 0 {
        (MOST_INLINE_TOTAL as int, Seq::empty())
    } else {
        let before = inlined_of(hunks, olds, after, count - 1);
        let size = effort(hunks[count - 1], olds[count - 1], after);
        if worth(hunks[count - 1]) && size <= MOST_INLINE_CHARS && size <= before.0 {
            (before.0 - size, before.1.push((count - 1) as usize))
        } else {
            before
        }
    }
}

fn bytes(text: &str, most: usize) -> (count: usize)
    requires
        most <= 1_000_000,
    ensures
        Encoding::Utf8.length(text@) <= most ==> count == Encoding::Utf8.length(text@),
        Encoding::Utf8.length(text@) > most ==> count > most,
{
    let chars = chars_of(text);
    let mut count: usize = 0;
    let mut i: usize = 0;
    assert(text@.take(0) =~= Seq::empty());
    while i < chars.len() && count <= most
        invariant
            i <= chars@.len(),
            chars@ == text@,
            most <= 1_000_000,
            count <= most + 4,
            count == Encoding::Utf8.length(text@.take(i as int)),
        decreases chars@.len() - i,
    {
        assert(text@.take(i + 1).drop_last() =~= text@.take(i as int));
        count = count + Encoding::Utf8.units_of(chars[i]);
        i = i + 1;
    }
    proof {
        length_grows(text@, i as int, text@.len() as int);
        assert(text@.take(text@.len() as int) =~= text@);
    }
    count
}

proof fn length_grows(text: Seq<char>, from: int, to: int)
    requires
        0 <= from <= to <= text.len(),
    ensures
        Encoding::Utf8.length(text.take(from)) <= Encoding::Utf8.length(text.take(to)),
    decreases to - from,
{
    if from < to {
        length_grows(text, from, to - 1);
        assert(text.take(to).drop_last() =~= text.take(to - 1));
    }
}

fn place_of_line(rope: &Rope, line: u32) -> (at: usize)
    ensures
        at == char_of(rope_text(*rope), line),
        at <= rope_text(*rope).len(),
{
    let lines: usize = len_lines(rope);
    if line as usize >= lines {
        len_chars(rope)
    } else {
        proof {
            a_line_starts_where_it_is_first_reached(rope_text(*rope), line as int);
        }
        line_to_char(rope, line as usize)
    }
}

/// A later line starts no earlier.
proof fn lines_are_in_order(text: Seq<char>, a: u32, b: u32)
    requires
        a <= b,
    ensures
        char_of(text, a) <= char_of(text, b),
{
    assert(text.take(text.len() as int) =~= text);
    if b <= breaks(text) {
        a_line_starts_where_it_is_first_reached(text, a as int);
        a_line_starts_where_it_is_first_reached(text, b as int);
        let from = line_start(text, a as int);
        let to = line_start(text, b as int);
        if to < from {
            assert(crate::rope::line_of(text, to) < a);
        }
    } else if a <= breaks(text) {
        a_line_starts_where_it_is_first_reached(text, a as int);
    }
}

/// Which changes have the words that changed worked out: `olds` is what each
/// replaced, and `after` the text as it is. Large ones are left out, and so is
/// whatever comes once enough has been gone through.
pub fn inlined(hunks: &Vec<Hunk>, olds: &Vec<String>, after: &Rope) -> (which: Vec<usize>)
    requires
        hunks@.len() == olds@.len(),
        forall|i: int|
            0 <= i < hunks@.len() ==> (#[trigger] hunks@[i]).before_start <= hunks@[i].before_end
                && hunks@[i].after_start <= hunks@[i].after_end,
    ensures
        which@ == inlined_of(
            hunks@,
            crate::unicode::views(olds@),
            rope_text(*after),
            hunks@.len() as int,
        ).1,
{
    let ghost texts = crate::unicode::views(olds@);
    let mut budget: usize = MOST_INLINE_TOTAL;
    let mut which: Vec<usize> = Vec::new();
    let mut i: usize = 0;
    while i < hunks.len()
        invariant
            i <= hunks@.len() == olds@.len(),
            texts == crate::unicode::views(olds@),
            forall|i: int|
                0 <= i < hunks@.len() ==> (#[trigger] hunks@[i]).before_start
                    <= hunks@[i].before_end && hunks@[i].after_start <= hunks@[i].after_end,
            budget <= MOST_INLINE_TOTAL,
            (budget as int, which@) == inlined_of(hunks@, texts, rope_text(*after), i as int),
        decreases hunks@.len() - i,
    {
        let hunk = hunks[i];
        assert(texts[i as int] == olds@[i as int]@);
        let short = (hunk.before_end - hunk.before_start) as usize <= MOST_INLINE_LINES && (
        hunk.after_end - hunk.after_start) as usize <= MOST_INLINE_LINES;
        if hunk.kind() == HunkKind::Modified && short {
            proof {
                lines_are_in_order(rope_text(*after), hunk.after_start, hunk.after_end);
            }
            let new: usize = place_of_line(after, hunk.after_end) - place_of_line(
                after,
                hunk.after_start,
            );
            let old: usize = bytes(olds[i].as_str(), MOST_INLINE_TOTAL);
            let size: usize = if old >= new {
                old
            } else {
                new
            };
            if size <= MOST_INLINE_CHARS && size <= budget {
                budget = budget - size;
                which.push(i);
            }
        }
        i = i + 1;
    }
    which
}

/// A char of a line is picked out where it is in the range and on the line, and only
/// there.
pub proof fn a_char_in_the_range_is_picked_out(
    text: Seq<char>,
    range: Span,
    line: int,
    column: int,
)
    requires
        0 <= line <= breaks(text),
        0 <= column,
        text.len() <= usize::MAX,
    ensures
        ({
            let at = line_start(text, line) + column;
            (on_line(text, range, line) matches Some(span) && span.0 <= column < span.1) <==> at
                < line_end(text, line) && range.0 <= at < range.1
        }),
{
    crate::rope::a_line_ends_at_a_line_feed(text, line);
    crate::rope::a_line_starts_where_it_is_first_reached(text, line);
}

/// What is picked out is picked out on every line the range reaches, under the line's
/// own number.
pub proof fn every_line_of_a_range_is_marked(
    text: Seq<char>,
    first: u32,
    ranges: Seq<Span>,
    count: int,
    range: int,
    line: int,
)
    requires
        0 <= range < count <= ranges.len(),
        0 <= line <= breaks(text),
        on_line(text, ranges[range], line) is Some,
    ensures
        all_marks(text, first, ranges, count).contains(
            ((first + line) as u32, on_line(text, ranges[range], line)->0),
        ),
    decreases count,
{
    let mark = ((first + line) as u32, on_line(text, ranges[range], line)->0);
    let before = all_marks(text, first, ranges, count - 1);
    let all = all_marks(text, first, ranges, count);
    if range == count - 1 {
        let lines = breaks(text) as int + 1;
        let marks = marks_of(text, first, ranges[range], lines);
        line_is_marked(text, first, ranges[range], lines, line);
        let k = choose|k: int| 0 <= k < marks.len() && marks[k] == mark;
        assert(all[before.len() + k] == mark);
    } else {
        every_line_of_a_range_is_marked(text, first, ranges, count - 1, range, line);
        let k = choose|k: int| 0 <= k < before.len() && before[k] == mark;
        assert(all[k] == mark);
    }
}

proof fn line_is_marked(text: Seq<char>, first: u32, range: Span, lines: int, line: int)
    requires
        0 <= line < lines,
        on_line(text, range, line) is Some,
    ensures
        marks_of(text, first, range, lines).contains(
            ((first + line) as u32, on_line(text, range, line)->0),
        ),
    decreases lines,
{
    let mark = ((first + line) as u32, on_line(text, range, line)->0);
    let before = marks_of(text, first, range, lines - 1);
    let marks = marks_of(text, first, range, lines);
    if line == lines - 1 {
        assert(marks[before.len() as int] == mark);
    } else {
        line_is_marked(text, first, range, lines - 1, line);
        let k = choose|k: int| 0 <= k < before.len() && before[k] == mark;
        assert(marks[k] == mark);
    }
}

/// Words are compared only in changes that put some lines in place of others, few of
/// either, and short; and no more of them than there is effort for in all.
pub proof fn words_are_compared_only_where_it_is_cheap(
    hunks: Seq<Hunk>,
    olds: Seq<Seq<char>>,
    after: Seq<char>,
    count: int,
)
    requires
        0 <= count <= hunks.len() == olds.len(),
        hunks.len() <= usize::MAX,
    ensures
        ({
            let (left, inlined) = inlined_of(hunks, olds, after, count);
            &&& 0 <= left <= MOST_INLINE_TOTAL
            &&& forall|k: int|
                0 <= k < inlined.len() ==> {
                    let at = (#[trigger] inlined[k]) as int;
                    let hunk = hunks[at];
                    &&& at < count
                    &&& hunk.before_start < hunk.before_end <= hunk.before_start + MOST_INLINE_LINES
                    &&& hunk.after_start < hunk.after_end <= hunk.after_start + MOST_INLINE_LINES
                    &&& effort(hunk, olds[at], after) <= MOST_INLINE_CHARS
                }
        }),
        count > 0 ==> {
            let hunk = hunks[count - 1];
            let size = effort(hunk, olds[count - 1], after);
            let (before, earlier) = inlined_of(hunks, olds, after, count - 1);
            let (left, inlined) = inlined_of(hunks, olds, after, count);
            let fits = hunk.before_start < hunk.before_end <= hunk.before_start + MOST_INLINE_LINES
                && hunk.after_start < hunk.after_end <= hunk.after_start + MOST_INLINE_LINES && size
                <= MOST_INLINE_CHARS && size <= before;
            &&& fits ==> inlined == earlier.push((count - 1) as usize) && left == before - size
            &&& !fits ==> inlined == earlier && left == before
        },
    decreases count,
{
    if count > 0 {
        words_are_compared_only_where_it_is_cheap(hunks, olds, after, count - 1);
        assert(0 <= effort(hunks[count - 1], olds[count - 1], after));
    }
}

/// What a change takes to compare is its old text's bytes or its new text's chars,
/// whichever is more.
pub proof fn the_effort_is_that_of_the_longer_side(hunk: Hunk, old: Seq<char>, after: Seq<char>)
    requires
        hunk.after_start <= breaks(after),
        hunk.after_end <= breaks(after),
    ensures
        ({
            let new = line_start(after, hunk.after_end as int) - line_start(
                after,
                hunk.after_start as int,
            );
            let bytes = vstd::utf8::encode_utf8(old).len();
            &&& effort(hunk, old, after) >= new
            &&& effort(hunk, old, after) >= bytes
            &&& effort(hunk, old, after) == new || effort(hunk, old, after) == bytes
        }),
{
    crate::place::utf_8_is_counted_in_bytes(old);
}

} // verus!
