//! Going from problem to problem, and saying what each is.

use ropey::Rope;
use vstd::prelude::*;

use crate::body::{
    count_words, counted, line_of, lines_named, name_lines, paragraphs, paragraphs_push, runs,
    Paragraph, Run, RunModel,
};
use crate::diagnostics::{tally, tally_of, Mark, Note, Severity};
use crate::geometry::Rect;
use crate::order::{is_ranking, ranking, Key};
use crate::rope::{char_to_line, len_chars, rope_text};
use crate::text::{decimal, decimal_of, first_line, first_line_in, join, join3, lines, lines_in};

verus! {

/// How many diagnostics one card lists before it says how many more.
pub const MOST_IN_CARD: usize = 8;

// ── going to them ───────────────────────────────────────────────────────────

/// The first mark, from the `from`th on, that starts after `caret`.
pub open spec fn first_after(marks: Seq<Mark>, caret: usize, from: int) -> Option<int>
    decreases marks.len() - from,
{
    if from < 0 || from >= marks.len() {
        None
    } else if marks[from].start > caret {
        Some(from)
    } else {
        first_after(marks, caret, from + 1)
    }
}

/// The last of the first `count` marks that starts before `caret`.
pub open spec fn last_before(marks: Seq<Mark>, caret: usize, count: int) -> Option<int>
    decreases count,
{
    if count <= 0 {
        None
    } else if marks[count - 1].start < caret {
        Some(count - 1)
    } else {
        last_before(marks, caret, count - 1)
    }
}

/// The mark stepping from `caret` goes to: the next, or the one before, coming
/// round at the ends.
pub open spec fn stepped_to(marks: Seq<Mark>, caret: usize, forward: bool) -> int {
    if forward {
        match first_after(marks, caret, 0) {
            Some(index) => index,
            None => 0,
        }
    } else {
        match last_before(marks, caret, marks.len() as int) {
            Some(index) => index,
            None => marks.len() - 1,
        }
    }
}

/// The mark stepping from `caret` goes to: the next, or the one before, coming
/// round at the ends. `None` where there is none to go to.
pub fn step_diagnostic(marks: &Vec<Mark>, caret: usize, forward: bool) -> (index: Option<usize>)
    ensures
        match index {
            Some(index) => index < marks@.len() && index == stepped_to(marks@, caret, forward),
            None => marks@.len() == 0,
        },
{
    if marks.len() == 0 {
        return None;
    }
    if forward {
        let mut i: usize = 0;
        while i < marks.len()
            invariant
                i <= marks@.len(),
                marks@.len() > 0,
                forward,
                first_after(marks@, caret, 0) == first_after(marks@, caret, i as int),
            decreases marks@.len() - i,
        {
            if marks[i].start > caret {
                return Some(i);
            }
            i = i + 1;
        }
        Some(0)
    } else {
        let mut i: usize = marks.len();
        while i > 0
            invariant
                i <= marks@.len(),
                marks@.len() > 0,
                !forward,
                last_before(marks@, caret, marks@.len() as int) == last_before(
                    marks@,
                    caret,
                    i as int,
                ),
            decreases i,
        {
            if marks[i - 1].start < caret {
                return Some(i - 1);
            }
            i = i - 1;
        }
        Some(marks.len() - 1)
    }
}

/// What stepping says where there is nothing to step to.
pub fn nothing_to_step_to() -> (words: String)
    ensures
        words@ == "No problems in this file."@,
{
    "No problems in this file.".to_owned()
}

proof fn first_after_is(marks: Seq<Mark>, caret: usize, from: int, at: int)
    requires
        0 <= from <= at < marks.len(),
        marks[at].start > caret,
        forall|k: int| from <= k < at ==> (#[trigger] marks[k]).start <= caret,
    ensures
        first_after(marks, caret, from) == Some(at),
    decreases at - from,
{
    if from < at {
        first_after_is(marks, caret, from + 1, at);
    }
}

proof fn first_after_none(marks: Seq<Mark>, caret: usize, from: int)
    requires
        0 <= from <= marks.len(),
        forall|k: int| from <= k < marks.len() ==> (#[trigger] marks[k]).start <= caret,
    ensures
        first_after(marks, caret, from) is None,
    decreases marks.len() - from,
{
    if from < marks.len() {
        first_after_none(marks, caret, from + 1);
    }
}

proof fn last_before_is(marks: Seq<Mark>, caret: usize, count: int, at: int)
    requires
        0 <= at < count <= marks.len(),
        marks[at].start < caret,
        forall|k: int| at < k < count ==> (#[trigger] marks[k]).start >= caret,
    ensures
        last_before(marks, caret, count) == Some(at),
    decreases count - at,
{
    if at < count - 1 {
        last_before_is(marks, caret, count - 1, at);
    }
}

proof fn last_before_none(marks: Seq<Mark>, caret: usize, count: int)
    requires
        0 <= count <= marks.len(),
        forall|k: int| 0 <= k < count ==> (#[trigger] marks[k]).start >= caret,
    ensures
        last_before(marks, caret, count) is None,
    decreases count,
{
    if count > 0 {
        last_before_none(marks, caret, count - 1);
    }
}

/// With no two marks starting at one place, stepping goes through every one in
/// turn and comes round, and stepping back comes back.
pub proof fn stepping_visits_each_in_turn(marks: Seq<Mark>, at: int)
    requires
        0 <= at < marks.len(),
        forall|i: int, j: int|
            0 <= i < j < marks.len() ==> (#[trigger] marks[i]).start < (#[trigger] marks[j]).start,
    ensures
        ({
            let next = if at + 1 < marks.len() {
                at + 1
            } else {
                0
            };
            let before = if at > 0 {
                at - 1
            } else {
                marks.len() - 1
            };
            &&& stepped_to(marks, marks[at].start, true) == next
            &&& stepped_to(marks, marks[at].start, false) == before
            &&& stepped_to(marks, marks[next].start, false) == at
        }),
{
    let caret = marks[at].start;
    if at + 1 < marks.len() {
        first_after_is(marks, caret, 0, at + 1);
        last_before_is(marks, marks[at + 1].start, marks.len() as int, at);
    } else {
        first_after_none(marks, caret, 0);
        last_before_none(marks, marks[0].start, marks.len() as int);
    }
    if at > 0 {
        last_before_is(marks, caret, marks.len() as int, at - 1);
    } else {
        last_before_none(marks, caret, marks.len() as int);
    }
}

// ── the rail ────────────────────────────────────────────────────────────────

/// The line a mark starts on.
pub open spec fn mark_line(text: Seq<char>, mark: Mark) -> nat {
    crate::rope::line_of(
        text,
        if mark.start <= text.len() {
            mark.start as int
        } else {
            text.len() as int
        },
    )
}

/// The line each of `marks` starts on.
pub fn rail_lines(rope: &Rope, marks: &Vec<Mark>) -> (lines: Vec<usize>)
    ensures
        lines@.len() == marks@.len(),
        forall|i: int|
            0 <= i < lines@.len() ==> #[trigger] lines@[i] == mark_line(
                rope_text(*rope),
                marks@[i],
            ),
{
    let len: usize = len_chars(rope);
    let mut lines: Vec<usize> = Vec::new();
    let mut i: usize = 0;
    while i < marks.len()
        invariant
            i <= marks@.len(),
            len == rope_text(*rope).len(),
            lines@.len() == i,
            forall|k: int|
                0 <= k < i ==> #[trigger] lines@[k] == mark_line(rope_text(*rope), marks@[k]),
        decreases marks@.len() - i,
    {
        let start: usize = if marks[i].start <= len {
            marks[i].start
        } else {
            len
        };
        lines.push(char_to_line(rope, start));
        i = i + 1;
    }
    lines
}

/// The first of `lines`, from the `from`th on, that is from `first` up to
/// `end`, whose mark starts after `caret` where that is asked for.
pub open spec fn on_row(
    lines: Seq<usize>,
    marks: Seq<Mark>,
    first: usize,
    end: usize,
    after: Option<usize>,
    from: int,
) -> Option<int>
    decreases lines.len() - from,
{
    if from < 0 || from >= lines.len() {
        None
    } else if first <= lines[from] && lines[from] < end && (after matches Some(caret)
        ==> marks[from].start > caret) {
        Some(from)
    } else {
        on_row(lines, marks, first, end, after, from + 1)
    }
}

fn find_on_row(
    lines: &Vec<usize>,
    marks: &Vec<Mark>,
    first: usize,
    end: usize,
    after: Option<usize>,
) -> (found: Option<usize>)
    requires
        lines@.len() == marks@.len(),
    ensures
        match found {
            Some(index) => index < marks@.len() && on_row(lines@, marks@, first, end, after, 0)
                == Some(index as int),
            None => on_row(lines@, marks@, first, end, after, 0) is None,
        },
{
    let mut i: usize = 0;
    while i < lines.len()
        invariant
            i <= lines@.len() == marks@.len(),
            on_row(lines@, marks@, first, end, after, 0) == on_row(
                lines@,
                marks@,
                first,
                end,
                after,
                i as int,
            ),
        decreases lines@.len() - i,
    {
        let far = match after {
            Some(caret) => marks[i].start > caret,
            None => true,
        };
        if first <= lines[i] && lines[i] < end && far {
            return Some(i);
        }
        i = i + 1;
    }
    None
}

/// The mark a click on a row of the rail goes to: the next after the caret of
/// those on the lines the row stands for, `first` up to `end`, or the first of
/// them. So clicking a crowded row again and again visits each of them.
pub fn rail_mark_press(
    lines: &Vec<usize>,
    marks: &Vec<Mark>,
    first: usize,
    end: usize,
    caret: usize,
) -> (index: Option<usize>)
    requires
        lines@.len() == marks@.len(),
    ensures
        match index {
            Some(index) => index < marks@.len() && Some(index as int) == match on_row(
                lines@,
                marks@,
                first,
                end,
                Some(caret),
                0,
            ) {
                Some(next) => Some(next),
                None => on_row(lines@, marks@, first, end, None, 0),
            },
            None => on_row(lines@, marks@, first, end, Some(caret), 0) is None && on_row(
                lines@,
                marks@,
                first,
                end,
                None,
                0,
            ) is None,
        },
{
    match find_on_row(lines, marks, first, end, Some(caret)) {
        Some(index) => Some(index),
        None => find_on_row(lines, marks, first, end, None),
    }
}

/// Which marks are laid out with lines `first` up to `end` in view: each that
/// reaches them, up to the first that starts below them. Ordered by start,
/// everything after that is below too.
pub open spec fn laid_out(
    starts: Seq<usize>,
    ends: Seq<usize>,
    first: usize,
    end: usize,
    count: int,
) -> Seq<usize>
    decreases count,
{
    if count <= 0 {
        Seq::empty()
    } else {
        let rest = laid_out(starts, ends, first, end, count - 1);
        if ends[count - 1] >= first && forall|k: int|
            0 <= k < count && (#[trigger] ends[k]) >= first ==> starts[k] < end {
            rest.push((count - 1) as usize)
        } else {
            rest
        }
    }
}

/// Which marks are laid out with lines `first` up to `end` in view, given the
/// lines each starts and ends on.
pub fn marks_in_view(starts: &Vec<usize>, ends: &Vec<usize>, first: usize, end: usize) -> (shown:
    Vec<usize>)
    requires
        starts@.len() == ends@.len(),
    ensures
        shown@ == laid_out(starts@, ends@, first, end, starts@.len() as int),
{
    let mut shown: Vec<usize> = Vec::new();
    let mut below = false;
    let mut i: usize = 0;
    while i < starts.len()
        invariant
            i <= starts@.len() == ends@.len(),
            shown@ == laid_out(starts@, ends@, first, end, i as int),
            below == !(forall|k: int|
                0 <= k < i && (#[trigger] ends@[k]) >= first ==> starts@[k] < end),
        decreases starts@.len() - i,
    {
        if ends[i] >= first {
            if starts[i] >= end {
                assert(ends@[i as int] >= first && !(starts@[i as int] < end));
                below = true;
            }
            if !below {
                shown.push(i);
            }
        }
        i = i + 1;
    }
    shown
}

// ── what a card says ────────────────────────────────────────────────────────

/// Whether `mark` is on text `target` is on, or against it where either is
/// empty.
pub open spec fn shares_text(mark: Mark, target: Mark) -> bool {
    (mark.start < target.end || mark.start <= target.start) && (target.start < mark.end
        || target.start <= mark.start)
}

/// The marks a card about mark `index` lists, among the first `count`: that
/// one, and every other on text it overlaps.
pub open spec fn listed(marks: Seq<Mark>, index: int, count: int) -> Seq<usize>
    decreases count,
{
    if count <= 0 {
        Seq::empty()
    } else {
        let rest = listed(marks, index, count - 1);
        if count - 1 == index || shares_text(marks[count - 1], marks[index]) {
            rest.push((count - 1) as usize)
        } else {
            rest
        }
    }
}

/// What the marks of a card are put in order by: the most serious first, and
/// of those as serious the one the card is about.
pub open spec fn card_keys(marks: Seq<Mark>, index: int, listed: Seq<usize>) -> Seq<Key> {
    Seq::new(
        listed.len(),
        |i: int|
            (
                marks[listed[i] as int].severity.spec_rank(),
                if listed[i] == index {
                    0usize
                } else {
                    1usize
                },
                0usize,
            ),
    )
}

/// Who said a thing, and its code.
pub open spec fn said_by(note: Note) -> Option<Seq<char>> {
    match (note.source, note.code) {
        (Some(source), Some(code)) => Some("  "@ + (source@ + " "@ + code@)),
        (Some(source), None) => Some("  "@ + source@),
        (None, Some(code)) => Some("  "@ + code@),
        (None, None) => None,
    }
}

/// The line above what a diagnostic says: how serious it is, and who said it.
pub open spec fn header_of(mark: Mark, note: Note) -> Seq<RunModel> {
    match said_by(note) {
        Some(from) => seq![RunModel::Severity(mark.severity), RunModel::Dim(from)],
        None => seq![RunModel::Severity(mark.severity)],
    }
}

/// Each of `lines` as a paragraph.
pub open spec fn as_text(lines: Seq<Seq<char>>) -> Seq<Seq<RunModel>> {
    Seq::new(lines.len(), |i: int| seq![RunModel::Text(lines[i])])
}

/// What a card says of the first `count` of the marks it lists.
pub open spec fn said_of(
    marks: Seq<Mark>,
    notes: Seq<Note>,
    shown: Seq<usize>,
    count: int,
) -> Seq<Seq<RunModel>>
    decreases count,
{
    if count <= 0 {
        Seq::empty()
    } else {
        let rest = said_of(marks, notes, shown, count - 1);
        let at = shown[count - 1] as int;
        let gap = if count > 1 {
            rest.push(Seq::empty())
        } else {
            rest
        };
        gap.push(header_of(marks[at], notes[at])) + as_text(lines_in(notes[at].message@))
    }
}

/// How many more there are than a card lists.
pub open spec fn more_words(count: nat) -> Seq<char> {
    "…and "@ + decimal_of(count) + " more"@
}

/// What a card that lists `shown` says: each of the first few, and how many
/// more there are.
pub open spec fn body_of(marks: Seq<Mark>, notes: Seq<Note>, shown: Seq<usize>) -> Seq<
    Seq<RunModel>,
> {
    if shown.len() > MOST_IN_CARD {
        said_of(marks, notes, shown, MOST_IN_CARD as int).push(
            seq![RunModel::Dim(more_words((shown.len() - MOST_IN_CARD) as nat))],
        )
    } else {
        said_of(marks, notes, shown, shown.len() as int)
    }
}

fn header(mark: Mark, note: &Note) -> (paragraph: Paragraph)
    ensures
        runs(paragraph) == header_of(mark, *note),
{
    let mut paragraph = line_of(Run::Severity(mark.severity));
    let from: Option<String> = match (&note.source, &note.code) {
        (Some(source), Some(code)) => Some(
            join("  ", join3(source.as_str(), " ", code.as_str()).as_str()),
        ),
        (Some(source), None) => Some(join("  ", source.as_str())),
        (None, Some(code)) => Some(join("  ", code.as_str())),
        (None, None) => None,
    };
    if let Some(text) = from {
        let ghost before = runs(paragraph);
        paragraph.push(Run::Dim(text));
        assert(runs(paragraph) =~= before.push(RunModel::Dim(text@)));
        assert(runs(paragraph) =~= header_of(mark, *note));
    }
    paragraph
}

/// What is listed of `marks` for a card about mark `index`.
fn list(marks: &Vec<Mark>, index: usize) -> (shown: Vec<usize>)
    requires
        index < marks@.len(),
    ensures
        shown@ == listed(marks@, index as int, marks@.len() as int),
        forall|i: int| 0 <= i < shown@.len() ==> (#[trigger] shown@[i]) < marks@.len(),
{
    let target = marks[index];
    let mut shown: Vec<usize> = Vec::new();
    let mut i: usize = 0;
    while i < marks.len()
        invariant
            index < marks@.len(),
            target == marks@[index as int],
            i <= marks@.len(),
            shown@ == listed(marks@, index as int, i as int),
            forall|k: int| 0 <= k < shown@.len() ==> (#[trigger] shown@[k]) < marks@.len(),
        decreases marks@.len() - i,
    {
        let mark = marks[i];
        let near = (mark.start < target.end || mark.start <= target.start) && (target.start
            < mark.end || target.start <= mark.start);
        if i == index || near {
            shown.push(i);
        }
        i = i + 1;
    }
    shown
}

/// Whether `shown` is what a card about mark `index` lists, in order.
pub open spec fn is_listing(marks: Seq<Mark>, index: int, shown: Seq<usize>) -> bool {
    let all = listed(marks, index, marks.len() as int);
    exists|order: Seq<usize>|
        #[trigger] is_ranking(order, card_keys(marks, index, all)) && shown
            == crate::order::picked(all, order)
}

/// What a card about mark `index` says: that one, and every other on text it
/// overlaps, most serious first.
pub fn card_body(marks: &Vec<Mark>, notes: &Vec<Note>, index: usize) -> (body: Vec<Paragraph>)
    requires
        notes@.len() == marks@.len(),
    ensures
        index >= marks@.len() ==> body@.len() == 0,
        index < marks@.len() ==> exists|shown: Seq<usize>| #[trigger]
            is_listing(marks@, index as int, shown) && paragraphs(body@) == body_of(
                marks@,
                notes@,
                shown,
            ),
{
    let mut body: Vec<Paragraph> = Vec::new();
    if index >= marks.len() {
        return body;
    }
    let all = list(marks, index);
    let mut keys: Vec<Key> = Vec::new();
    let mut i: usize = 0;
    while i < all.len()
        invariant
            i <= all@.len(),
            forall|k: int| 0 <= k < all@.len() ==> (#[trigger] all@[k]) < marks@.len(),
            keys@ =~= card_keys(marks@, index as int, all@).take(i as int),
        decreases all@.len() - i,
    {
        let other: usize = if all[i] == index {
            0
        } else {
            1
        };
        assert(all@[i as int] < marks@.len());
        keys.push((marks[all[i]].severity.rank(), other, 0));
        i = i + 1;
    }
    assert(card_keys(marks@, index as int, all@).take(all@.len() as int) =~= card_keys(
        marks@,
        index as int,
        all@,
    ));
    let order = ranking(&keys);
    let ghost shown = crate::order::picked(all@, order@);
    let count: usize = if order.len() > MOST_IN_CARD {
        MOST_IN_CARD
    } else {
        order.len()
    };
    let mut n: usize = 0;
    assert(paragraphs(body@) =~= said_of(marks@, notes@, shown, 0));
    while n < count
        invariant
            n <= count <= order@.len(),
            notes@.len() == marks@.len(),
            is_ranking(order@, card_keys(marks@, index as int, all@)),
            order@.len() == all@.len(),
            shown == crate::order::picked(all@, order@),
            forall|k: int| 0 <= k < all@.len() ==> (#[trigger] all@[k]) < marks@.len(),
            paragraphs(body@) == said_of(marks@, notes@, shown, n as int),
        decreases count - n,
    {
        assert(order@[n as int] < card_keys(marks@, index as int, all@).len());
        let at: usize = all[order[n]];
        assert(at < marks@.len());
        let ghost rest = said_of(marks@, notes@, shown, n as int);
        let ghost goal = said_of(marks@, notes@, shown, n + 1);
        if n > 0 {
            let gap: Paragraph = Vec::new();
            proof {
                paragraphs_push(body@, gap);
                assert(runs(gap) =~= Seq::empty());
            }
            body.push(gap);
        }
        let head = header(marks[at], &notes[at]);
        proof {
            paragraphs_push(body@, head);
        }
        body.push(head);
        let ghost above = paragraphs(body@);
        let said = lines(notes[at].message.as_str());
        let ghost all_lines = lines_in(notes@[at as int].message@);
        assert(goal == above + as_text(all_lines));
        let mut k: usize = 0;
        assert(goal.take(above.len() as int) =~= above);
        while k < said.len()
            invariant
                k <= said@.len(),
                crate::unicode::views(said@) == all_lines,
                goal == above + as_text(all_lines),
                paragraphs(body@) =~= goal.take(above.len() + k),
            decreases said@.len() - k,
        {
            let line = line_of(Run::Text(said[k].clone()));
            proof {
                paragraphs_push(body@, line);
                assert(crate::unicode::views(said@)[k as int] == said@[k as int]@);
                assert(goal[above.len() + k] == seq![RunModel::Text(all_lines[k as int])]);
            }
            body.push(line);
            k = k + 1;
        }
        assert(goal.take(goal.len() as int) =~= goal);
        n = n + 1;
    }
    if order.len() > MOST_IN_CARD {
        let more = join3("…and ", decimal(order.len() - MOST_IN_CARD).as_str(), " more");
        let line = line_of(Run::Dim(more));
        proof {
            paragraphs_push(body@, line);
        }
        body.push(line);
    }
    proof {
        assert(is_listing(marks@, index as int, shown));
    }
    body
}

/// Which of `lines` are from `first` up to `end`, among the first `count`.
pub open spec fn rows_on(lines: Seq<usize>, first: usize, end: usize, count: int) -> Seq<usize>
    decreases count,
{
    if count <= 0 {
        Seq::empty()
    } else {
        let rest = rows_on(lines, first, end, count - 1);
        if first <= lines[count - 1] && lines[count - 1] < end {
            rest.push((count - 1) as usize)
        } else {
            rest
        }
    }
}

/// What the card for a row of the rail says of the first `count` of `here`.
pub open spec fn row_said_of(
    lines: Seq<usize>,
    marks: Seq<Mark>,
    notes: Seq<Note>,
    here: Seq<usize>,
    count: int,
) -> Seq<Seq<RunModel>> {
    Seq::new(
        count as nat,
        |i: int|
            {
                let at = here[i] as int;
                seq![
                    RunModel::Dim("Ln "@ + decimal_of((lines[at] + 1) as nat) + "  "@),
                    RunModel::Severity(marks[at].severity),
                    RunModel::Text("  "@ + first_line_in(notes[at].message@)),
                ]
            },
    )
}

/// What the card for a row of the rail says: how many problems there are on
/// its lines, then each of the first few, then how many more.
pub open spec fn row_body(
    lines: Seq<usize>,
    marks: Seq<Mark>,
    notes: Seq<Note>,
    here: Seq<usize>,
    first: usize,
    end: usize,
) -> Seq<Seq<RunModel>> {
    let what = counted(here.len(), "1 problem"@, " problems"@) + " on "@ + lines_named(
        (first + 1) as nat,
        end as nat,
    );
    let count = if here.len() > MOST_IN_CARD {
        MOST_IN_CARD as int
    } else {
        here.len() as int
    };
    let top = seq![seq![RunModel::Dim(what)]] + row_said_of(lines, marks, notes, here, count);
    if here.len() > MOST_IN_CARD {
        top.push(seq![RunModel::Dim(more_words((here.len() - MOST_IN_CARD) as nat))])
    } else {
        top
    }
}

/// The card for a row of the rail that stands for lines `first` up to `end`:
/// everything on it, so a crowded row says how crowded it is. `None` where
/// there is nothing on it.
pub fn rail_card(
    lines: &Vec<usize>,
    marks: &Vec<Mark>,
    notes: &Vec<Note>,
    first: usize,
    end: usize,
) -> (body: Option<Vec<Paragraph>>)
    requires
        lines@.len() == marks@.len() == notes@.len(),
    ensures
        ({
            let here = rows_on(lines@, first, end, lines@.len() as int);
            match body {
                Some(body) => here.len() > 0 && paragraphs(body@) == row_body(
                    lines@,
                    marks@,
                    notes@,
                    here,
                    first,
                    end,
                ),
                None => here.len() == 0,
            }
        }),
{
    let mut here: Vec<usize> = Vec::new();
    let mut i: usize = 0;
    while i < lines.len()
        invariant
            i <= lines@.len() == marks@.len() == notes@.len(),
            here@ == rows_on(lines@, first, end, i as int),
            forall|k: int|
                0 <= k < here@.len() ==> (#[trigger] here@[k]) < lines@.len() && first
                    <= lines@[here@[k] as int] < end,
        decreases lines@.len() - i,
    {
        if first <= lines[i] && lines[i] < end {
            here.push(i);
        }
        i = i + 1;
    }
    if here.len() == 0 {
        return None;
    }
    assert(first <= lines@[here@[0] as int] < end);
    let mut what = count_words(here.len(), "1 problem", " problems");
    what.append(" on ");
    what.append(name_lines(first + 1, end).as_str());
    let mut body: Vec<Paragraph> = Vec::new();
    let title = line_of(Run::Dim(what));
    proof {
        paragraphs_push(body@, title);
        assert(paragraphs(body@) =~= Seq::empty());
    }
    body.push(title);
    let count: usize = if here.len() > MOST_IN_CARD {
        MOST_IN_CARD
    } else {
        here.len()
    };
    let ghost top = seq![seq![RunModel::Dim(what@)]];
    let ghost rows = row_said_of(lines@, marks@, notes@, here@, count as int);
    let mut n: usize = 0;
    assert(paragraphs(body@) =~= top + rows.take(0));
    while n < count
        invariant
            n <= count <= here@.len(),
            lines@.len() == marks@.len() == notes@.len(),
            forall|k: int|
                0 <= k < here@.len() ==> (#[trigger] here@[k]) < lines@.len() && first
                    <= lines@[here@[k] as int] < end,
            rows == row_said_of(lines@, marks@, notes@, here@, count as int),
            paragraphs(body@) =~= top + rows.take(n as int),
        decreases count - n,
    {
        let at: usize = here[n];
        assert(here@[n as int] < lines@.len());
        let message = first_line(notes[at].message.as_str());
        let mut row: Paragraph = Vec::new();
        row.push(Run::Dim(join3("Ln ", decimal(lines[at] + 1).as_str(), "  ")));
        row.push(Run::Severity(marks[at].severity));
        row.push(Run::Text(join("  ", message.as_str())));
        proof {
            assert(runs(row) =~= rows[n as int]);
            paragraphs_push(body@, row);
            assert((top + rows.take(n as int)).push(rows[n as int]) =~= top + rows.take(n + 1));
        }
        body.push(row);
        n = n + 1;
    }
    assert(rows.take(count as int) =~= rows);
    if here.len() > MOST_IN_CARD {
        let more = join3("…and ", decimal(here.len() - MOST_IN_CARD).as_str(), " more");
        let line = line_of(Run::Dim(more));
        proof {
            paragraphs_push(body@, line);
        }
        body.push(line);
    }
    Some(body)
}

// ── the status line ─────────────────────────────────────────────────────────

/// What a run of the counts counts.
#[derive(Debug, Clone, Copy, PartialEq, Eq, Structural)]
pub enum Counted {
    /// Nothing: the gap before them.
    Gap,
    /// Errors.
    Errors,
    /// Warnings.
    Warnings,
    /// Everything less.
    Notes,
}

/// One of the counts, or nothing where it is none.
pub open spec fn count_run(glyph: Seq<char>, count: nat, counts: Counted) -> Seq<
    (Seq<char>, Counted),
> {
    if count == 0 {
        Seq::empty()
    } else {
        seq![(glyph + " "@ + decimal_of(count) + " "@, counts)]
    }
}

/// The counts in the status line, as runs: nothing when there is nothing to
/// count.
pub open spec fn label_of(errors: nat, warnings: nat, notes: nat) -> Option<
    Seq<(Seq<char>, Counted)>,
> {
    if errors + warnings + notes == 0 {
        None
    } else {
        Some(
            seq![(" "@, Counted::Gap)] + count_run("✕"@, errors, Counted::Errors) + count_run(
                "▲"@,
                warnings,
                Counted::Warnings,
            ) + count_run("●"@, notes, Counted::Notes),
        )
    }
}

/// Runs of the counts as values.
pub open spec fn run_views(label: Seq<(String, Counted)>) -> Seq<(Seq<char>, Counted)> {
    Seq::new(label.len(), |i: int| (label[i].0@, label[i].1))
}

fn add_count(label: &mut Vec<(String, Counted)>, glyph: &str, count: usize, counts: Counted)
    ensures
        run_views(final(label)@) == run_views(old(label)@) + count_run(
            glyph@,
            count as nat,
            counts,
        ),
{
    if count > 0 {
        let mut text = join3(glyph, " ", decimal(count).as_str());
        text.append(" ");
        label.push((text, counts));
        assert(run_views(label@) =~= run_views(old(label)@) + count_run(
            glyph@,
            count as nat,
            counts,
        ));
    } else {
        assert(run_views(label@) =~= run_views(old(label)@) + count_run(
            glyph@,
            count as nat,
            counts,
        ));
    }
}

/// The counts in the status line, as runs: nothing when there is nothing to
/// count.
pub fn problems_label(marks: &Vec<Mark>) -> (label: Option<Vec<(String, Counted)>>)
    ensures
        ({
            let (errors, warnings, notes) = tally_of(marks@, marks@.len() as int);
            match label {
                Some(label) => label_of(errors as nat, warnings as nat, notes as nat) == Some(
                    run_views(label@),
                ),
                None => label_of(errors as nat, warnings as nat, notes as nat) is None,
            }
        }),
        label is None <==> marks@.len() == 0,
{
    let tally = tally(marks);
    if marks.len() == 0 {
        return None;
    }
    let mut label: Vec<(String, Counted)> = Vec::new();
    label.push((" ".to_owned(), Counted::Gap));
    assert(run_views(label@) =~= seq![(" "@, Counted::Gap)]);
    add_count(&mut label, "✕", tally.errors, Counted::Errors);
    add_count(&mut label, "▲", tally.warnings, Counted::Warnings);
    add_count(&mut label, "●", tally.notes, Counted::Notes);
    Some(label)
}

/// How many characters the runs of the counts are.
pub open spec fn label_chars(label: Seq<(Seq<char>, Counted)>) -> nat
    decreases label.len(),
{
    if label.len() == 0 {
        0
    } else {
        label_chars(label.drop_last()) + label.last().0.len()
    }
}

/// How many characters the runs of the counts are, held to the largest number
/// there is.
fn chars_in(label: &Vec<(String, Counted)>) -> (count: usize)
    ensures
        count == crate::edit::held(label_chars(run_views(label@)) as int),
{
    let ghost all = run_views(label@);
    let mut count: usize = 0;
    let mut i: usize = 0;
    assert(all.take(0) =~= Seq::empty());
    while i < label.len()
        invariant
            i <= label@.len(),
            all == run_views(label@),
            count == crate::edit::held(label_chars(all.take(i as int)) as int),
        decreases label@.len() - i,
    {
        count = count.saturating_add(label[i].0.as_str().unicode_len());
        assert(all.take(i + 1).drop_last() =~= all.take(i as int));
        i = i + 1;
    }
    assert(all.take(all.len() as int) =~= all);
    count
}

/// Where something `width` columns wide goes at the right of the status line:
/// just left of `edge`, when there is room beside what is `used` of the left.
pub open spec fn fitted(edge: int, width: int, used: int, y: u16) -> Option<Rect> {
    if edge - width > used && edge - width >= 0 {
        Some(Rect { x: (edge - width) as u16, y, width: width as u16, height: 1 })
    } else {
        None
    }
}

/// Where the counts go: just left of whatever is at the right of the status
/// line, when there is room beside what its left half says. `left` and `right`
/// are how many characters its halves are.
pub open spec fn problems_at(
    chars: int,
    status: Rect,
    text: u16,
    left: int,
    right: int,
    undo: Option<Rect>,
    close: Option<Rect>,
    lsp: Option<Rect>,
) -> Option<Rect> {
    let used = match undo {
        Some(undo) => undo.spec_right(),
        None => crate::geometry::clamped(text + left + 1),
    };
    let end = match close {
        Some(close) => close.x as int,
        None => status.spec_right(),
    };
    if chars > u16::MAX {
        None
    } else {
        match lsp {
            Some(lsp) => fitted(lsp.x as int, chars, used, status.y),
            None => if right + 1 > u16::MAX || end < right + 1 {
                None
            } else {
                fitted(end - (right + 1), chars, used, status.y)
            },
        }
    }
}

/// Where the counts go: just left of whatever is at the right of the status
/// line, when there is room beside what its left half says. `left` and `right`
/// are how many characters its halves are.
pub fn problems_part(
    label: &Vec<(String, Counted)>,
    status: Rect,
    text: u16,
    left: usize,
    right: usize,
    undo: Option<Rect>,
    close: Option<Rect>,
    lsp: Option<Rect>,
) -> (part: Option<Rect>)
    ensures
        part == problems_at(
            label_chars(run_views(label@)) as int,
            status,
            text,
            left as int,
            right as int,
            undo,
            close,
            lsp,
        ),
{
    let chars: usize = chars_in(label);
    if chars > u16::MAX as usize {
        return None;
    }
    let width: u16 = chars as u16;
    let edge: u16 = match lsp {
        Some(lsp) => lsp.x,
        None => {
            let end: u16 = match close {
                Some(close) => close.x,
                None => status.right(),
            };
            if right >= u16::MAX as usize {
                return None;
            }
            let less: u16 = right as u16 + 1;
            if end < less {
                return None;
            }
            end - less
        },
    };
    if edge < width {
        return None;
    }
    let used: u16 = match undo {
        Some(undo) => undo.right(),
        None => if left >= u16::MAX as usize {
            u16::MAX
        } else {
            text.saturating_add(left as u16 + 1)
        },
    };
    if edge - width > used {
        Some(Rect::new(edge - width, status.y, width, 1))
    } else {
        None
    }
}

/// Split a pane's text area into the part the text is drawn in and the rail's
/// column, if it has one: `rail` is whether the document has one, and `gutter`
/// how wide its gutter is.
pub fn split_rail(text: Rect, gutter: u16, rail: bool) -> (parts: (Rect, Option<Rect>))
    requires
        text.on_screen(),
    ensures
        !rail || text.width <= gutter + 2 ==> parts == (text, None::<Rect>),
        rail && text.width > gutter + 2 ==> parts == (
            (Rect { width: (text.width - 1) as u16, ..text }),
            Some(Rect { x: (text.x + text.width - 1) as u16, width: 1, ..text }),
        ),
{
    if !rail || text.width <= gutter.saturating_add(2) {
        return (text, None);
    }
    let column = Rect { x: text.right() - 1, y: text.y, width: 1, height: text.height };
    (Rect { x: text.x, y: text.y, width: text.width - 1, height: text.height }, Some(column))
}

/// The text and its rail share the area between them: every cell of it is in
/// exactly one of the two.
pub proof fn the_rail_takes_nothing_from_the_text(
    text: Rect,
    inner: Rect,
    rail: Rect,
    column: int,
    row: int,
)
    requires
        text.on_screen(),
        text.width > 0,
        inner == (Rect { width: (text.width - 1) as u16, ..text }),
        rail == (Rect { x: (text.x + text.width - 1) as u16, width: 1, ..text }),
    ensures
        text.spec_contains(column, row) == (inner.spec_contains(column, row)
            || rail.spec_contains(column, row)),
        !(inner.spec_contains(column, row) && rail.spec_contains(column, row)),
{
}

/// Whether a mark is on char `p`. One that is empty is on the char it is against.
pub open spec fn on_char(mark: Mark, p: int) -> bool {
    mark.start <= p && (p < mark.end || p == mark.start)
}

/// Whether some char is in both of two marks.
pub open spec fn on_one_char(a: Mark, b: Mark) -> bool {
    exists|p: int| #[trigger] on_char(a, p) && on_char(b, p)
}

/// A card lists the mark it is about and every mark that is on a char that one is
/// on, each once, and no other.
pub proof fn a_card_lists_all_that_is_on_the_same_text(
    marks: Seq<Mark>,
    index: int,
    shown: Seq<usize>,
)
    requires
        0 <= index < marks.len() <= usize::MAX,
        is_listing(marks, index, shown),
    ensures
        shown.no_duplicates(),
        forall|k: int| 0 <= k < shown.len() ==> (#[trigger] shown[k]) < marks.len(),
        forall|i: usize|
            i < marks.len() ==> (#[trigger] shown.contains(i) <==> i == index || on_one_char(
                marks[i as int],
                marks[index],
            )),
{
    let all = listed(marks, index, marks.len() as int);
    listed_is(marks, index, marks.len() as int);
    let order = choose|order: Seq<usize>|
        #[trigger] is_ranking(order, card_keys(marks, index, all)) && shown
            == crate::order::picked(all, order);
    let keys = card_keys(marks, index, all);
    listed_is_no_longer(marks, index, marks.len() as int);
    crate::order::a_ranking_is_everything_once(order, keys);
    assert forall|a: int, b: int| 0 <= a < shown.len() && 0 <= b < shown.len() && a
        != b implies shown[a] != shown[b] by {
        assert(order[a] < all.len() && order[b] < all.len());
        assert(order[a] != order[b]);
        if order[a] < order[b] {
            assert(all[order[a] as int] < all[order[b] as int]);
        } else {
            assert(all[order[b] as int] < all[order[a] as int]);
        }
    }
    assert forall|k: int| 0 <= k < shown.len() implies (#[trigger] shown[k]) < marks.len() by {
        assert(order[k] < all.len());
        assert(all[order[k] as int] < marks.len());
    }
    assert forall|i: usize| i < marks.len() implies (#[trigger] shown.contains(i) <==> i == index
        || on_one_char(marks[i as int], marks[index])) by {
        if shown.contains(i) {
            let k = choose|k: int| 0 <= k < shown.len() && shown[k] == i;
            assert(order[k] < all.len());
            assert(all[order[k] as int] == i);
            assert(all.contains(i));
        }
        if all.contains(i) {
            let k = choose|k: int| 0 <= k < all.len() && all[k] == i;
            assert(order.contains(k as usize));
            let at = choose|at: int| 0 <= at < order.len() && order[at] == k as usize;
            assert(shown[at] == i);
        }
    }
}

/// Listing goes both ways: where one mark is on the card of another, that is on
/// its card.
pub proof fn cards_list_one_another(
    marks: Seq<Mark>,
    i: usize,
    j: usize,
    of_i: Seq<usize>,
    of_j: Seq<usize>,
)
    requires
        i < marks.len() <= usize::MAX,
        j < marks.len(),
        is_listing(marks, i as int, of_i),
        is_listing(marks, j as int, of_j),
    ensures
        of_i.contains(j) <==> of_j.contains(i),
{
    a_card_lists_all_that_is_on_the_same_text(marks, i as int, of_i);
    a_card_lists_all_that_is_on_the_same_text(marks, j as int, of_j);
    if on_one_char(marks[i as int], marks[j as int]) {
        let p = choose|p: int| #[trigger] on_char(marks[i as int], p) && on_char(marks[j as int], p);
        assert(on_char(marks[j as int], p) && on_char(marks[i as int], p));
    }
    if on_one_char(marks[j as int], marks[i as int]) {
        let p = choose|p: int| #[trigger] on_char(marks[j as int], p) && on_char(marks[i as int], p);
        assert(on_char(marks[i as int], p) && on_char(marks[j as int], p));
    }
}

/// How serious each kind of problem is, the most serious the most.
pub open spec fn seriousness(severity: Severity) -> int {
    match severity {
        Severity::Error => 4,
        Severity::Warning => 3,
        Severity::Info => 2,
        Severity::Hint => 1,
    }
}

/// A card says the most serious first; of those as serious, the one it is about
/// first, and the others in the order they are in the text.
pub proof fn a_card_says_the_most_serious_first(
    marks: Seq<Mark>,
    index: int,
    shown: Seq<usize>,
    a: int,
    b: int,
)
    requires
        0 <= index < marks.len() <= usize::MAX,
        is_listing(marks, index, shown),
        0 <= a < b < shown.len(),
    ensures
        ({
            let first = seriousness(marks[shown[a] as int].severity);
            let second = seriousness(marks[shown[b] as int].severity);
            &&& first >= second
            &&& first == second ==> shown[b] != index && (shown[a] == index || shown[a] < shown[b])
        }),
{
    let all = listed(marks, index, marks.len() as int);
    listed_is(marks, index, marks.len() as int);
    a_card_lists_all_that_is_on_the_same_text(marks, index, shown);
    let keys = card_keys(marks, index, all);
    let order = choose|order: Seq<usize>|
        #[trigger] is_ranking(order, keys) && shown == crate::order::picked(all, order);
    assert(crate::order::ranked(keys, order[a], order[b]));
    assert(order[a] < all.len() && order[b] < all.len());
    assert(shown[a] != shown[b]);
    if order[a] < order[b] {
        assert(all[order[a] as int] < all[order[b] as int]);
    }
}

proof fn listed_is(marks: Seq<Mark>, index: int, count: int)
    requires
        0 <= count <= marks.len() <= usize::MAX,
        0 <= index < marks.len(),
    ensures
        ({
            let all = listed(marks, index, count);
            &&& forall|k: int| 0 <= k < all.len() ==> (#[trigger] all[k]) < count
            &&& forall|j: int, k: int|
                0 <= j < k < all.len() ==> (#[trigger] all[j]) < (#[trigger] all[k])
            &&& forall|i: usize|
                i < count ==> (#[trigger] all.contains(i) <==> i == index || on_one_char(
                    marks[i as int],
                    marks[index],
                ))
        }),
    decreases count,
{
    if count > 0 {
        listed_is(marks, index, count - 1);
        let before = listed(marks, index, count - 1);
        let all = listed(marks, index, count);
        let mark = marks[count - 1];
        let target = marks[index];
        let p = if mark.start <= target.start {
            target.start as int
        } else {
            mark.start as int
        };
        if shares_text(mark, target) {
            assert(on_char(mark, p) && on_char(target, p));
        }
        assert(on_one_char(mark, target) ==> shares_text(mark, target));
        assert forall|i: usize| i < count implies (#[trigger] all.contains(i) <==> i == index
            || on_one_char(marks[i as int], marks[index])) by {
            if all.contains(i) {
                let k = choose|k: int| 0 <= k < all.len() && all[k] == i;
                if k < before.len() {
                    assert(before[k] == i);
                    assert(before.contains(i));
                }
            }
            if i < count - 1 && before.contains(i) {
                let k = choose|k: int| 0 <= k < before.len() && before[k] == i;
                assert(all[k] == i);
            }
            if i == count - 1 && all.len() > before.len() {
                assert(all[before.len() as int] == i);
            }
        }
    }
}

proof fn listed_is_no_longer(marks: Seq<Mark>, index: int, count: int)
    ensures
        count >= 0 ==> listed(marks, index, count).len() <= count,
    decreases count,
{
    if count > 0 {
        listed_is_no_longer(marks, index, count - 1);
    }
}

/// Stepping on from the caret goes to the nearest problem that starts after it,
/// and round to the first where none does; stepping back goes to the nearest that
/// starts before it, and round to the last. The problems are in order.
pub proof fn stepping_goes_to_the_nearest_problem(marks: Seq<Mark>, caret: usize)
    requires
        marks.len() > 0,
        forall|i: int, j: int|
            0 <= i < j < marks.len() ==> (#[trigger] marks[i]).start <= (#[trigger] marks[j]).start,
    ensures
        ({
            let on = stepped_to(marks, caret, true);
            &&& 0 <= on < marks.len()
            &&& if exists|i: int| 0 <= i < marks.len() && (#[trigger] marks[i]).start > caret {
                &&& marks[on].start > caret
                &&& forall|i: int|
                    0 <= i < marks.len() && (#[trigger] marks[i]).start > caret ==> marks[on].start
                        <= marks[i].start
            } else {
                on == 0
            }
        }),
        ({
            let back = stepped_to(marks, caret, false);
            &&& 0 <= back < marks.len()
            &&& if exists|i: int| 0 <= i < marks.len() && (#[trigger] marks[i]).start < caret {
                &&& marks[back].start < caret
                &&& forall|i: int|
                    0 <= i < marks.len() && (#[trigger] marks[i]).start < caret ==> marks[i].start
                        <= marks[back].start
            } else {
                back == marks.len() - 1
            }
        }),
{
    after_is_nearest(marks, caret, 0);
    before_is_nearest(marks, caret, marks.len() as int);
}

proof fn after_is_nearest(marks: Seq<Mark>, caret: usize, from: int)
    requires
        0 <= from <= marks.len(),
        forall|i: int| 0 <= i < from ==> (#[trigger] marks[i]).start <= caret,
    ensures
        match first_after(marks, caret, from) {
            Some(at) => from <= at < marks.len() && marks[at].start > caret && forall|i: int|
                0 <= i < at ==> (#[trigger] marks[i]).start <= caret,
            None => forall|i: int| 0 <= i < marks.len() ==> (#[trigger] marks[i]).start <= caret,
        },
    decreases marks.len() - from,
{
    if from < marks.len() && marks[from].start <= caret {
        after_is_nearest(marks, caret, from + 1);
    }
}

proof fn before_is_nearest(marks: Seq<Mark>, caret: usize, count: int)
    requires
        0 <= count <= marks.len(),
        forall|i: int| count <= i < marks.len() ==> (#[trigger] marks[i]).start >= caret,
    ensures
        match last_before(marks, caret, count) {
            Some(at) => 0 <= at < count && marks[at].start < caret && forall|i: int|
                at < i < marks.len() ==> (#[trigger] marks[i]).start >= caret,
            None => forall|i: int| 0 <= i < marks.len() ==> (#[trigger] marks[i]).start >= caret,
        },
    decreases count,
{
    if count > 0 && marks[count - 1].start >= caret {
        before_is_nearest(marks, caret, count - 1);
    }
}

/// The problem a press on a row of the rail goes to is the first of those on its
/// lines that starts after the caret, where that is asked for; where there is none
/// to be had there is nothing to go to.
pub proof fn a_rail_press_goes_to_the_first_there(
    lines: Seq<usize>,
    marks: Seq<Mark>,
    first: usize,
    end: usize,
    after: Option<usize>,
)
    requires
        lines.len() == marks.len(),
    ensures
        match on_row(lines, marks, first, end, after, 0) {
            Some(at) => {
                &&& 0 <= at < lines.len()
                &&& first <= lines[at] < end
                &&& after matches Some(caret) ==> caret < marks[at].start
                &&& forall|i: int|
                    0 <= i < at && first <= #[trigger] lines[i] < end ==> (after matches Some(caret)
                        && marks[i].start <= caret)
            },
            None => forall|i: int|
                0 <= i < lines.len() && first <= #[trigger] lines[i] < end ==> (
                after matches Some(caret) && marks[i].start <= caret),
        },
{
    first_on_row(lines, marks, first, end, after, 0);
}

proof fn first_on_row(
    lines: Seq<usize>,
    marks: Seq<Mark>,
    first: usize,
    end: usize,
    after: Option<usize>,
    from: int,
)
    requires
        0 <= from <= lines.len(),
        forall|i: int|
            0 <= i < from && first <= #[trigger] lines[i] < end ==> (after matches Some(caret)
                && marks[i].start <= caret),
    ensures
        match on_row(lines, marks, first, end, after, from) {
            Some(at) => {
                &&& from <= at < lines.len()
                &&& first <= lines[at] < end
                &&& after matches Some(caret) ==> caret < marks[at].start
                &&& forall|i: int|
                    0 <= i < at && first <= #[trigger] lines[i] < end ==> (after matches Some(caret)
                        && marks[i].start <= caret)
            },
            None => forall|i: int|
                0 <= i < lines.len() && first <= #[trigger] lines[i] < end ==> (
                after matches Some(caret) && marks[i].start <= caret),
        },
    decreases lines.len() - from,
{
    if from < lines.len() && !(first <= lines[from] && lines[from] < end && (after matches Some(
        caret,
    ) ==> marks[from].start > caret)) {
        first_on_row(lines, marks, first, end, after, from + 1);
    }
}

/// What is laid out is every mark that is on a line in view, in order, where the
/// marks are in the order they start.
pub proof fn marks_in_view_are_laid_out(
    starts: Seq<usize>,
    ends: Seq<usize>,
    first: usize,
    end: usize,
    count: int,
)
    requires
        0 <= count <= starts.len() == ends.len() <= usize::MAX,
        forall|i: int, j: int|
            0 <= i < j < starts.len() ==> (#[trigger] starts[i]) <= (#[trigger] starts[j]),
        forall|i: int| 0 <= i < starts.len() ==> (#[trigger] starts[i]) <= ends[i],
        first < end,
    ensures
        ({
            let shown = laid_out(starts, ends, first, end, count);
            &&& forall|i: usize|
                i < count ==> (#[trigger] shown.contains(i) <==> exists|line: int|
                    #[trigger] is_from_to(line, starts[i as int], ends[i as int]) && first <= line
                        < end)
            &&& forall|k: int| 0 <= k < shown.len() ==> (#[trigger] shown[k]) < count
            &&& forall|j: int, k: int|
                0 <= j < k < shown.len() ==> (#[trigger] shown[j]) < (#[trigger] shown[k])
        }),
    decreases count,
{
    if count > 0 {
        marks_in_view_are_laid_out(starts, ends, first, end, count - 1);
        let before = laid_out(starts, ends, first, end, count - 1);
        let shown = laid_out(starts, ends, first, end, count);
        let start = starts[count - 1];
        let line = if start <= first {
            first as int
        } else {
            start as int
        };
        if ends[count - 1] >= first && start < end {
            assert(is_from_to(line, start, ends[count - 1]) && first <= line < end);
            assert forall|k: int| 0 <= k < count && (#[trigger] ends[k]) >= first implies starts[k]
                < end by {
                if k < count - 1 {
                    assert(starts[k] <= starts[count - 1]);
                }
            }
            assert(shown == before.push((count - 1) as usize));
        } else {
            assert(shown == before) by {
                assert(ends[count - 1] >= first ==> starts[count - 1] >= end);
            }
        }
        assert forall|i: usize| i < count implies (#[trigger] shown.contains(i) <==> exists|
            line: int,
        |
            #[trigger] is_from_to(line, starts[i as int], ends[i as int]) && first <= line < end) by {
            if shown.contains(i) {
                let k = choose|k: int| 0 <= k < shown.len() && shown[k] == i;
                if k < before.len() {
                    assert(before[k] == i);
                    assert(before.contains(i));
                }
            }
            if i < count - 1 && before.contains(i) {
                let k = choose|k: int| 0 <= k < before.len() && before[k] == i;
                assert(shown[k] == i);
            }
            if i == count - 1 && shown.len() > before.len() {
                assert(shown[before.len() as int] == i);
            }
        }
    }
}

/// Whether `line` is `start`, or `end`, or between them.
pub open spec fn is_from_to(line: int, start: usize, end: usize) -> bool {
    start <= line <= end
}

/// The card of a row of the rail lists every problem on its lines, in order, and
/// no other.
pub proof fn a_row_lists_all_on_its_lines(lines: Seq<usize>, first: usize, end: usize, count: int)
    requires
        0 <= count <= lines.len() <= usize::MAX,
    ensures
        ({
            let here = rows_on(lines, first, end, count);
            &&& forall|i: usize|
                i < count ==> (#[trigger] here.contains(i) <==> first <= lines[i as int] && lines[i as int]
                    < end)
            &&& forall|k: int| 0 <= k < here.len() ==> (#[trigger] here[k]) < count
            &&& forall|j: int, k: int|
                0 <= j < k < here.len() ==> (#[trigger] here[j]) < (#[trigger] here[k])
        }),
    decreases count,
{
    if count > 0 {
        a_row_lists_all_on_its_lines(lines, first, end, count - 1);
        let before = rows_on(lines, first, end, count - 1);
        let here = rows_on(lines, first, end, count);
        assert forall|i: usize| i < count implies (#[trigger] here.contains(i) <==> first
            <= lines[i as int] && lines[i as int] < end) by {
            if here.contains(i) {
                let k = choose|k: int| 0 <= k < here.len() && here[k] == i;
                if k < before.len() {
                    assert(before[k] == i);
                    assert(before.contains(i));
                }
            }
            if i < count - 1 && before.contains(i) {
                let k = choose|k: int| 0 <= k < before.len() && before[k] == i;
                assert(here[k] == i);
            }
            if i == count - 1 && here.len() > before.len() {
                assert(here[before.len() as int] == i);
            }
        }
    }
}

/// Who said it and its code are both given where both are known, the code after
/// who said it; where only one is, that one stands alone; where neither is,
/// nothing does.
pub proof fn who_said_it_comes_before_its_code(both: Note, source: Note, code: Note, neither: Note)
    requires
        both.source is Some && both.code is Some,
        source.source == both.source && source.code is None,
        code.source is None && code.code == both.code,
        neither.source is None && neither.code is None,
    ensures
        said_by(neither) is None,
        said_by(source) is Some && said_by(code) is Some && said_by(both) is Some,
        said_by(source)->0 == "  "@ + both.source->0@,
        said_by(code)->0 == "  "@ + both.code->0@,
        said_by(both)->0 == said_by(source)->0 + " "@ + both.code->0@,
{
    assert(said_by(both)->0 =~= said_by(source)->0 + " "@ + both.code->0@);
}

/// The most said on a card and what is left over make up all there is to say: each
/// of the first few has its heading and then every line of its message, in a block
/// of its own.
pub proof fn a_card_says_each_in_full(
    marks: Seq<Mark>,
    notes: Seq<Note>,
    shown: Seq<usize>,
    at: int,
    line: int,
)
    requires
        0 <= at < shown.len(),
        at < MOST_IN_CARD,
        0 <= line < lines_in(notes[shown[at] as int].message@).len(),
    ensures
        ({
            let body = body_of(marks, notes, shown);
            let which = shown[at] as int;
            exists|from: int|
                {
                    &&& 0 <= from
                    &&& from + 1 + line < body.len()
                    &&& #[trigger] body[from] == header_of(marks[which], notes[which])
                    &&& body[from + 1 + line] == seq![
                        RunModel::Text(lines_in(notes[which].message@)[line]),
                    ]
                    &&& at == 0 ==> from == 0
                    &&& at > 0 ==> from > 0 && body[from - 1].len() == 0
                }
        }),
        shown.len() > MOST_IN_CARD ==> body_of(marks, notes, shown).last() == seq![
            RunModel::Dim("…and "@ + decimal_of((shown.len() - MOST_IN_CARD) as nat) + " more"@),
        ],
{
    let count = if shown.len() > MOST_IN_CARD {
        MOST_IN_CARD as int
    } else {
        shown.len() as int
    };
    let said = said_of(marks, notes, shown, count);
    let body = body_of(marks, notes, shown);
    let from = said_in_full(marks, notes, shown, count, at);
    let which = shown[at] as int;
    assert(said[from + 1 + line] == as_text(lines_in(notes[which].message@))[line]);
    assert(body[from] == said[from] && body[from + 1 + line] == said[from + 1 + line]);
    if at > 0 {
        assert(body[from - 1] == said[from - 1]);
    }
    assert(body[from] == header_of(marks[which], notes[which]));
}

proof fn said_in_full(
    marks: Seq<Mark>,
    notes: Seq<Note>,
    shown: Seq<usize>,
    count: int,
    at: int,
) -> (from: int)
    requires
        0 <= at < count <= shown.len(),
    ensures
        ({
            let said = said_of(marks, notes, shown, count);
            let which = shown[at] as int;
            let lines = as_text(lines_in(notes[which].message@));
            &&& 0 <= from
            &&& from + lines.len() < said.len()
            &&& said[from] == header_of(marks[which], notes[which])
            &&& forall|i: int| 0 <= i < lines.len() ==> said[from + 1 + i] == #[trigger] lines[i]
            &&& at == 0 ==> from == 0
            &&& at > 0 ==> from > 0 && said[from - 1].len() == 0
        }),
    decreases count,
{
    let rest = said_of(marks, notes, shown, count - 1);
    let said = said_of(marks, notes, shown, count);
    if at == count - 1 {
        if count > 1 {
            rest.len() as int + 1
        } else {
            0
        }
    } else {
        let from = said_in_full(marks, notes, shown, count - 1, at);
        let which = shown[at] as int;
        let lines = as_text(lines_in(notes[which].message@));
        assert forall|i: int| 0 <= i < rest.len() implies said[i] == rest[i] by {}
        from
    }
}

/// The status bar counts each kind of problem there is, the most serious first,
/// and no kind there is none of; with nothing to count it says nothing.
pub proof fn each_kind_there_is_is_counted(errors: nat, warnings: nat, notes: nat)
    ensures
        label_of(errors, warnings, notes) is None <==> errors == 0 && warnings == 0 && notes == 0,
        label_of(errors, warnings, notes) matches Some(label) ==> {
            let w = if errors > 0 {
                2int
            } else {
                1
            };
            let n = if warnings > 0 {
                w + 1
            } else {
                w
            };
            &&& label[0].1 is Gap
            &&& errors > 0 ==> label[1] == ("✕ "@ + decimal_of(errors) + " "@, Counted::Errors)
            &&& warnings > 0 ==> label[w] == (
                "▲ "@ + decimal_of(warnings) + " "@,
                Counted::Warnings,
            )
            &&& notes > 0 ==> label[n] == ("● "@ + decimal_of(notes) + " "@, Counted::Notes)
            &&& label.len() == if notes > 0 {
                n + 1
            } else {
                n
            }
        },
{
    reveal_strlit("✕");
    reveal_strlit("▲");
    reveal_strlit("●");
    reveal_strlit("✕ ");
    reveal_strlit("▲ ");
    reveal_strlit("● ");
    reveal_strlit(" ");
    assert("✕"@ + " "@ =~= "✕ "@);
    assert("▲"@ + " "@ =~= "▲ "@);
    assert("●"@ + " "@ =~= "● "@);
}

/// Where the count goes on the status bar it has its own chars, ends where what is
/// to its right begins, or a gap short of it, and is clear of what is to its left;
/// it goes wherever there is the room.
pub proof fn the_count_has_room_of_its_own(
    chars: int,
    status: Rect,
    text: u16,
    left: int,
    right: int,
    undo: Option<Rect>,
    close: Option<Rect>,
    lsp: Option<Rect>,
)
    requires
        0 <= chars <= u16::MAX,
        0 <= left,
        0 <= right < u16::MAX,
        text + left + 1 <= u16::MAX,
        status.x + status.width <= u16::MAX,
        undo matches Some(undo) ==> undo.x + undo.width <= u16::MAX,
        close matches Some(close) ==> right + 1 <= close.x,
        close is None ==> right + 1 <= status.x + status.width,
    ensures
        ({
            let after = match undo {
                Some(undo) => undo.x + undo.width,
                None => text + left + 1,
            };
            let edge = match (lsp, close) {
                (Some(lsp), _) => lsp.x as int,
                (None, Some(close)) => close.x - right - 1,
                (None, None) => status.x + status.width - right - 1,
            };
            match problems_at(chars, status, text, left, right, undo, close, lsp) {
                Some(at) => {
                    &&& at.x + at.width == edge
                    &&& at.width == chars
                    &&& after < at.x
                    &&& at.y == status.y
                    &&& at.height == 1
                },
                None => edge - chars <= after,
            }
        }),
{
}

/// A problem is on the line it starts on, and on the last where it starts past the end.
pub proof fn a_problem_is_on_the_line_it_starts_on(text: Seq<char>, mark: Mark)
    ensures
        mark.start <= text.len() ==> mark_line(text, mark) == crate::rope::line_of(
            text,
            mark.start as int,
        ),
        mark.start > text.len() ==> mark_line(text, mark) == crate::rope::breaks(text),
{
    assert(text.take(text.len() as int) =~= text);
}

/// The card of a row of the rail says how many problems are on it and on which lines, and
/// then, as far as there is room, the line, counted from one, of each, how serious it is
/// and the first line of what it says; and how many are left out.
pub proof fn a_row_s_card_says_each_by_its_line(
    lines: Seq<usize>,
    marks: Seq<Mark>,
    notes: Seq<Note>,
    here: Seq<usize>,
    first: usize,
    end: usize,
    at: int,
)
    requires
        0 <= at < here.len(),
        at < MOST_IN_CARD,
        first < end,
    ensures
        ({
            let body = row_body(lines, marks, notes, here, first, end);
            let which = here[at] as int;
            &&& body[0].len() == 1
            &&& here.len() == 1 && end == first + 1 ==> body[0] == seq![
                RunModel::Dim("1 problem"@ + " on "@ + ("line "@ + decimal_of(end as nat))),
            ]
            &&& here.len() > 1 && end == first + 1 ==> body[0] == seq![
                RunModel::Dim(
                    decimal_of(here.len()) + " problems"@ + " on "@ + ("line "@ + decimal_of(
                        end as nat,
                    )),
                ),
            ]
            &&& here.len() > 1 && end > first + 1 ==> body[0] == seq![
                RunModel::Dim(
                    decimal_of(here.len()) + " problems"@ + " on "@ + ("lines "@ + decimal_of(
                        (first + 1) as nat,
                    ) + "–"@ + decimal_of(end as nat)),
                ),
            ]
            &&& body[at + 1] == seq![
                RunModel::Dim("Ln "@ + decimal_of((lines[which] + 1) as nat) + "  "@),
                RunModel::Severity(marks[which].severity),
                RunModel::Text("  "@ + first_line_in(notes[which].message@)),
            ]
            &&& here.len() <= MOST_IN_CARD ==> body.len() == here.len() + 1
            &&& here.len() > MOST_IN_CARD ==> body.len() == MOST_IN_CARD + 2 && body.last() == seq![
                RunModel::Dim(
                    "…and "@ + decimal_of((here.len() - MOST_IN_CARD) as nat) + " more"@,
                ),
            ]
        }),
{
}

/// One problem more, while there is room for it, adds an empty line, its heading and
/// every line of its message to a card, and changes nothing above them.
pub proof fn one_problem_more_is_said_below_the_others(
    marks: Seq<Mark>,
    notes: Seq<Note>,
    shown: Seq<usize>,
    next: usize,
)
    requires
        0 < shown.len() < MOST_IN_CARD,
    ensures
        body_of(marks, notes, shown.push(next)) == body_of(marks, notes, shown).push(
            Seq::empty(),
        ).push(header_of(marks[next as int], notes[next as int])) + as_text(
            lines_in(notes[next as int].message@),
        ),
        body_of(marks, notes, Seq::empty()).len() == 0,
        body_of(marks, notes, seq![next]) == seq![
            header_of(marks[next as int], notes[next as int]),
        ] + as_text(lines_in(notes[next as int].message@)),
{
    let more = shown.push(next);
    said_alike(marks, notes, shown, more, shown.len() as int);
    let none = Seq::<Seq<RunModel>>::empty();
    assert(said_of(marks, notes, seq![next], 0) == none);
    assert(body_of(marks, notes, seq![next]) =~= seq![
        header_of(marks[next as int], notes[next as int]),
    ] + as_text(lines_in(notes[next as int].message@)));
}

proof fn said_alike(
    marks: Seq<Mark>,
    notes: Seq<Note>,
    shown: Seq<usize>,
    more: Seq<usize>,
    count: int,
)
    requires
        0 <= count <= shown.len() <= more.len(),
        forall|i: int| 0 <= i < shown.len() ==> shown[i] == #[trigger] more[i],
    ensures
        said_of(marks, notes, shown, count) == said_of(marks, notes, more, count),
    decreases count,
{
    if count > 0 {
        said_alike(marks, notes, shown, more, count - 1);
        assert(shown[count - 1] == more[count - 1]);
    }
}

} // verus!
