//! What the parts of the editor put on screen, for the pointer to land on.

use vstd::prelude::*;

use crate::completion::Completion;
use crate::geometry::Rect;
use crate::gutter::{hunk_index_at, hunk_on, Hunk};
use crate::hits::Hit;
use crate::target::Target;

verus! {

/// A part that lights up.
pub open spec fn lit(area: Rect, target: Target) -> Hit {
    Hit { area, target, hover: true }
}

/// A part that does not.
pub open spec fn unlit(area: Rect, target: Target) -> Hit {
    Hit { area, target, hover: false }
}

// ── the completion popup ────────────────────────────────────────────────────

/// The rows of a popup drawn in `area`, whose list is scrolled to
/// `scroll`: the first `rows` of them.
pub open spec fn row_hits(area: Rect, scroll: int, rows: int) -> Seq<Hit> {
    Seq::new(
        rows as nat,
        |i: int|
            lit(
                Rect { y: (area.y + i) as u16, height: 1, ..area },
                Target::CompletionRow((scroll + i) as usize),
            ),
    )
}

/// How many rows are in view of `count`, scrolled to `scroll`, in `height` rows.
pub open spec fn rows_in(count: int, scroll: int, height: int) -> int {
    if count <= scroll {
        0
    } else if count - scroll < height {
        count - scroll
    } else {
        height
    }
}

impl Completion {
    /// What the popup puts on screen, drawn in `area`: the documentation beside
    /// it in `docs`, if there is any, then itself, then its rows.
    pub fn layout_completion(&self, docs: Option<Rect>, area: Rect) -> (hits: Vec<Hit>)
        requires
            area.on_screen(),
        ensures
            hits@ == match self.popup {
                None => Seq::empty(),
                Some(popup) => (match docs {
                    Some(docs) => seq![unlit(docs, Target::Completion)],
                    None => Seq::empty(),
                }).push(unlit(area, Target::Completion)) + row_hits(
                    area,
                    popup.scroll as int,
                    rows_in(popup.shown@.len() as int, popup.scroll as int, area.height as int),
                ),
            },
    {
        let mut hits: Vec<Hit> = Vec::new();
        let Some(popup) = &self.popup else {
            return hits;
        };
        if let Some(docs) = docs {
            hits.push(Hit { area: docs, target: Target::Completion, hover: false });
        }
        hits.push(Hit { area, target: Target::Completion, hover: false });
        let ghost top = hits@;
        let rows = self.completion_rows(area);
        let mut i: usize = 0;
        while i < rows.len()
            invariant
                i <= rows@.len(),
                rows@.len() == rows_in(
                    popup.shown@.len() as int,
                    popup.scroll as int,
                    area.height as int,
                ),
                forall|k: int|
                    0 <= k < rows@.len() ==> #[trigger] rows@[k] == (
                        Rect { y: (area.y + k) as u16, height: 1, ..area },
                        (popup.scroll + k) as usize,
                    ),
                hits@ =~= top + row_hits(area, popup.scroll as int, rows@.len() as int).take(
                    i as int,
                ),
            decreases rows@.len() - i,
        {
            assert(rows@[i as int] == (
                Rect { y: (area.y + i) as u16, height: 1, ..area },
                (popup.scroll + i) as usize,
            ));
            hits.push(
                Hit { area: rows[i].0, target: Target::CompletionRow(rows[i].1), hover: true },
            );
            i = i + 1;
        }
        assert(row_hits(area, popup.scroll as int, rows@.len() as int).take(rows@.len() as int)
            =~= row_hits(area, popup.scroll as int, rows@.len() as int));
        hits
    }
}

// ── the rails ───────────────────────────────────────────────────────────────

/// A cell-high row of `column`.
pub open spec fn cell_of(column: Rect, row: u16) -> Rect {
    Rect { y: (column.y + row) as u16, height: 1, ..column }
}

/// What a pane's diagnostic rail puts on screen: itself, and each of its `rows`
/// with marks on it.
pub open spec fn rail_hits(pane: usize, rail: Rect, rows: Seq<u16>) -> Seq<Hit> {
    seq![unlit(rail, Target::Rail(pane))] + Seq::new(
        rows.len(),
        |i: int| lit(cell_of(rail, rows[i]), Target::RailMark(pane, rows[i])),
    )
}

/// What a pane's rail of changes puts on screen.
pub open spec fn change_rail_hits(pane: usize, column: Rect, rows: Seq<u16>) -> Seq<Hit> {
    seq![unlit(column, Target::ChangeRail(pane))] + Seq::new(
        rows.len(),
        |i: int| lit(cell_of(column, rows[i]), Target::ChangeRailMark(pane, rows[i])),
    )
}

/// What a pane's diagnostic rail puts on screen: itself, which a click scrolls
/// by, and each of its `rows` with marks on it, which is something to rest on
/// or click.
pub fn layout_rail(pane: usize, rail: Rect, rows: &Vec<u16>) -> (hits: Vec<Hit>)
    requires
        rail.on_screen(),
        forall|i: int| 0 <= i < rows@.len() ==> (#[trigger] rows@[i]) < rail.height,
    ensures
        hits@ == rail_hits(pane, rail, rows@),
{
    let mut hits: Vec<Hit> = Vec::new();
    hits.push(Hit { area: rail, target: Target::Rail(pane), hover: false });
    let mut i: usize = 0;
    while i < rows.len()
        invariant
            i <= rows@.len(),
            rail.on_screen(),
            forall|k: int| 0 <= k < rows@.len() ==> (#[trigger] rows@[k]) < rail.height,
            hits@ =~= rail_hits(pane, rail, rows@).take(i + 1),
        decreases rows@.len() - i,
    {
        assert(rows@[i as int] < rail.height);
        let cell = Rect { x: rail.x, y: rail.y + rows[i], width: rail.width, height: 1 };
        hits.push(Hit { area: cell, target: Target::RailMark(pane, rows[i]), hover: true });
        i = i + 1;
    }
    assert(rail_hits(pane, rail, rows@).take((rows@.len() + 1) as int) =~= rail_hits(pane, rail, rows@));
    hits
}

/// What a pane's rail of changes puts on screen: itself, and each of its `rows`
/// with changes on it.
pub fn layout_change_rail(pane: usize, column: Rect, rows: &Vec<u16>) -> (hits: Vec<Hit>)
    requires
        column.on_screen(),
        forall|i: int| 0 <= i < rows@.len() ==> (#[trigger] rows@[i]) < column.height,
    ensures
        hits@ == change_rail_hits(pane, column, rows@),
{
    let mut hits: Vec<Hit> = Vec::new();
    hits.push(Hit { area: column, target: Target::ChangeRail(pane), hover: false });
    let mut i: usize = 0;
    while i < rows.len()
        invariant
            i <= rows@.len(),
            column.on_screen(),
            forall|k: int| 0 <= k < rows@.len() ==> (#[trigger] rows@[k]) < column.height,
            hits@ =~= change_rail_hits(pane, column, rows@).take(i + 1),
        decreases rows@.len() - i,
    {
        assert(rows@[i as int] < column.height);
        let cell = Rect { x: column.x, y: column.y + rows[i], width: column.width, height: 1 };
        hits.push(Hit { area: cell, target: Target::ChangeRailMark(pane, rows[i]), hover: true });
        i = i + 1;
    }
    assert(change_rail_hits(pane, column, rows@).take((rows@.len() + 1) as int) =~= change_rail_hits(
        pane,
        column,
        rows@,
    ));
    hits
}

/// The rectangles of underlines, each with the mark it is of:
/// every one is something to rest the pointer on.
pub open spec fn underline_hits(pane: usize, rects: Seq<(usize, Rect)>) -> Seq<Hit> {
    Seq::new(rects.len(), |i: int| lit(rects[i].1, Target::Diagnostic(pane, rects[i].0)))
}

/// What the underlines in a pane put on screen, `rects` being where each is and
/// which mark it is of.
pub fn layout_underlines(pane: usize, rects: &Vec<(usize, Rect)>) -> (hits: Vec<Hit>)
    ensures
        hits@ == underline_hits(pane, rects@),
{
    let mut hits: Vec<Hit> = Vec::new();
    let mut i: usize = 0;
    while i < rects.len()
        invariant
            i <= rects@.len(),
            hits@ =~= underline_hits(pane, rects@).take(i as int),
        decreases rects@.len() - i,
    {
        hits.push(
            Hit { area: rects[i].1, target: Target::Diagnostic(pane, rects[i].0), hover: true },
        );
        i = i + 1;
    }
    assert(underline_hits(pane, rects@).take(rects@.len() as int) =~= underline_hits(pane, rects@));
    hits
}

/// The bars of the first `count` lines in view, one line to a row of `text`
/// from its top, in column `x`.
pub open spec fn bar_hits(
    pane: usize,
    text: Rect,
    x: u16,
    hunks: Seq<Hunk>,
    lines: u32,
    shown: Seq<usize>,
    count: int,
) -> Seq<Hit>
    decreases count,
{
    if count <= 0 {
        Seq::empty()
    } else {
        let before = bar_hits(pane, text, x, hunks, lines, shown, count - 1);
        match hunk_on(hunks, lines, shown[count - 1] as int, 0) {
            Some(index) => before.push(
                lit(
                    Rect { x, y: (text.y + count - 1) as u16, width: 1, height: 1 },
                    Target::Change(pane, index as usize),
                ),
            ),
            None => before,
        }
    }
}

/// What a pane's change bars put on screen: a cell for each line in view that a
/// change is marked on, `shown` being those lines, one to a row of `text` from
/// its top. `column` is which column of it the bars are in, and there are none
/// where that is not in view.
pub fn layout_changes(
    pane: usize,
    text: Rect,
    column: u16,
    hunks: &Vec<Hunk>,
    lines: u32,
    shown: &Vec<usize>,
) -> (hits: Vec<Hit>)
    requires
        text.on_screen(),
        shown@.len() <= text.height,
    ensures
        hits@ == if column < text.width {
            bar_hits(
                pane,
                text,
                (text.x + column) as u16,
                hunks@,
                lines,
                shown@,
                shown@.len() as int,
            )
        } else {
            Seq::empty()
        },
{
    let mut hits: Vec<Hit> = Vec::new();
    if column >= text.width {
        return hits;
    }
    let x: u16 = text.x + column;
    let mut i: usize = 0;
    while i < shown.len()
        invariant
            i <= shown@.len() <= text.height,
            text.on_screen(),
            hits@ == bar_hits(pane, text, x, hunks@, lines, shown@, i as int),
        decreases shown@.len() - i,
    {
        if let Some(index) = hunk_index_at(hunks, lines, shown[i]) {
            let cell = Rect { x, y: text.y + i as u16, width: 1, height: 1 };
            hits.push(Hit { area: cell, target: Target::Change(pane, index), hover: true });
        }
        i = i + 1;
    }
    hits
}

/// A press on a rail's row with marks on it is on the mark, not on the rail: a
/// crowded row is something to click, and only the rest of it scrolls.
pub proof fn marks_are_over_their_rail(pane: usize, rail: Rect, rows: Seq<u16>, k: int, column: int)
    requires
        rail.on_screen(),
        0 <= k < rows.len(),
        forall|i: int| 0 <= i < rows.len() ==> (#[trigger] rows[i]) < rail.height,
        rail.x <= column < rail.x + rail.width,
    ensures
        crate::hits::on_top(rail_hits(pane, rail, rows), column, rail.y + rows[k]) matches Some(
            hit,
        ) && hit.target is RailMark,
{
    let all = rail_hits(pane, rail, rows);
    assert(all[k + 1] == lit(cell_of(rail, rows[k]), Target::RailMark(pane, rows[k])));
    crate::hits::what_covers_an_area_hides_what_is_under_it(
        all.take(k + 1),
        all[k + 1],
        all.skip(k + 2),
        column,
        rail.y + rows[k],
    );
    assert(all.take(k + 1).push(all[k + 1]) + all.skip(k + 2) =~= all);
    let hit = crate::hits::on_top(all, column, rail.y + rows[k])->0;
    let rest = all.skip(k + 2);
    if rest.contains(hit) {
        let j = choose|j: int| 0 <= j < rest.len() && rest[j] == hit;
        assert(all[j + k + 2] == hit);
    }
}

/// Each suggestion is pressed where it is drawn: the row so far down is the one as far
/// past the first shown; and as many are as there are and there is room for.
pub proof fn a_suggestion_is_pressed_where_it_is_drawn(
    area: Rect,
    scroll: int,
    count: int,
    height: int,
    at: int,
)
    requires
        0 <= scroll <= count <= usize::MAX,
        0 <= height,
        0 <= at < rows_in(count, scroll, height),
        area.y + height <= u16::MAX,
    ensures
        rows_in(count, scroll, height) <= height,
        scroll + rows_in(count, scroll, height) <= count,
        rows_in(count, scroll, height) == height || scroll + rows_in(count, scroll, height)
            == count,
        ({
            let hits = row_hits(area, scroll, rows_in(count, scroll, height));
            &&& hits.len() == rows_in(count, scroll, height)
            &&& hits[at].area.y == area.y + at
            &&& hits[at].area.x == area.x && hits[at].area.width == area.width
            &&& hits[at].area.height == 1
            &&& hits[at].target == Target::CompletionRow((scroll + at) as usize)
            &&& hits[at].hover
        }),
{
}

/// A rail's marks are pressed on their own rows, as that row of that pane's rail, and
/// an underline as the problem it is under.
pub proof fn a_mark_is_pressed_on_its_row(
    pane: usize,
    rail: Rect,
    rows: Seq<u16>,
    rects: Seq<(usize, Rect)>,
    at: int,
    under: int,
)
    requires
        0 <= at < rows.len(),
        0 <= under < rects.len(),
        rail.y + rows[at] <= u16::MAX,
    ensures
        ({
            let mark = rail_hits(pane, rail, rows)[at + 1];
            let change = change_rail_hits(pane, rail, rows)[at + 1];
            let line = underline_hits(pane, rects)[under];
            &&& mark.target == Target::RailMark(pane, rows[at])
            &&& mark.area.y == rail.y + rows[at] && mark.area.height == 1
            &&& mark.area.x == rail.x && mark.area.width == rail.width
            &&& change.target == Target::ChangeRailMark(pane, rows[at])
            &&& change.area == mark.area
            &&& rail_hits(pane, rail, rows)[0].area == rail
            &&& rail_hits(pane, rail, rows)[0].target == Target::Rail(pane)
            &&& change_rail_hits(pane, rail, rows)[0].area == rail
            &&& change_rail_hits(pane, rail, rows)[0].target == Target::ChangeRail(pane)
            &&& line.area == rects[under].1
            &&& line.target == Target::Diagnostic(pane, rects[under].0)
        }),
{
}

/// A changed line has a bar to press beside it, on its row, for the change it is of.
pub proof fn every_changed_line_has_its_bar(
    pane: usize,
    text: Rect,
    x: u16,
    hunks: Seq<Hunk>,
    lines: u32,
    shown: Seq<usize>,
    count: int,
    at: int,
    index: int,
)
    requires
        0 <= at < count <= shown.len(),
        hunk_on(hunks, lines, shown[at] as int, 0) == Some(index),
    ensures
        bar_hits(pane, text, x, hunks, lines, shown, count).contains(
            Hit {
                area: Rect { x, y: (text.y + at) as u16, width: 1, height: 1 },
                target: Target::Change(pane, index as usize),
                hover: true,
            },
        ),
    decreases count,
{
    let hit = Hit {
        area: Rect { x, y: (text.y + at) as u16, width: 1, height: 1 },
        target: Target::Change(pane, index as usize),
        hover: true,
    };
    let before = bar_hits(pane, text, x, hunks, lines, shown, count - 1);
    let hits = bar_hits(pane, text, x, hunks, lines, shown, count);
    if at == count - 1 {
        assert(hits[before.len() as int] == hit);
    } else {
        every_changed_line_has_its_bar(pane, text, x, hunks, lines, shown, count - 1, at, index);
        let k = choose|k: int| 0 <= k < before.len() && before[k] == hit;
        assert(hits[k] == hit);
    }
}

} // verus!
