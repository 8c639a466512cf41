//! The references to a symbol, listed in the sidebar by file.

use vstd::prelude::*;

use crate::geometry::Rect;
use crate::hits::Hit as Area;
use crate::order::{all_are_there, picked};
use crate::outcome::Outcome;
use crate::palette::{row_views, Entry, Pick, PickModel, Row, RowModel};
use crate::paths::{
    comes_before, label_of, named_in, one_path_comes_first, path_before, paths_are_in_one_order,
};
use crate::place::{Open, Place};
use crate::scroll::{keep_in_view, kept_in_view, wheel, wheeled};
use crate::target::Target;
use crate::text::{chars_of, decimal, decimal_of, join3, push, without_return};

verus! {

/// Chars of a long line shown before the reference in it, when the line has to
/// be cut to bring the reference into the panel.
pub const LEAD: usize = 24;

// ── one line ────────────────────────────────────────────────────────────────

/// `n` held to the largest there is.
pub open spec fn at_most(n: int) -> u32 {
    if n <= u32::MAX {
        n as u32
    } else {
        u32::MAX
    }
}

/// How much of a line is cut when the char at `from` is to be in view.
pub open spec fn cut_before(from: int) -> int {
    if from > LEAD {
        from - LEAD
    } else {
        0
    }
}

/// What is kept of a line so that the char at `from` is in view.
pub open spec fn window_text(text: Seq<char>, from: int, ellipsis: Seq<char>) -> Seq<char> {
    let cut = cut_before(from);
    if cut == 0 {
        text
    } else if cut <= text.len() {
        ellipsis + text.skip(cut)
    } else {
        ellipsis
    }
}

/// Where the char at `at` is in what is kept of a line so that the one at
/// `from` is in view.
pub open spec fn window_at(at: int, from: int, ellipsis: Seq<char>) -> int {
    let cut = cut_before(from);
    if cut == 0 {
        at
    } else {
        at - cut + ellipsis.len()
    }
}

fn small(n: usize) -> (small: u32)
    ensures
        small == at_most(n as int),
{
    if n <= u32::MAX as usize {
        n as u32
    } else {
        u32::MAX
    }
}

/// `text`, cut so the chars `from..to` are near its start when they would
/// otherwise be far along a long line, with those chars' range in what is kept.
/// `ellipsis` stands in for what was cut, and the range moves by the chars it
/// is made of, which need not be one.
pub fn window(text: &str, from: usize, to: usize, ellipsis: &str) -> (cut: (String, (u32, u32)))
    requires
        cut_before(from as int) <= to,
    ensures
        cut.0@ == window_text(text@, from as int, ellipsis@),
        cut.1 == (
            at_most(window_at(from as int, from as int, ellipsis@)),
            at_most(window_at(to as int, from as int, ellipsis@)),
        ),
{
    let skipped: usize = from.saturating_sub(LEAD);
    if skipped == 0 {
        return (text.to_owned(), (small(from), small(to)));
    }
    let chars = chars_of(text);
    let dots = chars_of(ellipsis);
    let count: usize = dots.len();
    let mut shown = ellipsis.to_owned();
    let ghost rest = if skipped <= text@.len() {
        text@.skip(skipped as int)
    } else {
        Seq::empty()
    };
    let mut i: usize = skipped;
    while i < chars.len()
        invariant
            skipped <= i,
            chars@ == text@,
            i <= chars@.len() || i == skipped,
            skipped <= text@.len() ==> rest == text@.skip(skipped as int),
            shown@ =~= ellipsis@ + rest.take(i - skipped),
        decreases chars@.len() - i,
    {
        push(&mut shown, chars[i]);
        assert(rest.take(i + 1 - skipped) =~= rest.take(i - skipped).push(text@[i as int]));
        i = i + 1;
    }
    assert(rest.take(rest.len() as int) =~= rest);
    assert(shown@ =~= window_text(text@, from as int, ellipsis@));
    let start: usize = (from - skipped).saturating_add(count);
    let end: usize = (to - skipped).saturating_add(count);
    (shown, (small(start), small(end)))
}

/// Whatever is cut, the chars picked out are the same ones.
pub proof fn a_window_picks_the_same_chars(
    text: Seq<char>,
    from: int,
    to: int,
    ellipsis: Seq<char>,
)
    requires
        0 <= from <= to <= text.len(),
        window_at(to, from, ellipsis) <= u32::MAX,
    ensures
        window_text(text, from, ellipsis).subrange(
            at_most(window_at(from, from, ellipsis)) as int,
            at_most(window_at(to, from, ellipsis)) as int,
        ) == text.subrange(from, to),
        cut_before(from) > 0 ==> window_at(from, from, ellipsis) == LEAD + ellipsis.len(),
{
    assert(window_text(text, from, ellipsis).subrange(
        window_at(from, from, ellipsis),
        window_at(to, from, ellipsis),
    ) =~= text.subrange(from, to));
}

/// One reference, and the line it is on once that has been read.
#[derive(Debug)]
pub struct Hit {
    /// Where it is.
    pub place: Place,
    /// The line as shown, possibly cut to bring the reference into view.
    pub text: String,
    /// The chars of that which are the reference.
    pub matched: Option<(u32, u32)>,
}

/// A reference as a value.
pub struct HitModel {
    /// Where it is.
    pub place: Place,
    /// The line as shown.
    pub text: Seq<char>,
    /// The chars of that which are the reference.
    pub matched: Option<(u32, u32)>,
}

impl View for Hit {
    type V = HitModel;

    open spec fn view(&self) -> HitModel {
        HitModel { place: self.place, text: self.text@, matched: self.matched }
    }
}

/// References as values.
pub open spec fn hit_views(hits: Seq<Hit>) -> Seq<HitModel> {
    Seq::new(hits.len(), |i: int| hits[i]@)
}

/// The first of `lines`, from the `from`th on, numbered `line`.
pub open spec fn line_read(lines: Seq<(u32, String)>, line: u32, from: int) -> Option<Seq<char>>
    decreases lines.len() - from,
{
    if from < 0 || from >= lines.len() {
        None
    } else if lines[from].0 == line {
        Some(lines[from].1@)
    } else {
        line_read(lines, line, from + 1)
    }
}

/// `line` without the line break that ends it.
pub open spec fn without_break(line: Seq<char>) -> Seq<char> {
    without_return(
        if line.len() > 0 && line.last() == '\n' {
            line.drop_last()
        } else {
            line
        },
    )
}

/// The chars of `text`, its line, that a place picks out.
pub open spec fn picked_out(place: Place, text: Seq<char>) -> (nat, nat) {
    let from = place.encoding.spec_column(text, place.start.character as nat);
    let to = if place.end.line == place.start.line {
        let to = place.encoding.spec_column(text, place.end.character as nat);
        if to >= from {
            to
        } else {
            from
        }
    } else {
        text.len()
    };
    (from, to)
}

/// A reference once its line has been read, where `lines` holds it.
pub open spec fn filled(hit: HitModel, lines: Seq<(u32, String)>, ellipsis: Seq<char>) -> HitModel {
    match line_read(lines, hit.place.start.line, 0) {
        None => hit,
        Some(line) => {
            let text = without_break(line);
            let span = picked_out(hit.place, text);
            HitModel {
                text: window_text(text, span.0 as int, ellipsis),
                matched: Some(
                    (
                        at_most(window_at(span.0 as int, span.0 as int, ellipsis)),
                        at_most(window_at(span.1 as int, span.0 as int, ellipsis)),
                    ),
                ),
                ..hit
            }
        },
    }
}

/// References once their lines have been read.
pub open spec fn all_filled(
    hits: Seq<HitModel>,
    lines: Seq<(u32, String)>,
    ellipsis: Seq<char>,
) -> Seq<HitModel> {
    Seq::new(hits.len(), |i: int| filled(hits[i], lines, ellipsis))
}

fn find_line(lines: &Vec<(u32, String)>, line: u32) -> (at: Option<usize>)
    ensures
        match at {
            Some(at) => at < lines@.len() && line_read(lines@, line, 0) == Some(
                lines@[at as int].1@,
            ),
            None => line_read(lines@, line, 0) is None,
        },
{
    let mut i: usize = 0;
    while i < lines.len()
        invariant
            i <= lines@.len(),
            line_read(lines@, line, 0) == line_read(lines@, line, i as int),
        decreases lines@.len() - i,
    {
        if lines[i].0 == line {
            return Some(i);
        }
        i = i + 1;
    }
    None
}

fn break_off(line: &String) -> (text: String)
    ensures
        text@ == without_break(line@),
{
    let chars = chars_of(line.as_str());
    let mut end: usize = chars.len();
    if end > 0 && chars[end - 1] == '\n' {
        end = end - 1;
    }
    let ghost cut = chars@.take(end as int);
    assert(cut =~= if line@.len() > 0 && line@.last() == '\n' {
        line@.drop_last()
    } else {
        line@
    });
    if end > 0 && chars[end - 1] == '\r' {
        end = end - 1;
    }
    let text = crate::text::string_of(&chars, 0, end);
    assert(text@ =~= without_break(line@));
    text
}

/// Put the lines read for a file into its references, with the reference in
/// each picked out, and `ellipsis` in front of a line cut short.
pub fn fill_lines(hits: &mut Vec<Hit>, lines: &Vec<(u32, String)>, ellipsis: &str)
    ensures
        hit_views(final(hits)@) == all_filled(hit_views(old(hits)@), lines@, ellipsis@),
{
    let ghost before = hit_views(hits@);
    let mut i: usize = 0;
    while i < hits.len()
        invariant
            i <= hits@.len() == before.len(),
            forall|k: int|
                0 <= k < i ==> #[trigger] hits@[k]@ == filled(before[k], lines@, ellipsis@),
            forall|k: int| i <= k < hits@.len() ==> #[trigger] hits@[k]@ == before[k],
        decreases hits@.len() - i,
    {
        let place = hits[i].place.clone();
        assert(hits@[i as int]@ == before[i as int]);
        if let Some(at) = find_line(lines, place.start.line) {
            let text = break_off(&lines[at].1);
            let from: usize = place.encoding.column(text.as_str(), place.start.character);
            let to: usize = if place.end.line == place.start.line {
                let to = place.encoding.column(text.as_str(), place.end.character);
                if to >= from {
                    to
                } else {
                    from
                }
            } else {
                let chars = chars_of(text.as_str());
                chars.len()
            };
            let (shown, matched) = window(text.as_str(), from, to, ellipsis);
            hits.set(i, Hit { place, text: shown, matched: Some(matched) });
        }
        i = i + 1;
    }
    assert(hit_views(hits@) =~= all_filled(before, lines@, ellipsis@));
}

// ── putting them in order ───────────────────────────────────────────────────

/// A place, and how its file is named in a list.
#[derive(Debug)]
pub struct Named {
    /// The place.
    pub place: Place,
    /// How its file is named.
    pub label: String,
    /// Whether its file is open.
    pub open: bool,
}

impl Clone for Named {
    fn clone(&self) -> (copy: Self)
        ensures
            copy == *self,
    {
        Named { place: self.place.clone(), label: self.label.clone(), open: self.open }
    }
}

/// `place`, its file named from the first of `roots` that it is in; `open` is
/// whether its file is.
pub fn named(place: Place, roots: &Vec<String>, open: bool) -> (named: Named)
    ensures
        named.place == place,
        named.label@ == named_in(place.path@, roots@, 0),
        named.open == open,
{
    let label = label_of(&place.path, roots);
    Named { place, label, open }
}

/// Whether place `a` comes before place `b`: by file, in the order of their
/// paths, then by line, then by how far into it they are.
pub open spec fn place_before(a: Place, b: Place) -> bool {
    path_before(a.path@, b.path@) || (a.path@ == b.path@ && (a.start.line < b.start.line || (
    a.start.line == b.start.line && a.start.character < b.start.character)))
}

/// Whether `places` are in the order of their paths.
pub open spec fn by_path(places: Seq<Named>) -> bool {
    forall|i: int, j: int|
        0 <= i < j < places.len() ==> (#[trigger] places[i]).place.path@ == (
        #[trigger] places[j]).place.path@ || path_before(
            places[i].place.path@,
            places[j].place.path@,
        )
}

/// Whether one of `places` is in the file at `path`.
pub open spec fn names_file(places: Seq<Named>, path: Seq<char>) -> bool {
    exists|k: int| 0 <= k < places.len() && (#[trigger] places[k]).place.path@ == path
}

/// Whether each file is there once, in the order of their paths.
pub open spec fn each_file_once(groups: Seq<GroupModel>) -> bool {
    forall|i: int, j: int|
        0 <= i < j < groups.len() ==> path_before(
            (#[trigger] groups[i]).path,
            (#[trigger] groups[j]).path,
        )
}

/// Whether two places are the same one.
pub open spec fn same_place(a: Place, b: Place) -> bool {
    a.path@ == b.path@ && a.start == b.start && a.end == b.end && a.encoding == b.encoding
}

fn is_same_place(a: &Place, b: &Place) -> (same: bool)
    ensures
        same == same_place(*a, *b),
{
    a.path == b.path && a.start == b.start && a.end == b.end && a.encoding == b.encoding
}

/// Places without those that are the same as the one before them.
pub open spec fn once_each(places: Seq<Named>) -> Seq<Named>
    decreases places.len(),
{
    if places.len() <= 1 {
        places
    } else {
        let rest = once_each(places.drop_last());
        if same_place(places.last().place, places[places.len() - 2].place) {
            rest
        } else {
            rest.push(places.last())
        }
    }
}

/// Whether the place at `a` is listed ahead of the place at `b`: it comes before
/// it, or they start at one place and it came first.
pub open spec fn ahead(places: Seq<Named>, a: usize, b: usize) -> bool {
    place_before(places[a as int].place, places[b as int].place) || (!place_before(
        places[b as int].place,
        places[a as int].place,
    ) && a < b)
}

/// Whether `order` puts `places` in order.
pub open spec fn orders(order: Seq<usize>, places: Seq<Named>) -> bool {
    &&& order.len() == places.len()
    &&& forall|i: int| 0 <= i < order.len() ==> (#[trigger] order[i]) < places.len()
    &&& forall|i: int, j: int|
        0 <= i < j < order.len() ==> #[trigger] ahead(places, order[i], order[j])
}

/// Whether `sorted` is `places` in order, each once.
pub open spec fn in_order(sorted: Seq<Named>, places: Seq<Named>) -> bool {
    exists|order: Seq<usize>| #[trigger]
        orders(order, places) && sorted == once_each(picked(places, order))
}

/// Places come in one order: none comes before itself, what comes before one
/// comes before what that comes before, and two of which neither comes first
/// start at one place.
proof fn places_are_in_one_order(a: Place, b: Place, c: Place)
    ensures
        !place_before(a, a),
        place_before(a, b) ==> !place_before(b, a),
        place_before(a, b) && place_before(b, c) ==> place_before(a, c),
        !place_before(a, b) && !place_before(b, a) ==> a.path@ == b.path@ && a.start.line
            == b.start.line && a.start.character == b.start.character,
{
    one_path_comes_first(a.path@, a.path@);
    one_path_comes_first(a.path@, b.path@);
    one_path_comes_first(b.path@, c.path@);
    if path_before(a.path@, b.path@) && path_before(b.path@, c.path@) {
        paths_are_in_one_order(a.path@, b.path@, c.path@);
    }
}

fn is_before(a: &Place, a_path: &Vec<char>, b: &Place, b_path: &Vec<char>) -> (before: bool)
    requires
        a_path@ == a.path@,
        b_path@ == b.path@,
    ensures
        before == place_before(*a, *b),
{
    if comes_before(a_path, b_path) {
        return true;
    }
    if comes_before(b_path, a_path) {
        proof {
            one_path_comes_first(a.path@, b.path@);
        }
        return false;
    }
    proof {
        one_path_comes_first(a.path@, b.path@);
    }
    a.start.line < b.start.line || (a.start.line == b.start.line && a.start.character
        < b.start.character)
}

/// The order that puts `places` in order.
fn order_of(places: &Vec<Named>) -> (order: Vec<usize>)
    ensures
        orders(order@, places@),
{
    let mut paths: Vec<Vec<char>> = Vec::new();
    let mut order: Vec<usize> = Vec::new();
    let mut next: usize = 0;
    while next < places.len()
        invariant
            next <= places@.len(),
            paths@.len() == next,
            forall|k: int| 0 <= k < next ==> (#[trigger] paths@[k])@ == places@[k].place.path@,
            orders(order@, places@.take(next as int)),
        decreases places@.len() - next,
    {
        let ghost seen = places@.take(next as int);
        let ghost all = places@.take(next + 1);
        paths.push(chars_of(places[next].place.path.as_str()));
        let mut at: usize = order.len();
        while at > 0 && is_before(
            &places[next].place,
            &paths[next],
            &places[order[at - 1]].place,
            &paths[order[at - 1]],
        )
            invariant
                next < places@.len(),
                at <= order@.len() == next,
                paths@.len() == next + 1,
                forall|k: int| 0 <= k <= next ==> (#[trigger] paths@[k])@ == places@[k].place.path@,
                seen == places@.take(next as int),
                orders(order@, seen),
                forall|k: int|
                    at <= k < order@.len() ==> place_before(
                        places@[next as int].place,
                        places@[#[trigger] order@[k] as int].place,
                    ),
            decreases at,
        {
            at = at - 1;
        }
        let ghost before = order@;
        let ghost new = places@[next as int].place;
        proof {
            // Everything up to `at` stays ahead of the new one: the one just
            // before it does, and they are in order among themselves.
            if at > 0 {
                let last = places@[before[at - 1] as int].place;
                assert(before[at - 1] < seen.len());
                assert forall|k: int| 0 <= k < at implies !place_before(
                    new,
                    places@[#[trigger] before[k] as int].place,
                ) by {
                    if k < at - 1 {
                        assert(before[k] < seen.len());
                        assert(ahead(seen, before[k], before[at - 1]));
                        let one = places@[before[k] as int].place;
                        places_are_in_one_order(new, one, last);
                        places_are_in_one_order(one, last, new);
                    }
                }
            }
        }
        order.insert(at, next);
        proof {
            assert forall|i: int| 0 <= i < order@.len() implies (#[trigger] order@[i])
                < all.len() by {
                if i < at {
                    assert(order@[i] == before[i]);
                } else if i > at {
                    assert(order@[i] == before[i - 1]);
                }
            }
            assert forall|i: int, j: int| 0 <= i < j < order@.len() implies #[trigger] ahead(
                all,
                order@[i],
                order@[j],
            ) by {
                let bi = if i < at {
                    i
                } else {
                    i - 1
                };
                let bj = if j < at {
                    j
                } else {
                    j - 1
                };
                if i == at {
                    assert(order@[j] == before[j - 1]);
                    assert(before[j - 1] < seen.len());
                } else if j == at {
                    assert(order@[i] == before[i]);
                    assert(before[i] < seen.len());
                } else {
                    assert(order@[i] == before[bi]);
                    assert(order@[j] == before[bj]);
                    assert(ahead(seen, before[bi], before[bj]));
                    assert(before[bi] < seen.len());
                    assert(before[bj] < seen.len());
                }
            }
        }
        next = next + 1;
    }
    assert(places@.take(places@.len() as int) =~= places@);
    order
}

/// `places` in order: by file, then line, then how far into it, each once.
pub fn sorted(places: &Vec<Named>) -> (sorted: Vec<Named>)
    ensures
        in_order(sorted@, places@),
{
    let order = order_of(places);
    let ghost all = picked(places@, order@);
    let mut sorted: Vec<Named> = Vec::new();
    let mut i: usize = 0;
    assert(all.take(0) =~= Seq::empty());
    while i < order.len()
        invariant
            i <= order@.len() == all.len(),
            all == picked(places@, order@),
            forall|k: int| 0 <= k < order@.len() ==> (#[trigger] order@[k]) < places@.len(),
            sorted@ == once_each(all.take(i as int)),
        decreases order@.len() - i,
    {
        assert(order@[i as int] < places@.len());
        let place = &places[order[i]];
        let ghost next = all.take(i + 1);
        assert(next.drop_last() =~= all.take(i as int));
        assert(next.last() == *place);
        if i == 0 {
            sorted.push(place.clone());
            assert(sorted@ =~= next);
        } else {
            assert(order@[i - 1] < places@.len());
            let before = &places[order[i - 1]];
            assert(next[i - 1] == *before);
            if !is_same_place(&place.place, &before.place) {
                sorted.push(place.clone());
            }
        }
        i = i + 1;
    }
    assert(all.take(order@.len() as int) =~= all);
    sorted
}

// ── in the palette ──────────────────────────────────────────────────────────

/// The row of a place in the palette.
pub open spec fn place_row(named: Named, open: Open) -> RowModel {
    RowModel {
        label: named.label@ + ":"@ + decimal_of((named.place.start.line + 1) as nat),
        matched: Seq::empty(),
        hint: if named.open {
            "open"@
        } else {
            ""@
        },
        pick: PickModel::Place(named.place, open),
    }
}

/// Whether `title` and `rows` offer `places`, the references to `word`, in order.
pub open spec fn is_offer(
    places: Seq<Named>,
    word: Seq<char>,
    title: Seq<char>,
    rows: Seq<RowModel>,
) -> bool {
    exists|sorted: Seq<Named>| #[trigger]
        in_order(sorted, places) && by_path(sorted) && title == decimal_of(sorted.len())
            + " references to "@ + word && rows == Seq::new(
            sorted.len(),
            |i: int| place_row(sorted[i], Open::Here),
        )
}

/// Rows for the palette, one per place.
pub fn place_rows(places: &Vec<Named>, open: Open) -> (rows: Vec<Row>)
    requires
        forall|i: int|
            0 <= i < places@.len() ==> (#[trigger] places@[i]).place.start.line < u32::MAX,
    ensures
        row_views(rows@) == Seq::new(places@.len(), |i: int| place_row(places@[i], open)),
{
    let ghost all = Seq::new(places@.len(), |i: int| place_row(places@[i], open));
    let mut rows: Vec<Row> = Vec::new();
    let mut i: usize = 0;
    while i < places.len()
        invariant
            i <= places@.len() == all.len(),
            forall|k: int| 0 <= k < all.len() ==> #[trigger] all[k] == place_row(places@[k], open),
            forall|i: int|
                0 <= i < places@.len() ==> (#[trigger] places@[i]).place.start.line < u32::MAX,
            row_views(rows@) =~= all.take(i as int),
        decreases places@.len() - i,
    {
        let named = &places[i];
        assert(places@[i as int].place.start.line < u32::MAX);
        let number: usize = (named.place.start.line + 1) as usize;
        let row = Row {
            entry: Entry {
                label: join3(named.label.as_str(), ":", decimal(number).as_str()),
                matched: Vec::new(),
                hint: if named.open {
                    "open".to_owned()
                } else {
                    "".to_owned()
                },
            },
            pick: Pick::Place(named.place.clone(), open),
        };
        let ghost before = rows@;
        rows.push(row);
        proof {
            assert(row@.matched =~= Seq::empty());
            assert(row_views(rows@) =~= row_views(before).push(row@));
            assert(all.take(i + 1) =~= all.take(i as int).push(all[i as int]));
        }
        i = i + 1;
    }
    assert(all.take(places@.len() as int) =~= all);
    rows
}

// ── in the sidebar ──────────────────────────────────────────────────────────

/// One file's references.
#[derive(Debug)]
pub struct Group {
    /// The file.
    pub path: String,
    /// How it is named.
    pub label: String,
    /// Its references.
    pub hits: Vec<Hit>,
}

/// One file's references as a value.
pub struct GroupModel {
    /// The file.
    pub path: Seq<char>,
    /// How it is named.
    pub label: Seq<char>,
    /// Its references.
    pub hits: Seq<HitModel>,
}

impl View for Group {
    type V = GroupModel;

    open spec fn view(&self) -> GroupModel {
        GroupModel { path: self.path@, label: self.label@, hits: hit_views(self.hits@) }
    }
}

/// Files' references as values.
pub open spec fn group_views(groups: Seq<Group>) -> Seq<GroupModel> {
    Seq::new(groups.len(), |i: int| groups[i]@)
}

/// A row of the panel.
#[derive(Debug, Clone, Copy, PartialEq, Eq, Structural)]
pub enum Line {
    /// A file.
    File(usize),
    /// One of a file's references.
    Hit(usize, usize),
}

/// A reference whose line has not been read.
pub open spec fn unread(place: Place) -> HitModel {
    HitModel { place, text: ""@, matched: None }
}

/// Places, those in one file after another put together.
pub open spec fn groups_of(places: Seq<Named>) -> Seq<GroupModel>
    decreases places.len(),
{
    if places.len() == 0 {
        Seq::empty()
    } else {
        let rest = groups_of(places.drop_last());
        let last = places.last();
        if rest.len() > 0 && rest.last().path == last.place.path@ {
            rest.update(
                rest.len() - 1,
                GroupModel { hits: rest.last().hits.push(unread(last.place)), ..rest.last() },
            )
        } else {
            rest.push(
                GroupModel {
                    path: last.place.path@,
                    label: last.label@,
                    hits: seq![unread(last.place)],
                },
            )
        }
    }
}

fn grouped(places: &Vec<Named>) -> (groups: Vec<Group>)
    ensures
        group_views(groups@) == groups_of(places@),
{
    let mut groups: Vec<Group> = Vec::new();
    let mut i: usize = 0;
    while i < places.len()
        invariant
            i <= places@.len(),
            group_views(groups@) =~= groups_of(places@.take(i as int)),
        decreases places@.len() - i,
    {
        let named = &places[i];
        let ghost so_far = places@.take(i + 1);
        let ghost before = group_views(groups@);
        proof {
            assert(so_far.drop_last() =~= places@.take(i as int));
            assert(so_far.last() == *named);
        }
        let hit = Hit { place: named.place.clone(), text: "".to_owned(), matched: None };
        assert(hit@ == unread(named.place));
        let count: usize = groups.len();
        let again = count > 0 && groups[count - 1].path == named.place.path;
        assert(count > 0 ==> before.last() == groups@[count - 1]@);
        if again {
            let mut group = match groups.pop() {
                Some(group) => group,
                None => Group { path: String::new(), label: String::new(), hits: Vec::new() },
            };
            let ghost hits = hit_views(group.hits@);
            group.hits.push(hit);
            assert(hit_views(group.hits@) =~= hits.push(hit@));
            groups.push(group);
            assert(group_views(groups@) =~= groups_of(so_far));
        } else {
            let mut hits: Vec<Hit> = Vec::new();
            hits.push(hit);
            assert(hit_views(hits@) =~= seq![hit@]);
            groups.push(
                Group { path: named.place.path.clone(), label: named.label.clone(), hits },
            );
            assert(group_views(groups@) =~= groups_of(so_far));
        }
        i = i + 1;
    }
    assert(places@.take(places@.len() as int) =~= places@);
    groups
}

/// The rows of one file's references.
pub open spec fn hit_lines(group: int, count: nat) -> Seq<Line> {
    Seq::new(count, |i: int| Line::Hit(group as usize, i as usize))
}

/// The rows of the first `count` files: each, and then its references unless
/// it is folded.
pub open spec fn rows_of(groups: Seq<GroupModel>, collapsed: Seq<bool>, count: int) -> Seq<Line>
    decreases count,
{
    if count <= 0 {
        Seq::empty()
    } else {
        rows_of(groups, collapsed, count - 1).push(Line::File((count - 1) as usize)) + if
        collapsed[count - 1] {
            Seq::empty()
        } else {
            hit_lines(count - 1, groups[count - 1].hits.len())
        }
    }
}

/// The largest line number among the first `count` of `places`, counted from
/// one, and at least one.
pub open spec fn widest_of(places: Seq<Named>, count: int) -> u32
    decreases count,
{
    if count <= 0 {
        1
    } else {
        let rest = widest_of(places, count - 1);
        let number = at_most(places[count - 1].place.start.line + 1);
        if number > rest {
            number
        } else {
            rest
        }
    }
}

/// What the panel is headed by.
pub open spec fn summary_of(count: nat, word: Seq<char>, files: nat) -> Seq<char> {
    decimal_of(count) + (if count == 1 {
        " reference"@
    } else {
        " references"@
    }) + " to "@ + word + " in "@ + decimal_of(files) + (if files == 1 {
        " file"@
    } else {
        " files"@
    })
}

fn summary(count: usize, word: &str, files: usize) -> (text: String)
    ensures
        text@ == summary_of(count as nat, word@, files as nat),
{
    let mut text = decimal(count);
    text.append(
        if count == 1 {
            " reference"
        } else {
            " references"
        },
    );
    text.append(" to ");
    text.append(word);
    text.append(" in ");
    text.append(decimal(files).as_str());
    text.append(
        if files == 1 {
            " file"
        } else {
            " files"
        },
    );
    text
}

/// What the references panel lists.
#[derive(Debug)]
pub struct Listing {
    /// The references, by file.
    pub groups: Vec<Group>,
    /// Which files are folded.
    pub collapsed: Vec<bool>,
    /// The rows.
    pub rows: Vec<Line>,
    /// What it is headed by.
    pub summary: String,
    /// The largest line number in it.
    pub widest: u32,
    /// Which row is at the top.
    pub scroll: usize,
    /// Which row is selected.
    pub selected: Option<usize>,
    /// Which listing asked for the lines being read, so lines read for an
    /// older one are dropped.
    pub generation: u64,
}

/// What a listing of references comes to.
#[derive(Debug)]
pub enum Found {
    /// There are none, and this is said.
    Say(String),
    /// There is no panel to list them in: they are offered in the palette.
    Offer(String, Vec<Row>),
    /// They are listed in the panel.
    Listed,
}

/// What acting on a row comes to.
#[derive(Debug)]
pub enum Acted {
    /// There is no such row.
    Nothing,
    /// A file was folded, or unfolded.
    Folded,
    /// A reference is to be gone to.
    Go(Place),
}

/// Which of the first `count` of `rows` are references.
pub open spec fn reference_rows(rows: Seq<Line>, count: int) -> Seq<usize>
    decreases count,
{
    if count <= 0 {
        Seq::empty()
    } else if rows[count - 1] is Hit {
        reference_rows(rows, count - 1).push((count - 1) as usize)
    } else {
        reference_rows(rows, count - 1)
    }
}

/// Where `row` is among `hits`, from the `from`th on.
pub open spec fn place_among(hits: Seq<usize>, row: usize, from: int) -> Option<int>
    decreases hits.len() - from,
{
    if from < 0 || from >= hits.len() {
        None
    } else if hits[from] == row {
        Some(from)
    } else {
        place_among(hits, row, from + 1)
    }
}

/// The place after `now` of `count`, or before it, coming round at the ends;
/// the first, or the last, where there is none yet.
pub open spec fn step_of(now: Option<int>, count: int, forward: bool) -> int {
    match now {
        Some(now) => if forward {
            if now + 1 < count {
                now + 1
            } else {
                0
            }
        } else if now > 0 {
            now - 1
        } else {
            count - 1
        },
        None => if forward {
            0
        } else {
            count - 1
        },
    }
}

/// A row of the panel as it is drawn.
#[derive(Debug)]
pub enum ViewRow {
    /// A file.
    File {
        /// How it is named.
        path: String,
        /// How many references it has.
        hits: usize,
        /// Whether they are folded away.
        collapsed: bool,
    },
    /// A reference.
    Hit {
        /// The line it is on, counted from one.
        line: u32,
        /// The line as shown.
        text: String,
        /// The chars of that which are the reference.
        matched: Option<(u32, u32)>,
    },
}

/// A row as it is drawn, as a value.
pub enum ViewRowModel {
    /// A file.
    File {
        /// How it is named.
        path: Seq<char>,
        /// How many references it has.
        hits: nat,
        /// Whether they are folded away.
        collapsed: bool,
    },
    /// A reference.
    Hit {
        /// The line it is on, counted from one.
        line: u32,
        /// The line as shown.
        text: Seq<char>,
        /// The chars of that which are the reference.
        matched: Option<(u32, u32)>,
    },
}

impl View for ViewRow {
    type V = ViewRowModel;

    open spec fn view(&self) -> ViewRowModel {
        match *self {
            ViewRow::File { path, hits, collapsed } => ViewRowModel::File {
                path: path@,
                hits: hits as nat,
                collapsed,
            },
            ViewRow::Hit { line, text, matched } => ViewRowModel::Hit {
                line,
                text: text@,
                matched,
            },
        }
    }
}

/// Rows as values.
pub open spec fn drawn_views(rows: Seq<ViewRow>) -> Seq<ViewRowModel> {
    Seq::new(rows.len(), |i: int| rows[i]@)
}

/// A row as it is drawn.
pub open spec fn drawn_row(groups: Seq<GroupModel>, collapsed: Seq<bool>, line: Line) -> ViewRowModel {
    match line {
        Line::File(at) => ViewRowModel::File {
            path: groups[at as int].label,
            hits: groups[at as int].hits.len(),
            collapsed: collapsed[at as int],
        },
        Line::Hit(at, hit) => {
            let found = groups[at as int].hits[hit as int];
            ViewRowModel::Hit {
                line: at_most(found.place.start.line + 1),
                text: found.text,
                matched: found.matched,
            }
        },
    }
}

/// The rows from `from` up to `to`, as many as there are, as they are drawn.
pub open spec fn drawn_rows(
    groups: Seq<GroupModel>,
    collapsed: Seq<bool>,
    rows: Seq<Line>,
    from: int,
    to: int,
) -> Seq<ViewRowModel> {
    let end = if to < rows.len() {
        to
    } else {
        rows.len() as int
    };
    let first = if from < end {
        from
    } else {
        end
    };
    Seq::new((end - first) as nat, |i: int| drawn_row(groups, collapsed, rows[first + i]))
}

/// Every row is of a file there is, and of a reference it has.
proof fn rows_are_of_files(groups: Seq<GroupModel>, collapsed: Seq<bool>, count: int, row: int)
    requires
        0 <= count <= groups.len(),
        groups.len() <= usize::MAX,
        forall|i: int| 0 <= i < groups.len() ==> (#[trigger] groups[i]).hits.len() <= usize::MAX,
        0 <= row < rows_of(groups, collapsed, count).len(),
    ensures
        match rows_of(groups, collapsed, count)[row] {
            Line::File(at) => at < count,
            Line::Hit(at, hit) => at < count && hit < groups[at as int].hits.len(),
        },
    decreases count,
{
    if count > 0 {
        let before = rows_of(groups, collapsed, count - 1);
        if row < before.len() {
            rows_are_of_files(groups, collapsed, count - 1, row);
            assert(rows_of(groups, collapsed, count)[row] == before[row]);
        } else {
            assert(groups[count - 1].hits.len() <= usize::MAX);
        }
    }
}

impl Listing {
    /// Whether its rows are those of its files, each folded or not.
    pub open spec fn wf(self) -> bool {
        &&& self.collapsed@.len() == self.groups@.len()
        &&& self.rows@ == rows_of(
            group_views(self.groups@),
            self.collapsed@,
            self.groups@.len() as int,
        )
    }

    /// Nothing listed.
    pub fn new() -> (listing: Self)
        ensures
            listing.wf(),
            listing.groups@.len() == 0,
            listing.summary@.len() == 0,
            listing.widest == 0,
            listing.scroll == 0,
            listing.selected is None,
            listing.generation == 0,
    {
        Listing {
            groups: Vec::new(),
            collapsed: Vec::new(),
            rows: Vec::new(),
            summary: String::new(),
            widest: 0,
            scroll: 0,
            selected: None,
            generation: 0,
        }
    }

    fn relist(&mut self)
        requires
            old(self).collapsed@.len() == old(self).groups@.len(),
        ensures
            final(self).wf(),
            *final(self) == (Listing { rows: final(self).rows, ..*old(self) }),
    {
        let ghost groups = group_views(self.groups@);
        let mut rows: Vec<Line> = Vec::new();
        let mut at: usize = 0;
        while at < self.groups.len()
            invariant
                at <= self.groups@.len(),
                *self == *old(self),
                groups == group_views(self.groups@),
                self.collapsed@.len() == self.groups@.len(),
                rows@ =~= rows_of(groups, self.collapsed@, at as int),
            decreases self.groups@.len() - at,
        {
            let ghost above = rows@;
            rows.push(Line::File(at));
            let ghost with_file = rows@;
            assert(groups[at as int].hits.len() == self.groups@[at as int].hits@.len());
            if !self.collapsed[at] {
                let count: usize = self.groups[at].hits.len();
                let mut hit: usize = 0;
                while hit < count
                    invariant
                        hit <= count,
                        rows@ =~= with_file + hit_lines(at as int, hit as nat),
                    decreases count - hit,
                {
                    rows.push(Line::Hit(at, hit));
                    hit = hit + 1;
                }
            }
            at = at + 1;
        }
        self.rows = rows;
    }

    /// The panel as it is once it lists `sorted`.
    pub open spec fn lists(self, sorted: Seq<Named>, word: Seq<char>) -> bool {
        let groups = groups_of(sorted);
        &&& group_views(self.groups@) == groups
        &&& forall|i: int| 0 <= i < self.collapsed@.len() ==> !(#[trigger] self.collapsed@[i])
        &&& self.summary@ == summary_of(sorted.len(), word, groups.len())
        &&& self.widest == widest_of(sorted, sorted.len() as int)
        &&& self.scroll == 0
        &&& self.selected is None
    }

    /// The panel after, once it lists `places`, the references to `word`: in
    /// order, each file once.
    pub open spec fn relisted(self, after: Listing, places: Seq<Named>, word: Seq<char>) -> bool {
        &&& after.generation == self.generation + 1
        &&& exists|sorted: Seq<Named>| #[trigger]
            in_order(sorted, places) && by_path(sorted) && after.lists(sorted, word)
        &&& each_file_once(group_views(after.groups@))
    }

    /// A server listed the references to `word`: in the panel, where `sidebar`
    /// is whether there is one, or in the palette.
    pub fn references_found(&mut self, places: &Vec<Named>, word: &str, sidebar: bool) -> (found:
        Found)
        requires
            old(self).wf(),
            old(self).generation < u64::MAX,
            !sidebar ==> forall|i: int|
                0 <= i < places@.len() ==> (#[trigger] places@[i]).place.start.line < u32::MAX,
        ensures
            final(self).wf(),
            if places@.len() == 0 {
                &&& found matches Found::Say(said) && said@ == "No references to "@ + word@
                    + " found."@
                &&& *final(self) == *old(self)
            } else if !sidebar {
                &&& found matches Found::Offer(title, rows) && is_offer(
                    places@,
                    word@,
                    title@,
                    row_views(rows@),
                )
                &&& *final(self) == *old(self)
            } else {
                found is Listed && old(self).relisted(*final(self), places@, word@)
            },
    {
        if places.len() == 0 {
            return Found::Say(join3("No references to ", word, " found."));
        }
        let sorted = sorted(places);
        proof {
            sorted_are_places(sorted@, places@);
            files_are_in_order(sorted@);
        }
        if !sidebar {
            let rows = place_rows(&sorted, Open::Here);
            let title = join3(decimal(sorted.len()).as_str(), " references to ", word);
            return Found::Offer(title, rows);
        }
        let groups = grouped(&sorted);
        let mut collapsed: Vec<bool> = Vec::new();
        let mut i: usize = 0;
        while i < groups.len()
            invariant
                i <= groups@.len(),
                collapsed@.len() == i,
                forall|k: int| 0 <= k < i ==> !(#[trigger] collapsed@[k]),
            decreases groups@.len() - i,
        {
            collapsed.push(false);
            i = i + 1;
        }
        let mut widest: u32 = 1;
        let mut i: usize = 0;
        while i < sorted.len()
            invariant
                i <= sorted@.len(),
                widest == widest_of(sorted@, i as int),
            decreases sorted@.len() - i,
        {
            let number: u32 = sorted[i].place.start.line.saturating_add(1);
            if number > widest {
                widest = number;
            }
            i = i + 1;
        }
        let summary = summary(sorted.len(), word, groups.len());
        self.groups = groups;
        self.collapsed = collapsed;
        self.summary = summary;
        self.widest = widest;
        self.scroll = 0;
        self.selected = None;
        self.generation = self.generation + 1;
        self.relist();
        assert(self.lists(sorted@, word@));
        Found::Listed
    }

    /// The files whose lines are to be read, `open` being which files have
    /// theirs already: each, and the numbers of the lines wanted of it.
    pub fn wanted(&self, open: &Vec<bool>) -> (wanted: Vec<(String, Vec<u32>)>)
        requires
            open@.len() == self.groups@.len(),
        ensures
            wanted_views(wanted@) == wanted_of(
                group_views(self.groups@),
                open@,
                self.groups@.len() as int,
            ),
    {
        let ghost groups = group_views(self.groups@);
        let mut wanted: Vec<(String, Vec<u32>)> = Vec::new();
        let mut i: usize = 0;
        while i < self.groups.len()
            invariant
                i <= self.groups@.len() == open@.len(),
                groups == group_views(self.groups@),
                wanted_views(wanted@) =~= wanted_of(groups, open@, i as int),
            decreases self.groups@.len() - i,
        {
            if !open[i] {
                let group = &self.groups[i];
                let mut lines: Vec<u32> = Vec::new();
                let mut k: usize = 0;
                while k < group.hits.len()
                    invariant
                        k <= group.hits@.len(),
                        lines@ =~= lines_of(hit_views(group.hits@)).take(k as int),
                    decreases group.hits@.len() - k,
                {
                    lines.push(group.hits[k].place.start.line);
                    k = k + 1;
                }
                assert(lines@ =~= lines_of(groups[i as int].hits));
                let ghost before = wanted@;
                let entry = (group.path.clone(), lines);
                wanted.push(entry);
                assert(wanted_views(wanted@) =~= wanted_views(before).push((entry.0@, entry.1@)));
            }
            i = i + 1;
        }
        wanted
    }

    /// Lines of the file `at`, which is open, are put into its references.
    pub fn fill_group(&mut self, at: usize, lines: &Vec<(u32, String)>, ellipsis: &str)
        requires
            old(self).wf(),
            at < old(self).groups@.len(),
        ensures
            final(self).wf(),
            *final(self) == (Listing { groups: final(self).groups, ..*old(self) }),
            group_views(final(self).groups@) == with_lines(
                group_views(old(self).groups@),
                at as int,
                lines@,
                ellipsis@,
            ),
    {
        let ghost before = group_views(self.groups@);
        let mut group = Group { path: String::new(), label: String::new(), hits: Vec::new() };
        std::mem::swap(&mut group.hits, &mut self.groups[at].hits);
        group.path = self.groups[at].path.clone();
        group.label = self.groups[at].label.clone();
        fill_lines(&mut group.hits, lines, ellipsis);
        self.groups.set(at, group);
        proof {
            let after = group_views(self.groups@);
            assert(after =~= with_lines(before, at as int, lines@, ellipsis@));
            same_rows(before, after, self.collapsed@, self.groups@.len() as int);
        }
    }

    /// Lines read for the panel came back, for listing `generation`. Those read
    /// for an older one are dropped.
    pub fn reference_lines(
        &mut self,
        generation: u64,
        lines: &Vec<(String, Vec<(u32, String)>)>,
        ellipsis: &str,
    ) -> (outcome: Outcome)
        requires
            old(self).wf(),
        ensures
            final(self).wf(),
            if generation != old(self).generation {
                outcome == Outcome::Continue && *final(self) == *old(self)
            } else {
                &&& outcome == Outcome::Redraw
                &&& *final(self) == (Listing { groups: final(self).groups, ..*old(self) })
                &&& group_views(final(self).groups@) == all_lines(
                    group_views(old(self).groups@),
                    lines@,
                    ellipsis@,
                    lines@.len() as int,
                )
            },
    {
        if generation != self.generation {
            return Outcome::Continue;
        }
        let ghost before = group_views(self.groups@);
        let mut i: usize = 0;
        while i < lines.len()
            invariant
                i <= lines@.len(),
                self.wf(),
                *self == (Listing { groups: self.groups, ..*old(self) }),
                group_views(self.groups@) == all_lines(before, lines@, ellipsis@, i as int),
            decreases lines@.len() - i,
        {
            if let Some(at) = self.group_of(&lines[i].0) {
                self.fill_group(at, &lines[i].1, ellipsis);
            }
            i = i + 1;
        }
        Outcome::Redraw
    }

    fn group_of(&self, path: &String) -> (at: Option<usize>)
        ensures
            match at {
                Some(at) => at < self.groups@.len() && group_at(
                    group_views(self.groups@),
                    path@,
                    0,
                ) == Some(at as int),
                None => group_at(group_views(self.groups@), path@, 0) is None,
            },
    {
        let ghost groups = group_views(self.groups@);
        let mut i: usize = 0;
        while i < self.groups.len()
            invariant
                i <= self.groups@.len(),
                groups == group_views(self.groups@),
                group_at(groups, path@, 0) == group_at(groups, path@, i as int),
            decreases self.groups@.len() - i,
        {
            assert(groups[i as int] == self.groups@[i as int]@);
            if self.groups[i].path == *path {
                return Some(i);
            }
            i = i + 1;
        }
        None
    }

    /// Act on one row, `visible` rows being in view: a file folds, a reference
    /// is gone to.
    pub fn pick_reference(&mut self, row: usize, visible: usize) -> (acted: Acted)
        requires
            old(self).wf(),
        ensures
            final(self).wf(),
            if row >= old(self).rows@.len() {
                acted is Nothing && *final(self) == *old(self)
            } else {
                match old(self).rows@[row as int] {
                    Line::File(group) => {
                        let last = final(self).rows@.len() - 1;
                        let selected = if row <= last {
                            row as int
                        } else {
                            last
                        };
                        &&& acted is Folded
                        &&& group < old(self).groups@.len()
                        &&& final(self).collapsed@ == old(self).collapsed@.update(
                            group as int,
                            !old(self).collapsed@[group as int],
                        )
                        &&& final(self).selected == Some(selected as usize)
                        &&& final(self).scroll == kept_in_view(
                            selected,
                            old(self).scroll as int,
                            visible as int,
                        )
                        &&& *final(self) == (Listing {
                            collapsed: final(self).collapsed,
                            rows: final(self).rows,
                            selected: final(self).selected,
                            scroll: final(self).scroll,
                            ..*old(self)
                        })
                    },
                    Line::Hit(group, hit) => {
                        &&& group < old(self).groups@.len()
                        &&& hit < old(self).groups@[group as int].hits@.len()
                        &&& acted == Acted::Go(
                            old(self).groups@[group as int].hits@[hit as int].place,
                        )
                        &&& *final(self) == (Listing { selected: Some(row), ..*old(self) })
                    },
                }
            },
    {
        if row >= self.rows.len() {
            return Acted::Nothing;
        }
        proof {
            let groups = group_views(self.groups@);
            assert(self.groups.len() == groups.len());
            assert forall|i: int| 0 <= i < groups.len() implies (#[trigger] groups[i]).hits.len()
                <= usize::MAX by {
                assert(self.groups@[i].hits.len() == groups[i].hits.len());
            }
            rows_are_of_files(
                group_views(self.groups@),
                self.collapsed@,
                self.groups@.len() as int,
                row as int,
            );
        }
        match self.rows[row] {
            Line::File(group) => {
                let folded = self.collapsed[group];
                self.collapsed.set(group, !folded);
                self.relist();
                proof {
                    rows_of_each(
                        group_views(self.groups@),
                        self.collapsed@,
                        self.groups@.len() as int,
                    );
                }
                let last: usize = self.rows.len() - 1;
                let selected: usize = if row <= last {
                    row
                } else {
                    last
                };
                self.selected = Some(selected);
                self.scroll = keep_in_view(selected, self.scroll, visible);
                Acted::Folded
            },
            Line::Hit(group, hit) => {
                self.selected = Some(row);
                Acted::Go(self.groups[group].hits[hit].place.clone())
            },
        }
    }

    /// The row the next reference in the list is on, or the one before, coming
    /// round at the ends. `None` where nothing is listed.
    pub open spec fn step_row(self, forward: bool) -> Option<usize> {
        let hits = reference_rows(self.rows@, self.rows@.len() as int);
        if hits.len() == 0 {
            None
        } else {
            let now = match self.selected {
                Some(row) => place_among(hits, row, 0),
                None => None,
            };
            Some(hits[step_of(now, hits.len() as int, forward)])
        }
    }

    /// The row the next reference in the list is on, or the one before, coming
    /// round at the ends. `None` where nothing is listed.
    pub fn next_row(&self, forward: bool) -> (row: Option<usize>)
        ensures
            row == self.step_row(forward),
    {
        let mut hits: Vec<usize> = Vec::new();
        let mut i: usize = 0;
        while i < self.rows.len()
            invariant
                i <= self.rows@.len(),
                hits@ =~= reference_rows(self.rows@, i as int),
            decreases self.rows@.len() - i,
        {
            if matches!(self.rows[i], Line::Hit(..)) {
                hits.push(i);
            }
            i = i + 1;
        }
        if hits.len() == 0 {
            return None;
        }
        let count: usize = hits.len();
        let mut now: Option<usize> = None;
        if let Some(row) = self.selected {
            let mut k: usize = 0;
            while k < count && now.is_none()
                invariant
                    k <= count == hits@.len(),
                    now is None ==> place_among(hits@, row, 0) == place_among(
                        hits@,
                        row,
                        k as int,
                    ),
                    now matches Some(at) ==> at < count && place_among(hits@, row, 0) == Some(
                        at as int,
                    ),
                decreases count - k,
            {
                if hits[k] == row {
                    now = Some(k);
                }
                k = k + 1;
            }
        }
        let at: usize = match now {
            Some(now) => if forward {
                if now + 1 < count {
                    now + 1
                } else {
                    0
                }
            } else if now > 0 {
                now - 1
            } else {
                count - 1
            },
            None => if forward {
                0
            } else {
                count - 1
            },
        };
        Some(hits[at])
    }

    /// Keep the selected row in view, `visible` rows being in view.
    pub fn follow_reference(&mut self, visible: usize)
        requires
            old(self).wf(),
        ensures
            final(self).wf(),
            *final(self) == (Listing {
                scroll: match old(self).selected {
                    Some(row) => kept_in_view(
                        row as int,
                        old(self).scroll as int,
                        visible as int,
                    ) as usize,
                    None => old(self).scroll,
                },
                ..*old(self)
            }),
    {
        if let Some(row) = self.selected {
            self.scroll = keep_in_view(row, self.scroll, visible);
        }
    }

    /// Go to the next reference in the list, or the one before, `visible` rows
    /// being in view. `None` where nothing is listed.
    pub fn step_reference(&mut self, forward: bool, visible: usize) -> (place: Option<Place>)
        requires
            old(self).wf(),
        ensures
            final(self).wf(),
            match old(self).step_row(forward) {
                None => place is None && *final(self) == *old(self),
                Some(row) => {
                    &&& row < old(self).rows@.len()
                    &&& old(self).rows@[row as int] matches Line::Hit(group, hit) && place == Some(
                        old(self).groups@[group as int].hits@[hit as int].place,
                    )
                    &&& *final(self) == (Listing {
                        selected: Some(row),
                        scroll: kept_in_view(
                            row as int,
                            old(self).scroll as int,
                            visible as int,
                        ) as usize,
                        ..*old(self)
                    })
                },
            },
    {
        let Some(row) = self.next_row(forward) else {
            return None;
        };
        proof {
            assert(self.rows.len() == self.rows@.len());
            stepping_lands_on_a_reference(*self, forward);
        }
        match self.pick_reference(row, visible) {
            Acted::Go(place) => {
                self.follow_reference(visible);
                Some(place)
            },
            _ => None,
        }
    }

    /// The wheel over the panel, `visible` rows of it in view.
    pub fn references_scroll(&mut self, down: bool, visible: usize) -> (outcome: Outcome)
        requires
            old(self).wf(),
        ensures
            final(self).wf(),
            outcome == Outcome::Redraw,
            *final(self) == (Listing {
                scroll: wheeled(
                    old(self).scroll as int,
                    down,
                    3,
                    old(self).rows@.len() as int,
                    visible as int,
                ) as usize,
                ..*old(self)
            }),
    {
        self.scroll = wheel(self.scroll, down, 3, self.rows.len(), visible);
        Outcome::Redraw
    }

    /// The rows from `from` up to `to`, as many as there are, as the panel draws
    /// them.
    pub fn view_rows(&self, from: usize, to: usize) -> (rows: Vec<ViewRow>)
        requires
            self.wf(),
        ensures
            drawn_views(rows@) == drawn_rows(
                group_views(self.groups@),
                self.collapsed@,
                self.rows@,
                from as int,
                to as int,
            ),
    {
        let mut rows: Vec<ViewRow> = Vec::new();
        let end: usize = if to < self.rows.len() {
            to
        } else {
            self.rows.len()
        };
        let first: usize = if from < end {
            from
        } else {
            end
        };
        let ghost groups = group_views(self.groups@);
        let ghost all = drawn_rows(groups, self.collapsed@, self.rows@, from as int, to as int);
        let mut i: usize = first;
        assert(drawn_views(rows@) =~= all.take(0));
        while i < end
            invariant
                self.wf(),
                first <= i <= end <= self.rows@.len(),
                end == if to < self.rows@.len() {
                    to as int
                } else {
                    self.rows@.len() as int
                },
                first == if from < end {
                    from
                } else {
                    end
                },
                groups == group_views(self.groups@),
                all == drawn_rows(groups, self.collapsed@, self.rows@, from as int, to as int),
                drawn_views(rows@) == all.take(i - first),
            decreases end - i,
        {
            proof {
                assert(self.groups.len() == self.groups@.len());
                assert forall|k: int| 0 <= k < groups.len() implies (#[trigger] groups[k]).hits.len()
                    <= usize::MAX by {
                    assert(self.groups@[k].hits.len() == self.groups@[k].hits@.len());
                }
                rows_are_of_files(groups, self.collapsed@, self.groups@.len() as int, i as int);
            }
            let ghost before = rows@;
            let row = match self.rows[i] {
                Line::File(at) => ViewRow::File {
                    path: self.groups[at].label.clone(),
                    hits: self.groups[at].hits.len(),
                    collapsed: self.collapsed[at],
                },
                Line::Hit(at, hit) => {
                    assert(groups[at as int].hits.len() == self.groups@[at as int].hits@.len());
                    ViewRow::Hit {
                        line: self.groups[at].hits[hit].place.start.line.saturating_add(1),
                        text: self.groups[at].hits[hit].text.clone(),
                        matched: self.groups[at].hits[hit].matched,
                    }
                },
            };
            proof {
                assert(groups[match self.rows@[i as int] {
                    Line::File(at) => at as int,
                    Line::Hit(at, _) => at as int,
                }] == self.groups@[match self.rows@[i as int] {
                    Line::File(at) => at as int,
                    Line::Hit(at, _) => at as int,
                }]@);
                assert(row@ == all[i - first]);
            }
            rows.push(row);
            assert(drawn_views(rows@) =~= drawn_views(before).push(row@));
            assert(all.take(i + 1 - first) =~= all.take(i - first).push(all[i - first]));
            i = i + 1;
        }
        assert(all.take(all.len() as int) =~= all);
        rows
    }

    /// What the panel puts on screen in `area`: itself, its back button where
    /// there is one, and its rows, which go in `rows`.
    pub fn layout_references(&self, area: Rect, back: Option<Rect>, rows: Rect) -> (areas: Vec<Area>)
        requires
            rows.on_screen(),
        ensures
            areas@ == panel_areas(area, back) + row_areas(
                rows,
                self.scroll as int,
                crate::palette::rows_in_view(
                    self.rows@.len(),
                    self.scroll as nat,
                    rows.height as nat,
                ),
            ),
    {
        let mut areas: Vec<Area> = Vec::new();
        areas.push(Area { area, target: Target::ReferencesEmpty, hover: false });
        if let Some(cell) = back {
            areas.push(Area { area: cell, target: Target::ReferencesBack, hover: true });
        }
        let ghost top = areas@;
        assert(top =~= panel_areas(area, back));
        let scroll: usize = self.scroll;
        let ghost count = crate::palette::rows_in_view(
            self.rows@.len(),
            scroll as nat,
            rows.height as nat,
        );
        let mut offset: u16 = 0;
        while offset < rows.height && scroll < self.rows.len() && (offset as usize)
            < self.rows.len() - scroll
            invariant
                offset <= count,
                rows.on_screen(),
                count == crate::palette::rows_in_view(
                    self.rows@.len(),
                    scroll as nat,
                    rows.height as nat,
                ),
                areas@ =~= top + row_areas(rows, scroll as int, offset as nat),
            decreases rows.height - offset,
        {
            areas.push(
                Area {
                    area: Rect { x: rows.x, y: rows.y + offset, width: rows.width, height: 1 },
                    target: Target::ReferencesRow(scroll + offset as usize),
                    hover: true,
                },
            );
            offset = offset + 1;
        }
        areas
    }
}

/// What is under the panel's rows on screen.
pub open spec fn panel_areas(area: Rect, back: Option<Rect>) -> Seq<Area> {
    let panel = seq![Area { area, target: Target::ReferencesEmpty, hover: false }];
    match back {
        Some(cell) => panel.push(
            Area { area: cell, target: Target::ReferencesBack, hover: true },
        ),
        None => panel,
    }
}

/// The panel's rows on screen.
pub open spec fn row_areas(rows: Rect, scroll: int, count: nat) -> Seq<Area> {
    Seq::new(
        count,
        |i: int|
            Area {
                area: Rect { y: (rows.y + i) as u16, height: 1, ..rows },
                target: Target::ReferencesRow((scroll + i) as usize),
                hover: true,
            },
    )
}

/// The lines references start on.
pub open spec fn lines_of(hits: Seq<HitModel>) -> Seq<u32> {
    Seq::new(hits.len(), |i: int| hits[i].place.start.line)
}

/// What is to be read of those of the first `count` files that are not open.
pub open spec fn wanted_of(groups: Seq<GroupModel>, open: Seq<bool>, count: int) -> Seq<
    (Seq<char>, Seq<u32>),
>
    decreases count,
{
    if count <= 0 {
        Seq::empty()
    } else if open[count - 1] {
        wanted_of(groups, open, count - 1)
    } else {
        wanted_of(groups, open, count - 1).push(
            (groups[count - 1].path, lines_of(groups[count - 1].hits)),
        )
    }
}

/// What is to be read, as values.
pub open spec fn wanted_views(wanted: Seq<(String, Vec<u32>)>) -> Seq<(Seq<char>, Seq<u32>)> {
    Seq::new(wanted.len(), |i: int| (wanted[i].0@, wanted[i].1@))
}

/// The first of `groups`, from the `from`th on, that is `path`'s.
pub open spec fn group_at(groups: Seq<GroupModel>, path: Seq<char>, from: int) -> Option<int>
    decreases groups.len() - from,
{
    if from < 0 || from >= groups.len() {
        None
    } else if groups[from].path == path {
        Some(from)
    } else {
        group_at(groups, path, from + 1)
    }
}

/// Files' references once the lines of the one at `at` have been read.
pub open spec fn with_lines(
    groups: Seq<GroupModel>,
    at: int,
    lines: Seq<(u32, String)>,
    ellipsis: Seq<char>,
) -> Seq<GroupModel> {
    groups.update(
        at,
        GroupModel { hits: all_filled(groups[at].hits, lines, ellipsis), ..groups[at] },
    )
}

/// Files' references once the first `count` of what was read has been put in.
pub open spec fn all_lines(
    groups: Seq<GroupModel>,
    read: Seq<(String, Vec<(u32, String)>)>,
    ellipsis: Seq<char>,
    count: int,
) -> Seq<GroupModel>
    decreases count,
{
    if count <= 0 {
        groups
    } else {
        let before = all_lines(groups, read, ellipsis, count - 1);
        match group_at(before, read[count - 1].0@, 0) {
            Some(at) => with_lines(before, at, read[count - 1].1@, ellipsis),
            None => before,
        }
    }
}

/// Reading lines changes no rows.
proof fn same_rows(a: Seq<GroupModel>, b: Seq<GroupModel>, collapsed: Seq<bool>, count: int)
    requires
        0 <= count <= a.len() == b.len(),
        forall|i: int| 0 <= i < a.len() ==> (#[trigger] a[i]).hits.len() == b[i].hits.len(),
    ensures
        rows_of(a, collapsed, count) == rows_of(b, collapsed, count),
    decreases count,
{
    if count > 0 {
        same_rows(a, b, collapsed, count - 1);
        assert(a[count - 1].hits.len() == b[count - 1].hits.len());
    }
}

/// There is a row for every file at least.
proof fn rows_of_each(groups: Seq<GroupModel>, collapsed: Seq<bool>, count: int)
    requires
        0 <= count <= groups.len(),
    ensures
        rows_of(groups, collapsed, count).len() >= count,
    decreases count,
{
    if count > 0 {
        rows_of_each(groups, collapsed, count - 1);
    }
}

/// Rows that are references are.
proof fn reference_rows_are(rows: Seq<Line>, count: int)
    requires
        0 <= count <= rows.len() <= usize::MAX,
    ensures
        forall|i: int|
            0 <= i < reference_rows(rows, count).len() ==> {
                let row = #[trigger] reference_rows(rows, count)[i];
                row < count && rows[row as int] is Hit
            },
    decreases count,
{
    if count > 0 {
        reference_rows_are(rows, count - 1);
        assert forall|i: int| 0 <= i < reference_rows(rows, count).len() implies {
            let row = #[trigger] reference_rows(rows, count)[i];
            row < count && rows[row as int] is Hit
        } by {
            let before = reference_rows(rows, count - 1);
            if i < before.len() {
                assert(reference_rows(rows, count)[i] == before[i]);
            }
        }
    }
}

proof fn place_among_is(hits: Seq<usize>, row: usize, from: int)
    requires
        0 <= from,
    ensures
        place_among(hits, row, from) matches Some(at) ==> from <= at < hits.len() && hits[at]
            == row,
    decreases hits.len() - from,
{
    if from < hits.len() && hits[from] != row {
        place_among_is(hits, row, from + 1);
    }
}

/// Stepping lands on a reference, whichever way.
pub proof fn stepping_lands_on_a_reference(listing: Listing, forward: bool)
    requires
        listing.wf(),
        listing.rows@.len() <= usize::MAX,
    ensures
        listing.step_row(forward) matches Some(row) ==> row < listing.rows@.len()
            && listing.rows@[row as int] is Hit,
{
    let hits = reference_rows(listing.rows@, listing.rows@.len() as int);
    reference_rows_are(listing.rows@, listing.rows@.len() as int);
    if hits.len() > 0 {
        let now = match listing.selected {
            Some(row) => place_among(hits, row, 0),
            None => None,
        };
        if listing.selected is Some {
            place_among_is(hits, listing.selected->0, 0);
        }
        let at = step_of(now, hits.len() as int, forward);
        assert(0 <= at < hits.len());
        assert(hits[at] < listing.rows@.len());
    }
}

/// Stepping back undoes stepping on, and the other way about, coming round at
/// the ends.
pub proof fn stepping_back_undoes_stepping_on(now: int, count: int, forward: bool)
    requires
        0 <= now < count,
    ensures
        step_of(Some(step_of(Some(now), count, forward)), count, !forward) == now,
        0 <= step_of(Some(now), count, forward) < count,
{
}

/// Whether no place comes before one listed ahead of it.
pub open spec fn none_out_of_order(places: Seq<Named>) -> bool {
    forall|i: int, j: int|
        0 <= i < j < places.len() ==> !place_before(
            (#[trigger] places[j]).place,
            (#[trigger] places[i]).place,
        )
}

/// What is listed was named, and is in order.
proof fn sorted_are_places(sorted: Seq<Named>, places: Seq<Named>)
    requires
        in_order(sorted, places),
    ensures
        forall|i: int| 0 <= i < sorted.len() ==> places.contains(#[trigger] sorted[i]),
        none_out_of_order(sorted),
{
    let order = choose|order: Seq<usize>| #[trigger]
        orders(order, places) && sorted == once_each(picked(places, order));
    let all = picked(places, order);
    picked_in_order(order, places);
    once_each_are(all);
    assert forall|i: int| 0 <= i < sorted.len() implies places.contains(#[trigger] sorted[i]) by {
        let k = choose|k: int| 0 <= k < all.len() && all[k] == sorted[i];
        assert(order[k] < places.len());
        assert(places[order[k] as int] == sorted[i]);
    }
}

proof fn picked_in_order(order: Seq<usize>, places: Seq<Named>)
    requires
        orders(order, places),
    ensures
        none_out_of_order(picked(places, order)),
{
    let all = picked(places, order);
    assert forall|i: int, j: int| 0 <= i < j < all.len() implies !place_before(
        (#[trigger] all[j]).place,
        (#[trigger] all[i]).place,
    ) by {
        assert(ahead(places, order[i], order[j]));
        assert(order[i] < places.len() && order[j] < places.len());
        places_are_in_one_order(all[i].place, all[j].place, all[i].place);
    }
}

proof fn once_each_are(all: Seq<Named>)
    requires
        none_out_of_order(all),
    ensures
        forall|i: int| 0 <= i < once_each(all).len() ==> all.contains(#[trigger] once_each(all)[i]),
        none_out_of_order(once_each(all)),
    decreases all.len(),
{
    if all.len() > 1 {
        let rest = all.drop_last();
        let once = once_each(all);
        let before = once_each(rest);
        assert forall|i: int, j: int| 0 <= i < j < rest.len() implies !place_before(
            (#[trigger] rest[j]).place,
            (#[trigger] rest[i]).place,
        ) by {
            assert(!place_before(all[j].place, all[i].place));
        }
        once_each_are(rest);
        assert forall|i: int| 0 <= i < once.len() implies all.contains(#[trigger] once[i]) by {
            if i < before.len() {
                assert(rest.contains(before[i]));
                let k = choose|k: int| 0 <= k < rest.len() && rest[k] == before[i];
                assert(all[k] == once[i]);
            } else {
                assert(all[all.len() - 1] == once[i]);
            }
        }
        assert forall|i: int, j: int| 0 <= i < j < once.len() implies !place_before(
            (#[trigger] once[j]).place,
            (#[trigger] once[i]).place,
        ) by {
            assert(once[i] == before[i]);
            if j < before.len() {
                assert(once[j] == before[j]);
            } else {
                assert(rest.contains(before[i]));
                let k = choose|k: int| 0 <= k < rest.len() && rest[k] == before[i];
                assert(!place_before(all[all.len() - 1].place, all[k].place));
            }
        }
    }
}

/// Places in order are in the order of their paths; and put together by file,
/// each file is there once.
proof fn files_are_in_order(sorted: Seq<Named>)
    requires
        none_out_of_order(sorted),
    ensures
        by_path(sorted),
        each_file_once(groups_of(sorted)),
        sorted.len() > 0 ==> groups_of(sorted).len() > 0 && groups_of(sorted).last().path
            == sorted.last().place.path@,
        forall|i: int|
            0 <= i < groups_of(sorted).len() ==> names_file(
                sorted,
                (#[trigger] groups_of(sorted)[i]).path,
            ),
    decreases sorted.len(),
{
    assert forall|i: int, j: int| 0 <= i < j < sorted.len() implies (
    #[trigger] sorted[i]).place.path@ == (#[trigger] sorted[j]).place.path@ || path_before(
        sorted[i].place.path@,
        sorted[j].place.path@,
    ) by {
        assert(!place_before(sorted[j].place, sorted[i].place));
        one_path_comes_first(sorted[i].place.path@, sorted[j].place.path@);
    }
    if sorted.len() > 0 {
        let rest = sorted.drop_last();
        let last = sorted[sorted.len() - 1];
        assert forall|i: int, j: int| 0 <= i < j < rest.len() implies !place_before(
            (#[trigger] rest[j]).place,
            (#[trigger] rest[i]).place,
        ) by {
            assert(!place_before(sorted[j].place, sorted[i].place));
        }
        files_are_in_order(rest);
        let before = groups_of(rest);
        let groups = groups_of(sorted);
        assert forall|i: int| 0 <= i < groups.len() implies names_file(
            sorted,
            (#[trigger] groups[i]).path,
        ) by {
            if i < before.len() {
                assert(groups[i].path == before[i].path);
                assert(names_file(rest, before[i].path));
                let k = choose|k: int|
                    0 <= k < rest.len() && (#[trigger] rest[k]).place.path@ == before[i].path;
                assert(sorted[k].place.path@ == groups[i].path);
            } else {
                assert(last.place.path@ == groups[i].path);
            }
        }
        assert forall|i: int, j: int| 0 <= i < j < groups.len() implies path_before(
            (#[trigger] groups[i]).path,
            (#[trigger] groups[j]).path,
        ) by {
            assert(groups[i].path == before[i].path);
            if j < before.len() {
                assert(groups[j].path == before[j].path);
            } else {
                let there = sorted[sorted.len() - 2];
                assert(rest.last() == there);
                assert(names_file(rest, before[i].path));
                let k = choose|k: int|
                    0 <= k < rest.len() && (#[trigger] rest[k]).place.path@ == before[i].path;
                assert(sorted[k] == rest[k]);
                assert(path_before(there.place.path@, last.place.path@));
                if k < sorted.len() - 2 && sorted[k].place.path@ != there.place.path@ {
                    assert(path_before(sorted[k].place.path@, there.place.path@));
                    paths_are_in_one_order(
                        sorted[k].place.path@,
                        there.place.path@,
                        last.place.path@,
                    );
                }
            }
        }
    }
}

/// Whether places that start at one place of one file are the same place.
pub open spec fn told_apart(places: Seq<Named>) -> bool {
    forall|i: int, j: int|
        0 <= i < places.len() && 0 <= j < places.len() && (#[trigger] places[i]).place.path@ == (
        #[trigger] places[j]).place.path@ && places[i].place.start == places[j].place.start
            ==> same_place(places[i].place, places[j].place)
}

/// Whether `place` is one of those listed.
pub open spec fn has_place(listed: Seq<Named>, place: Place) -> bool {
    exists|i: int| 0 <= i < listed.len() && same_place((#[trigger] listed[i]).place, place)
}

/// Whether each of `listed` comes before those after it.
pub open spec fn strictly_in_order(listed: Seq<Named>) -> bool {
    forall|i: int, j: int|
        0 <= i < j < listed.len() ==> place_before(
            (#[trigger] listed[i]).place,
            (#[trigger] listed[j]).place,
        )
}

proof fn once_each_is_strict(all: Seq<Named>)
    requires
        none_out_of_order(all),
        told_apart(all),
    ensures
        strictly_in_order(once_each(all)),
        all.len() > 0 ==> once_each(all).len() > 0 && same_place(
            once_each(all).last().place,
            all.last().place,
        ),
        forall|k: int| 0 <= k < all.len() ==> has_place(once_each(all), (#[trigger] all[k]).place),
    decreases all.len(),
{
    let once = once_each(all);
    if all.len() == 1 {
        assert(same_place(once[0].place, all[0].place));
    } else if all.len() > 1 {
        let rest = all.drop_last();
        let last = all[all.len() - 1];
        let there = all[all.len() - 2];
        let before = once_each(rest);
        assert(none_out_of_order(rest)) by {
            assert forall|i: int, j: int| 0 <= i < j < rest.len() implies !place_before(
                (#[trigger] rest[j]).place,
                (#[trigger] rest[i]).place,
            ) by {
                assert(!place_before(all[j].place, all[i].place));
            }
        }
        assert(told_apart(rest)) by {
            assert forall|i: int, j: int|
                0 <= i < rest.len() && 0 <= j < rest.len() && (#[trigger] rest[i]).place.path@ == (
                #[trigger] rest[j]).place.path@ && rest[i].place.start
                    == rest[j].place.start implies same_place(rest[i].place, rest[j].place) by {
                assert(all[i] == rest[i] && all[j] == rest[j]);
            }
        }
        once_each_is_strict(rest);
        assert(rest.last() == there);
        assert(!place_before(last.place, there.place));
        let latest = before[before.len() - 1];
        assert(same_place(latest.place, there.place));
        if !same_place(last.place, there.place) {
            places_are_in_one_order(there.place, last.place, there.place);
            assert(place_before(there.place, last.place));
            assert forall|i: int, j: int| 0 <= i < j < once.len() implies place_before(
                (#[trigger] once[i]).place,
                (#[trigger] once[j]).place,
            ) by {
                assert(once[i] == before[i]);
                if j < before.len() {
                    assert(once[j] == before[j]);
                } else if i < before.len() - 1 {
                    places_are_in_one_order(before[i].place, latest.place, last.place);
                }
            }
        }
        assert forall|k: int| 0 <= k < all.len() implies has_place(
            once,
            (#[trigger] all[k]).place,
        ) by {
            if k < rest.len() {
                assert(rest[k] == all[k]);
                assert(has_place(before, rest[k].place));
                let i = choose|i: int|
                    0 <= i < before.len() && same_place((#[trigger] before[i]).place, rest[k].place);
                assert(once[i] == before[i]);
            } else if same_place(last.place, there.place) {
                assert(once[before.len() - 1] == latest);
            } else {
                assert(once[before.len() as int] == last);
            }
        }
    }
}

/// Every reference a server named is listed once, and nothing else is, in the
/// order of files, then lines, then how far into them they are; as long as no two
/// start at one place and end apart.
pub proof fn every_reference_is_listed_once_in_order(sorted: Seq<Named>, places: Seq<Named>)
    requires
        in_order(sorted, places),
        told_apart(places),
        places.len() <= usize::MAX,
    ensures
        strictly_in_order(sorted),
        forall|i: int| 0 <= i < sorted.len() ==> places.contains(#[trigger] sorted[i]),
        forall|k: int| 0 <= k < places.len() ==> has_place(sorted, (#[trigger] places[k]).place),
{
    sorted_are_places(sorted, places);
    let order = choose|order: Seq<usize>| #[trigger]
        orders(order, places) && sorted == once_each(picked(places, order));
    let all = picked(places, order);
    picked_in_order(order, places);
    assert(told_apart(all)) by {
        assert forall|i: int, j: int|
            0 <= i < all.len() && 0 <= j < all.len() && (#[trigger] all[i]).place.path@ == (
            #[trigger] all[j]).place.path@ && all[i].place.start
                == all[j].place.start implies same_place(all[i].place, all[j].place) by {
            assert(order[i] < places.len() && order[j] < places.len());
            assert(places[order[i] as int] == all[i] && places[order[j] as int] == all[j]);
        }
    }
    once_each_is_strict(all);
    assert(order.no_duplicates()) by {
        assert forall|i: int, j: int| 0 <= i < order.len() && 0 <= j < order.len() && i
            != j implies order[i] != order[j] by {
            if i < j {
                assert(ahead(places, order[i], order[j]));
                places_are_in_one_order(all[i].place, all[i].place, all[i].place);
            } else {
                assert(ahead(places, order[j], order[i]));
                places_are_in_one_order(all[j].place, all[j].place, all[j].place);
            }
        }
    }
    all_are_there(order, places.len());
    assert forall|k: int| 0 <= k < places.len() implies has_place(
        sorted,
        (#[trigger] places[k]).place,
    ) by {
        assert(order.contains(k as usize));
        let i = choose|i: int| 0 <= i < order.len() && order[i] == k as usize;
        assert(all[i] == places[k]);
        assert(has_place(once_each(all), all[i].place));
    }
}

/// Whether one of the references of `groups` is at `place`.
pub open spec fn shows_place(groups: Seq<GroupModel>, place: Place) -> bool {
    exists|g: int, h: int|
        0 <= g < groups.len() && 0 <= h < groups[g].hits.len() && (
        #[trigger] groups[g].hits[h]).place == place
}

/// Put together by file, each file is there once, in the order of their paths;
/// each reference is under its own file, those of a file in order; and all that
/// are listed are there, and no other.
pub proof fn a_file_s_references_are_in_order(sorted: Seq<Named>)
    requires
        strictly_in_order(sorted),
    ensures
        each_file_once(groups_of(sorted)),
        forall|g: int, h: int|
            0 <= g < groups_of(sorted).len() && 0 <= h < groups_of(sorted)[g].hits.len() ==> (
            #[trigger] groups_of(sorted)[g].hits[h]).place.path@ == groups_of(sorted)[g].path
                && is_listed(sorted, groups_of(sorted)[g].hits[h].place),
        forall|g: int, a: int, b: int|
            0 <= g < groups_of(sorted).len() && 0 <= a < b < groups_of(sorted)[g].hits.len()
                ==> place_before(
                (#[trigger] groups_of(sorted)[g].hits[a]).place,
                (#[trigger] groups_of(sorted)[g].hits[b]).place,
            ),
        forall|k: int|
            0 <= k < sorted.len() ==> shows_place(groups_of(sorted), (#[trigger] sorted[k]).place),
    decreases sorted.len(),
{
    assert(none_out_of_order(sorted)) by {
        assert forall|i: int, j: int| 0 <= i < j < sorted.len() implies !place_before(
            (#[trigger] sorted[j]).place,
            (#[trigger] sorted[i]).place,
        ) by {
            places_are_in_one_order(sorted[i].place, sorted[j].place, sorted[i].place);
        }
    }
    files_are_in_order(sorted);
    if sorted.len() > 0 {
        let rest = sorted.drop_last();
        let last = sorted[sorted.len() - 1];
        assert(strictly_in_order(rest)) by {
            assert forall|i: int, j: int| 0 <= i < j < rest.len() implies place_before(
                (#[trigger] rest[i]).place,
                (#[trigger] rest[j]).place,
            ) by {
                assert(place_before(sorted[i].place, sorted[j].place));
            }
        }
        a_file_s_references_are_in_order(rest);
        let before = groups_of(rest);
        let groups = groups_of(sorted);
        let end = groups.len() - 1;
        // A reference is one there was, or the new one, which is the last.
        assert forall|g: int, h: int|
            0 <= g < groups.len() && 0 <= h < groups[g].hits.len() implies (
        #[trigger] groups[g].hits[h]).place.path@ == groups[g].path && is_listed(
            sorted,
            groups[g].hits[h].place,
        ) by {
            if g < before.len() && h < before[g].hits.len() {
                assert(groups[g].hits[h] == before[g].hits[h]);
                assert(is_listed(rest, before[g].hits[h].place));
                let k = choose|k: int|
                    0 <= k < rest.len() && (#[trigger] rest[k]).place == before[g].hits[h].place;
                assert(sorted[k] == rest[k]);
            } else {
                assert(groups[g].hits[h].place == last.place);
                assert(sorted[sorted.len() - 1].place == last.place);
            }
        }
        assert forall|g: int, a: int, b: int|
            0 <= g < groups.len() && 0 <= a < b < groups[g].hits.len() implies place_before(
            (#[trigger] groups[g].hits[a]).place,
            (#[trigger] groups[g].hits[b]).place,
        ) by {
            assert(g < before.len());
            assert(groups[g].hits[a] == before[g].hits[a]);
            if b < before[g].hits.len() {
                assert(groups[g].hits[b] == before[g].hits[b]);
            } else {
                assert(is_listed(rest, before[g].hits[a].place));
                let k = choose|k: int|
                    0 <= k < rest.len() && (#[trigger] rest[k]).place == before[g].hits[a].place;
                assert(sorted[k] == rest[k]);
                assert(place_before(sorted[k].place, last.place));
            }
        }
        assert forall|k: int| 0 <= k < sorted.len() implies shows_place(
            groups,
            (#[trigger] sorted[k]).place,
        ) by {
            if k < rest.len() {
                assert(rest[k] == sorted[k]);
                assert(shows_place(before, rest[k].place));
                let (g, h) = choose|g: int, h: int|
                    0 <= g < before.len() && 0 <= h < before[g].hits.len() && (
                    #[trigger] before[g].hits[h]).place == rest[k].place;
                assert(groups[g].hits[h] == before[g].hits[h]);
            } else {
                assert(groups[end].hits[groups[end].hits.len() - 1].place == last.place);
            }
        }
    }
}

/// Whether `place` is one of `listed`.
pub open spec fn is_listed(listed: Seq<Named>, place: Place) -> bool {
    exists|k: int| 0 <= k < listed.len() && (#[trigger] listed[k]).place == place
}

/// A line is shown whole where the reference is no further in than the lead it is
/// given, and otherwise from that lead on, behind an ellipsis.
pub proof fn a_line_is_cut_to_its_lead(text: Seq<char>, from: int, ellipsis: Seq<char>)
    requires
        0 <= from <= text.len(),
    ensures
        from <= LEAD ==> window_text(text, from, ellipsis) == text,
        from > LEAD ==> window_text(text, from, ellipsis) == ellipsis + text.subrange(
            from - LEAD,
            text.len() as int,
        ),
{
    if from > LEAD {
        assert(text.skip(from - LEAD) =~= text.subrange(from - LEAD, text.len() as int));
    }
}

/// A line read back is the first given for it, and none where none is.
pub proof fn a_line_read_is_its_own(lines: Seq<(u32, String)>, line: u32, from: int)
    requires
        0 <= from <= lines.len(),
    ensures
        match line_read(lines, line, from) {
            Some(text) => exists|i: int|
                {
                    &&& from <= i < lines.len()
                    &&& (#[trigger] lines[i]).0 == line
                    &&& lines[i].1@ == text
                    &&& forall|j: int| from <= j < i ==> (#[trigger] lines[j]).0 != line
                },
            None => forall|j: int| from <= j < lines.len() ==> (#[trigger] lines[j]).0 != line,
        },
    decreases lines.len() - from,
{
    if from < lines.len() {
        if lines[from].0 != line {
            a_line_read_is_its_own(lines, line, from + 1);
            if let Some(text) = line_read(lines, line, from + 1) {
                let i = choose|i: int|
                    {
                        &&& from + 1 <= i < lines.len()
                        &&& (#[trigger] lines[i]).0 == line
                        &&& lines[i].1@ == text
                        &&& forall|j: int| from + 1 <= j < i ==> (#[trigger] lines[j]).0 != line
                    };
                assert(lines[i].0 == line);
            }
        } else {
            assert(lines[from].0 == line);
        }
    }
}

/// The break that ends a line is not shown, whichever it is.
pub proof fn a_line_s_break_is_not_shown(line: Seq<char>)
    requires
        line.len() == 0 || (line.last() != '\n' && line.last() != '\r'),
    ensures
        without_break(line) == line,
        without_break(line.push('\n')) == line,
        without_break(line.push('\r').push('\n')) == line,
{
    assert(line.push('\n').drop_last() =~= line);
    assert(line.push('\r').push('\n').drop_last() =~= line.push('\r'));
    assert(line.push('\r').drop_last() =~= line);
}

/// What is picked out of a line is the reference: from the char it starts at to the
/// char it ends at, or to the end of the line where it ends on another.
pub proof fn a_reference_is_picked_out_of_its_line(
    place: Place,
    text: Seq<char>,
    from: int,
    to: int,
)
    requires
        0 <= from <= to <= text.len(),
        place.start.character == place.encoding.length(text.take(from)),
        place.end.line == place.start.line ==> place.end.character == place.encoding.length(
            text.take(to),
        ),
        place.end.line != place.start.line ==> to == text.len(),
    ensures
        picked_out(place, text) == (from as nat, to as nat),
{
    crate::place::a_prefix_s_units_are_its_column(place.encoding, text, from);
    crate::place::a_prefix_s_units_are_its_column(place.encoding, text, to);
}

/// A file's row is always there, and its references' rows under it unless it is
/// folded; there are no others.
pub proof fn a_folded_file_hides_its_references(
    groups: Seq<GroupModel>,
    collapsed: Seq<bool>,
    count: int,
    group: usize,
    hit: usize,
)
    requires
        0 <= count <= groups.len() == collapsed.len(),
        groups.len() <= usize::MAX,
        forall|i: int| 0 <= i < groups.len() ==> (#[trigger] groups[i]).hits.len() <= usize::MAX,
    ensures
        rows_of(groups, collapsed, count).contains(Line::File(group)) <==> group < count,
        rows_of(groups, collapsed, count).contains(Line::Hit(group, hit)) <==> group < count
            && !collapsed[group as int] && hit < groups[group as int].hits.len(),
    decreases count,
{
    if count > 0 {
        a_folded_file_hides_its_references(groups, collapsed, count - 1, group, hit);
        let before = rows_of(groups, collapsed, count - 1);
        let rows = rows_of(groups, collapsed, count);
        let hits = groups[count - 1].hits.len();
        let file = Line::File(group);
        let line = Line::Hit(group, hit);
        assert(rows[before.len() as int] == Line::File((count - 1) as usize));
        if rows.contains(file) {
            let k = choose|k: int| 0 <= k < rows.len() && rows[k] == file;
            if k < before.len() {
                assert(before[k] == file);
            }
        }
        if before.contains(file) {
            let k = choose|k: int| 0 <= k < before.len() && before[k] == file;
            assert(rows[k] == file);
        }
        if rows.contains(line) {
            let k = choose|k: int| 0 <= k < rows.len() && rows[k] == line;
            if k < before.len() {
                assert(before[k] == line);
            } else {
                assert(rows[k] == hit_lines(count - 1, hits)[k - before.len() - 1]);
            }
        }
        if before.contains(line) {
            let k = choose|k: int| 0 <= k < before.len() && before[k] == line;
            assert(rows[k] == line);
        }
        if group == count - 1 && !collapsed[count - 1] && hit < hits {
            assert(rows[before.len() + 1 + hit] == hit_lines(count - 1, hits)[hit as int]);
        }
    }
}

/// Rows are in order: each file's row, then its references' in order, then the
/// next file's.
pub proof fn rows_are_by_file(groups: Seq<GroupModel>, collapsed: Seq<bool>, count: int)
    requires
        0 <= count <= groups.len() == collapsed.len(),
        groups.len() <= usize::MAX,
        forall|i: int| 0 <= i < groups.len() ==> (#[trigger] groups[i]).hits.len() <= usize::MAX,
    ensures
        forall|i: int, j: int|
            0 <= i < j < rows_of(groups, collapsed, count).len() ==> comes_earlier(
                #[trigger] rows_of(groups, collapsed, count)[i],
                #[trigger] rows_of(groups, collapsed, count)[j],
            ),
        forall|i: int|
            0 <= i < rows_of(groups, collapsed, count).len() ==> file_of(
                #[trigger] rows_of(groups, collapsed, count)[i],
            ) < count,
    decreases count,
{
    if count > 0 {
        rows_are_by_file(groups, collapsed, count - 1);
        let before = rows_of(groups, collapsed, count - 1);
        let rows = rows_of(groups, collapsed, count);
        let hits = hit_lines(count - 1, groups[count - 1].hits.len());
        assert forall|i: int| 0 <= i < rows.len() implies #[trigger] rows[i] == if i < before.len() {
            before[i]
        } else if i == before.len() {
            Line::File((count - 1) as usize)
        } else {
            hits[i - before.len() - 1]
        } by {}
        assert forall|i: int, j: int| 0 <= i < j < rows.len() implies comes_earlier(
            #[trigger] rows[i],
            #[trigger] rows[j],
        ) by {
            if j < before.len() {
                assert(comes_earlier(before[i], before[j]));
            } else if i < before.len() {
                assert(file_of(before[i]) < count - 1);
            }
        }
    }
}

/// The file a row is of.
pub open spec fn file_of(line: Line) -> int {
    match line {
        Line::File(at) => at as int,
        Line::Hit(at, _) => at as int,
    }
}

/// Whether row `a` goes above row `b`.
pub open spec fn comes_earlier(a: Line, b: Line) -> bool {
    file_of(a) < file_of(b) || (file_of(a) == file_of(b) && match (a, b) {
        (Line::File(_), Line::Hit(_, _)) => true,
        (Line::Hit(_, i), Line::Hit(_, j)) => i < j,
        _ => false,
    })
}

/// The largest line number listed is no smaller than any, and is one of them.
pub proof fn the_widest_is_the_largest_line_number(places: Seq<Named>, count: int)
    requires
        0 <= count <= places.len(),
        forall|i: int|
            0 <= i < places.len() ==> (#[trigger] places[i]).place.start.line < u32::MAX,
    ensures
        forall|i: int|
            0 <= i < count ==> (#[trigger] places[i]).place.start.line + 1 <= widest_of(
                places,
                count,
            ),
        widest_of(places, count) == 1 || exists|i: int|
            0 <= i < count && (#[trigger] places[i]).place.start.line + 1 == widest_of(
                places,
                count,
            ),
    decreases count,
{
    if count > 0 {
        the_widest_is_the_largest_line_number(places, count - 1);
        let line = places[count - 1].place.start.line;
        assert(widest_of(places, count) >= line + 1);
    }
}

/// What the panel is headed by says how many references there are and in how many
/// files, one of either being said as one.
pub proof fn a_summary_counts_references_and_files(word: Seq<char>, more: nat, files: nat)
    requires
        more != 1,
        files != 1,
    ensures
        summary_of(more, word, files) == decimal_of(more) + " references"@ + " to "@ + word
            + " in "@ + decimal_of(files) + " files"@,
        summary_of(1, word, files) == decimal_of(1) + " reference"@ + " to "@ + word + " in "@
            + decimal_of(files) + " files"@,
        summary_of(more, word, 1) == decimal_of(more) + " references"@ + " to "@ + word + " in "@
            + decimal_of(1) + " file"@,
        summary_of(1, word, 1) == decimal_of(1) + " reference"@ + " to "@ + word + " in "@
            + decimal_of(1) + " file"@,
{
}

/// Stepping goes through the rows that are references, all of them and in order.
pub proof fn stepping_takes_in_every_reference(rows: Seq<Line>, count: int)
    requires
        0 <= count <= rows.len() <= usize::MAX,
    ensures
        ({
            let hits = reference_rows(rows, count);
            &&& forall|i: usize|
                i < count ==> (#[trigger] hits.contains(i) <==> (rows[i as int] matches Line::Hit(
                    _,
                    _,
                )))
            &&& forall|k: int| 0 <= k < hits.len() ==> (#[trigger] hits[k]) < count
            &&& forall|j: int, k: int|
                0 <= j < k < hits.len() ==> (#[trigger] hits[j]) < (#[trigger] hits[k])
        }),
    decreases count,
{
    if count > 0 {
        stepping_takes_in_every_reference(rows, count - 1);
        let before = reference_rows(rows, count - 1);
        let hits = reference_rows(rows, count);
        assert forall|i: usize| i < count implies (#[trigger] hits.contains(i) <==> (
        rows[i as int] matches Line::Hit(_, _))) by {
            if hits.contains(i) {
                let k = choose|k: int| 0 <= k < hits.len() && hits[k] == i;
                if k < before.len() {
                    assert(before[k] == i);
                    assert(before.contains(i));
                }
            }
            if i < count - 1 && before.contains(i) {
                let k = choose|k: int| 0 <= k < before.len() && before[k] == i;
                assert(hits[k] == i);
            }
            if i == count - 1 && hits.len() > before.len() {
                assert(hits[before.len() as int] == i);
            }
        }
    }
}

/// A row is drawn as what it is: a file with how it is named and how many
/// references it has, a reference with its line counted from one.
pub proof fn a_row_is_drawn_as_what_it_is(
    groups: Seq<GroupModel>,
    collapsed: Seq<bool>,
    rows: Seq<Line>,
    from: int,
    to: int,
    at: int,
)
    requires
        0 <= from <= at < to <= rows.len(),
    ensures
        drawn_rows(groups, collapsed, rows, from, to).len() == to - from,
        match (rows[at], drawn_rows(groups, collapsed, rows, from, to)[at - from]) {
            (Line::File(g), ViewRowModel::File { path, hits, collapsed: folded }) => {
                &&& path == groups[g as int].label
                &&& hits == groups[g as int].hits.len()
                &&& folded == collapsed[g as int]
            },
            (Line::Hit(g, h), ViewRowModel::Hit { line, text, matched }) => {
                let hit = groups[g as int].hits[h as int];
                &&& hit.place.start.line < u32::MAX ==> line == hit.place.start.line + 1
                &&& text == hit.text
                &&& matched == hit.matched
            },
            _ => false,
        },
{
}

/// Each row is pressed where it is drawn: the row so far down the panel is the one
/// as far past the first shown.
pub proof fn a_row_is_pressed_where_it_is_drawn(rows: Rect, scroll: int, count: nat, at: int)
    requires
        0 <= at < count,
        rows.y + count <= u16::MAX,
        0 <= scroll,
        scroll + count <= usize::MAX,
    ensures
        ({
            let area = row_areas(rows, scroll, count)[at];
            &&& row_areas(rows, scroll, count).len() == count
            &&& area.area.y == rows.y + at
            &&& area.area.height == 1
            &&& area.area.x == rows.x && area.area.width == rows.width
            &&& area.target == Target::ReferencesRow((scroll + at) as usize)
            &&& area.hover
        }),
{
}

/// Lines are read for every file that is not open, all those with references on
/// them, and for no other.
pub proof fn lines_are_read_for_what_is_not_open(
    groups: Seq<GroupModel>,
    open: Seq<bool>,
    count: int,
    path: Seq<char>,
)
    requires
        0 <= count <= groups.len() == open.len(),
    ensures
        forall|i: int|
            #![trigger groups[i]]
            0 <= i < count && !open[i] ==> wanted_of(groups, open, count).contains(
                (
                    groups[i].path,
                    Seq::new(groups[i].hits.len(), |h: int| groups[i].hits[h].place.start.line),
                ),
            ),
        (exists|k: int|
            0 <= k < wanted_of(groups, open, count).len() && (#[trigger] wanted_of(
                groups,
                open,
                count,
            )[k]).0 == path) ==> exists|i: int|
            0 <= i < count && (#[trigger] groups[i]).path == path && !open[i],
    decreases count,
{
    if count > 0 {
        lines_are_read_for_what_is_not_open(groups, open, count - 1, path);
        let before = wanted_of(groups, open, count - 1);
        let wanted = wanted_of(groups, open, count);
        assert forall|i: int|
            #![trigger groups[i]]
            0 <= i < count && !open[i] implies wanted.contains(
            (
                groups[i].path,
                Seq::new(groups[i].hits.len(), |h: int| groups[i].hits[h].place.start.line),
            ),
        ) by {
            let entry = (
                groups[i].path,
                Seq::new(groups[i].hits.len(), |h: int| groups[i].hits[h].place.start.line),
            );
            if i < count - 1 {
                let k = choose|k: int| 0 <= k < before.len() && before[k] == entry;
                assert(wanted[k] == entry);
            } else {
                assert(entry.1 =~= lines_of(groups[i].hits));
                assert(wanted[before.len() as int] == entry);
            }
        }
        if exists|k: int| 0 <= k < wanted.len() && (#[trigger] wanted[k]).0 == path {
            let k = choose|k: int| 0 <= k < wanted.len() && (#[trigger] wanted[k]).0 == path;
            if k < before.len() {
                assert(before[k].0 == path);
            } else {
                assert(groups[count - 1].path == path);
            }
        }
    }
}

/// What was read of a file goes to that file's references and to no others: the
/// paths read and those listed being each once.
pub proof fn lines_go_to_their_own_file(
    groups: Seq<GroupModel>,
    read: Seq<(String, Vec<(u32, String)>)>,
    ellipsis: Seq<char>,
    count: int,
    group: int,
)
    requires
        0 <= count <= read.len(),
        0 <= group < groups.len(),
        forall|i: int, j: int|
            0 <= i < j < groups.len() ==> (#[trigger] groups[i]).path != (#[trigger] groups[j]).path,
        forall|i: int, j: int|
            0 <= i < j < read.len() ==> (#[trigger] read[i]).0@ != (#[trigger] read[j]).0@,
    ensures
        ({
            let after = all_lines(groups, read, ellipsis, count);
            &&& after.len() == groups.len()
            &&& after[group].path == groups[group].path
            &&& after[group].label == groups[group].label
            &&& forall|r: int|
                0 <= r < count && (#[trigger] read[r]).0@ == groups[group].path ==> after[group].hits
                    == all_filled(groups[group].hits, read[r].1@, ellipsis)
            &&& (forall|r: int| 0 <= r < count ==> (#[trigger] read[r]).0@ != groups[group].path)
                ==> after[group].hits == groups[group].hits
        }),
    decreases count,
{
    if count > 0 {
        let before = all_lines(groups, read, ellipsis, count - 1);
        let after = all_lines(groups, read, ellipsis, count);
        let path = read[count - 1].0@;
        assert forall|i: int| 0 <= i < groups.len() implies before.len() == groups.len() && (
        #[trigger] before[i]).path == groups[i].path by {
            lines_go_to_their_own_file(groups, read, ellipsis, count - 1, i);
        }
        lines_go_to_their_own_file(groups, read, ellipsis, count - 1, group);
        group_found(before, path, 0);
        if let Some(at) = group_at(before, path, 0) {
            if at != group {
                assert(groups[group].path != groups[at].path);
            }
        }
        if path == groups[group].path {
            assert(before[group].path == path);
            assert forall|r: int| 0 <= r < count - 1 implies (#[trigger] read[r]).0@
                != groups[group].path by {
                assert(read[r].0@ != read[count - 1].0@);
            }
        }
    }
}

proof fn group_found(groups: Seq<GroupModel>, path: Seq<char>, from: int)
    requires
        0 <= from <= groups.len(),
    ensures
        match group_at(groups, path, from) {
            Some(at) => from <= at < groups.len() && groups[at].path == path,
            None => forall|i: int| from <= i < groups.len() ==> (#[trigger] groups[i]).path != path,
        },
    decreases groups.len() - from,
{
    if from < groups.len() && groups[from].path != path {
        group_found(groups, path, from + 1);
    }
}

/// References are in the order of their files, and in a file in the order of their
/// lines and then of where they are in the line.
pub proof fn references_are_in_the_order_of_the_text(a: Place, b: Place)
    ensures
        a.path@ == b.path@ && a.start.line < b.start.line ==> place_before(a, b),
        a.path@ == b.path@ && a.start.line == b.start.line ==> (place_before(a, b)
            <==> a.start.character < b.start.character),
        a.path@ != b.path@ ==> (place_before(a, b) <==> path_before(a.path@, b.path@)),
        place_before(a, b) ==> !place_before(b, a),
{
    crate::paths::one_path_comes_first(a.path@, b.path@);
}

/// A line that has been read is shown with the reference picked out of it, however it is
/// cut; one that has not is left as it was.
pub proof fn a_line_read_shows_its_reference(
    hit: HitModel,
    lines: Seq<(u32, String)>,
    ellipsis: Seq<char>,
    line: Seq<char>,
    from: int,
    to: int,
)
    requires
        line_read(lines, hit.place.start.line, 0) == Some(line),
        0 <= from <= to <= without_break(line).len(),
        picked_out(hit.place, without_break(line)) == (from as nat, to as nat),
        window_at(to, from, ellipsis) <= u32::MAX,
    ensures
        ({
            let shown = filled(hit, lines, ellipsis);
            &&& shown.place == hit.place
            &&& shown.matched matches Some((start, end)) && shown.text.subrange(
                start as int,
                end as int,
            ) == without_break(line).subrange(from, to)
        }),
        filled(hit, Seq::empty(), ellipsis) == hit,
{
    a_window_picks_the_same_chars(without_break(line), from, to, ellipsis);
}

/// A place offered is named by its file and its line, counted from one, says where its
/// file is open, and is gone to as it is asked for.
pub proof fn a_place_offered_is_named_by_its_line(named: Named, open: Open)
    ensures
        ({
            let row = place_row(named, open);
            &&& row.label == named.label@ + ":"@ + decimal_of((named.place.start.line + 1) as nat)
            &&& row.pick == PickModel::Place(named.place, open)
            &&& named.open ==> row.hint == "open"@
            &&& !named.open ==> row.hint == ""@
            &&& row.matched.len() == 0
        }),
{
}

/// Places are offered under how many there are, each with a row of its own.
pub proof fn an_offer_has_a_row_for_each(
    places: Seq<Named>,
    word: Seq<char>,
    title: Seq<char>,
    rows: Seq<RowModel>,
)
    requires
        is_offer(places, word, title, rows),
    ensures
        title == decimal_of(rows.len()) + " references to "@ + word,
        forall|i: int|
            0 <= i < rows.len() ==> ((#[trigger] rows[i]).pick matches PickModel::Place(_, open)
                && open is Here),
{
    let sorted = choose|sorted: Seq<Named>| #[trigger]
        in_order(sorted, places) && by_path(sorted) && title == decimal_of(sorted.len())
            + " references to "@ + word && rows == Seq::new(
            sorted.len(),
            |i: int| place_row(sorted[i], Open::Here),
        );
    assert(rows.len() == sorted.len());
    assert forall|i: int| 0 <= i < rows.len() implies ((
    #[trigger] rows[i]).pick matches PickModel::Place(_, open) && open is Here) by {
        assert(rows[i] == place_row(sorted[i], Open::Here));
    }
}

/// The panel takes every press on it, and its button back to the files its own, over the
/// panel.
pub proof fn the_panel_s_button_is_over_the_panel(area: Rect, cell: Rect)
    ensures
        panel_areas(area, None).len() == 1,
        panel_areas(area, Some(cell)).len() == 2,
        panel_areas(area, Some(cell))[0].area == area,
        panel_areas(area, Some(cell))[0].target is ReferencesEmpty,
        !panel_areas(area, Some(cell))[0].hover,
        panel_areas(area, Some(cell))[1].area == cell,
        panel_areas(area, Some(cell))[1].target is ReferencesBack,
        panel_areas(area, Some(cell))[1].hover,
        panel_areas(area, None)[0] == panel_areas(area, Some(cell))[0],
{
}

/// Two places are the same only where they are in one file, start and end together, and
/// are counted alike.
pub proof fn the_same_place_is_the_same_in_all(a: Place, b: Place)
    ensures
        same_place(a, b) <==> a.path@ == b.path@ && a.start.line == b.start.line
            && a.start.character == b.start.character && a.end.line == b.end.line
            && a.end.character == b.end.character && a.encoding == b.encoding,
{
}

} // verus!
