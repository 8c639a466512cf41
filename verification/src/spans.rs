//! Where a completion goes, and the edits that put it there.

use ropey::Rope;
use vstd::prelude::*;

use crate::edit::{held, models, Edit, EditModel};
use crate::order::{is_ranking, picked, ranked, ranking, Key};
use crate::rope::{char_at, len_chars, rope_text};

verus! {

/// A stretch of text: where it starts, and where it ends.
pub type Span = (usize, usize);

/// One selection: the end that stays, and the end the caret is at.
#[derive(Debug, Clone, Copy, PartialEq, Eq, Structural)]
pub struct Selection {
    /// The end that stays where it is.
    pub anchor: usize,
    /// The end the caret is at.
    pub head: usize,
}

impl Selection {
    /// The earlier end.
    pub open spec fn spec_from(self) -> usize {
        if self.anchor <= self.head {
            self.anchor
        } else {
            self.head
        }
    }

    /// The later end.
    pub open spec fn spec_to(self) -> usize {
        if self.anchor <= self.head {
            self.head
        } else {
            self.anchor
        }
    }

    /// A selection of nothing: a caret at `at`.
    pub fn caret(at: usize) -> (selection: Self)
        ensures
            selection == (Selection { anchor: at, head: at }),
    {
        Selection { anchor: at, head: at }
    }

    /// The earlier end.
    pub fn from(self) -> (at: usize)
        ensures
            at == self.spec_from(),
    {
        if self.anchor <= self.head {
            self.anchor
        } else {
            self.head
        }
    }

    /// The later end.
    pub fn to(self) -> (at: usize)
        ensures
            at == self.spec_to(),
    {
        if self.anchor <= self.head {
            self.head
        } else {
            self.anchor
        }
    }

    /// Whether nothing is selected.
    pub fn is_empty(self) -> (empty: bool)
        ensures
            empty == (self.anchor == self.head),
    {
        self.anchor == self.head
    }
}

/// Whether two spans share any character: some character is in both.
pub open spec fn overlapping(a: Span, b: Span) -> bool {
    exists|i: int| #[trigger] in_span(i, a) && in_span(i, b)
}

/// Whether the character at `i` is in `span`.
pub open spec fn in_span(i: int, span: Span) -> bool {
    span.0 <= i < span.1
}

/// Whether text put over two spans would collide: each starts before the other
/// ends. Spans that share a character do, and so does an empty one inside
/// another.
pub open spec fn colliding(a: Span, b: Span) -> bool {
    a.0 < b.1 && b.0 < a.1
}

/// Whether two spans share a character or an edge.
pub open spec fn touching(a: Span, b: Span) -> bool {
    a.0 <= b.1 && b.0 <= a.1
}

/// Whether two spans share any character.
pub fn overlaps(a: Span, b: Span) -> (share: bool)
    ensures
        share == overlapping(a, b),
        share == (a.0 < a.1 && b.0 < b.1 && colliding(a, b)),
{
    proof {
        spans_touch_both_ways(a, b);
    }
    let from: usize = if a.0 < b.0 {
        b.0
    } else {
        a.0
    };
    assert(from < a.1 && from < b.1 ==> in_span(from as int, a) && in_span(from as int, b));
    from < a.1 && from < b.1
}

/// Whether text put over two spans would collide.
fn collide(a: Span, b: Span) -> (would: bool)
    ensures
        would == colliding(a, b),
{
    a.0 < b.1 && b.0 < a.1
}

/// Whether two spans share a character or an edge — too close for two edits
/// in one revision, where which went first would change the result.
pub fn touches(a: Span, b: Span) -> (share: bool)
    ensures
        share == touching(a, b),
{
    a.0 <= b.1 && b.0 <= a.1
}

/// Overlapping, colliding and touching go both ways. What overlaps collides, and
/// what collides touches; two spans with a character each collide exactly where
/// they overlap; and spans that do not touch have a character between them.
pub proof fn spans_touch_both_ways(a: Span, b: Span)
    ensures
        overlapping(a, b) == overlapping(b, a),
        colliding(a, b) == colliding(b, a),
        touching(a, b) == touching(b, a),
        overlapping(a, b) ==> colliding(a, b),
        colliding(a, b) ==> touching(a, b),
        a.0 < a.1 && b.0 < b.1 ==> overlapping(a, b) == colliding(a, b),
        a.0 <= a.1 && b.0 <= b.1 && !touching(a, b) ==> a.1 < b.0 || b.1 < a.0,
{
    let from = if a.0 < b.0 {
        b.0 as int
    } else {
        a.0 as int
    };
    if a.0 < a.1 && b.0 < b.1 && colliding(a, b) {
        assert(in_span(from, a) && in_span(from, b));
    }
    if overlapping(a, b) {
        let i = choose|i: int| #[trigger] in_span(i, a) && in_span(i, b);
        assert(in_span(i, b) && in_span(i, a));
    }
    if overlapping(b, a) {
        let i = choose|i: int| #[trigger] in_span(i, b) && in_span(i, a);
        assert(in_span(i, a) && in_span(i, b));
    }
}

// ── where it goes ───────────────────────────────────────────────────────────

/// Whether `text` holds the same characters from `a` as from `b`, for `count`
/// of them.
pub open spec fn same_text(text: Seq<char>, a: int, b: int, count: int) -> bool {
    text.subrange(a, a + count) == text.subrange(b, b + count)
}

/// Where the completion would go at selection `at`: at the primary, over
/// `from..to`; at any other caret with the same characters before it, over
/// those, and over the rest of the word too where that is the same.
pub open spec fn copy_at(
    text: Seq<char>,
    selections: Seq<Selection>,
    primary: int,
    from: usize,
    head: usize,
    to: usize,
    at: int,
) -> Option<Span> {
    let caret = selections[at].head;
    let before = head - from;
    let after = to - head;
    if at == primary {
        Some((from, to))
    } else if selections[at].anchor == caret && caret >= before && same_text(
        text,
        caret - before,
        from as int,
        before,
    ) {
        if caret + after <= text.len() && same_text(text, caret as int, head as int, after) {
            Some(((caret - before) as usize, (caret + after) as usize))
        } else {
            Some(((caret - before) as usize, caret))
        }
    } else {
        None
    }
}

/// Where the completion would go at each selection.
pub open spec fn copies_at(
    text: Seq<char>,
    selections: Seq<Selection>,
    primary: int,
    from: usize,
    head: usize,
    to: usize,
) -> Seq<Option<Span>> {
    Seq::new(
        selections.len(),
        |at: int| copy_at(text, selections, primary, from, head, to, at),
    )
}

/// Whether the copy at `at` would collide with the primary's, or with one
/// before it.
pub open spec fn collides(found: Seq<Option<Span>>, primary: int, at: int) -> bool {
    exists|other: int|
        0 <= other < found.len() && other != at && (other == primary || other < at)
            && found[other] is Some && colliding(#[trigger] found[other]->0, found[at]->0)
}

/// Whether the copy at `at` is made: the primary's always is, and another
/// where it collides with none.
pub open spec fn is_kept(found: Seq<Option<Span>>, primary: int, at: int) -> bool {
    found[at] is Some && (at == primary || !collides(found, primary, at))
}

/// The copies made among the first `count` selections, in their order.
pub open spec fn kept_of(found: Seq<Option<Span>>, primary: int, count: int) -> Seq<Span>
    decreases count,
{
    if count <= 0 {
        Seq::empty()
    } else {
        let rest = kept_of(found, primary, count - 1);
        if is_kept(found, primary, count - 1) {
            rest.push(found[count - 1]->0)
        } else {
            rest
        }
    }
}

/// Whether `text` holds the same characters from `a` as from `b`.
fn same_at(rope: &Rope, a: usize, b: usize, count: usize) -> (same: bool)
    requires
        a + count <= rope_text(*rope).len(),
        b + count <= rope_text(*rope).len(),
        a + count <= usize::MAX,
        b + count <= usize::MAX,
    ensures
        same == same_text(rope_text(*rope), a as int, b as int, count as int),
{
    let ghost text = rope_text(*rope);
    let mut i: usize = 0;
    while i < count
        invariant
            text == rope_text(*rope),
            i <= count,
            a + count <= text.len(),
            b + count <= text.len(),
            a + count <= usize::MAX,
            b + count <= usize::MAX,
            forall|k: int| 0 <= k < i ==> #[trigger] text[a + k] == text[b + k],
        decreases count - i,
    {
        if char_at(rope, a + i) != char_at(rope, b + i) {
            proof {
                assert(text.subrange(a as int, a + count)[i as int] == text[a + i]);
                assert(text.subrange(b as int, b + count)[i as int] == text[b + i]);
            }
            return false;
        }
        i = i + 1;
    }
    proof {
        let left = text.subrange(a as int, a + count);
        let right = text.subrange(b as int, b + count);
        assert forall|k: int| 0 <= k < count implies #[trigger] left[k] == right[k] by {
            assert(text[a + k] == text[b + k]);
        }
        assert(left =~= right);
    }
    true
}

/// Where the completion goes: `from..to` around the primary caret at `head`,
/// and the same span at every other caret with the same characters before
/// it. The spans in the order of their carets, and which of them is the
/// primary's.
///
/// Of two carets so close that their words overlap the primary's wins, then
/// the earlier; the neighbour that would collide is left alone.
pub fn copies(
    rope: &Rope,
    selections: &Vec<Selection>,
    primary: usize,
    from: usize,
    head: usize,
    to: usize,
) -> (made: (Vec<Span>, usize))
    requires
        primary < selections@.len(),
        from <= head <= to <= rope_text(*rope).len(),
        forall|i: int|
            0 <= i < selections@.len() ==> (#[trigger] selections@[i]).head <= rope_text(
                *rope,
            ).len(),
    ensures
        ({
            let found = copies_at(
                rope_text(*rope),
                selections@,
                primary as int,
                from,
                head,
                to,
            );
            &&& made.0@ == kept_of(found, primary as int, selections@.len() as int)
            &&& made.1 == kept_of(found, primary as int, primary as int).len()
            &&& made.1 < made.0@.len()
            &&& made.0@[made.1 as int] == (from, to)
        }),
{
    let ghost text = rope_text(*rope);
    let ghost goal = copies_at(text, selections@, primary as int, from, head, to);
    let len: usize = len_chars(rope);
    let before: usize = head - from;
    let after: usize = to - head;
    let mut found: Vec<Option<Span>> = Vec::new();
    let mut i: usize = 0;
    while i < selections.len()
        invariant
            i <= selections@.len(),
            primary < selections@.len(),
            text == rope_text(*rope),
            len == text.len(),
            from <= head <= to <= len,
            before == head - from,
            after == to - head,
            goal == copies_at(text, selections@, primary as int, from, head, to),
            forall|k: int| 0 <= k < selections@.len() ==> (#[trigger] selections@[k]).head <= len,
            found@ =~= goal.take(i as int),
        decreases selections@.len() - i,
    {
        let selection = selections[i];
        let caret: usize = selection.head;
        assert(selections@[i as int].head <= len);
        let span: Option<Span> = if i == primary {
            Some((from, to))
        } else if !selection.is_empty() || caret < before || !same_at(
            rope,
            caret - before,
            from,
            before,
        ) {
            None
        } else if after <= len - caret && same_at(rope, caret, head, after) {
            Some((caret - before, caret + after))
        } else {
            Some((caret - before, caret))
        };
        assert(span == goal[i as int]);
        found.push(span);
        i = i + 1;
    }
    assert(goal.take(selections@.len() as int) =~= goal);

    let mut kept: Vec<Span> = Vec::new();
    let mut kept_primary: usize = 0;
    let mut at: usize = 0;
    while at < found.len()
        invariant
            at <= found@.len() == selections@.len(),
            primary < found@.len(),
            found@ == goal,
            goal[primary as int] == Some((from, to)),
            kept@ == kept_of(goal, primary as int, at as int),
            at > primary ==> kept_primary == kept_of(goal, primary as int, primary as int).len(),
            at > primary ==> kept_primary < kept@.len() && kept@[kept_primary as int] == (from, to),
        decreases found@.len() - at,
    {
        if let Some(span) = found[at] {
            if at == primary {
                kept_primary = kept.len();
                kept.push(span);
            } else {
                let mut clash = false;
                let mut other: usize = 0;
                while other < found.len()
                    invariant
                        other <= found@.len(),
                        found@ == goal,
                        at < found@.len(),
                        goal[at as int] == Some(span),
                        clash == exists|o: int|
                            0 <= o < other && o != at && (o == primary || o < at) && goal[o] is Some
                                && colliding(#[trigger] goal[o]->0, goal[at as int]->0),
                    decreases found@.len() - other,
                {
                    if other != at && (other == primary || other < at) {
                        if let Some(there) = found[other] {
                            if collide(there, span) {
                                clash = true;
                                assert(colliding(goal[other as int]->0, goal[at as int]->0));
                            }
                        }
                    }
                    other = other + 1;
                }
                assert(clash == collides(goal, primary as int, at as int));
                if !clash {
                    kept.push(span);
                }
            }
        }
        at = at + 1;
    }
    (kept, kept_primary)
}

/// No two copies collide, and so none share a character: their edits can all go
/// in at once.
pub proof fn copies_never_overlap(found: Seq<Option<Span>>, primary: int, count: int)
    requires
        0 <= primary < found.len(),
        0 <= count <= found.len(),
    ensures
        forall|i: int, j: int|
            0 <= i < j < kept_of(found, primary, count).len() ==> !colliding(
                #[trigger] kept_of(found, primary, count)[i],
                #[trigger] kept_of(found, primary, count)[j],
            ) && !overlapping(
                kept_of(found, primary, count)[i],
                kept_of(found, primary, count)[j],
            ),
        forall|i: int|
            0 <= i < kept_of(found, primary, count).len() ==> exists|at: int|
                0 <= at < count && #[trigger] is_kept(found, primary, at) && found[at]->0
                    == #[trigger] kept_of(found, primary, count)[i],
    decreases count,
{
    if count > 0 {
        copies_never_overlap(found, primary, count - 1);
        let rest = kept_of(found, primary, count - 1);
        let kept = kept_of(found, primary, count);
        if is_kept(found, primary, count - 1) {
            assert forall|i: int, j: int| 0 <= i < j < kept.len() implies !colliding(
                #[trigger] kept[i],
                #[trigger] kept[j],
            ) && !overlapping(kept[i], kept[j]) by {
                spans_touch_both_ways(kept[i], kept[j]);
                if j == kept.len() - 1 {
                    assert(kept[i] == rest[i]);
                    let at = choose|at: int|
                        0 <= at < count - 1 && #[trigger] is_kept(found, primary, at) && found[at]->0
                            == rest[i];
                    assert(is_kept(found, primary, at));
                    if colliding(found[at]->0, found[count - 1]->0) {
                        spans_touch_both_ways(found[at]->0, found[count - 1]->0);
                        if count - 1 == primary {
                            assert(colliding(found[count - 1]->0, found[at]->0));
                            assert(collides(found, primary, at));
                        } else {
                            assert(collides(found, primary, count - 1));
                        }
                    }
                } else {
                    assert(kept[i] == rest[i] && kept[j] == rest[j]);
                }
            }
        }
        assert forall|i: int| 0 <= i < kept.len() implies exists|at: int|
            0 <= at < count && #[trigger] is_kept(found, primary, at) && found[at]->0
                == #[trigger] kept[i] by {
            if i < rest.len() {
                assert(kept[i] == rest[i]);
                let at = choose|at: int|
                    0 <= at < count - 1 && #[trigger] is_kept(found, primary, at) && found[at]->0
                        == rest[i];
                assert(is_kept(found, primary, at));
            } else {
                assert(is_kept(found, primary, count - 1));
            }
        }
    }
}

/// With the carets in order the copies are too.
pub proof fn copies_are_in_the_order_of_their_carets(
    text: Seq<char>,
    selections: Seq<Selection>,
    primary: int,
    from: usize,
    head: usize,
    to: usize,
    count: int,
)
    requires
        0 <= primary < selections.len(),
        0 <= count <= selections.len(),
        from <= head <= to,
        selections[primary].head == head,
        forall|i: int, j: int|
            0 <= i < j < selections.len() ==> (#[trigger] selections[i]).head <= (
            #[trigger] selections[j]).head,
    ensures
        ({
            let kept = kept_of(
                copies_at(text, selections, primary, from, head, to),
                primary,
                count,
            );
            forall|i: int, j: int|
                0 <= i < j < kept.len() ==> (#[trigger] kept[i]).0 <= (#[trigger] kept[j]).0
        }),
    decreases count,
{
    if count > 0 {
        copies_are_in_the_order_of_their_carets(
            text,
            selections,
            primary,
            from,
            head,
            to,
            count - 1,
        );
        let found = copies_at(text, selections, primary, from, head, to);
        let rest = kept_of(found, primary, count - 1);
        let kept = kept_of(found, primary, count);
        copies_never_overlap(found, primary, count - 1);
        assert forall|i: int, j: int| 0 <= i < j < kept.len() implies (#[trigger] kept[i]).0 <= (
        #[trigger] kept[j]).0 by {
            assert(kept[i] == rest[i]);
            if j < rest.len() {
                assert(kept[j] == rest[j]);
            } else {
                let at = choose|at: int|
                    0 <= at < count - 1 && #[trigger] is_kept(found, primary, at) && found[at]->0
                        == rest[i];
                assert(is_kept(found, primary, at));
                assert(selections[at].head <= selections[count - 1].head);
            }
        }
    }
}

// ── the edits ───────────────────────────────────────────────────────────────

/// Whether any of `spans` touches `span`.
pub open spec fn any_touches(spans: Seq<Span>, span: Span) -> bool {
    exists|i: int| 0 <= i < spans.len() && touching(#[trigger] spans[i], span)
}

/// The stretches `edits` are over.
pub open spec fn stretches(edits: Seq<EditModel>) -> Seq<Span> {
    Seq::new(edits.len(), |i: int| (edits[i].0, edits[i].1))
}

/// Whether both put text in at one place and take nothing out.
pub open spec fn same_place(a: EditModel, b: EditModel) -> bool {
    a.0 == b.0 && a.1 == b.1 && b.0 == b.1
}

/// The first of the first `count` of `placed` that puts text in where `edit`
/// does.
pub open spec fn first_same(placed: Seq<EditModel>, edit: EditModel, count: int) -> Option<int>
    decreases count,
{
    if count <= 0 {
        None
    } else if first_same(placed, edit, count - 1) is Some {
        first_same(placed, edit, count - 1)
    } else if same_place(placed[count - 1], edit) {
        Some(count - 1)
    } else {
        None
    }
}

/// `placed` with `edit` added, unless it touches a copy or an edit there
/// already. Two inserts at one place go in one after the other.
pub open spec fn with_edit(
    copies: Seq<Span>,
    placed: Seq<EditModel>,
    edit: EditModel,
) -> Seq<EditModel> {
    let same = first_same(placed, edit, placed.len() as int);
    if any_touches(copies, (edit.0, edit.1)) {
        placed
    } else if same is Some {
        let there = placed[same->0];
        placed.update(same->0, (there.0, there.1, there.2 + edit.2))
    } else if any_touches(stretches(placed), (edit.0, edit.1)) {
        placed
    } else {
        placed.push(edit)
    }
}

/// The edits elsewhere that go in with the copies.
pub open spec fn elsewhere_of(copies: Seq<Span>, additional: Seq<EditModel>) -> Seq<EditModel>
    decreases additional.len(),
{
    if additional.len() == 0 {
        Seq::empty()
    } else {
        with_edit(copies, elsewhere_of(copies, additional.drop_last()), additional.last())
    }
}

/// Every edit, the copies' first.
pub open spec fn all_edits(
    copies: Seq<Span>,
    texts: Seq<Seq<char>>,
    additional: Seq<EditModel>,
) -> Seq<EditModel> {
    Seq::new(copies.len(), |i: int| (copies[i].0, copies[i].1, texts[i])) + elsewhere_of(
        copies,
        additional,
    )
}

/// What edits are put in order by: where they start.
pub open spec fn start_keys(edits: Seq<EditModel>) -> Seq<Key> {
    Seq::new(edits.len(), |i: int| (edits[i].0, 0usize, 0usize))
}

/// How much the first `count` of `edits` put in.
pub open spec fn put_in(edits: Seq<EditModel>, count: int) -> int
    decreases count,
{
    if count <= 0 {
        0
    } else {
        put_in(edits, count - 1) + edits[count - 1].2.len()
    }
}

/// How much the first `count` of `edits` take out.
pub open spec fn taken_out(edits: Seq<EditModel>, count: int) -> int
    decreases count,
{
    if count <= 0 {
        0
    } else {
        let edit = edits[count - 1];
        taken_out(edits, count - 1) + if edit.1 >= edit.0 {
            edit.1 - edit.0
        } else {
            0
        }
    }
}

/// How much longer the text is for the first `count` of `edits`.
pub open spec fn growth(edits: Seq<EditModel>, count: int) -> int {
    put_in(edits, count) - taken_out(edits, count)
}

/// A place moved by `by`, held to the places there are.
pub open spec fn moved(at: int, by: int) -> int {
    if at + by < 0 {
        0
    } else {
        held(at + by)
    }
}

/// The plan of a completion: its edits in order, and where each copy starts
/// once they have all gone in.
pub open spec fn is_plan(
    edits: Seq<EditModel>,
    bases: Seq<usize>,
    copies: Seq<Span>,
    texts: Seq<Seq<char>>,
    additional: Seq<EditModel>,
) -> bool {
    let all = all_edits(copies, texts, additional);
    &&& bases.len() == copies.len()
    &&& exists|order: Seq<usize>|
        {
            &&& #[trigger] is_ranking(order, start_keys(all))
            &&& edits == picked(all, order)
            &&& forall|n: int|
                0 <= n < order.len() && (#[trigger] order[n]) < copies.len()
                    ==> bases[order[n] as int] == moved(edits[n].0 as int, growth(edits, n))
        }
}

fn touches_any(spans: &Vec<Span>, span: Span) -> (any: bool)
    ensures
        any == any_touches(spans@, span),
{
    let mut i: usize = 0;
    while i < spans.len()
        invariant
            i <= spans@.len(),
            forall|k: int| 0 <= k < i ==> !touching(#[trigger] spans@[k], span),
        decreases spans@.len() - i,
    {
        if touches(spans[i], span) {
            assert(touching(spans@[i as int], span));
            return true;
        }
        i = i + 1;
    }
    false
}

fn touches_edit(edits: &Vec<Edit>, span: Span) -> (any: bool)
    ensures
        any == any_touches(stretches(models(edits@)), span),
{
    let ghost all = stretches(models(edits@));
    let mut i: usize = 0;
    while i < edits.len()
        invariant
            i <= edits@.len(),
            all == stretches(models(edits@)),
            forall|k: int| 0 <= k < i ==> !touching(#[trigger] all[k], span),
        decreases edits@.len() - i,
    {
        assert(all[i as int] == (edits@[i as int].start, edits@[i as int].end));
        if touches((edits[i].start, edits[i].end), span) {
            assert(touching(all[i as int], span));
            return true;
        }
        i = i + 1;
    }
    false
}

fn find_same(placed: &Vec<Edit>, edit: &Edit) -> (found: Option<usize>)
    ensures
        match found {
            Some(at) => at < placed@.len() && first_same(
                models(placed@),
                edit@,
                placed@.len() as int,
            ) == Some(at as int),
            None => first_same(models(placed@), edit@, placed@.len() as int) is None,
        },
{
    let mut found: Option<usize> = None;
    let mut i: usize = 0;
    while i < placed.len()
        invariant
            i <= placed@.len(),
            match found {
                Some(at) => at < i && first_same(models(placed@), edit@, i as int) == Some(
                    at as int,
                ),
                None => first_same(models(placed@), edit@, i as int) is None,
            },
        decreases placed@.len() - i,
    {
        let there = &placed[i];
        let same = there.start == edit.start && there.end == edit.end && edit.start == edit.end;
        assert(same == same_place(models(placed@)[i as int], edit@));
        if found.is_none() && same {
            found = Some(i);
        }
        i = i + 1;
    }
    found
}

/// The edits elsewhere that go in with the copies.
fn elsewhere(copies: &Vec<Span>, additional: &Vec<Edit>) -> (placed: Vec<Edit>)
    ensures
        models(placed@) == elsewhere_of(copies@, models(additional@)),
{
    let ghost goal = models(additional@);
    let mut placed: Vec<Edit> = Vec::new();
    let mut i: usize = 0;
    assert(models(placed@) =~= elsewhere_of(copies@, goal.take(0)));
    while i < additional.len()
        invariant
            i <= additional@.len(),
            goal == models(additional@),
            models(placed@) == elsewhere_of(copies@, goal.take(i as int)),
        decreases additional@.len() - i,
    {
        assert(goal.take(i + 1).drop_last() =~= goal.take(i as int));
        let edit = &additional[i];
        let ghost before = models(placed@);
        assert(goal[i as int] == edit@);
        if !touches_any(copies, (edit.start, edit.end)) {
            match find_same(&placed, edit) {
                Some(at) => {
                    let mut text = placed[at].text.clone();
                    text.append(edit.text.as_str());
                    let there = Edit { start: placed[at].start, end: placed[at].end, text };
                    placed.set(at, there);
                    assert(models(placed@) =~= with_edit(copies@, before, edit@));
                },
                None => {
                    if !touches_edit(&placed, (edit.start, edit.end)) {
                        placed.push(edit.clone());
                        assert(models(placed@) =~= with_edit(copies@, before, edit@));
                    }
                },
            }
        }
        i = i + 1;
    }
    assert(goal.take(additional@.len() as int) =~= goal);
    placed
}

/// `at`, with `more` added and `less` taken away, held to the places there
/// are.
fn moved_by(at: usize, more: u128, less: u128) -> (to: usize)
    requires
        at + more <= u128::MAX,
    ensures
        to == moved(at as int, more - less),
{
    let high: u128 = at as u128 + more;
    if high < less {
        0
    } else if high - less > usize::MAX as u128 {
        usize::MAX
    } else {
        (high - less) as usize
    }
}

/// However many edits a list holds, what they put in and take out can be
/// counted, with room for a place besides.
proof fn counts_fit(count: int)
    by (nonlinear_arith)
    requires
        0 <= count <= usize::MAX,
    ensures
        count * usize::MAX + usize::MAX <= u128::MAX,
        (count - 1) * usize::MAX + usize::MAX == count * usize::MAX,
{
}

/// The edits that put each of `texts` over its span in `copies`, with
/// `additional` where it touches none of them or each other; and where each
/// copy starts once they have all gone in.
pub fn plan(copies: &Vec<Span>, texts: &Vec<String>, additional: &Vec<Edit>) -> (planned: (
    Vec<Edit>,
    Vec<usize>,
))
    requires
        texts@.len() == copies@.len(),
    ensures
        is_plan(
            models(planned.0@),
            planned.1@,
            copies@,
            crate::unicode::views(texts@),
            models(additional@),
        ),
{
    let ghost views = crate::unicode::views(texts@);
    let ghost all = all_edits(copies@, views, models(additional@));
    let mut edits: Vec<Edit> = Vec::new();
    let mut i: usize = 0;
    while i < copies.len()
        invariant
            i <= copies@.len() == texts@.len(),
            views == crate::unicode::views(texts@),
            edits@.len() == i,
            forall|k: int|
                0 <= k < i ==> (#[trigger] edits@[k])@ == (copies@[k].0, copies@[k].1, views[k]),
        decreases copies@.len() - i,
    {
        edits.push(Edit::replace(copies[i].0, copies[i].1, texts[i].clone()));
        i = i + 1;
    }
    let mut placed = elsewhere(copies, additional);
    let ghost others = placed@;
    edits.append(&mut placed);
    assert(models(edits@) =~= all) by {
        assert forall|k: int| 0 <= k < all.len() implies models(edits@)[k] == all[k] by {
            if k < copies@.len() {
                assert(edits@[k]@ == (copies@[k].0, copies@[k].1, views[k]));
            } else {
                assert(edits@[k] == others[k - copies@.len()]);
                assert(models(others)[k - copies@.len()] == all[k]);
            }
        }
    }

    let mut keys: Vec<Key> = Vec::new();
    let mut i: usize = 0;
    while i < edits.len()
        invariant
            i <= edits@.len(),
            models(edits@) == all,
            keys@ =~= start_keys(all).take(i as int),
        decreases edits@.len() - i,
    {
        assert(models(edits@)[i as int] == edits@[i as int]@);
        keys.push((edits[i].start, 0, 0));
        i = i + 1;
    }
    assert(start_keys(all).take(edits@.len() as int) =~= start_keys(all));
    let order = ranking(&keys);
    let ghost sorted = picked(all, order@);

    let mut bases: Vec<usize> = Vec::new();
    let mut i: usize = 0;
    while i < copies.len()
        invariant
            i <= copies@.len(),
            bases@.len() == i,
        decreases copies@.len() - i,
    {
        bases.push(0);
        i = i + 1;
    }
    let mut planned: Vec<Edit> = Vec::new();
    let mut more: u128 = 0;
    let mut less: u128 = 0;
    let mut n: usize = 0;
    while n < order.len()
        invariant
            n <= order@.len() == edits@.len(),
            models(edits@) == all,
            is_ranking(order@, start_keys(all)),
            sorted == picked(all, order@),
            bases@.len() == copies@.len(),
            planned@.len() == n,
            forall|k: int| 0 <= k < n ==> (#[trigger] planned@[k])@ == sorted[k],
            more == put_in(sorted, n as int),
            less == taken_out(sorted, n as int),
            more <= n * usize::MAX,
            less <= n * usize::MAX,
            forall|k: int|
                0 <= k < n && (#[trigger] order@[k]) < copies@.len() ==> bases@[order@[k] as int]
                    == moved(sorted[k].0 as int, growth(sorted, k)),
        decreases order@.len() - n,
    {
        let at: usize = order[n];
        assert(at < start_keys(all).len());
        let edit = &edits[at];
        assert(models(edits@)[at as int] == edit@);
        proof {
            counts_fit(n as int);
            counts_fit(n + 1);
        }
        if at < copies.len() {
            let base = moved_by(edit.start, more, less);
            let ghost before = bases@;
            bases.set(at, base);
            proof {
                assert forall|k: int| 0 <= k < n && (#[trigger] order@[k])
                    < copies@.len() implies bases@[order@[k] as int] == moved(
                    sorted[k].0 as int,
                    growth(sorted, k),
                ) by {
                    assert(ranked(start_keys(all), order@[k], order@[n as int]));
                    assert(bases@[order@[k] as int] == before[order@[k] as int]);
                }
            }
        }
        more = more + edit.inserted() as u128;
        less = less + edit.removed() as u128;
        planned.push(edit.clone());
        n = n + 1;
    }
    assert(models(planned@) =~= sorted);
    (planned, bases)
}

/// Where `at` is once `edits` have all gone in, the first `n` of them behind
/// it already.
pub open spec fn shifted_from(edits: Seq<EditModel>, at: int, n: int) -> int
    decreases edits.len() - n,
{
    if n < 0 || n >= edits.len() || edits[n].0 > at {
        moved(at, growth(edits, n))
    } else if at <= edits[n].1 && edits[n].0 < edits[n].1 {
        moved(held(edits[n].0 + edits[n].2.len()), growth(edits, n))
    } else {
        shifted_from(edits, at, n + 1)
    }
}

/// Where `at` is once `edits` — in order, apart, in the text before any of
/// them — have all gone in. A place inside one ends up after what it put
/// there.
pub fn shifted(edits: &Vec<Edit>, at: usize) -> (to: usize)
    ensures
        to == shifted_from(models(edits@), at as int, 0),
{
    let ghost all = models(edits@);
    let mut more: u128 = 0;
    let mut less: u128 = 0;
    let mut n: usize = 0;
    while n < edits.len()
        invariant
            n <= edits@.len(),
            all == models(edits@),
            more == put_in(all, n as int),
            less == taken_out(all, n as int),
            more <= n * usize::MAX,
            less <= n * usize::MAX,
            shifted_from(all, at as int, 0) == shifted_from(all, at as int, n as int),
        decreases edits@.len() - n,
    {
        let edit = &edits[n];
        assert(all[n as int] == edit@);
        proof {
            counts_fit(n as int);
            counts_fit(n + 1);
        }
        if edit.start > at {
            return moved_by(at, more, less);
        }
        if at <= edit.end && edit.start < edit.end {
            return moved_by(edit.end_after(), more, less);
        }
        more = more + edit.inserted() as u128;
        less = less + edit.removed() as u128;
        n = n + 1;
    }
    proof {
        counts_fit(n as int);
    }
    moved_by(at, more, less)
}

// ── what the plan keeps to ──────────────────────────────────────────────────

/// Whether `edits` are edits of `text`, in order and apart.
pub open spec fn in_order(edits: Seq<EditModel>, text: Seq<char>) -> bool {
    &&& forall|i: int|
        0 <= i < edits.len() ==> (#[trigger] edits[i]).0 <= edits[i].1 && edits[i].1 <= text.len()
    &&& forall|i: int, j: int|
        0 <= i < j < edits.len() ==> (#[trigger] edits[i]).1 <= (#[trigger] edits[j]).0
}

/// `text` with one edit made.
pub open spec fn made(text: Seq<char>, edit: EditModel) -> Seq<char> {
    text.take(edit.0 as int) + edit.2 + text.skip(edit.1 as int)
}

/// `text` with all of `edits` made, each where it is in `text` as it stands:
/// the last first, so none moves another.
pub open spec fn all_made(text: Seq<char>, edits: Seq<EditModel>) -> Seq<char>
    decreases edits.len(),
{
    if edits.len() == 0 {
        text
    } else {
        all_made(made(text, edits.last()), edits.drop_last())
    }
}

/// What the first `count` put in and take out does not depend on the rest.
proof fn growth_of_prefix(edits: Seq<EditModel>, count: int)
    requires
        0 <= count < edits.len(),
    ensures
        put_in(edits.drop_last(), count) == put_in(edits, count),
        taken_out(edits.drop_last(), count) == taken_out(edits, count),
    decreases count,
{
    if count > 0 {
        growth_of_prefix(edits, count - 1);
    }
}

/// What is past every edit is still there, moved along by what they put in
/// and took out.
proof fn text_past_the_edits_moves_along(text: Seq<char>, edits: Seq<EditModel>, at: int)
    requires
        in_order(edits, text),
        0 <= at <= text.len(),
        edits.len() > 0 ==> edits.last().1 <= at,
    ensures
        ({
            let by = growth(edits, edits.len() as int);
            &&& all_made(text, edits).len() == text.len() + by
            &&& 0 <= at + by
            &&& all_made(text, edits).skip(at + by) == text.skip(at)
        }),
    decreases edits.len(),
{
    if edits.len() > 0 {
        let last = edits.last();
        let rest = edits.drop_last();
        let next = made(text, last);
        let by = last.2.len() - (last.1 - last.0);
        assert(edits[edits.len() - 1] == last);
        assert forall|i: int| 0 <= i < rest.len() implies (#[trigger] rest[i]).0 <= rest[i].1
            && rest[i].1 <= next.len() by {
            assert(rest[i] == edits[i]);
            assert(edits[i].1 <= edits[edits.len() - 1].0);
        }
        assert forall|i: int, j: int| 0 <= i < j < rest.len() implies (#[trigger] rest[i]).1 <= (
        #[trigger] rest[j]).0 by {
            assert(rest[i] == edits[i] && rest[j] == edits[j]);
        }
        if rest.len() > 0 {
            assert(rest.last() == edits[edits.len() - 2]);
            assert(edits[edits.len() - 2].1 <= edits[edits.len() - 1].0);
        }
        text_past_the_edits_moves_along(next, rest, at + by);
        growth_of_prefix(edits, edits.len() - 1);
        assert(next.skip(at + by) =~= text.skip(at));
    }
}

/// Each edit's text lands where the plan says: after the edits have all gone
/// in, what the `n`th put in starts at its own start, moved along by the edits
/// before it.
pub proof fn each_edit_lands_where_it_is_planned(
    text: Seq<char>,
    edits: Seq<EditModel>,
    n: int,
)
    requires
        in_order(edits, text),
        0 <= n < edits.len(),
    ensures
        ({
            let at = edits[n].0 + growth(edits, n);
            let after = all_made(text, edits);
            &&& 0 <= at <= at + edits[n].2.len() <= after.len()
            &&& after.subrange(at, at + edits[n].2.len()) == edits[n].2
        }),
    decreases edits.len(),
{
    let last = edits.last();
    let rest = edits.drop_last();
    let next = made(text, last);
    assert(edits[edits.len() - 1] == last);
    assert forall|i: int| 0 <= i < rest.len() implies (#[trigger] rest[i]).0 <= rest[i].1
        && rest[i].1 <= next.len() by {
        assert(rest[i] == edits[i]);
        assert(edits[i].1 <= edits[edits.len() - 1].0);
    }
    assert forall|i: int, j: int| 0 <= i < j < rest.len() implies (#[trigger] rest[i]).1 <= (
    #[trigger] rest[j]).0 by {
        assert(rest[i] == edits[i] && rest[j] == edits[j]);
    }
    growth_of_prefix(edits, n);
    if n < edits.len() - 1 {
        each_edit_lands_where_it_is_planned(next, rest, n);
    } else {
        if rest.len() > 0 {
            assert(rest.last() == edits[edits.len() - 2]);
            assert(edits[edits.len() - 2].1 <= edits[edits.len() - 1].0);
        }
        text_past_the_edits_moves_along(next, rest, last.0 as int);
        let at = last.0 + growth(rest, rest.len() as int);
        let after = all_made(text, edits);
        let len = last.2.len() as int;
        assert(after.skip(at) == next.skip(last.0 as int));
        assert(after.subrange(at, at + len) =~= after.skip(at).take(len));
        assert(next.skip(last.0 as int).take(len) =~= last.2);
    }
}

/// Whether text goes in at `at` just after an edit that took some out ended
/// there: a place between the two keeps to the first.
pub open spec fn between_two(edits: Seq<EditModel>, at: int) -> bool {
    exists|i: int, j: int|
        0 <= i < j < edits.len() && (#[trigger] edits[i]).0 < edits[i].1 && edits[i].1 == at && (
        #[trigger] edits[j]).0 == at
}

/// What a place outside every edit held is still there, where the place has
/// been shifted to: a caret the completion does not go in at stays with its
/// text.
pub proof fn a_place_outside_the_edits_keeps_its_text(
    text: Seq<char>,
    edits: Seq<EditModel>,
    at: int,
)
    requires
        in_order(edits, text),
        0 <= at < text.len(),
        text.len() + put_in(edits, edits.len() as int) <= usize::MAX,
        forall|i: int|
            0 <= i < edits.len() ==> at < (#[trigger] edits[i]).0 || edits[i].1 <= at,
        !between_two(edits, at),
    ensures
        shifted_from(edits, at, 0) < all_made(text, edits).len(),
        all_made(text, edits)[shifted_from(edits, at, 0)] == text[at],
{
    shifted_to_count(text, edits, at, 0);
    let count = behind(edits, at, 0);
    kept_text(text, edits, at, count);
    put_in_grows(edits, count, edits.len() as int);
}

/// How many of `edits`, from the `n`th on, start at or before `at`.
spec fn behind(edits: Seq<EditModel>, at: int, n: int) -> int
    decreases edits.len() - n,
{
    if n < 0 || n >= edits.len() || edits[n].0 > at {
        n
    } else {
        behind(edits, at, n + 1)
    }
}

proof fn put_in_grows(edits: Seq<EditModel>, from: int, to: int)
    requires
        0 <= from <= to <= edits.len(),
    ensures
        put_in(edits, from) <= put_in(edits, to),
        taken_out(edits, from) <= taken_out(edits, to),
        0 <= put_in(edits, from),
        0 <= taken_out(edits, from),
    decreases to,
{
    if from < to {
        put_in_grows(edits, from, to - 1);
    } else if to > 0 {
        put_in_grows(edits, to - 1, to - 1);
    }
}

/// What edits behind a place take out is behind it.
proof fn taken_from_behind(text: Seq<char>, edits: Seq<EditModel>, count: int)
    requires
        in_order(edits, text),
        0 < count <= edits.len(),
    ensures
        taken_out(edits, count) <= edits[count - 1].1,
        taken_out(edits, count - 1) <= edits[count - 1].0,
    decreases count,
{
    if count > 1 {
        taken_from_behind(text, edits, count - 1);
        assert(edits[count - 2].1 <= edits[count - 1].0);
    } else {
        assert(taken_out(edits, 0) == 0);
    }
}

proof fn shifted_to_count(text: Seq<char>, edits: Seq<EditModel>, at: int, n: int)
    requires
        in_order(edits, text),
        0 <= n <= edits.len(),
        0 <= at < text.len(),
        text.len() + put_in(edits, edits.len() as int) <= usize::MAX,
        forall|i: int|
            0 <= i < edits.len() ==> at < (#[trigger] edits[i]).0 || edits[i].1 <= at,
        forall|i: int| 0 <= i < n ==> (#[trigger] edits[i]).0 <= at,
        !between_two(edits, at),
    ensures
        n <= behind(edits, at, n) <= edits.len(),
        forall|i: int| 0 <= i < behind(edits, at, n) ==> (#[trigger] edits[i]).1 <= at,
        forall|i: int| behind(edits, at, n) <= i < edits.len() ==> at < (#[trigger] edits[i]).0,
        shifted_from(edits, at, n) == at + growth(edits, behind(edits, at, n)),
    decreases edits.len() - n,
{
    put_in_grows(edits, n, edits.len() as int);
    if n > 0 {
        taken_from_behind(text, edits, n);
        assert(edits[n - 1].1 <= at);
    }
    if n >= edits.len() {
    } else if edits[n].0 > at {
        assert forall|i: int| n <= i < edits.len() implies at < (#[trigger] edits[i]).0 by {
            if i > n {
                assert(edits[n].1 <= edits[i].0);
            }
        }
    } else {
        assert(edits[n].1 <= at);
        shifted_to_count(text, edits, at, n + 1);
        if at <= edits[n].1 && edits[n].0 < edits[n].1 {
            // It ends just where the place is, so the place is just after
            // what it put in, and the next edit, if any, starts further on.
            if n + 1 < edits.len() {
                assert(edits[n].1 <= edits[n + 1].0);
                put_in_grows(edits, n + 1, edits.len() as int);
                assert(edits[n + 1].0 > at);
            }
            put_in_grows(edits, n + 1, edits.len() as int);
        }
    }
}

proof fn kept_text(text: Seq<char>, edits: Seq<EditModel>, at: int, count: int)
    requires
        in_order(edits, text),
        0 <= at < text.len(),
        0 <= count <= edits.len(),
        forall|i: int| 0 <= i < count ==> (#[trigger] edits[i]).1 <= at,
        forall|i: int| count <= i < edits.len() ==> at < (#[trigger] edits[i]).0,
    ensures
        0 <= at + growth(edits, count) < all_made(text, edits).len(),
        all_made(text, edits)[at + growth(edits, count)] == text[at],
    decreases edits.len(),
{
    if edits.len() == count {
        if count > 0 {
            assert(edits[count - 1].1 <= at);
        }
        text_past_the_edits_moves_along(text, edits, at);
        let by = growth(edits, count);
        assert(all_made(text, edits).skip(at + by)[0] == text.skip(at)[0]);
    } else {
        let last = edits.last();
        let rest = edits.drop_last();
        let next = made(text, last);
        assert(edits[edits.len() - 1] == last);
        assert forall|i: int| 0 <= i < rest.len() implies (#[trigger] rest[i]).0 <= rest[i].1
            && rest[i].1 <= next.len() by {
            assert(rest[i] == edits[i]);
            assert(edits[i].1 <= edits[edits.len() - 1].0);
        }
        assert forall|i: int, j: int| 0 <= i < j < rest.len() implies (#[trigger] rest[i]).1 <= (
        #[trigger] rest[j]).0 by {
            assert(rest[i] == edits[i] && rest[j] == edits[j]);
        }
        assert forall|i: int| 0 <= i < count implies (#[trigger] rest[i]).1 <= at by {
            assert(rest[i] == edits[i]);
        }
        assert forall|i: int| count <= i < rest.len() implies at < (#[trigger] rest[i]).0 by {
            assert(rest[i] == edits[i]);
        }
        assert(next[at] == text[at]);
        kept_text(next, rest, at, count);
        growth_of_prefix(edits, count);
    }
}

/// The edits elsewhere touch neither a copy nor each other, and are edits of
/// `text` where the ones asked for are.
proof fn edits_elsewhere_keep_away(
    copies: Seq<Span>,
    additional: Seq<EditModel>,
    text: Seq<char>,
)
    requires
        forall|i: int|
            0 <= i < additional.len() ==> (#[trigger] additional[i]).0 <= additional[i].1
                && additional[i].1 <= text.len(),
    ensures
        ({
            let placed = elsewhere_of(copies, additional);
            &&& forall|i: int|
                0 <= i < placed.len() ==> (#[trigger] placed[i]).0 <= placed[i].1 && placed[i].1
                    <= text.len() && !any_touches(copies, (placed[i].0, placed[i].1))
            &&& forall|i: int, j: int|
                0 <= i < placed.len() && 0 <= j < placed.len() && i != j ==> !touching(
                    ((#[trigger] placed[i]).0, placed[i].1),
                    ((#[trigger] placed[j]).0, placed[j].1),
                )
        }),
    decreases additional.len(),
{
    if additional.len() > 0 {
        let rest = additional.drop_last();
        let edit = additional.last();
        assert(edit == additional[additional.len() - 1]);
        assert forall|i: int| 0 <= i < rest.len() implies (#[trigger] rest[i]).0 <= rest[i].1
            && rest[i].1 <= text.len() by {
            assert(rest[i] == additional[i]);
        }
        edits_elsewhere_keep_away(copies, rest, text);
        let before = elsewhere_of(copies, rest);
        let placed = elsewhere_of(copies, additional);
        let same = first_same(before, edit, before.len() as int);
        first_same_is_one(before, edit, before.len() as int);
        if any_touches(copies, (edit.0, edit.1)) {
        } else if same is Some {
            assert forall|i: int| 0 <= i < placed.len() implies (#[trigger] placed[i]).0
                == before[i].0 && placed[i].1 == before[i].1 by {}
            assert forall|i: int| 0 <= i < placed.len() implies (#[trigger] placed[i]).0
                <= placed[i].1 && placed[i].1 <= text.len() && !any_touches(
                copies,
                (placed[i].0, placed[i].1),
            ) by {
                assert(before[i].0 <= before[i].1);
            }
            assert forall|i: int, j: int|
                0 <= i < placed.len() && 0 <= j < placed.len() && i != j implies !touching(
                ((#[trigger] placed[i]).0, placed[i].1),
                ((#[trigger] placed[j]).0, placed[j].1),
            ) by {
                assert(!touching((before[i].0, before[i].1), (before[j].0, before[j].1)));
            }
        } else if any_touches(stretches(before), (edit.0, edit.1)) {
        } else {
            assert forall|i: int| 0 <= i < before.len() implies !touching(
                ((#[trigger] before[i]).0, before[i].1),
                (edit.0, edit.1),
            ) by {
                assert(stretches(before)[i] == (before[i].0, before[i].1));
            }
            assert forall|i: int| 0 <= i < placed.len() implies (#[trigger] placed[i]).0
                <= placed[i].1 && placed[i].1 <= text.len() && !any_touches(
                copies,
                (placed[i].0, placed[i].1),
            ) by {
                if i < before.len() {
                    assert(placed[i] == before[i]);
                }
            }
            assert forall|i: int, j: int|
                0 <= i < placed.len() && 0 <= j < placed.len() && i != j implies !touching(
                ((#[trigger] placed[i]).0, placed[i].1),
                ((#[trigger] placed[j]).0, placed[j].1),
            ) by {
                if i < before.len() {
                    assert(placed[i] == before[i]);
                }
                if j < before.len() {
                    assert(placed[j] == before[j]);
                }
            }
        }
    }
}

proof fn first_same_is_one(placed: Seq<EditModel>, edit: EditModel, count: int)
    requires
        0 <= count <= placed.len(),
    ensures
        first_same(placed, edit, count) matches Some(at) ==> 0 <= at < count && same_place(
            placed[at],
            edit,
        ),
    decreases count,
{
    if count > 0 {
        first_same_is_one(placed, edit, count - 1);
    }
}

/// A plan's edits can all go in at once: they are edits of the text, in order
/// and apart, with the copies apart and everything asked for in the text. So
/// each lands where the plan says.
pub proof fn a_plan_s_edits_are_in_order_and_apart(
    text: Seq<char>,
    edits: Seq<EditModel>,
    bases: Seq<usize>,
    copies: Seq<Span>,
    texts: Seq<Seq<char>>,
    additional: Seq<EditModel>,
)
    requires
        is_plan(edits, bases, copies, texts, additional),
        texts.len() == copies.len(),
        forall|i: int|
            0 <= i < copies.len() ==> (#[trigger] copies[i]).0 <= copies[i].1 && copies[i].1
                <= text.len(),
        forall|i: int, j: int|
            0 <= i < j < copies.len() ==> (#[trigger] copies[i]).1 <= (#[trigger] copies[j]).0,
        forall|i: int|
            0 <= i < additional.len() ==> (#[trigger] additional[i]).0 <= additional[i].1
                && additional[i].1 <= text.len(),
    ensures
        in_order(edits, text),
{
    let all = all_edits(copies, texts, additional);
    let placed = elsewhere_of(copies, additional);
    edits_elsewhere_keep_away(copies, additional, text);
    let order = choose|order: Seq<usize>|
        {
            &&& #[trigger] is_ranking(order, start_keys(all))
            &&& edits == picked(all, order)
            &&& forall|n: int|
                0 <= n < order.len() && (#[trigger] order[n]) < copies.len()
                    ==> bases[order[n] as int] == moved(edits[n].0 as int, growth(edits, n))
        };
    assert forall|i: int| 0 <= i < edits.len() implies (#[trigger] edits[i]).0 <= edits[i].1
        && edits[i].1 <= text.len() by {
        let at = order[i] as int;
        assert(order[i] < start_keys(all).len());
        if at < copies.len() {
            assert(copies[at].0 <= copies[at].1);
        } else {
            assert(all[at] == placed[at - copies.len()]);
        }
    }
    assert forall|n: int, m: int| 0 <= n < m < edits.len() implies (#[trigger] edits[n]).1 <= (
    #[trigger] edits[m]).0 by {
        let r = order[n] as int;
        let s = order[m] as int;
        assert(order[n] < start_keys(all).len());
        assert(order[m] < start_keys(all).len());
        assert(ranked(start_keys(all), order[n], order[m]));
        assert(all[r].0 <= all[s].0);
        let here = (all[r].0, all[r].1);
        let there = (all[s].0, all[s].1);
        assert(edits[n].0 <= edits[n].1 && edits[m].0 <= edits[m].1);
        if r < copies.len() && s < copies.len() {
            assert(copies[r].0 <= copies[r].1 && copies[s].0 <= copies[s].1);
            if r > s {
                assert(copies[s].1 <= copies[r].0);
            }
        } else if r < copies.len() {
            let p = s - copies.len();
            assert(all[s] == placed[p]);
            assert(copies[r] == here);
            assert(!touching(copies[r], (placed[p].0, placed[p].1)));
        } else if s < copies.len() {
            let p = r - copies.len();
            assert(all[r] == placed[p]);
            assert(copies[s] == there);
            assert(!touching(copies[s], (placed[p].0, placed[p].1)));
        } else {
            let p = r - copies.len();
            let q = s - copies.len();
            assert(all[r] == placed[p] && all[s] == placed[q]);
            assert(!touching((placed[p].0, placed[p].1), (placed[q].0, placed[q].1)));
        }
    }
}

/// A copy goes in at another caret exactly where that caret has nothing selected
/// and the same chars before it as the primary one has, and over those; and over as
/// many after it where they are the same too.
pub proof fn a_copy_goes_in_at_the_same_text(
    text: Seq<char>,
    selections: Seq<Selection>,
    primary: int,
    from: usize,
    head: usize,
    to: usize,
    at: int,
)
    requires
        0 <= at < selections.len(),
        from <= head <= to <= text.len() <= usize::MAX,
        at != primary,
        selections[at].head <= text.len(),
    ensures
        ({
            let caret = selections[at].head;
            let copy = copy_at(text, selections, primary, from, head, to, at);
            &&& copy is Some <==> {
                &&& selections[at].anchor == caret
                &&& head - from <= caret
                &&& forall|k: int|
                    from <= k < head ==> #[trigger] text[k] == text[k + (caret - head)]
            }
            &&& copy matches Some(span) ==> {
                &&& span.0 == caret - (head - from)
                &&& span.1 == caret || span.1 == caret + (to - head)
                &&& span.1 == caret + (to - head) <==> caret + (to - head) <= text.len() && forall|
                    k: int,
                |
                    head <= k < to ==> #[trigger] text[k] == text[k + (caret - head)]
            }
        }),
        copy_at(text, selections, at, from, head, to, at) == Some((from, to)),
{
    let caret = selections[at].head as int;
    let before = head - from;
    let after = to - head;
    if caret >= before {
        same_chars(text, caret - before, from as int, before);
    }
    if caret + after <= text.len() {
        same_chars(text, caret, head as int, after);
    }
    if caret >= before {
        assert((forall|k: int| from <= k < head ==> #[trigger] text[k] == text[k + (caret - head)])
            <==> same_text(text, caret - before, from as int, before)) by {
            if same_text(text, caret - before, from as int, before) {
                assert forall|k: int| from <= k < head implies #[trigger] text[k] == text[k + (caret
                    - head)] by {
                    assert(text[caret - before + (k - from)] == text[from + (k - from)]);
                }
            } else {
                let i = choose|i: int|
                    0 <= i < before && text[caret - before + i] != #[trigger] text[from + i];
                assert(text[from + i] != text[from + i + (caret - head)]);
            }
        }
    }
    if caret + after <= text.len() {
        assert((forall|k: int| head <= k < to ==> #[trigger] text[k] == text[k + (caret - head)])
            <==> same_text(text, caret, head as int, after)) by {
            if same_text(text, caret, head as int, after) {
                assert forall|k: int| head <= k < to implies #[trigger] text[k] == text[k + (caret
                    - head)] by {
                    assert(text[caret + (k - head)] == text[head + (k - head)]);
                }
            } else {
                let i = choose|i: int|
                    0 <= i < after && text[caret + i] != #[trigger] text[head + i];
                assert(text[head + i] != text[head + i + (caret - head)]);
            }
        }
    }
}

proof fn same_chars(text: Seq<char>, a: int, b: int, count: int)
    requires
        0 <= a,
        0 <= b,
        0 <= count,
        a + count <= text.len(),
        b + count <= text.len(),
    ensures
        same_text(text, a, b, count) <==> forall|i: int|
            0 <= i < count ==> text[a + i] == #[trigger] text[b + i],
{
    let here = text.subrange(a, a + count);
    let there = text.subrange(b, b + count);
    if same_text(text, a, b, count) {
        assert forall|i: int| 0 <= i < count implies text[a + i] == #[trigger] text[b + i] by {
            assert(here[i] == there[i]);
        }
    } else if forall|i: int| 0 <= i < count ==> text[a + i] == #[trigger] text[b + i] {
        assert forall|i: int| 0 <= i < count implies here[i] == there[i] by {
            assert(text[a + i] == text[b + i]);
        }
        assert(here =~= there);
    }
}

/// A copy that has every other to one side of it goes in; and the primary caret's
/// always does.
pub proof fn a_copy_clear_of_the_others_goes_in(
    found: Seq<Option<Span>>,
    primary: int,
    count: int,
    at: int,
)
    requires
        0 <= at < count <= found.len(),
        0 <= primary < found.len(),
        found[at] is Some,
        at == primary || forall|other: int|
            0 <= other < found.len() && other != at && (#[trigger] found[other]) is Some ==> (
            found[other]->0).1 <= (found[at]->0).0 || (found[at]->0).1 <= (found[other]->0).0,
    ensures
        kept_of(found, primary, count).contains(found[at]->0),
    decreases count,
{
    let kept = kept_of(found, primary, count);
    if at == count - 1 {
        if at != primary && collides(found, primary, at) {
            let other = choose|other: int|
                0 <= other < found.len() && other != at && (other == primary || other < at)
                    && found[other] is Some && colliding(#[trigger] found[other]->0, found[at]->0);
            assert(found[other] is Some);
        }
        assert(kept.last() == found[at]->0);
        assert(kept[kept.len() - 1] == found[at]->0);
    } else {
        a_copy_clear_of_the_others_goes_in(found, primary, count - 1, at);
        let before = kept_of(found, primary, count - 1);
        let k = choose|k: int| 0 <= k < before.len() && before[k] == found[at]->0;
        assert(kept[k] == found[at]->0);
    }
}

/// An edit elsewhere that is clear of every copy and of every other edit elsewhere
/// is made as it is; one that reaches a copy or its edge is not made.
pub proof fn an_edit_clear_of_the_others_is_made(
    copies: Seq<Span>,
    additional: Seq<EditModel>,
    at: int,
)
    requires
        0 <= at < additional.len(),
        forall|i: int|
            0 <= i < copies.len() ==> (#[trigger] copies[i]).1 < additional[at].0 || additional[at].1
                < copies[i].0,
        forall|i: int|
            0 <= i < additional.len() && i != at ==> (#[trigger] additional[i]).1 < additional[at].0
                || additional[at].1 < additional[i].0,
    ensures
        elsewhere_of(copies, additional).contains(additional[at]),
    decreases additional.len(),
{
    let rest = additional.drop_last();
    let placed = elsewhere_of(copies, rest);
    let all = elsewhere_of(copies, additional);
    let edit = additional.last();
    places_are_asked_for(copies, rest);
    first_same_is_one(placed, edit, placed.len() as int);
    if at == additional.len() - 1 {
        assert forall|p: int| 0 <= p < placed.len() implies !touching(
            ((#[trigger] placed[p]).0, placed[p].1),
            (edit.0, edit.1),
        ) by {
            let i = choose|i: int|
                0 <= i < rest.len() && (#[trigger] rest[i]).0 == placed[p].0 && rest[i].1
                    == placed[p].1;
            assert(rest[i] == additional[i]);
        }
        assert(!any_touches(copies, (edit.0, edit.1)));
        assert(!any_touches(stretches(placed), (edit.0, edit.1))) by {
            if any_touches(stretches(placed), (edit.0, edit.1)) {
                let p = choose|p: int|
                    0 <= p < stretches(placed).len() && touching(
                        #[trigger] stretches(placed)[p],
                        (edit.0, edit.1),
                    );
                assert(!touching((placed[p].0, placed[p].1), (edit.0, edit.1)));
            }
        }
        if let Some(same) = first_same(placed, edit, placed.len() as int) {
            assert(!touching((placed[same].0, placed[same].1), (edit.0, edit.1)));
        }
        assert(all[placed.len() as int] == edit);
    } else {
        assert(rest[at] == additional[at]);
        assert forall|i: int| 0 <= i < rest.len() && i != at implies (#[trigger] rest[i]).1 < rest[at].0
            || rest[at].1 < rest[i].0 by {
            assert(rest[i] == additional[i]);
        }
        an_edit_clear_of_the_others_is_made(copies, rest, at);
        let k = choose|k: int| 0 <= k < placed.len() && placed[k] == additional[at];
        assert(additional[additional.len() - 1] == edit);
        if let Some(same) = first_same(placed, edit, placed.len() as int) {
            if same == k {
                assert(edit.0 == additional[at].0 && edit.1 == additional[at].1);
            }
        }
        assert(all[k] == additional[at]);
    }
}

/// Every edit made elsewhere is at a place one was asked for at.
proof fn places_are_asked_for(copies: Seq<Span>, additional: Seq<EditModel>)
    ensures
        forall|p: int|
            0 <= p < elsewhere_of(copies, additional).len() ==> exists|i: int|
                0 <= i < additional.len() && (#[trigger] additional[i]).0 == (
                #[trigger] elsewhere_of(copies, additional)[p]).0 && additional[i].1
                    == elsewhere_of(copies, additional)[p].1,
    decreases additional.len(),
{
    if additional.len() > 0 {
        let rest = additional.drop_last();
        places_are_asked_for(copies, rest);
        let placed = elsewhere_of(copies, rest);
        let all = elsewhere_of(copies, additional);
        let edit = additional.last();
        first_same_is_one(placed, edit, placed.len() as int);
        assert forall|p: int| 0 <= p < all.len() implies exists|i: int|
            0 <= i < additional.len() && (#[trigger] additional[i]).0 == (#[trigger] all[p]).0
                && additional[i].1 == all[p].1 by {
            if p < placed.len() {
                assert(all[p].0 == placed[p].0 && all[p].1 == placed[p].1);
                let i = choose|i: int|
                    0 <= i < rest.len() && (#[trigger] rest[i]).0 == placed[p].0 && rest[i].1
                        == placed[p].1;
                assert(additional[i] == rest[i]);
            } else {
                assert(additional[additional.len() - 1] == edit);
            }
        }
    }
}

/// Texts put in at one place elsewhere all go in there, in the order they were
/// asked for.
pub proof fn texts_at_one_place_go_in_one_after_another(
    copies: Seq<Span>,
    at: usize,
    first: Seq<char>,
    second: Seq<char>,
)
    requires
        forall|i: int|
            0 <= i < copies.len() ==> (#[trigger] copies[i]).1 < at || at < copies[i].0,
    ensures
        elsewhere_of(copies, seq![(at, at, first), (at, at, second)]) == seq![
            (at, at, first + second),
        ],
{
    let one = seq![(at, at, first)];
    let both = seq![(at, at, first), (at, at, second)];
    assert(both.drop_last() =~= one);
    assert(one.drop_last() =~= Seq::empty());
    let none = Seq::<EditModel>::empty();
    assert(elsewhere_of(copies, one.drop_last()) == none);
    assert(!any_touches(copies, (at, at)));
    assert(first_same(none, one.last(), 0) is None);
    assert(!any_touches(stretches(none), (at, at)));
    assert(elsewhere_of(copies, one) =~= one);
    let edit = both.last();
    assert(one[0] == (at, at, first));
    assert(first_same(one, edit, 0) is None);
    assert(first_same(one, edit, 1) == Some(0int));
    assert(elsewhere_of(copies, both) =~= seq![(at, at, first + second)]);
}

/// A place in text that is taken out, or at its end, goes to the end of what is put
/// in for it.
pub proof fn a_place_taken_out_goes_after_what_replaced_it(
    text: Seq<char>,
    edits: Seq<EditModel>,
    n: int,
    at: int,
)
    requires
        in_order(edits, text),
        0 <= n < edits.len(),
        edits[n].0 <= at <= edits[n].1,
        edits[n].0 < edits[n].1,
        text.len() + put_in(edits, edits.len() as int) <= usize::MAX,
        forall|i: int|
            0 <= i < n ==> (#[trigger] edits[i]).1 < at || edits[i].0 == edits[i].1,
    ensures
        ({
            let to = shifted_from(edits, at, 0);
            let after = all_made(text, edits);
            &&& edits[n].2.len() <= to <= after.len()
            &&& after.subrange(to - edits[n].2.len(), to) == edits[n].2
        }),
{
    shifted_skips(text, edits, at, n, 0);
    each_edit_lands_where_it_is_planned(text, edits, n);
    put_in_grows(edits, n + 1, edits.len() as int);
    put_in_grows(edits, n, n + 1);
    taken_from_behind(text, edits, n + 1);
}

proof fn shifted_skips(text: Seq<char>, edits: Seq<EditModel>, at: int, n: int, from: int)
    requires
        in_order(edits, text),
        0 <= from <= n < edits.len(),
        edits[n].0 <= at,
        forall|i: int|
            0 <= i < n ==> (#[trigger] edits[i]).1 < at || edits[i].0 == edits[i].1,
    ensures
        shifted_from(edits, at, from) == shifted_from(edits, at, n),
    decreases n - from,
{
    if from < n {
        assert(edits[from].1 <= edits[n].0);
        assert(edits[from].0 <= edits[from].1);
        shifted_skips(text, edits, at, n, from + 1);
    }
}

} // verus!
