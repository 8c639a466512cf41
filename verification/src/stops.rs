//! The tab-stops of an inserted snippet, and how they follow the text.

use vstd::prelude::*;

use crate::edit::{held, Assoc, Edit};
use crate::spans::{Selection, Span};

verus! {

/// One place of a stop: which copy of the snippet it is in, and what it
/// covers.
pub type StopPlace = (usize, Span);

/// A snippet's text, and where each of its stops is in it, in the order Tab
/// visits them.
#[derive(Debug)]
pub struct Snippet {
    /// What goes into the text.
    pub text: String,
    /// Where each stop is, counted from the start of the text. The last one is
    /// where the snippet ends.
    pub stops: Vec<Vec<Span>>,
}

/// The tab-stops of an inserted snippet, in every copy of it.
#[derive(Debug)]
pub struct Tabstops {
    /// The document they are in.
    pub doc: usize,
    /// For each stop in the order Tab visits them, where it is in each copy.
    pub stops: Vec<Vec<StopPlace>>,
    /// The copy the primary caret is in.
    pub primary: usize,
    /// Carets the completion did not go in at, which stay where they are.
    pub others: Vec<Span>,
    /// The stop being edited.
    pub current: usize,
    /// How long the text should be, once every edit since has been followed.
    /// When it is not, an edit went unseen and the stops cannot be trusted.
    pub len: usize,
}

/// The places of each of `stops`.
pub open spec fn places(stops: Seq<Vec<StopPlace>>) -> Seq<Seq<StopPlace>> {
    Seq::new(stops.len(), |i: int| stops[i]@)
}

/// Whether a stop that is not being typed in stays before `edit`. An empty
/// stop at a pure insert goes after it — `$1$2`, typing in the first — but one
/// where a replacement starts stays before it.
pub open spec fn stays_before(span: Span, edit: Edit) -> bool {
    span.1 < edit.start || (span.1 == edit.start && (span.0 < span.1 || edit.start < edit.end))
}

/// Where a stop's `span` is once `edit` has been made.
pub open spec fn mapped(span: Span, edit: Edit, current: bool) -> Span {
    if !current && stays_before(span, edit) {
        span
    } else if !current && span.0 >= edit.end {
        (past(span.0, edit), past(span.1, edit))
    } else {
        (
            edit.maps(span.0 as int, Assoc::Before) as usize,
            edit.maps(span.1 as int, Assoc::After) as usize,
        )
    }
}

/// A place past `edit`, moved along by it.
pub open spec fn past(at: usize, edit: Edit) -> usize {
    let longer = held(at + edit.puts_in());
    if longer >= edit.takes_out() {
        (longer - edit.takes_out()) as usize
    } else {
        0
    }
}

/// Where a stop's `span` is once all of `edits` have been made, one after
/// another.
pub open spec fn mapped_through(span: Span, edits: Seq<Edit>, current: bool) -> Span
    decreases edits.len(),
{
    if edits.len() == 0 {
        span
    } else {
        mapped(mapped_through(span, edits.drop_last(), current), edits.last(), current)
    }
}

/// How long a text of `len` characters is after `edits`.
pub open spec fn len_after(len: usize, edits: Seq<Edit>) -> usize
    decreases edits.len(),
{
    if edits.len() == 0 {
        len
    } else {
        past(len_after(len, edits.drop_last()), edits.last())
    }
}

fn moved_past(at: usize, edit: &Edit) -> (to: usize)
    ensures
        to == past(at, *edit),
{
    at.saturating_add(edit.inserted()).saturating_sub(edit.removed())
}

/// Where a stop's `span` is once `edit` has been made.
///
/// The stop being typed in grows with what is typed at its edges. Any other
/// stop keeps out of it: one that ends where the edit starts stays before it,
/// and one that starts where it ends moves after it.
pub fn map_span(span: Span, edit: &Edit, current: bool) -> (to: Span)
    ensures
        to == mapped(span, *edit, current),
{
    if !current {
        let before = span.1 < edit.start || (span.1 == edit.start && (span.0 < span.1 || edit.start
            < edit.end));
        if before {
            return span;
        }
        if span.0 >= edit.end {
            return (moved_past(span.0, edit), moved_past(span.1, edit));
        }
    }
    (edit.map_pos(span.0, Assoc::Before), edit.map_pos(span.1, Assoc::After))
}

/// A stop's ends stay in order through any edit.
pub proof fn a_stop_s_ends_stay_in_order(span: Span, edit: Edit, current: bool)
    requires
        span.0 <= span.1,
        edit.start <= edit.end,
    ensures
        mapped(span, edit, current).0 <= mapped(span, edit, current).1,
{
    crate::edit::edits_keep_places_in_order(edit, span.0 as int, span.1 as int, Assoc::Before);
}

/// What is typed in the stop being edited, its edges included, is in the stop
/// afterwards.
pub proof fn the_stop_being_typed_in_grows(span: Span, edit: Edit, text: Seq<char>)
    requires
        span.0 <= edit.start <= edit.end <= span.1 <= text.len(),
        text.len() + edit.puts_in() <= usize::MAX,
    ensures
        ({
            let to = mapped(span, edit, true);
            let after = edit.applied(text);
            &&& to.0 == span.0
            &&& to.1 == span.1 - edit.takes_out() + edit.puts_in()
            &&& after.subrange(to.0 as int, to.1 as int) == text.subrange(
                span.0 as int,
                edit.start as int,
            ) + edit.text@ + text.subrange(edit.end as int, span.1 as int)
        }),
{
    let to = mapped(span, edit, true);
    assert(edit.applied(text).subrange(to.0 as int, to.1 as int) =~= text.subrange(
        span.0 as int,
        edit.start as int,
    ) + edit.text@ + text.subrange(edit.end as int, span.1 as int));
}

/// A stop an edit does not reach into covers the same text afterwards, unless
/// it is the one being typed in.
pub proof fn a_stop_out_of_the_way_keeps_its_text(span: Span, edit: Edit, text: Seq<char>)
    requires
        span.0 <= span.1 <= text.len(),
        edit.fits(text),
        text.len() + edit.puts_in() <= usize::MAX,
        span.1 <= edit.start || edit.end <= span.0,
    ensures
        ({
            let to = mapped(span, edit, false);
            &&& to.0 <= to.1 <= edit.applied(text).len()
            &&& edit.applied(text).subrange(to.0 as int, to.1 as int) == text.subrange(
                span.0 as int,
                span.1 as int,
            )
        }),
{
    let to = mapped(span, edit, false);
    assert(edit.applied(text).subrange(to.0 as int, to.1 as int) =~= text.subrange(
        span.0 as int,
        span.1 as int,
    ));
}

/// `stop` with each of its places mapped.
pub open spec fn mapped_stop(stop: Seq<StopPlace>, edits: Seq<Edit>, current: bool) -> Seq<
    StopPlace,
> {
    Seq::new(
        stop.len(),
        |i: int| (stop[i].0, mapped_through(stop[i].1, edits, current)),
    )
}

fn map_through(span: Span, edits: &Vec<Edit>, current: bool) -> (to: Span)
    ensures
        to == mapped_through(span, edits@, current),
{
    let mut to = span;
    let mut i: usize = 0;
    assert(edits@.take(0) =~= Seq::empty());
    while i < edits.len()
        invariant
            i <= edits@.len(),
            to == mapped_through(span, edits@.take(i as int), current),
        decreases edits@.len() - i,
    {
        to = map_span(to, &edits[i], current);
        assert(edits@.take(i + 1).drop_last() =~= edits@.take(i as int));
        i = i + 1;
    }
    assert(edits@.take(edits@.len() as int) =~= edits@);
    to
}

fn map_stop(stop: &Vec<StopPlace>, edits: &Vec<Edit>, current: bool) -> (to: Vec<StopPlace>)
    ensures
        to@ == mapped_stop(stop@, edits@, current),
{
    let mut to: Vec<StopPlace> = Vec::new();
    let mut i: usize = 0;
    while i < stop.len()
        invariant
            i <= stop@.len(),
            to@ =~= mapped_stop(stop@, edits@, current).take(i as int),
        decreases stop@.len() - i,
    {
        to.push((stop[i].0, map_through(stop[i].1, edits, current)));
        i = i + 1;
    }
    assert(mapped_stop(stop@, edits@, current).take(stop@.len() as int) =~= mapped_stop(
        stop@,
        edits@,
        current,
    ));
    to
}

/// Whether `at` is in one of the places of `stop`, edges and all.
pub open spec fn covers(stop: Seq<StopPlace>, at: usize) -> bool {
    exists|i: int| 0 <= i < stop.len() && (#[trigger] stop[i]).1.0 <= at && at <= stop[i].1.1
}

/// The first of `stops`, from the `from`th on, that covers `at`.
pub open spec fn first_cover(stops: Seq<Seq<StopPlace>>, at: usize, from: int) -> Option<int>
    decreases stops.len() - from,
{
    if from < 0 || from >= stops.len() {
        None
    } else if covers(stops[from], at) {
        Some(from)
    } else {
        first_cover(stops, at, from + 1)
    }
}

/// The selections that select `stop`, with `others` left where they are.
pub open spec fn selecting(stop: Seq<StopPlace>, others: Seq<Span>) -> Seq<Selection> {
    Seq::new(
        stop.len() + others.len(),
        |i: int|
            if i < stop.len() {
                Selection { anchor: stop[i].1.0, head: stop[i].1.1 }
            } else {
                Selection { anchor: others[i - stop.len()].0, head: others[i - stop.len()].1 }
            },
    )
}

/// Which of the places of `stop` is in `copy`: the first that is, and the
/// first of all where none is.
pub open spec fn place_in(stop: Seq<StopPlace>, copy: usize, from: int) -> int
    decreases stop.len() - from,
{
    if from < 0 || from >= stop.len() {
        0
    } else if stop[from].0 == copy {
        from
    } else {
        place_in(stop, copy, from + 1)
    }
}

/// A stop as it is marked on screen.
#[derive(Debug, Clone, Copy, PartialEq, Eq, Structural)]
pub struct StopMark {
    /// Where it starts.
    pub start: usize,
    /// Where it ends.
    pub end: usize,
    /// Whether it is the one being edited.
    pub current: bool,
}

/// The marks of the first `count` stops, in order.
pub open spec fn marks_of(stops: Seq<Seq<StopPlace>>, current: usize, count: int) -> Seq<StopMark>
    decreases count,
{
    if count <= 0 {
        Seq::empty()
    } else {
        let stop = stops[count - 1];
        marks_of(stops, current, count - 1) + Seq::new(
            stop.len(),
            |i: int|
                StopMark {
                    start: stop[i].1.0,
                    end: stop[i].1.1,
                    current: count - 1 == current,
                },
        )
    }
}

impl Tabstops {
    /// Where the stops are.
    pub open spec fn model(self) -> Seq<Seq<StopPlace>> {
        places(self.stops@)
    }

    /// Whether the stops can be trusted at all: the same document, with every
    /// edit since followed.
    pub open spec fn trusted(self, doc: usize, len: usize) -> bool {
        self.doc == doc && self.len == len
    }

    /// Follow `edits` just made to `doc`, oldest first, each in the text as it
    /// stood before it.
    pub fn follow_edits(&mut self, doc: usize, edits: &Vec<Edit>)
        ensures
            final(self).doc == old(self).doc,
            final(self).primary == old(self).primary,
            final(self).current == old(self).current,
            doc != old(self).doc ==> *final(self) == *old(self),
            doc == old(self).doc ==> {
                &&& final(self).model().len() == old(self).model().len()
                &&& forall|i: int|
                    0 <= i < old(self).model().len() ==> #[trigger] final(self).model()[i]
                        == mapped_stop(old(self).model()[i], edits@, i == old(self).current)
                &&& final(self).others@ == Seq::new(
                    old(self).others@.len(),
                    |i: int| mapped_through(old(self).others@[i], edits@, false),
                )
                &&& final(self).len == len_after(old(self).len, edits@)
            },
    {
        if doc != self.doc {
            return;
        }
        let mut stops: Vec<Vec<StopPlace>> = Vec::new();
        let mut i: usize = 0;
        while i < self.stops.len()
            invariant
                *self == *old(self),
                i <= self.stops@.len(),
                stops@.len() == i,
                forall|k: int|
                    0 <= k < i ==> (#[trigger] stops@[k])@ == mapped_stop(
                        self.stops@[k]@,
                        edits@,
                        k == self.current,
                    ),
            decreases self.stops@.len() - i,
        {
            stops.push(map_stop(&self.stops[i], edits, i == self.current));
            i = i + 1;
        }
        let mut others: Vec<Span> = Vec::new();
        let mut i: usize = 0;
        while i < self.others.len()
            invariant
                *self == *old(self),
                i <= self.others@.len(),
                others@.len() == i,
                forall|k: int|
                    0 <= k < i ==> #[trigger] others@[k] == mapped_through(
                        self.others@[k],
                        edits@,
                        false,
                    ),
            decreases self.others@.len() - i,
        {
            others.push(map_through(self.others[i], edits, false));
            i = i + 1;
        }
        let mut len: usize = self.len;
        let mut i: usize = 0;
        assert(edits@.take(0) =~= Seq::empty());
        while i < edits.len()
            invariant
                *self == *old(self),
                i <= edits@.len(),
                len == len_after(self.len, edits@.take(i as int)),
            decreases edits@.len() - i,
        {
            len = moved_past(len, &edits[i]);
            assert(edits@.take(i + 1).drop_last() =~= edits@.take(i as int));
            i = i + 1;
        }
        assert(edits@.take(edits@.len() as int) =~= edits@);
        self.stops = stops;
        self.others = others;
        self.len = len;
    }

    /// Whether stop `index` covers `at` in any of its places.
    pub fn stop_contains(&self, index: usize, at: usize) -> (inside: bool)
        ensures
            inside == (index < self.model().len() && covers(self.model()[index as int], at)),
    {
        if index >= self.stops.len() {
            return false;
        }
        let stop = &self.stops[index];
        let mut i: usize = 0;
        while i < stop.len()
            invariant
                index < self.model().len(),
                stop@ == self.model()[index as int],
                i <= stop@.len(),
                forall|k: int|
                    0 <= k < i ==> !((#[trigger] stop@[k]).1.0 <= at && at <= stop@[k].1.1),
            decreases stop@.len() - i,
        {
            if stop[i].1.0 <= at && at <= stop[i].1.1 {
                assert(stop@[i as int].1.0 <= at);
                return true;
            }
            i = i + 1;
        }
        false
    }

    /// The first stop `at` is in.
    pub fn stop_under(&self, at: usize) -> (found: Option<usize>)
        ensures
            match found {
                Some(index) => first_cover(self.model(), at, 0) == Some(index as int),
                None => first_cover(self.model(), at, 0) is None,
            },
    {
        let mut index: usize = 0;
        while index < self.stops.len()
            invariant
                index <= self.stops@.len(),
                first_cover(self.model(), at, 0) == first_cover(self.model(), at, index as int),
            decreases self.stops@.len() - index,
        {
            if self.stop_contains(index, at) {
                return Some(index);
            }
            index = index + 1;
        }
        None
    }

    /// The selections that select every place of stop `index`, and which of
    /// them is the primary: the one in the primary caret's copy.
    pub fn selection_of(&self, index: usize) -> (picked: (Vec<Selection>, usize))
        requires
            index < self.model().len(),
        ensures
            picked.0@ == selecting(self.model()[index as int], self.others@),
            picked.1 == place_in(self.model()[index as int], self.primary, 0),
    {
        let stop = &self.stops[index];
        let ghost model = self.model()[index as int];
        let ghost goal = selecting(model, self.others@);
        let mut ranges: Vec<Selection> = Vec::new();
        let mut i: usize = 0;
        while i < stop.len()
            invariant
                stop@ == model,
                goal == selecting(model, self.others@),
                i <= stop@.len(),
                ranges@ =~= goal.take(i as int),
            decreases stop@.len() - i,
        {
            ranges.push(Selection { anchor: stop[i].1.0, head: stop[i].1.1 });
            i = i + 1;
        }
        let mut i: usize = 0;
        while i < self.others.len()
            invariant
                stop@ == model,
                goal == selecting(model, self.others@),
                i <= self.others@.len(),
                ranges@ =~= goal.take(stop@.len() + i),
            decreases self.others@.len() - i,
        {
            ranges.push(Selection { anchor: self.others[i].0, head: self.others[i].1 });
            i = i + 1;
        }
        assert(goal.take(goal.len() as int) =~= goal);

        let mut primary: usize = 0;
        while primary < stop.len() && stop[primary].0 != self.primary
            invariant
                stop@ == model,
                primary <= stop@.len(),
                place_in(model, self.primary, 0) == place_in(model, self.primary, primary as int),
            decreases stop@.len() - primary,
        {
            primary = primary + 1;
        }
        if primary == stop.len() {
            primary = 0;
        }
        (ranges, primary)
    }

    /// Where the stops are, for drawing, and which of them is being edited.
    /// None when an edit went unseen and the stops no longer describe the
    /// text.
    pub fn marks(&self, doc: usize, len: usize) -> (marks: Vec<StopMark>)
        ensures
            marks@ == if self.trusted(doc, len) {
                marks_of(self.model(), self.current, self.model().len() as int)
            } else {
                Seq::empty()
            },
    {
        let mut marks: Vec<StopMark> = Vec::new();
        if self.doc != doc || self.len != len {
            return marks;
        }
        let ghost model = self.model();
        let mut index: usize = 0;
        while index < self.stops.len()
            invariant
                model == self.model(),
                index <= self.stops@.len(),
                marks@ == marks_of(model, self.current, index as int),
            decreases self.stops@.len() - index,
        {
            let stop = &self.stops[index];
            let ghost before = marks@;
            let ghost goal = marks_of(model, self.current, index + 1);
            assert(stop@ == model[index as int]);
            let mut i: usize = 0;
            while i < stop.len()
                invariant
                    stop@ == model[index as int],
                    before == marks_of(model, self.current, index as int),
                    goal == marks_of(model, self.current, index + 1),
                    i <= stop@.len(),
                    marks@ =~= goal.take(before.len() + i),
                    goal.len() == before.len() + stop@.len(),
                decreases stop@.len() - i,
            {
                marks.push(
                    StopMark {
                        start: stop[i].1.0,
                        end: stop[i].1.1,
                        current: index == self.current,
                    },
                );
                i = i + 1;
            }
            assert(goal.take(goal.len() as int) =~= goal);
            index = index + 1;
        }
        marks
    }
}

/// The stop a caret is in is the first that has a place around it, its edges
/// included.
pub proof fn a_caret_is_in_the_first_stop_around_it(
    stops: Seq<Seq<StopPlace>>,
    at: usize,
    from: int,
)
    requires
        0 <= from <= stops.len(),
    ensures
        match first_cover(stops, at, from) {
            Some(index) => {
                &&& from <= index < stops.len()
                &&& exists|i: int|
                    0 <= i < stops[index].len() && (#[trigger] stops[index][i]).1.0 <= at
                        <= stops[index][i].1.1
                &&& forall|j: int, i: int|
                    from <= j < index && 0 <= i < stops[j].len() ==> at < (
                    #[trigger] stops[j][i]).1.0 || stops[j][i].1.1 < at
            },
            None => forall|j: int, i: int|
                from <= j < stops.len() && 0 <= i < stops[j].len() ==> at < (
                #[trigger] stops[j][i]).1.0 || stops[j][i].1.1 < at,
        },
    decreases stops.len() - from,
{
    if from < stops.len() {
        if covers(stops[from], at) {
            let i = choose|i: int|
                0 <= i < stops[from].len() && (#[trigger] stops[from][i]).1.0 <= at && at
                    <= stops[from][i].1.1;
            assert(stops[from][i].1.0 <= at <= stops[from][i].1.1);
        } else {
            a_caret_is_in_the_first_stop_around_it(stops, at, from + 1);
            assert forall|i: int| 0 <= i < stops[from].len() implies at < (
            #[trigger] stops[from][i]).1.0 || stops[from][i].1.1 < at by {}
        }
    }
}

/// What is typed right after a stop that is not being edited does not go into it;
/// what is typed at an empty one goes before it; and one further on moves along.
pub proof fn typing_beside_a_stop_leaves_it(span: Span, edit: Edit)
    requires
        span.0 <= span.1,
        edit.start <= edit.end,
        span.1 + edit.puts_in() <= usize::MAX,
    ensures
        span.0 < span.1 && span.1 <= edit.start ==> mapped(span, edit, false) == span,
        span.1 < edit.start ==> mapped(span, edit, false) == span,
        edit.start == edit.end && edit.end <= span.0 && (span.0 < span.1 || edit.end < span.0
            || span.0 == span.1) ==> mapped(span, edit, false) == (
            (span.0 + edit.text@.len()) as usize,
            (span.1 + edit.text@.len()) as usize,
        ),
        edit.start < edit.end && edit.end <= span.0 && span.1 > edit.start ==> mapped(
            span,
            edit,
            false,
        ) == (
            (span.0 + edit.text@.len() - (edit.end - edit.start)) as usize,
            (span.1 + edit.text@.len() - (edit.end - edit.start)) as usize,
        ),
{
}

/// The length kept for a text is its length once an edit is made.
pub proof fn the_length_kept_is_the_text_s(text: Seq<char>, edits: Seq<Edit>, edit: Edit, len: usize)
    requires
        edit.start <= edit.end <= text.len(),
        text.len() + edit.text@.len() <= usize::MAX,
        len_after(len, edits) == text.len(),
    ensures
        len_after(len, edits.push(edit)) == edit.applied(text).len(),
        len_after(len, Seq::empty()) == len,
{
    assert(edits.push(edit).drop_last() =~= edits);
}

/// Going to a stop selects all of it, in every copy, and leaves the other carets
/// where they are.
pub proof fn going_to_a_stop_selects_it(stop: Seq<StopPlace>, others: Seq<Span>, at: int)
    requires
        0 <= at < stop.len() + others.len(),
    ensures
        selecting(stop, others).len() == stop.len() + others.len(),
        at < stop.len() ==> selecting(stop, others)[at].anchor == stop[at].1.0 && selecting(
            stop,
            others,
        )[at].head == stop[at].1.1,
        at >= stop.len() ==> selecting(stop, others)[at].anchor == others[at - stop.len()].0
            && selecting(stop, others)[at].head == others[at - stop.len()].1,
{
}

/// The selection that is the primary caret's is the first in its own copy.
pub proof fn the_primary_caret_stays_in_its_copy(stop: Seq<StopPlace>, copy: usize, from: int)
    requires
        0 <= from <= stop.len(),
        exists|i: int| from <= i < stop.len() && (#[trigger] stop[i]).0 == copy,
    ensures
        from <= place_in(stop, copy, from) < stop.len(),
        stop[place_in(stop, copy, from)].0 == copy,
        forall|j: int| from <= j < place_in(stop, copy, from) ==> (#[trigger] stop[j]).0 != copy,
    decreases stop.len() - from,
{
    if stop[from].0 != copy {
        the_primary_caret_stays_in_its_copy(stop, copy, from + 1);
    }
}

/// Every place of every stop is marked where it is, those of the stop being edited
/// as such.
pub proof fn every_stop_is_marked(
    stops: Seq<Seq<StopPlace>>,
    current: usize,
    count: int,
    stop: int,
    place: int,
)
    requires
        0 <= stop < count <= stops.len(),
        0 <= place < stops[stop].len(),
    ensures
        marks_of(stops, current, count).contains(
            StopMark {
                start: stops[stop][place].1.0,
                end: stops[stop][place].1.1,
                current: stop == current,
            },
        ),
    decreases count,
{
    let mark = StopMark {
        start: stops[stop][place].1.0,
        end: stops[stop][place].1.1,
        current: stop == current,
    };
    let before = marks_of(stops, current, count - 1);
    let marks = marks_of(stops, current, count);
    if stop == count - 1 {
        assert(marks[before.len() + place] == mark);
    } else {
        every_stop_is_marked(stops, current, count - 1, stop, place);
        let k = choose|k: int| 0 <= k < before.len() && before[k] == mark;
        assert(marks[k] == mark);
    }
}

/// A stop goes through edits one after another, and so does each of its places, in the
/// copy it is in.
pub proof fn a_stop_goes_through_edits_in_turn(
    stop: Seq<StopPlace>,
    edits: Seq<Edit>,
    edit: Edit,
    current: bool,
    at: int,
)
    requires
        0 <= at < stop.len(),
    ensures
        mapped_through(stop[at].1, Seq::empty(), current) == stop[at].1,
        mapped_through(stop[at].1, edits.push(edit), current) == mapped(
            mapped_through(stop[at].1, edits, current),
            edit,
            current,
        ),
        mapped_stop(stop, edits, current).len() == stop.len(),
        mapped_stop(stop, edits, current)[at].0 == stop[at].0,
        mapped_stop(stop, edits, current)[at].1 == mapped_through(stop[at].1, edits, current),
{
    assert(edits.push(edit).drop_last() =~= edits);
}

} // verus!
