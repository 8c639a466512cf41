//! Places gone from and come back from.

use ropey::Rope;
use vstd::prelude::*;

use crate::reply::words;
use crate::rope::{
    a_place_is_within_its_line, breaks, char_to_line, end_of_line, len_lines, line_end, line_of,
    line_start, line_to_char, rope_text,
};

verus! {

/// How many places Back remembers. A jump list is for retracing a train of
/// thought, not an afternoon.
pub const MOST_JUMPS: usize = 100;

/// Where the caret was, to come back to.
#[derive(Debug)]
pub struct Spot {
    /// The pane it was in.
    pub pane: usize,
    /// The document.
    pub doc: usize,
    /// The file, for when the document has been closed since.
    pub path: Option<String>,
    /// The line.
    pub line: usize,
    /// How far into it, in chars.
    pub column: usize,
}

impl Clone for Spot {
    fn clone(&self) -> (copy: Self)
        ensures
            copy@ == self@,
    {
        Spot {
            pane: self.pane,
            doc: self.doc,
            path: match &self.path {
                Some(path) => Some(path.clone()),
                None => None,
            },
            line: self.line,
            column: self.column,
        }
    }
}

/// Where the caret was, as a value.
pub struct SpotModel {
    /// The pane.
    pub pane: usize,
    /// The document.
    pub doc: usize,
    /// The file.
    pub path: Option<Seq<char>>,
    /// The line.
    pub line: usize,
    /// How far into it.
    pub column: usize,
}

impl View for Spot {
    type V = SpotModel;

    open spec fn view(&self) -> SpotModel {
        SpotModel {
            pane: self.pane,
            doc: self.doc,
            path: words(self.path),
            line: self.line,
            column: self.column,
        }
    }
}

/// Spots as values.
pub open spec fn spots(list: Seq<Spot>) -> Seq<SpotModel> {
    Seq::new(list.len(), |i: int| list[i]@)
}

fn same_spot(a: &Spot, b: &Spot) -> (same: bool)
    ensures
        same == (a@ == b@),
{
    let paths = match (&a.path, &b.path) {
        (Some(a), Some(b)) => *a == *b,
        (None, None) => true,
        _ => false,
    };
    paths && a.pane == b.pane && a.doc == b.doc && a.line == b.line && a.column == b.column
}

/// Where the caret at `head` of `doc`, shown in `pane`, is, as a place to come
/// back to.
pub fn here(pane: usize, doc: usize, path: Option<String>, rope: &Rope, head: usize) -> (spot: Spot)
    requires
        head <= rope_text(*rope).len(),
    ensures
        ({
            let text = rope_text(*rope);
            let line = line_of(text, head as int) as int;
            spot == (Spot {
                pane,
                doc,
                path,
                line: line as usize,
                column: (head - line_start(text, line)) as usize,
            })
        }),
{
    proof {
        a_place_is_within_its_line(rope_text(*rope), head as int);
    }
    let line: usize = char_to_line(rope, head);
    let start: usize = line_to_char(rope, line);
    Spot { pane, doc, path, line, column: head - start }
}

/// Where a spot is in a text that may have changed since: on its line, or the
/// last there is, and no further along than that line goes.
pub open spec fn spot_in(text: Seq<char>, line: nat, column: nat) -> int {
    let on = if line <= breaks(text) {
        line as int
    } else {
        breaks(text) as int
    };
    if line_start(text, on) + column <= line_end(text, on) {
        line_start(text, on) + column
    } else {
        line_end(text, on)
    }
}

/// Where `spot` is in a text that may have changed since: on its line, or the
/// last there is, and no further along than that line goes.
pub fn place_of(spot: &Spot, rope: &Rope) -> (at: usize)
    ensures
        at == spot_in(rope_text(*rope), spot.line as nat, spot.column as nat),
{
    let last: usize = len_lines(rope) - 1;
    let line: usize = if spot.line <= last {
        spot.line
    } else {
        last
    };
    let start: usize = line_to_char(rope, line);
    let end: usize = end_of_line(rope, line);
    proof {
        crate::rope::a_line_starts_where_it_is_first_reached(rope_text(*rope), line as int);
    }
    if start <= end && spot.column <= end - start {
        start + spot.column
    } else {
        end
    }
}

/// Coming back to a text that has not changed comes back to the same place.
pub proof fn a_spot_comes_back_to_its_place(text: Seq<char>, head: int)
    requires
        0 <= head <= text.len(),
    ensures
        ({
            let line = line_of(text, head);
            spot_in(text, line, (head - line_start(text, line as int)) as nat) == head
        }),
{
    a_place_is_within_its_line(text, head);
    crate::rope::breaks_grow(text, head, text.len() as int);
    assert(text.take(text.len() as int) =~= text);
}

/// Places gone from and come back from.
#[derive(Debug)]
pub struct Jumps {
    /// Where Back goes, the next at the end.
    pub back: Vec<Spot>,
    /// Where Forward goes, the next at the end.
    pub forward: Vec<Spot>,
}

/// How many of `list` are left once the next place that is not `here` has been
/// taken off its end, and those that are with it.
pub open spec fn passed(list: Seq<SpotModel>, here: SpotModel) -> Option<int>
    decreases list.len(),
{
    if list.len() == 0 {
        None
    } else if list.last() != here {
        Some(list.len() - 1)
    } else {
        passed(list.drop_last(), here)
    }
}

proof fn passed_is_within(list: Seq<SpotModel>, here: SpotModel)
    ensures
        passed(list, here) matches Some(left) ==> 0 <= left < list.len() && list[left] != here,
    decreases list.len(),
{
    if list.len() > 0 && list.last() == here {
        passed_is_within(list.drop_last(), here);
    }
}

/// `back` with `here` at its end, once, and no longer than it may be.
pub open spec fn recorded(back: Seq<SpotModel>, here: SpotModel) -> Seq<SpotModel> {
    let with = if back.len() > 0 && back.last() == here {
        back
    } else {
        back.push(here)
    };
    if with.len() > MOST_JUMPS {
        with.skip(1)
    } else {
        with
    }
}

impl Jumps {
    /// Whether no more is remembered than there is room for.
    pub open spec fn wf(self) -> bool {
        self.back@.len() + self.forward@.len() <= MOST_JUMPS
    }

    /// Nowhere to go.
    pub fn new() -> (jumps: Self)
        ensures
            jumps.wf(),
            jumps.back@.len() == 0,
            jumps.forward@.len() == 0,
    {
        Jumps { back: Vec::new(), forward: Vec::new() }
    }

    /// A jump is being made from `here`: it is where Back goes, and whatever
    /// Forward had is a branch not taken.
    pub fn record(&mut self, here: Spot)
        requires
            old(self).wf(),
        ensures
            final(self).wf(),
            spots(final(self).back@) == recorded(spots(old(self).back@), here@),
            final(self).forward@.len() == 0,
    {
        let ghost before = spots(self.back@);
        let again = self.back.len() > 0 && same_spot(&self.back[self.back.len() - 1], &here);
        assert(before.len() > 0 ==> before.last() == self.back@.last()@);
        if !again {
            self.back.push(here);
            assert(spots(self.back@) =~= before.push(here@));
        }
        if self.back.len() > MOST_JUMPS {
            let ghost with = self.back@;
            let _ = self.back.remove(0);
            assert(spots(self.back@) =~= spots(with).skip(1));
        }
        self.forward.clear();
    }

    /// The list Back, or Forward, goes by.
    pub open spec fn list(self, back: bool) -> Seq<SpotModel> {
        if back {
            spots(self.back@)
        } else {
            spots(self.forward@)
        }
    }

    /// The next place to go back, or forward, to from `here`, taken off its
    /// list. One that is where the caret is already is passed over. `None`
    /// where there is none.
    pub fn next_spot(&mut self, back: bool, here: &Spot) -> (next: Option<Spot>)
        requires
            old(self).wf(),
        ensures
            final(self).wf(),
            final(self).list(!back) == old(self).list(!back),
            match passed(old(self).list(back), here@) {
                Some(left) => {
                    &&& next matches Some(spot) && spot@ == old(self).list(back)[left]
                    &&& final(self).list(back) == old(self).list(back).take(left)
                    &&& final(self).back@.len() + final(self).forward@.len() < MOST_JUMPS
                },
                None => next is None && final(self).list(back).len() == 0,
            },
    {
        let ghost whole = self.list(back);
        let ghost other = self.list(!back);
        let mut list: Vec<Spot> = Vec::new();
        if back {
            std::mem::swap(&mut list, &mut self.back);
        } else {
            std::mem::swap(&mut list, &mut self.forward);
        }
        let mut next: Option<Spot> = None;
        assert(whole.take(whole.len() as int) =~= whole);
        while next.is_none() && list.len() > 0
            invariant
                spots(list@) =~= whole.take(list@.len() as int),
                list@.len() <= whole.len(),
                next is None ==> passed(whole, here@) == passed(
                    whole.take(list@.len() as int),
                    here@,
                ),
                next matches Some(spot) ==> passed(whole, here@) == Some(list@.len() as int)
                    && list@.len() < whole.len() && spot@ == whole[list@.len() as int],
            decreases list@.len(),
        {
            let ghost before = spots(list@);
            let spot = list.pop();
            if let Some(spot) = spot {
                proof {
                    assert(before.last() == spot@);
                    assert(before.drop_last() =~= whole.take(list@.len() as int));
                }
                if !same_spot(&spot, here) {
                    next = Some(spot);
                }
            }
        }
        proof {
            passed_is_within(whole, here@);
            if next is None {
                assert(whole.take(0) =~= Seq::empty());
            }
        }
        if back {
            self.back = list;
        } else {
            self.forward = list;
        }
        next
    }

    /// The place was got to, from `here`: the other way comes back to it.
    pub fn arrived(&mut self, back: bool, here: Spot)
        requires
            old(self).back@.len() + old(self).forward@.len() < MOST_JUMPS,
        ensures
            final(self).wf(),
            final(self).list(!back) == old(self).list(!back).push(here@),
            final(self).list(back) == old(self).list(back),
    {
        let ghost other = self.list(!back);
        if back {
            self.forward.push(here);
            assert(spots(self.forward@) =~= other.push(here@));
        } else {
            self.back.push(here);
            assert(spots(self.back@) =~= other.push(here@));
        }
    }

    /// What going back, or forward, from `here` comes to, and what is remembered
    /// after: a place that can no longer be reached is skipped rather than
    /// stopping the walk at it, and one that was reached is where the other way
    /// comes back from.
    pub open spec fn retraced(self, after: Jumps, back: bool, here: SpotModel, tried: Tried, next:
        Retrace) -> bool {
        if tried == Tried::Reached {
            &&& next is Done
            &&& after.list(!back) == self.list(!back).push(here)
            &&& after.list(back) == self.list(back)
        } else {
            &&& after.list(!back) == self.list(!back)
            &&& match passed(self.list(back), here) {
                Some(left) => {
                    &&& next matches Retrace::Try(spot) && spot@ == self.list(back)[left]
                    &&& after.list(back) == self.list(back).take(left)
                    &&& after.back@.len() + after.forward@.len() < MOST_JUMPS
                },
                None => {
                    &&& next matches Retrace::Nowhere(said) && said@ == nowhere_said(back)
                    &&& after.list(back).len() == 0
                },
            }
        }
    }

    /// Go back, or forward, from `here`: the next place to try, until one is
    /// reached or there is none.
    pub fn retrace(&mut self, back: bool, here: &Spot, tried: Tried) -> (next: Retrace)
        requires
            old(self).wf(),
            tried == Tried::Reached ==> old(self).back@.len() + old(self).forward@.len()
                < MOST_JUMPS,
        ensures
            final(self).wf(),
            old(self).retraced(*final(self), back, here@, tried, next),
    {
        if tried == Tried::Reached {
            self.arrived(back, here.clone());
            return Retrace::Done;
        }
        match self.next_spot(back, here) {
            Some(spot) => Retrace::Try(spot),
            None => Retrace::Nowhere(nowhere(back)),
        }
    }

    /// Whether there is anywhere to go back, or forward, to.
    pub fn can_retrace(&self, back: bool) -> (can: bool)
        ensures
            can == (self.list(back).len() > 0),
    {
        if back {
            self.back.len() > 0
        } else {
            self.forward.len() > 0
        }
    }
}

/// How a place is gone back to.
#[derive(Debug)]
pub enum Visit {
    /// Its document is open, in this pane, as this tab of it.
    Tab(usize, usize),
    /// It has been closed since, and this file is to be opened again.
    Open(String),
    /// It cannot be: it was never saved anywhere.
    Gone,
}

/// How `spot` is gone back to, `tab` being the pane and the tab its document is
/// in, if it is open: the pane that is gone to first, and what is done there. A
/// document closed since is opened again in the pane it was left from.
pub fn visit(spot: &Spot, tab: Option<(usize, usize)>) -> (visit: (usize, Visit))
    ensures
        visit.0 == spot.pane,
        match tab {
            Some((pane, index)) => visit.1 == Visit::Tab(pane, index),
            None => match spot.path {
                Some(path) => visit.1 matches Visit::Open(open) && open@ == path@,
                None => visit.1 is Gone,
            },
        },
{
    if let Some((pane, index)) = tab {
        return (spot.pane, Visit::Tab(pane, index));
    }
    match &spot.path {
        Some(path) => (spot.pane, Visit::Open(path.clone())),
        None => (spot.pane, Visit::Gone),
    }
}

/// How far going back, or forward, has got.
#[derive(Debug, Clone, Copy, PartialEq, Eq, Structural)]
pub enum Tried {
    /// It has just been asked for.
    Nothing,
    /// The last place tried could not be reached: its document was never saved,
    /// or its file has gone.
    Missed,
    /// The last place tried was reached.
    Reached,
}

/// What going back, or forward, comes to next.
#[derive(Debug)]
pub enum Retrace {
    /// This place is tried.
    Try(Spot),
    /// It is there.
    Done,
    /// There is nowhere left to go, and this is said.
    Nowhere(String),
}

/// What is said where there is nowhere to go.
pub open spec fn nowhere_said(back: bool) -> Seq<char> {
    if back {
        "Nothing to go back to."@
    } else {
        "Nothing to go forward to."@
    }
}

/// What is said where there is nowhere to go.
pub fn nowhere(back: bool) -> (said: String)
    ensures
        said@ == nowhere_said(back),
{
    if back {
        "Nothing to go back to.".to_owned()
    } else {
        "Nothing to go forward to.".to_owned()
    }
}

/// Where a place cannot be reached the nearest one before it is tried instead,
/// unless that is where the caret is: nothing else is passed over.
pub proof fn the_walk_goes_on_past_what_has_gone(list: Seq<SpotModel>, here: SpotModel, left: int)
    requires
        passed(list, here) == Some(left),
    ensures
        match passed(list.take(left), here) {
            Some(next) => {
                &&& 0 <= next < left
                &&& list[next] != here
                &&& forall|k: int| next < k < left ==> #[trigger] list[k] == here
            },
            None => forall|k: int| 0 <= k < left ==> #[trigger] list[k] == here,
        },
{
    passed_is_within(list, here);
    only_here_is_passed_over(list.take(left), here);
    passed_is_within(list.take(left), here);
    assert forall|k: int| 0 <= k < left implies #[trigger] list[k] == list.take(left)[k] by {}
}

proof fn only_here_is_passed_over(list: Seq<SpotModel>, here: SpotModel)
    ensures
        match passed(list, here) {
            Some(next) => forall|k: int| next < k < list.len() ==> #[trigger] list[k] == here,
            None => forall|k: int| 0 <= k < list.len() ==> #[trigger] list[k] == here,
        },
    decreases list.len(),
{
    if list.len() > 0 && list.last() == here {
        only_here_is_passed_over(list.drop_last(), here);
        passed_is_within(list, here);
        assert forall|k: int| 0 <= k < list.len() - 1 implies #[trigger] list[k]
            == list.drop_last()[k] by {}
    }
}

/// Forward undoes Back: having gone back from `here` to another place, going
/// forward from there comes to `here`, and what Back had is as it was.
pub proof fn forward_undoes_back(
    back: Seq<SpotModel>,
    forward: Seq<SpotModel>,
    here: SpotModel,
    left: int,
)
    requires
        passed(back, here) == Some(left),
    ensures
        ({
            let there = back[left];
            let after = forward.push(here);
            &&& passed(after, there) == Some(forward.len() as int)
            &&& after[forward.len() as int] == here
            &&& after.take(forward.len() as int) == forward
            &&& back.take(left).push(there) == back.take(left + 1)
        }),
{
    passed_is_within(back, here);
    assert(forward.push(here).last() == here);
    assert(forward.push(here).take(forward.len() as int) =~= forward);
    assert(back.take(left).push(back[left]) =~= back.take(left + 1));
}

/// A place come back to is on its line, or the last where that has gone, as far in as
/// it was, or at the end where the line is shorter now.
pub proof fn a_spot_is_on_its_line(text: Seq<char>, line: nat, column: nat)
    ensures
        ({
            let on = if line <= breaks(text) {
                line as int
            } else {
                breaks(text) as int
            };
            let at = spot_in(text, line, column);
            &&& line_start(text, on) <= at <= line_end(text, on)
            &&& column <= line_end(text, on) - line_start(text, on) ==> at == line_start(text, on)
                + column
            &&& column >= line_end(text, on) - line_start(text, on) ==> at == line_end(text, on)
        }),
{
    let on = if line <= breaks(text) {
        line as int
    } else {
        breaks(text) as int
    };
    crate::rope::a_line_ends_at_a_line_feed(text, on);
}

/// Going back, or on, goes to the nearest place that is not this one.
pub proof fn a_jump_goes_to_the_nearest_other_place(list: Seq<SpotModel>, here: SpotModel)
    ensures
        match passed(list, here) {
            Some(at) => {
                &&& 0 <= at < list.len()
                &&& list[at] != here
                &&& forall|i: int| at < i < list.len() ==> #[trigger] list[i] == here
            },
            None => forall|i: int| 0 <= i < list.len() ==> #[trigger] list[i] == here,
        },
    decreases list.len(),
{
    if list.len() > 0 && list.last() == here {
        let rest = list.drop_last();
        a_jump_goes_to_the_nearest_other_place(rest, here);
        assert(list[list.len() - 1] == here);
        match passed(rest, here) {
            Some(at) => {
                assert(rest[at] == list[at]);
                assert forall|i: int| at < i < list.len() implies #[trigger] list[i] == here by {
                    if i < rest.len() {
                        assert(rest[i] == list[i]);
                    }
                }
            },
            None => {
                assert forall|i: int| 0 <= i < list.len() implies #[trigger] list[i] == here by {
                    if i < rest.len() {
                        assert(rest[i] == list[i]);
                    }
                }
            },
        }
    }
}

/// A place jumped from is the next to go back to, kept once; the oldest goes once
/// there are more than are kept, and no other does.
pub proof fn a_jump_keeps_where_it_was_from(back: Seq<SpotModel>, here: SpotModel)
    requires
        back.len() <= MOST_JUMPS,
    ensures
        ({
            let after = recorded(back, here);
            let again = back.len() > 0 && back.last() == here;
            &&& after.len() > 0 && after.last() == here
            &&& after.len() <= MOST_JUMPS
            &&& again ==> after == back
            &&& !again && back.len() < MOST_JUMPS ==> after == back.push(here)
            &&& !again && back.len() == MOST_JUMPS ==> after == back.skip(1).push(here)
            &&& recorded(after, here) == after
        }),
{
    assert(MOST_JUMPS > 0);
    if back.len() == MOST_JUMPS && !(back.len() > 0 && back.last() == here) {
        assert(back.push(here).skip(1) =~= back.skip(1).push(here));
    }
}

/// Going back, or on, tries the nearest other place that way and takes it off the list,
/// and leaves the other list alone; once one is reached, where it was gone from is the
/// next to come back to; and with none left it says so.
pub proof fn a_walk_leaves_a_way_back(
    before: Jumps,
    after: Jumps,
    back: bool,
    here: SpotModel,
    tried: Tried,
    next: Retrace,
)
    requires
        before.retraced(after, back, here, tried, next),
    ensures
        tried is Reached ==> {
            &&& next is Done
            &&& after.list(!back).len() > 0 && after.list(!back).last() == here
            &&& after.list(!back).drop_last() == before.list(!back)
            &&& after.list(back) == before.list(back)
        },
        !(tried is Reached) ==> {
            &&& after.list(!back) == before.list(!back)
            &&& next matches Retrace::Try(spot) ==> {
                &&& spot@ != here
                &&& before.list(back).contains(spot@)
                &&& after.list(back).len() < before.list(back).len()
                &&& after.list(back).is_prefix_of(before.list(back))
                &&& before.list(back)[after.list(back).len() as int] == spot@
            }
            &&& next is Done ==> false
            &&& next is Nowhere <==> forall|i: int|
                0 <= i < before.list(back).len() ==> #[trigger] before.list(back)[i] == here
            &&& next matches Retrace::Nowhere(said) ==> said@ == if back {
                "Nothing to go back to."@
            } else {
                "Nothing to go forward to."@
            }
        },
{
    let list = before.list(back);
    a_jump_goes_to_the_nearest_other_place(list, here);
    if tried is Reached {
        assert(after.list(!back).drop_last() =~= before.list(!back));
    } else if let Some(left) = passed(list, here) {
        assert(list[left] != here);
        assert(list.take(left) =~= after.list(back));
    }
}

} // verus!
