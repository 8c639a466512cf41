//! Edits to a text, and where places in it go.

use vstd::prelude::*;

verus! {

/// Which side of an edit a place keeps to.
#[derive(Debug, Clone, Copy, PartialEq, Eq, Structural)]
pub enum Assoc {
    /// Before what the edit puts in.
    Before,
    /// After it.
    After,
}

/// One edit: the characters from `start` up to `end` give way to `text`.
#[derive(Debug)]
pub struct Edit {
    /// Where it starts.
    pub start: usize,
    /// Where what it takes out ends.
    pub end: usize,
    /// What it puts in.
    pub text: String,
}

impl Clone for Edit {
    fn clone(&self) -> (edit: Self)
        ensures
            edit == *self,
    {
        Edit { start: self.start, end: self.end, text: self.text.clone() }
    }
}

/// An edit as a value: where it starts, where what it takes out ends, and the
/// characters it puts in.
pub type EditModel = (usize, usize, Seq<char>);

impl View for Edit {
    type V = EditModel;

    open spec fn view(&self) -> EditModel {
        (self.start, self.end, self.text@)
    }
}

/// `edits` as values.
pub open spec fn models(edits: Seq<Edit>) -> Seq<EditModel> {
    Seq::new(edits.len(), |i: int| edits[i]@)
}

/// A place held to the last one that can be named.
pub open spec fn held(at: int) -> int {
    if at > usize::MAX {
        usize::MAX as int
    } else {
        at
    }
}

impl Edit {
    /// How many characters it puts in.
    pub open spec fn puts_in(self) -> int {
        self.text@.len() as int
    }

    /// How many characters it takes out.
    pub open spec fn takes_out(self) -> int {
        if self.end >= self.start {
            self.end - self.start
        } else {
            0
        }
    }

    /// Where `at` is once the edit is made. A place the edit reaches goes to
    /// one side of what it puts in.
    pub open spec fn maps(self, at: int, assoc: Assoc) -> int {
        if at < self.start {
            at
        } else if at > self.end {
            held(at - self.takes_out() + self.puts_in())
        } else if assoc is Before {
            self.start as int
        } else {
            held(self.start + self.puts_in())
        }
    }

    /// `text` once the edit is made.
    pub open spec fn applied(self, text: Seq<char>) -> Seq<char> {
        text.take(self.start as int) + self.text@ + text.skip(self.end as int)
    }

    /// Whether the edit is one of `text`.
    pub open spec fn fits(self, text: Seq<char>) -> bool {
        self.start <= self.end <= text.len()
    }

    /// An edit that puts `text` in place of what is from `start` up to `end`.
    pub fn replace(start: usize, end: usize, text: String) -> (edit: Self)
        ensures
            edit.start == start,
            edit.end == end,
            edit.text@ == text@,
    {
        Edit { start, end, text }
    }

    /// How many characters it puts in.
    pub fn inserted(&self) -> (count: usize)
        ensures
            count == self.puts_in(),
    {
        self.text.as_str().unicode_len()
    }

    /// How many characters it takes out.
    pub fn removed(&self) -> (count: usize)
        ensures
            count == self.takes_out(),
    {
        self.end.saturating_sub(self.start)
    }

    /// Where what it puts in ends.
    pub fn end_after(&self) -> (end: usize)
        ensures
            end == held(self.start + self.puts_in()),
    {
        self.start.saturating_add(self.inserted())
    }

    /// Where `at` is once the edit is made. A place the edit reaches goes to
    /// the side `assoc` says.
    pub fn map_pos(&self, at: usize, assoc: Assoc) -> (mapped: usize)
        ensures
            mapped == self.maps(at as int, assoc),
    {
        if at < self.start {
            at
        } else if at > self.end {
            (at - self.removed()).saturating_add(self.inserted())
        } else {
            match assoc {
                Assoc::Before => self.start,
                Assoc::After => self.end_after(),
            }
        }
    }
}

/// Edits keep places in order, whichever side of them the places keep to: a
/// place that keeps after goes no further back than one that keeps before.
pub proof fn edits_keep_places_in_order(edit: Edit, a: int, b: int, assoc: Assoc)
    requires
        0 <= a <= b,
        edit.start <= edit.end,
    ensures
        edit.maps(a, assoc) <= edit.maps(b, assoc),
        edit.maps(a, Assoc::Before) <= edit.maps(b, Assoc::After),
{
}

/// A character the edit does not take out is still there, at the place its
/// own place is mapped to.
pub proof fn text_outside_an_edit_moves_with_its_place(edit: Edit, text: Seq<char>, at: int)
    requires
        edit.fits(text),
        0 <= at < text.len(),
        at < edit.start || edit.end <= at,
        text.len() + edit.puts_in() <= usize::MAX,
    ensures
        edit.maps(at, Assoc::After) < edit.applied(text).len(),
        edit.applied(text)[edit.maps(at, Assoc::After)] == text[at],
{
}

/// A place an edit reaches, its ends included, goes to the side of what is put in that
/// it keeps to; one before it stays; and one after moves by what was put in less what was
/// taken out.
pub proof fn a_place_an_edit_reaches_goes_to_its_side(edit: Edit, at: int)
    requires
        edit.start <= edit.end,
        0 <= at,
        at + edit.text@.len() <= usize::MAX,
        edit.start + edit.text@.len() <= usize::MAX,
    ensures
        at < edit.start ==> edit.maps(at, Assoc::Before) == at && edit.maps(at, Assoc::After) == at,
        edit.start <= at <= edit.end ==> edit.maps(at, Assoc::Before) == edit.start && edit.maps(
            at,
            Assoc::After,
        ) == edit.start + edit.text@.len(),
        at > edit.end ==> edit.maps(at, Assoc::Before) == at + edit.text@.len() - (edit.end
            - edit.start) && edit.maps(at, Assoc::After) == at + edit.text@.len() - (edit.end
            - edit.start),
{
}

/// An edit puts its text in place of what it takes out, and leaves the rest.
pub proof fn an_edit_puts_its_text_in_place(edit: Edit, before: Seq<char>, out: Seq<char>, after: Seq<char>)
    requires
        edit.start == before.len(),
        edit.end == before.len() + out.len(),
    ensures
        edit.applied(before + out + after) == before + edit.text@ + after,
        edit.takes_out() == out.len(),
        edit.puts_in() == edit.text@.len(),
{
    let text = before + out + after;
    assert(text.take(edit.start as int) =~= before);
    assert(text.skip(edit.end as int) =~= after);
}

} // verus!
