//! Diagnostics: where each problem a language server named is now.
//!
//! A server describes a version of the text, and by the time its answer
//! arrives the text has usually moved on. So every version the server may yet
//! describe is kept, with the edits that led from it to the next: an answer
//! about version 7 is read against the text as it was at 7 and carried forward
//! through every edit since. From then on the marks move with each edit as it
//! is made, the way a selection does, until the server says again.

use ropey::Rope;
use vstd::prelude::*;

use crate::edit::{Assoc, Edit};
use crate::order::{is_ranking, picked, ranking, Key};
use crate::rope::{copied, rope_text};
use crate::spans::Span;

verus! {

/// How many versions of a document are kept for a server that is slow to
/// answer. A server further behind than this is describing text so old that
/// its answer is better waited out than drawn.
pub const MOST_VERSIONS: usize = 256;

/// How serious a problem is.
#[derive(Debug, Clone, Copy, PartialEq, Eq, Structural)]
pub enum Severity {
    /// It is wrong.
    Error,
    /// It may be wrong.
    Warning,
    /// It is worth knowing.
    Info,
    /// It could be better.
    Hint,
}

impl Severity {
    /// Where it goes among others: the most serious first.
    pub open spec fn spec_rank(self) -> usize {
        match self {
            Severity::Error => 0,
            Severity::Warning => 1,
            Severity::Info => 2,
            Severity::Hint => 3,
        }
    }

    /// Where it goes among others: the most serious first.
    pub fn rank(self) -> (rank: usize)
        ensures
            rank == self.spec_rank(),
    {
        match self {
            Severity::Error => 0,
            Severity::Warning => 1,
            Severity::Info => 2,
            Severity::Hint => 3,
        }
    }
}

/// How a server marks how serious a diagnostic is, when it does.
#[derive(Debug, Clone, Copy, PartialEq, Eq, Structural)]
pub enum Marked {
    /// As an error.
    Error,
    /// As a warning.
    Warning,
    /// As information.
    Information,
    /// As a hint.
    Hint,
    /// In some other way.
    Other,
}

/// How serious a diagnostic is. The protocol leaves an unmarked one to the
/// client; the one reading that cannot hide a real problem is an error.
pub fn severity(marked: Option<Marked>) -> (severity: Severity)
    ensures
        severity == match marked {
            Some(Marked::Warning) => Severity::Warning,
            Some(Marked::Information) => Severity::Info,
            Some(Marked::Hint) => Severity::Hint,
            _ => Severity::Error,
        },
{
    match marked {
        Some(Marked::Warning) => Severity::Warning,
        Some(Marked::Information) => Severity::Info,
        Some(Marked::Hint) => Severity::Hint,
        _ => Severity::Error,
    }
}

/// Where a problem is.
#[derive(Debug, Clone, Copy, PartialEq, Eq, Structural)]
pub struct Mark {
    /// Where it starts.
    pub start: usize,
    /// Where it ends.
    pub end: usize,
    /// How serious it is.
    pub severity: Severity,
}

/// What a diagnostic says.
#[derive(Debug)]
pub struct Note {
    /// What is wrong.
    pub message: String,
    /// Who said it: `rustc`, `clippy`, `pyright`.
    pub source: Option<String>,
    /// Its code, such as `E0308`.
    pub code: Option<String>,
    /// Which of the server's answer it is, for handing back to the server when
    /// asking what would fix it.
    pub which: usize,
}

impl Clone for Note {
    fn clone(&self) -> (note: Self)
        ensures
            note == *self,
    {
        Note {
            message: self.message.clone(),
            source: match &self.source {
                Some(text) => Some(text.clone()),
                None => None,
            },
            code: match &self.code {
                Some(text) => Some(text.clone()),
                None => None,
            },
            which: self.which,
        }
    }
}

/// One diagnostic of a server's answer.
#[derive(Debug)]
pub struct Found {
    /// Where it is, as the server counts places: the line and the place in it
    /// where it starts, and the same for where it ends.
    pub place: (u32, u32, u32, u32),
    /// The characters it is on, in the text of the version it describes.
    pub span: Span,
    /// How serious it is.
    pub severity: Severity,
    /// What is wrong.
    pub message: String,
    /// Who said it.
    pub source: Option<String>,
    /// Its code.
    pub code: Option<String>,
}

/// A server's answer about a document.
#[derive(Debug)]
pub struct Answer {
    /// The version it describes, when the server says.
    pub version: Option<i32>,
    /// What it found.
    pub found: Vec<Found>,
}

/// Enough of a diagnostic to tell it from a different one.
pub open spec fn gist(found: Found) -> ((u32, u32, u32, u32), Severity, Seq<char>) {
    (found.place, found.severity, found.message@)
}

/// Enough of an answer to tell it from a different one.
pub open spec fn gists(found: Seq<Found>) -> Seq<((u32, u32, u32, u32), Severity, Seq<char>)> {
    Seq::new(found.len(), |i: int| gist(found[i]))
}

/// Whether two answers say the same.
pub open spec fn same_answer(a: Answer, b: Answer) -> bool {
    a.version == b.version && gists(a.found@) == gists(b.found@)
}

/// One version of a document.
#[derive(Debug)]
pub struct Step {
    /// Which version.
    pub version: i32,
    /// The text as it was at this version.
    pub text: Rope,
    /// The edits that took it to the next version, in order.
    pub edits: Vec<Edit>,
}

/// A mark carried through one edit. Neither end grows to take in text typed
/// against it: new text is not what the server complained about.
pub open spec fn carried_by(mark: Mark, edit: Edit) -> Mark {
    let start = edit.maps(mark.start as int, Assoc::After);
    let end = edit.maps(mark.end as int, Assoc::Before);
    Mark {
        start: start as usize,
        end: if end >= start {
            end as usize
        } else {
            start as usize
        },
        ..mark
    }
}

/// A mark carried through `edits`, one after another.
pub open spec fn carried_through(mark: Mark, edits: Seq<Edit>) -> Mark
    decreases edits.len(),
{
    if edits.len() == 0 {
        mark
    } else {
        carried_by(carried_through(mark, edits.drop_last()), edits.last())
    }
}

/// A mark carried through the edits of each of `steps`, one after another.
pub open spec fn carried_since(mark: Mark, steps: Seq<Step>) -> Mark
    decreases steps.len(),
{
    if steps.len() == 0 {
        mark
    } else {
        carried_through(carried_since(mark, steps.drop_last()), steps.last().edits@)
    }
}

/// A mark carried through `edits`. Neither end grows to take in text typed
/// against it: new text is not what the server complained about.
pub fn carried(mark: Mark, edits: &Vec<Edit>) -> (to: Mark)
    ensures
        to == carried_through(mark, edits@),
{
    let mut to = mark;
    let mut i: usize = 0;
    assert(edits@.take(0) =~= Seq::empty());
    while i < edits.len()
        invariant
            i <= edits@.len(),
            to == carried_through(mark, edits@.take(i as int)),
        decreases edits@.len() - i,
    {
        let start: usize = edits[i].map_pos(to.start, Assoc::After);
        let end: usize = edits[i].map_pos(to.end, Assoc::Before);
        to =
        Mark {
            start,
            end: if end >= start {
                end
            } else {
                start
            },
            severity: to.severity,
        };
        assert(edits@.take(i + 1).drop_last() =~= edits@.take(i as int));
        i = i + 1;
    }
    assert(edits@.take(edits@.len() as int) =~= edits@);
    to
}

/// Carrying through two lots of edits one after the other is carrying through
/// both.
pub proof fn carrying_goes_on(mark: Mark, first: Seq<Edit>, more: Seq<Edit>)
    ensures
        carried_through(mark, first + more) == carried_through(carried_through(mark, first), more),
    decreases more.len(),
{
    if more.len() == 0 {
        assert(first + more =~= first);
    } else {
        assert((first + more).drop_last() =~= first + more.drop_last());
        carrying_goes_on(mark, first, more.drop_last());
    }
}

/// A mark never ends before it starts, however it is carried.
pub proof fn a_carried_mark_is_in_order(mark: Mark, edits: Seq<Edit>)
    requires
        mark.start <= mark.end,
    ensures
        carried_through(mark, edits).start <= carried_through(mark, edits).end,
        carried_through(mark, edits).severity == mark.severity,
    decreases edits.len(),
{
    if edits.len() > 0 {
        a_carried_mark_is_in_order(mark, edits.drop_last());
    }
}

/// Whether `edit` leaves the text `mark` is on alone: it ends by the time the
/// mark starts, or starts once the mark has ended.
pub open spec fn leaves_alone(edit: Edit, mark: Mark) -> bool {
    edit.end <= mark.start || mark.end <= edit.start
}

/// However an edit falls around it, a mark carried through it is on the same
/// text as before.
pub proof fn marks_stay_on_the_text_they_were_placed_on(mark: Mark, edit: Edit, text: Seq<char>)
    requires
        mark.start < mark.end <= text.len(),
        edit.fits(text),
        leaves_alone(edit, mark),
        text.len() + edit.puts_in() <= usize::MAX,
    ensures
        ({
            let to = carried_by(mark, edit);
            &&& to.start <= to.end <= edit.applied(text).len()
            &&& edit.applied(text).subrange(to.start as int, to.end as int) == text.subrange(
                mark.start as int,
                mark.end as int,
            )
        }),
{
    let to = carried_by(mark, edit);
    assert(edit.applied(text).subrange(to.start as int, to.end as int) =~= text.subrange(
        mark.start as int,
        mark.end as int,
    ));
}

/// Typing at either end of a mark does not grow it, and deleting what it is on
/// leaves it empty where the text was.
pub proof fn typing_against_a_mark_does_not_grow_it(mark: Mark, edit: Edit)
    requires
        mark.start <= mark.end,
        edit.start <= edit.end,
        mark.end + edit.puts_in() <= usize::MAX,
    ensures
        edit.start == edit.end && (edit.start == mark.start || edit.start == mark.end)
            && mark.start < mark.end ==> carried_by(mark, edit).end - carried_by(mark, edit).start
            == mark.end - mark.start,
        edit.start <= mark.start && mark.end <= edit.end && edit.puts_in() == 0 ==> carried_by(
            mark,
            edit,
        ).start == edit.start && carried_by(mark, edit).end == edit.start,
{
}

/// One followed document: the versions its server may yet describe, and where
/// its diagnostics are now.
#[derive(Debug)]
pub struct Watched {
    /// Which document.
    pub doc: usize,
    /// The text at every version the server may yet describe, oldest first.
    pub history: Vec<Step>,
    /// The last answer placed, so the same answer is not placed twice — a
    /// second placing would undo the mapping since.
    pub placed: Option<Answer>,
    /// Where each diagnostic is now, ordered by where it starts.
    pub marks: Vec<Mark>,
    /// What each one says, in the same order.
    pub notes: Vec<Note>,
}

/// Whether marks are ordered by where they start, then by where they end.
pub open spec fn ordered(marks: Seq<Mark>) -> bool {
    forall|i: int, j: int|
        0 <= i < j < marks.len() ==> (#[trigger] marks[i]).start < (#[trigger] marks[j]).start || (
        marks[i].start == marks[j].start && marks[i].end <= marks[j].end)
}

/// What marks are put in order by.
pub open spec fn mark_keys(marks: Seq<Mark>) -> Seq<Key> {
    Seq::new(
        marks.len(),
        |i: int| (marks[i].start, marks[i].end, marks[i].severity.spec_rank()),
    )
}

/// Whether `to` are `marks` and `notes` in order, each note beside its mark:
/// as they were where they are in order already.
pub open spec fn in_order_of(
    marks: Seq<Mark>,
    notes: Seq<Note>,
    to_marks: Seq<Mark>,
    to_notes: Seq<Note>,
) -> bool {
    if ordered(marks) {
        to_marks == marks && to_notes == notes
    } else {
        exists|order: Seq<usize>|
            {
                &&& #[trigger] is_ranking(order, mark_keys(marks))
                &&& to_marks == picked(marks, order)
                &&& to_notes == picked(notes, order)
            }
    }
}

fn is_ordered(marks: &Vec<Mark>) -> (is: bool)
    ensures
        is == ordered(marks@),
{
    let mut i: usize = 1;
    while i < marks.len()
        invariant
            1 <= i,
            marks@.len() > 0 ==> i <= marks@.len(),
            marks@.len() > 0 ==> ordered(marks@.take(i as int)),
            marks@.len() == 0 ==> i == 1,
        decreases marks@.len() - i,
    {
        let (a, b) = (marks[i - 1], marks[i]);
        if !(a.start < b.start || (a.start == b.start && a.end <= b.end)) {
            proof {
                assert(marks@[i - 1] == a && marks@[i as int] == b);
            }
            return false;
        }
        proof {
            let less = marks@.take(i as int);
            let more = marks@.take(i + 1);
            assert forall|p: int, q: int| 0 <= p < q < more.len() implies (
            #[trigger] more[p]).start < (#[trigger] more[q]).start || (more[p].start
                == more[q].start && more[p].end <= more[q].end) by {
                if q == i {
                    if p < i - 1 {
                        assert(less[p].start < less[i - 1].start || (less[p].start == less[i
                            - 1].start && less[p].end <= less[i - 1].end));
                    }
                } else {
                    assert(less[p] == more[p] && less[q] == more[q]);
                }
            }
        }
        i = i + 1;
    }
    proof {
        if marks@.len() > 0 {
            assert(marks@.take(i as int) =~= marks@);
        }
    }
    true
}

/// Order marks by where they start, keeping each note beside its mark.
fn sort_together(marks: Vec<Mark>, notes: Vec<Note>) -> (sorted: (Vec<Mark>, Vec<Note>))
    requires
        marks@.len() == notes@.len(),
    ensures
        in_order_of(marks@, notes@, sorted.0@, sorted.1@),
        ordered(sorted.0@),
        sorted.0@.len() == marks@.len(),
        sorted.1@.len() == marks@.len(),
{
    if is_ordered(&marks) {
        return (marks, notes);
    }
    let mut keys: Vec<Key> = Vec::new();
    let mut i: usize = 0;
    while i < marks.len()
        invariant
            i <= marks@.len(),
            keys@ =~= mark_keys(marks@).take(i as int),
        decreases marks@.len() - i,
    {
        keys.push((marks[i].start, marks[i].end, marks[i].severity.rank()));
        i = i + 1;
    }
    assert(mark_keys(marks@).take(marks@.len() as int) =~= mark_keys(marks@));
    let order = ranking(&keys);
    let mut to_marks: Vec<Mark> = Vec::new();
    let mut to_notes: Vec<Note> = Vec::new();
    let mut n: usize = 0;
    while n < order.len()
        invariant
            n <= order@.len(),
            order@.len() == marks@.len() == notes@.len(),
            is_ranking(order@, mark_keys(marks@)),
            to_marks@ =~= picked(marks@, order@).take(n as int),
            to_notes@ =~= picked(notes@, order@).take(n as int),
        decreases order@.len() - n,
    {
        let at: usize = order[n];
        assert(at < mark_keys(marks@).len());
        to_marks.push(marks[at]);
        to_notes.push(notes[at].clone());
        n = n + 1;
    }
    proof {
        assert(picked(marks@, order@).take(order@.len() as int) =~= picked(marks@, order@));
        assert(picked(notes@, order@).take(order@.len() as int) =~= picked(notes@, order@));
        assert forall|i: int, j: int| 0 <= i < j < to_marks@.len() implies (
        #[trigger] to_marks@[i]).start < (#[trigger] to_marks@[j]).start || (to_marks@[i].start
            == to_marks@[j].start && to_marks@[i].end <= to_marks@[j].end) by {
            assert(crate::order::ranked(mark_keys(marks@), order@[i], order@[j]));
            assert(order@[i] < mark_keys(marks@).len());
            assert(order@[j] < mark_keys(marks@).len());
        }
    }
    (to_marks, to_notes)
}

/// Where the first step of `history`, from the `from`th on, that is `version`
/// is.
pub open spec fn step_of(history: Seq<Step>, version: i32, from: int) -> Option<int>
    decreases history.len() - from,
{
    if from < 0 || from >= history.len() {
        None
    } else if history[from].version == version {
        Some(from)
    } else {
        step_of(history, version, from + 1)
    }
}

/// A step found is one of the history's.
pub proof fn a_step_found_is_there(history: Seq<Step>, version: i32, from: int)
    requires
        0 <= from <= history.len(),
    ensures
        step_of(history, version, from) matches Some(at) ==> from <= at < history.len()
            && history[at].version == version,
    decreases history.len() - from,
{
    if from < history.len() && history[from].version != version {
        a_step_found_is_there(history, version, from + 1);
    }
}

/// The mark of a diagnostic, where it was in the text it describes.
pub open spec fn mark_of(found: Found) -> Mark {
    Mark { start: found.span.0, end: found.span.1, severity: found.severity }
}

/// The marks of an answer, carried through `steps`.
pub open spec fn marks_since(found: Seq<Found>, steps: Seq<Step>) -> Seq<Mark> {
    Seq::new(found.len(), |i: int| carried_since(mark_of(found[i]), steps))
}

/// Whether `notes` say what `found` does.
pub open spec fn notes_of(found: Seq<Found>, notes: Seq<Note>) -> bool {
    &&& notes.len() == found.len()
    &&& forall|i: int|
        0 <= i < notes.len() ==> {
            &&& (#[trigger] notes[i]).message@ == found[i].message@
            &&& crate::reply::words(notes[i].source) == crate::reply::words(found[i].source)
            &&& crate::reply::words(notes[i].code) == crate::reply::words(found[i].code)
            &&& notes[i].which == i
        }
}

/// What a note says, as text.
pub open spec fn note_text(note: Note) -> (Seq<char>, Option<Seq<char>>, Option<Seq<char>>, usize) {
    (
        note.message@,
        crate::reply::words(note.source),
        crate::reply::words(note.code),
        note.which,
    )
}

/// What `notes` say, as text.
pub open spec fn note_texts(notes: Seq<Note>) -> Seq<
    (Seq<char>, Option<Seq<char>>, Option<Seq<char>>, usize),
> {
    Seq::new(notes.len(), |i: int| note_text(notes[i]))
}

/// Whether the marks changed: where they are, how serious they are, or what they
/// say.
pub open spec fn marks_changed(before: Watched, after: Watched) -> bool {
    !(before.marks@ =~= after.marks@ && note_texts(before.notes@) =~= note_texts(after.notes@))
}

/// The versions kept once `edits` have made `version`, which holds `text`, of the
/// last of them: the edits join the last version, and the new one follows it. The
/// oldest goes once there are too many.
pub open spec fn is_edited(
    before: Seq<Step>,
    after: Seq<Step>,
    version: i32,
    edits: Seq<Edit>,
    text: Seq<char>,
) -> bool {
    let dropped = if before.len() == MOST_VERSIONS {
        1int
    } else {
        0
    };
    &&& after.len() == before.len() + 1 - dropped
    &&& after.last().version == version
    &&& rope_text(after.last().text) == text
    &&& after.last().edits@.len() == 0
    &&& forall|i: int|
        0 <= i < after.len() - 1 ==> {
            &&& (#[trigger] after[i]).version == before[i + dropped].version
            &&& after[i].text == before[i + dropped].text
            &&& after[i].edits@ == if i + dropped == before.len() - 1 {
                before.last().edits@ + edits
            } else {
                before[i + dropped].edits@
            }
        }
}

fn same_marks(a: &Vec<Mark>, b: &Vec<Mark>) -> (same: bool)
    ensures
        same == (a@ == b@),
{
    if a.len() != b.len() {
        return false;
    }
    let mut i: usize = 0;
    while i < a.len()
        invariant
            i <= a@.len() == b@.len(),
            forall|k: int| 0 <= k < i ==> #[trigger] a@[k] == b@[k],
        decreases a@.len() - i,
    {
        if a[i] != b[i] {
            return false;
        }
        i = i + 1;
    }
    assert(a@ =~= b@);
    true
}

fn same_words(a: &Option<String>, b: &Option<String>) -> (same: bool)
    ensures
        same == (crate::reply::words(*a) == crate::reply::words(*b)),
{
    match (a, b) {
        (Some(x), Some(y)) => *x == *y,
        (None, None) => true,
        _ => false,
    }
}

fn same_notes(a: &Vec<Note>, b: &Vec<Note>) -> (same: bool)
    ensures
        same == (note_texts(a@) == note_texts(b@)),
{
    if a.len() != b.len() {
        assert(note_texts(a@).len() != note_texts(b@).len());
        return false;
    }
    let mut i: usize = 0;
    while i < a.len()
        invariant
            i <= a@.len() == b@.len(),
            forall|k: int| 0 <= k < i ==> note_text(#[trigger] a@[k]) == note_text(b@[k]),
        decreases a@.len() - i,
    {
        let (x, y) = (&a[i], &b[i]);
        if x.message != y.message || !same_words(&x.source, &y.source) || !same_words(
            &x.code,
            &y.code,
        ) || x.which != y.which {
            proof {
                assert(note_texts(a@)[i as int] == note_text(*x));
                assert(note_texts(b@)[i as int] == note_text(*y));
            }
            return false;
        }
        i = i + 1;
    }
    assert(note_texts(a@) =~= note_texts(b@));
    true
}

fn same_place(a: (u32, u32, u32, u32), b: (u32, u32, u32, u32)) -> (same: bool)
    ensures
        same == (a == b),
{
    a.0 == b.0 && a.1 == b.1 && a.2 == b.2 && a.3 == b.3
}

fn says_the_same(a: &Answer, b: &Answer) -> (same: bool)
    ensures
        same == same_answer(*a, *b),
{
    let versions = match (a.version, b.version) {
        (Some(x), Some(y)) => x == y,
        (None, None) => true,
        _ => false,
    };
    if !versions || a.found.len() != b.found.len() {
        proof {
            if a.found@.len() != b.found@.len() {
                assert(gists(a.found@).len() != gists(b.found@).len());
            }
        }
        return false;
    }
    let mut i: usize = 0;
    while i < a.found.len()
        invariant
            i <= a.found@.len() == b.found@.len(),
            forall|k: int| 0 <= k < i ==> gist(#[trigger] a.found@[k]) == gist(b.found@[k]),
        decreases a.found@.len() - i,
    {
        let (x, y) = (&a.found[i], &b.found[i]);
        if !same_place(x.place, y.place) || x.severity != y.severity || x.message != y.message {
            proof {
                assert(gists(a.found@)[i as int] == gist(*x));
                assert(gists(b.found@)[i as int] == gist(*y));
            }
            return false;
        }
        i = i + 1;
    }
    assert(gists(a.found@) =~= gists(b.found@));
    true
}

fn note_of(found: &Found, which: usize) -> (note: Note)
    ensures
        note.message@ == found.message@,
        crate::reply::words(note.source) == crate::reply::words(found.source),
        crate::reply::words(note.code) == crate::reply::words(found.code),
        note.which == which,
{
    Note {
        message: found.message.clone(),
        source: match &found.source {
            Some(text) => Some(text.clone()),
            None => None,
        },
        code: match &found.code {
            Some(text) => Some(text.clone()),
            None => None,
        },
        which,
    }
}

fn carried_on(mark: Mark, steps: &Vec<Step>, from: usize) -> (to: Mark)
    requires
        from <= steps@.len(),
    ensures
        to == carried_since(mark, steps@.skip(from as int)),
{
    let ghost since = steps@.skip(from as int);
    let mut to = mark;
    let mut i: usize = from;
    assert(since.take(0) =~= Seq::empty());
    while i < steps.len()
        invariant
            from <= i <= steps@.len(),
            since == steps@.skip(from as int),
            to == carried_since(mark, since.take(i - from)),
        decreases steps@.len() - i,
    {
        to = carried(to, &steps[i].edits);
        assert(since.take(i + 1 - from).drop_last() =~= since.take(i - from));
        assert(since.take(i + 1 - from).last() == steps@[i as int]);
        i = i + 1;
    }
    assert(since.take(since.len() as int) =~= since);
    to
}

impl Watched {
    /// Whether each mark has its note, in order, and no more versions are kept
    /// than there is any use for.
    pub open spec fn wf(self) -> bool {
        &&& self.marks@.len() == self.notes@.len()
        &&& ordered(self.marks@)
        &&& 0 < self.history@.len() <= MOST_VERSIONS
    }

    /// The version an answer describes: the one it says, or the latest.
    pub open spec fn described(self, version: Option<i32>) -> i32 {
        match version {
            Some(version) => version,
            None => self.history@.last().version,
        }
    }

    /// `doc` started being followed at `version`, holding `text`. Anything
    /// said about it before is about a different text.
    pub fn opened(doc: usize, version: i32, text: &Rope) -> (watched: Self)
        ensures
            watched.wf(),
            watched.doc == doc,
            watched.history@.len() == 1,
            watched.history@[0].version == version,
            rope_text(watched.history@[0].text) == rope_text(*text),
            watched.history@[0].edits@.len() == 0,
            watched.placed is None,
            watched.marks@.len() == 0,
    {
        let mut history: Vec<Step> = Vec::new();
        history.push(Step { version, text: copied(text), edits: Vec::new() });
        Watched { doc, history, placed: None, marks: Vec::new(), notes: Vec::new() }
    }

    /// The document was edited by `edits` into `version`, which holds `text`.
    pub fn changed(&mut self, version: i32, edits: &Vec<Edit>, text: &Rope)
        requires
            old(self).wf(),
        ensures
            final(self).wf(),
            final(self).doc == old(self).doc,
            final(self).placed == old(self).placed,
            is_edited(
                old(self).history@,
                final(self).history@,
                version,
                edits@,
                rope_text(*text),
            ),
            in_order_of(
                Seq::new(
                    old(self).marks@.len(),
                    |i: int| carried_through(old(self).marks@[i], edits@),
                ),
                old(self).notes@,
                final(self).marks@,
                final(self).notes@,
            ),
    {
        let ghost start = *self;
        let last: usize = self.history.len() - 1;
        let mut step = self.history.remove(last);
        let mut i: usize = 0;
        assert(edits@.take(0) =~= Seq::empty());
        while i < edits.len()
            invariant
                i <= edits@.len(),
                start.history@.len() > 0,
                step.version == start.history@.last().version,
                step.text == start.history@.last().text,
                step.edits@ =~= start.history@.last().edits@ + edits@.take(i as int),
            decreases edits@.len() - i,
        {
            step.edits.push(edits[i].clone());
            i = i + 1;
        }
        assert(edits@.take(edits@.len() as int) =~= edits@);
        self.history.push(step);
        self.history.push(Step { version, text: copied(text), edits: Vec::new() });
        if self.history.len() > MOST_VERSIONS {
            let _ = self.history.remove(0);
        }
        let mut marks: Vec<Mark> = Vec::new();
        let ghost goal = Seq::new(
            start.marks@.len(),
            |i: int| carried_through(start.marks@[i], edits@),
        );
        let mut i: usize = 0;
        while i < self.marks.len()
            invariant
                i <= self.marks@.len(),
                self.marks@ == start.marks@,
                goal == Seq::new(
                    start.marks@.len(),
                    |i: int| carried_through(start.marks@[i], edits@),
                ),
                marks@ =~= goal.take(i as int),
            decreases self.marks@.len() - i,
        {
            marks.push(carried(self.marks[i], edits));
            i = i + 1;
        }
        assert(goal.take(goal.len() as int) =~= goal);
        let mut notes: Vec<Note> = Vec::new();
        std::mem::swap(&mut notes, &mut self.notes);
        // Edits keep marks in order unless they collapse onto each other, and
        // the ties that leaves are sorted out here rather than trusted.
        let (marks, notes) = sort_together(marks, notes);
        self.marks = marks;
        self.notes = notes;
    }

    /// The text an answer about `version` is to be read against: the text as
    /// it was then, or as it is where the server does not say. `None` for a
    /// version older than any kept, or never sent.
    pub fn text_at(&self, version: Option<i32>) -> (text: Option<&Rope>)
        requires
            self.wf(),
        ensures
            match text {
                Some(text) => step_of(self.history@, self.described(version), 0) matches Some(at)
                    && *text == self.history@[at].text,
                None => step_of(self.history@, self.described(version), 0) is None,
            },
    {
        let described: i32 = match version {
            Some(version) => version,
            None => self.history[self.history.len() - 1].version,
        };
        let mut i: usize = 0;
        while i < self.history.len()
            invariant
                i <= self.history@.len(),
                described == self.described(version),
                step_of(self.history@, described, 0) == step_of(
                    self.history@,
                    described,
                    i as int,
                ),
            decreases self.history@.len() - i,
        {
            if self.history[i].version == described {
                return Some(&self.history[i].text);
            }
            i = i + 1;
        }
        None
    }

    /// The server's latest answer: `None` for no answer — the server has gone,
    /// or said nothing is wrong. The spans of what it found are in the text of
    /// the version it describes, or of the latest where it does not say.
    ///
    /// Whether the marks changed, or what they say.
    pub fn publish(&mut self, answer: Option<Answer>) -> (changed: bool)
        requires
            old(self).wf(),
        ensures
            final(self).wf(),
            final(self).doc == old(self).doc,
            changed == marks_changed(*old(self), *final(self)),
            match answer {
                None => {
                    &&& final(self).marks@.len() == 0
                    &&& final(self).placed is None
                    &&& final(self).history@ == old(self).history@
                },
                Some(answer) => {
                    if old(self).placed matches Some(placed) && same_answer(placed, answer) {
                        // The same answer twice is not placed twice.
                        *final(self) == *old(self)
                    } else {
                        let first = step_of(
                            old(self).history@,
                            old(self).described(answer.version),
                            0,
                        );
                        &&& final(self).placed == Some(answer)
                        &&& match first {
                            // What is on screen stays until an answer that can
                            // be placed arrives.
                            None => {
                                &&& final(self).marks@ == old(self).marks@
                                &&& final(self).notes@ == old(self).notes@
                                &&& final(self).history@ == old(self).history@
                            },
                            // Nothing older than this will be asked about
                            // again.
                            Some(first) => {
                                &&& final(self).history@ == old(self).history@.skip(first)
                                &&& exists|notes: Seq<Note>|
                                    {
                                        &&& #[trigger] notes_of(answer.found@, notes)
                                        &&& in_order_of(
                                            marks_since(
                                                answer.found@,
                                                old(self).history@.skip(first),
                                            ),
                                            notes,
                                            final(self).marks@,
                                            final(self).notes@,
                                        )
                                    }
                            },
                        }
                    }
                },
            },
    {
        let answer = match answer {
            Some(answer) => answer,
            None => {
                let had = self.marks.len() > 0;
                self.marks = Vec::new();
                self.notes = Vec::new();
                self.placed = None;
                return had;
            },
        };
        if let Some(placed) = &self.placed {
            if says_the_same(placed, &answer) {
                return false;
            }
        }
        let described: i32 = match answer.version {
            Some(version) => version,
            None => self.history[self.history.len() - 1].version,
        };
        let mut first: usize = 0;
        while first < self.history.len() && self.history[first].version != described
            invariant
                first <= self.history@.len(),
                step_of(self.history@, described, 0) == step_of(
                    self.history@,
                    described,
                    first as int,
                ),
            decreases self.history@.len() - first,
        {
            first = first + 1;
        }
        if first == self.history.len() {
            self.placed = Some(answer);
            return false;
        }
        let mut marks: Vec<Mark> = Vec::new();
        let mut notes: Vec<Note> = Vec::new();
        let ghost goal = marks_since(answer.found@, self.history@.skip(first as int));
        let mut i: usize = 0;
        while i < answer.found.len()
            invariant
                i <= answer.found@.len(),
                first < self.history@.len(),
                goal == marks_since(answer.found@, self.history@.skip(first as int)),
                marks@ =~= goal.take(i as int),
                notes@.len() == i,
                forall|k: int|
                    0 <= k < i ==> {
                        &&& (#[trigger] notes@[k]).message@ == answer.found@[k].message@
                        &&& crate::reply::words(notes@[k].source) == crate::reply::words(
                            answer.found@[k].source,
                        )
                        &&& crate::reply::words(notes@[k].code) == crate::reply::words(
                            answer.found@[k].code,
                        )
                        &&& notes@[k].which == k
                    },
            decreases answer.found@.len() - i,
        {
            let found = &answer.found[i];
            let mark = Mark { start: found.span.0, end: found.span.1, severity: found.severity };
            marks.push(carried_on(mark, &self.history, first));
            notes.push(note_of(found, i));
            i = i + 1;
        }
        assert(goal.take(goal.len() as int) =~= goal);
        let ghost all_notes = notes@;
        assert(notes_of(answer.found@, all_notes));
        let ghost history = self.history@;
        let kept = self.history.split_off(first);
        assert(kept@ =~= history.skip(first as int));
        self.history = kept;
        let (marks, notes) = sort_together(marks, notes);
        let changed = !same_marks(&self.marks, &marks) || !same_notes(&self.notes, &notes);
        self.marks = marks;
        self.notes = notes;
        self.placed = Some(answer);
        changed
    }
}

/// An answer that comes late lands where it would have landed had it come at
/// once and been carried through the edits since: `late` is the last of
/// `steps` once `edits` have been made to it, and `next` the version they led
/// to.
pub proof fn a_late_answer_lands_as_an_early_one_carried(
    found: Found,
    steps: Seq<Step>,
    edits: Seq<Edit>,
    late: Step,
    next: Step,
)
    requires
        steps.len() > 0,
        late.edits@ == steps.last().edits@ + edits,
        next.edits@.len() == 0,
    ensures
        carried_since(mark_of(found), steps.drop_last().push(late).push(next)) == carried_through(
            carried_since(mark_of(found), steps),
            edits,
        ),
{
    let mark = mark_of(found);
    let before = carried_since(mark, steps.drop_last());
    let some = steps.drop_last().push(late);
    let all = some.push(next);
    assert(all.drop_last() =~= some);
    assert(some.drop_last() =~= steps.drop_last());
    assert(carried_since(mark, some) == carried_through(before, late.edits@));
    assert(carried_since(mark, steps) == carried_through(before, steps.last().edits@));
    assert(carried_since(mark, all) == carried_since(mark, some)) by {
        assert(all.last() == next);
    }
    carrying_goes_on(before, steps.last().edits@, edits);
}

/// What an answer about an older version marks follows every edit since: once
/// `edits` have been made, an answer about the version that was at `first` among
/// those kept lands where it would have landed before them, carried through them.
pub proof fn an_answer_is_carried_through_every_edit_since(
    found: Found,
    before: Seq<Step>,
    after: Seq<Step>,
    version: i32,
    edits: Seq<Edit>,
    text: Seq<char>,
    first: int,
)
    requires
        is_edited(before, after, version, edits, text),
        0 < before.len() <= MOST_VERSIONS,
        before.len() + 1 - after.len() <= first < before.len(),
    ensures
        carried_since(mark_of(found), after.skip(first - (before.len() + 1 - after.len())))
            == carried_through(carried_since(mark_of(found), before.skip(first)), edits),
{
    let dropped = before.len() + 1 - after.len();
    let steps = before.skip(first);
    let since = after.skip(first - dropped);
    let count = steps.len() as int;
    let late = since[count - 1];
    let next = since[count];
    assert(after[after.len() - 2].edits@ == before.last().edits@ + edits);
    assert(late.edits@ == steps.last().edits@ + edits);
    a_late_answer_lands_as_an_early_one_carried(found, steps, edits, late, next);
    let kept = since.take(count - 1);
    assert forall|i: int| 0 <= i < count - 1 implies (#[trigger] kept[i]).edits@
        == steps.drop_last()[i].edits@ by {
        assert(after[first - dropped + i].edits@ == before[first + i].edits@);
    }
    the_same_edits_carry_alike(mark_of(found), kept, steps.drop_last());
    let model = steps.drop_last().push(late).push(next);
    assert(model.drop_last() =~= steps.drop_last().push(late));
    assert(model.drop_last().drop_last() =~= steps.drop_last());
    assert(since.drop_last() =~= kept.push(late));
    assert(since.drop_last().drop_last() =~= kept);
    assert(since.last() == next);
    let here = carried_since(mark_of(found), kept);
    assert(carried_since(mark_of(found), kept.push(late)) == carried_through(here, late.edits@));
    assert(carried_since(mark_of(found), steps.drop_last().push(late)) == carried_through(
        here,
        late.edits@,
    ));
}

/// Steps with the same edits carry a mark to the same place.
proof fn the_same_edits_carry_alike(mark: Mark, a: Seq<Step>, b: Seq<Step>)
    requires
        a.len() == b.len(),
        forall|i: int| 0 <= i < a.len() ==> (#[trigger] a[i]).edits@ == b[i].edits@,
    ensures
        carried_since(mark, a) == carried_since(mark, b),
    decreases a.len(),
{
    if a.len() > 0 {
        assert(a[a.len() - 1].edits@ == b[b.len() - 1].edits@);
        the_same_edits_carry_alike(mark, a.drop_last(), b.drop_last());
    }
}

// ── every followed document ─────────────────────────────────────────────────

/// Every followed document's diagnostics, where they are now.
#[derive(Debug)]
pub struct Diagnostics {
    /// The documents followed, each once.
    docs: Vec<Watched>,
}

/// The one of `docs` that is `doc`.
pub open spec fn watched_in(docs: Seq<Watched>, doc: usize) -> Option<Watched>
    decreases docs.len(),
{
    if docs.len() == 0 {
        None
    } else if docs.last().doc == doc {
        Some(docs.last())
    } else {
        watched_in(docs.drop_last(), doc)
    }
}

/// Whether each document is followed once.
pub open spec fn each_once(docs: Seq<Watched>) -> bool {
    forall|i: int, j: int|
        0 <= i < j < docs.len() ==> (#[trigger] docs[i]).doc != (#[trigger] docs[j]).doc
}

proof fn watched_is(docs: Seq<Watched>, i: int)
    requires
        each_once(docs),
        0 <= i < docs.len(),
    ensures
        watched_in(docs, docs[i].doc) == Some(docs[i]),
    decreases docs.len(),
{
    if i < docs.len() - 1 {
        let rest = docs.drop_last();
        assert(each_once(rest)) by {
            assert forall|p: int, q: int| 0 <= p < q < rest.len() implies (#[trigger] rest[p]).doc
                != (#[trigger] rest[q]).doc by {
                assert(docs[p].doc != docs[q].doc);
            }
        }
        assert(docs[i].doc != docs[docs.len() - 1].doc);
        watched_is(rest, i);
        assert(rest[i] == docs[i]);
    }
}

proof fn watched_is_not(docs: Seq<Watched>, doc: usize)
    requires
        forall|i: int| 0 <= i < docs.len() ==> (#[trigger] docs[i]).doc != doc,
    ensures
        watched_in(docs, doc) is None,
    decreases docs.len(),
{
    if docs.len() > 0 {
        assert(docs[docs.len() - 1].doc != doc);
        let rest = docs.drop_last();
        assert forall|i: int| 0 <= i < rest.len() implies (#[trigger] rest[i]).doc != doc by {
            assert(docs[i].doc != doc);
        }
        watched_is_not(rest, doc);
    }
}

/// What is followed depends on which documents there are, not on their order.
proof fn watched_the_same(a: Seq<Watched>, b: Seq<Watched>, doc: usize)
    requires
        each_once(a),
        each_once(b),
        forall|i: int|
            0 <= i < a.len() && (#[trigger] a[i]).doc == doc ==> exists|j: int|
                0 <= j < b.len() && #[trigger] b[j] == a[i],
        forall|j: int|
            0 <= j < b.len() && (#[trigger] b[j]).doc == doc ==> exists|i: int|
                0 <= i < a.len() && #[trigger] a[i] == b[j],
    ensures
        watched_in(a, doc) == watched_in(b, doc),
{
    if exists|i: int| 0 <= i < a.len() && (#[trigger] a[i]).doc == doc {
        let i = choose|i: int| 0 <= i < a.len() && (#[trigger] a[i]).doc == doc;
        let j = choose|j: int| 0 <= j < b.len() && #[trigger] b[j] == a[i];
        watched_is(a, i);
        watched_is(b, j);
    } else {
        watched_is_not(a, doc);
        assert forall|j: int| 0 <= j < b.len() implies (#[trigger] b[j]).doc != doc by {
            if b[j].doc == doc {
                let i = choose|i: int| 0 <= i < a.len() && #[trigger] a[i] == b[j];
                assert(a[i].doc == doc);
            }
        }
        watched_is_not(b, doc);
    }
}

impl Diagnostics {
    /// What is followed of `doc`.
    pub closed spec fn of(self, doc: usize) -> Option<Watched> {
        watched_in(self.docs@, doc)
    }

    /// Whether each document is followed once, and every one is as it should
    /// be.
    pub closed spec fn wf(self) -> bool {
        each_once(self.docs@) && forall|i: int|
            0 <= i < self.docs@.len() ==> (#[trigger] self.docs@[i]).wf()
    }

    /// No document followed.
    pub fn new() -> (diagnostics: Self)
        ensures
            diagnostics.wf(),
            forall|doc: usize| diagnostics.of(doc) is None,
    {
        Diagnostics { docs: Vec::new() }
    }

    /// Where `doc` is among the documents followed.
    fn find(&self, doc: usize) -> (found: Option<usize>)
        requires
            self.wf(),
        ensures
            match found {
                Some(at) => at < self.docs@.len() && self.docs@[at as int].doc == doc && self.of(
                    doc,
                ) == Some(self.docs@[at as int]),
                None => self.of(doc) is None && forall|i: int|
                    0 <= i < self.docs@.len() ==> (#[trigger] self.docs@[i]).doc != doc,
            },
    {
        let mut i: usize = 0;
        while i < self.docs.len()
            invariant
                self.wf(),
                i <= self.docs@.len(),
                forall|k: int| 0 <= k < i ==> (#[trigger] self.docs@[k]).doc != doc,
            decreases self.docs@.len() - i,
        {
            if self.docs[i].doc == doc {
                proof {
                    watched_is(self.docs@, i as int);
                }
                return Some(i);
            }
            i = i + 1;
        }
        proof {
            watched_is_not(self.docs@, doc);
        }
        None
    }

    /// `doc` is no longer followed.
    pub fn closed(&mut self, doc: usize)
        requires
            old(self).wf(),
        ensures
            final(self).wf(),
            final(self).of(doc) is None,
            forall|other: usize|
                other != doc ==> #[trigger] final(self).of(other) == old(self).of(other),
    {
        let _ = self.take(doc);
    }

    /// Take `doc` out, to put it back changed.
    fn take(&mut self, doc: usize) -> (watched: Option<Watched>)
        requires
            old(self).wf(),
        ensures
            final(self).wf(),
            watched == old(self).of(doc),
            watched matches Some(watched) ==> watched.wf() && watched.doc == doc,
            final(self).of(doc) is None,
            forall|other: usize|
                other != doc ==> #[trigger] final(self).of(other) == old(self).of(other),
    {
        match self.find(doc) {
            Some(at) => {
                let ghost before = *self;
                assert(before.docs@[at as int].wf());
                let watched = self.docs.swap_remove(at);
                proof {
                    let a = before.docs@;
                    let b = self.docs@;
                    let last = a.len() - 1;
                    assert(b =~= a.update(at as int, a[last]).drop_last());
                    assert forall|p: int, q: int| 0 <= p < q < b.len() implies (
                    #[trigger] b[p]).doc != (#[trigger] b[q]).doc by {
                        let ap = if p == at {
                            last
                        } else {
                            p
                        };
                        let aq = if q == at {
                            last
                        } else {
                            q
                        };
                        if ap < aq {
                            assert(a[ap].doc != a[aq].doc);
                        } else {
                            assert(a[aq].doc != a[ap].doc);
                        }
                    }
                    assert forall|i: int| 0 <= i < b.len() implies (#[trigger] b[i]).wf()
                        && b[i].doc != doc by {
                        let ai = if i == at {
                            last
                        } else {
                            i
                        };
                        assert(a[ai].wf());
                        if ai < at {
                            assert(a[ai].doc != a[at as int].doc);
                        } else {
                            assert(a[at as int].doc != a[ai].doc);
                        }
                    }
                    watched_is_not(b, doc);
                    assert forall|other: usize| other != doc implies #[trigger] self.of(other)
                        == before.of(other) by {
                        assert forall|i: int|
                            0 <= i < a.len() && (#[trigger] a[i]).doc == other implies exists|
                            j: int,
                        | 0 <= j < b.len() && #[trigger] b[j] == a[i] by {
                            let j = if i == last {
                                at as int
                            } else {
                                i
                            };
                            assert(b[j] == a[i]);
                        }
                        assert forall|j: int|
                            0 <= j < b.len() && (#[trigger] b[j]).doc == other implies exists|
                            i: int,
                        | 0 <= i < a.len() && #[trigger] a[i] == b[j] by {
                            let i = if j == at {
                                last
                            } else {
                                j
                            };
                            assert(a[i] == b[j]);
                        }
                        watched_the_same(a, b, other);
                    }
                }
                Some(watched)
            },
            None => None,
        }
    }

    /// Put `watched` in, where it is not followed already.
    fn put(&mut self, watched: Watched)
        requires
            old(self).wf(),
            watched.wf(),
            old(self).of(watched.doc) is None,
        ensures
            final(self).wf(),
            final(self).of(watched.doc) == Some(watched),
            forall|other: usize|
                other != watched.doc ==> #[trigger] final(self).of(other) == old(self).of(other),
    {
        let ghost before = self.docs@;
        self.docs.push(watched);
        proof {
            let after = self.docs@;
            assert forall|i: int| 0 <= i < before.len() implies (#[trigger] before[i]).doc
                != watched.doc by {
                if before[i].doc == watched.doc {
                    watched_is(before, i);
                }
            }
            assert forall|p: int, q: int| 0 <= p < q < after.len() implies (#[trigger] after[p]).doc
                != (#[trigger] after[q]).doc by {
                assert(after[p] == before[p]);
                if q < before.len() {
                    assert(before[p].doc != before[q].doc);
                }
            }
            assert(after.drop_last() =~= before);
        }
    }

    /// `doc` started being followed at `version`, holding `text`. Anything
    /// said about it before is about a different text.
    pub fn opened(&mut self, doc: usize, version: i32, text: &Rope)
        requires
            old(self).wf(),
        ensures
            final(self).wf(),
            final(self).of(doc) matches Some(watched) && {
                &&& watched.wf()
                &&& watched.history@.len() == 1
                &&& watched.history@[0].version == version
                &&& rope_text(watched.history@[0].text) == rope_text(*text)
                &&& watched.history@[0].edits@.len() == 0
                &&& watched.placed is None
                &&& watched.marks@.len() == 0
            },
            forall|other: usize|
                other != doc ==> #[trigger] final(self).of(other) == old(self).of(other),
    {
        self.closed(doc);
        self.put(Watched::opened(doc, version, text));
    }

    /// `doc` was edited by `edits` into `version`, which holds `text`.
    pub fn changed(&mut self, doc: usize, version: i32, edits: &Vec<Edit>, text: &Rope)
        requires
            old(self).wf(),
        ensures
            final(self).wf(),
            forall|other: usize|
                other != doc ==> #[trigger] final(self).of(other) == old(self).of(other),
            match (old(self).of(doc), final(self).of(doc)) {
                (None, None) => true,
                (Some(before), Some(after)) => {
                    &&& after.wf()
                    &&& is_edited(
                        before.history@,
                        after.history@,
                        version,
                        edits@,
                        rope_text(*text),
                    )
                    &&& after.placed == before.placed
                    &&& in_order_of(
                        Seq::new(
                            before.marks@.len(),
                            |i: int| carried_through(before.marks@[i], edits@),
                        ),
                        before.notes@,
                        after.marks@,
                        after.notes@,
                    )
                },
                _ => false,
            },
    {
        if let Some(mut watched) = self.take(doc) {
            watched.changed(version, edits, text);
            self.put(watched);
        }
    }

    /// The server's latest answer about `doc`: `None` for no answer — the
    /// server has gone, or said nothing is wrong.
    ///
    /// Whether the marks changed, or what they say.
    pub fn publish(&mut self, doc: usize, answer: Option<Answer>) -> (changed: bool)
        requires
            old(self).wf(),
        ensures
            final(self).wf(),
            forall|other: usize|
                other != doc ==> #[trigger] final(self).of(other) == old(self).of(other),
            match (old(self).of(doc), final(self).of(doc)) {
                (None, None) => !changed,
                (Some(before), Some(after)) => after.wf() && changed == marks_changed(
                    before,
                    after,
                ) && match answer {
                    None => {
                        &&& after.marks@.len() == 0
                        &&& after.placed is None
                        &&& after.history@ == before.history@
                    },
                    Some(answer) => {
                        if before.placed matches Some(placed) && same_answer(placed, answer) {
                            after == before
                        } else {
                            let first = step_of(
                                before.history@,
                                before.described(answer.version),
                                0,
                            );
                            &&& after.placed == Some(answer)
                            &&& match first {
                                None => after.marks@ == before.marks@ && after.notes@
                                    == before.notes@ && after.history@ == before.history@,
                                Some(first) => {
                                    &&& after.history@ == before.history@.skip(first)
                                    &&& exists|notes: Seq<Note>|
                                        {
                                            &&& #[trigger] notes_of(answer.found@, notes)
                                            &&& in_order_of(
                                                marks_since(
                                                    answer.found@,
                                                    before.history@.skip(first),
                                                ),
                                                notes,
                                                after.marks@,
                                                after.notes@,
                                            )
                                        }
                                },
                            }
                        }
                    },
                },
                _ => false,
            },
    {
        match self.take(doc) {
            Some(mut watched) => {
                let changed = watched.publish(answer);
                self.put(watched);
                changed
            },
            None => false,
        }
    }

    /// The document's diagnostics, if it is followed.
    pub fn watched(&self, doc: usize) -> (watched: Option<&Watched>)
        requires
            self.wf(),
        ensures
            match watched {
                Some(watched) => self.of(doc) == Some(*watched) && watched.wf(),
                None => self.of(doc) is None,
            },
    {
        match self.find(doc) {
            Some(at) => {
                assert(self.docs@[at as int].wf());
                Some(&self.docs[at])
            },
            None => None,
        }
    }
}

/// How many of each kind of problem there are.
#[derive(Debug, Clone, Copy, PartialEq, Eq, Structural)]
pub struct Tally {
    /// Errors.
    pub errors: usize,
    /// Warnings.
    pub warnings: usize,
    /// Everything less.
    pub notes: usize,
}

/// How many of the first `count` marks are as serious as `is` says.
pub open spec fn count_of(marks: Seq<Mark>, is: spec_fn(Severity) -> bool, count: int) -> int
    decreases count,
{
    if count <= 0 {
        0
    } else {
        count_of(marks, is, count - 1) + if is(marks[count - 1].severity) {
            1int
        } else {
            0
        }
    }
}

/// How many of each kind `marks` are.
pub open spec fn tally_of(marks: Seq<Mark>, count: int) -> (int, int, int) {
    (
        count_of(marks, |severity: Severity| severity == Severity::Error, count),
        count_of(marks, |severity: Severity| severity == Severity::Warning, count),
        count_of(
            marks,
            |severity: Severity| severity == Severity::Info || severity == Severity::Hint,
            count,
        ),
    )
}

/// How many of each kind `marks` are.
pub fn tally(marks: &Vec<Mark>) -> (tally: Tally)
    ensures
        (tally.errors as int, tally.warnings as int, tally.notes as int) == tally_of(
            marks@,
            marks@.len() as int,
        ),
        tally.errors + tally.warnings + tally.notes == marks@.len(),
{
    let mut tally = Tally { errors: 0, warnings: 0, notes: 0 };
    let mut i: usize = 0;
    while i < marks.len()
        invariant
            i <= marks@.len(),
            (tally.errors as int, tally.warnings as int, tally.notes as int) == tally_of(
                marks@,
                i as int,
            ),
            tally.errors + tally.warnings + tally.notes == i,
        decreases marks@.len() - i,
    {
        match marks[i].severity {
            Severity::Error => {
                tally.errors = tally.errors + 1;
            },
            Severity::Warning => {
                tally.warnings = tally.warnings + 1;
            },
            _ => {
                tally.notes = tally.notes + 1;
            },
        }
        i = i + 1;
    }
    tally
}

/// Each problem is counted once, as what it is: an error, a warning, or neither.
pub proof fn each_problem_is_counted_once(marks: Seq<Mark>, mark: Mark)
    ensures
        ({
            let (errors, warnings, notes) = tally_of(marks, marks.len() as int);
            let more = marks.push(mark);
            tally_of(more, more.len() as int) == match mark.severity {
                Severity::Error => (errors + 1, warnings, notes),
                Severity::Warning => (errors, warnings + 1, notes),
                Severity::Info => (errors, warnings, notes + 1),
                Severity::Hint => (errors, warnings, notes + 1),
            }
        }),
        tally_of(Seq::empty(), 0) == (0int, 0int, 0int),
        ({
            let (errors, warnings, notes) = tally_of(marks, marks.len() as int);
            errors + warnings + notes == marks.len()
        }),
{
    let more = marks.push(mark);
    let error = |severity: Severity| severity == Severity::Error;
    let warning = |severity: Severity| severity == Severity::Warning;
    let note = |severity: Severity| severity == Severity::Info || severity == Severity::Hint;
    counted_alike(marks, more, error, marks.len() as int);
    counted_alike(marks, more, warning, marks.len() as int);
    counted_alike(marks, more, note, marks.len() as int);
    counts_add_up(marks, marks.len() as int);
}

proof fn counted_alike(
    marks: Seq<Mark>,
    more: Seq<Mark>,
    is: spec_fn(Severity) -> bool,
    count: int,
)
    requires
        0 <= count <= marks.len() <= more.len(),
        forall|i: int| 0 <= i < marks.len() ==> marks[i] == #[trigger] more[i],
    ensures
        count_of(marks, is, count) == count_of(more, is, count),
    decreases count,
{
    if count > 0 {
        counted_alike(marks, more, is, count - 1);
        assert(marks[count - 1] == more[count - 1]);
    }
}

proof fn counts_add_up(marks: Seq<Mark>, count: int)
    requires
        0 <= count <= marks.len(),
    ensures
        ({
            let (errors, warnings, notes) = tally_of(marks, count);
            errors + warnings + notes == count
        }),
    decreases count,
{
    if count > 0 {
        counts_add_up(marks, count - 1);
    }
}

/// Two answers are the same only where they describe one version and say the same
/// of the same places, problem by problem.
pub proof fn the_same_answer_says_the_same(a: Answer, b: Answer)
    ensures
        same_answer(a, b) <==> {
            &&& a.version == b.version
            &&& a.found@.len() == b.found@.len()
            &&& forall|i: int|
                0 <= i < a.found@.len() ==> {
                    &&& (#[trigger] a.found@[i]).place == b.found@[i].place
                    &&& a.found@[i].severity == b.found@[i].severity
                    &&& a.found@[i].message@ == b.found@[i].message@
                }
        },
{
    let here = gists(a.found@);
    let there = gists(b.found@);
    assert(here.len() == a.found@.len() && there.len() == b.found@.len());
    if same_answer(a, b) {
        assert(a.found@.len() == b.found@.len());
        assert forall|i: int| 0 <= i < a.found@.len() implies {
            &&& (#[trigger] a.found@[i]).place == b.found@[i].place
            &&& a.found@[i].severity == b.found@[i].severity
            &&& a.found@[i].message@ == b.found@[i].message@
        } by {
            assert(here[i] == gist(a.found@[i]));
            assert(there[i] == gist(b.found@[i]));
            assert(here[i] == there[i]);
        }
    } else if a.version == b.version && a.found@.len() == b.found@.len() {
        if forall|i: int|
            0 <= i < a.found@.len() ==> {
                &&& (#[trigger] a.found@[i]).place == b.found@[i].place
                &&& a.found@[i].severity == b.found@[i].severity
                &&& a.found@[i].message@ == b.found@[i].message@
            } {
            assert forall|i: int| 0 <= i < here.len() implies here[i] == there[i] by {
                assert(a.found@[i].place == b.found@[i].place);
            }
            assert(here =~= there);
        }
    }
}

/// Putting problems in order moves each with what it says, keeps every one of
/// them, and leaves them in the order they start, the shorter first of those that
/// start together.
pub proof fn problems_in_order_keep_what_they_say(
    marks: Seq<Mark>,
    notes: Seq<Note>,
    to_marks: Seq<Mark>,
    to_notes: Seq<Note>,
) -> (from: Seq<usize>)
    requires
        marks.len() == notes.len() <= usize::MAX,
        in_order_of(marks, notes, to_marks, to_notes),
    ensures
        from.len() == marks.len() == to_marks.len() == to_notes.len(),
        from.no_duplicates(),
        forall|i: int|
            0 <= i < from.len() ==> (#[trigger] from[i]) < marks.len() && to_marks[i]
                == marks[from[i] as int] && to_notes[i] == notes[from[i] as int],
        forall|i: int, j: int|
            0 <= i < j < to_marks.len() ==> (#[trigger] to_marks[i]).start < (#[trigger] to_marks[j]).start
                || (to_marks[i].start == to_marks[j].start && to_marks[i].end <= to_marks[j].end),
{
    if ordered(marks) {
        Seq::new(marks.len(), |i: int| i as usize)
    } else {
        let keys = mark_keys(marks);
        let order = choose|order: Seq<usize>|
            {
                &&& #[trigger] is_ranking(order, keys)
                &&& to_marks == picked(marks, order)
                &&& to_notes == picked(notes, order)
            };
        crate::order::a_ranking_is_everything_once(order, keys);
        assert forall|i: int| 0 <= i < order.len() implies (#[trigger] order[i]) < marks.len()
            && to_marks[i] == marks[order[i] as int] && to_notes[i] == notes[order[i] as int] by {
            assert(order[i] < keys.len());
        }
        assert forall|i: int, j: int| 0 <= i < j < to_marks.len() implies (#[trigger] to_marks[i]).start
            < (#[trigger] to_marks[j]).start || (to_marks[i].start == to_marks[j].start
            && to_marks[i].end <= to_marks[j].end) by {
            assert(crate::order::ranked(keys, order[i], order[j]));
            assert(order[i] < keys.len() && order[j] < keys.len());
        }
        order
    }
}

/// An answer that names no version is about the latest.
pub proof fn an_answer_is_about_the_version_it_names(watched: Watched, version: i32)
    requires
        watched.history@.len() > 0,
    ensures
        watched.described(Some(version)) == version,
        watched.described(None) == watched.history@[watched.history@.len() - 1].version,
{
}

/// What a server found is marked where it found it, as serious as it said, carried
/// through what was edited since; and each says what the server said.
pub proof fn what_is_found_is_marked_as_it_was_found(
    found: Seq<Found>,
    steps: Seq<Step>,
    notes: Seq<Note>,
    at: int,
)
    requires
        0 <= at < found.len(),
        notes_of(found, notes),
    ensures
        marks_since(found, steps).len() == found.len(),
        marks_since(found, Seq::empty())[at].start == found[at].span.0,
        marks_since(found, Seq::empty())[at].end == found[at].span.1,
        marks_since(found, steps)[at].severity == found[at].severity,
        notes[at].message@ == found[at].message@,
        notes[at].which == at,
        found[at].source is None <==> notes[at].source is None,
        found[at].source matches Some(source) ==> notes[at].source->0@ == source@,
        found[at].code is None <==> notes[at].code is None,
        found[at].code matches Some(code) ==> notes[at].code->0@ == code@,
{
    severity_is_kept(mark_of(found[at]), steps);
    assert(notes[at].message@ == found[at].message@);
}

proof fn severity_is_kept(mark: Mark, steps: Seq<Step>)
    ensures
        carried_since(mark, steps).severity == mark.severity,
    decreases steps.len(),
{
    if steps.len() > 0 {
        let rest = steps.drop_last();
        severity_is_kept(mark, rest);
        severity_is_carried(carried_since(mark, rest), steps.last().edits@);
    }
}

proof fn severity_is_carried(mark: Mark, edits: Seq<Edit>)
    ensures
        carried_through(mark, edits).severity == mark.severity,
    decreases edits.len(),
{
    if edits.len() > 0 {
        severity_is_carried(mark, edits.drop_last());
    }
}

/// What is marked changed where any mark is elsewhere, or is of another kind, or says
/// something else, or there are more or fewer.
pub proof fn marks_changed_where_anything_did(before: Watched, after: Watched)
    requires
        before.marks@.len() == before.notes@.len(),
        after.marks@.len() == after.notes@.len(),
    ensures
        !marks_changed(before, after) <==> before.marks@.len() == after.marks@.len() && forall|i: int|
            0 <= i < before.marks@.len() ==> marked_alike(before, after, i),
{
    let here = note_texts(before.notes@);
    let there = note_texts(after.notes@);
    assert(here.len() == before.notes@.len() && there.len() == after.notes@.len());
    if !marks_changed(before, after) {
        assert forall|i: int| 0 <= i < before.marks@.len() implies marked_alike(
            before,
            after,
            i,
        ) by {
            assert(here[i] == note_text(before.notes@[i]));
            assert(there[i] == note_text(after.notes@[i]));
            assert(here[i] == there[i]);
        }
    }
    if before.marks@.len() == after.marks@.len() && forall|i: int|
        0 <= i < before.marks@.len() ==> marked_alike(before, after, i) {
        assert forall|i: int| 0 <= i < here.len() implies here[i] == there[i] by {
            assert(marked_alike(before, after, i));
        }
        assert forall|i: int| 0 <= i < here.len() implies before.marks@[i] == after.marks@[i] by {
            assert(marked_alike(before, after, i));
        }
        assert(here =~= there);
        assert(before.marks@ =~= after.marks@);
    }
}

/// Whether mark `i` is where it was, is of the same kind, and says the same.
pub open spec fn marked_alike(before: Watched, after: Watched, i: int) -> bool {
    before.marks@[i] == after.marks@[i] && says_alike(before.notes@[i], after.notes@[i])
}

/// Whether two notes say the same, of the same one of the server's answer.
pub open spec fn says_alike(a: Note, b: Note) -> bool {
    &&& a.message@ == b.message@
    &&& crate::reply::words(a.source) == crate::reply::words(b.source)
    &&& crate::reply::words(a.code) == crate::reply::words(b.code)
    &&& a.which == b.which
}

/// Problems that are in order already are left as they are, those on the same chars
/// among them.
pub proof fn problems_in_order_are_left_as_they_are(
    marks: Seq<Mark>,
    notes: Seq<Note>,
    to_marks: Seq<Mark>,
    to_notes: Seq<Note>,
)
    requires
        in_order_of(marks, notes, to_marks, to_notes),
        forall|i: int, j: int|
            0 <= i < j < marks.len() ==> (#[trigger] marks[i]).start < (#[trigger] marks[j]).start || (
            marks[i].start == marks[j].start && marks[i].end <= marks[j].end),
    ensures
        to_marks == marks,
        to_notes == notes,
{
    assert(ordered(marks));
}

} // verus!
