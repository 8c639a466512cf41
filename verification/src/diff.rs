//! The diff view: a file's changes against the index or `HEAD`, in its pane.
//!
//! The view takes the place of a document's text in the pane it was opened
//! from. It is a way of looking at that document, not a document: closing it
//! gives the pane its text back exactly as it was.
//!
//! What is compared is the buffer as it is now, unsaved edits included. The
//! text is sent when typing settles, and the comparison comes back later,
//! matched to the question by a serial so a stale answer is dropped.

use ropey::Rope;
use vstd::prelude::*;

use crate::geometry::Rect;
use crate::gutter::{held_time, Hunk};
use crate::hits::Hit;
use crate::input::{KeyCode, KeyEvent};
use crate::outcome::Outcome;
use crate::reply::Reply;
use crate::rope::{breaks, copied, equal, len_lines, line_start, line_to_char, rope_text};
use crate::target::{Focus, Target};
use crate::text::{decimal, decimal_of, join, join3};


verus! {

/// How long after an edit the text is compared again, in milliseconds: a pause
/// in typing.
pub const SETTLE: u64 = 150;

/// Rows a wheel notch scrolls.
pub const WHEEL_ROWS: usize = 3;

/// What a text is compared with.
#[derive(Debug, Clone, Copy, PartialEq, Eq, Structural)]
pub enum Against {
    /// What is staged.
    Index,
    /// The last commit.
    Head,
}

/// How the two versions are laid out.
#[derive(Debug, Clone, Copy, PartialEq, Eq, Structural)]
pub enum Layout {
    /// Side by side.
    Split,
    /// One after the other.
    Unified,
}

/// A comparison: the changes, and the lines each replaced.
#[derive(Debug)]
pub struct Diff {
    /// What the text was compared with.
    pub base: String,
    /// The changes.
    pub hunks: Vec<Hunk>,
    /// What each replaced.
    pub olds: Vec<String>,
}

impl Diff {
    /// Whether there is an old text for each change.
    pub open spec fn wf(self) -> bool {
        self.hunks@.len() == self.olds@.len()
    }
}

/// A row of the view.
#[derive(Debug, Clone, Copy, PartialEq, Eq, Structural)]
pub struct DiffRow {
    /// The change it is part of, its header included.
    pub hunk: Option<usize>,
    /// Whether it is the header of that.
    pub header: bool,
    /// The line of the new version it stands for.
    pub line: Option<u32>,
}

/// A diff, laid out.
#[derive(Debug)]
pub struct Drawn {
    /// The comparison.
    pub diff: Diff,
    /// The version of the text it is of.
    pub version: u64,
    /// Which changes can be staged as they are.
    pub stageable: Vec<bool>,
    /// The rows.
    pub rows: Vec<DiffRow>,
    /// The parses the colours of each side are waited from.
    pub parse: (u64, u64),
}

/// What the view is showing.
#[derive(Debug)]
pub enum Shown {
    /// The first answer is not in yet.
    Waiting,
    /// There is nothing to compare with.
    Nothing,
    /// A diff.
    Diff(Drawn),
}

/// An open diff view.
#[derive(Debug)]
pub struct Viewing {
    /// The pane it is in.
    pub pane: usize,
    /// The document it is of.
    pub doc: usize,
    /// The buffer's own spelling of where the file is, which is what is watched
    /// for a change.
    pub spelled: String,
    /// What the text is compared with.
    pub against: Against,
    /// How it is laid out.
    pub layout: Layout,
    /// The first row shown.
    pub scroll: usize,
    /// The change the keyboard is on.
    pub current: Option<usize>,
    /// The version of the text git was last sent.
    pub version: u64,
    /// That text.
    pub sent: Rope,
    /// When the text changed since, the time to send it.
    pub due: Option<u64>,
    /// The comparison waited for.
    pub serial: u64,
    /// The changes against the index as of `version`: which of the shown ones
    /// can be staged as they are.
    pub index: Option<Diff>,
    /// What is on screen.
    pub shown: Shown,
}

// ── what can be staged ──────────────────────────────────────────────────────

/// The first change of `index`, from the `from`th on, that makes the same
/// change as `hunk`, which replaced `old`: the same new lines, replacing the
/// same old text.
pub open spec fn staged_as(index: Diff, hunk: Hunk, old: Seq<char>, from: int) -> Option<int>
    decreases index.hunks@.len() - from,
{
    if from < 0 || from >= index.hunks@.len() {
        None
    } else if index.hunks@[from].after_start == hunk.after_start && index.hunks@[from].after_end
        == hunk.after_end && index.olds@[from]@ == old {
        Some(from)
    } else {
        staged_as(index, hunk, old, from + 1)
    }
}

/// `hunk`, which replaced `old`, as a change against the index, when there is
/// one that makes the same change. Against the index that is the change itself.
/// Against `HEAD` the old lines are numbered differently wherever something
/// above is staged, so they are matched by what they say; and a change that is
/// partly staged already has no match.
pub fn as_staged(hunk: &Hunk, old: &String, index: &Diff) -> (at: Option<usize>)
    requires
        index.wf(),
    ensures
        match at {
            Some(at) => at < index.hunks@.len() && staged_as(*index, *hunk, old@, 0) == Some(
                at as int,
            ),
            None => staged_as(*index, *hunk, old@, 0) is None,
        },
{
    let mut i: usize = 0;
    while i < index.hunks.len()
        invariant
            i <= index.hunks@.len(),
            index.wf(),
            staged_as(*index, *hunk, old@, 0) == staged_as(*index, *hunk, old@, i as int),
        decreases index.hunks@.len() - i,
    {
        if index.hunks[i].after_start == hunk.after_start && index.hunks[i].after_end
            == hunk.after_end && index.olds[i] == *old {
            return Some(i);
        }
        i = i + 1;
    }
    None
}

/// Which changes of `diff` can be staged, `index` being those against the index
/// if they are known.
pub open spec fn stageable_of(diff: Diff, index: Option<Diff>) -> Seq<bool> {
    Seq::new(
        diff.hunks@.len(),
        |i: int|
            index matches Some(index) && staged_as(
                index,
                diff.hunks@[i],
                diff.olds@[i]@,
                0,
            ) is Some,
    )
}

fn mark_stageable(diff: &Diff, index: Option<&Diff>) -> (marks: Vec<bool>)
    requires
        diff.wf(),
        index matches Some(index) ==> index.wf(),
    ensures
        marks@ == stageable_of(
            *diff,
            match index {
                Some(index) => Some(*index),
                None => None,
            },
        ),
{
    let mut marks: Vec<bool> = Vec::new();
    let ghost known: Option<Diff> = match index {
        Some(index) => Some(*index),
        None => None,
    };
    let mut i: usize = 0;
    while i < diff.hunks.len()
        invariant
            i <= diff.hunks@.len(),
            diff.wf(),
            index matches Some(index) ==> index.wf(),
            known == match index {
                Some(index) => Some(*index),
                None => None,
            },
            marks@ =~= stageable_of(*diff, known).take(i as int),
        decreases diff.hunks@.len() - i,
    {
        let can = match index {
            Some(index) => as_staged(&diff.hunks[i], &diff.olds[i], index).is_some(),
            None => false,
        };
        marks.push(can);
        i = i + 1;
    }
    assert(marks@ =~= stageable_of(*diff, known));
    marks
}

fn same_hunks(a: &Vec<Hunk>, b: &Vec<Hunk>) -> (same: bool)
    ensures
        same == (a@ == b@),
{
    if a.len() != b.len() {
        return false;
    }
    let mut i: usize = 0;
    while i < a.len()
        invariant
            i <= a@.len() == b@.len(),
            forall|k: int| 0 <= k < i ==> #[trigger] a@[k] == b@[k],
        decreases a@.len() - i,
    {
        if a[i] != b[i] {
            assert(a@[i as int] != b@[i as int]);
            return false;
        }
        i = i + 1;
    }
    assert(a@ =~= b@);
    true
}

// ── rows ────────────────────────────────────────────────────────────────────

/// The first of `rows`, from the `from`th on, that is the header of `hunk`.
pub open spec fn header_at(rows: Seq<DiffRow>, hunk: usize, from: int) -> Option<int>
    decreases rows.len() - from,
{
    if from < 0 || from >= rows.len() {
        None
    } else if rows[from].header && rows[from].hunk == Some(hunk) {
        Some(from)
    } else {
        header_at(rows, hunk, from + 1)
    }
}

fn header_row(rows: &Vec<DiffRow>, hunk: usize) -> (row: Option<usize>)
    ensures
        match row {
            Some(row) => row < rows@.len() && header_at(rows@, hunk, 0) == Some(row as int),
            None => header_at(rows@, hunk, 0) is None,
        },
{
    let mut i: usize = 0;
    while i < rows.len()
        invariant
            i <= rows@.len(),
            header_at(rows@, hunk, 0) == header_at(rows@, hunk, i as int),
        decreases rows@.len() - i,
    {
        let is = match rows[i].hunk {
            Some(of) => of == hunk,
            None => false,
        };
        if rows[i].header && is {
            return Some(i);
        }
        i = i + 1;
    }
    None
}

/// The rows the headers of the first `count` changes are on, of those that are
/// on one.
pub open spec fn header_rows(rows: Seq<DiffRow>, count: int) -> Seq<usize>
    decreases count,
{
    if count <= 0 {
        Seq::empty()
    } else {
        let before = header_rows(rows, count - 1);
        match header_at(rows, (count - 1) as usize, 0) {
            Some(row) => before.push(row as usize),
            None => before,
        }
    }
}

/// The first of `starts`, from the `from`th on, at or below row `top`.
pub open spec fn start_below(starts: Seq<usize>, top: usize, from: int) -> Option<int>
    decreases starts.len() - from,
{
    if from < 0 || from >= starts.len() {
        None
    } else if starts[from] >= top {
        Some(from)
    } else {
        start_below(starts, top, from + 1)
    }
}

/// The last of the first `count` of `starts` above row `top`.
pub open spec fn start_above(starts: Seq<usize>, top: usize, count: int) -> Option<int>
    decreases count,
{
    if count <= 0 {
        None
    } else if starts[count - 1] < top {
        Some(count - 1)
    } else {
        start_above(starts, top, count - 1)
    }
}

/// The change stepping goes to, of `count`, from the one the keyboard is on or
/// else from what is on screen, which starts at row `top`.
pub open spec fn stepped(
    current: Option<usize>,
    rows: Seq<DiffRow>,
    top: usize,
    count: int,
    forward: bool,
) -> int {
    match current {
        Some(current) => if forward {
            (current + 1) % count
        } else {
            (current + count - 1) % count
        },
        None => {
            let starts = header_rows(rows, count);
            if forward {
                match start_below(starts, top, 0) {
                    Some(at) => at,
                    None => 0,
                }
            } else {
                match start_above(starts, top, starts.len() as int) {
                    Some(at) => at,
                    None => count - 1,
                }
            }
        },
    }
}

fn step(current: Option<usize>, rows: &Vec<DiffRow>, top: usize, count: usize, forward: bool)
    -> (next: usize)
    requires
        count > 0,
        current matches Some(current) ==> current < count,
    ensures
        next == stepped(current, rows@, top, count as int, forward),
        current is Some ==> next < count,
{
    if let Some(current) = current {
        return if forward {
            if current + 1 < count {
                assert((current + 1) % count as int == current + 1) by (nonlinear_arith)
                    requires
                        0 <= current + 1 < count,
                ;
                current + 1
            } else {
                assert((current + 1) % count as int == 0) by (nonlinear_arith)
                    requires
                        current + 1 == count,
                        count > 0,
                ;
                0
            }
        } else if current > 0 {
            assert((current + count - 1) % count as int == current - 1) by (nonlinear_arith)
                requires
                    0 < current < count,
            ;
            current - 1
        } else {
            assert((current + count - 1) % count as int == count - 1) by (nonlinear_arith)
                requires
                    current == 0,
                    count > 0,
            ;
            count - 1
        };
    }
    let mut starts: Vec<usize> = Vec::new();
    let mut hunk: usize = 0;
    while hunk < count
        invariant
            hunk <= count,
            starts@ =~= header_rows(rows@, hunk as int),
        decreases count - hunk,
    {
        if let Some(row) = header_row(rows, hunk) {
            starts.push(row);
        }
        hunk = hunk + 1;
    }
    if forward {
        let mut i: usize = 0;
        while i < starts.len()
            invariant
                i <= starts@.len(),
                start_below(starts@, top, 0) == start_below(starts@, top, i as int),
                starts@ == header_rows(rows@, count as int),
                current is None,
                forward,
            decreases starts@.len() - i,
        {
            if starts[i] >= top {
                return i;
            }
            i = i + 1;
        }
        0
    } else {
        let mut i: usize = starts.len();
        while i > 0
            invariant
                i <= starts@.len(),
                start_above(starts@, top, starts@.len() as int) == start_above(
                    starts@,
                    top,
                    i as int,
                ),
                starts@ == header_rows(rows@, count as int),
                current is None,
                !forward,
            decreases i,
        {
            if starts[i - 1] < top {
                return i - 1;
            }
            i = i - 1;
        }
        count - 1
    }
}

/// The change on screen, where only one is: of the rows from `from` up to `to`,
/// the change the first that is part of one is part of, if none is part of
/// another.
pub open spec fn only_hunk(rows: Seq<DiffRow>, from: int, to: int) -> Option<usize>
    decreases to - from,
{
    if from >= to {
        None
    } else {
        match rows[to - 1].hunk {
            None => only_hunk(rows, from, to - 1),
            Some(hunk) => if none_but(rows, hunk, from, to - 1) {
                Some(hunk)
            } else {
                None
            },
        }
    }
}

/// Whether no row from `from` up to `to` is part of a change but `hunk`.
pub open spec fn none_but(rows: Seq<DiffRow>, hunk: usize, from: int, to: int) -> bool {
    forall|i: int|
        from <= i < to ==> ((#[trigger] rows[i]).hunk matches Some(other) ==> other == hunk)
}

fn lone_hunk(rows: &Vec<DiffRow>, from: usize, to: usize) -> (hunk: Option<usize>)
    requires
        from <= to <= rows@.len(),
    ensures
        hunk == only_hunk(rows@, from as int, to as int),
{
    let mut i: usize = to;
    while i > from
        invariant
            from <= i <= to <= rows@.len(),
            only_hunk(rows@, from as int, to as int) == only_hunk(rows@, from as int, i as int),
        decreases i,
    {
        if let Some(hunk) = rows[i - 1].hunk {
            let mut k: usize = from;
            while k < i - 1
                invariant
                    from <= k <= i - 1,
                    i <= rows@.len(),
                    forall|j: int|
                        from <= j < k ==> ((#[trigger] rows@[j]).hunk matches Some(other) ==> other
                            == hunk),
                    only_hunk(rows@, from as int, to as int) == only_hunk(
                        rows@,
                        from as int,
                        i as int,
                    ),
                    rows@[i - 1].hunk == Some(hunk),
                    from < i,
                decreases i - k,
            {
                if let Some(other) = rows[k].hunk {
                    if other != hunk {
                        assert(!none_but(rows@, hunk, from as int, i - 1));
                        return None;
                    }
                }
                k = k + 1;
            }
            return Some(hunk);
        }
        i = i - 1;
    }
    None
}

/// `scroll` held to what there is, `visible` of `rows` rows being in view.
pub open spec fn clamped(scroll: int, rows: int, visible: int) -> int {
    let most = if rows > visible {
        rows - visible
    } else {
        0
    };
    if scroll <= most {
        scroll
    } else {
        most
    }
}

fn clamp(scroll: usize, rows: usize, visible: usize) -> (to: usize)
    ensures
        to == clamped(scroll as int, rows as int, visible as int),
{
    let most: usize = rows.saturating_sub(visible);
    if scroll <= most {
        scroll
    } else {
        most
    }
}

// ── the view ────────────────────────────────────────────────────────────────

/// The diff view, when one is open.
#[derive(Debug)]
pub struct Diffing {
    /// The view.
    pub view: Option<Viewing>,
    /// How many comparisons have been asked for, ever.
    pub serials: u64,
    /// How many versions of the text have been sent, ever: carried on from one
    /// view to the next, so an answer about the last one is never taken for one
    /// about this.
    pub versions: u64,
}

/// What showing the diff of a file takes, or putting it away.
#[derive(Debug)]
pub enum Toggle {
    /// It is showing already: it is to be put away.
    Close,
    /// It cannot be shown, and this is why.
    Say(String),
    /// It is open: git is to be told of the text, as this version, and asked to
    /// compare it, as this serial.
    Open(u64, u64),
}

/// What keeping the view in step comes to.
#[derive(Debug)]
pub enum Follow {
    /// Its document or its pane has gone: it is to be put away.
    Close,
    /// This has the keyboard.
    Stay(Focus),
    /// This has the keyboard, and the file has moved: git is to be told, and
    /// asked to compare it, as this serial.
    Moved(Focus, u64),
}

/// What an answer comes to.
#[derive(Debug, Clone, Copy, PartialEq, Eq, Structural)]
pub enum Compared {
    /// It is to a question that has been overtaken, or says what is on screen.
    Drop,
    /// There is nothing to compare with, and the view says so.
    Nothing,
    /// It is to be laid out and shown, keeping this line of the new version at
    /// the top; and the old version is to be coloured again where it changed.
    Draw {
        /// Whether what the text is compared with changed.
        base_changed: bool,
        /// The line at the top.
        top: Option<u32>,
    },
}

/// What staging a change takes.
#[derive(Debug)]
pub enum Stage {
    /// Nothing: there is no diff yet.
    Nothing,
    /// It is not staged, and this is why.
    Say(String),
    /// This change against the index, as of this version of the text.
    Send(u64, Hunk),
}

/// What a key does in the view.
#[derive(Debug, Clone, Copy, PartialEq, Eq, Structural)]
pub enum DiffKey {
    /// The view is to be put away.
    Close,
    /// It scrolled.
    Scrolled,
    /// This row is to be gone to in the text.
    GoTo(usize),
    /// Nothing, and this is said.
    Refuse,
}

/// A part of the view.
#[derive(Debug, Clone, Copy, PartialEq, Eq, Structural)]
pub enum Spot {
    /// The button that closes it.
    Close,
    /// A button that lays it out.
    Layout(Layout),
    /// A button that chooses what to compare with: `HEAD`, or not.
    Base(bool),
    /// The button that stages a change.
    Stage(usize),
    /// A row.
    Row(usize),
    /// Its header.
    Header,
    /// Where there is nothing.
    Empty,
}

impl Viewing {
    /// Whether what is shown is as it should be.
    pub open spec fn wf(self) -> bool {
        &&& self.index matches Some(index) ==> index.wf()
        &&& self.shown matches Shown::Diff(drawn) ==> {
            &&& drawn.diff.wf()
            &&& drawn.stageable@.len() == drawn.diff.hunks@.len()
            &&& self.current matches Some(current) ==> current < drawn.diff.hunks@.len()
        }
    }

    /// The rows it has.
    pub open spec fn rows(self) -> Seq<DiffRow> {
        match self.shown {
            Shown::Diff(drawn) => drawn.rows@,
            _ => Seq::empty(),
        }
    }

    /// The line of the new version at the top of the view.
    pub open spec fn top(self) -> Option<u32> {
        if self.scroll < self.rows().len() {
            self.rows()[self.scroll as int].line
        } else {
            None
        }
    }

    /// The line of the new version at the top of the view, to keep in view when
    /// the rows change under it.
    pub fn top_line(&self) -> (line: Option<u32>)
        ensures
            line == self.top(),
    {
        match &self.shown {
            Shown::Diff(drawn) => if self.scroll < drawn.rows.len() {
                drawn.rows[self.scroll].line
            } else {
                None
            },
            _ => None,
        }
    }

    /// The changes against the index that count: those as of the text shown.
    pub open spec fn index_for(self, version: u64) -> Option<Diff> {
        if version == self.version {
            self.index
        } else {
            None
        }
    }

    /// Which changes can be staged, now the changes against the index are
    /// known.
    fn restage(&mut self)
        requires
            old(self).wf(),
        ensures
            final(self).wf(),
            *final(self) == (Viewing { shown: final(self).shown, ..*old(self) }),
            match old(self).shown {
                Shown::Diff(drawn) => final(self).shown matches Shown::Diff(after) && after
                    == (Drawn { stageable: after.stageable, ..drawn }) && after.stageable@
                    == stageable_of(drawn.diff, old(self).index_for(drawn.version)),
                _ => final(self).shown == old(self).shown,
            },
    {
        let mut shown = Shown::Waiting;
        std::mem::swap(&mut shown, &mut self.shown);
        match shown {
            Shown::Diff(mut drawn) => {
                let marks = if drawn.version == self.version {
                    mark_stageable(&drawn.diff, self.index.as_ref())
                } else {
                    mark_stageable(&drawn.diff, None)
                };
                drawn.stageable = marks;
                self.shown = Shown::Diff(drawn);
            },
            other => {
                self.shown = other;
            },
        }
    }
}

/// How many lines there are from `start` up to `end`.
pub open spec fn lines_in(start: u32, end: u32) -> int {
    if start <= end {
        end - start
    } else {
        0
    }
}

/// What is said where there is no diff.
pub open spec fn no_diff() -> Seq<char> {
    "No diff is open."@
}

impl Diffing {
    /// Whether what is shown is as it should be.
    pub open spec fn wf(self) -> bool {
        self.view matches Some(view) ==> {
            &&& view.wf()
            &&& view.serial <= self.serials
            &&& view.version <= self.versions
        }
    }

    /// Nothing open, and nothing asked.
    pub fn new() -> (diffing: Self)
        ensures
            diffing.wf(),
            diffing.view is None,
            diffing.serials == 0,
            diffing.versions == 0,
    {
        Diffing { view: None, serials: 0, versions: 0 }
    }

    // ── opening and closing ─────────────────────────────────────────────────

    /// What asking for the diff of `doc` in `pane` comes to, and the view after:
    /// one already showing is to be put away, and otherwise one is opened where
    /// it can be.
    pub open spec fn toggled(
        self,
        after: Diffing,
        pane: usize,
        doc: usize,
        spelled: Option<String>,
        git: bool,
        text: Seq<char>,
        toggle: Toggle,
    ) -> bool {
        if self.view matches Some(view) && view.pane == pane && view.doc == doc {
            toggle is Close && after == self
        } else if spelled is None {
            &&& toggle matches Toggle::Say(said) && said@
                == "A file that has never been saved has no history to diff."@
            &&& after == self
        } else if !git {
            &&& toggle matches Toggle::Say(said) && said@ == "Git is not running."@
            &&& after == self
        } else {
            let version = (self.versions + 1) as u64;
            let serial = (self.serials + 1) as u64;
            &&& toggle == Toggle::Open(version, serial)
            &&& after.serials == serial
            &&& after.versions == version
            &&& after.view matches Some(view) && {
                &&& rope_text(view.sent) == text
                &&& view == (Viewing {
                    pane,
                    doc,
                    spelled: spelled->0,
                    against: Against::Index,
                    layout: Layout::Split,
                    scroll: 0,
                    current: None,
                    version,
                    sent: view.sent,
                    due: None,
                    serial,
                    index: None,
                    shown: Shown::Waiting,
                })
            }
        }
    }

    /// Show the diff of the document `doc` in `pane`, or put it away if it is
    /// already showing. `spelled` is where the file is, if it has been saved
    /// anywhere; `git` is whether git is running; and `text` is its text.
    pub fn toggle_diff(
        &mut self,
        pane: usize,
        doc: usize,
        spelled: Option<String>,
        git: bool,
        text: &Rope,
    ) -> (toggle: Toggle)
        requires
            old(self).wf(),
            old(self).serials < u64::MAX,
            old(self).versions < u64::MAX,
        ensures
            final(self).wf(),
            old(self).toggled(*final(self), pane, doc, spelled, git, rope_text(*text), toggle),
    {
        let showing = match &self.view {
            Some(view) => view.pane == pane && view.doc == doc,
            None => false,
        };
        if showing {
            return Toggle::Close;
        }
        let Some(spelled) = spelled else {
            return Toggle::Say(
                "A file that has never been saved has no history to diff.".to_owned(),
            );
        };
        if !git {
            return Toggle::Say("Git is not running.".to_owned());
        }
        self.versions = self.versions + 1;
        self.serials = self.serials + 1;
        self.view = Some(
            Viewing {
                pane,
                doc,
                spelled,
                against: Against::Index,
                layout: Layout::Split,
                scroll: 0,
                current: None,
                version: self.versions,
                sent: copied(text),
                due: None,
                serial: self.serials,
                index: None,
                shown: Shown::Waiting,
            },
        );
        Toggle::Open(self.versions, self.serials)
    }

    /// Put the view away, giving the pane its text back, while `focus` has the
    /// keyboard. What has it then, or `None` where there was no view.
    pub fn close_diff(&mut self, focus: Focus) -> (closed: Option<Focus>)
        requires
            old(self).wf(),
        ensures
            final(self).wf(),
            *final(self) == (Diffing { view: None, ..*old(self) }),
            closed == match old(self).view {
                Some(_) => Some(
                    if focus == Focus::Diff {
                        Focus::Editor
                    } else {
                        focus
                    },
                ),
                None => None,
            },
    {
        match self.view.take() {
            Some(_) => Some(
                if focus == Focus::Diff {
                    Focus::Editor
                } else {
                    focus
                },
            ),
            None => None,
        }
    }

    /// Whether the view is what `pane` shows, `current` being its document.
    pub fn diff_in(&self, pane: usize, current: Option<usize>) -> (is: bool)
        ensures
            is == (self.view matches Some(view) && view.pane == pane && current == Some(view.doc)),
    {
        match (&self.view, current) {
            (Some(view), Some(current)) => view.pane == pane && current == view.doc,
            _ => false,
        }
    }

    /// What has the keyboard, `focus` having had it and `pane` being the pane
    /// in focus: a pane showing the view has nothing else to type into.
    pub open spec fn keyboard(view: Viewing, focus: Focus, pane: usize) -> Focus {
        if focus == Focus::Editor && pane == view.pane {
            Focus::Diff
        } else if focus == Focus::Diff && pane != view.pane {
            Focus::Editor
        } else {
            focus
        }
    }

    /// Keep the view in step with everything else, after any event at `now`:
    /// close it when its document or pane has gone, give it the keyboard when
    /// its pane has it, and note an edit to compare once typing settles.
    /// `showing` is whether its pane still shows its document, `edited` whether
    /// the event could have changed any text, `spelled` where the file is now,
    /// and `text` its text.
    pub fn diff_follow(
        &mut self,
        now: u64,
        edited: bool,
        showing: bool,
        focus: Focus,
        pane: usize,
        spelled: Option<String>,
        text: &Rope,
    ) -> (follow: Follow)
        requires
            old(self).wf(),
            old(self).serials < u64::MAX,
        ensures
            final(self).wf(),
            final(self).versions == old(self).versions,
            match old(self).view {
                None => follow == Follow::Stay(focus) && *final(self) == *old(self),
                Some(view) => if !showing {
                    follow is Close && *final(self) == *old(self)
                } else {
                    let keyboard = Self::keyboard(view, focus, pane);
                    if !edited || view.due is Some {
                        follow == Follow::Stay(keyboard) && *final(self) == *old(self)
                    } else {
                        let moved = spelled matches Some(spelled) && spelled@ != view.spelled@;
                        let due = if rope_text(*text) != rope_text(view.sent) {
                            Some(held_time(now + SETTLE) as u64)
                        } else {
                            None
                        };
                        let serial = (old(self).serials + 1) as u64;
                        &&& follow == if moved {
                            Follow::Moved(keyboard, serial)
                        } else {
                            Follow::Stay(keyboard)
                        }
                        &&& final(self).serials == if moved {
                            serial
                        } else {
                            old(self).serials
                        }
                        &&& final(self).view == Some(
                            Viewing {
                                due,
                                spelled: if moved {
                                    spelled->0
                                } else {
                                    view.spelled
                                },
                                serial: if moved {
                                    serial
                                } else {
                                    view.serial
                                },
                                ..view
                            },
                        )
                    }
                },
            },
    {
        let Some(mut view) = self.view.take() else {
            return Follow::Stay(focus);
        };
        if !showing {
            self.view = Some(view);
            return Follow::Close;
        }
        let keyboard = if focus == Focus::Editor && pane == view.pane {
            Focus::Diff
        } else if focus == Focus::Diff && pane != view.pane {
            Focus::Editor
        } else {
            focus
        };
        if !edited || view.due.is_some() {
            self.view = Some(view);
            return Follow::Stay(keyboard);
        }
        let mut moved = false;
        if let Some(spelled) = spelled {
            if spelled != view.spelled {
                view.spelled = spelled;
                self.serials = self.serials + 1;
                view.serial = self.serials;
                moved = true;
            }
        }
        if !equal(text, &view.sent) {
            view.due = Some(now.saturating_add(SETTLE));
        }
        self.view = Some(view);
        if moved {
            Follow::Moved(keyboard, self.serials)
        } else {
            Follow::Stay(keyboard)
        }
    }

    /// When an edit is next due to be compared.
    pub open spec fn due(self) -> Option<u64> {
        match self.view {
            Some(view) => view.due,
            None => None,
        }
    }

    /// When an edit is next due to be compared.
    pub fn diff_deadline(&self) -> (due: Option<u64>)
        ensures
            due == self.due(),
    {
        match &self.view {
            Some(view) => view.due,
            None => None,
        }
    }

    /// Once typing has settled, the text is to be sent as this version and
    /// compared as this serial.
    pub fn diff_tick(&mut self, now: u64, text: &Rope) -> (send: Option<(u64, u64)>)
        requires
            old(self).wf(),
            old(self).serials < u64::MAX,
            old(self).versions < u64::MAX,
        ensures
            final(self).wf(),
            if old(self).due() is None || now < old(self).due()->0 {
                send is None && *final(self) == *old(self)
            } else {
                let version = (old(self).versions + 1) as u64;
                let serial = (old(self).serials + 1) as u64;
                &&& send == Some((version, serial))
                &&& final(self).versions == version
                &&& final(self).serials == serial
                &&& final(self).view matches Some(view) && rope_text(view.sent) == rope_text(*text)
                    && view == (Viewing {
                    due: None,
                    version,
                    serial,
                    sent: view.sent,
                    ..old(self).view->0
                })
            },
    {
        let Some(due) = self.diff_deadline() else {
            return None;
        };
        if now < due {
            return None;
        }
        let Some(mut view) = self.view.take() else {
            return None;
        };
        self.versions = self.versions + 1;
        self.serials = self.serials + 1;
        view.due = None;
        view.version = self.versions;
        view.serial = self.serials;
        view.sent = copied(text);
        self.view = Some(view);
        Some((self.versions, self.serials))
    }

    /// Whether the comparison the view is showing has been asked for again, as a
    /// serial never used before.
    pub open spec fn compared_again(self, after: Diffing, ask: Option<(u64, Against)>) -> bool {
        match self.view {
            None => ask is None && after == self,
            Some(view) => {
                let serial = (self.serials + 1) as u64;
                &&& ask == Some((serial, view.against))
                &&& after == (Diffing {
                    serials: serial,
                    view: Some(Viewing { serial, ..view }),
                    ..self
                })
            },
        }
    }

    /// Ask for the comparison the view is showing, again: as this serial, with
    /// this.
    pub fn compare(&mut self) -> (ask: Option<(u64, Against)>)
        requires
            old(self).wf(),
            old(self).serials < u64::MAX,
        ensures
            final(self).wf(),
            old(self).compared_again(*final(self), ask),
    {
        let Some(mut view) = self.view.take() else {
            return None;
        };
        self.serials = self.serials + 1;
        view.serial = self.serials;
        let against = view.against;
        self.view = Some(view);
        Some((self.serials, against))
    }

    // ── what git says ───────────────────────────────────────────────────────

    /// The changes against the index came, as of `version` of the text.
    pub fn diff_hunks(&mut self, version: u64, index: Option<Diff>) -> (outcome: Outcome)
        requires
            old(self).wf(),
            index matches Some(index) ==> index.wf(),
        ensures
            final(self).wf(),
            final(self).serials == old(self).serials,
            final(self).versions == old(self).versions,
            match old(self).view {
                Some(view) if version == view.version => {
                    &&& outcome == Outcome::Redraw
                    &&& final(self).view matches Some(after) && {
                        &&& after == (Viewing { index, shown: after.shown, ..view })
                        &&& match view.shown {
                            Shown::Diff(drawn) => after.shown matches Shown::Diff(now) && now
                                == (Drawn { stageable: now.stageable, ..drawn })
                                && now.stageable@ == stageable_of(
                                drawn.diff,
                                if drawn.version == version {
                                    index
                                } else {
                                    None
                                },
                            ),
                            _ => after.shown == view.shown,
                        }
                    }
                },
                _ => outcome == Outcome::Continue && *final(self) == *old(self),
            },
    {
        let Some(mut view) = self.view.take() else {
            return Outcome::Continue;
        };
        if version != view.version {
            self.view = Some(view);
            return Outcome::Continue;
        }
        view.index = index;
        view.restage();
        self.view = Some(view);
        Outcome::Redraw
    }

    /// Whether a comparison is the one waited for.
    pub open spec fn awaits(self, version: u64, serial: u64, against: Against) -> bool {
        self.view matches Some(view) && serial == view.serial && version == view.version && against
            == view.against
    }

    /// Whether a comparison says what is on screen already.
    pub open spec fn shows(view: Viewing, version: u64, diff: Diff) -> bool {
        view.shown matches Shown::Diff(drawn) && drawn.version == version && drawn.diff.base@
            == diff.base@ && drawn.diff.hunks@ == diff.hunks@
    }

    /// Whether a comparison is with something else than the one on screen.
    pub open spec fn rebased(view: Viewing, diff: Diff) -> bool {
        !(view.shown matches Shown::Diff(drawn) && drawn.diff.base@ == diff.base@)
    }

    /// A comparison came, or that there is nothing to compare with. One asked
    /// for before the base was switched, or before the text moved on, is
    /// dropped: the answer to the newer question is on its way.
    pub fn compared(&mut self, version: u64, serial: u64, against: Against, diff: &Option<Diff>)
        -> (compared: Compared)
        requires
            old(self).wf(),
        ensures
            final(self).wf(),
            if !old(self).awaits(version, serial, against) {
                compared == Compared::Drop && *final(self) == *old(self)
            } else {
                let view = old(self).view->0;
                match *diff {
                    None => {
                        &&& compared == Compared::Nothing
                        &&& *final(self) == (Diffing {
                            view: Some(Viewing { shown: Shown::Nothing, ..view }),
                            ..*old(self)
                        })
                    },
                    Some(diff) => {
                        &&& *final(self) == *old(self)
                        &&& compared == if Self::shows(view, version, diff) {
                            Compared::Drop
                        } else {
                            Compared::Draw {
                                base_changed: Self::rebased(view, diff),
                                top: view.top(),
                            }
                        }
                    },
                }
            },
    {
        let Some(mut view) = self.view.take() else {
            return Compared::Drop;
        };
        if serial != view.serial || version != view.version || against != view.against {
            self.view = Some(view);
            return Compared::Drop;
        }
        let result = match diff {
            None => {
                view.shown = Shown::Nothing;
                Compared::Nothing
            },
            Some(diff) => {
                let (same_base, same) = match &view.shown {
                    Shown::Diff(drawn) => {
                        let base = drawn.diff.base == diff.base;
                        (
                            base,
                            base && drawn.version == version && same_hunks(
                                &drawn.diff.hunks,
                                &diff.hunks,
                            ),
                        )
                    },
                    _ => (false, false),
                };
                if same {
                    Compared::Drop
                } else {
                    Compared::Draw { base_changed: !same_base, top: view.top_line() }
                }
            },
        };
        self.view = Some(view);
        result
    }

    /// Show a comparison of `version` of the text, laid out as `rows`, with row
    /// `top` at the top as far as that goes, `visible` rows being in view.
    /// Where the base has not changed, neither has the parse its colours are
    /// waited from.
    pub fn draw(
        &mut self,
        version: u64,
        diff: Diff,
        rows: Vec<DiffRow>,
        top: usize,
        visible: usize,
        base_changed: bool,
    )
        requires
            old(self).wf(),
            diff.wf(),
        ensures
            final(self).wf(),
            final(self).serials == old(self).serials,
            final(self).versions == old(self).versions,
            match old(self).view {
                None => final(self).view is None,
                Some(view) => final(self).view matches Some(after) && {
                    let parse = if !base_changed && view.shown is Diff {
                        (view.shown->Diff_0.parse.0, 0u64)
                    } else {
                        (0u64, 0u64)
                    };
                    &&& after == (Viewing {
                        scroll: clamped(top as int, rows@.len() as int, visible as int) as usize,
                        current: match view.current {
                            Some(current) => if current < diff.hunks@.len() {
                                Some(current)
                            } else {
                                None
                            },
                            None => None,
                        },
                        shown: after.shown,
                        ..view
                    })
                    &&& after.shown matches Shown::Diff(drawn) && drawn == (Drawn {
                        diff,
                        version,
                        stageable: drawn.stageable,
                        rows,
                        parse,
                    }) && drawn.stageable@ == stageable_of(diff, view.index)
                },
            },
    {
        let Some(mut view) = self.view.take() else {
            return ;
        };
        let before: u64 = match &view.shown {
            Shown::Diff(drawn) => if base_changed {
                0
            } else {
                drawn.parse.0
            },
            _ => 0,
        };
        view.scroll = clamp(top, rows.len(), visible);
        if let Some(current) = view.current {
            if current >= diff.hunks.len() {
                view.current = None;
            }
        }
        let stageable = mark_stageable(&diff, view.index.as_ref());
        view.shown = Shown::Diff(Drawn { diff, version, stageable, rows, parse: (before, 0) });
        self.view = Some(view);
    }

    /// Have the parser colour both versions, the old one only if it changed:
    /// the number each is asked for under.
    pub fn diff_highlight(&mut self, base_changed: bool) -> (ask: Option<(Option<u64>, u64)>)
        requires
            old(self).wf(),
            old(self).versions < u64::MAX - 1,
        ensures
            final(self).wf(),
            final(self).serials == old(self).serials,
            match old(self).view {
                Some(view) if view.shown is Diff => {
                    let drawn = view.shown->Diff_0;
                    let first = (old(self).versions + 1) as u64;
                    let second = if base_changed {
                        (old(self).versions + 2) as u64
                    } else {
                        first
                    };
                    &&& ask == Some(
                        (
                            if base_changed {
                                Some(first)
                            } else {
                                None
                            },
                            second,
                        ),
                    )
                    &&& final(self).versions == second
                    &&& final(self).view == Some(
                        Viewing {
                            shown: Shown::Diff(
                                Drawn {
                                    parse: (
                                        if base_changed {
                                            first
                                        } else {
                                            drawn.parse.0
                                        },
                                        second,
                                    ),
                                    ..drawn
                                },
                            ),
                            ..view
                        },
                    )
                },
                _ => ask is None && *final(self) == *old(self),
            },
    {
        let Some(mut view) = self.view.take() else {
            return None;
        };
        let mut shown = Shown::Waiting;
        std::mem::swap(&mut shown, &mut view.shown);
        let mut ask: Option<(Option<u64>, u64)> = None;
        match shown {
            Shown::Diff(mut drawn) => {
                let mut old_side: Option<u64> = None;
                let mut parse = drawn.parse;
                if base_changed {
                    self.versions = self.versions + 1;
                    parse = (self.versions, parse.1);
                    old_side = Some(self.versions);
                }
                self.versions = self.versions + 1;
                drawn.parse = (parse.0, self.versions);
                ask = Some((old_side, self.versions));
                view.shown = Shown::Diff(drawn);
            },
            other => {
                view.shown = other;
            },
        }
        self.view = Some(view);
        ask
    }

    /// Whether the parser's colours for the old version, or the new, asked for
    /// under `version`, are the ones waited for.
    pub fn diff_syntax(&self, old_side: bool, version: u64) -> (taken: bool)
        ensures
            taken == (self.view matches Some(view) && (view.shown matches Shown::Diff(drawn) && (
            if old_side {
                drawn.parse.0
            } else {
                drawn.parse.1
            }) == version)),
    {
        match &self.view {
            Some(view) => match &view.shown {
                Shown::Diff(drawn) => if old_side {
                    drawn.parse.0 == version
                } else {
                    drawn.parse.1 == version
                },
                _ => false,
            },
            None => false,
        }
    }

    // ── moving about ────────────────────────────────────────────────────────

    /// Scroll to row `to` as far as that goes, `visible` rows being in view.
    fn scroll_to(&mut self, to: usize, visible: usize)
        requires
            old(self).wf(),
        ensures
            final(self).wf(),
            *final(self) == (Diffing {
                view: match old(self).view {
                    Some(view) => Some(
                        Viewing {
                            scroll: clamped(
                                to as int,
                                view.rows().len() as int,
                                visible as int,
                            ) as usize,
                            ..view
                        },
                    ),
                    None => None,
                },
                ..*old(self)
            }),
    {
        if let Some(mut view) = self.view.take() {
            let rows: usize = match &view.shown {
                Shown::Diff(drawn) => drawn.rows.len(),
                _ => 0,
            };
            view.scroll = clamp(to, rows, visible);
            self.view = Some(view);
        }
    }

    /// Where scrolling by `rows` goes, before it is held to what there is.
    pub open spec fn scrolled(scroll: int, down: bool, rows: int) -> int {
        if down {
            if scroll + rows <= usize::MAX {
                scroll + rows
            } else {
                usize::MAX as int
            }
        } else if scroll >= rows {
            scroll - rows
        } else {
            0
        }
    }

    /// Scroll up or down by `rows`, `visible` rows being in view.
    pub fn scroll_diff_by(&mut self, down: bool, rows: usize, visible: usize) -> (outcome: Outcome)
        requires
            old(self).wf(),
        ensures
            final(self).wf(),
            outcome == Outcome::Redraw,
            *final(self) == (Diffing {
                view: match old(self).view {
                    Some(view) => Some(
                        Viewing {
                            scroll: clamped(
                                Self::scrolled(view.scroll as int, down, rows as int),
                                view.rows().len() as int,
                                visible as int,
                            ) as usize,
                            ..view
                        },
                    ),
                    None => None,
                },
                ..*old(self)
            }),
    {
        let from: usize = match &self.view {
            Some(view) => view.scroll,
            None => 0,
        };
        let to: usize = if down {
            from.saturating_add(rows)
        } else {
            from.saturating_sub(rows)
        };
        self.scroll_to(to, visible);
        Outcome::Redraw
    }

    /// Where showing a change whose header is on `row` scrolls to, `length`
    /// being how many rows come after that: a little below the top so what
    /// comes before it shows too, unless it is all in view.
    pub open spec fn scroll_for(scroll: int, row: int, length: int, visible: int) -> int {
        if row < scroll || row + 1 + length > scroll + visible {
            if row >= visible / 4 {
                row - visible / 4
            } else {
                0
            }
        } else {
            scroll
        }
    }

    /// The view with change `hunk` the current one and in view.
    pub open spec fn showing(view: Viewing, hunk: int, visible: int) -> Viewing {
        match view.shown {
            Shown::Diff(drawn) => match header_at(drawn.rows@, hunk as usize, 0) {
                Some(row) => {
                    let at = drawn.diff.hunks@[hunk];
                    let before = lines_in(at.before_start, at.before_end);
                    let after = lines_in(at.after_start, at.after_end);
                    let length = if before >= after {
                        before
                    } else {
                        after
                    };
                    Viewing {
                        current: Some(hunk as usize),
                        scroll: clamped(
                            Self::scroll_for(view.scroll as int, row, length, visible),
                            drawn.rows@.len() as int,
                            visible,
                        ) as usize,
                        ..view
                    }
                },
                None => view,
            },
            _ => view,
        }
    }

    /// Go to the next change, or the one before, coming round, `visible` rows
    /// being in view.
    pub fn diff_step(&mut self, forward: bool, visible: usize) -> (reply: Reply)
        requires
            old(self).wf(),
        ensures
            final(self).wf(),
            reply.cancel@.len() == 0,
            final(self).serials == old(self).serials,
            final(self).versions == old(self).versions,
            match old(self).view {
                None => {
                    &&& reply.outcome == Outcome::Redraw
                    &&& reply.says() == Some(no_diff())
                    &&& *final(self) == *old(self)
                },
                Some(view) => match view.shown {
                    Shown::Diff(drawn) => {
                        let count = drawn.diff.hunks@.len() as int;
                        &&& reply.outcome == Outcome::Redraw
                        &&& if count == 0 {
                            reply.says() == Some("No changes."@) && *final(self) == *old(self)
                        } else {
                            let next = stepped(
                                view.current,
                                drawn.rows@,
                                view.scroll,
                                count,
                                forward,
                            );
                            &&& reply.says() == Some(
                                "Change "@ + decimal_of((next + 1) as nat) + " of "@ + decimal_of(
                                    count as nat,
                                ) + "."@,
                            )
                            &&& 0 <= next < count
                            &&& final(self).view == Some(
                                Self::showing(view, next, visible as int),
                            )
                        }
                    },
                    _ => {
                        &&& reply.outcome == Outcome::Continue
                        &&& reply.says() is None
                        &&& *final(self) == *old(self)
                    },
                },
            },
    {
        let Some(view) = &self.view else {
            return Reply::saying("No diff is open.".to_owned());
        };
        let (next, count): (usize, usize) = match &view.shown {
            Shown::Diff(drawn) => {
                let count: usize = drawn.diff.hunks.len();
                if count == 0 {
                    return Reply::saying("No changes.".to_owned());
                }
                proof {
                    steps_are_within(view.current, drawn.rows@, view.scroll, count as int, forward);
                }
                (step(view.current, &drawn.rows, view.scroll, count, forward), count)
            },
            _ => return Reply::just(Outcome::Continue),
        };
        self.show_diff_hunk(next, visible);
        let mut said = join3("Change ", decimal(next + 1).as_str(), " of ");
        said.append(decimal(count).as_str());
        said.append(".");
        Reply::saying(said)
    }

    fn show_diff_hunk(&mut self, hunk: usize, visible: usize)
        requires
            old(self).wf(),
            old(self).view matches Some(view) && (view.shown matches Shown::Diff(drawn) && hunk
                < drawn.diff.hunks@.len()),
        ensures
            final(self).wf(),
            *final(self) == (Diffing {
                view: Some(Self::showing(old(self).view->0, hunk as int, visible as int)),
                ..*old(self)
            }),
    {
        let Some(mut view) = self.view.take() else {
            return ;
        };
        if let Shown::Diff(drawn) = &view.shown {
            if let Some(row) = header_row(&drawn.rows, hunk) {
                let at = drawn.diff.hunks[hunk];
                let before: u32 = at.before_end.saturating_sub(at.before_start);
                let after: u32 = at.after_end.saturating_sub(at.after_start);
                let length: u32 = if before >= after {
                    before
                } else {
                    after
                };
                let end: u128 = row as u128 + 1 + length as u128;
                let to: usize = if row < view.scroll || end > view.scroll as u128
                    + visible as u128 {
                    row.saturating_sub(visible / 4)
                } else {
                    view.scroll
                };
                let rows: usize = drawn.rows.len();
                view.scroll = clamp(to, rows, visible);
                view.current = Some(hunk);
            }
        }
        self.view = Some(view);
    }

    /// Switch between side by side and unified, or say why not: what it is to
    /// be laid out as.
    pub fn toggle_diff_layout(&self) -> (layout: Result<Layout, String>)
        ensures
            match self.view {
                Some(view) => layout == Ok::<Layout, String>(
                    match view.layout {
                        Layout::Split => Layout::Unified,
                        Layout::Unified => Layout::Split,
                    },
                ),
                None => layout matches Err(said) && said@ == no_diff(),
            },
    {
        match &self.view {
            Some(view) => Ok(
                match view.layout {
                    Layout::Split => Layout::Unified,
                    Layout::Unified => Layout::Split,
                },
            ),
            None => Err("No diff is open.".to_owned()),
        }
    }

    /// Lay the view out as `layout`, its rows then being `rows` and row `top`
    /// the one that keeps the same place, `visible` rows being in view.
    pub fn set_diff_layout(&mut self, layout: Layout, rows: Vec<DiffRow>, top: usize, visible: usize)
        -> (outcome: Outcome)
        requires
            old(self).wf(),
        ensures
            final(self).wf(),
            final(self).serials == old(self).serials,
            final(self).versions == old(self).versions,
            match old(self).view {
                Some(view) if view.layout != layout => {
                    &&& outcome == Outcome::Redraw
                    &&& final(self).view == Some(
                        match view.shown {
                            Shown::Diff(drawn) => Viewing {
                                layout,
                                scroll: clamped(
                                    top as int,
                                    rows@.len() as int,
                                    visible as int,
                                ) as usize,
                                shown: Shown::Diff(Drawn { rows, ..drawn }),
                                ..view
                            },
                            _ => Viewing { layout, scroll: 0, ..view },
                        },
                    )
                },
                _ => outcome == Outcome::Continue && *final(self) == *old(self),
            },
    {
        let Some(mut view) = self.view.take() else {
            return Outcome::Continue;
        };
        if view.layout == layout {
            self.view = Some(view);
            return Outcome::Continue;
        }
        view.layout = layout;
        let mut shown = Shown::Waiting;
        std::mem::swap(&mut shown, &mut view.shown);
        match shown {
            Shown::Diff(mut drawn) => {
                view.scroll = clamp(top, rows.len(), visible);
                drawn.rows = rows;
                view.shown = Shown::Diff(drawn);
            },
            other => {
                view.scroll = 0;
                view.shown = other;
            },
        }
        self.view = Some(view);
        Outcome::Redraw
    }

    /// What the view is not compared with: the index, or `HEAD`.
    pub fn toggle_diff_base(&self) -> (against: Result<Against, String>)
        ensures
            match self.view {
                Some(view) => against == Ok::<Against, String>(
                    match view.against {
                        Against::Index => Against::Head,
                        Against::Head => Against::Index,
                    },
                ),
                None => against matches Err(said) && said@ == no_diff(),
            },
    {
        match &self.view {
            Some(view) => Ok(
                match view.against {
                    Against::Index => Against::Head,
                    Against::Head => Against::Index,
                },
            ),
            None => Err("No diff is open.".to_owned()),
        }
    }

    /// Compare with `against`: the serial to ask under, unless that is what the
    /// text is compared with already.
    pub fn set_diff_base(&mut self, against: Against) -> (ask: Option<u64>)
        requires
            old(self).wf(),
            old(self).serials < u64::MAX,
        ensures
            final(self).wf(),
            final(self).versions == old(self).versions,
            match old(self).view {
                Some(view) if view.against != against => {
                    let serial = (old(self).serials + 1) as u64;
                    &&& ask == Some(serial)
                    &&& final(self).serials == serial
                    &&& final(self).view == Some(
                        Viewing { against, current: None, serial, ..view },
                    )
                },
                _ => ask is None && *final(self) == *old(self),
            },
    {
        let Some(mut view) = self.view.take() else {
            return None;
        };
        if view.against == against {
            self.view = Some(view);
            return None;
        }
        view.against = against;
        view.current = None;
        self.serials = self.serials + 1;
        view.serial = self.serials;
        self.view = Some(view);
        Some(self.serials)
    }

    /// The change to stage: the one asked for, or the one the keyboard is on,
    /// or the only one on screen.
    pub open spec fn staging(view: Viewing, hunk: Option<usize>, visible: int) -> Option<usize> {
        if hunk is Some {
            hunk
        } else if view.current is Some {
            view.current
        } else if view.scroll > view.rows().len() {
            None
        } else {
            only_hunk(
                view.rows(),
                view.scroll as int,
                if view.scroll + visible <= view.rows().len() {
                    view.scroll + visible
                } else {
                    view.rows().len() as int
                },
            )
        }
    }

    /// Stage the change the keyboard is on, or `hunk`, `visible` rows being in
    /// view.
    pub fn stage_diff_hunk(&mut self, hunk: Option<usize>, visible: usize) -> (stage: Stage)
        requires
            old(self).wf(),
        ensures
            final(self).wf(),
            final(self).serials == old(self).serials,
            final(self).versions == old(self).versions,
            match old(self).view {
                None => {
                    &&& stage matches Stage::Say(said) && said@ == no_diff()
                    &&& *final(self) == *old(self)
                },
                Some(view) => match view.shown {
                    Shown::Diff(drawn) => match Self::staging(view, hunk, visible as int) {
                        None => {
                            &&& stage matches Stage::Say(said) && said@
                                == "Choose a change to stage first: F7 goes to the next one."@
                            &&& *final(self) == *old(self)
                        },
                        Some(at) => {
                            let index = view.index_for(drawn.version);
                            let found = if at < drawn.diff.hunks@.len() && index is Some {
                                staged_as(
                                    index->0,
                                    drawn.diff.hunks@[at as int],
                                    drawn.diff.olds@[at as int]@,
                                    0,
                                )
                            } else {
                                None
                            };
                            match found {
                                Some(staged) => {
                                    &&& stage == Stage::Send(
                                        drawn.version,
                                        index->0.hunks@[staged],
                                    )
                                    &&& final(self).view == Some(
                                        Viewing { current: Some(at), ..view },
                                    )
                                },
                                None => {
                                    &&& stage matches Stage::Say(said) && said@
                                        == "That change is already staged, wholly or in part: the index view shows the rest."@
                                    &&& *final(self) == *old(self)
                                },
                            }
                        },
                    },
                    _ => stage is Nothing && *final(self) == *old(self),
                },
            },
    {
        let Some(view) = &self.view else {
            return Stage::Say("No diff is open.".to_owned());
        };
        let Shown::Diff(drawn) = &view.shown else {
            return Stage::Nothing;
        };
        let chosen: Option<usize> = match hunk {
            Some(hunk) => Some(hunk),
            None => match view.current {
                Some(current) => Some(current),
                None => {
                    let count: usize = drawn.rows.len();
                    if view.scroll > count {
                        None
                    } else {
                        let end: usize = if visible <= count - view.scroll {
                            view.scroll + visible
                        } else {
                            count
                        };
                        lone_hunk(&drawn.rows, view.scroll, end)
                    }
                },
            },
        };
        let Some(at) = chosen else {
            return Stage::Say(
                "Choose a change to stage first: F7 goes to the next one.".to_owned(),
            );
        };
        let mut found: Option<Hunk> = None;
        if at < drawn.diff.hunks.len() && drawn.version == view.version {
            if let Some(index) = &view.index {
                if let Some(staged) = as_staged(
                    &drawn.diff.hunks[at],
                    &drawn.diff.olds[at],
                    index,
                ) {
                    found = Some(index.hunks[staged]);
                }
            }
        }
        let Some(hunk) = found else {
            return Stage::Say(
                "That change is already staged, wholly or in part: the index view shows the rest.".to_owned(),
            );
        };
        let version: u64 = drawn.version;
        if let Some(mut view) = self.view.take() {
            view.current = Some(at);
            self.view = Some(view);
        }
        Stage::Send(version, hunk)
    }

    /// A change has been staged, or has not: what is said. Once it has, the
    /// comparison is asked for again, as this serial, with this.
    pub fn staged(&mut self, result: Result<(), String>) -> (answer: (
        String,
        Option<(u64, Against)>,
    ))
        requires
            old(self).wf(),
            old(self).serials < u64::MAX,
        ensures
            final(self).wf(),
            match result {
                Ok(()) => answer.0@ == "Staged."@ && old(self).compared_again(
                    *final(self),
                    answer.1,
                ),
                Err(why) => answer.0@ == "Not staged: "@ + why@ && answer.1 is None && *final(self)
                    == *old(self),
            },
    {
        match result {
            Ok(()) => {
                let ask = self.compare();
                ("Staged.".to_owned(), ask)
            },
            Err(why) => (join("Not staged: ", why.as_str()), None),
        }
    }

    /// The line of the text that row `row` is gone to.
    pub fn diff_go_to(&self, row: usize) -> (line: Option<u32>)
        ensures
            line == match self.view {
                Some(view) => if row < view.rows().len() {
                    view.rows()[row as int].line
                } else {
                    None
                },
                None => None,
            },
    {
        match &self.view {
            Some(view) => match &view.shown {
                Shown::Diff(drawn) => if row < drawn.rows.len() {
                    drawn.rows[row].line
                } else {
                    None
                },
                _ => None,
            },
            None => None,
        }
    }

    // ── keys ────────────────────────────────────────────────────────────────

    /// The row Enter goes to: the header of the change the keyboard is on, or
    /// the top.
    pub open spec fn enter_row(view: Viewing) -> int {
        match view.shown {
            Shown::Diff(drawn) => match view.current {
                Some(current) => match header_at(drawn.rows@, current, 0) {
                    Some(row) => row,
                    None => view.scroll as int,
                },
                None => view.scroll as int,
            },
            _ => view.scroll as int,
        }
    }

    /// Where a key scrolls the view to, before that is held to what there is.
    pub open spec fn keyed(view: Viewing, code: KeyCode, visible: int) -> Option<int> {
        let scroll = view.scroll as int;
        match code {
            KeyCode::Up => Some(Self::scrolled(scroll, false, 1)),
            KeyCode::Down => Some(Self::scrolled(scroll, true, 1)),
            KeyCode::PageUp => Some(Self::scrolled(scroll, false, visible)),
            KeyCode::PageDown => Some(Self::scrolled(scroll, true, visible)),
            KeyCode::Home => Some(0),
            KeyCode::End => Some(usize::MAX as int),
            _ => None,
        }
    }

    /// A key while the view has the keyboard, `visible` rows being in view.
    /// Nothing is typed: the text is behind the view, and Enter goes to it.
    pub fn diff_key(&mut self, key: &KeyEvent, visible: usize) -> (task: DiffKey)
        requires
            old(self).wf(),
        ensures
            final(self).wf(),
            match key.code {
                KeyCode::Esc => task == DiffKey::Close && *final(self) == *old(self),
                KeyCode::Enter => {
                    &&& *final(self) == *old(self)
                    &&& task == DiffKey::GoTo(
                        match old(self).view {
                            Some(view) => Self::enter_row(view) as usize,
                            None => 0,
                        },
                    )
                },
                KeyCode::Up
                | KeyCode::Down
                | KeyCode::PageUp
                | KeyCode::PageDown
                | KeyCode::Home
                | KeyCode::End => {
                    &&& task == DiffKey::Scrolled
                    &&& *final(self) == (Diffing {
                        view: match old(self).view {
                            Some(view) => Some(
                                Viewing {
                                    scroll: clamped(
                                        Self::keyed(view, key.code, visible as int)->0,
                                        view.rows().len() as int,
                                        visible as int,
                                    ) as usize,
                                    ..view
                                },
                            ),
                            None => None,
                        },
                        ..*old(self)
                    })
                },
                _ => task == DiffKey::Refuse && *final(self) == *old(self),
            },
    {
        match key.code {
            KeyCode::Esc => DiffKey::Close,
            KeyCode::Up => {
                let _ = self.scroll_diff_by(false, 1, visible);
                DiffKey::Scrolled
            },
            KeyCode::Down => {
                let _ = self.scroll_diff_by(true, 1, visible);
                DiffKey::Scrolled
            },
            KeyCode::PageUp => {
                let _ = self.scroll_diff_by(false, visible, visible);
                DiffKey::Scrolled
            },
            KeyCode::PageDown => {
                let _ = self.scroll_diff_by(true, visible, visible);
                DiffKey::Scrolled
            },
            KeyCode::Home => {
                self.scroll_to(0, visible);
                DiffKey::Scrolled
            },
            KeyCode::End => {
                self.scroll_to(usize::MAX, visible);
                DiffKey::Scrolled
            },
            KeyCode::Enter => {
                let row: usize = match &self.view {
                    Some(view) => match &view.shown {
                        Shown::Diff(drawn) => match view.current {
                            Some(current) => match header_row(&drawn.rows, current) {
                                Some(row) => row,
                                None => view.scroll,
                            },
                            None => view.scroll,
                        },
                        _ => view.scroll,
                    },
                    None => 0,
                };
                DiffKey::GoTo(row)
            },
            _ => DiffKey::Refuse,
        }
    }

    /// What the view says in place of a diff, if it says anything.
    pub fn note(&self) -> (note: Option<&'static str>)
        ensures
            match self.view {
                None => note is None,
                Some(view) => match view.shown {
                    Shown::Waiting => note matches Some(text) && text@ == "Comparing…"@,
                    Shown::Nothing => note matches Some(text) && text@
                        == "Nothing to compare with: the file is in no repository, is not tracked, or is binary or too large to diff."@,
                    Shown::Diff(drawn) => if drawn.diff.hunks@.len() > 0 {
                        note is None
                    } else {
                        note matches Some(text) && text@ == match view.against {
                            Against::Index => "No changes against the index."@,
                            Against::Head => "No changes against HEAD."@,
                        }
                    },
                },
            },
    {
        match &self.view {
            None => None,
            Some(view) => match &view.shown {
                Shown::Waiting => Some("Comparing…"),
                Shown::Nothing => Some(
                    "Nothing to compare with: the file is in no repository, is not tracked, or is binary or too large to diff.",
                ),
                Shown::Diff(drawn) => if drawn.diff.hunks.len() > 0 {
                    None
                } else {
                    Some(
                        match view.against {
                            Against::Index => "No changes against the index.",
                            Against::Head => "No changes against HEAD.",
                        },
                    )
                },
            },
        }
    }
}

/// What is said of a key that does nothing in the view.
pub fn not_edited() -> (said: String)
    ensures
        said@ == "The diff cannot be edited: Enter goes to the text, Esc closes."@,
{
    "The diff cannot be edited: Enter goes to the text, Esc closes.".to_owned()
}

/// Where going to line `line` of `text` lands: where the line starts, and what is
/// scrolled to, `height` rows being in view.
pub open spec fn lands(text: Seq<char>, line: u32, height: usize) -> (int, int) {
    let on = if line <= breaks(text) {
        line as int
    } else {
        breaks(text) as int
    };
    (
        line_start(text, on),
        if on >= height / 3 {
            on - height / 3
        } else {
            0
        },
    )
}

/// Where going to line `line` of a text lands: where the line starts, and what
/// is scrolled to, `height` rows being in view: with some of what comes before
/// it in view, not on the top row.
pub fn land(rope: &Rope, line: u32, height: usize) -> (landing: (usize, usize))
    ensures
        (landing.0 as int, landing.1 as int) == lands(rope_text(*rope), line, height),
{
    let last: usize = len_lines(rope) - 1;
    let on: usize = if line as usize <= last {
        line as usize
    } else {
        last
    };
    (line_to_char(rope, on), on.saturating_sub(height / 3))
}

/// Whether a part of the view lights up under the pointer: only its buttons do.
pub fn lights_up(spot: Spot) -> (lights: bool)
    ensures
        lights == (spot is Close || spot is Layout || spot is Base || spot is Stage),
{
    matches!(spot, Spot::Close | Spot::Layout(_) | Spot::Base(_) | Spot::Stage(_))
}

/// The view's parts on screen: each where it is, known by its place.
pub open spec fn spot_hits(spots: Seq<(Rect, Spot)>) -> Seq<Hit> {
    Seq::new(
        spots.len(),
        |i: int|
            Hit {
                area: spots[i].0,
                target: Target::Diff(i as usize),
                hover: spots[i].1 is Close || spots[i].1 is Layout || spots[i].1 is Base
                    || spots[i].1 is Stage,
            },
    )
}

/// The view's parts on screen: each where it is, known by its place.
pub fn layout_diff(spots: &Vec<(Rect, Spot)>) -> (hits: Vec<Hit>)
    ensures
        hits@ == spot_hits(spots@),
{
    let mut hits: Vec<Hit> = Vec::new();
    let mut i: usize = 0;
    while i < spots.len()
        invariant
            i <= spots@.len(),
            hits@ =~= spot_hits(spots@).take(i as int),
        decreases spots@.len() - i,
    {
        hits.push(
            Hit { area: spots[i].0, target: Target::Diff(i), hover: lights_up(spots[i].1) },
        );
        i = i + 1;
    }
    assert(spot_hits(spots@).take(spots@.len() as int) =~= spot_hits(spots@));
    hits
}

proof fn header_rows_are_few(rows: Seq<DiffRow>, count: int)
    requires
        0 <= count,
    ensures
        header_rows(rows, count).len() <= count,
    decreases count,
{
    if count > 0 {
        header_rows_are_few(rows, count - 1);
    }
}

proof fn start_below_is_within(starts: Seq<usize>, top: usize, from: int)
    requires
        0 <= from,
    ensures
        start_below(starts, top, from) matches Some(at) ==> 0 <= at < starts.len(),
    decreases starts.len() - from,
{
    if from < starts.len() && starts[from] < top {
        start_below_is_within(starts, top, from + 1);
    }
}

proof fn start_above_is_within(starts: Seq<usize>, top: usize, count: int)
    requires
        count <= starts.len(),
    ensures
        start_above(starts, top, count) matches Some(at) ==> 0 <= at < starts.len(),
    decreases count,
{
    if count > 0 && starts[count - 1] >= top {
        start_above_is_within(starts, top, count - 1);
    }
}

/// Stepping always lands on a change there is.
pub proof fn steps_are_within(
    current: Option<usize>,
    rows: Seq<DiffRow>,
    top: usize,
    count: int,
    forward: bool,
)
    requires
        count > 0,
        current matches Some(current) ==> current < count,
    ensures
        0 <= stepped(current, rows, top, count, forward) < count,
{
    header_rows_are_few(rows, count);
    let starts = header_rows(rows, count);
    start_below_is_within(starts, top, 0);
    start_above_is_within(starts, top, starts.len() as int);
    if let Some(current) = current {
        assert(0 <= (current + 1) % count < count) by (nonlinear_arith)
            requires
                count > 0,
        ;
        assert(0 <= (current + count - 1) % count < count) by (nonlinear_arith)
            requires
                count > 0,
        ;
    }
}

/// An answer to a question that has been overtaken is dropped, whichever way it
/// was: a comparison asked for again, the text having moved on, or another
/// base.
pub proof fn a_stale_comparison_is_dropped(
    diffing: Diffing,
    version: u64,
    serial: u64,
    against: Against,
)
    requires
        diffing.view is Some,
        serial != diffing.view->0.serial || version != diffing.view->0.version || against
            != diffing.view->0.against,
    ensures
        !diffing.awaits(version, serial, against),
{
}

/// Closing the view gives the keyboard back to the text, and takes it from
/// nothing else.
pub proof fn the_view_has_the_keyboard_only_in_its_pane(view: Viewing, focus: Focus, pane: usize)
    ensures
        Diffing::keyboard(view, focus, pane) == Focus::Diff ==> pane == view.pane,
        Diffing::keyboard(view, focus, pane) == Focus::Editor ==> pane != view.pane,
{
}

/// A change can be staged as it is where what is compared with the index has the
/// very same lines of the text in place of the very same old text.
pub proof fn a_change_is_staged_as_the_same_change(
    index: Diff,
    hunk: Hunk,
    old: Seq<char>,
    from: int,
)
    requires
        index.wf(),
        0 <= from <= index.hunks@.len(),
    ensures
        match staged_as(index, hunk, old, from) {
            Some(at) => {
                &&& from <= at < index.hunks@.len()
                &&& index.hunks@[at].after_start == hunk.after_start
                &&& index.hunks@[at].after_end == hunk.after_end
                &&& index.olds@[at]@ == old
            },
            None => forall|i: int|
                from <= i < index.hunks@.len() ==> (#[trigger] index.hunks@[i]).after_start
                    != hunk.after_start || index.hunks@[i].after_end != hunk.after_end
                    || index.olds@[i]@ != old,
        },
    decreases index.hunks@.len() - from,
{
    if from < index.hunks@.len() {
        let here = index.hunks@[from];
        if !(here.after_start == hunk.after_start && here.after_end == hunk.after_end
            && index.olds@[from]@ == old) {
            a_change_is_staged_as_the_same_change(index, hunk, old, from + 1);
        }
    }
}

/// Which changes can be staged is told change by change, and none can while there
/// is nothing from the index to tell by.
pub proof fn what_can_be_staged_is_told_by_the_index(diff: Diff, index: Diff, at: int)
    requires
        diff.wf(),
        index.wf(),
        0 <= at < diff.hunks@.len(),
    ensures
        stageable_of(diff, Some(index)).len() == diff.hunks@.len(),
        stageable_of(diff, None).len() == diff.hunks@.len(),
        !stageable_of(diff, None)[at],
        stageable_of(diff, Some(index))[at] <==> exists|i: int|
            0 <= i < index.hunks@.len() && (#[trigger] index.hunks@[i]).after_start
                == diff.hunks@[at].after_start && index.hunks@[i].after_end
                == diff.hunks@[at].after_end && index.olds@[i]@ == diff.olds@[at]@,
{
    a_change_is_staged_as_the_same_change(index, diff.hunks@[at], diff.olds@[at]@, 0);
    if let Some(i) = staged_as(index, diff.hunks@[at], diff.olds@[at]@, 0) {
        assert(index.hunks@[i].after_start == diff.hunks@[at].after_start);
    }
}

/// A change's header is the first row that is one and is of that change.
pub proof fn a_header_is_its_change_s_first(rows: Seq<DiffRow>, hunk: usize, from: int)
    requires
        0 <= from <= rows.len(),
    ensures
        match header_at(rows, hunk, from) {
            Some(at) => {
                &&& from <= at < rows.len()
                &&& rows[at].header && rows[at].hunk == Some(hunk)
                &&& forall|i: int|
                    from <= i < at ==> !(#[trigger] rows[i]).header || rows[i].hunk != Some(hunk)
            },
            None => forall|i: int|
                from <= i < rows.len() ==> !(#[trigger] rows[i]).header || rows[i].hunk
                    != Some(hunk),
        },
    decreases rows.len() - from,
{
    if from < rows.len() && !(rows[from].header && rows[from].hunk == Some(hunk)) {
        a_header_is_its_change_s_first(rows, hunk, from + 1);
    }
}

/// Stepping on from a change and back, round the ends, comes back to it, and every
/// step is to the change beside it.
pub proof fn stepping_on_and_back_stays(
    rows: Seq<DiffRow>,
    top: usize,
    count: int,
    at: usize,
)
    requires
        0 <= at < count <= usize::MAX,
    ensures
        ({
            let on = stepped(Some(at), rows, top, count, true);
            let back = stepped(Some(at), rows, top, count, false);
            &&& on == if at + 1 < count {
                at + 1
            } else {
                0
            }
            &&& back == if at > 0 {
                at - 1
            } else {
                count - 1
            }
            &&& stepped(Some(on as usize), rows, top, count, false) == at
            &&& stepped(Some(back as usize), rows, top, count, true) == at
        }),
{
    round(at as int, count);
    round(stepped(Some(at), rows, top, count, true), count);
    round(stepped(Some(at), rows, top, count, false), count);
}

proof fn round(at: int, count: int)
    requires
        0 <= at < count,
    ensures
        (at + 1) % count == if at + 1 < count {
            at + 1
        } else {
            0
        },
        (at + count - 1) % count == if at > 0 {
            at - 1
        } else {
            count - 1
        },
{
    if at + 1 < count {
        vstd::arithmetic::div_mod::lemma_small_mod((at + 1) as nat, count as nat);
    } else {
        vstd::arithmetic::div_mod::lemma_mod_self_0(count);
    }
    if at > 0 {
        vstd::arithmetic::div_mod::lemma_small_mod((at - 1) as nat, count as nat);
        vstd::arithmetic::div_mod::lemma_mod_add_multiples_vanish(at - 1, count);
        assert(at - 1 + count == at + count - 1);
    } else {
        vstd::arithmetic::div_mod::lemma_small_mod((count - 1) as nat, count as nat);
    }
}

/// With no change gone to yet, stepping on goes to the first whose header is at the
/// top of the view or below it, and stepping back to the last whose is above; round
/// to the first, or the last, where there is none. Each change has its header.
pub proof fn stepping_starts_from_what_is_in_view(
    rows: Seq<DiffRow>,
    top: usize,
    count: int,
    starts: Seq<usize>,
)
    requires
        0 < count <= usize::MAX,
        rows.len() <= usize::MAX,
        starts.len() == count,
        forall|i: int|
            0 <= i < count ==> header_at(rows, i as usize, 0) == Some((#[trigger] starts[i]) as int),
    ensures
        ({
            let on = stepped(None, rows, top, count, true);
            let back = stepped(None, rows, top, count, false);
            &&& 0 <= on < count
            &&& 0 <= back < count
            &&& (exists|i: int| 0 <= i < count && (#[trigger] starts[i]) >= top) ==> starts[on] >= top
                && forall|i: int| 0 <= i < on ==> (#[trigger] starts[i]) < top
            &&& (forall|i: int| 0 <= i < count ==> (#[trigger] starts[i]) < top) ==> on == 0
            &&& (exists|i: int| 0 <= i < count && (#[trigger] starts[i]) < top) ==> starts[back] < top
                && forall|i: int| back < i < count ==> (#[trigger] starts[i]) >= top
            &&& (forall|i: int| 0 <= i < count ==> (#[trigger] starts[i]) >= top) ==> back == count
                - 1
        }),
{
    headers_are(rows, starts, count);
    assert(header_rows(rows, count) =~= starts);
    first_below(starts, top, 0);
    last_above(starts, top, count);
}

proof fn headers_are(rows: Seq<DiffRow>, starts: Seq<usize>, count: int)
    requires
        0 <= count <= starts.len() <= usize::MAX,
        rows.len() <= usize::MAX,
        forall|i: int|
            0 <= i < starts.len() ==> header_at(rows, i as usize, 0) == Some(
                (#[trigger] starts[i]) as int,
            ),
    ensures
        header_rows(rows, count) == starts.take(count),
    decreases count,
{
    if count > 0 {
        headers_are(rows, starts, count - 1);
        assert(header_at(rows, (count - 1) as usize, 0) == Some(starts[count - 1] as int));
        assert(starts.take(count) =~= starts.take(count - 1).push(starts[count - 1]));
    } else {
        assert(starts.take(0) =~= Seq::empty());
    }
}

proof fn first_below(starts: Seq<usize>, top: usize, from: int)
    requires
        0 <= from <= starts.len(),
        forall|i: int| 0 <= i < from ==> (#[trigger] starts[i]) < top,
    ensures
        match start_below(starts, top, from) {
            Some(at) => from <= at < starts.len() && starts[at] >= top && forall|i: int|
                0 <= i < at ==> (#[trigger] starts[i]) < top,
            None => forall|i: int| 0 <= i < starts.len() ==> (#[trigger] starts[i]) < top,
        },
    decreases starts.len() - from,
{
    if from < starts.len() && starts[from] < top {
        first_below(starts, top, from + 1);
    }
}

proof fn last_above(starts: Seq<usize>, top: usize, count: int)
    requires
        0 <= count <= starts.len(),
        forall|i: int| count <= i < starts.len() ==> (#[trigger] starts[i]) >= top,
    ensures
        match start_above(starts, top, count) {
            Some(at) => 0 <= at < count && starts[at] < top && forall|i: int|
                at < i < starts.len() ==> (#[trigger] starts[i]) >= top,
            None => forall|i: int| 0 <= i < starts.len() ==> (#[trigger] starts[i]) >= top,
        },
    decreases count,
{
    if count > 0 && starts[count - 1] >= top {
        last_above(starts, top, count - 1);
    }
}

/// One change is the only one in view where a row in view is of it and none is of
/// another.
pub proof fn the_only_change_in_view_has_no_other_beside_it(
    rows: Seq<DiffRow>,
    from: int,
    to: int,
    hunk: usize,
)
    requires
        0 <= from <= to <= rows.len(),
    ensures
        only_hunk(rows, from, to) == Some(hunk) <==> {
            &&& exists|i: int| from <= i < to && (#[trigger] rows[i]).hunk == Some(hunk)
            &&& forall|i: int|
                from <= i < to ==> (#[trigger] rows[i]).hunk is None || rows[i].hunk == Some(hunk)
        },
    decreases to - from,
{
    if from < to {
        match rows[to - 1].hunk {
            None => {
                the_only_change_in_view_has_no_other_beside_it(rows, from, to - 1, hunk);
                if only_hunk(rows, from, to) == Some(hunk) {
                    let i = choose|i: int|
                        from <= i < to - 1 && (#[trigger] rows[i]).hunk == Some(hunk);
                    assert(rows[i].hunk == Some(hunk));
                }
            },
            Some(last) => {
                if last == hunk && none_but(rows, hunk, from, to - 1) {
                    assert(rows[to - 1].hunk == Some(hunk));
                    assert forall|i: int| from <= i < to implies (#[trigger] rows[i]).hunk is None
                        || rows[i].hunk == Some(hunk) by {}
                }
                if forall|i: int|
                    from <= i < to ==> (#[trigger] rows[i]).hunk is None || rows[i].hunk == Some(hunk) {
                    assert(rows[to - 1].hunk == Some(hunk));
                    assert(none_but(rows, hunk, from, to - 1));
                }
            },
        }
    }
}

/// The view never scrolls further than its last row at the bottom, and scrolls as
/// far as it is told up to that.
pub proof fn the_view_scrolls_no_further_than_its_last_row(scroll: int, rows: int, visible: int)
    requires
        0 <= scroll,
        0 <= rows,
        0 <= visible,
    ensures
        ({
            let to = clamped(scroll, rows, visible);
            &&& 0 <= to <= scroll
            &&& rows <= visible ==> to == 0
            &&& rows > visible ==> to + visible <= rows
            &&& scroll + visible <= rows ==> to == scroll
            &&& to < scroll && rows > visible ==> to + visible == rows
        }),
{
}

/// Scrolling down and then up as far comes back, and neither goes past an end.
pub proof fn scrolling_up_undoes_scrolling_down(scroll: int, rows: int)
    requires
        0 <= scroll <= usize::MAX,
        0 <= rows <= usize::MAX,
    ensures
        scroll + rows <= usize::MAX ==> Diffing::scrolled(scroll, true, rows) == scroll + rows
            && Diffing::scrolled(Diffing::scrolled(scroll, true, rows), false, rows) == scroll,
        0 <= Diffing::scrolled(scroll, false, rows) <= scroll <= Diffing::scrolled(scroll, true, rows)
            <= usize::MAX,
        scroll >= rows ==> Diffing::scrolled(scroll, false, rows) == scroll - rows,
        scroll < rows ==> Diffing::scrolled(scroll, false, rows) == 0,
{
}

/// A change gone to is in view, from its header on; one that was in view, all of it,
/// does not move the view; and one that was not has a quarter of the view above it,
/// or all there is.
pub proof fn a_change_gone_to_is_in_view(
    scroll: int,
    row: int,
    length: int,
    rows: int,
    visible: int,
)
    requires
        0 <= scroll,
        0 <= row < rows,
        0 <= length,
        0 < visible,
        scroll == 0 || scroll + visible <= rows,
    ensures
        ({
            let to = clamped(Diffing::scroll_for(scroll, row, length, visible), rows, visible);
            let whole = scroll <= row && row + 1 + length <= scroll + visible;
            &&& to <= row < to + visible
            &&& whole ==> to == scroll
            &&& !whole && row - visible / 4 + visible <= rows && row >= visible / 4 ==> to == row
                - visible / 4
            &&& !whole && row < visible / 4 ==> to == 0
        }),
{
    assert(0 <= visible / 4 < visible);
}

/// What is staged is the change named, or the one gone to, or the only one in view.
pub proof fn what_is_staged_is_named_gone_to_or_alone(
    view: Viewing,
    hunk: usize,
    visible: int,
)
    requires
        0 <= visible,
    ensures
        Diffing::staging(view, Some(hunk), visible) == Some(hunk),
        view.current is Some ==> Diffing::staging(view, None, visible) == view.current,
        view.current is None && view.scroll + visible <= view.rows().len() ==> Diffing::staging(
            view,
            None,
            visible,
        ) == only_hunk(view.rows(), view.scroll as int, view.scroll + visible),
        view.current is None && view.scroll <= view.rows().len() < view.scroll + visible
            ==> Diffing::staging(view, None, visible) == only_hunk(
            view.rows(),
            view.scroll as int,
            view.rows().len() as int,
        ),
        view.current is None && view.scroll > view.rows().len() ==> Diffing::staging(
            view,
            None,
            visible,
        ) is None,
{
}

/// The arrows scroll a row, the page keys what is in view, Home to the top and End as
/// far as may be; no other key scrolls.
pub proof fn few_keys_scroll_the_view(view: Viewing, code: KeyCode, visible: int)
    requires
        0 <= visible,
        view.scroll + visible < usize::MAX,
    ensures
        ({
            let scroll = view.scroll as int;
            match Diffing::keyed(view, code, visible) {
                Some(to) => {
                    &&& code is Up ==> to == if scroll > 0 {
                        scroll - 1
                    } else {
                        0
                    }
                    &&& code is Down ==> to == scroll + 1
                    &&& code is PageUp ==> to == if scroll >= visible {
                        scroll - visible
                    } else {
                        0
                    }
                    &&& code is PageDown ==> to == scroll + visible
                    &&& code is Home ==> to == 0
                    &&& code is End ==> to == usize::MAX
                    &&& code is Up || code is Down || code is PageUp || code is PageDown
                        || code is Home || code is End
                },
                None => !(code is Up || code is Down || code is PageUp || code is PageDown
                    || code is Home || code is End),
            }
        }),
{
}

/// Enter goes to the header of the change gone to, and where none was, to the row at
/// the top.
pub proof fn enter_goes_to_the_change_gone_to(view: Viewing, drawn: Drawn)
    requires
        view.shown == Shown::Diff(drawn),
    ensures
        view.current is None ==> Diffing::enter_row(view) == view.scroll,
        view.current matches Some(current) ==> match header_at(drawn.rows@, current, 0) {
            Some(row) => Diffing::enter_row(view) == row,
            None => Diffing::enter_row(view) == view.scroll,
        },
{
}

/// A row gone to lands at the start of its line, or of the last there is, with no
/// more than a third of the view above it.
pub proof fn a_row_lands_at_the_start_of_its_line(text: Seq<char>, line: u32, height: usize)
    ensures
        ({
            let (at, top) = lands(text, line, height);
            &&& line <= breaks(text) ==> at == line_start(text, line as int)
            &&& line > breaks(text) ==> at == line_start(text, breaks(text) as int)
            &&& 0 <= top
            &&& line <= breaks(text) && line >= height / 3 ==> top == line - height / 3
            &&& line <= breaks(text) && line < height / 3 ==> top == 0
            &&& line > breaks(text) ==> top <= breaks(text) <= top + height / 3
        }),
{
}

/// Each spot of the view is pressed where it is drawn, and only its buttons answer
/// the pointer resting on them.
pub proof fn only_buttons_answer_the_pointer(spots: Seq<(Rect, Spot)>, at: int)
    requires
        0 <= at < spots.len() <= usize::MAX,
    ensures
        spot_hits(spots).len() == spots.len(),
        spot_hits(spots)[at].area == spots[at].0,
        spot_hits(spots)[at].target == Target::Diff(at as usize),
        !spot_hits(spots)[at].hover <==> spots[at].1 is Row || spots[at].1 is Header
            || spots[at].1 is Empty,
{
}

/// What is kept of the index is of use only for the version of the text it was compared
/// with.
pub proof fn the_index_is_of_its_own_version(view: Viewing, version: u64)
    ensures
        view.index_for(view.version) == view.index,
        version != view.version ==> view.index_for(version) is None,
{
}

/// A comparison that says what is on screen is not drawn again; one of another version of
/// the text, or with other changes, or against something else, is.
pub proof fn a_comparison_is_drawn_where_it_says_something_new(
    view: Viewing,
    drawn: Drawn,
    version: u64,
    diff: Diff,
)
    requires
        view.shown == Shown::Diff(drawn),
    ensures
        Diffing::shows(view, version, diff) <==> drawn.version == version && drawn.diff.base@
            == diff.base@ && drawn.diff.hunks@ == diff.hunks@,
        Diffing::rebased(view, diff) <==> drawn.diff.base@ != diff.base@,
{
}

/// Before anything has been shown, everything is new.
pub proof fn the_first_comparison_is_drawn(view: Viewing, version: u64, diff: Diff)
    requires
        !(view.shown is Diff),
    ensures
        !Diffing::shows(view, version, diff),
        Diffing::rebased(view, diff),
        view.rows().len() == 0,
        view.top() is None,
{
}

/// Opening the view, or comparing again, asks under a number never used before; what is
/// showing already is put away instead, and a file with no history says why it has none.
pub proof fn a_comparison_has_a_number_of_its_own(
    before: Diffing,
    after: Diffing,
    pane: usize,
    doc: usize,
    spelled: Option<String>,
    git: bool,
    text: Seq<char>,
    toggle: Toggle,
    again: Diffing,
    ask: Option<(u64, Against)>,
)
    requires
        before.wf(),
        before.serials < u64::MAX,
        before.versions < u64::MAX,
        before.toggled(after, pane, doc, spelled, git, text, toggle),
        before.compared_again(again, ask),
    ensures
        ({
            let showing = before.view matches Some(view) && view.pane == pane && view.doc == doc;
            &&& showing <==> toggle is Close
            &&& !showing && (spelled is None || !git) <==> toggle is Say
            &&& toggle matches Toggle::Open(version, serial) ==> {
                &&& version > before.versions && serial > before.serials
                &&& after.view matches Some(view) && view.serial == serial && view.version == version
                    && view.pane == pane && view.doc == doc && view.against is Index
                    && rope_text(view.sent) == text
            }
            &&& !(toggle is Open) ==> after == before
        }),
        before.view is None <==> ask is None,
        ask matches Some((serial, against)) ==> {
            &&& serial > before.serials
            &&& against == before.view->0.against
            &&& again.view matches Some(view) && view.serial == serial && view.version
                == before.view->0.version
        },
{
}

/// The view has the keyboard of the text in its own pane, and gives it back in any
/// other; what has the keyboard besides those two keeps it.
pub proof fn only_the_text_and_the_view_trade_the_keyboard(view: Viewing, focus: Focus, pane: usize)
    ensures
        focus is Editor ==> (Diffing::keyboard(view, focus, pane) is Diff <==> pane == view.pane),
        focus is Diff ==> (Diffing::keyboard(view, focus, pane) is Editor <==> pane != view.pane),
        !(focus is Editor) && !(focus is Diff) ==> Diffing::keyboard(view, focus, pane) == focus,
        (focus is Editor || focus is Diff) ==> Diffing::keyboard(view, focus, pane) is Editor
            || Diffing::keyboard(view, focus, pane) is Diff,
{
}

} // verus!
