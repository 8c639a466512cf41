//! Git in the gutter: a bar beside every line that differs from what is
//! staged, and a column of the rail showing where in the file the changes are.
//!
//! The changes are worked out elsewhere, always against the text as it stands,
//! so unsaved edits are marked too. Each edit is sent once the typing pauses,
//! not with every keystroke; until the answer comes the marks already drawn
//! stay where they were.
//!
//! A change is acted on from its card or with a key. Either way it is found
//! again among the changes of the text as it is now, so a revert puts back
//! exactly that change and nothing the text has moved on to since.

use ropey::Rope;
use vstd::prelude::*;

use crate::body::{line_of, paragraphs, paragraphs_push, runs, Paragraph, Run, RunModel};
use crate::commands::Command;
use crate::geometry::Rect;
use crate::outcome::Outcome;
use crate::reply::Reply;
use crate::rope::{
    a_line_starts_where_it_is_first_reached, breaks, char_at, from_str, len_chars, len_lines,
    line_start, line_to_char, rope_text, slice,
};
use crate::text::{decimal, decimal_of, join, join3};

verus! {

/// How long the typing has to pause before git is sent the text, in
/// milliseconds.
pub const SETTLE: u64 = 150;

/// The longest the marks lag behind typing that does not pause.
pub const MOST_LAG: u64 = 1000;

/// The most lines of a change's old text a card shows. The card scrolls, but
/// a removal of a whole file is not read in one.
pub const MOST_OLD_LINES: usize = 200;

/// A time held to the last one that can be named.
pub open spec fn held_time(at: int) -> int {
    if at > u64::MAX {
        u64::MAX as int
    } else {
        at
    }
}

// ── a change ────────────────────────────────────────────────────────────────

/// A change: the lines it took out of the old text, and the lines it put into
/// the new one.
#[derive(Debug, Clone, Copy, PartialEq, Eq, Structural)]
pub struct Hunk {
    /// The first line it took out.
    pub before_start: u32,
    /// The line after the last it took out.
    pub before_end: u32,
    /// The first line it put in, or where it would have.
    pub after_start: u32,
    /// The line after the last it put in.
    pub after_end: u32,
}

/// What a change did.
#[derive(Debug, Clone, Copy, PartialEq, Eq, Structural)]
pub enum HunkKind {
    /// Put lines in.
    Added,
    /// Put lines in place of others.
    Modified,
    /// Took lines out.
    Removed,
}

/// How a change is marked.
#[derive(Debug, Clone, Copy, PartialEq, Eq, Structural)]
pub enum Change {
    /// Lines that were put in.
    Added,
    /// Lines that were changed.
    Modified,
    /// Lines taken out above this one.
    RemovedAbove,
    /// Lines taken out below this one.
    RemovedBelow,
}

impl Hunk {
    /// What it did.
    pub open spec fn spec_kind(self) -> HunkKind {
        if self.before_start >= self.before_end {
            HunkKind::Added
        } else if self.after_start >= self.after_end {
            HunkKind::Removed
        } else {
            HunkKind::Modified
        }
    }

    /// How it is marked in a text of `lines` lines: a removal at the very end
    /// has no line below it to be marked above.
    pub open spec fn change(self, lines: u32) -> Change {
        match self.spec_kind() {
            HunkKind::Added => Change::Added,
            HunkKind::Modified => Change::Modified,
            HunkKind::Removed => if self.after_start >= lines && lines > 0 {
                Change::RemovedBelow
            } else {
                Change::RemovedAbove
            },
        }
    }

    /// The lines it is marked on in a text of `lines` lines: its own, or for a
    /// removal the one line it is shown on.
    pub open spec fn marked(self, lines: u32) -> (int, int) {
        if self.after_start >= self.after_end {
            let at = if self.after_start < lines {
                self.after_start as int
            } else if lines > 0 {
                lines - 1
            } else {
                0
            };
            (at, at + 1)
        } else {
            (self.after_start as int, self.after_end as int)
        }
    }

    /// Whether it is marked on `line` of a text of `lines` lines.
    pub open spec fn is_on(self, line: int, lines: u32) -> bool {
        self.marked(lines).0 <= line < self.marked(lines).1
    }

    /// What it did.
    pub fn kind(self) -> (kind: HunkKind)
        ensures
            kind == self.spec_kind(),
    {
        if self.before_start >= self.before_end {
            HunkKind::Added
        } else if self.after_start >= self.after_end {
            HunkKind::Removed
        } else {
            HunkKind::Modified
        }
    }
}

/// How `hunk` is marked in a text of `lines` lines.
pub fn change_of(hunk: &Hunk, lines: u32) -> (change: Change)
    ensures
        change == hunk.change(lines),
{
    match hunk.kind() {
        HunkKind::Added => Change::Added,
        HunkKind::Modified => Change::Modified,
        HunkKind::Removed => if hunk.after_start >= lines && lines > 0 {
            Change::RemovedBelow
        } else {
            Change::RemovedAbove
        },
    }
}

/// The lines a change is marked on in a text of `lines` lines: its own, or for
/// a removal the one line it is shown on.
pub fn marked_lines(hunk: &Hunk, lines: u32) -> (range: (usize, usize))
    ensures
        (range.0 as int, range.1 as int) == hunk.marked(lines),
{
    if hunk.after_start >= hunk.after_end {
        let at: u32 = if hunk.after_start < lines {
            hunk.after_start
        } else {
            lines.saturating_sub(1)
        };
        (at as usize, at as usize + 1)
    } else {
        (hunk.after_start as usize, hunk.after_end as usize)
    }
}

/// Every change is marked somewhere, on a line of the text where it has one.
pub proof fn a_change_is_marked_on_a_line_there_is(hunk: Hunk, lines: u32)
    requires
        hunk.after_end <= lines,
        lines > 0,
    ensures
        0 <= hunk.marked(lines).0 < hunk.marked(lines).1 <= lines,
{
}

/// How many lines a text has, counted as git counts them: a final line feed
/// ends a line rather than starting one.
pub open spec fn git_lines_of(text: Seq<char>) -> nat {
    if text.len() == 0 || text.last() == '\n' {
        breaks(text)
    } else {
        breaks(text) + 1
    }
}

/// How many lines a text has, counted as git counts them: a final line feed
/// ends a line rather than starting one.
pub fn git_lines(rope: &Rope) -> (lines: u32)
    ensures
        lines == if git_lines_of(rope_text(*rope)) > u32::MAX {
            u32::MAX as nat
        } else {
            git_lines_of(rope_text(*rope))
        },
{
    let len: usize = len_chars(rope);
    let count: usize = len_lines(rope);
    let ended = len == 0 || char_at(rope, len - 1) == '\n';
    let lines: usize = if ended {
        count - 1
    } else {
        count
    };
    if lines > u32::MAX as usize {
        u32::MAX
    } else {
        lines as u32
    }
}

/// Lines `start` up to `end` as a person reads them.
pub open spec fn place_words(start: nat, end: nat) -> Seq<char> {
    if end <= start + 1 {
        "line "@ + decimal_of(start + 1)
    } else {
        "lines "@ + decimal_of(start + 1) + "–"@ + decimal_of(end)
    }
}

/// Lines `start` up to `end` as a person reads them.
pub fn place(start: usize, end: usize) -> (words: String)
    requires
        start < usize::MAX,
    ensures
        words@ == place_words(start as nat, end as nat),
{
    if end <= start + 1 {
        join("line ", decimal(start + 1).as_str())
    } else {
        let mut words = join3("lines ", decimal(start + 1).as_str(), "–");
        words.append(decimal(end).as_str());
        words
    }
}

/// `count` lines, in words.
pub open spec fn lines_words(count: nat) -> Seq<char> {
    if count == 1 {
        "1 line"@
    } else {
        decimal_of(count) + " lines"@
    }
}

/// `count` lines, in words.
pub fn lines_word(count: usize) -> (words: String)
    ensures
        words@ == lines_words(count as nat),
{
    if count == 1 {
        "1 line".to_owned()
    } else {
        join(decimal(count).as_str(), " lines")
    }
}

// ── following documents ─────────────────────────────────────────────────────

/// One document git is following.
#[derive(Debug, Clone, Copy)]
pub struct Followed {
    /// Which document.
    pub doc: usize,
    /// The version of its text last sent.
    pub sent: u64,
    /// The text's revision when it was.
    pub revision: u64,
    /// The revision last seen, which may not have been sent yet.
    pub seen: u64,
    /// When the text first changed without being sent, and when it last did.
    pub unsent: Option<(u64, u64)>,
    /// Which version of the text the latest changes describe.
    pub version: u64,
    /// Whether git has anything to compare the text with.
    pub compared: bool,
}

/// What to do with an answer about a document's changes.
#[derive(Debug, Clone, Copy, PartialEq, Eq, Structural)]
pub enum HunksStep {
    /// Leave what is shown as it is.
    Ignore,
    /// Show these, if they differ from what is shown.
    Take,
}

/// Where the changes of a text as it is now come from.
#[derive(Debug, Clone, Copy, PartialEq, Eq, Structural)]
pub enum Source {
    /// Git does not follow the file.
    Nowhere,
    /// Git's latest answer is about the text on screen.
    Latest,
    /// They are to be worked out here, against the same base.
    Fresh,
}

impl Followed {
    /// When the text should be sent, if it has changed: once the typing has
    /// paused, and not too long after it started however it goes on.
    pub open spec fn due_at(self) -> Option<int> {
        match self.unsent {
            Some((first, last)) => {
                let settled = held_time(last + SETTLE);
                let latest = held_time(first + MOST_LAG);
                Some(
                    if settled <= latest {
                        settled
                    } else {
                        latest
                    },
                )
            },
            None => None,
        }
    }

    /// When the text should be sent, if it has changed.
    pub fn due(&self) -> (due: Option<u64>)
        ensures
            match due {
                Some(at) => self.due_at() == Some(at as int),
                None => self.due_at() is None,
            },
    {
        match self.unsent {
            Some((first, last)) => {
                let settled: u64 = last.saturating_add(SETTLE);
                let latest: u64 = first.saturating_add(MOST_LAG);
                Some(
                    if settled <= latest {
                        settled
                    } else {
                        latest
                    },
                )
            },
            None => None,
        }
    }

    /// A document git starts following, before anything of it has been sent.
    pub fn new(doc: usize) -> (followed: Self)
        ensures
            followed == (Followed {
                doc,
                sent: 0,
                revision: 0,
                seen: 0,
                unsent: None,
                version: 0,
                compared: false,
            }),
    {
        Followed { doc, sent: 0, revision: 0, seen: 0, unsent: None, version: 0, compared: false }
    }

    /// What is followed once the document is followed afresh, at `revision`.
    pub open spec fn opened_at(self, revision: u64) -> Self {
        Followed {
            sent: (self.sent + 1) as u64,
            revision,
            seen: revision,
            unsent: None,
            ..self
        }
    }

    /// What is followed once the document was seen at `revision`, at `now`.
    pub open spec fn noticed(self, revision: u64, now: u64) -> Self {
        if revision == self.seen {
            self
        } else {
            let first = match self.unsent {
                Some((first, _)) => first,
                None => now,
            };
            Followed { seen: revision, unsent: Some((first, now)), ..self }
        }
    }

    /// What is followed once the text was sent, at `revision`, if it had
    /// changed since it was last sent.
    pub open spec fn sent_at(self, revision: u64) -> Self {
        if revision == self.revision {
            Followed { seen: revision, unsent: None, ..self }
        } else {
            self.opened_at(revision)
        }
    }

    /// Follow it afresh, at `revision`: it arrived, was reloaded, or was saved
    /// under another name. What was marked stays until git answers about the
    /// new text, so nothing jumps meanwhile. The version its text goes out as.
    pub fn open(&mut self, revision: u64) -> (version: u64)
        requires
            old(self).sent < u64::MAX,
        ensures
            *final(self) == old(self).opened_at(revision),
            version == final(self).sent,
    {
        self.sent = self.sent + 1;
        self.revision = revision;
        self.seen = revision;
        self.unsent = None;
        self.sent
    }

    /// Notice what an event did: text that changed is sent once the typing
    /// pauses.
    pub fn notice(&mut self, revision: u64, now: u64)
        ensures
            *final(self) == old(self).noticed(revision, now),
    {
        if revision != self.seen {
            self.seen = revision;
            let first: u64 = match self.unsent {
                Some((first, _)) => first,
                None => now,
            };
            self.unsent = Some((first, now));
        }
    }

    /// The text, at `revision`, is to be sent now, if it has changed since it
    /// was last sent. The version it goes out as, when it does.
    pub fn send(&mut self, revision: u64) -> (version: Option<u64>)
        requires
            old(self).sent < u64::MAX,
        ensures
            *final(self) == old(self).sent_at(revision),
            version == if revision == old(self).revision {
                None
            } else {
                Some(final(self).sent)
            },
    {
        self.unsent = None;
        self.seen = revision;
        if revision == self.revision {
            return None;
        }
        self.sent = self.sent + 1;
        self.revision = revision;
        Some(self.sent)
    }

    /// What is followed once git's changes for `version` of the text came. An
    /// answer about a text older than the one shown, or from before a reopen
    /// that has not been answered yet, is left alone.
    pub open spec fn with_hunks(self, version: u64, compared: bool) -> Self {
        if version < self.version || version > self.sent {
            self
        } else {
            Followed { version, compared, ..self }
        }
    }

    /// Git's changes for `version` of the text came; `compared` is whether it
    /// had anything to compare it with. An answer about a text older than the
    /// one shown, or from before a reopen that has not been answered yet, is
    /// left alone.
    pub fn hunks(&mut self, version: u64, compared: bool) -> (step: HunksStep)
        ensures
            *final(self) == old(self).with_hunks(version, compared),
            step == if version < old(self).version || version > old(self).sent {
                HunksStep::Ignore
            } else {
                HunksStep::Take
            },
    {
        if version < self.version || version > self.sent {
            return HunksStep::Ignore;
        }
        self.version = version;
        self.compared = compared;
        HunksStep::Take
    }

    /// Where the changes of the text as it is now come from: git's latest
    /// answer when it is about the text last sent, or else worked out here
    /// against the same base.
    pub fn current(&mut self) -> (source: Source)
        ensures
            !old(self).compared ==> source == Source::Nowhere && *final(self) == *old(self),
            old(self).compared && old(self).version == old(self).sent ==> source == Source::Latest
                && *final(self) == *old(self),
            old(self).compared && old(self).version != old(self).sent ==> source == Source::Fresh
                && *final(self) == (Followed { version: old(self).sent, ..*old(self) }),
    {
        if !self.compared {
            Source::Nowhere
        } else if self.version == self.sent {
            Source::Latest
        } else {
            self.version = self.sent;
            Source::Fresh
        }
    }
}

/// The text is never sent before the typing pauses unless it has gone on too
/// long, and never later than that.
pub proof fn the_text_goes_once_the_typing_pauses(followed: Followed, first: u64, last: u64)
    requires
        followed.unsent == Some((first, last)),
        first <= last,
        last + SETTLE <= u64::MAX,
        first + MOST_LAG <= u64::MAX,
    ensures
        followed.due_at() matches Some(due) && due <= last + SETTLE && due <= first + MOST_LAG && (
        due == last + SETTLE || due == first + MOST_LAG) && due > first,
{
}

/// An older answer never takes the place of a newer one, in whichever order
/// they come: the version shown only ever goes up, and never past what was
/// sent.
pub proof fn an_older_answer_never_takes_the_place_of_a_newer(
    before: Followed,
    a: u64,
    b: u64,
    compared: bool,
)
    requires
        before.version <= a <= b <= before.sent,
    ensures
        before.version <= before.with_hunks(a, compared).version <= before.sent,
        before.with_hunks(a, compared).with_hunks(b, compared).version == b,
        before.with_hunks(b, compared).with_hunks(a, compared).version == b,
{
}

/// When the earliest of `docs` is due.
pub open spec fn earliest_due(docs: Seq<Followed>) -> Option<int>
    decreases docs.len(),
{
    if docs.len() == 0 {
        None
    } else {
        sooner(earliest_due(docs.drop_last()), docs.last().due_at())
    }
}

/// The sooner of two times, either of which there may not be.
pub open spec fn sooner(a: Option<int>, b: Option<int>) -> Option<int> {
    match (a, b) {
        (Some(x), Some(y)) => Some(
            if x <= y {
                x
            } else {
                y
            },
        ),
        (Some(x), None) => Some(x),
        (None, b) => b,
    }
}

/// When the next document's text is due to be sent.
pub fn vcs_deadline(docs: &Vec<Followed>) -> (deadline: Option<u64>)
    ensures
        match deadline {
            Some(at) => earliest_due(docs@) == Some(at as int),
            None => earliest_due(docs@) is None,
        },
{
    let mut deadline: Option<u64> = None;
    let mut i: usize = 0;
    assert(docs@.take(0) =~= Seq::empty());
    while i < docs.len()
        invariant
            i <= docs@.len(),
            match deadline {
                Some(at) => earliest_due(docs@.take(i as int)) == Some(at as int),
                None => earliest_due(docs@.take(i as int)) is None,
            },
        decreases docs@.len() - i,
    {
        let due = docs[i].due();
        assert(docs@.take(i + 1).drop_last() =~= docs@.take(i as int));
        deadline =
        match (deadline, due) {
            (Some(x), Some(y)) => Some(
                if x <= y {
                    x
                } else {
                    y
                },
            ),
            (Some(x), None) => Some(x),
            (None, due) => due,
        };
        i = i + 1;
    }
    assert(docs@.take(docs@.len() as int) =~= docs@);
    deadline
}

/// Whether `followed` is due by `now`.
pub open spec fn is_due(followed: Followed, now: u64) -> bool {
    followed.due_at() matches Some(at) && at <= now
}

/// The documents whose typing has paused by `now`, among the first `count`.
pub open spec fn due_docs(docs: Seq<Followed>, now: u64, count: int) -> Seq<usize>
    decreases count,
{
    if count <= 0 {
        Seq::empty()
    } else if is_due(docs[count - 1], now) {
        due_docs(docs, now, count - 1).push(docs[count - 1].doc)
    } else {
        due_docs(docs, now, count - 1)
    }
}

/// The documents whose typing has paused by `now`, whose text is to be sent.
pub fn vcs_tick(docs: &Vec<Followed>, now: u64) -> (due: Vec<usize>)
    ensures
        due@ == due_docs(docs@, now, docs@.len() as int),
{
    let mut due: Vec<usize> = Vec::new();
    let mut i: usize = 0;
    while i < docs.len()
        invariant
            i <= docs@.len(),
            due@ == due_docs(docs@, now, i as int),
        decreases docs@.len() - i,
    {
        if let Some(at) = docs[i].due() {
            if at <= now {
                due.push(docs[i].doc);
            }
        }
        i = i + 1;
    }
    due
}

/// Whether git is to look again: the keyboard has just come back from the
/// terminal, where a commit or an add may have happened. `was` is whether it was
/// there.
pub fn left_terminal(was: &mut bool, in_terminal: bool) -> (left: bool)
    ensures
        left == (*old(was) && !in_terminal),
        *final(was) == in_terminal,
{
    let left = *was && !in_terminal;
    *was = in_terminal;
    left
}

/// What staging a change came to.
pub fn vcs_staged(result: Result<(), String>) -> (reply: Reply)
    ensures
        reply.outcome == Outcome::Redraw,
        reply.cancel@.len() == 0,
        reply.says() == Some(
            match result {
                Ok(()) => "Staged."@,
                Err(why) => "Could not stage that: "@ + why@,
            },
        ),
{
    match result {
        Ok(()) => Reply::saying("Staged.".to_owned()),
        Err(why) => Reply::saying(join("Could not stage that: ", why.as_str())),
    }
}

/// Split a pane's text area into the text, the changes' column of the rail,
/// and the diagnostics' column, each only where there is one. The diagnostics
/// keep the right edge; the changes go just inside them.
pub open spec fn rails_in(text: Rect, gutter: u16, problems: bool, changes: bool) -> (
    Rect,
    Option<Rect>,
    Option<Rect>,
) {
    let (inner, rail) = carved(text, gutter, problems);
    let (inner, column) = carved(inner, gutter, changes);
    (inner, column, rail)
}

/// `text` with its last column taken, where that is `wanted` and there is room
/// for it beside the gutter.
pub open spec fn carved(text: Rect, gutter: u16, wanted: bool) -> (Rect, Option<Rect>) {
    if wanted && text.width > gutter + 2 {
        (
            Rect { width: (text.width - 1) as u16, ..text },
            Some(Rect { x: (text.x + text.width - 1) as u16, width: 1, ..text }),
        )
    } else {
        (text, None)
    }
}

fn carve(text: Rect, gutter: u16, wanted: bool) -> (parts: (Rect, Option<Rect>))
    requires
        text.on_screen(),
    ensures
        parts == carved(text, gutter, wanted),
        parts.0.on_screen(),
{
    if !wanted || text.width <= gutter.saturating_add(2) {
        return (text, None);
    }
    let inner = Rect { x: text.x, y: text.y, width: text.width - 1, height: text.height };
    let column = Rect { x: inner.right(), y: text.y, width: 1, height: text.height };
    (inner, Some(column))
}

/// Split a pane's text area into the text, the changes' column of the rail,
/// and the diagnostics' column, each only where there is one. The diagnostics
/// keep the right edge; the changes go just inside them.
pub fn rails_of(text: Rect, gutter: u16, problems: bool, changes: bool) -> (parts: (
    Rect,
    Option<Rect>,
    Option<Rect>,
))
    requires
        text.on_screen(),
    ensures
        parts == rails_in(text, gutter, problems, changes),
{
    let (inner, rail) = carve(text, gutter, problems);
    let (inner, column) = carve(inner, gutter, changes);
    (inner, column, rail)
}

// ── marks in view ───────────────────────────────────────────────────────────

/// The marks of the lines of `hunk` from `line` up to `end`, in view of lines
/// `from` up to `to`.
pub open spec fn marks_between(change: Change, line: int, end: int, from: int, to: int) -> Seq<
    (usize, Change),
>
    decreases end - line,
{
    if line >= end {
        Seq::empty()
    } else if from <= line < to {
        seq![(line as usize, change)] + marks_between(change, line + 1, end, from, to)
    } else {
        marks_between(change, line + 1, end, from, to)
    }
}

/// The marks of the first `count` of `hunks` in view of lines `from` up to
/// `to`.
pub open spec fn marks_of(hunks: Seq<Hunk>, lines: u32, from: int, to: int, count: int) -> Seq<
    (usize, Change),
>
    decreases count,
{
    if count <= 0 {
        Seq::empty()
    } else {
        let hunk = hunks[count - 1];
        marks_of(hunks, lines, from, to, count - 1) + marks_between(
            hunk.change(lines),
            hunk.marked(lines).0,
            hunk.marked(lines).1,
            from,
            to,
        )
    }
}

/// The gutter's marks for lines `from` up to `to` of a text of `lines` lines.
pub fn change_marks(hunks: &Vec<Hunk>, lines: u32, from: usize, to: usize) -> (marks: Vec<
    (usize, Change),
>)
    ensures
        marks@ == marks_of(hunks@, lines, from as int, to as int, hunks@.len() as int),
{
    let mut marks: Vec<(usize, Change)> = Vec::new();
    let mut i: usize = 0;
    while i < hunks.len()
        invariant
            i <= hunks@.len(),
            marks@ == marks_of(hunks@, lines, from as int, to as int, i as int),
        decreases hunks@.len() - i,
    {
        let change = change_of(&hunks[i], lines);
        let (start, end) = marked_lines(&hunks[i], lines);
        let ghost goal = marks_of(hunks@, lines, from as int, to as int, i + 1);
        let mut line: usize = start;
        assert(goal == marks@ + marks_between(
            change,
            line as int,
            end as int,
            from as int,
            to as int,
        ));
        while line < end
            invariant
                goal == marks@ + marks_between(
                    change,
                    line as int,
                    end as int,
                    from as int,
                    to as int,
                ),
            decreases end - line,
        {
            let ghost before = marks@;
            let ghost rest = marks_between(
                change,
                line + 1,
                end as int,
                from as int,
                to as int,
            );
            if from <= line && line < to {
                marks.push((line, change));
                assert(before + (seq![(line, change)] + rest) =~= marks@ + rest);
            }
            line = line + 1;
        }
        assert(marks@ + Seq::<(usize, Change)>::empty() =~= marks@);
        i = i + 1;
    }
    marks
}

/// The first of `hunks`, from the `from`th on, marked on `line`.
pub open spec fn hunk_on(hunks: Seq<Hunk>, lines: u32, line: int, from: int) -> Option<int>
    decreases hunks.len() - from,
{
    if from < 0 || from >= hunks.len() {
        None
    } else if hunks[from].is_on(line, lines) {
        Some(from)
    } else {
        hunk_on(hunks, lines, line, from + 1)
    }
}

/// The change marked on `line`.
pub fn hunk_index_at(hunks: &Vec<Hunk>, lines: u32, line: usize) -> (index: Option<usize>)
    ensures
        match index {
            Some(index) => index < hunks@.len() && hunk_on(hunks@, lines, line as int, 0) == Some(
                index as int,
            ),
            None => hunk_on(hunks@, lines, line as int, 0) is None,
        },
{
    let mut i: usize = 0;
    while i < hunks.len()
        invariant
            i <= hunks@.len(),
            hunk_on(hunks@, lines, line as int, 0) == hunk_on(hunks@, lines, line as int, i as int),
        decreases hunks@.len() - i,
    {
        let (start, end) = marked_lines(&hunks[i], lines);
        if start <= line && line < end {
            return Some(i);
        }
        i = i + 1;
    }
    None
}

// ── what a card says ────────────────────────────────────────────────────────

/// What a card says a change did, in a text of `lines` lines.
pub open spec fn what_of(hunk: Hunk, lines: u32) -> Seq<char> {
    let place = place_words(hunk.marked(lines).0 as nat, hunk.marked(lines).1 as nat);
    match hunk.spec_kind() {
        HunkKind::Added => "Added "@ + place,
        HunkKind::Modified => "Changed "@ + place + ". It was:"@,
        HunkKind::Removed => "Removed "@ + lines_words(
            (hunk.before_end - hunk.before_start) as nat,
        ) + (if hunk.change(lines) is RemovedBelow {
            " below "@
        } else {
            " above "@
        }) + place + ":"@,
    }
}

/// As much of a change's old text as a card shows, without the line feed that
/// ends it.
pub open spec fn old_shown(old: Seq<char>) -> Seq<char> {
    let shown = old.take(line_start(old, MOST_OLD_LINES as int));
    if shown.len() > 0 && shown.last() == '\n' {
        shown.drop_last()
    } else {
        shown
    }
}

/// What a card about a change says: what it did, and the lines it replaced.
pub open spec fn hunk_paragraphs(hunk: Hunk, lines: u32, old: Seq<char>) -> Seq<Seq<RunModel>> {
    let top = seq![
        seq![RunModel::Change(hunk.change(lines)), RunModel::Text(what_of(hunk, lines))],
    ];
    if hunk.before_start >= hunk.before_end {
        top
    } else {
        let body = top.push(Seq::empty()).push(seq![RunModel::Old(old_shown(old))]);
        let more = git_lines_of(old) - MOST_OLD_LINES;
        if more > 0 {
            body.push(seq![RunModel::Dim("…and "@ + lines_words(more as nat) + " more"@)])
        } else {
            body
        }
    }
}

fn what(hunk: &Hunk, lines: u32) -> (words: String)
    ensures
        words@ == what_of(*hunk, lines),
{
    let (start, end) = marked_lines(hunk, lines);
    let place = place(start, end);
    match hunk.kind() {
        HunkKind::Added => join("Added ", place.as_str()),
        HunkKind::Modified => join3("Changed ", place.as_str(), ". It was:"),
        HunkKind::Removed => {
            let was: u32 = hunk.before_end - hunk.before_start;
            let side = match change_of(hunk, lines) {
                Change::RemovedBelow => " below ",
                _ => " above ",
            };
            let mut words = join3("Removed ", lines_word(was as usize).as_str(), side);
            words.append(place.as_str());
            words.append(":");
            words
        },
    }
}

/// What a card about `hunk` says, in a text of `lines` lines: what it did, and
/// the lines it replaced, which `old` holds.
pub fn hunk_body(hunk: &Hunk, lines: u32, old: &str) -> (body: Vec<Paragraph>)
    ensures
        paragraphs(body@) == hunk_paragraphs(*hunk, lines, old@),
{
    let mut body: Vec<Paragraph> = Vec::new();
    let mut top: Paragraph = Vec::new();
    top.push(Run::Change(change_of(hunk, lines)));
    top.push(Run::Text(what(hunk, lines)));
    proof {
        assert(runs(top) =~= seq![
            RunModel::Change(hunk.change(lines)),
            RunModel::Text(what_of(*hunk, lines)),
        ]);
        paragraphs_push(body@, top);
        assert(paragraphs(body@) =~= Seq::empty());
    }
    body.push(top);
    if hunk.before_start >= hunk.before_end {
        return body;
    }
    let rope = from_str(old);
    let count: usize = len_lines(&rope);
    let cut: usize = if MOST_OLD_LINES <= count {
        line_to_char(&rope, MOST_OLD_LINES)
    } else {
        proof {
            past_the_last_line(old@, MOST_OLD_LINES as int);
        }
        len_chars(&rope)
    };
    proof {
        if MOST_OLD_LINES <= count {
            a_line_starts_where_it_is_first_reached(old@, MOST_OLD_LINES as int);
        }
        assert(cut == line_start(old@, MOST_OLD_LINES as int));
    }
    let end: usize = if cut > 0 && char_at(&rope, cut - 1) == '\n' {
        cut - 1
    } else {
        cut
    };
    let shown = slice(&rope, 0, end);
    assert(shown@ =~= old_shown(old@));
    let gap: Paragraph = Vec::new();
    proof {
        assert(runs(gap) =~= Seq::empty());
        paragraphs_push(body@, gap);
    }
    body.push(gap);
    let line = line_of(Run::Old(shown));
    proof {
        paragraphs_push(body@, line);
    }
    body.push(line);
    let len: usize = len_chars(&rope);
    let ended = len == 0 || char_at(&rope, len - 1) == '\n';
    let all: usize = if ended {
        count - 1
    } else {
        count
    };
    if all > MOST_OLD_LINES {
        let more = join3("…and ", lines_word(all - MOST_OLD_LINES).as_str(), " more");
        let line = line_of(Run::Dim(more));
        proof {
            paragraphs_push(body@, line);
        }
        body.push(line);
    }
    body
}

/// Past the last line there is, a line starts at the end.
proof fn past_the_last_line(text: Seq<char>, line: int)
    requires
        line > breaks(text),
    ensures
        line_start(text, line) == text.len(),
{
    if text.len() > 0 {
        crate::rope::breaks_grow(text, text.len() - 1, text.len() as int);
        assert(text.take(text.len() as int) =~= text);
        assert(text.take(text.len() - 1) =~= text.drop_last());
    }
}

/// The card's buttons: the change's actions, and the way on to the others when
/// there are any. `previous` and `next` are the glyphs that point there.
pub open spec fn buttons_of(count: nat, previous: Seq<char>, next: Seq<char>) -> Seq<
    (Seq<char>, Command),
> {
    let own = seq![("Revert"@, Command::RevertHunk), ("Stage"@, Command::StageHunk)];
    if count > 1 {
        own + seq![
            (previous + " Previous"@, Command::PreviousHunk),
            ("Next "@ + next, Command::NextHunk),
        ]
    } else {
        own
    }
}

/// The card's buttons: the change's actions, and the way on to the others when
/// there are any. `previous` and `next` are the glyphs that point there.
pub fn hunk_buttons(count: usize, previous: &str, next: &str) -> (buttons: Vec<(String, Command)>)
    ensures
        crate::commands::button_views(buttons@) == buttons_of(count as nat, previous@, next@),
{
    let mut buttons: Vec<(String, Command)> = Vec::new();
    buttons.push(("Revert".to_owned(), Command::RevertHunk));
    buttons.push(("Stage".to_owned(), Command::StageHunk));
    if count > 1 {
        buttons.push((join(previous, " Previous"), Command::PreviousHunk));
        buttons.push((join("Next ", next), Command::NextHunk));
    }
    assert(crate::commands::button_views(buttons@) =~= buttons_of(
        count as nat,
        previous@,
        next@,
    ));
    buttons
}

// ── going to them ───────────────────────────────────────────────────────────

/// The first of `hunks`, from the `from`th on, marked below `line`.
pub open spec fn hunk_below(hunks: Seq<Hunk>, lines: u32, line: int, from: int) -> Option<int>
    decreases hunks.len() - from,
{
    if from < 0 || from >= hunks.len() {
        None
    } else if hunks[from].marked(lines).0 > line {
        Some(from)
    } else {
        hunk_below(hunks, lines, line, from + 1)
    }
}

/// The last of the first `count` of `hunks` marked above `line`.
pub open spec fn hunk_above(hunks: Seq<Hunk>, lines: u32, line: int, count: int) -> Option<int>
    decreases count,
{
    if count <= 0 {
        None
    } else if hunks[count - 1].marked(lines).0 < line {
        Some(count - 1)
    } else {
        hunk_above(hunks, lines, line, count - 1)
    }
}

/// The change stepping from `line` goes to: the next, or the one before,
/// coming round at the ends.
pub open spec fn hunk_stepped_to(hunks: Seq<Hunk>, lines: u32, line: int, forward: bool) -> int {
    if forward {
        match hunk_below(hunks, lines, line, 0) {
            Some(index) => index,
            None => 0,
        }
    } else {
        match hunk_above(hunks, lines, line, hunks.len() as int) {
            Some(index) => index,
            None => hunks.len() - 1,
        }
    }
}

/// The change stepping from `line` goes to: the next, or the one before,
/// coming round at the ends. `None` where there is none to go to.
pub fn step_hunk(hunks: &Vec<Hunk>, lines: u32, line: usize, forward: bool) -> (index: Option<
    usize,
>)
    ensures
        match index {
            Some(index) => index < hunks@.len() && index == hunk_stepped_to(
                hunks@,
                lines,
                line as int,
                forward,
            ),
            None => hunks@.len() == 0,
        },
{
    if hunks.len() == 0 {
        return None;
    }
    if forward {
        let mut i: usize = 0;
        while i < hunks.len()
            invariant
                i <= hunks@.len(),
                hunks@.len() > 0,
                forward,
                hunk_below(hunks@, lines, line as int, 0) == hunk_below(
                    hunks@,
                    lines,
                    line as int,
                    i as int,
                ),
            decreases hunks@.len() - i,
        {
            if marked_lines(&hunks[i], lines).0 > line {
                return Some(i);
            }
            i = i + 1;
        }
        Some(0)
    } else {
        let mut i: usize = hunks.len();
        while i > 0
            invariant
                i <= hunks@.len(),
                hunks@.len() > 0,
                !forward,
                hunk_above(hunks@, lines, line as int, hunks@.len() as int) == hunk_above(
                    hunks@,
                    lines,
                    line as int,
                    i as int,
                ),
            decreases i,
        {
            if marked_lines(&hunks[i - 1], lines).0 < line {
                return Some(i - 1);
            }
            i = i - 1;
        }
        Some(hunks.len() - 1)
    }
}

/// Where the caret goes for a change: the start of the first line it is marked
/// on, or of the last line there is.
pub fn caret_for(rope: &Rope, hunk: &Hunk, lines: u32) -> (caret: usize)
    ensures
        ({
            let text = rope_text(*rope);
            let line = hunk.marked(lines).0;
            caret == line_start(
                text,
                if line <= breaks(text) {
                    line
                } else {
                    breaks(text) as int
                },
            )
        }),
{
    let last: usize = len_lines(rope) - 1;
    let (line, _) = marked_lines(hunk, lines);
    line_to_char(
        rope,
        if line <= last {
            line
        } else {
            last
        },
    )
}

/// Whether a change marked on lines `range` is drawn on a row of the rail that
/// stands for lines `first` up to `end`.
pub open spec fn drawn_on(range: (usize, usize), first: usize, end: usize) -> bool {
    range.0 < end && (first < range.1 || first <= range.0)
}

/// Which of the first `count` changes, marked on lines `ranges`, are drawn on
/// a row that stands for lines `first` up to `end`.
pub open spec fn drawn_on_row(
    ranges: Seq<(usize, usize)>,
    first: usize,
    end: usize,
    count: int,
) -> Seq<usize>
    decreases count,
{
    if count <= 0 {
        Seq::empty()
    } else if drawn_on(ranges[count - 1], first, end) {
        drawn_on_row(ranges, first, end, count - 1).push((count - 1) as usize)
    } else {
        drawn_on_row(ranges, first, end, count - 1)
    }
}

/// Which of the changes, marked on lines `ranges`, are drawn on a row of the
/// column that stands for lines `first` up to `end`.
pub fn hunks_on_row(ranges: &Vec<(usize, usize)>, first: usize, end: usize) -> (here: Vec<usize>)
    ensures
        here@ == drawn_on_row(ranges@, first, end, ranges@.len() as int),
        forall|i: int| 0 <= i < here@.len() ==> (#[trigger] here@[i]) < ranges@.len(),
{
    let mut here: Vec<usize> = Vec::new();
    let mut i: usize = 0;
    while i < ranges.len()
        invariant
            i <= ranges@.len(),
            here@ == drawn_on_row(ranges@, first, end, i as int),
            forall|k: int| 0 <= k < here@.len() ==> (#[trigger] here@[k]) < ranges@.len(),
        decreases ranges@.len() - i,
    {
        let range = ranges[i];
        if range.0 < end && (first < range.1 || first <= range.0) {
            here.push(i);
        }
        i = i + 1;
    }
    here
}

/// The first of `here`, from the `from`th on, that is marked below `line`.
pub open spec fn next_on_row(
    here: Seq<usize>,
    ranges: Seq<(usize, usize)>,
    line: usize,
    from: int,
) -> Option<usize>
    decreases here.len() - from,
{
    if from < 0 || from >= here.len() {
        None
    } else if ranges[here[from] as int].0 > line {
        Some(here[from])
    } else {
        next_on_row(here, ranges, line, from + 1)
    }
}

/// The change a click on a row of the column goes to: the next below the
/// caret's line of those drawn on it, or the first of them.
pub fn column_mark_press(
    ranges: &Vec<(usize, usize)>,
    first: usize,
    end: usize,
    line: usize,
) -> (index: Option<usize>)
    ensures
        ({
            let here = drawn_on_row(ranges@, first, end, ranges@.len() as int);
            match index {
                Some(index) => here.len() > 0 && index == match next_on_row(
                    here,
                    ranges@,
                    line,
                    0,
                ) {
                    Some(next) => next,
                    None => here[0],
                },
                None => here.len() == 0,
            }
        }),
{
    let here = hunks_on_row(ranges, first, end);
    if here.len() == 0 {
        return None;
    }
    let mut i: usize = 0;
    while i < here.len()
        invariant
            i <= here@.len(),
            here@.len() > 0,
            forall|k: int| 0 <= k < here@.len() ==> (#[trigger] here@[k]) < ranges@.len(),
            here@ == drawn_on_row(ranges@, first, end, ranges@.len() as int),
            next_on_row(here@, ranges@, line, 0) == next_on_row(here@, ranges@, line, i as int),
        decreases here@.len() - i,
    {
        assert(here@[i as int] < ranges@.len());
        if ranges[here[i]].0 > line {
            return Some(here[i]);
        }
        i = i + 1;
    }
    Some(here[0])
}

/// The row of `column` that screen row `y` is.
pub fn row_of(column: Rect, y: u16) -> (row: Option<u16>)
    requires
        column.on_screen(),
    ensures
        row == if column.y <= y && y < column.y + column.height {
            Some((y - column.y) as u16)
        } else {
            None
        },
{
    if column.y <= y && y < column.bottom() {
        Some(y - column.y)
    } else {
        None
    }
}

/// A change a card is about: which document, and the change as it was when the
/// card was opened.
#[derive(Debug, Clone, Copy, PartialEq, Eq, Structural)]
pub struct Aim {
    /// Which document.
    pub doc: usize,
    /// Which change.
    pub hunk: Hunk,
}

/// Why there is no change to act on, or that there is.
pub open spec fn why_not(source: Source, count: nat) -> Option<Seq<char>> {
    if source == Source::Nowhere {
        Some("Git is not following this file."@)
    } else if count == 0 {
        Some("Nothing in this file differs from what is staged."@)
    } else {
        None
    }
}

/// Why there is no change to act on, or that there is: `source` is where the
/// changes are from and `count` how many there are.
pub fn followed_diff(source: Source, count: usize) -> (message: Option<String>)
    ensures
        crate::reply::words(message) == why_not(source, count as nat),
{
    if source == Source::Nowhere {
        Some("Git is not following this file.".to_owned())
    } else if count == 0 {
        Some("Nothing in this file differs from what is staged.".to_owned())
    } else {
        None
    }
}

/// The first of `hunks`, from the `from`th on, that is `hunk`.
pub open spec fn same_hunk(hunks: Seq<Hunk>, hunk: Hunk, from: int) -> Option<int>
    decreases hunks.len() - from,
{
    if from < 0 || from >= hunks.len() {
        None
    } else if hunks[from] == hunk {
        Some(from)
    } else {
        same_hunk(hunks, hunk, from + 1)
    }
}

/// The change `hunk` was, if it is still among `hunks`, the changes of the text
/// as it is now.
pub fn find_hunk(hunks: &Vec<Hunk>, hunk: Hunk) -> (index: Option<usize>)
    ensures
        match index {
            Some(index) => index < hunks@.len() && hunks@[index as int] == hunk && same_hunk(
                hunks@,
                hunk,
                0,
            ) == Some(index as int),
            None => same_hunk(hunks@, hunk, 0) is None && !hunks@.contains(hunk),
        },
{
    let mut i: usize = 0;
    while i < hunks.len()
        invariant
            i <= hunks@.len(),
            same_hunk(hunks@, hunk, 0) == same_hunk(hunks@, hunk, i as int),
            forall|k: int| 0 <= k < i ==> (#[trigger] hunks@[k]) != hunk,
        decreases hunks@.len() - i,
    {
        if hunks[i] == hunk {
            return Some(i);
        }
        i = i + 1;
    }
    None
}

/// What a command about a change acts on: the change, or why there is none, if
/// that is worth saying.
#[derive(Debug)]
pub enum Aimed {
    /// This change.
    At(usize),
    /// None, and why, where there is a reason to give.
    No(Option<String>),
}

/// The change a command acts on — the one a card's button was pressed on, or
/// the one on the caret's line — found among `hunks`, the changes of the text
/// as it is now. `source` is where those are from, `lines` how many lines the
/// text has, and `line` the caret's.
pub fn aimed_hunk(
    aimed: Option<Aim>,
    source: Source,
    hunks: &Vec<Hunk>,
    lines: u32,
    line: usize,
) -> (found: Aimed)
    ensures
        match aimed {
            Some(aim) => match found {
                Aimed::At(index) => source != Source::Nowhere && index < hunks@.len()
                    && hunks@[index as int] == aim.hunk,
                Aimed::No(why) => {
                    &&& source == Source::Nowhere ==> why is None
                    &&& source != Source::Nowhere ==> !hunks@.contains(aim.hunk)
                        && crate::reply::words(why) == Some(
                        "That change is not there any more."@,
                    )
                },
            },
            None => match found {
                Aimed::At(index) => {
                    &&& why_not(source, hunks@.len()) is None
                    &&& hunk_on(hunks@, lines, line as int, 0) == Some(index as int)
                },
                Aimed::No(why) => {
                    &&& why_not(source, hunks@.len()) is None ==> hunk_on(
                        hunks@,
                        lines,
                        line as int,
                        0,
                    ) is None && crate::reply::words(why) == Some("No change on this line."@)
                    &&& why_not(source, hunks@.len()) is Some ==> crate::reply::words(why)
                        == why_not(source, hunks@.len())
                },
            },
        },
{
    if let Some(aim) = aimed {
        if source == Source::Nowhere {
            return Aimed::No(None);
        }
        return match find_hunk(hunks, aim.hunk) {
            Some(index) => Aimed::At(index),
            None => Aimed::No(Some("That change is not there any more.".to_owned())),
        };
    }
    if let Some(why) = followed_diff(source, hunks.len()) {
        return Aimed::No(Some(why));
    }
    match hunk_index_at(hunks, lines, line) {
        Some(index) => Aimed::At(index),
        None => Aimed::No(Some("No change on this line.".to_owned())),
    }
}

/// What putting a change back came to.
pub fn reverted(result: Result<(), String>) -> (reply: Reply)
    ensures
        reply.outcome == Outcome::Redraw,
        reply.cancel@.len() == 0,
        reply.says() == Some(
            match result {
                Ok(()) => "Reverted. Undo brings it back."@,
                Err(why) => "Could not revert that: "@ + why@,
            },
        ),
{
    match result {
        Ok(()) => Reply::saying("Reverted. Undo brings it back.".to_owned()),
        Err(why) => Reply::saying(join("Could not revert that: ", why.as_str())),
    }
}

/// The change a press on a bar goes to: the bar's own, or, pressed again with
/// the caret already there, the next one on.
pub fn bar_press(hunks: &Vec<Hunk>, lines: u32, line: usize, index: usize) -> (to: Option<usize>)
    ensures
        to == if hunk_on(hunks@, lines, line as int, 0) == Some(index as int) {
            Some(hunk_stepped_to(hunks@, lines, line as int, true) as usize)
        } else if index < hunks@.len() {
            Some(index)
        } else {
            None
        },
{
    let on = hunk_index_at(hunks, lines, line);
    let again = match on {
        Some(at) => at == index,
        None => false,
    };
    if again {
        return step_hunk(hunks, lines, line, true);
    }
    if index < hunks.len() {
        Some(index)
    } else {
        None
    }
}

/// A change put back by a card's button is the very one the card was about, or
/// nothing is done: a button never acts on another change than it names.
pub proof fn a_button_acts_on_its_own_change(hunks: Seq<Hunk>, hunk: Hunk, from: int)
    requires
        0 <= from,
    ensures
        same_hunk(hunks, hunk, from) matches Some(at) ==> from <= at < hunks.len() && hunks[at]
            == hunk,
    decreases hunks.len() - from,
{
    if from < hunks.len() && hunks[from] != hunk {
        a_button_acts_on_its_own_change(hunks, hunk, from + 1);
    }
}

/// Stepping on from a line goes to the nearest change that starts below it, and
/// round to the first of them all where none does; stepping back goes to the
/// nearest that starts above it, and round to the last. The changes are in order.
pub proof fn stepping_goes_to_the_nearest_change(hunks: Seq<Hunk>, lines: u32, line: int)
    requires
        hunks.len() > 0,
        forall|i: int, j: int|
            0 <= i < j < hunks.len() ==> (#[trigger] hunks[i]).marked(lines).0 <= (
            #[trigger] hunks[j]).marked(lines).0,
    ensures
        ({
            let on = hunk_stepped_to(hunks, lines, line, true);
            let start = hunks[on].marked(lines).0;
            &&& 0 <= on < hunks.len()
            &&& if exists|i: int| 0 <= i < hunks.len() && (#[trigger] hunks[i]).marked(lines).0 > line {
                &&& start > line
                &&& forall|i: int|
                    0 <= i < hunks.len() && (#[trigger] hunks[i]).marked(lines).0 > line ==> start
                        <= hunks[i].marked(lines).0
            } else {
                on == 0
            }
        }),
        ({
            let back = hunk_stepped_to(hunks, lines, line, false);
            let start = hunks[back].marked(lines).0;
            &&& 0 <= back < hunks.len()
            &&& if exists|i: int| 0 <= i < hunks.len() && (#[trigger] hunks[i]).marked(lines).0 < line {
                &&& start < line
                &&& forall|i: int|
                    0 <= i < hunks.len() && (#[trigger] hunks[i]).marked(lines).0 < line
                        ==> hunks[i].marked(lines).0 <= start
            } else {
                back == hunks.len() - 1
            }
        }),
{
    below_is_nearest(hunks, lines, line, 0);
    above_is_nearest(hunks, lines, line, hunks.len() as int);
}

proof fn below_is_nearest(hunks: Seq<Hunk>, lines: u32, line: int, from: int)
    requires
        0 <= from <= hunks.len(),
        forall|i: int| 0 <= i < from ==> (#[trigger] hunks[i]).marked(lines).0 <= line,
    ensures
        match hunk_below(hunks, lines, line, from) {
            Some(at) => from <= at < hunks.len() && hunks[at].marked(lines).0 > line && forall|i: int|
                0 <= i < at ==> (#[trigger] hunks[i]).marked(lines).0 <= line,
            None => forall|i: int|
                0 <= i < hunks.len() ==> (#[trigger] hunks[i]).marked(lines).0 <= line,
        },
    decreases hunks.len() - from,
{
    if from < hunks.len() && hunks[from].marked(lines).0 <= line {
        below_is_nearest(hunks, lines, line, from + 1);
    }
}

proof fn above_is_nearest(hunks: Seq<Hunk>, lines: u32, line: int, count: int)
    requires
        0 <= count <= hunks.len(),
        forall|i: int| count <= i < hunks.len() ==> (#[trigger] hunks[i]).marked(lines).0 >= line,
    ensures
        match hunk_above(hunks, lines, line, count) {
            Some(at) => 0 <= at < count && hunks[at].marked(lines).0 < line && forall|i: int|
                at < i < hunks.len() ==> (#[trigger] hunks[i]).marked(lines).0 >= line,
            None => forall|i: int|
                0 <= i < hunks.len() ==> (#[trigger] hunks[i]).marked(lines).0 >= line,
        },
    decreases count,
{
    if count > 0 && hunks[count - 1].marked(lines).0 >= line {
        above_is_nearest(hunks, lines, line, count - 1);
    }
}

/// With no two changes starting on one line, stepping goes through every one in
/// turn and comes round, and stepping back comes back.
pub proof fn stepping_visits_each_change_in_turn(hunks: Seq<Hunk>, lines: u32, at: int)
    requires
        0 <= at < hunks.len(),
        forall|i: int, j: int|
            0 <= i < j < hunks.len() ==> (#[trigger] hunks[i]).marked(lines).0 < (
            #[trigger] hunks[j]).marked(lines).0,
    ensures
        ({
            let next = if at + 1 < hunks.len() {
                at + 1
            } else {
                0
            };
            let before = if at > 0 {
                at - 1
            } else {
                hunks.len() - 1
            };
            &&& hunk_stepped_to(hunks, lines, hunks[at].marked(lines).0, true) == next
            &&& hunk_stepped_to(hunks, lines, hunks[at].marked(lines).0, false) == before
            &&& hunk_stepped_to(hunks, lines, hunks[next].marked(lines).0, false) == at
        }),
{
    let line = hunks[at].marked(lines).0;
    let next = if at + 1 < hunks.len() {
        at + 1
    } else {
        0
    };
    let there = hunks[next].marked(lines).0;
    below_is_nearest(hunks, lines, line, 0);
    above_is_nearest(hunks, lines, line, hunks.len() as int);
    above_is_nearest(hunks, lines, there, hunks.len() as int);
    if at > 0 {
        assert(hunks[at - 1].marked(lines).0 < line);
    }
}

/// A change that left lines behind is marked on those lines and no others; one
/// that left none is marked on one line, the one that came after what it took
/// out, or the last there is.
pub proof fn a_change_is_marked_on_its_own_lines(hunk: Hunk, lines: u32, line: int)
    ensures
        hunk.after_start < hunk.after_end ==> (hunk.is_on(line, lines) <==> hunk.after_start <= line
            < hunk.after_end),
        hunk.after_start >= hunk.after_end && hunk.after_start < lines ==> (hunk.is_on(line, lines)
            <==> line == hunk.after_start),
        hunk.after_start >= hunk.after_end && hunk.after_start >= lines > 0 ==> (hunk.is_on(
            line,
            lines,
        ) <==> line == lines - 1),
{
}

/// What a change is, is what it did: one that took nothing out added lines; one
/// that took some out and put none in removed them, above the line it is marked on
/// or, past the last line, below it; any other modified them.
pub proof fn a_change_is_what_it_did(hunk: Hunk, lines: u32)
    requires
        hunk.before_start <= hunk.before_end,
        hunk.after_start <= hunk.after_end,
    ensures
        hunk.spec_kind() is Added <==> hunk.before_start == hunk.before_end,
        hunk.spec_kind() is Removed <==> hunk.before_start < hunk.before_end && hunk.after_start
            == hunk.after_end,
        hunk.spec_kind() is Modified <==> hunk.before_start < hunk.before_end && hunk.after_start
            < hunk.after_end,
        hunk.change(lines) is Added <==> hunk.spec_kind() is Added,
        hunk.change(lines) is Modified <==> hunk.spec_kind() is Modified,
        hunk.change(lines) is RemovedBelow <==> hunk.spec_kind() is Removed && hunk.after_start
            >= lines && lines > 0,
{
}

/// Git counts a line for each line feed, and one more for what comes after the
/// last, if anything does: typing at the end of a line adds none, and the first
/// char of a new line adds one.
pub proof fn git_counts_a_line_once(text: Seq<char>, ch: char)
    ensures
        git_lines_of(Seq::<char>::empty()) == 0,
        ({
            let open = text.len() > 0 && text.last() != '\n';
            git_lines_of(text.push(ch)) == if open {
                git_lines_of(text)
            } else {
                git_lines_of(text) + 1
            }
        }),
{
    assert(text.push(ch).drop_last() =~= text);
}

/// What is due first is as soon as anything is, and there is nothing due only
/// where nothing is.
pub proof fn the_earliest_is_as_soon_as_any(docs: Seq<Followed>)
    ensures
        match earliest_due(docs) {
            Some(at) => {
                &&& exists|i: int| 0 <= i < docs.len() && (#[trigger] docs[i]).due_at() == Some(at)
                &&& forall|i: int|
                    0 <= i < docs.len() ==> ((#[trigger] docs[i]).due_at() matches Some(due) ==> at
                        <= due)
            },
            None => forall|i: int| 0 <= i < docs.len() ==> (#[trigger] docs[i]).due_at() is None,
        },
    decreases docs.len(),
{
    if docs.len() > 0 {
        let rest = docs.drop_last();
        the_earliest_is_as_soon_as_any(rest);
        assert forall|i: int| 0 <= i < docs.len() - 1 implies docs[i] == rest[i] by {}
        if let Some(at) = earliest_due(rest) {
            let i = choose|i: int| 0 <= i < rest.len() && (#[trigger] rest[i]).due_at() == Some(at);
            assert(docs[i].due_at() == Some(at));
        }
        assert(docs[docs.len() - 1] == docs.last());
        match earliest_due(docs) {
            Some(at) => {
                assert forall|i: int| 0 <= i < docs.len() implies ((
                #[trigger] docs[i]).due_at() matches Some(due) ==> at <= due) by {
                    if i < docs.len() - 1 {
                        assert(docs[i] == rest[i]);
                    }
                }
            },
            None => {
                assert forall|i: int| 0 <= i < docs.len() implies (
                #[trigger] docs[i]).due_at() is None by {
                    if i < docs.len() - 1 {
                        assert(docs[i] == rest[i]);
                    }
                }
            },
        }
    }
}

/// What is sent is every document that is due and no other.
pub proof fn all_that_is_due_is_sent(docs: Seq<Followed>, now: u64, count: int, at: int)
    requires
        0 <= at < count <= docs.len(),
        forall|i: int, j: int|
            0 <= i < j < docs.len() ==> (#[trigger] docs[i]).doc != (#[trigger] docs[j]).doc,
    ensures
        due_docs(docs, now, count).contains(docs[at].doc) <==> (docs[at].due_at() matches Some(due)
            && due <= now),
{
    due_docs_are(docs, now, count, at);
}

proof fn due_docs_are(docs: Seq<Followed>, now: u64, count: int, at: int)
    requires
        0 <= count <= docs.len(),
        0 <= at < docs.len(),
        forall|i: int, j: int|
            0 <= i < j < docs.len() ==> (#[trigger] docs[i]).doc != (#[trigger] docs[j]).doc,
    ensures
        due_docs(docs, now, count).contains(docs[at].doc) <==> at < count && is_due(docs[at], now),
    decreases count,
{
    if count > 0 {
        due_docs_are(docs, now, count - 1, at);
        let doc = docs[at].doc;
        let before = due_docs(docs, now, count - 1);
        let due = due_docs(docs, now, count);
        if at != count - 1 {
            assert(docs[count - 1].doc != doc);
        }
        if due.contains(doc) {
            let k = choose|k: int| 0 <= k < due.len() && due[k] == doc;
            if k < before.len() {
                assert(before[k] == doc);
            }
        }
        if before.contains(doc) {
            let k = choose|k: int| 0 <= k < before.len() && before[k] == doc;
            assert(due[k] == doc);
        }
        if at == count - 1 && is_due(docs[at], now) {
            assert(due[before.len() as int] == doc);
        }
    }
}

/// The rails are the text's last columns, the problems' outside the changes', and
/// the text has all the rest; each is there only while it leaves the text more than
/// its gutter and a column.
pub proof fn the_rails_are_the_last_columns(
    text: Rect,
    gutter: u16,
    problems: bool,
    changes: bool,
)
    requires
        text.x + text.width <= u16::MAX,
    ensures
        ({
            let (inner, column, rail) = rails_in(text, gutter, problems, changes);
            let taken = (if column is Some {
                1int
            } else {
                0
            }) + (if rail is Some {
                1int
            } else {
                0
            });
            &&& inner.x == text.x && inner.y == text.y && inner.height == text.height
            &&& inner.width + taken == text.width
            &&& rail matches Some(rail) ==> {
                &&& problems
                &&& rail.x + 1 == text.x + text.width
                &&& rail.width == 1 && rail.y == text.y && rail.height == text.height
            }
            &&& column matches Some(column) ==> {
                &&& changes
                &&& column.x == inner.x + inner.width
                &&& column.width == 1 && column.y == text.y && column.height == text.height
            }
            &&& taken > 0 ==> inner.width >= gutter + 2
            &&& problems && rail is None ==> text.width <= gutter + 2
            &&& changes && column is None ==> inner.width <= gutter + 2
        }),
{
}

/// A line in view is marked for each change it is one of the lines of, and with
/// what that change is; no line out of view is.
pub proof fn every_changed_line_in_view_is_marked(
    hunks: Seq<Hunk>,
    lines: u32,
    from: int,
    to: int,
    count: int,
    line: usize,
    change: Change,
)
    requires
        0 <= count <= hunks.len(),
    ensures
        marks_of(hunks, lines, from, to, count).contains((line, change)) <==> from <= line < to
            && exists|i: int|
            0 <= i < count && (#[trigger] hunks[i]).is_on(line as int, lines) && hunks[i].change(lines)
                == change,
    decreases count,
{
    if count > 0 {
        every_changed_line_in_view_is_marked(hunks, lines, from, to, count - 1, line, change);
        let before = marks_of(hunks, lines, from, to, count - 1);
        let hunk = hunks[count - 1];
        let (start, end) = hunk.marked(lines);
        let more = marks_between(hunk.change(lines), start, end, from, to);
        let all = marks_of(hunks, lines, from, to, count);
        marks_between_are(hunk.change(lines), start, end, from, to, line, change);
        if all.contains((line, change)) {
            let k = choose|k: int| 0 <= k < all.len() && all[k] == (line, change);
            if k < before.len() {
                assert(before[k] == (line, change));
                let i = choose|i: int|
                    0 <= i < count - 1 && (#[trigger] hunks[i]).is_on(line as int, lines)
                        && hunks[i].change(lines) == change;
                assert(hunks[i].is_on(line as int, lines));
            } else {
                assert(more[k - before.len()] == (line, change));
                assert(more.contains((line, change)));
                assert(hunks[count - 1].is_on(line as int, lines));
            }
        }
        if before.contains((line, change)) {
            let k = choose|k: int| 0 <= k < before.len() && before[k] == (line, change);
            assert(all[k] == (line, change));
        }
        if more.contains((line, change)) {
            let k = choose|k: int| 0 <= k < more.len() && more[k] == (line, change);
            assert(all[before.len() + k] == (line, change));
        }
    }
}

proof fn marks_between_are(
    change: Change,
    start: int,
    end: int,
    from: int,
    to: int,
    line: usize,
    which: Change,
)
    requires
        0 <= start,
        end <= usize::MAX,
    ensures
        marks_between(change, start, end, from, to).contains((line, which)) <==> from <= line < to
            && start <= line < end && which == change,
    decreases end - start,
{
    let all = marks_between(change, start, end, from, to);
    if start < end {
        marks_between_are(change, start + 1, end, from, to, line, which);
        let rest = marks_between(change, start + 1, end, from, to);
        if from <= start < to {
            if all.contains((line, which)) {
                let k = choose|k: int| 0 <= k < all.len() && all[k] == (line, which);
                if k > 0 {
                    assert(rest[k - 1] == (line, which));
                    assert(rest.contains((line, which)));
                }
            }
            if rest.contains((line, which)) {
                let k = choose|k: int| 0 <= k < rest.len() && rest[k] == (line, which);
                assert(all[k + 1] == (line, which));
            }
            if line == start && which == change {
                assert(all[0] == (line, which));
            }
        }
    }
}

/// The change a line is of is the first it is one of the lines of.
pub proof fn a_line_s_change_is_the_first_on_it(hunks: Seq<Hunk>, lines: u32, line: int)
    ensures
        match hunk_on(hunks, lines, line, 0) {
            Some(at) => {
                &&& 0 <= at < hunks.len()
                &&& hunks[at].is_on(line, lines)
                &&& forall|i: int| 0 <= i < at ==> !(#[trigger] hunks[i]).is_on(line, lines)
            },
            None => forall|i: int|
                0 <= i < hunks.len() ==> !(#[trigger] hunks[i]).is_on(line, lines),
        },
{
    on_from(hunks, lines, line, 0);
}

proof fn on_from(hunks: Seq<Hunk>, lines: u32, line: int, from: int)
    requires
        0 <= from <= hunks.len(),
        forall|i: int| 0 <= i < from ==> !(#[trigger] hunks[i]).is_on(line, lines),
    ensures
        match hunk_on(hunks, lines, line, from) {
            Some(at) => {
                &&& from <= at < hunks.len()
                &&& hunks[at].is_on(line, lines)
                &&& forall|i: int| 0 <= i < at ==> !(#[trigger] hunks[i]).is_on(line, lines)
            },
            None => forall|i: int|
                0 <= i < hunks.len() ==> !(#[trigger] hunks[i]).is_on(line, lines),
        },
    decreases hunks.len() - from,
{
    if from < hunks.len() && !hunks[from].is_on(line, lines) {
        on_from(hunks, lines, line, from + 1);
    }
}

/// A change's card says what it did, on which lines as they are counted from one,
/// and how many lines it took out where it left none.
pub proof fn a_card_says_what_a_change_did(hunk: Hunk, lines: u32)
    requires
        hunk.before_start <= hunk.before_end,
        hunk.after_start <= hunk.after_end,
    ensures
        ({
            let one = "line "@ + decimal_of((hunk.after_start + 1) as nat);
            let place = if hunk.after_end == hunk.after_start + 1 {
                one
            } else {
                "lines "@ + decimal_of((hunk.after_start + 1) as nat) + "–"@ + decimal_of(
                    hunk.after_end as nat,
                )
            };
            let took = if hunk.before_end == hunk.before_start + 1 {
                "1 line"@
            } else {
                decimal_of((hunk.before_end - hunk.before_start) as nat) + " lines"@
            };
            &&& hunk.before_start == hunk.before_end && hunk.after_start < hunk.after_end
                ==> what_of(hunk, lines) == "Added "@ + place
            &&& hunk.before_start < hunk.before_end && hunk.after_start < hunk.after_end ==> what_of(
                hunk,
                lines,
            ) == "Changed "@ + place + ". It was:"@
            &&& hunk.before_start < hunk.before_end && hunk.after_start == hunk.after_end
                && hunk.after_start < lines ==> what_of(hunk, lines) == "Removed "@ + took
                + " above "@ + one + ":"@
            &&& hunk.before_start < hunk.before_end && hunk.after_start == hunk.after_end
                && hunk.after_start >= lines > 0 ==> what_of(hunk, lines) == "Removed "@ + took
                + " below "@ + ("line "@ + decimal_of(lines as nat)) + ":"@
        }),
{
}

/// What a change took out is shown from its first line on, and all of it where it
/// is no longer than a card holds, but for the line feed that ends it; where it is
/// longer, the card says how many lines more there are.
pub proof fn what_was_taken_out_is_shown(hunk: Hunk, lines: u32, old: Seq<char>)
    requires
        hunk.before_start < hunk.before_end,
    ensures
        old_shown(old).is_prefix_of(old),
        breaks(old) < MOST_OLD_LINES && (old.len() == 0 || old.last() != '\n') ==> old_shown(old)
            == old,
        breaks(old) <= MOST_OLD_LINES && old.len() > 0 && old.last() == '\n' ==> old_shown(
            old,
        ).push('\n') == old,
        hunk_paragraphs(hunk, lines, old)[2] == seq![RunModel::Old(old_shown(old))],
        git_lines_of(old) > MOST_OLD_LINES ==> hunk_paragraphs(hunk, lines, old).len() == 4
            && hunk_paragraphs(hunk, lines, old)[3] == seq![
            RunModel::Dim(
                "…and "@ + lines_words((git_lines_of(old) - MOST_OLD_LINES) as nat) + " more"@,
            ),
        ],
        git_lines_of(old) <= MOST_OLD_LINES ==> hunk_paragraphs(hunk, lines, old).len() == 3,
{
    let at = line_start(old, MOST_OLD_LINES as int);
    assert(0 <= at <= old.len()) by {
        starts_within(old, MOST_OLD_LINES as int);
    }
    let shown = old.take(at);
    if breaks(old) < MOST_OLD_LINES {
        starts_past_the_end(old, MOST_OLD_LINES as int);
        assert(shown =~= old);
    }
    if breaks(old) == MOST_OLD_LINES && old.len() > 0 && old.last() == '\n' {
        assert(at == old.len());
        assert(shown =~= old);
    }
    if old.len() > 0 && old.last() == '\n' && shown == old {
        assert(old.drop_last().push('\n') =~= old);
    }
    assert(old_shown(old) =~= old.take(old_shown(old).len() as int));
}

proof fn starts_within(text: Seq<char>, line: int)
    ensures
        0 <= line_start(text, line) <= text.len(),
    decreases text.len(),
{
    if text.len() > 0 {
        starts_within(text.drop_last(), line);
    }
}

proof fn starts_past_the_end(text: Seq<char>, line: int)
    requires
        breaks(text) < line,
    ensures
        line_start(text, line) == text.len(),
{
    if text.len() > 0 {
        assert(breaks(text.drop_last()) <= breaks(text));
    }
}

/// A row of the rail draws exactly the changes that have a line among its own; a
/// change of no lines is on the line it is at.
pub proof fn a_row_draws_every_change_on_it(
    ranges: Seq<(usize, usize)>,
    first: usize,
    end: usize,
    count: int,
)
    requires
        0 <= count <= ranges.len() <= usize::MAX,
        first < end,
    ensures
        ({
            let drawn = drawn_on_row(ranges, first, end, count);
            &&& forall|i: usize|
                i < count ==> (#[trigger] drawn.contains(i) <==> exists|line: int|
                    #[trigger] is_line_of(ranges[i as int], line) && first <= line < end)
            &&& forall|k: int| 0 <= k < drawn.len() ==> (#[trigger] drawn[k]) < count
            &&& forall|j: int, k: int|
                0 <= j < k < drawn.len() ==> (#[trigger] drawn[j]) < (#[trigger] drawn[k])
        }),
    decreases count,
{
    if count > 0 {
        a_row_draws_every_change_on_it(ranges, first, end, count - 1);
        let before = drawn_on_row(ranges, first, end, count - 1);
        let drawn = drawn_on_row(ranges, first, end, count);
        let range = ranges[count - 1];
        let line = if range.0 <= first {
            first as int
        } else {
            range.0 as int
        };
        if drawn_on(range, first, end) {
            assert(is_line_of(range, line) && first <= line < end);
        }
        assert forall|i: usize| i < count implies (#[trigger] drawn.contains(i) <==> exists|
            line: int,
        |
            #[trigger] is_line_of(ranges[i as int], line) && first <= line < end) by {
            if drawn.contains(i) {
                let k = choose|k: int| 0 <= k < drawn.len() && drawn[k] == i;
                if k < before.len() {
                    assert(before[k] == i);
                    assert(before.contains(i));
                }
            }
            if i < count - 1 && before.contains(i) {
                let k = choose|k: int| 0 <= k < before.len() && before[k] == i;
                assert(drawn[k] == i);
            }
            if i == count - 1 && drawn.len() > before.len() {
                assert(drawn[before.len() as int] == i);
            }
        }
    }
}

/// Whether `line` is one of the lines of `range`, or the one it is at where it has
/// none.
pub open spec fn is_line_of(range: (usize, usize), line: int) -> bool {
    range.0 <= line && (line < range.1 || line == range.0)
}

/// The next change on a row is the first there that starts below the line.
pub proof fn the_next_on_a_row_is_the_first_below(
    here: Seq<usize>,
    ranges: Seq<(usize, usize)>,
    line: usize,
    from: int,
)
    requires
        0 <= from <= here.len(),
        forall|k: int|
            0 <= k < here.len() ==> (#[trigger] here[k]) < ranges.len(),
    ensures
        match next_on_row(here, ranges, line, from) {
            Some(at) => exists|k: int|
                {
                    &&& from <= k < here.len()
                    &&& #[trigger] here[k] == at
                    &&& ranges[at as int].0 > line
                    &&& forall|j: int|
                        from <= j < k ==> ranges[(#[trigger] here[j]) as int].0 <= line
                },
            None => forall|j: int|
                from <= j < here.len() ==> ranges[(#[trigger] here[j]) as int].0 <= line,
        },
    decreases here.len() - from,
{
    if from < here.len() {
        if ranges[here[from] as int].0 <= line {
            the_next_on_a_row_is_the_first_below(here, ranges, line, from + 1);
            if let Some(at) = next_on_row(here, ranges, line, from) {
                let k = choose|k: int|
                    {
                        &&& from + 1 <= k < here.len()
                        &&& #[trigger] here[k] == at
                        &&& ranges[at as int].0 > line
                        &&& forall|j: int|
                            from + 1 <= j < k ==> ranges[(#[trigger] here[j]) as int].0 <= line
                    };
                assert(here[k] == at);
            }
        } else {
            assert(here[from] == next_on_row(here, ranges, line, from)->0);
        }
    }
}

/// A change is found again among newer ones only where one is the very same.
pub proof fn a_change_is_found_again_as_it_was(hunks: Seq<Hunk>, hunk: Hunk, from: int)
    requires
        0 <= from <= hunks.len(),
    ensures
        match same_hunk(hunks, hunk, from) {
            Some(at) => from <= at < hunks.len() && hunks[at] == hunk,
            None => forall|i: int| from <= i < hunks.len() ==> #[trigger] hunks[i] != hunk,
        },
    decreases hunks.len() - from,
{
    if from < hunks.len() && hunks[from] != hunk {
        a_change_is_found_again_as_it_was(hunks, hunk, from + 1);
    }
}

/// A change's card always offers to revert and to stage it, and to step only where
/// there is another to step to.
pub proof fn a_card_steps_where_there_is_somewhere_to_go(
    count: nat,
    previous: Seq<char>,
    next: Seq<char>,
)
    ensures
        ({
            let buttons = buttons_of(count, previous, next);
            &&& buttons.len() == if count > 1 {
                4int
            } else {
                2
            }
            &&& buttons[0] == ("Revert"@, Command::RevertHunk)
            &&& buttons[1] == ("Stage"@, Command::StageHunk)
            &&& count > 1 ==> buttons[2] == (previous + " Previous"@, Command::PreviousHunk)
                && buttons[3] == ("Next "@ + next, Command::NextHunk)
        }),
{
}

/// Why there is no change to go to is that git does not follow the file, or that nothing
/// in it differs; where something does there is no reason.
pub proof fn there_is_a_reason_where_there_is_no_change(source: Source, count: nat)
    ensures
        source is Nowhere ==> why_not(source, count) == Some("Git is not following this file."@),
        !(source is Nowhere) && count == 0 ==> why_not(source, count) == Some(
            "Nothing in this file differs from what is staged."@,
        ),
        !(source is Nowhere) && count > 0 ==> why_not(source, count) is None,
{
}

/// Each text sent is the next version, and what it was sent as; sending what was sent
/// already sends nothing.
pub proof fn each_text_sent_is_the_next_version(followed: Followed, revision: u64)
    requires
        followed.sent < u64::MAX,
    ensures
        followed.opened_at(revision).sent == followed.sent + 1,
        followed.opened_at(revision).revision == revision,
        followed.opened_at(revision).seen == revision,
        followed.opened_at(revision).unsent is None,
        followed.sent_at(followed.revision).sent == followed.sent,
        followed.sent_at(followed.revision).unsent is None,
        revision != followed.revision ==> followed.sent_at(revision).sent == followed.sent + 1
            && followed.sent_at(revision).revision == revision,
        followed.noticed(followed.seen, revision) == followed,
{
}

/// An answer is taken where it is about a text that was sent and no older than the last
/// taken; a later answer about the same text takes the place of an earlier.
pub proof fn an_answer_about_a_text_sent_is_taken(followed: Followed, version: u64, compared: bool)
    ensures
        followed.version <= version <= followed.sent ==> followed.with_hunks(version, compared).version
            == version && followed.with_hunks(version, compared).compared == compared,
        version < followed.version || version > followed.sent ==> followed.with_hunks(
            version,
            compared,
        ) == followed,
{
}

/// A change's card is headed by how it is marked and what it did; one that took nothing
/// out says no more, and any other what it took out, an empty line below.
pub proof fn an_added_change_has_only_a_heading(hunk: Hunk, lines: u32, old: Seq<char>)
    requires
        hunk.before_start <= hunk.before_end,
    ensures
        hunk_paragraphs(hunk, lines, old)[0] == seq![
            RunModel::Change(hunk.change(lines)),
            RunModel::Text(what_of(hunk, lines)),
        ],
        hunk.before_start == hunk.before_end ==> hunk_paragraphs(hunk, lines, old).len() == 1,
        hunk.before_start < hunk.before_end ==> hunk_paragraphs(hunk, lines, old).len() >= 3
            && hunk_paragraphs(hunk, lines, old)[1].len() == 0,
{
}

} // verus!
