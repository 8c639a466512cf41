//! Formatting a document through its language server: on demand, and on save.
//!
//! Nothing here waits, so a save that formats first is two steps. Saving asks
//! the server for its edits and returns at once; the save itself happens when
//! the answer comes back, or when the time allowed for one runs out.
//!
//! Whatever happens to the formatting, a save that was asked for happens. A
//! server that fails, refuses, times out or is not there leaves the file
//! unformatted and saved, and the status line says why. The same goes for text
//! that changed while the server was working: its edits describe text that is
//! no longer there, so they are dropped and what is there now is saved as it
//! is. Quitting saves anything still waiting, unformatted.

use ropey::Rope;
use vstd::prelude::*;

use crate::gutter::held_time;
use crate::reply::words;
use crate::rope::{breaks, char_at, len_chars, len_lines, line_start, line_to_char, rope_text};
use crate::text::join3;

verus! {

/// How long a server has to format a file before a save goes ahead without it,
/// in milliseconds. Long enough for rustfmt on a large file; short enough that
/// a server that has hung costs a moment, not the save.
pub const TIMEOUT: u64 = 3_000;

/// How long past the server's own timeout to wait for its answer before giving
/// up, in milliseconds: the save must not hang on that either.
pub const GRACE: u64 = 1_000;

/// How many lines are looked at for how a file is indented.
pub const MOST_LINES: usize = 1000;

/// One request in flight.
#[derive(Debug, Clone, Copy, PartialEq, Eq, Structural)]
pub struct Pending {
    /// The request.
    pub id: u64,
    /// The document.
    pub doc: usize,
    /// Save once the edits are in, or once it is clear none are coming.
    pub save: bool,
    /// Then close the document's tab, as the prompt about closing it asked.
    pub close: bool,
    /// When to stop waiting for the answer.
    pub deadline: u64,
}

/// What is being formatted, and for which languages it happens on save.
#[derive(Debug)]
pub struct Formatting {
    /// The languages whose files are formatted before they are saved.
    pub on_save: Vec<String>,
    /// Requests not answered yet: one per document at most.
    pub pending: Vec<Pending>,
    /// How long a server is given, in milliseconds.
    pub timeout: u64,
}

impl Default for Formatting {
    fn default() -> (formatting: Self)
        ensures
            formatting.wf(),
            formatting.on_save@.len() == 0,
            formatting.pending@.len() == 0,
            formatting.timeout == TIMEOUT,
    {
        Formatting { on_save: Vec::new(), pending: Vec::new(), timeout: TIMEOUT }
    }
}

/// The earliest deadline among the first `count` of `pending`.
pub open spec fn earliest(pending: Seq<Pending>, count: int) -> Option<u64>
    decreases count,
{
    if count <= 0 {
        None
    } else {
        let before = earliest(pending, count - 1);
        let deadline = pending[count - 1].deadline;
        match before {
            Some(first) if first <= deadline => Some(first),
            _ => Some(deadline),
        }
    }
}

/// Where the request `id` is, from the `from`th on.
pub open spec fn request_at(pending: Seq<Pending>, id: u64, from: int) -> Option<int>
    decreases pending.len() - from,
{
    if from < 0 || from >= pending.len() {
        None
    } else if pending[from].id == id {
        Some(from)
    } else {
        request_at(pending, id, from + 1)
    }
}

/// Where the request for `doc` is, from the `from`th on.
pub open spec fn doc_at(pending: Seq<Pending>, doc: usize, from: int) -> Option<int>
    decreases pending.len() - from,
{
    if from < 0 || from >= pending.len() {
        None
    } else if pending[from].doc == doc {
        Some(from)
    } else {
        doc_at(pending, doc, from + 1)
    }
}

/// A document not found among those waited for is none of them.
proof fn not_waited_for(pending: Seq<Pending>, doc: usize, from: int)
    requires
        0 <= from <= pending.len(),
        doc_at(pending, doc, from) is None,
    ensures
        forall|k: int| from <= k < pending.len() ==> (#[trigger] pending[k]).doc != doc,
    decreases pending.len() - from,
{
    if from < pending.len() {
        not_waited_for(pending, doc, from + 1);
    }
}

/// Those of the first `count` of `pending` overdue at `now`, in order.
pub open spec fn overdue(pending: Seq<Pending>, now: u64, count: int) -> Seq<Pending>
    decreases count,
{
    if count <= 0 {
        Seq::empty()
    } else if pending[count - 1].deadline <= now {
        overdue(pending, now, count - 1).push(pending[count - 1])
    } else {
        overdue(pending, now, count - 1)
    }
}

/// Those of the first `count` of `pending` not overdue at `now`, in order.
pub open spec fn in_time(pending: Seq<Pending>, now: u64, count: int) -> Seq<Pending>
    decreases count,
{
    if count <= 0 {
        Seq::empty()
    } else if pending[count - 1].deadline <= now {
        in_time(pending, now, count - 1)
    } else {
        in_time(pending, now, count - 1).push(pending[count - 1])
    }
}

/// Whether no document is asked about twice.
pub open spec fn one_each(pending: Seq<Pending>) -> bool {
    forall|i: int, j: int|
        0 <= i < j < pending.len() ==> (#[trigger] pending[i]).doc != (#[trigger] pending[j]).doc
}

/// What asking to save comes to.
#[derive(Debug, Clone, Copy, PartialEq, Eq, Structural)]
pub enum PutOff {
    /// The document is being formatted already, and the save goes with that.
    Joined,
    /// The server is to be asked first.
    Ask,
    /// It is saved now.
    Now,
}

impl Formatting {
    /// Whether no document is asked about twice.
    pub open spec fn wf(self) -> bool {
        one_each(self.pending@)
    }

    /// Whether `id` is a formatting request of ours.
    pub fn asked(&self, id: u64) -> (asked: bool)
        ensures
            asked == (request_at(self.pending@, id, 0) is Some),
    {
        self.at_id(id).is_some()
    }

    fn at_id(&self, id: u64) -> (at: Option<usize>)
        ensures
            match at {
                Some(at) => at < self.pending@.len() && request_at(self.pending@, id, 0) == Some(
                    at as int,
                ),
                None => request_at(self.pending@, id, 0) is None,
            },
    {
        let mut i: usize = 0;
        while i < self.pending.len()
            invariant
                i <= self.pending@.len(),
                request_at(self.pending@, id, 0) == request_at(self.pending@, id, i as int),
            decreases self.pending@.len() - i,
        {
            if self.pending[i].id == id {
                return Some(i);
            }
            i = i + 1;
        }
        None
    }

    fn at_doc(&self, doc: usize) -> (at: Option<usize>)
        ensures
            match at {
                Some(at) => at < self.pending@.len() && doc_at(self.pending@, doc, 0) == Some(
                    at as int,
                ) && self.pending@[at as int].doc == doc,
                None => doc_at(self.pending@, doc, 0) is None && forall|k: int|
                    0 <= k < self.pending@.len() ==> (#[trigger] self.pending@[k]).doc != doc,
            },
    {
        let mut i: usize = 0;
        while i < self.pending.len()
            invariant
                i <= self.pending@.len(),
                doc_at(self.pending@, doc, 0) == doc_at(self.pending@, doc, i as int),
                forall|k: int| 0 <= k < i ==> (#[trigger] self.pending@[k]).doc != doc,
            decreases self.pending@.len() - i,
        {
            if self.pending[i].doc == doc {
                return Some(i);
            }
            i = i + 1;
        }
        None
    }

    /// When the first request still waiting stops being waited for.
    pub fn deadline(&self) -> (due: Option<u64>)
        ensures
            due == earliest(self.pending@, self.pending@.len() as int),
    {
        let mut due: Option<u64> = None;
        let mut i: usize = 0;
        while i < self.pending.len()
            invariant
                i <= self.pending@.len(),
                due == earliest(self.pending@, i as int),
            decreases self.pending@.len() - i,
        {
            let deadline = self.pending[i].deadline;
            due = match due {
                Some(first) => if first <= deadline {
                    Some(first)
                } else {
                    Some(deadline)
                },
                None => Some(deadline),
            };
            i = i + 1;
        }
        due
    }

    /// Format files in these languages before saving them.
    pub fn set_format_on_save(&mut self, languages: Vec<String>)
        ensures
            *final(self) == (Formatting { on_save: languages, ..*old(self) }),
    {
        self.on_save = languages;
    }

    /// Whether a language is formatted on save.
    pub open spec fn formats(self, language: Seq<char>) -> bool {
        exists|i: int| 0 <= i < self.on_save@.len() && (#[trigger] self.on_save@[i])@ == language
    }

    /// Whether a document in `language` is formatted on save; `lossy` is
    /// whether its text was read only in part.
    pub fn formats_on_save(&self, lossy: bool, language: &Option<String>) -> (formats: bool)
        ensures
            formats == (!lossy && (language matches Some(language) && self.formats(language@))),
    {
        if lossy {
            return false;
        }
        let Some(language) = language else {
            return false;
        };
        self.has(language)
    }

    fn has(&self, language: &String) -> (has: bool)
        ensures
            has == self.formats(language@),
    {
        let mut i: usize = 0;
        while i < self.on_save.len()
            invariant
                i <= self.on_save@.len(),
                forall|k: int| 0 <= k < i ==> (#[trigger] self.on_save@[k])@ != language@,
            decreases self.on_save@.len() - i,
        {
            if self.on_save[i] == *language {
                assert(self.on_save@[i as int]@ == language@);
                return true;
            }
            i = i + 1;
        }
        false
    }

    /// The request to be, for a server asked at `now`.
    pub open spec fn waiting(self, id: u64, doc: usize, save: bool, close: bool, now: u64)
        -> Pending {
        Pending {
            id,
            doc,
            save,
            close,
            deadline: held_time(held_time(now + self.timeout) + GRACE) as u64,
        }
    }

    fn wait_for(&mut self, id: u64, doc: usize, save: bool, close: bool, now: u64)
        ensures
            final(self).pending@ == old(self).pending@.push(
                old(self).waiting(id, doc, save, close, now),
            ),
            *final(self) == (Formatting { pending: final(self).pending, ..*old(self) }),
    {
        let deadline: u64 = now.saturating_add(self.timeout).saturating_add(GRACE);
        self.pending.push(Pending { id, doc, save, close, deadline });
    }

    /// Whether a document is being formatted already.
    pub fn busy(&self, doc: usize) -> (busy: bool)
        ensures
            busy == (doc_at(self.pending@, doc, 0) is Some),
    {
        self.at_doc(doc).is_some()
    }

    /// Format a document without saving it: its server was asked at `now`, or
    /// could not be, unless it is being formatted already. What is said.
    pub fn format_document(&mut self, doc: usize, sent: Result<u64, String>, now: u64) -> (said:
        String)
        requires
            old(self).wf(),
        ensures
            final(self).wf(),
            if doc_at(old(self).pending@, doc, 0) is Some {
                said@ == "Already formatting this file…"@ && *final(self) == *old(self)
            } else {
                match sent {
                    Ok(id) => {
                        &&& said@ == "Formatting…"@
                        &&& final(self).pending@ == old(self).pending@.push(
                            old(self).waiting(id, doc, false, false, now),
                        )
                        &&& *final(self) == (Formatting {
                            pending: final(self).pending,
                            ..*old(self)
                        })
                    },
                    Err(why) => said@ == "Cannot format this file: "@ + why@ + "."@
                        && *final(self) == *old(self),
                }
            },
    {
        if self.busy(doc) {
            return "Already formatting this file…".to_owned();
        }
        match sent {
            Ok(id) => {
                proof {
                    not_waited_for(self.pending@, doc, 0);
                }
                self.wait_for(id, doc, false, false, now);
                "Formatting…".to_owned()
            },
            Err(why) => join3("Cannot format this file: ", why.as_str(), "."),
        }
    }

    /// Save a document, and then close its tab where `close`: whether that is
    /// put off until a server answers. `formats` is whether it is formatted on
    /// save. One being formatted already, on demand or by a save a moment ago,
    /// is saved with that answer.
    pub fn format_then_save(&mut self, doc: usize, close: bool, formats: bool) -> (put_off: PutOff)
        requires
            old(self).wf(),
        ensures
            final(self).wf(),
            match doc_at(old(self).pending@, doc, 0) {
                Some(at) => {
                    let before = old(self).pending@[at];
                    &&& put_off == PutOff::Joined
                    &&& final(self).pending@ == old(self).pending@.update(
                        at,
                        Pending { save: true, close: before.close || close, ..before },
                    )
                    &&& *final(self) == (Formatting { pending: final(self).pending, ..*old(self) })
                },
                None => {
                    &&& *final(self) == *old(self)
                    &&& put_off == if formats {
                        PutOff::Ask
                    } else {
                        PutOff::Now
                    }
                },
            },
    {
        if let Some(at) = self.at_doc(doc) {
            let before = self.pending[at];
            self.pending.set(
                at,
                Pending { save: true, close: before.close || close, ..before },
            );
            return PutOff::Joined;
        }
        if formats {
            PutOff::Ask
        } else {
            PutOff::Now
        }
    }

    /// The server was asked to format `doc` before it is saved, at `now`, or
    /// could not be. Whether the save is put off: no server able to answer is
    /// no reason to hold it up.
    pub fn save_asked(&mut self, doc: usize, close: bool, sent: Option<u64>, now: u64) -> (put_off:
        bool)
        requires
            old(self).wf(),
            doc_at(old(self).pending@, doc, 0) is None,
        ensures
            final(self).wf(),
            put_off == (sent is Some),
            match sent {
                Some(id) => {
                    &&& final(self).pending@ == old(self).pending@.push(
                        old(self).waiting(id, doc, true, close, now),
                    )
                    &&& *final(self) == (Formatting { pending: final(self).pending, ..*old(self) })
                },
                None => *final(self) == *old(self),
            },
    {
        match sent {
            Some(id) => {
                proof {
                    not_waited_for(self.pending@, doc, 0);
                }
                self.wait_for(id, doc, true, close, now);
                true
            },
            None => false,
        }
    }

    /// A server answered formatting request `id`: what was waiting for it.
    pub fn format_answer(&mut self, id: u64) -> (pending: Option<Pending>)
        requires
            old(self).wf(),
        ensures
            final(self).wf(),
            match request_at(old(self).pending@, id, 0) {
                Some(at) => {
                    &&& pending == Some(old(self).pending@[at])
                    &&& final(self).pending@ == old(self).pending@.remove(at)
                    &&& *final(self) == (Formatting { pending: final(self).pending, ..*old(self) })
                },
                None => pending is None && *final(self) == *old(self),
            },
    {
        match self.at_id(id) {
            Some(at) => {
                let pending = self.pending.remove(at);
                Some(pending)
            },
            None => None,
        }
    }

    /// Stop waiting for every answer overdue at `now`: what was waiting for
    /// them, whose requests are to be taken back and whose saves made.
    pub fn format_tick(&mut self, now: u64) -> (late: Vec<Pending>)
        requires
            old(self).wf(),
        ensures
            final(self).wf(),
            late@ == overdue(old(self).pending@, now, old(self).pending@.len() as int),
            final(self).pending@ == in_time(
                old(self).pending@,
                now,
                old(self).pending@.len() as int,
            ),
            *final(self) == (Formatting { pending: final(self).pending, ..*old(self) }),
    {
        let mut all: Vec<Pending> = Vec::new();
        std::mem::swap(&mut all, &mut self.pending);
        let mut late: Vec<Pending> = Vec::new();
        let mut kept: Vec<Pending> = Vec::new();
        let mut i: usize = 0;
        while i < all.len()
            invariant
                i <= all@.len(),
                late@ =~= overdue(all@, now, i as int),
                kept@ =~= in_time(all@, now, i as int),
            decreases all@.len() - i,
        {
            if all[i].deadline <= now {
                late.push(all[i]);
            } else {
                kept.push(all[i]);
            }
            i = i + 1;
        }
        proof {
            fewer_are_one_each(all@, now, all@.len() as int);
        }
        self.pending = kept;
        late
    }

    /// Stop waiting for every answer: nun is about to quit. What was waiting,
    /// whose requests are to be taken back and whose saves made, because a save
    /// that was asked for must not be lost with it.
    pub fn save_before_quitting(&mut self) -> (waiting: Vec<Pending>)
        ensures
            final(self).wf(),
            waiting@ == old(self).pending@,
            final(self).pending@.len() == 0,
            *final(self) == (Formatting { pending: final(self).pending, ..*old(self) }),
    {
        let mut waiting: Vec<Pending> = Vec::new();
        std::mem::swap(&mut waiting, &mut self.pending);
        waiting
    }
}

/// Waiting for fewer still waits for no document twice.
proof fn fewer_are_one_each(pending: Seq<Pending>, now: u64, count: int)
    requires
        one_each(pending),
        0 <= count <= pending.len(),
    ensures
        one_each(in_time(pending, now, count)),
        forall|i: int|
            0 <= i < in_time(pending, now, count).len() ==> exists|k: int|
                0 <= k < count && pending[k] == #[trigger] in_time(pending, now, count)[i],
    decreases count,
{
    if count > 0 {
        fewer_are_one_each(pending, now, count - 1);
        let before = in_time(pending, now, count - 1);
        let all = in_time(pending, now, count);
        assert forall|i: int| 0 <= i < all.len() implies exists|k: int|
            0 <= k < count && pending[k] == #[trigger] all[i] by {
            if i < before.len() {
                assert(all[i] == before[i]);
                let k = choose|k: int| 0 <= k < count - 1 && pending[k] == before[i];
                assert(pending[k] == all[i]);
            } else {
                assert(pending[count - 1] == all[i]);
            }
        }
        assert forall|i: int, j: int| 0 <= i < j < all.len() implies (#[trigger] all[i]).doc != (
        #[trigger] all[j]).doc by {
            assert(all[i] == before[i]);
            if j < before.len() {
                assert(all[j] == before[j]);
            } else {
                let k = choose|k: int| 0 <= k < count - 1 && pending[k] == before[i];
                assert(pending[k].doc != pending[count - 1].doc);
            }
        }
    }
}

/// Nothing waited for is lost: once time has gone by, each is either still
/// waited for, its time not up, or handed back, its time up.
pub proof fn nothing_waited_for_is_lost(pending: Seq<Pending>, now: u64, count: int, i: int)
    requires
        0 <= i < count <= pending.len(),
    ensures
        pending[i].deadline <= now ==> overdue(pending, now, count).contains(pending[i]),
        pending[i].deadline > now ==> in_time(pending, now, count).contains(pending[i]),
        overdue(pending, now, count).len() + in_time(pending, now, count).len() == count,
    decreases count,
{
    counts_add_up(pending, now, count);
    let late = overdue(pending, now, count);
    let kept = in_time(pending, now, count);
    if i == count - 1 {
        if pending[i].deadline <= now {
            assert(late[late.len() - 1] == pending[i]);
        } else {
            assert(kept[kept.len() - 1] == pending[i]);
        }
    } else {
        nothing_waited_for_is_lost(pending, now, count - 1, i);
        if pending[i].deadline <= now {
            let before = overdue(pending, now, count - 1);
            let k = choose|k: int| 0 <= k < before.len() && before[k] == pending[i];
            assert(late[k] == pending[i]);
        } else {
            let before = in_time(pending, now, count - 1);
            let k = choose|k: int| 0 <= k < before.len() && before[k] == pending[i];
            assert(kept[k] == pending[i]);
        }
    }
}

proof fn counts_add_up(pending: Seq<Pending>, now: u64, count: int)
    requires
        0 <= count <= pending.len(),
    ensures
        overdue(pending, now, count).len() + in_time(pending, now, count).len() == count,
    decreases count,
{
    if count > 0 {
        counts_add_up(pending, now, count - 1);
    }
}

/// A save that was asked for happens: whatever is waited for comes back when
/// its deadline is reached, and the editor wakes no later than that.
pub proof fn a_save_asked_for_comes_back(pending: Seq<Pending>, i: int)
    requires
        0 <= i < pending.len(),
    ensures
        earliest(pending, pending.len() as int) matches Some(due) && due <= pending[i].deadline,
        overdue(pending, pending[i].deadline, pending.len() as int).contains(pending[i]),
{
    earliest_is_least(pending, pending.len() as int, i);
    nothing_waited_for_is_lost(pending, pending[i].deadline, pending.len() as int, i);
}

proof fn earliest_is_least(pending: Seq<Pending>, count: int, i: int)
    requires
        0 <= i < count <= pending.len(),
    ensures
        earliest(pending, count) matches Some(due) && due <= pending[i].deadline,
    decreases count,
{
    if i < count - 1 {
        earliest_is_least(pending, count - 1, i);
    }
}

/// Why a document cannot be formatted, where it cannot: whether it is open,
/// whether there are language servers, whether its own is ready, and whether
/// that formats files.
pub fn ask_format(open: bool, running: bool, ready: bool, formats: bool) -> (why: Option<String>)
    ensures
        words(why) == if !open {
            Some("it is no longer open"@)
        } else if !running {
            Some("no language server is running"@)
        } else if !ready {
            Some("its language server is not ready"@)
        } else if !formats {
            Some("its language server does not format files"@)
        } else {
            None
        },
{
    if !open {
        Some("it is no longer open".to_owned())
    } else if !running {
        Some("no language server is running".to_owned())
    } else if !ready {
        Some("its language server is not ready".to_owned())
    } else if !formats {
        Some("its language server does not format files".to_owned())
    } else {
        None
    }
}

/// How wide a tab is told to the server as being.
pub fn tab_size(width: usize) -> (size: u32)
    ensures
        size == if width <= u32::MAX {
            width as u32
        } else {
            4
        },
{
    if width <= u32::MAX as usize {
        width as u32
    } else {
        4
    }
}

/// Whether a server's answer about `version` of the text is to be put in, the
/// text being at `current`, or why not.
pub fn worth_applying(answer: Result<(), String>, current: Option<i32>, version: i32) -> (worth:
    Result<(), String>)
    ensures
        match answer {
            Err(why) => worth == Err::<(), String>(why),
            Ok(()) => if current == Some(version) {
                worth is Ok
            } else {
                worth matches Err(why) && why@
                    == "the file changed while it was being formatted"@
            },
        },
{
    match answer {
        Err(why) => Err(why),
        Ok(()) => {
            let same = match current {
                Some(current) => current == version,
                None => false,
            };
            if same {
                Ok(())
            } else {
                Err("the file changed while it was being formatted".to_owned())
            }
        },
    }
}

/// Why a server's edits cannot be put in, where they cannot: whether there are
/// language servers, whether the document is open, and whether its own server
/// still follows it.
pub fn cannot_apply(running: bool, open: bool, followed: bool) -> (why: Option<String>)
    ensures
        words(why) == if !running {
            Some("the language server stopped"@)
        } else if !open {
            Some("the file is no longer open"@)
        } else if !followed {
            Some("the language server stopped"@)
        } else {
            None
        },
{
    if !running {
        Some("the language server stopped".to_owned())
    } else if !open {
        Some("the file is no longer open".to_owned())
    } else if !followed {
        Some("the language server stopped".to_owned())
    } else {
        None
    }
}

/// Why edits that do not fit the text are not put in.
pub fn no_sense(error: &str) -> (why: String)
    ensures
        why@ == "the language server's edits made no sense ("@ + error@ + ")"@,
{
    join3("the language server's edits made no sense (", error, ")")
}

/// What is said once formatting is over and nothing is to be saved: whether it
/// changed anything, or why it did not happen.
pub fn formatted(result: Result<bool, String>) -> (said: String)
    ensures
        said@ == match result {
            Ok(true) => "Formatted."@,
            Ok(false) => "Already formatted."@,
            Err(why) => "Not formatted: "@ + why@ + "."@,
        },
{
    match result {
        Ok(changed) => if changed {
            "Formatted.".to_owned()
        } else {
            "Already formatted.".to_owned()
        },
        Err(why) => join3("Not formatted: ", why.as_str(), "."),
    }
}

/// What is said once formatting is over and the file has been saved, or could
/// not be: what saving it says, and why it is unformatted where it is.
pub fn saved(written: Result<String, String>, result: Result<bool, String>) -> (said: String)
    ensures
        said@ == match (written, result) {
            (Ok(saved), Ok(_)) => saved@,
            (Ok(saved), Err(why)) => saved@ + ", unformatted: "@ + why@ + "."@,
            (Err(failed), _) => failed@,
        },
{
    match (written, result) {
        (Ok(saved), Ok(_)) => saved,
        (Ok(saved), Err(why)) => {
            let mut said = join3(saved.as_str(), ", unformatted: ", why.as_str());
            said.append(".");
            said
        },
        (Err(failed), _) => failed,
    }
}

/// Whether the first indented line of `text` from line `line` up to line `end`
/// is indented with a tab.
pub open spec fn tabbed(text: Seq<char>, line: int, end: int) -> bool
    decreases end - line,
{
    if line >= end {
        false
    } else {
        let at = line_start(text, line);
        if at < text.len() && text[at] == '\t' {
            true
        } else if at < text.len() && text[at] == ' ' {
            false
        } else {
            tabbed(text, line + 1, end)
        }
    }
}

/// Whether a text's indentation is tabs, judged by the first indented line
/// among the first thousand.
pub fn indents_with_tabs(rope: &Rope) -> (tabs: bool)
    ensures
        ({
            let text = rope_text(*rope);
            let lines = breaks(text) + 1;
            tabs == tabbed(
                text,
                0,
                if lines <= MOST_LINES {
                    lines as int
                } else {
                    MOST_LINES as int
                },
            )
        }),
{
    let lines: usize = len_lines(rope);
    let end: usize = if lines <= MOST_LINES {
        lines
    } else {
        MOST_LINES
    };
    let len: usize = len_chars(rope);
    let ghost text = rope_text(*rope);
    let mut line: usize = 0;
    while line < end
        invariant
            line <= end <= lines,
            lines == breaks(text) + 1,
            end == if lines <= MOST_LINES {
                lines
            } else {
                MOST_LINES
            },
            text == rope_text(*rope),
            len == text.len(),
            tabbed(text, 0, end as int) == tabbed(text, line as int, end as int),
        decreases end - line,
    {
        let at: usize = line_to_char(rope, line);
        if at < len {
            let ch = char_at(rope, at);
            if ch == '\t' {
                return true;
            }
            if ch == ' ' {
                return false;
            }
        }
        line = line + 1;
    }
    false
}

/// The earliest deadline is one of those waited for, and there is none only where
/// nothing is waited for.
pub proof fn the_earliest_deadline_is_one_of_them(pending: Seq<Pending>, count: int)
    requires
        0 <= count <= pending.len(),
    ensures
        earliest(pending, count) is None <==> count == 0,
        earliest(pending, count) matches Some(due) ==> exists|i: int|
            0 <= i < count && (#[trigger] pending[i]).deadline == due,
    decreases count,
{
    if count > 0 {
        the_earliest_deadline_is_one_of_them(pending, count - 1);
        if let Some(due) = earliest(pending, count - 1) {
            let i = choose|i: int| 0 <= i < count - 1 && (#[trigger] pending[i]).deadline == due;
            assert(pending[i].deadline == due);
        }
        assert(pending[count - 1].deadline == pending[count - 1].deadline);
    }
}

/// An answer finds what waits for it by its number, and a document what waits for it
/// by its own; neither finds anything else.
pub proof fn what_waits_is_found_by_its_number(pending: Seq<Pending>, id: u64, doc: usize, from: int)
    requires
        0 <= from <= pending.len(),
    ensures
        match request_at(pending, id, from) {
            Some(at) => {
                &&& from <= at < pending.len()
                &&& pending[at].id == id
                &&& forall|i: int| from <= i < at ==> (#[trigger] pending[i]).id != id
            },
            None => forall|i: int| from <= i < pending.len() ==> (#[trigger] pending[i]).id != id,
        },
        match doc_at(pending, doc, from) {
            Some(at) => {
                &&& from <= at < pending.len()
                &&& pending[at].doc == doc
                &&& forall|i: int| from <= i < at ==> (#[trigger] pending[i]).doc != doc
            },
            None => forall|i: int| from <= i < pending.len() ==> (#[trigger] pending[i]).doc != doc,
        },
    decreases pending.len() - from,
{
    if from < pending.len() {
        what_waits_is_found_by_its_number(pending, id, doc, from + 1);
    }
}

/// Only what has run out of time is handed back, and only what has not is waited for.
pub proof fn only_what_has_run_out_is_handed_back(pending: Seq<Pending>, now: u64, count: int)
    requires
        0 <= count <= pending.len(),
    ensures
        forall|k: int|
            0 <= k < overdue(pending, now, count).len() ==> (#[trigger] overdue(
                pending,
                now,
                count,
            )[k]).deadline <= now,
        forall|k: int|
            0 <= k < in_time(pending, now, count).len() ==> (#[trigger] in_time(
                pending,
                now,
                count,
            )[k]).deadline > now,
    decreases count,
{
    if count > 0 {
        only_what_has_run_out_is_handed_back(pending, now, count - 1);
        let late = overdue(pending, now, count);
        let kept = in_time(pending, now, count);
        assert forall|k: int| 0 <= k < late.len() implies (#[trigger] late[k]).deadline <= now by {
            if k < overdue(pending, now, count - 1).len() {
                assert(late[k] == overdue(pending, now, count - 1)[k]);
            }
        }
        assert forall|k: int| 0 <= k < kept.len() implies (#[trigger] kept[k]).deadline > now by {
            if k < in_time(pending, now, count - 1).len() {
                assert(kept[k] == in_time(pending, now, count - 1)[k]);
            }
        }
    }
}

/// A server is given its time, and a little more, from when it is asked.
pub proof fn a_server_is_given_its_time(
    formatting: Formatting,
    id: u64,
    doc: usize,
    save: bool,
    close: bool,
    now: u64,
)
    requires
        now + formatting.timeout + GRACE <= u64::MAX,
    ensures
        ({
            let waiting = formatting.waiting(id, doc, save, close, now);
            &&& waiting.deadline == now + formatting.timeout + GRACE
            &&& waiting.id == id && waiting.doc == doc
            &&& waiting.save == save && waiting.close == close
        }),
{
}

/// A file is indented with tabs where the first of its lines that is indented starts
/// with one.
pub proof fn the_first_indented_line_tells_tabs(text: Seq<char>, line: int, end: int)
    requires
        line <= end,
    ensures
        tabbed(text, line, end) <==> exists|at: int|
            {
                &&& line <= at < end
                &&& #[trigger] begins_with(text, at, '\t')
                &&& forall|i: int| line <= i < at ==> !(#[trigger] begins_with(text, i, ' '))
            },
    decreases end - line,
{
    if line < end {
        the_first_indented_line_tells_tabs(text, line + 1, end);
        if begins_with(text, line, '\t') {
        } else if begins_with(text, line, ' ') {
            assert forall|at: int| line <= at < end && #[trigger] begins_with(text, at, '\t') implies !(
            forall|i: int| line <= i < at ==> !(#[trigger] begins_with(text, i, ' '))) by {
                assert(at != line);
                assert(begins_with(text, line, ' '));
            }
        } else {
            if tabbed(text, line + 1, end) {
                let at = choose|at: int|
                    {
                        &&& line + 1 <= at < end
                        &&& #[trigger] begins_with(text, at, '\t')
                        &&& forall|i: int|
                            line + 1 <= i < at ==> !(#[trigger] begins_with(text, i, ' '))
                    };
                assert(begins_with(text, at, '\t'));
            }
            if exists|at: int|
                {
                    &&& line <= at < end
                    &&& #[trigger] begins_with(text, at, '\t')
                    &&& forall|i: int| line <= i < at ==> !(#[trigger] begins_with(text, i, ' '))
                } {
                let at = choose|at: int|
                    {
                        &&& line <= at < end
                        &&& #[trigger] begins_with(text, at, '\t')
                        &&& forall|i: int| line <= i < at ==> !(#[trigger] begins_with(text, i, ' '))
                    };
                assert(at != line);
                assert(begins_with(text, at, '\t'));
            }
        }
    }
}

/// Whether line `line` of `text` begins with `ch`.
pub open spec fn begins_with(text: Seq<char>, line: int, ch: char) -> bool {
    line_start(text, line) < text.len() && text[line_start(text, line)] == ch
}

/// A file is formatted as it is saved where its language is one of those that are.
pub proof fn a_language_is_formatted_where_it_is_listed(formatting: Formatting, at: int)
    requires
        0 <= at < formatting.on_save@.len(),
    ensures
        formatting.formats(formatting.on_save@[at]@),
        forall|language: Seq<char>| #[trigger]
            formatting.formats(language) ==> exists|i: int|
                0 <= i < formatting.on_save@.len() && (#[trigger] formatting.on_save@[i])@
                    == language,
{
}

} // verus!
