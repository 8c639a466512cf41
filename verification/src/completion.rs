//! Completion: suggestions from the language server, offered as you type and
//! never waited for.
//!
//! **Asking.** A character the server declares a trigger — `.`, `::` — asks
//! it, and so does the explicit command. The question goes out after the
//! keystroke's own edit, so the server is always asked about text it has been
//! told about.
//!
//! **Typing on.** The popup is not a mode. Every key but the few it answers
//! edits the text exactly as it would without it. Anything but typing or
//! deleting at the caret closes the popup and takes back what it asked, so an
//! answer about a word nobody is completing any more never lands.
//!
//! **Snippets.** A snippet's placeholders become tab-stops. Reaching the final
//! stop, pressing Escape, or moving the caret out of the stop ends it, and Tab
//! goes back to typing a tab.

use vstd::prelude::*;

use crate::edit::Edit;
use crate::geometry::Rect;
use crate::input::{KeyCode, KeyEvent};
use crate::outcome::Outcome;
use crate::popup::{
    merge_resolved, rows_of, Here, Item, Pending, Popup, Resolved, Shown,
};
use crate::reply::{words, Reply};
use crate::rope::{
    a_place_is_within_its_line, char_at, char_to_line, line_of, line_start, line_to_char, slice,
};
use crate::scroll::{kept_in_view, wheeled};
use crate::spans::Selection;
use crate::stops::{covers, first_cover, place_in, selecting, Tabstops};
use crate::target::{Focus, Target};
use crate::text::{chars_of, join3};
use crate::words::{clusters_before, is_word, word_char, word_start, word_start_in};

verus! {

/// Why a question is asked.
#[derive(Debug, Clone, Copy, PartialEq, Eq, Structural)]
pub enum Trigger {
    /// Somebody asked.
    Invoked,
    /// A trigger character was typed.
    Character(char),
    /// The list was incomplete and the word has changed.
    Incomplete,
}

/// Completion's state: the popup, the tab-stops of an inserted snippet, and
/// what the current keystroke has asked for.
#[derive(Debug)]
pub struct Completion {
    /// The popup.
    pub popup: Option<Popup>,
    /// The tab-stops of an inserted snippet.
    pub stops: Option<Tabstops>,
    /// The character the key being handled types, until the event is over.
    pub typed: Option<char>,
    /// A question to ask once the event's edits have gone to the server.
    pub wanted: Option<Trigger>,
    /// Whether the tab-stops ended during the event, and their marks have to
    /// come off the screen.
    pub ended: bool,
}

/// What a key does to completion.
#[derive(Debug, Clone, Copy, PartialEq, Eq, Structural)]
pub enum KeyTask {
    /// Move the selection.
    Step {
        /// By how many rows.
        rows: i32,
        /// Whether it goes round the ends.
        wrap: bool,
    },
    /// Accept the selected item.
    Accept {
        /// Over the rest of the word too.
        whole_word: bool,
    },
    /// The popup was put away.
    PutAway,
    /// Go to the next stop, or the one before.
    NextStop {
        /// Whether to the next.
        forward: bool,
    },
}

/// What came of a key.
#[derive(Debug)]
pub struct KeyAnswer {
    /// What it does to completion, when it is completion's to have.
    pub task: Option<KeyTask>,
    /// Questions to take back.
    pub cancel: Vec<u64>,
}

/// What following an event comes to.
#[derive(Debug)]
pub struct Follow {
    /// What the caller does next.
    pub outcome: Outcome,
    /// Questions to take back.
    pub cancel: Vec<u64>,
    /// What has been typed of the word, where the rows have to be found again
    /// for it.
    pub refilter: Option<String>,
    /// A question to ask.
    pub ask: Option<Trigger>,
}

/// How asking for completions went.
#[derive(Debug, Clone, Copy, PartialEq, Eq, Structural)]
pub enum Asking {
    /// The file has no language server.
    NoServer,
    /// It has one that offers no completions, or cannot be asked here.
    NotOffered,
    /// It is not ready to be asked.
    NotReady,
    /// The question is on its way.
    Sent(Pending),
}

/// Which of a popup's questions an answer is to.
#[derive(Debug, Clone, Copy, PartialEq, Eq, Structural)]
pub enum Answered {
    /// None that is still of use.
    Nothing,
    /// What else there is to say of an item.
    Item(usize),
    /// What there is to offer, as of this question.
    Items(u64),
}

/// The item taken, and what its insertion is worked out from.
#[derive(Debug, Clone, Copy, PartialEq, Eq, Structural)]
pub struct Chosen {
    /// Which of the items.
    pub item: usize,
    /// The question it answers.
    pub asked: u64,
    /// Where the word being completed starts.
    pub start: usize,
}

/// What accepting an item comes to.
#[derive(Debug)]
pub struct Accepted {
    /// The item taken, if there is one.
    pub chosen: Option<Chosen>,
    /// What comes of it.
    pub reply: Reply,
}

/// What taking in a server's items comes to.
#[derive(Debug)]
pub struct Taken {
    /// What comes of it at once.
    pub reply: Reply,
    /// What the items are to be filtered by, where they were taken in.
    pub query: Option<String>,
}

/// Whether the key types its character, rather than commanding something.
pub open spec fn types(event: KeyEvent) -> Option<char> {
    match event.code {
        KeyCode::Char(ch) => if event.modifiers.control || event.modifiers.alt
            || event.modifiers.cmd {
            None
        } else {
            Some(ch)
        },
        _ => None,
    }
}

/// What a key does while the popup has something on screen.
pub open spec fn popup_task(event: KeyEvent, page: i32) -> Option<KeyTask> {
    let bare = event.modifiers.spec_bare();
    match event.code {
        KeyCode::Up => if bare {
            Some(KeyTask::Step { rows: (-1) as i32, wrap: true })
        } else {
            None
        },
        KeyCode::Down => if bare {
            Some(KeyTask::Step { rows: 1, wrap: true })
        } else {
            None
        },
        KeyCode::PageUp => if bare {
            Some(KeyTask::Step { rows: (-page) as i32, wrap: false })
        } else {
            None
        },
        KeyCode::PageDown => if bare {
            Some(KeyTask::Step { rows: page, wrap: false })
        } else {
            None
        },
        KeyCode::Enter => if bare {
            Some(KeyTask::Accept { whole_word: false })
        } else if event.modifiers.spec_shift_alone() {
            Some(KeyTask::Accept { whole_word: true })
        } else {
            None
        },
        KeyCode::Tab => if bare {
            Some(KeyTask::Accept { whole_word: false })
        } else {
            None
        },
        KeyCode::Esc => Some(KeyTask::PutAway),
        _ => None,
    }
}

/// What a key does while a snippet's stops are live and the popup is not on
/// screen.
pub open spec fn stop_task(event: KeyEvent) -> Option<KeyTask> {
    match event.code {
        KeyCode::Tab => if event.modifiers.spec_bare() {
            Some(KeyTask::NextStop { forward: true })
        } else if event.modifiers.spec_shift_alone() {
            Some(KeyTask::NextStop { forward: false })
        } else {
            None
        },
        KeyCode::BackTab => Some(KeyTask::NextStop { forward: false }),
        _ => None,
    }
}

fn task_of_popup(event: &KeyEvent, page: i32) -> (task: Option<KeyTask>)
    requires
        0 <= page,
    ensures
        task == popup_task(*event, page),
{
    let bare = event.modifiers.bare();
    match event.code {
        KeyCode::Up if bare => Some(KeyTask::Step { rows: -1, wrap: true }),
        KeyCode::Down if bare => Some(KeyTask::Step { rows: 1, wrap: true }),
        KeyCode::PageUp if bare => Some(KeyTask::Step { rows: -page, wrap: false }),
        KeyCode::PageDown if bare => Some(KeyTask::Step { rows: page, wrap: false }),
        KeyCode::Enter if bare => Some(KeyTask::Accept { whole_word: false }),
        KeyCode::Tab if bare => Some(KeyTask::Accept { whole_word: false }),
        KeyCode::Enter if event.modifiers.shift_alone() => Some(
            KeyTask::Accept { whole_word: true },
        ),
        KeyCode::Esc => Some(KeyTask::PutAway),
        _ => None,
    }
}

fn task_of_stops(event: &KeyEvent) -> (task: Option<KeyTask>)
    ensures
        task == stop_task(*event),
{
    match event.code {
        KeyCode::Tab if event.modifiers.bare() => Some(KeyTask::NextStop { forward: true }),
        KeyCode::BackTab => Some(KeyTask::NextStop { forward: false }),
        KeyCode::Tab if event.modifiers.shift_alone() => Some(KeyTask::NextStop { forward: false }),
        _ => None,
    }
}

/// Whether the server asks to be asked when `ch` is typed: one of its triggers
/// ends in it.
pub open spec fn triggers_on(triggers: Seq<String>, ch: char) -> bool {
    exists|i: int|
        0 <= i < triggers.len() && (#[trigger] triggers[i])@.len() > 0 && triggers[i]@.last() == ch
}

/// Whether the server asks to be asked when `ch` is typed.
pub fn is_trigger(triggers: &Vec<String>, ch: char) -> (asks: bool)
    ensures
        asks == triggers_on(triggers@, ch),
{
    let mut i: usize = 0;
    while i < triggers.len()
        invariant
            i <= triggers@.len(),
            forall|k: int|
                0 <= k < i ==> !((#[trigger] triggers@[k])@.len() > 0 && triggers@[k]@.last()
                    == ch),
        decreases triggers@.len() - i,
    {
        let chars = chars_of(triggers[i].as_str());
        if chars.len() > 0 && chars[chars.len() - 1] == ch {
            assert(triggers@[i as int]@.last() == ch);
            return true;
        }
        i = i + 1;
    }
    false
}

/// Whether `ch` is what the key just typed, just before the caret.
pub open spec fn typed_at(here: Here, ch: char) -> bool {
    here.typing && here.primary.head > 0 && here.chars()[here.primary.head - 1] == ch
}

/// Whether `ch` is what the key just typed, just before the caret.
pub fn typed_here(here: &Here, ch: char) -> (is: bool)
    requires
        here.valid(),
    ensures
        is == typed_at(*here, ch),
{
    here.typing && here.primary.head > 0 && char_at(here.text, here.primary.head - 1) == ch
}

/// Where completion starts for a question asked for this reason: at the caret
/// for a trigger character, and otherwise at the start of the word.
pub open spec fn question_start(here: Here, trigger: Trigger) -> int {
    match trigger {
        Trigger::Character(_) => here.primary.head as int,
        _ => word_start_in(
            clusters_before(here.chars(), here.primary.head as int),
            here.primary.head as int,
        ),
    }
}

/// Whether `popup` is a fresh one, on the word that starts at `start`.
pub open spec fn is_fresh(
    popup: Popup,
    here: Here,
    start: int,
    explicit: bool,
    pending: Option<Pending>,
) -> bool {
    let text = here.chars();
    let head = here.primary.head as int;
    let line = line_of(text, head) as int;
    &&& popup.doc == here.doc
    &&& popup.start == start
    &&& popup.line == line
    &&& popup.before@ == text.subrange(line_start(text, line), start)
    &&& popup.after@ == text.subrange(head, crate::rope::line_end(text, line))
    &&& popup.carets == here.carets
    &&& popup.explicit == explicit
    &&& popup.pending == pending
    &&& popup.asked is None
    &&& popup.items@.len() == 0
    &&& !popup.incomplete
    &&& popup.resolving is None
    &&& popup.query@ == text.subrange(start, head)
    &&& popup.shown@.len() == 0
    &&& popup.selected == 0
    &&& popup.scroll == 0
    &&& popup.wf()
}

/// The first word start a server gave among `items` from the `from`th on.
pub open spec fn first_start(items: Seq<Item>, from: int) -> Option<usize>
    decreases items.len() - from,
{
    if from < 0 || from >= items.len() {
        None
    } else if items[from].word_start is Some {
        items[from].word_start
    } else {
        first_start(items, from + 1)
    }
}

/// The first row, from the `from`th on, whose item the server would have
/// selected; the top row where there is none.
pub open spec fn first_preselected(shown: Seq<Shown>, items: Seq<Item>, from: int) -> int
    decreases shown.len() - from,
{
    if from < 0 || from >= shown.len() {
        0
    } else if items[shown[from].index as int].preselect {
        from
    } else {
        first_preselected(shown, items, from + 1)
    }
}

/// What the server is told of why it is asked.
#[derive(Debug, Clone, Copy, PartialEq, Eq, Structural)]
pub enum Context {
    /// Somebody asked.
    Invoked,
    /// This character was typed.
    TriggerCharacter(char),
    /// Its last list was incomplete.
    Incomplete,
}

/// What the server is told of why it is asked.
pub fn context_of(trigger: Trigger) -> (context: Context)
    ensures
        context == match trigger {
            Trigger::Invoked => Context::Invoked,
            Trigger::Character(ch) => Context::TriggerCharacter(ch),
            Trigger::Incomplete => Context::Incomplete,
        },
{
    match trigger {
        Trigger::Invoked => Context::Invoked,
        Trigger::Character(ch) => Context::TriggerCharacter(ch),
        Trigger::Incomplete => Context::Incomplete,
    }
}

impl Completion {
    /// Whether the popup's rows are rows of its items.
    pub open spec fn wf(self) -> bool {
        self.popup matches Some(popup) ==> popup.wf()
    }

    /// Whether the popup has something on screen.
    pub open spec fn is_showing(self) -> bool {
        self.popup matches Some(popup) && popup.shown@.len() > 0
    }

    /// The questions the popup has asked that are still on their way.
    pub open spec fn asking(self) -> Seq<u64> {
        match self.popup {
            Some(popup) => popup.asking(),
            None => Seq::empty(),
        }
    }

    /// Nothing on screen, and nothing asked.
    pub fn new() -> (completion: Self)
        ensures
            completion == (Completion {
                popup: None,
                stops: None,
                typed: None,
                wanted: None,
                ended: false,
            }),
            completion.wf(),
    {
        Completion { popup: None, stops: None, typed: None, wanted: None, ended: false }
    }

    /// Follow `edits` just made to `doc`, oldest first, each in the text as it
    /// stood before it.
    pub fn follow_edits(&mut self, doc: usize, edits: &Vec<Edit>)
        ensures
            *final(self) == (Completion { stops: final(self).stops, ..*old(self) }),
            match (old(self).stops, final(self).stops) {
                (None, None) => true,
                (Some(before), Some(after)) => {
                    &&& after.doc == before.doc
                    &&& after.primary == before.primary
                    &&& after.current == before.current
                    &&& doc != before.doc ==> after == before
                    &&& doc == before.doc ==> {
                        &&& after.model().len() == before.model().len()
                        &&& forall|i: int|
                            0 <= i < before.model().len() ==> #[trigger] after.model()[i]
                                == crate::stops::mapped_stop(
                                before.model()[i],
                                edits@,
                                i == before.current,
                            )
                        &&& after.others@ == Seq::new(
                            before.others@.len(),
                            |i: int|
                                crate::stops::mapped_through(before.others@[i], edits@, false),
                        )
                        &&& after.len == crate::stops::len_after(before.len, edits@)
                    }
                },
                _ => false,
            },
    {
        if let Some(mut stops) = self.stops.take() {
            stops.follow_edits(doc, edits);
            self.stops = Some(stops);
        }
    }

    /// Put the popup away, and take back what it asked.
    pub fn close_completion(&mut self) -> (cancel: Vec<u64>)
        ensures
            *final(self) == (Completion { popup: None, ..*old(self) }),
            cancel@ == old(self).asking(),
    {
        match self.popup.take() {
            Some(popup) => popup.questions(),
            None => Vec::new(),
        }
    }

    /// End the tab-stops: Tab types a tab again, and their marks come off.
    pub fn end_snippet(&mut self)
        ensures
            *final(self) == (Completion {
                stops: None,
                ended: old(self).ended || old(self).stops is Some,
                ..*old(self)
            }),
    {
        if self.stops.is_some() {
            self.ended = true;
        }
        self.stops = None;
    }

    /// Whether the popup has something on screen.
    pub fn completion_showing(&self) -> (showing: bool)
        ensures
            showing == self.is_showing(),
    {
        match &self.popup {
            Some(popup) => popup.shown.len() > 0,
            None => false,
        }
    }

    /// What a key does to completion, when it is completion's to have.
    pub open spec fn task_for(self, event: KeyEvent, chord: bool, focus: Focus, page: i32) -> Option<
        KeyTask,
    > {
        if chord || focus != Focus::Editor {
            None
        } else if self.is_showing() {
            popup_task(event, page)
        } else if self.stops is Some {
            stop_task(event)
        } else {
            None
        }
    }

    /// The questions a key takes back: Escape puts the popup away, whether it
    /// is on screen yet or has only been asked about.
    pub open spec fn taken_back(self, event: KeyEvent, chord: bool, focus: Focus) -> Seq<u64> {
        if chord || focus != Focus::Editor || !(event.code is Esc) {
            Seq::empty()
        } else {
            self.asking()
        }
    }

    /// Completion after a key: what it types is remembered, and Escape puts the
    /// popup away, or else ends the snippet.
    pub open spec fn after_key(self, event: KeyEvent, chord: bool, focus: Focus) -> Completion {
        let typed = match types(event) {
            Some(ch) => Some(ch),
            None => self.typed,
        };
        if chord || focus != Focus::Editor {
            self
        } else if !(event.code is Esc) {
            Completion { typed, ..self }
        } else if self.is_showing() {
            Completion { popup: None, typed, ..self }
        } else {
            Completion {
                popup: None,
                stops: None,
                typed,
                ended: self.ended || self.stops is Some,
                ..self
            }
        }
    }

    /// A key, before the keymap has it: the few the popup and the tab-stops
    /// answer. Everything else goes on to edit the text as usual. `chord` is
    /// whether a chord is half typed, and `page` how many rows a page is.
    pub fn completion_key(&mut self, event: &KeyEvent, chord: bool, focus: Focus, page: i32) -> (
    answer: KeyAnswer)
        requires
            0 <= page,
        ensures
            answer.task == old(self).task_for(*event, chord, focus, page),
            answer.cancel@ == old(self).taken_back(*event, chord, focus),
            *final(self) == old(self).after_key(*event, chord, focus),
    {
        let none: Vec<u64> = Vec::new();
        if chord || focus != Focus::Editor {
            return KeyAnswer { task: None, cancel: none };
        }
        if let KeyCode::Char(ch) = event.code {
            if !event.modifiers.control && !event.modifiers.alt && !event.modifiers.cmd {
                self.typed = Some(ch);
            }
        }
        let escape = matches!(event.code, KeyCode::Esc);
        if self.completion_showing() {
            let task = task_of_popup(event, page);
            if escape {
                let cancel = self.close_completion();
                return KeyAnswer { task, cancel };
            }
            return KeyAnswer { task, cancel: none };
        }
        let cancel: Vec<u64> = if escape {
            self.close_completion()
        } else {
            none
        };
        let task: Option<KeyTask> = if self.stops.is_some() {
            task_of_stops(event)
        } else {
            None
        };
        if escape {
            self.end_snippet();
        }
        KeyAnswer { task, cancel }
    }

    /// Move the selection by `rows`, wrapping round the ends when `wrap`, with
    /// `height` rows of the popup in view.
    pub fn completion_step(&mut self, rows: i32, wrap: bool, height: usize) -> (outcome: Outcome)
        ensures
            match (old(self).popup, final(self).popup) {
                (None, None) => outcome == Outcome::Continue && *final(self) == *old(self),
                (Some(before), Some(after)) => {
                    let selected = crate::popup::stepped(
                        before.selected as int,
                        rows as int,
                        before.shown@.len() as int,
                        wrap,
                    );
                    &&& outcome == Outcome::Redraw
                    &&& after.selected == selected
                    &&& after.scroll == kept_in_view(selected, before.scroll as int, height as int)
                    &&& after == (Popup {
                        selected: after.selected,
                        scroll: after.scroll,
                        ..before
                    })
                    &&& *final(self) == (Completion { popup: Some(after), ..*old(self) })
                },
                _ => false,
            },
    {
        match self.popup.take() {
            Some(mut popup) => {
                popup.step(rows, wrap, height);
                self.popup = Some(popup);
                Outcome::Redraw
            },
            None => Outcome::Continue,
        }
    }

    /// The wheel over the popup, with `height` rows of it in view, scrolls it,
    /// leaving the selection alone.
    pub fn completion_scroll(&mut self, down: bool, height: usize) -> (outcome: Outcome)
        ensures
            match (old(self).popup, final(self).popup) {
                (None, None) => outcome == Outcome::Continue && *final(self) == *old(self),
                (Some(before), Some(after)) => {
                    &&& outcome == Outcome::Redraw
                    &&& after.scroll == wheeled(
                        before.scroll as int,
                        down,
                        3,
                        before.shown@.len() as int,
                        height as int,
                    )
                    &&& after == (Popup { scroll: after.scroll, ..before })
                    &&& *final(self) == (Completion { popup: Some(after), ..*old(self) })
                },
                _ => false,
            },
    {
        match self.popup.take() {
            Some(mut popup) => {
                popup.wheel(down, height);
                self.popup = Some(popup);
                Outcome::Redraw
            },
            None => Outcome::Continue,
        }
    }

    // ── following along ─────────────────────────────────────────────────────

    /// Whether the tab-stops still describe the text, and the caret is still
    /// in the current stop. `focused` is whether the text has the keyboard.
    pub open spec fn stops_hold(self, here: Here, focused: bool) -> bool {
        self.stops matches Some(stops) && focused && stops.trusted(
            here.doc,
            here.chars().len() as usize,
        ) && stops.current < stops.model().len() && covers(
            stops.model()[stops.current as int],
            here.primary.head,
        )
    }

    /// The stop the caret went to, when it is in another and the stops can be
    /// trusted. The final one does not count: into it, the snippet is done.
    pub open spec fn stop_gone_to(self, here: Here, focused: bool) -> Option<int> {
        match self.stops {
            Some(stops) => if focused && stops.trusted(here.doc, here.chars().len() as usize) {
                match first_cover(stops.model(), here.primary.head, 0) {
                    Some(index) => if index + 1 < stops.model().len() {
                        Some(index)
                    } else {
                        None
                    },
                    None => None,
                }
            } else {
                None
            },
            None => None,
        }
    }

    /// The tab-stops once the caret is where it is.
    pub open spec fn stops_after(self, here: Here, focused: bool) -> Option<Tabstops> {
        if self.stops is None || self.stops_hold(here, focused) {
            self.stops
        } else {
            match self.stop_gone_to(here, focused) {
                Some(index) => Some(Tabstops { current: index as usize, ..self.stops->0 }),
                None => None,
            }
        }
    }

    /// What has been typed of the popup's word, while it is still the word
    /// being completed.
    pub open spec fn query_now(self, here: Here) -> Option<Seq<char>> {
        match self.popup {
            Some(popup) => popup.query_at(here),
            None => None,
        }
    }

    /// The character just typed, where it is just before the caret.
    pub open spec fn typed_now(self, here: Here) -> Option<char> {
        match self.typed {
            Some(ch) => if typed_at(here, ch) {
                Some(ch)
            } else {
                None
            },
            None => None,
        }
    }

    /// Whether the rows have to be found again for what is typed now.
    pub open spec fn query_changed(self, here: Here) -> bool {
        self.popup matches Some(popup) && (self.query_now(here) matches Some(query) && query
            != popup.query@)
    }

    /// Whether the popup closes: the word is no longer being completed, or a
    /// character that ends it was typed.
    pub open spec fn popup_closes(self, here: Here, triggers: Seq<String>) -> bool {
        self.popup is Some && (self.query_now(here) is None || (self.typed_now(here) matches Some(
            ch,
        ) && !triggers_on(triggers, ch) && !word_char(ch)))
    }

    /// What is asked once the event is over.
    pub open spec fn asked_after(self, here: Here, triggers: Seq<String>) -> Option<Trigger> {
        match self.typed_now(here) {
            Some(ch) if triggers_on(triggers, ch) => Some(Trigger::Character(ch)),
            _ => if self.wanted is Some {
                self.wanted
            } else if self.query_changed(here) && self.popup->0.incomplete {
                Some(Trigger::Incomplete)
            } else {
                None
            },
        }
    }

    /// After every event, once its edits have gone to the server: close what
    /// no longer applies, say what needs filtering again, and what needs
    /// asking. `focused` is whether the text has the keyboard, and `triggers`
    /// the characters the server asks to be asked on.
    pub fn completion_follow(&mut self, here: &Here, focused: bool, triggers: &Vec<String>) -> (
    follow: Follow)
        requires
            old(self).wf(),
            here.valid(),
        ensures
            final(self).wf(),
            final(self).typed is None,
            final(self).wanted is None,
            !final(self).ended,
            final(self).stops == old(self).stops_after(*here, focused),
            final(self).popup == if old(self).popup_closes(*here, triggers@) {
                None
            } else {
                old(self).popup
            },
            follow.cancel@ == if old(self).popup_closes(*here, triggers@) {
                old(self).asking()
            } else {
                Seq::empty()
            },
            words(follow.refilter) == if old(self).query_changed(*here)
                && !old(self).popup_closes(*here, triggers@) {
                old(self).query_now(*here)
            } else {
                None
            },
            follow.ask == old(self).asked_after(*here, triggers@),
            follow.outcome == Outcome::spec_redraw_if(
                old(self).ended || (old(self).stops is Some && !old(self).stops_hold(
                    *here,
                    focused,
                )) || old(self).popup_closes(*here, triggers@) || old(self).query_changed(*here),
            ),
    {
        let typed = self.typed.take();
        let mut redraw = false;
        let len: usize = crate::rope::len_chars(here.text);
        let caret: usize = here.primary.head;

        if let Some(mut stops) = self.stops.take() {
            let trusted = focused && here.doc == stops.doc && len == stops.len;
            if trusted && stops.stop_contains(stops.current, caret) {
                self.stops = Some(stops);
            } else {
                // A click into another stop goes to it, as Tab would have;
                // into the final one, it is done. Either way the marks on
                // screen change.
                redraw = true;
                if trusted {
                    if let Some(index) = stops.stop_under(caret) {
                        if index < stops.stops.len() - 1 {
                            stops.current = index;
                            self.stops = Some(stops);
                        }
                    }
                }
            }
        }
        if self.ended {
            redraw = true;
            self.ended = false;
        }

        let mut refilter: Option<String> = None;
        let mut close = false;
        let mut changed = false;
        if let Some(popup) = &self.popup {
            match popup.popup_query(here) {
                None => {
                    close = true;
                },
                Some(query) => {
                    if query != popup.query {
                        changed = true;
                        if popup.incomplete && self.wanted.is_none() {
                            self.wanted = Some(Trigger::Incomplete);
                        }
                        refilter = Some(query);
                    }
                },
            }
        }

        if let Some(ch) = typed {
            if typed_here(here, ch) {
                if is_trigger(triggers, ch) {
                    self.wanted = Some(Trigger::Character(ch));
                } else if !is_word(ch) && self.popup.is_some() {
                    close = true;
                }
            }
        }

        let cancel: Vec<u64> = if close {
            self.close_completion()
        } else {
            Vec::new()
        };
        if close {
            refilter = None;
        }
        let ask = self.wanted.take();
        Follow { outcome: Outcome::redraw_if(redraw || close || changed), cancel, refilter, ask }
    }

    /// The rows were found again for `query`: show them from the top.
    pub fn refilter(&mut self, query: String, shown: Vec<Shown>)
        requires
            old(self).wf(),
            old(self).popup matches Some(popup) ==> rows_of(shown@, popup.items@.len()),
        ensures
            final(self).wf(),
            match (old(self).popup, final(self).popup) {
                (None, None) => *final(self) == *old(self),
                (Some(before), Some(after)) => {
                    &&& after == (Popup { query, shown, selected: 0, scroll: 0, ..before })
                    &&& *final(self) == (Completion { popup: Some(after), ..*old(self) })
                },
                _ => false,
            },
    {
        if let Some(mut popup) = self.popup.take() {
            popup.refilter(query, shown);
            self.popup = Some(popup);
        }
    }

    // ── asking ──────────────────────────────────────────────────────────────

    /// A question was to be asked for this reason, and `asking` says how that
    /// went. Asking again for the same word keeps what is on screen until the
    /// answer comes; anything else starts a new popup.
    pub fn ask_completion(&mut self, trigger: Trigger, focus: Focus, asking: Asking, here: &Here)
        -> (reply: Reply)
        requires
            old(self).wf(),
            here.valid(),
        ensures
            final(self).wf(),
            focus != Focus::Editor ==> {
                &&& reply.outcome == Outcome::Continue
                &&& reply.says() is None
                &&& reply.cancel@.len() == 0
                &&& *final(self) == *old(self)
            },
            focus == Focus::Editor ==> match asking {
                Asking::Sent(pending) => {
                    &&& reply.outcome == Outcome::Continue
                    &&& reply.says() is None
                    &&& if trigger == Trigger::Incomplete && old(self).popup is Some {
                        &&& final(self).popup == Some(
                            Popup { pending: Some(pending), ..old(self).popup->0 },
                        )
                        &&& reply.cancel@ == match old(self).popup->0.pending {
                            Some(before) => seq![before.id],
                            None => Seq::empty(),
                        }
                    } else {
                        &&& final(self).popup matches Some(popup) && is_fresh(
                            popup,
                            *here,
                            question_start(*here, trigger),
                            trigger == Trigger::Invoked,
                            Some(pending),
                        )
                        &&& reply.cancel@ == old(self).asking()
                    }
                    &&& *final(self) == (Completion { popup: final(self).popup, ..*old(self) })
                },
                _ => {
                    &&& reply.outcome == Outcome::Redraw
                    &&& reply.cancel@.len() == 0
                    &&& *final(self) == *old(self)
                    &&& reply.says() == if trigger == Trigger::Invoked {
                        Some(
                            match asking {
                                Asking::NoServer =>
                                    "This file has no language server to complete from."@,
                                Asking::NotOffered =>
                                    "The language server offers no completions here."@,
                                _ => "The language server is not ready yet."@,
                            },
                        )
                    } else {
                        None
                    }
                },
            },
    {
        if focus != Focus::Editor {
            return Reply::just(Outcome::Continue);
        }
        let explicit = trigger == Trigger::Invoked;
        let pending = match asking {
            Asking::Sent(pending) => pending,
            _ => {
                if !explicit {
                    return Reply::just(Outcome::Redraw);
                }
                let why = match asking {
                    Asking::NoServer => "This file has no language server to complete from.",
                    Asking::NotOffered => "The language server offers no completions here.",
                    _ => "The language server is not ready yet.",
                };
                return Reply::saying(why.to_owned());
            },
        };
        let mut reply = Reply::just(Outcome::Continue);
        if trigger == Trigger::Incomplete && self.popup.is_some() {
            if let Some(mut popup) = self.popup.take() {
                if let Some(before) = popup.pending {
                    reply.cancel.push(before.id);
                }
                popup.pending = Some(pending);
                self.popup = Some(popup);
            }
            return reply;
        }
        reply.cancel = self.close_completion();
        proof {
            a_place_is_within_its_line(here.chars(), here.primary.head as int);
        }
        let start: usize = match trigger {
            Trigger::Character(_) => here.primary.head,
            _ => word_start(here.text, here.primary.head),
        };
        self.popup = Some(Popup::open(here, start, explicit, Some(pending)));
        reply
    }

    /// Whether an answer to question `id` is to one of the popup's.
    pub open spec fn owns(self, id: u64) -> bool {
        self.popup matches Some(popup) && ((popup.pending matches Some(pending) && pending.id == id)
            || (popup.resolving matches Some(about) && about.0 == id))
    }

    /// Whether an answer to question `id` is to one of the popup's.
    pub fn completion_owns(&self, id: u64) -> (owns: bool)
        ensures
            owns == self.owns(id),
    {
        match &self.popup {
            Some(popup) => {
                let pending = match popup.pending {
                    Some(pending) => pending.id == id,
                    None => false,
                };
                let resolving = match popup.resolving {
                    Some((asked, _)) => asked == id,
                    None => false,
                };
                pending || resolving
            },
            None => false,
        }
    }

    /// The server answered question `id`, about `version` of `doc`, while
    /// `focused` is the document being edited. What the answer is about, if it
    /// is still of use: an answer about another document, or another version of
    /// it than was asked about, answers a question nobody is asking any more.
    pub fn completion_answer(&mut self, id: u64, doc: usize, version: i32, focused: usize) -> (
    answered: Answered)
        requires
            old(self).wf(),
        ensures
            final(self).wf(),
            match old(self).popup {
                None => answered == Answered::Nothing && *final(self) == *old(self),
                Some(popup) => {
                    if popup.resolving matches Some(about) && about.0 == id {
                        &&& answered == Answered::Item((popup.resolving->0).1)
                        &&& *final(self) == (Completion {
                            popup: Some(Popup { resolving: None, ..popup }),
                            ..*old(self)
                        })
                    } else if popup.pending matches Some(pending) && pending.id == id {
                        &&& answered == if doc == popup.doc && focused == popup.doc && version
                            == popup.pending->0.version {
                            Answered::Items(id)
                        } else {
                            Answered::Nothing
                        }
                        &&& *final(self) == (Completion {
                            popup: Some(Popup { pending: None, ..popup }),
                            ..*old(self)
                        })
                    } else {
                        answered == Answered::Nothing && *final(self) == *old(self)
                    }
                },
            },
    {
        match self.popup.take() {
            None => Answered::Nothing,
            Some(mut popup) => {
                let mut answered = Answered::Nothing;
                let resolved: Option<usize> = match popup.resolving {
                    Some((asked, index)) => if asked == id {
                        Some(index)
                    } else {
                        None
                    },
                    None => None,
                };
                if let Some(index) = resolved {
                    popup.resolving = None;
                    answered = Answered::Item(index);
                } else if let Some(pending) = popup.pending {
                    if pending.id == id {
                        popup.pending = None;
                        if doc == popup.doc && focused == popup.doc && version == pending.version {
                            answered = Answered::Items(id);
                        }
                    }
                }
                self.popup = Some(popup);
                answered
            },
        }
    }

    /// What else there is to say of item `index` came, or did not.
    pub fn item_resolved(&mut self, index: usize, resolved: Option<Resolved>) -> (outcome: Outcome)
        requires
            old(self).wf(),
        ensures
            final(self).wf(),
            match (old(self).popup, resolved, final(self).popup) {
                (Some(before), Some(more), Some(after)) if index < before.items@.len() => {
                    let item = before.items@[index as int];
                    &&& outcome == Outcome::Redraw
                    &&& after.items@ == before.items@.update(
                        index as int,
                        (Item {
                            documentation: if more.documentation is Some {
                                more.documentation
                            } else {
                                item.documentation
                            },
                            detail: if more.detail is Some {
                                more.detail
                            } else {
                                item.detail
                            },
                            additional: if item.additional is Some {
                                item.additional
                            } else {
                                more.additional
                            },
                            ..item
                        }),
                    )
                    &&& after == (Popup { items: after.items, ..before })
                    &&& *final(self) == (Completion { popup: Some(after), ..*old(self) })
                },
                _ => outcome == Outcome::Continue && *final(self) == *old(self),
            },
    {
        let more = match resolved {
            Some(more) => more,
            None => return Outcome::Continue,
        };
        match self.popup.take() {
            Some(mut popup) => {
                if index >= popup.items.len() {
                    self.popup = Some(popup);
                    return Outcome::Continue;
                }
                let ghost before = popup.items@;
                let item = popup.items.remove(index);
                let merged = merge_resolved(item, more);
                popup.items.insert(index, merged);
                assert(popup.items@ =~= before.update(index as int, merged));
                self.popup = Some(popup);
                Outcome::Redraw
            },
            None => Outcome::Continue,
        }
    }

    /// Where the popup's word starts once `items` are in: where the server
    /// says, when that is on the caret's line and not past the caret.
    pub open spec fn start_after(popup: Popup, items: Seq<Item>, here: Here) -> int {
        let text = here.chars();
        let head = here.primary.head as int;
        match first_start(items, 0) {
            Some(start) => if line_start(text, line_of(text, head) as int) <= start <= head {
                start as int
            } else {
                popup.start as int
            },
            None => popup.start as int,
        }
    }

    /// Take in the items of an answer to question `asked`: the items and
    /// whether there are more, or why there are none. The rows are to be found
    /// for the query that comes back, and handed to [`Completion::filtered`].
    pub fn completion_items(
        &mut self,
        answer: Result<(Vec<Item>, bool), String>,
        asked: u64,
        here: &Here,
    ) -> (taken: Taken)
        requires
            old(self).wf(),
            here.valid(),
        ensures
            final(self).wf(),
            match (old(self).popup, answer) {
                (None, _) => {
                    &&& taken.reply.outcome == Outcome::Continue
                    &&& taken.reply.says() is None
                    &&& taken.reply.cancel@.len() == 0
                    &&& taken.query is None
                    &&& *final(self) == *old(self)
                },
                (Some(popup), Err(error)) => {
                    &&& taken.query is None
                    &&& if popup.items@.len() == 0 {
                        &&& taken.reply.outcome == Outcome::Redraw
                        &&& taken.reply.says() == if popup.explicit {
                            Some("No completions: "@ + error@ + "."@)
                        } else {
                            None
                        }
                        &&& taken.reply.cancel@ == popup.asking()
                        &&& *final(self) == (Completion { popup: None, ..*old(self) })
                    } else {
                        &&& taken.reply.outcome == Outcome::Continue
                        &&& taken.reply.says() is None
                        &&& taken.reply.cancel@.len() == 0
                        &&& *final(self) == *old(self)
                    }
                },
                (Some(popup), Ok((items, incomplete))) => {
                    let text = here.chars();
                    let head = here.primary.head as int;
                    let from = line_start(text, line_of(text, head) as int);
                    let start = Self::start_after(popup, items@, *here);
                    &&& taken.reply.outcome == Outcome::Redraw
                    &&& taken.reply.says() is None
                    &&& taken.reply.cancel@ == match popup.resolving {
                        Some((id, _)) => seq![id],
                        None => Seq::empty(),
                    }
                    &&& words(taken.query) == Some(
                        text.subrange(if start <= head { start } else { head }, head),
                    )
                    &&& final(self).popup matches Some(after) && {
                        &&& after.items == items
                        &&& after.incomplete == incomplete
                        &&& after.resolving is None
                        &&& after.resolved@ == Seq::new(items@.len(), |i: int| false)
                        &&& after.asked == Some(asked)
                        &&& after.start == start
                        &&& after.before@ == if start != popup.start {
                            text.subrange(from, start)
                        } else {
                            popup.before@
                        }
                        &&& after.shown@.len() == 0
                        &&& after == (Popup {
                            items: after.items,
                            incomplete,
                            resolving: None,
                            resolved: after.resolved,
                            asked: Some(asked),
                            start: after.start,
                            before: after.before,
                            shown: after.shown,
                            ..popup
                        })
                        &&& *final(self) == (Completion { popup: Some(after), ..*old(self) })
                    }
                },
            },
    {
        let mut popup = match self.popup.take() {
            Some(popup) => popup,
            None => return Taken { reply: Reply::just(Outcome::Continue), query: None },
        };
        let (items, incomplete) = match answer {
            Ok(offered) => offered,
            Err(error) => {
                if popup.items.len() > 0 {
                    self.popup = Some(popup);
                    return Taken { reply: Reply::just(Outcome::Continue), query: None };
                }
                let cancel = popup.questions();
                let message: Option<String> = if popup.explicit {
                    Some(join3("No completions: ", error.as_str(), "."))
                } else {
                    None
                };
                return Taken {
                    reply: Reply { outcome: Outcome::Redraw, message, cancel },
                    query: None,
                };
            },
        };
        let head: usize = here.primary.head;
        proof {
            a_place_is_within_its_line(here.chars(), head as int);
        }
        let from: usize = line_to_char(here.text, char_to_line(here.text, head));
        let mut reply = Reply::just(Outcome::Redraw);
        if let Some((id, _)) = popup.resolving {
            reply.cancel.push(id);
        }
        popup.resolving = None;

        let mut resolved: Vec<bool> = Vec::new();
        let mut server_start: Option<usize> = None;
        let mut i: usize = 0;
        while i < items.len()
            invariant
                i <= items@.len(),
                resolved@ =~= Seq::new(i as nat, |k: int| false),
                first_start(items@, 0) == match server_start {
                    Some(start) => Some(start),
                    None => first_start(items@, i as int),
                },
            decreases items@.len() - i,
        {
            resolved.push(false);
            if server_start.is_none() {
                server_start = items[i].word_start;
            }
            i = i + 1;
        }
        popup.resolved = resolved;
        popup.items = items;
        popup.incomplete = incomplete;
        popup.shown = Vec::new();

        // Where the server says the word starts, when it says: a word with a
        // `$` or a `-` in it is still one word to a server that knows the
        // language.
        if let Some(start) = server_start {
            if from <= start && start <= head && start != popup.start {
                popup.start = start;
                popup.before = slice(here.text, from, start);
            }
        }
        popup.asked = Some(asked);
        let start: usize = if popup.start <= head {
            popup.start
        } else {
            head
        };
        let query = slice(here.text, start, head);
        self.popup = Some(popup);
        Taken { reply, query: Some(query) }
    }

    /// The rows of an answer just taken in were found: show them, on the one
    /// the server would have selected. With nothing to offer and nothing more
    /// to come, the popup is put away, and says so if it was asked for.
    pub fn filtered(&mut self, query: String, shown: Vec<Shown>) -> (reply: Reply)
        requires
            old(self).wf(),
            old(self).popup matches Some(popup) ==> rows_of(shown@, popup.items@.len()),
        ensures
            final(self).wf(),
            match old(self).popup {
                None => {
                    &&& reply.outcome == Outcome::Continue
                    &&& reply.says() is None
                    &&& reply.cancel@.len() == 0
                    &&& *final(self) == *old(self)
                },
                Some(popup) => {
                    &&& reply.outcome == Outcome::Redraw
                    &&& if popup.items@.len() == 0 && !popup.incomplete {
                        &&& *final(self) == (Completion { popup: None, ..*old(self) })
                        &&& reply.cancel@ == popup.asking()
                        &&& reply.says() == if popup.explicit {
                            Some("No completions here."@)
                        } else {
                            None
                        }
                    } else {
                        &&& *final(self) == (Completion {
                            popup: Some(
                                Popup {
                                    query,
                                    shown,
                                    selected: first_preselected(shown@, popup.items@, 0) as usize,
                                    scroll: 0,
                                    ..popup
                                },
                            ),
                            ..*old(self)
                        })
                        &&& reply.cancel@.len() == 0
                        &&& reply.says() is None
                    }
                },
            },
    {
        let mut popup = match self.popup.take() {
            Some(popup) => popup,
            None => return Reply::just(Outcome::Continue),
        };
        if popup.items.len() == 0 && !popup.incomplete {
            let mut reply = if popup.explicit {
                Reply::saying("No completions here.".to_owned())
            } else {
                Reply::just(Outcome::Redraw)
            };
            reply.cancel = popup.questions();
            return reply;
        }
        let ghost before = popup;
        popup.refilter(query, shown);
        let mut row: usize = 0;
        while row < popup.shown.len() && !popup.items[popup.shown[row].index].preselect
            invariant
                popup.wf(),
                row <= popup.shown@.len(),
                first_preselected(popup.shown@, popup.items@, 0) == first_preselected(
                    popup.shown@,
                    popup.items@,
                    row as int,
                ),
                forall|k: int|
                    0 <= k < popup.shown@.len() ==> (#[trigger] popup.shown@[k]).index
                        < popup.items@.len(),
            decreases popup.shown@.len() - row,
        {
            row = row + 1;
        }
        popup.selected = if row < popup.shown.len() {
            row
        } else {
            0
        };
        self.popup = Some(popup);
        Reply::just(Outcome::Redraw)
    }

    // ── accepting ───────────────────────────────────────────────────────────

    /// Accept the item on `row`, or the selected one: the popup goes, what it
    /// asked is taken back, and the item taken comes back, if there is one.
    pub fn completion_accept_row(&mut self, row: Option<usize>) -> (accepted: Accepted)
        requires
            old(self).wf(),
        ensures
            final(self).wf(),
            *final(self) == (Completion { popup: None, ..*old(self) }),
            accepted.reply.says() is None,
            accepted.reply.cancel@ == old(self).asking(),
            accepted.reply.outcome == Outcome::spec_redraw_if(old(self).popup is Some),
            accepted.chosen == match old(self).popup {
                Some(popup) => {
                    let at = match row {
                        Some(row) => row,
                        None => popup.selected,
                    };
                    if at < popup.shown@.len() && popup.asked is Some {
                        Some(
                            Chosen {
                                item: popup.shown@[at as int].index,
                                asked: popup.asked->0,
                                start: popup.start,
                            },
                        )
                    } else {
                        None
                    }
                },
                None => None,
            },
    {
        let popup = match self.popup.take() {
            Some(popup) => popup,
            None => return Accepted { chosen: None, reply: Reply::just(Outcome::Continue) },
        };
        let mut reply = Reply::just(Outcome::Redraw);
        reply.cancel = popup.questions();
        let at: usize = match row {
            Some(row) => row,
            None => popup.selected,
        };
        let chosen: Option<Chosen> = match popup.asked {
            Some(asked) => if at < popup.shown.len() {
                Some(Chosen { item: popup.shown[at].index, asked, start: popup.start })
            } else {
                None
            },
            None => None,
        };
        Accepted { chosen, reply }
    }

    /// The row a click on the popup takes: a row is accepted, anywhere else is
    /// not.
    pub fn completion_click(&self, target: Target) -> (row: Option<usize>)
        ensures
            row == match target {
                Target::CompletionRow(row) => Some(row),
                _ => None,
            },
    {
        match target {
            Target::CompletionRow(row) => Some(row),
            _ => None,
        }
    }

    // ── tab-stops ───────────────────────────────────────────────────────────

    /// Select every copy of stop `index`. The last stop is where the snippet
    /// ends, so reaching it ends the tab-stops. The selections to make, and
    /// which of them is the primary; none where there is nothing to select.
    pub fn select_stop(&mut self, index: usize) -> (picked: Option<(Vec<Selection>, usize)>)
        requires
            old(self).wf(),
        ensures
            final(self).wf(),
            match old(self).stops {
                Some(stops) => if index < stops.model().len() {
                    let stop = stops.model()[index as int];
                    &&& *final(self) == if index + 1 == stops.model().len() {
                        Completion { stops: None, ended: true, ..*old(self) }
                    } else {
                        Completion { stops: Some(Tabstops { current: index, ..stops }), ..*old(self)
                        }
                    }
                    &&& match picked {
                        Some(picked) => {
                            &&& picked.0@ == selecting(stop, stops.others@)
                            &&& picked.1 == place_in(stop, stops.primary, 0)
                            &&& picked.0@.len() > 0
                        },
                        None => selecting(stop, stops.others@).len() == 0,
                    }
                } else {
                    picked is None && *final(self) == *old(self)
                },
                None => picked is None && *final(self) == *old(self),
            },
    {
        let mut stops = match self.stops.take() {
            Some(stops) => stops,
            None => return None,
        };
        if index >= stops.stops.len() {
            self.stops = Some(stops);
            return None;
        }
        let last: usize = stops.stops.len() - 1;
        let (ranges, primary) = stops.selection_of(index);
        stops.current = index;
        self.stops = Some(stops);
        if index == last {
            self.end_snippet();
        }
        if ranges.len() == 0 {
            None
        } else {
            Some((ranges, primary))
        }
    }

    /// The stop Tab goes to from `current`, or Shift+Tab: the next or the one
    /// before, and no further than the first and the last.
    pub open spec fn stop_after(current: usize, count: nat, forward: bool) -> int {
        if forward {
            if current + 1 < count {
                current + 1
            } else {
                count - 1
            }
        } else if current == 0 {
            0
        } else if current - 1 < count {
            current - 1
        } else {
            count - 1
        }
    }

    /// Tab or Shift+Tab: which stop it goes to. `None` with no stops live.
    pub fn next_stop(&self, forward: bool) -> (index: Option<usize>)
        ensures
            index == match self.stops {
                Some(stops) => if stops.model().len() > 0 {
                    Some(Self::stop_after(stops.current, stops.model().len(), forward) as usize)
                } else {
                    None
                },
                None => None,
            },
    {
        match &self.stops {
            Some(stops) => {
                if stops.stops.len() == 0 {
                    return None;
                }
                let last: usize = stops.stops.len() - 1;
                let to: usize = if forward {
                    if stops.current < last {
                        stops.current + 1
                    } else {
                        last
                    }
                } else {
                    let before: usize = stops.current.saturating_sub(1);
                    if before <= last {
                        before
                    } else {
                        last
                    }
                };
                Some(to)
            },
            None => None,
        }
    }

    /// Where the popup's rows are on screen, drawn in `area`: each with the row
    /// of the list it is.
    pub fn completion_rows(&self, area: Rect) -> (rows: Vec<(Rect, usize)>)
        requires
            area.on_screen(),
        ensures
            match self.popup {
                Some(popup) => {
                    let left = popup.shown@.len() - popup.scroll;
                    &&& rows@.len() == if left < 0 {
                        0
                    } else if left < area.height {
                        left
                    } else {
                        area.height as int
                    }
                    &&& forall|i: int|
                        0 <= i < rows@.len() ==> #[trigger] rows@[i] == (
                            Rect { y: (area.y + i) as u16, height: 1, ..area },
                            (popup.scroll + i) as usize,
                        )
                },
                None => rows@.len() == 0,
            },
    {
        let mut rows: Vec<(Rect, usize)> = Vec::new();
        if let Some(popup) = &self.popup {
            let mut offset: u16 = 0;
            while offset < area.height && (offset as usize) < popup.shown.len().saturating_sub(
                popup.scroll,
            )
                invariant
                    area.on_screen(),
                    offset <= area.height,
                    offset == 0 || popup.scroll + offset <= popup.shown@.len(),
                    rows@.len() == offset,
                    forall|i: int|
                        0 <= i < rows@.len() ==> #[trigger] rows@[i] == (
                            Rect { y: (area.y + i) as u16, height: 1, ..area },
                            (popup.scroll + i) as usize,
                        ),
                decreases area.height - offset,
            {
                rows.push(
                    (
                        Rect { x: area.x, y: area.y + offset, width: area.width, height: 1 },
                        popup.scroll + offset as usize,
                    ),
                );
                offset = offset + 1;
            }
        }
        rows
    }
}

/// Tab goes on to the next stop and Shift+Tab comes back from it.
pub proof fn shift_tab_undoes_tab(current: usize, count: nat)
    requires
        current + 1 < count,
        count <= usize::MAX,
    ensures
        Completion::stop_after(
            Completion::stop_after(current, count, true) as usize,
            count,
            false,
        ) == current,
{
}

/// A key types its char unless it is held with a key that makes it a command; any
/// other key types nothing.
pub proof fn only_a_plain_char_is_typed(event: KeyEvent, ch: char)
    ensures
        types(event) == Some(ch) <==> event.code == KeyCode::Char(ch) && !event.modifiers.control
            && !event.modifiers.alt && !event.modifiers.cmd,
{
}

/// With the popup up, the arrows go a row, round the ends, and the page keys a page
/// and no further than the ends; Enter and Tab take what is selected, Shift and
/// Enter over the whole word; Escape puts the popup away whatever is held with it;
/// and every other key goes on to the text.
pub proof fn the_popup_answers_few_keys(event: KeyEvent, page: i32)
    requires
        0 <= page < i32::MAX,
    ensures
        ({
            let held = event.modifiers;
            let bare = !held.shift && !held.control && !held.alt && !held.cmd && !held.other;
            let shift = held.shift && !held.control && !held.alt && !held.cmd && !held.other;
            match popup_task(event, page) {
                Some(KeyTask::Step { rows, wrap: true }) => bare && (if rows == -1 {
                    event.code is Up
                } else {
                    rows == 1 && event.code is Down
                }),
                Some(KeyTask::Step { rows, wrap: false }) => bare && (if event.code is PageUp {
                    rows == -page
                } else {
                    rows == page && event.code is PageDown
                }),
                Some(KeyTask::Accept { whole_word: true }) => shift && event.code is Enter,
                Some(KeyTask::Accept { whole_word: false }) => bare && (event.code is Enter
                    || event.code is Tab),
                Some(KeyTask::PutAway) => event.code is Esc,
                Some(KeyTask::NextStop { .. }) => false,
                None => {
                    &&& !(event.code is Esc)
                    &&& bare ==> !(event.code is Up || event.code is Down || event.code is PageUp
                        || event.code is PageDown || event.code is Enter || event.code is Tab)
                    &&& shift ==> !(event.code is Enter)
                },
            }
        }),
{
}

/// In a snippet, Tab goes on to the next stop and Shift and Tab back, however the
/// terminal reports it; every other key goes on to the text.
pub proof fn tab_goes_through_the_stops(event: KeyEvent)
    ensures
        ({
            let held = event.modifiers;
            let plain = !held.control && !held.alt && !held.cmd && !held.other;
            &&& stop_task(event) == Some(KeyTask::NextStop { forward: true }) <==> event.code is Tab
                && plain && !held.shift
            &&& stop_task(event) == Some(KeyTask::NextStop { forward: false }) <==> (
            event.code is Tab && plain && held.shift) || event.code is BackTab
            &&& stop_task(event) matches Some(task) ==> task is NextStop
        }),
{
}

/// A char asks the server where a trigger it declares ends with that char.
pub proof fn a_trigger_is_told_by_its_last_char(triggers: Seq<String>, ch: char)
    ensures
        triggers_on(triggers, ch) <==> exists|i: int|
            0 <= i < triggers.len() && ends_with(#[trigger] triggers[i]@, ch),
{
    if triggers_on(triggers, ch) {
        let i = choose|i: int|
            0 <= i < triggers.len() && (#[trigger] triggers[i])@.len() > 0 && triggers[i]@.last()
                == ch;
        let lead = triggers[i]@.drop_last();
        assert(lead.push(ch) =~= triggers[i]@);
        assert(ends_with(triggers[i]@, ch));
    }
}

/// Whether `text` is something and then `ch`.
pub open spec fn ends_with(text: Seq<char>, ch: char) -> bool {
    exists|lead: Seq<char>| #[trigger] lead.push(ch) == text
}

/// The start the server gives is the first that any item has.
pub proof fn the_first_start_given_is_taken(items: Seq<Item>, from: int)
    requires
        0 <= from <= items.len(),
    ensures
        match first_start(items, from) {
            Some(start) => exists|i: int|
                {
                    &&& from <= i < items.len()
                    &&& (#[trigger] items[i]).word_start == Some(start)
                    &&& forall|j: int| from <= j < i ==> (#[trigger] items[j]).word_start is None
                },
            None => forall|j: int|
                from <= j < items.len() ==> (#[trigger] items[j]).word_start is None,
        },
    decreases items.len() - from,
{
    if from < items.len() {
        if items[from].word_start is None {
            the_first_start_given_is_taken(items, from + 1);
            if let Some(start) = first_start(items, from + 1) {
                let i = choose|i: int|
                    {
                        &&& from + 1 <= i < items.len()
                        &&& (#[trigger] items[i]).word_start == Some(start)
                        &&& forall|j: int|
                            from + 1 <= j < i ==> (#[trigger] items[j]).word_start is None
                    };
                assert(items[i].word_start == Some(start));
            }
        } else {
            assert(items[from].word_start is Some);
        }
    }
}

/// The row selected to begin with is the first the server would have selected, or
/// the first of all.
pub proof fn what_the_server_would_select_is_selected(
    shown: Seq<Shown>,
    items: Seq<Item>,
    from: int,
)
    requires
        0 <= from <= shown.len(),
        rows_of(shown, items.len()),
    ensures
        ({
            let at = first_preselected(shown, items, from);
            if exists|i: int|
                from <= i < shown.len() && items[(#[trigger] shown[i]).index as int].preselect {
                &&& from <= at < shown.len()
                &&& items[shown[at].index as int].preselect
                &&& forall|j: int|
                    from <= j < at ==> !items[(#[trigger] shown[j]).index as int].preselect
            } else {
                at == 0
            }
        }),
    decreases shown.len() - from,
{
    if from < shown.len() && !items[shown[from].index as int].preselect {
        what_the_server_would_select_is_selected(shown, items, from + 1);
        if exists|i: int|
            from <= i < shown.len() && items[(#[trigger] shown[i]).index as int].preselect {
            let i = choose|i: int|
                from <= i < shown.len() && items[(#[trigger] shown[i]).index as int].preselect;
            assert(from + 1 <= i);
        }
    }
}

/// Typing a char that neither asks the server nor goes on with the word puts the
/// popup away, and so does anything but typing at the caret; typing on with the
/// word does not.
pub proof fn typing_on_keeps_the_popup(
    completion: Completion,
    here: Here,
    triggers: Seq<String>,
    popup: Popup,
    ch: char,
)
    requires
        here.valid(),
        completion.popup == Some(popup),
        completion.typed == Some(ch),
        here.typing,
        here.primary.head > 0,
        here.chars()[here.primary.head - 1] == ch,
    ensures
        popup.query_at(here) is None ==> completion.popup_closes(here, triggers),
        popup.query_at(here) is Some ==> (completion.popup_closes(here, triggers) <==> !triggers_on(
            triggers,
            ch,
        ) && !crate::unicode::alphanumeric(ch) && ch != '_'),
        triggers_on(triggers, ch) ==> completion.asked_after(here, triggers) == Some(
            Trigger::Character(ch),
        ),
{
}

/// A char the key typed counts only where it is the one before the caret. With none
/// that asks, what was asked for goes out; failing that, a list that was incomplete
/// is asked for again once the word has changed.
pub proof fn what_was_asked_for_goes_out(
    completion: Completion,
    here: Here,
    triggers: Seq<String>,
)
    requires
        here.valid(),
        forall|ch: char|
            #![trigger triggers_on(triggers, ch)]
            !(here.primary.head > 0 && here.chars()[here.primary.head - 1] == ch && here.typing
                && completion.typed == Some(ch) && triggers_on(triggers, ch)),
    ensures
        completion.wanted is Some ==> completion.asked_after(here, triggers) == completion.wanted,
        completion.wanted is None && completion.popup is None ==> completion.asked_after(
            here,
            triggers,
        ) is None,
        completion.wanted is None ==> (completion.popup matches Some(popup) ==> (
        completion.asked_after(here, triggers) == Some(Trigger::Incomplete) <==> popup.incomplete
            && (popup.query_at(here) matches Some(query) && query != popup.query@))),
{
}

/// The start the server gives stands where it is on the caret's line and not past
/// the caret; otherwise the popup's own does.
pub proof fn a_word_starts_on_the_caret_s_line(popup: Popup, items: Seq<Item>, here: Here)
    ensures
        ({
            let text = here.chars();
            let head = here.primary.head as int;
            let from = line_start(text, line_of(text, head) as int);
            let start = Completion::start_after(popup, items, here);
            &&& first_start(items, 0) is None ==> start == popup.start
            &&& first_start(items, 0) matches Some(given) ==> if from <= given && given <= head {
                start == given
            } else {
                start == popup.start
            }
        }),
{
}

/// The stops hold while the caret is in the one being edited; gone to another that
/// is not the last, that is the one edited; gone from them all, or to the last, they
/// end; and so they do once their text is not what they were kept for.
pub proof fn leaving_the_stops_ends_them(completion: Completion, here: Here, focused: bool)
    ensures
        ({
            let after = completion.stops_after(here, focused);
            let caret = here.primary.head;
            &&& completion.stops is None ==> after is None
            &&& completion.stops matches Some(stops) ==> {
                let known = focused && stops.doc == here.doc && stops.len
                    == here.chars().len() as usize;
                &&& !known ==> after is None
                &&& known && stops.current < stops.model().len() && covers(
                    stops.model()[stops.current as int],
                    caret,
                ) ==> after == completion.stops
                &&& after matches Some(now) ==> {
                    &&& known
                    &&& now.current < stops.model().len()
                    &&& covers(stops.model()[now.current as int], caret)
                    &&& now.current != stops.current ==> now.current + 1 < stops.model().len()
                    &&& now.stops == stops.stops && now.doc == stops.doc && now.len == stops.len
                }
            }
        }),
{
    if let Some(stops) = completion.stops {
        let caret = here.primary.head;
        crate::stops::a_caret_is_in_the_first_stop_around_it(stops.model(), caret, 0);
        assert(stops.stops.len() == stops.model().len());
        if let Some(index) = first_cover(stops.model(), caret, 0) {
            let stop = stops.model()[index];
            let i = choose|i: int|
                0 <= i < stop.len() && (#[trigger] stop[i]).1.0 <= caret <= stop[i].1.1;
            assert(stop[i].1.0 <= caret && caret <= stop[i].1.1);
            assert(covers(stop, caret));
        }
    }
}

/// Escape puts away what is showing and no more: the popup where it shows something,
/// and otherwise a snippet's stops with it.
pub proof fn escape_puts_away_one_thing(completion: Completion, event: KeyEvent)
    requires
        event.code is Esc,
    ensures
        ({
            let after = completion.after_key(event, false, Focus::Editor);
            let showing = completion.popup matches Some(popup) && popup.shown@.len() > 0;
            &&& after.popup is None
            &&& showing ==> after.stops == completion.stops && after.ended == completion.ended
            &&& !showing ==> after.stops is None && (completion.stops is Some ==> after.ended)
            &&& completion.taken_back(event, false, Focus::Editor) == completion.asking()
        }),
{
}

/// Stepping through the stops goes one on or one back and stops at the ends.
pub proof fn stops_are_gone_through_one_by_one(current: usize, count: nat)
    requires
        current < count,
    ensures
        Completion::stop_after(current, count, true) == if current + 1 < count {
            current + 1
        } else {
            current as int
        },
        Completion::stop_after(current, count, false) == if current > 0 {
            current - 1
        } else {
            0
        },
{
}

/// A popup asks from where the word starts, or, a trigger having been typed, from the
/// caret: what follows a trigger is a new word.
pub proof fn a_trigger_starts_a_new_word(here: Here, ch: char)
    ensures
        question_start(here, Trigger::Character(ch)) == here.primary.head,
        question_start(here, Trigger::Invoked) == question_start(here, Trigger::Incomplete),
        question_start(here, Trigger::Invoked) <= here.primary.head,
{
    crate::words::a_word_starts_in_its_line(
        clusters_before(here.chars(), here.primary.head as int),
        here.primary.head as int,
    );
}

/// A popup just opened is where it was asked for: its line is what is before the word,
/// the word so far, and what is after the caret; and it has nothing to show yet.
pub proof fn a_popup_just_opened_has_the_word_so_far(
    popup: Popup,
    here: Here,
    start: int,
    explicit: bool,
    pending: Option<Pending>,
)
    requires
        here.valid(),
        here.typing,
        here.primary.anchor == here.primary.head,
        is_fresh(popup, here, start, explicit, pending),
        line_start(here.chars(), line_of(here.chars(), here.primary.head as int) as int) <= start
            <= here.primary.head,
        !crate::unicode::has_space(popup.query@),
    ensures
        popup.query_at(here) == Some(popup.query@),
        popup.query@ == here.chars().subrange(start, here.primary.head as int),
        popup.pending == pending,
        popup.explicit == explicit,
        popup.shown@.len() == 0 && popup.items@.len() == 0,
{
}

/// An answer is completion's where it is to the question it waits for, or to the one
/// about an item's documentation.
pub proof fn completion_owns_what_it_asked(completion: Completion, popup: Popup, id: u64)
    requires
        completion.popup == Some(popup),
    ensures
        completion.owns(id) <==> popup.asking().contains(id),
{
    crate::popup::every_question_is_taken_back(popup, id);
}

/// Completion has no key while a chord is half typed or something else has the keyboard;
/// otherwise the popup has first say where it shows something, and a snippet's stops
/// where there are any.
pub proof fn a_key_is_completion_s_where_it_is_showing(
    completion: Completion,
    event: KeyEvent,
    focus: Focus,
    page: i32,
)
    ensures
        completion.task_for(event, true, focus, page) is None,
        !(focus is Editor) ==> completion.task_for(event, false, focus, page) is None,
        ({
            let showing = completion.popup matches Some(popup) && popup.shown@.len() > 0;
            &&& showing ==> completion.task_for(event, false, Focus::Editor, page) == popup_task(
                event,
                page,
            )
            &&& !showing && completion.stops is Some ==> completion.task_for(
                event,
                false,
                Focus::Editor,
                page,
            ) == stop_task(event)
            &&& !showing && completion.stops is None ==> completion.task_for(
                event,
                false,
                Focus::Editor,
                page,
            ) is None
        }),
        completion.after_key(event, true, focus) == completion,
        !(focus is Editor) ==> completion.after_key(event, false, focus) == completion,
        completion.taken_back(event, true, focus).len() == 0,
        !(focus is Editor) ==> completion.taken_back(event, false, focus).len() == 0,
        !(event.code is Esc) ==> completion.taken_back(event, false, focus).len() == 0,
        !(event.code is Esc) ==> completion.after_key(event, false, Focus::Editor).popup
            == completion.popup && completion.after_key(event, false, Focus::Editor).stops
            == completion.stops,
{
}

/// A stop gone to is always one there is, wherever the last was.
pub proof fn a_stop_gone_to_is_there(current: usize, count: nat)
    requires
        count > 0,
    ensures
        0 <= Completion::stop_after(current, count, true) < count,
        0 <= Completion::stop_after(current, count, false) < count,
        current >= count ==> Completion::stop_after(current, count, true) == count - 1,
        current > count ==> Completion::stop_after(current, count, false) == count - 1,
{
}

/// A caret gone from the stop being edited into another that is not the last goes on
/// editing there: the first it is in.
pub proof fn a_caret_gone_to_another_stop_edits_it(
    completion: Completion,
    here: Here,
    stops: Tabstops,
    index: int,
)
    requires
        completion.stops == Some(stops),
        stops.doc == here.doc,
        stops.len == here.chars().len() as usize,
        stops.current < stops.model().len(),
        !covers(stops.model()[stops.current as int], here.primary.head),
        first_cover(stops.model(), here.primary.head, 0) == Some(index),
    ensures
        index < stops.model().len() - 1 ==> (completion.stops_after(here, true) matches Some(now)
            && now.current == index),
        index == stops.model().len() - 1 ==> completion.stops_after(here, true) is None,
        completion.stops_after(here, false) is None,
{
    crate::stops::a_caret_is_in_the_first_stop_around_it(stops.model(), here.primary.head, 0);
    assert(stops.stops.len() == stops.model().len());
}

} // verus!
