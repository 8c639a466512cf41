//! What an event, a key or a command comes to.

use vstd::prelude::*;

use crate::app::{quitting, App};
use crate::card::{card_key, keyed, CardKey};
use crate::code_actions::CodeActions;
use crate::commands::{Command, DiffCommand};
use crate::completion::{Completion, KeyTask};
use crate::geometry::Rect;
use crate::hover::Hovering;
use crate::input::{key_of, to_key, Event, Key, KeyCode, KeyEvent, KeyKind, Mouse, Signal};
use crate::navigation::Navigation;
use crate::outcome::Outcome;
use crate::palette::{on_one_line, Finder, Palette};
use crate::paste::{normalised, pasted_line_endings};
use crate::place::Open;
use crate::target::{Focus, SearchButton};
use crate::text::{decimal, decimal_of, join, join3};

verus! {

// ── events ──────────────────────────────────────────────────────────────────

/// Who an event is for, and what is left to do about it.
#[derive(Debug)]
pub enum EventTask {
    /// A key, for `handle_key`.
    Key(KeyEvent),
    /// The mouse, for `handle_mouse`.
    Mouse(Mouse),
    /// Text for the field of the question being asked.
    PromptPaste(String),
    /// Text went into the palette, and its rows are to be worked out.
    PalettePaste,
    /// Text to put in the document being edited, in one piece. A half-typed
    /// chord is abandoned: a paste is not the second half of one.
    Insert(String),
    /// There is more room or less; whether that is news. The view follows the
    /// caret.
    Resized(bool),
    /// Nothing but this.
    Done(Outcome),
    /// The terminal lost the keyboard: a drag ends, and the pointer may be
    /// anywhere by the time it comes back.
    LostFocus,
    /// A service answered.
    Service,
}

/// Who an event is for, as a value.
pub enum EventModel {
    /// A key.
    Key(KeyEvent),
    /// The mouse.
    Mouse(Mouse),
    /// Text for a field.
    PromptPaste(Seq<char>),
    /// Text went into the palette.
    PalettePaste,
    /// Text for the document.
    Insert(Seq<char>),
    /// There is more room or less.
    Resized(bool),
    /// Nothing but this.
    Done(Outcome),
    /// The terminal lost the keyboard.
    LostFocus,
    /// A service answered.
    Service,
}

impl View for EventTask {
    type V = EventModel;

    open spec fn view(&self) -> EventModel {
        match *self {
            EventTask::Key(key) => EventModel::Key(key),
            EventTask::Mouse(mouse) => EventModel::Mouse(mouse),
            EventTask::PromptPaste(text) => EventModel::PromptPaste(text@),
            EventTask::PalettePaste => EventModel::PalettePaste,
            EventTask::Insert(text) => EventModel::Insert(text@),
            EventTask::Resized(changed) => EventModel::Resized(changed),
            EventTask::Done(outcome) => EventModel::Done(outcome),
            EventTask::LostFocus => EventModel::LostFocus,
            EventTask::Service => EventModel::Service,
        }
    }
}

/// What handling an event starts with.
#[derive(Debug)]
pub struct Handled {
    /// What taking a stale underline away came to.
    pub unlinked: Outcome,
    /// Questions to take back.
    pub cancel: Vec<u64>,
    /// What is left to do.
    pub task: EventTask,
}

/// What is left to do once an event has been handled.
#[derive(Debug, Clone, Copy, PartialEq, Eq, Structural)]
pub struct Settled {
    /// The parser is to be told what changed.
    pub parse: bool,
    /// It is to be told that the view moved.
    pub scrolled: bool,
    /// Everything is to be laid out again.
    pub relayout: bool,
}

/// Whether an event makes an underline under the pointer stale: anything but
/// the pointer or a server having had a say.
pub open spec fn unlinks(event: Event) -> bool {
    match event {
        Event::Key(_) => true,
        Event::Paste(_) => true,
        Event::Focus(focused) => !focused,
        _ => false,
    }
}

/// Whether `after` is `before` with what `event` pastes added to the palette's
/// query, on one line.
pub open spec fn pasted_into(before: Finder, after: Finder, event: Event) -> bool {
    match (event, before.palette, after.palette) {
        (Event::Paste(text), Some(was), Some(now)) => {
            &&& after == (Finder { palette: after.palette, ..before })
            &&& now == (Palette { query: now.query, ..was })
            &&& now.query@ == was.query@ + on_one_line(text@)
        },
        _ => false,
    }
}

/// The rectangle a terminal of this size is.
pub open spec fn screen(width: u16, height: u16) -> Rect {
    Rect { x: 0, y: 0, width, height }
}

/// The numbers in two places, in order.
pub open spec fn both(a: Option<u64>, b: Option<u64>) -> Seq<u64> {
    let first = match a {
        Some(id) => seq![id],
        None => Seq::empty(),
    };
    match b {
        Some(id) => first.push(id),
        None => first,
    }
}

fn pushed(mut all: Vec<u64>, id: Option<u64>) -> (more: Vec<u64>)
    ensures
        more@ == match id {
            Some(id) => all@.push(id),
            None => all@,
        },
{
    if let Some(id) = id {
        all.push(id);
    }
    all
}

impl App {
    /// Who an event is for.
    pub open spec fn goes_to(self, event: Event) -> EventModel {
        match event {
            Event::Key(key) => EventModel::Key(key),
            Event::Mouse(mouse) => EventModel::Mouse(mouse),
            Event::Paste(text) => if self.prompt is Some {
                EventModel::PromptPaste(text@)
            } else if self.finder.palette is Some {
                EventModel::PalettePaste
            } else {
                EventModel::Insert(normalised(text@))
            },
            Event::Resize(width, height) => EventModel::Resized(
                screen(width, height) != self.viewport,
            ),
            Event::Focus(focused) => if focused {
                EventModel::Done(Outcome::Continue)
            } else {
                EventModel::LostFocus
            },
            Event::Signal(signal) => EventModel::Done(
                match signal {
                    Signal::Suspend => Outcome::Suspend,
                    Signal::Continue => Outcome::Redraw,
                    Signal::Resize => Outcome::Redraw,
                    Signal::Terminate => Outcome::Quit,
                    Signal::Hangup => Outcome::Quit,
                },
            ),
            Event::Closed => EventModel::Done(Outcome::Quit),
            Event::Service => EventModel::Service,
        }
    }

    /// Handle one event, as far as that can be done here: what abandons a card
    /// on its way or an underline does so, text is pasted into the palette, and
    /// the rest is said.
    pub fn handle_at(&mut self, event: &Event) -> (handled: Handled)
        requires
            old(self).wf(),
        ensures
            final(self).wf(),
            handled.task@ == old(self).goes_to(*event),
            handled.unlinked == if unlinks(*event) {
                old(self).navigation.unlinked()
            } else {
                Outcome::Continue
            },
            handled.cancel@ == both(
                if Hovering::abandons(*event) {
                    old(self).hovering.question()
                } else {
                    None
                },
                if unlinks(*event) {
                    old(self).navigation.link_question()
                } else {
                    None
                },
            ),
            final(self).hovering == if Hovering::abandons(*event) {
                Hovering { spot: None, ..old(self).hovering }
            } else {
                old(self).hovering
            },
            final(self).navigation == if unlinks(*event) {
                Navigation { link: None, ..old(self).navigation }
            } else {
                old(self).navigation
            },
            *final(self) == (App {
                hovering: final(self).hovering,
                navigation: final(self).navigation,
                finder: final(self).finder,
                messages: final(self).messages,
                undo_offer: final(self).undo_offer,
                focus: final(self).focus,
                viewport: final(self).viewport,
                ..*old(self)
            }),
            // A paste into the palette adds to its query, on one line.
            handled.task@ == EventModel::PalettePaste ==> pasted_into(
                old(self).finder,
                final(self).finder,
                *event,
            ),
            handled.task@ != EventModel::PalettePaste ==> final(self).finder == old(self).finder,
            // One into the document takes the keyboard there.
            handled.task@ is Insert ==> final(self).focus == Focus::Editor && !final(self).undo_offer && final(self).messages@ == old(self).messages@.acknowledged(),
            !(handled.task@ is Insert) ==> final(self).focus == old(self).focus && final(self).undo_offer == old(self).undo_offer && final(self).messages == old(self).messages,
            final(self).viewport == match *event {
                Event::Resize(width, height) => screen(width, height),
                _ => old(self).viewport,
            },
    {
        let cancel: Vec<u64> = Vec::new();
        let cancel = pushed(cancel, self.hovering.hover_before(event));
        let stale = match event {
            Event::Key(_) => true,
            Event::Paste(_) => true,
            Event::Focus(focused) => !*focused,
            _ => false,
        };
        let mut unlinked = Outcome::Continue;
        let mut question: Option<u64> = None;
        if stale {
            let cleared = self.navigation.clear_link();
            unlinked = cleared.0;
            question = cleared.1;
        }
        let cancel = pushed(cancel, question);
        let task = self.dispatch(event);
        Handled { unlinked, cancel, task }
    }

    /// Who an event is for, and what can be done about it here.
    fn dispatch(&mut self, event: &Event) -> (task: EventTask)
        requires
            old(self).wf(),
        ensures
            final(self).wf(),
            task@ == old(self).goes_to(*event),
            *final(self) == (App {
                finder: final(self).finder,
                messages: final(self).messages,
                undo_offer: final(self).undo_offer,
                focus: final(self).focus,
                viewport: final(self).viewport,
                ..*old(self)
            }),
            task@ == EventModel::PalettePaste ==> pasted_into(
                old(self).finder,
                final(self).finder,
                *event,
            ),
            task@ != EventModel::PalettePaste ==> final(self).finder == old(self).finder,
            task@ is Insert ==> final(self).focus == Focus::Editor && !final(self).undo_offer
                && final(self).messages@ == old(self).messages@.acknowledged(),
            !(task@ is Insert) ==> final(self).focus == old(self).focus && final(self).undo_offer
                == old(self).undo_offer && final(self).messages == old(self).messages,
            final(self).viewport == match *event {
                Event::Resize(width, height) => screen(width, height),
                _ => old(self).viewport,
            },
    {
        match event {
            Event::Key(key) => EventTask::Key(*key),
            Event::Mouse(mouse) => EventTask::Mouse(*mouse),
            Event::Paste(text) => {
                if self.prompt.is_some() {
                    return EventTask::PromptPaste(text.clone());
                }
                if self.finder.palette.is_some() {
                    let _ = self.finder.palette_paste(text.as_str());
                    return EventTask::PalettePaste;
                }
                self.acknowledge();
                self.focus = Focus::Editor;
                EventTask::Insert(pasted_line_endings(text.as_str()))
            },
            Event::Resize(width, height) => EventTask::Resized(
                self.set_viewport(Rect::new(0, 0, *width, *height)),
            ),
            Event::Focus(focused) => if *focused {
                EventTask::Done(Outcome::Continue)
            } else {
                EventTask::LostFocus
            },
            Event::Signal(signal) => EventTask::Done(
                match signal {
                    Signal::Suspend => Outcome::Suspend,
                    Signal::Continue => Outcome::Redraw,
                    Signal::Resize => Outcome::Redraw,
                    Signal::Terminate => Outcome::Quit,
                    Signal::Hangup => Outcome::Quit,
                },
            ),
            Event::Closed => EventTask::Done(Outcome::Quit),
            Event::Service => EventTask::Service,
        }
    }

    /// What an event that came to `outcome` leaves to be done, `scroll` and
    /// `doc` being where the view was before it. Anything that changed the text
    /// or moved the view changes what the parser should be looking at, and
    /// anything that redraws may have moved things.
    pub fn settle(&self, outcome: Outcome, scroll: usize, doc: usize) -> (settled: Settled)
        requires
            self.wf(),
        ensures
            settled.parse == (outcome == Outcome::Redraw),
            settled.scrolled == (outcome == Outcome::Redraw && (scroll != self.doc().scroll || doc
                != self.current)),
            settled.relayout == (outcome == Outcome::Redraw),
    {
        let redraw = outcome == Outcome::Redraw;
        Settled {
            parse: redraw,
            scrolled: redraw && (scroll != self.scroll() || doc != self.current),
            relayout: redraw,
        }
    }
}

// ── keys ────────────────────────────────────────────────────────────────────

/// What a key depends on besides the editor's own state.
#[derive(Debug, Clone, Copy, PartialEq, Eq, Structural)]
pub struct KeyFacts {
    /// How many rows of the card are in view, where one is on screen.
    pub card_height: Option<usize>,
    /// Whether a chord is half typed.
    pub chord: bool,
    /// How many rows a page of the completion popup is.
    pub page: i32,
}

/// Who a key is for.
#[derive(Debug, Clone, Copy, PartialEq, Eq, Structural)]
pub enum KeyedTask {
    /// Nobody.
    Ignore,
    /// The question being asked.
    Prompt,
    /// The palette.
    Palette,
    /// The card, which scrolls.
    Card {
        /// Whether down.
        down: bool,
        /// By how many rows.
        rows: usize,
    },
    /// It put the card away, and was spent doing so.
    CardGone,
    /// It put a menu away, and was spent doing so.
    MenuGone,
    /// Completion.
    Completion(KeyTask),
    /// The keymap.
    Feed(Key),
}

/// What came of a key.
#[derive(Debug)]
pub struct KeyedAnswer {
    /// Who it is for.
    pub task: KeyedTask,
    /// Questions to take back.
    pub cancel: Vec<u64>,
}

impl App {
    /// The editor with its card put away.
    pub open spec fn without_card(self) -> App {
        App {
            card: None,
            code_actions: CodeActions { card_asked: None, ..self.code_actions },
            ..self
        }
    }

    /// Put the card away: its question is no longer worth an answer. Whether
    /// there was one, and the question to take back.
    pub fn close_card(&mut self) -> (closed: (bool, Option<u64>))
        ensures
            closed == (old(self).card is Some, old(self).code_actions.card_question()),
            *final(self) == old(self).without_card(),
            old(self).wf() ==> final(self).wf(),
    {
        let cancel = self.code_actions.forget_card_fixes();
        let had = self.card.take().is_some();
        (had, cancel)
    }

    /// What a key does to the card.
    pub open spec fn card_does(self, event: KeyEvent, facts: KeyFacts) -> CardKey {
        if self.card is None {
            CardKey::Pass
        } else {
            keyed(event, facts.card_height)
        }
    }

    /// Who a key is for: a question first, then the palette, the card, a menu,
    /// completion, and the keymap last.
    pub open spec fn key_goes(self, event: KeyEvent, facts: KeyFacts) -> KeyedTask {
        if event.kind == KeyKind::Release {
            KeyedTask::Ignore
        } else if self.prompt is Some {
            KeyedTask::Prompt
        } else if self.finder.palette is Some {
            KeyedTask::Palette
        } else {
            match self.card_does(event, facts) {
                CardKey::Scroll { down, rows } => KeyedTask::Card { down, rows },
                CardKey::Close { spent } if spent => KeyedTask::CardGone,
                _ => if self.menu is Some && event.code is Esc {
                    KeyedTask::MenuGone
                } else {
                    match self.completion.task_for(event, facts.chord, self.focus, facts.page) {
                        Some(task) => KeyedTask::Completion(task),
                        None => match key_of(event) {
                            Some(key) => KeyedTask::Feed(key),
                            None => KeyedTask::Ignore,
                        },
                    }
                },
            }
        }
    }

    /// Whether a key gets as far as the menu: nothing before it takes it.
    pub open spec fn reaches_menu(self, event: KeyEvent, facts: KeyFacts) -> bool {
        &&& event.kind != KeyKind::Release
        &&& self.prompt is None
        &&& self.finder.palette is None
        &&& match self.card_does(event, facts) {
            CardKey::Scroll { .. } => false,
            CardKey::Close { spent } => !spent,
            CardKey::Pass => true,
        }
    }

    /// Whether a key puts the card away.
    pub open spec fn closes_card(self, event: KeyEvent, facts: KeyFacts) -> bool {
        &&& event.kind != KeyKind::Release
        &&& self.prompt is None
        &&& self.finder.palette is None
        &&& self.card_does(event, facts) is Close
    }

    /// The editor after a key has found who it is for.
    pub open spec fn after_key(self, event: KeyEvent, facts: KeyFacts) -> App {
        let a = if self.closes_card(event, facts) {
            self.without_card()
        } else {
            self
        };
        if !self.reaches_menu(event, facts) {
            a
        } else if self.menu is Some && event.code is Esc {
            App { menu: None, ..a }
        } else {
            App {
                menu: None,
                completion: self.completion.after_key(event, facts.chord, self.focus),
                ..a
            }
        }
    }

    /// A key: who it is for. With the Kitty protocol negotiated the terminal
    /// reports releases and repeats too; acting on all three would type every
    /// character twice, so a release is nobody's. Any other ends a drag.
    pub fn handle_key(&mut self, event: &KeyEvent, facts: &KeyFacts) -> (answer: KeyedAnswer)
        requires
            old(self).wf(),
            0 <= facts.page,
        ensures
            final(self).wf(),
            answer.task == old(self).key_goes(*event, *facts),
            *final(self) == old(self).after_key(*event, *facts),
            answer.cancel@ == (if old(self).closes_card(*event, *facts) {
                both(old(self).code_actions.card_question(), None)
            } else {
                Seq::empty()
            }) + (if old(self).reaches_menu(*event, *facts) && !(old(self).menu is Some
                && event.code is Esc) {
                old(self).completion.taken_back(*event, facts.chord, old(self).focus)
            } else {
                Seq::empty()
            }),
    {
        let mut cancel: Vec<u64> = Vec::new();
        if matches!(event.kind, KeyKind::Release) {
            return KeyedAnswer { task: KeyedTask::Ignore, cancel };
        }
        if self.prompt.is_some() {
            return KeyedAnswer { task: KeyedTask::Prompt, cancel };
        }
        if self.finder.palette.is_some() {
            return KeyedAnswer { task: KeyedTask::Palette, cancel };
        }
        if self.card.is_some() {
            match card_key(event, facts.card_height) {
                CardKey::Pass => {},
                CardKey::Scroll { down, rows } => {
                    return KeyedAnswer { task: KeyedTask::Card { down, rows }, cancel };
                },
                CardKey::Close { spent } => {
                    let closed = self.close_card();
                    cancel = pushed(cancel, closed.1);
                    if spent {
                        return KeyedAnswer { task: KeyedTask::CardGone, cancel };
                    }
                },
            }
        }
        if self.menu.take().is_some() && matches!(event.code, KeyCode::Esc) {
            return KeyedAnswer { task: KeyedTask::MenuGone, cancel };
        }
        let mut answer = self.completion.completion_key(event, facts.chord, self.focus, facts.page);
        cancel.append(&mut answer.cancel);
        if let Some(task) = answer.task {
            return KeyedAnswer { task: KeyedTask::Completion(task), cancel };
        }
        match to_key(event) {
            Some(key) => KeyedAnswer { task: KeyedTask::Feed(key), cancel },
            None => KeyedAnswer { task: KeyedTask::Ignore, cancel },
        }
    }
}

/// A question, the palette, a card, a menu: whichever is in front has the key,
/// and nothing behind it does.
pub proof fn what_is_in_front_has_the_key(app: App, event: KeyEvent, facts: KeyFacts)
    ensures
        app.prompt is Some || app.finder.palette is Some ==> app.after_key(event, facts) == app,
        app.prompt is Some && event.kind != KeyKind::Release ==> app.key_goes(event, facts)
            == KeyedTask::Prompt,
        event.kind == KeyKind::Release ==> app.after_key(event, facts) == app && app.key_goes(
            event,
            facts,
        ) == KeyedTask::Ignore,
{
}

// ── commands ────────────────────────────────────────────────────────────────

/// What a command leaves to be done.
#[derive(Debug, Clone, Copy, PartialEq, Eq, Structural)]
pub enum Task {
    /// Make every save put off, and ask to quit.
    Quit,
    /// Save the document being edited.
    Save,
    /// Take the last file operation back.
    UndoFile,
    /// Put it back.
    RedoFile,
    /// Take the last edit back.
    Undo,
    /// Put it back.
    Redo,
    /// Select everything.
    SelectAll,
    /// Show the file tree, or put it away.
    ToggleSidebar,
    /// Ask what to call a new file, or a folder.
    AskNew {
        /// Whether a folder.
        folder: bool,
    },
    /// Ask what to call the selected file.
    AskRename,
    /// Delete the selected file.
    DeleteSelected,
    /// Show ignored files, or not.
    ToggleIgnored,
    /// Close the active tab.
    CloseTab,
    /// Split the pane.
    Split {
        /// Whether beside rather than below.
        beside: bool,
    },
    /// Close the pane.
    ClosePane,
    /// Go to the next pane.
    NextPane,
    /// Open the palette.
    OpenPalette {
        /// Whether on the commands.
        commands: bool,
    },
    /// Open the search panel.
    OpenSearch,
    /// One of the search toggles.
    ToggleSearch(SearchButton),
    /// Add a caret above or below.
    AddCaret {
        /// Whether above.
        above: bool,
    },
    /// Select the next occurrence too.
    AddNextOccurrence,
    /// Select every occurrence.
    AddAllOccurrences,
    /// Put a caret on each line of the selection.
    SplitIntoLines,
    /// Fold here.
    Fold,
    /// Unfold here.
    Unfold,
    /// Fold everything.
    FoldAll,
    /// Unfold everything.
    UnfoldAll,
    /// Grow the selection. The view stays where it is: the selection grows
    /// around what is being looked at.
    GrowSelection,
    /// Shrink it.
    ShrinkSelection,
    /// Start the file's language server again.
    RestartServer,
    /// Format the file.
    Format,
    /// Go to the definition.
    Definition(Open),
    /// List the references.
    References,
    /// Go back.
    Back,
    /// Go forward.
    Forward,
    /// Go to the next reference, or the one before.
    StepReference {
        /// Whether to the next.
        forward: bool,
    },
    /// Go to the next problem, or the one before.
    StepDiagnostic {
        /// Whether to the next.
        forward: bool,
    },
    /// Offer completions: [`App::complete_here`].
    Complete,
    /// Rename the symbol.
    RenameSymbol,
    /// Take the last edit across files back.
    UndoEdit,
    /// Say what the symbol is.
    ShowHover,
    /// Offer code actions.
    CodeActions,
    /// Go to the next tab, or the one before.
    StepTab {
        /// Whether to the next.
        forward: bool,
    },
    /// Go to the next change, or the one before.
    StepHunk {
        /// Whether to the next.
        forward: bool,
    },
    /// Say what the change is.
    ShowHunk,
    /// Put the change back.
    RevertHunk,
    /// Stage the change.
    StageHunk,
    /// Go to the next change in the diff view, or the one before.
    DiffStep {
        /// Whether to the next.
        forward: bool,
    },
    /// Stage the change the diff view is at.
    DiffStage,
    /// Something about the diff view.
    Diff(DiffCommand),
}

impl Task {
    /// Whether the view follows the caret afterwards: an edit or a selection in
    /// the text, which moved it.
    pub open spec fn moves_caret(self) -> bool {
        match self {
            Task::Undo | Task::Redo | Task::SelectAll | Task::AddNextOccurrence
            | Task::AddAllOccurrences | Task::SplitIntoLines => true,
            Task::AddCaret { .. } => true,
            _ => false,
        }
    }

    /// Whether the view follows the caret afterwards.
    pub fn follows_caret(self) -> (follows: bool)
        ensures
            follows == self.moves_caret(),
    {
        match self {
            Task::Undo
            | Task::Redo
            | Task::SelectAll
            | Task::AddNextOccurrence
            | Task::AddAllOccurrences
            | Task::SplitIntoLines => true,
            Task::AddCaret { .. } => true,
            _ => false,
        }
    }
}

/// What a command asks for while `focus` has the keyboard. Undo means the thing
/// that has the keyboard: with the tree focused, the last file operation. And
/// the keys that step between changes do so in the diff view when that has it.
pub open spec fn task_of(command: Command, focus: Focus) -> Task {
    match command {
        Command::Quit => Task::Quit,
        Command::Save => Task::Save,
        Command::Undo => if focus == Focus::Sidebar {
            Task::UndoFile
        } else {
            Task::Undo
        },
        Command::Redo => if focus == Focus::Sidebar {
            Task::RedoFile
        } else {
            Task::Redo
        },
        Command::SelectAll => Task::SelectAll,
        Command::ToggleSidebar => Task::ToggleSidebar,
        Command::NewFile => Task::AskNew { folder: false },
        Command::NewFolder => Task::AskNew { folder: true },
        Command::Rename => Task::AskRename,
        Command::Delete => Task::DeleteSelected,
        Command::ToggleIgnored => Task::ToggleIgnored,
        Command::CloseTab => Task::CloseTab,
        Command::SplitBeside => Task::Split { beside: true },
        Command::SplitBelow => Task::Split { beside: false },
        Command::ClosePane => Task::ClosePane,
        Command::NextPane => Task::NextPane,
        Command::Palette => Task::OpenPalette { commands: false },
        Command::Commands => Task::OpenPalette { commands: true },
        Command::SearchProject => Task::OpenSearch,
        Command::SearchRegex => Task::ToggleSearch(SearchButton::Regex),
        Command::SearchCase => Task::ToggleSearch(SearchButton::Case),
        Command::SearchWord => Task::ToggleSearch(SearchButton::Word),
        Command::SearchIgnored => Task::ToggleSearch(SearchButton::Ignored),
        Command::AddCaretAbove => Task::AddCaret { above: true },
        Command::AddCaretBelow => Task::AddCaret { above: false },
        Command::AddNextOccurrence => Task::AddNextOccurrence,
        Command::AddAllOccurrences => Task::AddAllOccurrences,
        Command::Fold => Task::Fold,
        Command::Unfold => Task::Unfold,
        Command::FoldAll => Task::FoldAll,
        Command::UnfoldAll => Task::UnfoldAll,
        Command::GrowSelection => Task::GrowSelection,
        Command::ShrinkSelection => Task::ShrinkSelection,
        Command::RestartLanguageServer => Task::RestartServer,
        Command::FormatDocument => Task::Format,
        Command::GoToDefinition => Task::Definition(Open::Here),
        Command::OpenDefinitionBeside => Task::Definition(Open::Beside),
        Command::FindReferences => Task::References,
        Command::GoBack => Task::Back,
        Command::GoForward => Task::Forward,
        Command::NextReference => Task::StepReference { forward: true },
        Command::PreviousReference => Task::StepReference { forward: false },
        Command::NextDiagnostic => Task::StepDiagnostic { forward: true },
        Command::PreviousDiagnostic => Task::StepDiagnostic { forward: false },
        Command::Complete => Task::Complete,
        Command::RenameSymbol => Task::RenameSymbol,
        Command::UndoRename => Task::UndoEdit,
        Command::ShowHover => Task::ShowHover,
        Command::CodeActions => Task::CodeActions,
        Command::SplitIntoLines => Task::SplitIntoLines,
        Command::NextTab => Task::StepTab { forward: true },
        Command::PreviousTab => Task::StepTab { forward: false },
        Command::NextHunk => if focus == Focus::Diff {
            Task::DiffStep { forward: true }
        } else {
            Task::StepHunk { forward: true }
        },
        Command::PreviousHunk => if focus == Focus::Diff {
            Task::DiffStep { forward: false }
        } else {
            Task::StepHunk { forward: false }
        },
        Command::ShowHunk => Task::ShowHunk,
        Command::RevertHunk => Task::RevertHunk,
        Command::StageHunk => if focus == Focus::Diff {
            Task::DiffStage
        } else {
            Task::StageHunk
        },
        Command::Diff(action) => Task::Diff(action),
    }
}

/// How a command about the text went.
#[derive(Debug, Clone, Copy, PartialEq, Eq, Structural)]
pub enum TextResult {
    /// It did what it does.
    Done,
    /// There was no other occurrence to select.
    NoOther,
    /// There was nothing to select every occurrence of.
    Nothing,
    /// There are more occurrences than this, and none was selected.
    TooMany(usize),
    /// The selection is on one line.
    OneLine,
}

impl TextResult {
    /// What is said of it.
    pub open spec fn words(self) -> Option<Seq<char>> {
        match self {
            TextResult::Done => None,
            TextResult::NoOther => Some("No other occurrence of that."@),
            TextResult::Nothing => Some("Nothing to select every occurrence of."@),
            TextResult::TooMany(limit) => Some(
                "More than "@ + decimal_of(limit as nat)
                    + " occurrences; left the selection as it was."@,
            ),
            TextResult::OneLine => Some("The selection is already on one line."@),
        }
    }
}

impl App {
    /// Whether `after` is the editor once `command` has been asked for: any
    /// message has been seen, and anything but a second quit clears a pending
    /// quit.
    pub open spec fn ran(self, after: App, command: Command) -> bool {
        &&& after == (App {
            messages: after.messages,
            undo_offer: false,
            quit_confirmed: self.quit_confirmed && command == Command::Quit,
            ..self
        })
        &&& after.messages@ == self.messages@.acknowledged()
    }

    /// Run a command: what it leaves to be done. Anything that redraws
    /// afterwards is laid out again: a command can open the sidebar, put a
    /// question in the status line or leave a message, and what is where has to
    /// match what will be drawn.
    pub fn run(&mut self, command: Command) -> (task: Task)
        ensures
            old(self).ran(*final(self), command),
            task == task_of(command, old(self).focus),
            old(self).wf() ==> final(self).wf(),
    {
        if command != Command::Quit {
            self.quit_confirmed = false;
        }
        self.acknowledge();
        let sidebar = self.focus == Focus::Sidebar;
        let diff = self.focus == Focus::Diff;
        match command {
            Command::Quit => Task::Quit,
            Command::Save => Task::Save,
            Command::Undo => if sidebar {
                Task::UndoFile
            } else {
                Task::Undo
            },
            Command::Redo => if sidebar {
                Task::RedoFile
            } else {
                Task::Redo
            },
            Command::SelectAll => Task::SelectAll,
            Command::ToggleSidebar => Task::ToggleSidebar,
            Command::NewFile => Task::AskNew { folder: false },
            Command::NewFolder => Task::AskNew { folder: true },
            Command::Rename => Task::AskRename,
            Command::Delete => Task::DeleteSelected,
            Command::ToggleIgnored => Task::ToggleIgnored,
            Command::CloseTab => Task::CloseTab,
            Command::SplitBeside => Task::Split { beside: true },
            Command::SplitBelow => Task::Split { beside: false },
            Command::ClosePane => Task::ClosePane,
            Command::NextPane => Task::NextPane,
            Command::Palette => Task::OpenPalette { commands: false },
            Command::Commands => Task::OpenPalette { commands: true },
            Command::SearchProject => Task::OpenSearch,
            Command::SearchRegex => Task::ToggleSearch(SearchButton::Regex),
            Command::SearchCase => Task::ToggleSearch(SearchButton::Case),
            Command::SearchWord => Task::ToggleSearch(SearchButton::Word),
            Command::SearchIgnored => Task::ToggleSearch(SearchButton::Ignored),
            Command::AddCaretAbove => Task::AddCaret { above: true },
            Command::AddCaretBelow => Task::AddCaret { above: false },
            Command::AddNextOccurrence => Task::AddNextOccurrence,
            Command::AddAllOccurrences => Task::AddAllOccurrences,
            Command::Fold => Task::Fold,
            Command::Unfold => Task::Unfold,
            Command::FoldAll => Task::FoldAll,
            Command::UnfoldAll => Task::UnfoldAll,
            Command::GrowSelection => Task::GrowSelection,
            Command::ShrinkSelection => Task::ShrinkSelection,
            Command::RestartLanguageServer => Task::RestartServer,
            Command::FormatDocument => Task::Format,
            Command::GoToDefinition => Task::Definition(Open::Here),
            Command::OpenDefinitionBeside => Task::Definition(Open::Beside),
            Command::FindReferences => Task::References,
            Command::GoBack => Task::Back,
            Command::GoForward => Task::Forward,
            Command::NextReference => Task::StepReference { forward: true },
            Command::PreviousReference => Task::StepReference { forward: false },
            Command::NextDiagnostic => Task::StepDiagnostic { forward: true },
            Command::PreviousDiagnostic => Task::StepDiagnostic { forward: false },
            Command::Complete => Task::Complete,
            Command::RenameSymbol => Task::RenameSymbol,
            Command::UndoRename => Task::UndoEdit,
            Command::ShowHover => Task::ShowHover,
            Command::CodeActions => Task::CodeActions,
            Command::SplitIntoLines => Task::SplitIntoLines,
            Command::NextTab => Task::StepTab { forward: true },
            Command::PreviousTab => Task::StepTab { forward: false },
            Command::NextHunk => if diff {
                Task::DiffStep { forward: true }
            } else {
                Task::StepHunk { forward: true }
            },
            Command::PreviousHunk => if diff {
                Task::DiffStep { forward: false }
            } else {
                Task::StepHunk { forward: false }
            },
            Command::ShowHunk => Task::ShowHunk,
            Command::RevertHunk => Task::RevertHunk,
            Command::StageHunk => if diff {
                Task::DiffStage
            } else {
                Task::StageHunk
            },
            Command::Diff(action) => Task::Diff(action),
        }
    }

    /// A command about the text was carried out: say how it went.
    pub fn text_changed(&mut self, result: TextResult)
        ensures
            final(self).messages@ == match result.words() {
                Some(said) => old(self).messages@.saying(said),
                None => old(self).messages@,
            },
            *final(self) == (App { messages: final(self).messages, ..*old(self) }),
    {
        match result {
            TextResult::Done => {},
            TextResult::NoOther => self.messages.say("No other occurrence of that.".to_owned()),
            TextResult::Nothing => self.messages.say(
                "Nothing to select every occurrence of.".to_owned(),
            ),
            TextResult::TooMany(limit) => self.messages.say(
                join3(
                    "More than ",
                    decimal(limit).as_str(),
                    " occurrences; left the selection as it was.",
                ),
            ),
            TextResult::OneLine => self.messages.say(
                "The selection is already on one line.".to_owned(),
            ),
        }
    }
}

// ── editing ─────────────────────────────────────────────────────────────────

/// Where a caret moves.
#[derive(Debug, Clone, Copy, PartialEq, Eq, Structural)]
pub enum Motion {
    /// A character back.
    Left,
    /// A character on.
    Right,
    /// A line up.
    Up,
    /// A line down.
    Down,
    /// To the start of the line.
    LineStart,
    /// To the end of it.
    LineEnd,
}

/// What an editing key does to the text.
#[derive(Debug, Clone, Copy, PartialEq, Eq, Structural)]
pub enum EditTask {
    /// Several carets become the primary alone, selection and all.
    Primary,
    /// The selection drops to a caret.
    Caret,
    /// This is typed.
    Insert(char),
    /// What is before the caret goes.
    DeleteBackward,
    /// What is after it goes.
    DeleteForward,
    /// The carets move.
    Move {
        /// Where.
        motion: Motion,
        /// Whether the selection is extended.
        extend: bool,
        /// How many times.
        times: usize,
    },
    /// Nothing: an unbound chord, or a key there is no use for. The message it
    /// may have cleared still needs a redraw.
    Nothing,
}

/// What an editing key does, with `carets` carets in the text and `height` rows
/// of it in view. Escape steps down one level at a time: several carets become
/// the primary, and a second press drops its selection.
pub open spec fn edits(key: KeyEvent, carets: usize, height: usize) -> EditTask {
    let control = key.modifiers.control || key.modifiers.cmd;
    let extend = key.modifiers.shift;
    match key.code {
        KeyCode::Esc => if carets > 1 {
            EditTask::Primary
        } else {
            EditTask::Caret
        },
        KeyCode::Char(ch) => if control {
            EditTask::Nothing
        } else {
            EditTask::Insert(ch)
        },
        KeyCode::Enter => EditTask::Insert('\n'),
        KeyCode::Tab => EditTask::Insert('\t'),
        KeyCode::Backspace => EditTask::DeleteBackward,
        KeyCode::Delete => EditTask::DeleteForward,
        KeyCode::Left => EditTask::Move { motion: Motion::Left, extend, times: 1 },
        KeyCode::Right => EditTask::Move { motion: Motion::Right, extend, times: 1 },
        KeyCode::Up => EditTask::Move { motion: Motion::Up, extend, times: 1 },
        KeyCode::Down => EditTask::Move { motion: Motion::Down, extend, times: 1 },
        KeyCode::Home => EditTask::Move { motion: Motion::LineStart, extend, times: 1 },
        KeyCode::End => EditTask::Move { motion: Motion::LineEnd, extend, times: 1 },
        KeyCode::PageUp => EditTask::Move { motion: Motion::Up, extend, times: height },
        KeyCode::PageDown => EditTask::Move { motion: Motion::Down, extend, times: height },
        _ => EditTask::Nothing,
    }
}

impl App {
    /// Whether `after` is the editor once an editing key has been pressed.
    pub open spec fn edited(self, after: App) -> bool {
        &&& after == (App {
            messages: after.messages,
            undo_offer: false,
            quit_confirmed: false,
            ..self
        })
        &&& after.messages@ == self.messages@.acknowledged()
    }

    /// An editing key: typing, moving, deleting. Not rebindable. What it does
    /// to the text, with `carets` carets in it and `height` rows of it in view.
    pub fn edit(&mut self, key: &KeyEvent, carets: usize, height: usize) -> (task: EditTask)
        ensures
            old(self).edited(*final(self)),
            task == edits(*key, carets, height),
            old(self).wf() ==> final(self).wf(),
    {
        self.quit_confirmed = false;
        self.acknowledge();
        let control = key.modifiers.control || key.modifiers.cmd;
        let extend = key.modifiers.shift;
        match key.code {
            KeyCode::Esc => if carets > 1 {
                EditTask::Primary
            } else {
                EditTask::Caret
            },
            KeyCode::Char(ch) => if control {
                EditTask::Nothing
            } else {
                EditTask::Insert(ch)
            },
            KeyCode::Enter => EditTask::Insert('\n'),
            KeyCode::Tab => EditTask::Insert('\t'),
            KeyCode::Backspace => EditTask::DeleteBackward,
            KeyCode::Delete => EditTask::DeleteForward,
            KeyCode::Left => EditTask::Move { motion: Motion::Left, extend, times: 1 },
            KeyCode::Right => EditTask::Move { motion: Motion::Right, extend, times: 1 },
            KeyCode::Up => EditTask::Move { motion: Motion::Up, extend, times: 1 },
            KeyCode::Down => EditTask::Move { motion: Motion::Down, extend, times: 1 },
            KeyCode::Home => EditTask::Move { motion: Motion::LineStart, extend, times: 1 },
            KeyCode::End => EditTask::Move { motion: Motion::LineEnd, extend, times: 1 },
            KeyCode::PageUp => EditTask::Move { motion: Motion::Up, extend, times: height },
            KeyCode::PageDown => EditTask::Move { motion: Motion::Down, extend, times: height },
            _ => EditTask::Nothing,
        }
    }
}

// ── what the keymap made of a key ───────────────────────────────────────────

/// What a keystroke, or a chord timing out, resolved to.
#[derive(Debug)]
pub enum Resolved {
    /// A command.
    Command {
        /// Which.
        command: Command,
        /// Whether it acts on the text, and means nothing to a panel.
        on_text: bool,
        /// Whether the key just pressed is bound to it on its own, rather than
        /// being the last of a chord.
        alone: bool,
    },
    /// A chord, so far. The status line shows it.
    Pending,
    /// One key, just pressed, that is bound to nothing: it is typed.
    Key,
    /// A chord that is bound to nothing, as it reads. One that timed out after a
    /// single key comes as this too: no key was pressed to be typed, and what is
    /// said is that it is bound to nothing.
    Unbound(String),
}

/// Who what a key resolved to is for.
#[derive(Debug, Clone, Copy, PartialEq, Eq, Structural)]
pub enum ResolvedTask {
    /// Nobody: just this.
    Done(Outcome),
    /// A command was run, and leaves this.
    Run(Task),
    /// The panel that has the keyboard. Where it has no use for the key and
    /// `types`, the text takes the keyboard and types it.
    Panel {
        /// Whose the keyboard is.
        focus: Focus,
        /// Whether the key is typed where the panel has no use for it.
        types: bool,
    },
    /// The text.
    Edit(EditTask),
}

impl App {
    /// Who what a key resolved to is for. A panel with the keyboard has first
    /// say over a key bound to something it cannot mean, and only over a key
    /// bound on its own: the last key of a chord is not one the person pressed
    /// at it. And everything unbound belongs to it.
    pub open spec fn resolves(
        self,
        resolved: Resolved,
        event: Option<KeyEvent>,
        carets: usize,
        height: usize,
    ) -> ResolvedTask {
        match resolved {
            Resolved::Command { command, on_text, alone } => if on_text && self.focus
                != Focus::Editor {
                if event is Some && alone {
                    ResolvedTask::Panel { focus: self.focus, types: false }
                } else {
                    ResolvedTask::Done(Outcome::Continue)
                }
            } else {
                ResolvedTask::Run(task_of(command, self.focus))
            },
            Resolved::Pending => ResolvedTask::Done(Outcome::Redraw),
            Resolved::Key => match event {
                Some(event) => if self.focus == Focus::Editor {
                    ResolvedTask::Edit(edits(event, carets, height))
                } else {
                    ResolvedTask::Panel {
                        focus: self.focus,
                        types: self.focus == Focus::Sidebar,
                    }
                },
                None => ResolvedTask::Done(Outcome::Continue),
            },
            Resolved::Unbound(_) => ResolvedTask::Done(Outcome::Redraw),
        }
    }

    /// Whether `after` is the editor once what a key resolved to has been acted
    /// on.
    pub open spec fn acted(self, after: App, resolved: Resolved, event: Option<KeyEvent>) -> bool {
        let seen = after == (App { messages: after.messages, undo_offer: false, ..self });
        match resolved {
            Resolved::Command { command, on_text, .. } => if on_text && self.focus
                != Focus::Editor {
                if event is Some {
                    seen && after.messages@ == self.messages@.acknowledged()
                } else {
                    after == self
                }
            } else {
                self.ran(after, command)
            },
            Resolved::Pending => after == self,
            Resolved::Key => if event is None {
                after == self
            } else if self.focus == Focus::Editor {
                self.edited(after)
            } else {
                seen && after.messages@ == self.messages@.acknowledged()
            },
            Resolved::Unbound(keys) => seen && after.messages@
                == self.messages@.acknowledged().saying(keys@ + " is not bound to anything"@),
        }
    }

    /// Act on what a keystroke, or a chord timing out, resolved to. `event` is
    /// the keystroke itself, when there is one: an unbound single key is always
    /// the one just pressed, and it is typed as the terminal reported it.
    pub fn resolved(
        &mut self,
        resolved: &Resolved,
        event: Option<KeyEvent>,
        carets: usize,
        height: usize,
    ) -> (task: ResolvedTask)
        ensures
            task == old(self).resolves(*resolved, event, carets, height),
            old(self).acted(*final(self), *resolved, event),
            old(self).wf() ==> final(self).wf(),
    {
        match resolved {
            Resolved::Command { command, on_text, alone } => {
                if *on_text && self.focus != Focus::Editor {
                    if event.is_none() {
                        return ResolvedTask::Done(Outcome::Continue);
                    }
                    self.acknowledge();
                    if !*alone {
                        return ResolvedTask::Done(Outcome::Continue);
                    }
                    return ResolvedTask::Panel { focus: self.focus, types: false };
                }
                ResolvedTask::Run(self.run(*command))
            },
            Resolved::Pending => ResolvedTask::Done(Outcome::Redraw),
            Resolved::Key => match event {
                Some(event) => {
                    if self.focus == Focus::Editor {
                        return ResolvedTask::Edit(self.edit(&event, carets, height));
                    }
                    self.acknowledge();
                    ResolvedTask::Panel { focus: self.focus, types: self.focus == Focus::Sidebar }
                },
                None => ResolvedTask::Done(Outcome::Continue),
            },
            Resolved::Unbound(keys) => {
                self.acknowledge();
                self.messages.say(join(keys.as_str(), " is not bound to anything"));
                ResolvedTask::Done(Outcome::Redraw)
            },
        }
    }

    /// The panel had no use for a key: it is text, so the text takes the
    /// keyboard and types it rather than swallowing the keystroke.
    pub fn typed_through(&mut self, key: &KeyEvent, carets: usize, height: usize) -> (task:
        EditTask)
        ensures
            (App { focus: Focus::Editor, ..*old(self) }).edited(*final(self)),
            task == edits(*key, carets, height),
            old(self).wf() ==> final(self).wf(),
    {
        self.focus = Focus::Editor;
        self.edit(key, carets, height)
    }

    /// A deadline passed with no input, and a chord waiting for its next key
    /// came to this, if one was. A message that one key is bound to nothing
    /// takes the place of any there is: no key was pressed to see that.
    pub fn tick(&mut self, expired: &Option<Resolved>, carets: usize, height: usize) -> (task:
        ResolvedTask)
        ensures
            old(self).wf() ==> final(self).wf(),
            match *expired {
                None => task == ResolvedTask::Done(Outcome::Continue) && *final(self)
                    == *old(self),
                Some(Resolved::Unbound(keys)) => {
                    &&& task == ResolvedTask::Done(Outcome::Redraw)
                    &&& *final(self) == (App { messages: final(self).messages, ..*old(self) })
                    &&& final(self).messages@ == old(self).messages@.saying(
                        keys@ + " is not bound to anything"@,
                    )
                },
                Some(resolved) => {
                    &&& task == old(self).resolves(resolved, None, carets, height)
                    &&& old(self).acted(*final(self), resolved, None)
                },
            },
    {
        match expired {
            None => ResolvedTask::Done(Outcome::Continue),
            Some(resolved) => {
                if let Resolved::Unbound(keys) = resolved {
                    self.messages.say(join(keys.as_str(), " is not bound to anything"));
                    return ResolvedTask::Done(Outcome::Redraw);
                }
                self.resolved(resolved, None, carets, height)
            },
        }
    }
}

/// Quitting with something to lose asks once and goes the second time; with
/// nothing to lose it goes at once.
pub proof fn quitting_asks_once(unsaved: nat)
    ensures
        unsaved > 0 ==> quitting(unsaved, false) == (Outcome::Redraw, true),
        quitting(unsaved, quitting(unsaved, false).1).0 == Outcome::Quit,
        unsaved == 0 ==> quitting(unsaved, false).0 == Outcome::Quit,
{
}

/// The confirmation does not survive anything in between: after a command other
/// than quitting, or an editing key, quitting asks again.
pub proof fn anything_in_between_asks_again(
    before: App,
    ran: App,
    typed: App,
    command: Command,
    unsaved: nat,
)
    requires
        command != Command::Quit,
        unsaved > 0,
        before.ran(ran, command),
        before.edited(typed),
    ensures
        quitting(unsaved, ran.quit_confirmed) == (Outcome::Redraw, true),
        quitting(unsaved, typed.quit_confirmed) == (Outcome::Redraw, true),
{
}

/// A panel that has the keyboard has first say over every key: none goes
/// straight into a document the person is not looking at.
pub proof fn a_panel_has_first_say(
    app: App,
    resolved: Resolved,
    event: Option<KeyEvent>,
    carets: usize,
    height: usize,
)
    requires
        app.focus != Focus::Editor,
    ensures
        !(app.resolves(resolved, event, carets, height) is Edit),
{
}

/// A command does what it is called, and nothing else does that: undo and redo are the
/// file tree's where it has the keyboard, and the changes are the diff view's where
/// that has.
pub proof fn a_command_does_what_it_is_called(command: Command, focus: Focus)
    ensures
        match task_of(command, focus) {
            Task::Quit => command is Quit,
            Task::Save => command is Save,
            Task::UndoFile => command is Undo && focus is Sidebar,
            Task::RedoFile => command is Redo && focus is Sidebar,
            Task::Undo => command is Undo && !(focus is Sidebar),
            Task::Redo => command is Redo && !(focus is Sidebar),
            Task::SelectAll => command is SelectAll,
            Task::ToggleSidebar => command is ToggleSidebar,
            Task::AskNew { folder } => if folder {
                command is NewFolder
            } else {
                command is NewFile
            },
            Task::AskRename => command is Rename,
            Task::DeleteSelected => command is Delete,
            Task::ToggleIgnored => command is ToggleIgnored,
            Task::CloseTab => command is CloseTab,
            Task::Split { beside } => if beside {
                command is SplitBeside
            } else {
                command is SplitBelow
            },
            Task::ClosePane => command is ClosePane,
            Task::NextPane => command is NextPane,
            Task::OpenPalette { commands } => if commands {
                command is Commands
            } else {
                command is Palette
            },
            Task::OpenSearch => command is SearchProject,
            Task::ToggleSearch(button) => match button {
                SearchButton::Regex => command is SearchRegex,
                SearchButton::Case => command is SearchCase,
                SearchButton::Word => command is SearchWord,
                SearchButton::Ignored => command is SearchIgnored,
            },
            Task::AddCaret { above } => if above {
                command is AddCaretAbove
            } else {
                command is AddCaretBelow
            },
            Task::AddNextOccurrence => command is AddNextOccurrence,
            Task::AddAllOccurrences => command is AddAllOccurrences,
            Task::SplitIntoLines => command is SplitIntoLines,
            Task::Fold => command is Fold,
            Task::Unfold => command is Unfold,
            Task::FoldAll => command is FoldAll,
            Task::UnfoldAll => command is UnfoldAll,
            Task::GrowSelection => command is GrowSelection,
            Task::ShrinkSelection => command is ShrinkSelection,
            Task::RestartServer => command is RestartLanguageServer,
            Task::Format => command is FormatDocument,
            Task::Definition(open) => match open {
                Open::Here => command is GoToDefinition,
                Open::Beside => command is OpenDefinitionBeside,
            },
            Task::References => command is FindReferences,
            Task::Back => command is GoBack,
            Task::Forward => command is GoForward,
            Task::StepReference { forward } => if forward {
                command is NextReference
            } else {
                command is PreviousReference
            },
            Task::StepDiagnostic { forward } => if forward {
                command is NextDiagnostic
            } else {
                command is PreviousDiagnostic
            },
            Task::Complete => command is Complete,
            Task::RenameSymbol => command is RenameSymbol,
            Task::UndoEdit => command is UndoRename,
            Task::ShowHover => command is ShowHover,
            Task::CodeActions => command is CodeActions,
            Task::StepTab { forward } => if forward {
                command is NextTab
            } else {
                command is PreviousTab
            },
            Task::StepHunk { forward } => !(focus is Diff) && if forward {
                command is NextHunk
            } else {
                command is PreviousHunk
            },
            Task::ShowHunk => command is ShowHunk,
            Task::RevertHunk => command is RevertHunk,
            Task::StageHunk => command is StageHunk && !(focus is Diff),
            Task::DiffStep { forward } => focus is Diff && if forward {
                command is NextHunk
            } else {
                command is PreviousHunk
            },
            Task::DiffStage => command is StageHunk && focus is Diff,
            Task::Diff(action) => command == Command::Diff(action),
        },
{
}

/// A key the text has does what is on it: chars are typed unless held with Control or
/// Command, Enter and Tab as what they type, the arrows, Home and End move once and the
/// page keys as many lines as are in view, and Shift extends what is selected.
pub proof fn a_key_does_what_is_on_it(key: KeyEvent, carets: usize, height: usize)
    ensures
        ({
            let command = key.modifiers.control || key.modifiers.cmd;
            match edits(key, carets, height) {
                EditTask::Primary => key.code is Esc && carets > 1,
                EditTask::Caret => key.code is Esc && carets <= 1,
                EditTask::Insert(ch) => {
                    ||| key.code == KeyCode::Char(ch) && !command
                    ||| key.code is Enter && ch == '\n'
                    ||| key.code is Tab && ch == '\t'
                },
                EditTask::DeleteBackward => key.code is Backspace,
                EditTask::DeleteForward => key.code is Delete,
                EditTask::Move { motion, extend, times } => extend == key.modifiers.shift
                    && match motion {
                    Motion::Left => key.code is Left && times == 1,
                    Motion::Right => key.code is Right && times == 1,
                    Motion::Up => (key.code is Up && times == 1) || (key.code is PageUp && times
                        == height),
                    Motion::Down => (key.code is Down && times == 1) || (key.code is PageDown
                        && times == height),
                    Motion::LineStart => key.code is Home && times == 1,
                    Motion::LineEnd => key.code is End && times == 1,
                },
                EditTask::Nothing => match key.code {
                    KeyCode::Char(_) => command,
                    KeyCode::F(_) => true,
                    KeyCode::BackTab => true,
                    KeyCode::Insert => true,
                    KeyCode::Modifier => true,
                    KeyCode::Unused => true,
                    _ => false,
                },
            }
        }),
{
}

/// What moves the carets is what edits or selects text: undoing and redoing, and every
/// way of adding to the selection.
pub proof fn only_editing_and_selecting_move_the_carets(task: Task)
    ensures
        task.moves_caret() <==> task is Undo || task is Redo || task is SelectAll
            || task is AddCaret || task is AddNextOccurrence || task is AddAllOccurrences
            || task is SplitIntoLines,
{
}

/// Only a key, a paste, or losing the keyboard takes an underline away.
pub proof fn a_key_takes_an_underline_away(event: Event)
    ensures
        unlinks(event) <==> event is Key || event is Paste || event == Event::Focus(false),
{
}

/// A paste goes to the question being asked, or the palette, or else into the text
/// with its lines as the text has them; a signal to stop suspends, one to end quits, and
/// so does the end of events.
pub proof fn an_event_goes_to_who_it_is_for(app: App, text: String, signal: Signal)
    ensures
        app.prompt is Some ==> app.goes_to(Event::Paste(text)) == EventModel::PromptPaste(text@),
        app.prompt is None && app.finder.palette is Some ==> app.goes_to(Event::Paste(text))
            is PalettePaste,
        app.prompt is None && app.finder.palette is None ==> app.goes_to(Event::Paste(text))
            == EventModel::Insert(normalised(text@)),
        app.goes_to(Event::Signal(Signal::Suspend)) == EventModel::Done(Outcome::Suspend),
        app.goes_to(Event::Signal(signal)) == EventModel::Done(Outcome::Quit) <==> signal
            is Terminate || signal is Hangup,
        app.goes_to(Event::Signal(signal)) == EventModel::Done(Outcome::Redraw) <==> signal
            is Continue || signal is Resize,
        app.goes_to(Event::Closed) == EventModel::Done(Outcome::Quit),
        app.goes_to(Event::Focus(false)) is LostFocus,
        app.goes_to(Event::Focus(true)) == EventModel::Done(Outcome::Continue),
{
}

/// The terminal's new size is news where it is not the size the view has.
pub proof fn a_new_size_is_news(app: App, width: u16, height: u16)
    requires
        app.viewport.x == 0,
        app.viewport.y == 0,
    ensures
        app.goes_to(Event::Resize(width, height)) == EventModel::Resized(
            app.viewport.width != width || app.viewport.height != height,
        ),
{
}

/// A command on the text means nothing to a panel that has the keyboard: the key goes to
/// the panel instead, where it was one key. One that is not runs wherever the keyboard
/// is; a key bound to nothing is typed, or the panel's; and a chord bound to nothing is
/// neither.
pub proof fn a_panel_keeps_its_keys(
    app: App,
    command: Command,
    alone: bool,
    event: KeyEvent,
    keys: String,
    carets: usize,
    height: usize,
)
    ensures
        ({
            let on_text = Resolved::Command { command, on_text: true, alone };
            let anywhere = Resolved::Command { command, on_text: false, alone };
            &&& app.resolves(anywhere, Some(event), carets, height) == ResolvedTask::Run(
                task_of(command, app.focus),
            )
            &&& app.focus is Editor ==> {
                &&& app.resolves(on_text, Some(event), carets, height) == ResolvedTask::Run(
                    task_of(command, app.focus),
                )
                &&& app.resolves(Resolved::Key, Some(event), carets, height) == ResolvedTask::Edit(
                    edits(event, carets, height),
                )
            }
            &&& !(app.focus is Editor) ==> {
                &&& app.resolves(on_text, Some(event), carets, height) == if alone {
                    ResolvedTask::Panel { focus: app.focus, types: false }
                } else {
                    ResolvedTask::Done(Outcome::Continue)
                }
                &&& app.resolves(Resolved::Key, Some(event), carets, height)
                    == ResolvedTask::Panel { focus: app.focus, types: app.focus is Sidebar }
            }
            &&& app.resolves(Resolved::Unbound(keys), Some(event), carets, height)
                == ResolvedTask::Done(Outcome::Redraw)
            &&& app.resolves(Resolved::Pending, Some(event), carets, height) == ResolvedTask::Done(
                Outcome::Redraw,
            )
        }),
{
}

/// A chord bound to nothing is said to be, after what was said before has been put away;
/// a key that is typed or goes to a panel puts that away and no more; a chord half typed
/// changes nothing.
pub proof fn a_chord_bound_to_nothing_is_said_to_be(
    app: App,
    after: App,
    keys: String,
    event: KeyEvent,
)
    ensures
        app.acted(after, Resolved::Unbound(keys), Some(event)) ==> after.messages@.shown() == Some(
            keys@ + " is not bound to anything"@,
        ) && after.quit_confirmed == app.quit_confirmed && !after.undo_offer,
        app.acted(after, Resolved::Pending, Some(event)) ==> after == app,
        app.acted(after, Resolved::Key, Some(event)) ==> after.messages@ == app.messages@.acknowledged()
            && !after.undo_offer && (app.focus is Editor ==> !after.quit_confirmed),
        app.acted(after, Resolved::Key, None) ==> after == app,
{
}

/// With no question, palette or card in front, Escape puts a menu away and does no more;
/// any other key goes on to completion where it is completion's, and to the keymap where
/// it is not, whether a menu is open or not; and whichever key it is, the menu goes.
pub proof fn a_key_goes_on_past_a_menu(app: App, event: KeyEvent, facts: KeyFacts)
    requires
        !(event.kind is Release),
        app.prompt is None,
        app.finder.palette is None,
        app.card is None,
    ensures
        ({
            let task = app.completion.task_for(event, facts.chord, app.focus, facts.page);
            &&& app.key_goes(event, facts) is MenuGone <==> app.menu is Some && event.code is Esc
            &&& !(app.menu is Some && event.code is Esc) ==> {
                &&& task matches Some(task) ==> app.key_goes(event, facts)
                    == KeyedTask::Completion(task)
                &&& task is None ==> match key_of(event) {
                    Some(key) => app.key_goes(event, facts) == KeyedTask::Feed(key),
                    None => app.key_goes(event, facts) is Ignore,
                }
            }
            &&& app.after_key(event, facts).menu is None
            &&& app.menu is Some && event.code is Esc ==> app.after_key(event, facts).completion
                == app.completion
            &&& !(app.menu is Some && event.code is Esc) ==> app.after_key(event, facts).completion
                == app.completion.after_key(event, facts.chord, app.focus)
        }),
{
}

/// A key let go is nobody's; a question has every other before the palette, and the
/// palette before the card; and none of them changes anything on the way.
pub proof fn a_question_has_the_key_before_the_palette(app: App, event: KeyEvent, facts: KeyFacts)
    ensures
        event.kind is Release ==> app.key_goes(event, facts) is Ignore && app.after_key(event, facts)
            == app,
        !(event.kind is Release) && app.prompt is Some ==> app.key_goes(event, facts) is Prompt
            && app.after_key(event, facts) == app,
        !(event.kind is Release) && app.prompt is None && app.finder.palette is Some
            ==> app.key_goes(event, facts) is Palette && app.after_key(event, facts) == app,
{
}

/// A card in front scrolls where the key scrolls it, and stays; Escape puts it away and
/// does no more; any other key but a modifier puts it away and goes on.
pub proof fn a_card_goes_as_the_key_goes_on(app: App, card: crate::card::Card, event: KeyEvent, facts: KeyFacts)
    requires
        !(event.kind is Release),
        app.prompt is None,
        app.finder.palette is None,
        app.card == Some(card),
    ensures
        match keyed(event, facts.card_height) {
            CardKey::Scroll { down, rows } => app.key_goes(event, facts) == (KeyedTask::Card {
                down,
                rows,
            }) && app.after_key(event, facts) == app,
            CardKey::Close { spent } => {
                let bare = App {
                    card: None,
                    code_actions: CodeActions { card_asked: None, ..app.code_actions },
                    ..app
                };
                &&& app.after_key(event, facts).card is None
                &&& app.after_key(event, facts).code_actions.card_asked is None
                &&& spent ==> app.key_goes(event, facts) is CardGone && app.after_key(event, facts)
                    == bare
                &&& !spent ==> app.key_goes(event, facts) == bare.key_goes(event, facts)
            },
            CardKey::Pass => app.after_key(event, facts).card == Some(card),
        },
{
}

} // verus!
