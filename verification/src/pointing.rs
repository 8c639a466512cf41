//! What the mouse does.

use vstd::prelude::*;

use crate::app::App;
use crate::card::{Press, PressModel};
use crate::commands::Command;
use crate::gutter::Aim;
use crate::hits::{hit_at, on_top, Hit};
use crate::input::{Button, Mouse, MouseKind};
use crate::keys::{task_of, Task};
use crate::outcome::Outcome;
use crate::target::{Focus, Target};

verus! {

/// Whose a turn of the wheel is.
#[derive(Debug, Clone, Copy, PartialEq, Eq, Structural)]
pub enum WheelOwner {
    /// The card's.
    Card,
    /// The palette's.
    Palette,
    /// The completion popup's.
    Completion,
    /// The preview's of an edit across files.
    EditPreview,
    /// The search panel's.
    Search,
    /// The references panel's.
    References,
    /// The file tree's.
    Sidebar,
    /// A tab strip's.
    Tabs,
    /// The diff view's.
    Diff,
    /// The text's: by lines in view, since a folded region is one line to
    /// scroll past.
    Text,
}

/// How many lines of text a turn of the wheel scrolls.
pub const WHEEL_LINES: usize = 3;

/// Whose a turn of the wheel over `target` is, the palette being open or not.
pub open spec fn wheel_owner(target: Option<Target>, palette: bool) -> WheelOwner {
    if target matches Some(over) && over.is_card() {
        WheelOwner::Card
    } else if palette {
        WheelOwner::Palette
    } else {
        match target {
            None => WheelOwner::Text,
            Some(over) => if over.is_completion() {
                WheelOwner::Completion
            } else if over is EditPreview {
                WheelOwner::EditPreview
            } else if over.is_search() {
                WheelOwner::Search
            } else if over.is_references() {
                WheelOwner::References
            } else if over.is_sidebar() {
                WheelOwner::Sidebar
            } else if over.is_tabs() {
                WheelOwner::Tabs
            } else if over is Diff {
                WheelOwner::Diff
            } else {
                WheelOwner::Text
            },
        }
    }
}

fn owner_of_wheel(target: Option<Target>, palette: bool) -> (owner: WheelOwner)
    ensures
        owner == wheel_owner(target, palette),
{
    if let Some(over) = target {
        if over.in_card() {
            return WheelOwner::Card;
        }
    }
    if palette {
        return WheelOwner::Palette;
    }
    match target {
        None => WheelOwner::Text,
        Some(over) => if over.in_completion() {
            WheelOwner::Completion
        } else if matches!(over, Target::EditPreview(_)) {
            WheelOwner::EditPreview
        } else if over.in_search() {
            WheelOwner::Search
        } else if over.in_references() {
            WheelOwner::References
        } else if over.in_sidebar() {
            WheelOwner::Sidebar
        } else if over.in_tabs() {
            WheelOwner::Tabs
        } else if matches!(over, Target::Diff(_)) {
            WheelOwner::Diff
        } else {
            WheelOwner::Text
        },
    }
}

/// What a press of the left button leaves to be done.
#[derive(Debug)]
pub enum ClickTask {
    /// Nothing but this.
    Done(Outcome),
    /// A command was run, and leaves this. It acts on the change the card it
    /// was pressed on is about, if it is about one.
    Run(Task, Option<Aim>),
    /// Answer the question, by the button's place.
    Answer(usize),
    /// Make the fix the card offers, by its place.
    Fix(usize),
    /// Follow a link.
    Follow(String),
    /// Pick a row of the palette, opening a file in a new pane or not.
    Pick {
        /// Which row.
        row: usize,
        /// Whether in a new pane.
        split: bool,
    },
    /// Put the palette away.
    ClosePalette,
    /// Completion's, over the rest of the word or not.
    Completion {
        /// What was pressed.
        target: Target,
        /// Whether over the rest of the word too.
        whole_word: bool,
    },
    /// Open the palette.
    OpenPalette,
    /// Close the active tab.
    CloseTab,
    /// Start the file's language server again.
    RestartServer,
    /// One of the places that lead to a diagnostic.
    Diagnostics(Target),
    /// Take the last edit across files back.
    UndoEdit,
    /// Put the last file operation back.
    RedoFile,
    /// Take it back.
    UndoFile,
    /// Show the file tree, or put it away.
    ToggleSidebar,
    /// Somewhere in the preview of an edit across files.
    EditPreview(usize),
    /// Part of the search panel.
    Search(Target),
    /// Part of the references panel.
    References(Target),
    /// Part of the file tree.
    Sidebar(Target),
    /// Part of a tab strip.
    Tabs(Target),
    /// A divider: a double-click evens the two sides.
    Divider(usize),
    /// A bar or a mark that stands for a change.
    Changes(Target),
    /// Somewhere in the diff view.
    Diff(usize),
    /// The text, or what is beside it. The pane it is in takes the keyboard
    /// before the caret is placed in it.
    Text(Target),
}

/// What a press leaves to be done, as a value.
pub enum ClickModel {
    /// A link to follow.
    Follow(Seq<char>),
    /// Anything else.
    Other(ClickTask),
}

impl View for ClickTask {
    type V = ClickModel;

    open spec fn view(&self) -> ClickModel {
        match *self {
            ClickTask::Follow(link) => ClickModel::Follow(link@),
            other => ClickModel::Other(other),
        }
    }
}

/// What a press came to.
#[derive(Debug)]
pub struct Clicked {
    /// What is left to do.
    pub task: ClickTask,
    /// A question to take back.
    pub cancel: Option<u64>,
}

/// What a press on `target` is, once nothing is in front of it: `undo` is
/// whether an edit across files is what the status line offers to undo, `shift`
/// what is held, and `undone` whether the last file operation was an undo.
pub open spec fn pressed_on(target: Target, shift: bool, undo: bool, undone: bool) -> ClickTask {
    if target.is_completion() {
        ClickTask::Completion { target, whole_word: shift }
    } else if target.is_diagnostics() {
        ClickTask::Diagnostics(target)
    } else if target.is_search() {
        ClickTask::Search(target)
    } else if target.is_references() {
        ClickTask::References(target)
    } else if target.is_sidebar() {
        ClickTask::Sidebar(target)
    } else if target.is_tabs() {
        ClickTask::Tabs(target)
    } else if target.is_changes() {
        ClickTask::Changes(target)
    } else {
        match target {
            Target::StatusSearch => ClickTask::OpenPalette,
            Target::StatusClose => ClickTask::CloseTab,
            Target::StatusLsp => ClickTask::RestartServer,
            Target::StatusUndo => if undo {
                ClickTask::UndoEdit
            } else if undone {
                ClickTask::RedoFile
            } else {
                ClickTask::UndoFile
            },
            Target::StatusFiles => ClickTask::ToggleSidebar,
            Target::EditPreview(spot) => ClickTask::EditPreview(spot),
            Target::Divider(index) => ClickTask::Divider(index),
            Target::Diff(spot) => ClickTask::Diff(spot),
            _ => ClickTask::Text(target),
        }
    }
}

/// Whether a press dismisses the message showing: any but one on completion or
/// on what the message offers to undo.
pub open spec fn dismisses(target: Target) -> bool {
    !target.is_completion() && !(target is StatusUndo)
}

impl App {
    /// Whether a press gets past the menu, the question and the card to the
    /// palette, or to what is under it all.
    pub open spec fn lets_through(self, target: Target) -> bool {
        &&& self.menu is None
        &&& self.prompt is None
        &&& self.card matches Some(card) ==> card.pressed(target) is Elsewhere
    }

    /// What a press of the left button on `target` is: a menu or a question on
    /// screen takes it first, then the card, then the palette.
    pub open spec fn click_goes(self, target: Target, shift: bool, alt: bool, undo: bool) -> ClickModel {
        if let Some(menu) = self.menu {
            match target {
                Target::MenuItem(index) => ClickModel::Other(
                    ClickTask::Run(task_of(menu.commands@[index as int], self.focus), None),
                ),
                _ => ClickModel::Other(ClickTask::Done(Outcome::Redraw)),
            }
        } else if self.prompt is Some {
            match target {
                Target::PromptButton(index) => ClickModel::Other(ClickTask::Answer(index)),
                // Clicking elsewhere does not answer the question; it stays up.
                _ => ClickModel::Other(ClickTask::Done(Outcome::Continue)),
            }
        } else if !self.lets_through(target) {
            match self.card->0.pressed(target) {
                PressModel::Fix(index) => ClickModel::Other(ClickTask::Fix(index)),
                PressModel::Run(Some(command), hunk) => ClickModel::Other(
                    ClickTask::Run(task_of(command, self.focus), hunk),
                ),
                PressModel::Run(None, _) => ClickModel::Other(ClickTask::Done(Outcome::Redraw)),
                PressModel::Follow(Some(link)) => ClickModel::Follow(link),
                PressModel::Follow(None) => ClickModel::Other(ClickTask::Done(Outcome::Redraw)),
                _ => ClickModel::Other(ClickTask::Done(Outcome::Continue)),
            }
        } else if self.finder.palette is Some {
            match target {
                // Alt-click, like Alt+Enter, opens the file in a split.
                Target::PaletteRow(row) => ClickModel::Other(ClickTask::Pick { row, split: alt }),
                Target::Palette => ClickModel::Other(ClickTask::Done(Outcome::Continue)),
                // A click anywhere else puts the palette away, as with any
                // overlay.
                _ => ClickModel::Other(ClickTask::ClosePalette),
            }
        } else {
            ClickModel::Other(pressed_on(target, shift, undo, self.last_undone))
        }
    }

    /// Whether a press puts the card away: any that gets to it, but one on the
    /// card itself.
    pub open spec fn click_closes_card(self, target: Target) -> bool {
        &&& self.menu is None
        &&& self.prompt is None
        &&& self.card matches Some(card) && !(card.pressed(target) is Inside)
    }

    /// The command a press runs.
    pub open spec fn click_runs(self, target: Target) -> Option<Command> {
        if let Some(menu) = self.menu {
            match target {
                Target::MenuItem(index) => Some(menu.commands@[index as int]),
                _ => None,
            }
        } else if self.prompt is Some {
            None
        } else {
            match self.card {
                Some(card) => match card.pressed(target) {
                    PressModel::Run(command, _) => command,
                    _ => None,
                },
                None => None,
            }
        }
    }

    /// Whether `after` is the editor once the left button has been pressed on
    /// `target`: a menu goes, the card goes where it is pressed beside, the
    /// message showing is dismissed by a press that gets through, and a press on
    /// the text takes the keyboard there.
    pub open spec fn clicked(self, after: App, target: Target) -> bool {
        let without = if self.click_closes_card(target) {
            self.without_card()
        } else {
            self
        };
        let start = App { menu: None, ..without };
        let through = self.lets_through(target) && self.finder.palette is None;
        if let Some(command) = self.click_runs(target) {
            start.ran(after, command)
        } else if through && dismisses(target) {
            let text = pressed_on(target, false, false, false) is Text;
            &&& after == (App {
                messages: after.messages,
                undo_offer: false,
                focus: if text {
                    Focus::Editor
                } else {
                    self.focus
                },
                ..start
            })
            &&& after.messages@ == self.messages@.acknowledged()
        } else {
            after == start
        }
    }

    /// The left button went down on `target`, with Shift and Alt held or not.
    /// `undo` is whether the last edit across files is what the status line
    /// offers to undo.
    pub fn click(&mut self, target: Target, shift: bool, alt: bool, undo: bool) -> (clicked: Clicked)
        requires
            old(self).wf(),
            target matches Target::MenuItem(index) ==> (old(self).menu matches Some(menu) ==> index
                < menu.commands@.len()),
            target matches Target::PromptButton(index) ==> (old(self).prompt matches Some(prompt)
                ==> index < prompt.answers),
        ensures
            final(self).wf(),
            clicked.task@ == old(self).click_goes(target, shift, alt, undo),
            clicked.cancel == if old(self).click_closes_card(target) {
                old(self).code_actions.card_question()
            } else {
                None
            },
            old(self).clicked(*final(self), target),
    {
        if let Some(menu) = self.menu.take() {
            if let Target::MenuItem(index) = target {
                let task = self.run(menu.commands[index]);
                return Clicked { task: ClickTask::Run(task, None), cancel: None };
            }
            return Clicked { task: ClickTask::Done(Outcome::Redraw), cancel: None };
        }
        if self.prompt.is_some() {
            if let Target::PromptButton(index) = target {
                return Clicked { task: ClickTask::Answer(index), cancel: None };
            }
            return Clicked { task: ClickTask::Done(Outcome::Continue), cancel: None };
        }
        let mut cancel: Option<u64> = None;
        if let Some(card) = &self.card {
            match card.card_click(target) {
                Press::Inside => {
                    return Clicked { task: ClickTask::Done(Outcome::Continue), cancel: None };
                },
                Press::Fix(index) => {
                    let closed = self.close_card();
                    return Clicked { task: ClickTask::Fix(index), cancel: closed.1 };
                },
                Press::Run(command, hunk) => {
                    let closed = self.close_card();
                    return match command {
                        Some(command) => {
                            let task = self.run(command);
                            Clicked { task: ClickTask::Run(task, hunk), cancel: closed.1 }
                        },
                        None => Clicked {
                            task: ClickTask::Done(Outcome::Redraw),
                            cancel: closed.1,
                        },
                    };
                },
                Press::Follow(link) => {
                    let closed = self.close_card();
                    return match link {
                        Some(link) => Clicked { task: ClickTask::Follow(link), cancel: closed.1 },
                        None => Clicked {
                            task: ClickTask::Done(Outcome::Redraw),
                            cancel: closed.1,
                        },
                    };
                },
                Press::Elsewhere => {
                    let closed = self.close_card();
                    cancel = closed.1;
                },
            }
        }
        if self.finder.palette.is_some() {
            let task = match target {
                Target::PaletteRow(row) => ClickTask::Pick { row, split: alt },
                Target::Palette => ClickTask::Done(Outcome::Continue),
                _ => ClickTask::ClosePalette,
            };
            return Clicked { task, cancel };
        }
        let undone = self.last_undone;
        let task = self.press(target, shift, undo, undone);
        Clicked { task, cancel }
    }

    /// A press with nothing in front of it.
    fn press(&mut self, target: Target, shift: bool, undo: bool, undone: bool) -> (task: ClickTask)
        ensures
            task == pressed_on(target, shift, undo, undone),
            !dismisses(target) ==> *final(self) == *old(self),
            dismisses(target) ==> {
                &&& *final(self) == (App {
                    messages: final(self).messages,
                    undo_offer: false,
                    focus: if pressed_on(target, false, false, false) is Text {
                        Focus::Editor
                    } else {
                        old(self).focus
                    },
                    ..*old(self)
                })
                &&& final(self).messages@ == old(self).messages@.acknowledged()
            },
    {
        if target.in_completion() {
            return ClickTask::Completion { target, whole_word: shift };
        }
        if matches!(target, Target::StatusUndo) {
            return if undo {
                ClickTask::UndoEdit
            } else if undone {
                ClickTask::RedoFile
            } else {
                ClickTask::UndoFile
            };
        }
        self.acknowledge();
        if target.in_diagnostics() {
            return ClickTask::Diagnostics(target);
        }
        if target.in_search() {
            return ClickTask::Search(target);
        }
        if target.in_references() {
            return ClickTask::References(target);
        }
        if target.in_sidebar() {
            return ClickTask::Sidebar(target);
        }
        if target.in_tabs() {
            return ClickTask::Tabs(target);
        }
        if target.in_changes() {
            return ClickTask::Changes(target);
        }
        match target {
            Target::StatusSearch => ClickTask::OpenPalette,
            Target::StatusClose => ClickTask::CloseTab,
            Target::StatusLsp => ClickTask::RestartServer,
            Target::StatusFiles => ClickTask::ToggleSidebar,
            Target::EditPreview(spot) => ClickTask::EditPreview(spot),
            Target::Divider(index) => ClickTask::Divider(index),
            Target::Diff(spot) => ClickTask::Diff(spot),
            _ => {
                self.focus = Focus::Editor;
                ClickTask::Text(target)
            },
        }
    }
}

/// What a mouse report leaves to be done.
#[derive(Debug)]
pub enum MouseTask {
    /// The wheel turned.
    Wheel {
        /// Over what.
        owner: WheelOwner,
        /// Whether down.
        down: bool,
    },
    /// The middle button went down here, which closes a tab.
    Middle(Target),
    /// The left button went down where there is nothing. A half-typed chord is
    /// abandoned.
    Nowhere,
    /// The left button went down on something. A half-typed chord is abandoned,
    /// so the next key is typed rather than taken as its second half.
    Click(Clicked),
    /// Open the file tree's menu here.
    SidebarMenu(Target),
    /// Open the text's menu. A half-typed chord is abandoned.
    TextMenu,
    /// The pointer moved with the left button down.
    Drag,
    /// The left button came up.
    Release,
    /// Nothing but what hovering came to.
    Hovered,
}

/// What is pressed at a cell: an underline is the text beneath it.
pub open spec fn over(hits: Seq<Hit>, column: u16, row: u16) -> Option<Target> {
    match on_top(hits, column as int, row as int) {
        Some(hit) => Some(hit.target.beneath()),
        None => None,
    }
}

/// What reacts to the pointer at a cell.
pub open spec fn hovers(hits: Seq<Hit>, column: u16, row: u16) -> Option<Target> {
    match on_top(hits, column as int, row as int) {
        Some(hit) => if hit.hover {
            Some(hit.target)
        } else {
            None
        },
        None => None,
    }
}

proof fn a_hit_is_one_of_them(hits: Seq<Hit>, column: int, row: int)
    ensures
        on_top(hits, column, row) matches Some(hit) ==> hits.contains(hit),
    decreases hits.len(),
{
    if hits.len() > 0 {
        assert(hits[hits.len() - 1] == hits.last());
        if !hits.last().area.spec_contains(column, row) {
            a_hit_is_one_of_them(hits.drop_last(), column, row);
            if let Some(hit) = on_top(hits.drop_last(), column, row) {
                let k = choose|k: int|
                    0 <= k < hits.drop_last().len() && hits.drop_last()[k] == hit;
                assert(hits[k] == hit);
            }
        }
    }
}

impl App {
    /// What the pointer is on, as of the last layout, where that reacts to it.
    pub fn hovered(&self, column: u16, row: u16) -> (target: Option<Target>)
        ensures
            target == hovers(self.hits@, column, row),
    {
        match hit_at(&self.hits, column, row) {
            Some(hit) => if hit.hover {
                Some(hit.target)
            } else {
                None
            },
            None => None,
        }
    }

    /// Whether what a mouse report leaves to be done is `task`, and the editor
    /// `after`.
    pub open spec fn moused(self, after: App, mouse: Mouse, undo: bool, task: MouseTask) -> bool {
        let target = over(self.hits@, mouse.column, mouse.row);
        let shift = mouse.modifiers.shift;
        let alt = mouse.modifiers.alt;
        match mouse.kind {
            MouseKind::ScrollUp => after == self && task == (MouseTask::Wheel {
                owner: wheel_owner(target, self.finder.palette is Some),
                down: false,
            }),
            MouseKind::ScrollDown => after == self && task == (MouseTask::Wheel {
                owner: wheel_owner(target, self.finder.palette is Some),
                down: true,
            }),
            // A question or a menu on screen takes every button, not only the
            // left one: closing a tab behind a prompt would answer it about the
            // wrong tab.
            MouseKind::Down(Button::Middle) => after == self && task == if self.prompt is None
                && self.menu is None && target is Some {
                MouseTask::Middle(target->0)
            } else {
                MouseTask::Hovered
            },
            MouseKind::Down(Button::Left) => {
                let start = App { quit_confirmed: false, ..self };
                match target {
                    None => after == start && task == MouseTask::Nowhere,
                    Some(target) => {
                        &&& start.clicked(after, target)
                        &&& task matches MouseTask::Click(clicked) && {
                            &&& clicked.task@ == start.click_goes(target, shift, alt, undo)
                            &&& clicked.cancel == if start.click_closes_card(target) {
                                start.code_actions.card_question()
                            } else {
                                None
                            }
                        }
                    },
                }
            },
            MouseKind::Down(Button::Right) => after == (App { menu: None, ..self }) && task
                == match target {
                Some(target) => if target.is_sidebar() {
                    MouseTask::SidebarMenu(target)
                } else if target is Text && self.prompt is None && self.finder.palette is None {
                    MouseTask::TextMenu
                } else {
                    MouseTask::Hovered
                },
                None => MouseTask::Hovered,
            },
            MouseKind::Drag(Button::Left) => after == self && task == MouseTask::Drag,
            MouseKind::Up(Button::Left) => after == self && task == MouseTask::Release,
            _ => after == self && task == MouseTask::Hovered,
        }
    }

    /// A mouse report: what it leaves to be done. `undo` is whether the last
    /// edit across files is what the status line offers to undo.
    pub fn handle_mouse(&mut self, mouse: &Mouse, undo: bool) -> (task: MouseTask)
        requires
            old(self).wf(),
        ensures
            final(self).wf(),
            old(self).moused(*final(self), *mouse, undo, task),
    {
        let target: Option<Target> = match hit_at(&self.hits, mouse.column, mouse.row) {
            Some(hit) => Some(hit.target.pressed()),
            None => None,
        };
        proof {
            a_hit_is_one_of_them(self.hits@, mouse.column as int, mouse.row as int);
        }
        match mouse.kind {
            MouseKind::ScrollUp => MouseTask::Wheel {
                owner: owner_of_wheel(target, self.finder.palette.is_some()),
                down: false,
            },
            MouseKind::ScrollDown => MouseTask::Wheel {
                owner: owner_of_wheel(target, self.finder.palette.is_some()),
                down: true,
            },
            MouseKind::Down(Button::Middle) => {
                if self.prompt.is_none() && self.menu.is_none() {
                    if let Some(target) = target {
                        return MouseTask::Middle(target);
                    }
                }
                MouseTask::Hovered
            },
            MouseKind::Down(Button::Left) => {
                self.quit_confirmed = false;
                match target {
                    None => MouseTask::Nowhere,
                    Some(target) => MouseTask::Click(
                        self.click(target, mouse.modifiers.shift, mouse.modifiers.alt, undo),
                    ),
                }
            },
            MouseKind::Down(Button::Right) => {
                self.menu = None;
                match target {
                    Some(target) => if target.in_sidebar() {
                        MouseTask::SidebarMenu(target)
                    } else if matches!(target, Target::Text) && self.prompt.is_none()
                        && self.finder.palette.is_none() {
                        MouseTask::TextMenu
                    } else {
                        MouseTask::Hovered
                    },
                    None => MouseTask::Hovered,
                }
            },
            MouseKind::Drag(Button::Left) => MouseTask::Drag,
            MouseKind::Up(Button::Left) => MouseTask::Release,
            _ => MouseTask::Hovered,
        }
    }
}

/// What a mouse report comes to, `outcome` being what was done and `hovered`
/// what the pointer crossing something came to: a drag may do both.
pub fn mouse_outcome(task: &MouseTask, outcome: Outcome, hovered: Outcome) -> (both: Outcome)
    ensures
        both == match *task {
            MouseTask::Hovered => hovered,
            MouseTask::Drag => outcome.stronger(hovered),
            MouseTask::Release => outcome.stronger(hovered),
            MouseTask::Nowhere => Outcome::Redraw,
            _ => outcome,
        },
{
    match task {
        MouseTask::Hovered => hovered,
        MouseTask::Drag => outcome.and(hovered),
        MouseTask::Release => outcome.and(hovered),
        MouseTask::Nowhere => Outcome::Redraw,
        _ => outcome,
    }
}

/// A question on screen is answered by its buttons alone: a press anywhere else
/// leaves it, and everything behind it, as it was.
pub proof fn a_question_stays_until_it_is_answered(
    app: App,
    after: App,
    target: Target,
    shift: bool,
    alt: bool,
    undo: bool,
)
    requires
        app.prompt is Some,
        app.menu is None,
        app.clicked(after, target),
    ensures
        after == app,
        !(target is PromptButton) ==> app.click_goes(target, shift, alt, undo)
            == ClickModel::Other(ClickTask::Done(Outcome::Continue)),
{
}

/// A press beside an open menu closes it and does nothing else.
pub proof fn a_press_beside_a_menu_closes_it(
    app: App,
    after: App,
    target: Target,
    shift: bool,
    alt: bool,
    undo: bool,
)
    requires
        app.menu is Some,
        !(target is MenuItem),
        app.clicked(after, target),
    ensures
        after == (App { menu: None, ..app }),
        app.click_goes(target, shift, alt, undo) == ClickModel::Other(
            ClickTask::Done(Outcome::Redraw),
        ),
{
}

/// The wheel never moves the caret, nor anything but what it scrolls.
pub proof fn scrolling_is_not_navigation(
    app: App,
    after: App,
    mouse: Mouse,
    undo: bool,
    task: MouseTask,
)
    requires
        mouse.kind is ScrollUp || mouse.kind is ScrollDown,
        app.moused(after, mouse, undo, task),
    ensures
        after == app,
        task is Wheel,
{
}

/// The wheel turns what the pointer is over: the card first, then the palette while it
/// is open, then the panel, strip or view there, and the text everywhere else.
pub proof fn the_wheel_turns_what_the_pointer_is_over(target: Target)
    ensures
        ({
            let card = target is Card || target is CardButton || target is CardLink;
            match wheel_owner(Some(target), false) {
                WheelOwner::Card => card,
                WheelOwner::Palette => false,
                WheelOwner::Completion => target is Completion || target is CompletionRow,
                WheelOwner::EditPreview => target is EditPreview,
                WheelOwner::Search => target is SearchHeader || target is SearchBack
                    || target is SearchQuery || target is SearchReplace || target is SearchApply
                    || target is SearchMarker || target is SearchButton || target is SearchRow
                    || target is SearchEmpty,
                WheelOwner::References => target is ReferencesBack || target is ReferencesRow
                    || target is ReferencesEmpty,
                WheelOwner::Sidebar => target is TreeHeader || target is TreeButton
                    || target is TreeRow || target is TreeEmpty || target is SidebarEdge,
                WheelOwner::Tabs => target is Tab || target is TabClose || target is TabStrip,
                WheelOwner::Diff => target is Diff,
                WheelOwner::Text => !(card || target is Completion || target is CompletionRow
                    || target is EditPreview || target is SearchRow || target is SearchEmpty
                    || target is ReferencesRow || target is ReferencesEmpty || target is TreeRow
                    || target is TreeEmpty || target is Tab || target is TabStrip
                    || target is Diff || target is SearchHeader || target is SearchBack
                    || target is SearchQuery || target is SearchReplace || target is SearchApply
                    || target is SearchMarker || target is SearchButton || target is ReferencesBack
                    || target is TreeHeader || target is TreeButton || target is SidebarEdge
                    || target is TabClose),
            }
        }),
        wheel_owner(Some(target), true) is Card <==> target is Card || target is CardButton
            || target is CardLink,
        !(target is Card || target is CardButton || target is CardLink) ==> wheel_owner(
            Some(target),
            true,
        ) is Palette,
        wheel_owner(None, false) is Text,
        wheel_owner(None, true) is Palette,
{
}

/// With nothing in front, a press does what is pressed: each part of the screen takes
/// its own, and the text what is left.
pub proof fn a_press_does_what_is_pressed(target: Target, shift: bool, undo: bool, undone: bool)
    ensures
        match pressed_on(target, shift, undo, undone) {
            ClickTask::Completion { target: on, whole_word } => {
                &&& on == target
                &&& whole_word == shift
                &&& target is Completion || target is CompletionRow
            },
            ClickTask::Diagnostics(on) => on == target && (target is Rail || target is RailMark
                || target is StatusProblems),
            ClickTask::Search(on) => on == target && (target is SearchHeader || target is SearchBack
                || target is SearchQuery || target is SearchReplace || target is SearchApply
                || target is SearchMarker || target is SearchButton || target is SearchRow
                || target is SearchEmpty),
            ClickTask::References(on) => on == target && (target is ReferencesBack
                || target is ReferencesRow || target is ReferencesEmpty),
            ClickTask::Sidebar(on) => on == target && (target is TreeHeader || target is TreeButton
                || target is TreeRow || target is TreeEmpty || target is SidebarEdge),
            ClickTask::Tabs(on) => on == target && (target is Tab || target is TabClose
                || target is TabStrip),
            ClickTask::Changes(on) => on == target && (target is Change || target is ChangeRail
                || target is ChangeRailMark),
            ClickTask::OpenPalette => target is StatusSearch,
            ClickTask::CloseTab => target is StatusClose,
            ClickTask::RestartServer => target is StatusLsp,
            ClickTask::UndoEdit => target is StatusUndo && undo,
            ClickTask::RedoFile => target is StatusUndo && !undo && undone,
            ClickTask::UndoFile => target is StatusUndo && !undo && !undone,
            ClickTask::ToggleSidebar => target is StatusFiles,
            ClickTask::EditPreview(spot) => target == Target::EditPreview(spot),
            ClickTask::Divider(index) => target == Target::Divider(index),
            ClickTask::Diff(spot) => target == Target::Diff(spot),
            ClickTask::Text(on) => {
                &&& on == target
                &&& !(target is StatusSearch || target is StatusClose || target is StatusLsp
                    || target is StatusUndo || target is StatusFiles || target is EditPreview
                    || target is Divider || target is Diff || target is Completion
                    || target is CompletionRow || target is Rail || target is RailMark
                    || target is StatusProblems || target is Change || target is ChangeRail
                    || target is ChangeRailMark || target is Tab || target is TabClose
                    || target is TabStrip || target is TreeRow || target is SearchRow
                    || target is ReferencesRow)
            },
            _ => false,
        },
{
}

/// What is under the pointer is what was laid there last, an underline standing for
/// the text under it; what lights up is that, where it lights at all.
pub proof fn the_pointer_is_over_what_was_laid_last(hits: Seq<Hit>, column: u16, row: u16)
    ensures
        on_top(hits, column as int, row as int) matches Some(hit) ==> {
            &&& hit.target is Diagnostic ==> over(hits, column, row) == Some(Target::Text)
            &&& !(hit.target is Diagnostic) ==> over(hits, column, row) == Some(hit.target)
            &&& hit.hover ==> hovers(hits, column, row) == Some(hit.target)
            &&& !hit.hover ==> hovers(hits, column, row) is None
        },
        on_top(hits, column as int, row as int) is None ==> over(hits, column, row) is None
            && hovers(hits, column, row) is None,
{
}

/// A press puts what is being said away, unless it is on completion or on the Undo
/// that is offered.
pub proof fn a_press_dismisses_what_is_said(target: Target)
    ensures
        !dismisses(target) <==> target is Completion || target is CompletionRow
            || target is StatusUndo,
{
}

/// With the palette in front, a press on a row picks it, in a new pane with Alt; one
/// elsewhere on it does nothing; and one anywhere else puts it away.
pub proof fn a_press_beside_the_palette_closes_it(
    app: App,
    target: Target,
    row: usize,
    shift: bool,
    alt: bool,
    undo: bool,
)
    requires
        app.menu is None,
        app.prompt is None,
        app.card is None,
        app.finder.palette is Some,
    ensures
        app.click_goes(Target::PaletteRow(row), shift, alt, undo) == ClickModel::Other(
            ClickTask::Pick { row, split: alt },
        ),
        app.click_goes(Target::Palette, shift, alt, undo) == ClickModel::Other(
            ClickTask::Done(Outcome::Continue),
        ),
        !(target is PaletteRow) && !(target is Palette) ==> app.click_goes(target, shift, alt, undo)
            == ClickModel::Other(ClickTask::ClosePalette),
{
}

/// A press on a card does what is pressed there and puts the card away, unless it is on
/// the card itself; a press anywhere else puts it away and goes on to what is under it.
pub proof fn a_press_on_a_card_does_what_is_there(
    app: App,
    card: crate::card::Card,
    target: Target,
    shift: bool,
    alt: bool,
    undo: bool,
)
    requires
        app.menu is None,
        app.prompt is None,
        app.card == Some(card),
    ensures
        match card.pressed(target) {
            PressModel::Inside => app.click_goes(target, shift, alt, undo) == ClickModel::Other(
                ClickTask::Done(Outcome::Continue),
            ) && !app.click_closes_card(target),
            PressModel::Fix(index) => app.click_goes(target, shift, alt, undo) == ClickModel::Other(
                ClickTask::Fix(index),
            ) && app.click_closes_card(target),
            PressModel::Run(Some(command), hunk) => app.click_goes(target, shift, alt, undo)
                == ClickModel::Other(ClickTask::Run(task_of(command, app.focus), hunk))
                && app.click_closes_card(target) && app.click_runs(target) == Some(command),
            PressModel::Follow(Some(link)) => app.click_goes(target, shift, alt, undo)
                == ClickModel::Follow(link) && app.click_closes_card(target),
            PressModel::Elsewhere => app.lets_through(target) && app.click_closes_card(target)
                && app.click_runs(target) is None,
            _ => app.click_goes(target, shift, alt, undo) == ClickModel::Other(
                ClickTask::Done(Outcome::Redraw),
            ) && app.click_closes_card(target),
        },
{
}

/// With nothing in front a press goes to what is pressed, and closes no card and runs no
/// command of its own.
pub proof fn a_press_with_nothing_in_front_goes_through(
    app: App,
    target: Target,
    shift: bool,
    alt: bool,
    undo: bool,
)
    requires
        app.menu is None,
        app.prompt is None,
        app.card is None,
        app.finder.palette is None,
    ensures
        app.lets_through(target),
        app.click_goes(target, shift, alt, undo) == ClickModel::Other(
            pressed_on(target, shift, undo, app.last_undone),
        ),
        !app.click_closes_card(target),
        app.click_runs(target) is None,
{
}

} // verus!
