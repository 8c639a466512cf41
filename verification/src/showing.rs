//! Going to what is wrong and what has changed, and saying what it is in a
//! card.

use vstd::prelude::*;

use crate::app::{index_of, report, App, Document, Written};
use crate::body::paragraphs;
use crate::card::{Anchor, Card};
use crate::code_actions::CodeActions;
use crate::commands::{button_views, Command};
use crate::completion::{Completion, Trigger};
use crate::format::{formatted, saved, Pending};
use crate::gutter::{caret_for, hunk_body, hunk_paragraphs, Aim};
use crate::jumps::{recorded, spots, Spot};
use crate::navigation::Navigation;
use crate::outcome::Outcome;
use crate::problems::{body_of, card_body, is_listing, step_diagnostic, stepped_to};
use crate::rope::{breaks, line_start, rope_text};
use crate::target::{Focus, Target};
use ropey::Rope;

verus! {

/// The buttons that go on to the next and previous of `count` problems, when
/// there is anywhere else to go.
pub open spec fn steps(count: nat) -> Seq<(Seq<char>, Command)> {
    if count < 2 {
        Seq::empty()
    } else {
        seq![
            ("‹ Previous"@, Command::PreviousDiagnostic),
            ("Next ›"@, Command::NextDiagnostic),
        ]
    }
}

/// The buttons that go on to the next and previous of `count` problems, when
/// there is anywhere else to go.
pub fn stepping_buttons(count: usize) -> (buttons: Vec<(String, Command)>)
    ensures
        button_views(buttons@) == steps(count as nat),
{
    let mut buttons: Vec<(String, Command)> = Vec::new();
    if count >= 2 {
        buttons.push(("‹ Previous".to_owned(), Command::PreviousDiagnostic));
        buttons.push(("Next ›".to_owned(), Command::NextDiagnostic));
    }
    assert(button_views(buttons@) =~= steps(count as nat));
    buttons
}

/// What resting the pointer on something does.
#[derive(Debug, Clone, Copy, PartialEq, Eq, Structural)]
pub enum Dwell {
    /// Nothing: the symbol's card already says what is wrong with it.
    Nothing,
    /// Say what is wrong there: which pane, and which mark.
    Mark(usize, usize),
    /// Say what is on a row of a pane's rail.
    RailRow(usize, u16),
    /// Say what a change is: which pane, and which change.
    Change(usize, usize),
    /// Say what is on a row of a pane's rail of changes.
    ChangeRow(usize, u16),
    /// Light it up.
    Light,
}

/// Where a press on one of the places that lead to a diagnostic goes.
#[derive(Debug, Clone, Copy, PartialEq, Eq, Structural)]
pub enum ProblemPress {
    /// To the marks on a row of a pane's rail.
    RailRow(usize, u16),
    /// To the lines a pane's rail stands for at this screen row.
    Scroll(usize, u16),
    /// To the next one after the caret.
    Next,
    /// Nowhere.
    Nowhere,
}

/// Where a press on a bar or a mark that stands for a change goes.
#[derive(Debug, Clone, Copy, PartialEq, Eq, Structural)]
pub enum ChangePress {
    /// To a change, in a pane that takes the keyboard.
    Bar(usize, usize),
    /// To the changes on a row of a pane's rail.
    RailRow(usize, u16),
    /// To the lines a pane's rail stands for at this screen row.
    Scroll(usize, u16),
    /// Nowhere.
    Nowhere,
}

/// Where a press on `target` goes, at screen row `y`.
pub fn diagnostics_press(target: Target, y: u16) -> (press: ProblemPress)
    ensures
        press == match target {
            Target::RailMark(pane, row) => ProblemPress::RailRow(pane, row),
            Target::Rail(pane) => ProblemPress::Scroll(pane, y),
            Target::StatusProblems => ProblemPress::Next,
            _ => ProblemPress::Nowhere,
        },
        target.is_diagnostics() == !(press is Nowhere),
{
    match target {
        Target::RailMark(pane, row) => ProblemPress::RailRow(pane, row),
        Target::Rail(pane) => ProblemPress::Scroll(pane, y),
        Target::StatusProblems => ProblemPress::Next,
        _ => ProblemPress::Nowhere,
    }
}

/// Where a press on `target` goes, at screen row `y`.
pub fn changes_press(target: Target, y: u16) -> (press: ChangePress)
    ensures
        press == match target {
            Target::Change(pane, index) => ChangePress::Bar(pane, index),
            Target::ChangeRailMark(pane, row) => ChangePress::RailRow(pane, row),
            Target::ChangeRail(pane) => ChangePress::Scroll(pane, y),
            _ => ChangePress::Nowhere,
        },
        target.is_changes() == !(press is Nowhere),
{
    match target {
        Target::Change(pane, index) => ChangePress::Bar(pane, index),
        Target::ChangeRailMark(pane, row) => ChangePress::RailRow(pane, row),
        Target::ChangeRail(pane) => ChangePress::Scroll(pane, y),
        _ => ChangePress::Nowhere,
    }
}

/// A problem that was gone to.
#[derive(Debug, Clone, Copy, PartialEq, Eq, Structural)]
pub struct Gone {
    /// Where the caret goes.
    pub caret: usize,
    /// The question to take back.
    pub cancel: Option<u64>,
}

impl App {
    /// The editor with `card` on screen, in place of any other.
    pub open spec fn with_card(self, card: Card) -> App {
        App {
            card: Some(card),
            code_actions: CodeActions { card_asked: None, ..self.code_actions },
            ..self
        }
    }

    /// Show `card`, in place of any other. The question to take back.
    pub fn show_card(&mut self, card: Card) -> (cancel: Option<u64>)
        requires
            card.wf(),
        ensures
            cancel == old(self).code_actions.card_question(),
            *final(self) == old(self).with_card(card),
            old(self).wf() ==> final(self).wf(),
    {
        let cancel = self.code_actions.forget_card_fixes();
        self.card = Some(card);
        cancel
    }

    /// Whether `card` says what is wrong at mark `index` of `doc`, in `pane`,
    /// and was opened by `opener`.
    pub open spec fn says_problem(
        self,
        card: Card,
        pane: usize,
        doc: usize,
        index: usize,
        opener: Option<Target>,
    ) -> bool {
        &&& self.diagnostics.of(doc) matches Some(watched)
        &&& index < watched.marks@.len()
        &&& card.anchor == (Anchor::Text {
            pane,
            doc,
            from: watched.marks@[index as int].start,
            to: watched.marks@[index as int].end,
        })
        &&& exists|shown: Seq<usize>| #[trigger]
            is_listing(watched.marks@, index as int, shown) && paragraphs(card.body@) == body_of(
                watched.marks@,
                watched.notes@,
                shown,
            )
        &&& button_views(card.buttons@) == steps(watched.marks@.len())
        &&& card.fixes == 0
        &&& card.scroll == 0
        &&& card.opener == opener
        &&& !card.held
        &&& card.links@.len() == 0
        &&& card.hunk is None
        &&& card.wf()
    }

    /// The problem `index` of `doc`, if there is one.
    pub open spec fn has_problem(self, doc: usize, index: usize) -> bool {
        self.diagnostics.of(doc) matches Some(watched) && index < watched.marks@.len()
    }

    /// A card about problem `index` of `doc`.
    fn problem_card(&self, pane: usize, doc: usize, index: usize, opener: Option<Target>) -> (card:
        Option<(Card, usize)>)
        requires
            self.wf(),
        ensures
            match card {
                Some(card) => self.has_problem(doc, index) && self.says_problem(
                    card.0,
                    pane,
                    doc,
                    index,
                    opener,
                ) && card.1 == self.diagnostics.of(doc)->0.marks@[index as int].start,
                None => !self.has_problem(doc, index),
            },
    {
        let Some(watched) = self.diagnostics.watched(doc) else {
            return None;
        };
        if index >= watched.marks.len() {
            return None;
        }
        let mark = watched.marks[index];
        let anchor = Anchor::Text { pane, doc, from: mark.start, to: mark.end };
        let body = card_body(&watched.marks, &watched.notes, index);
        let buttons = stepping_buttons(watched.marks.len());
        Some((Card::new(anchor, body, buttons, opener), mark.start))
    }

    /// Put the caret at the start of the focused document's problem `index`, and
    /// say what it is in a card beside it, in `pane`. Where the caret goes in a
    /// text of `len` characters, and the question to take back.
    pub fn go_to_mark(&mut self, pane: usize, index: usize, len: usize) -> (gone: Option<Gone>)
        requires
            old(self).wf(),
        ensures
            final(self).wf(),
            if old(self).has_problem(old(self).current, index) {
                let start = old(self).diagnostics.of(old(self).current)->0.marks@[index as int].start;
                &&& gone == Some(
                    Gone {
                        caret: if start < len {
                            start
                        } else {
                            len
                        },
                        cancel: old(self).code_actions.card_question(),
                    },
                )
                &&& final(self).card matches Some(card) && {
                    &&& old(self).says_problem(card, pane, old(self).current, index, None)
                    &&& *final(self) == (App { focus: Focus::Editor, ..*old(self) }).with_card(card)
                }
            } else {
                gone is None && *final(self) == *old(self)
            },
    {
        match self.problem_card(pane, self.current, index, None) {
            Some((card, start)) => {
                self.focus = Focus::Editor;
                let caret: usize = if start < len {
                    start
                } else {
                    len
                };
                let cancel = self.show_card(card);
                Some(Gone { caret, cancel })
            },
            None => None,
        }
    }

    /// Go to the next problem after the caret, or the one before it, coming
    /// round at the ends: where the caret goes, in a text of `len` characters.
    /// Where there is none, that is said.
    pub fn step_problem(&mut self, pane: usize, caret: usize, len: usize, forward: bool) -> (gone:
        Option<Gone>)
        requires
            old(self).wf(),
        ensures
            final(self).wf(),
            match old(self).diagnostics.of(old(self).current) {
                Some(watched) if watched.marks@.len() > 0 => {
                    let index = stepped_to(watched.marks@, caret, forward) as usize;
                    &&& gone matches Some(gone) && gone.caret == if watched.marks@[index as int].start
                        < len {
                        watched.marks@[index as int].start
                    } else {
                        len
                    }
                    &&& final(self).card matches Some(card) && {
                        &&& old(self).says_problem(card, pane, old(self).current, index, None)
                        &&& *final(self) == (App { focus: Focus::Editor, ..*old(self) }).with_card(
                            card,
                        )
                    }
                },
                _ => {
                    &&& gone is None
                    &&& *final(self) == (App { messages: final(self).messages, ..*old(self) })
                    &&& final(self).messages@ == old(self).messages@.saying(
                        "No problems in this file."@,
                    )
                },
            },
    {
        let index: Option<usize> = match self.diagnostics.watched(self.current) {
            Some(watched) => step_diagnostic(&watched.marks, caret, forward),
            None => None,
        };
        match index {
            Some(index) => self.go_to_mark(pane, index, len),
            None => {
                self.messages.say(crate::problems::nothing_to_step_to());
                None
            },
        }
    }

    /// The card for problem `index` of `doc`, which the pointer is on in `pane`,
    /// and any others on the same text. The question to take back, where there
    /// is such a problem.
    pub fn mark_card(&mut self, pane: usize, doc: usize, index: usize) -> (shown: Option<Option<u64>>)
        requires
            old(self).wf(),
        ensures
            final(self).wf(),
            if old(self).has_problem(doc, index) {
                &&& shown == Some(old(self).code_actions.card_question())
                &&& final(self).card matches Some(card) && {
                    &&& old(self).says_problem(
                        card,
                        pane,
                        doc,
                        index,
                        Some(Target::Diagnostic(pane, index)),
                    )
                    &&& *final(self) == old(self).with_card(card)
                }
            } else {
                shown is None && *final(self) == *old(self)
            },
    {
        match self.problem_card(pane, doc, index, Some(Target::Diagnostic(pane, index))) {
            Some((card, _)) => Some(self.show_card(card)),
            None => None,
        }
    }

    /// What resting the pointer on `target` does.
    pub open spec fn dwells(self, target: Target) -> Dwell {
        match target {
            Target::Diagnostic(pane, index) => if self.card matches Some(card) && card.held {
                Dwell::Nothing
            } else {
                Dwell::Mark(pane, index)
            },
            Target::RailMark(pane, row) => Dwell::RailRow(pane, row),
            Target::Change(pane, index) => Dwell::Change(pane, index),
            Target::ChangeRailMark(pane, row) => Dwell::ChangeRow(pane, row),
            _ => Dwell::Light,
        }
    }

    /// The pointer rested on `target`: what that does.
    pub fn dwelt(&self, target: Target) -> (dwell: Dwell)
        ensures
            dwell == self.dwells(target),
    {
        match target {
            Target::Diagnostic(pane, index) => {
                if let Some(card) = &self.card {
                    if card.held {
                        return Dwell::Nothing;
                    }
                }
                Dwell::Mark(pane, index)
            },
            Target::RailMark(pane, row) => Dwell::RailRow(pane, row),
            Target::Change(pane, index) => Dwell::Change(pane, index),
            Target::ChangeRailMark(pane, row) => Dwell::ChangeRow(pane, row),
            _ => Dwell::Light,
        }
    }

    // ── changes ─────────────────────────────────────────────────────────────

    /// Whether `card` is about the change `aim` in a text of `lines` lines, with
    /// `buttons` along its bottom: `old_text` is the text it replaced.
    pub open spec fn says_change(
        card: Card,
        anchor: Anchor,
        aim: Aim,
        lines: u32,
        old_text: Seq<char>,
        buttons: Seq<(Seq<char>, Command)>,
        opener: Option<Target>,
    ) -> bool {
        &&& card.anchor == anchor
        &&& paragraphs(card.body@) == hunk_paragraphs(aim.hunk, lines, old_text)
        &&& button_views(card.buttons@) == buttons
        &&& card.fixes == 0
        &&& card.scroll == 0
        &&& card.opener == opener
        &&& !card.held
        &&& card.links@.len() == 0
        &&& !card.hyperlinks
        &&& card.hunk == Some(aim)
        &&& card.wf()
    }

    /// Show the card about the change `aim`, beside `anchor` or, with none,
    /// beside its first line in `pane`. `rope` is the text, `lines` how many
    /// lines git counts in it, `old_text` the text the change replaced, and
    /// `buttons` what it offers. The question to take back.
    pub fn show_hunk_card(
        &mut self,
        pane: usize,
        aim: Aim,
        buttons: Vec<(String, Command)>,
        rope: &Rope,
        lines: u32,
        old_text: &str,
        anchor: Option<Anchor>,
        opener: Option<Target>,
    ) -> (cancel: Option<u64>)
        requires
            old(self).wf(),
        ensures
            final(self).wf(),
            cancel == old(self).code_actions.card_question(),
            final(self).card matches Some(card) && {
                let text = rope_text(*rope);
                let line = aim.hunk.marked(lines).0;
                let at = line_start(
                    text,
                    if line <= breaks(text) {
                        line
                    } else {
                        breaks(text) as int
                    },
                ) as usize;
                let beside = match anchor {
                    Some(anchor) => anchor,
                    None => Anchor::Text { pane, doc: aim.doc, from: at, to: at },
                };
                &&& Self::says_change(
                    card,
                    beside,
                    aim,
                    lines,
                    old_text@,
                    button_views(buttons@),
                    opener,
                )
                &&& *final(self) == old(self).with_card(card)
            },
    {
        let at = caret_for(rope, &aim.hunk, lines);
        let beside = match anchor {
            Some(anchor) => anchor,
            None => Anchor::Text { pane, doc: aim.doc, from: at, to: at },
        };
        let body = hunk_body(&aim.hunk, lines, old_text);
        let card = Card::new(beside, body, buttons, opener).about_hunk(aim);
        self.show_card(card)
    }

    /// Put the caret on the change `aim` of the focused document, and say what
    /// it is in a card beside it, in `pane`; the rest is as for the card. Where
    /// the caret goes, and the question to take back.
    pub fn go_to_hunk(
        &mut self,
        pane: usize,
        aim: Aim,
        buttons: Vec<(String, Command)>,
        rope: &Rope,
        lines: u32,
        old_text: &str,
    ) -> (gone: Gone)
        requires
            old(self).wf(),
        ensures
            final(self).wf(),
            ({
                let text = rope_text(*rope);
                let line = aim.hunk.marked(lines).0;
                let at = line_start(
                    text,
                    if line <= breaks(text) {
                        line
                    } else {
                        breaks(text) as int
                    },
                ) as usize;
                &&& gone == (Gone { caret: at, cancel: old(self).code_actions.card_question() })
                &&& final(self).card matches Some(card) && {
                    &&& Self::says_change(
                        card,
                        Anchor::Text { pane, doc: aim.doc, from: at, to: at },
                        aim,
                        lines,
                        old_text@,
                        button_views(buttons@),
                        None,
                    )
                    &&& *final(self) == (App { focus: Focus::Editor, ..*old(self) }).with_card(card)
                }
            }),
    {
        self.focus = Focus::Editor;
        let caret = caret_for(rope, &aim.hunk, lines);
        let cancel = self.show_hunk_card(pane, aim, buttons, rope, lines, old_text, None, None);
        Gone { caret, cancel }
    }

    // ── completion ──────────────────────────────────────────────────────────

    /// Ask for completions here: the explicit command. The text takes the
    /// keyboard, and the question goes out once the event's edits have.
    pub fn complete_here(&mut self) -> (outcome: Outcome)
        ensures
            outcome == Outcome::Redraw,
            *final(self) == (App {
                focus: Focus::Editor,
                completion: Completion {
                    wanted: Some(Trigger::Invoked),
                    ..old(self).completion
                },
                ..*old(self)
            }),
            old(self).wf() ==> final(self).wf(),
    {
        self.focus = Focus::Editor;
        self.completion.wanted = Some(Trigger::Invoked);
        Outcome::Redraw
    }

    // ── places ──────────────────────────────────────────────────────────────

    /// A place was gone to from `here`, or could not be: the file may have gone.
    /// Whatever the pointer had underlined is stale, and where it was got to,
    /// where this was is remembered. The question to take back.
    pub fn go_to(&mut self, here: Spot, reached: bool) -> (cancel: Option<u64>)
        requires
            old(self).wf(),
        ensures
            final(self).wf(),
            cancel == old(self).navigation.link_question(),
            *final(self) == (App {
                navigation: final(self).navigation,
                focus: if reached {
                    Focus::Editor
                } else {
                    old(self).focus
                },
                ..*old(self)
            }),
            final(self).navigation == (Navigation {
                link: None,
                jumps: final(self).navigation.jumps,
                ..old(self).navigation
            }),
            !reached ==> final(self).navigation.jumps == old(self).navigation.jumps,
            reached ==> spots(final(self).navigation.jumps.back@) == recorded(
                spots(old(self).navigation.jumps.back@),
                here@,
            ) && final(self).navigation.jumps.forward@.len() == 0,
    {
        let (_, cancel) = self.navigation.clear_link();
        if reached {
            self.navigation.jumps.record(here);
            self.focus = Focus::Editor;
        }
        cancel
    }

    // ── the diff view ───────────────────────────────────────────────────────

    /// A press on a part of the diff view, which takes the keyboard with it.
    /// The pane it is in, if it is open.
    pub fn diff_press(&mut self) -> (pane: Option<usize>)
        ensures
            pane == match old(self).diffing.view {
                Some(view) => Some(view.pane),
                None => None,
            },
            final(self).messages@ == old(self).messages@.acknowledged(),
            *final(self) == (App {
                messages: final(self).messages,
                undo_offer: false,
                focus: if old(self).diffing.view is Some {
                    Focus::Diff
                } else {
                    old(self).focus
                },
                ..*old(self)
            }),
            old(self).wf() ==> final(self).wf(),
    {
        self.acknowledge();
        let pane: Option<usize> = match &self.diffing.view {
            Some(view) => Some(view.pane),
            None => None,
        };
        if pane.is_some() {
            self.focus = Focus::Diff;
        }
        pane
    }

    // ── formatting ──────────────────────────────────────────────────────────

    /// Formatting is over, one way or the other: it says how it went, and where
    /// a save was asked for, how that went. `result` is whether it changed
    /// anything, and `written` how writing the file went, where it was to be.
    /// Whether the document's tab is to be closed now.
    pub fn format_done(
        &mut self,
        pending: Pending,
        result: Result<bool, String>,
        written: Written,
    ) -> (close: bool)
        requires
            old(self).wf(),
        ensures
            final(self).wf(),
            *final(self) == (App {
                messages: final(self).messages,
                docs: final(self).docs,
                ..*old(self)
            }),
            !pending.save ==> {
                &&& !close
                &&& final(self).docs == old(self).docs
                &&& final(self).messages@ == old(self).messages@.saying(
                    match result {
                        Ok(true) => "Formatted."@,
                        Ok(false) => "Already formatted."@,
                        Err(why) => "Not formatted: "@ + why@ + "."@,
                    },
                )
            },
            pending.save ==> {
                let said = match old(self).unwritable(pending.doc) {
                    Some(why) => Err(why),
                    None => report(
                        old(self).docs@[index_of(old(self).docs@, pending.doc, 0)->0].path,
                        written,
                    ),
                };
                &&& final(self).messages@ == old(self).messages@.saying(
                    match (said, result) {
                        (Ok(said), Ok(_)) => said,
                        (Ok(said), Err(why)) => said + ", unformatted: "@ + why@ + "."@,
                        (Err(failed), _) => failed,
                    },
                )
                &&& close == (pending.close && match index_of(final(self).docs@, pending.doc, 0) {
                    Some(at) => !final(self).docs@[at].modified,
                    None => false,
                })
                &&& said is Err ==> final(self).docs@ == old(self).docs@
                &&& said is Ok ==> ({
                    let at = index_of(old(self).docs@, pending.doc, 0)->0;
                    final(self).docs@ == old(self).docs@.update(
                        at,
                        Document { modified: false, ..old(self).docs@[at] },
                    )
                })
            },
    {
        if !pending.save {
            self.messages.say(formatted(result));
            return false;
        }
        let said = self.write(pending.doc, written);
        self.messages.say(saved(said, result));
        pending.close && self.is_saved(pending.doc)
    }
}

/// Stepping on from the card of one problem is stepping to another: its buttons
/// are there exactly when there is somewhere else to go.
pub proof fn buttons_are_there_when_there_is_somewhere_to_go(count: nat)
    ensures
        steps(count).len() > 0 <==> count > 1,
        count > 1 ==> steps(count)[0].1 == Command::PreviousDiagnostic && steps(count)[1].1
            == Command::NextDiagnostic,
{
}

/// A problem's card steps where there is another problem to step to.
pub proof fn a_problem_s_card_steps_where_there_are_more(count: nat)
    ensures
        count <= 1 ==> steps(count).len() == 0,
        count > 1 ==> steps(count).len() == 2 && steps(count)[0] == (
            "‹ Previous"@,
            Command::PreviousDiagnostic,
        ) && steps(count)[1] == ("Next ›"@, Command::NextDiagnostic),
{
}

/// Resting on a mark says what it is, whichever kind of mark, unless the symbol's own
/// card says what is wrong there already; resting on anything else only lights it.
pub proof fn resting_on_a_mark_says_what_it_is(app: App, pane: usize, index: usize, row: u16)
    ensures
        ({
            let held = app.card matches Some(card) && card.held;
            &&& !held ==> app.dwells(Target::Diagnostic(pane, index)) == Dwell::Mark(pane, index)
            &&& held ==> app.dwells(Target::Diagnostic(pane, index)) is Nothing
            &&& app.dwells(Target::RailMark(pane, row)) == Dwell::RailRow(pane, row)
            &&& app.dwells(Target::Change(pane, index)) == Dwell::Change(pane, index)
            &&& app.dwells(Target::ChangeRailMark(pane, row)) == Dwell::ChangeRow(pane, row)
            &&& app.dwells(Target::Text) is Light
        }),
{
}

/// A card shown takes the place of the last, and what would fix that is not waited for.
pub proof fn a_new_card_takes_the_last_one_s_place(app: App, card: Card)
    ensures
        app.with_card(card).card == Some(card),
        app.with_card(card).code_actions.card_question() is None,
        app.with_card(card).focus == app.focus,
        app.with_card(card).docs == app.docs,
        app.with_card(card).code_actions.chosen == app.code_actions.chosen,
{
}

} // verus!
