use nun::card::{Anchor, Card};
use nun::code_actions::{
    code_action_params, is_quickfix, kind_hint, lightbulb_row, offered, Action, AnswerTo, BulbState,
    BulbTask, CardFix, Carry, ChooserAnswer, Choice, CodeActions, FixesTask, Form, Offered,
    Resolution, BULB_SETTLE,
};
use nun::diagnostics::{Mark, Severity};
use nun::geometry::Rect;
use nun::outcome::Outcome;
use nun::place::Encoding;
use ropey::Rope;

const MAIN: &str = "fn main() { let x = 1; }\n";

fn action(title: &str, kind: &str) -> Action {
    Action {
        title: title.to_string(),
        kind: Some(kind.to_string()),
        disabled: None,
        preferred: false,
        diagnostics: 1,
        edit: false,
        data: false,
        command: false,
    }
}

/// Two fixes and a refactor, in the order a server gives them.
fn two_fixes_and_a_refactor() -> Vec<(u64, Form)> {
    let prefix = Action {
        preferred: true,
        edit: true,
        ..action("Prefix with an underscore", "quickfix")
    };
    vec![
        (0, Form::Action(action("Extract into a function", "refactor.extract"))),
        (1, Form::Action(action("Remove the variable", "quickfix"))),
        (2, Form::Action(prefix)),
    ]
}

/// An editor over [`MAIN`] with a diagnostic on its variable, and a server that
/// answers when it is told to.
struct Tester {
    actions: CodeActions,
    card: Option<Card>,
    rope: Rope,
    version: i32,
    head: usize,
    marks: Vec<Mark>,
    offers: Vec<(u64, Form)>,
    next: u64,
    waiting: Vec<u64>,
    cancelled: Vec<u64>,
    asked: usize,
    said: Option<String>,
    chooser: Option<Vec<(String, String)>>,
    undone: Vec<Rope>,
}

const ANCHOR: Anchor = Anchor::Text { pane: 0, doc: 0, from: 16, to: 17 };

impl Tester {
    fn new(offers: Vec<(u64, Form)>) -> Tester {
        Tester {
            actions: CodeActions::new(),
            card: None,
            rope: Rope::from_str(MAIN),
            version: 1,
            head: 0,
            marks: vec![Mark { start: 16, end: 17, severity: Severity::Warning }],
            offers,
            next: 0,
            waiting: Vec::new(),
            cancelled: Vec::new(),
            asked: 0,
            said: None,
            chooser: None,
            undone: Vec::new(),
        }
    }

    fn send(&mut self) -> u64 {
        self.next += 1;
        self.waiting.push(self.next);
        self.next
    }

    fn ask(&mut self) -> u64 {
        self.asked += 1;
        self.send()
    }

    fn cancel(&mut self, id: Option<u64>) {
        if let Some(id) = id {
            self.waiting.retain(|waiting| *waiting != id);
            self.cancelled.push(id);
        }
    }

    /// Open the diagnostic's card from the keyboard.
    fn card(&mut self) {
        self.card = Some(Card::new(ANCHOR, Vec::new(), Vec::new(), None));
        let (task, cancel) = self.actions.ask_fixes(Some(ANCHOR), Some(self.version), true);
        self.cancel(cancel);
        match task {
            FixesTask::Ask { from, to, .. } => {
                assert!(code_action_params(&self.rope, &self.marks, from, to).is_some());
                let id = self.ask();
                self.actions.fixes_asked(id, ANCHOR);
            },
            FixesTask::Show => self.show(),
            FixesTask::Nothing => {},
        }
    }

    fn close_card(&mut self) {
        self.card = None;
        let cancel = self.actions.forget_card_fixes();
        self.cancel(cancel);
    }

    fn show(&mut self) {
        let labels = self.actions.show_fixes(ANCHOR, "…");
        if let (Some(labels), Some(card)) = (labels, &mut self.card) {
            card.offer_fixes(labels);
        }
    }

    fn offers(&self, asked: i32) -> Result<Vec<Offered>, String> {
        offered(Some(self.version), 0, asked, Ok(self.offers.clone()))
    }

    /// The server answers everything it was asked while the text was at
    /// `asked`.
    fn answer(&mut self, asked: i32) {
        for id in std::mem::take(&mut self.waiting) {
            assert!(self.actions.owns(id));
            let offers = self.offers(asked);
            match self.actions.code_action_answer(id) {
                AnswerTo::Card(anchor) => {
                    if self.actions.card_answered(anchor, offers) == Outcome::Redraw {
                        self.show();
                    }
                },
                AnswerTo::Chooser => match self.actions.chooser_answered(offers) {
                    ChooserAnswer::Say(said) => self.said = Some(said),
                    ChooserAnswer::Offer(_, rows) => self.open(rows),
                },
                AnswerTo::Bulb => {
                    let line = self.rope.char_to_line(self.head);
                    self.actions.bulb_answered(offers, 0, line, Some(self.version));
                },
                other => panic!("{other:?}"),
            }
        }
    }

    fn open(&mut self, rows: Vec<nun::palette::Row>) {
        let row = |row: &nun::palette::Row| (row.entry.label.clone(), row.entry.hint.clone());
        self.chooser = Some(rows.iter().map(row).collect());
    }

    fn buttons(&self) -> Vec<String> {
        self.card.as_ref().unwrap().labels.clone()
    }

    /// The server's edit: the variable is renamed, as one step.
    fn apply(&mut self, title: &str) {
        self.undone.push(self.rope.clone());
        self.rope.remove(16..17);
        self.rope.insert(16, "_x");
        self.version += 1;
        self.said = Some(format!("Applied “{title}”."));
    }

    fn choose_offer(&mut self, offer: Offered, resolves: bool) {
        match CodeActions::carrying_out(&offer, Some(self.version), resolves) {
            Choice::Say(said) => self.said = Some(said),
            Choice::CarryOut => {
                if let Form::Action(action) = &offer.form {
                    self.carry(action.clone());
                }
            },
            Choice::Resolve => {
                let id = self.send();
                let reply = self.actions.resolve(offer, Ok(id));
                self.said = reply.message;
            },
            Choice::Execute => panic!("a bare command"),
        }
    }

    fn carry(&mut self, action: Action) {
        match CodeActions::carry_out(&action, true) {
            Carry::Edit { title, .. } => self.apply(&title),
            Carry::Execute => {
                let id = self.send();
                let version = Some(self.version);
                assert!(self.actions.execute_command(0, action.title, version, Ok(id)).is_none());
            },
            Carry::Say(said) => self.said = Some(said),
        }
    }

    /// Press a fix button on the card.
    fn press(&mut self, index: usize) {
        let fix = self.actions.card_fix(index);
        self.close_card();
        match fix {
            CardFix::Choose(offer) => self.choose_offer(offer, true),
            CardFix::All(all) => {
                let (_, rows) = self.actions.offer_in_chooser(all);
                self.open(rows);
            },
            CardFix::Nothing => {},
        }
    }

    fn text(&self) -> String {
        self.rope.to_string()
    }

    fn type_text(&mut self, text: &str) {
        self.undone.push(self.rope.clone());
        self.rope.insert(self.head, text);
        self.head += text.chars().count();
        self.version += 1;
    }

    /// What the editor does after anything happens.
    fn follow(&mut self, now: u64) {
        let place = self.actions.caret_line(
            0,
            true,
            Some(self.version),
            &self.rope,
            self.head,
            &self.marks,
        );
        let reply = self.actions.bulb_follow(place, now);
        for id in reply.cancel {
            self.cancel(Some(id));
        }
    }

    fn tick(&mut self, now: u64) {
        if let BulbTask::Ask(_) = self.actions.bulb_tick(now, 0, self.rope.len_lines()) {
            let id = self.ask();
            self.actions.bulb_asked(Some(id));
        }
    }

    fn lightbulb_line(&self) -> Option<usize> {
        self.actions.lightbulb_line(0, self.rope.char_to_line(self.head), Some(self.version))
    }

    fn go_down(&mut self) {
        self.head = self.rope.line_to_char(self.rope.char_to_line(self.head) + 1);
    }
}

#[test]
fn a_fix_on_the_card_applies_as_one_undo_step() {
    let mut t = Tester::new(two_fixes_and_a_refactor());
    t.card();
    t.answer(1);
    assert_eq!(
        t.buttons(),
        ["Prefix with an underscore", "Remove the variable"],
        "the fixes, the preferred first; the refactor is not a fix"
    );
    // The server was asked about the diagnostic.
    let asked = code_action_params(&t.rope, &t.marks, 16, 17).unwrap();
    assert_eq!(asked.len(), 1);
    assert_eq!((asked[0].index, asked[0].start, asked[0].end), (0, 16, 17));

    t.press(0);
    assert_eq!(t.text(), "fn main() { let _x = 1; }\n");
    assert_eq!(t.said.as_deref(), Some("Applied “Prefix with an underscore”."));
    assert!(t.card.is_none());
    t.rope = t.undone.pop().unwrap();
    assert_eq!(t.text(), MAIN, "one undo takes it all back");
}

#[test]
fn a_slow_server_never_delays_the_card() {
    let mut t = Tester::new(two_fixes_and_a_refactor());
    t.card();
    assert!(t.buttons().is_empty(), "the card is up at once, without them");
    t.answer(1);
    assert_eq!(t.buttons().len(), 2);

    // Asked again about the same place, what was offered is still good.
    t.card();
    assert_eq!(t.buttons().len(), 2);
    assert_eq!(t.asked, 1);
}

#[test]
fn a_card_that_closes_first_cancels_the_question() {
    let mut t = Tester::new(two_fixes_and_a_refactor());
    t.card();
    t.close_card();
    assert!(t.actions.card_asked.is_none());
    assert_eq!(t.cancelled, vec![1]);
}

#[test]
fn more_fixes_than_fit_are_one_click_away_in_the_chooser() {
    let fix = |title: &str| Form::Action(Action { edit: true, ..action(title, "quickfix") });
    let mut t = Tester::new(vec![(0, fix("One")), (1, fix("Two")), (2, fix("Three"))]);
    t.card();
    t.answer(1);
    assert_eq!(t.buttons(), ["One", "Two", "1 more…"]);
    t.press(2);
    let rows: Vec<String> = t.chooser.unwrap().into_iter().map(|(label, _)| label).collect();
    assert_eq!(rows, ["One", "Two", "Three"]);
}

#[test]
fn the_same_fixes_are_in_the_chooser_from_the_keyboard() {
    let mut t = Tester::new(two_fixes_and_a_refactor());
    assert_eq!(CodeActions::code_actions_here(true, true), None);
    let id = t.ask();
    let reply = t.actions.chooser_sent(Ok(id));
    assert_eq!(reply.message.as_deref(), Some("Asking for code actions…"));
    t.answer(1);
    let rows = t.chooser.clone().expect("the chooser");
    let rows: Vec<(&str, &str)> =
        rows.iter().map(|(label, hint)| (label.as_str(), hint.as_str())).collect();
    assert_eq!(
        rows,
        [
            ("Prefix with an underscore", "fix"),
            ("Remove the variable", "fix"),
            ("Extract into a function", "refactor"),
        ]
    );
    let picked = t.actions.pick_code_action(0).unwrap();
    t.choose_offer(picked, true);
    assert_eq!(t.text(), "fn main() { let _x = 1; }\n");
}

#[test]
fn an_edit_left_for_later_is_asked_for_when_chosen() {
    let later = Action { data: true, ..action("Prefix it", "quickfix") };
    let mut t = Tester::new(vec![(7, Form::Action(later))]);
    t.card();
    t.answer(1);
    t.press(0);
    assert_eq!(t.said.as_deref(), Some("Working out “Prefix it”…"));
    let id = t.waiting.pop().unwrap();
    let AnswerTo::Resolve(offer) = t.actions.code_action_answer(id) else {
        panic!("it was asked for");
    };
    assert_eq!(offer.which, 7, "handed back as it came");
    let resolution = CodeActions::action_resolved(&offer, Some(1), 1, Ok(()));
    assert!(matches!(resolution, Resolution::Filled));
    t.carry(Action { edit: true, ..action("Prefix it", "quickfix") });
    assert_eq!(t.text(), "fn main() { let _x = 1; }\n");
}

#[test]
fn a_command_s_edit_comes_back_from_the_server_and_is_answered() {
    let fix = Action { command: true, ..action("Fix it", "quickfix") };
    let mut t = Tester::new(vec![(0, Form::Action(fix))]);
    t.card();
    t.answer(1);
    t.press(0);
    let id = t.waiting.pop().unwrap();
    let now = t.actions.last_doc().map(|_| t.version);
    let (title, straight) = t.actions.server_edit(None, now);
    assert!(straight);
    t.apply(&title);
    assert_eq!(t.text(), "fn main() { let _x = 1; }\n");
    assert_eq!(t.said.as_deref(), Some("Applied “Fix it”."), "named after the command");
    assert!(matches!(t.actions.code_action_answer(id), AnswerTo::Command(title)
        if title == "Fix it"));
    assert!(t.actions.executing.is_empty());
}

#[test]
fn a_fix_offered_before_the_text_changed_is_not_made() {
    let mut t = Tester::new(two_fixes_and_a_refactor());
    t.card();
    t.answer(1);
    let offered = t.actions.card.as_ref().unwrap().1[0].clone();
    t.type_text("// edited\n");
    t.choose_offer(offered, true);
    assert!(t.said.as_ref().unwrap().contains("has changed since it was offered"));
    assert!(!t.text().contains("_x"));
}

#[test]
fn positions_are_asked_in_the_servers_units_where_the_text_is_now() {
    // The crab is two UTF-16 units, so `x` is at 18..19.
    let mut t = Tester::new(two_fixes_and_a_refactor());
    t.rope = Rope::from_str("fn main() { let 🦀x = 1; }\n");
    t.marks = vec![Mark { start: 17, end: 18, severity: Severity::Warning }];
    // Typed before the card opens: the mark moves along, one unit.
    t.type_text("é");
    t.marks = vec![Mark { start: 18, end: 19, severity: Severity::Warning }];
    let about = code_action_params(&t.rope, &t.marks, 18, 19).unwrap();
    assert_eq!(about.len(), 1, "the diagnostic");
    assert_eq!((about[0].start, about[0].end), (18, 19));
    let line = t.rope.line(0).to_string();
    assert_eq!(Encoding::Utf16.column(&line, 19), 18, "what the server calls 19");
    assert_eq!(Encoding::Utf16.column(&line, 20), 19);
}

#[test]
fn an_edit_whose_text_moved_on_while_its_command_ran_is_previewed() {
    let fix = Action { command: true, ..action("Fix it", "quickfix") };
    let mut t = Tester::new(vec![(0, Form::Action(fix))]);
    t.card();
    t.answer(1);
    t.press(0);
    // Typed while the server works on it, before its edit arrives.
    t.type_text("é");
    let (title, straight) = t.actions.server_edit(None, Some(t.version));
    assert_eq!(title, "Fix it");
    assert!(!straight, "not made where it no longer belongs");
}

#[test]
fn a_line_with_actions_is_marked_once_the_caret_rests_and_the_mark_opens_them() {
    let mut t = Tester::new(two_fixes_and_a_refactor());
    t.follow(1000);
    assert_eq!(t.lightbulb_line(), None);
    t.tick(1000 + BULB_SETTLE);
    t.answer(1);
    assert_eq!(t.lightbulb_line(), Some(0));
    let text = Rect::new(4, 2, 20, 5);
    assert_eq!(lightbulb_row(0, &vec![0, 1], text), Some(2));
    assert_eq!(lightbulb_row(1, &vec![0, 1], text), Some(3));
    assert_eq!(lightbulb_row(9, &vec![0, 1], text), None);

    // Once, and not again while the caret stays on the line.
    t.head += 1;
    t.follow(2000);
    t.tick(2000 + BULB_SETTLE * 2);
    assert_eq!(t.asked, 1);
    assert_eq!(t.actions.bulb_deadline(), None, "nothing left to wake up for");

    let offers = t.actions.lightbulb_click(0, 0, Some(1)).expect("what the mark stands for");
    let (_, rows) = t.actions.offer_in_chooser(offers);
    let rows: Vec<&str> = rows.iter().map(|row| row.entry.label.as_str()).collect();
    assert_eq!(
        rows,
        ["Prefix with an underscore", "Remove the variable", "Extract into a function"]
    );
    assert_eq!(t.asked, 1, "what the mark stands for, without asking again");
    let picked = t.actions.pick_code_action(0).unwrap();
    t.choose_offer(picked, true);
    assert_eq!(t.text(), "fn main() { let _x = 1; }\n");
}

#[test]
fn typing_neither_asks_nor_waits_and_moving_on_asks_again() {
    let mut t = Tester::new(two_fixes_and_a_refactor());
    t.follow(0);
    t.tick(BULB_SETTLE);
    t.answer(1);
    assert_eq!(t.lightbulb_line(), Some(0));
    let before = t.asked;

    for ch in ["a", "b", "c"] {
        t.type_text(ch);
        t.follow(1000);
        assert_eq!(t.lightbulb_line(), None, "the mark is about text no longer there");
        assert_eq!(t.actions.bulb_deadline(), None, "and typing arms nothing");
    }
    t.tick(1000 + BULB_SETTLE * 2);
    assert_eq!(t.asked, before, "typing asked nothing");

    // Going to another line is resting somewhere new.
    t.go_down();
    t.follow(3000);
    assert!(t.actions.bulb_deadline().is_some());
    t.tick(3000 + BULB_SETTLE);
    t.answer(t.version);
    assert_eq!(t.lightbulb_line(), Some(1));
    assert_eq!(t.asked, before + 1);
}

#[test]
fn moving_on_cancels_the_question() {
    let mut t = Tester::new(two_fixes_and_a_refactor());
    t.follow(0);
    t.tick(BULB_SETTLE);
    assert!(matches!(t.actions.bulb.as_ref().unwrap().state, BulbState::Asking(1)));
    t.go_down();
    t.follow(1000);
    assert!(!matches!(t.actions.bulb.as_ref().unwrap().state, BulbState::Asking(_)));
    assert_eq!(t.cancelled, vec![1]);
}

#[test]
fn a_line_with_nothing_on_offer_is_not_marked() {
    let mut t = Tester::new(Vec::new());
    t.follow(0);
    t.tick(BULB_SETTLE);
    t.answer(1);
    assert!(matches!(t.actions.bulb.as_ref().unwrap().state, BulbState::Answered(_)));
    assert_eq!(t.lightbulb_line(), None);
    assert!(t.actions.lightbulb_click(0, 0, Some(1)).is_none());
}

#[test]
fn turned_off_it_asks_nothing() {
    let mut t = Tester::new(two_fixes_and_a_refactor());
    t.actions.set_lightbulb(false);
    t.follow(0);
    assert_eq!(t.actions.bulb_deadline(), None);
    t.go_down();
    t.follow(0);
    assert_eq!(t.actions.bulb_deadline(), None);
    t.tick(BULB_SETTLE * 2);
    assert_eq!(t.asked, 0);
    assert_eq!(t.lightbulb_line(), None);
}

#[test]
fn what_cannot_be_done_is_said() {
    let says = |known, offers| CodeActions::code_actions_here(known, offers);
    assert_eq!(
        says(true, false).as_deref(),
        Some("This file's language server offers no code actions.")
    );
    assert_eq!(
        says(false, false).as_deref(),
        Some("No code actions: this file's language server is not ready.")
    );

    let refused = Action { disabled: Some("it is read-only".to_string()), ..action("Fix", "quickfix") };
    let offer = Offered { doc: 0, version: 1, which: 0, form: Form::Action(refused) };
    assert!(matches!(CodeActions::carrying_out(&offer, Some(1), true), Choice::Say(said)
        if said == "“Fix” cannot be applied: it is read-only."));

    let empty = action("Fix", "quickfix");
    assert!(matches!(CodeActions::carry_out(&empty, true), Carry::Say(said)
        if said == "“Fix” has nothing to do."));
    let stopped = Action { edit: true, ..action("Fix", "quickfix") };
    assert!(matches!(CodeActions::carry_out(&stopped, false), Carry::Say(said)
        if said == "Did not apply “Fix”: the language server stopped."));

    let mut actions = CodeActions::new();
    let said = actions.execute_command(0, "Fix".to_string(), None, Err("no server".to_string()));
    assert_eq!(said.as_deref(), Some("Could not run “Fix”: no server."));
    let failed = CodeActions::executed("Fix", Err("it broke".to_string()));
    assert_eq!(failed.message.as_deref(), Some("“Fix” did not work: it broke."));
    assert!(matches!(actions.chooser_answered(Ok(Vec::new())), ChooserAnswer::Say(said)
        if said == "No code actions here."));
    assert!(matches!(actions.chooser_answered(Err("it broke".to_string())), ChooserAnswer::Say(said)
        if said == "No code actions: it broke. Try again."));

    let stale = offered(Some(2), 0, 1, Ok(Vec::new()));
    assert_eq!(stale.unwrap_err(), "the file changed while the server was asked");
    assert!(actions.server_edit(None, None) == ("the language server's edit".to_string(), false));
}

#[test]
fn a_kind_is_one_of_a_few_words() {
    assert!(is_quickfix("quickfix"));
    assert!(is_quickfix("quickfix.rust"));
    assert!(!is_quickfix("quickfixes"));
    assert_eq!(kind_hint(&Some("quickfix".to_string())), "fix");
    assert_eq!(kind_hint(&Some("refactor.inline".to_string())), "refactor");
    assert_eq!(kind_hint(&None), "");
}

#[test]
fn a_carriage_return_keeps_the_server_from_being_asked() {
    let rope = Rope::from_str("one\rtwo\n");
    assert!(code_action_params(&rope, &Vec::new(), 0, 1).is_none());
    let rope = Rope::from_str("one\ntwo\n");
    let marks = vec![
        Mark { start: 0, end: 2, severity: Severity::Error },
        Mark { start: 5, end: 6, severity: Severity::Error },
    ];
    let about = code_action_params(&rope, &marks, 1, 1).unwrap();
    assert_eq!(about.len(), 1);
    assert_eq!(about[0].index, 0);
}
