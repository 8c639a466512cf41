use nun::app::{App, Laid};
use nun::body::Run;
use nun::card::{Anchor, Press};
use nun::commands::Command;
use nun::diagnostics::{tally, Answer, Found, Mark, Severity};
use nun::geometry::Rect;
use nun::hits::hit_at;
use nun::input::{KeyCode, KeyEvent, KeyKind, Modifiers};
use nun::keys::{KeyFacts, KeyedTask, Task};
use nun::layers::{layout_rail, layout_underlines};
use nun::pointing::ClickTask;
use nun::problems::{
    card_body, marks_in_view, problems_label, problems_part, rail_card, rail_lines, rail_mark_press,
    split_rail,
};
use nun::showing::{diagnostics_press, stepping_buttons, Dwell, ProblemPress};
use nun::status::StatusParts;
use nun::target::Target;
use ropey::Rope;

fn nothing_laid() -> Laid {
    Laid {
        text: Rect::new(0, 0, 0, 0),
        gutter: 0,
        sidebar: Vec::new(),
        search: Vec::new(),
        references: Vec::new(),
        edit_preview: Vec::new(),
        panes: Vec::new(),
        diagnostics: Vec::new(),
        card: Vec::new(),
        completion: Vec::new(),
        palette: Vec::new(),
        status: StatusParts {
            files: None,
            search: None,
            undo: None,
            close: None,
            lsp: None,
            problems: None,
            text: 0,
        },
        prompt: Vec::new(),
    }
}

/// An editor over a text, with its caret.
struct Tester {
    app: App,
    rope: Rope,
    caret: usize,
}

const TEXT: Rect = Rect { x: 0, y: 0, width: 60, height: 11 };

impl Tester {
    fn new(text: &str) -> Tester {
        let mut app = App::new(None, false, &nothing_laid());
        app.set_viewport(Rect::new(0, 0, 60, 12));
        Tester { app, rope: Rope::from_str(text), caret: 0 }
    }

    /// Give the document diagnostics, as a server would.
    fn publish(&mut self, all: &[(u32, u32, u32, Severity, &str)]) {
        let found = all
            .iter()
            .map(|(line, from, to, severity, message)| {
                let start = self.rope.line_to_char(*line as usize);
                Found {
                    place: (*line, *from, *line, *to),
                    span: (start + *from as usize, start + *to as usize),
                    severity: *severity,
                    message: message.to_string(),
                    source: None,
                    code: None,
                }
            })
            .collect();
        self.app.diagnostics.opened(0, 0, &self.rope);
        self.app.diagnostics.publish(0, Some(Answer { version: Some(0), found }));
    }

    fn marks(&self) -> Vec<Mark> {
        self.app.diagnostics.watched(0).map(|watched| watched.marks.clone()).unwrap_or_default()
    }

    fn step(&mut self, forward: bool) {
        let command = if forward { Command::NextDiagnostic } else { Command::PreviousDiagnostic };
        match self.app.run(command) {
            Task::StepDiagnostic { forward } => {
                let len = self.rope.len_chars();
                if let Some(gone) = self.app.step_problem(0, self.caret, len, forward) {
                    self.caret = gone.caret;
                }
            },
            other => panic!("{other:?}"),
        }
    }

    fn line(&self) -> usize {
        self.rope.char_to_line(self.caret)
    }

    /// The lines row `row` of a rail of `height` rows stands for.
    fn stands_for(&self, row: usize, height: usize) -> (usize, usize) {
        let lines = self.rope.len_lines();
        let first = (0..lines).find(|line| line * height / lines == row).unwrap();
        let end = (first..lines).find(|line| line * height / lines != row).unwrap_or(lines);
        (first, end)
    }

    fn press_row(&mut self, row: usize, height: usize) {
        let marks = self.marks();
        let lines = rail_lines(&self.rope, &marks);
        let (first, end) = self.stands_for(row, height);
        let index = rail_mark_press(&lines, &marks, first, end, self.caret).unwrap();
        let gone = self.app.go_to_mark(0, index, self.rope.len_chars()).unwrap();
        self.caret = gone.caret;
    }

    fn card_text(&self) -> String {
        let card = self.app.card.as_ref().expect("a card");
        let said = |run: &Run| match run {
            Run::Text(text) | Run::Dim(text) => text.clone(),
            other => format!("{other:?}"),
        };
        card.body.iter().map(|runs| runs.iter().map(said).collect::<String>() + "\n").collect()
    }
}

#[test]
fn the_status_line_counts_what_the_rail_shows() {
    let mut t = Tester::new(&"line\n".repeat(200));
    t.publish(&[
        (10, 0, 4, Severity::Error, "a"),
        (11, 0, 4, Severity::Error, "b"),
        (12, 0, 4, Severity::Warning, "c"),
        (150, 0, 4, Severity::Hint, "d"),
    ]);
    let (text, rail) = split_rail(TEXT, 5, true);
    let rail = rail.expect("a document with marks has a rail");
    assert_eq!(text.right(), rail.x);

    let marks = t.marks();
    let lines = rail_lines(&t.rope, &marks);
    assert_eq!(lines, vec![10, 11, 12, 150]);
    let height = usize::from(rail.height);
    let counts: Vec<usize> = (0..height)
        .map(|row| {
            let (first, end) = t.stands_for(row, height);
            lines.iter().filter(|line| first <= **line && **line < end).count()
        })
        .collect();
    let total = tally(&marks);
    assert_eq!(counts.iter().sum::<usize>(), total.errors + total.warnings + total.notes);
    assert!(counts.contains(&3), "three collide: {counts:?}");

    let label = problems_label(&marks).expect("there is something to count");
    let status = Rect::new(0, 11, 60, 1);
    let part = problems_part(&label, status, 0, 9, 15, None, None, None)
        .expect("the counts are in the status line");
    assert_eq!(part.y, 11);
    let drawn: String = label.iter().map(|(text, _)| text.as_str()).collect();
    assert_eq!(drawn.trim(), "✕ 2 ▲ 1 ● 1");
}

#[test]
fn keys_step_through_the_diagnostics_and_come_round_at_the_end() {
    let mut t = Tester::new("aaa bbb\nccc ddd\n");
    t.publish(&[(0, 4, 7, Severity::Error, "first"), (1, 0, 3, Severity::Warning, "second")]);
    t.step(true);
    assert_eq!(t.caret, 4);
    assert!(t.app.card.is_some(), "the message is shown beside it");
    t.step(true);
    assert_eq!(t.caret, 8);
    t.step(true);
    assert_eq!(t.caret, 4, "round again");

    t.step(false);
    assert_eq!(t.caret, 8, "and back");
}

#[test]
fn with_nothing_to_step_to_it_says_so() {
    let mut t = Tester::new("clean\n");
    t.step(true);
    assert_eq!(t.app.message().as_deref(), Some("No problems in this file."));
}

#[test]
fn clicking_a_crowded_rail_row_visits_each_of_its_marks_in_turn() {
    let mut t = Tester::new(&"line\n".repeat(200));
    t.publish(&[
        (10, 0, 4, Severity::Error, "a"),
        (11, 0, 4, Severity::Error, "b"),
        (150, 0, 4, Severity::Warning, "c"),
    ]);
    let (_, rail) = split_rail(TEXT, 5, true);
    let rail = rail.unwrap();
    let hits = layout_rail(0, rail, &vec![0, 8]);
    let target = hit_at(&hits, rail.x, 0).unwrap().target;
    assert_eq!(target, Target::RailMark(0, 0), "a mark on the rail");
    assert_eq!(diagnostics_press(target, 0), ProblemPress::RailRow(0, 0));

    t.press_row(0, usize::from(rail.height));
    assert_eq!(t.line(), 10);
    t.press_row(0, usize::from(rail.height));
    assert_eq!(t.line(), 11, "the second mark on the same row");
    t.press_row(0, usize::from(rail.height));
    assert_eq!(t.line(), 10, "and round again");
}

#[test]
fn the_bare_rail_is_pressed_to_scroll() {
    let (_, rail) = split_rail(TEXT, 3, true);
    let rail = rail.unwrap();
    let hits = layout_rail(0, rail, &vec![0]);
    let bottom = rail.bottom() - 1;
    let target = hit_at(&hits, rail.x, bottom).unwrap().target;
    assert_eq!(target, Target::Rail(0));
    assert_eq!(diagnostics_press(target, bottom), ProblemPress::Scroll(0, bottom));
}

#[test]
fn resting_on_an_underline_opens_its_card_and_leaving_closes_it() {
    let mut t = Tester::new("let x = 1;\nlet y = 2;\n");
    t.publish(&[(0, 4, 5, Severity::Error, "expected `u8`")]);
    let mut laid = nothing_laid();
    laid.text = TEXT;
    laid.gutter = 3;
    laid.diagnostics = layout_underlines(0, &vec![(0, Rect::new(3 + 4, 0, 1, 1))]);
    t.app.relayout(&laid);
    assert!(t.app.wants_motion(false, false), "an underline on screen reacts to hover");
    let target = t.app.hovered(3 + 4, 0).unwrap();
    assert_eq!(t.app.dwelt(target), Dwell::Mark(0, 0));
    t.app.mark_card(0, 0, 0);

    let card = t.app.card.as_ref().expect("a card");
    assert_eq!(card.anchor, Anchor::Text { pane: 0, doc: 0, from: 4, to: 5 });
    assert!(t.card_text().contains("expected `u8`"), "{}", t.card_text());
    assert!(t.card_text().contains("Error"), "{}", t.card_text());

    // Into the card keeps it; out to plain text closes it.
    let card = t.app.card.as_ref().unwrap();
    assert!(!card.card_follow_pointer(Some(target), false));
    assert!(!card.card_follow_pointer(Some(Target::Card), false));
    assert!(card.card_follow_pointer(None, false));
    t.app.close_card();
    assert!(t.app.card.is_none());
}

#[test]
fn a_click_on_an_underline_still_places_the_caret() {
    let mut t = Tester::new("let x = 1;\n");
    t.publish(&[(0, 4, 5, Severity::Error, "bad")]);
    let clicked = t.app.click(Target::Diagnostic(0, 0), false, false, false);
    match clicked.task {
        ClickTask::Text(target) => assert_eq!(target.pressed(), Target::Text),
        other => panic!("{other:?}"),
    }
}

#[test]
fn the_card_s_buttons_step_on() {
    let mut t = Tester::new("aaa bbb\nccc ddd\n");
    t.publish(&[(0, 4, 7, Severity::Error, "first"), (1, 0, 3, Severity::Warning, "second")]);
    t.step(true);
    let card = t.app.card.as_ref().unwrap();
    assert_eq!(card.buttons.len(), 2);
    let next = card.card_click(Target::CardButton(1));
    assert!(matches!(next, Press::Run(Some(Command::NextDiagnostic), None)), "{next:?}");
    t.step(true);
    assert_eq!(t.caret, 8);
    assert!(t.app.card.is_some(), "and says what is there");
}

#[test]
fn escape_puts_the_card_away_and_leaves_the_selection() {
    let mut t = Tester::new("aaa bbb\n");
    t.publish(&[(0, 4, 7, Severity::Error, "first")]);
    t.step(true);
    let event =
        KeyEvent { code: KeyCode::Esc, modifiers: Modifiers::none(), kind: KeyKind::Press };
    let facts = KeyFacts { card_height: Some(1), chord: false, page: 10 };
    let answer = t.app.handle_key(&event, &facts);
    assert!(matches!(answer.task, KeyedTask::CardGone), "the key is spent");
    assert!(t.app.card.is_none());
    assert_eq!(t.caret, 4);
}

#[test]
fn a_file_with_no_server_and_no_marks_has_no_rail() {
    assert_eq!(split_rail(TEXT, 3, false), (TEXT, None));
    let narrow = Rect::new(0, 0, 5, 11);
    assert_eq!(split_rail(narrow, 3, true), (narrow, None), "nor one with no room for it");
}

#[test]
fn a_lone_problem_offers_nowhere_else_to_go() {
    assert!(stepping_buttons(1).is_empty());
    let both: Vec<Command> = stepping_buttons(2).into_iter().map(|(_, command)| command).collect();
    assert_eq!(both, vec![Command::PreviousDiagnostic, Command::NextDiagnostic]);
}

#[test]
fn only_what_is_in_view_is_laid_out() {
    let shown = marks_in_view(&vec![0, 5, 9, 20], &vec![0, 10, 9, 21], 6, 12);
    assert_eq!(shown, vec![1, 2]);
}

#[test]
fn a_card_says_everything_on_the_same_text_and_a_rail_row_all_of_it() {
    let mut t = Tester::new("aaa bbb\nccc ddd\n");
    t.publish(&[
        (0, 0, 7, Severity::Warning, "wide"),
        (0, 4, 7, Severity::Error, "inner"),
        (1, 0, 3, Severity::Error, "elsewhere"),
    ]);
    let watched = t.app.diagnostics.watched(0).unwrap();
    let texts = |body: &Vec<Vec<Run>>| -> Vec<String> {
        body.iter()
            .flatten()
            .filter_map(|run| match run {
                Run::Text(text) => Some(text.clone()),
                _ => None,
            })
            .collect()
    };
    let body = card_body(&watched.marks, &watched.notes, 0);
    assert_eq!(texts(&body), vec!["inner", "wide"], "the most serious first");

    let lines = rail_lines(&t.rope, &watched.marks);
    assert!(rail_card(&lines, &watched.marks, &watched.notes, 0, 2).is_some());
    assert!(rail_card(&lines, &watched.marks, &watched.notes, 5, 6).is_none());
}
