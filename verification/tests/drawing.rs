use nun::app::{App, CaretView, Laid, Landing, Menu};
use nun::card::{card_bounds, layout_card};
use nun::code_actions::{Form, Offered};
use nun::commands::Command;
use nun::completion::{Answered, Completion, Trigger};
use nun::diagnostics::{Mark, Severity};
use nun::diff::{Against, Compared, Diff, DiffRow, Diffing, Toggle};
use nun::geometry::Rect;
use nun::gutter::{row_of, Hunk};
use nun::hits::hit_at;
use nun::hover::{no_file, problems_on};
use nun::keys::{Task, TextResult};
use nun::outcome::Outcome;
use nun::palette::{note, Finder, Found, Mode, Wanted};
use nun::popup::{docs_of, Here, Item, ItemKind, Pending, Popup, Resolved, Shown};
use nun::references::Listing;
use nun::snippets::{variables, PathParts};
use nun::spans::Selection;
use nun::status::{
    binding_for, button_glyph, render_prompt, render_status, status_parts, undo_label, write_at,
    Look, Piece, StatusFacts, StatusLine, StatusParts, StatusState, StatusTexts,
};
use nun::target::{Focus, Target};
use nun::unicode::{is_control, is_whitespace};
use ropey::Rope;

const NOWHERE: Rect = Rect { x: 0, y: 0, width: 0, height: 0 };

fn nothing_laid() -> Laid {
    Laid {
        text: NOWHERE,
        gutter: 0,
        sidebar: Vec::new(),
        search: Vec::new(),
        references: Vec::new(),
        edit_preview: Vec::new(),
        panes: Vec::new(),
        diagnostics: Vec::new(),
        card: Vec::new(),
        completion: Vec::new(),
        palette: Vec::new(),
        status: StatusParts {
            files: None,
            search: None,
            undo: None,
            close: None,
            lsp: None,
            problems: None,
            text: 0,
        },
        prompt: Vec::new(),
    }
}

fn facts(left: &str, right: &str) -> StatusFacts {
    StatusFacts {
        prompt: false,
        folder: true,
        undo: false,
        strip: false,
        left: left.len(),
        right: right.len(),
        left_chars: left.len(),
        right_chars: right.len(),
        server: None,
        counts: None,
    }
}

fn texts(left: &str, right: &str) -> StatusTexts {
    StatusTexts {
        files_shown: button_glyph("F"),
        files_hidden: button_glyph("f"),
        search: button_glyph("/"),
        left: left.to_string(),
        undo: undo_label(false).to_string(),
        close: button_glyph("x"),
        server: String::new(),
        right: right.to_string(),
    }
}

const STATE: StatusState =
    StatusState { question: None, message: false, chord: false, sidebar: true };

fn line(
    area: Rect,
    parts: &StatusParts,
    left: &str,
    right: &str,
    hovered: Option<Target>,
    state: StatusState,
) -> (bool, Vec<Piece>) {
    let texts = texts(left, right);
    match render_status(area, parts, &texts, left.len(), right.len(), hovered, &state) {
        StatusLine::Line { lit, pieces } => (lit, pieces),
        StatusLine::Question => panic!("a question"),
    }
}

#[test]
fn the_status_line_is_lit_for_what_there_is_to_read() {
    let status = Rect::new(0, 9, 60, 1);
    let parts = status_parts(status, &facts("a", "b"));
    let drawn = |state| line(status, &parts, "a", "b", None, state);
    assert!(!drawn(STATE).0);
    assert!(drawn(StatusState { message: true, ..STATE }).0);
    assert!(drawn(StatusState { chord: true, ..STATE }).0);
    assert_eq!(drawn(STATE).1[0].text, " F ");
    assert_eq!(drawn(StatusState { sidebar: false, ..STATE }).1[0].text, " f ");

    let asked = StatusState { question: Some(status), ..STATE };
    let texts = texts("a", "b");
    let taken = render_status(status, &parts, &texts, 1, 1, None, &asked);
    assert!(matches!(taken, StatusLine::Question), "a question takes the line");
    let elsewhere = StatusState { question: Some(Rect::new(0, 3, 60, 1)), ..STATE };
    assert_eq!(drawn(elsewhere).1.len(), drawn(STATE).1.len());
}

#[test]
fn the_status_line_is_written_from_left_to_right() {
    let status = Rect::new(0, 9, 60, 1);
    let (left, right) = ("main.rs", "1:1  LF");
    let parts = status_parts(status, &facts(left, right));
    let hovered = Some(Target::StatusSearch);
    let pieces = line(status, &parts, left, right, hovered, STATE).1;
    let written: Vec<(u16, &str, Look)> =
        pieces.iter().map(|piece| (piece.start, piece.text.as_str(), piece.look)).collect();
    assert_eq!(
        written,
        vec![
            (0, " F ", Look::Button(false)),
            (3, " / ", Look::Button(true)),
            (6, "main.rs", Look::Line),
            (57, " x ", Look::Button(false)),
            (49, "1:1  LF", Look::Line),
        ]
    );
}

#[test]
fn the_right_half_is_dropped_rather_than_drawn_over_the_left() {
    let status = Rect::new(0, 0, 24, 1);
    let (left, right) = ("a_long_name.rs", "1:1  LF");
    let parts = status_parts(status, &facts(left, right));
    let pieces = line(status, &parts, left, right, None, STATE).1;
    assert!(pieces.iter().all(|piece| piece.text != right), "{pieces:?}");
}

#[test]
fn a_status_line_with_no_rows_has_no_parts() {
    let parts = status_parts(Rect::new(0, 0, 60, 0), &facts("a", "b"));
    assert_eq!((parts.files, parts.search, parts.close), (None, None, None));
    let asked = StatusFacts { prompt: true, ..facts("a", "b") };
    let parts = status_parts(Rect::new(0, 0, 60, 1), &asked);
    assert_eq!((parts.files, parts.search, parts.close), (None, None, None));
}

#[test]
fn the_undo_button_is_after_what_was_done() {
    let status = Rect::new(0, 0, 60, 1);
    let done = StatusFacts { undo: true, ..facts("Renamed it", "1:1  LF") };
    let parts = status_parts(status, &done);
    assert_eq!(parts.undo, Some(Rect::new(6 + 10 + 2, 0, 6, 1)));
    assert_eq!(undo_label(true), " Redo ");
}

#[test]
fn a_wide_character_is_not_split_across_the_edge() {
    let area = Rect::new(2, 0, 5, 1);
    assert_eq!(write_at(area, 2, &vec![1, 2, 1, 1]), vec![2, 3, 5, 6]);
    assert_eq!(write_at(area, 2, &vec![2, 2, 2]), vec![2, 4], "the third would stick out");
    assert_eq!(write_at(area, 7, &vec![1]), Vec::<u16>::new());
}

#[test]
fn a_question_is_written_with_its_buttons_and_the_caret_of_its_field() {
    let area = Rect::new(0, 3, 40, 1);
    let labels = vec!["Save".to_string(), "Cancel".to_string()];
    let areas = vec![Rect::new(20, 3, 6, 1), NOWHERE];
    let hovered = Some(Target::PromptButton(0));
    let asked = render_prompt(area, "Name: x", 7, true, &labels, &areas, hovered);
    assert_eq!(asked.caret, Some(7));
    let written: Vec<(u16, &str, Look)> =
        asked.pieces.iter().map(|piece| (piece.start, piece.text.as_str(), piece.look)).collect();
    assert_eq!(
        written,
        vec![(0, "Name: x", Look::Line), (20, " Save ", Look::Button(true))],
        "a button with no room is left out"
    );
    let full = render_prompt(area, "Name: x", 40, true, &labels, &areas, None);
    assert_eq!(full.caret, None, "no room for it");
    let plain = render_prompt(area, "Sure?", 5, false, &labels, &areas, None);
    assert_eq!(plain.caret, None);
}

#[test]
fn a_command_is_named_where_it_is_bound_to_nothing() {
    assert_eq!(binding_for(&vec!["Ctrl+S".to_string(), "F2".to_string()], "Save"), "Ctrl+S");
    assert_eq!(binding_for(&Vec::new(), "Save"), "Save");
}

#[test]
fn a_menu_is_over_everything_else() {
    let mut app = App::new(None, false, &nothing_laid());
    let menu = Menu {
        commands: vec![Command::Undo, Command::Redo],
        area: Rect::new(10, 5, 12, 2),
    };
    app.open_menu(menu, &nothing_laid());
    assert_eq!(hit_at(&app.hits, 11, 6).unwrap().target, Target::MenuItem(1));
    assert_eq!(hit_at(&app.hits, 0, 0).unwrap().target, Target::MenuOutside);
}

fn landing(line: usize, scroll: usize, height: usize) -> Landing {
    let above = line.saturating_sub(3);
    let view = |top: usize| CaretView {
        height,
        line,
        top,
        rows: line.saturating_sub(top),
        last: (line + 1).saturating_sub(height),
    };
    Landing {
        line,
        rows: line.saturating_sub(scroll),
        height,
        above,
        kept: view(scroll),
        moved: view(above),
    }
}

#[test]
fn a_place_gone_to_has_a_few_lines_above_it() {
    let mut app = App::new(None, false, &nothing_laid());
    app.show_with_context(&landing(50, 0, 20));
    assert_eq!(app.scroll(), 47, "below the screen");
    app.show_with_context(&landing(55, 47, 20));
    assert_eq!(app.scroll(), 47, "on screen with room above");
    app.show_with_context(&landing(48, 47, 20));
    assert_eq!(app.scroll(), 45, "on screen, but too near the top");
    app.show_with_context(&landing(10, 45, 20));
    assert_eq!(app.scroll(), 7, "above the screen");
    app.show_with_context(&landing(1, 7, 20));
    assert_eq!(app.scroll(), 0, "as many as there are");
    app.show_with_context(&landing(50, 0, 2));
    assert_eq!(app.scroll(), 49, "the caret is on screen whatever happens");
}

#[test]
fn what_a_command_came_to_is_said() {
    let mut app = App::new(None, false, &nothing_laid());
    app.text_changed(TextResult::Done);
    assert_eq!(app.message(), None);
    let cases = [
        (TextResult::NoOther, "No other occurrence of that."),
        (TextResult::Nothing, "Nothing to select every occurrence of."),
        (TextResult::TooMany(500), "More than 500 occurrences; left the selection as it was."),
        (TextResult::OneLine, "The selection is already on one line."),
    ];
    for (result, said) in cases {
        app.text_changed(result);
        assert_eq!(app.message().as_deref(), Some(said));
    }
}

#[test]
fn a_card_keeps_off_the_status_line_and_its_parts_are_over_it() {
    assert_eq!(card_bounds(Rect::new(0, 0, 80, 24)), Rect::new(0, 0, 80, 23));
    assert_eq!(card_bounds(Rect::new(0, 0, 80, 0)), Rect::new(0, 0, 80, 0));
    let hits = layout_card(
        Rect::new(5, 5, 20, 6),
        &vec![Rect::new(6, 10, 6, 1), Rect::new(13, 10, 6, 1)],
        &vec![(3, Rect::new(6, 7, 4, 1))],
    );
    assert_eq!(hit_at(&hits, 14, 10).unwrap().target, Target::CardButton(1));
    assert_eq!(hit_at(&hits, 7, 7).unwrap().target, Target::CardLink(3));
    assert_eq!(hit_at(&hits, 20, 6).unwrap().target, Target::Card);
    assert!(hit_at(&hits, 0, 0).is_none());
}

#[test]
fn a_row_of_a_column_is_counted_from_its_top() {
    let column = Rect::new(9, 3, 1, 4);
    assert_eq!(row_of(column, 3), Some(0));
    assert_eq!(row_of(column, 6), Some(3));
    assert_eq!(row_of(column, 7), None);
    assert_eq!(row_of(column, 2), None);
}

#[test]
fn the_first_problem_on_a_symbol_is_the_one_said() {
    let mark = |start, end| Mark { start, end, severity: Severity::Error };
    let marks = vec![mark(0, 3), mark(5, 9), mark(6, 7)];
    assert_eq!(problems_on(&marks, 6, 8), Some(1));
    assert_eq!(problems_on(&marks, 3, 5), None);
    assert_eq!(problems_on(&vec![mark(4, 4)], 4, 6), Some(0), "an empty one is where it is");
    assert_eq!(no_file("file:///"), "file:/// is not a file nun can open.");
}

// ── completion's popup ──────────────────────────────────────────────────────

fn item(label: &str) -> Item {
    Item {
        label: label.to_string(),
        kind: Some(ItemKind::Function),
        detail: None,
        documentation: None,
        label_detail: None,
        label_description: None,
        deprecated: false,
        preselect: false,
        additional: None,
        word_start: None,
    }
}

fn popup(items: Vec<Item>) -> Popup {
    let text = Rope::from_str("pr");
    let here = Here {
        doc: 0,
        text: &text,
        carets: 1,
        primary: Selection::caret(2),
        typing: true,
    };
    let mut completion = Completion::new();
    let pending = Some(Pending { id: 4, version: 1 });
    completion.popup = Some(Popup::open(&here, 0, true, pending));
    assert_eq!(completion.completion_answer(4, 0, 1, 0), Answered::Items(4));
    let count = items.len();
    let taken = completion.completion_items(Ok((items, false)), 4, &here);
    let shown = (0..count).map(|index| Shown { index, matched: vec![0] }).collect();
    completion.filtered(taken.query.unwrap(), shown);
    completion.popup.unwrap()
}

#[test]
fn the_item_looked_at_is_asked_about_once() {
    let documented = Item {
        documentation: Some("Prints.".to_string()),
        detail: Some("macro".to_string()),
        ..item("println")
    };
    let mut popup = popup(vec![item("print"), documented]);
    assert_eq!(popup.resolve_preview(None, true), Some(0));
    assert_eq!(popup.resolve_preview(None, true), None, "once");
    assert_eq!(popup.resolve_preview(Some(1), true), None, "nothing is missing");
    assert_eq!(popup.resolving_now(8, 0), None);
    assert_eq!(popup.resolving_now(9, 1), Some(8), "the one before is taken back");

    let mut completion = Completion::new();
    completion.popup = Some(popup);
    assert_eq!(completion.completion_answer(9, 0, 1, 0), Answered::Item(1));
    let more = Resolved {
        documentation: Some("Prints a line.".to_string()),
        detail: None,
        additional: None,
    };
    assert_eq!(completion.item_resolved(1, Some(more)), Outcome::Redraw);
    let popup = completion.popup.as_ref().unwrap();
    assert_eq!(popup.items[1].documentation.as_deref(), Some("Prints a line."));
    assert_eq!(popup.items[1].detail.as_deref(), Some("macro"), "kept");
    assert_eq!(docs_of(&popup.items[1]), "macro\n\nPrints a line.");
    assert_eq!(completion.item_resolved(7, None), Outcome::Continue);
}

#[test]
fn an_answer_about_another_version_is_nobody_s() {
    let text = Rope::from_str("pr");
    let here =
        Here { doc: 0, text: &text, carets: 1, primary: Selection::caret(2), typing: true };
    let mut completion = Completion::new();
    let pending = Some(Pending { id: 4, version: 1 });
    completion.popup = Some(Popup::open(&here, 0, true, pending));
    assert_eq!(completion.completion_answer(9, 0, 1, 0), Answered::Nothing);
    assert_eq!(completion.completion_answer(4, 0, 2, 0), Answered::Nothing);
}

#[test]
fn rows_are_drawn_as_far_as_there_are_any() {
    let popup = popup(vec![item("print"), item("println")]);
    let rows = popup.suggestions(1, 10);
    assert_eq!(rows.len(), 1);
    assert_eq!(rows[0].label, "println");
    assert_eq!(rows[0].matched, vec![0]);
    assert!(popup.suggestions(2, 10).is_empty());
}

#[test]
fn a_snippet_knows_where_it_is() {
    let rope = Rope::from_str("one\n  two\nthree");
    let path = PathParts {
        path: "/x/a.rs".to_string(),
        name: "a.rs".to_string(),
        stem: "a".to_string(),
        parent: "/x".to_string(),
    };
    let known = variables(&rope, 8, "tw", &Some(path));
    let of = |name: &str| known.iter().find(|(known, _)| *known == name).unwrap().1.clone();
    assert_eq!(of("TM_LINE_INDEX"), "1");
    assert_eq!(of("TM_LINE_NUMBER"), "2");
    assert_eq!(of("TM_CURRENT_LINE"), "  two");
    assert_eq!(of("TM_CURRENT_WORD"), "tw");
    assert_eq!(of("TM_FILENAME_BASE"), "a");
    assert_eq!(of("TM_DIRECTORY"), "/x");
    assert_eq!(variables(&rope, 8, "tw", &None).len(), 5);
}

// ── panels ──────────────────────────────────────────────────────────────────

#[test]
fn a_fixed_list_is_filtered_by_what_is_typed() {
    let mut finder = Finder::new();
    let rows = vec![note("one"), note("two"), note("three")];
    finder.open_choices("3 things".to_string(), rows, Focus::Editor);
    assert!(matches!(finder.refresh_palette(true), Wanted::Choices(query) if query.is_empty()));
    let found = vec![
        Found { index: 2, matched: vec![0] },
        Found { index: 1, matched: vec![0] },
    ];
    finder.choices_found(&found);
    let palette = finder.palette.as_ref().unwrap();
    let labels: Vec<&str> = palette.rows.iter().map(|row| row.entry.label.as_str()).collect();
    assert_eq!(labels, vec!["three", "two"]);
    assert!(!finder.palette_wants_symbols());
    finder.open_palette("@x", Focus::Editor, true);
    assert!(finder.palette_wants_symbols());
    assert_ne!(Mode::Files.placeholder(), Mode::Commands.placeholder());
}

#[test]
fn an_empty_list_of_references_does_not_scroll() {
    let mut listing = Listing::new();
    assert_eq!(listing.references_scroll(true, 10), Outcome::Redraw);
    assert_eq!(listing.scroll, 0);
    assert_eq!(listing.step_reference(true, 10).map(|place| place.path), None);
}

#[test]
fn colours_are_taken_from_the_parse_waited_for() {
    let rope = Rope::from_str("new\n");
    let mut app = App::new(Some("a.txt".to_string()), false, &nothing_laid());
    let spelled = Some("a.txt".to_string());
    let toggle = app.toggle_diff(2, spelled, true, &rope);
    let Toggle::Open(version, serial) = toggle else { panic!("{toggle:?}") };
    assert_eq!(app.focus, Focus::Diff);
    app.focus = Focus::Editor;
    assert!(app.diffing.diff_in(2, Some(0)));
    assert!(!app.diffing.diff_in(1, Some(0)));
    assert!(!app.diffing.diff_in(2, Some(1)));
    assert_eq!(app.diffing.diff_highlight(true), None, "nothing to colour yet");

    let hunk = Hunk { before_start: 0, before_end: 1, after_start: 0, after_end: 1 };
    let diff = Diff {
        base: "old\n".to_string(),
        hunks: vec![hunk],
        olds: vec!["old\n".to_string()],
    };
    let rows = vec![DiffRow { hunk: Some(0), header: false, line: Some(0) }];
    let compared = app.diffing.compared(version, serial, Against::Index, &Some(diff));
    assert!(matches!(compared, Compared::Draw { base_changed: true, top: None }));
    let diff = Diff {
        base: "old\n".to_string(),
        hunks: vec![hunk],
        olds: vec!["old\n".to_string()],
    };
    app.diffing.draw(version, diff, rows, 0, 10, true);
    let (old, new) = app.diffing.diff_highlight(true).unwrap();
    let old = old.expect("the old version is parsed too");
    assert_ne!(old, new);
    assert!(app.diffing.diff_syntax(true, old));
    assert!(app.diffing.diff_syntax(false, new));
    assert!(!app.diffing.diff_syntax(false, old));
    assert_eq!(app.diffing.diff_highlight(false).unwrap().0, None, "the base has not changed");

    assert_eq!(app.diff_press(), Some(2));
    assert_eq!(app.focus, Focus::Diff);
    app.diffing = Diffing::new();
    assert_eq!(app.diff_press(), None);
}

#[test]
fn asking_for_completions_gives_the_text_the_keyboard() {
    let mut app = App::new(None, false, &nothing_laid());
    app.focus = Focus::Sidebar;
    assert_eq!(app.complete_here(), Outcome::Redraw);
    assert_eq!(app.focus, Focus::Editor);
    assert_eq!(app.completion.wanted, Some(Trigger::Invoked));
}

#[test]
fn characters_are_what_unicode_says_they_are() {
    for ch in '\0'..=char::MAX {
        assert_eq!(is_whitespace(ch), ch.is_whitespace(), "{ch:?}");
        assert_eq!(is_control(ch), ch.is_control(), "{ch:?}");
    }
}

#[test]
fn the_palette_has_the_keyboard_and_gives_it_back() {
    let mut app = App::new(None, false, &nothing_laid());
    app.focus = Focus::Sidebar;
    assert!(app.open_palette("", true), "the project is to be listed");
    assert_eq!(app.focus, Focus::Editor);
    // What is picked is run as if the text had the keyboard all along.
    assert!(matches!(app.run(Command::Undo), Task::Undo));
    assert_eq!(app.close_palette(), Outcome::Redraw);
    assert_eq!(app.focus, Focus::Sidebar);
    assert!(matches!(app.run(Command::Undo), Task::UndoFile));
}

#[test]
fn the_chooser_takes_the_place_of_what_was_being_said() {
    let mut app = App::new(None, false, &nothing_laid());
    app.messages.say("Asking for code actions…".to_string());
    app.chooser_answered(Err("it broke".to_string()));
    assert_eq!(app.message().as_deref(), Some("No code actions: it broke. Try again."));
    app.chooser_answered(Ok(Vec::new()));
    assert_eq!(app.message().as_deref(), Some("No code actions here."));

    let form = Form::Command("Fix it".to_string());
    let offer = Offered { doc: 0, version: 1, which: 0, form };
    app.focus = Focus::Sidebar;
    app.chooser_answered(Ok(vec![offer]));
    assert_eq!(app.message(), None);
    assert_eq!(app.focus, Focus::Editor);
    let choices = app.finder.palette.as_ref().unwrap().choices.as_ref().unwrap();
    assert_eq!(choices.title, "1 code action — pick one");
    assert_eq!(choices.rows[0].entry.label, "Fix it");
    assert_eq!(app.code_actions.chosen.len(), 1);
}
