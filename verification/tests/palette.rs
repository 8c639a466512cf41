use nun::app::{App, Laid};
use nun::commands::Command;
use nun::geometry::Rect;
use nun::hits::hit_at;
use nun::input::{KeyCode, KeyEvent, KeyKind, Modifiers};
use nun::outcome::Outcome;
use nun::palette::{
    command_rows, layout_palette, line_rows, symbol_rows, FileFound, Found, KeyTask,
    Listed, Mode, NoOutline, Pick, Picked, Row, Symbol, Wanted,
};
use nun::pointing::ClickTask;
use nun::status::{status_parts, StatusFacts, StatusParts};
use nun::target::{Focus, Target};

/// What has been done outside the palette.
#[derive(Debug, PartialEq)]
enum Did {
    Opened(String, bool),
    Ran(Command),
    Line(usize),
    At(u32),
}

/// An editor on a project, with its files listed and searched as it asks.
struct Project {
    app: App,
    files: Vec<String>,
    lines: usize,
    did: Vec<Did>,
    listings: usize,
    waiting: Option<(String, u64)>,
}

const AREA: Rect = Rect { x: 10, y: 1, width: 60, height: 12 };
const VISIBLE: u16 = 10;

fn nothing_laid() -> Laid {
    Laid {
        text: Rect::new(0, 0, 0, 0),
        gutter: 0,
        sidebar: Vec::new(),
        search: Vec::new(),
        references: Vec::new(),
        edit_preview: Vec::new(),
        panes: Vec::new(),
        diagnostics: Vec::new(),
        card: Vec::new(),
        completion: Vec::new(),
        palette: Vec::new(),
        status: StatusParts {
            files: None,
            search: None,
            undo: None,
            close: None,
            lsp: None,
            problems: None,
            text: 0,
        },
        prompt: Vec::new(),
    }
}

/// Where the letters of `query` are in `label`, in order.
fn matched(label: &str, query: &str) -> Option<Vec<u32>> {
    let label: Vec<char> = label.to_lowercase().chars().collect();
    let query: Vec<char> = query.to_lowercase().chars().collect();
    if query.is_empty() {
        return Some(Vec::new());
    }
    let together = label.windows(query.len()).position(|window| window == query);
    if let Some(at) = together {
        return Some((at..at + query.len()).map(|at| u32::try_from(at).unwrap()).collect());
    }
    let mut found = Vec::new();
    let mut at = 0;
    for wanted in query {
        let step = label[at..].iter().position(|ch| *ch == wanted)?;
        found.push(u32::try_from(at + step).unwrap());
        at += step + 1;
    }
    Some(found)
}

fn commands() -> Vec<Listed> {
    let one = |command, title: &str, binding: &str| Listed {
        command,
        title: title.to_string(),
        binding: binding.to_string(),
    };
    vec![
        one(Command::Save, "Save", "Ctrl+S"),
        one(Command::SplitBeside, "Split beside", "Ctrl+K V"),
        one(Command::Undo, "Undo", "Ctrl+Z"),
    ]
}

impl Project {
    fn new(files: &[&str]) -> Project {
        let mut app = App::new(None, false, &nothing_laid());
        app.set_viewport(Rect::new(0, 0, 80, 20));
        Project {
            app,
            files: files.iter().map(|name| name.to_string()).collect(),
            lines: 1,
            did: Vec::new(),
            listings: 0,
            waiting: None,
        }
    }

    fn refresh(&mut self) {
        match self.app.finder.refresh_palette(true) {
            Wanted::Nothing => {},
            Wanted::Files(query, generation) => self.waiting = Some((query, generation)),
            Wanted::Commands(query) => {
                let all = commands();
                let found: Vec<Found> = (0..all.len())
                    .filter_map(|index| {
                        matched(&all[index].title, &query).map(|matched| Found { index, matched })
                    })
                    .collect();
                self.app.finder.show_rows(command_rows(&all, &found));
            },
            Wanted::Line(query) => self.app.finder.show_rows(line_rows(&query, self.lines)),
            other => panic!("{other:?}"),
        }
    }

    fn settle(&mut self) {
        let Some((query, generation)) = self.waiting.take() else { return };
        let results = self
            .files
            .iter()
            .filter_map(|label| {
                matched(label, &query).map(|matched| FileFound {
                    label: label.clone(),
                    full: format!("/project/{label}"),
                    open: false,
                    score: 40,
                    matched,
                })
            })
            .collect();
        self.app.finder.palette_found(&query, generation, results);
    }

    fn picked(&mut self, done: Picked) -> Outcome {
        match done {
            Picked::Ignore => return Outcome::Continue,
            Picked::Stay => {},
            Picked::Refresh => self.refresh(),
            Picked::File(path, split) => self.did.push(Did::Opened(path, split)),
            Picked::Run(command) => self.did.push(Did::Ran(command)),
            Picked::Line(line) => self.did.push(Did::Line(line)),
            Picked::At(at) => self.did.push(Did::At(at)),
            other => panic!("{other:?}"),
        }
        Outcome::Redraw
    }

    fn press(&mut self, code: KeyCode, modifiers: Modifiers) {
        let event = KeyEvent { code, modifiers, kind: KeyKind::Press };
        match self.app.finder.palette_key(&event, usize::from(VISIBLE)) {
            KeyTask::Ignore | KeyTask::Draw => {},
            KeyTask::Close => self.close(),
            KeyTask::Refresh => self.refresh(),
            KeyTask::Pick { index, split } => {
                let done = self.app.finder.pick_row(index, split);
                self.picked(done);
            },
        }
    }

    fn key(&mut self, code: KeyCode) {
        self.press(code, Modifiers::none());
        self.settle();
    }

    fn close(&mut self) {
        self.app.close_palette();
    }

    fn type_text(&mut self, text: &str) {
        for ch in text.chars() {
            self.key(KeyCode::Char(ch));
        }
    }

    fn open(&mut self, prefix: &str) {
        let list = self.app.open_palette(prefix, true);
        assert_eq!(self.app.focus, Focus::Editor, "nothing behind it has the keyboard");
        if list {
            self.listings += 1;
            if self.app.finder.palette_listed(self.files.len()) {
                self.refresh();
            }
        } else {
            self.refresh();
        }
        self.settle();
    }

    fn click_with(&mut self, column: u16, row: u16, alt: bool) {
        let palette = self.app.finder.palette.as_ref().unwrap();
        let hits = layout_palette(palette, self.app.viewport, AREA, VISIBLE);
        let target = hit_at(&hits, column, row).unwrap().target;
        match self.app.click(target, false, alt, false).task {
            ClickTask::Pick { row, split } => {
                let done = self.app.finder.pick_row(row, split);
                self.picked(done);
            },
            ClickTask::ClosePalette => self.close(),
            other => panic!("{other:?}"),
        }
        self.settle();
    }

    fn click(&mut self, column: u16, row: u16) {
        self.click_with(column, row, false);
    }

    fn rows(&self) -> &Vec<Row> {
        &self.app.finder.palette.as_ref().unwrap().rows
    }

    fn labels(&self) -> Vec<String> {
        match &self.app.finder.palette {
            Some(palette) => palette.rows.iter().map(|row| row.entry.label.clone()).collect(),
            None => Vec::new(),
        }
    }

    fn is_open(&self) -> bool {
        self.app.finder.palette.is_some()
    }

    fn opened(&self) -> Option<&str> {
        match self.did.last() {
            Some(Did::Opened(path, _)) => Some(path.as_str()),
            _ => None,
        }
    }
}

#[test]
fn the_palette_offers_the_project_files_and_opens_the_one_picked() {
    let mut t = Project::new(&["src/main.rs", "README.md"]);
    t.open("");

    assert_eq!(t.labels().len(), 2, "{:?}", t.labels());
    t.type_text("main");
    assert_eq!(t.labels(), vec!["src/main.rs"]);

    t.key(KeyCode::Enter);
    assert!(!t.is_open(), "picking closes it");
    assert_eq!(t.opened(), Some("/project/src/main.rs"));
}

#[test]
fn the_matched_characters_are_marked_for_highlighting() {
    let mut t = Project::new(&["src/main.rs"]);
    t.open("");
    t.type_text("main");

    let matched = t.rows()[0].entry.matched.clone();
    let label = t.labels()[0].clone();
    let letters: String =
        matched.iter().map(|index| label.chars().nth(*index as usize).unwrap()).collect();
    assert_eq!(letters, "main");
}

#[test]
fn commands_are_a_prefix_away_and_show_their_keys() {
    let mut t = Project::new(&["a.rs"]);
    t.open(">");
    t.type_text("split bes");

    let rows = t.rows();
    assert_eq!(rows[0].entry.label, "Split beside");
    assert_eq!(rows[0].entry.hint, "Ctrl+K V", "the palette is the keymap reference");

    t.key(KeyCode::Enter);
    assert_eq!(t.did, vec![Did::Ran(Command::SplitBeside)], "and it ran");
}

#[test]
fn a_line_number_goes_to_that_line() {
    let mut t = Project::new(&["long.rs"]);
    t.lines = 51;
    t.open(":");
    t.type_text("30");
    t.key(KeyCode::Enter);
    assert_eq!(t.did, vec![Did::Line(30)], "counting from one");
}

#[test]
fn the_help_prefix_lists_the_prefixes() {
    let mut t = Project::new(&["a.rs"]);
    t.open("?");
    let hints: Vec<String> = t.rows().iter().map(|row| row.entry.hint.clone()).collect();
    assert!(hints.contains(&">".to_string()), "{hints:?}");
    assert!(hints.contains(&":".to_string()), "{hints:?}");
}

#[test]
fn project_symbols_say_when_they_arrive() {
    let mut t = Project::new(&["a.rs"]);
    t.open("#");
    assert!(t.labels()[0].contains("language servers"), "{:?}", t.labels());
}

#[test]
fn a_file_opened_before_comes_first_among_equals() {
    let mut t = Project::new(&["one/thing.rs", "two/thing.rs"]);

    // Open the second one through the palette, which is a vote for it.
    t.open("");
    t.type_text("two/thing");
    t.key(KeyCode::Enter);

    t.open("");
    t.type_text("thing");
    assert_eq!(t.labels()[0], "two/thing.rs", "{:?}", t.labels());
}

#[test]
fn the_keyboard_and_the_wheel_both_move_through_the_results() {
    let files: Vec<String> = (0..30).map(|index| format!("file{index}.rs")).collect();
    let names: Vec<&str> = files.iter().map(String::as_str).collect();
    let mut t = Project::new(&names);
    t.open("");

    t.key(KeyCode::Down);
    t.key(KeyCode::Down);
    assert_eq!(t.app.finder.palette.as_ref().unwrap().selected, 2);

    t.key(KeyCode::End);
    let last = t.app.finder.palette.as_ref().unwrap().selected;
    assert_eq!(last, t.labels().len() - 1);
    assert!(t.app.finder.palette.as_ref().unwrap().scroll > 0, "the view followed it down");

    t.key(KeyCode::Home);
    assert_eq!(t.app.finder.palette.as_ref().unwrap().scroll, 0);

    assert_eq!(t.app.finder.palette_scroll(true, usize::from(VISIBLE)), Outcome::Redraw);
    assert!(t.app.finder.palette.as_ref().unwrap().scroll > 0, "the wheel scrolls it");
    assert_eq!(t.app.finder.palette.as_ref().unwrap().scroll, 3);
}

#[test]
fn a_click_picks_a_row_and_a_click_outside_puts_it_away() {
    let mut t = Project::new(&["src/main.rs", "README.md"]);
    t.open("");
    t.type_text("readme");

    t.click(AREA.x + 2, AREA.y + 2);
    assert!(!t.is_open());
    assert_eq!(t.opened(), Some("/project/README.md"));

    t.open("");
    t.click(0, 19);
    assert!(!t.is_open(), "a click outside closes it");
}

#[test]
fn alt_enter_opens_the_file_in_a_split() {
    let mut t = Project::new(&["a.rs", "b.rs"]);
    t.open("");
    t.type_text("b.rs");

    t.press(KeyCode::Enter, Modifiers { alt: true, ..Modifiers::none() });
    assert_eq!(t.did, vec![Did::Opened("/project/b.rs".to_string(), true)], "it opened beside");
}

#[test]
fn escape_closes_it_and_leaves_the_text_alone() {
    let mut t = Project::new(&["a.rs"]);
    t.open("");
    t.type_text("abc");
    t.key(KeyCode::Esc);

    assert!(!t.is_open());
    assert!(t.did.is_empty(), "nothing was typed into the file");
}

#[test]
fn the_status_line_has_a_button_that_opens_it() {
    let mut t = Project::new(&["a.rs"]);
    let (_, status) = t.app.areas(None);
    let facts = StatusFacts {
        prompt: false,
        folder: true,
        undo: false,
        strip: false,
        left: 9,
        right: 15,
        left_chars: 9,
        right_chars: 15,
        server: None,
        counts: None,
    };
    let mut laid = nothing_laid();
    laid.status = status_parts(status, &facts);
    let search = laid.status.search.expect("a button is offered");
    t.app.relayout(&laid);

    let target = hit_at(&t.app.hits, search.x + 1, search.y).unwrap().target;
    assert_eq!(target, Target::StatusSearch);
    assert!(matches!(t.app.click(target, false, false, false).task, ClickTask::OpenPalette));
    t.open("");
    assert!(t.is_open());
}

#[test]
fn the_project_is_walked_once_however_often_the_palette_opens() {
    let mut t = Project::new(&["a.rs", "b.rs"]);
    t.open("");
    assert_eq!(t.app.finder.file_count, Some(2));

    t.app.finder.file_count = Some(99);
    t.open("");
    t.open(">");
    assert_eq!(t.app.finder.file_count, Some(99), "it was not listed again");
    assert_eq!(t.listings, 1);
}

#[test]
fn the_keyboard_goes_back_where_it_was() {
    let mut t = Project::new(&["a.rs"]);
    t.app.focus = Focus::Sidebar;

    t.open("");
    t.key(KeyCode::Esc);
    assert_eq!(t.app.focus, Focus::Sidebar, "the tree had it before");
}

#[test]
fn a_row_from_an_older_keystroke_cannot_be_picked() {
    let mut t = Project::new(&["a.rs", "b.rs"]);
    t.open("");
    t.type_text("a");

    // Type another letter without an answer: the rows on screen are now from
    // the keystroke before.
    t.press(KeyCode::Char('b'), Modifiers::none());
    let done = t.app.finder.pick_row(0, false);
    assert_eq!(t.picked(done), Outcome::Continue, "stale rows do nothing");
    assert!(t.is_open(), "and the palette stays up");

    t.settle();
    let done = t.app.finder.pick_row(0, false);
    assert_eq!(t.picked(done), Outcome::Redraw, "the answer makes them live again");
}

#[test]
fn the_help_list_is_the_way_into_every_mode_with_the_mouse() {
    let mut t = Project::new(&["a.rs"]);
    t.open("?");

    let commands = t.rows().iter().position(|row| row.entry.hint == ">").unwrap();
    t.click(AREA.x + 2, AREA.y + 2 + u16::try_from(commands).unwrap());

    assert_eq!(t.app.finder.palette.as_ref().unwrap().query, ">", "it went to the commands");
    assert!(!t.labels().is_empty());
}

#[test]
fn alt_clicking_a_row_opens_it_in_a_split() {
    let mut t = Project::new(&["a.rs", "b.rs"]);
    t.open("");
    t.type_text("b.rs");

    t.click_with(AREA.x + 2, AREA.y + 2, true);
    assert_eq!(t.did, vec![Did::Opened("/project/b.rs".to_string(), true)]);
}

#[test]
fn each_prefix_is_a_mode_of_its_own() {
    let cases = [
        ("main", Mode::Files, "main"),
        (">split", Mode::Commands, "split"),
        (":12", Mode::Line, "12"),
        ("@name", Mode::Symbols, "name"),
        ("#name", Mode::ProjectSymbols, "name"),
        ("?", Mode::Help, ""),
        ("", Mode::Files, ""),
        ("a>b", Mode::Files, "a>b"),
    ];
    for (query, mode, rest) in cases {
        assert_eq!(Mode::of(query), (mode, rest.to_string()), "{query}");
    }
}

#[test]
fn a_line_past_the_end_is_the_last_one() {
    let rows = line_rows(" 900 ", 20);
    assert_eq!(rows[0].entry.label, "Line 20");
    assert_eq!(rows[0].entry.hint, "of 20");
    assert!(matches!(rows[0].pick, Pick::Line(20)));

    let rows = line_rows("0", 20);
    assert!(matches!(rows[0].pick, Pick::Line(1)));

    let rows = line_rows("x", 20);
    assert_eq!(rows[0].entry.label, "Type a line number, 1 to 20");
    assert!(matches!(rows[0].pick, Pick::Nothing));
}

#[test]
fn nothing_found_says_so_and_an_older_answer_is_dropped() {
    let mut t = Project::new(&["a.rs"]);
    t.open("");
    t.type_text("zzz");
    assert_eq!(t.labels(), vec!["No file matches that"]);

    let stale = t.app.finder.palette_found("zz", 1, Vec::new());
    assert_eq!(stale, Outcome::Continue);
    assert_eq!(t.labels(), vec!["No file matches that"]);
}

#[test]
fn backspace_takes_a_whole_cluster_and_closes_an_empty_palette() {
    let mut t = Project::new(&["a.rs"]);
    t.open("");
    t.app.finder.palette_paste("ab\r\ne\u{301}");
    assert_eq!(t.app.finder.palette.as_ref().unwrap().query, "abe\u{301}", "on one line");

    t.key(KeyCode::Backspace);
    assert_eq!(t.app.finder.palette.as_ref().unwrap().query, "ab", "a letter and its accent");
    t.key(KeyCode::Backspace);
    t.key(KeyCode::Backspace);
    assert!(t.is_open());
    t.key(KeyCode::Backspace);
    assert!(!t.is_open());
}

#[test]
fn without_a_folder_there_is_nothing_to_list() {
    let mut app = App::new(None, false, &nothing_laid());
    assert!(!app.finder.open_palette("", Focus::Editor, false));
    assert!(matches!(app.finder.refresh_palette(false), Wanted::Nothing));
    let label = app.finder.palette.as_ref().unwrap().rows[0].entry.label.clone();
    assert_eq!(label, "No folder is open — start nun on one: `nun .`");

    assert!(app.finder.open_palette("", Focus::Editor, true));
    assert!(matches!(app.finder.refresh_palette(true), Wanted::Nothing));
    let label = app.finder.palette.as_ref().unwrap().rows[0].entry.label.clone();
    assert_eq!(label, "Listing the project…");
}

fn symbol(name: &str, depth: usize, parent: Option<usize>, at: u32) -> Symbol {
    Symbol { name: name.to_string(), kind: "fn".to_string(), depth, parent, at }
}

#[test]
fn an_outline_keeps_what_a_match_is_declared_in() {
    let symbols = vec![
        symbol("Tree", 0, None, 4),
        symbol("grow", 1, Some(0), 20),
        symbol("fall", 1, Some(0), 40),
        symbol("other", 0, None, 60),
    ];
    let found = vec![Found { index: 1, matched: vec![0, 1] }];
    let rows = symbol_rows(&symbols, NoOutline::Nothing, "gr", &found);
    let labels: Vec<&str> = rows.iter().map(|row| row.entry.label.as_str()).collect();
    assert_eq!(labels, vec!["Tree", "  grow"]);
    assert_eq!(rows[1].entry.matched, vec![2, 3], "the indent moves what was matched");
    assert!(rows[0].entry.matched.is_empty());
    assert!(matches!(rows[1].pick, Pick::At(20)));

    let rows = symbol_rows(&symbols, NoOutline::Nothing, " ", &Vec::new());
    assert_eq!(rows.len(), 4, "nothing typed is everything");
}

#[test]
fn a_file_without_an_outline_says_why() {
    let cases = [
        (NoOutline::Reading, "Reading the file…"),
        (NoOutline::GaveUp, "This file's grammar gave up, so there is no outline of it"),
        (NoOutline::Nothing, "Nothing in this file declares anything nun can see"),
        (NoOutline::Unknown, "nun does not know this file's language"),
    ];
    for (why, said) in cases {
        let rows = symbol_rows(&Vec::new(), why, "x", &Vec::new());
        assert_eq!(rows.len(), 1);
        assert_eq!(rows[0].entry.label, said);
    }
}
