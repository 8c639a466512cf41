use nun::app::{App, Laid};
use nun::commands::Command;
use nun::geometry::Rect;
use nun::input::{Button, Event, KeyCode, KeyEvent, KeyKind, Modifiers, MouseKind};
use nun::jumps::{here, place_of, visit, Retrace, Spot, Tried, Visit};
use nun::keys::Task;
use nun::navigation::{
    name_at, no_server, nothing_listed, open_beside, open_doc_of, origin_of,
    still_the_text, word_at, AnswerTo, AskDefinition, Beside, Clicked, Definition, Link,
    LinkState, Linked, Location, Navigation, OpenFile, Underneath,
};
use nun::outcome::Outcome;
use nun::palette::{Found as Match, KeyTask, Picked, Wanted};
use nun::panels::ReferencesPress;
use nun::paths::label_of;
use nun::place::{Encoding, Open, Place, Position};
use nun::references::{named, Acted, Named, ViewRow};
use nun::status::StatusParts;
use nun::target::{Focus, Target};
use ropey::Rope;

const MAIN: &str = "fn main() {\n    helper();\n    other();\n}\n";
const LIB: &str = "// the library\npub fn helper() {}\n";

fn nothing_laid() -> Laid {
    Laid {
        text: Rect::new(0, 0, 0, 0),
        gutter: 0,
        sidebar: Vec::new(),
        search: Vec::new(),
        references: Vec::new(),
        edit_preview: Vec::new(),
        panes: Vec::new(),
        diagnostics: Vec::new(),
        card: Vec::new(),
        completion: Vec::new(),
        palette: Vec::new(),
        status: StatusParts {
            files: None,
            search: None,
            undo: None,
            close: None,
            lsp: None,
            problems: None,
            text: 0,
        },
        prompt: Vec::new(),
    }
}

struct Doc {
    id: usize,
    /// Where it is kept: nowhere for the empty buffer a split starts with.
    path: String,
    rope: Rope,
    caret: usize,
}

struct Pane {
    id: usize,
    tabs: Vec<usize>,
    active: usize,
}

/// An editor on a small project, opening its files as they are asked for.
struct Tester {
    app: App,
    docs: Vec<Doc>,
    panes: Vec<Pane>,
    focus: usize,
}

fn on_disk(path: &str) -> &'static str {
    match path {
        "/project/src/main.rs" => MAIN,
        "/project/src/lib.rs" => LIB,
        other => panic!("{other}"),
    }
}

impl Tester {
    fn new() -> Tester {
        let mut t = Tester {
            app: App::new(None, false, &nothing_laid()),
            docs: Vec::new(),
            panes: vec![Pane { id: 0, tabs: Vec::new(), active: 0 }],
            focus: 0,
        };
        t.open_in_tab("/project/src/main.rs");
        t
    }

    fn place(&self, name: &str, line: u32, character: u32) -> Place {
        Place {
            path: format!("/project/{name}"),
            start: Position { line, character },
            end: Position { line, character: character + 6 },
            encoding: Encoding::Utf16,
        }
    }

    fn named(&self, place: Place) -> Named {
        let open = self.docs.iter().any(|doc| doc.path == place.path);
        named(place, &vec!["/project".to_string()], open)
    }

    fn pane(&mut self, id: usize) -> &mut Pane {
        self.panes.iter_mut().find(|pane| pane.id == id).unwrap()
    }

    fn doc(&self) -> &Doc {
        let pane = self.panes.iter().find(|pane| pane.id == self.focus).unwrap();
        let id = pane.tabs[pane.active];
        self.docs.iter().find(|doc| doc.id == id).unwrap()
    }

    fn doc_mut(&mut self) -> &mut Doc {
        let id = self.doc().id;
        self.docs.iter_mut().find(|doc| doc.id == id).unwrap()
    }

    fn tab_of(&self, doc: usize) -> Option<(usize, usize)> {
        self.panes.iter().find_map(|pane| {
            pane.tabs.iter().position(|id| *id == doc).map(|tab| (pane.id, tab))
        })
    }

    fn select(&mut self, pane: usize, tab: usize) {
        self.focus = pane;
        self.pane(pane).active = tab;
    }

    fn open_in_tab(&mut self, path: &str) {
        let files: Vec<OpenFile> = self
            .docs
            .iter()
            .map(|doc| OpenFile { path: doc.path.clone(), resolved: Some(resolved(&doc.path)) })
            .collect();
        let path = open_doc_of(&files, &path.to_string()).unwrap_or_else(|| path.to_string());
        if let Some(doc) = self.docs.iter().find(|doc| doc.path == path) {
            if let Some((pane, tab)) = self.tab_of(doc.id) {
                self.select(pane, tab);
                return;
            }
        }
        let id = self.docs.iter().map(|doc| doc.id + 1).max().unwrap_or(0);
        let rope = Rope::from_str(on_disk(&path));
        // An empty buffer that was never anything gives way to what is opened.
        let shown = self.panes.iter().find(|pane| pane.id == self.focus).unwrap();
        if !shown.tabs.is_empty() && self.doc().path.is_empty() {
            let fresh = self.doc().id;
            self.drop_tab(self.focus, fresh);
        }
        self.docs.push(Doc { id, path, rope, caret: 0 });
        let focus = self.focus;
        let pane = self.pane(focus);
        pane.tabs.push(id);
        pane.active = pane.tabs.len() - 1;
    }

    fn drop_tab(&mut self, pane: usize, doc: usize) {
        let pane = self.pane(pane);
        pane.tabs.retain(|id| *id != doc);
        pane.active = pane.tabs.len().saturating_sub(1);
        self.docs.retain(|other| other.id != doc);
    }

    fn move_tab(&mut self, from: usize, tab: usize, to: usize) {
        let id = self.pane(from).tabs.remove(tab);
        let from = self.pane(from);
        from.active = from.active.min(from.tabs.len() - 1);
        self.pane(to).tabs.push(id);
    }

    fn split(&mut self) -> usize {
        let pane = self.panes.iter().map(|pane| pane.id).max().unwrap() + 1;
        let fresh = self.docs.iter().map(|doc| doc.id).max().unwrap() + 1;
        let rope = Rope::from_str("");
        self.docs.push(Doc { id: fresh, path: String::new(), rope, caret: 0 });
        self.panes.push(Pane { id: pane, tabs: vec![fresh], active: 0 });
        pane
    }

    fn open_beside(&mut self, path: &str) {
        let ids: Vec<usize> = self.panes.iter().map(|pane| pane.id).collect();
        let found = self.docs.iter().find(|doc| doc.path == path).map(|doc| doc.id);
        let existing = found.and_then(|id| self.tab_of(id));
        let current = found == Some(self.doc().id);
        let origin = self.focus;
        match open_beside(origin, &ids, existing, current) {
            Beside::Select(pane, tab) => self.select(pane, tab),
            Beside::Pane(pane, moved) => {
                self.focus = pane;
                if let Some(tab) = moved {
                    self.move_tab(origin, tab, pane);
                }
                self.open_in_tab(path);
            },
            Beside::Split(moved) => {
                self.focus = self.split();
                let fresh = self.doc().id;
                if let Some(tab) = moved {
                    self.move_tab(origin, tab, self.focus);
                    self.drop_tab(self.focus, fresh);
                }
                self.open_in_tab(path);
            },
        }
    }

    fn here(&self) -> Spot {
        let doc = self.doc();
        here(self.focus, doc.id, Some(doc.path.clone()), &doc.rope, doc.caret)
    }

    fn go_to(&mut self, place: &Place, open: Open) {
        let from = self.here();
        match open {
            Open::Here => self.open_in_tab(&place.path),
            Open::Beside => self.open_beside(&place.path),
        }
        let doc = self.doc_mut();
        let row = doc.rope.line(place.start.line as usize).to_string();
        let column = place.encoding.column(&row, place.start.character);
        doc.caret = doc.rope.line_to_char(place.start.line as usize) + column;
        self.app.go_to(from, true);
    }

    fn definition(&mut self, places: Vec<Place>, open: Open, word: &str) {
        let places: Vec<Named> = places.into_iter().map(|place| self.named(place)).collect();
        if let Some(place) = self.app.definition_found(&places, open, word) {
            self.go_to(&place, open);
        }
        self.refresh();
    }

    fn refresh(&mut self) {
        if let Wanted::Choices(query) = self.app.finder.refresh_palette(true) {
            let palette = self.app.finder.palette.as_ref().unwrap();
            let rows = &palette.choices.as_ref().unwrap().rows;
            let found: Vec<Match> = (0..rows.len())
                .filter(|index| rows[*index].entry.label.contains(&query))
                .map(|index| Match { index, matched: Vec::new() })
                .collect();
            self.app.finder.choices_found(&found);
        }
    }

    fn palette_key(&mut self, code: KeyCode) {
        let key = KeyEvent { code, modifiers: Modifiers::none(), kind: KeyKind::Press };
        match self.app.finder.palette_key(&key, 10) {
            KeyTask::Refresh => self.refresh(),
            KeyTask::Pick { index, split } => match self.app.finder.pick_row(index, split) {
                Picked::Place(place, open) => self.go_to(&place, open),
                other => panic!("{other:?}"),
            },
            other => panic!("{other:?}"),
        }
    }

    fn retrace(&mut self, back: bool) {
        let command = if back { Command::GoBack } else { Command::GoForward };
        match self.app.run(command) {
            Task::Back => assert!(back),
            Task::Forward => assert!(!back),
            other => panic!("{other:?}"),
        }
        let from = self.here();
        let mut tried = Tried::Nothing;
        loop {
            match self.app.retrace(back, &from, tried).0 {
                Retrace::Try(spot) => {
                    tried = if self.visit(&spot) { Tried::Reached } else { Tried::Missed };
                },
                Retrace::Done | Retrace::Nowhere(_) => return,
            }
        }
    }

    fn visit(&mut self, spot: &Spot) -> bool {
        let (pane, how) = visit(spot, self.tab_of(spot.doc));
        self.focus = pane;
        match how {
            Visit::Tab(pane, tab) => self.select(pane, tab),
            Visit::Open(path) => self.open_in_tab(&path),
            Visit::Gone => return false,
        }
        let doc = self.doc_mut();
        doc.caret = place_of(spot, &doc.rope);
        true
    }

    fn file(&self) -> String {
        self.doc().path.rsplit('/').next().unwrap().to_string()
    }

    fn caret(&self) -> (usize, usize) {
        let doc = self.doc();
        let line = doc.rope.char_to_line(doc.caret);
        (line, doc.caret - doc.rope.line_to_char(line))
    }

    fn at(&self, line: usize, column: usize) -> usize {
        self.doc().rope.line_to_char(line) + column
    }

    fn caret_at(&mut self, line: usize, column: usize) {
        let at = self.at(line, column);
        self.doc_mut().caret = at;
    }

    fn word(&self, at: usize) -> Option<(usize, usize)> {
        let rope = &self.doc().rope;
        let named = |at: usize| at < rope.len_chars() && nun::words::is_word(rope.char(at));
        let mut from = at;
        while from > 0 && named(from - 1) {
            from -= 1;
        }
        let mut to = at;
        while named(to) {
            to += 1;
        }
        word_at(rope, at, (from, to))
    }

    // ── with Ctrl held ──────────────────────────────────────────────────────

    /// Put a word on line 1 under a pointer with Ctrl held.
    fn rest_on_helper(&mut self) {
        let from = self.at(1, 4);
        let doc = self.doc().id;
        self.app.navigation.link =
            Some(Link { doc, from, to: from + 6, state: LinkState::Settling(0) });
    }

    /// Underline it, as a server that answered would have.
    fn link_helper(&mut self, span: Option<(usize, usize)>) {
        self.rest_on_helper();
        let place = self.place("src/lib.rs", 1, 7);
        let target = Location { path: Some(place.path), start: place.start, end: place.end };
        let origin = span.map(|_| (place.start, place.end));
        let found = Some(Definition::Link(vec![Linked { origin, target }]));
        assert_eq!(origin_of(&found), origin);
        self.app.navigation.link_found(found, Encoding::Utf16, span);
    }

    fn underlined(&self) -> String {
        let doc = self.doc();
        match self.app.navigation.underlined(doc.id) {
            Some((from, to)) => doc.rope.slice(from..to).to_string(),
            None => String::new(),
        }
    }

    fn moved(&mut self, column: usize, control: bool) {
        let at = self.at(1, column);
        let under = Underneath {
            over_text: true,
            doc: self.doc().id,
            at: Some(at),
            word: self.word(at),
            offers: true,
        };
        self.app.navigation.link_pointer(MouseKind::Moved, control, &under, 0);
    }

    fn ctrl_click(&mut self, column: usize, alt: bool, offers: bool) {
        let at = self.at(1, column);
        let doc = self.doc().id;
        let word = self.word(at).is_some();
        let navigation = &mut self.app.navigation;
        let (clicked, _) = navigation.definition_click(doc, at, 1, alt, false, word, offers);
        self.doc_mut().caret = at;
        match clicked {
            Clicked::Plain => {},
            Clicked::Known(places, open) => self.definition(places, open, "`helper`"),
            Clicked::Ask(open) => panic!("{open:?}"),
        }
    }

    // ── references ──────────────────────────────────────────────────────────

    fn list_helper(&mut self) {
        let places = vec![
            self.place("src/main.rs", 1, 4),
            self.place("src/lib.rs", 1, 7),
            self.place("src/main.rs", 1, 4),
        ];
        let places: Vec<Named> = places.into_iter().map(|place| self.named(place)).collect();
        self.app.messages.say("Finding references to `helper`…".to_string());
        assert!(self.app.references_found(&places, "`helper`", true));
        assert_eq!(self.app.message(), None, "they have been found");
        let listing = &mut self.app.navigation.listing;
        let wanted = listing.wanted(&vec![false; listing.groups.len()]);
        let lines = wanted
            .into_iter()
            .map(|(path, numbers)| {
                let all: Vec<&str> = on_disk(&path).lines().collect();
                let read = numbers.iter().map(|n| (*n, all[*n as usize].to_string())).collect();
                (path, read)
            })
            .collect();
        let generation = listing.generation;
        assert_eq!(listing.reference_lines(generation, &lines, "…"), Outcome::Redraw);
    }

    fn rows(&self) -> Vec<String> {
        let listing = &self.app.navigation.listing;
        listing
            .view_rows(0, listing.rows.len())
            .into_iter()
            .map(|row| match row {
                ViewRow::File { path, hits, .. } => format!("[{path}] {hits}"),
                ViewRow::Hit { line, text, matched } => {
                    let (from, to) = matched.unwrap();
                    let picked: String =
                        text.chars().skip(from as usize).take((to - from) as usize).collect();
                    format!("{line}: {} <{picked}>", text.trim())
                },
            })
            .collect()
    }

    fn step(&mut self, forward: bool) {
        let place = self.app.navigation.listing.step_reference(forward, 10).unwrap();
        self.go_to(&place, Open::Here);
    }
}

/// Where a file opened at `path` is, once links are followed.
fn resolved(path: &str) -> String {
    path.replace("/project/", "/really/project/")
}

#[test]
fn a_definition_in_a_file_not_open_opens_it_and_back_comes_back() {
    let mut t = Tester::new();
    t.caret_at(1, 6);
    let place = t.place("src/lib.rs", 1, 7);
    t.definition(vec![place], Open::Here, "`helper`");
    assert_eq!(t.file(), "lib.rs");
    assert_eq!(t.caret(), (1, 7));

    t.retrace(true);
    assert_eq!(t.file(), "main.rs");
    assert_eq!(t.caret(), (1, 6));

    t.retrace(false);
    assert_eq!(t.file(), "lib.rs");
    assert_eq!(t.caret(), (1, 7));

    t.retrace(false);
    assert_eq!(t.app.message().as_deref(), Some("Nothing to go forward to."));
}

#[test]
fn a_file_named_by_another_path_is_not_opened_twice() {
    let mut t = Tester::new();
    let docs = t.docs.len();
    let place = Place {
        path: resolved("/project/src/main.rs"),
        ..t.place("src/main.rs", 2, 4)
    };
    t.go_to(&place, Open::Here);
    assert_eq!(t.docs.len(), docs);
    assert_eq!(t.caret(), (2, 4));
}

#[test]
fn several_definitions_are_offered_rather_than_one_picked() {
    let mut t = Tester::new();
    let places = vec![t.place("src/lib.rs", 1, 7), t.place("src/main.rs", 0, 3)];
    t.definition(places, Open::Here, "`helper`");
    assert_eq!(t.file(), "main.rs", "nothing was gone to yet");
    let palette = t.app.finder.palette.as_ref().expect("a chooser is open");
    let labels: Vec<&str> = palette.rows.iter().map(|row| row.entry.label.as_str()).collect();
    assert_eq!(labels, ["src/lib.rs:2", "src/main.rs:1"]);

    // Typing narrows it, as anywhere else in the palette.
    for ch in "lib".chars() {
        t.palette_key(KeyCode::Char(ch));
    }
    assert_eq!(t.app.finder.palette.as_ref().unwrap().rows.len(), 1);
    t.palette_key(KeyCode::Enter);
    assert!(t.app.finder.palette.is_none());
    assert_eq!(t.file(), "lib.rs");
    assert_eq!(t.caret(), (1, 7));
}

#[test]
fn a_definition_beside_splits_and_back_crosses_the_panes() {
    let mut t = Tester::new();
    t.caret_at(1, 6);
    let origin = t.focus;
    let place = t.place("src/lib.rs", 1, 7);
    t.definition(vec![place.clone()], Open::Beside, "`helper`");
    assert_eq!(t.panes.len(), 2);
    assert_ne!(t.focus, origin);
    assert_eq!(t.file(), "lib.rs");
    let focused = t.focus;
    assert_eq!(t.pane(focused).tabs.len(), 1, "the split's empty buffer gave way");

    t.retrace(true);
    assert_eq!(t.focus, origin);
    assert_eq!((t.file().as_str(), t.caret()), ("main.rs", (1, 6)));

    // The pane beside is used again rather than split once more.
    t.definition(vec![place], Open::Beside, "`helper`");
    assert_eq!(t.panes.len(), 2);
    assert_eq!(t.file(), "lib.rs");
}

#[test]
fn a_jump_list_entry_whose_file_was_closed_reopens_it() {
    let mut t = Tester::new();
    t.caret_at(2, 4);
    let place = t.place("src/lib.rs", 1, 7);
    t.definition(vec![place], Open::Here, "`x`");
    // Close main.rs, which is where Back goes.
    t.docs.remove(0);
    t.panes[0].tabs.remove(0);
    t.panes[0].active = 0;
    t.retrace(true);
    assert_eq!((t.file().as_str(), t.caret()), ("main.rs", (2, 4)));
}

#[test]
fn with_no_server_the_keys_say_why_nothing_happened() {
    assert_eq!(
        no_server("go to definitions", None, false),
        "This file has no language server to go to definitions with."
    );
    assert_eq!(
        no_server("find references", None, false),
        "This file has no language server to find references with."
    );
    let starting = Some("rust-analyzer starting".to_string());
    assert_eq!(
        no_server("find references", starting, false),
        "Cannot find references yet: rust-analyzer starting."
    );
    let ready = Some("sh".to_string());
    assert_eq!(no_server("find references", ready, true), "sh cannot find references.");
}

#[test]
fn ctrl_hover_underlines_only_what_the_server_says_goes_somewhere() {
    let mut t = Tester::new();
    assert_eq!(t.underlined(), "");

    // Asked, and the answer was nothing: no promise to make.
    t.rest_on_helper();
    t.app.navigation.link_found(None, Encoding::Utf16, None);
    assert_eq!(t.underlined(), "");

    t.link_helper(None);
    assert_eq!(t.underlined(), "helper");

    // Any key takes it away.
    let right = KeyEvent {
        code: KeyCode::Right,
        modifiers: Modifiers::none(),
        kind: KeyKind::Press,
    };
    t.app.handle_at(&Event::Key(right));
    assert_eq!(t.underlined(), "");
}

#[test]
fn the_server_can_say_how_much_of_the_line_is_the_link() {
    let mut t = Tester::new();
    let span = (t.at(1, 4), t.at(1, 12));
    t.link_helper(Some(span));
    assert_eq!(t.underlined(), "helper()");
}

#[test]
fn moving_off_the_word_or_letting_go_of_ctrl_takes_the_underline_away() {
    let mut t = Tester::new();
    t.link_helper(None);
    // Along the same word, it stays.
    t.moved(6, true);
    assert_eq!(t.underlined(), "helper");
    t.moved(6, false);
    assert_eq!(t.underlined(), "");

    t.link_helper(None);
    t.moved(1, true);
    assert_eq!(t.underlined(), "", "whitespace is not a symbol");
    assert!(t.app.navigation.link.is_none());
}

#[test]
fn ctrl_click_on_an_underlined_symbol_goes_to_its_definition() {
    let mut t = Tester::new();
    t.link_helper(None);
    t.ctrl_click(6, false, true);
    assert_eq!((t.file().as_str(), t.caret()), ("lib.rs", (1, 7)));

    // Back comes back to the symbol that was clicked.
    t.retrace(true);
    assert_eq!((t.file().as_str(), t.caret()), ("main.rs", (1, 6)));
}

#[test]
fn alt_ctrl_click_opens_it_beside() {
    let mut t = Tester::new();
    t.link_helper(None);
    t.ctrl_click(6, true, true);
    assert_eq!(t.panes.len(), 2);
    assert_eq!(t.file(), "lib.rs");
}

#[test]
fn with_no_server_ctrl_click_is_the_click_it_always_was() {
    let mut t = Tester::new();
    t.ctrl_click(6, false, false);
    assert_eq!((t.file().as_str(), t.caret()), ("main.rs", (1, 6)));
    assert_eq!(t.panes.len(), 1);
}

#[test]
fn references_are_listed_by_file_with_their_lines() {
    let mut t = Tester::new();
    t.list_helper();
    assert_eq!(
        t.rows(),
        [
            "[src/lib.rs] 1",
            "2: pub fn helper() {} <helper>",
            "[src/main.rs] 1",
            "2: helper(); <helper>",
        ]
    );
    let tree = Some(Rect::new(0, 0, 30, 19));
    assert_eq!(t.app.references_area(tree), tree, "the panel has the sidebar");
    assert_eq!(t.app.navigation.listing.summary, "2 references to `helper` in 2 files");
}

#[test]
fn clicking_a_reference_goes_there_and_a_file_folds() {
    let mut t = Tester::new();
    t.list_helper();
    assert_eq!(t.app.references_press(Target::ReferencesRow(1)), ReferencesPress::Row(1));
    match t.app.navigation.listing.pick_reference(1, 10) {
        Acted::Go(place) => t.go_to(&place, Open::Here),
        other => panic!("{other:?}"),
    }
    assert_eq!((t.file().as_str(), t.caret()), ("lib.rs", (1, 7)));

    assert!(matches!(t.app.navigation.listing.pick_reference(0, 10), Acted::Folded));
    assert_eq!(t.rows().len(), 3, "the file's references folded away");

    t.retrace(true);
    assert_eq!(t.file(), "main.rs");
}

#[test]
fn the_keyboard_steps_through_the_references() {
    let mut t = Tester::new();
    t.list_helper();
    t.step(true);
    assert_eq!(t.file(), "lib.rs");
    t.step(true);
    assert_eq!((t.file().as_str(), t.caret()), ("main.rs", (1, 4)));
    t.step(true);
    assert_eq!(t.file(), "lib.rs", "it wraps round");
    t.step(false);
    assert_eq!(t.file(), "main.rs");
}

#[test]
fn the_back_button_gives_the_sidebar_back_to_the_tree() {
    let mut t = Tester::new();
    t.list_helper();
    let area = Rect::new(0, 0, 30, 19);
    let rows = Rect::new(0, 2, 30, 17);
    let back = Rect::new(0, 0, 3, 1);
    let areas = t.app.navigation.listing.layout_references(area, Some(back), rows);
    let target = nun::hits::hit_at(&areas, 1, 0).unwrap().target;
    assert_eq!(t.app.references_press(Target::ReferencesEmpty), ReferencesPress::Nothing);
    assert!(t.app.references_area(Some(area)).is_some());
    assert_eq!(t.app.references_press(target), ReferencesPress::Files);
    assert!(t.app.references_area(Some(area)).is_none());
}

#[test]
fn lines_read_for_an_older_listing_are_dropped() {
    let mut t = Tester::new();
    t.list_helper();
    let stale = t.app.navigation.listing.generation - 1;
    let lines = vec![("/project/src/lib.rs".to_string(), vec![(1, "stale".to_string())])];
    let outcome = t.app.navigation.listing.reference_lines(stale, &lines, "…");
    assert_eq!(outcome, Outcome::Continue);
    assert!(t.rows()[1].contains("pub fn helper"));
}

#[test]
fn the_text_menu_offers_the_way_back() {
    let mut t = Tester::new();
    let place = t.place("src/lib.rs", 1, 7);
    t.definition(vec![place], Open::Here, "`x`");
    assert_eq!(t.app.navigation.navigation_offers(false, false), [Command::GoBack]);
}

#[test]
fn no_definition_and_no_references_are_said() {
    let mut t = Tester::new();
    t.definition(Vec::new(), Open::Here, "`helper`");
    assert_eq!(t.app.message().as_deref(), Some("No definition found for `helper`."));
    let mut app = App::new(None, false, &nothing_laid());
    assert!(!app.references_found(&Vec::new(), "`helper`", true));
    assert_eq!(app.message().as_deref(), Some("No references to `helper` found."));
    let one = vec![t.named(t.place("src/lib.rs", 1, 7))];
    app.focus = Focus::Sidebar;
    assert!(!app.references_found(&one, "`helper`", false), "no sidebar to list them in");
    assert_eq!(app.focus, Focus::Editor);
    let palette = app.finder.palette.as_ref().unwrap();
    assert_eq!(palette.was_focused, Focus::Sidebar);
    let choices = palette.choices.as_ref().unwrap();
    assert_eq!(choices.title, "1 references to `helper`");
    assert_eq!(choices.rows.len(), 1);
    assert_eq!(nothing_listed("Shift+F12"), "No references are listed. Shift+F12 lists them.");
    assert_eq!(Navigation::failed(true, "it broke"), "Could not go to the definition: it broke.");
    assert_eq!(Navigation::failed(false, "it broke"), "Could not find references: it broke.");
}

#[test]
fn a_question_is_answered_to_whoever_asked_it() {
    let mut navigation = Navigation::new();
    assert!(matches!(navigation.ask_definition(0, 3, true), AskDefinition::Ask));
    assert!(matches!(navigation.ask_definition(0, 3, false), AskDefinition::Cannot));
    navigation.definition_sent(Open::Here, "`x`".to_string(), Ok(1));
    let reply = navigation.references_sent("`x`".to_string(), Ok(2));
    assert_eq!(reply.cancel, vec![1], "the one before is not waited on");
    assert_eq!(reply.message.as_deref(), Some("Finding references to `x`…"));
    assert!(matches!(navigation.navigation_answered(1), AnswerTo::Nobody));
    assert!(matches!(navigation.navigation_answered(2), AnswerTo::References(word) if word == "`x`"));
    assert!(matches!(navigation.navigation_answered(2), AnswerTo::Nobody));
    let reply = navigation.definition_sent(Open::Here, "`x`".to_string(), Err("no".to_string()));
    assert_eq!(reply.message.as_deref(), Some("Cannot go to the definition: no."));
    let reply = navigation.references_sent("`x`".to_string(), Err("no".to_string()));
    assert_eq!(reply.message.as_deref(), Some("Cannot find references: no."));
}

#[test]
fn the_pointer_settles_before_the_server_is_asked() {
    let mut t = Tester::new();
    t.moved(6, true);
    let due = t.app.navigation.link_deadline().expect("settling");
    assert_eq!(t.app.deadline(&Vec::new()), Some(due));
    assert_eq!(t.app.navigation.link_tick(due - 1, 0), None);
    let from = t.at(1, 4);
    assert_eq!(t.app.navigation.link_tick(due, 0), Some(from));
    t.app.navigation.link_sent(Some((5, Some(1))));
    assert!(matches!(t.app.navigation.navigation_answered(5), AnswerTo::Link(Some(1))));
    assert!(still_the_text(Some(1), Some(1)));
    assert!(!still_the_text(Some(2), Some(1)));
    let (_, cancel) = t.app.navigation.clear_link();
    assert_eq!(cancel, Some(5));

    let under = Underneath { over_text: true, doc: 0, at: None, word: None, offers: true };
    let press = MouseKind::Down(Button::Left);
    let followed = t.app.navigation.link_pointer(press, true, &under, 0);
    assert_eq!(followed, (Outcome::Continue, None));
}

#[test]
fn what_was_asked_about_is_named() {
    let rope = Rope::from_str(MAIN);
    assert_eq!(name_at(&rope, 18, (16, 22)), "`helper`");
    assert_eq!(name_at(&rope, 13, (13, 13)), "that");
}

#[test]
fn a_file_open_behind_another_is_moved_beside_rather_than_opened_twice() {
    let mut t = Tester::new();
    t.open_in_tab("/project/src/lib.rs");
    t.open_in_tab("/project/src/main.rs");
    let (origin, docs) = (t.focus, t.docs.len());
    t.open_beside("/project/src/lib.rs");
    assert_ne!(t.focus, origin);
    assert_eq!(t.file(), "lib.rs");
    assert_eq!(t.docs.len(), docs, "one copy of it");
    let focused = t.focus;
    assert_eq!(t.pane(focused).tabs.len(), 1, "the empty buffer had nothing to keep");
    assert_eq!(t.pane(origin).tabs.len(), 1);

    assert_eq!(open_beside(4, &vec![4, 9], Some((4, 1)), false), Beside::Pane(9, Some(1)));
    assert_eq!(open_beside(9, &vec![4, 9], None, false), Beside::Pane(4, None));
    assert_eq!(open_beside(4, &vec![4], Some((4, 1)), false), Beside::Split(Some(1)));
    assert_eq!(open_beside(4, &vec![4], Some((4, 1)), true), Beside::Select(4, 1), "it stays");
    assert_eq!(open_beside(4, &vec![4, 9], Some((9, 2)), false), Beside::Select(9, 2));
}

#[test]
fn a_place_that_has_gone_is_skipped_on_the_way_back() {
    let mut t = Tester::new();
    t.caret_at(2, 4);
    let place = t.place("src/lib.rs", 1, 7);
    t.definition(vec![place], Open::Here, "`x`");
    // A buffer that was never saved was jumped from last, and has been closed.
    let gone = Spot { pane: 0, doc: 77, path: None, line: 3, column: 0 };
    t.app.go_to(gone, true);
    t.app.focus = Focus::Sidebar;
    t.retrace(true);
    assert_eq!((t.file().as_str(), t.caret()), ("main.rs", (2, 4)));
    assert_eq!(t.app.focus, Focus::Editor);
    t.retrace(true);
    assert_eq!(t.app.message().as_deref(), Some("Nothing to go back to."));
}

#[test]
fn references_come_in_the_order_of_their_files() {
    let mut t = Tester::new();
    let at = |path: &str, line: u32, character: u32| Place {
        path: path.to_string(),
        start: Position { line, character },
        end: Position { line, character: character + 1 },
        encoding: Encoding::Utf16,
    };
    let places = vec![
        at("/project/b.rs", 0, 0),
        at("/project/a-b/x.rs", 9, 1),
        at("/project/a/y.rs", 2, 5),
        at("/project/a/y.rs", 2, 3),
        at("/project/a/y.rs", 1, 8),
        at("/project/b.rs", 0, 0),
        at("/elsewhere/z.rs", 7, 7),
    ];
    let roots = vec!["/other".to_string(), "/project".to_string()];
    let places: Vec<Named> =
        places.into_iter().map(|place| named(place, &roots, false)).collect();
    assert!(t.app.references_found(&places, "`x`", true));
    let listing = &t.app.navigation.listing;
    let files: Vec<&str> = listing.groups.iter().map(|group| group.label.as_str()).collect();
    assert_eq!(files, ["/elsewhere/z.rs", "a/y.rs", "a-b/x.rs", "b.rs"], "a folder's together");
    let starts: Vec<(u32, u32)> = listing.groups[1]
        .hits
        .iter()
        .map(|hit| (hit.place.start.line, hit.place.start.character))
        .collect();
    assert_eq!(starts, [(1, 8), (2, 3), (2, 5)]);
    assert_eq!(listing.summary, "6 references to `x` in 4 files");
    assert_eq!(listing.widest, 10);
}

#[test]
fn a_file_is_named_from_the_root_it_is_in() {
    let label = |path: &str, root: &str| label_of(&path.to_string(), &vec![root.to_string()]);
    assert_eq!(label("/project/src/lib.rs", "/project"), "src/lib.rs");
    assert_eq!(label("/project/src/lib.rs", "/project/"), "src/lib.rs");
    assert_eq!(label("/projects/lib.rs", "/project"), "/projects/lib.rs", "another folder");
    assert_eq!(label("/project", "/project/src"), "/project");
    assert_eq!(label("/lib.rs", "/"), "lib.rs");
    assert_eq!(label_of(&"/a".to_string(), &Vec::new()), "/a");
}

#[test]
fn only_a_link_says_how_much_of_the_line_it_is() {
    let mut t = Tester::new();
    t.rest_on_helper();
    let place = t.place("src/lib.rs", 1, 7);
    let target = Location { path: Some(place.path), start: place.start, end: place.end };
    let span = (t.at(1, 4), t.at(1, 12));
    let found = Some(Definition::Scalar(target.clone()));
    assert_eq!(origin_of(&found), None);
    t.app.navigation.link_found(found, Encoding::Utf16, Some(span));
    assert_eq!(t.underlined(), "helper", "the word, as it was");

    let second = Linked { origin: Some((place.start, place.end)), target: target.clone() };
    let found = Some(Definition::Link(vec![Linked { origin: None, target }, second]));
    assert_eq!(origin_of(&found), None, "the first says nothing of it");
}
