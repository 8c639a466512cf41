use nun::completion::{Asking, Completion, Context, KeyTask, Trigger};
use nun::edit::Edit;
use nun::geometry::Rect;
use nun::input::{KeyCode, KeyEvent, KeyKind, Modifiers};
use nun::inserting::{could_not_complete, planned};
use nun::outcome::Outcome;
use nun::paste::pasted_line_endings;
use nun::popup::{Here, Item, Pending, Popup, Shown};
use nun::snippets::{place, Insertion};
use nun::spans::{overlaps, touches, Selection};
use nun::stops::{map_span, Snippet};
use nun::target::{Focus, Target};
use nun::words::word_start;
use ropey::Rope;

/// An item as a server offers it: its label, what it puts in, and the ranges it
/// goes over, in UTF-16 units of one line.
#[derive(Clone)]
struct Offer {
    label: String,
    text: String,
    snippet: bool,
    insert: Option<(u32, u32)>,
    replace: Option<(u32, u32)>,
    additional: Vec<(usize, usize, String)>,
    documentation: Option<String>,
}

fn item(label: &str) -> Offer {
    Offer {
        label: label.to_string(),
        text: label.to_string(),
        snippet: false,
        insert: None,
        replace: None,
        additional: Vec::new(),
        documentation: None,
    }
}

fn snippet(label: &str, source: &str) -> Offer {
    Offer { text: source.to_string(), snippet: true, ..item(label) }
}

/// The question: how long the text was, and where the caret.
#[derive(Clone, Copy)]
struct Question {
    head: usize,
}

struct Editor {
    completion: Completion,
    text: Rope,
    selections: Vec<Selection>,
    primary: usize,
    offers: Vec<Offer>,
    asked: Question,
    undone: Vec<Rope>,
}

/// A snippet's text and stops: `$1`, `${2:placeholder}`, and `$0` for its end.
fn parse(source: &str) -> Snippet {
    let chars: Vec<char> = source.chars().collect();
    let (mut text, mut found): (Vec<char>, Vec<(usize, usize, usize)>) = (Vec::new(), Vec::new());
    let mut at = 0;
    while at < chars.len() {
        if chars[at] != '$' {
            text.push(chars[at]);
            at += 1;
            continue;
        }
        let braced = chars[at + 1] == '{';
        at += if braced { 2 } else { 1 };
        let stop = chars[at].to_digit(10).unwrap() as usize;
        at += 1;
        let start = text.len();
        if braced {
            if chars[at] == ':' {
                at += 1;
                while chars[at] != '}' {
                    text.push(chars[at]);
                    at += 1;
                }
            }
            at += 1;
        } else if let Some(&(_, from, to)) = found.iter().find(|(n, from, to)| *n == stop && from < to) {
            let mirrored: Vec<char> = text[from..to].to_vec();
            text.extend(mirrored);
        }
        found.push((stop, start, text.len()));
    }
    if found.iter().all(|(stop, _, _)| *stop != 0) {
        found.push((0, text.len(), text.len()));
    }
    let mut order: Vec<usize> = found.iter().map(|(stop, _, _)| *stop).collect();
    order.sort_by_key(|stop| if *stop == 0 { usize::MAX } else { *stop });
    order.dedup();
    let stops = order
        .iter()
        .map(|stop| {
            found.iter().filter(|(n, _, _)| n == stop).map(|(_, from, to)| (*from, *to)).collect()
        })
        .collect();
    Snippet { text: text.into_iter().collect(), stops }
}

/// Whether the letters of `query` are in `label`, in order.
fn matches(label: &str, query: &str) -> bool {
    let mut letters = label.chars();
    query.chars().all(|ch| letters.any(|letter| letter == ch))
}

impl Editor {
    fn new(text: &str, caret: usize) -> Editor {
        Editor::with(text, &[caret])
    }

    fn with(text: &str, carets: &[usize]) -> Editor {
        Editor {
            completion: Completion::new(),
            text: Rope::from_str(text),
            selections: carets.iter().map(|at| Selection::caret(*at)).collect(),
            primary: 0,
            offers: Vec::new(),
            asked: Question { head: carets[0] },
            undone: Vec::new(),
        }
    }

    fn here(&self) -> Here<'_> {
        Here {
            doc: 0,
            text: &self.text,
            carets: self.selections.len(),
            primary: self.selections[self.primary],
            typing: true,
        }
    }

    fn head(&self) -> usize {
        self.selections[self.primary].head
    }

    /// Where a place in the text as it was asked about is now.
    fn at(&self, character: u32) -> usize {
        let at = character as usize;
        if at >= self.asked.head { at + self.head() - self.asked.head } else { at }
    }

    fn rows(&self, query: &str) -> Vec<Shown> {
        let mut found: Vec<usize> =
            (0..self.offers.len()).filter(|i| matches(&self.offers[*i].label, query)).collect();
        let first = query.chars().next();
        found.sort_by_key(|i| first.is_some() && self.offers[*i].label.chars().next() != first);
        found.into_iter().map(|index| Shown { index, matched: Vec::new() }).collect()
    }

    fn open(&mut self, start: usize, explicit: bool) {
        self.completion.popup = Some(Popup::open(&self.here(), start, explicit, None));
    }

    fn question(&self) -> Question {
        Question { head: self.head() }
    }

    fn ask(&mut self, offers: Vec<Offer>) {
        self.ask_incomplete(offers, false);
    }

    fn ask_incomplete(&mut self, offers: Vec<Offer>, incomplete: bool) {
        let asked = self.question();
        let start = word_start(&self.text, asked.head);
        self.open(start, true);
        self.answer(asked, offers, incomplete);
    }

    fn answer(&mut self, asked: Question, offers: Vec<Offer>, incomplete: bool) {
        self.asked = asked;
        let items = offers
            .iter()
            .map(|offer| Item {
                label: offer.label.clone(),
                kind: None,
                detail: None,
                documentation: offer.documentation.clone(),
                label_detail: None,
                label_description: None,
                deprecated: false,
                preselect: false,
                additional: None,
                word_start: offer.insert.map(|(from, _)| self.at(from)),
            })
            .collect();
        self.offers = offers;
        let mut completion = std::mem::replace(&mut self.completion, Completion::new());
        let taken = completion.completion_items(Ok((items, incomplete)), 1, &self.here());
        self.completion = completion;
        if let Some(query) = taken.query {
            let shown = self.rows(&query);
            let _ = self.completion.filtered(query, shown);
        }
    }

    /// Replace every selection, or what `ranges` gives in place of each.
    fn replace(&mut self, ranges: &[(usize, usize)], text: &str) {
        self.undone.push(self.text.clone());
        let mut edits = Vec::new();
        for (from, to) in ranges.iter().rev() {
            self.text.remove(*from..*to);
            self.text.insert(*from, text);
            edits.push(Edit { start: *from, end: *to, text: text.to_string() });
        }
        let (mut grown, mut shrunk) = (0, 0);
        for (index, (from, to)) in ranges.iter().enumerate() {
            grown += text.chars().count();
            self.selections[index] = Selection::caret(from + grown - shrunk);
            shrunk += to - from;
        }
        self.completion.follow_edits(0, &edits);
    }

    fn accept(&mut self, row: Option<usize>, whole_word: bool) {
        let accepted = self.completion.completion_accept_row(row);
        let Some(chosen) = accepted.chosen else { return };
        let offer = self.offers[chosen.item].clone();
        let range = if whole_word { offer.replace } else { offer.insert };
        let insertion = Insertion {
            range: range.map(|(from, to)| (self.at(from), self.at(to))),
            text: offer.text.clone(),
            indent: true,
            snippet: offer.snippet,
            additional: offer
                .additional
                .iter()
                .map(|(start, end, text)| Edit { start: *start, end: *end, text: pasted_line_endings(text) })
                .collect(),
        };
        let placing = place(&self.text, &self.selections, self.primary, chosen.start, &insertion);
        let snippets: Vec<Snippet> = placing
            .sources
            .iter()
            .map(|source| {
                if offer.snippet {
                    parse(source)
                } else {
                    let end = source.chars().count();
                    Snippet { text: source.clone(), stops: vec![vec![(end, end)]] }
                }
            })
            .collect();
        let plan = planned(&self.selections, &placing, &snippets, &insertion.additional);
        self.undone.push(self.text.clone());
        for edit in plan.edits.iter().rev() {
            self.text.remove(edit.start..edit.end);
            self.text.insert(edit.start, &edit.text);
        }
        let len = self.text.len_chars();
        let has_stops = snippets[placing.primary].stops.len() > 1;
        let picked = self.completion.insert_completion(
            0,
            len,
            &snippets,
            plan,
            placing.primary,
            has_stops,
        );
        self.selected(picked);
    }

    fn selected(&mut self, picked: Option<(Vec<Selection>, usize)>) {
        if let Some((mut selections, primary)) = picked {
            let chosen = selections[primary];
            selections.sort_by_key(|selection| selection.from());
            self.primary = selections.iter().position(|one| *one == chosen).unwrap();
            self.selections = selections;
        }
    }

    fn select_stop(&mut self, index: usize) {
        let picked = self.completion.select_stop(index);
        self.selected(picked);
    }

    fn edit(&mut self, code: KeyCode) {
        let spans: Vec<(usize, usize)> =
            self.selections.iter().map(|one| (one.from(), one.to())).collect();
        match code {
            KeyCode::Char(ch) => self.replace(&spans, &ch.to_string()),
            KeyCode::Enter => self.replace(&spans, "\n"),
            KeyCode::Tab => self.replace(&spans, "\t"),
            KeyCode::Backspace => {
                let back: Vec<(usize, usize)> = spans
                    .iter()
                    .map(|(from, to)| if from == to { (from.saturating_sub(1), *to) } else { (*from, *to) })
                    .collect();
                self.replace(&back, "");
            }
            KeyCode::Left => self.selections = vec![Selection::caret(self.head().saturating_sub(1))],
            KeyCode::Home => {
                let line = self.text.char_to_line(self.head());
                self.selections = vec![Selection::caret(self.text.line_to_char(line))];
            }
            KeyCode::Down => {
                self.selections = vec![Selection::caret(self.text.len_chars())];
            }
            KeyCode::Esc => self.selections = vec![Selection::caret(self.head())],
            _ => {}
        }
    }

    fn follow(&mut self) -> Outcome {
        let mut completion = std::mem::replace(&mut self.completion, Completion::new());
        let follow = completion.completion_follow(&self.here(), true, &Vec::new());
        self.completion = completion;
        if let Some(query) = follow.refilter {
            let shown = self.rows(&query);
            self.completion.refilter(query, shown);
        }
        follow.outcome
    }

    fn key(&mut self, code: KeyCode, modifiers: Modifiers) -> Outcome {
        let event = KeyEvent { code, modifiers, kind: KeyKind::Press };
        match self.completion.completion_key(&event, false, Focus::Editor, 10).task {
            Some(KeyTask::Step { rows, wrap }) => {
                self.completion.completion_step(rows, wrap, 10);
            }
            Some(KeyTask::Accept { whole_word }) => self.accept(None, whole_word),
            Some(KeyTask::PutAway) => {}
            Some(KeyTask::NextStop { forward }) => {
                if let Some(index) = self.completion.next_stop(forward) {
                    self.select_stop(index);
                }
            }
            None => self.edit(code),
        }
        self.follow().and(Outcome::Redraw)
    }

    fn press(&mut self, code: KeyCode) -> Outcome {
        self.key(code, Modifiers::none())
    }

    fn shift(&mut self, code: KeyCode) -> Outcome {
        self.key(code, Modifiers { shift: true, ..Modifiers::none() })
    }

    fn type_text(&mut self, text: &str) {
        for ch in text.chars() {
            self.press(KeyCode::Char(ch));
        }
    }

    fn click(&mut self, target: Target, replace: bool) {
        if let Some(row) = self.completion.completion_click(target) {
            self.accept(Some(row), replace);
        }
        self.follow();
    }

    /// A click in the text, at `at`.
    fn click_text(&mut self, at: usize) {
        self.selections = vec![Selection::caret(at)];
        self.primary = 0;
        self.follow();
    }

    fn text(&self) -> String {
        self.text.to_string()
    }

    fn shown(&self) -> Vec<String> {
        let Some(popup) = &self.completion.popup else { return Vec::new() };
        popup.shown.iter().map(|found| popup.items[found.index].label.clone()).collect()
    }

    fn selections(&self) -> Vec<(usize, usize)> {
        self.selections.iter().map(|one| (one.anchor, one.head)).collect()
    }

    fn marks(&self) -> Vec<(usize, usize, bool)> {
        let Some(stops) = &self.completion.stops else { return Vec::new() };
        let marks = stops.marks(0, self.text.len_chars());
        marks.iter().map(|mark| (mark.start, mark.end, mark.current)).collect()
    }
}

#[test]
fn typing_on_filters_locally_and_edits_the_text() {
    let mut app = Editor::new("let x = pr", 10);
    app.ask(vec![item("print"), item("println"), item("process"), item("eprintln")]);
    assert_eq!(app.shown(), ["print", "println", "process", "eprintln"]);

    app.type_text("ln");
    assert_eq!(app.text(), "let x = prln", "every key still types");
    assert_eq!(app.shown(), ["println", "eprintln"]);
    app.press(KeyCode::Backspace);
    app.press(KeyCode::Backspace);
    assert_eq!(app.shown(), ["print", "println", "process", "eprintln"], "and back");
}

#[test]
fn nothing_on_screen_takes_no_keys() {
    // Asked, and the server has not answered: the keys are the text's.
    let mut app = Editor::new("ab", 2);
    app.open(0, true);
    app.press(KeyCode::Down);
    app.press(KeyCode::Enter);
    assert_eq!(app.text(), "ab\n", "Enter typed a newline");
    assert!(app.completion.popup.is_none(), "and a new line ended the word");
}

#[test]
fn moving_the_caret_closes_it() {
    let mut app = Editor::new("foo bar", 3);
    app.ask(vec![item("food")]);
    assert!(app.completion.completion_showing());
    app.press(KeyCode::Left);
    assert!(app.completion.popup.is_none());
}

#[test]
fn a_character_that_ends_the_word_closes_it() {
    let mut app = Editor::new("fo", 2);
    app.ask(vec![item("foo")]);
    app.type_text("(");
    assert!(app.completion.popup.is_none());
    assert_eq!(app.text(), "fo(");
}

#[test]
fn escape_puts_it_away_and_leaves_the_text() {
    let mut app = Editor::new("fo", 2);
    app.ask(vec![item("foo")]);
    app.press(KeyCode::Esc);
    assert!(app.completion.popup.is_none());
    assert_eq!(app.text(), "fo");
}

#[test]
fn enter_accepts_the_selected_item_over_the_word() {
    let mut app = Editor::new("x = pri;", 7);
    app.ask(vec![item("print"), item("println")]);
    app.press(KeyCode::Down);
    app.press(KeyCode::Enter);
    assert_eq!(app.text(), "x = println;");
    assert_eq!(app.selections(), [(11, 11)]);
    assert!(app.completion.popup.is_none());
}

#[test]
fn up_from_the_top_wraps_to_the_bottom() {
    let mut app = Editor::new("p", 1);
    app.ask(vec![item("pa"), item("pb"), item("pc")]);
    app.press(KeyCode::Up);
    app.press(KeyCode::Tab);
    assert_eq!(app.text(), "pc");
}

#[test]
fn the_insert_range_keeps_the_rest_of_the_word_and_the_replace_range_takes_it() {
    let println = Offer { insert: Some((0, 3)), replace: Some((0, 5)), ..item("println") };

    let mut app = Editor::new("prixx", 3);
    app.ask(vec![println.clone()]);
    app.press(KeyCode::Enter);
    assert_eq!(app.text(), "printlnxx");

    let mut app = Editor::new("prixx", 3);
    app.ask(vec![println]);
    app.shift(KeyCode::Enter);
    assert_eq!(app.text(), "println");
}

#[test]
fn an_answer_to_an_earlier_prefix_lands_where_the_word_is_now() {
    // Asked at `pr|`; two more letters typed before the answer came.
    let mut app = Editor::new("x pr", 4);
    let asked = app.question();
    app.open(2, false);
    app.type_text("in");
    let print = Offer { insert: Some((2, 4)), ..item("println") };
    app.answer(asked, vec![print, item("process")], false);
    assert_eq!(app.shown(), ["println"], "filtered by what is typed now");
    app.press(KeyCode::Enter);
    assert_eq!(app.text(), "x println");
}

#[test]
fn an_incomplete_list_is_asked_for_again_as_the_word_changes() {
    let mut app = Editor::new("pr", 2);
    app.ask_incomplete(vec![item("print")], true);
    // No server to ask: the question is noted, not sent, and the list
    // stays up in the meantime.
    app.type_text("i");
    assert_eq!(app.shown(), ["print"]);
    assert!(app.completion.popup.as_ref().is_some_and(|popup| popup.incomplete));
}

#[test]
fn the_question_after_an_incomplete_list_says_why_it_is_asked() {
    let mut app = Editor::new("pr", 2);
    app.ask_incomplete(vec![item("print")], true);
    let spans = vec![(2, 2)];
    app.replace(&spans, "i");
    let mut completion = std::mem::replace(&mut app.completion, Completion::new());
    let follow = completion.completion_follow(&app.here(), true, &Vec::new());
    assert_eq!(follow.ask, Some(Trigger::Incomplete));
    assert_eq!(follow.refilter.as_deref(), Some("pri"));
    assert_eq!(nun::completion::context_of(Trigger::Incomplete), Context::Incomplete);
}

#[test]
fn edits_elsewhere_go_in_with_it_as_one_undo_step() {
    let mut app = Editor::new("fn main() {\n    Has\n}\n", 19);
    let map = Offer {
        additional: vec![(0, 0, "use std::collections::HashMap;\r\n\r\n".to_string())],
        ..item("HashMap")
    };
    app.ask(vec![map]);
    app.press(KeyCode::Enter);
    assert_eq!(
        app.text(),
        "use std::collections::HashMap;\n\nfn main() {\n    HashMap\n}\n",
        "the server's CRLF is the buffer's LF"
    );
    assert_eq!(app.text.char_to_line(app.head()), 3, "the caret after the word, not the import");
    app.text = app.undone.pop().unwrap();
    assert_eq!(app.text(), "fn main() {\n    Has\n}\n", "one undo takes both back");
}

#[test]
fn a_snippet_puts_the_caret_on_its_first_stop_and_tab_walks_them() {
    let mut app = Editor::new("fo", 2);
    app.ask(vec![snippet("for", "for ${1:item} in ${2:iter} {\n\t$0\n}")]);
    app.press(KeyCode::Enter);
    assert_eq!(app.text(), "for item in iter {\n\t\n}");
    assert_eq!(app.selections(), [(4, 8)], "the first placeholder, selected");

    app.type_text("x");
    assert_eq!(app.text(), "for x in iter {\n\t\n}");
    app.press(KeyCode::Tab);
    assert_eq!(app.selections(), [(9, 13)], "the second stop moved with the typing");
    app.shift(KeyCode::BackTab);
    assert_eq!(app.selections(), [(4, 5)], "back to the first, as typed");
    app.press(KeyCode::Tab);
    app.press(KeyCode::Tab);
    assert_eq!(app.selections(), [(17, 17)], "the end: $0");
    assert!(app.completion.stops.is_none(), "and that is the end of it");
    app.press(KeyCode::Tab);
    assert_eq!(app.text(), "for x in iter {\n\t\t\n}", "Tab types a tab again");
}

#[test]
fn a_snippet_is_indented_like_its_line() {
    let mut app = Editor::new("    fo", 6);
    app.ask(vec![snippet("for", "for {\n\t$0\n}")]);
    app.press(KeyCode::Enter);
    assert_eq!(app.text(), "    for {\n    \t\n    }");
    assert_eq!(app.selections(), [(15, 15)]);
}

#[test]
fn a_mirrored_stop_is_edited_in_both_places() {
    let mut app = Editor::new("le", 2);
    app.ask(vec![snippet("let", "let ${1:x} = $1;")]);
    app.press(KeyCode::Enter);
    app.type_text("yz");
    assert_eq!(app.text(), "let yz = yz;");
}

#[test]
fn moving_out_of_a_stop_ends_the_snippet() {
    let mut app = Editor::new("f", 1);
    app.ask(vec![snippet("fn", "fn ${1:name}() $0")]);
    app.press(KeyCode::Enter);
    app.press(KeyCode::Home);
    assert!(app.completion.stops.is_none());
    app.press(KeyCode::Tab);
    assert!(app.text().starts_with('\t'), "{:?}", app.text());
}

#[test]
fn every_caret_typing_the_same_word_gets_the_completion_and_its_stops() {
    let mut app = Editor::with("pr\npr\nzz", &[2, 5, 8]);
    app.ask(vec![snippet("println!", "println!(\"${1}\")$0")]);
    app.press(KeyCode::Enter);
    assert_eq!(app.text(), "println!(\"\")\nprintln!(\"\")\nzz", "not after `zz`");
    assert_eq!(app.selections(), [(10, 10), (23, 23), (28, 28)]);
    app.type_text("hi");
    assert_eq!(app.text(), "println!(\"hi\")\nprintln!(\"hi\")\nzzhi");
    app.press(KeyCode::Tab);
    assert_eq!(app.selections()[..2], [(14, 14), (29, 29)]);
}

#[test]
fn a_click_accepts_a_row_and_the_wheel_scrolls() {
    let mut app = Editor::new("p", 1);
    app.ask((0..30).map(|n| item(&format!("p{n:02}"))).collect());
    // Under the word, with ten rows of it in view.
    let area = Rect::new(4, 1, 30, 10);

    app.completion.completion_scroll(true, usize::from(area.height));
    assert_eq!(app.completion.popup.as_ref().unwrap().scroll, 3);
    assert_eq!(app.completion.popup.as_ref().unwrap().selected, 0, "the wheel is not a pick");
    assert_eq!(app.text(), "p", "and it did not scroll the text");

    let hits = app.completion.layout_completion(None, area);
    let hit = nun::hits::hit_at(&hits, area.x + 8, area.y + 1).unwrap();
    app.click(hit.target, false);
    assert_eq!(app.text(), "p04");
}

#[test]
fn hovering_a_row_previews_its_documentation() {
    let mut app = Editor::new("p", 1);
    let first = Offer { documentation: Some("Panics.".to_string()), ..item("panic") };
    let second = Offer { documentation: Some("Prints.".to_string()), ..item("print") };
    app.ask(vec![first, second]);
    let popup = app.completion.popup.as_ref().unwrap();
    assert_eq!(popup.completion_docs(None).as_deref(), Some("Panics."), "the selected one");
    assert_eq!(popup.completion_docs(Some(1)).as_deref(), Some("Prints."), "the hovered one");
    assert_eq!(app.text(), "p", "hovering changes nothing");
}

#[test]
fn with_no_language_server_the_command_says_so() {
    let mut app = Editor::new("x", 1);
    app.completion.wanted = Some(Trigger::Invoked);
    let mut completion = std::mem::replace(&mut app.completion, Completion::new());
    let follow = completion.completion_follow(&app.here(), true, &Vec::new());
    assert_eq!(follow.ask, Some(Trigger::Invoked));
    let reply =
        completion.ask_completion(Trigger::Invoked, Focus::Editor, Asking::NoServer, &app.here());
    assert_eq!(
        reply.message.as_deref(),
        Some("This file has no language server to complete from.")
    );
    assert_eq!(app.text(), "x", "and typed nothing");
}

#[test]
fn every_reason_there_are_no_completions_is_said_when_asked_for() {
    let app = Editor::new("x", 1);
    let mut completion = Completion::new();
    let ask = |completion: &mut Completion, trigger, asking| {
        completion.ask_completion(trigger, Focus::Editor, asking, &app.here()).message
    };
    assert_eq!(
        ask(&mut completion, Trigger::Invoked, Asking::NotOffered).as_deref(),
        Some("The language server offers no completions here.")
    );
    assert_eq!(
        ask(&mut completion, Trigger::Invoked, Asking::NotReady).as_deref(),
        Some("The language server is not ready yet.")
    );
    assert_eq!(ask(&mut completion, Trigger::Character('.'), Asking::NotReady), None);
    let pending = Pending { id: 7, version: 1 };
    assert_eq!(ask(&mut completion, Trigger::Character('.'), Asking::Sent(pending)), None);
    assert_eq!(completion.popup.as_ref().unwrap().pending, Some(pending));
    assert!(completion.completion_owns(7) && !completion.completion_owns(8));
    assert_eq!(completion.close_completion(), [7]);
}

fn edit(start: usize, end: usize, text: &str) -> Edit {
    Edit { start, end, text: text.to_string() }
}

#[test]
fn a_stop_that_is_not_being_typed_in_keeps_out_of_the_way() {
    // `$1$2`: typing in the first pushes the second along.
    let typed = edit(4, 4, "x");
    assert_eq!(map_span((4, 4), &typed, true), (4, 5));
    assert_eq!(map_span((4, 4), &typed, false), (5, 5));
    // A stop that ends where the typing starts stays before it.
    assert_eq!(map_span((2, 4), &typed, false), (2, 4));
    // One further on moves.
    assert_eq!(map_span((6, 9), &edit(1, 3, "abc"), false), (7, 10));
}

#[test]
fn a_word_is_its_letters_digits_and_underscores_whatever_the_script() {
    assert_eq!(word_start(&Rope::from_str("x.größe_1"), 9), 2);
    assert_eq!(word_start(&Rope::from_str("a 日本"), 4), 2);
}

#[test]
fn a_decomposed_accent_is_part_of_the_word() {
    let mut app = Editor::new("cafe\u{301}", 5);
    app.ask(vec![item("cafe\u{301}_au_lait")]);
    assert_eq!(app.completion.popup.as_ref().unwrap().start, 0);
    app.press(KeyCode::Enter);
    assert_eq!(app.text(), "cafe\u{301}_au_lait", "the word replaced, not doubled");
    assert_eq!(word_start(&Rope::from_str("x नमस्ते"), 8), 2, "a virama joins, too");
}

#[test]
fn each_caret_s_copy_is_indented_like_its_own_line() {
    let mut app = Editor::with("    pr\npr", &[6, 9]);
    app.ask(vec![snippet("proc", "{\n\t$1\n}$0")]);
    app.press(KeyCode::Enter);
    assert_eq!(app.text(), "    {\n    \t\n    }\n{\n\t\n}");
    assert_eq!(app.selections(), [(11, 11), (21, 21)]);
}

fn fn_snippet(app: &mut Editor) {
    app.ask(vec![snippet("fn", "fn ${1:name}(${2:args}) $0")]);
    app.press(KeyCode::Enter);
}

#[test]
fn a_click_into_another_stop_goes_to_it() {
    let mut app = Editor::new("f", 1);
    fn_snippet(&mut app);
    assert_eq!(app.text(), "fn name(args) ");
    // Into `args`, with the mouse, at column 9.
    app.click_text(9);
    assert_eq!(app.completion.stops.as_ref().map(|stops| stops.current), Some(1));
    app.shift(KeyCode::BackTab);
    assert_eq!(app.selections(), [(3, 7)], "and Shift+Tab goes back from there");
}

#[test]
fn every_stop_is_marked_and_the_marks_follow_the_typing() {
    let mut app = Editor::new("f", 1);
    fn_snippet(&mut app);
    assert_eq!(app.marks(), [(3, 7, true), (8, 12, false), (14, 14, false)]);
    app.type_text("x");
    assert_eq!(app.marks(), [(3, 4, true), (5, 9, false), (11, 11, false)], "{}", app.text());
    app.press(KeyCode::Tab);
    assert_eq!(app.marks(), [(3, 4, false), (5, 9, true), (11, 11, false)]);
    let outcome = app.press(KeyCode::Tab);
    assert_eq!(outcome, Outcome::Redraw);
    assert_eq!(app.marks(), [], "the end of the snippet takes its marks with it");
}

#[test]
fn a_click_into_another_stop_moves_the_strong_mark_to_it() {
    let mut app = Editor::new("f", 1);
    fn_snippet(&mut app);
    app.click_text(9);
    assert_eq!(app.marks(), [(3, 7, false), (8, 12, true), (14, 14, false)]);
}

#[test]
fn escape_or_moving_out_takes_the_marks_off() {
    let mut app = Editor::new("f", 1);
    fn_snippet(&mut app);
    let escape = KeyEvent {
        code: KeyCode::Esc,
        modifiers: Modifiers::none(),
        kind: KeyKind::Press,
    };
    let _ = app.completion.completion_key(&escape, false, Focus::Editor, 10);
    assert_eq!(app.follow(), Outcome::Redraw, "the marks have to come off the screen");
    assert_eq!(app.marks(), []);

    let mut app = Editor::new("f", 1);
    fn_snippet(&mut app);
    app.press(KeyCode::Home);
    assert_eq!(app.marks(), []);
}

#[test]
fn a_mirror_shares_the_current_mark() {
    let mut app = Editor::new("le", 2);
    app.ask(vec![snippet("let", "let ${1:x} = $1;$0")]);
    app.press(KeyCode::Enter);
    app.type_text("yz");
    assert_eq!(app.marks(), [(4, 6, true), (9, 11, true), (12, 12, false)]);
}

#[test]
fn every_carets_copy_is_marked() {
    let mut app = Editor::with("pr\npr", &[2, 5]);
    app.ask(vec![snippet("println!", "println!(\"${1}\")$0")]);
    app.press(KeyCode::Enter);
    app.type_text("hi");
    assert_eq!(app.text(), "println!(\"hi\")\nprintln!(\"hi\")");
    assert_eq!(app.marks(), [(10, 12, true), (25, 27, true), (14, 14, false), (29, 29, false)]);
}

#[test]
fn shift_click_takes_the_whole_word() {
    let println = Offer { insert: Some((0, 3)), replace: Some((0, 5)), ..item("println") };
    let mut app = Editor::new("prixx", 3);
    app.ask(vec![println]);
    app.click(Target::CompletionRow(0), true);
    assert_eq!(app.text(), "println");
}

#[test]
fn an_empty_stop_where_a_placeholder_is_typed_over_stays_before_it() {
    // `$2${1:name}`: typing `x` over `name` leaves stop 2 in front.
    assert_eq!(map_span((0, 0), &edit(0, 4, "x"), false), (0, 0));
}

#[test]
fn spans_that_share_an_edge_touch_but_do_not_overlap() {
    assert!(!overlaps((0, 3), (3, 5)) && touches((0, 3), (3, 5)));
    assert!(overlaps((0, 4), (3, 5)) && touches((0, 4), (3, 5)));
    assert!(!overlaps((0, 2), (3, 5)) && !touches((0, 2), (3, 5)));
    assert!(!overlaps((3, 3), (1, 5)) && touches((3, 3), (1, 5)), "no character to share");
    assert!(!overlaps((1, 5), (3, 3)) && !overlaps((3, 3), (3, 3)));
}

#[test]
fn what_could_not_go_in_is_said() {
    assert_eq!(could_not_complete("off the end"), "Could not complete: off the end.");
}
