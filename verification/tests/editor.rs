use nun::app::{App, CaretView, Laid, Written};
use nun::commands::Command;
use nun::geometry::Rect;
use nun::input::{
    Button, Event, Key, KeyCode, KeyEvent, KeyKind, Modifiers, Mouse, MouseKind, Signal,
};
use nun::keys::{EditTask, EventTask, KeyFacts, KeyedTask, Motion, Resolved, ResolvedTask, Task};
use nun::outcome::Outcome;
use nun::pointing::{ClickTask, MouseTask, WheelOwner, WHEEL_LINES};
use nun::status::{status_parts, Standing, StatusFacts};
use nun::target::{Focus, Target};

/// A text, and an editor over it, doing what the editor asks.
struct Editor {
    app: App,
    text: Vec<char>,
    anchor: usize,
    head: usize,
    carets: usize,
    crlf: bool,
    bindings: Vec<(Vec<Key>, Command)>,
    pending: Vec<Key>,
    deadline: Option<u64>,
    undone: Vec<Vec<char>>,
}

fn control(ch: char) -> Key {
    Key { code: nun::input::Code::Char(ch), control: true, alt: false, shift: false, cmd: false }
}

fn named(keys: &[Key]) -> String {
    let one = |key: &Key| {
        let code = match key.code {
            nun::input::Code::Char(ch) => ch.to_uppercase().to_string(),
            other => format!("{other:?}"),
        };
        if key.control { format!("Ctrl+{code}") } else { code }
    };
    keys.iter().map(one).collect::<Vec<_>>().join(" ")
}

fn facts(app: &App) -> StatusFacts {
    StatusFacts {
        prompt: app.prompt.is_some(),
        folder: false,
        undo: app.undo_offer,
        strip: false,
        left: 9,
        right: 15,
        left_chars: 9,
        right_chars: 15,
        server: None,
        counts: None,
    }
}

impl Editor {
    fn over(text: &str) -> Editor {
        Editor::sized(text, 40, 6)
    }

    fn sized(text: &str, width: u16, height: u16) -> Editor {
        let bindings = vec![
            (vec![control('s')], Command::Save),
            (vec![control('q')], Command::Quit),
            (vec![control('a')], Command::SelectAll),
            (vec![control('z')], Command::Undo),
        ];
        let mut app = App::new(None, false, &empty());
        app.set_viewport(Rect::new(0, 0, width, height));
        let mut editor = Editor {
            app,
            text: text.chars().collect(),
            anchor: 0,
            head: 0,
            carets: 1,
            crlf: false,
            bindings,
            pending: Vec::new(),
            deadline: None,
            undone: Vec::new(),
        };
        editor.relayout();
        editor
    }

    fn text(&self) -> String {
        self.text.iter().collect()
    }

    fn lines(&self) -> usize {
        self.text.iter().filter(|ch| **ch == '\n').count() + 1
    }

    fn line_of(&self, at: usize) -> usize {
        self.text[..at].iter().filter(|ch| **ch == '\n').count()
    }

    fn line_start(&self, line: usize) -> usize {
        let mut at = 0;
        for _ in 0..line {
            at += self.text[at..].iter().position(|ch| *ch == '\n').unwrap() + 1;
        }
        at
    }

    fn line_end(&self, line: usize) -> usize {
        let start = self.line_start(line);
        start + self.text[start..].iter().position(|ch| *ch == '\n').unwrap_or(self.text.len() - start)
    }

    fn gutter(&self) -> u16 {
        let last = if self.text.last() == Some(&'\n') { self.lines() - 1 } else { self.lines() };
        u16::try_from(last.max(1).to_string().len()).unwrap() + 2
    }

    fn text_area(&self) -> Rect {
        let view = self.app.viewport;
        Rect::new(view.x, view.y, view.width, view.height.saturating_sub(1))
    }

    fn relayout(&mut self) {
        let mut laid = empty();
        laid.text = self.text_area();
        laid.gutter = self.gutter();
        let (_, status) = self.app.areas(None);
        laid.status = status_parts(status, &facts(&self.app));
        self.app.relayout(&laid);
    }

    fn follow(&mut self) {
        let height = usize::from(self.text_area().height);
        let line = self.line_of(self.head);
        let top = self.app.scroll();
        self.app.follow_caret(&CaretView {
            height,
            line,
            top,
            rows: line.saturating_sub(top),
            last: (line + 1).saturating_sub(height),
        });
    }

    fn insert(&mut self, text: &str) {
        self.undone.push(self.text.clone());
        let (from, to) = (self.anchor.min(self.head), self.anchor.max(self.head));
        self.text.splice(from..to, text.chars());
        self.head = from + text.chars().count();
        self.anchor = self.head;
        self.app.docs[0].modified = true;
    }

    fn moved(&self, motion: Motion) -> usize {
        let line = self.line_of(self.head);
        let column = self.head - self.line_start(line);
        match motion {
            Motion::Left => self.head.saturating_sub(1),
            Motion::Right => (self.head + 1).min(self.text.len()),
            Motion::Up if line == 0 => 0,
            Motion::Up => (self.line_start(line - 1) + column).min(self.line_end(line - 1)),
            Motion::Down if line + 1 == self.lines() => self.text.len(),
            Motion::Down => (self.line_start(line + 1) + column).min(self.line_end(line + 1)),
            Motion::LineStart => self.line_start(line),
            Motion::LineEnd => self.line_end(line),
        }
    }

    fn perform(&mut self, task: EditTask) -> Outcome {
        match task {
            EditTask::Nothing => return Outcome::Redraw,
            EditTask::Primary => self.carets = 1,
            EditTask::Caret => self.anchor = self.head,
            EditTask::Insert(ch) => self.insert(&ch.to_string()),
            EditTask::DeleteBackward => {
                if self.anchor == self.head && self.head > 0 {
                    self.anchor = self.head - 1;
                }
                self.insert("");
            }
            EditTask::DeleteForward => {
                if self.anchor == self.head {
                    self.anchor = (self.head + 1).min(self.text.len());
                }
                self.insert("");
            }
            EditTask::Move { motion, extend, times } => {
                for _ in 0..times {
                    self.head = self.moved(motion);
                    if !extend {
                        self.anchor = self.head;
                    }
                }
            }
        }
        self.follow();
        Outcome::Redraw
    }

    fn ran(&mut self, task: Task) -> Outcome {
        match task {
            Task::Quit => {
                let _ = self.app.save_before_quitting();
                return self.app.request_quit("Ctrl+S", "Ctrl+Q");
            }
            Task::Save => {
                let id = self.app.current;
                let written = match self.app.refusal(id) {
                    Some(_) => Written::Saved,
                    None => Written::NoPath,
                };
                let said = self.app.write(id, written).unwrap_or_else(|failed| failed);
                self.app.messages.say(said);
                return Outcome::Redraw;
            }
            Task::SelectAll => (self.anchor, self.head) = (0, self.text.len()),
            Task::Undo => {
                if let Some(text) = self.undone.pop() {
                    self.text = text;
                    self.head = self.head.min(self.text.len());
                    self.anchor = self.head;
                }
            }
            other => panic!("{other:?}"),
        }
        if task.follows_caret() {
            self.follow();
        }
        Outcome::Redraw
    }

    fn acted(&mut self, task: ResolvedTask) -> Outcome {
        match task {
            ResolvedTask::Done(outcome) => outcome,
            ResolvedTask::Run(task) => self.ran(task),
            ResolvedTask::Edit(task) => self.perform(task),
            ResolvedTask::Panel { .. } => panic!("no panel is open"),
        }
    }

    fn feed(&mut self, key: Key, event: KeyEvent, now: u64) -> Outcome {
        self.pending.push(key);
        let keys = self.pending.clone();
        let longer = self.bindings.iter().any(|(bound, _)| {
            bound.len() > keys.len() && bound[..keys.len()] == keys[..]
        });
        let exact = self.bindings.iter().rev().find(|(bound, _)| *bound == keys).map(|(_, c)| *c);
        let resolved = match exact {
            _ if longer => {
                self.deadline = Some(now + 1000);
                Resolved::Pending
            }
            Some(command) => {
                Resolved::Command { command, on_text: false, alone: keys.len() == 1 }
            }
            None if keys.len() == 1 => Resolved::Key,
            None => Resolved::Unbound(named(&keys)),
        };
        if !matches!(resolved, Resolved::Pending) {
            self.pending.clear();
            self.deadline = None;
        }
        let height = usize::from(self.text_area().height);
        let task = self.app.resolved(&resolved, Some(event), self.carets, height);
        self.acted(task)
    }

    fn key(&mut self, event: KeyEvent, now: u64) -> Outcome {
        let known = KeyFacts { card_height: None, chord: !self.pending.is_empty(), page: 10 };
        match self.app.handle_key(&event, &known).task {
            KeyedTask::Ignore => Outcome::Continue,
            KeyedTask::Feed(key) => self.feed(key, event, now),
            other => panic!("{other:?}"),
        }
    }

    fn position_at(&self, column: u16, row: u16) -> usize {
        let line = (self.app.scroll() + usize::from(row)).min(self.lines() - 1);
        let column = usize::from(column.saturating_sub(self.gutter()));
        (self.line_start(line) + column).min(self.line_end(line))
    }

    fn mouse(&mut self, mouse: Mouse) -> Outcome {
        let hovered = Outcome::redraw_if(self.app.hovered(mouse.column, mouse.row).is_some());
        let task = self.app.handle_mouse(&mouse, false);
        let outcome = match &task {
            MouseTask::Wheel { owner: WheelOwner::Text, down } => {
                let scroll = self.app.scroll();
                let to = if *down { scroll + WHEEL_LINES } else { scroll.saturating_sub(WHEEL_LINES) };
                self.app.scroll_to(to);
                Outcome::Redraw
            }
            MouseTask::Click(clicked) => {
                self.pending.clear();
                self.deadline = None;
                match &clicked.task {
                    ClickTask::Text(Target::Text) => {
                        self.head = self.position_at(mouse.column, mouse.row);
                        self.anchor = self.head;
                    }
                    ClickTask::Text(Target::Gutter) => {
                        let line = self.app.scroll() + usize::from(mouse.row);
                        self.anchor = self.line_start(line);
                        self.head = self.line_start((line + 1).min(self.lines() - 1));
                    }
                    _ => {}
                }
                Outcome::Redraw
            }
            _ => Outcome::Continue,
        };
        nun::pointing::mouse_outcome(&task, outcome, hovered)
    }

    fn handle_at(&mut self, event: Event, now: u64) -> Outcome {
        let before = self.app.scroll();
        let handled = self.app.handle_at(&event);
        let outcome = match handled.task {
            EventTask::Key(key) => self.key(key, now),
            EventTask::Mouse(mouse) => self.mouse(mouse),
            EventTask::Insert(text) => {
                self.pending.clear();
                self.insert(&text);
                self.follow();
                Outcome::Redraw
            }
            EventTask::Resized(_) => {
                self.follow();
                Outcome::Redraw
            }
            EventTask::Done(outcome) => outcome,
            other => panic!("{other:?}"),
        };
        let outcome = outcome.and(handled.unlinked);
        if self.app.settle(outcome, before, 0).relayout {
            self.relayout();
        }
        outcome
    }

    fn handle(&mut self, event: Event) -> Outcome {
        self.handle_at(event, 0)
    }

    fn message(&self) -> Option<String> {
        self.app.message()
    }

    fn deadline(&self) -> Option<u64> {
        self.app.deadline(&vec![self.deadline])
    }

    fn tick(&mut self, now: u64) -> Outcome {
        let mut expired = None;
        if self.deadline.is_some_and(|due| due <= now) {
            let keys = std::mem::take(&mut self.pending);
            self.deadline = None;
            let bound = self.bindings.iter().find(|(bound, _)| *bound == keys).map(|(_, c)| *c);
            expired = Some(match bound {
                Some(command) => Resolved::Command { command, on_text: false, alone: true },
                None => Resolved::Unbound(named(&keys)),
            });
        }
        let task = self.app.tick(&expired, self.carets, 5);
        self.acted(task)
    }

    fn status(&self) -> (String, String) {
        let line = self.line_of(self.head);
        let standing = Standing {
            carets: self.carets,
            line,
            column: self.head - self.line_start(line),
            crlf: self.crlf,
        };
        let chord = if self.pending.is_empty() { None } else { Some(named(&self.pending)) };
        self.app.status(&chord, "…", "•", &None, standing)
    }

    fn selected(&self) -> usize {
        self.head.abs_diff(self.anchor)
    }
}

fn empty() -> Laid {
    let nowhere = Rect::new(0, 0, 0, 0);
    Laid {
        text: nowhere,
        gutter: 0,
        sidebar: Vec::new(),
        search: Vec::new(),
        references: Vec::new(),
        edit_preview: Vec::new(),
        panes: Vec::new(),
        diagnostics: Vec::new(),
        card: Vec::new(),
        completion: Vec::new(),
        palette: Vec::new(),
        status: nun::status::StatusParts {
            files: None,
            search: None,
            undo: None,
            close: None,
            lsp: None,
            problems: None,
            text: 0,
        },
        prompt: Vec::new(),
    }
}

fn key(code: KeyCode) -> Event {
    chord(code, Modifiers::none())
}

fn chord(code: KeyCode, modifiers: Modifiers) -> Event {
    Event::Key(KeyEvent { code, modifiers, kind: KeyKind::Press })
}

fn ctrl(ch: char) -> Event {
    chord(KeyCode::Char(ch), Modifiers { control: true, ..Modifiers::none() })
}

fn shift(code: KeyCode) -> Event {
    chord(code, Modifiers { shift: true, ..Modifiers::none() })
}

fn click(column: u16, row: u16) -> Event {
    pointer(MouseKind::Down(Button::Left), column, row)
}

fn pointer(kind: MouseKind, column: u16, row: u16) -> Event {
    Event::Mouse(Mouse { kind, column, row, modifiers: Modifiers::none() })
}

fn wheel(down: bool) -> Event {
    pointer(if down { MouseKind::ScrollDown } else { MouseKind::ScrollUp }, 0, 0)
}

#[test]
fn typing_inserts_and_the_arrows_move() {
    let mut app = Editor::over("");
    for ch in "hello".chars() {
        app.handle(key(KeyCode::Char(ch)));
    }
    assert_eq!(app.text(), "hello");

    app.handle(key(KeyCode::Left));
    app.handle(key(KeyCode::Char('X')));
    assert_eq!(app.text(), "hellXo");
}

#[test]
fn enter_and_backspace_do_the_obvious_thing() {
    let mut app = Editor::over("");
    app.handle(key(KeyCode::Char('a')));
    app.handle(key(KeyCode::Enter));
    app.handle(key(KeyCode::Char('b')));
    assert_eq!(app.text(), "a\nb");

    app.handle(key(KeyCode::Backspace));
    app.handle(key(KeyCode::Backspace));
    assert_eq!(app.text(), "a");
}

#[test]
fn a_key_release_is_ignored_rather_than_typed_twice() {
    // With the Kitty protocol negotiated the terminal reports releases too.
    let mut app = Editor::over("");
    let release = KeyEvent {
        code: KeyCode::Char('x'),
        modifiers: Modifiers::none(),
        kind: KeyKind::Release,
    };

    app.handle(key(KeyCode::Char('x')));
    app.handle(Event::Key(release));

    assert_eq!(app.text(), "x", "a press and its release must type one character");
}

#[test]
fn shift_and_an_arrow_extend_the_selection() {
    let mut app = Editor::over("hello");
    app.handle(shift(KeyCode::Right));
    app.handle(shift(KeyCode::Right));
    assert_eq!(app.selected(), 2);
}

#[test]
fn a_chord_shows_itself_while_it_waits_and_runs_when_finished() {
    let mut app = Editor::over("abc");
    app.bindings.push((vec![control('k'), control('a')], Command::SelectAll));
    let now = 0;

    assert_eq!(app.handle_at(ctrl('k'), now), Outcome::Redraw);
    assert!(app.status().0.starts_with("Ctrl+K"), "{:?}", app.status());
    assert!(app.deadline().is_some(), "waiting for the second key");

    app.handle_at(ctrl('a'), now);
    assert_eq!(app.selected(), 3);
    assert_eq!(app.deadline(), None);
    assert!(!app.status().0.starts_with("Ctrl+K"));
}

#[test]
fn a_chord_nobody_finishes_times_out_and_says_so() {
    let mut app = Editor::over("abc");
    app.bindings.push((vec![control('k'), control('a')], Command::SelectAll));
    app.handle_at(ctrl('k'), 0);

    let deadline = app.deadline().unwrap();
    assert_eq!(app.tick(deadline), Outcome::Redraw);
    assert_eq!(app.message().as_deref(), Some("Ctrl+K is not bound to anything"));
    assert_eq!(app.deadline(), None);
    assert_eq!(app.selected(), 0, "nothing ran");
}

#[test]
fn a_chord_times_out_to_its_prefix_binding() {
    let mut app = Editor::over("abc");
    app.bindings.push((vec![control('k')], Command::SelectAll));
    app.bindings.push((vec![control('k'), control('z')], Command::Undo));
    app.handle_at(ctrl('k'), 0);
    let deadline = app.deadline().unwrap();
    app.tick(deadline);
    assert_eq!(app.selected(), 3, "the prefix binding ran");
}

#[test]
fn typing_after_a_chord_prefix_does_not_type() {
    let mut app = Editor::over("");
    app.bindings.push((vec![control('k'), control('a')], Command::SelectAll));
    app.handle(ctrl('k'));
    app.handle(key(KeyCode::Char('x')));
    assert_eq!(app.text(), "", "the x finished (and broke) the chord");
    assert_eq!(app.message().as_deref(), Some("Ctrl+K X is not bound to anything"));
}

#[test]
fn a_click_abandons_a_half_typed_chord() {
    let mut app = Editor::over("");
    app.bindings.push((vec![control('k'), control('a')], Command::SelectAll));
    app.handle(ctrl('k'));
    app.handle(click(3, 0));
    app.handle(key(KeyCode::Char('x')));
    assert_eq!(app.text(), "x", "typed, not taken as the chord's second key");
    assert_eq!(app.deadline(), None);
}

#[test]
fn a_rebound_key_does_the_new_thing() {
    let mut app = Editor::over("abc");
    app.bindings.push((vec![control('s')], Command::SelectAll));
    app.handle(ctrl('s'));
    assert_eq!(app.selected(), 3);
}

#[test]
fn notices_are_shown_one_at_a_time() {
    let mut app = Editor::over("");
    app.app.warn("first".to_string());
    app.app.warn("second".to_string());
    assert_eq!(app.message().as_deref(), Some("first"));
    app.handle(key(KeyCode::Right));
    assert_eq!(app.message().as_deref(), Some("second"));
    app.handle(key(KeyCode::Right));
    assert_eq!(app.message(), None);
}

#[test]
fn a_hint_is_seen_once_a_click_dismisses_it() {
    let mut app = Editor::over("abc");
    app.handle(Event::Resize(40, 10));
    app.app.warn("first".to_string());
    app.app.hint("once".to_string());
    app.handle(click(5, 1));
    assert_eq!(app.message().as_deref(), Some("once"));
    assert!(!app.app.hint_seen(), "only the notice in front of it was dismissed");
    app.handle(click(5, 1));
    assert_eq!(app.message(), None);
    assert!(app.app.hint_seen());
}

#[test]
fn the_quit_prompt_names_the_keys_actually_bound() {
    let mut app = Editor::over("");
    app.handle(key(KeyCode::Char('x')));
    app.handle(ctrl('q'));
    let message = app.message().unwrap();
    assert!(message.contains("Ctrl+S to save"), "{message}");
    assert!(message.contains("Ctrl+Q again"), "{message}");
    assert_eq!(message, "Unsaved changes. Ctrl+S to save, or Ctrl+Q again to discard.");
}

#[test]
fn select_all_then_type_replaces_everything() {
    let mut app = Editor::over("old content");
    app.handle(ctrl('a'));
    app.handle(key(KeyCode::Char('n')));
    assert_eq!(app.text(), "n");
}

#[test]
fn escape_collapses_a_selection_to_a_caret() {
    let mut app = Editor::over("hello");
    app.handle(ctrl('a'));
    app.handle(key(KeyCode::Esc));
    assert_eq!(app.selected(), 0);
}

#[test]
fn escape_takes_several_carets_down_to_one_before_it_drops_a_selection() {
    let mut app = Editor::over("hello");
    app.handle(ctrl('a'));
    app.carets = 3;
    app.handle(key(KeyCode::Esc));
    assert_eq!((app.carets, app.selected()), (1, 5));
    app.handle(key(KeyCode::Esc));
    assert_eq!(app.selected(), 0);
}

#[test]
fn a_paste_arrives_as_one_undoable_unit() {
    let mut app = Editor::over("");
    app.handle(Event::Paste("pasted text".into()));
    assert_eq!(app.text(), "pasted text");
    app.handle(ctrl('z'));
    assert_eq!(app.text(), "", "a paste undoes in one step, not per character");
}

#[test]
fn a_paste_with_carriage_returns_lands_as_lines() {
    let mut app = Editor::over("");
    app.handle(Event::Paste("one\rtwo\r".into()));
    assert_eq!(app.text(), "one\ntwo\n", "a lone CR is a newline");

    let mut app = Editor::over("");
    app.handle(Event::Paste("one\r\ntwo\r\n".into()));
    assert_eq!(app.text(), "one\ntwo\n", "CRLF is one newline, not two");

    let mut app = Editor::over("");
    app.handle(Event::Paste("a\r\r\nb\n\rc".into()));
    assert_eq!(app.text(), "a\n\nb\n\nc", "each ending counts once, whatever the mix");
}

#[test]
fn a_crlf_file_saves_a_pasted_crlf_block_without_doubling() {
    // The text of `x\r\n` is held with line feeds, and written with both.
    let mut app = Editor::over("x\n");
    app.crlf = true;
    app.handle(Event::Paste("one\r\ntwo\r\n".into()));
    assert_eq!(app.text().replace('\n', "\r\n").as_bytes(), b"one\r\ntwo\r\nx\r\n");
}

// ── quitting ────────────────────────────────────────────────────────────────

#[test]
fn quitting_a_clean_buffer_is_immediate() {
    let mut app = Editor::over("untouched");
    assert_eq!(app.handle(ctrl('q')), Outcome::Quit);
}

#[test]
fn quitting_with_unsaved_changes_asks_first() {
    let mut app = Editor::over("");
    app.handle(key(KeyCode::Char('x')));

    assert_eq!(app.handle(ctrl('q')), Outcome::Redraw);
    assert!(app.message().unwrap().contains("Unsaved changes"));

    assert_eq!(app.handle(ctrl('q')), Outcome::Quit, "asking twice means you meant it");
}

#[test]
fn typing_after_a_quit_prompt_cancels_it() {
    let mut app = Editor::over("");
    app.handle(key(KeyCode::Char('x')));
    app.handle(ctrl('q'));
    app.handle(key(KeyCode::Char('y')));

    assert_eq!(
        app.handle(ctrl('q')),
        Outcome::Redraw,
        "the confirmation must not survive an intervening edit"
    );
}

#[test]
fn a_click_after_a_quit_prompt_cancels_it_too() {
    let mut app = Editor::over("");
    app.handle(key(KeyCode::Char('x')));
    app.handle(ctrl('q'));
    assert!(app.app.quit_confirmed);
    app.handle(click(5, 0));
    assert!(!app.app.quit_confirmed);
    assert_eq!(app.handle(ctrl('q')), Outcome::Redraw);
}

#[test]
fn every_file_that_would_be_lost_is_counted() {
    let mut app = Editor::over("");
    app.app.docs.push(nun::app::Document {
        id: 1,
        path: Some("b.rs".to_string()),
        scroll: 0,
        modified: true,
        lossy: false,
    });
    app.handle(key(KeyCode::Char('x')));
    app.handle(ctrl('q'));
    assert_eq!(
        app.message().as_deref(),
        Some("2 files have unsaved changes. Ctrl+S to save, or Ctrl+Q again to discard.")
    );
}

#[test]
fn a_lossy_file_refuses_to_save_rather_than_destroying_it() {
    let mut app = Editor::over("h\u{fffd}");
    app.app.docs[0].lossy = true;

    app.handle(ctrl('s'));
    assert!(app.message().unwrap().contains("Refusing to save"));
}

#[test]
fn saving_a_buffer_with_no_path_says_so() {
    let mut app = Editor::over("x");
    app.handle(ctrl('s'));
    assert_eq!(app.message().as_deref(), Some("No path to save to."));
}

#[test]
fn every_way_saving_goes_is_said() {
    let mut app = Editor::over("x");
    app.app.docs[0].path = Some("src/a.rs".to_string());
    app.app.docs[0].modified = true;
    let changed = app.app.write(0, Written::Changed("src/a.rs".to_string()));
    assert_eq!(
        changed,
        Err("src/a.rs changed on disk. Reopen it to see what changed.".to_string())
    );
    let failed = app.app.write(0, Written::Failed("disk full".to_string()));
    assert_eq!(failed, Err("Could not save: disk full".to_string()));
    assert!(!app.app.is_saved(0));
    assert_eq!(app.app.write(0, Written::Saved), Ok("Saved src/a.rs".to_string()));
    assert!(app.app.is_saved(0));
    assert_eq!(
        app.app.write(7, Written::Saved),
        Err("That file is no longer open.".to_string())
    );
}

// ── scrolling ───────────────────────────────────────────────────────────────

#[test]
fn the_view_follows_the_caret_down_and_back_up() {
    let mut app = Editor::over(&"line\n".repeat(40));
    assert_eq!(app.app.scroll(), 0);

    for _ in 0..10 {
        app.handle(key(KeyCode::Down));
    }
    assert_eq!(app.app.scroll(), 6, "scrolled the minimum needed to keep the caret visible");

    for _ in 0..10 {
        app.handle(key(KeyCode::Up));
    }
    assert_eq!(app.app.scroll(), 0);
}

#[test]
fn page_down_moves_by_the_visible_height() {
    let mut app = Editor::over(&"line\n".repeat(40));
    app.handle(key(KeyCode::PageDown));
    assert_eq!(app.line_of(app.head), 5, "one screenful, less the status row");
}

#[test]
fn a_resize_keeps_the_caret_on_screen() {
    let mut app = Editor::over(&"line\n".repeat(40));
    for _ in 0..20 {
        app.handle(key(KeyCode::Down));
    }
    app.handle(Event::Resize(40, 4));
    let line = app.line_of(app.head);
    let scroll = app.app.scroll();
    assert!(line >= scroll && line < scroll + 3, "caret left the viewport");
}

// ── mouse ───────────────────────────────────────────────────────────────────

#[test]
fn clicking_places_the_caret() {
    let mut app = Editor::over("hello\nworld\n");
    // Gutter is one digit plus two columns of padding.
    app.handle(click(3 + 2, 1));
    assert_eq!(app.head, 8, "row 1, two chars in");
}

#[test]
fn a_click_past_column_223_lands_where_it_was_made() {
    // The legacy mouse encoding tops out at column 223. SGR does not, and
    // nothing between the terminal and the buffer may narrow it again.
    let mut app = Editor::sized(&"x".repeat(400), 420, 6);
    app.handle(click(3 + 300, 0));
    assert_eq!(app.head, 300);
}

#[test]
fn a_click_below_row_223_lands_where_it_was_made() {
    let mut app = Editor::sized(&"line\n".repeat(400), 40, 302);

    // Three digits of line number plus two columns of padding.
    app.handle(click(5 + 2, 250));
    assert_eq!(app.line_of(app.head), 250);
}

#[test]
fn pointer_motion_on_its_own_costs_no_frame() {
    // With hover tracking on, motion arrives for every cell the pointer
    // crosses. Until something reacts to it, none of it may redraw.
    let mut app = Editor::over("hello\n");
    assert_eq!(app.handle(pointer(MouseKind::Moved, 4, 0)), Outcome::Continue);
}

#[test]
fn clicking_the_status_line_does_not_reach_the_text_beneath_it() {
    // Viewport is six rows: five of text and the status line on row 5. The
    // buffer is long enough that row 5 would otherwise be a line of text.
    let mut app = Editor::over(&"line\n".repeat(20));
    app.handle(click(5, 5));
    assert_eq!(app.head, 0);
}

#[test]
fn a_resize_moves_the_status_line_and_the_clicks_follow_it() {
    let mut app = Editor::over(&"line\n".repeat(20));
    app.handle(Event::Resize(40, 10));
    app.handle(click(3 + 1, 5));
    assert_eq!(app.line_of(app.head), 5);
}

#[test]
fn an_idle_editor_has_nothing_to_wake_up_for() {
    let app = Editor::over("hello");
    assert_eq!(app.deadline(), None);
    assert!(!app.app.wants_motion(false, false), "nothing on screen reacts to hover yet");
}

#[test]
fn clicking_in_the_gutter_selects_the_line() {
    let mut app = Editor::over("hello\nworld\n");
    app.handle(click(0, 0));
    assert_eq!(
        (app.anchor.min(app.head), app.anchor.max(app.head)),
        (0, 6),
        "the line and its newline"
    );
}

#[test]
fn the_wheel_scrolls_without_moving_the_caret() {
    let mut app = Editor::over(&"line\n".repeat(40));
    let caret = app.head;

    app.handle(wheel(true));
    assert_eq!(app.app.scroll(), 3);
    assert_eq!(app.head, caret, "scrolling is not navigation");

    app.handle(wheel(false));
    assert_eq!(app.app.scroll(), 0);
}

// ── status line ─────────────────────────────────────────────────────────────

#[test]
fn the_status_line_shows_unsaved_state_and_position() {
    let mut app = Editor::over("hello\nworld");
    let (left, right) = app.status();
    assert_eq!(left, "[no name]");
    assert!(right.contains("Ln 1, Col 1"));

    app.handle(key(KeyCode::Char('x')));
    let (left, right) = app.status();
    assert!(left.ends_with(" •"), "an unsaved buffer is marked: {left}");
    assert!(right.contains("Ln 1, Col 2"));
}

#[test]
fn the_status_line_counts_multiple_carets() {
    let mut app = Editor::over("a\nb\nc");
    app.carets = 3;
    assert!(app.status().1.contains("3 carets"));
    assert_eq!(app.status().1, "3 carets  Ln 1, Col 1  LF");
}

#[test]
fn the_status_line_reports_crlf_when_that_is_what_will_be_written() {
    let mut app = Editor::over("one\ntwo\n");
    app.crlf = true;
    assert!(app.status().1.contains("CRLF"));
}

#[test]
fn a_message_takes_over_the_status_line_and_is_cleared_by_the_next_key() {
    let mut app = Editor::over("x");
    app.handle(ctrl('s'));
    assert!(app.message().is_some());
    app.handle(key(KeyCode::Right));
    assert!(app.message().is_none());
}

// ── signals and the end ─────────────────────────────────────────────────────

#[test]
fn signals_and_the_end_of_input_say_what_to_do() {
    let mut app = Editor::over("x");
    assert_eq!(app.handle(Event::Signal(Signal::Suspend)), Outcome::Suspend);
    assert_eq!(app.handle(Event::Signal(Signal::Continue)), Outcome::Redraw);
    assert_eq!(app.handle(Event::Signal(Signal::Resize)), Outcome::Redraw);
    assert_eq!(app.handle(Event::Signal(Signal::Terminate)), Outcome::Quit);
    assert_eq!(app.handle(Event::Signal(Signal::Hangup)), Outcome::Quit);
    assert_eq!(app.handle(Event::Closed), Outcome::Quit);
    assert_eq!(app.handle(Event::Focus(true)), Outcome::Continue);
}

#[test]
fn a_paste_takes_the_keyboard_back_to_the_text() {
    let mut app = Editor::over("");
    app.app.focus = Focus::Sidebar;
    app.app.warn("look".to_string());
    app.handle(Event::Paste("x".into()));
    assert_eq!(app.app.focus, Focus::Editor);
    assert_eq!(app.message(), None);
}

#[test]
fn the_deadline_is_the_soonest_of_all() {
    let app = App::new(None, false, &empty());
    assert_eq!(app.deadline(&vec![Some(7), None, Some(3), Some(9)]), Some(3));
    assert_eq!(app.deadline(&vec![None, None]), None);
}
