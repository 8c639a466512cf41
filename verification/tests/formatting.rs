use nun::app::{App, Laid, Written};
use nun::commands::Command;
use nun::format::{ask_format, cannot_apply, no_sense, tab_size, worth_applying, PutOff};
use nun::geometry::Rect;
use nun::keys::Task;
use nun::outcome::Outcome;
use nun::status::StatusParts;

fn nothing_laid() -> Laid {
    Laid {
        text: Rect::new(0, 0, 0, 0),
        gutter: 0,
        sidebar: Vec::new(),
        search: Vec::new(),
        references: Vec::new(),
        edit_preview: Vec::new(),
        panes: Vec::new(),
        diagnostics: Vec::new(),
        card: Vec::new(),
        completion: Vec::new(),
        palette: Vec::new(),
        status: StatusParts {
            files: None,
            search: None,
            undo: None,
            close: None,
            lsp: None,
            problems: None,
            text: 0,
        },
        prompt: Vec::new(),
    }
}

/// An editor over `main.rs` holding `fn main(){}`, formatted on save by a
/// server that puts a space before the brace.
struct Tester {
    app: App,
    text: String,
    disk: String,
    version: i32,
    caret: usize,
    undone: Vec<String>,
    asked: Vec<(u64, i32)>,
    cancelled: Vec<u64>,
    closed: bool,
}

impl Tester {
    fn new() -> Tester {
        let mut app = App::new(Some("main.rs".to_string()), false, &nothing_laid());
        app.set_format_on_save(vec!["rust".to_string()]);
        app.formatting.timeout = 300;
        Tester {
            app,
            text: "fn main(){}\n".to_string(),
            disk: "fn main(){}\n".to_string(),
            version: 1,
            caret: 0,
            undone: Vec::new(),
            asked: Vec::new(),
            cancelled: Vec::new(),
            closed: false,
        }
    }

    fn change(&mut self, at: usize, text: &str) {
        self.undone.push(self.text.clone());
        self.text.insert_str(at, text);
        if at <= self.caret {
            self.caret += text.len();
        }
        self.version += 1;
        self.app.docs[0].modified = true;
    }

    fn insert(&mut self, text: &str) {
        let at = self.caret;
        self.change(at, text);
    }

    fn touch(&mut self) {
        self.caret = 10;
        self.insert("x");
        assert_eq!(self.text, "fn main(){x}\n");
    }

    fn send(&mut self) -> u64 {
        let id = self.asked.len() as u64 + 1;
        self.asked.push((id, self.version));
        id
    }

    fn written(&mut self) -> Written {
        self.disk = self.text.clone();
        Written::Saved
    }

    fn save(&mut self, close: bool, now: u64) {
        let rust = Some("rust".to_string());
        let formats = self.app.formatting.formats_on_save(false, &rust);
        match self.app.formatting.format_then_save(0, close, formats) {
            PutOff::Joined => {},
            PutOff::Ask => {
                let id = self.send();
                assert!(self.app.formatting.save_asked(0, close, Some(id), now));
                self.app.messages.say("Formatting before saving…".to_string());
            },
            PutOff::Now => {
                let written = self.written();
                let said = self.app.write(0, written);
                self.app.messages.say(said.unwrap());
            },
        }
    }

    fn answer(&mut self, id: u64) {
        let Some(pending) = self.app.formatting.format_answer(id) else { return };
        let asked = self.asked.iter().find(|(other, _)| *other == id).unwrap().1;
        let result = match worth_applying(Ok(()), Some(self.version), asked) {
            Ok(()) => {
                self.change(9, " ");
                Ok(true)
            },
            Err(why) => Err(why),
        };
        let written = if pending.save { self.written() } else { Written::Saved };
        self.closed = self.app.format_done(pending, result, written);
    }

    fn tick(&mut self, now: u64) {
        for pending in self.app.formatting.format_tick(now) {
            self.cancelled.push(pending.id);
            let written = if pending.save { self.written() } else { Written::Saved };
            let why = "the language server did not answer".to_string();
            self.closed = self.app.format_done(pending, Err(why), written);
        }
    }

    fn is_saved(&self) -> bool {
        self.app.is_saved(0)
    }

    fn message(&self) -> String {
        self.app.message().unwrap_or_default()
    }
}

#[test]
fn saving_formats_first_and_the_caret_stays_on_its_token() {
    let mut t = Tester::new();
    t.touch();

    t.save(false, 0);
    assert!(!t.is_saved(), "not until the server has answered");
    assert_eq!(t.message(), "Formatting before saving…");

    t.answer(1);
    assert!(t.is_saved());
    assert_eq!(t.disk, "fn main() {x}\n");
    assert!(t.message().starts_with("Saved "), "{}", t.message());
    assert_eq!(t.caret, 12, "still after the x");

    // One undo takes the formatting back, and only that.
    assert_eq!(t.undone.pop().unwrap(), "fn main(){x}\n");
}

#[test]
fn a_server_that_never_answers_does_not_stop_the_save() {
    let mut t = Tester::new();
    t.insert("// note\n");
    t.save(false, 1000);
    let due = t.app.deadline(&Vec::new());
    assert_eq!(due, Some(2300), "something will wake the editor to save");

    t.tick(2299);
    assert!(!t.is_saved());
    t.tick(2300);
    assert!(t.is_saved());
    assert_eq!(t.disk, "// note\nfn main(){}\n", "saved, unformatted");
    assert!(t.message().contains("unformatted: the language server did not answer"));
    assert_eq!(t.cancelled, vec![1]);
}

#[test]
fn text_changed_while_formatting_is_saved_as_it_is() {
    let mut t = Tester::new();
    t.insert("// a\n");
    t.save(false, 0);
    // Typed before the answer is handled: the answer is about older text.
    t.insert("// b\n");

    t.answer(1);
    assert!(t.is_saved());
    assert_eq!(t.disk, "// a\n// b\nfn main(){}\n");
    assert!(t.message().contains("unformatted: the file changed"), "{}", t.message());
}

#[test]
fn quitting_saves_what_is_waiting_on_the_server() {
    let mut t = Tester::new();
    t.insert("// last words\n");
    t.save(false, 0);
    for pending in t.app.save_before_quitting() {
        assert!(pending.save);
        let written = t.written();
        t.app.format_done(pending, Ok(false), written);
    }
    let outcome = t.app.request_quit("Ctrl+S", "Ctrl+Q");
    assert_eq!(outcome, Outcome::Quit, "nothing left unsaved to ask about");
    assert_eq!(t.disk, "// last words\nfn main(){}\n");
}

#[test]
fn format_document_formats_without_saving() {
    let mut t = Tester::new();
    assert!(matches!(t.app.run(Command::FormatDocument), Task::Format));
    let id = t.send();
    let said = t.app.formatting.format_document(0, Ok(id), 0);
    assert_eq!(said, "Formatting…");
    assert_eq!(t.app.formatting.format_document(0, Ok(9), 0), "Already formatting this file…");
    t.answer(id);
    assert_eq!(t.message(), "Formatted.");
    assert_eq!(t.text, "fn main() {}\n");
    assert!(!t.is_saved());
    assert_eq!(t.disk, "fn main(){}\n");
}

#[test]
fn a_language_not_formatted_on_save_saves_at_once() {
    let mut t = Tester::new();
    t.app.set_format_on_save(Vec::new());
    t.insert("// now\n");
    t.save(false, 0);
    assert!(t.is_saved());
    assert_eq!(t.disk, "// now\nfn main(){}\n");
}

#[test]
fn closing_an_unsaved_tab_formats_saves_and_then_closes_it() {
    let mut t = Tester::new();
    t.touch();
    t.save(true, 0);
    assert!(!t.closed);
    t.answer(1);
    assert!(t.closed);
    assert_eq!(t.disk, "fn main() {x}\n");
}

#[test]
fn a_save_asked_for_while_formatting_goes_with_the_answer() {
    let mut t = Tester::new();
    let id = t.send();
    t.app.formatting.format_document(0, Ok(id), 0);
    assert!(t.app.formatting.busy(0));
    t.save(false, 0);
    assert_eq!(t.asked.len(), 1, "not asked twice");
    t.answer(id);
    assert!(t.is_saved());
    assert_eq!(t.disk, "fn main() {}\n");
    assert!(!t.app.formatting.asked(id));
}

#[test]
fn why_a_file_cannot_be_formatted_is_said() {
    let why = |open, running, ready, formats| ask_format(open, running, ready, formats);
    assert_eq!(why(false, true, true, true).as_deref(), Some("it is no longer open"));
    assert_eq!(why(true, false, true, true).as_deref(), Some("no language server is running"));
    assert_eq!(why(true, true, false, true).as_deref(), Some("its language server is not ready"));
    assert_eq!(
        why(true, true, true, false).as_deref(),
        Some("its language server does not format files")
    );
    assert_eq!(why(true, true, true, true), None);
    assert_eq!(no_sense("off the end"), "the language server's edits made no sense (off the end)");
    assert_eq!(tab_size(8), 8);
    let why = |running, open, followed| cannot_apply(running, open, followed);
    assert_eq!(why(false, true, true).as_deref(), Some("the language server stopped"));
    assert_eq!(why(true, false, true).as_deref(), Some("the file is no longer open"));
    assert_eq!(why(true, true, false).as_deref(), Some("the language server stopped"));
    assert_eq!(why(true, true, true), None);

    let mut app = App::new(None, false, &nothing_laid());
    let said = app.formatting.format_document(0, Err("no language server is running".to_string()), 0);
    assert_eq!(said, "Cannot format this file: no language server is running.");
    let lossy = app.formatting.formats_on_save(true, &Some("rust".to_string()));
    assert!(!lossy, "text read only in part is not formatted");
}
