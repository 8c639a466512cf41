use nun::app::{App, Laid};
use nun::body::{Paragraph, Run};
use nun::card::{scroll_hint, Anchor, Card, CardKey, Press};
use nun::commands::Command;
use nun::diagnostics::Severity;
use nun::geometry::Rect;
use nun::hover::{
    ask_hover, contents, file_link, follow_link, hover_text, hover_word, Contents, Described, HoverAnswer,
    HoverTask, LinkTask, Marked, Pointed, Shown, Spot, State, DELAY,
};
use nun::input::{KeyCode, KeyEvent, KeyKind, Modifiers};
use nun::keys::{KeyFacts, KeyedTask};
use nun::outcome::Outcome;
use nun::showing::Dwell;
use nun::status::StatusParts;
use nun::target::Target;
use ropey::Rope;

fn nothing_laid() -> Laid {
    Laid {
        text: Rect::new(0, 0, 0, 0),
        gutter: 0,
        sidebar: Vec::new(),
        search: Vec::new(),
        references: Vec::new(),
        edit_preview: Vec::new(),
        panes: Vec::new(),
        diagnostics: Vec::new(),
        card: Vec::new(),
        completion: Vec::new(),
        palette: Vec::new(),
        status: StatusParts {
            files: None,
            search: None,
            undo: None,
            close: None,
            lsp: None,
            problems: None,
            text: 0,
        },
        prompt: Vec::new(),
    }
}

fn paragraph(text: &str) -> Paragraph {
    vec![Run::Text(text.to_string())]
}

/// An editor with a keyboard card up.
fn with_card() -> App {
    let mut app = App::new(None, false, &nothing_laid());
    app.set_viewport(Rect::new(0, 0, 80, 24));
    let body = vec![paragraph(&"word ".repeat(600))];
    app.show_card(Card::new(Anchor::Screen(Rect::new(0, 0, 1, 1)), body, Vec::new(), None));
    app
}

fn key_event(code: KeyCode, modifiers: Modifiers) -> KeyEvent {
    KeyEvent { code, modifiers, kind: KeyKind::Press }
}

fn alt() -> Modifiers {
    Modifiers { alt: true, ..Modifiers::none() }
}

/// Hand a key to an editor whose card shows `height` rows and can scroll by
/// `most`: what it did to the card, if that is all it did.
fn card_key(app: &mut App, event: KeyEvent, height: usize, most: usize) -> Result<Outcome, KeyedTask> {
    let facts = KeyFacts { card_height: Some(height), chord: false, page: 10 };
    match app.handle_key(&event, &facts).task {
        KeyedTask::Card { down, rows } => {
            Ok(app.card.as_mut().unwrap().scroll_by(down, rows, most))
        },
        other => Err(other),
    }
}

fn scroll(app: &App) -> usize {
    app.card.as_ref().expect("the card is still up").scroll
}

#[test]
fn alt_page_down_scrolls_a_keyboard_card_to_its_end_and_keeps_it_open() {
    let mut app = with_card();
    let most = 37;
    assert_eq!(scroll_hint(), "Alt+PgUp/PgDn scrolls", "says how to scroll");

    let down = key_event(KeyCode::PageDown, alt());
    assert_eq!(card_key(&mut app, down, 13, most).unwrap(), Outcome::Redraw);
    assert_eq!(scroll(&app), 12, "a page, less the row kept in view");
    while scroll(&app) < most {
        assert_eq!(card_key(&mut app, down, 13, most).unwrap(), Outcome::Redraw);
    }
    assert_eq!(card_key(&mut app, down, 13, most).unwrap(), Outcome::Continue);
    assert_eq!(scroll(&app), most, "stops at the end");

    let up = key_event(KeyCode::PageUp, alt());
    card_key(&mut app, up, 13, most).unwrap();
    assert_eq!(scroll(&app), most - 12);
}

#[test]
fn any_other_key_still_closes_the_card_and_does_what_it_does() {
    let mut app = with_card();
    card_key(&mut app, key_event(KeyCode::PageDown, alt()), 13, 37).unwrap();
    let typed = card_key(&mut app, key_event(KeyCode::Char('x'), Modifiers::none()), 13, 37);
    assert!(app.card.is_none());
    assert!(matches!(typed, Err(KeyedTask::Feed(_))), "{typed:?}");

    // Alt+Down is Add a caret below, and still is with a card up.
    let mut app = with_card();
    let added = card_key(&mut app, key_event(KeyCode::Down, alt()), 13, 37);
    assert!(app.card.is_none());
    assert!(matches!(added, Err(KeyedTask::Feed(key)) if key.alt), "{added:?}");

    // Page Down with another modifier is not a card's.
    let mut app = with_card();
    let both = Modifiers { alt: true, shift: true, ..Modifiers::none() };
    let paged = card_key(&mut app, key_event(KeyCode::PageDown, both), 13, 37);
    assert!(app.card.is_none());
    assert!(paged.is_err());
}

#[test]
fn a_card_that_fits_says_nothing_about_scrolling() {
    let mut app = with_card();
    let paged = card_key(&mut app, key_event(KeyCode::PageDown, alt()), 3, 0);
    assert_eq!(paged.unwrap(), Outcome::Continue);
    assert_eq!(scroll(&app), 0);
}

#[test]
fn a_modifier_alone_leaves_the_card_and_escape_is_spent_on_it() {
    let event = key_event(KeyCode::Modifier, Modifiers::none());
    assert_eq!(nun::card::card_key(&event, Some(13)), CardKey::Pass);
    let event = key_event(KeyCode::Esc, Modifiers::none());
    assert_eq!(nun::card::card_key(&event, Some(13)), CardKey::Close { spent: true });
    let event = key_event(KeyCode::PageDown, alt());
    assert_eq!(nun::card::card_key(&event, None), CardKey::Close { spent: false });
    assert_eq!(nun::card::card_key(&event, Some(1)), CardKey::Scroll { down: true, rows: 1 });
}

#[test]
fn every_button_of_a_card_does_what_it_says() {
    let buttons = vec![("Next".to_string(), Command::NextDiagnostic)];
    let mut card =
        Card::new(Anchor::Screen(Rect::new(0, 0, 1, 1)), vec![paragraph("said")], buttons, None);
    card.offer_fixes(vec!["Import it".to_string(), "Remove it".to_string()]);
    assert_eq!(card.labels, vec!["Import it", "Remove it", "Next"]);
    assert!(matches!(card.card_click(Target::CardButton(1)), Press::Fix(1)));
    let run = card.card_click(Target::CardButton(2));
    assert!(matches!(run, Press::Run(Some(Command::NextDiagnostic), None)), "{run:?}");
    assert!(matches!(card.card_click(Target::CardButton(3)), Press::Run(None, None)));
    assert!(matches!(card.card_click(Target::Card), Press::Inside));
    assert!(matches!(card.card_click(Target::Text), Press::Elsewhere));

    card.offer_fixes(Vec::new());
    assert_eq!(card.labels, vec!["Next"], "in place of those offered before");
}

// ── what a symbol is ────────────────────────────────────────────────────────

const TEXT: &str = "fn main() {\n    helper();\n}\n";

/// An editor over [`TEXT`] drawn from the top left corner, with a server that
/// says what symbols are.
struct Tester {
    app: App,
    rope: Rope,
    asked: u64,
    cancelled: Vec<u64>,
    mark: bool,
}

impl Tester {
    fn new() -> Tester {
        Tester {
            app: App::new(Some("main.rs".to_string()), false, &nothing_laid()),
            rope: Rope::from_str(TEXT),
            asked: 0,
            cancelled: Vec::new(),
            mark: false,
        }
    }

    fn helper(&self) -> (u16, u16) {
        (4, 1)
    }

    fn position(&self, column: u16, row: u16) -> Option<usize> {
        let start = self.rope.line_to_char(usize::from(row));
        let at = start + usize::from(column);
        (at < self.rope.line_to_char(usize::from(row) + 1)).then_some(at)
    }

    fn word(&self, at: usize) -> (usize, usize) {
        let named = |at: usize| nun::words::is_word(self.rope.char(at));
        let mut from = at;
        while from > 0 && named(from - 1) {
            from -= 1;
        }
        let mut to = at;
        while to < self.rope.len_chars() && named(to) {
            to += 1;
        }
        (from, to)
    }

    fn pointed(&self, target: Target, at: Option<usize>) -> Pointed {
        Pointed {
            target: Some(target),
            overlay: false,
            pane: 0,
            doc: 0,
            at,
            symbol: at.and_then(|at| hover_word(&self.rope, at, self.word(at))),
            offers: true,
            card_held: self.app.card.as_ref().is_some_and(|card| card.held),
        }
    }

    fn follow(&mut self, moved: bool, pointed: Pointed, now: u64) {
        let followed = self.app.hovering.hover_pointer(moved, &pointed, now);
        self.cancelled.extend(followed.cancel);
        if followed.close_card {
            self.app.close_card();
        }
    }

    fn moved(&mut self, column: u16, row: u16, now: u64) {
        let at = self.position(column, row);
        let on_mark = self.mark && (column, row) == self.helper();
        let target = if on_mark { Target::Diagnostic(0, 0) } else { Target::Text };
        let pointed = self.pointed(target, at);
        self.follow(true, pointed, now);
    }

    fn deadline(&self) -> Option<u64> {
        self.app.deadline(&Vec::new())
    }

    fn ask(&mut self, now: u64) {
        if let HoverTask::Ask(_, _) = self.app.hovering.hover_tick(now, 0) {
            self.asked += 1;
            self.app.hovering.hover_sent(Some((self.asked, Some(1))));
        }
    }

    fn answered(&mut self, problems: Vec<Paragraph>, what: Vec<Paragraph>, links: Vec<String>) {
        assert!(matches!(self.app.hovering.hover_answered(Some(1), Ok(())), HoverAnswer::Show));
        self.found(problems, what, links);
    }

    fn found(&mut self, problems: Vec<Paragraph>, what: Vec<Paragraph>, links: Vec<String>) {
        let Some(described) = self.app.hovering.hover_found(None, true) else { return };
        let name = hover_text(&self.rope, described.from, described.to);
        match self.app.hovering.hover_card(&described, &name, problems, what, links) {
            Shown::Card(card, _) => {
                self.app.show_card(card);
            },
            Shown::Say(said) => self.app.warn(said),
            Shown::Nothing => {},
        }
    }

    fn hover_helper(&mut self) {
        let (x, y) = self.helper();
        self.moved(x + 2, y, 1000);
        let due = self.deadline().expect("waiting for the pointer to settle");
        self.ask(due);
        let what = vec![paragraph("fn helper()"), paragraph("Does things.")];
        self.answered(Vec::new(), what, vec!["https://example.com/x".to_string()]);
    }

    fn card_text(&self) -> Vec<String> {
        let card = self.app.card.as_ref().expect("a card on screen");
        let said = |run: &Run| match run {
            Run::Text(text) | Run::Dim(text) | Run::Old(text) | Run::Styled(text, _) => text.clone(),
            other => format!("{other:?}"),
        };
        card.body.iter().map(|runs| runs.iter().map(said).collect()).collect()
    }
}

#[test]
fn resting_on_a_symbol_opens_its_card_beside_it_with_the_markdown_rendered() {
    let mut t = Tester::new();
    assert!(t.app.wants_motion(false, true), "the pointer is followed over plain text");
    t.hover_helper();

    let card = t.app.card.as_ref().unwrap();
    assert_eq!(card.anchor, Anchor::Text { pane: 0, doc: 0, from: 16, to: 22 });
    assert_eq!(t.card_text(), vec!["fn helper()", "Does things."]);
    assert_eq!(t.asked, 1);
}

#[test]
fn osc8_can_be_turned_off_and_the_link_still_clicks() {
    let mut t = Tester::new();
    t.app.set_hover(DELAY, false);
    t.hover_helper();
    let card = t.app.card.as_ref().unwrap();
    assert!(!card.hyperlinks);
    assert!(matches!(card.card_click(Target::CardLink(0)), Press::Follow(Some(link))
        if link == "https://example.com/x"));
    assert!(matches!(card.card_click(Target::CardLink(1)), Press::Follow(None)));
}

#[test]
fn the_card_stays_over_the_symbol_and_the_card_and_goes_elsewhere() {
    let mut t = Tester::new();
    t.hover_helper();
    let (x, y) = t.helper();
    let now = 2000;
    t.moved(x, y, now);
    assert!(t.app.card.is_some(), "along the same symbol");
    let inside = t.pointed(Target::Card, None);
    t.follow(true, inside, now);
    assert!(t.app.card.is_some(), "into the card");
    t.follow(false, inside, now);
    assert!(t.app.card.is_some(), "the wheel scrolls it rather than closing it");
    t.moved(x - 2, y, now);
    assert!(t.app.card.is_none(), "whitespace is not the symbol");
}

#[test]
fn the_card_does_not_take_the_keyboard() {
    let mut t = Tester::new();
    t.hover_helper();
    let facts = KeyFacts { card_height: Some(2), chord: false, page: 10 };
    let answer = t.app.handle_key(&key_event(KeyCode::Char('x'), Modifiers::none()), &facts);
    assert!(t.app.card.is_none());
    assert!(matches!(answer.task, KeyedTask::Feed(_)), "the key was typed");
}

#[test]
fn moving_away_before_the_answer_cancels_the_question() {
    let mut t = Tester::new();
    let (x, y) = t.helper();
    t.moved(x, y, 1000);
    let due = t.deadline().unwrap();
    t.ask(due);
    let id = match t.app.hovering.spot.map(|spot| spot.state) {
        Some(State::Asking(id, _)) => id,
        other => panic!("asked: {other:?}"),
    };
    assert!(t.cancelled.is_empty());

    t.moved(x, y + 1, 1000);
    assert!(t.app.hovering.spot.is_none());
    assert_eq!(t.cancelled, vec![id], "cancelled");
}

#[test]
fn moving_away_before_the_delay_asks_nothing() {
    let mut t = Tester::new();
    let (x, y) = t.helper();
    let now = 1000;
    t.moved(x, y, now);
    assert_eq!(t.deadline(), Some(now + DELAY));
    t.moved(x - 3, y, now + DELAY / 2);
    assert_eq!(t.deadline(), None);
    t.ask(now + DELAY * 2);
    assert!(t.app.hovering.spot.is_none());
    assert_eq!(t.asked, 0);
}

#[test]
fn the_delay_is_as_configured() {
    let mut t = Tester::new();
    t.app.set_hover(1200, true);
    let (x, y) = t.helper();
    let now = 1000;
    t.moved(x, y, now);
    assert_eq!(t.deadline(), Some(now + 1200));
    t.ask(now + DELAY);
    assert!(matches!(t.app.hovering.spot.unwrap().state, State::Settling(_)));
}

#[test]
fn show_hover_opens_a_keyboard_card_at_the_caret() {
    let mut t = Tester::new();
    let at = t.rope.line_to_char(1) + 6;
    let reply = t.app.hovering.show_hover(true, String::new());
    assert_eq!(reply.outcome, Outcome::Continue);
    let symbol = hover_word(&t.rope, at, t.word(at));
    t.app.hovering.show_sent(0, 0, at, symbol, Ok((7, Some(1))));
    t.answered(Vec::new(), vec![paragraph("fn helper()")], Vec::new());
    assert!(t.app.card.is_some());
    assert!(!t.app.card.as_ref().unwrap().held, "a keyboard card");

    // The pointer passing over the text leaves it be.
    t.moved(0, 0, 3000);
    assert!(t.app.card.is_some());
    let facts = KeyFacts { card_height: Some(2), chord: false, page: 10 };
    t.app.handle_key(&key_event(KeyCode::Esc, Modifiers::none()), &facts);
    assert!(t.app.card.is_none());
}

#[test]
fn a_diagnostic_on_the_symbol_shares_its_card() {
    let mut t = Tester::new();
    t.mark = true;
    let (x, y) = t.helper();
    t.moved(x, y, 1000);
    let due = t.deadline().unwrap();
    t.ask(due);
    let problem = vec![vec![
        Run::Severity(Severity::Error),
        Run::Text("cannot find function `helper`".to_string()),
    ]];
    t.answered(problem, vec![paragraph("fn helper()")], Vec::new());

    let text = t.card_text();
    assert_eq!(text.len(), 3, "{text:?}");
    assert!(text[0].contains("cannot find function"), "what is wrong first: {text:?}");
    assert_eq!(text[1], "", "a line between");
    assert_eq!(text[2], "fn helper()");
    assert!(t.app.card.as_ref().unwrap().held);

    // The underline's own dwell does not replace it.
    assert_eq!(t.app.dwelt(Target::Diagnostic(0, 0)), Dwell::Nothing);
    assert!(t.card_text().contains(&"fn helper()".to_string()));
}

#[test]
fn a_file_link_opens_the_file_at_its_line_and_others_are_refused() {
    assert!(matches!(follow_link("file:///tmp/lib.rs#L3"), LinkTask::File));
    assert_eq!(file_link("file:///tmp/lib.rs#L3"), ("file:///tmp/lib.rs".to_string(), 2));
    assert_eq!(file_link("file:///tmp/lib.rs#12"), ("file:///tmp/lib.rs".to_string(), 11));
    assert_eq!(file_link("file:///tmp/lib.rs"), ("file:///tmp/lib.rs".to_string(), 0));

    match follow_link("command:rust-analyzer.run") {
        LinkTask::Say(said) => assert_eq!(said, "nun does not open command: links."),
        other => panic!("{other:?}"),
    }
    match follow_link("https://example.com/\x1b]evil") {
        LinkTask::Say(said) => {
            assert_eq!(said, "That link has characters in it nun will not pass on.");
        },
        other => panic!("a control byte is not passed on: {other:?}"),
    }
    match follow_link("HTTPS://example.com/x") {
        LinkTask::Launch(link, said) => {
            assert_eq!(link, "HTTPS://example.com/x");
            assert_eq!(said, "Opening HTTPS://example.com/x");
        },
        other => panic!("{other:?}"),
    }
    match follow_link("nowhere") {
        LinkTask::Say(said) => assert_eq!(said, "nowhere is not a link nun can open."),
        other => panic!("{other:?}"),
    }
}

#[test]
fn every_form_a_hover_can_take_is_read() {
    let read = |said: Contents| -> Vec<String> {
        contents(said)
            .iter()
            .map(|one| match one {
                Marked::Markdown(text) => format!("markdown {text}"),
                Marked::Code(language, text) => format!("{language} {text}"),
                Marked::Plain(text) => format!("plain {text}"),
            })
            .collect()
    };
    let scalar = Contents::Scalar(Marked::Markdown("*a*".into()));
    assert_eq!(read(scalar), vec!["markdown *a*"]);
    let code = Contents::Scalar(Marked::Code("rust".into(), "fn f()".into()));
    assert_eq!(read(code), vec!["rust fn f()"]);
    let array =
        Contents::Array(vec![Marked::Markdown("one".into()), Marked::Markdown("two".into())]);
    assert_eq!(read(array), vec!["markdown one", "markdown two"]);
    let text = Contents::Markup(false, "*not* markdown".into());
    assert_eq!(read(text), vec!["plain *not* markdown"]);
    let markdown = Contents::Markup(true, "```\nlet x\n```".into());
    assert_eq!(read(markdown), vec!["markdown ```\nlet x\n```"]);
}

#[test]
fn an_empty_answer_shows_nothing_and_says_so_to_the_keyboard() {
    let mut t = Tester::new();
    t.app.hovering.spot = Some(Spot {
        pane: 0,
        doc: 0,
        at: 0,
        from: 0,
        to: 2,
        pointer: false,
        state: State::Answered,
    });
    t.found(Vec::new(), Vec::new(), Vec::new());
    assert!(t.app.card.is_none());
    assert_eq!(t.app.message().as_deref(), Some("Nothing to say about `fn`."));
}

#[test]
fn an_answer_about_text_that_has_changed_is_dropped() {
    let mut t = Tester::new();
    let (x, y) = t.helper();
    t.moved(x, y, 0);
    t.ask(DELAY);
    assert!(matches!(t.app.hovering.hover_answered(Some(2), Ok(())), HoverAnswer::Nothing));
    assert!(t.app.hovering.spot.is_none());

    t.app.hovering.show_sent(0, 0, 0, Some((0, 2)), Ok((9, Some(1))));
    match t.app.hovering.hover_answered(Some(1), Err("it broke".to_string())) {
        HoverAnswer::Say(said) => assert_eq!(said, "Could not describe the symbol: it broke."),
        other => panic!("{other:?}"),
    }
    assert_eq!(ask_hover(false, true).as_deref(), Some("no language server"));
    assert_eq!(ask_hover(true, false).as_deref(), Some("the file is not followed"));
    assert_eq!(ask_hover(true, true), None);
    let reply = t.app.hovering.show_sent(0, 0, 0, None, Err("it is starting".to_string()));
    assert_eq!(reply.message.as_deref(), Some("Cannot describe the symbol: it is starting."));
}

#[test]
fn punctuation_is_a_symbol_and_white_space_is_not() {
    let rope = Rope::from_str(TEXT);
    assert_eq!(hover_word(&rope, 7, (3, 7)), Some((7, 8)), "the bracket");
    assert_eq!(hover_word(&rope, 4, (3, 7)), Some((3, 7)));
    assert_eq!(hover_word(&rope, 2, (2, 2)), None);
    assert_eq!(hover_word(&rope, 900, (0, 0)), None);
    assert_eq!(hover_text(&rope, 16, 22), "helper");
    assert_eq!(hover_text(&rope, 16, 900), "helper();\n}\n");
    let described = Described { pane: 0, doc: 0, from: 0, to: 2, pointer: true };
    let hovering = nun::hover::Hovering::default();
    let shown = hovering.hover_card(&described, "fn", Vec::new(), Vec::new(), Vec::new());
    assert!(matches!(shown, Shown::Nothing), "the pointer is told nothing");
}
