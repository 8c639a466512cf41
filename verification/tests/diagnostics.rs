use nun::diagnostics::{
    carried, severity, tally, Answer, Diagnostics, Found, Mark, Marked, Severity, MOST_VERSIONS,
};
use nun::edit::Edit;
use nun::place::Encoding;
use ropey::Rope;

/// A document a store follows, and its text as it is.
struct Following {
    store: Diagnostics,
    text: Rope,
}

fn following(text: &str) -> Following {
    let text = Rope::from_str(text);
    let mut store = Diagnostics::new();
    store.opened(0, 0, &text);
    Following { store, text }
}

/// A diagnostic as a server counting in UTF-16 says it, on one line of `text`.
fn found(text: &Rope, line: u32, from: u32, to: u32, severity: Severity, message: &str) -> Found {
    let start = text.line_to_char(line as usize);
    let row = text.line(line as usize).to_string();
    let at = |units: u32| start + Encoding::Utf16.column(&row, units);
    Found {
        place: (line, from, line, to),
        span: (at(from), at(to)),
        severity,
        message: message.to_string(),
        source: Some("rustc".to_string()),
        code: None,
    }
}

impl Following {
    /// Replace `from..to`, and tell the store about it as the next version.
    fn replace(&mut self, version: i32, from: usize, to: usize, text: &str) {
        self.text.remove(from..to);
        self.text.insert(from, text);
        let edits = vec![Edit { start: from, end: to, text: text.to_string() }];
        self.store.changed(0, version, &edits, &self.text);
    }

    fn edit(&mut self, version: i32, at: usize, text: &str) {
        self.replace(version, at, at, text);
    }

    /// An answer about the text of `version`, or as it stands.
    fn publish(&mut self, version: Option<i32>, all: &[(u32, u32, u32, Severity, &str)]) -> bool {
        let described = match self.store.watched(0).and_then(|watched| watched.text_at(version)) {
            Some(text) => text.clone(),
            None => Rope::from_str("abc\n"),
        };
        let found = all
            .iter()
            .map(|(line, from, to, severity, message)| {
                found(&described, *line, *from, *to, *severity, message)
            })
            .collect();
        self.store.publish(0, Some(Answer { version, found }))
    }

    fn marks(&self) -> Vec<Mark> {
        self.store.watched(0).map(|watched| watched.marks.clone()).unwrap_or_default()
    }

    fn marked(&self) -> Vec<String> {
        self.marks()
            .iter()
            .map(|mark| self.text.slice(mark.start..mark.end).to_string())
            .collect()
    }
}

#[test]
fn an_answer_about_an_old_version_is_carried_through_the_edits_since() {
    let mut t = following("let x: u8 = \"a\";\nlet y = 😀z;\n");
    // Typed before the answer about version 0 arrives.
    t.edit(1, 0, "// 中文\n");
    t.edit(2, 4, "é");

    // UTF-16: the emoji is two units, so `z` is at 10..11.
    assert!(t.publish(
        Some(0),
        &[
            (0, 12, 15, Severity::Error, "mismatched types"),
            (1, 10, 11, Severity::Warning, "unused"),
        ],
    ));
    assert_eq!(t.marked(), ["\"a\"", "z"]);

    // And as editing goes on, the marks go with the text.
    let at = t.text.len_chars() - 3;
    t.edit(3, at, "  ");
    assert_eq!(t.marked(), ["\"a\"", "z"]);
}

#[test]
fn an_answer_with_no_version_describes_the_text_it_arrived_to() {
    let mut t = following("abc def\n");
    t.edit(1, 0, "xx ");
    t.publish(None, &[(0, 3, 6, Severity::Error, "bad")]);
    assert_eq!(t.marked(), ["abc"]);
}

#[test]
fn the_same_answer_twice_is_not_placed_twice() {
    let mut t = following("abc def\n");
    assert!(t.publish(Some(0), &[(0, 4, 7, Severity::Error, "bad")]));
    t.edit(1, 0, "!");
    // Placed again against version 0 it would land in the same place, but
    // a server repeating itself about an older text is not news.
    assert!(!t.publish(Some(0), &[(0, 4, 7, Severity::Error, "bad")]));
    assert_eq!(t.marked(), ["def"]);
}

#[test]
fn deleting_what_a_mark_is_on_leaves_it_empty_where_the_text_was() {
    let mut t = following("one two three\n");
    t.publish(Some(0), &[(0, 4, 7, Severity::Error, "bad")]);
    t.replace(1, 3, 8, "");
    let mark = t.marks()[0];
    assert_eq!((mark.start, mark.end), (3, 3));
}

#[test]
fn typing_at_either_end_of_a_mark_does_not_grow_it() {
    let mut t = following("abc def\n");
    t.publish(Some(0), &[(0, 4, 7, Severity::Error, "bad")]);
    t.edit(1, 7, "g");
    t.edit(2, 4, "_");
    assert_eq!(t.marked(), ["def"]);
}

#[test]
fn no_answer_clears_the_marks() {
    let mut t = following("abc\n");
    t.publish(Some(0), &[(0, 0, 1, Severity::Error, "bad")]);
    assert!(t.store.publish(0, None));
    assert!(t.marks().is_empty());
}

#[test]
fn an_answer_about_a_version_nobody_kept_is_waited_out() {
    let mut t = following("abc\n");
    for version in 1..=i32::try_from(MOST_VERSIONS).unwrap() + 5 {
        t.edit(version, 0, "x");
    }
    assert!(!t.publish(Some(0), &[(0, 0, 1, Severity::Error, "bad")]));
    assert!(t.marks().is_empty(), "rather than drawn in the wrong place");
}

#[test]
fn a_mark_stays_on_its_text_through_edits_beside_it() {
    let mut t = following("fn main() {\n    let 😀 = TARGET;\n}\n");
    t.publish(Some(0), &[(1, 13, 19, Severity::Error, "here")]);
    assert_eq!(t.marked(), ["TARGET"]);
    t.edit(1, 0, "e\u{301}");
    t.edit(2, 14, "中\n");
    t.replace(3, 0, 2, "");
    let end = t.text.len_chars();
    t.edit(4, end, "😀");
    assert_eq!(t.marked(), ["TARGET"]);
}

#[test]
fn a_closed_document_is_followed_no_more() {
    let mut t = following("abc\n");
    t.publish(Some(0), &[(0, 0, 1, Severity::Error, "bad")]);
    t.store.closed(0);
    assert!(t.store.watched(0).is_none());
    assert!(!t.store.publish(0, None));
}

#[test]
fn marks_are_in_the_order_they_start_in() {
    let mut t = following("abc def ghi\n");
    t.publish(
        Some(0),
        &[(0, 8, 11, Severity::Hint, "c"), (0, 0, 3, Severity::Error, "a"), (0, 4, 7, Severity::Warning, "b")],
    );
    assert_eq!(t.marked(), ["abc", "def", "ghi"]);
    let watched = t.store.watched(0).unwrap();
    let said: Vec<&str> = watched.notes.iter().map(|note| note.message.as_str()).collect();
    assert_eq!(said, ["a", "b", "c"], "each note beside its mark");
}

#[test]
fn what_a_server_leaves_out_is_an_error() {
    assert_eq!(severity(None), Severity::Error);
    assert_eq!(severity(Some(Marked::Warning)), Severity::Warning);
}

#[test]
fn problems_are_counted_by_kind() {
    let mark = |severity| Mark { start: 0, end: 1, severity };
    let marks = vec![
        mark(Severity::Error),
        mark(Severity::Error),
        mark(Severity::Warning),
        mark(Severity::Hint),
    ];
    let counted = tally(&marks);
    assert_eq!((counted.errors, counted.warnings, counted.notes), (2, 1, 1));
}

#[test]
fn a_mark_over_what_is_replaced_shrinks_to_what_is_left() {
    let mark = Mark { start: 4, end: 10, severity: Severity::Error };
    let edits = vec![Edit { start: 0, end: 6, text: "ab".to_string() }];
    assert_eq!(carried(mark, &edits), Mark { start: 2, end: 6, severity: Severity::Error });
}

#[test]
fn an_answer_that_finds_nothing_where_there_was_nothing_changes_nothing() {
    let mut t = following("abc\n");
    assert!(!t.publish(Some(0), &[]));
    assert!(t.publish(Some(0), &[(0, 0, 1, Severity::Error, "bad")]));
    // The same marks, said of a later version: placed again, and nothing moved.
    t.edit(1, 3, "!");
    assert!(!t.publish(Some(1), &[(0, 0, 1, Severity::Error, "bad")]));
    assert!(t.publish(Some(1), &[(0, 0, 1, Severity::Error, "worse")]), "another message");
    assert!(t.publish(Some(1), &[(0, 0, 1, Severity::Warning, "worse")]), "less serious");
    assert!(t.publish(Some(1), &[]), "and gone");
}

#[test]
fn a_late_answer_lands_after_what_was_typed_in_front_of_it() {
    let mut t = following("abc def\n");
    t.edit(1, 0, "xx ");
    assert!(t.publish(Some(0), &[(0, 4, 7, Severity::Error, "bad")]));
    let marks = t.marks();
    assert_eq!(marks.len(), 1);
    assert_eq!((marks[0].start, marks[0].end), (7, 10));

    let mut t = following("abc def\n");
    t.edit(1, 0, "xx ");
    assert!(t.publish(None, &[(0, 4, 7, Severity::Error, "bad")]));
    assert_eq!((t.marks()[0].start, t.marks()[0].end), (4, 7));
}
