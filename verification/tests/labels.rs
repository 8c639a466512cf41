use nun::labels::{button_label, drawn_width, printable, MOST_BUTTON_WIDTH};
use unicode_segmentation::UnicodeSegmentation;
use unicode_width::UnicodeWidthStr;

#[test]
fn a_long_title_is_cut_short_on_its_button() {
    let label = button_label("Change the type of this binding to something much longer", "…");
    assert!(label.ends_with('…'));
    assert!(label.width() <= MOST_BUTTON_WIDTH, "{label}");
    assert_eq!(button_label("Short", "…"), "Short");
    assert_eq!(button_label("Import\nfrom\tthere", "…"), "Import from there");

    let label =
        button_label("Change the type of this binding to something much longer", "~\u{301}");
    assert!(label.ends_with("~\u{301}"), "{label}");
    assert_eq!(label.width(), MOST_BUTTON_WIDTH, "the ellipsis is one cell, however many chars");
}

#[test]
fn a_title_is_never_cut_inside_a_grapheme() {
    for (title, whole) in [
        (format!("{}👨\u{200d}👩\u{200d}👧 family", "a".repeat(27)), "👨\u{200d}👩\u{200d}👧"),
        (format!("{}🇮🇸 flag", "a".repeat(28)), "🇮🇸"),
        (format!("{}👍🏽 ok", "a".repeat(27)), "👍🏽"),
    ] {
        let label = button_label(&title, "…");
        let kept = label.strip_suffix('…').unwrap();
        assert!(title.starts_with(kept), "{label:?}");
        let last = kept.graphemes(true).next_back().unwrap();
        assert!(last == "a" || last == whole, "{label:?}");
    }
    // Measured as it is drawn: a grapheme at a time.
    let label = button_label(&"لا".repeat(15), "…");
    assert!(drawn_width(&label) <= MOST_BUTTON_WIDTH, "{label}");
}

#[test]
fn a_title_keeps_no_control_characters() {
    assert_eq!(printable("a\tb\nc\u{7}d"), "a b c d");
    assert_eq!(printable("plain"), "plain");
}
