use nun::references::window;

#[test]
fn a_reference_on_a_long_line_is_brought_into_view() {
    let (shown, matched) = window("short", 0, 5, "…");
    assert_eq!((shown.as_str(), matched), ("short", (0, 5)));

    let line = format!("{}needle rest", "x".repeat(100));
    let (shown, matched) = window(&line, 100, 106, "…");
    assert!(shown.starts_with('…'));
    let picked: String = shown
        .chars()
        .skip(matched.0 as usize)
        .take((matched.1 - matched.0) as usize)
        .collect();
    assert_eq!(picked, "needle");

    // An ellipsis of two chars moves the range by two.
    let (shown, matched) = window(&line, 100, 106, "~\u{301}");
    assert!(shown.starts_with("~\u{301}"));
    let picked: String = shown
        .chars()
        .skip(matched.0 as usize)
        .take((matched.1 - matched.0) as usize)
        .collect();
    assert_eq!(picked, "needle");
}
