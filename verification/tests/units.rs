use nun::emphasis::{by_line, inlined};
use nun::folds::{siblings, FoldRange};
use nun::format::indents_with_tabs;
use nun::gutter::Hunk;
use nun::navigation::{places_of, Definition, Linked, Location};
use nun::place::{Encoding, Place, Position};
use nun::references::{fill_lines, Hit};
use ropey::Rope;

fn range(header: u32, last: u32) -> FoldRange {
    FoldRange { header, last }
}

#[test]
fn siblings_share_the_region_around_them() {
    // impl 0..9 { fn 1..3, fn 4..8 { inner 5..6 } }, fn 10..12
    let ranges = vec![range(0, 9), range(1, 3), range(4, 8), range(5, 6), range(10, 12)];
    assert_eq!(siblings(&ranges, 1), [range(1, 3), range(4, 8)], "the methods");
    assert_eq!(siblings(&ranges, 0), [range(0, 9), range(10, 12)], "the top level");
    assert_eq!(siblings(&ranges, 3), [range(5, 6)], "an only child");
}

#[test]
fn a_file_indented_with_tabs_asks_for_tabs() {
    assert!(indents_with_tabs(&Rope::from_str("fn f() {\n\tx\n}\n")));
    assert!(!indents_with_tabs(&Rope::from_str("fn f() {\n    x\n}\n")));
    assert!(!indents_with_tabs(&Rope::from_str("")), "spaces when there is nothing to go by");
}

#[test]
fn changed_words_are_split_by_the_line_they_are_on() {
    let mut out = Vec::new();
    // "ab\ncd\n": chars 1..5 run from the b, over the break, into the c.
    by_line("ab\ncd\n", 7, &vec![(1, 5)], &mut out);
    assert_eq!(out, [(7, (1, 2)), (8, (0, 2))]);
    assert_eq!(out.len(), 2);
}

#[test]
fn a_modified_hunk_gets_its_changed_words_and_nothing_else_does() {
    let text = "keep\nlet x = 2;\nnew line\nadded\n";
    let hunks = vec![Hunk { before_start: 1, before_end: 3, after_start: 1, after_end: 4 }];
    let olds = vec!["let x = 1;\nold\n".to_string()];
    assert_eq!(inlined(&hunks, &olds, &Rope::from_str(text)), [0]);

    // The digit is char 8 of both sides of the change.
    let (mut before, mut after) = (Vec::new(), Vec::new());
    by_line(&olds[0], hunks[0].before_start, &vec![(8, 9)], &mut before);
    by_line("let x = 2;\nnew line\nadded\n", hunks[0].after_start, &vec![(8, 9)], &mut after);
    assert_eq!(before, [(1, (8, 9))], "{before:?}");
    assert_eq!(after, [(1, (8, 9))], "{after:?}");
    assert!(
        before.iter().all(|(line, _)| *line != 0) && after.iter().all(|(line, _)| *line != 0),
        "context is untouched"
    );
}

#[test]
fn an_added_hunk_and_one_too_large_get_no_changed_words() {
    let long = "x\n".repeat(201);
    let text = format!("new\n{long}");
    let hunks = vec![
        Hunk { before_start: 0, before_end: 0, after_start: 0, after_end: 1 },
        Hunk { before_start: 0, before_end: 201, after_start: 1, after_end: 202 },
    ];
    let olds = vec![String::new(), long];
    assert!(inlined(&hunks, &olds, &Rope::from_str(&text)).is_empty());
}

fn at(line: u32, character: u32) -> Position {
    Position { line, character }
}

fn location(path: &str) -> Location {
    Location { path: Some(path.to_string()), start: at(3, 4), end: at(3, 9) }
}

fn spelled(places: &[Place]) -> Vec<(String, Position, Position, Encoding)> {
    places.iter().map(|p| (p.path.clone(), p.start, p.end, p.encoding)).collect()
}

#[test]
fn a_location_and_a_location_link_go_to_the_same_kind_of_place() {
    let path = "/tmp/nun-a.rs";
    let scalar = places_of(Some(Definition::Scalar(location(path))), Encoding::Utf8);
    assert_eq!(
        spelled(&scalar),
        vec![(path.to_string(), at(3, 4), at(3, 9), Encoding::Utf8)]
    );

    let array = places_of(Some(Definition::Array(vec![location(path)])), Encoding::Utf8);
    assert_eq!(spelled(&array), spelled(&scalar));

    // A link lands on its selection range, not on the whole of what it
    // points at.
    let link = Linked { origin: None, target: location(path) };
    let links = places_of(Some(Definition::Link(vec![link])), Encoding::Utf8);
    assert_eq!(spelled(&links), spelled(&scalar));
    assert!(places_of(None, Encoding::Utf8).is_empty());
}

#[test]
fn the_same_place_named_twice_is_offered_once() {
    let path = "/tmp/nun-a.rs";
    let places = places_of(
        Some(Definition::Array(vec![location(path), location(path)])),
        Encoding::Utf16,
    );
    assert_eq!(places.len(), 1);
}

#[test]
fn what_is_no_file_is_no_place() {
    let nowhere = Location { path: None, start: at(0, 0), end: at(0, 1) };
    assert!(places_of(Some(Definition::Scalar(nowhere)), Encoding::Utf8).is_empty());
}

#[test]
fn a_reference_is_picked_out_in_chars_whatever_the_server_counts_in() {
    // `a😀` is three UTF-16 units before `name`, and five bytes.
    let text = "a😀 name";
    for (encoding, start) in [(Encoding::Utf16, 4), (Encoding::Utf8, 6), (Encoding::Utf32, 3)] {
        let place = Place {
            path: "/x".to_string(),
            start: at(0, start),
            end: at(0, start + 4),
            encoding,
        };
        let mut hits = vec![Hit { place, text: String::new(), matched: None }];
        fill_lines(&mut hits, &vec![(0, text.to_string())], "…");
        let hit = &hits[0];
        let (from, to) = hit.matched.unwrap();
        let picked: String =
            hit.text.chars().skip(from as usize).take((to - from) as usize).collect();
        // UTF-8's end is counted in bytes too, so `name` is four of them.
        assert_eq!(picked, "name", "{encoding:?}");
    }
}
