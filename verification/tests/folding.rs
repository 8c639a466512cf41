use nun::folds::{
    fold_all, fold_click, fold_here, fold_offers, nothing_to_fold, FoldClick, FoldRange, Folding, Nothing,
};
use nun::outcome::Outcome;

/// Where this folds: an impl block with two methods in it, and a function
/// after it.
fn ranges() -> Vec<FoldRange> {
    vec![range(0, 8), range(1, 4), range(5, 7), range(9, 11)]
}

fn range(header: u32, last: u32) -> FoldRange {
    FoldRange { header, last }
}

/// A document of twelve lines, some of them folded.
struct Tester {
    folding: Folding,
    folded: Vec<(usize, usize)>,
}

impl Tester {
    fn new(remembered: Vec<usize>) -> Tester {
        let mut folding = Folding::new();
        let (outcome, back) = folding.folds_arrived(1, ranges(), &remembered);
        assert_eq!(outcome, Outcome::Redraw);
        let mut t = Tester { folding, folded: Vec::new() };
        for range in back {
            t.fold(range);
        }
        t
    }

    fn headers(&self) -> Vec<usize> {
        self.folded.iter().map(|(header, _)| *header).collect()
    }

    fn fold(&mut self, range: FoldRange) {
        self.folded.push((range.header as usize, range.last as usize));
        self.folded.sort_unstable();
        self.folded.dedup();
    }

    fn unfold(&mut self, line: usize) {
        self.folded.retain(|(header, _)| *header != line);
    }

    fn click_arrow(&mut self, line: usize, alt: bool) {
        match fold_click(&self.folding.ranges, &self.headers(), line, alt) {
            FoldClick::NoArrow => {},
            FoldClick::Fold(all) => {
                for range in all {
                    self.fold(range);
                }
            },
            FoldClick::Unfold(all) => {
                self.unfold(line);
                for range in all {
                    self.unfold(range.header as usize);
                }
            },
        }
    }
}

#[test]
fn arrows_sit_only_beside_what_can_fold() {
    let t = Tester::new(Vec::new());
    let arrowed: Vec<usize> = (0..7)
        .filter(|line| {
            !matches!(fold_click(&t.folding.ranges, &Vec::new(), *line, false), FoldClick::NoArrow)
        })
        .collect();
    assert_eq!(arrowed, [0, 1, 5], "impl, one, two — not the calls");
}

#[test]
fn clicking_an_arrow_folds_and_clicking_again_unfolds() {
    let mut t = Tester::new(Vec::new());
    t.click_arrow(1, false);
    assert_eq!(t.folded, [(1, 4)]);

    t.click_arrow(1, false);
    assert!(t.folded.is_empty());
}

#[test]
fn alt_click_folds_every_sibling() {
    let mut t = Tester::new(Vec::new());
    t.click_arrow(1, true);
    assert_eq!(t.folded, [(1, 4), (5, 7)], "both methods, not the impl");
    t.click_arrow(5, true);
    assert!(t.folded.is_empty());
}

#[test]
fn the_commands_fold_around_the_caret_and_open_it_again() {
    let mut t = Tester::new(Vec::new());
    let line = 2;
    assert_eq!(fold_offers(&t.folding.ranges, &t.headers(), line), (true, false));
    let inner = fold_here(&t.folding.ranges, &t.headers(), line).unwrap();
    t.fold(inner);
    assert_eq!(t.folded, [(1, 4)], "the innermost region around the caret");
    let outer = fold_here(&t.folding.ranges, &t.headers(), line).unwrap();
    t.fold(outer);
    assert_eq!(t.folded, [(0, 8), (1, 4)], "and then the one around that");
    assert_eq!(fold_here(&t.folding.ranges, &t.headers(), line), None);
    assert_eq!(fold_offers(&t.folding.ranges, &t.headers(), 0), (false, true));
    t.unfold(0);
    assert_eq!(t.folded, [(1, 4)]);
    for range in fold_all(&t.folding.ranges).unwrap() {
        t.fold(range);
    }
    assert_eq!(t.folded, [(0, 8), (1, 4), (5, 7), (9, 11)], "nested ones with the rest");
    assert_eq!(fold_all(&Vec::new()), Err("Nothing in this file to fold."));
}

#[test]
fn folds_come_back_after_a_restart() {
    let mut t = Tester::new(Vec::new());
    t.click_arrow(5, false);
    assert_eq!(t.folded, [(5, 7)]);
    assert!(t.folding.worth_remembering(true));
    let remembered = t.headers();

    let t = Tester::new(remembered);
    assert_eq!(t.folded, [(5, 7)], "put back once the parse says it is still a region");
}

#[test]
fn a_remembered_fold_that_is_no_longer_a_region_is_left_open() {
    // Line 2 is a call, not a region.
    let t = Tester::new(vec![2, 5]);
    assert_eq!(t.folded, [(5, 7)], "only the one that still is");
}

#[test]
fn an_older_parse_is_dropped_and_folds_are_put_back_once() {
    let mut t = Tester::new(vec![5]);
    let (outcome, back) = t.folding.folds_arrived(0, Vec::new(), &vec![5]);
    assert_eq!(outcome, Outcome::Continue);
    assert!(back.is_empty());
    assert_eq!(t.folding.ranges.len(), 4);

    let (outcome, back) = t.folding.folds_arrived(2, ranges(), &vec![5]);
    assert_eq!(outcome, Outcome::Redraw);
    assert!(back.is_empty(), "once is enough");
}

#[test]
fn what_has_not_been_parsed_is_not_remembered_over() {
    let folding = Folding::new();
    assert!(!folding.worth_remembering(true));
    assert!(folding.worth_remembering(false), "nothing to wait for");
}

#[test]
fn with_nothing_to_fold_it_says_so() {
    assert_eq!(nothing_to_fold(Nothing::Around), "Nothing around the caret to fold.");
    assert_eq!(nothing_to_fold(Nothing::Folded), "Nothing is folded on this line.");
    assert_eq!(nothing_to_fold(Nothing::InFile), "Nothing in this file to fold.");
}
