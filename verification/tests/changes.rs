use nun::app::{App, Laid};
use nun::body::Run;
use nun::card::{Anchor, Press};
use nun::commands::{Command, DiffCommand};
use nun::diff::{
    layout_diff, lights_up, not_edited, Against, Compared, Diff, DiffKey, DiffRow, Diffing,
    Follow, Layout, Shown, Spot, Stage, Toggle, SETTLE,
};
use nun::following::{Changes, Opened};
use nun::geometry::Rect;
use nun::gutter::{
    aimed_hunk, bar_press, caret_for, change_marks, column_mark_press, find_hunk, followed_diff,
    git_lines, hunk_buttons, hunk_index_at, hunks_on_row, left_terminal, marked_lines, place,
    rails_of, reverted, step_hunk, vcs_staged, Aim, Aimed, Change, Followed,
    Hunk, HunksStep, Source,
};
use nun::hits::hit_at;
use nun::input::{KeyCode, KeyEvent, KeyKind, Modifiers};
use nun::keys::Task;
use nun::layers::{layout_change_rail, layout_changes, layout_rail};
use nun::outcome::Outcome;
use nun::pointing::ClickTask;
use nun::servers::{lsp_event, lsp_label, lsp_restart, Said};
use nun::showing::{changes_press, ChangePress};
use nun::status::{status_parts, StatusFacts, StatusParts};
use nun::target::{Focus, Target};
use ropey::Rope;

const COMMITTED: &str = "one\ntwo\nthree\nfour\nfive\nsix\n";

fn nothing_laid() -> Laid {
    Laid {
        text: Rect::new(0, 0, 0, 0),
        gutter: 0,
        sidebar: Vec::new(),
        search: Vec::new(),
        references: Vec::new(),
        edit_preview: Vec::new(),
        panes: Vec::new(),
        diagnostics: Vec::new(),
        card: Vec::new(),
        completion: Vec::new(),
        palette: Vec::new(),
        status: StatusParts {
            files: None,
            search: None,
            undo: None,
            close: None,
            lsp: None,
            problems: None,
            text: 0,
        },
        prompt: Vec::new(),
    }
}

/// The changes from `before` to `after`, line by line.
fn compare(before: &str, after: &str) -> Diff {
    let a: Vec<&str> = before.split_inclusive('\n').collect();
    let b: Vec<&str> = after.split_inclusive('\n').collect();
    let mut common = vec![vec![0; b.len() + 1]; a.len() + 1];
    for i in (0..a.len()).rev() {
        for j in (0..b.len()).rev() {
            common[i][j] = if a[i] == b[j] {
                common[i + 1][j + 1] + 1
            } else {
                common[i + 1][j].max(common[i][j + 1])
            };
        }
    }
    let (mut hunks, mut olds) = (Vec::new(), Vec::new());
    let (mut i, mut j) = (0, 0);
    while i < a.len() || j < b.len() {
        if i < a.len() && j < b.len() && a[i] == b[j] {
            i += 1;
            j += 1;
            continue;
        }
        let (from, to) = (i, j);
        while !(i < a.len() && j < b.len() && a[i] == b[j]) && (i < a.len() || j < b.len()) {
            if j == b.len() || (i < a.len() && common[i + 1][j] >= common[i][j + 1]) {
                i += 1;
            } else {
                j += 1;
            }
        }
        let line = |n: usize| u32::try_from(n).unwrap();
        hunks.push(Hunk {
            before_start: line(from),
            before_end: line(i),
            after_start: line(to),
            after_end: line(j),
        });
        olds.push(a[from..i].concat());
    }
    Diff { base: before.to_string(), hunks, olds }
}

/// An editor on a committed file that git follows.
struct Followers {
    app: App,
    rope: Rope,
    index: String,
    following: Changes,
    revision: u64,
    caret: usize,
    changes: Diff,
    undone: Vec<Rope>,
}

impl Followers {
    fn new() -> Followers {
        let mut following = Changes::new();
        assert_eq!(following.vcs_open(0, true, 0), Opened::Open(1));
        assert_eq!(following.vcs_hunks(0, 1, true, true), Outcome::Redraw);
        Followers {
            app: App::new(Some("a.txt".to_string()), false, &nothing_laid()),
            rope: Rope::from_str(COMMITTED),
            index: COMMITTED.to_string(),
            following,
            revision: 0,
            caret: 0,
            changes: compare(COMMITTED, COMMITTED),
            undone: Vec::new(),
        }
    }

    fn text(&self) -> String {
        self.rope.to_string()
    }

    fn replace(&mut self, from: usize, to: usize, text: &str, now: u64) {
        self.undone.push(self.rope.clone());
        self.rope.remove(from..to);
        self.rope.insert(from, text);
        self.caret = from + text.chars().count();
        self.revision += 1;
        self.following.vcs_follow(&vec![(0, self.revision)], now, false);
    }

    fn type_at(&mut self, at: usize, text: &str) {
        self.replace(at, at, text, 0);
    }

    /// Send whatever is due, and take what git says of it.
    fn settle(&mut self) {
        if let Some(due) = self.following.deadline() {
            assert_eq!(self.following.tick(due), vec![0]);
            if let Some(version) = self.following.vcs_send(0, self.revision) {
                if self.following.vcs_hunks(0, version, true, true) == Outcome::Redraw {
                    self.changes = compare(&self.index, &self.text());
                }
            }
        }
    }

    fn lines(&self) -> u32 {
        git_lines(&self.rope)
    }

    fn marks(&self) -> Vec<(usize, Change)> {
        change_marks(&self.changes.hunks, self.lines(), 0, 10)
    }

    fn line(&self) -> usize {
        self.rope.char_to_line(self.caret)
    }

    fn aimed(&self, aimed: Option<Aim>) -> Aimed {
        aimed_hunk(aimed, Source::Latest, &self.changes.hunks, self.lines(), self.line())
    }

    /// Put a change back, as one step.
    fn revert(&mut self, index: usize) {
        let hunk = self.changes.hunks[index];
        let start = self.rope.line_to_char(hunk.after_start as usize);
        let end = self.rope.line_to_char(hunk.after_end as usize);
        let old = self.changes.olds[index].clone();
        self.replace(start, end, &old, 0);
    }

    fn go_to(&mut self, index: usize) {
        let hunk = self.changes.hunks[index];
        let aim = Aim { doc: 0, hunk };
        let buttons = hunk_buttons(self.changes.hunks.len(), "▲", "▼");
        let lines = self.lines();
        let old = self.changes.olds[index].clone();
        let gone = self.app.go_to_hunk(0, aim, buttons, &self.rope, lines, &old);
        assert_eq!(gone.caret, caret_for(&self.rope, &hunk, lines));
        self.caret = gone.caret;
    }

    fn step(&mut self, forward: bool) {
        let command = if forward { Command::NextHunk } else { Command::PreviousHunk };
        match self.app.run(command) {
            Task::StepHunk { forward } => {
                let lines = self.lines();
                let line = self.line();
                let index = step_hunk(&self.changes.hunks, lines, line, forward).unwrap();
                self.go_to(index);
            },
            other => panic!("{other:?}"),
        }
    }

    fn press_bar(&mut self, index: usize) {
        let lines = self.lines();
        let line = self.line();
        let to = bar_press(&self.changes.hunks, lines, line, index).unwrap();
        self.go_to(to);
    }
}

#[test]
fn unsaved_edits_are_marked_once_the_typing_pauses_each_kind_its_own_way() {
    let mut t = Followers::new();
    assert!(t.marks().is_empty(), "nothing changed yet");
    assert!(t.following.docs[0].compared, "but git follows the file");

    t.type_at(4, "2");
    assert!(t.following.deadline().is_some(), "the text waits for the typing to pause");
    t.settle();
    assert_eq!(t.marks(), [(1, Change::Modified)]);

    // A new line at the end, and `four` gone.
    let end = t.rope.len_chars();
    t.type_at(end, "seven\n");
    let four = t.text().find("four").unwrap();
    t.replace(four, four + 5, "", 0);
    t.settle();
    assert_eq!(
        t.marks(),
        [(1, Change::Modified), (3, Change::RemovedAbove), (5, Change::Added)]
    );
}

#[test]
fn revert_puts_back_exactly_the_hunk_and_undo_brings_it_back() {
    let mut t = Followers::new();
    t.type_at(4, "TWO ");
    let end = t.rope.len_chars();
    t.type_at(end, "seven\n");
    t.settle();
    let edited = t.text();
    assert_eq!(edited, "one\nTWO two\nthree\nfour\nfive\nsix\nseven\n");

    // On line 2, by key: only that hunk goes.
    t.caret = 5;
    assert!(matches!(t.app.run(Command::RevertHunk), Task::RevertHunk));
    let Aimed::At(index) = t.aimed(None) else { panic!("there is a change here") };
    t.revert(index);
    assert_eq!(reverted(Ok(())).message.as_deref(), Some("Reverted. Undo brings it back."));
    assert_eq!(t.text(), "one\ntwo\nthree\nfour\nfive\nsix\nseven\n");
    t.settle();
    assert_eq!(t.marks(), [(6, Change::Added)], "the other hunk is still there");

    t.rope = t.undone.pop().unwrap();
    assert_eq!(t.text(), edited, "one undo step");
}

#[test]
fn resting_on_a_bar_offers_its_old_text_and_stage_writes_only_the_index() {
    let mut t = Followers::new();
    t.type_at(4, "TWO ");
    let end = t.rope.len_chars();
    t.type_at(end, "seven\n");
    t.settle();
    // The caret is on the last line; the card is about line 2.
    let opener = Target::Change(0, 0);
    let aim = Aim { doc: 0, hunk: t.changes.hunks[0] };
    let buttons = hunk_buttons(2, "▲", "▼");
    let lines = t.lines();
    let old = t.changes.olds[0].clone();
    t.app.show_hunk_card(0, aim, buttons, &t.rope, lines, &old, None, Some(opener));
    let card = t.app.card.as_ref().expect("a card about the change");
    let shown: String = card
        .body
        .iter()
        .flatten()
        .map(|run| match run {
            Run::Text(text) | Run::Dim(text) | Run::Old(text) => text.clone(),
            other => format!("{other:?}"),
        })
        .collect();
    assert!(shown.contains("Changed line 2. It was:"), "{shown}");
    assert!(shown.contains("two"), "{shown}");
    assert_eq!(card.labels[0], "Revert");
    assert_eq!(card.labels[1], "Stage");
    assert_eq!(card.anchor, Anchor::Text { pane: 0, doc: 0, from: 4, to: 4 });

    let pressed = card.card_click(Target::CardButton(1));
    let Press::Run(Some(Command::StageHunk), Some(aim)) = pressed else { panic!("{pressed:?}") };
    t.following.aim(Some(aim));
    let aimed = t.following.take_aim();
    assert!(matches!(t.aimed(aimed), Aimed::At(0)), "the card's, not the caret's");
    assert!(t.following.take_aim().is_none(), "once");
    assert_eq!(vcs_staged(Ok(())).message.as_deref(), Some("Staged."));
    t.index = "one\nTWO two\nthree\nfour\nfive\nsix\n".to_string();
    t.changes = compare(&t.index, &t.text());
    assert_eq!(
        t.text(),
        "one\nTWO two\nthree\nfour\nfive\nsix\nseven\n",
        "the buffer is as it was"
    );
    assert_eq!(t.marks(), [(6, Change::Added)], "what was staged is no longer marked");
}

#[test]
fn keys_step_between_changes_and_a_click_on_a_bar_goes_to_it() {
    let mut t = Followers::new();
    t.type_at(0, "ZERO\n");
    let end = t.rope.len_chars();
    t.type_at(end, "seven\n");
    t.settle();
    t.step(true);
    assert_eq!(t.line(), 0, "round from the end to the first");
    assert!(t.app.card.is_some(), "and says what it is");
    t.step(true);
    assert_eq!(t.line(), 7);

    assert_eq!(changes_press(Target::Change(0, 0), 0), ChangePress::Bar(0, 0));
    t.press_bar(0);
    assert_eq!(t.line(), 0);
    t.press_bar(0);
    assert_eq!(t.line(), 7, "again, and it goes on to the next");
}

#[test]
fn the_rail_shows_changes_and_problems_side_by_side() {
    let mut t = Followers::new();
    t.type_at(4, "TWO ");
    t.settle();
    let whole = Rect::new(0, 0, 60, 11);
    let (text, changes, rail) = rails_of(whole, 3, true, true);
    let (changes, rail) = (changes.unwrap(), rail.unwrap());
    assert_eq!((changes.x, rail.x), (whole.right() - 2, whole.right() - 1));
    assert_eq!(text.right(), changes.x);

    // Both on the row for line 2.
    let row = whole.y + 1;
    let mut hits = layout_change_rail(0, changes, &vec![1]);
    hits.extend(layout_rail(0, rail, &vec![1]));
    assert_eq!(hit_at(&hits, changes.x, row).unwrap().target, Target::ChangeRailMark(0, 1));
    assert_eq!(hit_at(&hits, rail.x, row).unwrap().target, Target::RailMark(0, 1));

    let lines = t.lines();
    let bars = layout_changes(0, whole, 2, &t.changes.hunks, lines, &vec![0, 1, 2]);
    assert_eq!(bars.len(), 1);
    assert_eq!((bars[0].area, bars[0].target), (Rect::new(2, 1, 1, 1), Target::Change(0, 0)));
    assert!(layout_changes(0, whole, 60, &t.changes.hunks, lines, &vec![0, 1, 2]).is_empty());
}

#[test]
fn an_older_answer_is_left_alone() {
    let mut followed = Followed::new(0);
    let first = followed.open(0);
    followed.notice(1, 100);
    let second = followed.send(1).unwrap();
    assert!(first < second);
    assert_eq!(followed.hunks(second, true), HunksStep::Take);
    assert_eq!(followed.hunks(first, true), HunksStep::Ignore);
    assert_eq!(followed.hunks(second + 1, true), HunksStep::Ignore, "of nothing sent yet");
    assert_eq!(followed.current(), Source::Latest);
    followed.notice(2, 200);
    followed.send(2);
    assert_eq!(followed.current(), Source::Fresh);
    assert_eq!(Followed::new(1).current(), Source::Nowhere);
    assert_eq!(followed.send(2), None, "sent already");
}

#[test]
fn a_document_with_nowhere_to_be_kept_is_followed_no_more() {
    let mut following = Changes::new();
    assert_eq!(following.vcs_open(3, false, 0), Opened::Nothing);
    assert_eq!(following.vcs_open(3, true, 5), Opened::Open(1));
    assert_eq!(following.vcs_open(4, true, 0), Opened::Open(1));
    assert_eq!(following.vcs_open(3, true, 6), Opened::Open(2), "afresh");
    assert_eq!(following.docs.len(), 2);

    following.vcs_hunks(3, 2, true, true);
    assert_eq!(following.vcs_hunks(3, 1, true, true), Outcome::Continue, "overtaken");
    assert_eq!(following.vcs_hunks(3, 2, true, false), Outcome::Continue, "nothing new");
    assert_eq!(following.current_diff(3, 6), (None, Source::Latest));
    assert_eq!(following.current_diff(3, 7), (Some(3), Source::Fresh));
    assert_eq!(following.current_diff(9, 0), (None, Source::Nowhere));

    assert!(!following.vcs_follow(&vec![(3, 8), (4, 0)], 50, true));
    assert_eq!(following.tick(1_000_000), vec![3]);
    assert!(following.vcs_follow(&vec![(3, 8), (4, 0)], 60, false), "back from the terminal");
    assert_eq!(following.vcs_open(3, false, 9), Opened::Close);
    assert!(!following.vcs_close(3));
    assert!(following.vcs_close(4));
    assert_eq!(following.deadline(), None);
}

#[test]
fn a_change_is_found_by_its_line_and_said_to_be_gone() {
    let hunks = compare(COMMITTED, "one\nTWO\nthree\nfive\nsix\n").hunks;
    assert_eq!(hunks.len(), 2);
    assert_eq!(hunk_index_at(&hunks, 5, 1), Some(0));
    assert_eq!(hunk_index_at(&hunks, 5, 0), None);
    assert_eq!(marked_lines(&hunks[0], 5), (1, 2));
    assert_eq!(find_hunk(&hunks, hunks[1]), Some(1));

    let gone = Hunk { before_start: 9, before_end: 9, after_start: 9, after_end: 10 };
    let aim = Some(Aim { doc: 0, hunk: gone });
    assert!(matches!(aimed_hunk(aim, Source::Latest, &hunks, 5, 0), Aimed::No(Some(why))
        if why == "That change is not there any more."));
    assert!(matches!(aimed_hunk(None, Source::Latest, &hunks, 5, 0), Aimed::No(Some(why))
        if why == "No change on this line."));
    assert!(followed_diff(Source::Nowhere, 0).is_some());
    assert!(followed_diff(Source::Latest, 0).is_some());
    assert_eq!(followed_diff(Source::Latest, 2), None);
    let failed = vcs_staged(Err("it is locked".to_string()));
    assert_eq!(failed.message.as_deref(), Some("Could not stage that: it is locked"));
    let failed = reverted(Err("it moved".to_string()));
    assert_eq!(failed.message.as_deref(), Some("Could not revert that: it moved"));
}

#[test]
fn a_row_of_the_column_is_gone_through_one_change_at_a_time() {
    let ranges = vec![(1, 2), (3, 4), (40, 41)];
    assert_eq!(hunks_on_row(&ranges, 0, 10), vec![0, 1]);
    assert_eq!(column_mark_press(&ranges, 0, 10, 0), Some(0));
    assert_eq!(column_mark_press(&ranges, 0, 10, 1), Some(1));
    assert_eq!(column_mark_press(&ranges, 0, 10, 3), Some(0), "and round again");
    assert_eq!(column_mark_press(&ranges, 10, 20, 3), None);
}

#[test]
fn lines_are_counted_as_git_counts_them() {
    assert_eq!(git_lines(&Rope::from_str("")), 0);
    assert_eq!(git_lines(&Rope::from_str("one")), 1);
    assert_eq!(git_lines(&Rope::from_str("one\n")), 1);
    assert_eq!(git_lines(&Rope::from_str("one\ntwo")), 2);
    assert_eq!(place(1, 2), "line 2");
    assert_eq!(place(1, 4), "lines 2–4");
}

#[test]
fn git_looks_again_when_the_terminal_is_left() {
    let mut was = false;
    assert!(!left_terminal(&mut was, true));
    assert!(was);
    assert!(left_terminal(&mut was, false));
    assert!(!left_terminal(&mut was, false));
}

// ── the diff view ───────────────────────────────────────────────────────────

const BEFORE: &str = "one\ntwo\nthree\nfour\nfive\nsix\nseven\neight\nnine\nten\n";
const AFTER: &str =
    "one\nTWO\nTWO-B\nthree\nfour\nfive\nsix\nseven\neight\nnine\nten\nextra\nmore\n";

/// An editor on a changed file, with git answering.
struct Rig {
    app: App,
    rope: Rope,
    index: String,
    head: String,
    visible: usize,
    said: Option<String>,
}

impl Rig {
    fn new() -> Rig {
        Rig {
            app: App::new(Some("a.txt".to_string()), false, &nothing_laid()),
            rope: Rope::from_str(AFTER),
            index: BEFORE.to_string(),
            head: BEFORE.to_string(),
            visible: 18,
            said: None,
        }
    }

    /// The rows of `diff`, each change under a header of its own.
    fn rows(&self, diff: &Diff) -> Vec<DiffRow> {
        let mut rows = Vec::new();
        let mut next = 0;
        for (at, hunk) in diff.hunks.iter().enumerate() {
            for line in next..hunk.after_start {
                rows.push(DiffRow { hunk: None, header: false, line: Some(line) });
            }
            rows.push(DiffRow { hunk: Some(at), header: true, line: Some(hunk.after_start) });
            for line in hunk.after_start..hunk.after_end {
                rows.push(DiffRow { hunk: Some(at), header: false, line: Some(line) });
            }
            next = hunk.after_end;
        }
        rows
    }

    fn answer(&mut self, version: u64, serial: u64, against: Against) {
        let base = match against {
            Against::Index => self.index.clone(),
            Against::Head => self.head.clone(),
        };
        let text = self.rope.to_string();
        self.app.diffing.diff_hunks(version, Some(compare(&self.index, &text)));
        let diff = Some(compare(&base, &text));
        match self.app.diffing.compared(version, serial, against, &diff) {
            Compared::Draw { base_changed, top } => {
                let diff = diff.unwrap();
                let rows = self.rows(&diff);
                let at = rows.iter().position(|row| top.is_some() && row.line == top).unwrap_or(0);
                self.app.diffing.draw(version, diff, rows, at, self.visible, base_changed);
            },
            Compared::Drop | Compared::Nothing => {},
        }
    }

    fn open(&mut self) {
        let spelled = Some("a.txt".to_string());
        match self.app.toggle_diff(0, spelled, true, &self.rope) {
            Toggle::Open(version, serial) => {
                assert_eq!(self.app.diffing.note(), Some("Comparing…"));
                assert_eq!(self.app.focus, Focus::Diff, "it has the keyboard");
                self.answer(version, serial, Against::Index);
            },
            Toggle::Close => assert!(self.app.diffing.view.is_none(), "put away"),
            Toggle::Say(said) => assert_eq!(self.app.message(), Some(said)),
        }
    }

    fn close(&mut self) {
        self.app.close_diff();
    }

    fn hunks(&self) -> Vec<((u32, u32), (u32, u32), bool)> {
        match self.app.diffing.view.as_ref().map(|view| &view.shown) {
            Some(Shown::Diff(drawn)) => drawn
                .diff
                .hunks
                .iter()
                .zip(&drawn.stageable)
                .map(|(hunk, stageable)| {
                    (
                        (hunk.before_start, hunk.before_end),
                        (hunk.after_start, hunk.after_end),
                        *stageable,
                    )
                })
                .collect(),
            _ => Vec::new(),
        }
    }

    fn stage(&mut self, hunk: usize) {
        match self.app.diffing.stage_diff_hunk(Some(hunk), self.visible) {
            Stage::Send(version, hunk) => {
                // Git puts the new lines in the index, in place of the old.
                let text = self.rope.to_string();
                let new: Vec<&str> = text.split_inclusive('\n').collect();
                let mut old: Vec<&str> = self.index.split_inclusive('\n').collect();
                old.splice(
                    hunk.before_start as usize..hunk.before_end as usize,
                    new[hunk.after_start as usize..hunk.after_end as usize].iter().copied(),
                );
                self.index = old.concat();
                let (said, ask) = self.app.diffing.staged(Ok(()));
                self.said = Some(said);
                let (serial, against) = ask.unwrap();
                self.answer(version, serial, against);
            },
            Stage::Say(said) => self.said = Some(said),
            Stage::Nothing => {},
        }
    }

    fn key(&mut self, code: KeyCode) -> DiffKey {
        let key = KeyEvent { code, modifiers: Modifiers::none(), kind: KeyKind::Press };
        self.app.diffing.diff_key(&key, self.visible)
    }

    fn current(&self) -> Option<usize> {
        self.app.diffing.view.as_ref().unwrap().current
    }
}

#[test]
fn the_diff_shows_both_versions_level_and_changes_layout_in_place() {
    let mut rig = Rig::new();
    rig.open();
    assert_eq!(rig.hunks(), vec![((1, 2), (1, 3), true), ((10, 10), (11, 13), true)]);
    assert_eq!(rig.app.diffing.note(), None);

    let layout = rig.app.diffing.toggle_diff_layout().unwrap();
    assert_eq!(layout, Layout::Unified);
    let rows = rig.rows(&compare(BEFORE, AFTER));
    assert_eq!(rig.app.diffing.set_diff_layout(layout, rows, 0, rig.visible), Outcome::Redraw);
    assert_eq!(rig.app.diffing.toggle_diff_layout().unwrap(), Layout::Split);
    let rows = rig.rows(&compare(BEFORE, AFTER));
    rig.app.diffing.set_diff_layout(Layout::Split, rows, 0, rig.visible);
    assert_eq!(rig.app.diffing.view.as_ref().unwrap().layout, Layout::Split);
}

#[test]
fn a_hunk_staged_from_the_diff_is_in_the_index_and_leaves_the_diff() {
    let mut rig = Rig::new();
    rig.open();
    rig.stage(0);
    assert_eq!(rig.said.as_deref(), Some("Staged."));
    assert!(rig.index.contains("TWO\nTWO-B"), "{}", rig.index);
    assert!(!rig.index.contains("extra"), "only the one hunk: {}", rig.index);
    assert_eq!(rig.hunks().len(), 1);

    // Against HEAD, both changes are there, and only the unstaged one can be
    // staged again.
    let against = rig.app.diffing.toggle_diff_base().unwrap();
    assert_eq!(against, Against::Head);
    let serial = rig.app.diffing.set_diff_base(against).unwrap();
    let version = rig.app.diffing.view.as_ref().unwrap().version;
    rig.answer(version, serial, against);
    // Staged above it, the second change's old lines are numbered one way in
    // the index and another in HEAD; it is staged all the same.
    assert_eq!(rig.hunks(), vec![((1, 2), (1, 3), false), ((10, 10), (11, 13), true)]);
    rig.said = None;
    rig.stage(0);
    assert_eq!(
        rig.said.as_deref(),
        Some("That change is already staged, wholly or in part: the index view shows the rest.")
    );
    rig.stage(1);
    assert_eq!(rig.said.as_deref(), Some("Staged."));
    assert!(rig.index.contains("TWO-B") && rig.index.contains("more"), "{}", rig.index);
}

#[test]
fn unsaved_edits_are_in_the_diff_once_typing_settles() {
    let mut rig = Rig::new();
    rig.open();
    // Go to the text, edit it, and come back.
    assert_eq!(rig.key(KeyCode::Esc), DiffKey::Close);
    rig.close();
    assert!(rig.app.diffing.view.is_none());
    rig.rope.insert(0, "x");
    rig.open();
    assert_eq!(rig.key(KeyCode::Char('y')), DiffKey::Refuse, "nothing is typed");
    // An edit from elsewhere — another pane, a format — is followed.
    rig.rope.insert(1, "z");
    let now = 1000;
    let spelled = Some("a.txt".to_string());
    let follow = rig.app.diffing.diff_follow(now, true, true, rig.app.focus, 0, spelled, &rig.rope);
    assert!(matches!(follow, Follow::Stay(Focus::Diff)));
    assert_eq!(rig.app.diffing.diff_deadline(), Some(now + SETTLE));
    assert_eq!(rig.app.diffing.diff_tick(now, &rig.rope), None);
    let (version, serial) = rig.app.diffing.diff_tick(now + SETTLE, &rig.rope).unwrap();
    rig.answer(version, serial, Against::Index);
    assert_eq!(rig.hunks()[0].1, (0, 3), "{:?}", rig.hunks());
}

#[test]
fn keys_step_through_changes_and_a_click_goes_to_the_line() {
    let mut rig = Rig::new();
    rig.visible = 6;
    rig.open();
    rig.app.diffing.diff_step(true, rig.visible);
    assert_eq!(rig.current(), Some(0));
    let reply = rig.app.diffing.diff_step(true, rig.visible);
    assert_eq!(reply.message.as_deref(), Some("Change 2 of 2."));
    assert_eq!(rig.current(), Some(1));
    let scrolled = rig.app.diffing.view.as_ref().unwrap().scroll;
    assert!(scrolled > 0, "the second change is scrolled into view");
    rig.app.diffing.diff_step(false, rig.visible);
    assert_eq!(rig.current(), Some(0));

    // The wheel moves both sides at once, in one list of rows.
    let before = rig.app.diffing.view.as_ref().unwrap().scroll;
    rig.app.diffing.scroll_diff_by(true, 3, rig.visible);
    assert!(rig.app.diffing.view.as_ref().unwrap().scroll >= before);

    let rows = rig.rows(&compare(BEFORE, AFTER));
    let row = rows.iter().position(|row| !row.header && row.line == Some(11)).unwrap();
    let landing = rig.app.diff_go_to(row, &rig.rope, 6).unwrap();
    assert!(rig.app.diffing.view.is_none(), "going to the text closes the diff");
    assert_eq!(rig.app.focus, Focus::Editor);
    assert_eq!(rig.rope.char_to_line(landing.caret), 11);
    assert_eq!(landing.top, 9, "not on the top row");
}

#[test]
fn switching_tabs_away_from_the_diff_puts_it_away() {
    let mut rig = Rig::new();
    rig.open();
    let spelled = Some("b.txt".to_string());
    let follow = rig.app.diffing.diff_follow(0, false, false, rig.app.focus, 0, spelled, &rig.rope);
    assert!(matches!(follow, Follow::Close));
    rig.close();
    assert!(rig.app.diffing.view.is_none());
    assert_eq!(rig.app.focus, Focus::Editor);
}

#[test]
fn a_comparison_that_has_been_overtaken_is_dropped() {
    let mut rig = Rig::new();
    rig.open();
    let view = rig.app.diffing.view.as_ref().unwrap();
    let (version, serial) = (view.version, view.serial);
    rig.app.diffing.set_diff_base(Against::Head).unwrap();
    let diff = Some(compare(BEFORE, AFTER));
    let late = rig.app.diffing.compared(version, serial, Against::Index, &diff);
    assert!(matches!(late, Compared::Drop));
    let (serial, against) = rig.app.diffing.compare().unwrap();
    let none = rig.app.diffing.compared(version, serial, against, &None);
    assert!(matches!(none, Compared::Nothing));
    assert!(rig.app.diffing.note().unwrap().starts_with("Nothing to compare with"));
}

#[test]
fn a_file_of_another_name_is_compared_again() {
    let mut rig = Rig::new();
    rig.open();
    let spelled = Some("b.txt".to_string());
    let follow = rig.app.diffing.diff_follow(0, true, true, rig.app.focus, 0, spelled, &rig.rope);
    assert!(matches!(follow, Follow::Moved(Focus::Diff, _)), "{follow:?}");
}

#[test]
fn what_the_diff_cannot_do_is_said() {
    let mut rig = Rig::new();
    let toggle = rig.app.diffing.toggle_diff(0, 0, None, true, &rig.rope);
    assert!(matches!(toggle, Toggle::Say(said)
        if said == "A file that has never been saved has no history to diff."));
    let spelled = Some("a.txt".to_string());
    let toggle = rig.app.diffing.toggle_diff(0, 0, spelled, false, &rig.rope);
    assert!(matches!(toggle, Toggle::Say(said) if said == "Git is not running."));
    assert!(rig.app.diffing.toggle_diff_layout().is_err());
    assert!(rig.app.diffing.toggle_diff_base().is_err());
    assert!(matches!(rig.app.diffing.stage_diff_hunk(None, 6), Stage::Say(_)));
    let failed = rig.app.diffing.staged(Err("it is locked".to_string()));
    assert_eq!(failed, ("Not staged: it is locked".to_string(), None));
    assert_eq!(not_edited(), "The diff cannot be edited: Enter goes to the text, Esc closes.");

    rig.rope = Rope::from_str(BEFORE);
    rig.open();
    assert_eq!(rig.app.diffing.note(), Some("No changes against the index."));
    let reply = rig.app.diffing.diff_step(true, 6);
    assert_eq!(reply.message.as_deref(), Some("No changes."));
}

#[test]
fn only_the_buttons_of_the_diff_light_up() {
    assert!(lights_up(Spot::Close) && lights_up(Spot::Stage(0)) && lights_up(Spot::Base(true)));
    assert!(lights_up(Spot::Layout(Layout::Split)));
    assert!(!lights_up(Spot::Row(0)) && !lights_up(Spot::Header) && !lights_up(Spot::Empty));
    let hits = layout_diff(&vec![
        (Rect::new(0, 0, 20, 1), Spot::Header),
        (Rect::new(18, 0, 2, 1), Spot::Close),
    ]);
    assert_eq!(hit_at(&hits, 19, 0).unwrap().target, Target::Diff(1));
    assert_eq!(hit_at(&hits, 3, 0).unwrap().target, Target::Diff(0));

    let mut app = App::new(None, false, &nothing_laid());
    assert!(matches!(app.run(Command::Diff(DiffCommand::Toggle)), Task::Diff(DiffCommand::Toggle)));
}

// ── language servers ────────────────────────────────────────────────────────

#[test]
fn a_missing_server_is_named_in_the_status_line_and_a_click_tries_again() {
    let mut app = App::new(Some("main.rs".to_string()), false, &nothing_laid());
    app.set_viewport(Rect::new(0, 0, 200, 8));
    let notice = "nun-test-no-such-server is not installed".to_string();
    let (outcome, said) = lsp_event(Said::Notice(notice));
    assert_eq!(outcome, Outcome::Redraw);
    app.warn(said.unwrap());
    assert!(
        app.message().unwrap().contains("nun-test-no-such-server is not installed"),
        "configured by hand, so its absence is said"
    );

    // Read, and put away.
    app.acknowledge();

    // Where the label is drawn is where the click lands.
    let label = lsp_label("nun-test-no-such-server not installed");
    assert_eq!(label.trim(), "nun-test-no-such-server not installed");
    let (_, status) = app.areas(None);
    let facts = StatusFacts {
        prompt: false,
        folder: false,
        undo: false,
        strip: false,
        left: 9,
        right: 15,
        left_chars: 9,
        right_chars: 15,
        server: Some(label.len()),
        counts: None,
    };
    let mut laid = nothing_laid();
    laid.status = status_parts(status, &facts);
    let part = laid.status.lsp.expect("the label is laid out");
    app.relayout(&laid);
    let target = hit_at(&app.hits, part.x + 1, part.y).unwrap().target;
    assert_eq!(target, Target::StatusLsp);
    assert_eq!(usize::from(part.width), label.len());

    assert!(matches!(app.click(target, false, false, false).task, ClickTask::RestartServer));
    let reply = lsp_restart(Some("nun-test-no-such-server".to_string()));
    assert_eq!(reply.message.as_deref(), Some("Restarting nun-test-no-such-server…"));
}

#[test]
fn a_file_with_no_server_shows_nothing_and_keeps_no_edits() {
    assert_eq!(lsp_event(Said::Nothing), (Outcome::Continue, None));
    assert_eq!(lsp_event(Said::Redraw), (Outcome::Redraw, None));
    let reply = lsp_restart(None);
    assert_eq!(
        reply.message.as_deref(),
        Some("This file has no language server to restart.")
    );
    let status = Rect::new(0, 7, 200, 1);
    let facts = StatusFacts {
        prompt: false,
        folder: false,
        undo: false,
        strip: false,
        left: 9,
        right: 15,
        left_chars: 9,
        right_chars: 15,
        server: None,
        counts: None,
    };
    assert_eq!(status_parts(status, &facts).lsp, None);
}
