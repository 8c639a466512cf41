//! Panels opened over the text or beside it: what has the keyboard then, and what
//! the status line goes on saying.

use ropey::Rope;
use vstd::prelude::*;

use crate::app::App;
use crate::code_actions::{chooser_rows, chooser_title, ChooserAnswer, CodeActions, Offered};
use crate::diff::{land, lands, Diffing, Toggle};
use crate::geometry::Rect;
use crate::jumps::{Retrace, Spot, Tried, MOST_JUMPS};
use crate::navigation::{definition_found, Going, Navigation};
use crate::outcome::Outcome;
use crate::palette::{row_views, Finder, Row};
use crate::place::{Open, Place};
use crate::references::{is_offer, place_row, Found, Named};
use crate::rope::rope_text;
use crate::target::{Focus, SidebarView, Target};
use crate::text::decimal_of;

verus! {

/// What a press in the references panel does.
#[derive(Debug, Clone, Copy, PartialEq, Eq, Structural)]
pub enum ReferencesPress {
    /// Show the file tree again.
    Files,
    /// Pick this row.
    Row(usize),
    /// Nothing.
    Nothing,
}

/// Where a row of the diff goes: to the text, in the pane the view was in.
#[derive(Debug, Clone, Copy, PartialEq, Eq, Structural)]
pub struct DiffLanding {
    /// The pane.
    pub pane: usize,
    /// Where the caret goes.
    pub caret: usize,
    /// The line at the top of the view then.
    pub top: usize,
}

impl App {
    // ── the palette ─────────────────────────────────────────────────────────

    /// The editor once the palette is open on what `finder` has: the keyboard is
    /// the editor's, whatever had it before.
    pub open spec fn with_palette(self, finder: Finder) -> App {
        App { finder, focus: Focus::Editor, ..self }
    }

    /// Open the palette with `prefix` already typed, a project being open or not.
    /// Whether the project is to be listed.
    pub fn open_palette(&mut self, prefix: &str, rooted: bool) -> (list: bool)
        ensures
            list == (rooted && old(self).finder.file_count is None),
            *final(self) == old(self).with_palette(
                Finder { palette: final(self).finder.palette, ..old(self).finder },
            ),
            final(self).finder.palette matches Some(palette) && palette.is_opened(
                prefix@,
                old(self).focus,
                old(self).finder.file_count is Some,
            ) && palette.choices is None,
            old(self).wf() ==> final(self).wf(),
    {
        let list = self.finder.open_palette(prefix, self.focus, rooted);
        self.focus = Focus::Editor;
        list
    }

    /// Open the palette on a fixed list of `rows`, headed by `title`.
    pub fn open_choices(&mut self, title: String, rows: Vec<Row>)
        ensures
            *final(self) == old(self).with_palette(
                Finder { palette: final(self).finder.palette, ..old(self).finder },
            ),
            final(self).chooses(old(self).focus, title@, rows),
            old(self).wf() ==> final(self).wf(),
    {
        self.finder.open_choices(title, rows, self.focus);
        self.focus = Focus::Editor;
    }

    /// Whether the palette has just opened on `rows`, headed by `title`, `focus`
    /// having had the keyboard.
    pub open spec fn chooses(self, focus: Focus, title: Seq<char>, rows: Vec<Row>) -> bool {
        self.finder.palette matches Some(palette) && palette.is_opened(""@, focus, false) && (
        palette.choices matches Some(choices) && choices.title@ == title && choices.rows == rows)
    }

    /// The editor once the palette has closed: the keyboard goes back where it
    /// was.
    pub open spec fn without_palette(self) -> App {
        App {
            finder: Finder { palette: None, ..self.finder },
            focus: match self.finder.palette {
                Some(palette) => palette.was_focused,
                None => self.focus,
            },
            ..self
        }
    }

    /// Close it: opening the palette from the tree and pressing Esc leaves the
    /// tree focused.
    pub fn close_palette(&mut self) -> (outcome: Outcome)
        ensures
            outcome == Outcome::Redraw,
            *final(self) == old(self).without_palette(),
            old(self).wf() ==> final(self).wf(),
    {
        if let Some(focus) = self.finder.close_palette() {
            self.focus = focus;
        }
        Outcome::Redraw
    }

    // ── code actions ────────────────────────────────────────────────────────

    /// The editor once the chooser is open on `offers`, and whatever was being
    /// said while they were waited for is not.
    pub open spec fn offered_actions(self, after: App, offers: Vec<Offered>) -> bool {
        &&& after == (App {
            messages: after.messages,
            code_actions: CodeActions { chosen: offers, ..self.code_actions },
            ..self.with_palette(Finder { palette: after.finder.palette, ..self.finder })
        })
        &&& after.messages@ == self.messages@.quiet()
        &&& after.finder.palette matches Some(palette) && (palette.choices matches Some(choices)
            && after.chooses(self.focus, chooser_title(offers@.len()), choices.rows) && row_views(
            choices.rows@,
        ) == chooser_rows(offers@))
    }

    /// Open the chooser on `offers`.
    pub fn offer_in_chooser(&mut self, offers: Vec<Offered>)
        ensures
            old(self).offered_actions(*final(self), offers),
            old(self).wf() ==> final(self).wf(),
    {
        let (title, rows) = self.code_actions.offer_in_chooser(offers);
        self.messages.clear();
        self.open_choices(title, rows);
    }

    /// The server answered the chooser's question.
    pub fn chooser_answered(&mut self, offered: Result<Vec<Offered>, String>)
        ensures
            match offered {
                Ok(offers) if offers@.len() > 0 => old(self).offered_actions(*final(self), offers),
                _ => {
                    &&& *final(self) == (App { messages: final(self).messages, ..*old(self) })
                    &&& final(self).messages@ == old(self).messages@.saying(
                        match offered {
                            Ok(_) => "No code actions here."@,
                            Err(why) => "No code actions: "@ + why@ + ". Try again."@,
                        },
                    )
                },
            },
            old(self).wf() ==> final(self).wf(),
    {
        match self.code_actions.chooser_answered(offered) {
            ChooserAnswer::Say(said) => {
                self.messages.say(said);
            },
            ChooserAnswer::Offer(title, rows) => {
                self.messages.clear();
                self.open_choices(title, rows);
            },
        }
    }

    // ── definitions ─────────────────────────────────────────────────────────

    /// A definition of `word` was found: go there, or offer the choice. The place
    /// to go to.
    pub fn definition_found(&mut self, places: &Vec<Named>, open: Open, word: &str) -> (go: Option<
        Place,
    >)
        requires
            places@.len() >= 2 ==> forall|i: int|
                0 <= i < places@.len() ==> (#[trigger] places@[i]).place.start.line < u32::MAX,
        ensures
            if places@.len() == 0 {
                &&& go is None
                &&& *final(self) == (App { messages: final(self).messages, ..*old(self) })
                &&& final(self).messages@ == old(self).messages@.saying(
                    "No definition found for "@ + word@ + "."@,
                )
            } else if places@.len() == 1 {
                go == Some(places@[0].place) && *final(self) == *old(self)
            } else {
                &&& go is None
                &&& *final(self) == old(self).with_palette(
                    Finder { palette: final(self).finder.palette, ..old(self).finder },
                )
                &&& final(self).finder.palette matches Some(palette) && (
                palette.choices matches Some(choices) && final(self).chooses(
                    old(self).focus,
                    decimal_of(places@.len()) + " definitions of "@ + word@ + " — pick one"@,
                    choices.rows,
                ) && row_views(choices.rows@) == Seq::new(
                    places@.len(),
                    |i: int| place_row(places@[i], open),
                ))
            },
            old(self).wf() ==> final(self).wf(),
    {
        match definition_found(places, open, word) {
            Going::Say(said) => {
                self.messages.say(said);
                None
            },
            Going::Go(place) => Some(place),
            Going::Offer(title, rows) => {
                self.open_choices(title, rows);
                None
            },
        }
    }

    // ── references ──────────────────────────────────────────────────────────

    /// A server listed the references to `word`. With no folder open there is no
    /// `sidebar` to list them in; the palette will do, and it is still a list to
    /// click. Whether they are listed in the panel, which then has the sidebar:
    /// that is to be shown, and the lines they are on read.
    pub fn references_found(&mut self, places: &Vec<Named>, word: &str, sidebar: bool) -> (listed:
        bool)
        requires
            old(self).wf(),
            old(self).navigation.listing.generation < u64::MAX,
            !sidebar ==> forall|i: int|
                0 <= i < places@.len() ==> (#[trigger] places@[i]).place.start.line < u32::MAX,
        ensures
            final(self).wf(),
            listed == (sidebar && places@.len() > 0),
            if places@.len() == 0 {
                &&& *final(self) == (App { messages: final(self).messages, ..*old(self) })
                &&& final(self).messages@ == old(self).messages@.saying(
                    "No references to "@ + word@ + " found."@,
                )
            } else if !sidebar {
                &&& *final(self) == old(self).with_palette(
                    Finder { palette: final(self).finder.palette, ..old(self).finder },
                )
                &&& final(self).finder.palette matches Some(palette) && (
                palette.choices matches Some(choices) && final(self).chooses(
                    old(self).focus,
                    choices.title@,
                    choices.rows,
                ) && is_offer(places@, word@, choices.title@, row_views(choices.rows@)))
            } else {
                &&& *final(self) == (App {
                    messages: final(self).messages,
                    sidebar_view: SidebarView::References,
                    navigation: Navigation {
                        listing: final(self).navigation.listing,
                        ..old(self).navigation
                    },
                    ..*old(self)
                })
                &&& final(self).messages@ == old(self).messages@.quiet()
                &&& old(self).navigation.listing.relisted(
                    final(self).navigation.listing,
                    places@,
                    word@,
                )
            },
    {
        match self.navigation.listing.references_found(places, word, sidebar) {
            Found::Say(said) => {
                self.messages.say(said);
                false
            },
            Found::Offer(title, rows) => {
                self.open_choices(title, rows);
                false
            },
            Found::Listed => {
                self.sidebar_view = SidebarView::References;
                self.messages.clear();
                true
            },
        }
    }

    /// Where the references panel is, `tree` being where the sidebar has room for
    /// one: it is there while it has the sidebar.
    pub fn references_area(&self, tree: Option<Rect>) -> (area: Option<Rect>)
        ensures
            area == if self.sidebar_view == SidebarView::References {
                tree
            } else {
                None
            },
    {
        if self.sidebar_view == SidebarView::References {
            tree
        } else {
            None
        }
    }

    /// The left button went down in the references panel: what that does. Back
    /// gives the sidebar back to the file tree.
    pub fn references_press(&mut self, target: Target) -> (press: ReferencesPress)
        ensures
            press == match target {
                Target::ReferencesBack => ReferencesPress::Files,
                Target::ReferencesRow(row) => ReferencesPress::Row(row),
                _ => ReferencesPress::Nothing,
            },
            *final(self) == (App {
                sidebar_view: if target == Target::ReferencesBack {
                    SidebarView::Files
                } else {
                    old(self).sidebar_view
                },
                ..*old(self)
            }),
            old(self).wf() ==> final(self).wf(),
    {
        match target {
            Target::ReferencesBack => {
                self.sidebar_view = SidebarView::Files;
                ReferencesPress::Files
            },
            Target::ReferencesRow(row) => ReferencesPress::Row(row),
            _ => ReferencesPress::Nothing,
        }
    }

    // ── back and forward ────────────────────────────────────────────────────

    /// Go back, or forward, from `here`: what comes next, and the question to
    /// take back. Where a place was reached the text has the keyboard, and
    /// whatever the pointer had underlined is stale; where there is none left
    /// that is said.
    pub fn retrace(&mut self, back: bool, here: &Spot, tried: Tried) -> (walk: (
        Retrace,
        Option<u64>,
    ))
        requires
            old(self).wf(),
            tried == Tried::Reached ==> old(self).navigation.jumps.back@.len() + old(
                self,
            ).navigation.jumps.forward@.len() < MOST_JUMPS,
        ensures
            final(self).wf(),
            old(self).navigation.jumps.retraced(
                final(self).navigation.jumps,
                back,
                here@,
                tried,
                walk.0,
            ),
            *final(self) == (App {
                messages: final(self).messages,
                navigation: Navigation {
                    jumps: final(self).navigation.jumps,
                    link: if tried == Tried::Reached {
                        None
                    } else {
                        old(self).navigation.link
                    },
                    ..old(self).navigation
                },
                focus: if tried == Tried::Reached {
                    Focus::Editor
                } else {
                    old(self).focus
                },
                ..*old(self)
            }),
            final(self).messages@ == match walk.0 {
                Retrace::Nowhere(said) => old(self).messages@.saying(said@),
                _ => old(self).messages@,
            },
            walk.1 == if tried == Tried::Reached {
                old(self).navigation.link_question()
            } else {
                None
            },
    {
        let next = self.navigation.jumps.retrace(back, here, tried);
        let mut cancel: Option<u64> = None;
        if tried == Tried::Reached {
            let (_, question) = self.navigation.clear_link();
            cancel = question;
            self.focus = Focus::Editor;
        }
        if let Retrace::Nowhere(said) = &next {
            self.messages.say(said.clone());
        }
        (next, cancel)
    }

    // ── the diff view ───────────────────────────────────────────────────────

    /// Show the diff of the document being edited, in `pane`, or put it away if
    /// it is already showing. Open, it has the keyboard.
    pub fn toggle_diff(&mut self, pane: usize, spelled: Option<String>, git: bool, text: &Rope) -> (
        toggle: Toggle)
        requires
            old(self).wf(),
            old(self).diffing.serials < u64::MAX,
            old(self).diffing.versions < u64::MAX,
        ensures
            final(self).wf(),
            old(self).diffing.toggled(
                if toggle is Close {
                    old(self).diffing
                } else {
                    final(self).diffing
                },
                pane,
                old(self).current,
                spelled,
                git,
                rope_text(*text),
                toggle,
            ),
            match toggle {
                Toggle::Close => *final(self) == old(self).without_diff(),
                Toggle::Say(said) => {
                    &&& *final(self) == (App { messages: final(self).messages, ..*old(self) })
                    &&& final(self).messages@ == old(self).messages@.saying(said@)
                },
                Toggle::Open(_, _) => *final(self) == (App {
                    diffing: final(self).diffing,
                    focus: Focus::Diff,
                    ..*old(self)
                }),
            },
    {
        let toggle = self.diffing.toggle_diff(pane, self.current, spelled, git, text);
        match &toggle {
            Toggle::Close => {
                let _ = self.close_diff();
            },
            Toggle::Say(said) => {
                self.messages.say(said.clone());
            },
            Toggle::Open(_, _) => {
                self.focus = Focus::Diff;
            },
        }
        toggle
    }

    /// The editor once the diff view has been put away: its pane has its text
    /// back, and so has the keyboard that was the view's.
    pub open spec fn without_diff(self) -> App {
        App {
            diffing: Diffing { view: None, ..self.diffing },
            focus: if self.diffing.view is Some && self.focus == Focus::Diff {
                Focus::Editor
            } else {
                self.focus
            },
            ..self
        }
    }

    /// Put the diff view away.
    pub fn close_diff(&mut self) -> (outcome: Outcome)
        requires
            old(self).wf(),
        ensures
            final(self).wf(),
            outcome == Outcome::spec_redraw_if(old(self).diffing.view is Some),
            *final(self) == old(self).without_diff(),
    {
        match self.diffing.close_diff(self.focus) {
            Some(focus) => {
                self.focus = focus;
                Outcome::Redraw
            },
            None => Outcome::Continue,
        }
    }

    /// Go to the text from row `row` of the diff, `rope` being the text and
    /// `height` how many rows of it are in view: where, if anywhere. The view is
    /// put away, and the text has the keyboard.
    pub fn diff_go_to(&mut self, row: usize, rope: &Rope, height: usize) -> (landing: Option<
        DiffLanding,
    >)
        requires
            old(self).wf(),
        ensures
            final(self).wf(),
            match old(self).diffing.view {
                Some(view) if row < view.rows().len() && view.rows()[row as int].line is Some => {
                    let to = lands(rope_text(*rope), view.rows()[row as int].line->0, height);
                    &&& landing == Some(
                        DiffLanding { pane: view.pane, caret: to.0 as usize, top: to.1 as usize },
                    )
                    &&& *final(self) == (App { focus: Focus::Editor, ..old(self).without_diff() })
                },
                _ => landing is None && *final(self) == *old(self),
            },
    {
        let Some(line) = self.diffing.diff_go_to(row) else {
            return None;
        };
        let pane: usize = match &self.diffing.view {
            Some(view) => view.pane,
            None => 0,
        };
        let _ = self.close_diff();
        self.focus = Focus::Editor;
        let (caret, top) = land(rope, line, height);
        Some(DiffLanding { pane, caret, top })
    }
}

/// The palette has the keyboard to itself, and what had it gets it back when the
/// palette closes, with everything else as it was.
pub proof fn closing_the_palette_gives_the_keyboard_back(
    before: App,
    opened: App,
    prefix: Seq<char>,
    listed: bool,
)
    requires
        before.finder.palette is None,
        opened == before.with_palette(
            Finder { palette: opened.finder.palette, ..before.finder },
        ),
        opened.finder.palette matches Some(palette) && palette.is_opened(
            prefix,
            before.focus,
            listed,
        ),
    ensures
        opened.focus == Focus::Editor,
        opened.without_palette() == before,
{
}

/// Showing the diff and putting it away again leaves the text with the keyboard
/// it had: `shown` is the editor while the view is open.
pub proof fn putting_the_diff_away_gives_the_keyboard_back(before: App, shown: App)
    requires
        shown == (App { diffing: shown.diffing, focus: Focus::Diff, ..before }),
        shown.diffing.view is Some,
        before.focus == Focus::Editor,
    ensures
        shown.without_diff().focus == before.focus,
        shown.without_diff().diffing.view is None,
{
}

} // verus!
