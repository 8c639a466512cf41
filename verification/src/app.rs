//! The editor: its state, and what it keeps of what is open.
//!
//! Free of terminal I/O. An event changes the state and says what is to be
//! done about it; what does the reading, the drawing and the asking is
//! elsewhere.

use vstd::prelude::*;

use crate::card::Card;
use crate::code_actions::CodeActions;
use crate::commands::Command;
use crate::completion::Completion;
use crate::diagnostics::Diagnostics;
use crate::diff::Diffing;
use crate::format::{doc_at, earliest, Formatting, Pending, PutOff, TIMEOUT};
use crate::geometry::Rect;
use crate::hits::{on_top, what_covers_an_area_hides_what_is_under_it, Hit};
use crate::hover::{Hovering, DELAY};
use crate::messages::{HintModel, Messages, MessagesModel};
use crate::navigation::Navigation;
use crate::outcome::Outcome;
use crate::palette::Finder;
use crate::reply::words;
use crate::status::{
    layout_status, left_half, part_hits, right_half, status_left, status_right, Standing,
    StatusParts,
};
use crate::target::{Focus, SidebarView, Target};
use crate::text::{decimal, decimal_of, join};

verus! {

/// One open file: what is known of its text, and where the view on it is.
///
/// A document's scroll belongs to the document, not to the screen, so coming
/// back to a tab comes back to where you were in it.
#[derive(Debug)]
pub struct Document {
    /// Which document this is, whichever pane or tab it moves to.
    pub id: usize,
    /// Where it is kept, as it is shown, if it has been saved anywhere.
    pub path: Option<String>,
    /// The first line in view.
    pub scroll: usize,
    /// Whether it has changes that are not on disk.
    pub modified: bool,
    /// Whether it was not valid UTF-8, and would be damaged by saving it.
    pub lossy: bool,
}

/// A question on screen.
#[derive(Debug, Clone, Copy, PartialEq, Eq, Structural)]
pub struct Prompt {
    /// How many buttons answer it.
    pub answers: usize,
}

/// A menu on screen.
#[derive(Debug)]
pub struct Menu {
    /// What each of its items runs.
    pub commands: Vec<Command>,
    /// Where it is.
    pub area: Rect,
}

impl Menu {
    /// Whether every item's row can be named.
    pub open spec fn wf(self) -> bool {
        self.area.y + self.commands@.len() <= u16::MAX
    }
}

/// The running editor.
#[derive(Debug)]
pub struct App {
    /// Every open document, in no particular order.
    pub docs: Vec<Document>,
    /// The one being edited: the active tab of the focused pane.
    pub current: usize,
    /// The id the next document opened will take.
    pub next_doc: usize,
    /// How much room there is.
    pub viewport: Rect,
    /// What there is to say.
    pub messages: Messages,
    /// Whether quitting has been asked for, and answered with what would be
    /// lost.
    pub quit_confirmed: bool,
    /// What is where, as of the last layout.
    pub hits: Vec<Hit>,
    /// What has the keyboard.
    pub focus: Focus,
    /// A question in the status line.
    pub prompt: Option<Prompt>,
    /// A menu on screen.
    pub menu: Option<Menu>,
    /// Whether the status line offers to undo the file operation it reports.
    pub undo_offer: bool,
    /// Whether that offer is a redo, because the last change was an undo.
    pub last_undone: bool,
    /// The palette, and what it remembers.
    pub finder: Finder,
    /// Which of its views the sidebar is showing.
    pub sidebar_view: SidebarView,
    /// Formatting asked for, and where it happens on save.
    pub formatting: Formatting,
    /// Definitions, references, and the way back from them.
    pub navigation: Navigation,
    /// What the servers have said is wrong, and where.
    pub diagnostics: Diagnostics,
    /// The card on screen.
    pub card: Option<Card>,
    /// The completion popup, and the tab-stops of a snippet it inserted.
    pub completion: Completion,
    /// Resting on a symbol to see what it is.
    pub hovering: Hovering,
    /// Quick fixes and code actions offered, and asked for.
    pub code_actions: CodeActions,
    /// The diff view.
    pub diffing: Diffing,
}

/// Where the document `id` is among `docs`, from the `from`th on.
pub open spec fn index_of(docs: Seq<Document>, id: usize, from: int) -> Option<int>
    decreases docs.len() - from,
{
    if from < 0 || from >= docs.len() {
        None
    } else if docs[from].id == id {
        Some(from)
    } else {
        index_of(docs, id, from + 1)
    }
}

/// How many of the first `count` documents have changes that are not on disk.
pub open spec fn unsaved_in(docs: Seq<Document>, count: int) -> nat
    decreases count,
{
    if count <= 0 {
        0
    } else {
        unsaved_in(docs, count - 1) + if docs[count - 1].modified {
            1nat
        } else {
            0nat
        }
    }
}

// ── the layout ──────────────────────────────────────────────────────────────

/// Everything the layout is made of: where the parts go that other parts of
/// the editor lay out.
#[derive(Debug)]
pub struct Laid {
    /// Where the focused pane's text goes, its gutter included.
    pub text: Rect,
    /// How many columns the gutter takes.
    pub gutter: u16,
    /// The file tree.
    pub sidebar: Vec<Hit>,
    /// The search panel.
    pub search: Vec<Hit>,
    /// The references panel.
    pub references: Vec<Hit>,
    /// The preview of an edit across files.
    pub edit_preview: Vec<Hit>,
    /// The panes: tabs and dividers.
    pub panes: Vec<Hit>,
    /// The rails and the underlines.
    pub diagnostics: Vec<Hit>,
    /// The card.
    pub card: Vec<Hit>,
    /// The completion popup.
    pub completion: Vec<Hit>,
    /// The palette.
    pub palette: Vec<Hit>,
    /// The status line's buttons.
    pub status: StatusParts,
    /// The buttons of the question being asked, if one is.
    pub prompt: Vec<Rect>,
}

/// Whether no part of `hits` is a menu's or a question's.
pub open spec fn plain(hits: Seq<Hit>) -> bool {
    forall|i: int|
        0 <= i < hits.len() ==> !((#[trigger] hits[i]).target is MenuItem)
            && !(hits[i].target is PromptButton)
}

impl Laid {
    /// Whether its parts are where they can be: the text on screen, and no menu
    /// and no question among what is laid out elsewhere.
    pub open spec fn wf(self) -> bool {
        &&& self.text.on_screen()
        &&& plain(self.sidebar@)
        &&& plain(self.search@)
        &&& plain(self.references@)
        &&& plain(self.edit_preview@)
        &&& plain(self.panes@)
        &&& plain(self.diagnostics@)
        &&& plain(self.card@)
        &&& plain(self.completion@)
        &&& plain(self.palette@)
    }
}

/// The status line of a screen: its last row.
pub open spec fn status_area(viewport: Rect) -> Rect {
    Rect {
        y: (if viewport.spec_bottom() > 0 {
            viewport.spec_bottom() - 1
        } else {
            0
        }) as u16,
        height: if viewport.height < 1 {
            viewport.height
        } else {
            1
        },
        ..viewport
    }
}

/// The focused text and the status line: what is under everything else.
pub open spec fn ground(viewport: Rect, text: Rect, gutter: u16) -> Seq<Hit> {
    let gutter = if gutter < text.width {
        gutter
    } else {
        text.width
    };
    seq![
        Hit { area: Rect { width: gutter, ..text }, target: Target::Gutter, hover: false },
        Hit {
            area: Rect {
                x: (text.x + gutter) as u16,
                width: (text.width - gutter) as u16,
                ..text
            },
            target: Target::Text,
            hover: false,
        },
        Hit { area: status_area(viewport), target: Target::Status, hover: false },
    ]
}

/// The first `count` buttons of a question that have any width.
pub open spec fn prompt_hits(buttons: Seq<Rect>, count: int) -> Seq<Hit>
    decreases count,
{
    if count <= 0 {
        Seq::empty()
    } else if buttons[count - 1].width > 0 {
        prompt_hits(buttons, count - 1).push(
            Hit {
                area: buttons[count - 1],
                target: Target::PromptButton((count - 1) as usize),
                hover: true,
            },
        )
    } else {
        prompt_hits(buttons, count - 1)
    }
}

/// A menu's items, a row each.
pub open spec fn item_hits(menu: Menu) -> Seq<Hit> {
    Seq::new(
        menu.commands@.len(),
        |i: int|
            Hit {
                area: Rect { y: (menu.area.y + i) as u16, height: 1, ..menu.area },
                target: Target::MenuItem(i as usize),
                hover: true,
            },
    )
}

/// Everything of a layout that a menu would go over, from the bottom up.
pub open spec fn beneath_menu(viewport: Rect, laid: Laid, prompt: Option<Prompt>) -> Seq<Hit> {
    ground(viewport, laid.text, laid.gutter) + laid.sidebar@ + laid.search@ + laid.references@
        + laid.edit_preview@ + laid.panes@ + laid.diagnostics@ + laid.card@ + laid.completion@
        + laid.palette@ + part_hits(laid.status) + match prompt {
        Some(_) => prompt_hits(laid.prompt@, laid.prompt@.len() as int),
        None => Seq::empty(),
    }
}

/// What is where, from the bottom up. The menu sits on top of everything, and
/// everything outside it closes it: a click beside a menu dismisses it rather
/// than landing below.
pub open spec fn laid_out(viewport: Rect, laid: Laid, prompt: Option<Prompt>, menu: Option<Menu>) -> Seq<
    Hit,
> {
    let beneath = beneath_menu(viewport, laid, prompt);
    match menu {
        Some(menu) => beneath.push(
            Hit { area: viewport, target: Target::MenuOutside, hover: false },
        ) + item_hits(menu),
        None => beneath,
    }
}

fn push_all(hits: &mut Vec<Hit>, more: &Vec<Hit>)
    ensures
        final(hits)@ == old(hits)@ + more@,
{
    let ghost before = hits@;
    let mut i: usize = 0;
    while i < more.len()
        invariant
            i <= more@.len(),
            hits@ =~= before + more@.take(i as int),
        decreases more@.len() - i,
    {
        hits.push(more[i]);
        i = i + 1;
    }
    assert(more@.take(more@.len() as int) =~= more@);
}

fn push_prompt(hits: &mut Vec<Hit>, buttons: &Vec<Rect>)
    ensures
        final(hits)@ == old(hits)@ + prompt_hits(buttons@, buttons@.len() as int),
{
    let ghost before = hits@;
    let mut i: usize = 0;
    assert(before + prompt_hits(buttons@, 0) =~= before);
    while i < buttons.len()
        invariant
            i <= buttons@.len(),
            hits@ == before + prompt_hits(buttons@, i as int),
        decreases buttons@.len() - i,
    {
        if buttons[i].width > 0 {
            hits.push(Hit { area: buttons[i], target: Target::PromptButton(i), hover: true });
            assert(hits@ =~= before + prompt_hits(buttons@, i + 1));
        }
        i = i + 1;
    }
}

fn push_menu(hits: &mut Vec<Hit>, menu: &Menu)
    requires
        menu.wf(),
    ensures
        final(hits)@ == old(hits)@ + item_hits(*menu),
{
    let ghost before = hits@;
    let mut i: usize = 0;
    while i < menu.commands.len()
        invariant
            menu.wf(),
            i <= menu.commands@.len(),
            hits@ =~= before + item_hits(*menu).take(i as int),
        decreases menu.commands@.len() - i,
    {
        let y: u16 = menu.area.y + i as u16;
        let row = Rect { x: menu.area.x, y, width: menu.area.width, height: 1 };
        hits.push(Hit { area: row, target: Target::MenuItem(i), hover: true });
        i = i + 1;
    }
    assert(item_hits(*menu).take(menu.commands@.len() as int) =~= item_hits(*menu));
}

/// Whether the buttons and items among `hits` are the question's and the
/// menu's.
pub open spec fn in_reach(hits: Seq<Hit>, prompt: Option<Prompt>, menu: Option<Menu>) -> bool {
    forall|i: int|
        0 <= i < hits.len() ==> match (#[trigger] hits[i]).target {
            Target::PromptButton(index) => prompt matches Some(prompt) ==> index < prompt.answers,
            Target::MenuItem(index) => menu matches Some(menu) ==> index < menu.commands@.len(),
            _ => true,
        }
}

proof fn plain_is_in_reach(hits: Seq<Hit>, more: Seq<Hit>, prompt: Option<Prompt>, menu: Option<Menu>)
    requires
        in_reach(hits, prompt, menu),
        in_reach(more, prompt, menu),
    ensures
        in_reach(hits + more, prompt, menu),
{
    assert forall|i: int| 0 <= i < (hits + more).len() implies match (#[trigger] (hits
        + more)[i]).target {
        Target::PromptButton(index) => prompt matches Some(prompt) ==> index < prompt.answers,
        Target::MenuItem(index) => menu matches Some(menu) ==> index < menu.commands@.len(),
        _ => true,
    } by {
        if i < hits.len() {
            assert((hits + more)[i] == hits[i]);
        } else {
            assert((hits + more)[i] == more[i - hits.len()]);
        }
    }
}

proof fn buttons_are_in_reach(buttons: Seq<Rect>, count: int, prompt: Prompt, menu: Option<Menu>)
    requires
        0 <= count <= prompt.answers,
    ensures
        in_reach(prompt_hits(buttons, count), Some(prompt), menu),
    decreases count,
{
    if count > 0 {
        buttons_are_in_reach(buttons, count - 1, prompt, menu);
        let before = prompt_hits(buttons, count - 1);
        let all = prompt_hits(buttons, count);
        assert forall|i: int| 0 <= i < all.len() implies match (#[trigger] all[i]).target {
            Target::PromptButton(index) => index < prompt.answers,
            Target::MenuItem(index) => menu matches Some(menu) ==> index < menu.commands@.len(),
            _ => true,
        } by {
            if i < before.len() {
                assert(all[i] == before[i]);
            }
        }
    }
}

proof fn a_layout_is_in_reach(viewport: Rect, laid: Laid, prompt: Option<Prompt>, menu: Option<Menu>)
    requires
        laid.wf(),
        prompt matches Some(prompt) ==> laid.prompt@.len() == prompt.answers,
        menu matches Some(menu) ==> menu.wf(),
    ensures
        in_reach(laid_out(viewport, laid, prompt, menu), prompt, menu),
{
    let ground = ground(viewport, laid.text, laid.gutter);
    assert(in_reach(ground, prompt, menu));
    let a = ground + laid.sidebar@;
    plain_is_in_reach(ground, laid.sidebar@, prompt, menu);
    let b = a + laid.search@;
    plain_is_in_reach(a, laid.search@, prompt, menu);
    let c = b + laid.references@;
    plain_is_in_reach(b, laid.references@, prompt, menu);
    let d = c + laid.edit_preview@;
    plain_is_in_reach(c, laid.edit_preview@, prompt, menu);
    let e = d + laid.panes@;
    plain_is_in_reach(d, laid.panes@, prompt, menu);
    let f = e + laid.diagnostics@;
    plain_is_in_reach(e, laid.diagnostics@, prompt, menu);
    let g = f + laid.card@;
    plain_is_in_reach(f, laid.card@, prompt, menu);
    let h = g + laid.completion@;
    plain_is_in_reach(g, laid.completion@, prompt, menu);
    let i = h + laid.palette@;
    plain_is_in_reach(h, laid.palette@, prompt, menu);
    let j = i + part_hits(laid.status);
    plain_is_in_reach(i, part_hits(laid.status), prompt, menu);
    match prompt {
        Some(prompt) => {
            buttons_are_in_reach(laid.prompt@, laid.prompt@.len() as int, prompt, menu);
            plain_is_in_reach(
                j,
                prompt_hits(laid.prompt@, laid.prompt@.len() as int),
                Some(prompt),
                menu,
            );
        },
        None => {
            plain_is_in_reach(j, Seq::empty(), None, menu);
        },
    }
    let beneath = beneath_menu(viewport, laid, prompt);
    if let Some(menu) = menu {
        let outside = Hit { area: viewport, target: Target::MenuOutside, hover: false };
        plain_is_in_reach(beneath, seq![outside], prompt, Some(menu));
        assert(beneath + seq![outside] =~= beneath.push(outside));
        plain_is_in_reach(beneath.push(outside), item_hits(menu), prompt, Some(menu));
    }
}

/// With a menu on screen, nothing under it can be pressed: a press anywhere on
/// screen is on one of its items, or outside it, which closes it.
pub proof fn a_menu_takes_every_press(
    viewport: Rect,
    laid: Laid,
    prompt: Option<Prompt>,
    menu: Menu,
    column: int,
    row: int,
)
    requires
        viewport.spec_contains(column, row),
    ensures
        on_top(laid_out(viewport, laid, prompt, Some(menu)), column, row) matches Some(hit) && (
        hit.target is MenuOutside || hit.target is MenuItem),
{
    what_covers_an_area_hides_what_is_under_it(
        beneath_menu(viewport, laid, prompt),
        Hit { area: viewport, target: Target::MenuOutside, hover: false },
        item_hits(menu),
        column,
        row,
    );
}

// ── the editor ──────────────────────────────────────────────────────────────

/// How the view stands to the caret, lines counted as they are in view.
#[derive(Debug, Clone, Copy, PartialEq, Eq, Structural)]
pub struct CaretView {
    /// How many rows of text there are.
    pub height: usize,
    /// The line the caret is on.
    pub line: usize,
    /// The first line in view: where what is scrolled to has been folded, the
    /// header of the fold.
    pub top: usize,
    /// How many rows down from there the caret's line is.
    pub rows: usize,
    /// The line at the top that puts the caret's line on the last row.
    pub last: usize,
}

impl CaretView {
    /// Where the view scrolls to: the least distance that has the caret on
    /// screen.
    pub open spec fn followed(self, scroll: usize) -> usize {
        if self.height == 0 {
            scroll
        } else if self.line < self.top {
            self.line
        } else if self.rows >= self.height {
            self.last
        } else {
            self.top
        }
    }
}

/// How many lines there should be above a place gone to. Landing a definition on
/// the top row hides what it belongs to.
pub const ABOVE: usize = 3;

/// How the view stands to a place gone to, lines counted as they are in view.
#[derive(Debug, Clone, Copy, PartialEq, Eq, Structural)]
pub struct Landing {
    /// The line gone to.
    pub line: usize,
    /// How many rows down from where the view is scrolled to that line is.
    pub rows: usize,
    /// How many rows of text there are.
    pub height: usize,
    /// The line [`ABOVE`] lines above it, or as many as there are.
    pub above: usize,
    /// How the view stands to the caret as it is scrolled now.
    pub kept: CaretView,
    /// How it stands to the caret scrolled to `above`.
    pub moved: CaretView,
}

impl Landing {
    /// Whether the view, scrolled to `scroll`, has to move for the line to be
    /// seen with some room above it.
    pub open spec fn moves(self, scroll: usize) -> bool {
        self.line < scroll || self.rows < ABOVE || self.rows >= self.height
    }

    /// Where the view scrolls to.
    pub open spec fn landed(self, scroll: usize) -> usize {
        if self.moves(scroll) {
            self.moved.followed(self.above)
        } else {
            self.kept.followed(scroll)
        }
    }
}

/// How writing a document to disk went.
#[derive(Debug)]
pub enum Written {
    /// It is on disk.
    Saved,
    /// It has nowhere to be kept.
    NoPath,
    /// What is on disk, here, is not what it was read from.
    Changed(String),
    /// It could not be written, for this reason.
    Failed(String),
}

/// Where a document is kept, as it is shown.
pub open spec fn name_of(path: Option<String>) -> Seq<char> {
    match path {
        Some(path) => path@,
        None => "[no name]"@,
    }
}

/// What is said of writing a document.
pub open spec fn report(path: Option<String>, written: Written) -> Result<Seq<char>, Seq<char>> {
    match written {
        Written::Saved => Ok("Saved "@ + name_of(path)),
        Written::NoPath => Err("No path to save to."@),
        Written::Changed(at) => Err(at@ + " changed on disk. Reopen it to see what changed."@),
        Written::Failed(why) => Err("Could not save: "@ + why@),
    }
}

/// A result with its words as they read.
pub open spec fn said_of(result: Result<String, String>) -> Result<Seq<char>, Seq<char>> {
    match result {
        Ok(said) => Ok(said@),
        Err(said) => Err(said@),
    }
}

/// What is said when quitting would lose `unsaved` files.
pub open spec fn warning(unsaved: nat, save: Seq<char>, quit: Seq<char>) -> Seq<char> {
    (if unsaved == 1 {
        "Unsaved changes"@
    } else {
        decimal_of(unsaved) + " files have unsaved changes"@
    }) + ". "@ + save + " to save, or "@ + quit + " again to discard."@
}

/// What asking to quit comes to with `unsaved` files to lose, and whether it is
/// confirmed then.
pub open spec fn quitting(unsaved: nat, confirmed: bool) -> (Outcome, bool) {
    if unsaved > 0 && !confirmed {
        (Outcome::Redraw, true)
    } else {
        (Outcome::Quit, confirmed)
    }
}

/// The earlier of two times, where there is one.
pub open spec fn sooner(a: Option<u64>, b: Option<u64>) -> Option<u64> {
    match (a, b) {
        (Some(x), Some(y)) => if x <= y {
            Some(x)
        } else {
            Some(y)
        },
        (Some(x), None) => Some(x),
        (None, b) => b,
    }
}

/// The earliest of the first `count` of `times`.
pub open spec fn soonest(times: Seq<Option<u64>>, count: int) -> Option<u64>
    decreases count,
{
    if count <= 0 {
        None
    } else {
        sooner(soonest(times, count - 1), times[count - 1])
    }
}

fn the_sooner(a: Option<u64>, b: Option<u64>) -> (first: Option<u64>)
    ensures
        first == sooner(a, b),
{
    match (a, b) {
        (Some(x), Some(y)) => if x <= y {
            Some(x)
        } else {
            Some(y)
        },
        (Some(x), None) => Some(x),
        (None, b) => b,
    }
}

/// Whether something among `hits` looks different with the pointer on it.
pub open spec fn reacts(hits: Seq<Hit>) -> bool {
    exists|i: int| 0 <= i < hits.len() && (#[trigger] hits[i]).hover
}

fn has_hover_targets(hits: &Vec<Hit>) -> (has: bool)
    ensures
        has == reacts(hits@),
{
    let mut i: usize = 0;
    while i < hits.len()
        invariant
            i <= hits@.len(),
            forall|k: int| 0 <= k < i ==> !(#[trigger] hits@[k]).hover,
        decreases hits@.len() - i,
    {
        if hits[i].hover {
            assert(hits@[i as int].hover);
            return true;
        }
        i = i + 1;
    }
    false
}

impl App {
    /// Whether a document is being edited, what is on screen can be answered,
    /// and every part is as it should be.
    pub open spec fn wf(self) -> bool {
        &&& index_of(self.docs@, self.current, 0) is Some
        &&& in_reach(self.hits@, self.prompt, self.menu)
        &&& self.menu matches Some(menu) ==> menu.wf()
        &&& self.card matches Some(card) ==> card.wf()
        &&& self.finder.wf()
        &&& self.formatting.wf()
        &&& self.navigation.wf()
        &&& self.diagnostics.wf()
        &&& self.completion.wf()
        &&& self.diffing.wf()
    }

    /// Where the document being edited is.
    pub open spec fn at(self) -> int {
        index_of(self.docs@, self.current, 0)->0
    }

    /// The document being edited.
    pub open spec fn doc(self) -> Document {
        self.docs@[self.at()]
    }

    /// An editor over one document, kept at `path` if anywhere, with `laid` on
    /// screen.
    #[must_use]
    pub fn new(path: Option<String>, lossy: bool, laid: &Laid) -> (app: Self)
        requires
            laid.wf(),
        ensures
            app.wf(),
            app.docs@ == seq![Document { id: 0, path, scroll: 0, modified: false, lossy }],
            app.current == 0,
            app.next_doc == 1,
            app.viewport == (Rect { x: 0, y: 0, width: 80, height: 24 }),
            app.messages@ == (MessagesModel {
                message: None,
                notices: Seq::empty(),
                hint: HintModel::Absent,
            }),
            !app.quit_confirmed,
            app.hits@ == laid_out(app.viewport, *laid, None, None),
            app.focus == Focus::Editor,
            app.prompt is None,
            app.menu is None,
            !app.undo_offer,
            !app.last_undone,
            app.finder.palette is None,
            app.finder.searches == 0,
            app.finder.file_count is None,
            app.finder.frecency@.len() == 0,
            app.sidebar_view == SidebarView::Files,
            app.formatting.pending@.len() == 0,
            app.formatting.on_save@.len() == 0,
            app.formatting.timeout == TIMEOUT,
            app.navigation.jumps.back@.len() == 0,
            app.navigation.jumps.forward@.len() == 0,
            app.navigation.asked is None,
            app.navigation.link is None,
            app.navigation.listing.groups@.len() == 0,
            app.navigation.listing.summary@.len() == 0,
            app.navigation.listing.widest == 0,
            app.navigation.listing.scroll == 0,
            app.navigation.listing.selected is None,
            app.navigation.listing.generation == 0,
            forall|doc: usize| app.diagnostics.of(doc) is None,
            app.card is None,
            app.completion == (Completion {
                popup: None,
                stops: None,
                typed: None,
                wanted: None,
                ended: false,
            }),
            app.hovering == (Hovering { delay: DELAY, hyperlinks: true, spot: None }),
            app.code_actions.card_asked is None,
            app.code_actions.card is None,
            app.code_actions.chooser_asked is None,
            app.code_actions.chosen@.len() == 0,
            app.code_actions.resolving is None,
            app.code_actions.executing@.len() == 0,
            !app.code_actions.lightbulb_off,
            app.code_actions.bulb is None,
            app.diffing.view is None,
            app.diffing.serials == 0,
            app.diffing.versions == 0,
    {
        let mut app = App {
            docs: Vec::new(),
            current: 0,
            next_doc: 1,
            viewport: Rect::new(0, 0, 80, 24),
            messages: Messages::new(),
            quit_confirmed: false,
            hits: Vec::new(),
            focus: Focus::Editor,
            prompt: None,
            menu: None,
            undo_offer: false,
            last_undone: false,
            finder: Finder::new(),
            sidebar_view: SidebarView::Files,
            formatting: Formatting::default(),
            navigation: Navigation::new(),
            diagnostics: Diagnostics::new(),
            card: None,
            completion: Completion::new(),
            hovering: Hovering::default(),
            code_actions: CodeActions::new(),
            diffing: Diffing::new(),
        };
        app.docs.push(Document { id: 0, path, scroll: 0, modified: false, lossy });
        app.relayout(laid);
        app
    }

    /// Where the document `id` is.
    fn find(&self, id: usize) -> (at: Option<usize>)
        ensures
            at == match index_of(self.docs@, id, 0) {
                Some(at) => Some(at as usize),
                None => None,
            },
            at matches Some(at) ==> at < self.docs@.len() && index_of(self.docs@, id, 0) == Some(
                at as int,
            ),
    {
        let mut i: usize = 0;
        while i < self.docs.len()
            invariant
                i <= self.docs@.len(),
                index_of(self.docs@, id, 0) == index_of(self.docs@, id, i as int),
            decreases self.docs@.len() - i,
        {
            if self.docs[i].id == id {
                return Some(i);
            }
            i = i + 1;
        }
        None
    }

    /// The first line in view of the document being edited.
    pub fn scroll(&self) -> (scroll: usize)
        requires
            self.wf(),
        ensures
            scroll == self.doc().scroll,
    {
        match self.find(self.current) {
            Some(at) => self.docs[at].scroll,
            None => 0,
        }
    }

    /// The message the status line is showing, if any.
    pub fn message(&self) -> (shown: Option<String>)
        ensures
            words(shown) == self.messages@.shown(),
    {
        self.messages.shown()
    }

    /// Say something once in the status line: a notice stays until a key is
    /// pressed, and then the next one shows.
    pub fn warn(&mut self, message: String)
        ensures
            final(self).messages@ == old(self).messages@.warned(message@),
            *final(self) == (App { messages: final(self).messages, ..*old(self) }),
    {
        self.messages.warn(message);
    }

    /// Say something that need never be said again: a notice like any other,
    /// except that once it has been seen — dismissed by a key or a click —
    /// `hint_seen` says so, for the caller to remember.
    pub fn hint(&mut self, message: String)
        ensures
            final(self).messages@ == (MessagesModel {
                hint: HintModel::Waiting(message@),
                ..old(self).messages@.warned(message@)
            }),
            *final(self) == (App { messages: final(self).messages, ..*old(self) }),
    {
        self.messages.hint(message);
    }

    /// Whether the hint has been seen and dismissed.
    #[must_use]
    pub fn hint_seen(&self) -> (seen: bool)
        ensures
            seen == (self.messages@.hint == HintModel::Seen),
    {
        self.messages.hint_seen()
    }

    /// A key was pressed: whatever message was showing has been seen, and what
    /// it offered to undo with it.
    pub fn acknowledge(&mut self)
        ensures
            final(self).messages@ == old(self).messages@.acknowledged(),
            *final(self) == (App {
                messages: final(self).messages,
                undo_offer: false,
                ..*old(self)
            }),
    {
        self.undo_offer = false;
        self.messages.acknowledge();
    }

    /// Tell the editor how much room it has. Whether that is news, and
    /// everything has to be laid out again.
    pub fn set_viewport(&mut self, viewport: Rect) -> (changed: bool)
        ensures
            changed == (viewport != old(self).viewport),
            *final(self) == (App { viewport, ..*old(self) }),
    {
        if viewport != self.viewport {
            self.viewport = viewport;
            true
        } else {
            false
        }
    }

    /// Where the focused pane's text and the status line go, `text` being where
    /// the pane's text would.
    pub fn areas(&self, text: Option<Rect>) -> (areas: (Rect, Rect))
        ensures
            areas.0 == match text {
                Some(text) => text,
                None => Rect { width: 0, height: 0, ..self.viewport },
            },
            areas.1 == status_area(self.viewport),
    {
        let area = self.viewport;
        let text = match text {
            Some(text) => text,
            None => Rect::new(area.x, area.y, 0, 0),
        };
        let y: u16 = area.bottom().saturating_sub(1);
        let height: u16 = if area.height < 1 {
            area.height
        } else {
            1
        };
        (text, Rect::new(area.x, y, area.width, height))
    }

    /// Record what is where, for resolving the pointer.
    ///
    /// Parts are laid down in paint order, so anything drawn on top — an
    /// overlay, a menu — comes later and captures the pointer above what is
    /// beneath.
    pub fn relayout(&mut self, laid: &Laid)
        requires
            laid.wf(),
            old(self).menu matches Some(menu) ==> menu.wf(),
            old(self).prompt matches Some(prompt) ==> laid.prompt@.len() == prompt.answers,
        ensures
            final(self).hits@ == laid_out(
                old(self).viewport,
                *laid,
                old(self).prompt,
                old(self).menu,
            ),
            in_reach(final(self).hits@, final(self).prompt, final(self).menu),
            *final(self) == (App { hits: final(self).hits, ..*old(self) }),
    {
        let text = laid.text;
        let (_, status) = self.areas(Some(text));
        let gutter: u16 = if laid.gutter < text.width {
            laid.gutter
        } else {
            text.width
        };
        let mut hits: Vec<Hit> = Vec::new();
        hits.push(
            Hit {
                area: Rect::new(text.x, text.y, gutter, text.height),
                target: Target::Gutter,
                hover: false,
            },
        );
        hits.push(
            Hit {
                area: Rect::new(text.x + gutter, text.y, text.width - gutter, text.height),
                target: Target::Text,
                hover: false,
            },
        );
        hits.push(Hit { area: status, target: Target::Status, hover: false });
        assert(hits@ =~= ground(self.viewport, text, laid.gutter));
        push_all(&mut hits, &laid.sidebar);
        push_all(&mut hits, &laid.search);
        push_all(&mut hits, &laid.references);
        push_all(&mut hits, &laid.edit_preview);
        push_all(&mut hits, &laid.panes);
        push_all(&mut hits, &laid.diagnostics);
        push_all(&mut hits, &laid.card);
        push_all(&mut hits, &laid.completion);
        push_all(&mut hits, &laid.palette);
        let parts = layout_status(&laid.status);
        push_all(&mut hits, &parts);
        if self.prompt.is_some() {
            push_prompt(&mut hits, &laid.prompt);
        } else {
            assert(hits@ + Seq::<Hit>::empty() =~= hits@);
        }
        assert(hits@ == beneath_menu(self.viewport, *laid, self.prompt));
        if let Some(menu) = &self.menu {
            hits.push(Hit { area: self.viewport, target: Target::MenuOutside, hover: false });
            push_menu(&mut hits, menu);
        }
        proof {
            a_layout_is_in_reach(self.viewport, *laid, self.prompt, self.menu);
        }
        self.hits = hits;
    }

    /// Put a menu on screen, with `laid` under it.
    pub fn open_menu(&mut self, menu: Menu, laid: &Laid)
        requires
            old(self).wf(),
            menu.wf(),
            laid.wf(),
            old(self).prompt matches Some(prompt) ==> laid.prompt@.len() == prompt.answers,
        ensures
            final(self).wf(),
            final(self).hits@ == laid_out(
                old(self).viewport,
                *laid,
                old(self).prompt,
                Some(menu),
            ),
            *final(self) == (App { menu: Some(menu), hits: final(self).hits, ..*old(self) }),
    {
        self.menu = Some(menu);
        self.relayout(laid);
    }

    /// Ask a question, with `laid` on screen around it.
    pub fn ask(&mut self, prompt: Prompt, laid: &Laid)
        requires
            old(self).wf(),
            laid.wf(),
            laid.prompt@.len() == prompt.answers,
        ensures
            final(self).wf(),
            final(self).hits@ == laid_out(
                old(self).viewport,
                *laid,
                Some(prompt),
                old(self).menu,
            ),
            *final(self) == (App { prompt: Some(prompt), hits: final(self).hits, ..*old(self) }),
    {
        self.prompt = Some(prompt);
        self.relayout(laid);
    }

    /// Whether anything on screen reacts to the pointer merely passing over it.
    ///
    /// The terminal's any-motion reporting is turned on only while this holds.
    /// That includes any time a language server could say a symbol has a
    /// definition, which is `links`, or describe one, which is `describes`:
    /// nothing but motion reports carry the pointer.
    pub fn wants_motion(&self, links: bool, describes: bool) -> (wants: bool)
        ensures
            wants == (reacts(self.hits@) || links || describes),
    {
        has_hover_targets(&self.hits) || links || describes
    }

    /// When the editor next needs waking with no input, of its own accord.
    pub open spec fn due(self) -> Option<u64> {
        sooner(
            sooner(
                sooner(
                    sooner(
                        earliest(self.formatting.pending@, self.formatting.pending@.len() as int),
                        self.navigation.link_due(),
                    ),
                    self.hovering.due(),
                ),
                self.code_actions.bulb_due(),
            ),
            self.diffing.due(),
        )
    }

    /// When the editor next needs waking with no input, if ever. `others` are
    /// when the rest of it does: the pointer's dwell, a half-typed chord, a
    /// scroll under a drag, the parser, a search.
    pub fn deadline(&self, others: &Vec<Option<u64>>) -> (due: Option<u64>)
        ensures
            due == sooner(soonest(others@, others@.len() as int), self.due()),
    {
        let mut first: Option<u64> = None;
        let mut i: usize = 0;
        while i < others.len()
            invariant
                i <= others@.len(),
                first == soonest(others@, i as int),
            decreases others@.len() - i,
        {
            first = the_sooner(first, others[i]);
            i = i + 1;
        }
        let own = the_sooner(self.formatting.deadline(), self.navigation.link_deadline());
        let own = the_sooner(own, self.hovering.hover_deadline());
        let own = the_sooner(own, self.code_actions.bulb_deadline());
        let own = the_sooner(own, self.diffing.diff_deadline());
        the_sooner(first, own)
    }

    /// Scroll the document being edited the least distance that keeps the caret
    /// on screen.
    pub fn follow_caret(&mut self, view: &CaretView)
        requires
            old(self).wf(),
        ensures
            final(self).wf(),
            final(self).docs@ == old(self).docs@.update(
                old(self).at(),
                Document { scroll: view.followed(old(self).doc().scroll), ..old(self).doc() },
            ),
            *final(self) == (App { docs: final(self).docs, ..*old(self) }),
    {
        let scroll = self.scroll();
        let to: usize = if view.height == 0 {
            scroll
        } else if view.line < view.top {
            view.line
        } else if view.rows >= view.height {
            view.last
        } else {
            view.top
        };
        self.scroll_to(to);
    }

    /// Scroll the document being edited so that a place gone to is seen with a
    /// few lines above it.
    pub fn show_with_context(&mut self, landing: &Landing)
        requires
            old(self).wf(),
        ensures
            final(self).wf(),
            final(self).docs@ == old(self).docs@.update(
                old(self).at(),
                Document { scroll: landing.landed(old(self).doc().scroll), ..old(self).doc() },
            ),
            *final(self) == (App { docs: final(self).docs, ..*old(self) }),
    {
        let scroll = self.scroll();
        if landing.line < scroll || landing.rows < ABOVE || landing.rows >= landing.height {
            self.scroll_to(landing.above);
            proof {
                found_is_it(old(self).docs@, self.current, 0);
                same_ids(old(self).docs@, self.docs@, self.current, 0);
            }
            self.follow_caret(&landing.moved);
        } else {
            self.follow_caret(&landing.kept);
        }
    }

    /// Scroll the document being edited to `scroll`.
    pub fn scroll_to(&mut self, scroll: usize)
        requires
            old(self).wf(),
        ensures
            final(self).wf(),
            final(self).docs@ == old(self).docs@.update(
                old(self).at(),
                Document { scroll, ..old(self).doc() },
            ),
            *final(self) == (App { docs: final(self).docs, ..*old(self) }),
    {
        if let Some(at) = self.find(self.current) {
            let ghost before = self.docs@;
            let path = self.docs[at].path.clone();
            let id = self.docs[at].id;
            let modified = self.docs[at].modified;
            let lossy = self.docs[at].lossy;
            self.docs.set(at, Document { id, path, scroll, modified, lossy });
            proof {
                same_ids(before, self.docs@, self.current, 0);
            }
        }
    }

    // ── quitting and saving ─────────────────────────────────────────────────

    /// How many files would lose changes.
    fn unsaved(&self) -> (unsaved: usize)
        ensures
            unsaved == unsaved_in(self.docs@, self.docs@.len() as int),
    {
        let mut unsaved: usize = 0;
        let mut i: usize = 0;
        while i < self.docs.len()
            invariant
                i <= self.docs@.len(),
                unsaved <= i,
                unsaved == unsaved_in(self.docs@, i as int),
            decreases self.docs@.len() - i,
        {
            if self.docs[i].modified {
                unsaved = unsaved + 1;
            }
            i = i + 1;
        }
        unsaved
    }

    /// Leave: at once where nothing would be lost, and otherwise only when
    /// asked again. `save` and `quit` are how those are asked for from the
    /// keyboard. Every save put off has been made by now.
    ///
    /// Every unsaved file is counted, so quitting never throws away one that is
    /// not on screen without saying so.
    pub fn request_quit(&mut self, save: &str, quit: &str) -> (outcome: Outcome)
        ensures
            ({
                let unsaved = unsaved_in(old(self).docs@, old(self).docs@.len() as int);
                &&& (outcome, final(self).quit_confirmed) == quitting(
                    unsaved,
                    old(self).quit_confirmed,
                )
                &&& final(self).messages@ == if outcome == Outcome::Quit {
                    old(self).messages@
                } else {
                    old(self).messages@.saying(warning(unsaved, save@, quit@))
                }
            }),
            *final(self) == (App {
                messages: final(self).messages,
                quit_confirmed: final(self).quit_confirmed,
                ..*old(self)
            }),
            old(self).wf() ==> final(self).wf(),
    {
        let unsaved = self.unsaved();
        if unsaved > 0 && !self.quit_confirmed {
            self.quit_confirmed = true;
            let mut said = if unsaved == 1 {
                "Unsaved changes".to_owned()
            } else {
                join(decimal(unsaved).as_str(), " files have unsaved changes")
            };
            said.append(". ");
            said.append(save);
            said.append(" to save, or ");
            said.append(quit);
            said.append(" again to discard.");
            self.messages.say(said);
            return Outcome::Redraw;
        }
        Outcome::Quit
    }

    /// Why a document cannot be written at all: it is no longer open, or was
    /// not valid UTF-8.
    pub open spec fn unwritable(self, id: usize) -> Option<Seq<char>> {
        match index_of(self.docs@, id, 0) {
            None => Some("That file is no longer open."@),
            Some(at) => if self.docs@[at].lossy {
                Some(
                    "Refusing to save: this file was not valid UTF-8 and would be damaged."@,
                )
            } else {
                None
            },
        }
    }

    /// Why the document `id` must not be written to disk, if it must not.
    pub fn refusal(&self, id: usize) -> (why: Option<String>)
        ensures
            words(why) == self.unwritable(id),
    {
        match self.find(id) {
            None => Some("That file is no longer open.".to_owned()),
            Some(at) => if self.docs[at].lossy {
                Some(
                    "Refusing to save: this file was not valid UTF-8 and would be damaged."
                        .to_owned(),
                )
            } else {
                None
            },
        }
    }

    /// The document `id` was written to disk, or could not be: what is said of
    /// that. One written has no changes that are not on disk.
    pub fn write(&mut self, id: usize, written: Written) -> (said: Result<String, String>)
        ensures
            match old(self).unwritable(id) {
                Some(why) => said_of(said) == Err::<Seq<char>, Seq<char>>(why) && *final(self)
                    == *old(self),
                None => {
                    let at = index_of(old(self).docs@, id, 0)->0;
                    let before = old(self).docs@[at];
                    &&& said_of(said) == report(before.path, written)
                    &&& *final(self) == (App { docs: final(self).docs, ..*old(self) })
                    &&& written is Saved ==> final(self).docs@ == old(self).docs@.update(
                        at,
                        Document { modified: false, ..before },
                    )
                    &&& !(written is Saved) ==> final(self).docs@ == old(self).docs@
                },
            },
            old(self).wf() ==> final(self).wf(),
    {
        if let Some(why) = self.refusal(id) {
            return Err(why);
        }
        let Some(at) = self.find(id) else {
            return Err("That file is no longer open.".to_owned());
        };
        match written {
            Written::Saved => {
                let ghost before = self.docs@;
                let path = self.docs[at].path.clone();
                let name = match &path {
                    Some(path) => path.clone(),
                    None => "[no name]".to_owned(),
                };
                let scroll = self.docs[at].scroll;
                self.docs.set(
                    at,
                    Document { id, path, scroll, modified: false, lossy: self.docs[at].lossy },
                );
                proof {
                    found_is_it(before, id, 0);
                    same_ids(before, self.docs@, self.current, 0);
                }
                Ok(join("Saved ", name.as_str()))
            },
            Written::NoPath => Err("No path to save to.".to_owned()),
            Written::Changed(path) => Err(
                join(path.as_str(), " changed on disk. Reopen it to see what changed."),
            ),
            Written::Failed(why) => Err(join("Could not save: ", why.as_str())),
        }
    }

    /// Whether the document `id` is open and has no changes that are not on
    /// disk.
    pub fn is_saved(&self, id: usize) -> (saved: bool)
        ensures
            saved == match index_of(self.docs@, id, 0) {
                Some(at) => !self.docs@[at].modified,
                None => false,
            },
    {
        match self.find(id) {
            Some(at) => !self.docs[at].modified,
            None => false,
        }
    }

    /// Save the document being edited: what comes first. Formatting it, where
    /// `formats` says its language asks for that, puts the save off until the
    /// server has answered.
    pub fn save(&mut self, formats: bool) -> (put_off: PutOff)
        requires
            old(self).wf(),
        ensures
            final(self).wf(),
            put_off == if doc_at(old(self).formatting.pending@, old(self).current, 0) is Some {
                PutOff::Joined
            } else if formats {
                PutOff::Ask
            } else {
                PutOff::Now
            },
            put_off == PutOff::Joined ==> ({
                let at = doc_at(old(self).formatting.pending@, old(self).current, 0)->0;
                let before = old(self).formatting.pending@[at];
                final(self).formatting.pending@ == old(self).formatting.pending@.update(
                    at,
                    Pending { save: true, ..before },
                )
            }),
            put_off != PutOff::Joined ==> *final(self) == *old(self),
            *final(self) == (App { formatting: final(self).formatting, ..*old(self) }),
    {
        self.formatting.format_then_save(self.current, false, formats)
    }

    /// Format files in these languages before saving them.
    pub fn set_format_on_save(&mut self, languages: Vec<String>)
        ensures
            final(self).formatting == (Formatting {
                on_save: languages,
                ..old(self).formatting
            }),
            *final(self) == (App { formatting: final(self).formatting, ..*old(self) }),
    {
        self.formatting.set_format_on_save(languages);
    }

    /// Stop waiting for every server asked to format: what was waiting, whose
    /// questions are to be taken back and whose saves made now, because a save
    /// that was asked for must not be lost by quitting.
    pub fn save_before_quitting(&mut self) -> (waiting: Vec<Pending>)
        ensures
            waiting@ == old(self).formatting.pending@,
            final(self).formatting.pending@.len() == 0,
            final(self).formatting.on_save == old(self).formatting.on_save,
            final(self).formatting.timeout == old(self).formatting.timeout,
            *final(self) == (App { formatting: final(self).formatting, ..*old(self) }),
            old(self).wf() ==> final(self).wf(),
    {
        self.formatting.save_before_quitting()
    }

    /// How long the pointer rests on a symbol before its card is asked for, and
    /// whether links in cards are marked with OSC 8 too.
    pub fn set_hover(&mut self, delay: u64, hyperlinks: bool)
        ensures
            final(self).hovering == (Hovering { delay, hyperlinks, ..old(self).hovering }),
            *final(self) == (App { hovering: final(self).hovering, ..*old(self) }),
    {
        self.hovering.set_hover(delay, hyperlinks);
    }

    /// Mark the caret's line when it has code actions, or not. The question to
    /// take back.
    pub fn set_lightbulb(&mut self, on: bool) -> (cancel: Option<u64>)
        ensures
            on ==> cancel is None && final(self).code_actions == (CodeActions {
                lightbulb_off: false,
                ..old(self).code_actions
            }),
            !on ==> cancel == old(self).code_actions.bulb_question() && final(self).code_actions
                == (CodeActions { lightbulb_off: true, bulb: None, ..old(self).code_actions }),
            *final(self) == (App { code_actions: final(self).code_actions, ..*old(self) }),
    {
        self.code_actions.set_lightbulb(on)
    }

    // ── the status line ─────────────────────────────────────────────────────

    /// The status line's text, left and right halves: `chord` is the chord so
    /// far, `ellipsis` and `dot` the glyphs for what is unfinished and what has
    /// changed, `language` the document's, and `standing` how it stands.
    #[must_use]
    pub fn status(
        &self,
        chord: &Option<String>,
        ellipsis: &str,
        dot: &str,
        language: &Option<String>,
        standing: Standing,
    ) -> (halves: (String, String))
        requires
            self.wf(),
            standing.line < usize::MAX,
            standing.column < usize::MAX,
        ensures
            halves.0@ == left_half(
                words(*chord),
                ellipsis@,
                self.messages@.shown(),
                name_of(self.doc().path),
                if self.doc().modified {
                    Some(dot@)
                } else {
                    None
                },
            ),
            halves.1@ == right_half(words(*language), standing),
    {
        let mut path = "[no name]".to_owned();
        let mut modified: Option<String> = None;
        if let Some(at) = self.find(self.current) {
            if let Some(name) = &self.docs[at].path {
                path = name.clone();
            }
            if self.docs[at].modified {
                modified = Some(dot.to_owned());
            }
        }
        let left = status_left(chord, ellipsis, &self.message(), path.as_str(), &modified);
        (left, status_right(language, standing))
    }
}

/// Documents with the same ids are in the same places.
proof fn same_ids(before: Seq<Document>, now: Seq<Document>, id: usize, from: int)
    requires
        before.len() == now.len(),
        forall|i: int| 0 <= i < before.len() ==> (#[trigger] before[i]).id == now[i].id,
        0 <= from,
    ensures
        index_of(before, id, from) == index_of(now, id, from),
    decreases before.len() - from,
{
    if from < before.len() {
        same_ids(before, now, id, from + 1);
    }
}

proof fn found_is_it(docs: Seq<Document>, id: usize, from: int)
    requires
        0 <= from,
    ensures
        index_of(docs, id, from) matches Some(at) ==> from <= at < docs.len() && docs[at].id == id,
    decreases docs.len() - from,
{
    if from < docs.len() {
        found_is_it(docs, id, from + 1);
    }
}

/// The caret is on screen once the view has followed it, lines counted one to a
/// row, and a caret on screen already moves nothing.
pub proof fn the_caret_stays_on_screen(line: usize, scroll: usize, height: usize)
    requires
        height > 0,
    ensures
        ({
            let view = CaretView {
                height,
                line,
                top: scroll,
                rows: (line - scroll) as usize,
                last: (line - height + 1) as usize,
            };
            let to = view.followed(scroll);
            &&& to <= line < to + height
            &&& scroll <= line < scroll + height ==> to == scroll
        }),
{
}

/// A place gone to is on screen, and, where there is room, with [`ABOVE`] lines
/// over it or every line there is before it, lines counted one to a row. A view
/// that shows it so already does not move.
pub proof fn a_place_gone_to_is_seen_in_context(line: usize, scroll: usize, height: usize)
    requires
        height > ABOVE,
    ensures
        ({
            let above = if line >= ABOVE {
                (line - ABOVE) as usize
            } else {
                0
            };
            let last = (line - height + 1) as usize;
            let landing = Landing {
                line,
                rows: (line - scroll) as usize,
                height,
                above,
                kept: CaretView { height, line, top: scroll, rows: (line - scroll) as usize, last },
                moved: CaretView { height, line, top: above, rows: (line - above) as usize, last },
            };
            let to = landing.landed(scroll);
            &&& to <= line < to + height
            &&& line - to >= ABOVE || to == 0
            &&& scroll + ABOVE <= line < scroll + height ==> to == scroll
        }),
{
}

/// The editor is woken no later than any part of it asks to be.
pub proof fn nothing_is_woken_late(times: Seq<Option<u64>>, count: int)
    requires
        0 <= count <= times.len(),
    ensures
        forall|i: int|
            0 <= i < count ==> ((#[trigger] times[i]) matches Some(time) ==> (soonest(
                times,
                count,
            ) matches Some(first) && first <= time)),
        (forall|i: int| 0 <= i < count ==> (#[trigger] times[i]) is None) ==> soonest(
            times,
            count,
        ) is None,
    decreases count,
{
    if count > 0 {
        nothing_is_woken_late(times, count - 1);
    }
}

/// A file with changes that are not on disk is never passed over when it is
/// asked whether anything would be lost.
pub proof fn every_unsaved_file_counts(docs: Seq<Document>, k: int)
    requires
        0 <= k < docs.len(),
        docs[k].modified,
    ensures
        unsaved_in(docs, docs.len() as int) > 0,
{
    counted(docs, k, docs.len() as int);
}

proof fn counted(docs: Seq<Document>, k: int, count: int)
    requires
        0 <= k < count <= docs.len(),
        docs[k].modified,
    ensures
        unsaved_in(docs, count) > 0,
    decreases count,
{
    if k < count - 1 {
        counted(docs, k, count - 1);
    }
}

/// A document is found by its number, the first that has it.
pub proof fn a_document_is_found_by_its_number(docs: Seq<Document>, id: usize, from: int)
    requires
        0 <= from <= docs.len(),
    ensures
        match index_of(docs, id, from) {
            Some(at) => {
                &&& from <= at < docs.len()
                &&& docs[at].id == id
                &&& forall|i: int| from <= i < at ==> (#[trigger] docs[i]).id != id
            },
            None => forall|i: int| from <= i < docs.len() ==> (#[trigger] docs[i]).id != id,
        },
    decreases docs.len() - from,
{
    if from < docs.len() && docs[from].id != id {
        a_document_is_found_by_its_number(docs, id, from + 1);
    }
}

/// The status line is the last row of the screen, as wide as it is.
pub proof fn the_status_line_is_the_last_row(viewport: Rect)
    requires
        viewport.on_screen(),
        viewport.height > 0,
    ensures
        ({
            let status = status_area(viewport);
            &&& status.height == 1
            &&& status.y + 1 == viewport.y + viewport.height
            &&& status.x == viewport.x && status.width == viewport.width
        }),
{
}

/// The gutter and the text share the text's room between them, the gutter first.
pub proof fn the_gutter_is_beside_the_text(viewport: Rect, text: Rect, gutter: u16)
    requires
        text.on_screen(),
    ensures
        ({
            let hits = ground(viewport, text, gutter);
            &&& hits.len() == 3
            &&& hits[0].target is Gutter && hits[1].target is Text && hits[2].target is Status
            &&& hits[0].area.x == text.x
            &&& hits[0].area.x + hits[0].area.width == hits[1].area.x
            &&& hits[1].area.x + hits[1].area.width == text.x + text.width
            &&& gutter <= text.width ==> hits[0].area.width == gutter
            &&& hits[0].area.y == text.y && hits[1].area.y == text.y
            &&& hits[0].area.height == text.height && hits[1].area.height == text.height
            &&& hits[2].area == status_area(viewport)
        }),
{
}

/// Every answer that has room can be pressed, as itself.
pub proof fn every_answer_with_room_can_be_pressed(buttons: Seq<Rect>, count: int, at: int)
    requires
        0 <= at < count <= buttons.len() <= usize::MAX,
        buttons[at].width > 0,
    ensures
        prompt_hits(buttons, count).contains(
            Hit { area: buttons[at], target: Target::PromptButton(at as usize), hover: true },
        ),
    decreases count,
{
    let hit = Hit { area: buttons[at], target: Target::PromptButton(at as usize), hover: true };
    let before = prompt_hits(buttons, count - 1);
    let hits = prompt_hits(buttons, count);
    if at == count - 1 {
        assert(hits[before.len() as int] == hit);
    } else {
        every_answer_with_room_can_be_pressed(buttons, count - 1, at);
        let k = choose|k: int| 0 <= k < before.len() && before[k] == hit;
        assert(hits[k] == hit);
    }
}

/// Each item of a menu is pressed on its own row, from the menu's first down.
pub proof fn each_item_is_on_its_own_row(menu: Menu, at: int)
    requires
        menu.wf(),
        0 <= at < menu.commands@.len(),
    ensures
        item_hits(menu).len() == menu.commands@.len(),
        ({
            let hit = item_hits(menu)[at];
            &&& hit.area.y == menu.area.y + at
            &&& hit.area.height == 1
            &&& hit.area.x == menu.area.x && hit.area.width == menu.area.width
            &&& hit.target == Target::MenuItem(at as usize)
            &&& hit.hover
        }),
{
}

/// What would be lost is said, one file as such and several by how many, with the keys
/// that save and that discard.
pub proof fn what_would_be_lost_is_said(unsaved: nat, save: Seq<char>, quit: Seq<char>)
    ensures
        warning(1, save, quit) == "Unsaved changes"@ + ". "@ + save + " to save, or "@ + quit
            + " again to discard."@,
        unsaved != 1 ==> warning(unsaved, save, quit) == decimal_of(unsaved)
            + " files have unsaved changes"@ + ". "@ + save + " to save, or "@ + quit
            + " again to discard."@,
{
}

/// A save says it was made only where it was, and of what; where it was not, it says
/// why.
pub proof fn a_save_says_what_came_of_it(path: Option<String>, at: String, why: String)
    ensures
        path matches Some(name) ==> report(path, Written::Saved) == Ok::<Seq<char>, Seq<char>>(
            "Saved "@ + name@,
        ),
        path is None ==> report(path, Written::Saved) == Ok::<Seq<char>, Seq<char>>(
            "Saved "@ + "[no name]"@,
        ),
        report(path, Written::NoPath) is Err,
        report(path, Written::Changed(at)) == Err::<Seq<char>, Seq<char>>(
            at@ + " changed on disk. Reopen it to see what changed."@,
        ),
        report(path, Written::Failed(why)) == Err::<Seq<char>, Seq<char>>(
            "Could not save: "@ + why@,
        ),
{
}

/// A file that was not valid text, or is not open, is never written.
pub proof fn what_would_be_damaged_is_not_written(app: App, id: usize)
    ensures
        app.unwritable(id) is None <==> exists|i: int|
            {
                &&& 0 <= i < app.docs@.len()
                &&& (#[trigger] app.docs@[i]).id == id
                &&& !app.docs@[i].lossy
                &&& forall|j: int| 0 <= j < i ==> (#[trigger] app.docs@[j]).id != id
            },
{
    a_document_is_found_by_its_number(app.docs@, id, 0);
    if let Some(at) = index_of(app.docs@, id, 0) {
        assert(app.docs@[at].id == id);
    }
}

/// The pointer's every move is wanted where something on screen looks different under
/// it.
pub proof fn moves_are_wanted_where_something_lights(hits: Seq<Hit>)
    ensures
        reacts(hits) <==> !(forall|i: int| 0 <= i < hits.len() ==> !(#[trigger] hits[i]).hover),
{
    if reacts(hits) {
        let i = choose|i: int| 0 <= i < hits.len() && (#[trigger] hits[i]).hover;
        assert(hits[i].hover);
    }
}

/// The editor is woken as soon as anything of it is due.
pub proof fn the_editor_wakes_for_whatever_is_first(app: App, due: u64)
    requires
        app.due() == Some(due),
    ensures
        app.navigation.link_due() matches Some(at) ==> due <= at,
        app.hovering.due() matches Some(at) ==> due <= at,
        app.code_actions.bulb_due() matches Some(at) ==> due <= at,
        app.diffing.due() matches Some(at) ==> due <= at,
        earliest(app.formatting.pending@, app.formatting.pending@.len() as int) matches Some(at)
            ==> due <= at,
        ({
            ||| app.navigation.link_due() == Some(due)
            ||| app.hovering.due() == Some(due)
            ||| app.code_actions.bulb_due() == Some(due)
            ||| app.diffing.due() == Some(due)
            ||| earliest(app.formatting.pending@, app.formatting.pending@.len() as int) == Some(due)
        }),
{
}

/// With nothing unsaved, or having been asked and told what would be lost, quitting
/// quits; otherwise it says what would be, and the next time is an answer.
pub proof fn quitting_asks_only_where_something_would_be_lost(unsaved: nat, confirmed: bool)
    ensures
        quitting(0, confirmed).0 is Quit,
        quitting(unsaved, true).0 is Quit,
        unsaved > 0 ==> quitting(unsaved, false).0 is Redraw && quitting(unsaved, false).1,
        quitting(0, false).1 == false,
{
}

/// Only an answer with room can be pressed.
pub proof fn only_an_answer_with_room_can_be_pressed(buttons: Seq<Rect>, count: int)
    requires
        0 <= count <= buttons.len() <= usize::MAX,
    ensures
        forall|k: int|
            0 <= k < prompt_hits(buttons, count).len() ==> (#[trigger] prompt_hits(
                buttons,
                count,
            )[k]).area.width > 0,
    decreases count,
{
    if count > 0 {
        only_an_answer_with_room_can_be_pressed(buttons, count - 1);
        let before = prompt_hits(buttons, count - 1);
        let hits = prompt_hits(buttons, count);
        assert forall|k: int| 0 <= k < hits.len() implies (#[trigger] hits[k]).area.width > 0 by {
            if k < before.len() {
                assert(hits[k] == before[k]);
            }
        }
    }
}

} // verus!
