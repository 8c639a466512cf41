//! A card beside something on screen: what a diagnostic says, what a symbol
//! is, what a change did.
//!
//! There is one card at a time. It is about an [`Anchor`], some characters of
//! a document or a fixed place such as a rail row, and it is placed afresh at
//! every layout.
//!
//! How it goes away depends on how it came. One the pointer opened by resting
//! on something stays while the pointer is over that thing or over the card,
//! and goes when it leaves both. One the keyboard opened stays until the next
//! key or a click somewhere else. Either goes with Escape.
//!
//! Alt+Page Up and Alt+Page Down scroll a card, a page at a time, and keep it
//! open; the wheel does the same over it.

use vstd::prelude::*;

use crate::body::Paragraph;
use crate::commands::{button_views, Command};
use crate::geometry::Rect;
use crate::gutter::Aim;
use crate::hits::Hit;
use crate::input::{KeyCode, KeyEvent};
use crate::outcome::Outcome;
use crate::target::Target;
use crate::unicode::views;

verus! {

/// Rows the wheel scrolls a card by.
pub const WHEEL_ROWS: usize = 3;

/// What a card that does not fit says about its scroll keys.
pub open spec fn hint_words() -> Seq<char> {
    "Alt+PgUp/PgDn scrolls"@
}

/// What a card that does not fit says about its scroll keys.
pub fn scroll_hint() -> (hint: &'static str)
    ensures
        hint@ == hint_words(),
{
    "Alt+PgUp/PgDn scrolls"
}

/// What a card is about.
#[derive(Debug, Clone, Copy, PartialEq, Eq, Structural)]
pub enum Anchor {
    /// Characters `from..to` of `doc`, as drawn in `pane`.
    Text {
        /// The pane it is drawn in.
        pane: usize,
        /// Which document.
        doc: usize,
        /// Its first character.
        from: usize,
        /// The character after its last.
        to: usize,
    },
    /// A place on screen.
    Screen(Rect),
}

/// A card on screen.
#[derive(Debug)]
pub struct Card {
    /// What it is about.
    pub anchor: Anchor,
    /// What it says.
    pub body: Vec<Paragraph>,
    /// What each button of its own says, and the command it runs.
    pub buttons: Vec<(String, Command)>,
    /// How many buttons, at the front, are fixes a server offered rather than
    /// commands.
    pub fixes: usize,
    /// The labels alone: the fixes, then the commands.
    pub labels: Vec<String>,
    /// How far the body is scrolled.
    pub scroll: usize,
    /// The hover target that opened it, which it stays open over. `None` for a
    /// card the keyboard opened.
    pub opener: Option<Target>,
    /// Whether the pointer opened it by resting on its anchor, which it stays
    /// open over.
    pub held: bool,
    /// Where the body's links go.
    pub links: Vec<String>,
    /// Whether to mark the links with OSC 8 as well.
    pub hyperlinks: bool,
    /// The change it is about, which its buttons act on.
    pub hunk: Option<Aim>,
}

/// The labels of `buttons`.
pub open spec fn labels_of(buttons: Seq<(String, Command)>) -> Seq<Seq<char>> {
    Seq::new(buttons.len(), |i: int| buttons[i].0@)
}

impl Card {
    /// Whether its labels are its fixes' and then its buttons'.
    pub open spec fn wf(self) -> bool {
        &&& self.labels@.len() == self.fixes + self.buttons@.len()
        &&& views(self.labels@).skip(self.fixes as int) == labels_of(self.buttons@)
    }

    /// A card about `anchor`, saying `body`, with `buttons` along its bottom.
    /// `opener` is the hover target the pointer opened it from, or `None` when
    /// a key did.
    pub fn new(
        anchor: Anchor,
        body: Vec<Paragraph>,
        buttons: Vec<(String, Command)>,
        opener: Option<Target>,
    ) -> (card: Self)
        ensures
            card.wf(),
            card.anchor == anchor,
            card.body == body,
            card.buttons == buttons,
            card.opener == opener,
            card.fixes == 0,
            card.scroll == 0,
            !card.held,
            card.links@.len() == 0,
            !card.hyperlinks,
            card.hunk is None,
    {
        let mut labels: Vec<String> = Vec::new();
        push_labels(&mut labels, &buttons);
        assert(views(labels@).skip(0) =~= labels_of(buttons@));
        Card {
            anchor,
            body,
            buttons,
            fixes: 0,
            labels,
            scroll: 0,
            opener,
            held: false,
            links: Vec::new(),
            hyperlinks: false,
            hunk: None,
        }
    }

    /// A card about a change: its buttons act on that change, wherever the
    /// caret is.
    pub fn about_hunk(self, hunk: Aim) -> (card: Self)
        requires
            self.wf(),
        ensures
            card.wf(),
            card == (Card { hunk: Some(hunk), ..self }),
    {
        Card { hunk: Some(hunk), ..self }
    }

    /// A card the pointer opened by resting on the text of its anchor: it
    /// stays while the pointer is over that text or over the card.
    pub fn held_over_anchor(self) -> (card: Self)
        requires
            self.wf(),
        ensures
            card.wf(),
            card == (Card { held: true, ..self }),
    {
        Card { held: true, ..self }
    }

    /// Where the body's links go, and whether to tell the terminal too.
    pub fn with_links(self, links: Vec<String>, hyperlinks: bool) -> (card: Self)
        requires
            self.wf(),
        ensures
            card.wf(),
            card == (Card { links, hyperlinks, ..self }),
    {
        Card { links, hyperlinks, ..self }
    }

    /// Where link `index` goes.
    pub open spec fn spec_link(self, index: int) -> Option<Seq<char>> {
        if 0 <= index < self.links@.len() {
            Some(self.links@[index]@)
        } else {
            None
        }
    }

    /// Where link `index` goes.
    pub fn link(&self, index: usize) -> (link: Option<String>)
        ensures
            crate::reply::words(link) == self.spec_link(index as int),
    {
        if index < self.links.len() {
            Some(self.links[index].clone())
        } else {
            None
        }
    }

    /// Put buttons for fixes in front of the card's own, in place of any
    /// offered before. There is room for as many labels as a list can hold.
    pub fn offer_fixes(&mut self, labels: Vec<String>)
        requires
            old(self).wf(),
        ensures
            final(self).wf(),
            final(self).fixes == labels@.len(),
            views(final(self).labels@) == views(labels@) + labels_of(old(self).buttons@),
            *final(self) == (Card {
                fixes: final(self).fixes,
                labels: final(self).labels,
                ..*old(self)
            }),
    {
        self.fixes = labels.len();
        let mut labels = labels;
        let ghost before = labels@;
        push_labels(&mut labels, &self.buttons);
        assert(views(labels@).skip(before.len() as int) =~= labels_of(self.buttons@));
        self.labels = labels;
    }

    /// Where scrolling by `rows` goes, with `most` the furthest there is.
    pub open spec fn scrolled(scroll: int, down: bool, rows: int, most: int) -> int {
        if down {
            if scroll + rows <= most {
                scroll + rows
            } else {
                most
            }
        } else if scroll >= rows {
            scroll - rows
        } else {
            0
        }
    }

    /// Scroll up or down by `rows`, with `most` the furthest there is.
    pub fn scroll_by(&mut self, down: bool, rows: usize, most: usize) -> (outcome: Outcome)
        requires
            old(self).wf(),
        ensures
            final(self).wf(),
            *final(self) == (Card { scroll: final(self).scroll, ..*old(self) }),
            final(self).scroll == Self::scrolled(
                old(self).scroll as int,
                down,
                rows as int,
                most as int,
            ),
            outcome == Outcome::spec_redraw_if(final(self).scroll != old(self).scroll),
    {
        let to: usize = if down {
            if self.scroll <= most && rows <= most - self.scroll {
                self.scroll + rows
            } else {
                most
            }
        } else {
            self.scroll.saturating_sub(rows)
        };
        let changed = to != self.scroll;
        self.scroll = to;
        Outcome::redraw_if(changed)
    }

    /// What a press on `target` does.
    pub open spec fn pressed(self, target: Target) -> PressModel {
        match target {
            Target::Card => PressModel::Inside,
            Target::CardButton(index) => if index < self.fixes {
                PressModel::Fix(index)
            } else if index - self.fixes < self.buttons@.len() {
                PressModel::Run(Some(self.buttons@[index - self.fixes].1), self.hunk)
            } else {
                PressModel::Run(None, self.hunk)
            },
            Target::CardLink(index) => PressModel::Follow(self.spec_link(index as int)),
            _ => PressModel::Elsewhere,
        }
    }

    /// What a press on `target` does with this card open.
    pub fn card_click(&self, target: Target) -> (press: Press)
        ensures
            press@ == self.pressed(target),
    {
        match target {
            Target::Card => Press::Inside,
            Target::CardButton(index) => {
                if index < self.fixes {
                    return Press::Fix(index);
                }
                let own: usize = index - self.fixes;
                if own < self.buttons.len() {
                    Press::Run(Some(self.buttons[own].1), self.hunk)
                } else {
                    Press::Run(None, self.hunk)
                }
            },
            Target::CardLink(index) => Press::Follow(self.link(index)),
            _ => Press::Elsewhere,
        }
    }

    /// Whether the card goes once the pointer is over `over`, where
    /// `on_anchor` says whether it is on the card's anchor.
    pub open spec fn left(self, over: Option<Target>, on_anchor: bool) -> bool {
        &&& self.opener is Some || self.held
        &&& !(over matches Some(target) && (target.is_card() || Some(target) == self.opener))
        &&& !(self.held && on_anchor)
    }

    /// Whether the card goes once the pointer is over `over`: one the pointer
    /// opened goes once it is over neither the card nor what opened it.
    /// `on_anchor` is whether the pointer is on the card's anchor.
    pub fn card_follow_pointer(&self, over: Option<Target>, on_anchor: bool) -> (goes: bool)
        ensures
            goes == self.left(over, on_anchor),
    {
        if self.opener.is_none() && !self.held {
            return false;
        }
        if let Some(target) = over {
            if target.in_card() {
                return false;
            }
            if let Some(opener) = self.opener {
                if target == opener {
                    return false;
                }
            }
        }
        !(self.held && on_anchor)
    }
}

/// Put the labels of `buttons` after `labels`.
fn push_labels(labels: &mut Vec<String>, buttons: &Vec<(String, Command)>)
    ensures
        views(final(labels)@) == views(old(labels)@) + labels_of(buttons@),
        final(labels)@.len() == old(labels)@.len() + buttons@.len(),
{
    let ghost before = labels@;
    let mut i: usize = 0;
    while i < buttons.len()
        invariant
            i <= buttons@.len(),
            labels@.len() == before.len() + i,
            views(labels@) =~= views(before) + labels_of(buttons@).take(i as int),
        decreases buttons@.len() - i,
    {
        let ghost prior = labels@;
        labels.push(buttons[i].0.clone());
        assert(views(labels@) =~= views(prior).push(buttons@[i as int].0@));
        assert(labels_of(buttons@).take(i + 1) =~= labels_of(buttons@).take(i as int).push(
            buttons@[i as int].0@,
        ));
        i = i + 1;
    }
    assert(labels_of(buttons@).take(buttons@.len() as int) =~= labels_of(buttons@));
}

/// What a press does with a card open.
#[derive(Debug)]
pub enum Press {
    /// On the card itself: nothing.
    Inside,
    /// A fix, by its place: the card goes, and the fix is made.
    Fix(usize),
    /// A command, acting on the change the card is about if it is about one:
    /// the card goes, and the command runs.
    Run(Option<Command>, Option<Aim>),
    /// A link: the card goes, and the link is followed.
    Follow(Option<String>),
    /// Somewhere else: the card goes, and the press goes on to what is under
    /// it.
    Elsewhere,
}

/// What a press does, as a value.
pub enum PressModel {
    /// Nothing.
    Inside,
    /// A fix.
    Fix(usize),
    /// A command.
    Run(Option<Command>, Option<Aim>),
    /// A link.
    Follow(Option<Seq<char>>),
    /// What is under it.
    Elsewhere,
}

impl View for Press {
    type V = PressModel;

    open spec fn view(&self) -> PressModel {
        match *self {
            Press::Inside => PressModel::Inside,
            Press::Fix(index) => PressModel::Fix(index),
            Press::Run(command, hunk) => PressModel::Run(command, hunk),
            Press::Follow(link) => PressModel::Follow(crate::reply::words(link)),
            Press::Elsewhere => PressModel::Elsewhere,
        }
    }
}

/// What a key does with a card open.
#[derive(Debug, Clone, Copy, PartialEq, Eq, Structural)]
pub enum CardKey {
    /// Nothing to the card.
    Pass,
    /// Scroll it by this many rows, down or up, and stay open.
    Scroll {
        /// Whether down.
        down: bool,
        /// How many rows.
        rows: usize,
    },
    /// It goes; `spent` is whether the key was spent doing so.
    Close {
        /// Whether the key does nothing else.
        spent: bool,
    },
}

/// Whether `event` pages a card: up or down, with Alt and nothing else.
pub open spec fn pages(event: KeyEvent) -> Option<bool> {
    let alone = event.modifiers.alt && !event.modifiers.shift && !event.modifiers.control
        && !event.modifiers.cmd && !event.modifiers.other;
    match event.code {
        KeyCode::PageUp if alone => Some(false),
        KeyCode::PageDown if alone => Some(true),
        _ => None,
    }
}

/// What a key does with a card open, `height` rows of it in view if it is on
/// screen.
pub open spec fn keyed(event: KeyEvent, height: Option<usize>) -> CardKey {
    if event.code is Modifier {
        CardKey::Pass
    } else {
        match (pages(event), height) {
            (Some(down), Some(height)) => CardKey::Scroll {
                down,
                rows: if height > 2 {
                    (height - 1) as usize
                } else {
                    1
                },
            },
            _ => CardKey::Close { spent: event.code is Esc },
        }
    }
}

/// What a key does with a card open, `height` rows of it in view if it is on
/// screen. Alt+Page Up and Down scroll it a page, keeping a row from the last
/// in view, and leave it open. Escape puts it away and is spent doing so; any
/// other key puts it away and then does what it does.
pub fn card_key(event: &KeyEvent, height: Option<usize>) -> (task: CardKey)
    ensures
        task == keyed(*event, height),
{
    if matches!(event.code, KeyCode::Modifier) {
        return CardKey::Pass;
    }
    let held = event.modifiers;
    let alone = held.alt && !held.shift && !held.control && !held.cmd && !held.other;
    let page: Option<bool> = match event.code {
        KeyCode::PageUp => if alone {
            Some(false)
        } else {
            None
        },
        KeyCode::PageDown => if alone {
            Some(true)
        } else {
            None
        },
        _ => None,
    };
    if let (Some(down), Some(height)) = (page, height) {
        let rows: usize = if height > 2 {
            height - 1
        } else {
            1
        };
        return CardKey::Scroll { down, rows };
    }
    CardKey::Close { spent: matches!(event.code, KeyCode::Esc) }
}

/// Anywhere a card may go: above the status line, over panes and sidebar
/// alike.
pub fn card_bounds(viewport: Rect) -> (bounds: Rect)
    ensures
        bounds == (Rect {
            height: if viewport.height > 0 {
                (viewport.height - 1) as u16
            } else {
                0
            },
            ..viewport
        }),
{
    Rect { height: viewport.height.saturating_sub(1), ..viewport }
}

/// The first `count` buttons of a card that have a width, as parts of the
/// screen.
pub open spec fn button_hits(buttons: Seq<Rect>, count: int) -> Seq<Hit>
    decreases count,
{
    if count <= 0 {
        Seq::empty()
    } else if buttons[count - 1].width > 0 {
        button_hits(buttons, count - 1).push(
            Hit {
                area: buttons[count - 1],
                target: Target::CardButton((count - 1) as usize),
                hover: true,
            },
        )
    } else {
        button_hits(buttons, count - 1)
    }
}

/// A card's links, as parts of the screen.
pub open spec fn link_hits(links: Seq<(usize, Rect)>) -> Seq<Hit> {
    Seq::new(
        links.len(),
        |i: int| Hit { area: links[i].1, target: Target::CardLink(links[i].0), hover: true },
    )
}

/// What a card puts on screen: itself, then its buttons, then its links, all
/// of them hover targets, so that moving from the anchor into the card, and
/// about inside it, keeps it open.
pub fn layout_card(area: Rect, buttons: &Vec<Rect>, links: &Vec<(usize, Rect)>) -> (hits: Vec<Hit>)
    ensures
        hits@ == seq![Hit { area, target: Target::Card, hover: true }] + button_hits(
            buttons@,
            buttons@.len() as int,
        ) + link_hits(links@),
{
    let mut hits: Vec<Hit> = Vec::new();
    hits.push(Hit { area, target: Target::Card, hover: true });
    let ghost top = hits@;
    let mut i: usize = 0;
    while i < buttons.len()
        invariant
            i <= buttons@.len(),
            hits@ =~= top + button_hits(buttons@, i as int),
        decreases buttons@.len() - i,
    {
        if buttons[i].width > 0 {
            hits.push(Hit { area: buttons[i], target: Target::CardButton(i), hover: true });
        }
        i = i + 1;
    }
    let ghost with_buttons = hits@;
    let mut i: usize = 0;
    while i < links.len()
        invariant
            i <= links@.len(),
            hits@ =~= with_buttons + link_hits(links@).take(i as int),
        decreases links@.len() - i,
    {
        hits.push(
            Hit { area: links[i].1, target: Target::CardLink(links[i].0), hover: true },
        );
        i = i + 1;
    }
    assert(link_hits(links@).take(links@.len() as int) =~= link_hits(links@));
    assert(top =~= seq![Hit { area, target: Target::Card, hover: true }]);
    hits
}

/// A card never goes while the pointer is on it, and one the keyboard opened
/// never goes for the pointer's sake.
pub proof fn a_card_stays_under_the_pointer(card: Card, over: Target, on_anchor: bool)
    ensures
        over.is_card() ==> !card.left(Some(over), on_anchor),
        card.opener is None && !card.held ==> !card.left(Some(over), on_anchor) && !card.left(
            None,
            on_anchor,
        ),
{
}

/// Every button of a card does something: a fix, or the command it was given.
pub proof fn every_button_does_what_it_says(card: Card, index: usize)
    requires
        card.wf(),
        index < card.labels@.len(),
    ensures
        index < card.fixes ==> card.pressed(Target::CardButton(index)) == PressModel::Fix(index),
        index >= card.fixes ==> {
            let own = index - card.fixes;
            &&& card.pressed(Target::CardButton(index)) == PressModel::Run(
                Some(button_views(card.buttons@)[own].1),
                card.hunk,
            )
            &&& card.labels@[index as int]@ == button_views(card.buttons@)[own].0
        },
{
    if index >= card.fixes {
        let own = index - card.fixes;
        assert(views(card.labels@).skip(card.fixes as int)[own] == card.labels@[index as int]@);
        assert(labels_of(card.buttons@)[own] == card.buttons@[own].0@);
    }
}

/// A card scrolls as far as it is told and no further than its ends.
pub proof fn a_card_scrolls_within_its_ends(scroll: int, rows: int, most: int)
    requires
        0 <= scroll <= most,
        0 <= rows,
    ensures
        0 <= Card::scrolled(scroll, false, rows, most) <= scroll <= Card::scrolled(
            scroll,
            true,
            rows,
            most,
        ) <= most,
        scroll + rows <= most ==> Card::scrolled(scroll, true, rows, most) == scroll + rows,
        scroll + rows > most ==> Card::scrolled(scroll, true, rows, most) == most,
        scroll >= rows ==> Card::scrolled(scroll, false, rows, most) == scroll - rows,
        scroll < rows ==> Card::scrolled(scroll, false, rows, most) == 0,
{
}

/// A card the pointer opened goes once the pointer is off the card, off what opened
/// it and, where it is held open, off what it is about; one it did not open stays.
pub proof fn a_card_goes_once_the_pointer_has_left(card: Card, over: Option<Target>, on_anchor: bool)
    ensures
        card.left(over, on_anchor) <==> {
            &&& card.opener is Some || card.held
            &&& over matches Some(target) ==> !target.is_card() && card.opener != Some(target)
            &&& card.held ==> !on_anchor
        },
{
}

/// Alt and the page keys scroll a card by what it shows less a row; a modifier on its
/// own passes it by; any other key puts it away, and Escape does only that.
pub proof fn few_keys_leave_a_card_open(event: KeyEvent, height: usize)
    requires
        height > 0,
    ensures
        ({
            let held = event.modifiers;
            let alt = held.alt && !held.shift && !held.control && !held.cmd && !held.other;
            match keyed(event, Some(height)) {
                CardKey::Pass => event.code is Modifier,
                CardKey::Scroll { down, rows } => {
                    &&& alt
                    &&& if down {
                        event.code is PageDown
                    } else {
                        event.code is PageUp
                    }
                    &&& height > 2 ==> rows == height - 1
                    &&& height <= 2 ==> rows == 1
                },
                CardKey::Close { spent } => {
                    &&& !(event.code is Modifier)
                    &&& alt ==> !(event.code is PageUp || event.code is PageDown)
                    &&& spent <==> event.code is Esc
                },
            }
        }),
        keyed(event, None) is Scroll ==> false,
{
}

/// Every button that is drawn can be pressed, where it is drawn and as itself.
pub proof fn every_button_drawn_can_be_pressed(buttons: Seq<Rect>, count: int, at: int)
    requires
        0 <= at < count <= buttons.len() <= usize::MAX,
        buttons[at].width > 0,
    ensures
        button_hits(buttons, count).contains(
            Hit { area: buttons[at], target: Target::CardButton(at as usize), hover: true },
        ),
    decreases count,
{
    let hit = Hit { area: buttons[at], target: Target::CardButton(at as usize), hover: true };
    let before = button_hits(buttons, count - 1);
    let hits = button_hits(buttons, count);
    if at == count - 1 {
        assert(hits[before.len() as int] == hit);
    } else {
        every_button_drawn_can_be_pressed(buttons, count - 1, at);
        let k = choose|k: int| 0 <= k < before.len() && before[k] == hit;
        assert(hits[k] == hit);
    }
}

/// Every link drawn is followed where it is drawn, as the link it is; a link there is
/// not is followed nowhere.
pub proof fn every_link_drawn_is_itself(card: Card, links: Seq<(usize, Rect)>, at: int)
    requires
        0 <= at < links.len(),
    ensures
        link_hits(links).len() == links.len(),
        link_hits(links)[at].area == links[at].1,
        link_hits(links)[at].target == Target::CardLink(links[at].0),
        card.pressed(Target::CardLink(links[at].0)) == PressModel::Follow(
            if links[at].0 < card.links@.len() {
                Some(card.links@[links[at].0 as int]@)
            } else {
                None
            },
        ),
        card.pressed(Target::Card) is Inside,
        card.pressed(Target::Text) is Elsewhere,
{
}

/// Only a button that is drawn can be pressed.
pub proof fn only_a_button_drawn_can_be_pressed(buttons: Seq<Rect>, count: int)
    requires
        0 <= count <= buttons.len() <= usize::MAX,
    ensures
        forall|k: int|
            0 <= k < button_hits(buttons, count).len() ==> (#[trigger] button_hits(
                buttons,
                count,
            )[k]).area.width > 0,
    decreases count,
{
    if count > 0 {
        only_a_button_drawn_can_be_pressed(buttons, count - 1);
        let before = button_hits(buttons, count - 1);
        let hits = button_hits(buttons, count);
        assert forall|k: int| 0 <= k < hits.len() implies (#[trigger] hits[k]).area.width > 0 by {
            if k < before.len() {
                assert(hits[k] == before[k]);
            }
        }
    }
}

} // verus!
