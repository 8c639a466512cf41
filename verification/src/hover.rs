//! What a symbol is, in a card beside it: resting the pointer on it, or asking
//! from the caret.
//!
//! Each movement of the pointer onto a new symbol starts a wait, moving on
//! before it is over abandons it, and moving on after the server has been
//! asked cancels the question. Only once the pointer has stayed on one symbol
//! is the server asked.
//!
//! Where the symbol is also under a diagnostic, one card says both: what is
//! wrong first, then what the symbol is.
//!
//! A web link in the card is handed to the system's opener, and a link to a
//! file opens it here.

use ropey::Rope;
use vstd::prelude::*;

use crate::body::{paragraphs, Paragraph};
use crate::card::{Anchor, Card};
use crate::diagnostics::Mark;
use crate::gutter::held_time;
use crate::input::{Event, KeyCode, KeyKind};
use crate::outcome::Outcome;
use crate::reply::{words, Reply};
use crate::rope::{char_at, len_chars, rope_text, slice};
use crate::target::Target;
use crate::text::{
    decimal_of, chars_of, find_from, first_at, is_digit, join, join3, number, number_in, push, string_of,
};
use crate::unicode::{is_whitespace, white_space};
use crate::words::{is_word, word_char};

verus! {

/// How long the pointer rests on a symbol before its server is asked what it
/// is, unless the configuration says otherwise, in milliseconds. Long enough
/// that moving the pointer across the text on the way somewhere does not
/// scatter cards over it.
pub const DELAY: u64 = 400;

/// Where the question about a symbol has got to.
#[derive(Debug, Clone, Copy, PartialEq, Eq, Structural)]
pub enum State {
    /// Waiting until this for the pointer to settle.
    Settling(u64),
    /// Asked, and the version of the document it was asked about.
    Asking(u64, Option<i32>),
    /// Answered, card or no card. Not asked again while the pointer stays.
    Answered,
}

/// One symbol, and where the question about it has got to.
#[derive(Debug, Clone, Copy, PartialEq, Eq, Structural)]
pub struct Spot {
    /// The pane it is in.
    pub pane: usize,
    /// The document.
    pub doc: usize,
    /// The char asked about.
    pub at: usize,
    /// The first char the pointer can move over and still be on the same
    /// symbol: the word, or what the server said the answer is about.
    pub from: usize,
    /// The char after the last of those.
    pub to: usize,
    /// Whether the pointer asked, rather than the keyboard.
    pub pointer: bool,
    /// How far the question has got.
    pub state: State,
}

/// The hover card: how it behaves, and what it is waiting on.
#[derive(Debug, Clone, Copy, PartialEq, Eq, Structural)]
pub struct Hovering {
    /// How long the pointer rests before the server is asked.
    pub delay: u64,
    /// Whether a card's links are marked with OSC 8 as well.
    pub hyperlinks: bool,
    /// The symbol being hovered, or asked about from the caret.
    pub spot: Option<Spot>,
}

impl Default for Hovering {
    fn default() -> (hovering: Self)
        ensures
            hovering == (Hovering { delay: DELAY, hyperlinks: true, spot: None }),
    {
        Hovering { delay: DELAY, hyperlinks: true, spot: None }
    }
}

/// The symbol at `at` in `text`, where `word` is the word there: a word, or a
/// single character of punctuation, which servers describe too. `None` on
/// white space, where there is nothing to describe.
pub open spec fn symbol_at(text: Seq<char>, at: int, word: (usize, usize)) -> Option<(usize, usize)> {
    if at < 0 || at >= text.len() || white_space(text[at]) {
        None
    } else if word_char(text[at]) {
        if word.0 < word.1 {
            Some(word)
        } else {
            None
        }
    } else {
        Some((at as usize, (at + 1) as usize))
    }
}

/// The symbol at `at`, where `word` is the word there: a word, or a single
/// character of punctuation, which servers describe too (`?`, `.`). `None` on
/// white space, where there is nothing to describe.
pub fn hover_word(rope: &Rope, at: usize, word: (usize, usize)) -> (symbol: Option<(usize, usize)>)
    ensures
        symbol == symbol_at(rope_text(*rope), at as int, word),
{
    if at >= len_chars(rope) {
        return None;
    }
    let ch = char_at(rope, at);
    if is_whitespace(ch) {
        return None;
    }
    if is_word(ch) {
        if word.0 < word.1 {
            return Some(word);
        }
        return None;
    }
    Some((at, at + 1))
}

/// What is so when the pointer moves.
#[derive(Debug, Clone, Copy)]
pub struct Pointed {
    /// What the pointer is over.
    pub target: Option<Target>,
    /// Whether the palette or a menu is open.
    pub overlay: bool,
    /// The focused pane.
    pub pane: usize,
    /// The focused document.
    pub doc: usize,
    /// The char under the pointer, if there is one.
    pub at: Option<usize>,
    /// The symbol there, if there is one.
    pub symbol: Option<(usize, usize)>,
    /// Whether the document's server says what symbols are.
    pub offers: bool,
    /// Whether there is a card the pointer opened on its text.
    pub card_held: bool,
}

impl Pointed {
    /// The char the pointer is on in the text.
    pub open spec fn over(self) -> Option<usize> {
        if self.target is Some && self.target->0.beneath() == Target::Text && !self.overlay {
            self.at
        } else {
            None
        }
    }

    fn is_over(&self) -> (at: Option<usize>)
        ensures
            at == self.over(),
    {
        match self.target {
            Some(target) => if target.pressed() == Target::Text && !self.overlay {
                self.at
            } else {
                None
            },
            None => None,
        }
    }
}

/// What following the pointer comes to.
#[derive(Debug)]
pub struct Followed {
    /// The question to take back.
    pub cancel: Option<u64>,
    /// Whether the card goes.
    pub close_card: bool,
    /// An underline whose own card is to come back at once.
    pub dwell: Option<Target>,
}

/// What is to be done about a symbol the pointer rests on.
#[derive(Debug, Clone, Copy, PartialEq, Eq, Structural)]
pub enum HoverTask {
    /// Nothing.
    Wait,
    /// Ask what this char of this document is.
    Ask(usize, usize),
}

/// What an answer comes to.
#[derive(Debug)]
pub enum HoverAnswer {
    /// It is shown.
    Show,
    /// Nothing is shown, and this is said.
    Say(String),
    /// Nothing.
    Nothing,
}

/// The symbol a card is to be about, and how it was asked about.
#[derive(Debug, Clone, Copy, PartialEq, Eq, Structural)]
pub struct Described {
    /// The pane it is in.
    pub pane: usize,
    /// The document.
    pub doc: usize,
    /// Its first char.
    pub from: usize,
    /// The char after its last.
    pub to: usize,
    /// Whether the pointer asked, rather than the keyboard.
    pub pointer: bool,
}

/// What showing an answer comes to.
#[derive(Debug)]
pub enum Shown {
    /// A card, about a problem or not, and what would fix that is to be asked.
    Card(Card, bool),
    /// No card, and this is said.
    Say(String),
    /// Nothing.
    Nothing,
}

impl Hovering {
    /// The question being waited on.
    pub open spec fn question(self) -> Option<u64> {
        match self.spot {
            Some(spot) => match spot.state {
                State::Asking(id, _) => Some(id),
                _ => None,
            },
            None => None,
        }
    }

    /// Whether `id` is the question being waited on.
    pub fn asked(&self, id: u64) -> (asked: bool)
        ensures
            asked == (self.question() == Some(id)),
    {
        match self.spot {
            Some(spot) => match spot.state {
                State::Asking(asked, _) => asked == id,
                _ => false,
            },
            None => false,
        }
    }

    /// How long the pointer rests on a symbol before its card is asked for, and
    /// whether links in cards are marked with OSC 8 too.
    pub fn set_hover(&mut self, delay: u64, hyperlinks: bool)
        ensures
            *final(self) == (Hovering { delay, hyperlinks, ..*old(self) }),
    {
        self.delay = delay;
        self.hyperlinks = hyperlinks;
    }

    /// Stop waiting on the symbol. The question to take back if it has been
    /// asked. Any card stays: it goes by its own rules.
    pub fn leave_hover(&mut self) -> (cancel: Option<u64>)
        ensures
            cancel == old(self).question(),
            *final(self) == (Hovering { spot: None, ..*old(self) }),
    {
        let spot = self.spot.take();
        match spot {
            Some(spot) => match spot.state {
                State::Asking(id, _) => Some(id),
                _ => None,
            },
            None => None,
        }
    }

    // ── the pointer ─────────────────────────────────────────────────────────

    /// Whether the pointer moving leaves everything as it is: it is in the
    /// card, or a question was asked from the keyboard, or it is still on the
    /// same symbol.
    pub open spec fn stays(self, pointed: Pointed) -> bool {
        ||| self.spot matches Some(spot) && !spot.pointer && spot.state is Asking
        ||| self.spot matches Some(spot) && spot.pointer && spot.doc == pointed.doc
            && (pointed.over() matches Some(at) && spot.from <= at < spot.to)
    }

    /// The symbol the pointer has come to.
    pub open spec fn comes_to(self, pointed: Pointed, now: u64) -> Option<Spot> {
        if pointed.over() is Some && pointed.symbol is Some && pointed.offers {
            Some(
                Spot {
                    pane: pointed.pane,
                    doc: pointed.doc,
                    at: pointed.over()->0,
                    from: (pointed.symbol->0).0,
                    to: (pointed.symbol->0).1,
                    pointer: true,
                    state: State::Settling(held_time(now + self.delay) as u64),
                },
            )
        } else {
            None
        }
    }

    /// Any mouse report, `moved` being whether the pointer moved with no button
    /// held: start waiting when it comes to a new symbol, and stop when it
    /// leaves one. A press, a drag or the wheel is doing something else.
    pub fn hover_pointer(&mut self, moved: bool, pointed: &Pointed, now: u64) -> (followed:
        Followed)
        ensures
            if pointed.target matches Some(target) && target.is_card() {
                followed.cancel is None && !followed.close_card && followed.dwell is None
                    && *final(self) == *old(self)
            } else if !moved {
                &&& followed.cancel == old(self).question()
                &&& !followed.close_card
                &&& followed.dwell is None
                &&& *final(self) == (Hovering { spot: None, ..*old(self) })
            } else if old(self).stays(*pointed) {
                followed.cancel is None && !followed.close_card && followed.dwell is None
                    && *final(self) == *old(self)
            } else {
                &&& followed.cancel == old(self).question()
                &&& followed.close_card == pointed.card_held
                &&& followed.dwell == if pointed.card_held && (
                pointed.target matches Some(target) && target is Diagnostic) {
                    pointed.target
                } else {
                    None
                }
                &&& *final(self) == (Hovering {
                    spot: old(self).comes_to(*pointed, now),
                    ..*old(self)
                })
            },
    {
        if let Some(target) = pointed.target {
            if target.in_card() {
                return Followed { cancel: None, close_card: false, dwell: None };
            }
        }
        if moved {
            return self.hover_motion(pointed, now);
        }
        let cancel = self.leave_hover();
        Followed { cancel, close_card: false, dwell: None }
    }

    fn hover_motion(&mut self, pointed: &Pointed, now: u64) -> (followed: Followed)
        ensures
            if old(self).stays(*pointed) {
                followed.cancel is None && !followed.close_card && followed.dwell is None
                    && *final(self) == *old(self)
            } else {
                &&& followed.cancel == old(self).question()
                &&& followed.close_card == pointed.card_held
                &&& followed.dwell == if pointed.card_held && (
                pointed.target matches Some(target) && target is Diagnostic) {
                    pointed.target
                } else {
                    None
                }
                &&& *final(self) == (Hovering {
                    spot: old(self).comes_to(*pointed, now),
                    ..*old(self)
                })
            },
    {
        let at = pointed.is_over();
        if let Some(spot) = self.spot {
            let asking = match spot.state {
                State::Asking(..) => true,
                _ => false,
            };
            // A question asked from the keyboard is not the pointer's to
            // cancel.
            if !spot.pointer && asking {
                return Followed { cancel: None, close_card: false, dwell: None };
            }
            if let Some(at) = at {
                if spot.pointer && spot.doc == pointed.doc && spot.from <= at && at < spot.to {
                    return Followed { cancel: None, close_card: false, dwell: None };
                }
            }
        }
        let cancel = self.leave_hover();
        let mut dwell: Option<Target> = None;
        if pointed.card_held {
            // Still on an underline: what it says comes back at once, as it
            // would have had the symbol's card not taken its place.
            if let Some(target) = pointed.target {
                if matches!(target, Target::Diagnostic(..)) {
                    dwell = Some(target);
                }
            }
        }
        if let (Some(at), Some(symbol)) = (at, pointed.symbol) {
            if pointed.offers {
                self.spot = Some(
                    Spot {
                        pane: pointed.pane,
                        doc: pointed.doc,
                        at,
                        from: symbol.0,
                        to: symbol.1,
                        pointer: true,
                        state: State::Settling(now.saturating_add(self.delay)),
                    },
                );
            }
        }
        Followed { cancel, close_card: pointed.card_held, dwell }
    }

    /// Whether an event abandons a card still on its way: typing, a paste, or
    /// the terminal losing focus.
    pub open spec fn abandons(event: Event) -> bool {
        match event {
            Event::Key(key) => key.kind != KeyKind::Release && !(key.code is Modifier),
            Event::Paste(_) => true,
            Event::Focus(focused) => !focused,
            _ => false,
        }
    }

    /// Before any event: typing, a paste, or the terminal losing focus abandons
    /// a card still on its way. One that has arrived goes by its own rules. The
    /// question to take back.
    pub fn hover_before(&mut self, event: &Event) -> (cancel: Option<u64>)
        ensures
            Self::abandons(*event) ==> cancel == old(self).question() && *final(self)
                == (Hovering { spot: None, ..*old(self) }),
            !Self::abandons(*event) ==> cancel is None && *final(self) == *old(self),
    {
        let abandons = match event {
            Event::Key(key) => key.kind != KeyKind::Release && !matches!(
                key.code,
                KeyCode::Modifier
            ),
            Event::Paste(_) => true,
            Event::Focus(focused) => !*focused,
            _ => false,
        };
        if abandons {
            self.leave_hover()
        } else {
            None
        }
    }

    /// When the pointer will have settled.
    pub open spec fn due(self) -> Option<u64> {
        match self.spot {
            Some(spot) => match spot.state {
                State::Settling(due) => Some(due),
                _ => None,
            },
            None => None,
        }
    }

    /// When the pointer will have settled, if it is settling.
    pub fn hover_deadline(&self) -> (due: Option<u64>)
        ensures
            due == self.due(),
    {
        match self.spot {
            Some(spot) => match spot.state {
                State::Settling(due) => Some(due),
                _ => None,
            },
            None => None,
        }
    }

    /// What to do at `now`, the focused document being `doc`: once the pointer
    /// has settled, ask about the symbol under it.
    pub fn hover_tick(&mut self, now: u64, doc: usize) -> (task: HoverTask)
        ensures
            if old(self).due() is None || now < old(self).due()->0 {
                task == HoverTask::Wait && *final(self) == *old(self)
            } else if old(self).spot->0.doc != doc {
                task == HoverTask::Wait && *final(self) == (Hovering { spot: None, ..*old(self) })
            } else {
                task == HoverTask::Ask(doc, old(self).spot->0.at) && *final(self) == *old(self)
            },
    {
        let Some(due) = self.hover_deadline() else {
            return HoverTask::Wait;
        };
        if now < due {
            return HoverTask::Wait;
        }
        let Some(spot) = self.spot else {
            return HoverTask::Wait;
        };
        if spot.doc != doc {
            self.spot = None;
            return HoverTask::Wait;
        }
        HoverTask::Ask(spot.doc, spot.at)
    }

    /// The question about the symbol the pointer rests on was sent, as an id
    /// and the version it is about, or could not be.
    pub fn hover_sent(&mut self, sent: Option<(u64, Option<i32>)>)
        ensures
            *final(self) == (Hovering {
                spot: match (sent, old(self).spot) {
                    (Some(sent), Some(spot)) => Some(
                        Spot { state: State::Asking(sent.0, sent.1), ..spot },
                    ),
                    _ => None,
                },
                ..*old(self)
            }),
    {
        self.spot = match (sent, self.spot) {
            (Some(sent), Some(spot)) => Some(Spot { state: State::Asking(sent.0, sent.1), ..spot }),
            _ => None,
        };
    }

    // ── the keyboard ────────────────────────────────────────────────────────

    /// Show what the symbol at the caret is: first stop waiting on any other,
    /// or say `why` where the document's server does not say what symbols are.
    pub fn show_hover(&mut self, offers: bool, why: String) -> (reply: Reply)
        ensures
            offers ==> {
                &&& reply.outcome == Outcome::Continue
                &&& reply.says() is None
                &&& reply.cancel@ == match old(self).question() {
                    Some(id) => seq![id],
                    None => Seq::empty(),
                }
                &&& *final(self) == (Hovering { spot: None, ..*old(self) })
            },
            !offers ==> {
                &&& reply.outcome == Outcome::Redraw
                &&& reply.says() == Some(why@)
                &&& reply.cancel@.len() == 0
                &&& *final(self) == *old(self)
            },
    {
        if !offers {
            return Reply::saying(why);
        }
        let mut reply = Reply::just(Outcome::Continue);
        if let Some(id) = self.leave_hover() {
            reply.cancel.push(id);
        }
        reply
    }

    /// The question about the symbol at the caret, at `at` in `doc` as shown in
    /// `pane`, was sent, or could not be.
    pub fn show_sent(
        &mut self,
        pane: usize,
        doc: usize,
        at: usize,
        symbol: Option<(usize, usize)>,
        sent: Result<(u64, Option<i32>), String>,
    ) -> (reply: Reply)
        requires
            at < usize::MAX,
        ensures
            reply.cancel@.len() == 0,
            match sent {
                Ok(sent) => {
                    let about = match symbol {
                        Some(symbol) => symbol,
                        None => (at, (at + 1) as usize),
                    };
                    &&& reply.outcome == Outcome::Continue
                    &&& reply.says() is None
                    &&& *final(self) == (Hovering {
                        spot: Some(
                            Spot {
                                pane,
                                doc,
                                at,
                                from: about.0,
                                to: about.1,
                                pointer: false,
                                state: State::Asking(sent.0, sent.1),
                            },
                        ),
                        ..*old(self)
                    })
                },
                Err(why) => {
                    &&& reply.outcome == Outcome::Redraw
                    &&& reply.says() == Some("Cannot describe the symbol: "@ + why@ + "."@)
                    &&& *final(self) == *old(self)
                },
            },
    {
        match sent {
            Ok(sent) => {
                let about = match symbol {
                    Some(symbol) => symbol,
                    None => (at, at + 1),
                };
                self.spot = Some(
                    Spot {
                        pane,
                        doc,
                        at,
                        from: about.0,
                        to: about.1,
                        pointer: false,
                        state: State::Asking(sent.0, sent.1),
                    },
                );
                Reply::just(Outcome::Continue)
            },
            Err(why) => Reply::saying(join3("Cannot describe the symbol: ", why.as_str(), ".")),
        }
    }

    // ── the answer ──────────────────────────────────────────────────────────

    /// The server answered the question being waited on, the document being at
    /// `current`. An answer about text that has changed since may be about
    /// another symbol altogether.
    pub fn hover_answered(&mut self, current: Option<i32>, result: Result<(), String>) -> (answer:
        HoverAnswer)
        ensures
            match old(self).spot {
                Some(spot) => match spot.state {
                    State::Asking(_, asked) => match result {
                        Ok(()) => if current == asked {
                            answer is Show && *final(self) == *old(self)
                        } else {
                            answer is Nothing && *final(self) == (Hovering {
                                spot: None,
                                ..*old(self)
                            })
                        },
                        Err(why) => {
                            &&& *final(self) == (Hovering { spot: None, ..*old(self) })
                            &&& spot.pointer ==> answer is Nothing
                            &&& !spot.pointer ==> (answer matches HoverAnswer::Say(said) && said@
                                == "Could not describe the symbol: "@ + why@ + "."@)
                        },
                    },
                    _ => answer is Nothing && *final(self) == *old(self),
                },
                None => answer is Nothing && *final(self) == *old(self),
            },
    {
        let Some(spot) = self.spot else {
            return HoverAnswer::Nothing;
        };
        let asked = match spot.state {
            State::Asking(_, asked) => asked,
            _ => return HoverAnswer::Nothing,
        };
        match result {
            Ok(()) => {
                let same_text = match (current, asked) {
                    (Some(current), Some(asked)) => current == asked,
                    (None, None) => true,
                    _ => false,
                };
                if same_text {
                    return HoverAnswer::Show;
                }
                self.spot = None;
                HoverAnswer::Nothing
            },
            Err(why) => {
                self.spot = None;
                if spot.pointer {
                    HoverAnswer::Nothing
                } else {
                    HoverAnswer::Say(
                        join3("Could not describe the symbol: ", why.as_str(), "."),
                    )
                }
            },
        }
    }

    /// What an answer is about: what the server says it is, as long as that
    /// covers the char asked about, or the symbol asked about.
    pub open spec fn answer_about(
        span: Option<(usize, usize)>,
        at: usize,
        symbol: (usize, usize),
    ) -> (usize, usize) {
        match span {
            Some(span) => if span.0 <= at < span.1 {
                span
            } else {
                symbol
            },
            None => symbol,
        }
    }

    /// What the server said the symbol is has come, about `span` if it said so;
    /// `showing` is whether the symbol's document is still shown where it was.
    /// What to show it beside.
    pub fn hover_found(&mut self, span: Option<(usize, usize)>, showing: bool) -> (described:
        Option<Described>)
        ensures
            *final(self) == (Hovering { spot: final(self).spot, ..*old(self) }),
            match old(self).spot {
                None => described is None && final(self).spot is None,
                Some(spot) => {
                    let about = if showing {
                        Self::answer_about(span, spot.at, (spot.from, spot.to))
                    } else {
                        (spot.from, spot.to)
                    };
                    &&& final(self).spot == if spot.pointer {
                        Some(
                            Spot { state: State::Answered, from: about.0, to: about.1, ..spot },
                        )
                    } else {
                        None
                    }
                    &&& described == if showing {
                        Some(
                            Described {
                                pane: spot.pane,
                                doc: spot.doc,
                                from: about.0,
                                to: about.1,
                                pointer: spot.pointer,
                            },
                        )
                    } else {
                        None
                    }
                },
            },
    {
        let Some(mut spot) = self.spot.take() else {
            return None;
        };
        spot.state = State::Answered;
        if showing {
            if let Some(span) = span {
                if span.0 <= spot.at && spot.at < span.1 {
                    spot.from = span.0;
                    spot.to = span.1;
                }
            }
        }
        if spot.pointer {
            self.spot = Some(spot);
        }
        if !showing {
            return None;
        }
        Some(
            Described {
                pane: spot.pane,
                doc: spot.doc,
                from: spot.from,
                to: spot.to,
                pointer: spot.pointer,
            },
        )
    }

    /// What a card says of a symbol: what is wrong with it, then what it is,
    /// with a line between them where there are both.
    pub open spec fn said_of(
        problems: Seq<Seq<crate::body::RunModel>>,
        what: Seq<Seq<crate::body::RunModel>>,
    ) -> Seq<Seq<crate::body::RunModel>> {
        if problems.len() > 0 && what.len() > 0 {
            problems.push(Seq::empty()) + what
        } else {
            problems + what
        }
    }

    /// What is shown of `described`, which is called `name`: `problems` is what
    /// is wrong with it, `what` is what it is, and `links` are where that leads.
    pub fn hover_card(
        &self,
        described: &Described,
        name: &str,
        problems: Vec<Paragraph>,
        what: Vec<Paragraph>,
        links: Vec<String>,
    ) -> (shown: Shown)
        ensures
            if problems@.len() == 0 && what@.len() == 0 {
                if described.pointer {
                    shown is Nothing
                } else {
                    shown matches Shown::Say(said) && said@ == "Nothing to say about `"@ + name@
                        + "`."@
                }
            } else {
                shown matches Shown::Card(card, fixable) && {
                    &&& card.wf()
                    &&& fixable == (problems@.len() > 0)
                    &&& card.anchor == (Anchor::Text {
                        pane: described.pane,
                        doc: described.doc,
                        from: described.from,
                        to: described.to,
                    })
                    &&& paragraphs(card.body@) == Self::said_of(
                        paragraphs(problems@),
                        paragraphs(what@),
                    )
                    &&& card.buttons@.len() == 0
                    &&& card.fixes == 0
                    &&& card.scroll == 0
                    &&& card.opener is None
                    &&& card.held == described.pointer
                    &&& card.links == links
                    &&& card.hyperlinks == self.hyperlinks
                    &&& card.hunk is None
                }
            },
    {
        if problems.len() == 0 && what.len() == 0 {
            if described.pointer {
                return Shown::Nothing;
            }
            return Shown::Say(join3("Nothing to say about `", name, "`."));
        }
        let fixable = problems.len() > 0;
        let ghost wrong = problems@;
        let ghost is = what@;
        let mut body = problems;
        let mut what = what;
        if fixable && what.len() > 0 {
            let gap: Paragraph = Vec::new();
            proof {
                crate::body::paragraphs_push(body@, gap);
                assert(crate::body::runs(gap) =~= Seq::empty());
            }
            body.push(gap);
        }
        let ghost top = body@;
        body.append(&mut what);
        assert(paragraphs(body@) =~= paragraphs(top) + paragraphs(is));
        let anchor = Anchor::Text {
            pane: described.pane,
            doc: described.doc,
            from: described.from,
            to: described.to,
        };
        let card = Card::new(anchor, body, Vec::new(), None).with_links(links, self.hyperlinks);
        let card = if described.pointer {
            card.held_over_anchor()
        } else {
            card
        };
        Shown::Card(card, fixable)
    }
}

/// Why a symbol cannot be asked about, where it cannot: whether there are
/// language servers, and whether one follows its file.
pub fn ask_hover(running: bool, followed: bool) -> (why: Option<String>)
    ensures
        words(why) == if !running {
            Some("no language server"@)
        } else if !followed {
            Some("the file is not followed"@)
        } else {
            None
        },
{
    if !running {
        Some("no language server".to_owned())
    } else if !followed {
        Some("the file is not followed".to_owned())
    } else {
        None
    }
}

/// Whether a mark is on chars `from` up to `to`, an empty one or an empty
/// range being on the char at its place.
pub open spec fn is_on(mark: Mark, from: usize, to: usize) -> bool {
    (mark.start < to || mark.start <= from) && (from < mark.end || from <= mark.start)
}

/// The first of `marks`, from the `first`th on, that is on chars `from` up to
/// `to`.
pub open spec fn first_on(marks: Seq<Mark>, from: usize, to: usize, first: int) -> Option<int>
    decreases marks.len() - first,
{
    if first < 0 || first >= marks.len() {
        None
    } else if is_on(marks[first], from, to) {
        Some(first)
    } else {
        first_on(marks, from, to, first + 1)
    }
}

/// The diagnostic on chars `from` up to `to` that a symbol's card is to say,
/// if there is one.
pub fn problems_on(marks: &Vec<Mark>, from: usize, to: usize) -> (index: Option<usize>)
    ensures
        match index {
            Some(index) => index < marks@.len() && first_on(marks@, from, to, 0) == Some(
                index as int,
            ),
            None => first_on(marks@, from, to, 0) is None,
        },
{
    let mut i: usize = 0;
    while i < marks.len()
        invariant
            i <= marks@.len(),
            first_on(marks@, from, to, 0) == first_on(marks@, from, to, i as int),
        decreases marks@.len() - i,
    {
        let mark = &marks[i];
        if (mark.start < to || mark.start <= from) && (from < mark.end || from <= mark.start) {
            return Some(i);
        }
        i = i + 1;
    }
    None
}

/// The chars from `from` up to `to`, as far as they are there.
pub fn hover_text(rope: &Rope, from: usize, to: usize) -> (text: String)
    ensures
        ({
            let len = rope_text(*rope).len() as int;
            let end = if to <= len {
                to as int
            } else {
                len
            };
            let start = if from <= end {
                from as int
            } else {
                end
            };
            text@ == rope_text(*rope).subrange(start, end)
        }),
{
    let len: usize = len_chars(rope);
    let end: usize = if to <= len {
        to
    } else {
        len
    };
    let start: usize = if from <= end {
        from
    } else {
        end
    };
    slice(rope, start, end)
}

// ── what a server says ──────────────────────────────────────────────────────

/// One thing a server says of a symbol.
#[derive(Debug)]
pub enum Marked {
    /// In Markdown.
    Markdown(String),
    /// Code in a language.
    Code(String, String),
    /// As it is.
    Plain(String),
}

/// What a server says of a symbol, in any form it may take.
#[derive(Debug)]
pub enum Contents {
    /// One thing.
    Scalar(Marked),
    /// Several.
    Array(Vec<Marked>),
    /// Marked up, as Markdown or not.
    Markup(bool, String),
}

/// What a hover says, one thing after another, whatever its form.
pub fn contents(said: Contents) -> (all: Vec<Marked>)
    ensures
        match said {
            Contents::Scalar(one) => all@ == seq![one],
            Contents::Array(many) => all == many,
            Contents::Markup(markdown, text) => all@ == seq![
                if markdown {
                    Marked::Markdown(text)
                } else {
                    Marked::Plain(text)
                },
            ],
        },
{
    let mut all: Vec<Marked> = Vec::new();
    match said {
        Contents::Scalar(one) => {
            all.push(one);
        },
        Contents::Array(many) => {
            return many;
        },
        Contents::Markup(markdown, text) => {
            all.push(
                if markdown {
                    Marked::Markdown(text)
                } else {
                    Marked::Plain(text)
                },
            );
        },
    }
    all
}

// ── links ───────────────────────────────────────────────────────────────────

/// `ch` in lower case, where it is one of A to Z.
pub open spec fn lower(ch: char) -> char {
    if 'A' <= ch <= 'Z' {
        (ch as u32 + 32) as char
    } else {
        ch
    }
}

fn lower_char(ch: char) -> (low: char)
    ensures
        low == lower(ch),
{
    match ch {
        'A' => 'a',
        'B' => 'b',
        'C' => 'c',
        'D' => 'd',
        'E' => 'e',
        'F' => 'f',
        'G' => 'g',
        'H' => 'h',
        'I' => 'i',
        'J' => 'j',
        'K' => 'k',
        'L' => 'l',
        'M' => 'm',
        'N' => 'n',
        'O' => 'o',
        'P' => 'p',
        'Q' => 'q',
        'R' => 'r',
        'S' => 's',
        'T' => 't',
        'U' => 'u',
        'V' => 'v',
        'W' => 'w',
        'X' => 'x',
        'Y' => 'y',
        'Z' => 'z',
        _ => ch,
    }
}

/// The scheme of a link: what comes before its first colon, in lower case.
/// `None` where there is no colon.
pub open spec fn scheme_of(link: Seq<char>) -> Option<Seq<char>> {
    let at = first_at(link, ':');
    if at < link.len() {
        Some(Seq::new(at as nat, |i: int| lower(link[i])))
    } else {
        None
    }
}

fn scheme(link: &str) -> (scheme: Option<String>)
    ensures
        words(scheme) == scheme_of(link@),
{
    let chars = chars_of(link);
    assert(chars@.skip(0) =~= chars@);
    let at = find_from(&chars, ':', 0);
    if at >= chars.len() {
        return None;
    }
    let mut name = String::new();
    let mut i: usize = 0;
    while i < at
        invariant
            i <= at < chars@.len(),
            chars@ == link@,
            at == first_at(link@, ':'),
            name@ =~= scheme_of(link@)->0.take(i as int),
        decreases at - i,
    {
        push(&mut name, lower_char(chars[i]));
        i = i + 1;
    }
    assert(scheme_of(link@)->0.take(at as int) =~= scheme_of(link@)->0);
    Some(name)
}

/// Whether `text` is printable ASCII and nothing else, without a space.
pub open spec fn printable_ascii(text: Seq<char>) -> bool {
    forall|i: int| 0 <= i < text.len() ==> 0x21 <= (#[trigger] text[i]) as u32 <= 0x7e
}

fn is_printable_ascii(text: &str) -> (is: bool)
    ensures
        is == printable_ascii(text@),
{
    let chars = chars_of(text);
    let mut i: usize = 0;
    while i < chars.len()
        invariant
            i <= chars@.len(),
            chars@ == text@,
            forall|k: int| 0 <= k < i ==> 0x21 <= (#[trigger] text@[k]) as u32 <= 0x7e,
        decreases chars@.len() - i,
    {
        let code: u32 = chars[i] as u32;
        if code < 0x21 || code > 0x7e {
            assert(!(0x21 <= text@[i as int] as u32 <= 0x7e));
            return false;
        }
        i = i + 1;
    }
    true
}

/// What following a link comes to.
#[derive(Debug)]
pub enum LinkTask {
    /// It is a file, to open here.
    File,
    /// It is for the system's opener: the link handed to it, and what is said.
    Launch(String, String),
    /// It is not followed, and this is said.
    Say(String),
}

/// Whether a scheme is for the system's opener.
pub open spec fn is_web(scheme: Seq<char>) -> bool {
    scheme == "http"@ || scheme == "https"@ || scheme == "mailto"@
}

/// Whether `task` is what following `link` comes to: a file's is opened here, a
/// web page's or an address's is handed on as it is, and any other is refused.
pub open spec fn followed(link: Seq<char>, task: LinkTask) -> bool {
    match scheme_of(link) {
        None => task matches LinkTask::Say(said) && said@ == link
            + " is not a link nun can open."@,
        Some(scheme) => if scheme == "file"@ {
            task is File
        } else if !is_web(scheme) {
            task matches LinkTask::Say(said) && said@ == "nun does not open "@ + scheme
                + ": links."@
        } else if printable_ascii(link) {
            task matches LinkTask::Launch(handed, said) && handed@ == link && said@ == "Opening "@
                + link
        } else {
            task matches LinkTask::Say(said) && said@
                == "That link has characters in it nun will not pass on."@
        },
    }
}

/// A link in a card was clicked. A file opens here; a web page or an address
/// opens in whatever the system opens them with. Anything else, a server's own
/// command scheme say, is refused rather than guessed at.
///
/// A link is handed over as one argument, never through a shell, and only as
/// printable ASCII: the scheme was checked, so it cannot be read as an option
/// either.
pub fn follow_link(link: &str) -> (task: LinkTask)
    ensures
        followed(link@, task),
{
    let Some(name) = scheme(link) else {
        return LinkTask::Say(join(link, " is not a link nun can open."));
    };
    if name == "file".to_owned() {
        return LinkTask::File;
    }
    if name == "http".to_owned() || name == "https".to_owned() || name == "mailto".to_owned() {
        if !is_printable_ascii(link) {
            return LinkTask::Say(
                "That link has characters in it nun will not pass on.".to_owned(),
            );
        }
        return LinkTask::Launch(link.to_owned(), join("Opening ", link));
    }
    LinkTask::Say(join3("nun does not open ", name.as_str(), ": links."))
}

/// What is handed to the system's opener is the link that was clicked. It has one
/// of three schemes, is printable ASCII, and cannot be read as an option.
pub proof fn only_plain_web_links_are_handed_on(link: Seq<char>, task: LinkTask)
    requires
        followed(link, task),
        task is Launch,
    ensures
        task matches LinkTask::Launch(handed, _) && handed@ == link,
        scheme_of(link) matches Some(scheme) && is_web(scheme),
        printable_ascii(link),
        link.len() > 0 && link[0] != '-',
{
    reveal_strlit("http");
    reveal_strlit("https");
    reveal_strlit("mailto");
    let scheme = scheme_of(link)->0;
    assert(scheme.len() > 0 && scheme[0] == lower(link[0]));
    assert(scheme[0] == 'h' || scheme[0] == 'm');
}

/// `text` without the Ls it starts with.
pub open spec fn without_ells(text: Seq<char>) -> Seq<char>
    decreases text.len(),
{
    if text.len() > 0 && (text[0] == 'L' || text[0] == 'l') {
        without_ells(text.skip(1))
    } else {
        text
    }
}

/// The digits `text` starts with.
pub open spec fn leading_digits(text: Seq<char>) -> Seq<char>
    decreases text.len(),
{
    if text.len() > 0 && is_digit(text[0]) {
        seq![text[0]] + leading_digits(text.skip(1))
    } else {
        Seq::empty()
    }
}

/// The part of a link after its first number sign.
pub open spec fn fragment_of(link: Seq<char>) -> Seq<char> {
    let at = first_at(link, '#');
    if at < link.len() {
        link.skip(at + 1)
    } else {
        Seq::empty()
    }
}

/// The line a fragment names, counted from nought: `L12`, or `12`, as servers
/// write them. The first where it names none.
pub open spec fn row_named(fragment: Seq<char>) -> nat {
    match number_in(leading_digits(without_ells(fragment)), u32::MAX as nat) {
        Some(n) => if n > 0 {
            (n - 1) as nat
        } else {
            0
        },
        None => 0,
    }
}

/// The parts of a `file:` link: what names the file, and the line its fragment
/// names, counted from nought.
pub fn file_link(link: &str) -> (parts: (String, u32))
    ensures
        parts.0@ == link@.take(first_at(link@, '#')),
        parts.1 == row_named(fragment_of(link@)),
{
    let chars = chars_of(link);
    assert(chars@.skip(0) =~= chars@);
    let at = find_from(&chars, '#', 0);
    let base = string_of(&chars, 0, at);
    assert(base@ =~= link@.take(first_at(link@, '#')));
    let ghost fragment = fragment_of(link@);
    let mut i: usize = if at < chars.len() {
        at + 1
    } else {
        at
    };
    assert(fragment =~= link@.skip(i as int));
    while i < chars.len() && (chars[i] == 'L' || chars[i] == 'l')
        invariant
            i <= chars@.len(),
            chars@ == link@,
            without_ells(fragment) == without_ells(link@.skip(i as int)),
        decreases chars@.len() - i,
    {
        assert(link@.skip(i as int).skip(1) =~= link@.skip(i + 1));
        i = i + 1;
    }
    let from: usize = i;
    let ghost rest = link@.skip(from as int);
    assert(without_ells(fragment) == rest);
    assert(link@.subrange(from as int, from as int) + leading_digits(rest) =~= leading_digits(
        rest,
    ));
    while i < chars.len() && '0' <= chars[i] && chars[i] <= '9'
        invariant
            from <= i <= chars@.len(),
            chars@ == link@,
            leading_digits(rest) == link@.subrange(from as int, i as int) + leading_digits(
                link@.skip(i as int),
            ),
        decreases chars@.len() - i,
    {
        assert(link@.skip(i as int).skip(1) =~= link@.skip(i + 1));
        assert(link@.subrange(from as int, i + 1) =~= link@.subrange(from as int, i as int)
            + seq![link@[i as int]]);
        assert(link@.subrange(from as int, i as int) + (seq![link@[i as int]] + leading_digits(
            link@.skip(i + 1),
        )) =~= link@.subrange(from as int, i + 1) + leading_digits(link@.skip(i + 1)));
        i = i + 1;
    }
    let digits = string_of(&chars, from, i);
    assert(leading_digits(link@.skip(i as int)) =~= Seq::empty());
    assert(digits@ =~= leading_digits(rest));
    let row: u32 = match number(digits.as_str(), u32::MAX as usize) {
        Some(n) => (n as u32).saturating_sub(1),
        None => 0,
    };
    (base, row)
}

/// What is said of a `file:` link that names no file.
pub fn no_file(link: &str) -> (said: String)
    ensures
        said@ == link@ + " is not a file nun can open."@,
{
    join(link, " is not a file nun can open.")
}

/// Moving away before the delay asks nothing: once the pointer is elsewhere,
/// what was waited on is no longer due, and what was asked is taken back.
pub proof fn moving_away_takes_the_question_back(before: Hovering, pointed: Pointed, now: u64)
    requires
        before.spot matches Some(spot) && spot.pointer && spot.state is Asking,
        !before.stays(pointed),
    ensures
        ({
            let after = Hovering { spot: before.comes_to(pointed, now), ..before };
            before.question() is Some && after.question() is None
        }),
{
}

/// Nothing is due before the pointer has rested as long as it is to rest.
pub proof fn nothing_is_due_before_the_delay(before: Hovering, pointed: Pointed, now: u64)
    ensures
        ({
            let after = Hovering { spot: before.comes_to(pointed, now), ..before };
            after.due() matches Some(due) ==> due == held_time(now + before.delay)
        }),
{
}

/// What the pointer is on is the word there, where it is on one, and otherwise the
/// one char; white space, and what is past the end, is nothing.
pub proof fn what_the_pointer_is_on_is_a_word_or_a_char(
    text: Seq<char>,
    at: int,
    word: (usize, usize),
)
    requires
        0 <= at < text.len() < usize::MAX,
        word.0 < word.1,
    ensures
        ({
            let wordy = crate::unicode::alphanumeric(text[at]) || text[at] == '_';
            &&& symbol_at(text, at, word) is None <==> white_space(text[at])
            &&& !white_space(text[at]) && wordy ==> symbol_at(text, at, word) == Some(word)
            &&& !white_space(text[at]) && !wordy ==> symbol_at(text, at, word) == Some(
                (at as usize, (at + 1) as usize),
            )
        }),
        symbol_at(text, text.len() as int, word) is None,
{
}

/// A hover stays while the pointer is over the same symbol in the same document, and
/// a question from the keyboard until it is answered; nothing else stays.
pub proof fn a_hover_stays_on_its_symbol(hovering: Hovering, pointed: Pointed)
    ensures
        hovering.stays(pointed) <==> {
            &&& hovering.spot matches Some(spot)
            &&& if spot.pointer {
                &&& spot.doc == pointed.doc
                &&& pointed.target matches Some(target) && target.beneath() == Target::Text
                &&& !pointed.overlay
                &&& pointed.at matches Some(at) && spot.from <= at < spot.to
            } else {
                spot.state matches State::Asking(_, _)
            }
        },
{
}

/// Coming to a symbol waits as long as the pointer has to rest before the server is
/// asked about it, and is about the symbol and the char under the pointer.
pub proof fn a_symbol_come_to_is_asked_about_after_the_delay(
    hovering: Hovering,
    pointed: Pointed,
    now: u64,
)
    requires
        now + hovering.delay <= u64::MAX,
    ensures
        hovering.comes_to(pointed, now) is Some <==> {
            &&& pointed.target matches Some(target) && target.beneath() == Target::Text
            &&& !pointed.overlay
            &&& pointed.at is Some
            &&& pointed.symbol is Some
            &&& pointed.offers
        },
        hovering.comes_to(pointed, now) matches Some(spot) ==> {
            &&& spot.pane == pointed.pane && spot.doc == pointed.doc
            &&& pointed.at == Some(spot.at)
            &&& pointed.symbol == Some((spot.from, spot.to))
            &&& spot.pointer
            &&& spot.state matches State::Settling(due) && due == now + hovering.delay
        },
{
}

/// An answer is about what the server says, where that takes in the char asked about,
/// and about the symbol otherwise.
pub proof fn an_answer_is_about_the_char_asked_about(
    span: Option<(usize, usize)>,
    at: usize,
    symbol: (usize, usize),
)
    requires
        symbol.0 <= at < symbol.1,
    ensures
        ({
            let about = Hovering::answer_about(span, at, symbol);
            &&& about.0 <= at < about.1
            &&& Some(about) == span || about == symbol
            &&& span matches Some(said) ==> (said.0 <= at < said.1 ==> about == said)
        }),
{
}

/// Problems come first on a card, and a line apart from what the symbol is where
/// there are both.
pub proof fn problems_come_before_what_a_symbol_is(
    problems: Seq<Seq<crate::body::RunModel>>,
    what: Seq<Seq<crate::body::RunModel>>,
)
    ensures
        ({
            let said = Hovering::said_of(problems, what);
            &&& said.take(problems.len() as int) == problems
            &&& problems.len() == 0 ==> said == what
            &&& what.len() == 0 ==> said == problems
            &&& problems.len() > 0 && what.len() > 0 ==> {
                &&& said.len() == problems.len() + 1 + what.len()
                &&& said[problems.len() as int].len() == 0
                &&& said.skip(problems.len() as int + 1) == what
            }
        }),
{
    let said = Hovering::said_of(problems, what);
    assert(said.take(problems.len() as int) =~= problems);
    if problems.len() == 0 {
        assert(said =~= what);
    }
    if what.len() == 0 {
        assert(said =~= problems);
    }
    if problems.len() > 0 && what.len() > 0 {
        assert(said.skip(problems.len() as int + 1) =~= what);
    }
}

/// Whether char `p` is of the chars `from` up to `to`, or is the one they are at where
/// there are none.
pub open spec fn is_char_of(from: usize, to: usize, p: int) -> bool {
    from <= p && (p < to || p == from)
}

/// A problem is on a symbol where some char is of both, and the one told of is the
/// first that is.
pub proof fn a_problem_on_a_symbol_shares_a_char_with_it(
    marks: Seq<Mark>,
    from: usize,
    to: usize,
    first: int,
)
    requires
        0 <= first <= marks.len(),
    ensures
        match first_on(marks, from, to, first) {
            Some(at) => {
                &&& first <= at < marks.len()
                &&& shares_char(marks[at], from, to)
                &&& forall|i: int|
                    first <= i < at ==> !shares_char(#[trigger] marks[i], from, to)
            },
            None => forall|i: int|
                first <= i < marks.len() ==> !shares_char(#[trigger] marks[i], from, to),
        },
    decreases marks.len() - first,
{
    if first < marks.len() {
        let mark = marks[first];
        let p = if mark.start <= from {
            from as int
        } else {
            mark.start as int
        };
        if is_on(mark, from, to) {
            assert(is_char_of(mark.start, mark.end, p) && is_char_of(from, to, p));
        } else {
            a_problem_on_a_symbol_shares_a_char_with_it(marks, from, to, first + 1);
        }
    }
}

/// Whether some char is of both a mark and the chars `from` up to `to`.
pub open spec fn shares_char(mark: Mark, from: usize, to: usize) -> bool {
    exists|p: int| #[trigger] is_char_of(mark.start, mark.end, p) && is_char_of(from, to, p)
}

/// A link's scheme is what comes before its first colon, in small letters; a link
/// with no colon has none.
pub proof fn a_scheme_is_what_comes_before_the_colon(name: Seq<char>, rest: Seq<char>, at: int)
    requires
        forall|i: int| 0 <= i < name.len() ==> #[trigger] name[i] != ':',
        0 <= at < name.len(),
    ensures
        scheme_of(name) is None,
        scheme_of(name.push(':') + rest) matches Some(scheme) && {
            &&& scheme.len() == name.len()
            &&& 'A' <= name[at] <= 'Z' ==> scheme[at] as int - 'a' as int == name[at] as int
                - 'A' as int
            &&& !('A' <= name[at] <= 'Z') ==> scheme[at] == name[at]
        },
{
    crate::text::first_at_is_first(name, ':');
    let link = name.push(':') + rest;
    crate::text::first_at_is_first(link, ':');
    let colon = first_at(link, ':');
    assert(link[name.len() as int] == ':');
    if colon < name.len() {
        assert(link[colon] == name[colon]);
    }
    assert(colon == name.len());
    assert(link[at] == name[at]);
}

/// What is done with a link is told by its scheme: a file is opened here, a web page
/// or an address is handed on where all of it is printable ASCII, and nothing else is
/// followed.
pub proof fn a_link_is_followed_by_its_scheme(link: Seq<char>, task: LinkTask, scheme: Seq<char>)
    requires
        followed(link, task),
        scheme_of(link) == Some(scheme),
    ensures
        task is File <==> scheme == "file"@,
        task is Launch <==> (scheme == "http"@ || scheme == "https"@ || scheme == "mailto"@)
            && forall|i: int| 0 <= i < link.len() ==> '!' <= #[trigger] link[i] <= '~',
{
    reveal_strlit("http");
    reveal_strlit("https");
    reveal_strlit("mailto");
    reveal_strlit("file");
    assert("file"@[0] == 'f' && "http"@[0] == 'h' && "https"@[0] == 'h' && "mailto"@[0] == 'm');
    if printable_ascii(link) {
        assert forall|i: int| 0 <= i < link.len() implies '!' <= #[trigger] link[i] <= '~' by {
            printable_is(link[i]);
        }
    }
    if forall|i: int| 0 <= i < link.len() ==> '!' <= #[trigger] link[i] <= '~' {
        assert forall|i: int| 0 <= i < link.len() implies 0x21 <= (#[trigger] link[i]) as u32
            <= 0x7e by {
            printable_is(link[i]);
        }
    }
}

proof fn printable_is(ch: char)
    ensures
        0x21 <= ch as u32 <= 0x7e <==> '!' <= ch && ch <= '~',
{
}

/// A link's fragment is what comes after its first number sign; a link with none has
/// no fragment.
pub proof fn a_fragment_is_what_comes_after_the_sign(path: Seq<char>, fragment: Seq<char>)
    requires
        forall|i: int| 0 <= i < path.len() ==> #[trigger] path[i] != '#',
    ensures
        fragment_of(path.push('#') + fragment) == fragment,
        fragment_of(path).len() == 0,
{
    crate::text::first_at_is_first(path, '#');
    let link = path.push('#') + fragment;
    crate::text::first_at_is_first(link, '#');
    let at = first_at(link, '#');
    assert(link[path.len() as int] == '#');
    if at < path.len() {
        assert(link[at] == path[at]);
    }
    assert(at == path.len());
    assert(link.skip(at + 1) =~= fragment);
}

/// A line named in a link, with an L before it or without, is that line, counted from
/// one; whatever follows the number counts for nothing.
pub proof fn a_line_in_a_link_is_counted_from_one(n: nat, more: Seq<char>)
    requires
        1 <= n <= u32::MAX,
        more.len() == 0 || !('0' <= more[0] <= '9'),
    ensures
        row_named(decimal_of(n) + more) == n - 1,
        row_named("L"@ + decimal_of(n) + more) == n - 1,
        row_named("l"@ + decimal_of(n) + more) == n - 1,
{
    reveal_strlit("L");
    reveal_strlit("l");
    let digits = decimal_of(n);
    crate::text::a_number_is_digits(n);
    crate::text::a_number_reads_back(n, u32::MAX as nat);
    let plain = digits + more;
    assert(plain[0] == digits[0]);
    assert(without_ells(plain) == plain);
    digits_lead(digits, more);
    let big = "L"@ + digits + more;
    let small = "l"@ + digits + more;
    assert(big.skip(1) =~= plain);
    assert(small.skip(1) =~= plain);
    assert(big[0] == 'L' && small[0] == 'l');
    assert(without_ells(big) == without_ells(big.skip(1)));
    assert(without_ells(small) == without_ells(small.skip(1)));
}

proof fn digits_lead(digits: Seq<char>, more: Seq<char>)
    requires
        forall|i: int| 0 <= i < digits.len() ==> is_digit(#[trigger] digits[i]),
        more.len() == 0 || !is_digit(more[0]),
    ensures
        leading_digits(digits + more) == digits,
    decreases digits.len(),
{
    if digits.len() == 0 {
        assert(digits + more =~= more);
        assert(leading_digits(more) =~= digits);
    } else {
        let rest = digits.skip(1);
        assert forall|i: int| 0 <= i < rest.len() implies is_digit(#[trigger] rest[i]) by {
            assert(rest[i] == digits[i + 1]);
        }
        digits_lead(rest, more);
        assert((digits + more).skip(1) =~= rest + more);
        assert((digits + more)[0] == digits[0]);
        assert(leading_digits(digits + more) =~= digits);
    }
}

/// A key pressed, a paste, or the terminal losing the keyboard ends a hover; a key let
/// go, a modifier on its own, and the pointer do not.
pub proof fn a_key_ends_a_hover(event: Event)
    ensures
        event matches Event::Key(key) ==> (Hovering::abandons(event) <==> !(key.kind is Release)
            && !(key.code is Modifier)),
        event matches Event::Paste(_) ==> Hovering::abandons(event),
        event matches Event::Focus(focused) ==> (Hovering::abandons(event) <==> !focused),
        !(event is Key) && !(event is Paste) && !(event is Focus) ==> !Hovering::abandons(event),
{
}

/// Line nought, and no line at all, are the first.
pub proof fn no_line_in_a_link_is_the_first(more: Seq<char>)
    requires
        more.len() == 0 || !('0' <= more[0] <= '9' || more[0] == 'L' || more[0] == 'l'),
    ensures
        row_named(decimal_of(0) + more) == 0,
        row_named(more) == 0,
{
    crate::text::a_number_is_digits(0);
    crate::text::a_number_reads_back(0, u32::MAX as nat);
    let digits = decimal_of(0);
    digits_lead(digits, more);
    assert((digits + more)[0] == digits[0]);
    assert(without_ells(digits + more) == digits + more);
    assert(without_ells(more) == more);
    assert(leading_digits(more) =~= Seq::<char>::empty());
    assert(number_in(Seq::<char>::empty(), u32::MAX as nat) is None);
}

} // verus!
