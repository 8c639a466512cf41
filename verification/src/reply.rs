//! What comes of an event: what to say, what to take back, and what to do
//! next.

use vstd::prelude::*;

use crate::outcome::Outcome;

verus! {

/// The words of a message, if there is one.
pub open spec fn words(message: Option<String>) -> Option<Seq<char>> {
    match message {
        Some(text) => Some(text@),
        None => None,
    }
}

/// What comes of an event.
#[derive(Debug)]
pub struct Reply {
    /// What the caller does next.
    pub outcome: Outcome,
    /// What the status line is to say, where it is to say something new.
    pub message: Option<String>,
    /// Questions to take back from the language server.
    pub cancel: Vec<u64>,
}

impl Reply {
    /// What it says.
    pub open spec fn says(self) -> Option<Seq<char>> {
        words(self.message)
    }

    /// Nothing but `outcome`.
    pub fn just(outcome: Outcome) -> (reply: Self)
        ensures
            reply.outcome == outcome,
            reply.says() is None,
            reply.cancel@ == Seq::<u64>::empty(),
    {
        Reply { outcome, message: None, cancel: Vec::new() }
    }

    /// A redraw that says `text`.
    pub fn saying(text: String) -> (reply: Self)
        ensures
            reply.outcome == Outcome::Redraw,
            reply.says() == Some(text@),
            reply.cancel@ == Seq::<u64>::empty(),
    {
        Reply { outcome: Outcome::Redraw, message: Some(text), cancel: Vec::new() }
    }
}

} // verus!
