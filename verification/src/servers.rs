//! Language servers, as the status line shows them.

use vstd::prelude::*;

use crate::outcome::Outcome;
use crate::reply::Reply;
use crate::text::join3;

verus! {

/// How long the servers are given to exit when nun does, before they are
/// killed, in milliseconds. Waited for after the terminal is back, so it is
/// never a frozen screen.
pub const SHUTDOWN: u64 = 2_000;

/// What a server said comes to.
#[derive(Debug)]
pub enum Said {
    /// Nothing to show, or an answer nobody waits for.
    Nothing,
    /// Something on screen changed.
    Redraw,
    /// Something to tell the person.
    Notice(String),
}

/// A server said something.
pub fn lsp_event(said: Said) -> (heard: (Outcome, Option<String>))
    ensures
        match said {
            Said::Nothing => heard == (Outcome::Continue, None::<String>),
            Said::Redraw => heard == (Outcome::Redraw, None::<String>),
            Said::Notice(notice) => heard == (Outcome::Redraw, Some(notice)),
        },
{
    match said {
        Said::Nothing => (Outcome::Continue, None),
        Said::Redraw => (Outcome::Redraw, None),
        Said::Notice(notice) => (Outcome::Redraw, Some(notice)),
    }
}

/// The server of the file being edited, called `name` if it has one, was told
/// to start again.
pub fn lsp_restart(name: Option<String>) -> (reply: Reply)
    ensures
        reply.outcome == Outcome::Redraw,
        reply.cancel@.len() == 0,
        reply.says() == Some(
            match name {
                Some(name) => "Restarting "@ + name@ + "…"@,
                None => "This file has no language server to restart."@,
            },
        ),
{
    match name {
        Some(name) => Reply::saying(join3("Restarting ", name.as_str(), "…")),
        None => Reply::saying("This file has no language server to restart.".to_owned()),
    }
}

/// What the status line says about the focused file's server, which calls
/// itself `label`.
pub fn lsp_label(label: &str) -> (text: String)
    ensures
        text@ == " "@ + label@ + " "@,
{
    join3(" ", label, " ")
}

} // verus!
