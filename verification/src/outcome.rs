//! What the editor wants its caller to do next.

use vstd::prelude::*;

verus! {

/// What the editor wants the caller to do next.
#[derive(Debug, Clone, Copy, PartialEq, Eq, Structural)]
pub enum Outcome {
    /// Carry on.
    Continue,
    /// Redraw and carry on.
    Redraw,
    /// Put the terminal back, stop, and re-enter on resume.
    Suspend,
    /// Shut down.
    Quit,
}

impl Outcome {
    /// How strong an outcome is: a quit beats a suspend, which beats a redraw.
    pub open spec fn strength(self) -> nat {
        match self {
            Outcome::Continue => 0,
            Outcome::Redraw => 1,
            Outcome::Suspend => 2,
            Outcome::Quit => 3,
        }
    }

    /// The stronger of two outcomes.
    pub open spec fn stronger(self, other: Self) -> Self {
        if self.strength() >= other.strength() {
            self
        } else {
            other
        }
    }

    /// The stronger of two outcomes, for when several events are handled
    /// before one frame: a quit anywhere in a burst wins, then a suspend, then
    /// a redraw.
    #[must_use]
    pub fn and(self, other: Self) -> (both: Self)
        ensures
            both == self.stronger(other),
    {
        match (self, other) {
            (Outcome::Quit, _) | (_, Outcome::Quit) => Outcome::Quit,
            (Outcome::Suspend, _) | (_, Outcome::Suspend) => Outcome::Suspend,
            (Outcome::Redraw, _) | (_, Outcome::Redraw) => Outcome::Redraw,
            _ => Outcome::Continue,
        }
    }

    /// A redraw where `changed`, and nothing otherwise.
    pub open spec fn spec_redraw_if(changed: bool) -> Self {
        if changed {
            Outcome::Redraw
        } else {
            Outcome::Continue
        }
    }

    /// A redraw where `changed`, and nothing otherwise.
    pub fn redraw_if(changed: bool) -> (outcome: Self)
        ensures
            outcome == Self::spec_redraw_if(changed),
    {
        if changed {
            Outcome::Redraw
        } else {
            Outcome::Continue
        }
    }
}

/// What a burst of events comes to: the strongest outcome among them.
pub open spec fn burst(outcomes: Seq<Outcome>) -> Outcome
    decreases outcomes.len(),
{
    if outcomes.len() == 0 {
        Outcome::Continue
    } else {
        burst(outcomes.drop_last()).stronger(outcomes.last())
    }
}

/// In whichever order and grouping outcomes are put together, the result is
/// the same; carrying on adds nothing, and saying a thing twice adds nothing.
pub proof fn outcomes_combine_in_any_order(a: Outcome, b: Outcome, c: Outcome)
    ensures
        a.stronger(b) == b.stronger(a),
        a.stronger(b).stronger(c) == a.stronger(b.stronger(c)),
        a.stronger(a) == a,
        a.stronger(Outcome::Continue) == a,
{
}

/// A burst of events quits exactly when one of them does, and otherwise
/// suspends exactly when one of them does, and so on down.
pub proof fn the_strongest_of_a_burst_wins(outcomes: Seq<Outcome>)
    ensures
        forall|i: int|
            0 <= i < outcomes.len() ==> (#[trigger] outcomes[i]).strength() <= burst(
                outcomes,
            ).strength(),
        outcomes.len() > 0 ==> outcomes.contains(burst(outcomes)),
    decreases outcomes.len(),
{
    if outcomes.len() > 0 {
        let rest = outcomes.drop_last();
        the_strongest_of_a_burst_wins(rest);
        assert forall|i: int| 0 <= i < outcomes.len() implies (
        #[trigger] outcomes[i]).strength() <= burst(outcomes).strength() by {
            if i < rest.len() {
                assert(rest[i] == outcomes[i]);
            }
        }
        assert(outcomes.last() == outcomes[outcomes.len() - 1]);
        if rest.len() > 0 {
            let k = choose|k: int| 0 <= k < rest.len() && rest[k] == burst(rest);
            assert(outcomes[k] == burst(rest));
        }
    }
}

/// Quitting is stronger than suspending, that than redrawing, and that than carrying
/// on.
pub proof fn quitting_is_strongest(other: Outcome)
    ensures
        Outcome::Quit.stronger(other) is Quit,
        !(other is Quit) ==> Outcome::Suspend.stronger(other) is Suspend,
        other is Redraw || other is Continue ==> Outcome::Redraw.stronger(other) is Redraw,
        Outcome::Continue.stronger(other) == other,
        Outcome::spec_redraw_if(true) is Redraw,
        Outcome::spec_redraw_if(false) is Continue,
{
}

} // verus!
