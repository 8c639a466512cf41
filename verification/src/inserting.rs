//! Putting a completion in: the edits that do it at every caret it belongs at,
//! and the tab-stops left behind.

use vstd::prelude::*;

use crate::completion::Completion;
use crate::edit::{models, Edit};
use crate::snippets::{left_alone, others, stop_places, tabstops, Placing};
use crate::spans::{is_plan, plan, Selection, Span};
use crate::stops::{place_in, selecting, Snippet, Tabstops};
use crate::text::join3;
use crate::unicode::views;

verus! {

/// The edits that put a completion in.
#[derive(Debug)]
pub struct Planned {
    /// The edits, in order, as one step.
    pub edits: Vec<Edit>,
    /// Where each copy starts once they have all gone in.
    pub bases: Vec<usize>,
    /// The carets it does not go in at, where they are then.
    pub others: Vec<Span>,
}

/// What goes in for each of `snippets`.
pub open spec fn texts_of(snippets: Seq<Snippet>) -> Seq<Seq<char>> {
    Seq::new(snippets.len(), |i: int| snippets[i].text@)
}

/// The edits that put `snippets` in as they were placed, one to a copy, with
/// `additional` where it touches none of them.
pub fn planned(
    selections: &Vec<Selection>,
    placing: &Placing,
    snippets: &Vec<Snippet>,
    additional: &Vec<Edit>,
) -> (planned: Planned)
    requires
        snippets@.len() == placing.spans@.len(),
    ensures
        is_plan(
            models(planned.edits@),
            planned.bases@,
            placing.spans@,
            texts_of(snippets@),
            models(additional@),
        ),
        planned.others@ == left_alone(
            selections@,
            placing.spans@,
            models(planned.edits@),
            selections@.len() as int,
        ),
{
    let mut texts: Vec<String> = Vec::new();
    let mut i: usize = 0;
    while i < snippets.len()
        invariant
            i <= snippets@.len(),
            views(texts@) =~= texts_of(snippets@).take(i as int),
        decreases snippets@.len() - i,
    {
        let ghost before = texts@;
        let text = snippets[i].text.clone();
        texts.push(text);
        assert(views(texts@) =~= views(before).push(text@));
        i = i + 1;
    }
    assert(views(texts@) =~= texts_of(snippets@));
    let (edits, bases) = plan(&placing.spans, &texts, additional);
    let others = others(selections, &placing.spans, &edits);
    Planned { edits, bases, others }
}

/// Whether `stops` are those of `snippets`, which start at `bases` in `doc`, a
/// text of `len` characters, `current` being the one edited.
pub open spec fn are_stops(
    stops: Tabstops,
    doc: usize,
    len: usize,
    snippets: Seq<Snippet>,
    bases: Seq<usize>,
    primary: usize,
    others: Vec<Span>,
    current: usize,
) -> bool {
    &&& stops.doc == doc
    &&& stops.len == len
    &&& stops.primary == primary
    &&& stops.others == others
    &&& stops.current == current
    &&& stops.model().len() == snippets[primary as int].stops@.len()
    &&& forall|i: int|
        0 <= i < stops.model().len() ==> #[trigger] stops.model()[i] == stop_places(
            snippets,
            bases,
            i,
            snippets.len() as int,
        )
}

impl Completion {
    /// A completion's edits have gone into `doc`, leaving a text of `len`
    /// characters: its tab-stops go live, and the first is selected, or, where
    /// it `has_stops` not, where it ends. The selections to make, and which of
    /// them is the primary.
    pub fn insert_completion(
        &mut self,
        doc: usize,
        len: usize,
        snippets: &Vec<Snippet>,
        planned: Planned,
        primary: usize,
        has_stops: bool,
    ) -> (picked: Option<(Vec<Selection>, usize)>)
        requires
            old(self).wf(),
            primary < snippets@.len(),
            planned.bases@.len() == snippets@.len(),
            snippets@[primary as int].stops@.len() > 0,
        ensures
            final(self).wf(),
            ({
                let last = snippets@[primary as int].stops@.len() - 1;
                let index = if has_stops {
                    0
                } else {
                    last
                };
                let stop = stop_places(
                    snippets@,
                    planned.bases@,
                    index,
                    snippets@.len() as int,
                );
                &&& index == last ==> *final(self) == (Completion {
                    stops: None,
                    ended: true,
                    ..*old(self)
                })
                &&& index != last ==> {
                    &&& *final(self) == (Completion { stops: final(self).stops, ..*old(self) })
                    &&& final(self).stops matches Some(stops) && are_stops(
                        stops,
                        doc,
                        len,
                        snippets@,
                        planned.bases@,
                        primary,
                        planned.others,
                        index as usize,
                    )
                }
                &&& match picked {
                    Some(picked) => {
                        &&& picked.0@ == selecting(stop, planned.others@)
                        &&& picked.1 == place_in(stop, primary, 0)
                        &&& picked.0@.len() > 0
                    },
                    None => selecting(stop, planned.others@).len() == 0,
                }
            }),
    {
        let last: usize = snippets[primary].stops.len() - 1;
        let index: usize = if has_stops {
            0
        } else {
            last
        };
        let stops = tabstops(doc, len, snippets, &planned.bases, primary, planned.others);
        self.stops = Some(stops);
        self.select_stop(index)
    }
}

/// What is said where the edits could not go in.
pub fn could_not_complete(error: &str) -> (said: String)
    ensures
        said@ == "Could not complete: "@ + error@ + "."@,
{
    join3("Could not complete: ", error, ".")
}

} // verus!
