//! What a card says: paragraphs of runs of text.

use vstd::prelude::*;

use crate::diagnostics::Severity;
use crate::gutter::Change;
use crate::text::{decimal, decimal_of, join, join3};

verus! {

/// A run of text, and how it is drawn.
#[derive(Debug)]
pub enum Run {
    /// How serious a problem is, in its own colour.
    Severity(Severity),
    /// Something out of the way.
    Dim(String),
    /// Something to read.
    Text(String),
    /// How a change is marked, in its own colour.
    Change(Change),
    /// Lines that were taken out, drawn as the file is.
    Old(String),
    /// Text in a style of its own, by the number the style is kept under.
    Styled(String, usize),
}

/// A run of text as a value.
pub enum RunModel {
    /// How serious a problem is.
    Severity(Severity),
    /// Something out of the way.
    Dim(Seq<char>),
    /// Something to read.
    Text(Seq<char>),
    /// How a change is marked.
    Change(Change),
    /// Lines that were taken out.
    Old(Seq<char>),
    /// Text in a style of its own.
    Styled(Seq<char>, usize),
}

impl View for Run {
    type V = RunModel;

    open spec fn view(&self) -> RunModel {
        match *self {
            Run::Severity(severity) => RunModel::Severity(severity),
            Run::Dim(text) => RunModel::Dim(text@),
            Run::Text(text) => RunModel::Text(text@),
            Run::Change(change) => RunModel::Change(change),
            Run::Old(text) => RunModel::Old(text@),
            Run::Styled(text, style) => RunModel::Styled(text@, style),
        }
    }
}

/// A paragraph: its runs, one after another.
pub type Paragraph = Vec<Run>;

/// A paragraph as a value.
pub open spec fn runs(paragraph: Paragraph) -> Seq<RunModel> {
    Seq::new(paragraph@.len(), |i: int| paragraph@[i]@)
}

/// Paragraphs as values.
pub open spec fn paragraphs(body: Seq<Paragraph>) -> Seq<Seq<RunModel>> {
    Seq::new(body.len(), |i: int| runs(body[i]))
}

/// A paragraph of one run.
pub(crate) fn line_of(run: Run) -> (paragraph: Paragraph)
    ensures
        runs(paragraph) == seq![run@],
{
    let mut paragraph: Paragraph = Vec::new();
    paragraph.push(run);
    assert(runs(paragraph) =~= seq![run@]);
    paragraph
}

/// `body` with `paragraph` after it.
pub(crate) proof fn paragraphs_push(body: Seq<Paragraph>, paragraph: Paragraph)
    ensures
        paragraphs(body.push(paragraph)) == paragraphs(body).push(runs(paragraph)),
{
    assert(paragraphs(body.push(paragraph)) =~= paragraphs(body).push(runs(paragraph)));
}

/// How many there are of something: one, or how many.
pub open spec fn counted(count: nat, one: Seq<char>, many: Seq<char>) -> Seq<char> {
    if count == 1 {
        one
    } else {
        decimal_of(count) + many
    }
}

/// How many there are of something: `one`, or how many and then `many`.
pub(crate) fn count_words(count: usize, one: &str, many: &str) -> (words: String)
    ensures
        words@ == counted(count as nat, one@, many@),
{
    if count == 1 {
        one.to_owned()
    } else {
        join(decimal(count).as_str(), many)
    }
}

/// How lines from `first` to `last` are spoken of, counted from one.
pub open spec fn lines_named(first: nat, last: nat) -> Seq<char> {
    if first == last {
        "line "@ + decimal_of(first)
    } else {
        "lines "@ + decimal_of(first) + "–"@ + decimal_of(last)
    }
}

/// How lines from `first` to `last` are spoken of, counted from one.
pub fn name_lines(first: usize, last: usize) -> (words: String)
    ensures
        words@ == lines_named(first as nat, last as nat),
{
    if first == last {
        join("line ", decimal(first).as_str())
    } else {
        let mut words = join3("lines ", decimal(first).as_str(), "–");
        words.append(decimal(last).as_str());
        words
    }
}

/// One is said as one, and any other number in digits.
pub proof fn one_is_said_as_one(count: nat, one: Seq<char>, many: Seq<char>)
    ensures
        counted(1, one, many) == one,
        count != 1 ==> counted(count, one, many) == decimal_of(count) + many,
{
}

/// Lines are named from the first to the last, and one line as one.
pub proof fn lines_are_named_from_first_to_last(first: nat, last: nat)
    ensures
        lines_named(first, first) == "line "@ + decimal_of(first),
        first != last ==> lines_named(first, last) == "lines "@ + decimal_of(first) + "–"@
            + decimal_of(last),
{
}

} // verus!
