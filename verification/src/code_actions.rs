//! Code actions: the quick fixes on a diagnostic's card, and everything a
//! server offers at the caret, in a chooser.
//!
//! A card about a diagnostic asks the server, as it opens, what would fix what
//! it is about. The card does not wait: the fixes join it as buttons when the
//! answer comes, if the card is still up and still about the same text. A card
//! that closes first cancels the question. The answer is kept as long as the
//! text has not changed. Two fixes fit beside the card's own buttons; when
//! there are more, a third button opens them all in the chooser.
//!
//! An action chosen after the text has changed is not made: its positions
//! describe text that is no longer there.
//!
//! In the gutter, once the caret has settled on a line, the server is asked
//! what it offers anywhere on that line. A line that was changed by an edit is
//! not asked about until the caret goes to another line or its diagnostics
//! change, so a burst of typing costs the server nothing.

use ropey::Rope;
use vstd::prelude::*;

use crate::card::Anchor;
use crate::diagnostics::Mark;
use crate::geometry::Rect;
use crate::gutter::held_time;
use crate::labels::{button_label, drawable, label_of, printable};
use crate::order::{is_ranking, picked, ranking, Key};
use crate::outcome::Outcome;
use crate::palette::{row_views, Entry, Pick, PickModel, Row, RowModel};
use crate::reply::{words, Reply};
use crate::rope::{
    a_place_is_within_its_line, char_at, char_to_line, end_of_line, len_chars, line_end, line_of,
    line_start, line_to_char, rope_text,
};
use crate::text::{chars_of, decimal, decimal_of, find_from, first_at, join, join3, string_of};
use crate::unicode::{column_counts, columns, grapheme_clusters, views};

verus! {

/// How many fixes the card shows as buttons before it offers the rest in the
/// chooser.
pub const MOST_ON_CARD: usize = 2;

/// How long a server has to carry out a command, in milliseconds. Long,
/// because it may be waiting on its own edit, which may be waiting on the
/// person in the preview.
pub const EXECUTE_TIMEOUT: u64 = 300_000;

/// How long the caret rests on a line before the gutter's question is asked,
/// in milliseconds.
pub const BULB_SETTLE: u64 = 300;

/// An action a server offered, as far as choosing it goes.
#[derive(Debug)]
pub struct Action {
    /// What it is called.
    pub title: String,
    /// What kind of action it is.
    pub kind: Option<String>,
    /// Why it cannot be chosen, when the server says it cannot.
    pub disabled: Option<String>,
    /// Whether the server prefers it.
    pub preferred: bool,
    /// How many diagnostics it names.
    pub diagnostics: usize,
    /// Whether it came with its edit.
    pub edit: bool,
    /// Whether it came with something to fill its edit in from.
    pub data: bool,
    /// Whether it names a command.
    pub command: bool,
}

/// `text` again.
fn same(text: &Option<String>) -> (copy: Option<String>)
    ensures
        copy == *text,
{
    match text {
        Some(text) => Some(text.clone()),
        None => None,
    }
}

impl Clone for Action {
    fn clone(&self) -> (copy: Self)
        ensures
            copy == *self,
    {
        Action {
            title: self.title.clone(),
            kind: same(&self.kind),
            disabled: same(&self.disabled),
            preferred: self.preferred,
            diagnostics: self.diagnostics,
            edit: self.edit,
            data: self.data,
            command: self.command,
        }
    }
}

/// What a server offered: a bare command, or an action.
#[derive(Debug)]
pub enum Form {
    /// A command, by what it is called.
    Command(String),
    /// An action.
    Action(Action),
}

impl Clone for Form {
    fn clone(&self) -> (copy: Self)
        ensures
            copy == *self,
    {
        match self {
            Form::Command(title) => Form::Command(title.clone()),
            Form::Action(action) => Form::Action(action.clone()),
        }
    }
}

/// One action on offer, and the text it was offered for.
#[derive(Debug)]
pub struct Offered {
    /// The document it is for.
    pub doc: usize,
    /// The version of the document it was worked out against.
    pub version: i32,
    /// The number it is found again by, for what only the server reads.
    pub which: u64,
    /// What it is.
    pub form: Form,
}

impl Clone for Offered {
    fn clone(&self) -> (copy: Self)
        ensures
            copy == *self,
    {
        Offered {
            doc: self.doc,
            version: self.version,
            which: self.which,
            form: self.form.clone(),
        }
    }
}

/// A copy of `offers`.
fn copied(offers: &Vec<Offered>) -> (copy: Vec<Offered>)
    ensures
        copy@ == offers@,
{
    let mut copy: Vec<Offered> = Vec::new();
    let mut i: usize = 0;
    while i < offers.len()
        invariant
            i <= offers@.len(),
            copy@ =~= offers@.take(i as int),
        decreases offers@.len() - i,
    {
        copy.push(offers[i].clone());
        i = i + 1;
    }
    assert(offers@.take(offers@.len() as int) =~= offers@);
    copy
}

/// The family a kind belongs to: what comes before its first full stop.
pub open spec fn family(kind: Seq<char>) -> Seq<char> {
    kind.take(first_at(kind, '.'))
}

fn family_of(kind: &str) -> (name: String)
    ensures
        name@ == family(kind@),
{
    let chars = chars_of(kind);
    assert(chars@.skip(0) =~= chars@);
    let at = find_from(&chars, '.', 0);
    let name = string_of(&chars, 0, at);
    assert(name@ =~= family(kind@));
    name
}

/// Whether a kind is a quick fix, or a kind of quick fix.
pub fn is_quickfix(kind: &str) -> (is: bool)
    ensures
        is == (family(kind@) == "quickfix"@),
{
    family_of(kind) == "quickfix".to_owned()
}

/// How a kind reads beside an action in the chooser.
pub open spec fn hint_of(kind: Option<Seq<char>>) -> Seq<char> {
    match kind {
        None => ""@,
        Some(kind) => if family(kind) == "quickfix"@ {
            "fix"@
        } else if family(kind) == "refactor"@ {
            "refactor"@
        } else if family(kind) == "source"@ {
            "source"@
        } else {
            ""@
        },
    }
}

/// How a kind reads beside an action in the chooser.
pub fn kind_hint(kind: &Option<String>) -> (hint: &'static str)
    ensures
        hint@ == hint_of(words(*kind)),
{
    let Some(kind) = kind else {
        return "";
    };
    let name = family_of(kind.as_str());
    if name == "quickfix".to_owned() {
        "fix"
    } else if name == "refactor".to_owned() {
        "refactor"
    } else if name == "source".to_owned() {
        "source"
    } else {
        ""
    }
}

impl Offered {
    /// What it is called.
    pub open spec fn called(self) -> Seq<char> {
        match self.form {
            Form::Command(title) => title@,
            Form::Action(action) => action.title@,
        }
    }

    /// What it is called.
    pub fn title(&self) -> (title: String)
        ensures
            title@ == self.called(),
    {
        match &self.form {
            Form::Command(title) => title.clone(),
            Form::Action(action) => action.title.clone(),
        }
    }

    /// What kind of action it is.
    pub open spec fn of_kind(self) -> Option<Seq<char>> {
        match self.form {
            Form::Command(_) => None,
            Form::Action(action) => words(action.kind),
        }
    }

    /// Why it cannot be chosen.
    pub open spec fn why_not(self) -> Option<Seq<char>> {
        match self.form {
            Form::Command(_) => None,
            Form::Action(action) => words(action.disabled),
        }
    }

    /// Why it cannot be chosen, when the server says it cannot.
    pub fn disabled(&self) -> (why: Option<String>)
        ensures
            words(why) == self.why_not(),
    {
        match &self.form {
            Form::Command(_) => None,
            Form::Action(action) => same(&action.disabled),
        }
    }

    /// Whether it fixes something.
    pub open spec fn fixes(self) -> bool {
        match self.form {
            Form::Command(_) => false,
            Form::Action(action) => match action.kind {
                Some(kind) => family(kind@) == "quickfix"@,
                None => action.diagnostics > 0,
            },
        }
    }

    /// Whether it fixes something: a quick fix, or an action with no kind that
    /// names the diagnostics it is for.
    pub fn is_fix(&self) -> (is: bool)
        ensures
            is == self.fixes(),
    {
        match &self.form {
            Form::Command(_) => false,
            Form::Action(action) => match &action.kind {
                Some(kind) => is_quickfix(kind.as_str()),
                None => action.diagnostics > 0,
            },
        }
    }

    /// Where it goes in a list.
    pub open spec fn place(self) -> usize {
        if !self.fixes() {
            2
        } else if self.form->Action_0.preferred {
            0
        } else {
            1
        }
    }

    /// Where it goes in a list: preferred fixes, fixes, then the rest.
    pub fn rank(&self) -> (rank: usize)
        ensures
            rank == self.place(),
    {
        let preferred = match &self.form {
            Form::Command(_) => false,
            Form::Action(action) => action.preferred,
        };
        if !self.is_fix() {
            2
        } else if preferred {
            0
        } else {
            1
        }
    }
}

/// What a server answered, as offers for `version` of `doc`.
pub open spec fn as_offers(doc: usize, version: i32, answer: Seq<(u64, Form)>) -> Seq<Offered> {
    Seq::new(
        answer.len(),
        |i: int| Offered { doc, version, which: answer[i].0, form: answer[i].1 },
    )
}

/// What offers are put in order by.
pub open spec fn offer_keys(offers: Seq<Offered>) -> Seq<Key> {
    Seq::new(offers.len(), |i: int| (offers[i].place(), 0usize, 0usize))
}

/// Whether `sorted` is `offers` in the order they are shown: preferred fixes,
/// fixes, then the rest, each in the server's order.
pub open spec fn in_order(sorted: Seq<Offered>, offers: Seq<Offered>) -> bool {
    exists|order: Seq<usize>| #[trigger]
        is_ranking(order, offer_keys(offers)) && sorted == picked(offers, order)
}

/// A server was asked about `version` of `doc` and answered, while the text is
/// at `current`: the actions it offered, in the order they are shown, or why
/// there are none.
pub fn offered(
    current: Option<i32>,
    doc: usize,
    version: i32,
    answer: Result<Vec<(u64, Form)>, String>,
) -> (result: Result<Vec<Offered>, String>)
    ensures
        match result {
            Ok(sorted) => {
                &&& current == Some(version)
                &&& answer is Ok
                &&& in_order(sorted@, as_offers(doc, version, answer->Ok_0@))
            },
            Err(why) => if current != Some(version) {
                why@ == "the file changed while the server was asked"@
            } else {
                answer == Err::<Vec<(u64, Form)>, String>(why)
            },
        },
{
    let same_text = match current {
        Some(current) => current == version,
        None => false,
    };
    if !same_text {
        return Err("the file changed while the server was asked".to_owned());
    }
    let answer = match answer {
        Ok(answer) => answer,
        Err(why) => return Err(why),
    };
    let ghost said = answer@;
    let mut all: Vec<Offered> = Vec::new();
    let mut keys: Vec<Key> = Vec::new();
    let mut i: usize = 0;
    while i < answer.len()
        invariant
            i <= answer@.len(),
            said == answer@,
            all@ =~= as_offers(doc, version, said).take(i as int),
            keys@ =~= offer_keys(all@),
        decreases answer@.len() - i,
    {
        let offer = Offered { doc, version, which: answer[i].0, form: answer[i].1.clone() };
        keys.push((offer.rank(), 0, 0));
        all.push(offer);
        i = i + 1;
    }
    assert(all@ =~= as_offers(doc, version, said));
    let order = ranking(&keys);
    let mut sorted: Vec<Offered> = Vec::new();
    let mut i: usize = 0;
    while i < order.len()
        invariant
            i <= order@.len(),
            forall|k: int| 0 <= k < order@.len() ==> (#[trigger] order@[k]) < all@.len(),
            sorted@ =~= picked(all@, order@).take(i as int),
        decreases order@.len() - i,
    {
        assert(order@[i as int] < all@.len());
        sorted.push(all[order[i]].clone());
        i = i + 1;
    }
    assert(sorted@ =~= picked(all@, order@));
    Ok(sorted)
}

/// Nothing that is not a fix comes before one that is, and no fix before one
/// the server prefers; and those that rank alike keep the server's order.
pub proof fn fixes_come_first(sorted: Seq<Offered>, offers: Seq<Offered>, i: int, j: int)
    requires
        in_order(sorted, offers),
        0 <= i < j < sorted.len(),
    ensures
        sorted[i].place() <= sorted[j].place(),
        sorted[j].fixes() ==> sorted[i].fixes(),
        sorted[i].place() == sorted[j].place() ==> exists|a: int, b: int|
            0 <= a < b < offers.len() && #[trigger] offers[a] == sorted[i] && #[trigger] offers[b]
                == sorted[j],
{
    let order = choose|order: Seq<usize>| #[trigger]
        is_ranking(order, offer_keys(offers)) && sorted == picked(offers, order);
    assert(crate::order::ranked(offer_keys(offers), order[i], order[j]));
    assert(order[i] < offers.len() && order[j] < offers.len());
    assert(sorted[i] == offers[order[i] as int]);
    assert(sorted[j] == offers[order[j] as int]);
}

// ── the question ────────────────────────────────────────────────────────────

/// Whether a mark touches chars `from` up to `to`.
pub open spec fn touching(mark: Mark, from: usize, to: usize) -> bool {
    mark.start <= to && from <= mark.end
}

/// A diagnostic a question is about, by its place, and where it is now.
#[derive(Debug, Clone, Copy, PartialEq, Eq, Structural)]
pub struct About {
    /// Which mark it is.
    pub index: usize,
    /// Where it starts.
    pub start: usize,
    /// Where it ends.
    pub end: usize,
}

/// A mark as a question gives it, in a text of `len` chars.
pub open spec fn about(mark: Mark, index: int, len: int) -> About {
    let end = if mark.end <= len {
        mark.end
    } else {
        len as usize
    };
    About {
        index: index as usize,
        start: if mark.start <= end {
            mark.start
        } else {
            end
        },
        end,
    }
}

/// The first `count` of `marks` that touch chars `from` up to `to`, as a
/// question gives them.
pub open spec fn abouts(marks: Seq<Mark>, from: usize, to: usize, len: int, count: int) -> Seq<About>
    decreases count,
{
    if count <= 0 {
        Seq::empty()
    } else if touching(marks[count - 1], from, to) {
        abouts(marks, from, to, len, count - 1).push(about(marks[count - 1], count - 1, len))
    } else {
        abouts(marks, from, to, len, count - 1)
    }
}

/// A question about chars `from` up to `to` names exactly the diagnostics that
/// share a position with it, each once and in order, where they are in the text.
pub proof fn a_question_names_what_it_touches(
    marks: Seq<Mark>,
    from: usize,
    to: usize,
    len: int,
    count: int,
)
    requires
        0 <= count <= marks.len() <= usize::MAX,
        from <= to,
        0 <= len <= usize::MAX,
        forall|i: int| 0 <= i < marks.len() ==> (#[trigger] marks[i]).start <= marks[i].end,
    ensures
        ({
            let named = abouts(marks, from, to, len, count);
            &&& forall|i: int|
                0 <= i < count ==> (is_named(named, i) <==> exists|p: int|
                    #[trigger] at_position(marks[i], p) && from <= p <= to)
            &&& forall|k: int|
                0 <= k < named.len() ==> (#[trigger] named[k]).index < count
            &&& forall|j: int, k: int|
                0 <= j < k < named.len() ==> (#[trigger] named[j]).index < (#[trigger] named[k]).index
            &&& forall|k: int|
                0 <= k < named.len() ==> {
                    let mark = marks[(#[trigger] named[k]).index as int];
                    &&& named[k].start <= named[k].end <= len
                    &&& mark.end <= len ==> named[k].start == mark.start && named[k].end == mark.end
                }
        }),
    decreases count,
{
    if count > 0 {
        a_question_names_what_it_touches(marks, from, to, len, count - 1);
        let before = abouts(marks, from, to, len, count - 1);
        let named = abouts(marks, from, to, len, count);
        let mark = marks[count - 1];
        let p = if mark.start <= from {
            from as int
        } else {
            mark.start as int
        };
        if mark.start <= to && from <= mark.end {
            assert(at_position(mark, p) && from <= p <= to);
            assert(named[before.len() as int].index == count - 1);
        }
        assert forall|i: int| 0 <= i < count implies (is_named(named, i) <==> exists|p: int|
            #[trigger] at_position(marks[i], p) && from <= p <= to) by {
            if is_named(named, i) {
                let k = choose|k: int| 0 <= k < named.len() && (#[trigger] named[k]).index == i;
                if k < before.len() {
                    assert(before[k] == named[k]);
                }
            }
            if i < count - 1 && is_named(before, i) {
                let k = choose|k: int| 0 <= k < before.len() && (#[trigger] before[k]).index == i;
                assert(named[k] == before[k]);
            }
        }
    }
}

/// Whether position `p` is in a mark or at either end of it.
pub open spec fn at_position(mark: Mark, p: int) -> bool {
    mark.start <= p <= mark.end
}

/// Whether `named` names mark `i`.
pub open spec fn is_named(named: Seq<About>, i: int) -> bool {
    exists|k: int| 0 <= k < named.len() && (#[trigger] named[k]).index == i
}

/// Whether `text` holds a carriage return.
pub open spec fn has_return(text: Seq<char>) -> bool {
    exists|i: int| 0 <= i < text.len() && #[trigger] text[i] == '\r'
}

fn holds_return(rope: &Rope) -> (holds: bool)
    ensures
        holds == has_return(rope_text(*rope)),
{
    let len: usize = len_chars(rope);
    let mut i: usize = 0;
    while i < len
        invariant
            i <= len == rope_text(*rope).len(),
            forall|k: int| 0 <= k < i ==> #[trigger] rope_text(*rope)[k] != '\r',
        decreases len - i,
    {
        if char_at(rope, i) == '\r' {
            return true;
        }
        i = i + 1;
    }
    false
}

/// The question for chars `from..to` of a text: which of its diagnostics touch
/// that range, and where they are now. `None` where the text holds a carriage
/// return: a lone one is a line break to the server and not here, so every
/// position after it would name the wrong place.
pub fn code_action_params(rope: &Rope, marks: &Vec<Mark>, from: usize, to: usize) -> (question:
    Option<Vec<About>>)
    ensures
        match question {
            None => has_return(rope_text(*rope)),
            Some(about) => !has_return(rope_text(*rope)) && about@ == abouts(
                marks@,
                from,
                to,
                rope_text(*rope).len() as int,
                marks@.len() as int,
            ),
        },
{
    if holds_return(rope) {
        return None;
    }
    let len: usize = len_chars(rope);
    let mut found: Vec<About> = Vec::new();
    let mut i: usize = 0;
    while i < marks.len()
        invariant
            i <= marks@.len(),
            len == rope_text(*rope).len(),
            found@ =~= abouts(marks@, from, to, len as int, i as int),
        decreases marks@.len() - i,
    {
        let mark = &marks[i];
        if mark.start <= to && from <= mark.end {
            let end: usize = if mark.end <= len {
                mark.end
            } else {
                len
            };
            let start: usize = if mark.start <= end {
                mark.start
            } else {
                end
            };
            found.push(About { index: i, start, end });
        }
        i = i + 1;
    }
    Some(found)
}

/// How many of the first `count` of `marks` touch chars `from` up to `to`.
pub open spec fn touching_count(marks: Seq<Mark>, from: usize, to: usize, count: int) -> nat
    decreases count,
{
    if count <= 0 {
        0
    } else {
        touching_count(marks, from, to, count - 1) + if touching(marks[count - 1], from, to) {
            1nat
        } else {
            0nat
        }
    }
}

// ── what is kept ────────────────────────────────────────────────────────────

/// The line the gutter's question is about, as it stood.
#[derive(Debug, Clone, Copy, PartialEq, Eq, Structural)]
pub struct BulbPlace {
    /// Which document.
    pub doc: usize,
    /// Which line.
    pub line: usize,
    /// The version of the document.
    pub version: i32,
    /// How many diagnostics touch it: a server's fixes are for those, so when
    /// they change the answer may too.
    pub diagnostics: usize,
}

/// Where the question about a line has got to.
#[derive(Debug)]
pub enum BulbState {
    /// Changed by an edit: nothing asked until the caret goes to another line
    /// or the line's diagnostics change.
    Quiet,
    /// Waiting until this for the caret to rest.
    Settling(u64),
    /// Asked.
    Asking(u64),
    /// What the server offers on the line.
    Answered(Vec<Offered>),
}

/// The caret's line, and what has been asked or said about it.
#[derive(Debug)]
pub struct Bulb {
    /// The line.
    pub place: BulbPlace,
    /// How far the question has got.
    pub state: BulbState,
}

/// Whether one of `offers` can be chosen.
pub open spec fn any_choosable(offers: Seq<Offered>) -> bool {
    exists|i: int| 0 <= i < offers.len() && (#[trigger] offers[i]).why_not() is None
}

fn choosable(offers: &Vec<Offered>) -> (any: bool)
    ensures
        any == any_choosable(offers@),
{
    let mut i: usize = 0;
    while i < offers.len()
        invariant
            i <= offers@.len(),
            forall|k: int| 0 <= k < i ==> (#[trigger] offers@[k]).why_not() is Some,
        decreases offers@.len() - i,
    {
        if offers[i].disabled().is_none() {
            assert(offers@[i as int].why_not() is None);
            return true;
        }
        i = i + 1;
    }
    false
}

impl Bulb {
    /// Whether the server offered something on the line that can be chosen.
    pub open spec fn is_lit(self) -> bool {
        self.state matches BulbState::Answered(offers) && any_choosable(offers@)
    }

    /// The question it is waiting on.
    pub open spec fn asking(self) -> Option<u64> {
        match self.state {
            BulbState::Asking(id) => Some(id),
            _ => None,
        }
    }

    /// Whether the server offered something on the line that can be chosen.
    pub fn lit(&self) -> (lit: bool)
        ensures
            lit == self.is_lit(),
    {
        match &self.state {
            BulbState::Answered(offers) => choosable(offers),
            _ => false,
        }
    }
}

/// A command a server is carrying out.
#[derive(Debug)]
pub struct Executing {
    /// The question it was asked by.
    pub id: u64,
    /// What it is called.
    pub title: String,
    /// The document it was chosen in.
    pub doc: usize,
    /// The version it was chosen at.
    pub version: Option<i32>,
}

/// What the servers have offered, and what has been asked of them.
#[derive(Debug)]
pub struct CodeActions {
    /// The question asked for the card, and what the card is about.
    pub card_asked: Option<(u64, Anchor)>,
    /// The fixes for the last card: what it was about, and them.
    pub card: Option<(Anchor, Vec<Offered>)>,
    /// The question asked for the chooser.
    pub chooser_asked: Option<u64>,
    /// What the chooser offers, while it is open.
    pub chosen: Vec<Offered>,
    /// An action whose edit has been asked for, as it was before.
    pub resolving: Option<(u64, Offered)>,
    /// Commands a server is carrying out.
    pub executing: Vec<Executing>,
    /// Whether not to mark the caret's line when it has actions.
    pub lightbulb_off: bool,
    /// The caret's line, and what has been asked or said about it.
    pub bulb: Option<Bulb>,
}

/// Whose question a server answered.
#[derive(Debug)]
pub enum AnswerTo {
    /// The card's, which was about this.
    Card(Anchor),
    /// The chooser's.
    Chooser,
    /// An action's edit: what was offered in the first place.
    Resolve(Offered),
    /// The gutter's.
    Bulb,
    /// A command, by what it is called.
    Command(String),
    /// Nobody's.
    Nobody,
}

/// Where the command that question `id` asked for is, from the `from`th on.
pub open spec fn running(executing: Seq<Executing>, id: u64, from: int) -> Option<int>
    decreases executing.len() - from,
{
    if from < 0 || from >= executing.len() {
        None
    } else if executing[from].id == id {
        Some(from)
    } else {
        running(executing, id, from + 1)
    }
}

/// What asking what would fix a card's diagnostic comes to.
#[derive(Debug, Clone, Copy, PartialEq, Eq, Structural)]
pub enum FixesTask {
    /// Nothing: there is no question to ask.
    Nothing,
    /// What was offered already is to go on the card.
    Show,
    /// Ask about these chars of this document.
    Ask {
        /// Which document.
        doc: usize,
        /// From here.
        from: usize,
        /// To here.
        to: usize,
    },
}

/// What a press on one of a card's fixes does.
#[derive(Debug)]
pub enum CardFix {
    /// Nothing.
    Nothing,
    /// Make this one.
    Choose(Offered),
    /// Show all of them in the chooser.
    All(Vec<Offered>),
}

/// What carrying out an action that was chosen takes.
#[derive(Debug)]
pub enum Choice {
    /// It is not made, and this is why.
    Say(String),
    /// It is a command, for the server to carry out.
    Execute,
    /// Its edit is to be asked for.
    Resolve,
    /// It is made as it is.
    CarryOut,
}

/// What making an action takes.
#[derive(Debug)]
pub enum Carry {
    /// It is not made, and this is why.
    Say(String),
    /// It has no edit: its command is to be run.
    Execute,
    /// Its edit is to be made, and then its command run where `then`.
    Edit {
        /// What it is called.
        title: String,
        /// Whether it names a command.
        then_command: bool,
    },
}

/// What a server filling an action in comes to.
#[derive(Debug)]
pub enum Resolution {
    /// Nothing.
    Nothing,
    /// It is not made, and this is why.
    Say(String),
    /// What the server filled in is to be made.
    Filled,
    /// What it offered in the first place is to be made.
    AsOffered,
}

/// What the chooser says, and its rows.
#[derive(Debug)]
pub enum ChooserAnswer {
    /// There is nothing to choose from, and this is why.
    Say(String),
    /// The chooser is to open on these.
    Offer(String, Vec<Row>),
}

/// What the gutter does when the caret has rested.
#[derive(Debug, Clone, Copy, PartialEq, Eq, Structural)]
pub enum BulbTask {
    /// Nothing yet.
    Wait,
    /// The line is not there any more; nothing is asked.
    Drop,
    /// Ask what is offered on this line.
    Ask(usize),
}

/// A row of the chooser.
pub open spec fn chooser_row(offer: Offered, index: int) -> RowModel {
    RowModel {
        label: drawable(offer.called()),
        matched: Seq::empty(),
        hint: match offer.why_not() {
            Some(why) => why,
            None => hint_of(offer.of_kind()),
        },
        pick: match offer.why_not() {
            Some(_) => PickModel::Nothing,
            None => PickModel::Action(index as usize),
        },
    }
}

/// The rows of the chooser.
pub open spec fn chooser_rows(offers: Seq<Offered>) -> Seq<RowModel> {
    Seq::new(offers.len(), |i: int| chooser_row(offers[i], i))
}

/// What the chooser is headed by.
pub open spec fn chooser_title(count: nat) -> Seq<char> {
    (if count == 1 {
        "1 code action"@
    } else {
        decimal_of(count) + " code actions"@
    }) + " — pick one"@
}

fn rows_of(offers: &Vec<Offered>) -> (rows: Vec<Row>)
    ensures
        row_views(rows@) == chooser_rows(offers@),
{
    let mut rows: Vec<Row> = Vec::new();
    let mut i: usize = 0;
    while i < offers.len()
        invariant
            i <= offers@.len(),
            row_views(rows@) =~= chooser_rows(offers@).take(i as int),
        decreases offers@.len() - i,
    {
        let offer = &offers[i];
        let label = printable(offer.title().as_str());
        let kind: Option<String> = match &offer.form {
            Form::Command(_) => None,
            Form::Action(action) => same(&action.kind),
        };
        let row = match offer.disabled() {
            Some(why) => Row {
                entry: Entry { label, matched: Vec::new(), hint: why },
                pick: Pick::Nothing,
            },
            None => Row {
                entry: Entry { label, matched: Vec::new(), hint: kind_hint(&kind).to_owned() },
                pick: Pick::Action(i),
            },
        };
        let ghost before = rows@;
        rows.push(row);
        proof {
            assert(row@.matched =~= Seq::empty());
            assert(row_views(rows@) =~= row_views(before).push(row@));
            assert(chooser_rows(offers@).take(i + 1) =~= chooser_rows(offers@).take(i as int).push(
                chooser_row(offers@[i as int], i as int),
            ));
        }
        i = i + 1;
    }
    assert(chooser_rows(offers@).take(offers@.len() as int) =~= chooser_rows(offers@));
    rows
}

/// The label of a fix's button.
pub open spec fn fix_label(title: Seq<char>, ellipsis: Seq<char>) -> Seq<char> {
    let clusters = grapheme_clusters(drawable(title));
    label_of(clusters, column_counts(clusters), ellipsis, columns(ellipsis))
}

/// How many of `count` fixes have a button of their own.
pub open spec fn on_card(count: nat) -> nat {
    if count < MOST_ON_CARD {
        count
    } else {
        MOST_ON_CARD as nat
    }
}

/// The labels of the buttons for `offers`: the first few by name, then how
/// many more there are.
pub open spec fn fix_labels(offers: Seq<Offered>, ellipsis: Seq<char>) -> Seq<Seq<char>> {
    let named = Seq::new(
        on_card(offers.len()),
        |i: int| fix_label(offers[i].called(), ellipsis),
    );
    if offers.len() > MOST_ON_CARD {
        named.push(decimal_of((offers.len() - MOST_ON_CARD) as nat) + " more…"@)
    } else {
        named
    }
}

/// Those of the first `count` of `offers` a card shows: fixes that can be
/// chosen.
pub open spec fn card_fixes(offers: Seq<Offered>, count: int) -> Seq<Offered>
    decreases count,
{
    if count <= 0 {
        Seq::empty()
    } else if offers[count - 1].fixes() && offers[count - 1].why_not() is None {
        card_fixes(offers, count - 1).push(offers[count - 1])
    } else {
        card_fixes(offers, count - 1)
    }
}

impl CodeActions {
    /// Nothing offered, and nothing asked.
    pub fn new() -> (actions: Self)
        ensures
            actions.card_asked is None,
            actions.card is None,
            actions.chooser_asked is None,
            actions.chosen@.len() == 0,
            actions.resolving is None,
            actions.executing@.len() == 0,
            !actions.lightbulb_off,
            actions.bulb is None,
    {
        CodeActions {
            card_asked: None,
            card: None,
            chooser_asked: None,
            chosen: Vec::new(),
            resolving: None,
            executing: Vec::new(),
            lightbulb_off: false,
            bulb: None,
        }
    }

    /// Whether question `id` is for the card.
    pub open spec fn for_card(self, id: u64) -> bool {
        self.card_asked matches Some(asked) && asked.0 == id
    }

    /// Whether question `id` is an action's edit.
    pub open spec fn for_resolve(self, id: u64) -> bool {
        self.resolving matches Some(asked) && asked.0 == id
    }

    /// Whether question `id` is the gutter's.
    pub open spec fn for_bulb(self, id: u64) -> bool {
        self.bulb matches Some(bulb) && bulb.asking() == Some(id)
    }

    /// Whether `id` is a question of code actions'.
    pub fn owns(&self, id: u64) -> (owns: bool)
        ensures
            owns == (self.for_card(id) || self.chooser_asked == Some(id) || self.for_resolve(id)
                || self.for_bulb(id) || running(self.executing@, id, 0) is Some),
    {
        let card = match &self.card_asked {
            Some(asked) => asked.0 == id,
            None => false,
        };
        let chooser = match self.chooser_asked {
            Some(asked) => asked == id,
            None => false,
        };
        let resolve = match &self.resolving {
            Some(asked) => asked.0 == id,
            None => false,
        };
        let gutter = match &self.bulb {
            Some(bulb) => match bulb.state {
                BulbState::Asking(asked) => asked == id,
                _ => false,
            },
            None => false,
        };
        card || chooser || resolve || gutter || self.running_at(id).is_some()
    }

    fn running_at(&self, id: u64) -> (at: Option<usize>)
        ensures
            match at {
                Some(at) => at < self.executing@.len() && running(self.executing@, id, 0) == Some(
                    at as int,
                ),
                None => running(self.executing@, id, 0) is None,
            },
    {
        let mut i: usize = 0;
        while i < self.executing.len()
            invariant
                i <= self.executing@.len(),
                running(self.executing@, id, 0) == running(self.executing@, id, i as int),
            decreases self.executing@.len() - i,
        {
            if self.executing[i].id == id {
                return Some(i);
            }
            i = i + 1;
        }
        None
    }

    // ── on the card ─────────────────────────────────────────────────────────

    /// The question to take back when the card goes.
    pub open spec fn card_question(self) -> Option<u64> {
        match self.card_asked {
            Some(asked) => Some(asked.0),
            None => None,
        }
    }

    /// The card has gone: its question is no longer worth an answer, and is to
    /// be taken back.
    pub fn forget_card_fixes(&mut self) -> (cancel: Option<u64>)
        ensures
            cancel == old(self).card_question(),
            *final(self) == (CodeActions { card_asked: None, ..*old(self) }),
    {
        match self.card_asked.take() {
            Some(asked) => Some(asked.0),
            None => None,
        }
    }

    /// Whether the fixes kept are for `anchor`, as the text is at `version`.
    pub open spec fn keeps(self, anchor: Anchor, version: Option<i32>) -> bool {
        self.card matches Some(card) && card.0 == anchor && card.1@.len() > 0 && Some(
            card.1@[0].version,
        ) == version
    }

    /// A diagnostic's card about `anchor` has just opened, its text being at
    /// `version`; `offers` is whether its server offers code actions. What to
    /// ask, or show, and the question to take back.
    pub fn ask_fixes(&mut self, anchor: Option<Anchor>, version: Option<i32>, offers: bool) -> (task:
        (FixesTask, Option<u64>))
        ensures
            match anchor {
                Some(Anchor::Text { pane, doc, from, to }) => if old(
                    self,
                ).card_asked matches Some(asked) && asked.1 == anchor->0 {
                    task == (FixesTask::Nothing, None::<u64>) && *final(self) == *old(self)
                } else {
                    &&& *final(self) == (CodeActions { card_asked: None, ..*old(self) })
                    &&& task.1 == old(self).card_question()
                    &&& task.0 == if old(self).keeps(anchor->0, version) {
                        FixesTask::Show
                    } else if offers {
                        FixesTask::Ask { doc, from, to }
                    } else {
                        FixesTask::Nothing
                    }
                },
                _ => task == (FixesTask::Nothing, None::<u64>) && *final(self) == *old(self),
            },
    {
        let Some(anchor) = anchor else {
            return (FixesTask::Nothing, None);
        };
        let (doc, from, to) = match anchor {
            Anchor::Text { pane: _, doc, from, to } => (doc, from, to),
            Anchor::Screen(_) => return (FixesTask::Nothing, None),
        };
        if let Some(asked) = &self.card_asked {
            if asked.1 == anchor {
                return (FixesTask::Nothing, None);
            }
        }
        let cancel = self.forget_card_fixes();
        let kept = match &self.card {
            Some(card) => card.0 == anchor && card.1.len() > 0 && match version {
                Some(version) => card.1[0].version == version,
                None => false,
            },
            None => false,
        };
        if kept {
            return (FixesTask::Show, cancel);
        }
        if offers {
            (FixesTask::Ask { doc, from, to }, cancel)
        } else {
            (FixesTask::Nothing, cancel)
        }
    }

    /// The card's question about `anchor` was sent as `id`.
    pub fn fixes_asked(&mut self, id: u64, anchor: Anchor)
        ensures
            *final(self) == (CodeActions { card_asked: Some((id, anchor)), ..*old(self) }),
    {
        self.card_asked = Some((id, anchor));
    }

    /// The labels of the fixes offered for `anchor`, for the card about it.
    /// `None` where there are none.
    pub fn show_fixes(&self, anchor: Anchor, ellipsis: &str) -> (labels: Option<Vec<String>>)
        ensures
            match labels {
                Some(labels) => self.card matches Some(card) && card.0 == anchor && card.1@.len()
                    > 0 && views(labels@) == fix_labels(card.1@, ellipsis@),
                None => !(self.card matches Some(card) && card.0 == anchor && card.1@.len() > 0),
            },
    {
        let Some(card) = &self.card else {
            return None;
        };
        let offers = &card.1;
        if card.0 != anchor || offers.len() == 0 {
            return None;
        }
        let shown: usize = if offers.len() < MOST_ON_CARD {
            offers.len()
        } else {
            MOST_ON_CARD
        };
        let ghost named = Seq::new(
            on_card(offers@.len()),
            |i: int| fix_label(offers@[i].called(), ellipsis@),
        );
        let mut labels: Vec<String> = Vec::new();
        let mut i: usize = 0;
        while i < shown
            invariant
                i <= shown <= offers@.len(),
                named.len() == shown,
                forall|k: int|
                    0 <= k < shown ==> #[trigger] named[k] == fix_label(
                        offers@[k].called(),
                        ellipsis@,
                    ),
                views(labels@) =~= named.take(i as int),
            decreases shown - i,
        {
            let label = button_label(offers[i].title().as_str(), ellipsis);
            let ghost before = labels@;
            labels.push(label);
            proof {
                assert(views(labels@) =~= views(before).push(label@));
                assert(named.take(i + 1) =~= named.take(i as int).push(named[i as int]));
            }
            i = i + 1;
        }
        assert(named.take(shown as int) =~= named);
        if offers.len() > MOST_ON_CARD {
            let more = join(decimal(offers.len() - MOST_ON_CARD).as_str(), " more…");
            let ghost before = labels@;
            labels.push(more);
            assert(views(labels@) =~= views(before).push(more@));
        }
        Some(labels)
    }

    /// A fix button on the card was pressed: the fix, or, past the ones shown,
    /// all of them in the chooser.
    pub fn card_fix(&self, index: usize) -> (fix: CardFix)
        ensures
            match self.card {
                None => fix is Nothing,
                Some(card) => if index < on_card(card.1@.len()) {
                    fix == CardFix::Choose(card.1@[index as int])
                } else {
                    fix matches CardFix::All(all) && all@ == card.1@
                },
            },
    {
        let Some(card) = &self.card else {
            return CardFix::Nothing;
        };
        if index < MOST_ON_CARD && index < card.1.len() {
            return CardFix::Choose(card.1[index].clone());
        }
        CardFix::All(copied(&card.1))
    }

    /// The server answered the card's question about `anchor`: the fixes it
    /// offered are kept, those that can be chosen.
    pub fn card_answered(&mut self, anchor: Anchor, offered: Result<Vec<Offered>, String>)
        -> (outcome: Outcome)
        ensures
            match offered {
                Err(_) => outcome == Outcome::Continue && *final(self) == *old(self),
                Ok(offered) => {
                    &&& outcome == Outcome::Redraw
                    &&& *final(self) == (CodeActions { card: final(self).card, ..*old(self) })
                    &&& final(self).card matches Some(card) && card.0 == anchor && card.1@
                        == card_fixes(offered@, offered@.len() as int)
                },
            },
    {
        let Ok(offered) = offered else {
            return Outcome::Continue;
        };
        let mut fixes: Vec<Offered> = Vec::new();
        let mut i: usize = 0;
        while i < offered.len()
            invariant
                i <= offered@.len(),
                fixes@ =~= card_fixes(offered@, i as int),
            decreases offered@.len() - i,
        {
            if offered[i].is_fix() && offered[i].disabled().is_none() {
                fixes.push(offered[i].clone());
            }
            i = i + 1;
        }
        self.card = Some((anchor, fixes));
        Outcome::Redraw
    }

    // ── in the chooser ──────────────────────────────────────────────────────

    /// Why every code action here cannot be asked for, where it cannot:
    /// `known` is whether the file's server has said what it can do, and
    /// `offers` whether that includes code actions.
    pub fn code_actions_here(known: bool, offers: bool) -> (why: Option<String>)
        ensures
            words(why) == if offers {
                None
            } else if known {
                Some("This file's language server offers no code actions."@)
            } else {
                Some("No code actions: this file's language server is not ready."@)
            },
    {
        if offers {
            None
        } else if known {
            Some("This file's language server offers no code actions.".to_owned())
        } else {
            Some("No code actions: this file's language server is not ready.".to_owned())
        }
    }

    /// The chooser's question was sent, or could not be. Any question before
    /// it is taken back.
    pub fn chooser_sent(&mut self, sent: Result<u64, String>) -> (reply: Reply)
        ensures
            reply.outcome == Outcome::Redraw,
            reply.cancel@ == match old(self).chooser_asked {
                Some(id) => seq![id],
                None => Seq::empty(),
            },
            *final(self) == (CodeActions {
                chooser_asked: match sent {
                    Ok(id) => Some(id),
                    Err(_) => None,
                },
                ..*old(self)
            }),
            reply.says() == Some(
                match sent {
                    Ok(_) => "Asking for code actions…"@,
                    Err(why) => "No code actions: "@ + why@ + "."@,
                },
            ),
    {
        let before = self.chooser_asked.take();
        let mut reply = match sent {
            Ok(id) => {
                self.chooser_asked = Some(id);
                Reply::saying("Asking for code actions…".to_owned())
            },
            Err(why) => Reply::saying(join3("No code actions: ", why.as_str(), ".")),
        };
        if let Some(id) = before {
            reply.cancel.push(id);
        }
        reply
    }

    /// Open the chooser on `offers`: what it is headed by, and its rows.
    pub fn offer_in_chooser(&mut self, offers: Vec<Offered>) -> (chooser: (String, Vec<Row>))
        ensures
            *final(self) == (CodeActions { chosen: offers, ..*old(self) }),
            chooser.0@ == chooser_title(offers@.len()),
            row_views(chooser.1@) == chooser_rows(offers@),
    {
        let rows = rows_of(&offers);
        let count: usize = offers.len();
        self.chosen = offers;
        let what = if count == 1 {
            "1 code action".to_owned()
        } else {
            join(decimal(count).as_str(), " code actions")
        };
        (join(what.as_str(), " — pick one"), rows)
    }

    /// Row `index` of the chooser was picked: the action it is.
    pub fn pick_code_action(&mut self, index: usize) -> (offer: Option<Offered>)
        ensures
            final(self).chosen@.len() == 0,
            *final(self) == (CodeActions { chosen: final(self).chosen, ..*old(self) }),
            offer == if index < old(self).chosen@.len() {
                Some(old(self).chosen@[index as int])
            } else {
                None
            },
    {
        let mut chosen: Vec<Offered> = Vec::new();
        std::mem::swap(&mut chosen, &mut self.chosen);
        if index < chosen.len() {
            Some(chosen[index].clone())
        } else {
            None
        }
    }

    /// The server answered the chooser's question.
    pub fn chooser_answered(&mut self, offered: Result<Vec<Offered>, String>) -> (answer:
        ChooserAnswer)
        ensures
            match offered {
                Err(why) => *final(self) == *old(self) && (answer matches ChooserAnswer::Say(said)
                    && said@ == "No code actions: "@ + why@ + ". Try again."@),
                Ok(offered) => if offered@.len() == 0 {
                    *final(self) == *old(self) && (answer matches ChooserAnswer::Say(said) && said@
                        == "No code actions here."@)
                } else {
                    &&& *final(self) == (CodeActions { chosen: offered, ..*old(self) })
                    &&& answer matches ChooserAnswer::Offer(title, rows) && title@
                        == chooser_title(offered@.len()) && row_views(rows@) == chooser_rows(
                        offered@,
                    )
                },
            },
    {
        match offered {
            Err(why) => ChooserAnswer::Say(
                join3("No code actions: ", why.as_str(), ". Try again."),
            ),
            Ok(offered) => {
                if offered.len() == 0 {
                    return ChooserAnswer::Say("No code actions here.".to_owned());
                }
                let (title, rows) = self.offer_in_chooser(offered);
                ChooserAnswer::Offer(title, rows)
            },
        }
    }

    // ── the answers ─────────────────────────────────────────────────────────

    /// A server answered question `id`: whose it was, which is then no longer
    /// waiting, but for the gutter's, which its answer settles.
    pub fn code_action_answer(&mut self, id: u64) -> (to: AnswerTo)
        ensures
            ({
                let at = running(old(self).executing@, id, 0);
                if old(self).for_card(id) {
                    &&& to == AnswerTo::Card((old(self).card_asked->0).1)
                    &&& *final(self) == (CodeActions { card_asked: None, ..*old(self) })
                } else if old(self).chooser_asked == Some(id) {
                    &&& to is Chooser
                    &&& *final(self) == (CodeActions { chooser_asked: None, ..*old(self) })
                } else if old(self).for_resolve(id) {
                    &&& to == AnswerTo::Resolve((old(self).resolving->0).1)
                    &&& *final(self) == (CodeActions { resolving: None, ..*old(self) })
                } else if old(self).for_bulb(id) {
                    to is Bulb && *final(self) == *old(self)
                } else if at is Some {
                    &&& to == AnswerTo::Command(old(self).executing@[at->0].title)
                    &&& final(self).executing@ == old(self).executing@.remove(at->0)
                    &&& *final(self) == (CodeActions {
                        executing: final(self).executing,
                        ..*old(self)
                    })
                } else {
                    to is Nobody && *final(self) == *old(self)
                }
            }),
    {
        if let Some(asked) = self.card_asked {
            if asked.0 == id {
                self.card_asked = None;
                return AnswerTo::Card(asked.1);
            }
        }
        if let Some(asked) = self.chooser_asked {
            if asked == id {
                self.chooser_asked = None;
                return AnswerTo::Chooser;
            }
        }
        if let Some(asked) = self.resolving.take() {
            if asked.0 == id {
                return AnswerTo::Resolve(asked.1);
            }
            self.resolving = Some(asked);
        }
        let gutter = match &self.bulb {
            Some(bulb) => match bulb.state {
                BulbState::Asking(asked) => asked == id,
                _ => false,
            },
            None => false,
        };
        if gutter {
            return AnswerTo::Bulb;
        }
        match self.running_at(id) {
            Some(at) => {
                let done = self.executing.remove(at);
                AnswerTo::Command(done.title)
            },
            None => AnswerTo::Nobody,
        }
    }

    /// What to say of the command called `title`, once the server has carried
    /// it out or has not.
    pub fn executed(title: &str, result: Result<(), String>) -> (reply: Reply)
        ensures
            reply.cancel@.len() == 0,
            match result {
                Ok(()) => reply.outcome == Outcome::Continue && reply.says() is None,
                Err(why) => reply.outcome == Outcome::Redraw && reply.says() == Some(
                    "“"@ + title@ + "” did not work: "@ + why@ + "."@,
                ),
            },
    {
        match result {
            Ok(()) => Reply::just(Outcome::Continue),
            Err(why) => {
                let mut said = join3("“", title, "” did not work: ");
                said.append(why.as_str());
                said.append(".");
                Reply::saying(said)
            },
        }
    }

    // ── in the gutter ───────────────────────────────────────────────────────

    /// The gutter's question to take back.
    pub open spec fn bulb_question(self) -> Option<u64> {
        match self.bulb {
            Some(bulb) => bulb.asking(),
            None => None,
        }
    }

    /// Stop waiting on the caret's line. The question to take back if it has
    /// been asked.
    pub fn forget_bulb(&mut self) -> (cancel: Option<u64>)
        ensures
            cancel == old(self).bulb_question(),
            *final(self) == (CodeActions { bulb: None, ..*old(self) }),
    {
        match self.bulb.take() {
            Some(bulb) => match bulb.state {
                BulbState::Asking(id) => Some(id),
                _ => None,
            },
            None => None,
        }
    }

    /// Mark the caret's line when it has code actions, or not. The question to
    /// take back.
    pub fn set_lightbulb(&mut self, on: bool) -> (cancel: Option<u64>)
        ensures
            on ==> cancel is None && *final(self) == (CodeActions {
                lightbulb_off: false,
                ..*old(self)
            }),
            !on ==> cancel == old(self).bulb_question() && *final(self) == (CodeActions {
                lightbulb_off: true,
                bulb: None,
                ..*old(self)
            }),
    {
        self.lightbulb_off = !on;
        if on {
            None
        } else {
            self.forget_bulb()
        }
    }

    /// The line the caret at `head` is on in `doc`, as it stands, if its server
    /// can be asked about it: `offers` is whether that offers code actions, and
    /// `version` the version it has been sent.
    pub fn caret_line(
        &self,
        doc: usize,
        offers: bool,
        version: Option<i32>,
        rope: &Rope,
        head: usize,
        marks: &Vec<Mark>,
    ) -> (place: Option<BulbPlace>)
        requires
            head <= rope_text(*rope).len(),
        ensures
            place == if self.lightbulb_off || !offers || version is None {
                None
            } else {
                let text = rope_text(*rope);
                let line = line_of(text, head as int) as int;
                Some(
                    BulbPlace {
                        doc,
                        line: line as usize,
                        version: version->0,
                        diagnostics: touching_count(
                            marks@,
                            line_start(text, line) as usize,
                            line_end(text, line) as usize,
                            marks@.len() as int,
                        ) as usize,
                    },
                )
            },
    {
        if self.lightbulb_off || !offers {
            return None;
        }
        let Some(version) = version else {
            return None;
        };
        let line: usize = char_to_line(rope, head);
        proof {
            a_place_is_within_its_line(rope_text(*rope), head as int);
        }
        let from: usize = line_to_char(rope, line);
        let to: usize = end_of_line(rope, line);
        let mut diagnostics: usize = 0;
        let mut i: usize = 0;
        while i < marks.len()
            invariant
                i <= marks@.len(),
                diagnostics <= i,
                diagnostics == touching_count(marks@, from, to, i as int),
            decreases marks@.len() - i,
        {
            if marks[i].start <= to && from <= marks[i].end {
                diagnostics = diagnostics + 1;
            }
            i = i + 1;
        }
        Some(BulbPlace { doc, line, version, diagnostics })
    }

    /// The line the gutter's question is about.
    pub open spec fn bulb_place(self) -> Option<BulbPlace> {
        match self.bulb {
            Some(bulb) => Some(bulb.place),
            None => None,
        }
    }

    /// What is kept of the line the caret is on once it is on another, or the
    /// line has changed.
    pub open spec fn bulb_after(self, place: Option<BulbPlace>, now: u64) -> Option<Bulb> {
        match place {
            None => None,
            Some(place) => Some(
                Bulb {
                    place,
                    state: if self.bulb_place() matches Some(was) && was.doc == place.doc
                        && was.version != place.version {
                        BulbState::Quiet
                    } else {
                        BulbState::Settling(held_time(now + BULB_SETTLE) as u64)
                    },
                },
            ),
        }
    }

    /// After anything that happened, at `now`, the caret being on `place`: if
    /// it is on another line, or its line changed, what was said about the old
    /// one no longer holds. Moved or newly diagnosed, the line is asked about
    /// once the caret has rested; edited, it is not asked about at all.
    pub fn bulb_follow(&mut self, place: Option<BulbPlace>, now: u64) -> (reply: Reply)
        ensures
            reply.says() is None,
            *final(self) == (CodeActions { bulb: final(self).bulb, ..*old(self) }),
            if place == old(self).bulb_place() {
                &&& reply.outcome == Outcome::Continue
                &&& reply.cancel@.len() == 0
                &&& *final(self) == *old(self)
            } else {
                &&& reply.outcome == Outcome::spec_redraw_if(
                    old(self).bulb matches Some(bulb) && bulb.is_lit(),
                )
                &&& reply.cancel@ == match old(self).bulb_question() {
                    Some(id) => seq![id],
                    None => Seq::empty(),
                }
                &&& final(self).bulb == old(self).bulb_after(place, now)
            },
    {
        let was: Option<BulbPlace> = match &self.bulb {
            Some(bulb) => Some(bulb.place),
            None => None,
        };
        let still = match (place, was) {
            (Some(place), Some(was)) => place == was,
            (None, None) => true,
            _ => false,
        };
        if still {
            return Reply::just(Outcome::Continue);
        }
        let shown = match &self.bulb {
            Some(bulb) => bulb.lit(),
            None => false,
        };
        let cancel = self.forget_bulb();
        if let Some(place) = place {
            let edited = match was {
                Some(was) => was.doc == place.doc && was.version != place.version,
                None => false,
            };
            let state = if edited {
                BulbState::Quiet
            } else {
                BulbState::Settling(now.saturating_add(BULB_SETTLE))
            };
            self.bulb = Some(Bulb { place, state });
        }
        let mut reply = Reply::just(Outcome::redraw_if(shown));
        if let Some(id) = cancel {
            reply.cancel.push(id);
        }
        reply
    }

    /// When the caret will have rested.
    pub open spec fn bulb_due(self) -> Option<u64> {
        match self.bulb {
            Some(bulb) => match bulb.state {
                BulbState::Settling(due) => Some(due),
                _ => None,
            },
            None => None,
        }
    }

    /// When the caret will have rested, if it is resting.
    pub fn bulb_deadline(&self) -> (due: Option<u64>)
        ensures
            due == self.bulb_due(),
    {
        match &self.bulb {
            Some(bulb) => match bulb.state {
                BulbState::Settling(due) => Some(due),
                _ => None,
            },
            None => None,
        }
    }

    /// What to do at `now`: once the caret has rested, ask what the server
    /// offers on its line, unless the focused document is another than `doc`
    /// or the line is past its `lines`.
    pub fn bulb_tick(&mut self, now: u64, doc: usize, lines: usize) -> (task: BulbTask)
        ensures
            ({
                let due = old(self).bulb_due();
                if due is None || now < due->0 {
                    task == BulbTask::Wait && *final(self) == *old(self)
                } else {
                    let place = old(self).bulb->0.place;
                    if place.doc != doc || place.line >= lines {
                        task == BulbTask::Drop && *final(self) == (CodeActions {
                            bulb: None,
                            ..*old(self)
                        })
                    } else {
                        task == BulbTask::Ask(place.line) && *final(self) == *old(self)
                    }
                }
            }),
    {
        let Some(due) = self.bulb_deadline() else {
            return BulbTask::Wait;
        };
        if now < due {
            return BulbTask::Wait;
        }
        let place: BulbPlace = match &self.bulb {
            Some(bulb) => bulb.place,
            None => return BulbTask::Wait,
        };
        if place.doc != doc || place.line >= lines {
            self.bulb = None;
            return BulbTask::Drop;
        }
        BulbTask::Ask(place.line)
    }

    /// The gutter's question was sent as `asked`, or could not be, which is an
    /// answer with nothing in it.
    pub fn bulb_asked(&mut self, asked: Option<u64>)
        ensures
            *final(self) == (CodeActions { bulb: final(self).bulb, ..*old(self) }),
            match old(self).bulb {
                None => final(self).bulb is None,
                Some(bulb) => final(self).bulb matches Some(after) && after.place == bulb.place
                    && match asked {
                    Some(id) => after.state == BulbState::Asking(id),
                    None => after.state matches BulbState::Answered(offers) && offers@.len() == 0,
                },
            },
    {
        if let Some(mut bulb) = self.bulb.take() {
            bulb.state = match asked {
                Some(id) => BulbState::Asking(id),
                None => BulbState::Answered(Vec::new()),
            };
            self.bulb = Some(bulb);
        }
    }

    /// Whether the gutter's line is still the caret's, as it was when it was
    /// asked about, and anything there can be chosen.
    pub open spec fn bulb_shows(self, doc: usize, line: usize, version: Option<i32>) -> bool {
        self.bulb matches Some(bulb) && bulb.is_lit() && bulb.place.doc == doc && bulb.place.line
            == line && version == Some(bulb.place.version)
    }

    /// The line to mark as having code actions in the focused document, which
    /// is `doc` at `version` with the caret on line `line`.
    pub fn lightbulb_line(&self, doc: usize, line: usize, version: Option<i32>) -> (mark: Option<
        usize,
    >)
        ensures
            mark == if self.bulb_shows(doc, line, version) {
                Some(line)
            } else {
                None
            },
    {
        let Some(bulb) = &self.bulb else {
            return None;
        };
        let Some(version) = version else {
            return None;
        };
        if bulb.lit() && bulb.place.doc == doc && bulb.place.line == line && bulb.place.version
            == version {
            Some(line)
        } else {
            None
        }
    }

    /// The server answered the gutter's question.
    pub fn bulb_answered(
        &mut self,
        offered: Result<Vec<Offered>, String>,
        doc: usize,
        line: usize,
        version: Option<i32>,
    ) -> (outcome: Outcome)
        ensures
            *final(self) == (CodeActions { bulb: final(self).bulb, ..*old(self) }),
            match old(self).bulb {
                None => final(self).bulb is None && outcome == Outcome::Continue,
                Some(bulb) => {
                    &&& final(self).bulb matches Some(after) && after.place == bulb.place && (
                    after.state matches BulbState::Answered(said) && match offered {
                        Ok(offered) => said == offered,
                        Err(_) => said@.len() == 0,
                    })
                    &&& outcome == Outcome::spec_redraw_if(
                        final(self).bulb_shows(doc, line, version),
                    )
                },
            },
    {
        let Some(mut bulb) = self.bulb.take() else {
            return Outcome::Continue;
        };
        bulb.state = BulbState::Answered(
            match offered {
                Ok(offered) => offered,
                Err(_) => Vec::new(),
            },
        );
        self.bulb = Some(bulb);
        Outcome::redraw_if(self.lightbulb_line(doc, line, version).is_some())
    }

    /// The mark was clicked: what it stands for, for the chooser. `None` where
    /// it no longer stands for anything, and the server is to be asked.
    pub fn lightbulb_click(&self, doc: usize, line: usize, version: Option<i32>) -> (offers: Option<
        Vec<Offered>,
    >)
        ensures
            match offers {
                Some(offers) => self.bulb_shows(doc, line, version) && (
                self.bulb->0.state matches BulbState::Answered(said) && offers@ == said@),
                None => !self.bulb_shows(doc, line, version),
            },
    {
        if self.lightbulb_line(doc, line, version).is_none() {
            return None;
        }
        match &self.bulb {
            Some(bulb) => match &bulb.state {
                BulbState::Answered(said) => Some(copied(said)),
                _ => None,
            },
            None => None,
        }
    }

    // ── carrying one out ────────────────────────────────────────────────────

    /// What carrying out `offer` takes, now that its document is at `current`
    /// and its server, where it offers actions, fills their edits in or not.
    pub fn carrying_out(offer: &Offered, current: Option<i32>, resolves: bool) -> (choice: Choice)
        ensures
            if current != Some(offer.version) {
                choice matches Choice::Say(said) && said@ == "Did not apply “"@ + offer.called()
                    + "”: the file has changed since it was offered. Ask again."@
            } else if offer.why_not() is Some {
                choice matches Choice::Say(said) && said@ == "“"@ + offer.called()
                    + "” cannot be applied: "@ + offer.why_not()->0 + "."@
            } else {
                match offer.form {
                    Form::Command(_) => choice is Execute,
                    Form::Action(action) => if !action.edit && action.data && resolves {
                        choice is Resolve
                    } else {
                        choice is CarryOut
                    },
                }
            },
    {
        let same_text = match current {
            Some(current) => current == offer.version,
            None => false,
        };
        if !same_text {
            return Choice::Say(
                join3(
                    "Did not apply “",
                    offer.title().as_str(),
                    "”: the file has changed since it was offered. Ask again.",
                ),
            );
        }
        if let Some(why) = offer.disabled() {
            let mut said = join3("“", offer.title().as_str(), "” cannot be applied: ");
            said.append(why.as_str());
            said.append(".");
            return Choice::Say(said);
        }
        match &offer.form {
            Form::Command(_) => Choice::Execute,
            Form::Action(action) => if !action.edit && action.data && resolves {
                Choice::Resolve
            } else {
                Choice::CarryOut
            },
        }
    }

    /// The server was asked to fill in the edit of `offer`, or could not be.
    /// Any action being filled in before it is given up.
    pub fn resolve(&mut self, offer: Offered, sent: Result<u64, String>) -> (reply: Reply)
        ensures
            reply.outcome == Outcome::Redraw,
            reply.cancel@ == match old(self).resolving {
                Some(asked) => seq![asked.0],
                None => Seq::empty(),
            },
            *final(self) == (CodeActions {
                resolving: match sent {
                    Ok(id) => Some((id, offer)),
                    Err(_) => None,
                },
                ..*old(self)
            }),
            reply.says() == Some(
                match sent {
                    Ok(_) => "Working out “"@ + offer.called() + "”…"@,
                    Err(why) => "Did not apply “"@ + offer.called() + "”: "@ + why@ + "."@,
                },
            ),
    {
        let before: Option<u64> = match self.resolving.take() {
            Some(asked) => Some(asked.0),
            None => None,
        };
        let title = offer.title();
        let mut reply = match sent {
            Ok(id) => {
                self.resolving = Some((id, offer));
                Reply::saying(join3("Working out “", title.as_str(), "”…"))
            },
            Err(why) => {
                let mut said = join3("Did not apply “", title.as_str(), "”: ");
                said.append(why.as_str());
                said.append(".");
                Reply::saying(said)
            },
        };
        if let Some(id) = before {
            reply.cancel.push(id);
        }
        reply
    }

    /// The server filled `offer` in, `answered` being the version of the text
    /// it did so for, or could not, in which case what it offered in the first
    /// place is all there is to go on.
    pub fn action_resolved(
        offer: &Offered,
        current: Option<i32>,
        answered: i32,
        result: Result<(), String>,
    ) -> (resolution: Resolution)
        ensures
            match offer.form {
                Form::Command(_) => resolution is Nothing,
                Form::Action(action) => if current != Some(offer.version) || answered
                    != offer.version {
                    resolution matches Resolution::Say(said) && said@ == "Did not apply “"@
                        + action.title@
                        + "”: the file changed while it was worked out. Ask again."@
                } else {
                    match result {
                        Ok(()) => resolution is Filled,
                        Err(why) => if action.command {
                            resolution is AsOffered
                        } else {
                            resolution matches Resolution::Say(said) && said@
                                == "Did not apply “"@ + action.title@ + "”: "@ + why@ + "."@
                        },
                    }
                },
            },
    {
        let action = match &offer.form {
            Form::Command(_) => return Resolution::Nothing,
            Form::Action(action) => action,
        };
        let same_text = match current {
            Some(current) => current == offer.version && answered == offer.version,
            None => false,
        };
        if !same_text {
            return Resolution::Say(
                join3(
                    "Did not apply “",
                    action.title.as_str(),
                    "”: the file changed while it was worked out. Ask again.",
                ),
            );
        }
        match result {
            Ok(()) => Resolution::Filled,
            Err(why) => {
                if action.command {
                    return Resolution::AsOffered;
                }
                let mut said = join3("Did not apply “", action.title.as_str(), "”: ");
                said.append(why.as_str());
                said.append(".");
                Resolution::Say(said)
            },
        }
    }

    /// What making `action` takes: its edit, then its command. `followed` is
    /// whether the language server is still there to say what units its edit
    /// counts in.
    pub fn carry_out(action: &Action, followed: bool) -> (carry: Carry)
        ensures
            if !action.edit {
                if action.command {
                    carry is Execute
                } else {
                    carry matches Carry::Say(said) && said@ == "“"@ + action.title@
                        + "” has nothing to do."@
                }
            } else if !followed {
                carry matches Carry::Say(said) && said@ == "Did not apply “"@ + action.title@
                    + "”: the language server stopped."@
            } else {
                carry == (Carry::Edit { title: action.title, then_command: action.command })
            },
    {
        if !action.edit {
            if action.command {
                return Carry::Execute;
            }
            return Carry::Say(join3("“", action.title.as_str(), "” has nothing to do."));
        }
        if !followed {
            return Carry::Say(
                join3(
                    "Did not apply “",
                    action.title.as_str(),
                    "”: the language server stopped.",
                ),
            );
        }
        Carry::Edit { title: action.title.clone(), then_command: action.command }
    }

    /// The server of `doc`, which is at `version`, was asked to carry out the
    /// command called `title`, or could not be. What there is to say.
    pub fn execute_command(
        &mut self,
        doc: usize,
        title: String,
        version: Option<i32>,
        sent: Result<u64, String>,
    ) -> (said: Option<String>)
        ensures
            match sent {
                Ok(id) => {
                    &&& said is None
                    &&& final(self).executing@ == old(self).executing@.push(
                        Executing { id, title, doc, version },
                    )
                    &&& *final(self) == (CodeActions {
                        executing: final(self).executing,
                        ..*old(self)
                    })
                },
                Err(why) => *final(self) == *old(self) && words(said) == Some(
                    "Could not run “"@ + title@ + "”: "@ + why@ + "."@,
                ),
            },
    {
        match sent {
            Ok(id) => {
                self.executing.push(Executing { id, title, doc, version });
                None
            },
            Err(why) => {
                let mut said = join3("Could not run “", title.as_str(), "”: ");
                said.append(why.as_str());
                said.append(".");
                Some(said)
            },
        }
    }

    /// The command last run.
    pub open spec fn last_run(self) -> Option<Executing> {
        if self.executing@.len() == 0 {
            None
        } else {
            Some(self.executing@.last())
        }
    }

    /// The document of the command last run, whose version now decides whether
    /// an edit goes straight in.
    pub fn last_doc(&self) -> (doc: Option<usize>)
        ensures
            doc == match self.last_run() {
                Some(run) => Some(run.doc),
                None => None,
            },
    {
        if self.executing.len() == 0 {
            None
        } else {
            Some(self.executing[self.executing.len() - 1].doc)
        }
    }

    /// A server asked for an edit to be made, labelled `label` if at all: what
    /// it is called, and whether it goes straight in. It does only while it is
    /// plainly the edit of a command the person just chose, in text that has
    /// not changed since: `now` is the version of that command's document.
    pub fn server_edit(&self, label: Option<String>, now: Option<i32>) -> (edit: (String, bool))
        ensures
            edit.1 == (self.last_run() matches Some(run) && run.version is Some && now
                == run.version),
            edit.0@ == match label {
                Some(label) => label@,
                None => match self.last_run() {
                    Some(run) => run.title@,
                    None => "the language server's edit"@,
                },
            },
    {
        if self.executing.len() == 0 {
            return (
                match label {
                    Some(label) => label,
                    None => "the language server's edit".to_owned(),
                },
                false,
            );
        }
        let run = &self.executing[self.executing.len() - 1];
        let straight = match (run.version, now) {
            (Some(then), Some(now)) => then == now,
            _ => false,
        };
        let title = match label {
            Some(label) => label,
            None => run.title.clone(),
        };
        (title, straight)
    }
}

/// The first of `lines` that is `line`, from the `from`th on.
pub open spec fn shown_at(lines: Seq<usize>, line: usize, from: int) -> Option<int>
    decreases lines.len() - from,
{
    if from < 0 || from >= lines.len() {
        None
    } else if lines[from] == line {
        Some(from)
    } else {
        shown_at(lines, line, from + 1)
    }
}

/// The row of `text`, the focused pane's text area, that the mark for `line`
/// is on, `lines` being the lines its rows show from the top.
pub fn lightbulb_row(line: usize, lines: &Vec<usize>, text: Rect) -> (row: Option<u16>)
    requires
        text.on_screen(),
        lines@.len() <= text.height,
    ensures
        row == match shown_at(lines@, line, 0) {
            Some(at) => Some((text.y + at) as u16),
            None => None,
        },
{
    let mut i: usize = 0;
    while i < lines.len()
        invariant
            i <= lines@.len() <= text.height,
            text.on_screen(),
            shown_at(lines@, line, 0) == shown_at(lines@, line, i as int),
        decreases lines@.len() - i,
    {
        if lines[i] == line {
            return Some(text.y + i as u16);
        }
        i = i + 1;
    }
    None
}

/// Every fix a card shows fixes something and can be chosen, and was offered.
pub proof fn a_card_shows_fixes_that_can_be_chosen(offers: Seq<Offered>, count: int)
    requires
        0 <= count <= offers.len(),
    ensures
        forall|i: int|
            0 <= i < card_fixes(offers, count).len() ==> {
                let fix = #[trigger] card_fixes(offers, count)[i];
                fix.fixes() && fix.why_not() is None && offers.contains(fix)
            },
    decreases count,
{
    if count > 0 {
        a_card_shows_fixes_that_can_be_chosen(offers, count - 1);
        assert forall|i: int| 0 <= i < card_fixes(offers, count).len() implies {
            let fix = #[trigger] card_fixes(offers, count)[i];
            fix.fixes() && fix.why_not() is None && offers.contains(fix)
        } by {
            let before = card_fixes(offers, count - 1);
            if i < before.len() {
                assert(card_fixes(offers, count)[i] == before[i]);
            } else {
                assert(card_fixes(offers, count)[i] == offers[count - 1]);
            }
        }
    }
}

/// A burst of typing costs the server nothing: on a line that was edited,
/// nothing is due, however long the caret rests; on one it was moved to,
/// something is.
pub proof fn an_edited_line_is_not_asked_about(before: CodeActions, place: BulbPlace, now: u64)
    ensures
        ({
            let after = CodeActions { bulb: before.bulb_after(Some(place), now), ..before };
            let edited = before.bulb_place() matches Some(was) && was.doc == place.doc
                && was.version != place.version;
            &&& edited ==> after.bulb_due() is None && !after.bulb->0.is_lit()
            &&& !edited ==> after.bulb_due() == Some(held_time(now + BULB_SETTLE) as u64)
        }),
{
}

/// Whether `kind` is `word` or one of its kinds: `word`, then a dot and more.
pub open spec fn is_one_of(kind: Seq<char>, word: Seq<char>) -> bool {
    kind == word || (kind.len() > word.len() && kind.take(word.len() as int) == word
        && kind[word.len() as int] == '.')
}

proof fn family_is(kind: Seq<char>, word: Seq<char>)
    requires
        forall|i: int| 0 <= i < word.len() ==> #[trigger] word[i] != '.',
    ensures
        family(kind) == word <==> is_one_of(kind, word),
{
    crate::text::first_at_is_first(kind, '.');
    let at = first_at(kind, '.');
    if is_one_of(kind, word) {
        if at < word.len() && at < kind.len() {
            assert(kind[at] == word[at]);
        }
        assert(at == word.len());
        assert(kind.take(at) =~= word);
    }
    if family(kind) == word && at == kind.len() {
        assert(kind.take(at) =~= kind);
    }
}

/// A fix is an action of the kind `quickfix`, or of a kind under it, or one of no
/// kind that names what it puts right; a command never is. What is shown beside an
/// action is what its kind is, or is under.
pub proof fn an_action_is_what_its_kind_says(offer: Offered, action: Action)
    requires
        offer.form == Form::Action(action),
    ensures
        action.kind matches Some(kind) ==> {
            &&& offer.fixes() <==> is_one_of(kind@, "quickfix"@)
            &&& hint_of(Some(kind@)) == "fix"@ <==> is_one_of(kind@, "quickfix"@)
            &&& hint_of(Some(kind@)) == "refactor"@ <==> is_one_of(kind@, "refactor"@)
            &&& hint_of(Some(kind@)) == "source"@ <==> is_one_of(kind@, "source"@)
            &&& !is_one_of(kind@, "quickfix"@) && !is_one_of(kind@, "refactor"@) && !is_one_of(
                kind@,
                "source"@,
            ) ==> hint_of(Some(kind@)) == ""@
        },
        action.kind is None ==> (offer.fixes() <==> action.diagnostics > 0),
        hint_of(None) == ""@,
{
    reveal_strlit("quickfix");
    reveal_strlit("refactor");
    reveal_strlit("source");
    reveal_strlit("fix");
    reveal_strlit("");
    assert("quickfix"@[0] == 'q' && "refactor"@[0] == 'r' && "source"@[0] == 's');
    assert("fix"@[0] == 'f');
    assert("fix"@.len() == 3 && "refactor"@.len() == 8 && "source"@.len() == 6 && ""@.len() == 0
        && "quickfix"@.len() == 8);
    if let Some(kind) = action.kind {
        family_is(kind@, "quickfix"@);
        family_is(kind@, "refactor"@);
        family_is(kind@, "source"@);
    }
}

/// What is offered comes in three runs, each in the server's order: the fixes it
/// prefers, then the other fixes, then everything else; and nothing is left out.
pub proof fn offers_come_preferred_fixes_first(
    sorted: Seq<Offered>,
    offers: Seq<Offered>,
) -> (from: Seq<usize>)
    requires
        in_order(sorted, offers),
        offers.len() <= usize::MAX,
    ensures
        from.len() == sorted.len() == offers.len(),
        from.no_duplicates(),
        forall|i: int|
            0 <= i < from.len() ==> (#[trigger] from[i]) < offers.len() && sorted[i]
                == offers[from[i] as int],
        forall|i: int, j: int|
            0 <= i < j < sorted.len() && (#[trigger] sorted[j]).fixes() ==> (
            #[trigger] sorted[i]).fixes() && (sorted[j].form->Action_0.preferred
                ==> sorted[i].form->Action_0.preferred),
        forall|i: int, j: int|
            0 <= i < j < sorted.len() && (#[trigger] sorted[j]).fixes() == (
            #[trigger] sorted[i]).fixes() && (sorted[j].fixes() ==> sorted[j].form->Action_0.preferred
                == sorted[i].form->Action_0.preferred) ==> from[i] < from[j],
{
    let keys = offer_keys(offers);
    let order = choose|order: Seq<usize>| #[trigger]
        is_ranking(order, keys) && sorted == picked(offers, order);
    crate::order::a_ranking_is_everything_once(order, keys);
    assert forall|i: int| 0 <= i < order.len() implies (#[trigger] order[i]) < offers.len()
        && sorted[i] == offers[order[i] as int] by {
        assert(order[i] < keys.len());
    }
    assert forall|i: int, j: int| 0 <= i < j < sorted.len() && (#[trigger] sorted[j]).fixes() implies (
    #[trigger] sorted[i]).fixes() && (sorted[j].form->Action_0.preferred
        ==> sorted[i].form->Action_0.preferred) by {
        assert(crate::order::ranked(keys, order[i], order[j]));
        assert(order[i] < keys.len() && order[j] < keys.len());
    }
    assert forall|i: int, j: int|
        0 <= i < j < sorted.len() && (#[trigger] sorted[j]).fixes() == (
        #[trigger] sorted[i]).fixes() && (sorted[j].fixes() ==> sorted[j].form->Action_0.preferred
            == sorted[i].form->Action_0.preferred) implies order[i] < order[j] by {
        assert(crate::order::ranked(keys, order[i], order[j]));
        assert(order[i] < keys.len() && order[j] < keys.len());
    }
    order
}

/// Every fix offered that can be chosen is on the card: each keeps its place among
/// the others there.
pub proof fn a_card_leaves_out_no_fix(offers: Seq<Offered>, count: int, at: int)
    requires
        0 <= at < count <= offers.len(),
        offers[at].fixes(),
        offers[at].why_not() is None,
    ensures
        ({
            let earlier = card_fixes(offers, at).len() as int;
            &&& earlier < card_fixes(offers, count).len()
            &&& card_fixes(offers, count)[earlier] == offers[at]
        }),
    decreases count,
{
    if at < count - 1 {
        a_card_leaves_out_no_fix(offers, count - 1, at);
    }
}

/// A line's count of diagnostics is how many a question about it would name.
pub proof fn a_line_s_count_is_what_it_would_name(
    marks: Seq<Mark>,
    from: usize,
    to: usize,
    len: int,
    count: int,
)
    requires
        0 <= count <= marks.len(),
    ensures
        touching_count(marks, from, to, count) == abouts(marks, from, to, len, count).len(),
    decreases count,
{
    if count > 0 {
        a_line_s_count_is_what_it_would_name(marks, from, to, len, count - 1);
    }
}

/// The command an answer is to is the first still running that was asked by its
/// number.
pub proof fn an_answer_finds_its_command(executing: Seq<Executing>, id: u64)
    ensures
        match running(executing, id, 0) {
            Some(at) => {
                &&& 0 <= at < executing.len()
                &&& executing[at].id == id
                &&& forall|i: int| 0 <= i < at ==> (#[trigger] executing[i]).id != id
            },
            None => forall|i: int| 0 <= i < executing.len() ==> (#[trigger] executing[i]).id != id,
        },
{
    running_from(executing, id, 0);
}

proof fn running_from(executing: Seq<Executing>, id: u64, from: int)
    requires
        0 <= from <= executing.len(),
        forall|i: int| 0 <= i < from ==> (#[trigger] executing[i]).id != id,
    ensures
        match running(executing, id, from) {
            Some(at) => {
                &&& from <= at < executing.len()
                &&& executing[at].id == id
                &&& forall|i: int| 0 <= i < at ==> (#[trigger] executing[i]).id != id
            },
            None => forall|i: int| 0 <= i < executing.len() ==> (#[trigger] executing[i]).id != id,
        },
    decreases executing.len() - from,
{
    if from < executing.len() && executing[from].id != id {
        running_from(executing, id, from + 1);
    }
}

/// The bulb is beside the first row that shows its line, and nowhere where none
/// does.
pub proof fn the_bulb_is_beside_its_line(lines: Seq<usize>, line: usize)
    ensures
        match shown_at(lines, line, 0) {
            Some(at) => {
                &&& 0 <= at < lines.len()
                &&& lines[at] == line
                &&& forall|i: int| 0 <= i < at ==> #[trigger] lines[i] != line
            },
            None => forall|i: int| 0 <= i < lines.len() ==> #[trigger] lines[i] != line,
        },
{
    shown_from(lines, line, 0);
}

proof fn shown_from(lines: Seq<usize>, line: usize, from: int)
    requires
        0 <= from <= lines.len(),
        forall|i: int| 0 <= i < from ==> #[trigger] lines[i] != line,
    ensures
        match shown_at(lines, line, from) {
            Some(at) => {
                &&& from <= at < lines.len()
                &&& lines[at] == line
                &&& forall|i: int| 0 <= i < at ==> #[trigger] lines[i] != line
            },
            None => forall|i: int| 0 <= i < lines.len() ==> #[trigger] lines[i] != line,
        },
    decreases lines.len() - from,
{
    if from < lines.len() && lines[from] != line {
        shown_from(lines, line, from + 1);
    }
}

/// A row of the chooser picks what it shows, unless the server says it cannot be
/// chosen: then it picks nothing and says why.
pub proof fn what_cannot_be_chosen_says_why(offers: Seq<Offered>, at: int)
    requires
        0 <= at < offers.len() <= usize::MAX,
    ensures
        chooser_rows(offers).len() == offers.len(),
        ({
            let row = chooser_rows(offers)[at];
            match offers[at].form {
                Form::Command(title) => row.pick == PickModel::Action(at as usize) && row.label
                    == drawable(title@) && row.hint == ""@,
                Form::Action(action) => {
                    &&& row.label == drawable(action.title@)
                    &&& match action.disabled {
                        Some(why) => row.pick is Nothing && row.hint == why@,
                        None => row.pick == PickModel::Action(at as usize),
                    }
                },
            }
        }),
{
}

/// A card names no more than it has room for, and says how many it leaves out: what
/// it names and what it leaves out are all there are.
pub proof fn a_card_names_some_and_counts_the_rest(offers: Seq<Offered>, ellipsis: Seq<char>)
    ensures
        ({
            let labels = fix_labels(offers, ellipsis);
            &&& offers.len() <= MOST_ON_CARD ==> labels.len() == offers.len()
            &&& offers.len() > MOST_ON_CARD ==> labels.len() == MOST_ON_CARD + 1 && labels.last()
                == decimal_of((offers.len() - MOST_ON_CARD) as nat) + " more…"@
            &&& forall|i: int|
                0 <= i < offers.len() && i < MOST_ON_CARD ==> #[trigger] labels[i] == fix_label(
                    offers[i].called(),
                    ellipsis,
                )
        }),
{
}

/// The bulb is lit where the server offers something that can be chosen, and shows
/// only on the line asked about, in the version asked about.
pub proof fn the_bulb_says_there_is_something_to_choose(
    actions: CodeActions,
    doc: usize,
    line: usize,
    version: i32,
)
    ensures
        actions.bulb_shows(doc, line, Some(version)) <==> {
            &&& actions.bulb matches Some(bulb)
            &&& bulb.place.doc == doc && bulb.place.line == line && bulb.place.version == version
            &&& bulb.state matches BulbState::Answered(offers)
            &&& exists|i: int|
                0 <= i < offers@.len() && match (#[trigger] offers@[i]).form {
                    Form::Command(_) => true,
                    Form::Action(action) => action.disabled is None,
                }
        },
        !actions.bulb_shows(doc, line, None),
{
    if let Some(bulb) = actions.bulb {
        if let BulbState::Answered(offers) = bulb.state {
            if exists|i: int|
                0 <= i < offers@.len() && match (#[trigger] offers@[i]).form {
                    Form::Command(_) => true,
                    Form::Action(action) => action.disabled is None,
                } {
                let i = choose|i: int|
                    0 <= i < offers@.len() && match (#[trigger] offers@[i]).form {
                        Form::Command(_) => true,
                        Form::Action(action) => action.disabled is None,
                    };
                assert(offers@[i].why_not() is None);
            }
        }
    }
}

/// What a server answers is offered as it answered it, in order, for the document and
/// the version asked about.
pub proof fn each_answer_is_an_offer(
    doc: usize,
    version: i32,
    answer: Seq<(u64, Form)>,
    at: int,
)
    requires
        0 <= at < answer.len(),
    ensures
        as_offers(doc, version, answer).len() == answer.len(),
        ({
            let offer = as_offers(doc, version, answer)[at];
            &&& offer.doc == doc && offer.version == version
            &&& offer.which == answer[at].0 && offer.form == answer[at].1
        }),
{
}

/// An answer goes to who asked by its number and to nobody else: the card, an action's
/// edit, or the gutter.
pub proof fn an_answer_goes_to_who_asked(actions: CodeActions, id: u64)
    ensures
        actions.for_card(id) <==> (actions.card_asked matches Some((asked, _)) && asked == id),
        actions.card_question() == Some(id) <==> actions.for_card(id),
        actions.for_resolve(id) <==> (actions.resolving matches Some((asked, _)) && asked == id),
        actions.for_bulb(id) <==> (actions.bulb matches Some(bulb) && bulb.state
            == BulbState::Asking(id)),
        actions.bulb_question() == Some(id) <==> actions.for_bulb(id),
        actions.card_asked is None ==> actions.card_question() is None,
        actions.bulb is None ==> actions.bulb_question() is None && actions.bulb_due() is None,
{
}

/// Fixes kept from the last card are of use for the next only where it is about the same
/// thing, in the version they were offered for.
pub proof fn fixes_are_kept_for_the_same_thing(
    actions: CodeActions,
    anchor: Anchor,
    version: i32,
)
    ensures
        actions.keeps(anchor, Some(version)) <==> {
            &&& actions.card matches Some((about, offers))
            &&& about == anchor
            &&& offers@.len() > 0
            &&& offers@[0].version == version
        },
        !actions.keeps(anchor, None),
{
}

/// The chooser is headed by how many there are to pick from.
pub proof fn the_chooser_says_how_many(count: nat)
    ensures
        chooser_title(1) == "1 code action"@ + " — pick one"@,
        count != 1 ==> chooser_title(count) == decimal_of(count) + " code actions"@
            + " — pick one"@,
{
}

/// The command last run is the one asked for last.
pub proof fn the_last_command_is_the_last_asked_for(actions: CodeActions)
    ensures
        actions.executing@.len() == 0 <==> actions.last_run() is None,
        actions.executing@.len() > 0 ==> actions.last_run() == Some(
            actions.executing@[actions.executing@.len() - 1],
        ),
{
}

/// A command is never a fix, and comes after every fix; of fixes, one the server prefers
/// comes first.
pub proof fn a_command_is_no_fix(offer: Offered, title: String, action: Action, other: Offered)
    requires
        offer.form == Form::Command(title),
        other.form == Form::Action(action),
    ensures
        !offer.fixes(),
        offer.of_kind() is None && offer.why_not() is None,
        offer.called() == title@,
        other.called() == action.title@,
        other.fixes() ==> other.place() < offer.place(),
        other.fixes() && action.preferred ==> other.place() == 0,
        other.fixes() && !action.preferred ==> other.place() == 1,
        !other.fixes() ==> other.place() == offer.place(),
{
}

} // verus!
