//! Going to where a symbol is defined, and getting back again.
//!
//! Holding Ctrl over a symbol underlines it, but only once its server has said
//! it has a definition, so the underline is a promise the click keeps. The
//! server is asked once the pointer has settled on a word, and the question is
//! cancelled the moment it moves to another.
//!
//! A symbol defined in several places offers them in the palette rather than
//! picking one. Every jump is remembered, so Back and Forward retrace them.
//!
//! Nothing here waits on a server. Each question is sent, its id kept, and the
//! answer acted on when it arrives, if it is still the answer wanted.

use ropey::Rope;
use vstd::prelude::*;

use crate::commands::Command;
use crate::gutter::held_time;
use crate::input::{Button, MouseKind};
use crate::jumps::Jumps;
use crate::outcome::Outcome;
use crate::palette::{row_views, Row};
use crate::place::{Encoding, Open, Place, Position};
use crate::references::{place_row, place_rows, Listing, Named};
use crate::reply::{words, Reply};
use crate::rope::{char_at, len_chars, rope_text, slice};
use crate::text::{decimal, decimal_of, join3};
use crate::words::{is_word, word_char};

verus! {

/// How long the pointer rests on a word, with Ctrl held, before its server is
/// asked whether it has a definition, in milliseconds. Short, because the
/// underline is the answer to "can I click this"; long enough that sweeping
/// across a line asks about the word it stops on rather than every word it
/// crosses.
pub const SETTLE: u64 = 80;

/// A question a person is waiting on the answer to.
#[derive(Debug)]
pub enum Asked {
    /// Where something is defined.
    Definition {
        /// The question.
        id: u64,
        /// Where to show it.
        open: Open,
        /// What it was asked about.
        word: String,
    },
    /// Where something is used.
    References {
        /// The question.
        id: u64,
        /// What it was asked about.
        word: String,
    },
}

impl Asked {
    /// The question.
    pub open spec fn question(self) -> u64 {
        match self {
            Asked::Definition { id, .. } => id,
            Asked::References { id, .. } => id,
        }
    }

    fn id(&self) -> (id: u64)
        ensures
            id == self.question(),
    {
        match self {
            Asked::Definition { id, .. } => *id,
            Asked::References { id, .. } => *id,
        }
    }
}

/// Where the question about a word under the pointer has got to.
#[derive(Debug)]
pub enum LinkState {
    /// Waiting until this for the pointer to settle.
    Settling(u64),
    /// Asked, and the version of the document it was asked about.
    Asking(u64, Option<i32>),
    /// Somewhere to go.
    Found(Vec<Place>),
    /// Nowhere: not a symbol with a definition, or the server could not say.
    Nothing,
}

/// The word under the pointer while Ctrl is held.
#[derive(Debug)]
pub struct Link {
    /// The document.
    pub doc: usize,
    /// The first char to underline: of the word, or of the span the server
    /// said links.
    pub from: usize,
    /// The char after the last of those.
    pub to: usize,
    /// How far the question has got.
    pub state: LinkState,
}

/// Everything navigation keeps between events.
#[derive(Debug)]
pub struct Navigation {
    /// Where Back and Forward go.
    pub jumps: Jumps,
    /// The question being waited on.
    pub asked: Option<Asked>,
    /// The word under the pointer.
    pub link: Option<Link>,
    /// What the references panel lists.
    pub listing: Listing,
}

/// A copy of `places`.
fn copied(places: &Vec<Place>) -> (copy: Vec<Place>)
    ensures
        copy@ == places@,
{
    let mut copy: Vec<Place> = Vec::new();
    let mut i: usize = 0;
    while i < places.len()
        invariant
            i <= places@.len(),
            copy@ =~= places@.take(i as int),
        decreases places@.len() - i,
    {
        copy.push(places[i].clone());
        i = i + 1;
    }
    assert(places@.take(places@.len() as int) =~= places@);
    copy
}

// ── what servers answer ─────────────────────────────────────────────────────

/// A range in a file a server named; no path where what it named is no file.
#[derive(Debug)]
pub struct Location {
    /// The file.
    pub path: Option<String>,
    /// Where it starts.
    pub start: Position,
    /// Where it ends.
    pub end: Position,
}

impl Clone for Location {
    fn clone(&self) -> (copy: Self)
        ensures
            copy == *self,
    {
        Location {
            path: match &self.path {
                Some(path) => Some(path.clone()),
                None => None,
            },
            start: self.start,
            end: self.end,
        }
    }
}

/// What a server says of where something is defined, in any form it may take.
#[derive(Debug)]
pub enum Definition {
    /// One place.
    Scalar(Location),
    /// Several.
    Array(Vec<Location>),
    /// Several, each the part to land on inside the whole of what it names.
    Link(Vec<Linked>),
}

/// A place a server named, and what of the text asked about leads to it.
#[derive(Debug)]
pub struct Linked {
    /// The chars asked about that are the link, from and to, where it says.
    pub origin: Option<(Position, Position)>,
    /// The part to land on.
    pub target: Location,
}

/// The places a definition answer names, whichever of its forms it came in.
pub open spec fn locations(found: Option<Definition>) -> Seq<Location> {
    match found {
        None => Seq::empty(),
        Some(Definition::Scalar(one)) => seq![one],
        Some(Definition::Array(many)) => many@,
        Some(Definition::Link(many)) => Seq::new(many@.len(), |i: int| many@[i].target),
    }
}

/// What of the text asked about is the link: what the first place says it is,
/// where the answer is of links.
pub open spec fn origin_in(found: Option<Definition>) -> Option<(Position, Position)> {
    match found {
        Some(Definition::Link(many)) => if many@.len() > 0 {
            many@[0].origin
        } else {
            None
        },
        _ => None,
    }
}

/// What of the text asked about is the link, where the server says.
pub fn origin_of(found: &Option<Definition>) -> (origin: Option<(Position, Position)>)
    ensures
        origin == origin_in(*found),
{
    match found {
        Some(Definition::Link(many)) => if many.len() > 0 {
            many[0].origin
        } else {
            None
        },
        _ => None,
    }
}

/// The place a location is, where it is a file.
pub open spec fn place_at(location: Location, encoding: Encoding) -> Option<Place> {
    match location.path {
        Some(path) => Some(
            Place { path, start: location.start, end: location.end, encoding },
        ),
        None => None,
    }
}

/// Whether one of `places` is the place `at` is: the same file, and the same
/// start.
pub open spec fn named_already(places: Seq<Place>, at: Place) -> bool {
    exists|i: int|
        0 <= i < places.len() && (#[trigger] places[i]).path@ == at.path@ && places[i].start
            == at.start
}

/// The places of the first `count` locations, each once.
pub open spec fn places_in(locations: Seq<Location>, encoding: Encoding, count: int) -> Seq<Place>
    decreases count,
{
    if count <= 0 {
        Seq::empty()
    } else {
        let before = places_in(locations, encoding, count - 1);
        match place_at(locations[count - 1], encoding) {
            Some(place) => if named_already(before, place) {
                before
            } else {
                before.push(place)
            },
            None => before,
        }
    }
}

fn is_named(places: &Vec<Place>, at: &Place) -> (is: bool)
    ensures
        is == named_already(places@, *at),
{
    let mut i: usize = 0;
    while i < places.len()
        invariant
            i <= places@.len(),
            forall|k: int|
                0 <= k < i ==> !((#[trigger] places@[k]).path@ == at.path@ && places@[k].start
                    == at.start),
        decreases places@.len() - i,
    {
        if places[i].path == at.path && places[i].start == at.start {
            assert(places@[i as int].path@ == at.path@);
            return true;
        }
        i = i + 1;
    }
    false
}

/// Every place a definition answer names, whichever of its three forms it came
/// in. Some servers name one definition twice, once per crate that re-exports
/// it, and a chooser offering the same line twice is noise: each is given once.
pub fn places_of(found: Option<Definition>, encoding: Encoding) -> (places: Vec<Place>)
    ensures
        places@ == places_in(locations(found), encoding, locations(found).len() as int),
{
    let mut all: Vec<Location> = Vec::new();
    match found {
        None => {},
        Some(Definition::Scalar(one)) => {
            all.push(one);
            assert(all@ =~= seq![one]);
        },
        Some(Definition::Array(many)) => {
            all = many;
        },
        Some(Definition::Link(many)) => {
            let ghost targets = Seq::new(many@.len(), |i: int| many@[i].target);
            let mut i: usize = 0;
            while i < many.len()
                invariant
                    i <= many@.len() == targets.len(),
                    targets == Seq::new(many@.len(), |i: int| many@[i].target),
                    all@ =~= targets.take(i as int),
                decreases many@.len() - i,
            {
                all.push(many[i].target.clone());
                i = i + 1;
            }
            assert(all@ =~= targets);
        },
    }
    let mut places: Vec<Place> = Vec::new();
    let mut i: usize = 0;
    while i < all.len()
        invariant
            i <= all@.len(),
            places@ =~= places_in(all@, encoding, i as int),
        decreases all@.len() - i,
    {
        if let Some(path) = &all[i].path {
            let place = Place {
                path: path.clone(),
                start: all[i].start,
                end: all[i].end,
                encoding,
            };
            if !is_named(&places, &place) {
                places.push(place);
            }
        }
        i = i + 1;
    }
    places
}

/// No place is offered twice.
pub proof fn no_place_is_offered_twice(locations: Seq<Location>, encoding: Encoding, count: int)
    requires
        0 <= count <= locations.len(),
    ensures
        ({
            let places = places_in(locations, encoding, count);
            forall|i: int, j: int|
                0 <= i < j < places.len() ==> !((#[trigger] places[i]).path@ == (
                #[trigger] places[j]).path@ && places[i].start == places[j].start)
        }),
    decreases count,
{
    if count > 0 {
        no_place_is_offered_twice(locations, encoding, count - 1);
        let before = places_in(locations, encoding, count - 1);
        let places = places_in(locations, encoding, count);
        assert forall|i: int, j: int| 0 <= i < j < places.len() implies !((
        #[trigger] places[i]).path@ == (#[trigger] places[j]).path@ && places[i].start
            == places[j].start) by {
            assert(places[i] == before[i]);
            if j < before.len() {
                assert(places[j] == before[j]);
            } else {
                assert(!named_already(before, places[j]));
                assert(!(before[i].path@ == places[j].path@ && before[i].start
                    == places[j].start));
            }
        }
    }
}

// ── asking ──────────────────────────────────────────────────────────────────

/// The identifier at `at`, where `word` is the word there.
pub open spec fn identifier_at(text: Seq<char>, at: int, word: (usize, usize)) -> Option<
    (usize, usize),
> {
    if 0 <= at < text.len() && word_char(text[at]) && word.0 < word.1 {
        Some(word)
    } else {
        None
    }
}

/// The identifier at `at`, where `word` is the word there.
pub fn word_at(rope: &Rope, at: usize, word: (usize, usize)) -> (found: Option<(usize, usize)>)
    ensures
        found == identifier_at(rope_text(*rope), at as int, word),
{
    if at >= len_chars(rope) || !is_word(char_at(rope, at)) || word.0 >= word.1 {
        None
    } else {
        Some(word)
    }
}

/// The word at `at`, for saying what was asked about, where `word` is the word
/// there.
pub fn name_at(rope: &Rope, at: usize, word: (usize, usize)) -> (name: String)
    requires
        word.0 <= word.1 <= rope_text(*rope).len(),
    ensures
        name@ == match identifier_at(rope_text(*rope), at as int, word) {
            Some(word) => "`"@ + rope_text(*rope).subrange(word.0 as int, word.1 as int) + "`"@,
            None => "that"@,
        },
{
    match word_at(rope, at, word) {
        Some(word) => join3("`", slice(rope, word.0, word.1).as_str(), "`"),
        None => "that".to_owned(),
    }
}

/// An open file: where it was opened, and what its server calls it.
#[derive(Debug)]
pub struct OpenFile {
    /// Where it was opened.
    pub path: String,
    /// Where its server says it is, which need not be the same: a symlinked
    /// folder, a relative path.
    pub resolved: Option<String>,
}

impl OpenFile {
    /// Whether this is the file at `path`.
    pub open spec fn is(self, path: Seq<char>) -> bool {
        self.path@ == path || words(self.resolved) == Some(path)
    }
}

/// The first of `files`, from the `from`th on, that is the one at `path`.
pub open spec fn opened_as(files: Seq<OpenFile>, path: Seq<char>, from: int) -> Option<Seq<char>>
    decreases files.len() - from,
{
    if from < 0 || from >= files.len() {
        None
    } else if files[from].is(path) {
        Some(files[from].path@)
    } else {
        opened_as(files, path, from + 1)
    }
}

/// Where the open file that is the same as the one at `path` was opened, if one
/// is. Opening it a second time under another name would give two buffers racing
/// each other to save one file.
pub fn open_doc_of(files: &Vec<OpenFile>, path: &String) -> (open: Option<String>)
    ensures
        words(open) == opened_as(files@, path@, 0),
{
    let mut i: usize = 0;
    while i < files.len()
        invariant
            i <= files@.len(),
            opened_as(files@, path@, 0) == opened_as(files@, path@, i as int),
        decreases files@.len() - i,
    {
        let same = match &files[i].resolved {
            Some(resolved) => *resolved == *path,
            None => false,
        };
        if files[i].path == *path || same {
            return Some(files[i].path.clone());
        }
        i = i + 1;
    }
    None
}

/// A file open under any of its names is never opened a second time.
pub proof fn no_file_is_opened_twice(files: Seq<OpenFile>, k: int, path: Seq<char>, from: int)
    requires
        0 <= from <= k < files.len(),
        files[k].is(path),
    ensures
        opened_as(files, path, from) is Some,
    decreases k - from,
{
    if from < k {
        no_file_is_opened_twice(files, k, path, from + 1);
    }
}

/// Why a feature needing a server is not there, in the status line's words:
/// `label` is what the status line says of the file's server, if it has one,
/// and `ready` is whether that has said what it can do.
pub fn no_server(what: &str, label: Option<String>, ready: bool) -> (said: String)
    ensures
        said@ == match label {
            Some(label) => if ready {
                label@ + " cannot "@ + what@ + "."@
            } else {
                "Cannot "@ + what@ + " yet: "@ + label@ + "."@
            },
            None => "This file has no language server to "@ + what@ + " with."@,
        },
{
    match label {
        Some(label) => if ready {
            let mut said = join3(label.as_str(), " cannot ", what);
            said.append(".");
            said
        } else {
            let mut said = join3("Cannot ", what, " yet: ");
            said.append(label.as_str());
            said.append(".");
            said
        },
        None => join3("This file has no language server to ", what, " with."),
    }
}

/// What asking for a definition comes to.
#[derive(Debug)]
pub enum AskDefinition {
    /// The underline has it already.
    Known(Vec<Place>),
    /// The file's server cannot find definitions.
    Cannot,
    /// The server is to be asked.
    Ask,
}

/// Whose question a server answered.
#[derive(Debug)]
pub enum AnswerTo {
    /// A definition, to show here or beside, of this.
    Definition(Open, String),
    /// The references to this.
    References(String),
    /// The word under the pointer, asked about at this version.
    Link(Option<i32>),
    /// Nobody's.
    Nobody,
}

/// What finding a definition comes to.
#[derive(Debug)]
pub enum Going {
    /// There is none, and this is said.
    Say(String),
    /// This place is gone to.
    Go(Place),
    /// There are several, and they are offered.
    Offer(String, Vec<Row>),
}

/// A definition of `word` was found: go there, or offer the choice.
pub fn definition_found(places: &Vec<Named>, open: Open, word: &str) -> (going: Going)
    requires
        places@.len() >= 2 ==> forall|i: int|
            0 <= i < places@.len() ==> (#[trigger] places@[i]).place.start.line < u32::MAX,
    ensures
        if places@.len() == 0 {
            going matches Going::Say(said) && said@ == "No definition found for "@ + word@ + "."@
        } else if places@.len() == 1 {
            going == Going::Go(places@[0].place)
        } else {
            going matches Going::Offer(title, rows) && title@ == decimal_of(places@.len())
                + " definitions of "@ + word@ + " — pick one"@ && row_views(rows@) == Seq::new(
                places@.len(),
                |i: int| place_row(places@[i], open),
            )
        },
{
    if places.len() == 0 {
        return Going::Say(join3("No definition found for ", word, "."));
    }
    if places.len() == 1 {
        return Going::Go(places[0].place.clone());
    }
    let rows = place_rows(places, open);
    let mut title = join3(decimal(places.len()).as_str(), " definitions of ", word);
    title.append(" — pick one");
    Going::Offer(title, rows)
}

/// What a Ctrl-click in the text does.
#[derive(Debug)]
pub enum Clicked {
    /// It is the click it would be without Ctrl, or with it where there is no
    /// server.
    Plain,
    /// The caret goes there, and this is gone to, here or beside.
    Known(Vec<Place>, Open),
    /// The caret goes there, and the definition is asked for, here or beside.
    Ask(Open),
}

/// How a file is opened in the pane beside.
#[derive(Debug, Clone, Copy, PartialEq, Eq, Structural)]
pub enum Beside {
    /// It is shown already: this tab of this pane is selected.
    Select(usize, usize),
    /// In this pane, the tab it has behind others of the pane gone from, if it
    /// has one, being moved to the end of the tabs there first.
    Pane(usize, Option<usize>),
    /// In a pane split off, that tab being moved there first. Where one is, the
    /// empty tab the split starts with is dropped: it has nothing to keep.
    Split(Option<usize>),
}

/// The first of `ids`, from the `from`th on, that is `id`.
pub open spec fn pane_at(ids: Seq<usize>, id: usize, from: int) -> Option<int>
    decreases ids.len() - from,
{
    if from < 0 || from >= ids.len() {
        None
    } else if ids[from] == id {
        Some(from)
    } else {
        pane_at(ids, id, from + 1)
    }
}

/// The pane across from `origin`: the next of `ids`, coming round.
pub open spec fn across(ids: Seq<usize>, origin: usize) -> usize {
    let at = match pane_at(ids, origin, 0) {
        Some(at) => at,
        None => 0,
    };
    if at + 1 < ids.len() {
        ids[at + 1]
    } else {
        ids[0]
    }
}

/// How a file is opened in the pane beside `origin`, `ids` being the panes
/// there are: the next pane across, or a new one split off when there is only
/// this one. `existing` is the pane and tab the file is open in, if it is, and
/// `current` whether it is what `origin` shows. A file already showing in
/// another pane is gone to where it is. One showing in this pane stays here: a
/// document is in one place at a time, and one open behind others here is moved
/// over rather than opened twice.
pub fn open_beside(
    origin: usize,
    ids: &Vec<usize>,
    existing: Option<(usize, usize)>,
    current: bool,
) -> (beside: Beside)
    ensures
        beside == match existing {
            Some(tab) if tab.0 != origin || current => Beside::Select(tab.0, tab.1),
            _ => {
                let moved = match existing {
                    Some(tab) => Some(tab.1),
                    None => None,
                };
                if ids@.len() > 1 {
                    Beside::Pane(across(ids@, origin), moved)
                } else {
                    Beside::Split(moved)
                }
            },
        },
{
    if let Some(tab) = existing {
        if tab.0 != origin || current {
            return Beside::Select(tab.0, tab.1);
        }
    }
    let moved: Option<usize> = match existing {
        Some(tab) => Some(tab.1),
        None => None,
    };
    if ids.len() <= 1 {
        return Beside::Split(moved);
    }
    let mut at: usize = 0;
    let mut i: usize = 0;
    let mut found = false;
    while i < ids.len() && !found
        invariant
            i <= ids@.len(),
            !found ==> pane_at(ids@, origin, 0) == pane_at(ids@, origin, i as int) && at == 0,
            found ==> at < ids@.len() && pane_at(ids@, origin, 0) == Some(at as int),
        decreases ids@.len() - i,
    {
        if ids[i] == origin {
            at = i;
            found = true;
        }
        i = i + 1;
    }
    if at + 1 < ids.len() {
        Beside::Pane(ids[at + 1], moved)
    } else {
        Beside::Pane(ids[0], moved)
    }
}

/// What following the pointer with Ctrl held comes to.
#[derive(Debug, Clone, Copy)]
pub struct Underneath {
    /// Whether the pointer is over the text, and nothing is over that.
    pub over_text: bool,
    /// The focused document.
    pub doc: usize,
    /// The char under the pointer, if there is one.
    pub at: Option<usize>,
    /// The identifier there, if there is one.
    pub word: Option<(usize, usize)>,
    /// Whether the document's server finds definitions.
    pub offers: bool,
}

impl Navigation {
    /// Whether its parts are as they should be, and what was found to be
    /// somewhere is.
    pub open spec fn wf(self) -> bool {
        &&& self.jumps.wf()
        &&& self.listing.wf()
        &&& self.link matches Some(link) ==> (link.state matches LinkState::Found(places)
            ==> places@.len() > 0)
    }

    /// Nowhere gone, and nothing asked.
    pub fn new() -> (navigation: Self)
        ensures
            navigation.wf(),
            navigation.jumps.back@.len() == 0,
            navigation.jumps.forward@.len() == 0,
            navigation.asked is None,
            navigation.link is None,
            navigation.listing.groups@.len() == 0,
            navigation.listing.summary@.len() == 0,
            navigation.listing.widest == 0,
            navigation.listing.scroll == 0,
            navigation.listing.selected is None,
            navigation.listing.generation == 0,
    {
        Navigation { jumps: Jumps::new(), asked: None, link: None, listing: Listing::new() }
    }

    /// The question being waited on.
    pub open spec fn waiting(self) -> Option<u64> {
        match self.asked {
            Some(asked) => Some(asked.question()),
            None => None,
        }
    }

    /// Stop waiting for the last question. The one to take back.
    pub fn forget_asked(&mut self) -> (cancel: Option<u64>)
        ensures
            cancel == old(self).waiting(),
            *final(self) == (Navigation { asked: None, ..*old(self) }),
    {
        match self.asked.take() {
            Some(asked) => Some(asked.id()),
            None => None,
        }
    }

    /// Whether the word under the pointer, at `at` of `doc`, is underlined.
    pub open spec fn is_underlined(self, doc: usize, at: usize) -> bool {
        self.link matches Some(link) && link.state is Found && link.doc == doc && link.from <= at
            < link.to
    }

    /// Where the underlined word at `at` of `doc` goes, if it is underlined.
    pub fn link_places_at(&self, doc: usize, at: usize) -> (places: Option<Vec<Place>>)
        ensures
            match places {
                Some(places) => self.is_underlined(doc, at) && (
                self.link->0.state matches LinkState::Found(found) && places@ == found@),
                None => !self.is_underlined(doc, at),
            },
    {
        let Some(link) = &self.link else {
            return None;
        };
        match &link.state {
            LinkState::Found(places) => if link.doc == doc && link.from <= at && at < link.to {
                Some(copied(places))
            } else {
                None
            },
            _ => None,
        }
    }

    /// What asking for the definition of whatever is at `at` of `doc` takes:
    /// nothing, if the underline already has it.
    pub fn ask_definition(&self, doc: usize, at: usize, offers: bool) -> (ask: AskDefinition)
        ensures
            if self.is_underlined(doc, at) {
                ask matches AskDefinition::Known(places) && (
                self.link->0.state matches LinkState::Found(found) && places@ == found@)
            } else if offers {
                ask is Ask
            } else {
                ask is Cannot
            },
    {
        if let Some(places) = self.link_places_at(doc, at) {
            return AskDefinition::Known(places);
        }
        if offers {
            AskDefinition::Ask
        } else {
            AskDefinition::Cannot
        }
    }

    /// The question where `word` is defined was sent, or could not be.
    pub fn definition_sent(&mut self, open: Open, word: String, sent: Result<u64, String>) -> (reply:
        Reply)
        ensures
            match sent {
                Ok(id) => {
                    &&& reply.outcome == Outcome::Continue
                    &&& reply.says() is None
                    &&& reply.cancel@ == match old(self).waiting() {
                        Some(before) => seq![before],
                        None => Seq::empty(),
                    }
                    &&& *final(self) == (Navigation {
                        asked: Some(Asked::Definition { id, open, word }),
                        ..*old(self)
                    })
                },
                Err(why) => {
                    &&& reply.outcome == Outcome::Redraw
                    &&& reply.says() == Some("Cannot go to the definition: "@ + why@ + "."@)
                    &&& reply.cancel@.len() == 0
                    &&& *final(self) == *old(self)
                },
            },
    {
        match sent {
            Ok(id) => {
                let mut reply = Reply::just(Outcome::Continue);
                if let Some(before) = self.forget_asked() {
                    reply.cancel.push(before);
                }
                self.asked = Some(Asked::Definition { id, open, word });
                reply
            },
            Err(why) => Reply::saying(join3("Cannot go to the definition: ", why.as_str(), ".")),
        }
    }

    /// The question where `word` is used was sent, or could not be.
    pub fn references_sent(&mut self, word: String, sent: Result<u64, String>) -> (reply: Reply)
        ensures
            reply.outcome == Outcome::Redraw,
            match sent {
                Ok(id) => {
                    &&& reply.says() == Some("Finding references to "@ + word@ + "…"@)
                    &&& reply.cancel@ == match old(self).waiting() {
                        Some(before) => seq![before],
                        None => Seq::empty(),
                    }
                    &&& *final(self) == (Navigation {
                        asked: Some(Asked::References { id, word }),
                        ..*old(self)
                    })
                },
                Err(why) => {
                    &&& reply.says() == Some("Cannot find references: "@ + why@ + "."@)
                    &&& reply.cancel@.len() == 0
                    &&& *final(self) == *old(self)
                },
            },
    {
        match sent {
            Ok(id) => {
                let mut reply = Reply::saying(
                    join3("Finding references to ", word.as_str(), "…"),
                );
                if let Some(before) = self.forget_asked() {
                    reply.cancel.push(before);
                }
                self.asked = Some(Asked::References { id, word });
                reply
            },
            Err(why) => Reply::saying(join3("Cannot find references: ", why.as_str(), ".")),
        }
    }

    /// The question about the word under the pointer.
    pub open spec fn link_question(self) -> Option<u64> {
        match self.link {
            Some(link) => match link.state {
                LinkState::Asking(id, _) => Some(id),
                _ => None,
            },
            None => None,
        }
    }

    /// A server answered question `id`: whose it was. A question a person is
    /// waiting on is then waited on no more.
    pub fn navigation_answered(&mut self, id: u64) -> (to: AnswerTo)
        ensures
            if old(self).waiting() == Some(id) {
                &&& *final(self) == (Navigation { asked: None, ..*old(self) })
                &&& match old(self).asked->0 {
                    Asked::Definition { id: _, open, word } => to == AnswerTo::Definition(
                        open,
                        word,
                    ),
                    Asked::References { id: _, word } => to == AnswerTo::References(word),
                }
            } else {
                &&& *final(self) == *old(self)
                &&& if old(self).link_question() == Some(id) {
                    to matches AnswerTo::Link(version) && old(self).link->0.state
                        == LinkState::Asking(id, version)
                } else {
                    to is Nobody
                }
            },
    {
        if let Some(asked) = self.asked.take() {
            if asked.id() == id {
                return match asked {
                    Asked::Definition { id: _, open, word } => AnswerTo::Definition(open, word),
                    Asked::References { id: _, word } => AnswerTo::References(word),
                };
            }
            self.asked = Some(asked);
        }
        match &self.link {
            Some(link) => match link.state {
                LinkState::Asking(asked, version) => if asked == id {
                    AnswerTo::Link(version)
                } else {
                    AnswerTo::Nobody
                },
                _ => AnswerTo::Nobody,
            },
            None => AnswerTo::Nobody,
        }
    }

    /// What is said where a server could not answer: whether it was asked for a
    /// definition, or for references.
    pub fn failed(definition: bool, why: &str) -> (said: String)
        ensures
            said@ == if definition {
                "Could not go to the definition: "@ + why@ + "."@
            } else {
                "Could not find references: "@ + why@ + "."@
            },
    {
        if definition {
            join3("Could not go to the definition: ", why, ".")
        } else {
            join3("Could not find references: ", why, ".")
        }
    }

    /// What the text's menu offers for getting about: the definition and the
    /// references when the server can find them, Back and Forward when there is
    /// somewhere to go.
    pub open spec fn offers(self, define: bool, references: bool) -> Seq<Command> {
        let a = if define {
            seq![Command::GoToDefinition, Command::OpenDefinitionBeside]
        } else {
            Seq::empty()
        };
        let b = if references {
            a.push(Command::FindReferences)
        } else {
            a
        };
        let c = if self.jumps.back@.len() > 0 {
            b.push(Command::GoBack)
        } else {
            b
        };
        if self.jumps.forward@.len() > 0 {
            c.push(Command::GoForward)
        } else {
            c
        }
    }

    /// What the text's menu offers for getting about.
    pub fn navigation_offers(&self, define: bool, references: bool) -> (commands: Vec<Command>)
        ensures
            commands@ == self.offers(define, references),
    {
        let mut commands: Vec<Command> = Vec::new();
        if define {
            commands.push(Command::GoToDefinition);
            commands.push(Command::OpenDefinitionBeside);
        }
        if references {
            commands.push(Command::FindReferences);
        }
        if self.jumps.can_retrace(true) {
            commands.push(Command::GoBack);
        }
        if self.jumps.can_retrace(false) {
            commands.push(Command::GoForward);
        }
        assert(commands@ =~= self.offers(define, references));
        commands
    }

    // ── the pointer ─────────────────────────────────────────────────────────

    /// The left button went down in the text with Ctrl held, at `at` of `doc`,
    /// the `count`th time in a row, and with Alt where `alt`. `shrinks` is
    /// whether the press is inside a selection that can shrink again, `word`
    /// whether it is on an identifier, and `offers` whether the server finds
    /// definitions. Also the question to take back.
    pub fn definition_click(
        &mut self,
        doc: usize,
        at: usize,
        count: u8,
        alt: bool,
        shrinks: bool,
        word: bool,
        offers: bool,
    ) -> (click: (Clicked, Option<u64>))
        ensures
            ({
                let open = if alt {
                    Open::Beside
                } else {
                    Open::Here
                };
                if count > 1 {
                    &&& click.0 is Plain
                    &&& if old(self).asked matches Some(asked) && asked is Definition {
                        click.1 == old(self).waiting() && *final(self) == (Navigation {
                            asked: None,
                            ..*old(self)
                        })
                    } else {
                        click.1 is None && *final(self) == *old(self)
                    }
                } else {
                    let known = old(self).is_underlined(doc, at);
                    &&& click.1 is None
                    &&& *final(self) == *old(self)
                    &&& if shrinks || !word || !(known || offers) {
                        click.0 is Plain
                    } else if known {
                        click.0 matches Clicked::Known(places, how) && how == open && (
                        old(self).link->0.state matches LinkState::Found(found) && places@
                            == found@)
                    } else {
                        click.0 == Clicked::Ask(open)
                    }
                }
            }),
    {
        if count > 1 {
            // The first click of this double-click asked for a definition; a
            // double-click is a different gesture, and wants no jump.
            let asked = match &self.asked {
                Some(Asked::Definition { .. }) => true,
                _ => false,
            };
            if asked {
                let cancel = self.forget_asked();
                return (Clicked::Plain, cancel);
            }
            return (Clicked::Plain, None);
        }
        let open = if alt {
            Open::Beside
        } else {
            Open::Here
        };
        let places = self.link_places_at(doc, at);
        if shrinks || !word || !(places.is_some() || offers) {
            return (Clicked::Plain, None);
        }
        match places {
            Some(places) => (Clicked::Known(places, open), None),
            None => (Clicked::Ask(open), None),
        }
    }

    /// What taking the underline away comes to: a redraw where there was one,
    /// and the question to take back where one was asked.
    pub open spec fn unlinked(self) -> Outcome {
        Outcome::spec_redraw_if(self.link matches Some(link) && link.state is Found)
    }

    /// Take the underline away, and stop asking about it.
    pub fn clear_link(&mut self) -> (cleared: (Outcome, Option<u64>))
        ensures
            cleared == (old(self).unlinked(), old(self).link_question()),
            *final(self) == (Navigation { link: None, ..*old(self) }),
    {
        match self.link.take() {
            Some(link) => match link.state {
                LinkState::Asking(id, _) => (Outcome::Continue, Some(id)),
                LinkState::Found(_) => (Outcome::Redraw, None),
                _ => (Outcome::Continue, None),
            },
            None => (Outcome::Continue, None),
        }
    }

    /// Whether the pointer is still on the word it was on.
    pub open spec fn still_on(self, under: Underneath) -> bool {
        under.over_text && (under.at matches Some(at) && (self.link matches Some(link) && link.doc
            == under.doc && link.from <= at < link.to))
    }

    /// The word the pointer has come to.
    pub open spec fn link_to(under: Underneath, now: u64) -> Option<Link> {
        if under.over_text && under.at is Some && under.word is Some && under.offers {
            Some(
                Link {
                    doc: under.doc,
                    from: (under.word->0).0,
                    to: (under.word->0).1,
                    state: LinkState::Settling(held_time(now + SETTLE) as u64),
                },
            )
        } else {
            None
        }
    }

    /// Any mouse report, with Ctrl held or not: keep the underline on the word
    /// under a pointer with Ctrl held, and nowhere else. A press that follows
    /// the pointer uses what it found.
    pub fn link_pointer(&mut self, kind: MouseKind, control: bool, under: &Underneath, now: u64)
        -> (followed: (Outcome, Option<u64>))
        ensures
            if control && kind == MouseKind::Moved {
                if old(self).still_on(*under) {
                    followed == (Outcome::Continue, None::<u64>) && *final(self) == *old(self)
                } else {
                    &&& followed == (old(self).unlinked(), old(self).link_question())
                    &&& *final(self) == (Navigation {
                        link: Self::link_to(*under, now),
                        ..*old(self)
                    })
                }
            } else if control && kind == MouseKind::Down(Button::Left) {
                followed == (Outcome::Continue, None::<u64>) && *final(self) == *old(self)
            } else {
                &&& followed == (old(self).unlinked(), old(self).link_question())
                &&& *final(self) == (Navigation { link: None, ..*old(self) })
            },
    {
        if control && kind == MouseKind::Moved {
            return self.link_motion(under, now);
        }
        if control && kind == MouseKind::Down(Button::Left) {
            return (Outcome::Continue, None);
        }
        self.clear_link()
    }

    fn link_motion(&mut self, under: &Underneath, now: u64) -> (followed: (Outcome, Option<u64>))
        ensures
            if old(self).still_on(*under) {
                followed == (Outcome::Continue, None::<u64>) && *final(self) == *old(self)
            } else {
                &&& followed == (old(self).unlinked(), old(self).link_question())
                &&& *final(self) == (Navigation {
                    link: Self::link_to(*under, now),
                    ..*old(self)
                })
            },
    {
        let at: Option<usize> = if under.over_text {
            under.at
        } else {
            None
        };
        let Some(at) = at else {
            return self.clear_link();
        };
        let still = match &self.link {
            Some(link) => link.doc == under.doc && link.from <= at && at < link.to,
            None => false,
        };
        if still {
            return (Outcome::Continue, None);
        }
        let cleared = self.clear_link();
        if let Some(word) = under.word {
            if under.offers {
                self.link = Some(
                    Link {
                        doc: under.doc,
                        from: word.0,
                        to: word.1,
                        state: LinkState::Settling(now.saturating_add(SETTLE)),
                    },
                );
            }
        }
        cleared
    }

    /// When the pointer will have settled.
    pub open spec fn link_due(self) -> Option<u64> {
        match self.link {
            Some(link) => match link.state {
                LinkState::Settling(due) => Some(due),
                _ => None,
            },
            None => None,
        }
    }

    /// When the pointer will have settled, if it is settling.
    pub fn link_deadline(&self) -> (due: Option<u64>)
        ensures
            due == self.link_due(),
    {
        match &self.link {
            Some(link) => match link.state {
                LinkState::Settling(due) => Some(due),
                _ => None,
            },
            None => None,
        }
    }

    /// What to do at `now`, the focused document being `doc`: once the pointer
    /// has settled, ask about the char it is given.
    pub fn link_tick(&mut self, now: u64, doc: usize) -> (ask: Option<usize>)
        ensures
            if old(self).link_due() is None || now < old(self).link_due()->0 {
                ask is None && *final(self) == *old(self)
            } else if old(self).link->0.doc != doc {
                ask is None && *final(self) == (Navigation { link: None, ..*old(self) })
            } else {
                ask == Some(old(self).link->0.from) && *final(self) == *old(self)
            },
    {
        let Some(due) = self.link_deadline() else {
            return None;
        };
        if now < due {
            return None;
        }
        let (about, from): (usize, usize) = match &self.link {
            Some(link) => (link.doc, link.from),
            None => return None,
        };
        if about != doc {
            self.link = None;
            return None;
        }
        Some(from)
    }

    /// The question about the word under the pointer was sent, as an id and the
    /// version it is about, or could not be.
    pub fn link_sent(&mut self, sent: Option<(u64, Option<i32>)>)
        ensures
            *final(self) == (Navigation {
                link: match old(self).link {
                    Some(link) => Some(
                        Link {
                            state: match sent {
                                Some(sent) => LinkState::Asking(sent.0, sent.1),
                                None => LinkState::Nothing,
                            },
                            ..link
                        },
                    ),
                    None => None,
                },
                ..*old(self)
            }),
    {
        if let Some(mut link) = self.link.take() {
            link.state = match sent {
                Some(sent) => LinkState::Asking(sent.0, sent.1),
                None => LinkState::Nothing,
            };
            self.link = Some(link);
        }
    }

    /// The server said where the word under the pointer is defined, if
    /// anywhere, and perhaps what chars that word is. It knows better than a
    /// word boundary what the symbol is, `r#type`, a path, an operator, as long
    /// as it covers the start of the word. `span` is where the chars it says,
    /// [`origin_of`], are in the text.
    pub fn link_found(
        &mut self,
        found: Option<Definition>,
        encoding: Encoding,
        span: Option<(usize, usize)>,
    ) -> (outcome: Outcome)
        requires
            old(self).wf(),
        ensures
            final(self).wf(),
            *final(self) == (Navigation { link: final(self).link, ..*old(self) }),
            match old(self).link {
                None => outcome == Outcome::Continue && final(self).link is None,
                Some(link) => {
                    let all = locations(found);
                    let places = places_in(all, encoding, all.len() as int);
                    if places.len() == 0 {
                        &&& outcome == Outcome::Continue
                        &&& final(self).link == Some(Link { state: LinkState::Nothing, ..link })
                    } else {
                        let word = match span {
                            Some(span) => if origin_in(found) is Some && span.0 <= link.from
                                < span.1 {
                                span
                            } else {
                                (link.from, link.to)
                            },
                            None => (link.from, link.to),
                        };
                        &&& outcome == Outcome::Redraw
                        &&& final(self).link matches Some(after) && {
                            &&& after.doc == link.doc
                            &&& after.from == word.0
                            &&& after.to == word.1
                            &&& after.state matches LinkState::Found(there) && there@ == places
                        }
                    }
                },
            },
    {
        let linked = origin_of(&found).is_some();
        let places = places_of(found, encoding);
        let Some(mut link) = self.link.take() else {
            return Outcome::Continue;
        };
        if places.len() == 0 {
            link.state = LinkState::Nothing;
            self.link = Some(link);
            return Outcome::Continue;
        }
        if let Some(span) = span {
            if linked && span.0 <= link.from && link.from < span.1 {
                link.from = span.0;
                link.to = span.1;
            }
        }
        link.state = LinkState::Found(places);
        self.link = Some(link);
        Outcome::Redraw
    }

    /// The chars of `doc` that are underlined.
    pub fn underlined(&self, doc: usize) -> (span: Option<(usize, usize)>)
        ensures
            span == match self.link {
                Some(link) => if link.state is Found && link.doc == doc {
                    Some((link.from, link.to))
                } else {
                    None
                },
                None => None,
            },
    {
        match &self.link {
            Some(link) => if matches!(link.state, LinkState::Found(_)) && link.doc == doc {
                Some((link.from, link.to))
            } else {
                None
            },
            None => None,
        }
    }
}

/// What is said when there are no references to step through: `find` is the
/// key that lists them.
pub fn nothing_listed(find: &str) -> (said: String)
    ensures
        said@ == "No references are listed. "@ + find@ + " lists them."@,
{
    join3("No references are listed. ", find, " lists them.")
}

/// Whether an answer about the word under the pointer still counts: the text is
/// as it was when it was asked about.
pub fn still_the_text(current: Option<i32>, asked: Option<i32>) -> (still: bool)
    ensures
        still == (current == asked),
{
    match (current, asked) {
        (Some(current), Some(asked)) => current == asked,
        (None, None) => true,
        _ => false,
    }
}

/// The underline is a promise the click keeps: wherever it is, there is
/// somewhere to go.
pub proof fn what_is_underlined_goes_somewhere(navigation: Navigation, doc: usize, at: usize)
    requires
        navigation.wf(),
        navigation.is_underlined(doc, at),
    ensures
        navigation.link->0.state matches LinkState::Found(places) && places@.len() > 0,
{
}

/// Moving off the word takes the underline away, and the question back.
pub proof fn moving_off_takes_the_underline_away(
    before: Navigation,
    under: Underneath,
    now: u64,
    doc: usize,
    at: usize,
)
    requires
        !before.still_on(under),
    ensures
        ({
            let after = Navigation { link: Navigation::link_to(under, now), ..before };
            !after.is_underlined(doc, at) && after.link_question() is None
        }),
{
}

/// Every place a server names in a file is offered, where it is and in the order
/// first named, and nothing else is.
pub proof fn every_place_named_is_offered(
    locations: Seq<Location>,
    encoding: Encoding,
    count: int,
)
    requires
        0 <= count <= locations.len(),
    ensures
        ({
            let places = places_in(locations, encoding, count);
            &&& forall|i: int|
                0 <= i < count ==> ((#[trigger] locations[i]).path matches Some(path) ==> exists|
                    k: int,
                |
                    0 <= k < places.len() && (#[trigger] places[k]).path@ == path@ && places[k].start
                        == locations[i].start)
            &&& forall|k: int|
                0 <= k < places.len() ==> is_one_named((#[trigger] places[k]), locations, count)
                    && places[k].encoding == encoding
        }),
    decreases count,
{
    if count > 0 {
        every_place_named_is_offered(locations, encoding, count - 1);
        let before = places_in(locations, encoding, count - 1);
        let places = places_in(locations, encoding, count);
        assert forall|i: int| 0 <= i < count implies ((
        #[trigger] locations[i]).path matches Some(path) ==> exists|k: int|
            0 <= k < places.len() && (#[trigger] places[k]).path@ == path@ && places[k].start
                == locations[i].start) by {
            if let Some(path) = locations[i].path {
                if i < count - 1 {
                    let k = choose|k: int|
                        0 <= k < before.len() && (#[trigger] before[k]).path@ == path@
                            && before[k].start == locations[i].start;
                    assert(places[k] == before[k]);
                } else {
                    let place = place_at(locations[i], encoding)->0;
                    if named_already(before, place) {
                        let k = choose|k: int|
                            0 <= k < before.len() && (#[trigger] before[k]).path@ == place.path@
                                && before[k].start == place.start;
                        assert(places[k].path@ == path@);
                    } else {
                        assert(places[before.len() as int] == place);
                    }
                }
            }
        }
        assert forall|k: int| 0 <= k < places.len() implies is_one_named(
            (#[trigger] places[k]),
            locations,
            count,
        ) && places[k].encoding == encoding by {
            if k < before.len() {
                assert(places[k] == before[k]);
                let i = choose|i: int|
                    0 <= i < count - 1 && (#[trigger] locations[i]).path == Some(before[k].path)
                        && locations[i].start == before[k].start && locations[i].end
                        == before[k].end;
                assert(locations[i].path == Some(places[k].path));
            } else {
                assert(locations[count - 1].path == Some(places[k].path));
            }
        }
    }
}

/// Whether `place` is one of the first `count` of `locations`, from its start to
/// its end.
pub open spec fn is_one_named(place: Place, locations: Seq<Location>, count: int) -> bool {
    exists|i: int|
        0 <= i < count && (#[trigger] locations[i]).path == Some(place.path) && locations[i].start
            == place.start && locations[i].end == place.end
}

/// What is asked for is all a server names: the one, or each of several, or for each
/// of several links the part to land on.
pub proof fn all_a_server_names_is_taken(found: Definition)
    ensures
        locations(None).len() == 0,
        match found {
            Definition::Scalar(one) => locations(Some(found)) == seq![one],
            Definition::Array(many) => locations(Some(found)) == many@,
            Definition::Link(many) => locations(Some(found)).len() == many@.len() && forall|i: int|
                0 <= i < many@.len() ==> locations(Some(found))[i] == (#[trigger] many@[i]).target,
        },
        origin_in(Some(found)) is Some ==> (found matches Definition::Link(many) && many@.len() > 0
            && many@[0].origin == origin_in(Some(found))),
        found matches Definition::Link(many) ==> (many@.len() > 0 ==> origin_in(Some(found))
            == many@[0].origin),
{
}

/// A file already open under either of its names is shown under the name it was
/// opened by, the first of those open that it is.
pub proof fn an_open_file_keeps_its_name(files: Seq<OpenFile>, path: Seq<char>, from: int)
    requires
        0 <= from <= files.len(),
    ensures
        match opened_as(files, path, from) {
            Some(name) => exists|i: int|
                {
                    &&& from <= i < files.len()
                    &&& (#[trigger] files[i]).path@ == name
                    &&& name == path || (files[i].resolved matches Some(known) && known@ == path)
                    &&& forall|j: int|
                        from <= j < i ==> (#[trigger] files[j]).path@ != path && !(
                        files[j].resolved matches Some(known) && known@ == path)
                },
            None => forall|j: int|
                from <= j < files.len() ==> (#[trigger] files[j]).path@ != path && !(
                files[j].resolved matches Some(known) && known@ == path),
        },
    decreases files.len() - from,
{
    if from < files.len() {
        if !files[from].is(path) {
            an_open_file_keeps_its_name(files, path, from + 1);
            if let Some(name) = opened_as(files, path, from + 1) {
                let i = choose|i: int|
                    {
                        &&& from + 1 <= i < files.len()
                        &&& (#[trigger] files[i]).path@ == name
                        &&& name == path || (files[i].resolved matches Some(known) && known@ == path)
                        &&& forall|j: int|
                            from + 1 <= j < i ==> (#[trigger] files[j]).path@ != path && !(
                            files[j].resolved matches Some(known) && known@ == path)
                    };
                assert(files[i].path@ == name);
            }
        } else {
            assert(files[from].path@ == opened_as(files, path, from)->0);
        }
    }
}

/// The pane beside a pane is the next one along, and the first past the last: with
/// two panes or more it is never the pane itself.
pub proof fn the_pane_beside_is_another(ids: Seq<usize>, at: int)
    requires
        0 <= at < ids.len(),
        forall|i: int, j: int| 0 <= i < j < ids.len() ==> #[trigger] ids[i] != #[trigger] ids[j],
    ensures
        across(ids, ids[at]) == ids[(at + 1) % (ids.len() as int)],
        ids.len() > 1 ==> across(ids, ids[at]) != ids[at],
{
    pane_found(ids, at, 0);
    if at + 1 == ids.len() {
        assert((at + 1) % (ids.len() as int) == 0) by (nonlinear_arith)
            requires
                at + 1 == ids.len(),
                ids.len() > 0,
        ;
    } else {
        vstd::arithmetic::div_mod::lemma_small_mod((at + 1) as nat, ids.len());
    }
}

proof fn pane_found(ids: Seq<usize>, at: int, from: int)
    requires
        0 <= from <= at < ids.len(),
        forall|i: int, j: int| 0 <= i < j < ids.len() ==> #[trigger] ids[i] != #[trigger] ids[j],
    ensures
        pane_at(ids, ids[at], from) == Some(at),
    decreases at - from,
{
    if from < at {
        assert(ids[from] != ids[at]);
        pane_found(ids, at, from + 1);
    }
}

/// Each way to get about is offered exactly where it can be taken.
pub proof fn each_way_is_offered_where_it_can_be_taken(
    navigation: Navigation,
    define: bool,
    references: bool,
)
    ensures
        ({
            let offers = navigation.offers(define, references);
            &&& offers.contains(Command::GoToDefinition) <==> define
            &&& offers.contains(Command::OpenDefinitionBeside) <==> define
            &&& offers.contains(Command::FindReferences) <==> references
            &&& offers.contains(Command::GoBack) <==> navigation.jumps.back@.len() > 0
            &&& offers.contains(Command::GoForward) <==> navigation.jumps.forward@.len() > 0
        }),
{
    let offers = navigation.offers(define, references);
    let a = if define {
        2int
    } else {
        0
    };
    let b = if references {
        a + 1
    } else {
        a
    };
    let c = if navigation.jumps.back@.len() > 0 {
        b + 1
    } else {
        b
    };
    if define {
        assert(offers[0] == Command::GoToDefinition && offers[1] == Command::OpenDefinitionBeside);
    }
    if references {
        assert(offers[a] == Command::FindReferences);
    }
    if navigation.jumps.back@.len() > 0 {
        assert(offers[b] == Command::GoBack);
    }
    if navigation.jumps.forward@.len() > 0 {
        assert(offers[c] == Command::GoForward);
    }
}

/// A word rested on is asked about once the pointer has settled on it, and nothing
/// is where there is no word, nothing under the pointer, or nobody to ask.
pub proof fn a_word_rested_on_is_asked_about(under: Underneath, now: u64)
    requires
        now + SETTLE <= u64::MAX,
    ensures
        Navigation::link_to(under, now) is Some <==> under.over_text && under.at is Some
            && under.word is Some && under.offers,
        Navigation::link_to(under, now) matches Some(link) ==> {
            &&& link.doc == under.doc
            &&& under.word == Some((link.from, link.to))
            &&& link.state matches LinkState::Settling(due) && due == now + SETTLE
        },
{
}

/// An identifier is under the pointer only where the char there is a letter, a
/// digit or an underscore, and it is the word there.
pub proof fn an_identifier_is_letters_digits_and_underscores(
    text: Seq<char>,
    at: int,
    word: (usize, usize),
)
    requires
        word.0 < word.1,
        0 <= at < text.len(),
    ensures
        identifier_at(text, at, word) == if crate::unicode::alphanumeric(text[at]) || text[at] == '_' {
            Some(word)
        } else {
            None
        },
        identifier_at(text, text.len() as int, word) is None,
{
}

/// Taking an underline away is to be drawn only where there was one to see.
pub proof fn only_an_underline_seen_is_drawn_away(navigation: Navigation)
    ensures
        navigation.unlinked() is Redraw <==> (navigation.link matches Some(link)
            && link.state is Found),
        navigation.unlinked() is Redraw || navigation.unlinked() is Continue,
{
}

/// The pointer is still on a link where it is over the text, in the link's document and on
/// one of its chars.
pub proof fn the_pointer_is_on_a_link_on_its_chars(navigation: Navigation, under: Underneath, link: Link)
    requires
        navigation.link == Some(link),
    ensures
        navigation.still_on(under) <==> {
            &&& under.over_text
            &&& link.doc == under.doc
            &&& under.at matches Some(at) && link.from <= at < link.to
        },
        navigation.link_due() matches Some(due) ==> link.state == LinkState::Settling(due),
        link.state matches LinkState::Settling(due) ==> navigation.link_due() == Some(due),
{
}

/// What is underlined is the chars of a link that goes somewhere, the first and all up to
/// the last, in its own document.
pub proof fn a_link_is_underlined_from_its_first_char(navigation: Navigation, doc: usize, at: usize)
    ensures
        navigation.is_underlined(doc, at) <==> {
            &&& navigation.link matches Some(link)
            &&& link.state matches LinkState::Found(_)
            &&& link.doc == doc
            &&& link.from <= at
            &&& at < link.to
        },
        navigation.waiting() is None <==> navigation.asked is None,
        navigation.asked matches Some(Asked::Definition { id, .. }) ==> navigation.waiting() == Some(
            id,
        ),
        navigation.asked matches Some(Asked::References { id, .. }) ==> navigation.waiting() == Some(
            id,
        ),
        navigation.link_question() matches Some(id) ==> (navigation.link matches Some(link) && (
        link.state matches LinkState::Asking(asked, _) && asked == id)),
        navigation.link matches Some(link) ==> (link.state matches LinkState::Asking(id, _)
            ==> navigation.link_question() == Some(id)),
{
}

} // verus!
