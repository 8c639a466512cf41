//! The palette: one overlay, several modes.
//!
//! The first character decides what is being searched: nothing for files, `>`
//! for commands, `:` for a line, `@` for symbols, `?` for the list of
//! prefixes. Files are matched elsewhere, and the answer comes later; an
//! answer to an older keystroke is dropped.
//!
//! Files that have been opened before come first among equals.

use vstd::prelude::*;

use crate::commands::Command;
use crate::geometry::Rect;
use crate::hits::Hit;
use crate::input::{KeyCode, KeyEvent};
use crate::order::{is_ranking, picked, ranking, Key};
use crate::outcome::Outcome;
use crate::place::{Open, Place};
use crate::scroll::{keep_in_view, kept_in_view, wheel, wheeled};
use crate::target::{Focus, Target};
use crate::text::{
    chars_of, decimal, decimal_of, join, number, number_in, push, string_of, trim, trimmed,
};
use crate::unicode::{blank, grapheme_clusters, graphemes, is_blank, joined, joined_push, views};

verus! {

/// How much having opened a file before is worth, next to a match score.
pub const FRECENCY_BONUS: u32 = 12;

/// Rows asked for at most. More than fits, so scrolling has somewhere to go.
pub const LIMIT: usize = 200;

/// What the palette is searching.
#[derive(Debug, Clone, Copy, PartialEq, Eq, Structural)]
pub enum Mode {
    /// Files in the project.
    Files,
    /// Commands, by `>`.
    Commands,
    /// A line in the file being edited, by `:`.
    Line,
    /// Symbols in this file, by `@`.
    Symbols,
    /// Symbols across the project, by `#`.
    ProjectSymbols,
    /// What the prefixes are, by `?`.
    Help,
}

impl Mode {
    /// Which mode a query is in.
    pub open spec fn mode(query: Seq<char>) -> Self {
        if query.len() == 0 {
            Mode::Files
        } else if query[0] == '>' {
            Mode::Commands
        } else if query[0] == ':' {
            Mode::Line
        } else if query[0] == '@' {
            Mode::Symbols
        } else if query[0] == '#' {
            Mode::ProjectSymbols
        } else if query[0] == '?' {
            Mode::Help
        } else {
            Mode::Files
        }
    }

    /// A query once its prefix is gone.
    pub open spec fn rest(query: Seq<char>) -> Seq<char> {
        if Self::mode(query) is Files {
            query
        } else {
            query.skip(1)
        }
    }

    /// Which mode a query is in, and the rest of it once the prefix is gone.
    pub fn of(query: &str) -> (found: (Self, String))
        ensures
            found.0 == Self::mode(query@),
            found.1@ == Self::rest(query@),
    {
        let chars = chars_of(query);
        if chars.len() == 0 {
            return (Mode::Files, query.to_owned());
        }
        let mode = match chars[0] {
            '>' => Mode::Commands,
            ':' => Mode::Line,
            '@' => Mode::Symbols,
            '#' => Mode::ProjectSymbols,
            '?' => Mode::Help,
            _ => return (Mode::Files, query.to_owned()),
        };
        let rest = string_of(&chars, 1, chars.len());
        assert(rest@ =~= query@.skip(1));
        (mode, rest)
    }

    /// What the empty palette suggests in this mode.
    pub open spec fn suggestion(self) -> Seq<char> {
        match self {
            Mode::Files => "Go to a file — `>` commands, `:` line, `?` help"@,
            Mode::Commands => "Run a command"@,
            Mode::Line => "Go to a line"@,
            Mode::Symbols => "Go to a symbol in this file"@,
            Mode::ProjectSymbols => "Symbols across the project"@,
            Mode::Help => "What the prefixes do"@,
        }
    }

    /// What the empty palette suggests in this mode.
    pub fn placeholder(self) -> (text: &'static str)
        ensures
            text@ == self.suggestion(),
    {
        match self {
            Mode::Files => "Go to a file — `>` commands, `:` line, `?` help",
            Mode::Commands => "Run a command",
            Mode::Line => "Go to a line",
            Mode::Symbols => "Go to a symbol in this file",
            Mode::ProjectSymbols => "Symbols across the project",
            Mode::Help => "What the prefixes do",
        }
    }
}

/// What picking a row does.
#[derive(Debug)]
pub enum Pick {
    /// Open this file.
    File(String),
    /// Run this command.
    Run(Command),
    /// Go to this line, counting from one.
    Line(usize),
    /// Go to this char offset, which is where a symbol's name starts.
    At(u32),
    /// Start the query again with this prefix.
    Prefix(String),
    /// Go to this place a server named, here or beside.
    Place(Place, Open),
    /// Carry out this code action, by its place in the chooser.
    Action(usize),
    /// Nothing: a row that is only telling something.
    Nothing,
}

impl Clone for Pick {
    fn clone(&self) -> (copy: Self)
        ensures
            copy == *self,
    {
        match self {
            Pick::File(path) => Pick::File(path.clone()),
            Pick::Run(command) => Pick::Run(*command),
            Pick::Line(line) => Pick::Line(*line),
            Pick::At(at) => Pick::At(*at),
            Pick::Prefix(prefix) => Pick::Prefix(prefix.clone()),
            Pick::Place(place, open) => Pick::Place(place.clone(), *open),
            Pick::Action(index) => Pick::Action(*index),
            Pick::Nothing => Pick::Nothing,
        }
    }
}

/// What a row shows.
#[derive(Debug)]
pub struct Entry {
    /// What it says.
    pub label: String,
    /// Which characters of that were matched.
    pub matched: Vec<u32>,
    /// What it says at the far end.
    pub hint: String,
}

/// One row, and what it does.
#[derive(Debug)]
pub struct Row {
    /// What it shows.
    pub entry: Entry,
    /// What it does.
    pub pick: Pick,
}

/// A row as a value.
pub struct RowModel {
    /// What it says.
    pub label: Seq<char>,
    /// Which characters of that were matched.
    pub matched: Seq<u32>,
    /// What it says at the far end.
    pub hint: Seq<char>,
    /// What it does.
    pub pick: PickModel,
}

/// What picking a row does, as a value.
pub enum PickModel {
    /// Open this file.
    File(Seq<char>),
    /// Run this command.
    Run(Command),
    /// Go to this line.
    Line(usize),
    /// Go to this char offset.
    At(u32),
    /// Start the query again with this prefix.
    Prefix(Seq<char>),
    /// Go to this place.
    Place(Place, Open),
    /// Carry out this code action.
    Action(usize),
    /// Nothing.
    Nothing,
}

impl View for Pick {
    type V = PickModel;

    open spec fn view(&self) -> PickModel {
        match *self {
            Pick::File(path) => PickModel::File(path@),
            Pick::Run(command) => PickModel::Run(command),
            Pick::Line(line) => PickModel::Line(line),
            Pick::At(at) => PickModel::At(at),
            Pick::Prefix(prefix) => PickModel::Prefix(prefix@),
            Pick::Place(place, open) => PickModel::Place(place, open),
            Pick::Action(index) => PickModel::Action(index),
            Pick::Nothing => PickModel::Nothing,
        }
    }
}

impl View for Row {
    type V = RowModel;

    open spec fn view(&self) -> RowModel {
        RowModel {
            label: self.entry.label@,
            matched: self.entry.matched@,
            hint: self.entry.hint@,
            pick: self.pick@,
        }
    }
}

/// Rows as values.
pub open spec fn row_views(rows: Seq<Row>) -> Seq<RowModel> {
    Seq::new(rows.len(), |i: int| rows[i]@)
}

/// The rows with one more at the end.
proof fn row_views_push(rows: Seq<Row>, row: Row)
    ensures
        row_views(rows.push(row)) == row_views(rows).push(row@),
{
    assert(row_views(rows.push(row)) =~= row_views(rows).push(row@));
}

/// A copy of `matched`.
fn offsets(matched: &Vec<u32>) -> (copy: Vec<u32>)
    ensures
        copy@ == matched@,
{
    let mut copy: Vec<u32> = Vec::new();
    let mut i: usize = 0;
    while i < matched.len()
        invariant
            i <= matched@.len(),
            copy@ == matched@.take(i as int),
        decreases matched@.len() - i,
    {
        copy.push(matched[i]);
        assert(matched@.take(i + 1) =~= matched@.take(i as int).push(matched@[i as int]));
        i = i + 1;
    }
    assert(matched@.take(matched@.len() as int) =~= matched@);
    copy
}

/// A row that only says something.
pub open spec fn noted(text: Seq<char>) -> RowModel {
    RowModel { label: text, matched: Seq::empty(), hint: ""@, pick: PickModel::Nothing }
}

/// A row that only says something.
pub fn note(text: &str) -> (row: Row)
    ensures
        row@ == noted(text@),
{
    Row {
        entry: Entry { label: text.to_owned(), matched: Vec::new(), hint: "".to_owned() },
        pick: Pick::Nothing,
    }
}

/// One row alone.
fn alone(row: Row) -> (rows: Vec<Row>)
    ensures
        row_views(rows@) == seq![row@],
{
    let mut rows: Vec<Row> = Vec::new();
    rows.push(row);
    assert(row_views(rows@) =~= seq![row@]);
    rows
}

/// A row of the list of prefixes.
pub open spec fn prefix_row(prefix: Seq<char>, hint: Seq<char>, what: Seq<char>) -> RowModel {
    RowModel { label: what, matched: Seq::empty(), hint, pick: PickModel::Prefix(prefix) }
}

fn lead(prefix: &str, hint: &str, what: &str) -> (row: Row)
    ensures
        row@ == prefix_row(prefix@, hint@, what@),
{
    Row {
        entry: Entry { label: what.to_owned(), matched: Vec::new(), hint: hint.to_owned() },
        pick: Pick::Prefix(prefix.to_owned()),
    }
}

/// What `?` shows: each prefix and what it is for, leading into that mode.
pub open spec fn help() -> Seq<RowModel> {
    seq![
        prefix_row(""@, "(nothing)"@, "Files in the project"@),
        prefix_row(">"@, ">"@, "Commands, with the keys that run them"@),
        prefix_row(":"@, ":"@, "A line in this file"@),
        prefix_row("@"@, "@"@, "Symbols in this file"@),
        prefix_row("#"@, "#"@, "Symbols in the project (milestone 4)"@),
        prefix_row("?"@, "?"@, "This list"@),
    ]
}

/// What `?` shows: each prefix and what it is for, leading into that mode.
pub fn help_rows() -> (rows: Vec<Row>)
    ensures
        row_views(rows@) == help(),
{
    let mut rows: Vec<Row> = Vec::new();
    rows.push(lead("", "(nothing)", "Files in the project"));
    rows.push(lead(">", ">", "Commands, with the keys that run them"));
    rows.push(lead(":", ":", "A line in this file"));
    rows.push(lead("@", "@", "Symbols in this file"));
    rows.push(lead("#", "#", "Symbols in the project (milestone 4)"));
    rows.push(lead("?", "?", "This list"));
    assert(row_views(rows@) =~= help());
    rows
}

/// Where `:` takes you, in a file of `lines` lines.
pub open spec fn line_row(query: Seq<char>, lines: nat) -> RowModel {
    match number_in(trimmed(query), usize::MAX as nat) {
        None => noted("Type a line number, 1 to "@ + decimal_of(lines)),
        Some(n) => {
            let line = if n < 1 {
                1
            } else if n > lines {
                lines
            } else {
                n
            };
            RowModel {
                label: "Line "@ + decimal_of(line),
                matched: Seq::empty(),
                hint: "of "@ + decimal_of(lines),
                pick: PickModel::Line(line as usize),
            }
        },
    }
}

/// Where `:` takes you, in a file of `lines` lines.
pub fn line_rows(query: &str, lines: usize) -> (rows: Vec<Row>)
    requires
        lines >= 1,
    ensures
        row_views(rows@) == seq![line_row(query@, lines as nat)],
{
    let inner = trim(query);
    match number(inner.as_str(), usize::MAX) {
        None => alone(note(join("Type a line number, 1 to ", decimal(lines).as_str()).as_str())),
        Some(n) => {
            let line: usize = if n < 1 {
                1
            } else if n > lines {
                lines
            } else {
                n
            };
            alone(
                Row {
                    entry: Entry {
                        label: join("Line ", decimal(line).as_str()),
                        matched: Vec::new(),
                        hint: join("of ", decimal(lines).as_str()),
                    },
                    pick: Pick::Line(line),
                },
            )
        },
    }
}

/// One thing a search of a list found.
#[derive(Debug)]
pub struct Found {
    /// Its place in the list.
    pub index: usize,
    /// Which of its characters were matched.
    pub matched: Vec<u32>,
}

/// The rows a search of `rows` found: those rows, with what was matched.
pub open spec fn chosen(rows: Seq<Row>, found: Seq<Found>) -> Seq<RowModel> {
    Seq::new(
        found.len(),
        |i: int| RowModel { matched: found[i].matched@, ..rows[found[i].index as int]@ },
    )
}

/// The rows a search of `rows` found: those rows, with what was matched.
fn choice_rows(rows: &Vec<Row>, found: &Vec<Found>) -> (shown: Vec<Row>)
    requires
        forall|i: int| 0 <= i < found@.len() ==> (#[trigger] found@[i]).index < rows@.len(),
    ensures
        row_views(shown@) == chosen(rows@, found@),
{
    let mut shown: Vec<Row> = Vec::new();
    let mut i: usize = 0;
    while i < found.len()
        invariant
            i <= found@.len(),
            forall|i: int| 0 <= i < found@.len() ==> (#[trigger] found@[i]).index < rows@.len(),
            row_views(shown@) =~= chosen(rows@, found@).take(i as int),
        decreases found@.len() - i,
    {
        assert(found@[i as int].index < rows@.len());
        let from = &rows[found[i].index];
        let row = Row {
            entry: Entry {
                label: from.entry.label.clone(),
                matched: offsets(&found[i].matched),
                hint: from.entry.hint.clone(),
            },
            pick: from.pick.clone(),
        };
        proof {
            row_views_push(shown@, row);
            assert(chosen(rows@, found@).take(i + 1) =~= chosen(rows@, found@).take(i as int).push(
                row@,
            ));
        }
        shown.push(row);
        i = i + 1;
    }
    assert(chosen(rows@, found@).take(found@.len() as int) =~= chosen(rows@, found@));
    shown
}

/// A command as the palette lists it.
#[derive(Debug)]
pub struct Listed {
    /// Which.
    pub command: Command,
    /// What it is called.
    pub title: String,
    /// The key that runs it.
    pub binding: String,
}

/// The rows for the commands a search of `all` found, each with the key that
/// runs it.
pub open spec fn commands_found(all: Seq<Listed>, found: Seq<Found>) -> Seq<RowModel> {
    Seq::new(
        found.len(),
        |i: int|
            {
                let listed = all[found[i].index as int];
                RowModel {
                    label: listed.title@,
                    matched: found[i].matched@,
                    hint: listed.binding@,
                    pick: PickModel::Run(listed.command),
                }
            },
    )
}

/// The rows for the commands a search of `all` found, each with the key that
/// runs it.
pub fn command_rows(all: &Vec<Listed>, found: &Vec<Found>) -> (rows: Vec<Row>)
    requires
        forall|i: int| 0 <= i < found@.len() ==> (#[trigger] found@[i]).index < all@.len(),
    ensures
        row_views(rows@) == commands_found(all@, found@),
{
    let mut rows: Vec<Row> = Vec::new();
    let mut i: usize = 0;
    while i < found.len()
        invariant
            i <= found@.len(),
            forall|i: int| 0 <= i < found@.len() ==> (#[trigger] found@[i]).index < all@.len(),
            row_views(rows@) =~= commands_found(all@, found@).take(i as int),
        decreases found@.len() - i,
    {
        assert(found@[i as int].index < all@.len());
        let listed = &all[found[i].index];
        let row = Row {
            entry: Entry {
                label: listed.title.clone(),
                matched: offsets(&found[i].matched),
                hint: listed.binding.clone(),
            },
            pick: Pick::Run(listed.command),
        };
        proof {
            row_views_push(rows@, row);
            assert(commands_found(all@, found@).take(i + 1) =~= commands_found(all@, found@).take(
                i as int,
            ).push(row@));
        }
        rows.push(row);
        i = i + 1;
    }
    assert(commands_found(all@, found@).take(found@.len() as int) =~= commands_found(all@, found@));
    rows
}

// ── the outline ─────────────────────────────────────────────────────────────

/// Something a file declares.
#[derive(Debug)]
pub struct Symbol {
    /// What it is called.
    pub name: String,
    /// What it is.
    pub kind: String,
    /// How deep it is nested.
    pub depth: usize,
    /// Where its name starts, in chars.
    pub at: u32,
    /// What it is declared in, by its place in the outline.
    pub parent: Option<usize>,
}

/// Whether every symbol comes after what it is declared in.
pub open spec fn is_outline(symbols: Seq<Symbol>) -> bool {
    forall|i: int|
        0 <= i < symbols.len() ==> ((#[trigger] symbols[i]).parent matches Some(parent) ==> parent
            < i)
}

/// Whether symbol `i` is symbol `j` or something that is declared in.
pub open spec fn holds(symbols: Seq<Symbol>, i: int, j: int) -> bool
    decreases j,
{
    i == j || (0 <= j < symbols.len() && (symbols[j].parent matches Some(parent) && parent < j
        && holds(symbols, i, parent as int)))
}

/// The last thing `found` says about place `index`.
pub open spec fn said_of(found: Seq<Found>, index: int) -> Option<Seq<u32>>
    decreases found.len(),
{
    if found.len() == 0 {
        None
    } else if found.last().index == index {
        Some(found.last().matched@)
    } else {
        said_of(found.drop_last(), index)
    }
}

/// Whether symbol `i` is shown for what was found: it was found, or something
/// declared in it was.
pub open spec fn is_shown(symbols: Seq<Symbol>, found: Seq<Found>, i: int) -> bool {
    exists|j: int|
        0 <= j < symbols.len() && said_of(found, j) is Some && #[trigger] holds(symbols, i, j)
}

/// `depth` indents.
pub open spec fn indent(depth: nat) -> Seq<char> {
    Seq::new(2 * depth, |i: int| ' ')
}

/// How far what was matched is moved by `depth` indents.
pub open spec fn indent_shift(depth: nat) -> nat {
    if 2 * depth <= u32::MAX {
        2 * depth
    } else {
        0
    }
}

/// The row of a symbol, of which `matched` was matched.
pub open spec fn symbol_row(symbol: Symbol, matched: Seq<u32>) -> RowModel {
    RowModel {
        label: indent(symbol.depth as nat) + symbol.name@,
        matched: Seq::new(
            matched.len(),
            |i: int| (matched[i] + indent_shift(symbol.depth as nat)) as u32,
        ),
        hint: symbol.kind@,
        pick: PickModel::At(symbol.at),
    }
}

/// The rows of the first `count` symbols, of which those shown are shown with
/// what was matched of them.
pub open spec fn outline_rows(symbols: Seq<Symbol>, found: Seq<Found>, count: int) -> Seq<RowModel>
    decreases count,
{
    if count <= 0 {
        Seq::empty()
    } else {
        let rest = outline_rows(symbols, found, count - 1);
        if is_shown(symbols, found, count - 1) {
            rest.push(
                symbol_row(
                    symbols[count - 1],
                    match said_of(found, count - 1) {
                        Some(matched) => matched,
                        None => Seq::empty(),
                    },
                ),
            )
        } else {
            rest
        }
    }
}

/// Why there is no outline.
#[derive(Debug, Clone, Copy, PartialEq, Eq, Structural)]
pub enum NoOutline {
    /// It is being read.
    Reading,
    /// The grammar gave up on the file.
    GaveUp,
    /// The language is known, and the file declares nothing.
    Nothing,
    /// The language is not known.
    Unknown,
}

/// What the palette says where there is no outline.
pub open spec fn no_outline(why: NoOutline) -> Seq<char> {
    match why {
        NoOutline::Reading => "Reading the file…"@,
        NoOutline::GaveUp => "This file's grammar gave up, so there is no outline of it"@,
        NoOutline::Nothing => "Nothing in this file declares anything nun can see"@,
        NoOutline::Unknown => "nun does not know this file's language"@,
    }
}

/// The rows of an outline filtered by `query`, where `found` is what a search
/// of its names came to and `why` is why it is empty if it is.
pub open spec fn symbols_listed(
    symbols: Seq<Symbol>,
    why: NoOutline,
    query: Seq<char>,
    found: Seq<Found>,
) -> Seq<RowModel> {
    if symbols.len() == 0 {
        seq![noted(no_outline(why))]
    } else if blank(query) {
        Seq::new(
            if symbols.len() < LIMIT {
                symbols.len()
            } else {
                LIMIT as nat
            },
            |i: int| symbol_row(symbols[i], Seq::empty()),
        )
    } else {
        outline_rows(symbols, found, symbols.len() as int)
    }
}

fn indented(depth: usize, name: &str) -> (label: String)
    ensures
        label@ == indent(depth as nat) + name@,
{
    let mut label = String::new();
    let mut i: usize = 0;
    while i < depth
        invariant
            i <= depth,
            label@ =~= indent(i as nat),
        decreases depth - i,
    {
        push(&mut label, ' ');
        push(&mut label, ' ');
        i = i + 1;
    }
    label.append(name);
    label
}

fn row_of_symbol(symbol: &Symbol, matched: &Vec<u32>) -> (row: Row)
    requires
        forall|i: int|
            0 <= i < matched@.len() ==> (#[trigger] matched@[i]) + indent_shift(
                symbol.depth as nat,
            ) <= u32::MAX,
    ensures
        row@ == symbol_row(*symbol, matched@),
{
    let shift: u32 = if symbol.depth <= (u32::MAX / 2) as usize {
        (symbol.depth * 2) as u32
    } else {
        0
    };
    let mut moved: Vec<u32> = Vec::new();
    let mut i: usize = 0;
    while i < matched.len()
        invariant
            i <= matched@.len(),
            moved@.len() == i,
            shift == indent_shift(symbol.depth as nat),
            forall|i: int|
                0 <= i < matched@.len() ==> (#[trigger] matched@[i]) + indent_shift(
                    symbol.depth as nat,
                ) <= u32::MAX,
            forall|k: int| 0 <= k < i ==> #[trigger] moved@[k] == (matched@[k] + shift) as u32,
        decreases matched@.len() - i,
    {
        moved.push(matched[i] + shift);
        i = i + 1;
    }
    assert(moved@ =~= symbol_row(*symbol, matched@).matched);
    Row {
        entry: Entry {
            label: indented(symbol.depth, symbol.name.as_str()),
            matched: moved,
            hint: symbol.kind.clone(),
        },
        pick: Pick::At(symbol.at),
    }
}

/// The last thing `found` says about place `index`, by its place in `found`.
fn last_said(found: &Vec<Found>, index: usize) -> (at: Option<usize>)
    ensures
        match at {
            Some(at) => at < found@.len() && found@[at as int].index == index && said_of(
                found@,
                index as int,
            ) == Some(found@[at as int].matched@),
            None => said_of(found@, index as int) is None,
        },
{
    let mut i: usize = found.len();
    assert(found@.take(found@.len() as int) =~= found@);
    while i > 0
        invariant
            i <= found@.len(),
            said_of(found@, index as int) == said_of(found@.take(i as int), index as int),
        decreases i,
    {
        assert(found@.take(i as int).drop_last() =~= found@.take(i - 1));
        if found[i - 1].index == index {
            return Some(i - 1);
        }
        i = i - 1;
    }
    None
}

/// Where what holds a symbol that is shown is shown too.
proof fn held_by(symbols: Seq<Symbol>, i: int, parent: int, j: int)
    requires
        is_outline(symbols),
        0 <= i < symbols.len(),
        symbols[i].parent == Some(parent as usize),
        0 <= parent <= usize::MAX,
        0 <= j < symbols.len(),
        holds(symbols, i, j),
    ensures
        holds(symbols, parent, j),
    decreases j,
{
    if i == j {
        assert(holds(symbols, parent, symbols[j].parent->0 as int));
    } else {
        held_by(symbols, i, parent, symbols[j].parent->0 as int);
    }
}

/// Filtering keeps the ancestors of a match: what a shown symbol is declared
/// in is shown too.
pub proof fn what_a_shown_symbol_is_in_is_shown(symbols: Seq<Symbol>, found: Seq<Found>, i: int)
    requires
        is_outline(symbols),
        0 <= i < symbols.len(),
        is_shown(symbols, found, i),
    ensures
        symbols[i].parent matches Some(parent) ==> is_shown(symbols, found, parent as int),
{
    if let Some(parent) = symbols[i].parent {
        let j = choose|j: int|
            0 <= j < symbols.len() && said_of(found, j) is Some && #[trigger] holds(symbols, i, j);
        held_by(symbols, i, parent as int, j);
    }
}

/// Why a symbol is shown: it was found, or something right inside it is shown.
proof fn shown_for(symbols: Seq<Symbol>, found: Seq<Found>, i: int)
    requires
        symbols.len() <= usize::MAX,
        is_outline(symbols),
        0 <= i < symbols.len(),
        is_shown(symbols, found, i),
    ensures
        said_of(found, i) is Some || exists|k: int|
            i < k < symbols.len() && (#[trigger] symbols[k]).parent == Some(i as usize) && is_shown(
                symbols,
                found,
                k,
            ),
{
    let j = choose|j: int|
        0 <= j < symbols.len() && said_of(found, j) is Some && #[trigger] holds(symbols, i, j);
    if i != j {
        right_inside(symbols, i, j);
        let k = choose|k: int|
            0 <= k < symbols.len() && (#[trigger] symbols[k]).parent == Some(i as usize) && holds(
                symbols,
                k,
                j,
            );
        assert(is_shown(symbols, found, k));
        assert(symbols[k].parent == Some(i as usize));
    }
}

proof fn right_inside(symbols: Seq<Symbol>, i: int, j: int)
    requires
        is_outline(symbols),
        0 <= i < symbols.len(),
        0 <= j < symbols.len(),
        i != j,
        holds(symbols, i, j),
    ensures
        exists|k: int|
            0 <= k < symbols.len() && (#[trigger] symbols[k]).parent == Some(i as usize) && holds(
                symbols,
                k,
                j,
            ),
    decreases j,
{
    let parent = symbols[j].parent->0 as int;
    if parent == i {
        assert(holds(symbols, j, j));
    } else {
        right_inside(symbols, i, parent);
        let k = choose|k: int|
            0 <= k < symbols.len() && (#[trigger] symbols[k]).parent == Some(i as usize) && holds(
                symbols,
                k,
                parent,
            );
        assert(holds(symbols, k, j));
    }
}

/// Which symbols are shown for what was found.
fn shown(symbols: &Vec<Symbol>, found: &Vec<Found>) -> (shown: Vec<bool>)
    requires
        is_outline(symbols@),
    ensures
        shown@.len() == symbols@.len(),
        forall|i: int|
            0 <= i < symbols@.len() ==> #[trigger] shown@[i] == is_shown(symbols@, found@, i),
{
    let mut marks: Vec<bool> = Vec::new();
    let mut i: usize = 0;
    while i < symbols.len()
        invariant
            i <= symbols@.len(),
            marks@.len() == i,
            forall|k: int| 0 <= k < i ==> #[trigger] marks@[k] == (said_of(found@, k) is Some),
        decreases symbols@.len() - i,
    {
        marks.push(last_said(found, i).is_some());
        i = i + 1;
    }
    let count: usize = symbols.len();
    let mut i: usize = count;
    proof {
        assert forall|k: int| 0 <= k < i && #[trigger] marks@[k] implies is_shown(
            symbols@,
            found@,
            k,
        ) by {
            assert(holds(symbols@, k, k));
        }
    }
    while i > 0
        invariant
            i <= count == symbols@.len(),
            marks@.len() == symbols@.len(),
            is_outline(symbols@),
            forall|k: int|
                i <= k < symbols@.len() ==> #[trigger] marks@[k] == is_shown(symbols@, found@, k),
            forall|k: int|
                0 <= k < i && #[trigger] marks@[k] ==> is_shown(symbols@, found@, k),
            forall|k: int|
                0 <= k < i && said_of(found@, k) is Some ==> #[trigger] marks@[k],
            forall|k: int|
                i <= k < symbols@.len() && #[trigger] marks@[k] ==> (symbols@[k].parent matches Some(
                    parent,
                ) ==> marks@[parent as int]),
        decreases i,
    {
        let ghost before = marks@;
        let at: usize = i - 1;
        proof {
            if is_shown(symbols@, found@, at as int) {
                shown_for(symbols@, found@, at as int);
                if said_of(found@, at as int) is None {
                    let k = choose|k: int|
                        at < k < symbols@.len() && (#[trigger] symbols@[k]).parent == Some(at)
                            && is_shown(symbols@, found@, k);
                    assert(marks@[k]);
                }
            }
            assert(marks@[at as int] == is_shown(symbols@, found@, at as int));
        }
        if marks[at] {
            if let Some(parent) = symbols[at].parent {
                proof {
                    assert(symbols@[at as int].parent == Some(parent));
                    what_a_shown_symbol_is_in_is_shown(symbols@, found@, at as int);
                }
                marks.set(parent, true);
            }
        }
        assert forall|k: int| at <= k < symbols@.len() implies #[trigger] marks@[k] == before[k] by {
            if let Some(parent) = symbols@[at as int].parent {
                assert(parent < at);
            }
        }
        i = at;
        assert forall|k: int|
            i <= k < symbols@.len() && #[trigger] marks@[k] implies (symbols@[k].parent matches Some(
            parent,
        ) ==> marks@[parent as int]) by {
            assert(before[k]);
        }
    }
    marks
}

/// The outline of a file, filtered by `query`, where `found` is what a search
/// of its names came to and `why` is why it is empty if it is. Filtering keeps
/// the ancestors of a match, because a method's name means little without the
/// type it hangs off.
pub fn symbol_rows(
    symbols: &Vec<Symbol>,
    why: NoOutline,
    query: &str,
    found: &Vec<Found>,
) -> (rows: Vec<Row>)
    requires
        is_outline(symbols@),
        forall|i: int, k: int|
            0 <= i < found@.len() && found@[i].index < symbols@.len() && 0 <= k
                < found@[i].matched@.len() ==> (#[trigger] found@[i].matched@[k]) + indent_shift(
                symbols@[found@[i].index as int].depth as nat,
            ) <= u32::MAX,
    ensures
        row_views(rows@) == symbols_listed(symbols@, why, query@, found@),
{
    if symbols.len() == 0 {
        return alone(
            note(
                match why {
                    NoOutline::Reading => "Reading the file…",
                    NoOutline::GaveUp =>
                        "This file's grammar gave up, so there is no outline of it",
                    NoOutline::Nothing => "Nothing in this file declares anything nun can see",
                    NoOutline::Unknown => "nun does not know this file's language",
                },
            ),
        );
    }
    let none: Vec<u32> = Vec::new();
    let mut rows: Vec<Row> = Vec::new();
    let ghost all = symbols_listed(symbols@, why, query@, found@);
    if is_blank(query) {
        let count: usize = if symbols.len() < LIMIT {
            symbols.len()
        } else {
            LIMIT
        };
        let mut i: usize = 0;
        while i < count
            invariant
                i <= count <= symbols@.len(),
                none@ == Seq::<u32>::empty(),
                all.len() == count,
                forall|k: int|
                    0 <= k < count ==> #[trigger] all[k] == symbol_row(symbols@[k], Seq::empty()),
                row_views(rows@) =~= all.take(i as int),
            decreases count - i,
        {
            let row = row_of_symbol(&symbols[i], &none);
            proof {
                row_views_push(rows@, row);
                assert(all.take(i + 1) =~= all.take(i as int).push(all[i as int]));
            }
            rows.push(row);
            i = i + 1;
        }
        assert(all.take(count as int) =~= all);
        return rows;
    }
    let marks = shown(symbols, found);
    let mut i: usize = 0;
    while i < symbols.len()
        invariant
            i <= symbols@.len(),
            none@ == Seq::<u32>::empty(),
            marks@.len() == symbols@.len(),
            forall|k: int|
                0 <= k < symbols@.len() ==> #[trigger] marks@[k] == is_shown(symbols@, found@, k),
            forall|i: int, k: int|
                0 <= i < found@.len() && found@[i].index < symbols@.len() && 0 <= k
                    < found@[i].matched@.len() ==> (#[trigger] found@[i].matched@[k])
                    + indent_shift(symbols@[found@[i].index as int].depth as nat) <= u32::MAX,
            row_views(rows@) =~= outline_rows(symbols@, found@, i as int),
        decreases symbols@.len() - i,
    {
        if marks[i] {
            let row = match last_said(found, i) {
                Some(at) => row_of_symbol(&symbols[i], &found[at].matched),
                None => row_of_symbol(&symbols[i], &none),
            };
            proof {
                row_views_push(rows@, row);
            }
            rows.push(row);
        }
        i = i + 1;
    }
    rows
}

// ── the palette itself ──────────────────────────────────────────────────────

/// A fixed list for the palette to offer.
#[derive(Debug)]
pub struct Choices {
    /// What the empty query says.
    pub title: String,
    /// What is offered.
    pub rows: Vec<Row>,
}

/// The palette, while it is open.
#[derive(Debug)]
pub struct Palette {
    /// What has been typed.
    pub query: String,
    /// What it lists.
    pub rows: Vec<Row>,
    /// Which row is selected.
    pub selected: usize,
    /// Which row is at the top.
    pub scroll: usize,
    /// Which keystroke was last searched for, so an answer to an older one,
    /// and a pick made against rows that have gone stale, can be recognised.
    pub generation: u64,
    /// The keystroke the rows on screen came from.
    pub rows_from: u64,
    /// Whether the project's files are listed, so a search has something to
    /// search.
    pub listed: bool,
    /// What had the keyboard before it opened.
    pub was_focused: Focus,
    /// A fixed list to pick from, filtered by what is typed, instead of a
    /// mode.
    pub choices: Option<Choices>,
}

impl Palette {
    /// Whether the selection is on a row, where there is one.
    pub open spec fn wf(self) -> bool {
        self.selected == 0 || self.selected < self.rows@.len()
    }

    /// The last row, or the first where there is none.
    pub open spec fn last(self) -> int {
        if self.rows@.len() == 0 {
            0
        } else {
            self.rows@.len() - 1
        }
    }

    /// The row `code` moves the selection to, where it moves it, with `page`
    /// rows in view.
    pub open spec fn step(self, code: KeyCode, page: int) -> Option<int> {
        let selected = self.selected as int;
        match code {
            KeyCode::Up => Some(
                if selected > 0 {
                    selected - 1
                } else {
                    0
                },
            ),
            KeyCode::Down => Some(
                if selected < self.last() {
                    selected + 1
                } else {
                    self.last()
                },
            ),
            KeyCode::Home => Some(0),
            KeyCode::End => Some(self.last()),
            KeyCode::PageUp => Some(
                if selected > page {
                    selected - page
                } else {
                    0
                },
            ),
            KeyCode::PageDown => Some(
                if selected + page < self.last() {
                    selected + page
                } else {
                    self.last()
                },
            ),
            _ => None,
        }
    }

    /// The palette with row `row` selected and in view, `page` rows of it
    /// being in view.
    pub open spec fn selecting(self, row: int, page: int) -> Self {
        Palette {
            selected: row as usize,
            scroll: kept_in_view(row, self.scroll as int, page) as usize,
            ..self
        }
    }

    fn last_row(&self) -> (row: usize)
        ensures
            row == self.last(),
    {
        self.rows.len().saturating_sub(1)
    }

    /// Where `code` moves the selection, with `page` rows in view.
    fn stepped(&self, code: KeyCode, page: usize) -> (row: Option<usize>)
        requires
            self.wf(),
        ensures
            match row {
                Some(row) => self.step(code, page as int) == Some(row as int) && (row == 0 || row
                    < self.rows@.len()),
                None => self.step(code, page as int) is None,
            },
    {
        match code {
            KeyCode::Up => Some(self.selected.saturating_sub(1)),
            KeyCode::Down => if self.selected < self.last_row() {
                Some(self.selected + 1)
            } else {
                Some(self.last_row())
            },
            KeyCode::Home => Some(0),
            KeyCode::End => Some(self.last_row()),
            KeyCode::PageUp => Some(self.selected.saturating_sub(page)),
            KeyCode::PageDown => {
                let last = self.last_row();
                if self.selected < last && page < last - self.selected {
                    Some(self.selected + page)
                } else {
                    Some(last)
                }
            },
            _ => None,
        }
    }
}

/// A file a search found.
#[derive(Debug)]
pub struct FileFound {
    /// Its path in the project, as it is shown.
    pub label: String,
    /// Its path in full.
    pub full: String,
    /// Whether it is open already.
    pub open: bool,
    /// How well it matched.
    pub score: u32,
    /// Which characters of its path were matched.
    pub matched: Vec<u32>,
}

/// How often `path` has been opened from the palette.
pub open spec fn votes(frecency: Seq<(String, u32)>, path: Seq<char>) -> u32
    decreases frecency.len(),
{
    if frecency.len() == 0 {
        0
    } else if frecency.last().0@ == path {
        frecency.last().1
    } else {
        votes(frecency.drop_last(), path)
    }
}

/// How a file is ranked: by how well it matched, and by how often it has been
/// opened.
pub open spec fn standing(file: FileFound, frecency: Seq<(String, u32)>) -> int {
    file.score + votes(frecency, file.full@) * FRECENCY_BONUS
}

/// What files are put in order by: the best first.
pub open spec fn file_keys(files: Seq<FileFound>, frecency: Seq<(String, u32)>) -> Seq<Key> {
    Seq::new(
        files.len(),
        |i: int| ((u32::MAX - standing(files[i], frecency)) as usize, 0usize, 0usize),
    )
}

/// A file's row.
pub open spec fn file_row(file: FileFound) -> RowModel {
    RowModel {
        label: file.label@,
        matched: file.matched@,
        hint: if file.open {
            "open"@
        } else {
            ""@
        },
        pick: PickModel::File(file.full@),
    }
}

/// The rows of `files`.
pub open spec fn file_rows(files: Seq<FileFound>) -> Seq<RowModel> {
    Seq::new(files.len(), |i: int| file_row(files[i]))
}

/// Where `path` is in `frecency`, and how often it has been opened.
fn tally_of(frecency: &Vec<(String, u32)>, path: &String) -> (found: Option<usize>)
    ensures
        match found {
            Some(at) => {
                &&& at < frecency@.len()
                &&& frecency@[at as int].0@ == path@
                &&& frecency@[at as int].1 == votes(frecency@, path@)
                &&& forall|k: int| at < k < frecency@.len() ==> (#[trigger] frecency@[k]).0@ != path@
            },
            None => votes(frecency@, path@) == 0 && forall|k: int|
                0 <= k < frecency@.len() ==> (#[trigger] frecency@[k]).0@ != path@,
        },
{
    let mut i: usize = frecency.len();
    assert(frecency@.take(frecency@.len() as int) =~= frecency@);
    while i > 0
        invariant
            i <= frecency@.len(),
            votes(frecency@, path@) == votes(frecency@.take(i as int), path@),
            forall|k: int| i <= k < frecency@.len() ==> (#[trigger] frecency@[k]).0@ != path@,
        decreases i,
    {
        assert(frecency@.take(i as int).drop_last() =~= frecency@.take(i - 1));
        if frecency[i - 1].0 == *path {
            return Some(i - 1);
        }
        i = i - 1;
    }
    None
}

/// Changing how often one path has been opened says nothing of another.
proof fn votes_apart(frecency: Seq<(String, u32)>, at: int, entry: (String, u32), path: Seq<char>)
    requires
        0 <= at < frecency.len(),
        entry.0@ == frecency[at].0@,
        forall|k: int| at < k < frecency.len() ==> (#[trigger] frecency[k]).0@ != entry.0@,
    ensures
        votes(frecency.update(at, entry), path) == if path == entry.0@ {
            entry.1
        } else {
            votes(frecency, path)
        },
    decreases frecency.len(),
{
    let after = frecency.update(at, entry);
    if at == frecency.len() - 1 {
        assert(after.drop_last() =~= frecency.drop_last());
    } else {
        assert(frecency.last() == frecency[frecency.len() - 1]);
        assert(after.drop_last() =~= frecency.drop_last().update(at, entry));
        votes_apart(frecency.drop_last(), at, entry, path);
    }
}

/// Count one more opening of `path`.
pub fn vote(frecency: &mut Vec<(String, u32)>, path: &String)
    requires
        votes(old(frecency)@, path@) < u32::MAX,
    ensures
        forall|other: Seq<char>| #[trigger]
            votes(final(frecency)@, other) == if other == path@ {
                (votes(old(frecency)@, path@) + 1) as u32
            } else {
                votes(old(frecency)@, other)
            },
{
    let ghost before = frecency@;
    match tally_of(frecency, path) {
        Some(at) => {
            let count: u32 = frecency[at].1;
            let entry = (path.clone(), count + 1);
            proof {
                assert forall|other: Seq<char>| #[trigger]
                    votes(before.update(at as int, entry), other) == if other == path@ {
                        (votes(before, path@) + 1) as u32
                    } else {
                        votes(before, other)
                    } by {
                    votes_apart(before, at as int, entry, other);
                }
            }
            frecency.set(at, entry);
        },
        None => {
            let entry = (path.clone(), 1u32);
            frecency.push(entry);
            assert(frecency@.drop_last() =~= before);
        },
    }
}

/// What is to be searched for the palette's rows.
#[derive(Debug)]
pub enum Wanted {
    /// Nothing: the rows are there.
    Nothing,
    /// The project's files, for this query, as this keystroke.
    Files(String, u64),
    /// The choices, for this query.
    Choices(String),
    /// The commands, for this query.
    Commands(String),
    /// The line this query names.
    Line(String),
    /// The outline of the file, for this query.
    Symbols(String),
}

/// What is to be searched, as a value.
pub enum WantedModel {
    /// Nothing.
    Nothing,
    /// The project's files.
    Files(Seq<char>, u64),
    /// The choices.
    Choices(Seq<char>),
    /// The commands.
    Commands(Seq<char>),
    /// A line.
    Line(Seq<char>),
    /// The outline of the file.
    Symbols(Seq<char>),
}

impl View for Wanted {
    type V = WantedModel;

    open spec fn view(&self) -> WantedModel {
        match *self {
            Wanted::Nothing => WantedModel::Nothing,
            Wanted::Files(query, generation) => WantedModel::Files(query@, generation),
            Wanted::Choices(query) => WantedModel::Choices(query@),
            Wanted::Commands(query) => WantedModel::Commands(query@),
            Wanted::Line(query) => WantedModel::Line(query@),
            Wanted::Symbols(query) => WantedModel::Symbols(query@),
        }
    }
}

/// What a key does to the palette.
#[derive(Debug, Clone, Copy, PartialEq, Eq, Structural)]
pub enum KeyTask {
    /// There is no palette.
    Ignore,
    /// It is to be closed.
    Close,
    /// This row was picked; `split` opens a file in a new pane.
    Pick {
        /// Which row.
        index: usize,
        /// Whether in a new pane.
        split: bool,
    },
    /// It is to be drawn again.
    Draw,
    /// What was typed changed, and its rows are to be worked out.
    Refresh,
}

/// What picking a row comes to.
#[derive(Debug)]
pub enum Picked {
    /// Nothing: there is no palette, or its rows are an older keystroke's.
    Ignore,
    /// The palette stays as it is.
    Stay,
    /// Its query was started again, and its rows are to be worked out.
    Refresh,
    /// Open this file, in a new pane or not.
    File(String, bool),
    /// Run this command.
    Run(Command),
    /// Go to this line, counting from one.
    Line(usize),
    /// Go to this char offset.
    At(u32),
    /// Go to this place, here or beside.
    Place(Place, Open),
    /// Carry out this code action.
    Action(usize),
}

/// `query` without the last of its grapheme clusters, which `clusters` are.
/// `None` where there is none.
pub fn without_last(clusters: &Vec<String>) -> (rest: Option<String>)
    ensures
        match rest {
            Some(rest) => clusters@.len() > 0 && rest@ == joined(views(clusters@).drop_last()),
            None => clusters@.len() == 0,
        },
{
    if clusters.len() == 0 {
        return None;
    }
    let mut rest = String::new();
    let ghost parts = views(clusters@);
    let mut i: usize = 0;
    while i < clusters.len() - 1
        invariant
            0 <= i < clusters@.len(),
            parts == views(clusters@),
            rest@ == joined(parts.take(i as int)),
        decreases clusters@.len() - i,
    {
        rest.append(clusters[i].as_str());
        proof {
            joined_push(parts, i as int);
        }
        i = i + 1;
    }
    assert(parts.take(clusters@.len() - 1) =~= parts.drop_last());
    Some(rest)
}

/// `text` without its line breaks.
pub open spec fn on_one_line(text: Seq<char>) -> Seq<char>
    decreases text.len(),
{
    if text.len() == 0 {
        Seq::empty()
    } else if text.last() == '\n' || text.last() == '\r' {
        on_one_line(text.drop_last())
    } else {
        on_one_line(text.drop_last()).push(text.last())
    }
}

/// Everything the palette keeps, open or not.
#[derive(Debug)]
pub struct Finder {
    /// The palette, while it is open.
    pub palette: Option<Palette>,
    /// How many searches for files there have been.
    pub searches: u64,
    /// How many files the project has, once they have been listed.
    pub file_count: Option<usize>,
    /// How often each file has been opened from the palette.
    pub frecency: Vec<(String, u32)>,
}

impl Palette {
    /// Whether it has just opened with `prefix` typed, `focus` having had the
    /// keyboard; `listed` is whether the project's files are known.
    pub open spec fn is_opened(self, prefix: Seq<char>, focus: Focus, listed: bool) -> bool {
        &&& self.query@ == prefix
        &&& self.rows@.len() == 0
        &&& self.selected == 0
        &&& self.scroll == 0
        &&& self.generation == 0
        &&& self.rows_from == 0
        &&& self.listed == listed
        &&& self.was_focused == focus
    }
}

impl Finder {
    /// Whether an open palette's selection is on a row, where there is one,
    /// and its search is one there has been.
    pub open spec fn wf(self) -> bool {
        self.palette matches Some(palette) ==> palette.wf() && palette.generation <= self.searches
    }

    /// Nothing open, and nothing remembered.
    pub fn new() -> (finder: Self)
        ensures
            finder.wf(),
            finder.palette is None,
            finder.searches == 0,
            finder.file_count is None,
            finder.frecency@.len() == 0,
    {
        Finder { palette: None, searches: 0, file_count: None, frecency: Vec::new() }
    }

    /// Open the palette with `prefix` already typed, while `focus` has the
    /// keyboard and a project is open or not. Whether the project is to be
    /// listed: it is walked once and the list kept.
    pub fn open_palette(&mut self, prefix: &str, focus: Focus, rooted: bool) -> (list: bool)
        ensures
            final(self).wf(),
            list == (rooted && old(self).file_count is None),
            *final(self) == (Finder { palette: final(self).palette, ..*old(self) }),
            final(self).palette matches Some(palette) && palette.is_opened(
                prefix@,
                focus,
                old(self).file_count is Some,
            ) && palette.choices is None,
    {
        self.palette = Some(
            Palette {
                query: prefix.to_owned(),
                rows: Vec::new(),
                selected: 0,
                scroll: 0,
                generation: 0,
                rows_from: 0,
                listed: self.file_count.is_some(),
                was_focused: focus,
                choices: None,
            },
        );
        rooted && self.file_count.is_none()
    }

    /// Open the palette on a fixed list of `rows`, headed by `title`, while
    /// `focus` has the keyboard.
    pub fn open_choices(&mut self, title: String, rows: Vec<Row>, focus: Focus)
        ensures
            final(self).wf(),
            *final(self) == (Finder { palette: final(self).palette, ..*old(self) }),
            final(self).palette matches Some(palette) && palette.is_opened(""@, focus, false)
                && palette.choices == Some(Choices { title, rows }),
    {
        self.palette = Some(
            Palette {
                query: "".to_owned(),
                rows: Vec::new(),
                selected: 0,
                scroll: 0,
                generation: 0,
                rows_from: 0,
                listed: false,
                was_focused: focus,
                choices: Some(Choices { title, rows }),
            },
        );
    }

    /// Close it. What had the keyboard before it opened, which gets it back.
    pub fn close_palette(&mut self) -> (focus: Option<Focus>)
        ensures
            final(self).wf(),
            *final(self) == (Finder { palette: None, ..*old(self) }),
            focus == match old(self).palette {
                Some(palette) => Some(palette.was_focused),
                None => None,
            },
    {
        match self.palette.take() {
            Some(palette) => Some(palette.was_focused),
            None => None,
        }
    }

    /// A key while the palette is open, with `visible` rows in view.
    /// Everything goes to it: nothing reaches the text behind it.
    pub fn palette_key(&mut self, key: &KeyEvent, visible: usize) -> (task: KeyTask)
        requires
            old(self).wf(),
        ensures
            final(self).wf(),
            *final(self) == (Finder { palette: final(self).palette, ..*old(self) }),
            match old(self).palette {
                None => task == KeyTask::Ignore && final(self).palette is None,
                Some(palette) => {
                    let held = key.modifiers.control || key.modifiers.cmd;
                    let step = palette.step(key.code, visible as int);
                    final(self).palette matches Some(after) && {
                        &&& after == (Palette {
                            query: after.query,
                            selected: after.selected,
                            scroll: after.scroll,
                            ..palette
                        })
                        &&& match key.code {
                            KeyCode::Esc => task == KeyTask::Close && after == palette,
                            KeyCode::Enter => task == (KeyTask::Pick {
                                index: palette.selected,
                                split: key.modifiers.alt,
                            }) && after == palette,
                            KeyCode::Backspace => {
                                let clusters = grapheme_clusters(palette.query@);
                                if palette.query@.len() == 0 {
                                    task == KeyTask::Close && after == palette
                                } else {
                                    &&& task == KeyTask::Refresh
                                    &&& after.query@ == joined(clusters.drop_last())
                                    &&& after.selected == palette.selected
                                    &&& after.scroll == palette.scroll
                                }
                            },
                            KeyCode::Char(ch) if !held => {
                                &&& task == KeyTask::Refresh
                                &&& after.query@ == palette.query@.push(ch)
                                &&& after.selected == palette.selected
                                &&& after.scroll == palette.scroll
                            },
                            _ => {
                                &&& task == KeyTask::Draw
                                &&& step is Some ==> after == palette.selecting(
                                    step->0,
                                    visible as int,
                                )
                                &&& step is None ==> after == palette
                            },
                        }
                    }
                },
            },
    {
        let Some(mut palette) = self.palette.take() else {
            return KeyTask::Ignore;
        };
        let control = key.modifiers.control || key.modifiers.cmd;
        let mut task = KeyTask::Draw;
        match key.code {
            KeyCode::Esc => {
                task = KeyTask::Close;
            },
            KeyCode::Enter => {
                task = KeyTask::Pick { index: palette.selected, split: key.modifiers.alt };
            },
            KeyCode::Backspace => {
                let clusters = graphemes(palette.query.as_str());
                match without_last(&clusters) {
                    Some(rest) => {
                        proof {
                            assert(clusters@[0]@.len() > 0);
                            joined_push(views(clusters@), 0);
                            assert(views(clusters@).take(0) =~= Seq::empty());
                            crate::unicode::joined_starts(views(clusters@), 1);
                        }
                        palette.query = rest;
                        task = KeyTask::Refresh;
                    },
                    None => {
                        assert(views(clusters@) =~= Seq::empty());
                        task = KeyTask::Close;
                    },
                }
            },
            KeyCode::Char(ch) => {
                if !control {
                    push(&mut palette.query, ch);
                    task = KeyTask::Refresh;
                }
            },
            code => {
                if let Some(row) = palette.stepped(code, visible) {
                    palette.selected = row;
                    palette.scroll = keep_in_view(row, palette.scroll, visible);
                }
            },
        }
        self.palette = Some(palette);
        task
    }

    /// Text pasted into the palette goes into the query, on one line. Whether
    /// its rows are to be worked out.
    pub fn palette_paste(&mut self, text: &str) -> (refresh: bool)
        requires
            old(self).wf(),
        ensures
            final(self).wf(),
            refresh == (old(self).palette is Some),
            *final(self) == (Finder { palette: final(self).palette, ..*old(self) }),
            match old(self).palette {
                None => final(self).palette is None,
                Some(palette) => final(self).palette matches Some(after) && after == (Palette {
                    query: after.query,
                    ..palette
                }) && after.query@ == palette.query@ + on_one_line(text@),
            },
    {
        let Some(mut palette) = self.palette.take() else {
            return false;
        };
        let chars = chars_of(text);
        let ghost query = palette.query@;
        let ghost before = palette;
        let mut i: usize = 0;
        while i < chars.len()
            invariant
                i <= chars@.len(),
                chars@ == text@,
                palette == (Palette { query: palette.query, ..before }),
                palette.query@ =~= query + on_one_line(text@.take(i as int)),
            decreases chars@.len() - i,
        {
            let ch = chars[i];
            assert(text@.take(i + 1).drop_last() =~= text@.take(i as int));
            if ch != '\n' && ch != '\r' {
                push(&mut palette.query, ch);
            }
            i = i + 1;
        }
        assert(text@.take(text@.len() as int) =~= text@);
        self.palette = Some(palette);
        true
    }

    /// Start working out the rows for what has been typed, a project being
    /// open or not. What is still to be searched for them.
    ///
    /// Searches for files are numbered for the life of the editor, so one from
    /// a palette just closed can never look newer than one from the palette
    /// just opened.
    pub fn refresh_palette(&mut self, rooted: bool) -> (wanted: Wanted)
        requires
            old(self).wf(),
            old(self).searches < u64::MAX,
        ensures
            final(self).wf(),
            final(self).file_count == old(self).file_count,
            final(self).frecency == old(self).frecency,
            match old(self).palette {
                None => wanted is Nothing && *final(self) == *old(self),
                Some(palette) => final(self).palette matches Some(after) && {
                    let mode = Mode::mode(palette.query@);
                    let rest = Mode::rest(palette.query@);
                    let files = palette.choices is None && mode == Mode::Files;
                    let number = old(self).searches + 1;
                    &&& after == (Palette {
                        rows: after.rows,
                        selected: 0,
                        scroll: 0,
                        generation: if files {
                            number as u64
                        } else {
                            palette.generation
                        },
                        ..palette
                    })
                    &&& final(self).searches == if files {
                        number
                    } else {
                        old(self).searches as int
                    }
                    &&& wanted@ == if palette.choices is Some {
                        WantedModel::Choices(palette.query@)
                    } else {
                        match mode {
                            Mode::Files => if palette.listed {
                                WantedModel::Files(rest, number as u64)
                            } else {
                                WantedModel::Nothing
                            },
                            Mode::Commands => WantedModel::Commands(rest),
                            Mode::Line => WantedModel::Line(rest),
                            Mode::Symbols => WantedModel::Symbols(rest),
                            _ => WantedModel::Nothing,
                        }
                    }
                    &&& !(wanted@ is Nothing) ==> after.rows == palette.rows
                    &&& wanted@ is Nothing ==> row_views(after.rows@) == match mode {
                        Mode::Help => help(),
                        Mode::ProjectSymbols => seq![
                            noted(
                                "Symbols across the project arrive with the language servers — milestone 4"@,
                            ),
                        ],
                        _ => seq![
                            noted(
                                if rooted {
                                    "Listing the project…"@
                                } else {
                                    "No folder is open — start nun on one: `nun .`"@
                                },
                            ),
                        ],
                    }
                },
            },
    {
        let Some(mut palette) = self.palette.take() else {
            return Wanted::Nothing;
        };
        palette.selected = 0;
        palette.scroll = 0;
        if palette.choices.is_some() {
            let query = palette.query.clone();
            self.palette = Some(palette);
            return Wanted::Choices(query);
        }
        let (mode, rest) = Mode::of(palette.query.as_str());
        let wanted = match mode {
            Mode::Files => {
                let generation: u64 = self.searches + 1;
                palette.generation = generation;
                self.searches = generation;
                if palette.listed {
                    Wanted::Files(rest, generation)
                } else {
                    palette.rows = alone(
                        note(
                            if rooted {
                                "Listing the project…"
                            } else {
                                "No folder is open — start nun on one: `nun .`"
                            },
                        ),
                    );
                    Wanted::Nothing
                }
            },
            Mode::Commands => Wanted::Commands(rest),
            Mode::Line => Wanted::Line(rest),
            Mode::Symbols => Wanted::Symbols(rest),
            Mode::ProjectSymbols => {
                palette.rows = alone(
                    note(
                        "Symbols across the project arrive with the language servers — milestone 4",
                    ),
                );
                Wanted::Nothing
            },
            Mode::Help => {
                palette.rows = help_rows();
                Wanted::Nothing
            },
        };
        self.palette = Some(palette);
        wanted
    }

    /// The rows that were worked out go on screen.
    pub fn show_rows(&mut self, rows: Vec<Row>)
        requires
            old(self).wf(),
        ensures
            final(self).wf(),
            *final(self) == (Finder { palette: final(self).palette, ..*old(self) }),
            final(self).palette == match old(self).palette {
                None => None,
                Some(palette) => Some(Palette { rows, selected: 0, scroll: 0, ..palette }),
            },
    {
        if let Some(mut palette) = self.palette.take() {
            palette.rows = rows;
            palette.selected = 0;
            palette.scroll = 0;
            self.palette = Some(palette);
        }
    }

    /// A search of the choices came to `found`, which goes on screen.
    pub fn choices_found(&mut self, found: &Vec<Found>)
        requires
            old(self).wf(),
            old(self).palette matches Some(palette) ==> (palette.choices matches Some(choices)
                ==> forall|i: int|
                0 <= i < found@.len() ==> (#[trigger] found@[i]).index < choices.rows@.len()),
        ensures
            final(self).wf(),
            *final(self) == (Finder { palette: final(self).palette, ..*old(self) }),
            match old(self).palette {
                Some(palette) if palette.choices is Some => final(self).palette matches Some(after)
                    && after == (Palette { rows: after.rows, selected: 0, scroll: 0, ..palette })
                    && row_views(after.rows@) == chosen(palette.choices->0.rows@, found@),
                _ => *final(self) == *old(self),
            },
    {
        let rows = match &self.palette {
            Some(palette) => match &palette.choices {
                Some(choices) => choice_rows(&choices.rows, found),
                None => return ,
            },
            None => return ,
        };
        self.show_rows(rows);
    }

    /// Whether the palette is open and showing this file's outline.
    pub fn palette_wants_symbols(&self) -> (wants: bool)
        ensures
            wants == (self.palette matches Some(palette) && Mode::mode(palette.query@)
                == Mode::Symbols),
    {
        match &self.palette {
            Some(palette) => {
                let (mode, _) = Mode::of(palette.query.as_str());
                mode == Mode::Symbols
            },
            None => false,
        }
    }

    /// Whether an answer for `query`, asked as keystroke `generation`, is to
    /// what is typed now.
    pub open spec fn awaits(self, query: Seq<char>, generation: u64) -> bool {
        self.palette matches Some(palette) && Mode::mode(palette.query@) == Mode::Files
            && generation == palette.generation && Mode::rest(palette.query@) == query
    }

    /// A search for files was answered. An answer to a keystroke that has been
    /// typed past, or to a mode that is no longer showing, is not worth
    /// drawing.
    pub fn palette_found(&mut self, query: &str, generation: u64, results: Vec<FileFound>)
        -> (outcome: Outcome)
        requires
            old(self).wf(),
            forall|i: int|
                0 <= i < results@.len() ==> standing(
                    #[trigger] results@[i],
                    old(self).frecency@,
                ) <= u32::MAX,
        ensures
            final(self).wf(),
            *final(self) == (Finder { palette: final(self).palette, ..*old(self) }),
            if old(self).awaits(query@, generation) {
                &&& outcome == Outcome::Redraw
                &&& final(self).palette matches Some(after) && {
                    &&& after == (Palette {
                        rows: after.rows,
                        rows_from: generation,
                        selected: 0,
                        scroll: 0,
                        ..old(self).palette->0
                    })
                    &&& if results@.len() == 0 && query@.len() > 0 {
                        row_views(after.rows@) == seq![noted("No file matches that"@)]
                    } else {
                        exists|order: Seq<usize>| #[trigger]
                            is_ranking(order, file_keys(results@, old(self).frecency@))
                                && row_views(after.rows@) == picked(file_rows(results@), order)
                    }
                }
            } else {
                outcome == Outcome::Continue && *final(self) == *old(self)
            },
    {
        let wanted = match &self.palette {
            Some(palette) => {
                let (mode, rest) = Mode::of(palette.query.as_str());
                mode == Mode::Files && generation == palette.generation && rest == query.to_owned()
            },
            None => false,
        };
        if !wanted {
            return Outcome::Continue;
        }
        let ghost frecency = self.frecency@;
        let mut keys: Vec<Key> = Vec::new();
        let mut i: usize = 0;
        while i < results.len()
            invariant
                i <= results@.len(),
                self.frecency@ == frecency,
                *self == *old(self),
                forall|i: int|
                    0 <= i < results@.len() ==> standing(#[trigger] results@[i], frecency)
                        <= u32::MAX,
                keys@ =~= file_keys(results@, frecency).take(i as int),
            decreases results@.len() - i,
        {
            let file = &results[i];
            let count: u32 = match tally_of(&self.frecency, &file.full) {
                Some(at) => self.frecency[at].1,
                None => 0,
            };
            assert(standing(results@[i as int], frecency) <= u32::MAX);
            assert(count == votes(frecency, file.full@));
            let total: u64 = file.score as u64 + count as u64 * FRECENCY_BONUS as u64;
            keys.push(((u32::MAX - total as u32) as usize, 0, 0));
            i = i + 1;
        }
        assert(keys@ =~= file_keys(results@, frecency));
        let order = ranking(&keys);
        let mut rows: Vec<Row> = Vec::new();
        let ghost all = picked(file_rows(results@), order@);
        let mut i: usize = 0;
        while i < order.len()
            invariant
                i <= order@.len(),
                *self == *old(self),
                order@.len() == results@.len(),
                all == picked(file_rows(results@), order@),
                forall|k: int| 0 <= k < order@.len() ==> (#[trigger] order@[k]) < results@.len(),
                row_views(rows@) =~= all.take(i as int),
            decreases order@.len() - i,
        {
            assert(order@[i as int] < results@.len());
            let file = &results[order[i]];
            let row = Row {
                entry: Entry {
                    label: file.label.clone(),
                    matched: offsets(&file.matched),
                    hint: if file.open {
                        "open".to_owned()
                    } else {
                        "".to_owned()
                    },
                },
                pick: Pick::File(file.full.clone()),
            };
            proof {
                row_views_push(rows@, row);
                assert(all.take(i + 1) =~= all.take(i as int).push(all[i as int]));
            }
            rows.push(row);
            i = i + 1;
        }
        assert(all.take(order@.len() as int) =~= all);
        if rows.len() == 0 && !query.is_empty() {
            rows = alone(note("No file matches that"));
        }
        if let Some(mut palette) = self.palette.take() {
            palette.rows = rows;
            palette.rows_from = generation;
            palette.selected = 0;
            palette.scroll = 0;
            self.palette = Some(palette);
        }
        Outcome::Redraw
    }

    /// The project's files have been listed. Whether the palette has been
    /// waiting for that, and its rows are to be worked out.
    pub fn palette_listed(&mut self, count: usize) -> (refresh: bool)
        requires
            old(self).wf(),
        ensures
            final(self).wf(),
            refresh == (old(self).palette matches Some(palette) && !palette.listed),
            *final(self) == (Finder {
                file_count: Some(count),
                palette: match old(self).palette {
                    None => None,
                    Some(palette) => Some(Palette { listed: true, ..palette }),
                },
                ..*old(self)
            }),
    {
        self.file_count = Some(count);
        if let Some(mut palette) = self.palette.take() {
            let waiting = !palette.listed;
            palette.listed = true;
            self.palette = Some(palette);
            return waiting;
        }
        false
    }

    /// Whether the rows on screen came from an older keystroke than the last,
    /// and are not what is typed.
    pub open spec fn stale(self) -> bool {
        self.palette matches Some(palette) && Mode::mode(palette.query@) == Mode::Files
            && palette.rows_from != palette.generation
    }

    /// What row `index` does is to be done, a file in a new pane where
    /// `split`. Rows from an older keystroke are still on screen while a
    /// search for the current one is answered; picking one of those does
    /// nothing.
    pub fn pick_row(&mut self, index: usize, split: bool) -> (done: Picked)
        requires
            old(self).wf(),
            old(self).palette matches Some(palette) ==> index < palette.rows@.len() ==> (
            palette.rows@[index as int].pick matches Pick::File(path) ==> votes(
                old(self).frecency@,
                path@,
            ) < u32::MAX),
        ensures
            final(self).wf(),
            final(self).searches == old(self).searches,
            final(self).file_count == old(self).file_count,
            ({
                let stays = *final(self) == *old(self);
                let goes = *final(self) == (Finder { palette: None, ..*old(self) });
                match old(self).palette {
                    None => done is Ignore && stays,
                    Some(palette) => if old(self).stale() {
                        done is Ignore && stays
                    } else if index >= palette.rows@.len() {
                        done is Stay && stays
                    } else {
                        match palette.rows@[index as int].pick {
                            Pick::Nothing => done is Stay && stays,
                            Pick::Place(place, open) => goes && done == Picked::Place(
                                place,
                                if split {
                                    Open::Beside
                                } else {
                                    open
                                },
                            ),
                            Pick::Action(action) => goes && done == Picked::Action(action),
                            Pick::Run(command) => goes && done == Picked::Run(command),
                            Pick::Line(line) => goes && done == Picked::Line(line),
                            Pick::At(at) => goes && done == Picked::At(at),
                            Pick::File(path) => {
                                &&& done == Picked::File(path, split)
                                &&& final(self).palette is None
                                &&& forall|other: Seq<char>| #[trigger]
                                    votes(final(self).frecency@, other) == if other == path@ {
                                        (votes(old(self).frecency@, path@) + 1) as u32
                                    } else {
                                        votes(old(self).frecency@, other)
                                    }
                            },
                            Pick::Prefix(prefix) => {
                                &&& done is Refresh
                                &&& *final(self) == (Finder {
                                    palette: Some(Palette { query: prefix, ..palette }),
                                    ..*old(self)
                                })
                            },
                        }
                    },
                }
            }),
    {
        let Some(mut palette) = self.palette.take() else {
            return Picked::Ignore;
        };
        let (mode, _) = Mode::of(palette.query.as_str());
        if mode == Mode::Files && palette.rows_from != palette.generation {
            self.palette = Some(palette);
            return Picked::Ignore;
        }
        if index >= palette.rows.len() {
            self.palette = Some(palette);
            return Picked::Stay;
        }
        match palette.rows[index].pick.clone() {
            Pick::Nothing => {
                self.palette = Some(palette);
                Picked::Stay
            },
            Pick::Place(place, open) => Picked::Place(
                place,
                if split {
                    Open::Beside
                } else {
                    open
                },
            ),
            Pick::Action(action) => Picked::Action(action),
            Pick::Run(command) => Picked::Run(command),
            Pick::Line(line) => Picked::Line(line),
            Pick::At(at) => Picked::At(at),
            Pick::File(path) => {
                vote(&mut self.frecency, &path);
                Picked::File(path, split)
            },
            Pick::Prefix(prefix) => {
                palette.query = prefix;
                self.palette = Some(palette);
                Picked::Refresh
            },
        }
    }

    /// The wheel over the palette, `visible` rows of it in view.
    pub fn palette_scroll(&mut self, down: bool, visible: usize) -> (outcome: Outcome)
        requires
            old(self).wf(),
        ensures
            final(self).wf(),
            *final(self) == (Finder { palette: final(self).palette, ..*old(self) }),
            outcome == Outcome::spec_redraw_if(old(self).palette is Some),
            final(self).palette == match old(self).palette {
                None => None,
                Some(palette) => Some(
                    Palette {
                        scroll: wheeled(
                            palette.scroll as int,
                            down,
                            3,
                            palette.rows@.len() as int,
                            visible as int,
                        ) as usize,
                        ..palette
                    },
                ),
            },
    {
        let Some(mut palette) = self.palette.take() else {
            return Outcome::Continue;
        };
        palette.scroll = wheel(palette.scroll, down, 3, palette.rows.len(), visible);
        self.palette = Some(palette);
        Outcome::Redraw
    }
}

/// The first `count` rows in view of a palette in `area` scrolled to `scroll`,
/// as parts of the screen.
pub open spec fn row_hits(area: Rect, scroll: int, count: nat) -> Seq<Hit> {
    Seq::new(
        count,
        |i: int|
            Hit {
                area: Rect { y: (area.y + 2 + i) as u16, height: 1, ..area },
                target: Target::PaletteRow((scroll + i) as usize),
                hover: true,
            },
    )
}

/// How many of `rows` rows are in view, scrolled to `scroll`, where `visible`
/// fit.
pub open spec fn rows_in_view(rows: nat, scroll: nat, visible: nat) -> nat {
    if scroll >= rows {
        0
    } else if rows - scroll <= visible {
        (rows - scroll) as nat
    } else {
        visible
    }
}

/// What the palette puts on screen, in `area` of `viewport`: the rest of the
/// screen, where a click closes it, then itself, then its rows.
pub fn layout_palette(palette: &Palette, viewport: Rect, area: Rect, visible: u16) -> (hits: Vec<
    Hit,
>)
    requires
        area.y + 2 + visible <= u16::MAX,
    ensures
        hits@ == seq![
            Hit { area: viewport, target: Target::PaletteOutside, hover: false },
            Hit { area, target: Target::Palette, hover: false },
        ] + row_hits(
            area,
            palette.scroll as int,
            rows_in_view(palette.rows@.len(), palette.scroll as nat, visible as nat),
        ),
{
    let mut hits: Vec<Hit> = Vec::new();
    hits.push(Hit { area: viewport, target: Target::PaletteOutside, hover: false });
    hits.push(Hit { area, target: Target::Palette, hover: false });
    let ghost top = hits@;
    let scroll: usize = palette.scroll;
    let ghost count = rows_in_view(palette.rows@.len(), scroll as nat, visible as nat);
    let mut offset: u16 = 0;
    while offset < visible && scroll < palette.rows.len() && (offset as usize) < palette.rows.len()
        - scroll
        invariant
            offset <= count,
            area.y + 2 + visible <= u16::MAX,
            count == rows_in_view(palette.rows@.len(), scroll as nat, visible as nat),
            hits@ =~= top + row_hits(area, scroll as int, offset as nat),
        decreases visible - offset,
    {
        hits.push(
            Hit {
                area: Rect { x: area.x, y: area.y + 2 + offset, width: area.width, height: 1 },
                target: Target::PaletteRow(scroll + offset as usize),
                hover: true,
            },
        );
        offset = offset + 1;
    }
    hits
}

/// An answer to an older keystroke is never drawn: once a newer search has
/// been numbered, no answer to any earlier one is awaited.
pub proof fn an_older_answer_is_dropped(
    before: Finder,
    after: Finder,
    generation: u64,
    query: Seq<char>,
)
    requires
        before.wf(),
        generation <= before.searches,
        after.palette matches Some(palette) && palette.generation == before.searches + 1,
    ensures
        !after.awaits(query, generation),
{
}

/// A query in a mode of its own is that mode's prefix and the rest.
pub proof fn a_prefix_is_one_character(query: Seq<char>)
    ensures
        Mode::mode(query) != Mode::Files ==> query == seq![query[0]] + Mode::rest(query),
        Mode::mode(query) == Mode::Files ==> Mode::rest(query) == query,
{
    if Mode::mode(query) != Mode::Files {
        assert(query =~= seq![query[0]] + query.skip(1));
    }
}

/// Each prefix is one char and has one mode, and what follows it is what is looked
/// for; a query that starts with none of them is for a file, all of it.
pub proof fn each_prefix_has_its_mode(ch: char, rest: Seq<char>)
    ensures
        ({
            let query = seq![ch] + rest;
            &&& ch == '>' ==> Mode::mode(query) is Commands && Mode::rest(query) == rest
            &&& ch == ':' ==> Mode::mode(query) is Line && Mode::rest(query) == rest
            &&& ch == '@' ==> Mode::mode(query) is Symbols && Mode::rest(query) == rest
            &&& ch == '#' ==> Mode::mode(query) is ProjectSymbols && Mode::rest(query) == rest
            &&& ch == '?' ==> Mode::mode(query) is Help && Mode::rest(query) == rest
            &&& ch != '>' && ch != ':' && ch != '@' && ch != '#' && ch != '?' ==> Mode::mode(query)
                is Files && Mode::rest(query) == query
        }),
        Mode::mode(Seq::empty()) is Files,
{
    assert((seq![ch] + rest).skip(1) =~= rest);
}

/// The list of prefixes has every mode, each under its own.
pub proof fn help_has_every_mode(at: int)
    requires
        0 <= at < help().len(),
    ensures
        help().len() == 6,
        help()[at].pick matches PickModel::Prefix(prefix) && match Mode::mode(prefix) {
            Mode::Files => at == 0,
            Mode::Commands => at == 1,
            Mode::Line => at == 2,
            Mode::Symbols => at == 3,
            Mode::ProjectSymbols => at == 4,
            Mode::Help => at == 5,
        },
{
    reveal_strlit("");
    reveal_strlit(">");
    reveal_strlit(":");
    reveal_strlit("@");
    reveal_strlit("#");
    reveal_strlit("?");
}

/// A line number goes to that line, and one past either end to the line there; what
/// is no number goes nowhere, and says which are.
pub proof fn a_line_number_goes_to_a_line_there_is(query: Seq<char>, lines: nat)
    requires
        1 <= lines <= usize::MAX,
    ensures
        number_in(trimmed(query), usize::MAX as nat) is None ==> line_row(query, lines).pick is Nothing
            && line_row(query, lines).label == "Type a line number, 1 to "@ + decimal_of(lines),
        number_in(trimmed(query), usize::MAX as nat) matches Some(n) ==> (line_row(
            query,
            lines,
        ).pick matches PickModel::Line(line) && {
            &&& 1 <= line <= lines
            &&& 1 <= n <= lines ==> line == n
            &&& n > lines ==> line == lines
            &&& line_row(query, lines).label == "Line "@ + decimal_of(line as nat)
            &&& line_row(query, lines).hint == "of "@ + decimal_of(lines)
        }),
{
}

/// A row found by what is typed is the row it was found as, with what was matched of
/// it picked out.
pub proof fn what_is_found_is_offered_as_it_is(
    rows: Seq<Row>,
    all: Seq<Listed>,
    found: Seq<Found>,
    at: int,
)
    requires
        0 <= at < found.len(),
    ensures
        chosen(rows, found).len() == found.len(),
        ({
            let row = chosen(rows, found)[at];
            let was = rows[found[at].index as int]@;
            row.label == was.label && row.hint == was.hint && row.pick == was.pick && row.matched
                == found[at].matched@
        }),
        commands_found(all, found).len() == found.len(),
        ({
            let row = commands_found(all, found)[at];
            let listed = all[found[at].index as int];
            row.label == listed.title@ && row.hint == listed.binding@ && row.pick == PickModel::Run(
                listed.command,
            ) && row.matched == found[at].matched@
        }),
{
}

/// A symbol's row is its name, two spaces further in for each thing it is declared
/// in, and what is picked out of it is what was matched of the name.
pub proof fn a_symbol_s_row_picks_out_its_name(symbol: Symbol, matched: Seq<u32>, at: int)
    requires
        0 <= at < matched.len(),
        matched[at] < symbol.name@.len(),
        matched[at] + 2 * symbol.depth <= u32::MAX,
    ensures
        ({
            let row = symbol_row(symbol, matched);
            &&& row.label.len() == 2 * symbol.depth + symbol.name@.len()
            &&& forall|i: int| 0 <= i < 2 * symbol.depth ==> #[trigger] row.label[i] == ' '
            &&& row.matched.len() == matched.len()
            &&& row.label[row.matched[at] as int] == symbol.name@[matched[at] as int]
            &&& row.matched[at] == matched[at] + 2 * symbol.depth
            &&& row.pick == PickModel::At(symbol.at)
            &&& row.hint == symbol.kind@
        }),
{
}

/// What was found of a symbol is what was last said of it.
pub proof fn what_was_found_of_a_symbol(found: Seq<Found>, index: int)
    ensures
        match said_of(found, index) {
            Some(matched) => exists|i: int|
                {
                    &&& 0 <= i < found.len()
                    &&& (#[trigger] found[i]).index == index
                    &&& found[i].matched@ == matched
                    &&& forall|j: int| i < j < found.len() ==> (#[trigger] found[j]).index != index
                },
            None => forall|j: int| 0 <= j < found.len() ==> (#[trigger] found[j]).index != index,
        },
    decreases found.len(),
{
    if found.len() > 0 {
        let rest = found.drop_last();
        assert(found[found.len() - 1] == found.last());
        if found.last().index != index {
            what_was_found_of_a_symbol(rest, index);
            if let Some(matched) = said_of(rest, index) {
                let i = choose|i: int|
                    {
                        &&& 0 <= i < rest.len()
                        &&& (#[trigger] rest[i]).index == index
                        &&& rest[i].matched@ == matched
                        &&& forall|j: int|
                            i < j < rest.len() ==> (#[trigger] rest[j]).index != index
                    };
                assert(found[i] == rest[i]);
                assert forall|j: int| i < j < found.len() implies (#[trigger] found[j]).index
                    != index by {
                    if j < rest.len() {
                        assert(rest[j] == found[j]);
                    }
                }
            } else {
                assert forall|j: int| 0 <= j < found.len() implies (#[trigger] found[j]).index
                    != index by {
                    if j < rest.len() {
                        assert(rest[j] == found[j]);
                    }
                }
            }
        }
    }
}

/// Every symbol found has its row, and so has what it is in, and nothing else has:
/// each in its place among the others.
pub proof fn every_symbol_found_has_its_row(
    symbols: Seq<Symbol>,
    found: Seq<Found>,
    count: int,
    at: int,
)
    requires
        0 <= at < count <= symbols.len(),
        is_shown(symbols, found, at),
    ensures
        ({
            let above = outline_rows(symbols, found, at).len() as int;
            let rows = outline_rows(symbols, found, count);
            &&& above < rows.len()
            &&& rows[above].pick == PickModel::At(symbols[at].at)
            &&& rows[above].hint == symbols[at].kind@
            &&& said_of(found, at) is None ==> rows[above].matched.len() == 0
            &&& said_of(found, at) matches Some(matched) ==> rows[above] == symbol_row(
                symbols[at],
                matched,
            )
        }),
    decreases count,
{
    if at < count - 1 {
        every_symbol_found_has_its_row(symbols, found, count - 1, at);
    }
}

/// A symbol is shown where it was found, and where something declared in it is shown.
pub proof fn a_symbol_is_shown_for_what_is_in_it(
    symbols: Seq<Symbol>,
    found: Seq<Found>,
    at: int,
    inner: int,
)
    requires
        is_outline(symbols),
        0 <= at < symbols.len() <= usize::MAX,
        0 <= inner < symbols.len(),
        symbols[inner].parent == Some(at as usize),
    ensures
        said_of(found, at) is Some ==> is_shown(symbols, found, at),
        said_of(found, inner) is Some ==> is_shown(symbols, found, at),
{
    assert(holds(symbols, at, at));
    assert(holds(symbols, at, inner));
}

/// The keys that move the selection move it by a row, by a page or to an end, and
/// never off the list.
pub proof fn the_selection_stays_on_the_list(palette: Palette, code: KeyCode, page: int)
    requires
        palette.wf(),
        0 <= page,
    ensures
        ({
            let rows = palette.rows@.len();
            let selected = palette.selected as int;
            let last = if rows > 0 {
                rows - 1
            } else {
                0
            };
            match palette.step(code, page) {
                Some(to) => {
                    &&& 0 <= to <= last
                    &&& code is Up && selected > 0 ==> to == selected - 1
                    &&& code is Down && selected < last ==> to == selected + 1
                    &&& code is PageUp && selected >= page ==> to == selected - page
                    &&& code is PageUp && selected < page ==> to == 0
                    &&& code is PageDown && selected + page <= last ==> to == selected + page
                    &&& code is PageDown && selected + page > last ==> to == last
                    &&& code is Home ==> to == 0
                    &&& code is End ==> to == last
                    &&& code is Up && selected == 0 ==> to == 0
                    &&& code is Down && selected == last ==> to == last
                },
                None => !(code is Up || code is Down || code is Home || code is End || code is PageUp
                    || code is PageDown),
            }
        }),
{
}

/// Files come by how well they match and how often they have been opened, each
/// opening being worth as much; those that stand alike keep the order they were
/// found in.
pub proof fn files_come_by_match_and_use(
    files: Seq<FileFound>,
    frecency: Seq<(String, u32)>,
    order: Seq<usize>,
    i: int,
    j: int,
)
    requires
        is_ranking(order, file_keys(files, frecency)),
        0 <= i < j < order.len(),
        forall|k: int|
            0 <= k < files.len() ==> (#[trigger] files[k]).score + votes(frecency, files[k].full@)
                * FRECENCY_BONUS <= u32::MAX,
    ensures
        ({
            let a = files[order[i] as int];
            let b = files[order[j] as int];
            let first = a.score + votes(frecency, a.full@) * FRECENCY_BONUS;
            let second = b.score + votes(frecency, b.full@) * FRECENCY_BONUS;
            &&& first >= second
            &&& first == second ==> order[i] < order[j]
        }),
{
    let keys = file_keys(files, frecency);
    assert(crate::order::ranked(keys, order[i], order[j]));
    assert(order[i] < keys.len() && order[j] < keys.len());
    let a = files[order[i] as int];
    let b = files[order[j] as int];
    assert(a.score + votes(frecency, a.full@) * FRECENCY_BONUS <= u32::MAX);
    assert(b.score + votes(frecency, b.full@) * FRECENCY_BONUS <= u32::MAX);
    assert(votes(frecency, a.full@) * FRECENCY_BONUS >= 0);
    assert(votes(frecency, b.full@) * FRECENCY_BONUS >= 0);
}

/// How often a file has been opened is what was last kept of it, and never where
/// nothing was.
pub proof fn a_file_has_its_own_votes(frecency: Seq<(String, u32)>, path: Seq<char>)
    ensures
        (forall|i: int| 0 <= i < frecency.len() ==> (#[trigger] frecency[i]).0@ != path) ==> votes(
            frecency,
            path,
        ) == 0,
        forall|i: int|
            #![trigger frecency[i]]
            0 <= i < frecency.len() && frecency[i].0@ == path && (forall|j: int|
                i < j < frecency.len() ==> (#[trigger] frecency[j]).0@ != path) ==> votes(
                frecency,
                path,
            ) == frecency[i].1,
    decreases frecency.len(),
{
    if frecency.len() > 0 {
        let rest = frecency.drop_last();
        a_file_has_its_own_votes(rest, path);
        assert(frecency[frecency.len() - 1] == frecency.last());
        assert forall|i: int| 0 <= i < rest.len() implies rest[i] == frecency[i] by {}
        assert forall|i: int|
            #![trigger frecency[i]]
            0 <= i < frecency.len() && frecency[i].0@ == path && (forall|j: int|
                i < j < frecency.len() ==> (#[trigger] frecency[j]).0@ != path) implies votes(
            frecency,
            path,
        ) == frecency[i].1 by {
            if i < rest.len() {
                assert(rest[i] == frecency[i]);
                assert forall|j: int| i < j < rest.len() implies (#[trigger] rest[j]).0@ != path by {
                    assert(frecency[j].0@ != path);
                }
            }
        }
        if forall|i: int| 0 <= i < frecency.len() ==> (#[trigger] frecency[i]).0@ != path {
            assert forall|i: int| 0 <= i < rest.len() implies (#[trigger] rest[i]).0@ != path by {
                assert(frecency[i].0@ != path);
            }
        }
    }
}

/// What is pasted into the query goes on one line: every line feed and carriage
/// return is left out, and nothing else is.
pub proof fn a_query_is_one_line(text: Seq<char>)
    ensures
        on_one_line(text) == text.filter(|ch: char| ch != '\n' && ch != '\r'),
    decreases text.len(),
{
    if text.len() > 0 {
        a_query_is_one_line(text.drop_last());
    }
    reveal(Seq::filter);
}

/// Each row of the palette is pressed where it is drawn, under its query and the line
/// below that.
pub proof fn a_row_is_pressed_where_it_is_drawn(area: Rect, scroll: int, count: nat, at: int)
    requires
        0 <= at < count,
        area.y + 2 + count <= u16::MAX,
        0 <= scroll,
        scroll + count <= usize::MAX,
    ensures
        row_hits(area, scroll, count).len() == count,
        ({
            let hit = row_hits(area, scroll, count)[at];
            &&& hit.area.y == area.y + 2 + at
            &&& hit.area.height == 1
            &&& hit.area.x == area.x && hit.area.width == area.width
            &&& hit.target == Target::PaletteRow((scroll + at) as usize)
            &&& hit.hover
        }),
{
}

/// As many rows are in view as there is room for and as there are from the first
/// shown on.
pub proof fn rows_fill_the_view(rows: nat, scroll: nat, visible: nat)
    ensures
        rows_in_view(rows, scroll, visible) <= visible,
        scroll <= rows ==> scroll + rows_in_view(rows, scroll, visible) <= rows,
        scroll >= rows ==> rows_in_view(rows, scroll, visible) == 0,
        scroll <= rows ==> rows_in_view(rows, scroll, visible) == visible || scroll + rows_in_view(
            rows,
            scroll,
            visible,
        ) == rows,
{
}

/// An answer is drawn only where files are being looked for, by what is typed and as
/// of the last keystroke; rows are stale until it has come.
pub proof fn only_the_last_keystroke_s_answer_is_drawn(
    finder: Finder,
    palette: Palette,
    query: Seq<char>,
    generation: u64,
)
    requires
        finder.palette == Some(palette),
    ensures
        finder.awaits(query, generation) <==> {
            &&& Mode::mode(palette.query@) is Files
            &&& palette.generation == generation
            &&& palette.query@ == query
        },
        finder.stale() <==> Mode::mode(palette.query@) is Files && palette.rows_from
            != palette.generation,
{
}

/// With nothing typed, the outline is listed from its start, as far as the list goes.
pub proof fn an_outline_is_listed_from_its_start(
    symbols: Seq<Symbol>,
    why: NoOutline,
    query: Seq<char>,
    found: Seq<Found>,
    at: int,
)
    requires
        0 <= at < symbols.len(),
        at < LIMIT,
        blank(query),
    ensures
        symbols_listed(symbols, why, query, found)[at] == symbol_row(symbols[at], Seq::empty()),
        symbols_listed(symbols, why, query, found).len() <= LIMIT,
        symbols.len() <= LIMIT ==> symbols_listed(symbols, why, query, found).len()
            == symbols.len(),
        symbols.len() > LIMIT ==> symbols_listed(symbols, why, query, found).len() == LIMIT,
{
}

/// A file's row opens that file, and says where it is open already.
pub proof fn a_file_s_row_opens_it(files: Seq<FileFound>, at: int)
    requires
        0 <= at < files.len(),
    ensures
        file_rows(files).len() == files.len(),
        ({
            let row = file_rows(files)[at];
            &&& row.label == files[at].label@
            &&& row.matched == files[at].matched@
            &&& row.pick == PickModel::File(files[at].full@)
            &&& files[at].open ==> row.hint == "open"@
            &&& !files[at].open ==> row.hint == ""@
        }),
{
}

/// An empty query says what its mode is for.
pub proof fn each_mode_says_what_it_is_for()
    ensures
        Mode::Files.suggestion() == "Go to a file — `>` commands, `:` line, `?` help"@,
        Mode::Commands.suggestion() == "Run a command"@,
        Mode::Line.suggestion() == "Go to a line"@,
        Mode::Symbols.suggestion() == "Go to a symbol in this file"@,
        Mode::ProjectSymbols.suggestion() == "Symbols across the project"@,
        Mode::Help.suggestion() == "What the prefixes do"@,
{
}

} // verus!
