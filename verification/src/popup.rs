//! The completion popup: the word it is completing, and what the server
//! offered.

use ropey::Rope;
use vstd::prelude::*;

use crate::rope::{
    a_place_is_within_its_line, char_to_line, end_of_line, line_end, line_of, line_start,
    line_to_char, rope_text, slice,
};
use crate::scroll::{keep_in_view, kept_in_view, wheel, wheeled};
use crate::spans::Selection;
use crate::text::{first_line, first_line_in, join3};
use crate::unicode::{blank, has_space, holds_space, is_blank};

verus! {

/// What a completion item is.
#[derive(Debug, Clone, Copy, PartialEq, Eq, Structural)]
pub enum ItemKind {
    /// Plain text.
    Text,
    /// A method.
    Method,
    /// A function.
    Function,
    /// A constructor.
    Constructor,
    /// A field.
    Field,
    /// A variable.
    Variable,
    /// A class.
    Class,
    /// An interface.
    Interface,
    /// A module.
    Module,
    /// A property.
    Property,
    /// A unit.
    Unit,
    /// A value.
    Value,
    /// An enumeration.
    Enum,
    /// A keyword.
    Keyword,
    /// A snippet.
    Snippet,
    /// A colour.
    Color,
    /// A file.
    File,
    /// A reference.
    Reference,
    /// A folder.
    Folder,
    /// A member of an enumeration.
    EnumMember,
    /// A constant.
    Constant,
    /// A structure.
    Struct,
    /// An event.
    Event,
    /// An operator.
    Operator,
    /// A type parameter.
    TypeParameter,
}

/// The colour a few letters are drawn in.
#[derive(Debug, Clone, Copy, PartialEq, Eq, Structural)]
pub enum Role {
    /// Out of the way.
    Dim,
    /// As text.
    Text,
    /// As a function.
    Function,
    /// As a type.
    Type,
    /// As a number.
    Number,
    /// As a keyword.
    Keyword,
    /// As punctuation.
    Punctuation,
}

/// A few letters for what an item is, and the colour they are drawn in.
pub open spec fn kind_shown(kind: Option<ItemKind>) -> (Seq<char>, Role) {
    match kind {
        None => (""@, Role::Dim),
        Some(ItemKind::Method) => ("meth"@, Role::Function),
        Some(ItemKind::Function) => ("fn"@, Role::Function),
        Some(ItemKind::Constructor) => ("new"@, Role::Function),
        Some(ItemKind::Field) => ("fld"@, Role::Text),
        Some(ItemKind::Variable) => ("var"@, Role::Text),
        Some(ItemKind::Class) => ("cls"@, Role::Type),
        Some(ItemKind::Interface) => ("ifc"@, Role::Type),
        Some(ItemKind::Module) => ("mod"@, Role::Type),
        Some(ItemKind::Property) => ("prop"@, Role::Text),
        Some(ItemKind::Unit) => ("unit"@, Role::Number),
        Some(ItemKind::Value) => ("val"@, Role::Number),
        Some(ItemKind::Enum) => ("enum"@, Role::Type),
        Some(ItemKind::Keyword) => ("kw"@, Role::Keyword),
        Some(ItemKind::Snippet) => ("snip"@, Role::Dim),
        Some(ItemKind::Color) => ("col"@, Role::Number),
        Some(ItemKind::File) => ("file"@, Role::Dim),
        Some(ItemKind::Reference) => ("ref"@, Role::Dim),
        Some(ItemKind::Folder) => ("dir"@, Role::Dim),
        Some(ItemKind::EnumMember) => ("var"@, Role::Number),
        Some(ItemKind::Constant) => ("const"@, Role::Number),
        Some(ItemKind::Struct) => ("st"@, Role::Type),
        Some(ItemKind::Event) => ("evt"@, Role::Text),
        Some(ItemKind::Operator) => ("op"@, Role::Punctuation),
        Some(ItemKind::TypeParameter) => ("T"@, Role::Type),
        Some(ItemKind::Text) => ("txt"@, Role::Dim),
    }
}

/// A few letters for what an item is, and the colour they are drawn in.
pub fn kind_of(kind: Option<ItemKind>) -> (shown: (&'static str, Role))
    ensures
        (shown.0@, shown.1) == kind_shown(kind),
{
    match kind {
        None => ("", Role::Dim),
        Some(ItemKind::Method) => ("meth", Role::Function),
        Some(ItemKind::Function) => ("fn", Role::Function),
        Some(ItemKind::Constructor) => ("new", Role::Function),
        Some(ItemKind::Field) => ("fld", Role::Text),
        Some(ItemKind::Variable) => ("var", Role::Text),
        Some(ItemKind::Class) => ("cls", Role::Type),
        Some(ItemKind::Interface) => ("ifc", Role::Type),
        Some(ItemKind::Module) => ("mod", Role::Type),
        Some(ItemKind::Property) => ("prop", Role::Text),
        Some(ItemKind::Unit) => ("unit", Role::Number),
        Some(ItemKind::Value) => ("val", Role::Number),
        Some(ItemKind::Enum) => ("enum", Role::Type),
        Some(ItemKind::Keyword) => ("kw", Role::Keyword),
        Some(ItemKind::Snippet) => ("snip", Role::Dim),
        Some(ItemKind::Color) => ("col", Role::Number),
        Some(ItemKind::File) => ("file", Role::Dim),
        Some(ItemKind::Reference) => ("ref", Role::Dim),
        Some(ItemKind::Folder) => ("dir", Role::Dim),
        Some(ItemKind::EnumMember) => ("var", Role::Number),
        Some(ItemKind::Constant) => ("const", Role::Number),
        Some(ItemKind::Struct) => ("st", Role::Type),
        Some(ItemKind::Event) => ("evt", Role::Text),
        Some(ItemKind::Operator) => ("op", Role::Punctuation),
        Some(ItemKind::TypeParameter) => ("T", Role::Type),
        Some(ItemKind::Text) => ("txt", Role::Dim),
    }
}

/// An edit as a server gives it: by line, and by its own count of where in
/// the line.
#[derive(Debug)]
pub struct ServerEdit {
    /// The line and the place in it where it starts.
    pub start: (u32, u32),
    /// The line and the place in it where what it takes out ends.
    pub end: (u32, u32),
    /// What it puts in.
    pub text: String,
}

/// One item a server offers.
#[derive(Debug)]
pub struct Item {
    /// What the row says.
    pub label: String,
    /// What it is.
    pub kind: Option<ItemKind>,
    /// A few words about it, such as its type.
    pub detail: Option<String>,
    /// Its documentation, as text.
    pub documentation: Option<String>,
    /// What its label goes on to say, in short.
    pub label_detail: Option<String>,
    /// What its label goes on to say of where it is from.
    pub label_description: Option<String>,
    /// Whether it is marked deprecated, in either of the ways there are.
    pub deprecated: bool,
    /// Whether the server would have it selected to begin with.
    pub preselect: bool,
    /// Edits elsewhere that go in with it, as the server counts places.
    pub additional: Option<Vec<ServerEdit>>,
    /// Where the word it completes starts, when the server says, in the text
    /// as it is now.
    pub word_start: Option<usize>,
}

/// An item that matches what has been typed.
#[derive(Debug)]
pub struct Shown {
    /// Which of the items.
    pub index: usize,
    /// The characters of its label that match, for highlighting.
    pub matched: Vec<u32>,
}

/// A row of the popup, as it is drawn.
#[derive(Debug)]
pub struct Suggestion {
    /// A few letters for what it is.
    pub kind: &'static str,
    /// The colour they are drawn in.
    pub kind_role: Role,
    /// What it is called.
    pub label: String,
    /// The characters of its label that match.
    pub matched: Vec<u32>,
    /// A few words about it, on one line.
    pub detail: String,
    /// Whether it is marked deprecated.
    pub deprecated: bool,
}

/// A question on its way.
#[derive(Debug, Clone, Copy, PartialEq, Eq, Structural)]
pub struct Pending {
    /// Which question.
    pub id: u64,
    /// The version of the document it was asked about.
    pub version: i32,
}

/// Where the caret is, and whether what is typed goes to the text there.
#[derive(Debug)]
pub struct Here<'a> {
    /// The document being edited.
    pub doc: usize,
    /// Its text.
    pub text: &'a Rope,
    /// How many selections there are.
    pub carets: usize,
    /// The primary one.
    pub primary: Selection,
    /// Whether the text has the keyboard, with no palette and no question on
    /// screen.
    pub typing: bool,
}

impl Here<'_> {
    /// The text.
    pub open spec fn chars(self) -> Seq<char> {
        rope_text(*self.text)
    }

    /// Whether the caret is in the text.
    pub open spec fn valid(self) -> bool {
        self.primary.head <= self.chars().len()
    }
}

/// The popup: the word it is completing, and what the server offered.
#[derive(Debug)]
pub struct Popup {
    /// The document it is in.
    pub doc: usize,
    /// Where the word being completed starts.
    pub start: usize,
    /// The line it is on.
    pub line: usize,
    /// What the line holds before `start`: while this and `after` stand, the
    /// only change since has been typing at the caret.
    pub before: String,
    /// What the line holds after the caret.
    pub after: String,
    /// How many selections there were.
    pub carets: usize,
    /// Whether it was asked for, rather than triggered — and so worth saying
    /// when there is nothing to offer.
    pub explicit: bool,
    /// The question on its way.
    pub pending: Option<Pending>,
    /// The question the items answer.
    pub asked: Option<u64>,
    /// What the server offered.
    pub items: Vec<Item>,
    /// Whether the server said there is more.
    pub incomplete: bool,
    /// Whether each item has had its documentation asked for.
    pub resolved: Vec<bool>,
    /// The item whose documentation is being asked for.
    pub resolving: Option<(u64, usize)>,
    /// What has been typed of the word.
    pub query: String,
    /// The items that match it, best first.
    pub shown: Vec<Shown>,
    /// The row selected.
    pub selected: usize,
    /// The first row in view.
    pub scroll: usize,
}

/// What a server filled in about an item.
#[derive(Debug)]
pub struct Resolved {
    /// Its documentation.
    pub documentation: Option<String>,
    /// A few words about it.
    pub detail: Option<String>,
    /// Edits elsewhere that go in with it.
    pub additional: Option<Vec<ServerEdit>>,
}

/// Fold what a resolve answered into the item: the documentation and detail
/// it was asked for, and any edits elsewhere the item did not have yet.
pub fn merge_resolved(item: Item, resolved: Resolved) -> (merged: Item)
    ensures
        merged == (Item {
            documentation: if resolved.documentation is Some {
                resolved.documentation
            } else {
                item.documentation
            },
            detail: if resolved.detail is Some {
                resolved.detail
            } else {
                item.detail
            },
            additional: if item.additional is Some {
                item.additional
            } else {
                resolved.additional
            },
            ..item
        }),
{
    Item {
        label: item.label,
        kind: item.kind,
        detail: if resolved.detail.is_some() {
            resolved.detail
        } else {
            item.detail
        },
        documentation: if resolved.documentation.is_some() {
            resolved.documentation
        } else {
            item.documentation
        },
        label_detail: item.label_detail,
        label_description: item.label_description,
        deprecated: item.deprecated,
        preselect: item.preselect,
        additional: if item.additional.is_some() {
            item.additional
        } else {
            resolved.additional
        },
        word_start: item.word_start,
    }
}

/// Whether `found` are rows of a list of `count` items.
pub open spec fn rows_of(found: Seq<Shown>, count: nat) -> bool {
    forall|i: int| 0 <= i < found.len() ==> (#[trigger] found[i]).index < count
}

/// An item's documentation: its detail, then its documentation.
pub open spec fn docs_in(item: Item) -> Seq<char> {
    let documentation = match item.documentation {
        Some(text) => text@,
        None => Seq::empty(),
    };
    match item.detail {
        Some(detail) => if documentation.len() > 0 {
            detail@ + "\n\n"@ + documentation
        } else {
            detail@
        },
        None => documentation,
    }
}

/// The documentation of an item, as plain text: its detail, then its
/// documentation.
pub fn docs_of(item: &Item) -> (docs: String)
    ensures
        docs@ == docs_in(*item),
{
    let documentation: String = match &item.documentation {
        Some(text) => text.clone(),
        None => String::new(),
    };
    match &item.detail {
        Some(detail) => {
            if documentation.as_str().is_empty() {
                detail.clone()
            } else {
                join3(detail.as_str(), "\n\n", documentation.as_str())
            }
        },
        None => documentation,
    }
}

/// A few words about an item: where its label says it is from, or what its
/// label goes on to say, or its detail.
pub open spec fn detail_in(item: Item) -> Seq<char> {
    match (item.label_description, item.label_detail, item.detail) {
        (Some(text), _, _) => text@,
        (None, Some(text), _) => text@,
        (None, None, Some(text)) => text@,
        (None, None, None) => Seq::empty(),
    }
}

/// Whether `row` draws `item`, which was found as `found`.
pub open spec fn draws(row: Suggestion, item: Item, found: Shown) -> bool {
    &&& (row.kind@, row.kind_role) == kind_shown(item.kind)
    &&& row.label@ == item.label@
    &&& row.matched@ == found.matched@
    &&& row.detail@ == first_line_in(detail_in(item))
    &&& row.deprecated == item.deprecated
}

/// A row that draws `item`.
fn suggestion(item: &Item, found: &Shown) -> (row: Suggestion)
    ensures
        draws(row, *item, *found),
{
    let (kind, kind_role) = kind_of(item.kind);
    let detail = match &item.label_description {
        Some(text) => first_line(text.as_str()),
        None => match &item.label_detail {
            Some(text) => first_line(text.as_str()),
            None => match &item.detail {
                Some(text) => first_line(text.as_str()),
                None => first_line(String::new().as_str()),
            },
        },
    };
    let mut matched: Vec<u32> = Vec::new();
    let mut i: usize = 0;
    while i < found.matched.len()
        invariant
            i <= found.matched@.len(),
            matched@ =~= found.matched@.take(i as int),
        decreases found.matched@.len() - i,
    {
        matched.push(found.matched[i]);
        i = i + 1;
    }
    assert(found.matched@.take(found.matched@.len() as int) =~= found.matched@);
    Suggestion {
        kind,
        kind_role,
        label: item.label.clone(),
        matched,
        detail,
        deprecated: item.deprecated,
    }
}

/// What stepping by `step` from row `from` of `count` comes to: round the ends
/// when `wrap`, and no further than them otherwise.
pub open spec fn stepped(from: int, step: int, count: int, wrap: bool) -> int {
    let last = if count > 0 {
        count - 1
    } else {
        0
    };
    let target = from + step;
    if target < 0 {
        if wrap {
            last
        } else {
            0
        }
    } else if target > last {
        if wrap {
            0
        } else {
            last
        }
    } else {
        target
    }
}

/// Stepping stays in the list, and stepping by one and back, round the ends,
/// comes back to where it was.
pub proof fn stepping_comes_back(from: int, count: int)
    requires
        0 <= from < count,
    ensures
        0 <= stepped(from, 1, count, true) < count,
        0 <= stepped(from, -1, count, true) < count,
        stepped(stepped(from, 1, count, true), -1, count, true) == from,
        stepped(stepped(from, -1, count, true), 1, count, true) == from,
{
}

/// What stepping by `step` from row `from` of `count` comes to.
pub(crate) fn step_row(from: usize, step: i32, count: usize, wrap: bool) -> (to: usize)
    ensures
        to == stepped(from as int, step as int, count as int, wrap),
{
    let last: usize = count.saturating_sub(1);
    let target: i128 = from as i128 + step as i128;
    if target < 0 {
        if wrap {
            last
        } else {
            0
        }
    } else if target > last as i128 {
        if wrap {
            0
        } else {
            last
        }
    } else {
        target as usize
    }
}

impl Popup {
    /// Whether the rows are rows of the items, and each item is accounted for.
    pub open spec fn wf(self) -> bool {
        rows_of(self.shown@, self.items@.len()) && self.resolved@.len() == self.items@.len()
    }

    /// The questions it has asked that are still on their way.
    pub open spec fn asking(self) -> Seq<u64> {
        let first = match self.pending {
            Some(pending) => seq![pending.id],
            None => Seq::empty(),
        };
        match self.resolving {
            Some((id, _)) => first.push(id),
            None => first,
        }
    }

    /// What has been typed of the word, while the only change since it opened
    /// has been typing or deleting at the caret; otherwise `None`.
    pub open spec fn query_at(self, here: Here) -> Option<Seq<char>> {
        let text = here.chars();
        let head = here.primary.head as int;
        let line = self.line as int;
        let query = text.subrange(self.start as int, head);
        if here.typing && here.doc == self.doc && here.carets == self.carets && here.primary.anchor
            == head && head >= self.start && line_of(text, head) == line && self.start
            >= line_start(text, line) && text.subrange(line_start(text, line), self.start as int)
            == self.before@ && text.subrange(head, line_end(text, line)) == self.after@
            && !has_space(query) {
            Some(query)
        } else {
            None
        }
    }

    /// Open the popup, empty until its answer comes, on the word the primary
    /// caret is typing that starts at `start`.
    pub fn open(here: &Here, start: usize, explicit: bool, pending: Option<Pending>) -> (popup:
        Self)
        requires
            here.valid(),
            start <= here.primary.head,
            line_start(
                here.chars(),
                line_of(here.chars(), here.primary.head as int) as int,
            ) <= start,
        ensures
            ({
                let text = here.chars();
                let head = here.primary.head as int;
                let line = line_of(text, head) as int;
                &&& popup.doc == here.doc
                &&& popup.start == start
                &&& popup.line == line
                &&& popup.before@ == text.subrange(line_start(text, line), start as int)
                &&& popup.after@ == text.subrange(head, line_end(text, line))
                &&& popup.carets == here.carets
                &&& popup.explicit == explicit
                &&& popup.pending == pending
                &&& popup.asked is None
                &&& popup.items@.len() == 0
                &&& !popup.incomplete
                &&& popup.resolved@.len() == 0
                &&& popup.resolving is None
                &&& popup.query@ == text.subrange(start as int, head)
                &&& popup.shown@.len() == 0
                &&& popup.selected == 0
                &&& popup.scroll == 0
                &&& popup.wf()
            }),
    {
        let head: usize = here.primary.head;
        proof {
            a_place_is_within_its_line(here.chars(), head as int);
        }
        let line: usize = char_to_line(here.text, head);
        Popup {
            doc: here.doc,
            start,
            line,
            before: slice(here.text, line_to_char(here.text, line), start),
            after: slice(here.text, head, end_of_line(here.text, line)),
            carets: here.carets,
            explicit,
            pending,
            asked: None,
            items: Vec::new(),
            incomplete: false,
            resolved: Vec::new(),
            resolving: None,
            query: slice(here.text, start, head),
            shown: Vec::new(),
            selected: 0,
            scroll: 0,
        }
    }

    /// What has been typed of the word, while the only change since the popup
    /// opened has been typing or deleting at the caret; otherwise `None`.
    pub fn popup_query(&self, here: &Here) -> (query: Option<String>)
        requires
            here.valid(),
        ensures
            crate::reply::words(query) == self.query_at(*here),
    {
        let head: usize = here.primary.head;
        if !here.typing || here.doc != self.doc || here.carets != self.carets
            || here.primary.anchor != head || head < self.start {
            return None;
        }
        proof {
            a_place_is_within_its_line(here.chars(), head as int);
        }
        if char_to_line(here.text, head) != self.line {
            return None;
        }
        let from: usize = line_to_char(here.text, self.line);
        let to: usize = end_of_line(here.text, self.line);
        if self.start < from {
            return None;
        }
        let before = slice(here.text, from, self.start);
        let after = slice(here.text, head, to);
        if before != self.before || after != self.after {
            return None;
        }
        let query = slice(here.text, self.start, head);
        // A space typed or pasted into it ends the word.
        if holds_space(query.as_str()) {
            None
        } else {
            Some(query)
        }
    }

    /// The questions it has asked that are still on their way.
    pub fn questions(&self) -> (asked: Vec<u64>)
        ensures
            asked@ == self.asking(),
    {
        let mut asked: Vec<u64> = Vec::new();
        if let Some(pending) = self.pending {
            asked.push(pending.id);
        }
        if let Some((id, _)) = self.resolving {
            asked.push(id);
        }
        assert(asked@ =~= self.asking());
        asked
    }

    /// Show `shown`, the items that match `query`, from the top.
    pub fn refilter(&mut self, query: String, shown: Vec<Shown>)
        requires
            old(self).wf(),
            rows_of(shown@, old(self).items@.len()),
        ensures
            *final(self) == (Popup { query, shown, selected: 0, scroll: 0, ..*old(self) }),
            final(self).wf(),
    {
        self.shown = shown;
        self.query = query;
        self.selected = 0;
        self.scroll = 0;
    }

    /// The item on `row`.
    pub open spec fn item_at(self, row: int) -> Option<Item> {
        if 0 <= row < self.shown@.len() {
            Some(self.items@[self.shown@[row].index as int])
        } else {
            None
        }
    }

    /// The item on `row`.
    pub fn item(&self, row: usize) -> (item: Option<&Item>)
        requires
            self.wf(),
        ensures
            match item {
                Some(item) => self.item_at(row as int) == Some(*item),
                None => self.item_at(row as int) is None,
            },
    {
        if row < self.shown.len() {
            assert(self.shown@[row as int].index < self.items@.len());
            Some(&self.items[self.shown[row].index])
        } else {
            None
        }
    }

    /// The documentation shown: for the row under the pointer, or else the
    /// selected one, and none where it has nothing to say.
    pub open spec fn docs_shown(self, hovered: Option<usize>) -> Option<Seq<char>> {
        let row = match hovered {
            Some(row) => row,
            None => self.selected,
        };
        match self.item_at(row as int) {
            Some(item) => {
                let docs = docs_in(item);
                if blank(docs) {
                    None
                } else {
                    Some(docs)
                }
            },
            None => None,
        }
    }

    /// The documentation shown: for the row under the pointer, or else the
    /// selected one.
    pub fn completion_docs(&self, hovered: Option<usize>) -> (docs: Option<String>)
        requires
            self.wf(),
        ensures
            crate::reply::words(docs) == self.docs_shown(hovered),
    {
        let row: usize = match hovered {
            Some(row) => row,
            None => self.selected,
        };
        match self.item(row) {
            Some(item) => {
                let docs = docs_of(item);
                if is_blank(docs.as_str()) {
                    None
                } else {
                    Some(docs)
                }
            },
            None => None,
        }
    }

    /// Which item's documentation is worth asking for: the one under the
    /// pointer, or else the one selected, unless it has been asked for.
    pub open spec fn unseen(self, hovered: Option<usize>) -> Option<int> {
        let row = match hovered {
            Some(row) => row as int,
            None => self.selected as int,
        };
        if 0 <= row < self.shown@.len() && !self.resolved@[self.shown@[row].index as int] {
            Some(self.shown@[row].index as int)
        } else {
            None
        }
    }

    /// The item being looked at — the one under the pointer, or else the one
    /// selected — is about to have its documentation asked for, if it has not
    /// been. Which item to ask about, when the server `resolves` items and
    /// this one lacks something a resolve would fill in.
    pub fn resolve_preview(&mut self, hovered: Option<usize>, resolves: bool) -> (ask: Option<
        usize,
    >)
        requires
            old(self).wf(),
        ensures
            final(self).wf(),
            match old(self).unseen(hovered) {
                None => ask is None && *final(self) == *old(self),
                Some(index) => {
                    &&& final(self).resolved@ == old(self).resolved@.update(index, true)
                    &&& *final(self) == (Popup { resolved: final(self).resolved, ..*old(self) })
                    &&& ask == if resolves && (old(self).items@[index].documentation is None
                        || old(self).items@[index].detail is None) {
                        Some(index as usize)
                    } else {
                        None
                    }
                },
            },
    {
        let row: usize = match hovered {
            Some(row) => row,
            None => self.selected,
        };
        if row >= self.shown.len() {
            return None;
        }
        assert(self.shown@[row as int].index < self.items@.len());
        let index: usize = self.shown[row].index;
        if self.resolved[index] {
            return None;
        }
        self.resolved.set(index, true);
        let item = &self.items[index];
        if !resolves || (item.documentation.is_some() && item.detail.is_some()) {
            None
        } else {
            Some(index)
        }
    }

    /// Question `id` was asked about item `index`: it takes the place of the
    /// one before it, which is taken back.
    pub fn resolving_now(&mut self, id: u64, index: usize) -> (cancel: Option<u64>)
        ensures
            *final(self) == (Popup { resolving: Some((id, index)), ..*old(self) }),
            cancel == match old(self).resolving {
                Some((before, _)) => Some(before),
                None => None,
            },
    {
        let cancel: Option<u64> = match self.resolving {
            Some((before, _)) => Some(before),
            None => None,
        };
        self.resolving = Some((id, index));
        cancel
    }

    /// Move the selection by `step` rows, wrapping round the ends when `wrap`,
    /// and scroll the `height` rows in view to follow it.
    pub fn step(&mut self, step: i32, wrap: bool, height: usize)
        ensures
            ({
                let selected = stepped(
                    old(self).selected as int,
                    step as int,
                    old(self).shown@.len() as int,
                    wrap,
                );
                &&& final(self).selected == selected
                &&& final(self).scroll == kept_in_view(
                    selected,
                    old(self).scroll as int,
                    height as int,
                )
                &&& *final(self) == (Popup {
                    selected: final(self).selected,
                    scroll: final(self).scroll,
                    ..*old(self)
                })
            }),
    {
        self.selected = step_row(self.selected, step, self.shown.len(), wrap);
        self.scroll = keep_in_view(self.selected, self.scroll, height);
    }

    /// The wheel over the popup scrolls it, leaving the selection alone.
    pub fn wheel(&mut self, down: bool, height: usize)
        ensures
            final(self).scroll == wheeled(
                old(self).scroll as int,
                down,
                3,
                old(self).shown@.len() as int,
                height as int,
            ),
            *final(self) == (Popup { scroll: final(self).scroll, ..*old(self) }),
    {
        self.scroll = wheel(self.scroll, down, 3, self.shown.len(), height);
    }

    /// The rows from `from`, at most `count` of them, as they are drawn.
    pub fn suggestions(&self, from: usize, count: usize) -> (rows: Vec<Suggestion>)
        requires
            self.wf(),
        ensures
            ({
                let left = if from < self.shown@.len() {
                    self.shown@.len() - from
                } else {
                    0
                };
                rows@.len() == if left < count {
                    left
                } else {
                    count as int
                }
            }),
            forall|i: int|
                0 <= i < rows@.len() ==> draws(
                    #[trigger] rows@[i],
                    self.items@[self.shown@[from + i].index as int],
                    self.shown@[from + i],
                ),
    {
        let mut rows: Vec<Suggestion> = Vec::new();
        let mut at: usize = from;
        while at < self.shown.len() && rows.len() < count
            invariant
                self.wf(),
                rows@.len() <= count,
                from <= at,
                at == from + rows@.len(),
                rows@.len() == 0 || at <= self.shown@.len(),
                forall|i: int|
                    0 <= i < rows@.len() ==> draws(
                        #[trigger] rows@[i],
                        self.items@[self.shown@[from + i].index as int],
                        self.shown@[from + i],
                    ),
            decreases self.shown@.len() - at,
        {
            let found = &self.shown[at];
            assert(self.shown@[at as int].index < self.items@.len());
            rows.push(suggestion(&self.items[found.index], found));
            at = at + 1;
        }
        rows
    }
}

/// An item is drawn as what it is: what is called in one colour, types in another,
/// values and fixed things in a third, and what only stands for text out of the way.
pub proof fn a_kind_is_coloured_as_what_it_is(kind: ItemKind)
    ensures
        kind_shown(Some(kind)).1 is Function <==> kind is Method || kind is Function
            || kind is Constructor,
        kind_shown(Some(kind)).1 is Type <==> kind is Class || kind is Interface || kind is Module
            || kind is Enum || kind is Struct || kind is TypeParameter,
        kind_shown(Some(kind)).1 is Number <==> kind is Unit || kind is Value || kind is Color
            || kind is EnumMember || kind is Constant,
        kind_shown(Some(kind)).1 is Text <==> kind is Field || kind is Variable || kind is Property
            || kind is Event,
        kind_shown(Some(kind)).1 is Keyword <==> kind is Keyword,
        kind_shown(Some(kind)).1 is Punctuation <==> kind is Operator,
        kind_shown(Some(kind)).1 is Dim <==> kind is Text || kind is Snippet || kind is File
            || kind is Reference || kind is Folder,
        kind_shown(None) == (""@, Role::Dim),
{
}

/// An item's kind is told in a few letters, the same for two kinds only where one
/// is a variable and the other a member of an enumeration.
pub proof fn a_kind_is_told_in_a_few_letters(kind: ItemKind, other: ItemKind)
    ensures
        1 <= kind_shown(Some(kind)).0.len() <= 5,
        kind_shown(Some(kind)).0 == kind_shown(Some(other)).0 ==> kind == other || (kind is Variable
            && other is EnumMember) || (kind is EnumMember && other is Variable),
        kind_shown(Some(ItemKind::Variable)).0 == kind_shown(Some(ItemKind::EnumMember)).0,
{
    let all = (
        ("meth"@, "fn"@, "new"@, "fld"@, "var"@, "cls"@, "ifc"@, "mod"@),
        ("prop"@, "unit"@, "val"@, "enum"@, "kw"@, "snip"@, "col"@, "file"@),
        ("ref"@, "dir"@, "const"@, "st"@, "evt"@, "op"@, "T"@, "txt"@),
    );
    reveal_strlit("meth");
    reveal_strlit("fn");
    reveal_strlit("new");
    reveal_strlit("fld");
    reveal_strlit("var");
    reveal_strlit("cls");
    reveal_strlit("ifc");
    reveal_strlit("mod");
    reveal_strlit("prop");
    reveal_strlit("unit");
    reveal_strlit("val");
    reveal_strlit("enum");
    reveal_strlit("kw");
    reveal_strlit("snip");
    reveal_strlit("col");
    reveal_strlit("file");
    reveal_strlit("ref");
    reveal_strlit("dir");
    reveal_strlit("const");
    reveal_strlit("st");
    reveal_strlit("evt");
    reveal_strlit("op");
    reveal_strlit("T");
    reveal_strlit("txt");
    let here = kind_shown(Some(kind)).0;
    let there = kind_shown(Some(other)).0;
    if here == there {
        assert(here[0] == there[0] && here.len() == there.len());
        assert(here.len() > 1 ==> here[1] == there[1]);
        assert(here.len() > 2 ==> here[2] == there[2]);
    }
}

/// Stepping without going round stops at the ends; going round, it comes out at the
/// other one; and within the list it goes as many rows as it is told.
pub proof fn stepping_goes_as_far_as_it_is_told(from: int, step: int, count: int)
    requires
        0 <= from < count,
    ensures
        0 <= from + step < count ==> stepped(from, step, count, true) == from + step && stepped(
            from,
            step,
            count,
            false,
        ) == from + step,
        from + step < 0 ==> stepped(from, step, count, false) == 0 && stepped(
            from,
            step,
            count,
            true,
        ) == count - 1,
        from + step >= count ==> stepped(from, step, count, false) == count - 1 && stepped(
            from,
            step,
            count,
            true,
        ) == 0,
{
}

/// While the popup is up, the caret's line is what it held before the word, then
/// what has been typed of the word, then what it held after the caret: anything but
/// typing at the caret and it is not. What has been typed holds no white space.
pub proof fn only_typing_at_the_caret_keeps_the_popup(popup: Popup, here: Here, query: Seq<char>)
    requires
        here.valid(),
    ensures
        ({
            let text = here.chars();
            let head = here.primary.head as int;
            let line = line_of(text, head) as int;
            let whole = text.subrange(line_start(text, line), line_end(text, line));
            popup.query_at(here) == Some(query) <==> {
                &&& here.typing
                &&& here.doc == popup.doc
                &&& here.carets == popup.carets
                &&& here.primary.anchor == here.primary.head
                &&& line == popup.line
                &&& popup.start == line_start(text, line) + popup.before@.len()
                &&& head == popup.start + query.len()
                &&& whole == popup.before@ + query + popup.after@
                &&& forall|i: int|
                    0 <= i < query.len() ==> !crate::unicode::white_space(#[trigger] query[i])
            }
        }),
{
    let text = here.chars();
    let head = here.primary.head as int;
    let line = line_of(text, head) as int;
    let start = popup.start as int;
    let from = line_start(text, line);
    let to = line_end(text, line);
    let whole = text.subrange(from, to);
    a_place_is_within_its_line(text, head);
    crate::rope::a_line_starts_where_it_is_first_reached(text, line);
    if popup.query_at(here) == Some(query) {
        assert(whole =~= text.subrange(from, start) + text.subrange(start, head) + text.subrange(
            head,
            to,
        ));
        assert forall|i: int| 0 <= i < query.len() implies !crate::unicode::white_space(
            #[trigger] query[i],
        ) by {}
    }
    if line == popup.line && start == from + popup.before@.len() && head == start + query.len()
        && whole == popup.before@ + query + popup.after@ {
        let all = popup.before@ + query + popup.after@;
        assert(text.subrange(from, start) =~= all.take(start - from));
        assert(all.take(start - from) =~= popup.before@);
        assert(text.subrange(start, head) =~= all.subrange(start - from, head - from));
        assert(all.subrange(start - from, head - from) =~= query);
        assert(text.subrange(head, to) =~= all.skip(head - from));
        assert(all.skip(head - from) =~= popup.after@);
    }
}

/// What is shown beside an item is its description first, then what its label goes
/// on to say, then a few words about it; its documentation follows those words,
/// after an empty line, where there are both.
pub proof fn an_item_says_where_it_is_from_first(item: Item)
    ensures
        item.label_description matches Some(text) ==> detail_in(item) == text@,
        item.label_description is None ==> (item.label_detail matches Some(text) ==> detail_in(item)
            == text@),
        item.label_description is None && item.label_detail is None ==> (
        item.detail matches Some(text) ==> detail_in(item) == text@),
        item.detail is None && item.documentation is None ==> docs_in(item).len() == 0,
        item.detail is None ==> (item.documentation matches Some(text) ==> docs_in(item) == text@),
        item.detail matches Some(words) ==> {
            &&& item.documentation is None ==> docs_in(item) == words@
            &&& item.documentation matches Some(text) ==> if text@.len() > 0 {
                docs_in(item) == words@ + "\n\n"@ + text@
            } else {
                docs_in(item) == words@
            }
        },
{
}

/// Putting the popup away takes back every question it has asked.
pub proof fn every_question_is_taken_back(popup: Popup, id: u64)
    ensures
        popup.asking().contains(id) <==> (popup.pending matches Some(pending) && pending.id == id)
            || (popup.resolving matches Some(about) && about.0 == id),
{
    let asking = popup.asking();
    if let Some(pending) = popup.pending {
        assert(asking[0] == pending.id);
    }
    if let Some(about) = popup.resolving {
        assert(asking.last() == about.0);
        assert(asking[asking.len() - 1] == about.0);
    }
}

/// A row is drawn as its item: what it is called and what of that matched, and the first
/// line of what is said beside it.
pub proof fn a_row_is_drawn_as_its_item(row: Suggestion, item: Item, found: Shown, name: Seq<char>)
    requires
        draws(row, item, found),
        item.label_description matches Some(text) ==> text@ == name,
        item.label_description is Some,
        forall|i: int| 0 <= i < name.len() ==> #[trigger] name[i] != '\n',
    ensures
        row.label@ == item.label@,
        row.matched@ == found.matched@,
        row.deprecated == item.deprecated,
        row.detail@ == name,
        row.kind@ == kind_shown(item.kind).0 && row.kind_role == kind_shown(item.kind).1,
{
    crate::text::a_line_feed_ends_a_line(name, Seq::empty());
    if name.len() == 0 {
        assert(name =~= Seq::<char>::empty());
    }
}

/// What is documented is the row the pointer is on, or else the one selected, and only
/// where there is something to say; an item is asked about once.
pub proof fn what_is_documented_is_pointed_at_or_selected(popup: Popup, row: usize)
    requires
        popup.wf(),
        row < popup.shown@.len(),
    ensures
        popup.docs_shown(None) == popup.docs_shown(Some(popup.selected)),
        popup.unseen(None) == popup.unseen(Some(popup.selected)),
        ({
            let index = popup.shown@[row as int].index as int;
            let docs = docs_in(popup.items@[index]);
            &&& popup.docs_shown(Some(row)) == if forall|i: int|
                0 <= i < docs.len() ==> crate::unicode::white_space(#[trigger] docs[i]) {
                None
            } else {
                Some(docs)
            }
            &&& popup.unseen(Some(row)) == if popup.resolved@[index] {
                None
            } else {
                Some(index)
            }
        }),
        forall|past: usize|
            past >= popup.shown@.len() ==> popup.docs_shown(Some(past)) is None && (
            #[trigger] popup.unseen(Some(past))) is None,
{
    let docs = docs_in(popup.items@[popup.shown@[row as int].index as int]);
    if blank(docs) {
        assert forall|i: int| 0 <= i < docs.len() implies crate::unicode::white_space(
            #[trigger] docs[i],
        ) by {}
    }
}

} // verus!
