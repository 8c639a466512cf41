//! What a pointer can land on, and what can have the keyboard.

use vstd::prelude::*;

verus! {

/// The toggles of the search panel.
#[derive(Debug, Clone, Copy, PartialEq, Eq, Structural)]
pub enum SearchButton {
    /// Whether the query is a regular expression.
    Regex,
    /// Whether case counts.
    Case,
    /// Whether only whole words match.
    Word,
    /// Whether ignored files are searched too.
    Ignored,
}

/// Everything on screen a pointer can land on.
#[derive(Debug, Clone, Copy, PartialEq, Eq, Structural)]
pub enum Target {
    /// The text of the buffer.
    Text,
    /// The line-number gutter beside it.
    Gutter,
    /// The mark in the gutter beside a line that has code actions.
    Lightbulb,
    /// The column of the gutter the fold arrows are drawn in.
    FoldArrow,
    /// The status line.
    Status,
    /// A tab: which pane, and which tab of it.
    Tab(usize, usize),
    /// A tab's close cross.
    TabClose(usize, usize),
    /// The tab strip beside the tabs.
    TabStrip,
    /// The divider between two panes, by its index in the layout's list.
    Divider(usize),
    /// The file-tree toggle at the left of the status line.
    StatusFiles,
    /// The button at the left of the status line that opens the palette.
    StatusSearch,
    /// The name of the file's language server in the status line, which
    /// restarts it.
    StatusLsp,
    /// The palette itself.
    Palette,
    /// One of its rows.
    PaletteRow(usize),
    /// Everywhere outside it, which a click there closes it from.
    PaletteOutside,
    /// The Undo offered after a file operation.
    StatusUndo,
    /// The cross that closes the open file when there is no tab strip.
    StatusClose,
    /// A button of the question in the status line.
    PromptButton(usize),
    /// The sidebar's header row.
    TreeHeader,
    /// One of the header's buttons, by its place.
    TreeButton(usize),
    /// A row of the file tree.
    TreeRow(usize),
    /// The sidebar below its last row.
    TreeEmpty,
    /// The sidebar's right edge, dragged to resize it.
    SidebarEdge,
    /// The search panel's header row.
    SearchHeader,
    /// The button in it that goes back to the file tree.
    SearchBack,
    /// The row the query is typed into.
    SearchQuery,
    /// The row the replacement is typed into.
    SearchReplace,
    /// The button that applies the replace.
    SearchApply,
    /// The cell that strikes one hit out of the replace, or puts it back.
    SearchMarker(usize),
    /// One of the search toggles.
    SearchButton(SearchButton),
    /// A row of the results: a file, or one of its matching lines.
    SearchRow(usize),
    /// The panel below its last row.
    SearchEmpty,
    /// The references panel's button back to the file tree.
    ReferencesBack,
    /// A row of the references: a file, or one reference in it.
    ReferencesRow(usize),
    /// The rest of the references panel.
    ReferencesEmpty,
    /// An item of the open menu.
    MenuItem(usize),
    /// Everywhere outside the open menu, which a click there closes.
    MenuOutside,
    /// A pane's diagnostic rail, away from its marks.
    Rail(usize),
    /// A row of a pane's rail with marks on it.
    RailMark(usize, u16),
    /// An underlined diagnostic in a pane: which pane, and which of its
    /// document's diagnostics. Pressed, it is the text under it.
    Diagnostic(usize, usize),
    /// The card, away from its buttons.
    Card,
    /// One of the card's buttons.
    CardButton(usize),
    /// A link in the card, by its index in the card's links.
    CardLink(usize),
    /// The diagnostic counts in the status line.
    StatusProblems,
    /// The completion popup, and the documentation beside it.
    Completion,
    /// One of its rows, by its place in the list.
    CompletionRow(usize),
    /// Somewhere in the preview of an edit across files, by its place in it.
    EditPreview(usize),
    /// A change's bar in a pane's gutter: which pane, and which of its
    /// document's changes.
    Change(usize, usize),
    /// A pane's rail of changes, away from its marks.
    ChangeRail(usize),
    /// A row of a pane's rail of changes with marks on it.
    ChangeRailMark(usize, u16),
    /// Somewhere in the diff view, by its place in it.
    Diff(usize),
}

impl Target {
    /// Whether this is the card or a part of it.
    pub open spec fn is_card(self) -> bool {
        self is Card || self is CardButton || self is CardLink
    }

    /// Whether this is one of the places that lead to a diagnostic.
    pub open spec fn is_diagnostics(self) -> bool {
        self is Rail || self is RailMark || self is StatusProblems
    }

    /// Whether this is part of a tab strip.
    pub open spec fn is_tabs(self) -> bool {
        self is Tab || self is TabClose || self is TabStrip
    }

    /// Whether this is the completion popup or a row of it.
    pub open spec fn is_completion(self) -> bool {
        self is Completion || self is CompletionRow
    }

    /// Whether this is part of the file tree.
    pub open spec fn is_sidebar(self) -> bool {
        self is TreeHeader || self is TreeButton || self is TreeRow || self is TreeEmpty
            || self is SidebarEdge
    }

    /// Whether this is part of the search panel.
    pub open spec fn is_search(self) -> bool {
        self is SearchHeader || self is SearchBack || self is SearchQuery || self is SearchReplace
            || self is SearchApply || self is SearchMarker || self is SearchButton
            || self is SearchRow || self is SearchEmpty
    }

    /// Whether this is part of the references panel.
    pub open spec fn is_references(self) -> bool {
        self is ReferencesBack || self is ReferencesRow || self is ReferencesEmpty
    }

    /// Whether this is a bar or a mark that stands for a change.
    pub open spec fn is_changes(self) -> bool {
        self is Change || self is ChangeRail || self is ChangeRailMark
    }

    /// What a press lands on: an underline is the text beneath it.
    pub open spec fn beneath(self) -> Self {
        if self is Diagnostic {
            Target::Text
        } else {
            self
        }
    }

    /// What a press on this lands on: an underline is the text beneath it.
    pub fn pressed(self) -> (target: Self)
        ensures
            target == self.beneath(),
    {
        match self {
            Target::Diagnostic(..) => Target::Text,
            target => target,
        }
    }

    /// Whether this is the card or a part of it.
    pub fn in_card(self) -> (inside: bool)
        ensures
            inside == self.is_card(),
    {
        matches!(self, Target::Card | Target::CardButton(_) | Target::CardLink(_))
    }

    /// Whether this is one of the places that lead to a diagnostic.
    pub fn in_diagnostics(self) -> (inside: bool)
        ensures
            inside == self.is_diagnostics(),
    {
        matches!(self, Target::Rail(_) | Target::RailMark(..) | Target::StatusProblems)
    }

    /// Whether this is part of a tab strip.
    pub fn in_tabs(self) -> (inside: bool)
        ensures
            inside == self.is_tabs(),
    {
        matches!(self, Target::Tab(..) | Target::TabClose(..) | Target::TabStrip)
    }

    /// Whether this is the completion popup or a row of it.
    pub fn in_completion(self) -> (inside: bool)
        ensures
            inside == self.is_completion(),
    {
        matches!(self, Target::Completion | Target::CompletionRow(_))
    }

    /// Whether this is part of the file tree.
    pub fn in_sidebar(self) -> (inside: bool)
        ensures
            inside == self.is_sidebar(),
    {
        matches!(
            self,
            Target::TreeHeader
                | Target::TreeButton(_)
                | Target::TreeRow(_)
                | Target::TreeEmpty
                | Target::SidebarEdge
        )
    }

    /// Whether this is part of the search panel.
    pub fn in_search(self) -> (inside: bool)
        ensures
            inside == self.is_search(),
    {
        matches!(
            self,
            Target::SearchHeader
                | Target::SearchBack
                | Target::SearchQuery
                | Target::SearchReplace
                | Target::SearchApply
                | Target::SearchMarker(_)
                | Target::SearchButton(_)
                | Target::SearchRow(_)
                | Target::SearchEmpty
        )
    }

    /// Whether this is part of the references panel.
    pub fn in_references(self) -> (inside: bool)
        ensures
            inside == self.is_references(),
    {
        matches!(
            self,
            Target::ReferencesBack | Target::ReferencesRow(_) | Target::ReferencesEmpty
        )
    }

    /// Whether this is a bar or a mark that stands for a change.
    pub fn in_changes(self) -> (inside: bool)
        ensures
            inside == self.is_changes(),
    {
        matches!(self, Target::Change(..) | Target::ChangeRail(_) | Target::ChangeRailMark(..))
    }
}

/// No target belongs to two parts of the screen, so no press is taken twice.
pub proof fn a_target_is_in_one_part_of_the_screen(target: Target)
    ensures
        target.is_card() ==> !target.is_diagnostics() && !target.is_tabs()
            && !target.is_completion() && !target.is_sidebar() && !target.is_search()
            && !target.is_references() && !target.is_changes(),
        target.is_diagnostics() ==> !target.is_tabs() && !target.is_completion()
            && !target.is_sidebar() && !target.is_search() && !target.is_references()
            && !target.is_changes(),
        target.is_tabs() ==> !target.is_completion() && !target.is_sidebar() && !target.is_search()
            && !target.is_references() && !target.is_changes(),
        target.is_completion() ==> !target.is_sidebar() && !target.is_search()
            && !target.is_references() && !target.is_changes(),
        target.is_sidebar() ==> !target.is_search() && !target.is_references()
            && !target.is_changes(),
        target.is_search() ==> !target.is_references() && !target.is_changes(),
        target.is_references() ==> !target.is_changes(),
        target.beneath().beneath() == target.beneath(),
{
}

/// Which view the sidebar is showing. They share its columns, so only one of
/// them is laid out, drawn or clicked at a time.
#[derive(Debug, Clone, Copy, PartialEq, Eq, Structural)]
pub enum SidebarView {
    /// The file tree.
    Files,
    /// The project search panel.
    Search,
    /// The references to a symbol.
    References,
    /// The preview of an edit across files — a rename, a code action — in
    /// the search panel's clothes.
    EditPreview,
}

impl Default for SidebarView {
    fn default() -> (view: Self)
        ensures
            view == SidebarView::Files,
    {
        SidebarView::Files
    }
}

/// What has the keyboard.
#[derive(Debug, Clone, Copy, PartialEq, Eq, Structural)]
pub enum Focus {
    /// The text.
    Editor,
    /// The file tree.
    Sidebar,
    /// The project search panel, where typing goes to the query.
    Search,
    /// The preview of an edit across files.
    EditPreview,
    /// The diff view.
    Diff,
}

impl Default for Focus {
    fn default() -> (focus: Self)
        ensures
            focus == Focus::Editor,
    {
        Focus::Editor
    }
}

} // verus!
