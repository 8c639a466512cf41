//! Everything the editor can be asked to do by name.

use vstd::prelude::*;

verus! {

/// What the diff view can be asked to do.
#[derive(Debug, Clone, Copy, PartialEq, Eq, Structural)]
pub enum DiffCommand {
    /// Open it, or put it away.
    Toggle,
    /// Show the versions beside each other, or one after the other.
    ToggleLayout,
    /// Compare with what is staged, or with the last commit.
    ToggleBase,
}

/// A command.
#[derive(Debug, Clone, Copy, PartialEq, Eq, Structural)]
pub enum Command {
    /// Leave.
    Quit,
    /// Write the file.
    Save,
    /// Take the last change back.
    Undo,
    /// Put it back.
    Redo,
    /// Select everything.
    SelectAll,
    /// Show the file tree, or put it away.
    ToggleSidebar,
    /// Make a file.
    NewFile,
    /// Make a folder.
    NewFolder,
    /// Rename a file.
    Rename,
    /// Delete a file.
    Delete,
    /// Show ignored files, or not.
    ToggleIgnored,
    /// Close the tab.
    CloseTab,
    /// Split the pane beside.
    SplitBeside,
    /// Split the pane below.
    SplitBelow,
    /// Close the pane.
    ClosePane,
    /// Go to the next pane.
    NextPane,
    /// Open the palette.
    Palette,
    /// Open the palette on the commands.
    Commands,
    /// Search the project.
    SearchProject,
    /// Toggle searching by regular expression.
    SearchRegex,
    /// Toggle case.
    SearchCase,
    /// Toggle whole words.
    SearchWord,
    /// Toggle searching ignored files.
    SearchIgnored,
    /// Add a caret above.
    AddCaretAbove,
    /// Add a caret below.
    AddCaretBelow,
    /// Select the next occurrence too.
    AddNextOccurrence,
    /// Select every occurrence.
    AddAllOccurrences,
    /// Fold here.
    Fold,
    /// Unfold here.
    Unfold,
    /// Fold everything.
    FoldAll,
    /// Unfold everything.
    UnfoldAll,
    /// Grow the selection.
    GrowSelection,
    /// Shrink it.
    ShrinkSelection,
    /// Start the file's language server again.
    RestartLanguageServer,
    /// Format the file.
    FormatDocument,
    /// Go to the definition.
    GoToDefinition,
    /// Open the definition beside.
    OpenDefinitionBeside,
    /// List the references.
    FindReferences,
    /// Go back.
    GoBack,
    /// Go forward.
    GoForward,
    /// Go to the next reference.
    NextReference,
    /// Go to the one before.
    PreviousReference,
    /// Go to the next problem.
    NextDiagnostic,
    /// Go to the one before.
    PreviousDiagnostic,
    /// Offer completions.
    Complete,
    /// Rename a symbol.
    RenameSymbol,
    /// Take a rename back.
    UndoRename,
    /// Say what a symbol is.
    ShowHover,
    /// Offer code actions.
    CodeActions,
    /// Split the selection into lines.
    SplitIntoLines,
    /// Go to the next tab.
    NextTab,
    /// Go to the one before.
    PreviousTab,
    /// Go to the next change.
    NextHunk,
    /// Go to the one before.
    PreviousHunk,
    /// Say what a change is.
    ShowHunk,
    /// Put a change back.
    RevertHunk,
    /// Stage a change.
    StageHunk,
    /// Something about the diff view.
    Diff(DiffCommand),
}

/// Buttons as values: what each says, and the command it runs.
pub open spec fn button_views(buttons: Seq<(String, Command)>) -> Seq<(Seq<char>, Command)> {
    Seq::new(buttons.len(), |i: int| (buttons[i].0@, buttons[i].1))
}

} // verus!
