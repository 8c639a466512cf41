//! The status line: what it says, and where its parts go.

use vstd::prelude::*;

use crate::geometry::Rect;
use crate::hits::Hit;
use crate::problems::{label_chars, problems_at, problems_part, run_views, Counted};
use crate::reply::words;
use crate::target::Target;
use crate::text::{decimal, decimal_of, join, join3};

verus! {

/// Where the status line's parts go.
#[derive(Debug, Clone, Copy, PartialEq, Eq, Structural)]
pub struct StatusParts {
    /// The file-tree toggle, when a folder is open.
    pub files: Option<Rect>,
    /// The button that opens the palette.
    pub search: Option<Rect>,
    /// The Undo button after a file operation.
    pub undo: Option<Rect>,
    /// The cross that closes the open file, when there is no tab strip to close
    /// it from.
    pub close: Option<Rect>,
    /// The name of the file's language server, which restarts it.
    pub lsp: Option<Rect>,
    /// The diagnostic counts, which go to the next one.
    pub problems: Option<Rect>,
    /// Where the text starts.
    pub text: u16,
}

/// What the status line's parts depend on.
#[derive(Debug)]
pub struct StatusFacts {
    /// Whether a question is being asked in it.
    pub prompt: bool,
    /// Whether a folder is open.
    pub folder: bool,
    /// Whether the file operation it reports can be undone.
    pub undo: bool,
    /// Whether the focused pane has a tab strip.
    pub strip: bool,
    /// How many columns its left half takes.
    pub left: usize,
    /// How many columns its right half takes.
    pub right: usize,
    /// How many characters its left half has.
    pub left_chars: usize,
    /// How many characters its right half has.
    pub right_chars: usize,
    /// How many columns the name of the language server takes, where there is
    /// one.
    pub server: Option<usize>,
    /// The diagnostic counts, where there is anything to count.
    pub counts: Option<Vec<(String, Counted)>>,
}

/// How many columns the Undo button takes.
pub const UNDO_WIDTH: u16 = 6;

/// The first three columns of the status line, where the file-tree toggle goes.
pub open spec fn files_part(status: Rect, folder: bool) -> Option<Rect> {
    if folder {
        Some(
            Rect {
                width: if status.width < 3 {
                    status.width
                } else {
                    3
                },
                ..status
            },
        )
    } else {
        None
    }
}

/// Where what comes after the file-tree toggle starts.
pub open spec fn after_files(status: Rect, folder: bool) -> int {
    match files_part(status, folder) {
        Some(files) => files.spec_right(),
        None => status.x as int,
    }
}

/// Where the button that opens the palette goes, where there is room for it.
pub open spec fn search_part(status: Rect, folder: bool) -> Option<Rect> {
    if status.width > 12 {
        Some(
            Rect {
                x: after_files(status, folder) as u16,
                y: status.y,
                width: 3,
                height: if status.height < 1 {
                    status.height
                } else {
                    1
                },
            },
        )
    } else {
        None
    }
}

/// Where the text of the status line starts.
pub open spec fn text_at(status: Rect, folder: bool) -> int {
    match search_part(status, folder) {
        Some(search) => search.spec_right(),
        None => after_files(status, folder),
    }
}

/// Where the Undo button goes: two columns after the text, where there is room.
pub open spec fn undo_part(status: Rect, text: int, left: int, undo: bool) -> Option<Rect> {
    let x = text + left + 2;
    if undo && x + UNDO_WIDTH <= status.spec_right() {
        Some(Rect { x: x as u16, y: status.y, width: UNDO_WIDTH, height: 1 })
    } else {
        None
    }
}

/// Where the cross that closes the file goes: at the right, where the focused
/// pane has no strip of tabs with crosses of their own.
pub open spec fn close_part(status: Rect, strip: bool) -> Option<Rect> {
    if !strip && status.width > 10 {
        Some(Rect { x: (status.spec_right() - 3) as u16, y: status.y, width: 3, height: 1 })
    } else {
        None
    }
}

/// Where the name of the language server goes: just left of the caret's
/// position, and nowhere when there is no room for it beside what the left half
/// says.
pub open spec fn server_part(
    status: Rect,
    text: int,
    left: int,
    right: int,
    server: Option<usize>,
    undo: Option<Rect>,
    close: Option<Rect>,
) -> Option<Rect> {
    match server {
        None => None,
        Some(width) => {
            let edge = match close {
                Some(close) => close.x as int,
                None => status.spec_right(),
            };
            let x = edge - (right + 1 + width);
            let used = match undo {
                Some(undo) => undo.spec_right(),
                None => text + left + 1,
            };
            if x >= 0 && left + 1 <= u16::MAX && x > used {
                Some(Rect { x: x as u16, y: status.y, width: width as u16, height: 1 })
            } else {
                None
            }
        },
    }
}

/// Where the status line's parts go.
pub open spec fn parts_of(status: Rect, facts: StatusFacts) -> StatusParts {
    if facts.prompt || status.height == 0 {
        StatusParts {
            files: None,
            search: None,
            undo: None,
            close: None,
            lsp: None,
            problems: None,
            text: status.x,
        }
    } else {
        let text = text_at(status, facts.folder);
        let undo = undo_part(status, text, facts.left as int, facts.undo);
        let close = close_part(status, facts.strip);
        let lsp = server_part(
            status,
            text,
            facts.left as int,
            facts.right as int,
            facts.server,
            undo,
            close,
        );
        StatusParts {
            files: files_part(status, facts.folder),
            search: search_part(status, facts.folder),
            undo,
            close,
            lsp,
            problems: match facts.counts {
                Some(counts) => problems_at(
                    label_chars(run_views(counts@)) as int,
                    status,
                    text as u16,
                    facts.left_chars as int,
                    facts.right_chars as int,
                    undo,
                    close,
                    lsp,
                ),
                None => None,
            },
            text: text as u16,
        }
    }
}

/// Where the status line's own buttons go.
pub fn status_parts(status: Rect, facts: &StatusFacts) -> (parts: StatusParts)
    ensures
        parts == parts_of(status, *facts),
{
    if facts.prompt || status.height == 0 {
        return StatusParts {
            files: None,
            search: None,
            undo: None,
            close: None,
            lsp: None,
            problems: None,
            text: status.x,
        };
    }
    let files: Option<Rect> = if facts.folder {
        let width: u16 = if status.width < 3 {
            status.width
        } else {
            3
        };
        Some(Rect { x: status.x, y: status.y, width, height: status.height })
    } else {
        None
    };
    let after: u16 = match files {
        Some(files) => files.right(),
        None => status.x,
    };
    let search: Option<Rect> = if status.width > 12 {
        let height: u16 = if status.height < 1 {
            status.height
        } else {
            1
        };
        Some(Rect { x: after, y: status.y, width: 3, height })
    } else {
        None
    };
    let text: u16 = match search {
        Some(search) => search.right(),
        None => after,
    };
    let end: u16 = status.right();
    let mut undo: Option<Rect> = None;
    if facts.undo && facts.left <= u16::MAX as usize {
        let x: u64 = text as u64 + facts.left as u64 + 2;
        if x + UNDO_WIDTH as u64 <= end as u64 {
            undo = Some(Rect { x: x as u16, y: status.y, width: UNDO_WIDTH, height: 1 });
        }
    }
    let close: Option<Rect> = if !facts.strip && status.width > 10 {
        Some(Rect { x: end - 3, y: status.y, width: 3, height: 1 })
    } else {
        None
    };
    let mut lsp: Option<Rect> = None;
    if let Some(width) = facts.server {
        let edge: u16 = match close {
            Some(close) => close.x,
            None => end,
        };
        if width <= u16::MAX as usize && facts.right < u16::MAX as usize && facts.left
            < u16::MAX as usize {
            let less: u64 = facts.right as u64 + 1 + width as u64;
            let used: u64 = match undo {
                Some(undo) => undo.right() as u64,
                None => text as u64 + facts.left as u64 + 1,
            };
            if less <= edge as u64 && edge as u64 - less > used {
                lsp = Some(
                    Rect {
                        x: (edge as u64 - less) as u16,
                        y: status.y,
                        width: width as u16,
                        height: 1,
                    },
                );
            }
        }
    }
    let problems: Option<Rect> = match &facts.counts {
        Some(counts) => problems_part(
            counts,
            status,
            text,
            facts.left_chars,
            facts.right_chars,
            undo,
            close,
            lsp,
        ),
        None => None,
    };
    StatusParts { files, search, undo, close, lsp, problems, text }
}

/// The parts of the status line that can be clicked, as parts of the screen.
/// Most are not hover targets: one small button is no reason to have the
/// terminal report every pointer movement all session.
pub open spec fn part_hits(parts: StatusParts) -> Seq<Hit> {
    let a = part_hit(Seq::empty(), parts.files, Target::StatusFiles, true);
    let b = part_hit(a, parts.search, Target::StatusSearch, false);
    let c = part_hit(b, parts.undo, Target::StatusUndo, true);
    let d = part_hit(c, parts.close, Target::StatusClose, false);
    let e = part_hit(d, parts.lsp, Target::StatusLsp, false);
    part_hit(e, parts.problems, Target::StatusProblems, true)
}

/// `hits`, and a part over them where there is one.
pub open spec fn part_hit(hits: Seq<Hit>, part: Option<Rect>, target: Target, hover: bool) -> Seq<
    Hit,
> {
    match part {
        Some(area) => hits.push(Hit { area, target, hover }),
        None => hits,
    }
}

fn push_part(hits: &mut Vec<Hit>, part: Option<Rect>, target: Target, hover: bool)
    ensures
        final(hits)@ == part_hit(old(hits)@, part, target, hover),
{
    if let Some(area) = part {
        hits.push(Hit { area, target, hover });
    }
}

/// The parts of the status line that can be clicked, as parts of the screen.
pub fn layout_status(parts: &StatusParts) -> (hits: Vec<Hit>)
    ensures
        hits@ == part_hits(*parts),
{
    let mut hits: Vec<Hit> = Vec::new();
    push_part(&mut hits, parts.files, Target::StatusFiles, true);
    push_part(&mut hits, parts.search, Target::StatusSearch, false);
    push_part(&mut hits, parts.undo, Target::StatusUndo, true);
    push_part(&mut hits, parts.close, Target::StatusClose, false);
    push_part(&mut hits, parts.lsp, Target::StatusLsp, false);
    push_part(&mut hits, parts.problems, Target::StatusProblems, true);
    hits
}

/// The parts are beside one another: the toggle, then the palette's button,
/// then the text, then the Undo button, and the cross at the far end; and what
/// the language server is called is between the left half and the right.
pub proof fn the_parts_are_side_by_side(status: Rect, facts: StatusFacts)
    requires
        status.on_screen(),
        !facts.prompt,
        status.height > 0,
    ensures
        ({
            let parts = parts_of(status, facts);
            let text = text_at(status, facts.folder);
            &&& status.x <= text
            &&& parts.files matches Some(files) ==> files.x + files.width <= text && files.within(
                status,
            )
            &&& parts.search matches Some(search) ==> search.x + search.width == text
            &&& parts.undo matches Some(undo) ==> text + facts.left + 2 <= undo.x && undo.x
                + undo.width <= status.x + status.width
            &&& parts.close matches Some(close) ==> close.x + close.width == status.x
                + status.width
            &&& parts.lsp matches Some(lsp) ==> {
                &&& parts.undo matches Some(undo) ==> undo.x + undo.width < lsp.x
                &&& parts.undo is None ==> text + facts.left + 1 < lsp.x
                &&& parts.close matches Some(close) ==> lsp.x + lsp.width + facts.right + 1
                    == close.x
            }
        }),
{
}

// ── what it says ────────────────────────────────────────────────────────────

/// How the focused document stands, as the right half says it.
#[derive(Debug, Clone, Copy, PartialEq, Eq, Structural)]
pub struct Standing {
    /// How many carets there are.
    pub carets: usize,
    /// The line the main one is on, counted from nought.
    pub line: usize,
    /// The column it is on, counted from nought.
    pub column: usize,
    /// Whether its lines end in a carriage return and a line feed.
    pub crlf: bool,
}

/// The left half of the status line: the chord so far, or the message, or else
/// the file and whether it has been changed.
pub open spec fn left_half(
    chord: Option<Seq<char>>,
    ellipsis: Seq<char>,
    message: Option<Seq<char>>,
    path: Seq<char>,
    modified: Option<Seq<char>>,
) -> Seq<char> {
    match (chord, message) {
        (Some(chord), _) => chord + " "@ + ellipsis,
        (None, Some(message)) => message,
        (None, None) => path + match modified {
            Some(glyph) => " "@ + glyph,
            None => Seq::empty(),
        },
    }
}

/// The left half of the status line: the chord so far, or the message, or else
/// the file at `path` and, where it has been changed, the mark that says so.
pub fn status_left(
    chord: &Option<String>,
    ellipsis: &str,
    message: &Option<String>,
    path: &str,
    modified: &Option<String>,
) -> (left: String)
    ensures
        left@ == left_half(words(*chord), ellipsis@, words(*message), path@, words(*modified)),
{
    if let Some(chord) = chord {
        return join3(chord.as_str(), " ", ellipsis);
    }
    if let Some(message) = message {
        return message.clone();
    }
    let mut left = path.to_owned();
    if let Some(glyph) = modified {
        left.append(join(" ", glyph.as_str()).as_str());
    } else {
        assert(left@ + Seq::<char>::empty() =~= left@);
    }
    left
}

/// The right half of the status line: how many carets there are where there is
/// more than one, the language where it is known, where the caret is, and how
/// lines end.
pub open spec fn right_half(language: Option<Seq<char>>, standing: Standing) -> Seq<char> {
    (if standing.carets > 1 {
        decimal_of(standing.carets as nat) + " carets  "@
    } else {
        ""@
    }) + (match language {
        Some(name) => name + "  "@,
        None => ""@,
    }) + "Ln "@ + decimal_of((standing.line + 1) as nat) + ", Col "@ + decimal_of(
        (standing.column + 1) as nat,
    ) + "  "@ + (if standing.crlf {
        "CRLF"@
    } else {
        "LF"@
    })
}

/// The right half of the status line.
pub fn status_right(language: &Option<String>, standing: Standing) -> (right: String)
    requires
        standing.line < usize::MAX,
        standing.column < usize::MAX,
    ensures
        right@ == right_half(words(*language), standing),
{
    let mut right = if standing.carets > 1 {
        join(decimal(standing.carets).as_str(), " carets  ")
    } else {
        "".to_owned()
    };
    let name = match language {
        Some(name) => join(name.as_str(), "  "),
        None => "".to_owned(),
    };
    right.append(name.as_str());
    right.append("Ln ");
    right.append(decimal(standing.line + 1).as_str());
    right.append(", Col ");
    right.append(decimal(standing.column + 1).as_str());
    right.append("  ");
    right.append(
        if standing.crlf {
            "CRLF"
        } else {
            "LF"
        },
    );
    right
}

/// What the button beside a file operation's message offers: undoing it, or
/// putting back what was just undone.
pub fn undo_label(undone: bool) -> (label: &'static str)
    ensures
        label@ == if undone {
            " Redo "@
        } else {
            " Undo "@
        },
{
    if undone {
        " Redo "
    } else {
        " Undo "
    }
}

/// How to ask for a command from the keyboard, as the status line says it: the
/// first of the `sequences` bound to it, or else what it is called.
pub fn binding_for(sequences: &Vec<String>, title: &str) -> (binding: String)
    ensures
        binding@ == if sequences@.len() > 0 {
            sequences@[0]@
        } else {
            title@
        },
{
    if sequences.len() > 0 {
        sequences[0].clone()
    } else {
        title.to_owned()
    }
}

/// A button's glyph, with a cell of padding either side.
pub fn button_glyph(glyph: &str) -> (label: String)
    ensures
        label@ == " "@ + glyph@ + " "@,
{
    join3(" ", glyph, " ")
}

// ── drawing it ──────────────────────────────────────────────────────────────

/// How a piece of the status line is drawn.
#[derive(Debug, Clone, Copy, PartialEq, Eq, Structural)]
pub enum Look {
    /// As the line itself is.
    Line,
    /// As a button, with the pointer on it or not.
    Button(bool),
    /// As the name of the language server is.
    Server,
    /// As the diagnostic counts are.
    Problems,
}

/// A piece of the status line: what is written, from which column, no further
/// than `area` goes.
#[derive(Debug)]
pub struct Piece {
    /// Where it may be written.
    pub area: Rect,
    /// From which column.
    pub start: u16,
    /// What.
    pub text: String,
    /// How.
    pub look: Look,
}

/// A piece of the status line as a value.
pub struct PieceModel {
    /// Where it may be written.
    pub area: Rect,
    /// From which column.
    pub start: u16,
    /// What.
    pub text: Seq<char>,
    /// How.
    pub look: Look,
}

impl View for Piece {
    type V = PieceModel;

    open spec fn view(&self) -> PieceModel {
        PieceModel { area: self.area, start: self.start, text: self.text@, look: self.look }
    }
}

/// Pieces as values.
pub open spec fn pieces(all: Seq<Piece>) -> Seq<PieceModel> {
    Seq::new(all.len(), |i: int| all[i]@)
}

/// What is written in the status line's parts.
#[derive(Debug)]
pub struct StatusTexts {
    /// The file-tree toggle, while the tree is shown.
    pub files_shown: String,
    /// The file-tree toggle, while it is not.
    pub files_hidden: String,
    /// The palette's button.
    pub search: String,
    /// The left half.
    pub left: String,
    /// The Undo button.
    pub undo: String,
    /// The cross.
    pub close: String,
    /// The name of the language server.
    pub server: String,
    /// The right half.
    pub right: String,
}

impl StatusTexts {
    /// What the file-tree toggle says, `sidebar` being whether there is one on
    /// screen.
    pub open spec fn files(self, sidebar: bool) -> Seq<char> {
        if sidebar {
            self.files_shown@
        } else {
            self.files_hidden@
        }
    }
}

/// What else decides how the status line is drawn.
#[derive(Debug, Clone, Copy, PartialEq, Eq, Structural)]
pub struct StatusState {
    /// Where the question being asked is, if one is.
    pub question: Option<Rect>,
    /// Whether there is a message to show.
    pub message: bool,
    /// Whether a chord is half typed.
    pub chord: bool,
    /// Whether the sidebar is on screen.
    pub sidebar: bool,
}

/// The status line as it is drawn.
#[derive(Debug)]
pub enum StatusLine {
    /// The question being asked takes the whole of it.
    Question,
    /// These pieces, on a line that is lit where there is something to read.
    Line {
        /// Whether it is lit: for a message, or for a chord so far.
        lit: bool,
        /// What is written on it.
        pieces: Vec<Piece>,
    },
}

/// How many columns a text of `width` is taken to need: one too wide for any
/// screen is not measured.
pub open spec fn narrow(width: int) -> int {
    if width <= u16::MAX {
        width
    } else {
        0
    }
}

fn narrowed(width: usize) -> (columns: u16)
    ensures
        columns == narrow(width as int),
{
    if width <= u16::MAX as usize {
        width as u16
    } else {
        0
    }
}

/// Where the right half starts. It is dropped entirely rather than overlapping
/// when the two halves would collide on a narrow terminal.
pub open spec fn right_start(area: Rect, parts: StatusParts, left: int, right: int) -> Option<int> {
    let edge = match parts.close {
        Some(close) => close.x as int,
        None => area.spec_right(),
    };
    let used = match parts.undo {
        Some(undo) => undo.spec_right(),
        None => parts.text + narrow(left),
    };
    let start = edge - (narrow(right) + 1);
    if start >= 0 && start > used {
        Some(start)
    } else {
        None
    }
}

/// `all`, and a part after it where there is one.
pub open spec fn with_part(
    all: Seq<PieceModel>,
    part: Option<Rect>,
    text: Seq<char>,
    look: Look,
) -> Seq<PieceModel> {
    match part {
        Some(area) => all.push(PieceModel { area, start: area.x, text, look }),
        None => all,
    }
}

/// The pieces of the status line in `area`, in the order they are written:
/// the buttons at the left, the left half, the Undo button, the cross, the name
/// of the language server, the counts, and the right half where there is room.
pub open spec fn pieces_of(
    area: Rect,
    parts: StatusParts,
    texts: StatusTexts,
    left: int,
    right: int,
    hovered: Option<Target>,
    sidebar: bool,
) -> Seq<PieceModel> {
    let a = with_part(
        Seq::empty(),
        parts.files,
        texts.files(sidebar),
        Look::Button(hovered == Some(Target::StatusFiles)),
    );
    let b = with_part(
        a,
        parts.search,
        texts.search@,
        Look::Button(hovered == Some(Target::StatusSearch)),
    );
    let c = b.push(
        PieceModel { area, start: parts.text, text: texts.left@, look: Look::Line },
    );
    let d = with_part(
        c,
        parts.undo,
        texts.undo@,
        Look::Button(hovered == Some(Target::StatusUndo)),
    );
    let e = with_part(
        d,
        parts.close,
        texts.close@,
        Look::Button(hovered == Some(Target::StatusClose)),
    );
    let f = with_part(e, parts.lsp, texts.server@, Look::Server);
    let g = with_part(f, parts.problems, ""@, Look::Problems);
    match right_start(area, parts, left, right) {
        Some(start) => g.push(
            PieceModel { area, start: start as u16, text: texts.right@, look: Look::Line },
        ),
        None => g,
    }
}

fn push_piece(all: &mut Vec<Piece>, piece: Piece)
    ensures
        pieces(final(all)@) == pieces(old(all)@).push(piece@),
{
    let ghost before = all@;
    all.push(piece);
    assert(pieces(all@) =~= pieces(before).push(piece@));
}

fn push_part_piece(all: &mut Vec<Piece>, part: Option<Rect>, text: &String, look: Look)
    ensures
        pieces(final(all)@) == with_part(pieces(old(all)@), part, text@, look),
{
    if let Some(area) = part {
        push_piece(all, Piece { area, start: area.x, text: text.clone(), look });
    }
}

fn is_on(hovered: Option<Target>, target: Target) -> (on: bool)
    ensures
        on == (hovered == Some(target)),
{
    match hovered {
        Some(over) => over == target,
        None => false,
    }
}

/// The status line in `area`: a question that takes the whole of it, or its
/// pieces in the order they are written, `left` and `right` being how many
/// columns its halves take and `hovered` what the pointer is on. The counts are
/// written by what draws them.
pub fn render_status(
    area: Rect,
    parts: &StatusParts,
    texts: &StatusTexts,
    left: usize,
    right: usize,
    hovered: Option<Target>,
    state: &StatusState,
) -> (line: StatusLine)
    ensures
        if state.question == Some(area) {
            line is Question
        } else {
            line matches StatusLine::Line { lit, pieces: all } && lit == (state.message
                || state.chord) && pieces(all@) == pieces_of(
                area,
                *parts,
                *texts,
                left as int,
                right as int,
                hovered,
                state.sidebar,
            )
        },
{
    if let Some(question) = state.question {
        if question == area {
            return StatusLine::Question;
        }
    }
    let mut all: Vec<Piece> = Vec::new();
    assert(pieces(all@) =~= Seq::empty());
    let files = if state.sidebar {
        &texts.files_shown
    } else {
        &texts.files_hidden
    };
    push_part_piece(
        &mut all,
        parts.files,
        files,
        Look::Button(is_on(hovered, Target::StatusFiles)),
    );
    push_part_piece(
        &mut all,
        parts.search,
        &texts.search,
        Look::Button(is_on(hovered, Target::StatusSearch)),
    );
    push_piece(
        &mut all,
        Piece { area, start: parts.text, text: texts.left.clone(), look: Look::Line },
    );
    push_part_piece(
        &mut all,
        parts.undo,
        &texts.undo,
        Look::Button(is_on(hovered, Target::StatusUndo)),
    );
    push_part_piece(
        &mut all,
        parts.close,
        &texts.close,
        Look::Button(is_on(hovered, Target::StatusClose)),
    );
    push_part_piece(&mut all, parts.lsp, &texts.server, Look::Server);
    push_part_piece(&mut all, parts.problems, &"".to_owned(), Look::Problems);
    let edge: u16 = match parts.close {
        Some(close) => close.x,
        None => area.right(),
    };
    let used: u64 = match parts.undo {
        Some(undo) => undo.right() as u64,
        None => parts.text as u64 + narrowed(left) as u64,
    };
    let width: u16 = narrowed(right);
    if width < edge {
        let start: u16 = edge - (width + 1);
        if start as u64 > used {
            push_piece(
                &mut all,
                Piece { area, start, text: texts.right.clone(), look: Look::Line },
            );
        }
    }
    StatusLine::Line { lit: state.message || state.chord, pieces: all }
}

/// The pieces of a question's buttons that have any width, among the first
/// `count`: what each says with a cell of padding either side, lit where the
/// pointer is on it.
pub open spec fn button_pieces(
    labels: Seq<String>,
    areas: Seq<Rect>,
    hovered: Option<Target>,
    count: int,
) -> Seq<PieceModel>
    decreases count,
{
    if count <= 0 {
        Seq::empty()
    } else {
        let before = button_pieces(labels, areas, hovered, count - 1);
        if areas[count - 1].width > 0 {
            before.push(
                PieceModel {
                    area: areas[count - 1],
                    start: areas[count - 1].x,
                    text: " "@ + labels[count - 1]@ + " "@,
                    look: Look::Button(
                        hovered == Some(Target::PromptButton((count - 1) as usize)),
                    ),
                },
            )
        } else {
            before
        }
    }
}

/// A question as it is drawn.
#[derive(Debug)]
pub struct Asked {
    /// Its text and its buttons.
    pub pieces: Vec<Piece>,
    /// Where the caret of its field is, just after what has been typed, where
    /// it has a field and there is room.
    pub caret: Option<u16>,
}

/// A question asked in `area`: `text`, which takes `width` columns, and a
/// button in each of `areas` that has any width. `field` is whether it is
/// answered by typing.
pub fn render_prompt(
    area: Rect,
    text: &str,
    width: usize,
    field: bool,
    labels: &Vec<String>,
    areas: &Vec<Rect>,
    hovered: Option<Target>,
) -> (asked: Asked)
    requires
        labels@.len() == areas@.len(),
    ensures
        asked.caret == if field && area.x + narrow(width as int) < area.spec_right() {
            Some((area.x + narrow(width as int)) as u16)
        } else {
            None
        },
        pieces(asked.pieces@) == seq![
            PieceModel { area, start: area.x, text: text@, look: Look::Line },
        ] + button_pieces(labels@, areas@, hovered, labels@.len() as int),
{
    let end: u16 = area.right();
    let mut caret: Option<u16> = None;
    let typed: u16 = narrowed(width);
    if field && area.x <= end && typed < end - area.x {
        caret = Some(area.x + typed);
    }
    let mut all: Vec<Piece> = Vec::new();
    assert(pieces(all@) =~= Seq::empty());
    push_piece(
        &mut all,
        Piece { area, start: area.x, text: text.to_owned(), look: Look::Line },
    );
    let ghost top = seq![PieceModel { area, start: area.x, text: text@, look: Look::Line }];
    let mut i: usize = 0;
    assert(pieces(all@) =~= top + button_pieces(labels@, areas@, hovered, 0));
    while i < labels.len()
        invariant
            i <= labels@.len() == areas@.len(),
            pieces(all@) == top + button_pieces(labels@, areas@, hovered, i as int),
        decreases labels@.len() - i,
    {
        if areas[i].width > 0 {
            let lit = is_on(hovered, Target::PromptButton(i));
            push_piece(
                &mut all,
                Piece {
                    area: areas[i],
                    start: areas[i].x,
                    text: button_glyph(labels[i].as_str()),
                    look: Look::Button(lit),
                },
            );
            assert(pieces(all@) =~= top + button_pieces(labels@, areas@, hovered, i + 1));
        }
        i = i + 1;
    }
    Asked { pieces: all, caret }
}

/// Where each of the first `count` clusters that are `widths` wide is written,
/// from `start`, up to the first that would go past `end`.
pub open spec fn placed_of(widths: Seq<usize>, start: int, end: int, count: int) -> Seq<u16>
    decreases count,
{
    if count <= 0 {
        Seq::empty()
    } else {
        let before = placed_of(widths, start, end, count - 1);
        if before.len() == count - 1 && column_after(widths, start, count) <= end {
            before.push(column_after(widths, start, count - 1) as u16)
        } else {
            before
        }
    }
}

/// The column after the first `count` clusters, from `start`.
pub open spec fn column_after(widths: Seq<usize>, start: int, count: int) -> int
    decreases count,
{
    if count <= 0 {
        start
    } else {
        column_after(widths, start, count - 1) + widths[count - 1]
    }
}

/// Where clusters that are `widths` wide are written from `start`, one at a
/// time, stopping at the edge of `area` rather than splitting a wide one across
/// it: the column of each that is.
pub fn write_at(area: Rect, start: u16, widths: &Vec<usize>) -> (columns: Vec<u16>)
    ensures
        columns@ == placed_of(
            widths@,
            start as int,
            area.spec_right(),
            widths@.len() as int,
        ),
{
    let end: u16 = area.right();
    let mut columns: Vec<u16> = Vec::new();
    let mut x: u16 = start;
    let mut i: usize = 0;
    while i < widths.len() && x <= end && widths[i] <= (end - x) as usize
        invariant
            i <= widths@.len(),
            end == area.spec_right(),
            x == column_after(widths@, start as int, i as int),
            columns@.len() == i,
            columns@ == placed_of(widths@, start as int, end as int, i as int),
        decreases widths@.len() - i,
    {
        columns.push(x);
        x = x + widths[i] as u16;
        i = i + 1;
    }
    proof {
        nothing_more_is_placed(widths@, start as int, end as int, i as int, widths@.len() as int);
    }
    columns
}

proof fn nothing_more_is_placed(widths: Seq<usize>, start: int, end: int, from: int, to: int)
    requires
        0 <= from <= to <= widths.len(),
        placed_of(widths, start, end, from).len() == from,
        from < widths.len() ==> column_after(widths, start, from + 1) > end,
    ensures
        placed_of(widths, start, end, to) == placed_of(widths, start, end, from),
    decreases to - from,
{
    if from < to {
        nothing_more_is_placed(widths, start, end, from, to - 1);
    }
}

/// Nothing is written past the edge.
pub proof fn nothing_is_written_past_the_edge(widths: Seq<usize>, start: int, end: int, count: int)
    requires
        0 <= count <= widths.len(),
    ensures
        placed_of(widths, start, end, count).len() <= count,
        forall|i: int|
            0 <= i < placed_of(widths, start, end, count).len() ==> #[trigger] column_after(
                widths,
                start,
                i + 1,
            ) <= end,
    decreases count,
{
    if count > 0 {
        nothing_is_written_past_the_edge(widths, start, end, count - 1);
        let before = placed_of(widths, start, end, count - 1);
        assert forall|i: int|
            0 <= i < placed_of(widths, start, end, count).len() implies #[trigger] column_after(
            widths,
            start,
            i + 1,
        ) <= end by {
            if i < before.len() {
            }
        }
    }
}

/// Each part is there exactly where there is something for it and room: the toggle
/// where a folder is open, the palette's button on a line of any width, the Undo
/// button where the file operation can be undone and it fits, the cross where there
/// is no tab strip.
pub proof fn each_part_is_there_where_there_is_room(status: Rect, facts: StatusFacts)
    requires
        status.on_screen(),
        !facts.prompt,
        status.height > 0,
    ensures
        ({
            let parts = parts_of(status, facts);
            let edge = status.x + status.width;
            let files = if facts.folder {
                3int
            } else {
                0
            };
            &&& parts.files is Some <==> facts.folder
            &&& parts.files matches Some(part) ==> part.x == status.x && (status.width >= 3
                ==> part.width == 3) && (status.width < 3 ==> part.width == status.width)
            &&& parts.search is Some <==> status.width > 12
            &&& parts.search matches Some(part) ==> part.x == status.x + files && part.width == 3
                && part.y == status.y && part.height == 1
            &&& status.width > 12 ==> parts.text == status.x + files + 3
            &&& 3 <= status.width <= 12 ==> parts.text == status.x + files
            &&& parts.undo is Some <==> facts.undo && parts.text + facts.left + 2 + UNDO_WIDTH <= edge
            &&& parts.undo matches Some(part) ==> part.x == parts.text + facts.left + 2 && part.width
                == UNDO_WIDTH && part.y == status.y
            &&& parts.close is Some <==> !facts.strip && status.width > 10
            &&& parts.close matches Some(part) ==> part.x + 3 == edge && part.width == 3 && part.y
                == status.y
        }),
{
}

/// The name of the language server is where the right half leaves off, and there where
/// it is clear of what is to its left by more than a column.
pub proof fn the_server_s_name_is_beside_the_right_half(
    status: Rect,
    facts: StatusFacts,
    width: usize,
)
    requires
        status.on_screen(),
        !facts.prompt,
        status.height > 0,
        facts.server == Some(width),
        facts.left < u16::MAX,
    ensures
        ({
            let parts = parts_of(status, facts);
            let edge = match parts.close {
                Some(close) => close.x as int,
                None => status.x + status.width,
            };
            let used = match parts.undo {
                Some(undo) => undo.x + undo.width,
                None => parts.text + facts.left + 1,
            };
            let x = edge - facts.right - 1 - width;
            &&& parts.lsp is Some <==> x > used
            &&& parts.lsp matches Some(part) ==> part.x == x && part.width == width && part.y
                == status.y && part.height == 1
        }),
{
    let parts = parts_of(status, facts);
    assert(parts.undo matches Some(undo) ==> undo.x + undo.width <= status.x + status.width);
}

/// While a question is asked on the line, it has no parts.
pub proof fn a_question_takes_the_line(status: Rect, facts: StatusFacts)
    requires
        facts.prompt || status.height == 0,
    ensures
        ({
            let parts = parts_of(status, facts);
            parts.files is None && parts.search is None && parts.undo is None && parts.close is None
                && parts.lsp is None && parts.problems is None && parts.text == status.x
        }),
{
}

/// Every part is pressed where it is, as itself.
pub proof fn every_part_is_pressed_as_itself(parts: StatusParts)
    ensures
        ({
            let hits = part_hits(parts);
            &&& parts.files matches Some(area) ==> hits.contains(
                Hit { area, target: Target::StatusFiles, hover: true },
            )
            &&& parts.search matches Some(area) ==> hits.contains(
                Hit { area, target: Target::StatusSearch, hover: false },
            )
            &&& parts.undo matches Some(area) ==> hits.contains(
                Hit { area, target: Target::StatusUndo, hover: true },
            )
            &&& parts.close matches Some(area) ==> hits.contains(
                Hit { area, target: Target::StatusClose, hover: false },
            )
            &&& parts.lsp matches Some(area) ==> hits.contains(
                Hit { area, target: Target::StatusLsp, hover: false },
            )
            &&& parts.problems matches Some(area) ==> hits.contains(
                Hit { area, target: Target::StatusProblems, hover: true },
            )
        }),
{
    let hits = part_hits(parts);
    let a = part_hit(Seq::empty(), parts.files, Target::StatusFiles, true);
    let b = part_hit(a, parts.search, Target::StatusSearch, false);
    let c = part_hit(b, parts.undo, Target::StatusUndo, true);
    let d = part_hit(c, parts.close, Target::StatusClose, false);
    let e = part_hit(d, parts.lsp, Target::StatusLsp, false);
    if let Some(area) = parts.files {
        assert(hits[0] == (Hit { area, target: Target::StatusFiles, hover: true }));
    }
    if let Some(area) = parts.search {
        assert(hits[a.len() as int] == (Hit { area, target: Target::StatusSearch, hover: false }));
    }
    if let Some(area) = parts.undo {
        assert(hits[b.len() as int] == (Hit { area, target: Target::StatusUndo, hover: true }));
    }
    if let Some(area) = parts.close {
        assert(hits[c.len() as int] == (Hit { area, target: Target::StatusClose, hover: false }));
    }
    if let Some(area) = parts.lsp {
        assert(hits[d.len() as int] == (Hit { area, target: Target::StatusLsp, hover: false }));
    }
    if let Some(area) = parts.problems {
        assert(hits[e.len() as int] == (Hit { area, target: Target::StatusProblems, hover: true }));
    }
}

/// A chord half typed is shown before a message, a message before the file, and the
/// file with a mark where it has been changed.
pub proof fn a_chord_is_shown_before_a_message(
    chord: Seq<char>,
    message: Seq<char>,
    ellipsis: Seq<char>,
    path: Seq<char>,
    glyph: Seq<char>,
    said: Option<Seq<char>>,
    modified: Option<Seq<char>>,
)
    ensures
        left_half(Some(chord), ellipsis, said, path, modified) == chord + " "@ + ellipsis,
        left_half(None, ellipsis, Some(message), path, modified) == message,
        left_half(None, ellipsis, None, path, Some(glyph)) == path + (" "@ + glyph),
        left_half(None, ellipsis, None, path, None) == path,
{
    assert(left_half(None, ellipsis, None, path, None) =~= path);
}

/// The right half says the line and the column, both counted from one, and how lines
/// end; before them the language where it is known, and before that how many carets
/// there are where there is more than one.
pub proof fn the_right_half_counts_from_one(name: Seq<char>, standing: Standing)
    requires
        standing.carets > 1,
    ensures
        ({
            let one = Standing { carets: 1, ..standing };
            let place = "Ln "@ + decimal_of((standing.line + 1) as nat) + ", Col "@ + decimal_of(
                (standing.column + 1) as nat,
            ) + "  "@ + (if standing.crlf {
                "CRLF"@
            } else {
                "LF"@
            });
            &&& right_half(None, one) == place
            &&& right_half(Some(name), one) == name + "  "@ + place
            &&& right_half(None, standing) == decimal_of(standing.carets as nat) + " carets  "@
                + place
            &&& right_half(Some(name), standing) == decimal_of(standing.carets as nat)
                + " carets  "@ + name + "  "@ + place
        }),
{
    reveal_strlit("");
    let one = Standing { carets: 1, ..standing };
    let place = "Ln "@ + decimal_of((standing.line + 1) as nat) + ", Col "@ + decimal_of(
        (standing.column + 1) as nat,
    ) + "  "@ + (if standing.crlf {
        "CRLF"@
    } else {
        "LF"@
    });
    assert(right_half(None, one) =~= place);
    assert(right_half(Some(name), one) =~= name + "  "@ + place);
    assert(right_half(None, standing) =~= decimal_of(standing.carets as nat) + " carets  "@ + place);
    assert(right_half(Some(name), standing) =~= decimal_of(standing.carets as nat) + " carets  "@
        + name + "  "@ + place);
}

/// The right half ends a column short of the cross, or of the line's end, and is there
/// where it starts past what is to its left.
pub proof fn the_right_half_ends_a_column_short(
    area: Rect,
    parts: StatusParts,
    left: int,
    right: int,
)
    requires
        area.on_screen(),
        0 <= left <= u16::MAX,
        0 <= right < u16::MAX,
        parts.undo matches Some(undo) ==> undo.on_screen(),
    ensures
        ({
            let edge = match parts.close {
                Some(close) => close.x as int,
                None => area.x + area.width,
            };
            let used = match parts.undo {
                Some(undo) => undo.x + undo.width,
                None => parts.text + left,
            };
            match right_start(area, parts, left, right) {
                Some(start) => start + right + 1 == edge && start > used,
                None => edge - right - 1 <= used,
            }
        }),
{
}

/// Every part that is there is written where it is, buttons lit where the pointer is
/// on them; the left half where the text starts.
pub proof fn every_part_is_written_where_it_is(
    area: Rect,
    parts: StatusParts,
    texts: StatusTexts,
    left: int,
    right: int,
    hovered: Option<Target>,
    sidebar: bool,
)
    ensures
        ({
            let all = pieces_of(area, parts, texts, left, right, hovered, sidebar);
            &&& all.contains(
                PieceModel { area, start: parts.text, text: texts.left@, look: Look::Line },
            )
            &&& parts.files matches Some(part) ==> all.contains(
                PieceModel {
                    area: part,
                    start: part.x,
                    text: if sidebar {
                        texts.files_shown@
                    } else {
                        texts.files_hidden@
                    },
                    look: Look::Button(hovered == Some(Target::StatusFiles)),
                },
            )
            &&& parts.search matches Some(part) ==> all.contains(
                PieceModel {
                    area: part,
                    start: part.x,
                    text: texts.search@,
                    look: Look::Button(hovered == Some(Target::StatusSearch)),
                },
            )
            &&& parts.undo matches Some(part) ==> all.contains(
                PieceModel {
                    area: part,
                    start: part.x,
                    text: texts.undo@,
                    look: Look::Button(hovered == Some(Target::StatusUndo)),
                },
            )
            &&& parts.close matches Some(part) ==> all.contains(
                PieceModel {
                    area: part,
                    start: part.x,
                    text: texts.close@,
                    look: Look::Button(hovered == Some(Target::StatusClose)),
                },
            )
            &&& parts.lsp matches Some(part) ==> all.contains(
                PieceModel { area: part, start: part.x, text: texts.server@, look: Look::Server },
            )
            &&& right_start(area, parts, left, right) matches Some(start) ==> all.last() == (
            PieceModel { area, start: start as u16, text: texts.right@, look: Look::Line })
        }),
{
    let all = pieces_of(area, parts, texts, left, right, hovered, sidebar);
    let a = with_part(
        Seq::empty(),
        parts.files,
        texts.files(sidebar),
        Look::Button(hovered == Some(Target::StatusFiles)),
    );
    let b = with_part(
        a,
        parts.search,
        texts.search@,
        Look::Button(hovered == Some(Target::StatusSearch)),
    );
    let c = b.push(
        PieceModel { area, start: parts.text, text: texts.left@, look: Look::Line },
    );
    let d = with_part(
        c,
        parts.undo,
        texts.undo@,
        Look::Button(hovered == Some(Target::StatusUndo)),
    );
    let e = with_part(
        d,
        parts.close,
        texts.close@,
        Look::Button(hovered == Some(Target::StatusClose)),
    );
    assert(all[b.len() as int] == c[b.len() as int]);
    if parts.files is Some {
        assert(all[0] == a[0]);
    }
    if parts.search is Some {
        assert(all[a.len() as int] == b[a.len() as int]);
    }
    if parts.undo is Some {
        assert(all[c.len() as int] == d[c.len() as int]);
    }
    if parts.close is Some {
        assert(all[d.len() as int] == e[d.len() as int]);
    }
    if let Some(part) = parts.lsp {
        assert(all[e.len() as int] == (PieceModel {
            area: part,
            start: part.x,
            text: texts.server@,
            look: Look::Server,
        }));
    }
}

/// Every button of a question that has room is written, with a space to either side,
/// and lit where the pointer is on it.
pub proof fn every_button_with_room_is_written(
    labels: Seq<String>,
    areas: Seq<Rect>,
    hovered: Option<Target>,
    count: int,
    at: int,
)
    requires
        0 <= at < count <= areas.len(),
        areas.len() <= usize::MAX,
        areas[at].width > 0,
    ensures
        button_pieces(labels, areas, hovered, count).contains(
            PieceModel {
                area: areas[at],
                start: areas[at].x,
                text: " "@ + labels[at]@ + " "@,
                look: Look::Button(hovered == Some(Target::PromptButton(at as usize))),
            },
        ),
    decreases count,
{
    let piece = PieceModel {
        area: areas[at],
        start: areas[at].x,
        text: " "@ + labels[at]@ + " "@,
        look: Look::Button(hovered == Some(Target::PromptButton(at as usize))),
    };
    let before = button_pieces(labels, areas, hovered, count - 1);
    let all = button_pieces(labels, areas, hovered, count);
    if at == count - 1 {
        assert(all[before.len() as int] == piece);
    } else {
        every_button_with_room_is_written(labels, areas, hovered, count - 1, at);
        let k = choose|k: int| 0 <= k < before.len() && before[k] == piece;
        assert(all[k] == piece);
    }
}

/// Text is written from where it starts, each cluster where the one before it ends,
/// for as long as there is room for the next.
pub proof fn clusters_are_written_one_after_another(
    widths: Seq<usize>,
    start: int,
    end: int,
    count: int,
)
    requires
        0 <= count <= widths.len(),
        0 <= start,
        end <= u16::MAX,
    ensures
        ({
            let placed = placed_of(widths, start, end, count);
            &&& placed.len() > 0 ==> placed[0] == start
            &&& forall|i: int|
                0 <= i < placed.len() - 1 ==> #[trigger] placed[i + 1] == placed[i] + widths[i]
            &&& placed.len() > 0 ==> placed.last() + widths[placed.len() - 1] <= end
            &&& 0 < placed.len() < count ==> placed.last() + widths[placed.len() - 1]
                + widths[placed.len() as int] > end
            &&& placed.len() == 0 && count > 0 ==> start + widths[0] > end
        }),
{
    placed_so_far(widths, start, end, count);
    let placed = placed_of(widths, start, end, count);
    assert(column_after(widths, start, 0) == start);
    if placed.len() > 0 {
        assert(column_after(widths, start, placed.len() as int) == column_after(
            widths,
            start,
            placed.len() - 1,
        ) + widths[placed.len() - 1]);
    }
    assert forall|i: int| 0 <= i < placed.len() - 1 implies #[trigger] placed[i + 1] == placed[i]
        + widths[i] by {
        assert(placed[i] == column_after(widths, start, i));
        assert(placed[i + 1] == column_after(widths, start, i + 1));
    }
    if placed.len() < count {
        assert(column_after(widths, start, placed.len() as int + 1) == column_after(
            widths,
            start,
            placed.len() as int,
        ) + widths[placed.len() as int]);
    }
}

proof fn placed_so_far(widths: Seq<usize>, start: int, end: int, count: int)
    requires
        0 <= count <= widths.len(),
        0 <= start,
        end <= u16::MAX,
    ensures
        ({
            let placed = placed_of(widths, start, end, count);
            &&& placed.len() <= count
            &&& forall|i: int|
                0 <= i < placed.len() ==> #[trigger] placed[i] == column_after(widths, start, i)
            &&& placed.len() > 0 ==> column_after(widths, start, placed.len() as int) <= end
            &&& placed.len() < count ==> column_after(widths, start, placed.len() as int + 1) > end
        }),
    decreases count,
{
    if count > 0 {
        placed_so_far(widths, start, end, count - 1);
        let before = placed_of(widths, start, end, count - 1);
        columns_grow(widths, start, count - 1);
        let placed = placed_of(widths, start, end, count);
        assert forall|i: int| 0 <= i < placed.len() implies #[trigger] placed[i] == column_after(
            widths,
            start,
            i,
        ) by {
            if i < before.len() {
                assert(placed[i] == before[i]);
            }
        }
    }
}

proof fn columns_grow(widths: Seq<usize>, start: int, count: int)
    requires
        0 <= count <= widths.len(),
        0 <= start,
    ensures
        start <= column_after(widths, start, count),
    decreases count,
{
    if count > 0 {
        columns_grow(widths, start, count - 1);
    }
}

/// Only a button with room is written.
pub proof fn only_a_button_with_room_is_written(
    labels: Seq<String>,
    areas: Seq<Rect>,
    hovered: Option<Target>,
    count: int,
)
    requires
        0 <= count <= areas.len(),
    ensures
        forall|k: int|
            0 <= k < button_pieces(labels, areas, hovered, count).len() ==> (
            #[trigger] button_pieces(labels, areas, hovered, count)[k]).area.width > 0,
    decreases count,
{
    if count > 0 {
        only_a_button_with_room_is_written(labels, areas, hovered, count - 1);
        let before = button_pieces(labels, areas, hovered, count - 1);
        let all = button_pieces(labels, areas, hovered, count);
        assert forall|k: int| 0 <= k < all.len() implies (#[trigger] all[k]).area.width > 0 by {
            if k < before.len() {
                assert(all[k] == before[k]);
            }
        }
    }
}

} // verus!
