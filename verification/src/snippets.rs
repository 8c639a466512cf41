//! Putting a completion into the text: where, with what indentation, and the
//! tab-stops it leaves.

use ropey::Rope;
use vstd::prelude::*;

use crate::edit::{held, models, Edit, EditModel};
use crate::rope::{
    a_place_is_within_its_line, char_at, char_to_line, end_of_line, line_end, line_of, line_start,
    line_to_char, rope_text, slice,
};
use crate::spans::{
    copies, copies_at, kept_of, shifted, shifted_from, touches, touching, Selection, Span,
};
use crate::stops::{Snippet, StopPlace, Tabstops};
use crate::text::{chars_of, decimal, decimal_of, push};


verus! {

/// What a completion puts in, with its places in the text as it is now.
#[derive(Debug)]
pub struct Insertion {
    /// What it goes over, when the server says.
    pub range: Option<Span>,
    /// What it puts in.
    pub text: String,
    /// Whether its lines take the indentation of the line it goes in on.
    pub indent: bool,
    /// Whether it is a snippet, with stops in it.
    pub snippet: bool,
    /// Edits elsewhere that go in with it.
    pub additional: Vec<Edit>,
}

/// Where a completion goes at each caret it belongs at, and what goes in
/// there.
#[derive(Debug)]
pub struct Placing {
    /// What each copy goes over, in order.
    pub spans: Vec<Span>,
    /// Which of them is the primary caret's.
    pub primary: usize,
    /// What goes in at each, before a snippet's stops are worked out.
    pub sources: Vec<String>,
}

/// Whether a character indents a line.
pub open spec fn indents(ch: char) -> bool {
    ch == ' ' || ch == '\t'
}

/// The spaces and tabs `line` starts with.
pub open spec fn indent_in(line: Seq<char>) -> Seq<char>
    decreases line.len(),
{
    if line.len() == 0 || !indents(line[0]) {
        Seq::empty()
    } else {
        seq![line[0]] + indent_in(line.skip(1))
    }
}

/// `text` with `indent` after each of its line feeds.
pub open spec fn indented(text: Seq<char>, indent: Seq<char>) -> Seq<char>
    decreases text.len(),
{
    if text.len() == 0 {
        Seq::empty()
    } else if text.last() == '\n' {
        indented(text.drop_last(), indent).push('\n') + indent
    } else {
        indented(text.drop_last(), indent).push(text.last())
    }
}

/// Text with no line feed in it is the same however it is indented.
pub proof fn one_line_is_not_indented(text: Seq<char>, indent: Seq<char>)
    requires
        !text.contains('\n'),
    ensures
        indented(text, indent) == text,
    decreases text.len(),
{
    if text.len() > 0 {
        let rest = text.drop_last();
        assert forall|i: int| 0 <= i < rest.len() implies rest[i] != '\n' by {
            assert(text.contains(text[i]));
        }
        assert(text.contains(text[text.len() - 1]));
        one_line_is_not_indented(rest, indent);
        assert(rest.push(text.last()) =~= text);
    } else {
        assert(indented(text, indent) =~= text);
    }
}

/// The indentation of the line `head` is on.
pub open spec fn indent_at(text: Seq<char>, head: int) -> Seq<char> {
    let line = line_of(text, head) as int;
    indent_in(text.subrange(line_start(text, line), line_end(text, line)))
}

/// What `insertion` puts in at a caret at `head`: its lines after the first
/// indented like the caret's own.
pub open spec fn source_at(text: Seq<char>, head: int, insertion: Insertion) -> Seq<char> {
    if insertion.indent {
        indented(insertion.text@, indent_at(text, head))
    } else {
        insertion.text@
    }
}

/// The indentation of the line `head` is on.
fn indent_of(rope: &Rope, head: usize) -> (indent: String)
    requires
        head <= rope_text(*rope).len(),
    ensures
        indent@ == indent_at(rope_text(*rope), head as int),
{
    let ghost text = rope_text(*rope);
    proof {
        a_place_is_within_its_line(text, head as int);
    }
    let line: usize = char_to_line(rope, head);
    let from: usize = line_to_char(rope, line);
    let to: usize = end_of_line(rope, line);
    let ghost all = text.subrange(from as int, to as int);
    let mut indent = String::new();
    let mut at: usize = from;
    proof {
        assert(all.skip(0) =~= all);
        assert(indent@ + indent_in(all) =~= indent_in(all));
    }
    while at < to
        invariant_except_break
            indent@ + indent_in(all.skip(at - from)) == indent_in(all),
        invariant
            text == rope_text(*rope),
            from <= at <= to <= text.len(),
            all == text.subrange(from as int, to as int),
        ensures
            indent@ == indent_in(all),
        decreases to - at,
    {
        let ch = char_at(rope, at);
        let ghost rest = all.skip(at - from);
        assert(rest[0] == ch);
        if ch != ' ' && ch != '\t' {
            assert(indent@ + indent_in(rest) =~= indent@);
            break;
        }
        let ghost before = indent@;
        push(&mut indent, ch);
        proof {
            assert(rest.skip(1) =~= all.skip(at + 1 - from));
            assert(before + (seq![ch] + indent_in(rest.skip(1))) =~= before.push(ch) + indent_in(
                rest.skip(1),
            ));
        }
        at = at + 1;
        proof {
            if at == to {
                assert(all.skip(at - from) =~= Seq::empty());
                assert(indent@ + indent_in(all.skip(at - from)) =~= indent@);
            }
        }
    }
    indent
}

/// What `insertion` puts in at a caret at `head`: the rest of its lines take
/// the indentation of the caret's own.
pub fn snippet_source(rope: &Rope, head: usize, insertion: &Insertion) -> (source: String)
    requires
        head <= rope_text(*rope).len(),
    ensures
        source@ == source_at(rope_text(*rope), head as int, *insertion),
{
    if !insertion.indent {
        return insertion.text.clone();
    }
    let indent = indent_of(rope, head);
    let chars = chars_of(insertion.text.as_str());
    let mut source = String::new();
    let mut i: usize = 0;
    while i < chars.len()
        invariant
            i <= chars@.len(),
            source@ == indented(chars@.take(i as int), indent@),
        decreases chars@.len() - i,
    {
        push(&mut source, chars[i]);
        assert(chars@.take(i + 1).drop_last() =~= chars@.take(i as int));
        if chars[i] == '\n' {
            source.append(indent.as_str());
        }
        i = i + 1;
    }
    assert(chars@.take(chars@.len() as int) =~= chars@);
    source
}

/// A path, in the parts a snippet can ask for.
#[derive(Debug)]
pub struct PathParts {
    /// All of it.
    pub path: String,
    /// Its last part.
    pub name: String,
    /// Its last part without its extension.
    pub stem: String,
    /// The folder it is in.
    pub parent: String,
}

/// What a snippet variable is called, and what it stands for.
pub type Variable = (Seq<char>, Seq<char>);

/// The snippet variables there are answers for, for the caret at `head` with
/// `word` typed of the word being completed.
pub open spec fn variables_at(
    text: Seq<char>,
    head: int,
    word: Seq<char>,
    path: Option<PathParts>,
) -> Seq<Variable> {
    let line = line_of(text, head);
    let known = seq![
        ("TM_LINE_INDEX"@, decimal_of(line)),
        ("TM_LINE_NUMBER"@, decimal_of(line + 1)),
        (
            "TM_CURRENT_LINE"@,
            text.subrange(line_start(text, line as int), line_end(text, line as int)),
        ),
        ("TM_CURRENT_WORD"@, word),
        ("TM_SELECTED_TEXT"@, Seq::empty()),
    ];
    match path {
        Some(path) => known + seq![
            ("TM_FILEPATH"@, path.path@),
            ("TM_FILENAME"@, path.name@),
            ("TM_FILENAME_BASE"@, path.stem@),
            ("TM_DIRECTORY"@, path.parent@),
        ],
        None => known,
    }
}

/// `known` as values.
pub open spec fn variable_views(known: Seq<(&'static str, String)>) -> Seq<Variable> {
    Seq::new(known.len(), |i: int| (known[i].0@, known[i].1@))
}

/// The snippet variables there are answers for, for the caret at `head` with
/// `word` typed of the word being completed.
pub fn variables(rope: &Rope, head: usize, word: &str, path: &Option<PathParts>) -> (known: Vec<
    (&'static str, String),
>)
    requires
        head <= rope_text(*rope).len(),
    ensures
        variable_views(known@) == variables_at(rope_text(*rope), head as int, word@, *path),
{
    proof {
        a_place_is_within_its_line(rope_text(*rope), head as int);
    }
    let line: usize = char_to_line(rope, head);
    let from: usize = line_to_char(rope, line);
    let end: usize = end_of_line(rope, line);
    let mut known: Vec<(&'static str, String)> = Vec::new();
    known.push(("TM_LINE_INDEX", decimal(line)));
    known.push(("TM_LINE_NUMBER", decimal(line + 1)));
    known.push(("TM_CURRENT_LINE", slice(rope, from, end)));
    known.push(("TM_CURRENT_WORD", word.to_owned()));
    known.push(("TM_SELECTED_TEXT", String::new()));
    if let Some(path) = path {
        known.push(("TM_FILEPATH", path.path.clone()));
        known.push(("TM_FILENAME", path.name.clone()));
        known.push(("TM_FILENAME_BASE", path.stem.clone()));
        known.push(("TM_DIRECTORY", path.parent.clone()));
    }
    assert(variable_views(known@) =~= variables_at(
        rope_text(*rope),
        head as int,
        word@,
        *path,
    ));
    known
}

/// What a completion goes over at the primary caret: the range the server
/// gave, where the caret is in it, and otherwise the word up to the caret.
pub open spec fn primary_span(insertion: Insertion, start: usize, head: usize) -> Span {
    match insertion.range {
        Some((from, to)) => if from <= head && head <= to {
            (from, to)
        } else {
            (if start <= head { start } else { head }, head)
        },
        None => (if start <= head { start } else { head }, head),
    }
}

/// Work out where `insertion` goes, at every caret it belongs at, and what
/// goes in there. `start` is where the word being completed starts.
pub fn place(
    rope: &Rope,
    selections: &Vec<Selection>,
    primary: usize,
    start: usize,
    insertion: &Insertion,
) -> (placing: Placing)
    requires
        primary < selections@.len(),
        forall|i: int|
            0 <= i < selections@.len() ==> (#[trigger] selections@[i]).head <= rope_text(
                *rope,
            ).len(),
        insertion.range matches Some(range) ==> range.1 <= rope_text(*rope).len(),
    ensures
        ({
            let text = rope_text(*rope);
            let head = selections@[primary as int].head;
            let span = primary_span(*insertion, start, head);
            let found = copies_at(text, selections@, primary as int, span.0, head, span.1);
            &&& placing.spans@ == kept_of(found, primary as int, selections@.len() as int)
            &&& placing.primary == kept_of(found, primary as int, primary as int).len()
            &&& placing.primary < placing.spans@.len()
            &&& placing.spans@[placing.primary as int] == span
            &&& placing.sources@.len() == placing.spans@.len()
            &&& forall|i: int|
                0 <= i < placing.sources@.len() ==> (#[trigger] placing.sources@[i])@ == source_at(
                    text,
                    placing.spans@[i].0 + (head - span.0),
                    *insertion,
                )
        }),
{
    let ghost text = rope_text(*rope);
    let head: usize = selections[primary].head;
    assert(selections@[primary as int].head <= text.len());
    let word: usize = if start <= head {
        start
    } else {
        head
    };
    let span: Span = match insertion.range {
        Some((from, to)) => if from <= head && head <= to {
            (from, to)
        } else {
            (word, head)
        },
        None => (word, head),
    };
    let ghost found = copies_at(text, selections@, primary as int, span.0, head, span.1);
    let (spans, chosen) = copies(rope, selections, primary, span.0, head, span.1);
    let mut sources: Vec<String> = Vec::new();
    let mut i: usize = 0;
    while i < spans.len()
        invariant
            i <= spans@.len(),
            text == rope_text(*rope),
            primary < selections@.len(),
            head == selections@[primary as int].head,
            span.0 <= head <= span.1 <= text.len(),
            forall|k: int|
                0 <= k < selections@.len() ==> (#[trigger] selections@[k]).head <= text.len(),
            found == copies_at(text, selections@, primary as int, span.0, head, span.1),
            spans@ == kept_of(found, primary as int, selections@.len() as int),
            sources@.len() == i,
            forall|k: int|
                0 <= k < i ==> (#[trigger] sources@[k])@ == source_at(
                    text,
                    spans@[k].0 + (head - span.0),
                    *insertion,
                ),
        decreases spans@.len() - i,
    {
        proof {
            crate::spans::copies_never_overlap(found, primary as int, selections@.len() as int);
            let at = choose|at: int|
                0 <= at < selections@.len() && #[trigger] crate::spans::is_kept(
                    found,
                    primary as int,
                    at,
                ) && found[at]->0 == spans@[i as int];
            assert(selections@[at].head <= text.len());
            assert(spans@[i as int].0 + (head - span.0) == selections@[at].head);
        }
        let caret: usize = spans[i].0 + (head - span.0);
        sources.push(snippet_source(rope, caret, insertion));
        i = i + 1;
    }
    Placing { spans, primary: chosen, sources }
}

/// The carets a completion did not go in at, where they are once `edits` have
/// gone in.
pub open spec fn left_alone(
    selections: Seq<Selection>,
    spans: Seq<Span>,
    edits: Seq<EditModel>,
    count: int,
) -> Seq<Span>
    decreases count,
{
    if count <= 0 {
        Seq::empty()
    } else {
        let rest = left_alone(selections, spans, edits, count - 1);
        let selection = selections[count - 1];
        if crate::spans::any_touches(spans, (selection.spec_from(), selection.spec_to())) {
            rest
        } else {
            rest.push(
                (
                    shifted_from(edits, selection.anchor as int, 0) as usize,
                    shifted_from(edits, selection.head as int, 0) as usize,
                ),
            )
        }
    }
}

/// The carets a completion did not go in at, where they are once `edits` have
/// gone in.
pub fn others(selections: &Vec<Selection>, spans: &Vec<Span>, edits: &Vec<Edit>) -> (others: Vec<
    Span,
>)
    ensures
        others@ == left_alone(selections@, spans@, models(edits@), selections@.len() as int),
{
    let mut others: Vec<Span> = Vec::new();
    let mut i: usize = 0;
    while i < selections.len()
        invariant
            i <= selections@.len(),
            others@ == left_alone(selections@, spans@, models(edits@), i as int),
        decreases selections@.len() - i,
    {
        let selection = selections[i];
        let here: Span = (selection.from(), selection.to());
        let mut touched = false;
        let mut k: usize = 0;
        while k < spans.len()
            invariant
                k <= spans@.len(),
                touched == exists|j: int| 0 <= j < k && touching(#[trigger] spans@[j], here),
            decreases spans@.len() - k,
        {
            if touches(spans[k], here) {
                assert(touching(spans@[k as int], here));
                touched = true;
            }
            k = k + 1;
        }
        assert(touched == crate::spans::any_touches(spans@, here));
        if !touched {
            others.push((shifted(edits, selection.anchor), shifted(edits, selection.head)));
        }
        i = i + 1;
    }
    others
}

/// A span of a snippet's text, where it is once that starts at `base`.
pub open spec fn based(base: usize, span: Span) -> Span {
    (held(base + span.0) as usize, held(base + span.1) as usize)
}

/// Where stop `index` is in the first `count` copies of a snippet.
pub open spec fn stop_places(
    snippets: Seq<Snippet>,
    bases: Seq<usize>,
    index: int,
    count: int,
) -> Seq<StopPlace>
    decreases count,
{
    if count <= 0 {
        Seq::empty()
    } else {
        let rest = stop_places(snippets, bases, index, count - 1);
        let copy = count - 1;
        let stops = snippets[copy].stops@;
        if index < stops.len() {
            rest + Seq::new(
                stops[index]@.len(),
                |i: int| (copy as usize, based(bases[copy], stops[index]@[i])),
            )
        } else {
            rest
        }
    }
}

/// Where stop `index` is in every copy of a snippet.
fn places_of_stop(snippets: &Vec<Snippet>, bases: &Vec<usize>, index: usize) -> (stop: Vec<
    StopPlace,
>)
    requires
        bases@.len() == snippets@.len(),
    ensures
        stop@ == stop_places(snippets@, bases@, index as int, snippets@.len() as int),
{
    let mut stop: Vec<StopPlace> = Vec::new();
    let mut copy: usize = 0;
    while copy < snippets.len()
        invariant
            copy <= snippets@.len() == bases@.len(),
            stop@ == stop_places(snippets@, bases@, index as int, copy as int),
        decreases snippets@.len() - copy,
    {
        let ghost before = stop@;
        let ghost goal = stop_places(snippets@, bases@, index as int, copy + 1);
        let snippet = &snippets[copy];
        if index < snippet.stops.len() {
            let ranges = &snippet.stops[index];
            let mut i: usize = 0;
            while i < ranges.len()
                invariant
                    copy < snippets@.len() == bases@.len(),
                    index < snippets@[copy as int].stops@.len(),
                    ranges == snippets@[copy as int].stops@[index as int],
                    before == stop_places(snippets@, bases@, index as int, copy as int),
                    goal == stop_places(snippets@, bases@, index as int, copy + 1),
                    goal.len() == before.len() + ranges@.len(),
                    i <= ranges@.len(),
                    stop@ =~= goal.take(before.len() + i),
                decreases ranges@.len() - i,
            {
                let span: Span = (
                    bases[copy].saturating_add(ranges[i].0),
                    bases[copy].saturating_add(ranges[i].1),
                );
                stop.push((copy, span));
                i = i + 1;
            }
            assert(goal.take(goal.len() as int) =~= goal);
        }
        copy = copy + 1;
    }
    stop
}

/// The tab-stops of `snippets`, which now start at `bases` in `doc`, a text of
/// `len` characters, with the primary caret in copy `primary` and `others`
/// left where they are.
pub fn tabstops(
    doc: usize,
    len: usize,
    snippets: &Vec<Snippet>,
    bases: &Vec<usize>,
    primary: usize,
    others: Vec<Span>,
) -> (stops: Tabstops)
    requires
        bases@.len() == snippets@.len(),
        primary < snippets@.len(),
    ensures
        stops.doc == doc,
        stops.len == len,
        stops.primary == primary,
        stops.others == others,
        stops.current == 0,
        stops.model().len() == snippets@[primary as int].stops@.len(),
        forall|i: int|
            0 <= i < stops.model().len() ==> #[trigger] stops.model()[i] == stop_places(
                snippets@,
                bases@,
                i,
                snippets@.len() as int,
            ),
{
    let count: usize = snippets[primary].stops.len();
    let mut stops: Vec<Vec<StopPlace>> = Vec::new();
    let mut index: usize = 0;
    while index < count
        invariant
            bases@.len() == snippets@.len(),
            index <= count,
            stops@.len() == index,
            forall|i: int|
                0 <= i < index ==> (#[trigger] stops@[i])@ == stop_places(
                    snippets@,
                    bases@,
                    i,
                    snippets@.len() as int,
                ),
        decreases count - index,
    {
        stops.push(places_of_stop(snippets, bases, index));
        index = index + 1;
    }
    Tabstops { doc, stops, primary, others, current: 0, len }
}

/// The indentation of a line is all the spaces and tabs it starts with: `from` is
/// where the line `head` is on starts, just after a line feed or at the start of
/// the text. It is what the line starts with, it is spaces and tabs, and what
/// comes after it is neither.
pub proof fn a_line_s_indentation_is_its_leading_spaces_and_tabs(
    text: Seq<char>,
    head: int,
    from: int,
)
    requires
        0 <= from <= head <= text.len(),
        from == 0 || text[from - 1] == '\n',
        forall|i: int| from <= i < head ==> #[trigger] text[i] != '\n',
    ensures
        ({
            let indent = indent_at(text, head);
            let end = from + indent.len();
            &&& end <= text.len()
            &&& text.subrange(from, end) == indent
            &&& forall|i: int|
                from <= i < end ==> #[trigger] text[i] == ' ' || text[i] == '\t'
            &&& end < text.len() ==> text[end] != ' ' && text[end] != '\t'
        }),
{
    crate::rope::a_line_starts_after_a_line_feed(text, head, from);
    let number = line_of(text, head) as int;
    let to = line_end(text, number);
    a_place_is_within_its_line(text, head);
    let line = text.subrange(from, to);
    leading_spaces_and_tabs(line);
    let indent = indent_in(line);
    let end = from + indent.len();
    assert(text.subrange(from, end) =~= line.take(indent.len() as int));
    assert forall|i: int| from <= i < end implies #[trigger] text[i] == ' ' || text[i] == '\t' by {
        assert(line[i - from] == text[i]);
    }
    if end < to {
        assert(text[end] == line[indent.len() as int]);
    } else if to < text.len() {
        crate::rope::a_line_ends_at_a_line_feed(text, number);
    }
}

proof fn leading_spaces_and_tabs(line: Seq<char>)
    ensures
        indent_in(line).len() <= line.len(),
        line.take(indent_in(line).len() as int) == indent_in(line),
        forall|i: int|
            0 <= i < indent_in(line).len() ==> #[trigger] line[i] == ' ' || line[i] == '\t',
        indent_in(line).len() < line.len() ==> line[indent_in(line).len() as int] != ' '
            && line[indent_in(line).len() as int] != '\t',
    decreases line.len(),
{
    let indent = indent_in(line);
    if line.len() > 0 && (line[0] == ' ' || line[0] == '\t') {
        let rest = line.skip(1);
        leading_spaces_and_tabs(rest);
        let inner = indent_in(rest);
        assert(indent == seq![line[0]] + inner);
        assert(line.take(indent.len() as int) =~= seq![line[0]] + rest.take(inner.len() as int));
        assert forall|i: int| 0 <= i < indent.len() implies #[trigger] line[i] == ' ' || line[i]
            == '\t' by {
            if i > 0 {
                assert(line[i] == rest[i - 1]);
            }
        }
        if indent.len() < line.len() {
            assert(line[indent.len() as int] == rest[inner.len() as int]);
        }
    } else {
        assert(line.take(0) =~= indent);
    }
}

/// Each line but the first of what goes in takes the indentation, and nothing
/// else changes: `first` is the first line, and `rest` what follows its line feed.
pub proof fn later_lines_take_the_indentation(
    first: Seq<char>,
    rest: Seq<char>,
    indent: Seq<char>,
)
    requires
        !first.contains('\n'),
    ensures
        indented(first, indent) == first,
        indented(first + seq!['\n'] + rest, indent) == first + seq!['\n'] + indent + indented(
            rest,
            indent,
        ),
    decreases rest.len(),
{
    one_line_is_not_indented(first, indent);
    let head = first + seq!['\n'];
    if rest.len() == 0 {
        assert((head + rest).drop_last() =~= first);
        assert(head + rest =~= head);
        assert(indented(rest, indent) =~= Seq::<char>::empty());
        assert(first.push('\n') + indent =~= head + indent + indented(rest, indent));
    } else {
        later_lines_take_the_indentation(first, rest.drop_last(), indent);
        assert((head + rest).drop_last() =~= head + rest.drop_last());
        assert((head + rest).last() == rest.last());
        let so_far = indented(rest.drop_last(), indent);
        if rest.last() == '\n' {
            assert((head + indent + so_far).push('\n') + indent =~= head + indent + (so_far.push(
                '\n',
            ) + indent));
        } else {
            assert((head + indent + so_far).push(rest.last()) =~= head + indent + so_far.push(
                rest.last(),
            ));
        }
    }
}

/// Accepting a completion whose lines are to be indented puts its first line in
/// as it is, and indents the rest like the line it goes in on: `from` is where
/// that line starts, and `end` where its spaces and tabs do. One that is not to be
/// indented goes in as it is.
pub proof fn a_completion_is_indented_like_its_line(
    text: Seq<char>,
    head: int,
    from: int,
    end: int,
    insertion: Insertion,
    first: Seq<char>,
    rest: Seq<char>,
)
    requires
        0 <= from <= head <= text.len(),
        from == 0 || text[from - 1] == '\n',
        forall|i: int| from <= i < head ==> #[trigger] text[i] != '\n',
        from <= end <= text.len(),
        forall|i: int| from <= i < end ==> #[trigger] text[i] == ' ' || text[i] == '\t',
        end < text.len() ==> text[end] != ' ' && text[end] != '\t',
        insertion.text@ == first + seq!['\n'] + rest,
        !first.contains('\n'),
        !rest.contains('\n'),
    ensures
        source_at(text, head, insertion) == if insertion.indent {
            first + seq!['\n'] + text.subrange(from, end) + rest
        } else {
            insertion.text@
        },
{
    a_line_s_indentation_is_its_leading_spaces_and_tabs(text, head, from);
    let indent = indent_at(text, head);
    let there = from + indent.len();
    if there < end {
        assert(text[there] == ' ' || text[there] == '\t');
    } else if end < there {
        assert(text[end] == ' ' || text[end] == '\t');
    }
    later_lines_take_the_indentation(first, rest, indent);
    one_line_is_not_indented(rest, indent);
}

/// A completion goes over what the server says, where that is around the caret;
/// otherwise over what has been typed of the word, up to the caret.
pub proof fn a_completion_goes_over_the_word(insertion: Insertion, start: usize, head: usize)
    ensures
        ({
            let span = primary_span(insertion, start, head);
            let around = insertion.range matches Some((from, to)) && from <= head <= to;
            &&& span.0 <= head <= span.1
            &&& around ==> insertion.range == Some(span)
            &&& !around ==> span.1 == head
            &&& !around && start <= head ==> span.0 == start
            &&& !around && start > head ==> span.0 == head
        }),
{
}

/// Each caret that is clear of every copy is kept, where its ends have gone.
pub proof fn a_caret_clear_of_the_copies_is_kept(
    selections: Seq<Selection>,
    spans: Seq<Span>,
    edits: Seq<EditModel>,
    count: int,
    at: int,
)
    requires
        0 <= at < count <= selections.len(),
        forall|i: int|
            0 <= i < spans.len() ==> {
                ||| (#[trigger] spans[i]).1 < selections[at].anchor && spans[i].1 < selections[at].head
                ||| selections[at].anchor < spans[i].0 && selections[at].head < spans[i].0
            },
    ensures
        left_alone(selections, spans, edits, count).contains(
            (
                shifted_from(edits, selections[at].anchor as int, 0) as usize,
                shifted_from(edits, selections[at].head as int, 0) as usize,
            ),
        ),
    decreases count,
{
    let span = (
        shifted_from(edits, selections[at].anchor as int, 0) as usize,
        shifted_from(edits, selections[at].head as int, 0) as usize,
    );
    let before = left_alone(selections, spans, edits, count - 1);
    let kept = left_alone(selections, spans, edits, count);
    if at == count - 1 {
        assert(kept[before.len() as int] == span);
    } else {
        a_caret_clear_of_the_copies_is_kept(selections, spans, edits, count - 1, at);
        let k = choose|k: int| 0 <= k < before.len() && before[k] == span;
        assert(kept[k] == span);
    }
}

/// A caret that reaches a copy or its edge goes with the copy: it is kept nowhere
/// else.
pub proof fn a_caret_at_a_copy_goes_with_it(
    selections: Seq<Selection>,
    spans: Seq<Span>,
    edits: Seq<EditModel>,
    count: int,
    span: int,
)
    requires
        0 < count <= selections.len(),
        0 <= span < spans.len(),
        spans[span].0 <= selections[count - 1].head <= spans[span].1,
    ensures
        left_alone(selections, spans, edits, count) == left_alone(
            selections,
            spans,
            edits,
            count - 1,
        ),
{
    let selection = selections[count - 1];
    assert(crate::spans::touching(spans[span], (selection.spec_from(), selection.spec_to())));
}

/// Each stop of each copy's snippet is where the copy starts and as far in as the
/// snippet says.
pub proof fn each_stop_is_as_far_into_its_copy(
    snippets: Seq<Snippet>,
    bases: Seq<usize>,
    index: int,
    count: int,
    copy: int,
    place: int,
)
    requires
        0 <= copy < count <= snippets.len() == bases.len(),
        snippets.len() <= usize::MAX,
        0 <= index < snippets[copy].stops@.len(),
        0 <= place < snippets[copy].stops@[index]@.len(),
        bases[copy] + snippets[copy].stops@[index]@[place].0 <= usize::MAX,
        bases[copy] + snippets[copy].stops@[index]@[place].1 <= usize::MAX,
    ensures
        stop_places(snippets, bases, index, count).contains(
            (
                copy as usize,
                (
                    (bases[copy] + snippets[copy].stops@[index]@[place].0) as usize,
                    (bases[copy] + snippets[copy].stops@[index]@[place].1) as usize,
                ),
            ),
        ),
    decreases count,
{
    let stop = (
        copy as usize,
        (
            (bases[copy] + snippets[copy].stops@[index]@[place].0) as usize,
            (bases[copy] + snippets[copy].stops@[index]@[place].1) as usize,
        ),
    );
    let before = stop_places(snippets, bases, index, count - 1);
    let places = stop_places(snippets, bases, index, count);
    if copy == count - 1 {
        assert(places[before.len() + place] == stop);
    } else {
        each_stop_is_as_far_into_its_copy(snippets, bases, index, count - 1, copy, place);
        let k = choose|k: int| 0 <= k < before.len() && before[k] == stop;
        assert(places[k] == stop);
    }
}

/// What a snippet may ask for is what it says: the caret's line counted from nought
/// and from one, the line and the word it is on, nothing selected, and, of a file,
/// its path and the parts of it.
pub proof fn a_snippet_is_told_where_it_is(
    text: Seq<char>,
    head: int,
    word: Seq<char>,
    path: PathParts,
)
    ensures
        ({
            let known = variables_at(text, head, word, Some(path));
            let line = line_of(text, head);
            &&& known.len() == 9
            &&& known[0] == ("TM_LINE_INDEX"@, decimal_of(line))
            &&& known[1] == ("TM_LINE_NUMBER"@, decimal_of(line + 1))
            &&& known[2] == (
                "TM_CURRENT_LINE"@,
                text.subrange(line_start(text, line as int), line_end(text, line as int)),
            )
            &&& known[3] == ("TM_CURRENT_WORD"@, word)
            &&& known[4].0 == "TM_SELECTED_TEXT"@ && known[4].1.len() == 0
            &&& known[5] == ("TM_FILEPATH"@, path.path@)
            &&& known[6] == ("TM_FILENAME"@, path.name@)
            &&& known[7] == ("TM_FILENAME_BASE"@, path.stem@)
            &&& known[8] == ("TM_DIRECTORY"@, path.parent@)
            &&& variables_at(text, head, word, None) == known.take(5)
        }),
{
    assert(variables_at(text, head, word, None) =~= variables_at(text, head, word, Some(path)).take(5));
}

/// Every place of a stop is in a copy that has that stop, as far in as its snippet says.
pub proof fn only_a_snippet_s_own_stops_are_placed(
    snippets: Seq<Snippet>,
    bases: Seq<usize>,
    index: int,
    count: int,
)
    requires
        0 <= count <= snippets.len() == bases.len(),
        snippets.len() <= usize::MAX,
        0 <= index,
    ensures
        forall|k: int|
            0 <= k < stop_places(snippets, bases, index, count).len() ==> is_stop_of(
                snippets,
                bases,
                index,
                count,
                #[trigger] stop_places(snippets, bases, index, count)[k],
            ),
    decreases count,
{
    if count > 0 {
        only_a_snippet_s_own_stops_are_placed(snippets, bases, index, count - 1);
        let before = stop_places(snippets, bases, index, count - 1);
        let places = stop_places(snippets, bases, index, count);
        let copy = count - 1;
        assert forall|k: int| 0 <= k < places.len() implies is_stop_of(
            snippets,
            bases,
            index,
            count,
            #[trigger] places[k],
        ) by {
            if k < before.len() {
                assert(places[k] == before[k]);
                let i = choose|i: int|
                    0 <= i < snippets[before[k].0 as int].stops@[index]@.len() && before[k].1 == based(
                        bases[before[k].0 as int],
                        #[trigger] snippets[before[k].0 as int].stops@[index]@[i],
                    );
                assert(before[k].1 == based(
                    bases[before[k].0 as int],
                    snippets[before[k].0 as int].stops@[index]@[i],
                ));
            } else {
                let i = k - before.len();
                assert(places[k] == (
                    copy as usize,
                    based(bases[copy], snippets[copy].stops@[index]@[i]),
                ));
            }
        }
    }
}

/// Whether `place` is one of stop `index` of one of the first `count` copies.
pub open spec fn is_stop_of(
    snippets: Seq<Snippet>,
    bases: Seq<usize>,
    index: int,
    count: int,
    place: (usize, Span),
) -> bool {
    &&& place.0 < count
    &&& index < snippets[place.0 as int].stops@.len()
    &&& exists|i: int|
        0 <= i < snippets[place.0 as int].stops@[index]@.len() && place.1 == based(
            bases[place.0 as int],
            #[trigger] snippets[place.0 as int].stops@[index]@[i],
        )
}

} // verus!
