//! What Unicode says of text: its grapheme clusters, the columns it takes,
//! and what its characters are.

use unicode_segmentation::UnicodeSegmentation;
use unicode_width::UnicodeWidthStr;
use vstd::prelude::*;

use crate::edit::held;

verus! {

/// The extended grapheme clusters of a text, in order.
pub uninterp spec fn grapheme_clusters(text: Seq<char>) -> Seq<Seq<char>>;

/// How many columns a text takes, drawn in one piece.
pub uninterp spec fn columns(text: Seq<char>) -> nat;

/// Whether a character is a letter or a number, in any script.
pub uninterp spec fn alphanumeric(ch: char) -> bool;

/// Whether a character is white space: the tab and the other codes that end or
/// part lines, and every space of every width, those that hold words together
/// among them.
pub open spec fn white_space(ch: char) -> bool {
    let code = ch as u32;
    ||| 0x9 <= code <= 0xd
    ||| code == 0x20
    ||| code == 0x85
    ||| code == 0xa0
    ||| code == 0x1680
    ||| 0x2000 <= code <= 0x200a
    ||| 0x2028 <= code <= 0x2029
    ||| code == 0x202f
    ||| code == 0x205f
    ||| code == 0x3000
}

/// The characters of each of `strings`.
pub open spec fn views(strings: Seq<String>) -> Seq<Seq<char>> {
    Seq::new(strings.len(), |i: int| strings[i]@)
}

/// `parts` one after another.
pub open spec fn joined(parts: Seq<Seq<char>>) -> Seq<char>
    decreases parts.len(),
{
    if parts.len() == 0 {
        Seq::empty()
    } else {
        joined(parts.drop_last()) + parts.last()
    }
}

/// The columns each of `parts` takes, drawn on its own.
pub open spec fn column_counts(parts: Seq<Seq<char>>) -> Seq<nat> {
    Seq::new(parts.len(), |i: int| columns(parts[i]))
}

/// What `counts` come to.
pub open spec fn total(counts: Seq<nat>) -> nat
    decreases counts.len(),
{
    if counts.len() == 0 {
        0
    } else {
        total(counts.drop_last()) + counts.last()
    }
}

/// The numbers of `counts`, with nothing to hold them to a size.
pub open spec fn numbers(counts: Seq<usize>) -> Seq<nat> {
    Seq::new(counts.len(), |i: int| counts[i] as nat)
}

/// `UnicodeSegmentation::graphemes`, extended: the clusters of `text`, none of
/// them empty, which one after another are `text` again.
#[verifier::external_body]
pub(crate) fn graphemes(text: &str) -> (clusters: Vec<String>)
    ensures
        views(clusters@) == grapheme_clusters(text@),
        joined(views(clusters@)) == text@,
        forall|i: int| 0 <= i < clusters@.len() ==> (#[trigger] clusters@[i])@.len() > 0,
{
    text.graphemes(true).map(String::from).collect()
}

/// `UnicodeWidthStr::width`: how many columns `text` takes, drawn in one
/// piece.
#[verifier::external_body]
pub(crate) fn width(text: &str) -> (wide: usize)
    ensures
        wide == columns(text@),
{
    UnicodeWidthStr::width(text)
}

/// `char::is_alphanumeric`: whether `ch` is a letter or a number.
#[verifier::external_body]
pub(crate) fn is_alphanumeric(ch: char) -> (is: bool)
    ensures
        is == alphanumeric(ch),
{
    ch.is_alphanumeric()
}

/// Whether `ch` is white space.
pub fn is_whitespace(ch: char) -> (is: bool)
    ensures
        is == white_space(ch),
{
    let code: u32 = ch as u32;
    (0x9 <= code && code <= 0xd) || code == 0x20 || code == 0x85 || code == 0xa0 || code == 0x1680
        || (0x2000 <= code && code <= 0x200a) || code == 0x2028 || code == 0x2029 || code == 0x202f
        || code == 0x205f || code == 0x3000
}

/// Whether a character is one of the control codes.
pub open spec fn control(ch: char) -> bool {
    ch as u32 <= 0x1f || 0x7f <= ch as u32 <= 0x9f
}

/// Whether `ch` is one of the control codes, which move a terminal's cursor
/// rather than take a cell.
pub fn is_control(ch: char) -> (is: bool)
    ensures
        is == control(ch),
{
    let code: u32 = ch as u32;
    code <= 0x1f || (0x7f <= code && code <= 0x9f)
}

/// Whether `text` holds white space.
pub open spec fn has_space(text: Seq<char>) -> bool {
    exists|i: int| 0 <= i < text.len() && white_space(#[trigger] text[i])
}

/// Whether `text` holds nothing but white space.
pub open spec fn blank(text: Seq<char>) -> bool {
    forall|i: int| 0 <= i < text.len() ==> white_space(#[trigger] text[i])
}

/// Whether `text` holds white space.
pub(crate) fn holds_space(text: &str) -> (holds: bool)
    ensures
        holds == has_space(text@),
{
    let chars = crate::text::chars_of(text);
    let mut i: usize = 0;
    while i < chars.len()
        invariant
            i <= chars@.len(),
            chars@ == text@,
            forall|k: int| 0 <= k < i ==> !white_space(#[trigger] text@[k]),
        decreases chars@.len() - i,
    {
        if is_whitespace(chars[i]) {
            assert(white_space(text@[i as int]));
            return true;
        }
        i = i + 1;
    }
    false
}

/// Whether `text` holds nothing but white space.
pub(crate) fn is_blank(text: &str) -> (is: bool)
    ensures
        is == blank(text@),
{
    let chars = crate::text::chars_of(text);
    let mut i: usize = 0;
    while i < chars.len()
        invariant
            i <= chars@.len(),
            chars@ == text@,
            forall|k: int| 0 <= k < i ==> white_space(#[trigger] text@[k]),
        decreases chars@.len() - i,
    {
        if !is_whitespace(chars[i]) {
            assert(!white_space(text@[i as int]));
            return false;
        }
        i = i + 1;
    }
    true
}

/// The columns each of `clusters` takes, drawn on its own.
pub(crate) fn widths(clusters: &Vec<String>) -> (wide: Vec<usize>)
    ensures
        numbers(wide@) == column_counts(views(clusters@)),
{
    let mut wide: Vec<usize> = Vec::new();
    let mut i: usize = 0;
    while i < clusters.len()
        invariant
            i <= clusters@.len(),
            wide@.len() == i,
            forall|k: int| 0 <= k < i ==> #[trigger] wide@[k] == columns(clusters@[k]@),
        decreases clusters@.len() - i,
    {
        wide.push(width(clusters[i].as_str()));
        i = i + 1;
    }
    assert(numbers(wide@) =~= column_counts(views(clusters@)));
    wide
}

/// What `counts` come to, held to the largest number there is.
pub(crate) fn sum(counts: &Vec<usize>) -> (all: usize)
    ensures
        all == held(total(numbers(counts@)) as int),
{
    let mut all: usize = 0;
    let mut i: usize = 0;
    while i < counts.len()
        invariant
            i <= counts@.len(),
            all == held(total(numbers(counts@).take(i as int)) as int),
        decreases counts@.len() - i,
    {
        all = all.saturating_add(counts[i]);
        assert(numbers(counts@).take(i + 1).drop_last() =~= numbers(counts@).take(i as int));
        i = i + 1;
    }
    assert(numbers(counts@).take(counts@.len() as int) =~= numbers(counts@));
    all
}

/// Adding a part at the end adds its characters at the end.
pub(crate) proof fn joined_push(parts: Seq<Seq<char>>, n: int)
    requires
        0 <= n < parts.len(),
    ensures
        joined(parts.take(n + 1)) == joined(parts.take(n)) + parts[n],
        joined(parts.take(n)).len() <= joined(parts).len(),
    decreases parts.len() - n,
{
    assert(parts.take(n + 1).drop_last() =~= parts.take(n));
    if n + 1 < parts.len() {
        joined_push(parts, n + 1);
    } else {
        assert(parts.take(n + 1) =~= parts);
    }
}

/// The parts before the `n`th are the start of them all.
pub(crate) proof fn joined_starts(parts: Seq<Seq<char>>, n: int)
    requires
        0 <= n <= parts.len(),
    ensures
        joined(parts.take(n)).len() <= joined(parts).len(),
        joined(parts).take(joined(parts.take(n)).len() as int) == joined(parts.take(n)),
    decreases parts.len(),
{
    if n < parts.len() {
        joined_starts(parts.drop_last(), n);
        assert(parts.drop_last().take(n) =~= parts.take(n));
        let rest = joined(parts.drop_last());
        let len = joined(parts.take(n)).len() as int;
        assert((rest + parts.last()).take(len) =~= rest.take(len));
    } else {
        assert(parts.take(n) =~= parts);
        assert(joined(parts).take(joined(parts).len() as int) =~= joined(parts));
    }
}

/// More of them never come to less.
pub(crate) proof fn total_grows(counts: Seq<nat>, from: int, to: int)
    requires
        0 <= from <= to <= counts.len(),
    ensures
        total(counts.take(from)) <= total(counts.take(to)),
    decreases to - from,
{
    if from < to {
        total_grows(counts, from, to - 1);
        assert(counts.take(to).drop_last() =~= counts.take(to - 1));
    }
}

/// Joining parts keeps every char of each, in order, and what parts come to is the sum
/// of what each does.
pub proof fn parts_join_in_order(a: Seq<Seq<char>>, b: Seq<Seq<char>>, part: Seq<char>)
    ensures
        joined(a + b) == joined(a) + joined(b),
        joined(seq![part]) == part,
    decreases b.len(),
{
    assert(seq![part].drop_last() =~= Seq::<Seq<char>>::empty());
    assert(joined(seq![part].drop_last()) =~= Seq::<char>::empty());
    assert(joined(seq![part]) =~= part);
    if b.len() == 0 {
        assert(a + b =~= a);
        assert(joined(a) + joined(b) =~= joined(a));
    } else {
        parts_join_in_order(a, b.drop_last(), part);
        assert((a + b).drop_last() =~= a + b.drop_last());
        assert((a + b).last() == b.last());
        assert(joined(a + b) =~= joined(a) + joined(b));
    }
}

/// What counts come to is what each part of them comes to together.
pub proof fn counts_come_to_their_sum(a: Seq<nat>, b: Seq<nat>, count: nat)
    ensures
        total(a + b) == total(a) + total(b),
        total(seq![count]) == count,
    decreases b.len(),
{
    assert(seq![count].drop_last() =~= Seq::<nat>::empty());
    assert(total(seq![count].drop_last()) == 0);
    if b.len() == 0 {
        assert(a + b =~= a);
    } else {
        counts_come_to_their_sum(a, b.drop_last(), count);
        assert((a + b).drop_last() =~= a + b.drop_last());
        assert((a + b).last() == b.last());
    }
}

} // verus!
