//! Words in a text, a grapheme cluster at a time.

use ropey::Rope;
use vstd::prelude::*;

use crate::rope::{
    a_place_is_within_its_line, char_to_line, line_of, line_start, line_to_char, rope_text, slice,
};
use crate::unicode::{
    alphanumeric, grapheme_clusters, graphemes, is_alphanumeric, joined, views,
};

verus! {

/// Whether a character is part of a word: a letter or a digit of any script,
/// or an underscore.
pub open spec fn word_char(ch: char) -> bool {
    alphanumeric(ch) || ch == '_'
}

/// Whether `ch` is part of a word being completed.
pub fn is_word(ch: char) -> (is: bool)
    ensures
        is == word_char(ch),
{
    is_alphanumeric(ch) || ch == '_'
}

/// Where the word that ends at `end` starts, in a line whose clusters up to
/// there are `clusters`: back over every cluster that starts with a word's
/// character, so a combining mark or a virama stays with its letter.
pub open spec fn word_start_in(clusters: Seq<Seq<char>>, end: int) -> int
    decreases clusters.len(),
{
    if clusters.len() == 0 || clusters.last().len() == 0 || !word_char(clusters.last()[0]) {
        end
    } else {
        word_start_in(clusters.drop_last(), end - clusters.last().len())
    }
}

/// Where the word that ends at `end` starts, in a line whose clusters up to
/// there are `clusters`.
pub fn start_of_word(clusters: &Vec<String>, end: usize) -> (start: usize)
    requires
        joined(views(clusters@)).len() <= end,
    ensures
        start == word_start_in(views(clusters@), end as int),
{
    let ghost all = views(clusters@);
    let mut start: usize = end;
    let mut left: usize = clusters.len();
    assert(all.take(left as int) =~= all);
    while left > 0
        invariant
            all == views(clusters@),
            left <= clusters@.len(),
            joined(all.take(left as int)).len() <= start <= end,
            word_start_in(all, end as int) == word_start_in(all.take(left as int), start as int),
        decreases left,
    {
        let cluster = clusters[left - 1].as_str();
        proof {
            assert(all.take(left as int).drop_last() =~= all.take(left - 1));
            assert(all.take(left as int).last() == cluster@);
        }
        let len: usize = cluster.unicode_len();
        if len == 0 || !is_word(cluster.get_char(0)) {
            return start;
        }
        start = start - len;
        left = left - 1;
    }
    start
}

/// The word's start is in the line, and no further on than its end.
pub proof fn a_word_starts_in_its_line(clusters: Seq<Seq<char>>, end: int)
    ensures
        end - joined(clusters).len() <= word_start_in(clusters, end) <= end,
    decreases clusters.len(),
{
    if clusters.len() > 0 && clusters.last().len() > 0 && word_char(clusters.last()[0]) {
        a_word_starts_in_its_line(clusters.drop_last(), end - clusters.last().len());
    }
}

/// The clusters of the line `head` is on, up to there.
pub open spec fn clusters_before(text: Seq<char>, head: int) -> Seq<Seq<char>> {
    grapheme_clusters(text.subrange(line_start(text, line_of(text, head) as int), head))
}

/// The start of the word that ends at `head`, on its line.
pub fn word_start(rope: &Rope, head: usize) -> (start: usize)
    requires
        head <= rope_text(*rope).len(),
    ensures
        start == word_start_in(clusters_before(rope_text(*rope), head as int), head as int),
        line_start(rope_text(*rope), line_of(rope_text(*rope), head as int) as int) <= start
            <= head,
{
    let ghost text = rope_text(*rope);
    proof {
        a_place_is_within_its_line(text, head as int);
    }
    let from: usize = line_to_char(rope, char_to_line(rope, head));
    let clusters = graphemes(slice(rope, from, head).as_str());
    proof {
        a_word_starts_in_its_line(views(clusters@), head as int);
    }
    start_of_word(&clusters, head)
}

/// A word is letters, digits and underscores: the word that ends somewhere goes
/// back over every cluster that starts with one of those, as far as the first that
/// does not.
pub proof fn a_word_goes_back_to_the_first_that_is_not_of_it(
    clusters: Seq<Seq<char>>,
    end: int,
) -> (kept: int)
    requires
        forall|i: int| 0 <= i < clusters.len() ==> (#[trigger] clusters[i]).len() > 0,
    ensures
        0 <= kept <= clusters.len(),
        word_start_in(clusters, end) == end - crate::unicode::joined(clusters.skip(kept)).len(),
        forall|i: int|
            kept <= i < clusters.len() ==> alphanumeric((#[trigger] clusters[i])[0])
                || clusters[i][0] == '_',
        kept > 0 ==> !alphanumeric(clusters[kept - 1][0]) && clusters[kept - 1][0] != '_',
    decreases clusters.len(),
{
    if clusters.len() == 0 || !word_char(clusters.last()[0]) {
        assert(clusters.skip(clusters.len() as int) =~= Seq::empty());
        clusters.len() as int
    } else {
        let rest = clusters.drop_last();
        assert forall|i: int| 0 <= i < rest.len() implies (#[trigger] rest[i]).len() > 0 by {
            assert(rest[i] == clusters[i]);
        }
        let kept = a_word_goes_back_to_the_first_that_is_not_of_it(
            rest,
            end - clusters.last().len(),
        );
        assert(clusters.skip(kept).drop_last() =~= rest.skip(kept));
        assert(clusters.skip(kept).last() == clusters.last());
        assert forall|i: int| kept <= i < clusters.len() implies alphanumeric(
            (#[trigger] clusters[i])[0],
        ) || clusters[i][0] == '_' by {
            if i < rest.len() {
                assert(rest[i] == clusters[i]);
            }
        }
        if kept > 0 {
            assert(rest[kept - 1] == clusters[kept - 1]);
        }
        kept
    }
}

/// The word is looked for in what is before the caret on its own line: from just after
/// the last line feed, or the start of the text.
pub proof fn a_word_is_looked_for_on_its_own_line(text: Seq<char>, head: int, from: int)
    requires
        0 <= from <= head <= text.len(),
        from == 0 || text[from - 1] == '\n',
        forall|i: int| from <= i < head ==> #[trigger] text[i] != '\n',
    ensures
        clusters_before(text, head) == grapheme_clusters(text.subrange(from, head)),
{
    crate::rope::a_line_starts_after_a_line_feed(text, head, from);
}

} // verus!
