//! Titles as they are drawn on buttons.

use vstd::prelude::*;

use crate::text::{chars_of, push};
use crate::unicode::{
    column_counts, columns, control, grapheme_clusters, graphemes, is_control, joined, joined_push,
    numbers, sum, total, views, width, widths,
};

verus! {

/// How wide a fix's button may be before its title is cut short.
pub const MOST_BUTTON_WIDTH: usize = 30;

/// A title as it can be drawn: each control code is a space.
pub open spec fn drawable(title: Seq<char>) -> Seq<char> {
    Seq::new(
        title.len(),
        |i: int|
            if control(title[i]) {
                ' '
            } else {
                title[i]
            },
    )
}

/// A title as it can be drawn: a server's line break or tab would move the
/// terminal's cursor rather than take a cell, so each is a space.
pub fn printable(title: &str) -> (text: String)
    ensures
        text@ == drawable(title@),
{
    let chars = chars_of(title);
    let mut text = String::new();
    let mut i: usize = 0;
    while i < chars.len()
        invariant
            i <= chars@.len(),
            chars@ == title@,
            text@ =~= drawable(title@).take(i as int),
        decreases chars@.len() - i,
    {
        let ch = chars[i];
        push(
            &mut text,
            if is_control(ch) {
                ' '
            } else {
                ch
            },
        );
        i = i + 1;
    }
    assert(drawable(title@).take(title@.len() as int) =~= drawable(title@));
    text
}

/// How many columns `text` takes as it is drawn, a grapheme cluster at a time.
pub open spec fn drawn(text: Seq<char>) -> nat {
    total(column_counts(grapheme_clusters(text)))
}

/// How many columns `text` takes as it is drawn, a grapheme cluster at a time,
/// held to the largest number there is.
pub fn drawn_width(text: &str) -> (wide: usize)
    ensures
        wide == crate::edit::held(drawn(text@) as int),
{
    let clusters = graphemes(text);
    sum(&widths(&clusters))
}

/// How many of the clusters that are `counts` wide fit in `room`, from the
/// `from`th on, up to the first that does not.
pub open spec fn fitting(counts: Seq<nat>, room: nat, from: nat) -> nat
    decreases counts.len() - from,
{
    if from < counts.len() && total(counts.take(from as int + 1)) <= room {
        fitting(counts, room, from + 1)
    } else {
        from
    }
}

/// The room left for a title on a button that ends in something `wide`.
pub open spec fn room_beside(wide: nat) -> nat {
    if wide <= MOST_BUTTON_WIDTH {
        (MOST_BUTTON_WIDTH - wide) as nat
    } else {
        0
    }
}

/// A label made of `clusters`, which are `counts` wide: all of them where they
/// fit on a button, or as many as fit beside an ellipsis and then that.
pub open spec fn label_of(
    clusters: Seq<Seq<char>>,
    counts: Seq<nat>,
    ellipsis: Seq<char>,
    wide: nat,
) -> Seq<char> {
    if total(counts) <= MOST_BUTTON_WIDTH {
        joined(clusters)
    } else {
        joined(clusters.take(fitting(counts, room_beside(wide), 0) as int)) + ellipsis
    }
}

/// A label made of `clusters`, which are `counts` wide: all of them where they
/// fit on a button, or as many as fit beside `ellipsis`, which is `wide`, and
/// then that.
pub fn fit_on_button(
    clusters: &Vec<String>,
    counts: &Vec<usize>,
    ellipsis: &str,
    wide: usize,
) -> (label: String)
    requires
        clusters@.len() == counts@.len(),
    ensures
        label@ == label_of(views(clusters@), numbers(counts@), ellipsis@, wide as nat),
{
    let ghost parts = views(clusters@);
    let ghost all = numbers(counts@);
    let whole = sum(counts) <= MOST_BUTTON_WIDTH;
    let room: usize = MOST_BUTTON_WIDTH.saturating_sub(wide);
    let mut label = String::new();
    let mut used: usize = 0;
    let mut i: usize = 0;
    assert(all.take(0) =~= Seq::empty());
    assert(parts.take(0) =~= Seq::empty());
    while i < clusters.len() && (whole || counts[i] <= room - used)
        invariant
            i <= clusters@.len() == counts@.len(),
            parts == views(clusters@),
            all == numbers(counts@),
            room == room_beside(wide as nat),
            whole == (total(all) <= MOST_BUTTON_WIDTH),
            label@ == joined(parts.take(i as int)),
            used <= room,
            !whole ==> used == total(all.take(i as int)) && fitting(all, room as nat, 0)
                == fitting(all, room as nat, i as nat),
        decreases clusters@.len() - i,
    {
        label.append(clusters[i].as_str());
        proof {
            joined_push(parts, i as int);
            assert(all.take(i + 1).drop_last() =~= all.take(i as int));
        }
        if !whole {
            used = used + counts[i];
        }
        i = i + 1;
    }
    if whole {
        assert(parts.take(parts.len() as int) =~= parts);
        return label;
    }
    proof {
        if i < clusters@.len() {
            assert(all.take(i + 1).drop_last() =~= all.take(i as int));
        }
    }
    label.append(ellipsis);
    label
}

/// `title`, cut short between grapheme clusters to fit on a button, ending in
/// `ellipsis` when it was.
pub fn button_label(title: &str, ellipsis: &str) -> (label: String)
    ensures
        ({
            let clusters = grapheme_clusters(drawable(title@));
            label@ == label_of(clusters, column_counts(clusters), ellipsis@, columns(ellipsis@))
        }),
{
    let title = printable(title);
    let clusters = graphemes(title.as_str());
    let counts = widths(&clusters);
    assert(numbers(counts@).len() == column_counts(views(clusters@)).len());
    fit_on_button(&clusters, &counts, ellipsis, width(ellipsis))
}

/// What fits, fits.
proof fn fitting_fits(counts: Seq<nat>, room: nat, from: nat)
    requires
        from <= counts.len(),
        total(counts.take(from as int)) <= room,
    ensures
        from <= fitting(counts, room, from) <= counts.len(),
        total(counts.take(fitting(counts, room, from) as int)) <= room,
    decreases counts.len() - from,
{
    if from < counts.len() && total(counts.take(from as int + 1)) <= room {
        fitting_fits(counts, room, from + 1);
    }
}

/// A button is never wider than it may be, drawn a cluster at a time, as long
/// as the ellipsis itself is not.
pub proof fn a_button_is_never_too_wide(counts: Seq<nat>, wide: nat)
    requires
        wide <= MOST_BUTTON_WIDTH,
    ensures
        total(counts) > MOST_BUTTON_WIDTH ==> total(
            counts.take(fitting(counts, room_beside(wide), 0) as int),
        ) + wide <= MOST_BUTTON_WIDTH,
{
    assert(counts.take(0) =~= Seq::empty());
    fitting_fits(counts, room_beside(wide), 0);
}

/// A title that is printable is left as it is, so making one printable twice
/// is making it printable once.
pub proof fn printable_stays_printable(title: Seq<char>)
    ensures
        drawable(drawable(title)) == drawable(title),
        forall|i: int| 0 <= i < title.len() ==> !control(#[trigger] drawable(title)[i]),
{
    assert(drawable(drawable(title)) =~= drawable(title));
}

/// A label is cut only where it is too wide, and then as little as may be: with one
/// cluster more there would be no room for the ellipsis.
pub proof fn a_label_is_cut_as_little_as_may_be(
    clusters: Seq<Seq<char>>,
    counts: Seq<nat>,
    ellipsis: Seq<char>,
    wide: nat,
) -> (kept: int)
    requires
        counts.len() == clusters.len(),
        wide <= MOST_BUTTON_WIDTH,
    ensures
        total(counts) <= MOST_BUTTON_WIDTH ==> label_of(clusters, counts, ellipsis, wide) == joined(
            clusters,
        ),
        total(counts) > MOST_BUTTON_WIDTH ==> {
            &&& 0 <= kept < clusters.len()
            &&& label_of(clusters, counts, ellipsis, wide) == joined(clusters.take(kept)) + ellipsis
            &&& total(counts.take(kept)) + wide <= MOST_BUTTON_WIDTH
            &&& total(counts.take(kept + 1)) + wide > MOST_BUTTON_WIDTH
        },
{
    let room = room_beside(wide);
    assert(counts.take(0) =~= Seq::empty());
    fitting_fits(counts, room, 0);
    fitting_is_most(counts, room, 0);
    let kept = fitting(counts, room, 0) as int;
    if kept == counts.len() {
        assert(counts.take(kept) =~= counts);
    }
    kept
}

proof fn fitting_is_most(counts: Seq<nat>, room: nat, from: nat)
    requires
        from <= counts.len(),
    ensures
        ({
            let most = fitting(counts, room, from);
            from <= most <= counts.len() && (most < counts.len() ==> total(
                counts.take(most as int + 1),
            ) > room)
        }),
    decreases counts.len() - from,
{
    if from < counts.len() && total(counts.take(from as int + 1)) <= room {
        fitting_is_most(counts, room, from + 1);
    }
}

/// Making a title printable puts a space for each control char and leaves every
/// other char where it is.
pub proof fn only_control_chars_are_blanked(title: Seq<char>, at: int)
    requires
        0 <= at < title.len(),
    ensures
        drawable(title).len() == title.len(),
        control(title[at]) ==> drawable(title)[at] == ' ',
        !control(title[at]) ==> drawable(title)[at] == title[at],
{
}

} // verus!
