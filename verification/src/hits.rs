//! What is where on screen, from the bottom up.

use vstd::prelude::*;

use crate::geometry::Rect;
use crate::target::Target;

verus! {

/// A part of the screen, and what is there.
#[derive(Debug, Clone, Copy, PartialEq, Eq, Structural)]
pub struct Hit {
    /// Where.
    pub area: Rect,
    /// What.
    pub target: Target,
    /// Whether it looks different while the pointer is on it.
    pub hover: bool,
}

/// What is under the cell at `column` and `row`: the last of `hits` laid over
/// it.
pub open spec fn on_top(hits: Seq<Hit>, column: int, row: int) -> Option<Hit>
    decreases hits.len(),
{
    if hits.len() == 0 {
        None
    } else if hits.last().area.spec_contains(column, row) {
        Some(hits.last())
    } else {
        on_top(hits.drop_last(), column, row)
    }
}

/// What is under the cell at `column` and `row`: the last of `hits` laid over
/// it.
pub fn hit_at(hits: &Vec<Hit>, column: u16, row: u16) -> (hit: Option<Hit>)
    ensures
        hit == on_top(hits@, column as int, row as int),
{
    let mut i: usize = hits.len();
    assert(hits@.take(hits@.len() as int) =~= hits@);
    while i > 0
        invariant
            i <= hits@.len(),
            on_top(hits@, column as int, row as int) == on_top(
                hits@.take(i as int),
                column as int,
                row as int,
            ),
        decreases i,
    {
        assert(hits@.take(i as int).drop_last() =~= hits@.take(i - 1));
        if hits[i - 1].area.contains(column, row) {
            return Some(hits[i - 1]);
        }
        i = i - 1;
    }
    None
}

/// What is laid over a whole area lets nothing under it be reached there:
/// whatever is hit in the area is that, or was laid over it later.
pub proof fn what_covers_an_area_hides_what_is_under_it(
    under: Seq<Hit>,
    cover: Hit,
    over: Seq<Hit>,
    column: int,
    row: int,
)
    requires
        cover.area.spec_contains(column, row),
    ensures
        ({
            let hit = on_top(under.push(cover) + over, column, row);
            hit is Some && (hit->0 == cover || over.contains(hit->0))
        }),
    decreases over.len(),
{
    let all = under.push(cover) + over;
    if over.len() == 0 {
        assert(all =~= under.push(cover));
        assert(all.last() == cover);
    } else {
        assert(all.last() == over.last());
        assert(all.drop_last() =~= under.push(cover) + over.drop_last());
        assert(over[over.len() - 1] == over.last());
        if !over.last().area.spec_contains(column, row) {
            what_covers_an_area_hides_what_is_under_it(
                under,
                cover,
                over.drop_last(),
                column,
                row,
            );
            let hit = on_top(all, column, row)->0;
            if over.drop_last().contains(hit) {
                let k = choose|k: int|
                    0 <= k < over.drop_last().len() && over.drop_last()[k] == hit;
                assert(over[k] == hit);
            }
        }
    }
}

/// What is hit is the last laid there, and nothing only where nothing was.
pub proof fn what_is_hit_was_laid_last(hits: Seq<Hit>, column: int, row: int)
    ensures
        match on_top(hits, column, row) {
            Some(hit) => exists|i: int|
                {
                    &&& 0 <= i < hits.len()
                    &&& #[trigger] hits[i] == hit
                    &&& is_at(hit.area, column, row)
                    &&& forall|j: int|
                        i < j < hits.len() ==> !is_at((#[trigger] hits[j]).area, column, row)
                },
            None => forall|j: int|
                0 <= j < hits.len() ==> !is_at((#[trigger] hits[j]).area, column, row),
        },
    decreases hits.len(),
{
    if hits.len() > 0 {
        let rest = hits.drop_last();
        assert(hits[hits.len() - 1] == hits.last());
        if !hits.last().area.spec_contains(column, row) {
            what_is_hit_was_laid_last(rest, column, row);
            assert forall|j: int| 0 <= j < rest.len() implies rest[j] == hits[j] by {}
            if let Some(hit) = on_top(rest, column, row) {
                let i = choose|i: int|
                    {
                        &&& 0 <= i < rest.len()
                        &&& #[trigger] rest[i] == hit
                        &&& is_at(hit.area, column, row)
                        &&& forall|j: int|
                            i < j < rest.len() ==> !is_at((#[trigger] rest[j]).area, column, row)
                    };
                assert(hits[i] == hit);
                assert forall|j: int| i < j < hits.len() implies !is_at(
                    (#[trigger] hits[j]).area,
                    column,
                    row,
                ) by {
                    if j < rest.len() {
                        assert(rest[j] == hits[j]);
                    }
                }
            } else {
                assert forall|j: int| 0 <= j < hits.len() implies !is_at(
                    (#[trigger] hits[j]).area,
                    column,
                    row,
                ) by {
                    if j < rest.len() {
                        assert(rest[j] == hits[j]);
                    }
                }
            }
        }
    }
}

/// Whether a cell is in `area`.
pub open spec fn is_at(area: Rect, column: int, row: int) -> bool {
    area.x <= column < area.x + area.width && area.y <= row < area.y + area.height
}

} // verus!
