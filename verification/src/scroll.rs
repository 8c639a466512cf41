//! Scrolling a list just enough.

use vstd::prelude::*;

verus! {

/// The least scroll from `scroll` that has row `row` among the `height` rows
/// in view.
pub open spec fn kept_in_view(row: int, scroll: int, height: int) -> int {
    if row < scroll {
        row
    } else if height > 0 && row >= scroll + height {
        row - height + 1
    } else {
        scroll
    }
}

/// Scroll from `scroll` just enough that row `row` is among the `height` rows
/// in view.
pub fn keep_in_view(row: usize, scroll: usize, height: usize) -> (to: usize)
    ensures
        to == kept_in_view(row as int, scroll as int, height as int),
{
    if row < scroll {
        row
    } else if height > 0 && row - scroll >= height {
        row - height + 1
    } else {
        scroll
    }
}

/// The row is in view afterwards; a row in view already moves nothing; and
/// nothing moves further than it has to.
pub proof fn scrolling_is_just_enough(row: int, scroll: int, height: int)
    requires
        0 <= row,
        0 <= scroll,
        0 < height,
    ensures
        ({
            let to = kept_in_view(row, scroll, height);
            &&& to <= row < to + height
            &&& 0 <= to
            &&& scroll <= row < scroll + height ==> to == scroll
            &&& forall|other: int|
                other <= row < other + height ==> #[trigger] apart(scroll, to) <= apart(
                    scroll,
                    other,
                )
        }),
{
}

/// How far apart two scrolls are.
pub open spec fn apart(a: int, b: int) -> int {
    if a <= b {
        b - a
    } else {
        a - b
    }
}

/// One turn of the wheel over a list of `count` rows, `height` of them in
/// view, moves it by `step`, and not past its ends.
pub open spec fn wheeled(scroll: int, down: bool, step: int, count: int, height: int) -> int {
    let most = if count > height {
        count - height
    } else {
        0
    };
    if down {
        if scroll + step < most {
            scroll + step
        } else {
            most
        }
    } else if scroll > step {
        scroll - step
    } else {
        0
    }
}

/// One turn of the wheel over a list of `count` rows, `height` of them in
/// view, moves it by `step`, and not past its ends.
pub fn wheel(scroll: usize, down: bool, step: usize, count: usize, height: usize) -> (to: usize)
    ensures
        to == wheeled(scroll as int, down, step as int, count as int, height as int),
{
    let most: usize = count.saturating_sub(height);
    if down {
        if scroll < most && step < most - scroll {
            scroll + step
        } else {
            most
        }
    } else {
        scroll.saturating_sub(step)
    }
}

/// The wheel never scrolls past the last rows, nor before the first.
pub proof fn the_wheel_stays_in_the_list(
    scroll: int,
    down: bool,
    step: int,
    count: int,
    height: int,
)
    requires
        0 <= scroll,
        0 <= step,
        0 <= count,
        0 <= height,
        scroll + height <= count || scroll == 0,
    ensures
        ({
            let to = wheeled(scroll, down, step, count, height);
            0 <= to && (to + height <= count || to == 0)
        }),
{
}

/// The wheel scrolls as many rows as it turns, as far as there are any.
pub proof fn the_wheel_scrolls_as_far_as_it_turns(scroll: int, step: int, count: int, height: int)
    requires
        0 <= scroll,
        0 <= step,
        0 <= height,
        scroll + height <= count,
    ensures
        scroll + step + height <= count ==> wheeled(scroll, true, step, count, height) == scroll
            + step,
        scroll + step + height > count ==> wheeled(scroll, true, step, count, height) + height
            == count,
        scroll >= step ==> wheeled(scroll, false, step, count, height) == scroll - step,
        scroll < step ==> wheeled(scroll, false, step, count, height) == 0,
{
}

} // verus!
