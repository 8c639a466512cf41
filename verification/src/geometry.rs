//! Rectangles of cells.

use vstd::prelude::*;

verus! {

/// A rectangle of cells on screen.
#[derive(Debug, Clone, Copy, PartialEq, Eq, Structural)]
pub struct Rect {
    /// Its leftmost column.
    pub x: u16,
    /// Its topmost row.
    pub y: u16,
    /// How many columns it has.
    pub width: u16,
    /// How many rows it has.
    pub height: u16,
}

/// The larger number of cells a coordinate can hold.
pub open spec fn clamped(cells: int) -> int {
    if cells > u16::MAX {
        u16::MAX as int
    } else {
        cells
    }
}

impl Rect {
    /// The column just past the right edge.
    pub open spec fn spec_right(self) -> int {
        clamped(self.x + self.width)
    }

    /// The row just past the bottom edge.
    pub open spec fn spec_bottom(self) -> int {
        clamped(self.y + self.height)
    }

    /// Whether the cell at `column` and `row` is in it.
    pub open spec fn spec_contains(self, column: int, row: int) -> bool {
        &&& self.x <= column < self.x + self.width
        &&& self.y <= row < self.y + self.height
    }

    /// Whether it lies inside `other`.
    pub open spec fn within(self, other: Rect) -> bool {
        &&& other.x <= self.x
        &&& self.x + self.width <= other.x + other.width
        &&& other.y <= self.y
        &&& self.y + self.height <= other.y + other.height
    }

    /// Whether every cell of it can be named.
    pub open spec fn on_screen(self) -> bool {
        self.x + self.width <= u16::MAX && self.y + self.height <= u16::MAX
    }

    /// A rectangle from its corner and its size.
    pub fn new(x: u16, y: u16, width: u16, height: u16) -> (rect: Self)
        ensures
            rect == (Rect { x, y, width, height }),
    {
        Rect { x, y, width, height }
    }

    /// The column just past the right edge, held to the last column there is.
    pub fn right(self) -> (right: u16)
        ensures
            right == self.spec_right(),
    {
        self.x.saturating_add(self.width)
    }

    /// The row just past the bottom edge, held to the last row there is.
    pub fn bottom(self) -> (bottom: u16)
        ensures
            bottom == self.spec_bottom(),
    {
        self.y.saturating_add(self.height)
    }

    /// Whether the cell at `column` and `row` is in it.
    pub fn contains(self, column: u16, row: u16) -> (inside: bool)
        ensures
            inside == self.spec_contains(column as int, row as int),
    {
        column >= self.x && column - self.x < self.width && row >= self.y && row - self.y
            < self.height
    }

    /// The smallest rectangle around this one and `other`.
    pub open spec fn spec_union(self, other: Rect) -> Rect {
        let x = if self.x <= other.x {
            self.x
        } else {
            other.x
        };
        let y = if self.y <= other.y {
            self.y
        } else {
            other.y
        };
        let right = if self.spec_right() >= other.spec_right() {
            self.spec_right()
        } else {
            other.spec_right()
        };
        let bottom = if self.spec_bottom() >= other.spec_bottom() {
            self.spec_bottom()
        } else {
            other.spec_bottom()
        };
        Rect { x, y, width: (right - x) as u16, height: (bottom - y) as u16 }
    }

    /// The smallest rectangle around this one and `other`.
    pub fn union(self, other: Rect) -> (both: Self)
        ensures
            both == self.spec_union(other),
    {
        let x: u16 = if self.x <= other.x {
            self.x
        } else {
            other.x
        };
        let y: u16 = if self.y <= other.y {
            self.y
        } else {
            other.y
        };
        let right: u16 = if self.right() >= other.right() {
            self.right()
        } else {
            other.right()
        };
        let bottom: u16 = if self.bottom() >= other.bottom() {
            self.bottom()
        } else {
            other.bottom()
        };
        Rect { x, y, width: right - x, height: bottom - y }
    }
}

/// The smallest rectangle around all of `rects`, if there are any.
pub open spec fn spec_around(rects: Seq<Rect>) -> Option<Rect>
    decreases rects.len(),
{
    if rects.len() == 0 {
        None
    } else {
        match spec_around(rects.drop_last()) {
            Some(rest) => Some(rest.spec_union(rects.last())),
            None => Some(rects.last()),
        }
    }
}

/// The smallest rectangle around all of `rects`, if there are any.
pub fn around(rects: &Vec<Rect>) -> (all: Option<Rect>)
    ensures
        all == spec_around(rects@),
{
    let mut all: Option<Rect> = None;
    let mut i: usize = 0;
    while i < rects.len()
        invariant
            i <= rects@.len(),
            all == spec_around(rects@.take(i as int)),
        decreases rects@.len() - i,
    {
        assert(rects@.take(i + 1).drop_last() =~= rects@.take(i as int));
        all = match all {
            Some(rest) => Some(rest.union(rects[i])),
            None => Some(rects[i]),
        };
        i = i + 1;
    }
    assert(rects@.take(rects@.len() as int) =~= rects@);
    all
}

/// The rectangle around several holds every one of them, and is on screen
/// where they are.
pub proof fn around_holds_each(rects: Seq<Rect>)
    requires
        rects.len() > 0,
        forall|i: int| 0 <= i < rects.len() ==> (#[trigger] rects[i]).on_screen(),
    ensures
        spec_around(rects) is Some,
        spec_around(rects)->0.on_screen(),
        forall|i: int|
            0 <= i < rects.len() ==> (#[trigger] rects[i]).within(spec_around(rects)->0),
    decreases rects.len(),
{
    let rest = rects.drop_last();
    assert(rects.last() == rects[rects.len() - 1]);
    if rest.len() > 0 {
        assert forall|i: int| 0 <= i < rest.len() implies (#[trigger] rest[i]).on_screen() by {
            assert(rest[i] == rects[i]);
        }
        around_holds_each(rest);
        assert forall|i: int| 0 <= i < rects.len() implies (#[trigger] rects[i]).within(
            spec_around(rects)->0,
        ) by {
            if i < rest.len() {
                assert(rest[i] == rects[i]);
            }
        }
    }
}

/// The rectangle around two holds each and nothing it need not: whatever holds both
/// holds it.
pub proof fn around_two_is_just_around_them(a: Rect, b: Rect, other: Rect)
    requires
        a.on_screen(),
        b.on_screen(),
    ensures
        ({
            let all = a.spec_union(b);
            &&& all.x == a.x || all.x == b.x
            &&& all.y == a.y || all.y == b.y
            &&& all.x <= a.x && all.x <= b.x && all.y <= a.y && all.y <= b.y
            &&& a.x + a.width <= all.x + all.width && b.x + b.width <= all.x + all.width
            &&& a.y + a.height <= all.y + all.height && b.y + b.height <= all.y + all.height
            &&& all.x + all.width == a.x + a.width || all.x + all.width == b.x + b.width
            &&& all.y + all.height == a.y + a.height || all.y + all.height == b.y + b.height
            &&& a.within(other) && b.within(other) ==> all.within(other)
        }),
{
}

/// What a rectangle holds, one around it holds; and it holds a cell from its first
/// column and row up to as many as it has.
pub proof fn what_is_within_is_held(a: Rect, b: Rect, column: int, row: int)
    ensures
        a.within(b) && a.spec_contains(column, row) ==> b.spec_contains(column, row),
        a.width > 0 && a.height > 0 ==> a.spec_contains(a.x as int, a.y as int) && a.spec_contains(
            a.x + a.width - 1,
            a.y + a.height - 1,
        ),
        !a.spec_contains(a.x + a.width, row) && !a.spec_contains(column, a.y + a.height),
        !a.spec_contains(a.x - 1, row) && !a.spec_contains(column, a.y - 1),
        a.on_screen() ==> a.spec_right() == a.x + a.width && a.spec_bottom() == a.y + a.height,
{
}

} // verus!
