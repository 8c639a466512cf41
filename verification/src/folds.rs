//! Folding: the arrows in the gutter, the commands, and folds that outlast the
//! session.
//!
//! Where a file can fold comes from the parser, as line ranges, after every
//! parse. What is folded belongs to the buffer. The two meet here.

use vstd::prelude::*;

use crate::outcome::Outcome;

verus! {

/// Lines that can be folded away under the first of them.
#[derive(Debug, Clone, Copy, PartialEq, Eq, Structural)]
pub struct FoldRange {
    /// The line that stays.
    pub header: u32,
    /// The last line that goes.
    pub last: u32,
}

/// Whether `line` is inside `range`, its header included.
pub open spec fn around(range: FoldRange, line: usize) -> bool {
    range.header <= line <= range.last
}

/// Whether `line` is inside `range`, its header included.
pub fn contains(range: FoldRange, line: usize) -> (inside: bool)
    ensures
        inside == around(range, line),
{
    range.header as usize <= line && line <= range.last as usize
}

fn is_folded(folded: &Vec<usize>, line: usize) -> (is: bool)
    ensures
        is == folded@.contains(line),
{
    let mut i: usize = 0;
    while i < folded.len()
        invariant
            i <= folded@.len(),
            forall|k: int| 0 <= k < i ==> #[trigger] folded@[k] != line,
        decreases folded@.len() - i,
    {
        if folded[i] == line {
            return true;
        }
        i = i + 1;
    }
    false
}

/// Whether `range` is around `line` and is not folded.
pub open spec fn foldable(range: FoldRange, folded: Seq<usize>, line: usize) -> bool {
    around(range, line) && !folded.contains(range.header as usize)
}

/// The innermost of the first `count` of `ranges` around `line` that is not
/// folded, the later of two that start together.
pub open spec fn innermost(ranges: Seq<FoldRange>, folded: Seq<usize>, line: usize, count: int)
    -> Option<FoldRange>
    decreases count,
{
    if count <= 0 {
        None
    } else {
        let before = innermost(ranges, folded, line, count - 1);
        let range = ranges[count - 1];
        if foldable(range, folded, line) && (before is None || before->0.header <= range.header) {
            Some(range)
        } else {
            before
        }
    }
}

/// The innermost region around `line` that is not folded yet, so that asking
/// again folds the one around that. `folded` are the headers of what is folded.
pub fn fold_here(ranges: &Vec<FoldRange>, folded: &Vec<usize>, line: usize) -> (range: Option<
    FoldRange,
>)
    ensures
        range == innermost(ranges@, folded@, line, ranges@.len() as int),
{
    let mut best: Option<FoldRange> = None;
    let mut i: usize = 0;
    while i < ranges.len()
        invariant
            i <= ranges@.len(),
            best == innermost(ranges@, folded@, line, i as int),
        decreases ranges@.len() - i,
    {
        let range = ranges[i];
        let inner = match best {
            Some(best) => best.header <= range.header,
            None => true,
        };
        if contains(range, line) && !is_folded(folded, range.header as usize) && inner {
            best = Some(range);
        }
        i = i + 1;
    }
    best
}

/// What is said where there is nothing to fold or unfold: around the caret, on
/// its line, or in the whole file.
#[derive(Debug, Clone, Copy, PartialEq, Eq, Structural)]
pub enum Nothing {
    /// To fold around the caret.
    Around,
    /// Folded on the caret's line.
    Folded,
    /// To fold in the file.
    InFile,
}

/// What is said where there is nothing to fold or unfold.
pub fn nothing_to_fold(what: Nothing) -> (said: &'static str)
    ensures
        said@ == match what {
            Nothing::Around => "Nothing around the caret to fold."@,
            Nothing::Folded => "Nothing is folded on this line."@,
            Nothing::InFile => "Nothing in this file to fold."@,
        },
{
    match what {
        Nothing::Around => "Nothing around the caret to fold.",
        Nothing::Folded => "Nothing is folded on this line.",
        Nothing::InFile => "Nothing in this file to fold.",
    }
}

/// Every region of a file, to be folded, nested ones with the rest, so opening
/// one shows its outline rather than all of it; or what is said where there is
/// none.
pub fn fold_all(ranges: &Vec<FoldRange>) -> (all: Result<Vec<FoldRange>, &'static str>)
    ensures
        match all {
            Ok(all) => ranges@.len() > 0 && all@ == ranges@,
            Err(said) => ranges@.len() == 0 && said@ == "Nothing in this file to fold."@,
        },
{
    if ranges.len() == 0 {
        return Err(nothing_to_fold(Nothing::InFile));
    }
    let mut all: Vec<FoldRange> = Vec::new();
    let mut i: usize = 0;
    while i < ranges.len()
        invariant
            i <= ranges@.len(),
            all@ =~= ranges@.take(i as int),
        decreases ranges@.len() - i,
    {
        all.push(ranges[i]);
        i = i + 1;
    }
    assert(ranges@.take(ranges@.len() as int) =~= ranges@);
    Ok(all)
}

/// What the text menu offers with the caret on `line`: whether something around
/// it could be folded, and whether the line is the header of something folded.
pub fn fold_offers(ranges: &Vec<FoldRange>, folded: &Vec<usize>, line: usize) -> (offers: (
    bool,
    bool,
))
    ensures
        offers.0 == exists|i: int|
            0 <= i < ranges@.len() && foldable(#[trigger] ranges@[i], folded@, line),
        offers.1 == folded@.contains(line),
{
    let mut can = false;
    let mut i: usize = 0;
    while i < ranges.len()
        invariant
            i <= ranges@.len(),
            can == exists|k: int| 0 <= k < i && foldable(#[trigger] ranges@[k], folded@, line),
        decreases ranges@.len() - i,
    {
        let range = ranges[i];
        if contains(range, line) && !is_folded(folded, range.header as usize) {
            assert(foldable(ranges@[i as int], folded@, line));
            can = true;
        }
        i = i + 1;
    }
    (can, is_folded(folded, line))
}

/// The last of the first `count` of `ranges` that `range` is directly inside.
pub open spec fn last_around(ranges: Seq<FoldRange>, range: FoldRange, count: int) -> Option<int>
    decreases count,
{
    if count <= 0 {
        None
    } else if ranges[count - 1].header < range.header && ranges[count - 1].last >= range.last {
        Some(count - 1)
    } else {
        last_around(ranges, range, count - 1)
    }
}

/// The region `ranges[at]` is directly inside.
pub open spec fn parent_of(ranges: Seq<FoldRange>, at: int) -> Option<int> {
    last_around(ranges, ranges[at], at)
}

/// Those of the first `count` of `ranges` that are directly inside `parent`.
pub open spec fn children_of(ranges: Seq<FoldRange>, parent: Option<int>, count: int) -> Seq<
    FoldRange,
>
    decreases count,
{
    if count <= 0 {
        Seq::empty()
    } else if parent_of(ranges, count - 1) == parent {
        children_of(ranges, parent, count - 1).push(ranges[count - 1])
    } else {
        children_of(ranges, parent, count - 1)
    }
}

/// The regions directly inside the same region as `ranges[index]`.
pub open spec fn siblings_of(ranges: Seq<FoldRange>, index: int) -> Seq<FoldRange> {
    children_of(ranges, parent_of(ranges, index), ranges.len() as int)
}

fn parent(ranges: &Vec<FoldRange>, at: usize) -> (parent: Option<usize>)
    requires
        at < ranges@.len(),
    ensures
        match parent {
            Some(parent) => parent < at && parent_of(ranges@, at as int) == Some(parent as int),
            None => parent_of(ranges@, at as int) is None,
        },
{
    let range = ranges[at];
    let mut i: usize = at;
    while i > 0
        invariant
            i <= at < ranges@.len(),
            range == ranges@[at as int],
            parent_of(ranges@, at as int) == last_around(ranges@, range, i as int),
        decreases i,
    {
        if ranges[i - 1].header < range.header && ranges[i - 1].last >= range.last {
            return Some(i - 1);
        }
        i = i - 1;
    }
    None
}

/// The regions directly inside the same region as `ranges[index]`, that one
/// included. `ranges` are in order of their headers.
pub fn siblings(ranges: &Vec<FoldRange>, index: usize) -> (all: Vec<FoldRange>)
    requires
        index < ranges@.len(),
    ensures
        all@ == siblings_of(ranges@, index as int),
{
    let of = parent(ranges, index);
    let mut all: Vec<FoldRange> = Vec::new();
    let mut at: usize = 0;
    while at < ranges.len()
        invariant
            at <= ranges@.len(),
            index < ranges@.len(),
            match of {
                Some(of) => parent_of(ranges@, index as int) == Some(of as int),
                None => parent_of(ranges@, index as int) is None,
            },
            all@ =~= children_of(ranges@, parent_of(ranges@, index as int), at as int),
        decreases ranges@.len() - at,
    {
        let same = match (parent(ranges, at), of) {
            (Some(a), Some(b)) => a == b,
            (None, None) => true,
            _ => false,
        };
        if same {
            all.push(ranges[at]);
        }
        at = at + 1;
    }
    all
}

/// Every region is one of its own siblings, and any of them has the same ones.
pub proof fn siblings_share_the_region_around_them(ranges: Seq<FoldRange>, a: int, b: int)
    requires
        0 <= a < ranges.len(),
        0 <= b < ranges.len(),
    ensures
        siblings_of(ranges, a).contains(ranges[a]),
        parent_of(ranges, a) == parent_of(ranges, b) ==> siblings_of(ranges, a) == siblings_of(
            ranges,
            b,
        ) && siblings_of(ranges, a).contains(ranges[b]),
{
    a_child_is_among_them(ranges, parent_of(ranges, a), a, ranges.len() as int);
    a_child_is_among_them(ranges, parent_of(ranges, b), b, ranges.len() as int);
}

proof fn a_child_is_among_them(ranges: Seq<FoldRange>, parent: Option<int>, at: int, count: int)
    requires
        0 <= at < count <= ranges.len(),
        parent_of(ranges, at) == parent,
    ensures
        children_of(ranges, parent, count).contains(ranges[at]),
    decreases count,
{
    let all = children_of(ranges, parent, count);
    if at == count - 1 {
        assert(all.last() == ranges[at]);
        assert(all[all.len() - 1] == ranges[at]);
    } else {
        a_child_is_among_them(ranges, parent, at, count - 1);
        let before = children_of(ranges, parent, count - 1);
        let k = choose|k: int| 0 <= k < before.len() && before[k] == ranges[at];
        assert(all[k] == ranges[at]);
    }
}

/// The first of `ranges`, from the `from`th on, whose header is `line`.
pub open spec fn starting_at(ranges: Seq<FoldRange>, line: usize, from: int) -> Option<int>
    decreases ranges.len() - from,
{
    if from < 0 || from >= ranges.len() {
        None
    } else if ranges[from].header == line {
        Some(from)
    } else {
        starting_at(ranges, line, from + 1)
    }
}

fn region_at(ranges: &Vec<FoldRange>, line: usize) -> (at: Option<usize>)
    ensures
        match at {
            Some(at) => at < ranges@.len() && starting_at(ranges@, line, 0) == Some(at as int),
            None => starting_at(ranges@, line, 0) is None,
        },
{
    let mut i: usize = 0;
    while i < ranges.len()
        invariant
            i <= ranges@.len(),
            starting_at(ranges@, line, 0) == starting_at(ranges@, line, i as int),
        decreases ranges@.len() - i,
    {
        if ranges[i].header as usize == line {
            return Some(i);
        }
        i = i + 1;
    }
    None
}

/// What a press on an arrow does.
#[derive(Debug)]
pub enum FoldClick {
    /// There is no arrow there, and the press is the gutter's.
    NoArrow,
    /// These regions fold.
    Fold(Vec<FoldRange>),
    /// The line unfolds, and so do these regions.
    Unfold(Vec<FoldRange>),
}

/// The regions a press on the arrow beside `line` is about: the one there, or
/// with Alt every sibling of it.
pub open spec fn pressed(ranges: Seq<FoldRange>, line: usize, alt: bool) -> Seq<FoldRange> {
    match starting_at(ranges, line, 0) {
        Some(index) => if alt {
            siblings_of(ranges, index)
        } else {
            seq![ranges[index]]
        },
        None => Seq::empty(),
    }
}

/// A press on the column the arrows are drawn in, beside `line`. With Alt held
/// it folds or unfolds every sibling of the region, which is how a file's
/// methods are all put away at once. A region the parser no longer offers, the
/// text having changed under it, can still be opened.
pub fn fold_click(ranges: &Vec<FoldRange>, folded: &Vec<usize>, line: usize, alt: bool) -> (click:
    FoldClick)
    ensures
        if folded@.contains(line) {
            click matches FoldClick::Unfold(all) && all@ == pressed(ranges@, line, alt)
        } else if starting_at(ranges@, line, 0) is Some {
            click matches FoldClick::Fold(all) && all@ == pressed(ranges@, line, alt)
        } else {
            click is NoArrow
        },
{
    let shut = is_folded(folded, line);
    let index = region_at(ranges, line);
    if !shut && index.is_none() {
        return FoldClick::NoArrow;
    }
    let mut targets: Vec<FoldRange> = Vec::new();
    if let Some(index) = index {
        if alt {
            targets = siblings(ranges, index);
        } else {
            targets.push(ranges[index]);
            assert(targets@ =~= seq![ranges@[index as int]]);
        }
    }
    if shut {
        FoldClick::Unfold(targets)
    } else {
        FoldClick::Fold(targets)
    }
}

/// Where a document can fold.
#[derive(Debug)]
pub struct Folding {
    /// The version of the text that is about.
    pub version: u64,
    /// Where.
    pub ranges: Vec<FoldRange>,
    /// Whether the folds it had last time have been put back.
    pub restored: bool,
}

/// The regions the first `count` of `headers` start, of those that do.
pub open spec fn still_regions(ranges: Seq<FoldRange>, headers: Seq<usize>, count: int) -> Seq<
    FoldRange,
>
    decreases count,
{
    if count <= 0 {
        Seq::empty()
    } else {
        let before = still_regions(ranges, headers, count - 1);
        match starting_at(ranges, headers[count - 1], 0) {
            Some(at) => before.push(ranges[at]),
            None => before,
        }
    }
}

impl Folding {
    /// Nowhere yet.
    pub fn new() -> (folding: Self)
        ensures
            folding.version == 0,
            folding.ranges@.len() == 0,
            !folding.restored,
    {
        Folding { version: 0, ranges: Vec::new(), restored: false }
    }

    /// The parser has said where a document can fold, in `version` of its text;
    /// `remembered` are the lines that were folded last time. What is to be
    /// folded now.
    ///
    /// Line numbers from older text would put arrows on the wrong lines, so
    /// those are dropped. The first answer for a file is when the folds it had
    /// last time can be put back: one that is no longer a region is left open
    /// rather than folded over something else.
    pub fn folds_arrived(
        &mut self,
        version: u64,
        folds: Vec<FoldRange>,
        remembered: &Vec<usize>,
    ) -> (arrived: (Outcome, Vec<FoldRange>))
        ensures
            if version < old(self).version {
                arrived.0 == Outcome::Continue && arrived.1@.len() == 0 && *final(self)
                    == *old(self)
            } else {
                &&& arrived.0 == Outcome::Redraw
                &&& *final(self) == (Folding { version, ranges: folds, restored: true })
                &&& arrived.1@ == if old(self).restored {
                    Seq::empty()
                } else {
                    still_regions(folds@, remembered@, remembered@.len() as int)
                }
            },
    {
        let mut again: Vec<FoldRange> = Vec::new();
        if version < self.version {
            return (Outcome::Continue, again);
        }
        self.version = version;
        if !self.restored {
            self.restored = true;
            let mut i: usize = 0;
            while i < remembered.len()
                invariant
                    i <= remembered@.len(),
                    again@ =~= still_regions(folds@, remembered@, i as int),
                decreases remembered@.len() - i,
            {
                if let Some(at) = region_at(&folds, remembered[i]) {
                    again.push(folds[at]);
                }
                i = i + 1;
            }
        }
        self.ranges = folds;
        (Outcome::Redraw, again)
    }

    /// Whether what is folded in a document is worth remembering: one whose
    /// parse has not come back yet has had no chance to have its folds put
    /// back, and remembering it now would forget them. `parsed` is whether it
    /// is being parsed at all.
    pub fn worth_remembering(&self, parsed: bool) -> (worth: bool)
        ensures
            worth == !(parsed && !self.restored),
    {
        !parsed || self.restored
    }
}

/// Folding around a caret always folds something it is inside, and never what
/// is folded already.
pub proof fn what_folds_is_around_the_caret(
    ranges: Seq<FoldRange>,
    folded: Seq<usize>,
    line: usize,
    count: int,
)
    requires
        0 <= count <= ranges.len(),
    ensures
        innermost(ranges, folded, line, count) matches Some(range) ==> foldable(
            range,
            folded,
            line,
        ) && ranges.contains(range),
        forall|i: int|
            0 <= i < count && foldable(#[trigger] ranges[i], folded, line) ==> (innermost(
                ranges,
                folded,
                line,
                count,
            ) matches Some(range) && ranges[i].header <= range.header),
    decreases count,
{
    if count > 0 {
        what_folds_is_around_the_caret(ranges, folded, line, count - 1);
        assert(ranges.contains(ranges[count - 1]));
    }
}

/// A fold put back is a region there still is.
pub proof fn only_regions_are_put_back(ranges: Seq<FoldRange>, headers: Seq<usize>, count: int)
    requires
        0 <= count <= headers.len(),
    ensures
        forall|i: int|
            0 <= i < still_regions(ranges, headers, count).len() ==> ranges.contains(
                #[trigger] still_regions(ranges, headers, count)[i],
            ),
    decreases count,
{
    if count > 0 {
        only_regions_are_put_back(ranges, headers, count - 1);
        starting_is_there(ranges, headers[count - 1], 0);
        let before = still_regions(ranges, headers, count - 1);
        let all = still_regions(ranges, headers, count);
        assert forall|i: int| 0 <= i < all.len() implies ranges.contains(#[trigger] all[i]) by {
            if i < before.len() {
                assert(all[i] == before[i]);
            }
        }
    }
}

proof fn starting_is_there(ranges: Seq<FoldRange>, line: usize, from: int)
    requires
        0 <= from,
    ensures
        starting_at(ranges, line, from) matches Some(at) ==> 0 <= at < ranges.len(),
    decreases ranges.len() - from,
{
    if from < ranges.len() && ranges[from].header != line {
        starting_is_there(ranges, line, from + 1);
    }
}

/// What folds around a caret is the innermost region there that is not folded: of
/// those the caret's line is in, from the line that stays to the last that goes, the
/// one that starts last.
pub proof fn the_innermost_region_folds(
    ranges: Seq<FoldRange>,
    folded: Seq<usize>,
    line: usize,
    at: int,
)
    requires
        0 <= at < ranges.len(),
        ranges[at].header <= line <= ranges[at].last,
        !folded.contains(ranges[at].header as usize),
    ensures
        innermost(ranges, folded, line, ranges.len() as int) matches Some(range) && {
            &&& range.header <= line <= range.last
            &&& !folded.contains(range.header as usize)
            &&& ranges[at].header <= range.header
        },
{
    what_folds_is_around_the_caret(ranges, folded, line, ranges.len() as int);
    assert(foldable(ranges[at], folded, line));
}

/// The region around a region is the last before it that starts above it and ends no
/// earlier.
pub proof fn the_region_around_holds_it(ranges: Seq<FoldRange>, range: FoldRange, count: int)
    requires
        0 <= count <= ranges.len(),
    ensures
        match last_around(ranges, range, count) {
            Some(at) => {
                &&& 0 <= at < count
                &&& ranges[at].header < range.header && range.last <= ranges[at].last
                &&& forall|i: int|
                    at < i < count ==> (#[trigger] ranges[i]).header >= range.header || ranges[i].last
                        < range.last
            },
            None => forall|i: int|
                0 <= i < count ==> (#[trigger] ranges[i]).header >= range.header || ranges[i].last
                    < range.last,
        },
    decreases count,
{
    if count > 0 && !(ranges[count - 1].header < range.header && ranges[count - 1].last
        >= range.last) {
        the_region_around_holds_it(ranges, range, count - 1);
    }
}

/// The regions beside a region are all that have the same region around them, itself
/// among them.
pub proof fn every_region_beside_is_there(ranges: Seq<FoldRange>, parent: Option<int>, count: int, at: int)
    requires
        0 <= at < count <= ranges.len(),
        parent_of(ranges, at) == parent,
    ensures
        children_of(ranges, parent, count).contains(ranges[at]),
    decreases count,
{
    let before = children_of(ranges, parent, count - 1);
    let all = children_of(ranges, parent, count);
    if at == count - 1 {
        assert(all[before.len() as int] == ranges[at]);
    } else {
        every_region_beside_is_there(ranges, parent, count - 1, at);
        let k = choose|k: int| 0 <= k < before.len() && before[k] == ranges[at];
        assert(all[k] == ranges[at]);
    }
}

/// The region an arrow is for is the first that starts on its line.
pub proof fn an_arrow_is_for_the_region_on_its_line(
    ranges: Seq<FoldRange>,
    line: usize,
    from: int,
)
    requires
        0 <= from <= ranges.len(),
    ensures
        match starting_at(ranges, line, from) {
            Some(at) => {
                &&& from <= at < ranges.len()
                &&& ranges[at].header == line
                &&& forall|i: int| from <= i < at ==> (#[trigger] ranges[i]).header != line
            },
            None => forall|i: int| from <= i < ranges.len() ==> (#[trigger] ranges[i]).header != line,
        },
    decreases ranges.len() - from,
{
    if from < ranges.len() && ranges[from].header != line {
        an_arrow_is_for_the_region_on_its_line(ranges, line, from + 1);
    }
}

/// Pressing an arrow folds its region alone, and with Alt all those beside it too.
pub proof fn an_arrow_folds_its_region(ranges: Seq<FoldRange>, line: usize, at: int)
    requires
        starting_at(ranges, line, 0) == Some(at),
    ensures
        pressed(ranges, line, false) == seq![ranges[at]],
        pressed(ranges, line, true).contains(ranges[at]),
{
    an_arrow_is_for_the_region_on_its_line(ranges, line, 0);
    every_region_beside_is_there(ranges, parent_of(ranges, at), ranges.len() as int, at);
}

/// Every fold there was whose line still starts a region is put back.
pub proof fn every_fold_still_there_is_put_back(
    ranges: Seq<FoldRange>,
    headers: Seq<usize>,
    count: int,
    at: int,
)
    requires
        0 <= at < count <= headers.len(),
        exists|i: int| 0 <= i < ranges.len() && (#[trigger] ranges[i]).header == headers[at],
    ensures
        exists|k: int|
            0 <= k < still_regions(ranges, headers, count).len() && (#[trigger] still_regions(
                ranges,
                headers,
                count,
            )[k]).header == headers[at],
    decreases count,
{
    let before = still_regions(ranges, headers, count - 1);
    let all = still_regions(ranges, headers, count);
    if at == count - 1 {
        an_arrow_is_for_the_region_on_its_line(ranges, headers[at], 0);
        assert(all[before.len() as int].header == headers[at]);
    } else {
        every_fold_still_there_is_put_back(ranges, headers, count - 1, at);
        let k = choose|k: int| 0 <= k < before.len() && (#[trigger] before[k]).header == headers[at];
        assert(all[k] == before[k]);
    }
}

} // verus!
