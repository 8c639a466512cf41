//! Places in files, as a server names them.

use vstd::prelude::*;

use crate::text::chars_of;

verus! {

/// The units a server counts the characters of a line in.
#[derive(Debug, Clone, Copy, PartialEq, Eq, Structural)]
pub enum Encoding {
    /// Bytes of UTF-8.
    Utf8,
    /// Units of UTF-16.
    Utf16,
    /// Characters.
    Utf32,
}

/// A place in a file: a line, and how far into it in the server's units.
#[derive(Debug, Clone, Copy, PartialEq, Eq, Structural)]
pub struct Position {
    /// The line, counted from nought.
    pub line: u32,
    /// How far into it, in the server's units.
    pub character: u32,
}

/// A place a server named: a file, and a range in it in the server's units.
#[derive(Debug)]
pub struct Place {
    /// The file.
    pub path: String,
    /// Where it starts.
    pub start: Position,
    /// Where it ends.
    pub end: Position,
    /// The units it counts in: the answering server's.
    pub encoding: Encoding,
}

impl Clone for Place {
    fn clone(&self) -> (copy: Self)
        ensures
            copy == *self,
    {
        Place { path: self.path.clone(), start: self.start, end: self.end, encoding: self.encoding }
    }
}

/// Where to show a definition once it is found.
#[derive(Debug, Clone, Copy, PartialEq, Eq, Structural)]
pub enum Open {
    /// In the pane being worked in.
    Here,
    /// In the pane beside it, split off if there is none.
    Beside,
}

impl Encoding {
    /// How many units `ch` takes.
    pub open spec fn units(self, ch: char) -> nat {
        match self {
            Encoding::Utf8 => if ch as u32 <= 0x7f {
                1
            } else if ch as u32 <= 0x7ff {
                2
            } else if ch as u32 <= 0xffff {
                3
            } else {
                4
            },
            Encoding::Utf16 => if ch as u32 <= 0xffff {
                1
            } else {
                2
            },
            Encoding::Utf32 => 1,
        }
    }

    /// How many units `text` takes.
    pub open spec fn length(self, text: Seq<char>) -> nat
        decreases text.len(),
    {
        if text.len() == 0 {
            0
        } else {
            self.length(text.drop_last()) + self.units(text.last())
        }
    }

    /// How many chars of `text` end within `units` units of its start, `from`
    /// of them being known to.
    pub open spec fn column_from(self, text: Seq<char>, units: nat, from: nat) -> nat
        decreases text.len() - from,
    {
        if from < text.len() && self.length(text.take(from as int + 1)) <= units {
            self.column_from(text, units, from + 1)
        } else {
            from
        }
    }

    /// The char `units` units into `text`: one in the middle of a char is that
    /// char, and one past the end is the end.
    pub open spec fn spec_column(self, text: Seq<char>, units: nat) -> nat {
        self.column_from(text, units, 0)
    }

    /// How many units `ch` takes.
    pub fn units_of(self, ch: char) -> (count: usize)
        ensures
            count == self.units(ch),
            1 <= count <= 4,
    {
        let code: u32 = ch as u32;
        match self {
            Encoding::Utf8 => if code <= 0x7f {
                1
            } else if code <= 0x7ff {
                2
            } else if code <= 0xffff {
                3
            } else {
                4
            },
            Encoding::Utf16 => if code <= 0xffff {
                1
            } else {
                2
            },
            Encoding::Utf32 => 1,
        }
    }

    /// The char `units` units into `text`: one in the middle of a char is that
    /// char, and one past the end is the end.
    pub fn column(self, text: &str, units: u32) -> (column: usize)
        ensures
            column == self.spec_column(text@, units as nat),
            column <= text@.len(),
    {
        let chars = chars_of(text);
        let mut used: u64 = 0;
        let mut i: usize = 0;
        assert(text@.take(0) =~= Seq::empty());
        while i < chars.len() && used + self.units_of(chars[i]) as u64 <= units as u64
            invariant
                i <= chars@.len(),
                chars@ == text@,
                used == self.length(text@.take(i as int)),
                used <= units,
                self.spec_column(text@, units as nat) == self.column_from(
                    text@,
                    units as nat,
                    i as nat,
                ),
            decreases chars@.len() - i,
        {
            assert(text@.take(i + 1).drop_last() =~= text@.take(i as int));
            used = used + self.units_of(chars[i]) as u64;
            i = i + 1;
        }
        proof {
            if i < chars@.len() {
                assert(text@.take(i + 1).drop_last() =~= text@.take(i as int));
            }
        }
        i
    }
}

/// Counted in chars, a column is the number of chars, as far as there are
/// that many.
pub proof fn a_column_in_chars_is_itself(text: Seq<char>, units: nat, from: nat)
    requires
        from <= units,
        from <= text.len(),
    ensures
        Encoding::Utf32.column_from(text, units, from) == if units <= text.len() {
            units
        } else {
            text.len()
        },
    decreases text.len() - from,
{
    chars_are_units(text.take(from as int));
    if from < text.len() {
        chars_are_units(text.take(from as int + 1));
        if from < units {
            a_column_in_chars_is_itself(text, units, from + 1);
        }
    }
}

proof fn chars_are_units(text: Seq<char>)
    ensures
        Encoding::Utf32.length(text) == text.len(),
    decreases text.len(),
{
    if text.len() > 0 {
        chars_are_units(text.drop_last());
    }
}

/// Counted in UTF-8, a text is as long as its UTF-8 encoding has bytes.
pub proof fn utf_8_is_counted_in_bytes(text: Seq<char>)
    ensures
        Encoding::Utf8.length(text) == vstd::utf8::encode_utf8(text).len(),
    decreases text.len(),
{
    if text.len() > 0 {
        utf_8_is_counted_in_bytes(text.drop_first());
        vstd::utf8::char_is_scalar(text[0]);
        let first = seq![text[0]];
        Encoding::Utf8.lengths_add_up(first, text.drop_first());
        assert(first + text.drop_first() =~= text);
        assert(first.drop_last() =~= Seq::<char>::empty());
        assert(Encoding::Utf8.length(first.drop_last()) == 0);
    }
}

/// Counted in UTF-16, a char takes two units where it takes four bytes of UTF-8,
/// and one otherwise; counted in chars it takes one.
pub proof fn utf_16_takes_two_units_for_four_bytes(text: Seq<char>, ch: char)
    ensures
        Encoding::Utf16.length(text.push(ch)) == Encoding::Utf16.length(text) + if
        vstd::utf8::encode_utf8(seq![ch]).len() == 4 {
            2nat
        } else {
            1nat
        },
        Encoding::Utf16.length(Seq::empty()) == 0,
        Encoding::Utf32.length(text) == text.len(),
{
    vstd::utf8::char_is_scalar(ch);
    let one = seq![ch];
    assert(one.drop_first() =~= Seq::<char>::empty());
    assert(vstd::utf8::encode_utf8(one.drop_first()) =~= Seq::<u8>::empty());
    assert(vstd::utf8::encode_utf8(one).len() == vstd::utf8::encode_scalar(ch as u32).len());
    assert(text.push(ch).drop_last() =~= text);
    chars_are_units(text);
}

/// The char so many units into a text is the last that starts at or before there:
/// what comes before it takes no more than that many units, and with it there
/// would be more.
pub proof fn a_column_is_as_far_as_the_units_go(encoding: Encoding, text: Seq<char>, units: nat)
    ensures
        ({
            let column = encoding.spec_column(text, units);
            &&& column <= text.len()
            &&& encoding.length(text.take(column as int)) <= units
            &&& column < text.len() ==> units < encoding.length(text.take(column as int + 1))
        }),
{
    assert(text.take(0) =~= Seq::empty());
    as_far_as_the_units_go(encoding, text, units, 0);
}

proof fn as_far_as_the_units_go(encoding: Encoding, text: Seq<char>, units: nat, from: nat)
    requires
        from <= text.len(),
        encoding.length(text.take(from as int)) <= units,
    ensures
        ({
            let column = encoding.column_from(text, units, from);
            &&& from <= column <= text.len()
            &&& encoding.length(text.take(column as int)) <= units
            &&& column < text.len() ==> units < encoding.length(text.take(column as int + 1))
        }),
    decreases text.len() - from,
{
    if from < text.len() && encoding.length(text.take(from as int + 1)) <= units {
        as_far_as_the_units_go(encoding, text, units, from + 1);
    }
}

/// What a server counts is counted back: the column of as many units as a prefix
/// of a text takes is how many chars that prefix has, whatever the units are.
pub proof fn a_prefix_s_units_are_its_column(encoding: Encoding, text: Seq<char>, column: int)
    requires
        0 <= column <= text.len(),
    ensures
        encoding.spec_column(text, encoding.length(text.take(column))) == column,
{
    let units = encoding.length(text.take(column));
    a_column_is_as_far_as_the_units_go(encoding, text, units);
    let found = encoding.spec_column(text, units) as int;
    if found < column {
        encoding.longer_takes_more(text, found + 1, column);
    } else if column < found {
        encoding.longer_takes_more(text, column + 1, found);
        assert(text.take(column + 1).drop_last() =~= text.take(column));
    }
}

impl Encoding {
    proof fn lengths_add_up(self, a: Seq<char>, b: Seq<char>)
        ensures
            self.length(a + b) == self.length(a) + self.length(b),
        decreases b.len(),
    {
        if b.len() == 0 {
            assert(a + b =~= a);
        } else {
            self.lengths_add_up(a, b.drop_last());
            assert((a + b).drop_last() =~= a + b.drop_last());
            assert((a + b).last() == b.last());
        }
    }

    proof fn longer_takes_more(self, text: Seq<char>, from: int, to: int)
        requires
            0 <= from <= to <= text.len(),
        ensures
            self.length(text.take(from)) <= self.length(text.take(to)),
        decreases to - from,
    {
        if from < to {
            self.longer_takes_more(text, from, to - 1);
            assert(text.take(to).drop_last() =~= text.take(to - 1));
        }
    }
}

} // verus!
