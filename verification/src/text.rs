//! Putting strings together and taking them apart.

use vstd::prelude::*;

use crate::unicode::{is_whitespace, white_space};

verus! {

/// A digit from 0 to 9.
pub open spec fn digit(n: nat) -> char {
    ('0' as nat + n % 10) as char
}

/// `n` in decimal digits, with no leading zeros.
pub open spec fn decimal_of(n: nat) -> Seq<char>
    decreases n,
{
    if n < 10 {
        seq![digit(n)]
    } else {
        decimal_of(n / 10).push(digit(n))
    }
}

fn digit_char(n: u8) -> (ch: char)
    requires
        n < 10,
    ensures
        ch == digit(n as nat),
{
    match n {
        0 => '0',
        1 => '1',
        2 => '2',
        3 => '3',
        4 => '4',
        5 => '5',
        6 => '6',
        7 => '7',
        8 => '8',
        _ => '9',
    }
}

/// `String::push`: `ch` put at the end of `text`.
#[verifier::external_body]
pub(crate) fn push(text: &mut String, ch: char)
    ensures
        final(text)@ == old(text)@.push(ch),
{
    text.push(ch);
}

/// `n` in decimal digits, with no leading zeros.
pub fn decimal(n: usize) -> (text: String)
    ensures
        text@ == decimal_of(n as nat),
    decreases n,
{
    if n < 10 {
        let mut text = String::new();
        push(&mut text, digit_char(n as u8));
        assert(text@ =~= seq![digit(n as nat)]);
        text
    } else {
        let mut text = decimal(n / 10);
        push(&mut text, digit_char((n % 10) as u8));
        text
    }
}

/// The characters of `text`, in order.
pub(crate) fn chars_of(text: &str) -> (chars: Vec<char>)
    ensures
        chars@ == text@,
{
    let mut chars: Vec<char> = Vec::new();
    for ch in iter: text.chars()
        invariant
            iter.seq() == text@,
            chars@ == text@.take(iter.index() as int),
    {
        chars.push(ch);
        assert(text@.take(iter.index() + 1) =~= text@.take(iter.index() as int).push(ch));
    }
    assert(text@.take(text@.len() as int) =~= text@);
    chars
}

/// The characters of `chars` from `from` up to `to`, as a string.
pub(crate) fn string_of(chars: &Vec<char>, from: usize, to: usize) -> (text: String)
    requires
        from <= to <= chars@.len(),
    ensures
        text@ == chars@.subrange(from as int, to as int),
{
    let mut text = String::new();
    let mut i: usize = from;
    while i < to
        invariant
            from <= i <= to <= chars@.len(),
            text@ == chars@.subrange(from as int, i as int),
        decreases to - i,
    {
        push(&mut text, chars[i]);
        assert(chars@.subrange(from as int, i + 1) =~= chars@.subrange(
            from as int,
            i as int,
        ).push(chars@[i as int]));
        i = i + 1;
    }
    text
}

/// `a` followed by `b`.
pub(crate) fn join(a: &str, b: &str) -> (both: String)
    ensures
        both@ == a@ + b@,
{
    let mut both = a.to_owned();
    both.append(b);
    both
}

/// `a`, `b` and `c`, one after another.
pub(crate) fn join3(a: &str, b: &str, c: &str) -> (all: String)
    ensures
        all@ == a@ + b@ + c@,
{
    let mut all = join(a, b);
    all.append(c);
    all
}

/// Where `ch` first is in `text`, or its length where it is nowhere.
pub open spec fn first_at(text: Seq<char>, ch: char) -> int
    decreases text.len(),
{
    if text.len() == 0 || text[0] == ch {
        0
    } else {
        1 + first_at(text.skip(1), ch)
    }
}

/// `first_at` is the first place that holds `ch`.
pub proof fn first_at_is_first(text: Seq<char>, ch: char)
    ensures
        0 <= first_at(text, ch) <= text.len(),
        first_at(text, ch) < text.len() ==> text[first_at(text, ch)] == ch,
        forall|i: int| 0 <= i < first_at(text, ch) ==> #[trigger] text[i] != ch,
    decreases text.len(),
{
    if text.len() > 0 && text[0] != ch {
        let rest = text.skip(1);
        first_at_is_first(rest, ch);
        assert forall|i: int| 0 <= i < first_at(text, ch) implies #[trigger] text[i] != ch by {
            if i > 0 {
                assert(rest[i - 1] == text[i]);
            }
        }
    }
}

proof fn first_at_found(text: Seq<char>, ch: char, at: int)
    requires
        0 <= at <= text.len(),
        forall|i: int| 0 <= i < at ==> #[trigger] text[i] != ch,
        at < text.len() ==> text[at] == ch,
    ensures
        first_at(text, ch) == at,
{
    first_at_is_first(text, ch);
    let first = first_at(text, ch);
    if first < at {
        assert(text[first] != ch);
    }
}

/// Where `ch` first is in `chars` from `from` on, or the end where it is
/// nowhere.
pub(crate) fn find_from(chars: &Vec<char>, ch: char, from: usize) -> (at: usize)
    requires
        from <= chars@.len(),
    ensures
        at == from + first_at(chars@.skip(from as int), ch),
        from <= at <= chars@.len(),
{
    let ghost rest = chars@.skip(from as int);
    let mut at: usize = from;
    while at < chars.len() && chars[at] != ch
        invariant
            from <= at <= chars@.len(),
            rest == chars@.skip(from as int),
            forall|i: int| 0 <= i < at - from ==> #[trigger] rest[i] != ch,
        decreases chars@.len() - at,
    {
        assert(rest[at - from] == chars@[at as int]);
        at = at + 1;
    }
    proof {
        if at < chars@.len() {
            assert(rest[at - from] == chars@[at as int]);
        }
        first_at_found(rest, ch, at - from);
    }
    at
}

/// `line` without the carriage return that ends it, if one does.
pub open spec fn without_return(line: Seq<char>) -> Seq<char> {
    if line.len() > 0 && line.last() == '\r' {
        line.drop_last()
    } else {
        line
    }
}

/// The lines of `text`, each without the line feed that ends it or the
/// carriage return before that. A line feed at the very end starts no line.
pub open spec fn lines_in(text: Seq<char>) -> Seq<Seq<char>>
    decreases text.len(),
{
    let at = first_at(text, '\n');
    if text.len() == 0 {
        Seq::empty()
    } else if at < 0 || at >= text.len() {
        seq![text]
    } else {
        seq![without_return(text.take(at))] + lines_in(text.skip(at + 1))
    }
}

/// The first line of `text`, empty where there is none.
pub open spec fn first_line_in(text: Seq<char>) -> Seq<char> {
    if lines_in(text).len() == 0 {
        Seq::empty()
    } else {
        lines_in(text)[0]
    }
}

/// The lines of `text`, each without the line feed that ends it or the
/// carriage return before that.
pub(crate) fn lines(text: &str) -> (lines: Vec<String>)
    ensures
        crate::unicode::views(lines@) == lines_in(text@),
{
    let chars = chars_of(text);
    let mut lines: Vec<String> = Vec::new();
    let mut from: usize = 0;
    assert(chars@.skip(0) =~= chars@);
    while from < chars.len()
        invariant
            from <= chars@.len(),
            crate::unicode::views(lines@) + lines_in(chars@.skip(from as int)) == lines_in(chars@),
        decreases chars@.len() - from,
    {
        let ghost rest = chars@.skip(from as int);
        let ghost before = crate::unicode::views(lines@);
        let at: usize = find_from(&chars, '\n', from);
        if at < chars.len() {
            let end: usize = if at > from && chars[at - 1] == '\r' {
                at - 1
            } else {
                at
            };
            let line = string_of(&chars, from, end);
            proof {
                let taken = rest.take(at - from);
                assert(taken.len() > 0 ==> taken.last() == chars@[at - 1]);
                assert(line@ =~= without_return(taken));
                assert(rest.skip(at - from + 1) =~= chars@.skip(at + 1));
            }
            lines.push(line);
            proof {
                let ghost after = crate::unicode::views(lines@);
                assert(after =~= before.push(line@));
                assert(after + lines_in(chars@.skip(at + 1)) =~= before + lines_in(rest));
            }
            from = at + 1;
        } else {
            let line = string_of(&chars, from, chars.len());
            assert(line@ =~= rest);
            lines.push(line);
            proof {
                let ghost after = crate::unicode::views(lines@);
                assert(after =~= before.push(rest));
                assert(before + seq![rest] =~= before.push(rest));
                assert(chars@.skip(chars@.len() as int) =~= Seq::empty());
                assert(after + lines_in(chars@.skip(chars@.len() as int)) =~= after);
            }
            from = chars.len();
        }
    }
    proof {
        assert(chars@.skip(from as int) =~= Seq::empty());
        let all = crate::unicode::views(lines@);
        assert(all + lines_in(chars@.skip(from as int)) =~= all);
    }
    lines
}

/// The first line of `text`, empty where there is none.
pub(crate) fn first_line(text: &str) -> (line: String)
    ensures
        line@ == first_line_in(text@),
{
    let all = lines(text);
    if all.len() == 0 {
        String::new()
    } else {
        proof {
            assert(crate::unicode::views(all@)[0] == all@[0]@);
        }
        all[0].clone()
    }
}

/// `text` without the white space it starts with.
pub open spec fn without_lead(text: Seq<char>) -> Seq<char>
    decreases text.len(),
{
    if text.len() > 0 && white_space(text[0]) {
        without_lead(text.skip(1))
    } else {
        text
    }
}

/// `text` without the white space it ends with.
pub open spec fn without_trail(text: Seq<char>) -> Seq<char>
    decreases text.len(),
{
    if text.len() > 0 && white_space(text.last()) {
        without_trail(text.drop_last())
    } else {
        text
    }
}

/// `text` without the white space around it.
pub open spec fn trimmed(text: Seq<char>) -> Seq<char> {
    without_trail(without_lead(text))
}

/// `text` without the white space around it.
pub(crate) fn trim(text: &str) -> (inner: String)
    ensures
        inner@ == trimmed(text@),
{
    let chars = chars_of(text);
    let mut from: usize = 0;
    assert(text@.skip(0) =~= text@);
    while from < chars.len() && is_whitespace(chars[from])
        invariant
            from <= chars@.len(),
            chars@ == text@,
            without_lead(text@) == without_lead(text@.skip(from as int)),
        decreases chars@.len() - from,
    {
        assert(text@.skip(from as int).skip(1) =~= text@.skip(from + 1));
        from = from + 1;
    }
    let ghost rest = text@.skip(from as int);
    assert(without_lead(text@) == rest);
    let mut to: usize = chars.len();
    assert(rest =~= text@.subrange(from as int, to as int));
    while to > from && is_whitespace(chars[to - 1])
        invariant
            from <= to <= chars@.len(),
            chars@ == text@,
            without_trail(rest) == without_trail(text@.subrange(from as int, to as int)),
        decreases to,
    {
        assert(text@.subrange(from as int, to as int).drop_last() =~= text@.subrange(
            from as int,
            to - 1,
        ));
        to = to - 1;
    }
    string_of(&chars, from, to)
}

/// Whether `ch` is one of the digits 0 to 9.
pub open spec fn is_digit(ch: char) -> bool {
    '0' <= ch <= '9'
}

/// What the digits `text` come to in decimal.
pub open spec fn value(text: Seq<char>) -> nat
    decreases text.len(),
{
    if text.len() == 0 {
        0
    } else {
        value(text.drop_last()) * 10 + (text.last() as nat - '0' as nat) as nat
    }
}

/// Whether `text` is digits and nothing else, and at least one.
pub open spec fn all_digits(text: Seq<char>) -> bool {
    text.len() > 0 && forall|i: int| 0 <= i < text.len() ==> is_digit(#[trigger] text[i])
}

/// `text` without the plus sign it starts with, if it does.
pub open spec fn without_plus(text: Seq<char>) -> Seq<char> {
    if text.len() > 0 && text[0] == '+' {
        text.skip(1)
    } else {
        text
    }
}

/// The number `text` is in decimal, if it is one no larger than `most`: digits
/// only, and at least one, but for a plus sign they may follow.
pub open spec fn number_in(text: Seq<char>, most: nat) -> Option<nat> {
    let digits = without_plus(text);
    if all_digits(digits) && value(digits) <= most {
        Some(value(digits))
    } else {
        None
    }
}

/// More digits never come to less.
proof fn value_grows(text: Seq<char>, from: int, to: int)
    requires
        0 <= from <= to <= text.len(),
    ensures
        value(text.take(from)) <= value(text.take(to)),
    decreases to - from,
{
    if from < to {
        value_grows(text, from, to - 1);
        assert(text.take(to).drop_last() =~= text.take(to - 1));
    }
}

/// The number `text` is in decimal, if it is one no larger than `most`.
pub(crate) fn number(text: &str, most: usize) -> (number: Option<usize>)
    ensures
        match number {
            Some(n) => number_in(text@, most as nat) == Some(n as nat),
            None => number_in(text@, most as nat) is None,
        },
{
    let chars = chars_of(text);
    let from: usize = if chars.len() > 0 && chars[0] == '+' {
        1
    } else {
        0
    };
    let ghost digits = without_plus(text@);
    assert(text@.skip(0) =~= text@);
    assert(digits == text@.skip(from as int));
    if chars.len() == from {
        return None;
    }
    let mut n: usize = 0;
    let mut i: usize = from;
    while i < chars.len()
        invariant
            from <= i <= chars@.len(),
            chars@ == text@,
            digits == text@.skip(from as int),
            digits == without_plus(text@),
            digits.len() > 0,
            n == value(digits.take(i - from)),
            n <= most,
            forall|k: int| 0 <= k < i - from ==> is_digit(#[trigger] digits[k]),
        decreases chars@.len() - i,
    {
        let ch = chars[i];
        assert(digits[i - from] == ch);
        if !('0' <= ch && ch <= '9') {
            assert(!is_digit(digits[i - from]));
            return None;
        }
        let d: usize = (ch as u32 - '0' as u32) as usize;
        assert(digits.take(i + 1 - from).drop_last() =~= digits.take(i - from));
        assert(digits.take(i + 1 - from).last() == ch);
        assert(value(digits.take(i + 1 - from)) == n * 10 + d);
        proof {
            value_grows(digits, i + 1 - from, digits.len() as int);
            assert(digits.take(digits.len() as int) =~= digits);
        }
        if n > most / 10 || d > most - n * 10 {
            return None;
        }
        n = n * 10 + d;
        i = i + 1;
    }
    assert(digits.take(digits.len() as int) =~= digits);
    Some(n)
}

/// A number's digits are those of a tenth of it and then its last one, and a
/// number below ten is one digit.
pub proof fn each_digit_is_worth_ten_of_the_next(tens: nat, last: nat)
    requires
        last < 10,
    ensures
        decimal_of(last).len() == 1,
        decimal_of(last)[0] as int == '0' as int + last,
        tens > 0 ==> decimal_of(tens * 10 + last) == decimal_of(tens) + decimal_of(last),
{
    if tens > 0 {
        assert((tens * 10 + last) / 10 == tens && (tens * 10 + last) % 10 == last);
        assert(decimal_of(tens * 10 + last) =~= decimal_of(tens) + decimal_of(last));
    }
}

/// A number written out reads back as itself, whatever may be the most.
pub proof fn a_number_reads_back(n: nat, most: nat)
    requires
        n <= most,
    ensures
        number_in(decimal_of(n), most) == Some(n),
        number_in("+"@ + decimal_of(n), most) == Some(n),
{
    digits_come_back(n);
    reveal_strlit("+");
    let digits = decimal_of(n);
    assert(digits[0] != '+') by {
        assert(is_digit(digits[0]));
    }
    assert(("+"@ + digits).skip(1) =~= digits);
}

/// A number is written in digits, at least one, and nothing else.
pub proof fn a_number_is_digits(n: nat)
    ensures
        decimal_of(n).len() > 0,
        forall|i: int| 0 <= i < decimal_of(n).len() ==> '0' <= #[trigger] decimal_of(n)[i] <= '9',
        forall|i: int| 0 <= i < decimal_of(n).len() ==> is_digit(#[trigger] decimal_of(n)[i]),
{
    digits_come_back(n);
    assert forall|i: int| 0 <= i < decimal_of(n).len() implies '0' <= #[trigger] decimal_of(n)[i]
        <= '9' by {
        assert(is_digit(decimal_of(n)[i]));
    }
}

proof fn digits_come_back(n: nat)
    ensures
        all_digits(decimal_of(n)),
        value(decimal_of(n)) == n,
    decreases n,
{
    let digits = decimal_of(n);
    assert(digits.last() == digit(n));
    assert(digit(n) as nat == '0' as nat + n % 10);
    if n < 10 {
        assert(digits.drop_last() =~= Seq::empty());
        assert(value(digits.drop_last()) == 0);
    } else {
        digits_come_back(n / 10);
        assert(digits.drop_last() =~= decimal_of(n / 10));
        assert forall|i: int| 0 <= i < digits.len() implies is_digit(#[trigger] digits[i]) by {
            if i < digits.len() - 1 {
                assert(digits[i] == decimal_of(n / 10)[i]);
            }
        }
    }
}

/// Only digits are read as a number: anything else in it and it is none.
pub proof fn only_digits_are_a_number(text: Seq<char>, most: nat, at: int)
    requires
        0 <= at < text.len(),
        !('0' <= text[at] <= '9'),
        at > 0 || text[at] != '+',
    ensures
        number_in(text, most) is None,
{
    let digits = without_plus(text);
    if text[0] == '+' {
        assert(digits[at - 1] == text[at]);
    }
}

/// A line feed ends a line, and the line is what is before it but for a carriage
/// return at its end; what comes after is lines of its own. Text with no line
/// feed in it is one line, unless it is empty.
pub proof fn a_line_feed_ends_a_line(line: Seq<char>, rest: Seq<char>)
    requires
        forall|i: int| 0 <= i < line.len() ==> #[trigger] line[i] != '\n',
    ensures
        line.len() > 0 ==> lines_in(line) == seq![line],
        lines_in(Seq::<char>::empty()).len() == 0,
        ({
            let lines = lines_in(line.push('\n') + rest);
            &&& lines.skip(1) == lines_in(rest)
            &&& lines.len() > 0
            &&& line.len() > 0 && line.last() == '\r' ==> lines[0].push('\r') == line
            &&& line.len() == 0 || line.last() != '\r' ==> lines[0] == line
        }),
{
    let text = line.push('\n') + rest;
    first_at_is_first(text, '\n');
    first_at_is_first(line, '\n');
    let at = first_at(text, '\n');
    assert(text[line.len() as int] == '\n');
    if at < line.len() {
        assert(text[at] == line[at]);
    }
    assert(at == line.len());
    assert(text.take(at) =~= line);
    assert(text.skip(at + 1) =~= rest);
    assert(lines_in(text).skip(1) =~= lines_in(rest));
    if line.len() > 0 && line.last() == '\r' {
        assert(line.drop_last().push('\r') =~= line);
    }
}

/// Trimming takes white space off both ends, all of it, and nothing else.
pub proof fn trimming_takes_only_white_space_off(text: Seq<char>) -> (ends: (int, int))
    ensures
        0 <= ends.0 <= ends.1 <= text.len(),
        trimmed(text) == text.subrange(ends.0, ends.1),
        forall|i: int| 0 <= i < ends.0 ==> white_space(#[trigger] text[i]),
        forall|i: int| ends.1 <= i < text.len() ==> white_space(#[trigger] text[i]),
        ends.0 < ends.1 ==> !white_space(text[ends.0]) && !white_space(text[ends.1 - 1]),
{
    let from = lead(text);
    let rest = without_lead(text);
    let to = from + trail(rest);
    assert(trimmed(text) =~= text.subrange(from, to));
    assert forall|i: int| to <= i < text.len() implies white_space(#[trigger] text[i]) by {
        assert(text[i] == rest[i - from]);
    }
    (from, to)
}

proof fn lead(text: Seq<char>) -> (from: int)
    ensures
        0 <= from <= text.len(),
        without_lead(text) == text.skip(from),
        forall|i: int| 0 <= i < from ==> white_space(#[trigger] text[i]),
        from < text.len() ==> !white_space(text[from]),
    decreases text.len(),
{
    if text.len() > 0 && white_space(text[0]) {
        let from = lead(text.skip(1)) + 1;
        assert(text.skip(1).skip(from - 1) =~= text.skip(from));
        assert forall|i: int| 0 <= i < from implies white_space(#[trigger] text[i]) by {
            if i > 0 {
                assert(text[i] == text.skip(1)[i - 1]);
            }
        }
        from
    } else {
        assert(text.skip(0) =~= text);
        0
    }
}

proof fn trail(text: Seq<char>) -> (to: int)
    ensures
        0 <= to <= text.len(),
        without_trail(text) == text.take(to),
        forall|i: int| to <= i < text.len() ==> white_space(#[trigger] text[i]),
        0 < to ==> !white_space(text[to - 1]),
    decreases text.len(),
{
    if text.len() > 0 && white_space(text.last()) {
        let rest = text.drop_last();
        let to = trail(rest);
        assert(rest.take(to) =~= text.take(to));
        assert forall|i: int| to <= i < text.len() implies white_space(#[trigger] text[i]) by {
            if i < rest.len() {
                assert(text[i] == rest[i]);
            }
        }
        to
    } else {
        assert(text.take(text.len() as int) =~= text);
        text.len() as int
    }
}

/// A text's first line is what comes before its first line feed, but for a carriage
/// return at its end, and all of it where it has none.
pub proof fn the_first_line_ends_at_the_first_line_feed(line: Seq<char>, rest: Seq<char>)
    requires
        forall|i: int| 0 <= i < line.len() ==> #[trigger] line[i] != '\n',
    ensures
        first_line_in(line) == line,
        line.len() == 0 || line.last() != '\r' ==> first_line_in(line.push('\n') + rest) == line,
        line.len() > 0 && line.last() == '\r' ==> first_line_in(line.push('\n') + rest)
            == line.drop_last(),
{
    a_line_feed_ends_a_line(line, rest);
    if line.len() == 0 {
        assert(line =~= Seq::<char>::empty());
    } else if line.last() == '\r' {
        let first = lines_in(line.push('\n') + rest)[0];
        assert(first =~= first.push('\r').drop_last());
    }
}

} // verus!
