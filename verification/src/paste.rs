//! Pasted text.

use vstd::prelude::*;

use crate::text::{chars_of, push};

verus! {

/// `text` with every line ending made a line feed: a carriage return is one,
/// and the line feed right after it is part of it.
pub open spec fn normalised(text: Seq<char>) -> Seq<char>
    decreases text.len(),
{
    if text.len() == 0 {
        Seq::empty()
    } else {
        let before = normalised(text.drop_last());
        if text.last() == '\r' {
            before.push('\n')
        } else if text.last() == '\n' && text.len() > 1 && text[text.len() - 2] == '\r' {
            before
        } else {
            before.push(text.last())
        }
    }
}

/// Pasted text with every line ending made `\n`, the only one the buffer holds.
///
/// Terminals are not consistent about what a pasted newline is: xterm and
/// others send `\r`, and a paste copied from a CRLF source carries `\r\n`. Left
/// alone, either puts a carriage return in the buffer, which draws a pasted
/// block as one line and moves every language-server position after it, since
/// the protocol ends a line at a lone `\r` and nun does not.
pub fn pasted_line_endings(text: &str) -> (pasted: String)
    ensures
        pasted@ == normalised(text@),
{
    let chars = chars_of(text);
    let mut pasted = String::new();
    let mut i: usize = 0;
    while i < chars.len()
        invariant
            i <= chars@.len(),
            chars@ == text@,
            pasted@ == normalised(text@.take(i as int)),
        decreases chars@.len() - i,
    {
        let ghost next = text@.take(i + 1);
        assert(next.drop_last() =~= text@.take(i as int));
        let ch = chars[i];
        if ch == '\r' {
            push(&mut pasted, '\n');
        } else if ch == '\n' && i > 0 && chars[i - 1] == '\r' {
            assert(next[next.len() - 2] == '\r');
        } else {
            push(&mut pasted, ch);
        }
        i = i + 1;
    }
    assert(text@.take(text@.len() as int) =~= text@);
    pasted
}

/// No carriage return ever reaches the buffer from a paste.
pub proof fn a_paste_holds_no_carriage_return(text: Seq<char>)
    ensures
        forall|i: int| 0 <= i < normalised(text).len() ==> #[trigger] normalised(text)[i] != '\r',
    decreases text.len(),
{
    if text.len() > 0 {
        a_paste_holds_no_carriage_return(text.drop_last());
        let before = normalised(text.drop_last());
        assert forall|i: int| 0 <= i < normalised(text).len() implies #[trigger] normalised(text)[i]
            != '\r' by {
            if i < before.len() {
                assert(normalised(text)[i] == before[i]);
            }
        }
    }
}

/// Text without a carriage return is pasted as it is, so pasting what was
/// pasted changes nothing.
pub proof fn plain_text_is_pasted_as_it_is(text: Seq<char>)
    requires
        forall|i: int| 0 <= i < text.len() ==> #[trigger] text[i] != '\r',
    ensures
        normalised(text) == text,
    decreases text.len(),
{
    if text.len() > 0 {
        let rest = text.drop_last();
        assert forall|i: int| 0 <= i < rest.len() implies #[trigger] rest[i] != '\r' by {
            assert(rest[i] == text[i]);
        }
        plain_text_is_pasted_as_it_is(rest);
        assert(text.last() == text[text.len() - 1]);
        assert(rest.push(text.last()) =~= text);
    }
}

/// Making line endings line feeds twice is making them so once.
pub proof fn pasting_again_changes_nothing(text: Seq<char>)
    ensures
        normalised(normalised(text)) == normalised(text),
{
    a_paste_holds_no_carriage_return(text);
    plain_text_is_pasted_as_it_is(normalised(text));
}

/// However a line pasted ends, it ends in one line feed, and lines are pasted one
/// after another as each would be alone.
pub proof fn every_line_break_is_one_line_feed(a: Seq<char>, b: Seq<char>)
    ensures
        normalised(a.push('\r').push('\n') + b) == normalised(a).push('\n') + normalised(b),
        b.len() == 0 || b[0] != '\n' ==> normalised(a.push('\r') + b) == normalised(a).push('\n')
            + normalised(b),
        a.len() == 0 || a.last() != '\r' ==> normalised(a.push('\n') + b) == normalised(a).push(
            '\n',
        ) + normalised(b),
        a.len() == 0 || a.last() != '\r' || b.len() == 0 || b[0] != '\n' ==> normalised(a + b)
            == normalised(a) + normalised(b),
{
    let cr = a.push('\r');
    let crlf = cr.push('\n');
    let lf = a.push('\n');
    assert(cr.drop_last() =~= a);
    assert(crlf.drop_last() =~= cr);
    assert(lf.drop_last() =~= a);
    assert(crlf[crlf.len() - 2] == '\r');
    assert(normalised(cr) == normalised(a).push('\n'));
    assert(normalised(crlf) == normalised(cr));
    lines_join(crlf, b);
    lines_join(lf, b);
    if b.len() == 0 || b[0] != '\n' {
        lines_join(cr, b);
    }
    if a.len() == 0 || a.last() != '\r' {
        if a.len() > 0 {
            assert(lf[lf.len() - 2] == a.last());
        }
        assert(normalised(lf) == normalised(a).push('\n'));
    }
    if a.len() == 0 || a.last() != '\r' || b.len() == 0 || b[0] != '\n' {
        lines_join(a, b);
    }
}

proof fn lines_join(a: Seq<char>, b: Seq<char>)
    requires
        a.len() == 0 || a.last() != '\r' || b.len() == 0 || b[0] != '\n',
    ensures
        normalised(a + b) == normalised(a) + normalised(b),
    decreases b.len(),
{
    if b.len() == 0 {
        assert(a + b =~= a);
        assert(normalised(a) + normalised(b) =~= normalised(a));
    } else {
        let all = a + b;
        assert(all.drop_last() =~= a + b.drop_last());
        assert(all.last() == b.last());
        if b.len() > 1 {
            assert(all[all.len() - 2] == b[b.len() - 2]);
        } else if a.len() > 0 {
            assert(all[all.len() - 2] == a.last());
        }
        lines_join(a, b.drop_last());
        assert(normalised(all) =~= normalised(a) + normalised(b));
    }
}

} // verus!
