//! Building pieces of text: numbers in decimal, padding, and the width that
//! a text takes on a terminal.
use vstd::prelude::*;
use vstd::string::StrSliceExecFns;
use vstd::string::StringExecFns;

verus! {

/// The character that stands for the digit `d`.
pub open spec fn digit(d: int) -> char {
    ((48 + d) as u8) as char
}

/// `n` in decimal, without leading zeros.
pub open spec fn decimal(n: nat) -> Seq<char>
    decreases n,
{
    if n < 10 {
        seq![digit(n as int)]
    } else {
        decimal(n / 10).push(digit((n % 10) as int))
    }
}

/// `count` times the character `c`.
pub open spec fn repeated(c: char, count: nat) -> Seq<char> {
    Seq::new(count, |i: int| c)
}

/// `text` without the characters that equal `c`.
pub open spec fn without(text: Seq<char>, c: char) -> Seq<char>
    decreases text.len(),
{
    if text.len() == 0 {
        text
    } else if text.last() == c {
        without(text.drop_last(), c)
    } else {
        without(text.drop_last(), c).push(text.last())
    }
}

/// Appends `c` to `w` with `String::push`.
#[verifier::external_body]
pub(crate) fn push_char(w: &mut String, c: char)
    ensures
        final(w)@ == old(w)@.push(c),
{
    w.push(c)
}

/// Appends `text` to `w`.
pub fn push_str(w: &mut String, text: &str)
    ensures
        final(w)@ == old(w)@ + text@,
{
    w.append(text);
}

/// Appends `n` in decimal to `w`.
pub fn push_decimal(w: &mut String, n: u128)
    ensures
        final(w)@ == old(w)@ + decimal(n as nat),
    decreases n,
{
    if n >= 10 {
        push_decimal(w, n / 10);
    }
    let d = (n % 10) as u8;
    push_char(w, (48u8 + d) as char);
    assert(final(w)@ =~= old(w)@ + decimal(n as nat));
}

/// Appends `count` times the character `c` to `w`.
pub fn push_repeated(w: &mut String, c: char, count: usize)
    ensures
        final(w)@ == old(w)@ + repeated(c, count as nat),
{
    let mut i: usize = 0;
    while i < count
        invariant
            i <= count,
            w@ == old(w)@ + repeated(c, i as nat),
        decreases count - i,
    {
        push_char(w, c);
        i = i + 1;
        assert(w@ =~= old(w)@ + repeated(c, i as nat));
    }
    assert(w@ =~= old(w)@ + repeated(c, count as nat));
}

/// Appends `text` to `w`, leaving out each character that equals `c`.
pub fn push_without(w: &mut String, text: &str, c: char)
    ensures
        final(w)@ == old(w)@ + without(text@, c),
{
    let n = text.unicode_len();
    let mut i: usize = 0;
    assert(text@.subrange(0, 0) =~= Seq::empty());
    while i < n
        invariant
            i <= n == text@.len(),
            w@ == old(w)@ + without(text@.subrange(0, i as int), c),
        decreases n - i,
    {
        let next = text.get_char(i);
        let ghost upto = text@.subrange(0, i + 1);
        assert(upto.drop_last() =~= text@.subrange(0, i as int));
        assert(upto.last() == next);
        if next != c {
            push_char(w, next);
        }
        i = i + 1;
        assert(w@ =~= old(w)@ + without(upto, c));
    }
    assert(text@.subrange(0, n as int) =~= text@);
}

/// The number of terminal columns that `unicode_width` gives for a text.
pub uninterp spec fn display_width(text: Seq<char>) -> nat;

/// The width of `text` in terminal columns, by `UnicodeWidthStr::width` of
/// the crate `unicode_width`. It is a function of the characters alone.
#[verifier::external_body]
pub(crate) fn unicode_width(text: &str) -> (r: usize)
    ensures
        r == display_width(text@),
{
    unicode_width::UnicodeWidthStr::width(text)
}

/// The number of grapheme clusters that `unicode_segmentation` finds in a
/// text.
pub uninterp spec fn graphemes_in(text: Seq<char>) -> nat;

/// The number of grapheme clusters of `text`, as the `GraphemeCountWriter`
/// of the crate `tui_react` counts them when the text is written to it. It
/// is a function of the characters alone.
#[verifier::external_body]
pub(crate) fn grapheme_count(text: &str) -> (r: usize)
    ensures
        r == graphemes_in(text@),
{
    let mut writer = tui_react::util::GraphemeCountWriter::default();
    let _ = std::io::Write::write(&mut writer, text.as_bytes());
    writer.0
}

/// The width of `text` in terminal columns, as far as sixteen bits hold it:
/// a width beyond that keeps its low sixteen bits only.
pub open spec fn block_width_of(text: Seq<char>) -> u16 {
    (display_width(text) % 0x1_0000) as u16
}

/// The width of `text` in terminal columns, as far as sixteen bits hold it.
pub fn block_width(text: &str) -> (r: u16)
    ensures
        r == block_width_of(text@),
{
    (unicode_width(text) % 0x1_0000) as u16
}

} // verus!
