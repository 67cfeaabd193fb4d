use vstd::prelude::*;

verus! {

/// The character of digit `d` (below 16) in lower-case hexadecimal.
pub open spec fn digit_char(d: u8) -> char {
    "0123456789abcdef"@[d as int]
}

/// `v` in decimal, without leading zeros.
pub open spec fn decimal(v: u8) -> Seq<char> {
    if v < 10 {
        seq![digit_char(v)]
    } else if v < 100 {
        seq![digit_char(v / 10), digit_char(v % 10)]
    } else {
        seq![digit_char(v / 100), digit_char((v / 10) % 10), digit_char(v % 10)]
    }
}

/// `v` as `0x` and two lower-case hexadecimal digits.
pub open spec fn hex_byte(v: u8) -> Seq<char> {
    "0x"@ + seq![digit_char(v / 16), digit_char(v % 16)]
}

/// Each byte of `s` as two lower-case hexadecimal digits followed by a space.
pub open spec fn hex_cells(s: Seq<u8>) -> Seq<char>
    decreases s.len(),
{
    if s.len() == 0 {
        Seq::empty()
    } else {
        hex_cells(s.drop_last()) + seq![digit_char(s.last() / 16), digit_char(s.last() % 16), ' ']
    }
}

pub(crate) fn push_digit(out: &mut String, d: u8)
    requires
        d < 16,
    ensures
        final(out)@ == old(out)@.push(digit_char(d)),
{
    let digits = "0123456789abcdef";
    proof {
        reveal_strlit("0123456789abcdef");
    }
    let one = digits.substring_ascii(d as usize, d as usize + 1);
    assert(one@ =~= seq![digit_char(d)]);
    out.append(one);
}

pub(crate) fn push_decimal(out: &mut String, v: u8)
    ensures
        final(out)@ == old(out)@ + decimal(v),
{
    if v < 10 {
        push_digit(out, v);
    } else if v < 100 {
        push_digit(out, v / 10);
        push_digit(out, v % 10);
    } else {
        push_digit(out, v / 100);
        push_digit(out, (v / 10) % 10);
        push_digit(out, v % 10);
    }
    assert(out@ =~= old(out)@ + decimal(v));
}

pub(crate) fn push_hex_byte(out: &mut String, v: u8)
    ensures
        final(out)@ == old(out)@ + hex_byte(v),
{
    out.append("0x");
    push_digit(out, v / 16);
    push_digit(out, v % 16);
    assert(out@ =~= old(out)@ + hex_byte(v));
}

pub(crate) fn push_hex_cell(out: &mut String, v: u8)
    ensures
        final(out)@ == old(out)@ + seq![digit_char(v / 16), digit_char(v % 16), ' '],
{
    push_digit(out, v / 16);
    push_digit(out, v % 16);
    proof {
        reveal_strlit(" ");
    }
    out.append(" ");
    assert(out@ =~= old(out)@ + seq![digit_char(v / 16), digit_char(v % 16), ' ']);
}

} // verus!
