//! Small text helpers shared by the renderers: appending characters and
//! decimal or hexadecimal digits to a `String`.
use vstd::prelude::*;

verus! {

/// Relies on `String::push`: the character is appended at the end.
#[verifier::external_body]
pub(crate) fn push_char(s: &mut String, c: char)
    ensures
        final(s)@ == old(s)@.push(c),
{
    s.push(c)
}

/// Appends every character of `t` to `s`.
pub(crate) fn push_str(s: &mut String, t: &str)
    ensures
        final(s)@ == old(s)@ + t@,
{
    s.append(t);
}

/// Appends the characters of `t` to `s`.
pub(crate) fn push_string(s: &mut String, t: &String)
    ensures
        final(s)@ == old(s)@ + t@,
{
    s.append(t.as_str());
}

/// The characters of `t`, in order.
pub(crate) fn chars_of(t: &str) -> (r: Vec<char>)
    ensures
        r@ == t@,
{
    let n = t.unicode_len();
    let mut r: Vec<char> = Vec::new();
    let mut i: usize = 0;
    while i < n
        invariant
            n == t@.len(),
            i <= n,
            r@ == t@.subrange(0, i as int),
        decreases n - i,
    {
        r.push(t.get_char(i));
        i = i + 1;
        assert(r@ =~= t@.subrange(0, i as int));
    }
    assert(t@.subrange(0, n as int) =~= t@);
    r
}

/// The upper-case hexadecimal digit for `d < 16`.
pub open spec fn hex_char(d: nat) -> char {
    if d < 10 {
        ('0' as u8 + d) as char
    } else {
        ('A' as u8 + (d - 10)) as char
    }
}

/// Hexadecimal digits of `v`, most significant first, without leading zeros.
pub open spec fn hex_digits(v: nat) -> Seq<char>
    decreases v,
{
    if v < 16 {
        seq![hex_char(v)]
    } else {
        hex_digits(v / 16).push(hex_char(v % 16))
    }
}

/// Hexadecimal digits of `v`, padded with a zero to at least two digits.
pub open spec fn hex_pad2(v: nat) -> Seq<char> {
    if v < 16 {
        seq!['0', hex_char(v)]
    } else {
        hex_digits(v)
    }
}

/// The colour text `#RRGGBB` of three channels.
pub open spec fn hex_color_text(r: nat, g: nat, b: nat) -> Seq<char> {
    seq!['#'] + hex_pad2(r) + hex_pad2(g) + hex_pad2(b)
}

fn hex_digit_char(d: u16) -> (c: char)
    requires
        d < 16,
    ensures
        c == hex_char(d as nat),
{
    if d < 10 {
        ((48 + d) as u8) as char
    } else {
        ((65 + d - 10) as u8) as char
    }
}

fn push_hex_digits(s: &mut String, v: u16)
    ensures
        final(s)@ == old(s)@ + hex_digits(v as nat),
    decreases v,
{
    if v >= 16 {
        push_hex_digits(s, v / 16);
    }
    let c = hex_digit_char(v % 16);
    push_char(s, c);
    assert(final(s)@ =~= old(s)@ + hex_digits(v as nat));
}

pub(crate) fn push_hex_pad2(s: &mut String, v: u16)
    ensures
        final(s)@ == old(s)@ + hex_pad2(v as nat),
{
    if v < 16 {
        push_char(s, '0');
    }
    push_hex_digits(s, v);
    assert(final(s)@ =~= old(s)@ + hex_pad2(v as nat));
}

/// Writes `#RRGGBB` for three channels.
pub(crate) fn hex_color(r: u16, g: u16, b: u16) -> (s: String)
    ensures
        s@ == hex_color_text(r as nat, g as nat, b as nat),
{
    let mut s = String::new();
    push_char(&mut s, '#');
    push_hex_pad2(&mut s, r);
    push_hex_pad2(&mut s, g);
    push_hex_pad2(&mut s, b);
    assert(s@ =~= hex_color_text(r as nat, g as nat, b as nat));
    s
}

} // verus!
