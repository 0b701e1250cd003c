//! Decimal numbers with six fractional digits, their canonical text and
//! the reading of a numeric token.
use vstd::prelude::*;
use crate::text::{chars_of, push_char};

verus! {

/// Units per whole number: a `Num` counts millionths.
pub const SCALE: i64 = 1000000;

/// A signed decimal number with six fractional digits: its value is
/// `micros / 1_000_000`. Coordinates, radii, widths and opacities are all
/// held this way, so that arithmetic and text conversion are exact.
#[derive(Clone, Copy, Debug, PartialEq, Eq, Structural)]
pub struct Num {
    pub micros: i64,
}

/// `10^k`.
pub open spec fn pow10(k: nat) -> nat
    decreases k,
{
    if k == 0 {
        1
    } else {
        10 * pow10((k - 1) as nat)
    }
}

/// The decimal digit character of `d < 10`.
pub open spec fn digit_char(d: nat) -> char {
    ('0' as u8 + d) as char
}

pub open spec fn is_digit(c: char) -> bool {
    '0' <= c && c <= '9'
}

pub open spec fn digit_value(c: char) -> nat {
    (c as nat - '0' as nat) as nat
}

/// Decimal digits of `v`, most significant first, without leading zeros.
pub open spec fn dec_digits(v: nat) -> Seq<char>
    decreases v,
{
    if v < 10 {
        seq![digit_char(v)]
    } else {
        dec_digits(v / 10).push(digit_char(v % 10))
    }
}

/// The last `w` decimal digits of `v`, with leading zeros.
pub open spec fn padded_digits(v: nat, w: nat) -> Seq<char>
    decreases w,
{
    if w == 0 {
        seq![]
    } else {
        padded_digits(v / 10, (w - 1) as nat).push(digit_char(v % 10))
    }
}

/// Drops trailing zero digits from a fraction of `w` digits: the digits that
/// remain and how many they are.
pub open spec fn trim_zeros(f: nat, w: nat) -> (nat, nat)
    decreases w,
{
    if w > 0 && f % 10 == 0 {
        trim_zeros(f / 10, (w - 1) as nat)
    } else {
        (f, w)
    }
}

/// The fractional part `f` (millionths) as text: empty for zero, else a point
/// and the digits up to the last non-zero one.
pub open spec fn frac_text(f: nat) -> Seq<char> {
    let (g, w) = trim_zeros(f, 6);
    if w == 0 {
        seq![]
    } else {
        seq!['.'] + padded_digits(g, w)
    }
}

/// Text of a magnitude in millionths.
pub open spec fn magnitude_text(m: nat) -> Seq<char> {
    dec_digits(m / 1000000) + frac_text(m % 1000000)
}

/// The canonical text of the number with `micros` millionths: an optional
/// minus sign, the integer digits, and the fractional digits only when they
/// are not all zero (`100`, `-0.05`, `1.5`).
pub open spec fn num_text(micros: int) -> Seq<char> {
    if micros < 0 {
        seq!['-'] + magnitude_text((-micros) as nat)
    } else {
        magnitude_text(micros as nat)
    }
}

/// State of a left-to-right reading of the digits and point of a number.
pub struct Scan {
    pub int_part: nat,
    pub frac: nat,
    pub nfrac: nat,
    pub dot: bool,
    pub digits: bool,
    pub bad: bool,
}

pub open spec fn scan_start() -> Scan {
    Scan { int_part: 0, frac: 0, nfrac: 0, dot: false, digits: false, bad: false }
}

/// One character read: digits before the point build the integer part, the
/// first six after it the fraction (later ones are dropped); a second point
/// or any other character spoils the number.
pub open spec fn scan_step(st: Scan, c: char) -> Scan {
    if c == '.' {
        if st.dot {
            Scan { bad: true, ..st }
        } else {
            Scan { dot: true, ..st }
        }
    } else if is_digit(c) {
        if !st.dot {
            Scan { int_part: st.int_part * 10 + digit_value(c), digits: true, ..st }
        } else if st.nfrac < 6 {
            Scan { frac: st.frac * 10 + digit_value(c), nfrac: st.nfrac + 1, digits: true, ..st }
        } else {
            Scan { digits: true, ..st }
        }
    } else {
        Scan { bad: true, ..st }
    }
}

pub open spec fn scan(t: Seq<char>) -> Scan
    decreases t.len(),
{
    if t.len() == 0 {
        scan_start()
    } else {
        scan_step(scan(t.drop_last()), t.last())
    }
}

/// The magnitude in millionths that a finished reading stands for.
pub open spec fn scan_micros(st: Scan) -> nat {
    st.int_part * 1000000 + st.frac * pow10((6 - st.nfrac) as nat)
}

/// The number that the text `t` writes: an optional leading minus, then
/// digits with at most one point and at least one digit. Fractional digits
/// past the sixth are dropped; a value beyond the range of `Num` is
/// saturated to the nearest end of the range.
pub open spec fn parse_num(t: Seq<char>) -> Option<Num> {
    let neg = t.len() > 0 && t[0] == '-';
    let body = if neg {
        t.drop_first()
    } else {
        t
    };
    let st = scan(body);
    let mag = scan_micros(st);
    if st.bad || !st.digits {
        None
    } else if neg {
        if mag <= 0x8000_0000_0000_0000 {
            Some(Num { micros: (-mag) as i64 })
        } else {
            Some(Num { micros: i64::MIN })
        }
    } else if mag <= 0x7fff_ffff_ffff_ffff {
        Some(Num { micros: mag as i64 })
    } else {
        Some(Num { micros: i64::MAX })
    }
}


proof fn lemma_digit_char(d: nat)
    requires
        d < 10,
    ensures
        is_digit(digit_char(d)),
        digit_value(digit_char(d)) == d,
        digit_char(d) != '-',
        digit_char(d) != '.',
{
}

proof fn lemma_scan_push(t: Seq<char>, c: char)
    ensures
        scan(t.push(c)) == scan_step(scan(t), c),
{
    assert(t.push(c).drop_last() =~= t);
}

/// The digits of `v` are all digits, at least one, and read back as `v`.
proof fn lemma_dec_digits(v: nat)
    ensures
        dec_digits(v).len() >= 1,
        forall|i: int| 0 <= i < dec_digits(v).len() ==> #[trigger] is_digit(dec_digits(v)[i]),
        scan(dec_digits(v)) == (Scan { int_part: v, digits: true, ..scan_start() }),
    decreases v,
{
    lemma_digit_char(v % 10);
    if v < 10 {
        lemma_scan_push(seq![], digit_char(v));
        assert(seq![digit_char(v)] =~= Seq::<char>::empty().push(digit_char(v)));
    } else {
        lemma_dec_digits(v / 10);
        lemma_scan_push(dec_digits(v / 10), digit_char(v % 10));
    }
}

proof fn lemma_padded_digits(y: Seq<char>, g: nat, w: nat)
    requires
        g < pow10(w),
        scan(y).dot,
        scan(y).nfrac + w <= 6,
    ensures
        padded_digits(g, w).len() == w,
        forall|i: int| 0 <= i < w ==> #[trigger] is_digit(padded_digits(g, w)[i]),
        scan(y + padded_digits(g, w)) == (Scan {
            frac: scan(y).frac * pow10(w) + g,
            nfrac: scan(y).nfrac + w,
            digits: scan(y).digits || w > 0,
            ..scan(y)
        }),
    decreases w,
{
    if w == 0 {
        assert(y + padded_digits(g, w) =~= y);
    } else {
        let w1 = (w - 1) as nat;
        assert(g / 10 < pow10(w1)) by (nonlinear_arith)
            requires
                g < pow10(w),
                pow10(w) == 10 * pow10(w1),
        ;
        lemma_padded_digits(y, g / 10, w1);
        lemma_digit_char(g % 10);
        let c = digit_char(g % 10);
        assert(y + padded_digits(g, w) =~= (y + padded_digits(g / 10, w1)).push(c));
        lemma_scan_push(y + padded_digits(g / 10, w1), c);
        let f0 = scan(y).frac;
        assert((f0 * pow10(w1) + g / 10) * 10 + g % 10 == f0 * pow10(w) + g) by (nonlinear_arith)
            requires
                pow10(w) == 10 * pow10(w1),
        ;
    }
}

proof fn lemma_pow10_add(a: nat, b: nat)
    ensures
        pow10(a + b) == pow10(a) * pow10(b),
    decreases a,
{
    if a > 0 {
        let a1 = (a - 1) as nat;
        lemma_pow10_add(a1, b);
        let x = pow10(a1);
        let y = pow10(b);
        assert(pow10(a) == 10 * x);
        assert(pow10(a + b) == 10 * pow10(a1 + b));
        assert(10 * (x * y) == (10 * x) * y) by (nonlinear_arith);
    } else {
        assert(pow10(0) == 1);
        assert(a + b == b);
    }
}

proof fn lemma_trim_zeros(f: nat, w: nat)
    requires
        f < pow10(w),
    ensures
        trim_zeros(f, w).1 <= w,
        trim_zeros(f, w).0 < pow10(trim_zeros(f, w).1),
        trim_zeros(f, w).0 * pow10((w - trim_zeros(f, w).1) as nat) == f,
    decreases w,
{
    if w > 0 && f % 10 == 0 {
        let w1 = (w - 1) as nat;
        assert(f / 10 < pow10(w1)) by (nonlinear_arith)
            requires
                f < pow10(w),
                pow10(w) == 10 * pow10(w1),
        ;
        lemma_trim_zeros(f / 10, w1);
        assert(trim_zeros(f, w) == trim_zeros(f / 10, w1));
        let g = trim_zeros(f / 10, w1).0;
        let w2 = trim_zeros(f / 10, w1).1;
        let k = (w1 - w2) as nat;
        assert((w - w2) as nat == k + 1);
        assert(pow10(k + 1) == 10 * pow10(k));
        assert(f == 10 * (f / 10));
        assert(g * pow10((w - w2) as nat) == f) by (nonlinear_arith)
            requires
                g * pow10(k) == f / 10,
                pow10((w - w2) as nat) == 10 * pow10(k),
                f == 10 * (f / 10),
        ;
    } else {
        assert(trim_zeros(f, w) == (f, w));
        assert(pow10(0) == 1);
        assert(f * pow10(0) == f);
    }
    let t = trim_zeros(f, w);
    assert(t.0 * pow10((w - t.1) as nat) >= 0) by (nonlinear_arith);
}

/// The text of a magnitude starts with a digit and holds only digits and at
/// most one point; reading it gives the magnitude back.
proof fn lemma_magnitude_text(m: nat)
    ensures
        magnitude_text(m).len() >= 1,
        is_digit(magnitude_text(m)[0]),
        forall|i: int|
            0 <= i < magnitude_text(m).len() ==> #[trigger] is_digit(magnitude_text(m)[i])
                || magnitude_text(m)[i] == '.',
        !scan(magnitude_text(m)).bad,
        scan(magnitude_text(m)).digits,
        scan_micros(scan(magnitude_text(m))) == m,
{
    let q = m / 1000000;
    let f = m % 1000000;
    lemma_dec_digits(q);
    reveal_with_fuel(pow10, 7);
    lemma_trim_zeros(f, 6);
    let (g, w) = trim_zeros(f, 6);
    let d = dec_digits(q);
    if w == 0 {
        assert(magnitude_text(m) =~= d);
        assert(g == 0);
        assert(m == q * 1000000 + f);
        let st = scan(d);
        assert(st.frac == 0 && st.nfrac == 0 && st.int_part == q);
        assert(st.frac * pow10(6) == 0) by (nonlinear_arith)
            requires
                st.frac == 0,
        ;
        assert(scan_micros(st) == q * 1000000);
    } else {
        let y = d.push('.');
        lemma_scan_push(d, '.');
        lemma_padded_digits(y, g, w);
        assert(magnitude_text(m) =~= y + padded_digits(g, w));
        lemma_pow10_add((6 - w) as nat, w);
        assert(m == q * 1000000 + g * pow10((6 - w) as nat));
        assert(g * pow10((6 - w) as nat) >= 0) by (nonlinear_arith);
        let st = scan(y + padded_digits(g, w));
        assert(scan(y).frac == 0 && scan(y).nfrac == 0);
        assert(scan(y).frac * pow10(w) == 0) by (nonlinear_arith)
            requires
                scan(y).frac == 0,
        ;
        assert(st.frac == g && st.nfrac == w && st.int_part == q);
        assert(scan_micros(st) == m);
        assert(forall|i: int|
            0 <= i < magnitude_text(m).len() ==> #[trigger] is_digit(magnitude_text(m)[i])
                || magnitude_text(m)[i] == '.') by {
            assert forall|i: int| 0 <= i < magnitude_text(m).len() implies #[trigger] is_digit(
                magnitude_text(m)[i],
            ) || magnitude_text(m)[i] == '.' by {
                if i > d.len() {
                    assert(magnitude_text(m)[i] == padded_digits(g, w)[i - d.len() - 1]);
                }
            }
        }
    }
}

/// Reading the canonical text of a number gives the number back.
pub proof fn lemma_num_text_round_trip(n: Num)
    ensures
        parse_num(num_text(n.micros as int)) == Some(n),
        num_text(n.micros as int).len() >= 1,
        is_digit(num_text(n.micros as int)[0]) || num_text(n.micros as int)[0] == '-',
        forall|i: int|
            1 <= i < num_text(n.micros as int).len() ==> #[trigger] is_digit(
                num_text(n.micros as int)[i],
            ) || num_text(n.micros as int)[i] == '.',
{
    let m = n.micros as int;
    let t = num_text(m);
    if m < 0 {
        let mag = (-m) as nat;
        lemma_magnitude_text(mag);
        assert(t.drop_first() =~= magnitude_text(mag));
        assert forall|i: int| 1 <= i < t.len() implies #[trigger] is_digit(t[i]) || t[i] == '.' by {
            assert(t[i] == magnitude_text(mag)[i - 1]);
        }
    } else {
        lemma_magnitude_text(m as nat);
        lemma_digit_char(0);
    }
}

/// Largest integer part that is tracked exactly while reading.
const INT_LIMIT: u64 = 10000000000000;

fn digit_to_char(d: u64) -> (c: char)
    requires
        d < 10,
    ensures
        c == digit_char(d as nat),
{
    ((48 + d) as u8) as char
}

fn push_dec_digits(s: &mut String, v: u64)
    ensures
        final(s)@ == old(s)@ + dec_digits(v as nat),
    decreases v,
{
    if v >= 10 {
        push_dec_digits(s, v / 10);
    }
    let c = digit_to_char(v % 10);
    push_char(s, c);
    assert(final(s)@ =~= old(s)@ + dec_digits(v as nat));
}

fn push_padded_digits(s: &mut String, v: u64, w: u64)
    ensures
        final(s)@ == old(s)@ + padded_digits(v as nat, w as nat),
    decreases w,
{
    if w > 0 {
        push_padded_digits(s, v / 10, w - 1);
        let c = digit_to_char(v % 10);
        push_char(s, c);
    }
    assert(final(s)@ =~= old(s)@ + padded_digits(v as nat, w as nat));
}

/// Appends the canonical text of the number with `m` millionths to `s`.
pub(crate) fn push_micros(s: &mut String, m: i128)
    requires
        -0x1_0000_0000_0000_0000 < m < 0x1_0000_0000_0000_0000,
    ensures
        final(s)@ == old(s)@ + num_text(m as int),
{
    let mag: u64 = if m < 0 {
        (0 - m) as u64
    } else {
        m as u64
    };
    if m < 0 {
        push_char(s, '-');
    }
    push_dec_digits(s, mag / 1000000);
    let mut g: u64 = mag % 1000000;
    let mut w: u64 = 6;
    while w > 0 && g % 10 == 0
        invariant
            w <= 6,
            trim_zeros(g as nat, w as nat) == trim_zeros(mag as nat % 1000000, 6),
        decreases w,
    {
        g = g / 10;
        w = w - 1;
    }
    if w > 0 {
        push_char(s, '.');
        push_padded_digits(s, g, w);
    }
    proof {
        let mm = mag as nat;
        assert(frac_text(mm % 1000000) =~= if w == 0 {
            seq![]
        } else {
            seq!['.'] + padded_digits(g as nat, w as nat)
        });
    }
    assert(final(s)@ =~= old(s)@ + num_text(m as int));
}

impl Num {
    /// The value in millionths.
    pub open spec fn value(self) -> int {
        self.micros as int
    }

    /// The whole number `v`.
    pub open spec fn from_int_spec(v: int) -> Num {
        Num { micros: (v * 1000000) as i64 }
    }

    /// The number with the given count of millionths.
    pub fn from_micros(micros: i64) -> (r: Num)
        ensures
            r.micros == micros,
    {
        Num { micros }
    }

    /// The whole number `v`.
    pub fn from_int(v: i32) -> (r: Num)
        ensures
            r.micros == v * 1000000,
            r == Num::from_int_spec(v as int),
    {
        Num { micros: v as i64 * SCALE }
    }

    /// Reads the number that `text` writes (see `parse_num`): `"-0.05"`,
    /// `"12"`, `"3."` or `".5"`.
    pub fn parse(text: &str) -> (r: Option<Num>)
        ensures
            r == parse_num(text@),
    {
        let cs = chars_of(text);
        let r = parse_chars(&cs, 0, cs.len());
        assert(cs@.subrange(0, cs@.len() as int) =~= text@);
        r
    }

    /// Appends the canonical text of the number to `s`.
    pub fn write_to(&self, s: &mut String)
        ensures
            final(s)@ == old(s)@ + num_text(self.micros as int),
    {
        push_micros(s, self.micros as i128);
    }

    /// The canonical text of the number.
    pub fn to_text(&self) -> (s: String)
        ensures
            s@ == num_text(self.micros as int),
    {
        let mut s = String::new();
        self.write_to(&mut s);
        assert(s@ =~= num_text(self.micros as int));
        s
    }
}

/// Reads the number written by `cs[start..end]` (see `parse_num`).
pub(crate) fn parse_chars(cs: &Vec<char>, start: usize, end: usize) -> (r: Option<Num>)
    requires
        start <= end <= cs@.len(),
    ensures
        r == parse_num(cs@.subrange(start as int, end as int)),
{
    let ghost t = cs@.subrange(start as int, end as int);
    let neg = start < end && cs[start] == '-';
    let first = if neg {
        start + 1
    } else {
        start
    };
    let ghost body = cs@.subrange(first as int, end as int);
    assert(body =~= if neg {
        t.drop_first()
    } else {
        t
    });
    let mut int_part: u64 = 0;
    let mut big = false;
    let mut frac: u64 = 0;
    let mut nfrac: u64 = 0;
    let mut dot = false;
    let mut digits = false;
    let mut bad = false;
    let mut i = first;
    while i < end
        invariant
            first <= i <= end <= cs@.len(),
            ({
                let st = scan(cs@.subrange(first as int, i as int));
                &&& big <==> st.int_part > INT_LIMIT
                &&& !big ==> int_part as nat == st.int_part
                &&& frac as nat == st.frac
                &&& nfrac as nat == st.nfrac
                &&& nfrac <= 6
                &&& frac < pow10(nfrac as nat)
                &&& dot == st.dot
                &&& digits == st.digits
                &&& bad == st.bad
            }),
        decreases end - i,
    {
        let c = cs[i];
        let ghost prev = cs@.subrange(first as int, i as int);
        assert(cs@.subrange(first as int, i + 1).drop_last() =~= prev);
        assert(cs@.subrange(first as int, i + 1).last() == c);
        if c == '.' {
            if dot {
                bad = true;
            } else {
                dot = true;
            }
        } else if '0' <= c && c <= '9' {
            let d = (c as u32 - '0' as u32) as u64;
            digits = true;
            if !dot {
                if !big {
                    if int_part > INT_LIMIT / 10 {
                        big = true;
                    } else {
                        int_part = int_part * 10 + d;
                        if int_part > INT_LIMIT {
                            big = true;
                        }
                    }
                }
            } else if nfrac < 6 {
                proof {
                    reveal_with_fuel(pow10, 7);
                    assert(pow10(nfrac as nat) <= 100000);
                    assert(frac * 10 + d < pow10(nfrac as nat) * 10) by (nonlinear_arith)
                        requires
                            frac < pow10(nfrac as nat),
                            d < 10,
                    ;
                }
                frac = frac * 10 + d;
                nfrac = nfrac + 1;
            }
        } else {
            bad = true;
        }
        i = i + 1;
    }
    assert(cs@.subrange(first as int, end as int) == body);
    if bad || !digits {
        return None;
    }
    if big {
        proof {
            let st = scan(body);
            assert(scan_micros(st) >= st.int_part * 1000000);
            assert(st.frac * pow10((6 - st.nfrac) as nat) >= 0) by (nonlinear_arith);
        }
        if neg {
            return Some(Num { micros: i64::MIN });
        } else {
            return Some(Num { micros: i64::MAX });
        }
    }
    let p = pow_u64(6 - nfrac);
    proof {
        assert(frac * p < 1000000) by (nonlinear_arith)
            requires
                frac < pow10(nfrac as nat),
                p == pow10((6 - nfrac) as nat),
                pow10(nfrac as nat) * pow10((6 - nfrac) as nat) == 1000000,
        {
        }
    }
    let mag: u64 = int_part * 1000000 + frac * p;
    if neg {
        if mag <= 0x8000_0000_0000_0000 {
            Some(Num { micros: (0i128 - mag as i128) as i64 })
        } else {
            Some(Num { micros: i64::MIN })
        }
    } else if mag <= 0x7fff_ffff_ffff_ffff {
        Some(Num { micros: mag as i64 })
    } else {
        Some(Num { micros: i64::MAX })
    }
}

fn pow_u64(k: u64) -> (r: u64)
    requires
        k <= 6,
    ensures
        r == pow10(k as nat),
        pow10((6 - k) as nat) * r == 1000000,
{
    proof {
        reveal_with_fuel(pow10, 7);
    }
    if k == 0 {
        1
    } else if k == 1 {
        10
    } else if k == 2 {
        100
    } else if k == 3 {
        1000
    } else if k == 4 {
        10000
    } else if k == 5 {
        100000
    } else {
        1000000
    }
}

} // verus!
