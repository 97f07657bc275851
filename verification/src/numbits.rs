//! IEEE-754 double-precision numbers, carried as their 64 raw bits.
//!
//! The classification of a bit pattern (NaN, zero, sign, integer value) is
//! decoded here in verified code, straight from the IEEE-754 layout: one sign
//! bit, an 11-bit biased exponent, a 52-bit fraction. Arithmetic, decimal
//! parsing and decimal formatting are performed by the `rustc_apfloat`
//! software implementation of IEEE-754 behind trusted wrappers; their results
//! are named by uninterpreted spec functions.

use vstd::prelude::*;

verus! {

/// Biased exponent of a bit pattern: bits 52..63.
pub open spec fn spec_exp_bits(b: u64) -> u64 {
    (b >> 52) & 0x7ff
}

/// Fraction field of a bit pattern: bits 0..52.
pub open spec fn spec_frac_bits(b: u64) -> u64 {
    b & 0xf_ffff_ffff_ffff
}

/// A pattern is NaN when the exponent is all ones and the fraction is not zero.
pub open spec fn spec_is_nan(b: u64) -> bool {
    spec_exp_bits(b) == 0x7ff && spec_frac_bits(b) != 0
}

/// A pattern is an infinity when the exponent is all ones and the fraction is zero.
pub open spec fn spec_is_inf(b: u64) -> bool {
    spec_exp_bits(b) == 0x7ff && spec_frac_bits(b) == 0
}

/// A pattern is a zero (either sign) when everything but the sign bit is zero.
pub open spec fn spec_is_zero(b: u64) -> bool {
    b & 0x7fff_ffff_ffff_ffff == 0
}

/// Sign bit.
pub open spec fn spec_is_neg(b: u64) -> bool {
    b & 0x8000_0000_0000_0000 != 0
}

/// IEEE-754 equality on two bit patterns: false when either is NaN, true for
/// the two zeroes compared with each other, otherwise bitwise equality.
pub open spec fn spec_num_eq(a: u64, b: u64) -> bool {
    !spec_is_nan(a) && !spec_is_nan(b) && (a == b || (spec_is_zero(a) && spec_is_zero(b)))
}

pub fn exp_bits(b: u64) -> (r: u64)
    ensures
        r == spec_exp_bits(b),
{
    (b >> 52) & 0x7ff
}

pub fn frac_bits(b: u64) -> (r: u64)
    ensures
        r == spec_frac_bits(b),
{
    b & 0xf_ffff_ffff_ffff
}

pub fn is_nan(b: u64) -> (r: bool)
    ensures
        r == spec_is_nan(b),
{
    exp_bits(b) == 0x7ff && frac_bits(b) != 0
}

pub fn is_inf(b: u64) -> (r: bool)
    ensures
        r == spec_is_inf(b),
{
    exp_bits(b) == 0x7ff && frac_bits(b) == 0
}

pub fn is_zero(b: u64) -> (r: bool)
    ensures
        r == spec_is_zero(b),
{
    b & 0x7fff_ffff_ffff_ffff == 0
}

pub fn is_neg(b: u64) -> (r: bool)
    ensures
        r == spec_is_neg(b),
{
    b & 0x8000_0000_0000_0000 != 0
}

pub fn num_eq(a: u64, b: u64) -> (r: bool)
    ensures
        r == spec_num_eq(a, b),
{
    !is_nan(a) && !is_nan(b) && (a == b || (is_zero(a) && is_zero(b)))
}

/// The canonical quiet NaN produced by coercions.
pub const NAN_BITS: u64 = 0x7ff8_0000_0000_0000;

/// Bits of +0.0.
pub const ZERO_BITS: u64 = 0;

/// Bits of 1.0.
pub const ONE_BITS: u64 = 0x3ff0_0000_0000_0000;

/// The IEEE-754 double-precision sum of two bit patterns, rounding to nearest
/// ties-to-even.
pub uninterp spec fn ieee_add(a: u64, b: u64) -> u64;

/// The IEEE-754 double-precision difference of two bit patterns, rounding to
/// nearest ties-to-even.
pub uninterp spec fn ieee_sub(a: u64, b: u64) -> u64;

/// The bit pattern a decimal (or hexadecimal) numeric literal denotes, rounded
/// to nearest ties-to-even, or `None` when the text is not a number.
pub uninterp spec fn ieee_parse(s: Seq<char>) -> Option<u64>;

/// The decimal rendering of a finite nonzero bit pattern at a given number of
/// significant digits.
pub uninterp spec fn ieee_fmt(b: u64, digits: usize) -> Seq<char>;

/// Relies on `rustc_apfloat::ieee::Double::add_r` (through `core::ops::Add`):
/// IEEE-754 double addition, rounding to nearest ties-to-even, a function of
/// the two operands alone. When either operand is NaN the sum is NaN: `add_r`
/// answers a NaN operand with a quieted NaN before any arithmetic.
#[verifier::external_body]
pub fn add_bits(a: u64, b: u64) -> (r: u64)
    ensures
        r == ieee_add(a, b),
        spec_is_nan(a) || spec_is_nan(b) ==> spec_is_nan(r),
{
    let x = <rustc_apfloat::ieee::Double as rustc_apfloat::Float>::from_bits(a as u128);
    let y = <rustc_apfloat::ieee::Double as rustc_apfloat::Float>::from_bits(b as u128);
    rustc_apfloat::Float::to_bits((x + y).value) as u64
}

/// Relies on `rustc_apfloat::ieee::Double::sub_r` (through `core::ops::Sub`):
/// IEEE-754 double subtraction, rounding to nearest ties-to-even, a function
/// of the two operands alone. When either operand is NaN the difference is
/// NaN: `sub_r` answers a NaN operand with a quieted NaN before any
/// arithmetic.
#[verifier::external_body]
pub fn sub_bits(a: u64, b: u64) -> (r: u64)
    ensures
        r == ieee_sub(a, b),
        spec_is_nan(a) || spec_is_nan(b) ==> spec_is_nan(r),
{
    let x = <rustc_apfloat::ieee::Double as rustc_apfloat::Float>::from_bits(a as u128);
    let y = <rustc_apfloat::ieee::Double as rustc_apfloat::Float>::from_bits(b as u128);
    rustc_apfloat::Float::to_bits((x - y).value) as u64
}

/// Relies on `rustc_apfloat::Float::from_str`: correctly rounded decimal (or
/// hexadecimal) to double conversion, a function of the text alone; an error
/// exactly when the text is not a numeric literal.
#[verifier::external_body]
pub fn parse_bits(s: &str) -> (r: Option<u64>)
    ensures
        r == ieee_parse(s@),
{
    match <rustc_apfloat::ieee::Double as core::str::FromStr>::from_str(s) {
        Ok(d) => Some(rustc_apfloat::Float::to_bits(d) as u64),
        Err(_) => None,
    }
}

/// Relies on `rustc_apfloat::ieee::IeeeFloat`'s `core::fmt::Display`: decimal
/// rendering with the requested significant digits, a function of the bits
/// and the digit count alone. At least one digit must be asked for: with a
/// precision of zero the rendering can drop every significant digit and the
/// implementation refuses an empty digit buffer.
#[verifier::external_body]
pub fn fmt_bits(b: u64, digits: usize) -> (r: String)
    requires
        digits >= 1,
    ensures
        r@ == ieee_fmt(b, digits),
{
    format!("{:21.*}", digits, <rustc_apfloat::ieee::Double as rustc_apfloat::Float>::from_bits(b as u128))
}

/// The decimal digit characters, by value.
pub open spec fn digit_char(d: u64) -> char {
    if d == 0 {
        '0'
    } else if d == 1 {
        '1'
    } else if d == 2 {
        '2'
    } else if d == 3 {
        '3'
    } else if d == 4 {
        '4'
    } else if d == 5 {
        '5'
    } else if d == 6 {
        '6'
    } else if d == 7 {
        '7'
    } else if d == 8 {
        '8'
    } else {
        '9'
    }
}

/// The decimal rendering of a natural number, most significant digit first,
/// with no leading zero except for the number zero itself.
pub open spec fn spec_dec_str(n: u64) -> Seq<char>
    decreases n,
{
    if n < 10 {
        seq![digit_char(n)]
    } else {
        spec_dec_str(n / 10).push(digit_char(n % 10))
    }
}

fn digit_str(d: u64) -> (r: &'static str)
    requires
        d < 10,
    ensures
        r@ == seq![digit_char(d)],
{
    proof {
        reveal_strlit("0");
        reveal_strlit("1");
        reveal_strlit("2");
        reveal_strlit("3");
        reveal_strlit("4");
        reveal_strlit("5");
        reveal_strlit("6");
        reveal_strlit("7");
        reveal_strlit("8");
        reveal_strlit("9");
    }
    let r = if d == 0 {
        "0"
    } else if d == 1 {
        "1"
    } else if d == 2 {
        "2"
    } else if d == 3 {
        "3"
    } else if d == 4 {
        "4"
    } else if d == 5 {
        "5"
    } else if d == 6 {
        "6"
    } else if d == 7 {
        "7"
    } else if d == 8 {
        "8"
    } else {
        "9"
    };
    proof {
        assert(r@ =~= seq![digit_char(d)]);
    }
    r
}

/// Renders a natural number in decimal.
pub fn dec_string(n: u64) -> (r: String)
    ensures
        r@ == spec_dec_str(n),
    decreases n,
{
    if n < 10 {
        digit_str(n).to_owned()
    } else {
        let mut s = dec_string(n / 10);
        s.append(digit_str(n % 10));
        proof {
            assert(s@ =~= spec_dec_str(n));
        }
        s
    }
}

/// The rendering of a finite nonzero positive pattern that the shortest-first
/// search settles on: the fewest significant digits that parse back to the
/// same bits, and the full seventeen when no shorter rendering does.
pub open spec fn spec_shortest_from(b: u64, d: usize) -> Seq<char>
    decreases 17 - d,
{
    if d >= 17 {
        ieee_fmt(b, 17)
    } else if ieee_parse(ieee_fmt(b, d)) == Some(b) {
        ieee_fmt(b, d)
    } else {
        spec_shortest_from(b, (d + 1) as usize)
    }
}

/// Whether a pattern with zero sign bit denotes an integer below `2^64`:
/// the significand, scaled by the unbiased exponent, has no fractional bits
/// and does not overflow 64 bits.
pub open spec fn spec_small_int_rep(m: u64) -> bool {
    let e = spec_exp_bits(m);
    1023 <= e <= 1086 && (e >= 1075 || spec_frac_bits(m) & (((1u64 << (1075 - e) as u64)
        - 1) as u64) == 0)
}

/// The integer a small-integer pattern denotes.
pub open spec fn spec_small_int_val(m: u64) -> u64 {
    let e = spec_exp_bits(m);
    let sig = spec_frac_bits(m) | 0x10_0000_0000_0000u64;
    if e >= 1075 {
        sig << (e - 1075) as u64
    } else {
        sig >> (1075 - e) as u64
    }
}

/// The decimal rendering of a finite nonzero pattern with zero sign bit:
/// integers below `2^64` exactly, anything else by the shortest-first search
/// with a scientific result folded back into positional digits where it
/// denotes an integer of at most twenty-one places.
pub open spec fn spec_pos_num_str(m: u64) -> Seq<char> {
    if spec_small_int_rep(m) {
        spec_dec_str(spec_small_int_val(m))
    } else {
        spec_to_positional(spec_shortest_from(m, 1))
    }
}

/// `ToString` of a number: `NaN` for NaN, signed `Infinity` for the two
/// infinities, `0` for the two zeroes, and otherwise the decimal rendering of
/// the magnitude with a leading minus sign when negative.
pub open spec fn spec_num_str(b: u64) -> Seq<char> {
    if spec_is_nan(b) {
        "NaN"@
    } else if spec_is_inf(b) {
        if spec_is_neg(b) {
            "-Infinity"@
        } else {
            "Infinity"@
        }
    } else if spec_is_zero(b) {
        "0"@
    } else if spec_is_neg(b) {
        seq!['-'] + spec_pos_num_str(b & 0x7fff_ffff_ffff_ffff)
    } else {
        spec_pos_num_str(b)
    }
}

/// Renders a finite nonzero pattern with zero sign bit in decimal.
fn pos_num_string(m: u64) -> (r: String)
    requires
        !spec_is_nan(m),
        !spec_is_inf(m),
        !spec_is_zero(m),
        !spec_is_neg(m),
    ensures
        r@ == spec_pos_num_str(m),
{
    let e = exp_bits(m);
    proof {
        assert(forall|s: u64| s < 64 ==> #[trigger] (1u64 << s) >= 1) by (bit_vector);
    }
    if 1023 <= e && e <= 1086 && (e >= 1075 || frac_bits(m) & ((1u64 << (1075 - e)) - 1) == 0) {
        let sig = frac_bits(m) | 0x10_0000_0000_0000u64;
        let n = if e >= 1075 {
            sig << (e - 1075)
        } else {
            sig >> (1075 - e)
        };
        dec_string(n)
    } else {
        let mut d: usize = 1;
        while d < 17
            invariant
                1 <= d <= 17,
                !spec_small_int_rep(m),
                spec_shortest_from(m, 1) == spec_shortest_from(m, d),
            decreases 17 - d,
        {
            let s = fmt_bits(m, d);
            let back = parse_bits(s.as_str());
            match back {
                Option::Some(x) => {
                    if x == m {
                        return to_positional(s);
                    }
                },
                Option::None => {},
            }
            d = d + 1;
        }
        to_positional(fmt_bits(m, 17))
    }
}

/// Renders a number as `ToString` does.
pub fn num_to_string(b: u64) -> (r: String)
    ensures
        r@ == spec_num_str(b),
{
    if is_nan(b) {
        "NaN".to_owned()
    } else if is_inf(b) {
        if is_neg(b) {
            "-Infinity".to_owned()
        } else {
            "Infinity".to_owned()
        }
    } else if is_zero(b) {
        "0".to_owned()
    } else if is_neg(b) {
        let mag = b & 0x7fff_ffff_ffff_ffff;
        proof {
            assert(!spec_is_nan(mag) && !spec_is_inf(mag) && !spec_is_zero(mag) && !spec_is_neg(
                mag,
            )) by (bit_vector)
                requires
                    !spec_is_nan(b) && !spec_is_inf(b) && !spec_is_zero(b) && spec_is_neg(b) && mag
                        == b & 0x7fff_ffff_ffff_ffff,
            ;
        }
        let mut s = "-".to_owned();
        s.append(pos_num_string(mag).as_str());
        proof {
            reveal_strlit("-");
            assert(s@ =~= seq!['-'] + spec_pos_num_str(mag));
        }
        s
    } else {
        pos_num_string(b)
    }
}

/// Bits of positive infinity.
pub const INF_BITS: u64 = 0x7ff0_0000_0000_0000;

/// Bits of negative infinity.
pub const NEG_INF_BITS: u64 = 0xfff0_0000_0000_0000;

/// One decimal digit.
pub open spec fn is_digit(c: char) -> bool {
    '0' <= c <= '9'
}

/// The first position at or after `i` that does not hold a digit.
pub open spec fn skip_digits(s: Seq<char>, i: int) -> int
    decreases s.len() - i,
{
    if 0 <= i < s.len() && is_digit(s[i]) {
        skip_digits(s, i + 1)
    } else {
        i
    }
}

/// Where the mantissa starts: after one optional sign.
pub open spec fn sign_end(s: Seq<char>) -> int {
    if s.len() > 0 && (s[0] == '+' || s[0] == '-') {
        1
    } else {
        0
    }
}

/// Whether the text is a decimal numeric literal: an optional sign, digits
/// with at most one point and at least one digit, and an optional exponent
/// marked `e` or `E` with an optional sign and at least one digit.
pub open spec fn spec_decimal_literal(s: Seq<char>) -> bool {
    let a = sign_end(s);
    let p = skip_digits(s, a);
    let has_dot = p < s.len() && s[p] == '.';
    let q = if has_dot {
        skip_digits(s, p + 1)
    } else {
        p
    };
    let mantissa_ok = p > a || (has_dot && q > p + 1);
    let exp_ok = if q == s.len() {
        true
    } else if s[q] == 'e' || s[q] == 'E' {
        let r = if q + 1 < s.len() && (s[q + 1] == '+' || s[q + 1] == '-') {
            q + 2
        } else {
            q + 1
        };
        skip_digits(s, r) == s.len() && skip_digits(s, r) > r
    } else {
        false
    };
    s.len() > 0 && mantissa_ok && exp_ok
}

/// An ASCII upper-case letter folded to lower case; anything else unchanged.
pub open spec fn spec_lower_char(c: char) -> char {
    if 65 <= c as u8 <= 90 {
        ((c as u8 + 32) as u8) as char
    } else {
        c
    }
}

/// Whether the text from `from` onward spells the (lower-case) word, letters
/// compared case-insensitively.
pub open spec fn spec_word_at(s: Seq<char>, from: int, w: Seq<char>) -> bool {
    &&& s.len() - from == w.len()
    &&& forall|i: int| 0 <= i < w.len() ==> spec_lower_char(#[trigger] s[from + i]) == w[i]
}

/// The bit pattern a numeric text denotes: an optional sign followed by
/// `inf`, `infinity` or `nan` in any case, or a decimal literal handed to the
/// IEEE-754 parser; anything else is no number.
pub open spec fn spec_parse_number(s: Seq<char>) -> Option<u64> {
    let a = sign_end(s);
    let neg = a == 1 && s[0] == '-';
    if spec_word_at(s, a, "inf"@) || spec_word_at(s, a, "infinity"@) {
        if neg {
            Some(NEG_INF_BITS)
        } else {
            Some(INF_BITS)
        }
    } else if spec_word_at(s, a, "nan"@) {
        Some(NAN_BITS)
    } else if spec_decimal_literal(s) {
        ieee_parse(s)
    } else {
        None
    }
}

fn lower_char(c: char) -> (r: char)
    ensures
        r == spec_lower_char(c),
{
    let b = c as u8;
    if 65 <= b && b <= 90 {
        (b + 32) as char
    } else {
        c
    }
}

/// Whether the text from `from` onward spells the word, case-insensitively.
fn word_at(s: &str, n: usize, from: usize, w: &str) -> (r: bool)
    requires
        n == s@.len(),
        from <= n,
    ensures
        r == spec_word_at(s@, from as int, w@),
{
    let wn = w.unicode_len();
    if n - from != wn {
        return false;
    }
    let mut i: usize = 0;
    while i < wn
        invariant
            i <= wn,
            wn == w@.len(),
            n == s@.len(),
            from + wn <= n,
            forall|m: int| 0 <= m < i ==> spec_lower_char(#[trigger] s@[from + m]) == w@[m],
        decreases wn - i,
    {
        if lower_char(s.get_char(from + i)) != w.get_char(i) {
            return false;
        }
        i = i + 1;
    }
    true
}

/// The first position at or after `i` that does not hold a digit.
fn scan_digits(s: &str, n: usize, i: usize) -> (r: usize)
    requires
        n == s@.len(),
        i <= n,
    ensures
        i <= r <= n,
        r == skip_digits(s@, i as int),
{
    let mut j: usize = i;
    while j < n
        invariant
            i <= j <= n,
            n == s@.len(),
            skip_digits(s@, i as int) == skip_digits(s@, j as int),
        decreases n - j,
    {
        let c = s.get_char(j);
        if !(c == '0' || c == '1' || c == '2' || c == '3' || c == '4' || c == '5' || c == '6'
            || c == '7' || c == '8' || c == '9') {
            return j;
        }
        proof {
            assert(is_digit(s@[j as int]));
        }
        j = j + 1;
    }
    j
}

/// Parses a numeric text: the signed infinity and NaN words are recognised
/// here; a decimal literal goes to the IEEE-754 parser; anything else is no
/// number.
pub fn parse_number_text(s: &str) -> (r: Option<u64>)
    ensures
        r == spec_parse_number(s@),
{
    proof {
        reveal_strlit("inf");
        reveal_strlit("infinity");
        reveal_strlit("nan");
    }
    let n = s.unicode_len();
    let a: usize = if n > 0 {
        let c0 = s.get_char(0);
        if c0 == '+' || c0 == '-' {
            1
        } else {
            0
        }
    } else {
        0
    };
    let neg = a == 1 && s.get_char(0) == '-';
    if word_at(s, n, a, "inf") || word_at(s, n, a, "infinity") {
        return if neg {
            Some(NEG_INF_BITS)
        } else {
            Some(INF_BITS)
        };
    }
    if word_at(s, n, a, "nan") {
        return Some(NAN_BITS);
    }
    let p = scan_digits(s, n, a);
    let has_dot = p < n && s.get_char(p) == '.';
    let q = if has_dot {
        scan_digits(s, n, p + 1)
    } else {
        p
    };
    let mantissa_ok = p > a || (has_dot && q > p + 1);
    let exp_ok = if q == n {
        true
    } else {
        let cq = s.get_char(q);
        if cq == 'e' || cq == 'E' {
            let r0: usize = if q + 1 < n {
                let c1 = s.get_char(q + 1);
                if c1 == '+' || c1 == '-' {
                    q + 2
                } else {
                    q + 1
                }
            } else {
                q + 1
            };
            if r0 > n {
                false
            } else {
                let r2 = scan_digits(s, n, r0);
                r2 == n && r2 > r0
            }
        } else {
            false
        }
    };
    if n > 0 && mantissa_ok && exp_ok {
        parse_bits(s)
    } else {
        None
    }
}

/// Every position below the digit-scan frontier holds a digit.
proof fn lemma_skip_digits_all(s: Seq<char>, i: int, m: int)
    requires
        0 <= i <= m,
        m < skip_digits(s, i),
    ensures
        0 <= m < s.len() && is_digit(s[m]),
    decreases m - i,
{
    if i < m {
        lemma_skip_digits_all(s, i + 1, m);
    }
}

/// A run of zero characters.
pub open spec fn zeros(n: nat) -> Seq<char>
    decreases n,
{
    if n == 0 {
        Seq::empty()
    } else {
        zeros((n - 1) as nat).push('0')
    }
}

/// The value of a run of decimal digits, read left to right.
pub open spec fn digits_value(s: Seq<char>, a: int, b: int) -> int
    decreases b - a,
{
    if a >= b {
        0
    } else {
        digits_value(s, a, b - 1) * 10 + (s[b - 1] as u8 - 48)
    }
}

/// Scientific text of the shape `-? digits (. digits)? E+ (one or two
/// digits)` folded into positional digits when the decimal point would land
/// at or past the last digit and within twenty-one places: the digits run
/// together, extended with zeros. Any other text is unchanged.
pub open spec fn spec_to_positional(s: Seq<char>) -> Seq<char> {
    let neg = s.len() > 0 && s[0] == '-';
    let a: int = if neg {
        1
    } else {
        0
    };
    let p0 = skip_digits(s, a);
    let has_dot = p0 < s.len() && s[p0] == '.';
    let p1 = if has_dot {
        skip_digits(s, p0 + 1)
    } else {
        p0
    };
    let shape_ok = p0 > a && (!has_dot || p1 > p0 + 1) && p1 + 1 < s.len() && s[p1] == 'E' && s[p1
        + 1] == '+' && skip_digits(s, p1 + 2) == s.len() && s.len() > p1 + 2 && s.len() - (p1 + 2)
        <= 2;
    if !shape_ok {
        s
    } else {
        let ev = digits_value(s, p1 + 2, s.len() as int);
        let mlen = (p0 - a) + (if has_dot {
            p1 - (p0 + 1)
        } else {
            0
        });
        let point = (p0 - a) + ev;
        if point >= mlen && point <= 21 {
            (if neg {
                seq!['-']
            } else {
                Seq::empty()
            }) + s.subrange(a, p0) + (if has_dot {
                s.subrange(p0 + 1, p1)
            } else {
                Seq::empty()
            }) + zeros((point - mlen) as nat)
        } else {
            s
        }
    }
}

/// Folds a scientific rendering into positional digits where
/// [`spec_to_positional`] says so.
#[verifier::loop_isolation(false)]
fn to_positional(s: String) -> (r: String)
    ensures
        r@ == spec_to_positional(s@),
{
    let n = s.as_str().unicode_len();
    let neg = n > 0 && s.as_str().get_char(0) == '-';
    let a: usize = if neg {
        1
    } else {
        0
    };
    if a > n {
        return s;
    }
    let p0 = scan_digits(s.as_str(), n, a);
    let has_dot = p0 < n && s.as_str().get_char(p0) == '.';
    let p1 = if has_dot {
        scan_digits(s.as_str(), n, p0 + 1)
    } else {
        p0
    };
    let shape_ok = p0 > a && (!has_dot || p1 > p0 + 1) && p1 < n && p1 + 1 < n && s.as_str()
        .get_char(p1) == 'E' && s.as_str().get_char(p1 + 1) == '+' && scan_digits(
        s.as_str(),
        n,
        p1 + 2,
    ) == n && n > p1 + 2 && n - (p1 + 2) <= 2;
    if !shape_ok {
        return s;
    }
    let mut ev: usize = 0;
    let mut j: usize = p1 + 2;
    while j < n
        invariant
            p1 + 2 <= j <= n,
            ev == digits_value(s@, p1 + 2 as int, j as int),
            j == p1 + 2 ==> ev == 0,
            j == p1 + 3 ==> ev <= 9,
            ev <= 99,
        decreases n - j,
    {
        proof {
            lemma_skip_digits_all(s@, p1 + 2 as int, j as int);
        }
        let c = s.as_str().get_char(j);
        let d = (c as u8) - 48;
        ev = ev * 10 + (d as usize);
        j = j + 1;
    }
    let mlen = (p0 - a) + (if has_dot {
        p1 - (p0 + 1)
    } else {
        0
    });
    if p0 - a > 21 {
        return s;
    }
    let point = (p0 - a) + ev;
    if !(point >= mlen && point <= 21) {
        return s;
    }
    let mut out: String = if neg {
        "-".to_owned()
    } else {
        String::new()
    };
    proof {
        reveal_strlit("-");
        reveal_strlit("0");
        if neg {
            assert(out@ =~= seq!['-']);
        }
    }
    out.append(s.as_str().substring_char(a, p0));
    if has_dot {
        out.append(s.as_str().substring_char(p0 + 1, p1));
    }
    let ghost stem = (if neg {
        seq!['-']
    } else {
        Seq::<char>::empty()
    }) + s@.subrange(a as int, p0 as int) + (if has_dot {
        s@.subrange(p0 as int + 1, p1 as int)
    } else {
        Seq::<char>::empty()
    });
    proof {
        assert(out@ =~= stem + zeros(0));
    }
    let mut k: usize = 0;
    let pad = point - mlen;
    while k < pad
        invariant
            k <= pad,
            out@ == stem + zeros(k as nat),
        decreases pad - k,
    {
        out.append("0");
        proof {
            assert(out@ =~= stem + zeros((k + 1) as nat));
        }
        k = k + 1;
    }
    proof {
        assert(out@ =~= spec_to_positional(s@));
    }
    out
}

} // verus!
