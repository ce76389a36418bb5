//! Text helpers: decoding of byte and code-unit strings, and the digit
//! renderings used for resource values.

use vstd::prelude::*;
use vstd::std_specs::iter::IteratorSpec;

verus! {

/// What `String::from_utf8_lossy` makes of a byte sequence.
pub uninterp spec fn utf8_lossy_of(b: Seq<u8>) -> Seq<char>;

/// Whether `x` is a leading (high) surrogate.
pub open spec fn is_high_surrogate(x: u16) -> bool {
    0xD800 <= x && x < 0xDC00
}

/// Whether `x` is a trailing (low) surrogate.
pub open spec fn is_low_surrogate(x: u16) -> bool {
    0xDC00 <= x && x < 0xE000
}

/// The code points of UTF-16 code units: a high surrogate followed by a low
/// one forms one supplementary code point; any other surrogate becomes
/// U+FFFD; every other unit is its own code point.
pub open spec fn utf16_code_points(u: Seq<u16>) -> Seq<u32>
    decreases u.len(),
{
    if u.len() == 0 {
        Seq::empty()
    } else if u.len() >= 2 && is_high_surrogate(u[0]) && is_low_surrogate(u[1]) {
        seq![(0x1_0000 + (u[0] - 0xD800) * 0x400 + (u[1] - 0xDC00)) as u32] + utf16_code_points(u.skip(2))
    } else if 0xD800 <= u[0] && u[0] < 0xE000 {
        seq![0xFFFDu32] + utf16_code_points(u.skip(1))
    } else {
        seq![u[0] as u32] + utf16_code_points(u.skip(1))
    }
}

/// The character with scalar value `x`.
pub open spec fn char_with_code(x: u32) -> char {
    choose|c: char| #[trigger] (c as u32) == x
}

/// The text of UTF-16 code units, unpaired surrogates replaced by U+FFFD.
pub open spec fn utf16_lossy_text(u: Seq<u16>) -> Seq<char> {
    utf16_code_points(u).map_values(|x: u32| char_with_code(x))
}

/// Relies on `String::from_utf8_lossy`: invalid sequences become U+FFFD; the
/// text is a function of the bytes alone.
#[verifier::external_body]
pub(crate) fn utf8_lossy(b: &[u8]) -> (r: String)
    ensures
        r@ == utf8_lossy_of(b@),
{
    String::from_utf8_lossy(b).into_owned()
}

/// Relies on `String::from_utf16_lossy`: the units are decoded as UTF-16, and
/// unpaired surrogates become U+FFFD.
#[verifier::external_body]
pub(crate) fn utf16_lossy(u: &[u16]) -> (r: String)
    ensures
        r@ == utf16_lossy_text(u@),
{
    String::from_utf16_lossy(u)
}

/// Relies on `FromIterator<&char>` for `String`: the string holds the given
/// characters in order.
#[verifier::external_body]
pub(crate) fn string_of(v: &Vec<char>) -> (r: String)
    ensures
        r@ == v@,
{
    v.iter().collect()
}

/// The characters of `s` in order.
pub fn chars_of(s: &str) -> (r: Vec<char>)
    ensures
        r@ == s@,
{
    broadcast use vstd::string::group_string_axioms;
    let mut it = s.chars();
    let mut out: Vec<char> = Vec::new();
    loop
        invariant
            it.obeys_prophetic_iter_laws(),
            it.decrease() is Some,
            out@ + it.remaining() == s@,
        decreases it.decrease()->0,
    {
        let ghost before = it;
        match it.next() {
            Some(c) => {
                assert(before.remaining().len() > 0);
                out.push(c);
                assert(out@ + it.remaining() =~= s@);
            },
            None => {
                assert(out@ =~= s@);
                return out;
            },
        }
    }
}

/// The character of digit `d` (below 16), with upper- or lower-case letters.
pub open spec fn digit_char(d: int, upper: bool) -> char {
    if d < 10 {
        (48 + d) as u8 as char
    } else if upper {
        (55 + d) as u8 as char
    } else {
        (87 + d) as u8 as char
    }
}

/// The digits of `n` in base `radix` (2 to 16), most significant first, without
/// leading zeros.
pub open spec fn digits(n: nat, radix: nat, upper: bool) -> Seq<char>
    decreases n,
    via digits_decreases
{
    if radix < 2 || n < radix {
        seq![digit_char(n as int, upper)]
    } else {
        digits(n / radix, radix, upper).push(digit_char((n % radix) as int, upper))
    }
}

#[via_fn]
proof fn digits_decreases(n: nat, radix: nat, upper: bool) {
    if !(radix < 2 || n < radix) {
        assert(n / radix < n) by (nonlinear_arith)
            requires
                radix >= 2,
                n >= radix,
        ;
    }
}

fn digit(d: u128, upper: bool) -> (c: char)
    requires
        d < 16,
    ensures
        c == digit_char(d as int, upper),
{
    let b = d as u8;
    if b < 10 {
        (48u8 + b) as char
    } else if upper {
        (55u8 + b) as char
    } else {
        (87u8 + b) as char
    }
}

/// Appends the digits of `n` in base `radix` to `out`.
pub fn push_digits(out: &mut Vec<char>, n: u128, radix: u128, upper: bool)
    requires
        2 <= radix <= 16,
    ensures
        final(out)@ == old(out)@ + digits(n as nat, radix as nat, upper),
{
    let mut low: Vec<char> = Vec::new();
    let mut v: u128 = n;
    while v >= radix
        invariant
            2 <= radix <= 16,
            digits(n as nat, radix as nat, upper) == digits(v as nat, radix as nat, upper)
                + low@,
        decreases v,
    {
        let c = digit(v % radix, upper);
        low.insert(0, c);
        assert(digits(v as nat, radix as nat, upper) == digits(
            (v / radix) as nat,
            radix as nat,
            upper,
        ).push(c));
        v = v / radix;
    }
    low.insert(0, digit(v, upper));
    let mut i: usize = 0;
    let ghost start = out@;
    while i < low.len()
        invariant
            i <= low@.len(),
            out@ == start + low@.subrange(0, i as int),
        decreases low@.len() - i,
    {
        out.push(low[i]);
        assert(low@.subrange(0, i + 1) == low@.subrange(0, i as int).push(low@[i as int]));
        i += 1;
    }
    assert(low@.subrange(0, low@.len() as int) == low@);
}

} // verus!
