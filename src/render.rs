//! Rendering of value records as text.

use vstd::prelude::*;
use crate::chunks::{ResType, ResValue};
use crate::text::{chars_of, digit_char, digits, push_digits, string_of};

verus! {

/// `2^n`.
pub open spec fn pow2(n: nat) -> nat
    decreases n,
{
    if n == 0 {
        1
    } else {
        2 * pow2((n - 1) as nat)
    }
}

proof fn lemma_pow2_add(a: nat, b: nat)
    ensures
        pow2(a + b) == pow2(a) * pow2(b),
    decreases b,
{
    if b > 0 {
        let b1 = (b - 1) as nat;
        lemma_pow2_add(a, b1);
        assert(a + b1 == (a + b - 1) as nat);
        assert(pow2(a + b) == 2 * pow2(a + b1));
        assert(pow2(b) == 2 * pow2(b1));
        let pa = pow2(a);
        let pb = pow2(b1);
        assert(pa * (2 * pb) == 2 * (pa * pb)) by (nonlinear_arith);
    } else {
        assert(pow2(0) == 1);
        assert(a + b == a);
    }
}

proof fn lemma_pow2_mono(a: nat, b: nat)
    requires
        a <= b,
    ensures
        pow2(a) <= pow2(b),
        pow2(a) > 0,
    decreases b,
{
    if b > a {
        lemma_pow2_mono(a, (b - 1) as nat);
    } else if a > 0 {
        lemma_pow2_mono((a - 1) as nat, (a - 1) as nat);
    }
}

proof fn lemma_pow2_values()
    ensures
        pow2(23) == 0x80_0000,
        pow2(24) == 0x100_0000,
        pow2(32) == 0x1_0000_0000,
        pow2(128) == u128::MAX + 1,
{
    reveal_with_fuel(pow2, 33);
    lemma_pow2_add(32, 32);
    lemma_pow2_add(64, 64);
    assert(pow2(64) == 0x1_0000_0000 * 0x1_0000_0000);
    assert(pow2(128) == 0x1_0000_0000_0000_0000 * 0x1_0000_0000_0000_0000);
}

/// `x / d` rounded to the nearest integer, ties to the even one.
pub open spec fn round_half_even(x: nat, d: nat) -> nat {
    let q = x / d;
    let r = x % d;
    if 2 * r > d || (2 * r == d && q % 2 == 1) {
        q + 1
    } else {
        q
    }
}

/// The biased exponent field of a 32-bit float.
pub open spec fn float_exp(bits: u32) -> nat {
    ((bits as nat / 0x80_0000) % 256) as nat
}

/// The fraction field of a 32-bit float.
pub open spec fn float_frac(bits: u32) -> nat {
    (bits as nat % 0x80_0000) as nat
}

/// The significand of a finite 32-bit float, implicit bit included.
pub open spec fn float_mant(bits: u32) -> nat {
    if float_exp(bits) == 0 {
        float_frac(bits)
    } else {
        float_frac(bits) + 0x80_0000
    }
}

/// The magnitude of a finite 32-bit float in hundredths, rounded half to even.
/// The value is `mant * 2^(exp - 150)` (subnormals: `mant * 2^-149`).
pub open spec fn float_hundredths(bits: u32) -> nat {
    let e = float_exp(bits);
    let m = float_mant(bits);
    if e >= 150 {
        m * pow2((e - 150) as nat) * 100
    } else if e == 0 {
        round_half_even(m * 100, pow2(149))
    } else {
        round_half_even(m * 100, pow2((150 - e) as nat))
    }
}

/// The two digits of `f` (below 100).
pub open spec fn two_digits(f: nat) -> Seq<char> {
    seq![digit_char((f / 10) as int, false), digit_char((f % 10) as int, false)]
}

/// The bits of a 32-bit float written with two decimal places.
pub open spec fn float_text(bits: u32) -> Seq<char> {
    let negative = bits >= 0x8000_0000;
    if float_exp(bits) == 255 {
        if float_frac(bits) != 0 {
            "NaN"@
        } else if negative {
            "-inf"@
        } else {
            "inf"@
        }
    } else {
        let h = float_hundredths(bits);
        (if negative { "-"@ } else { ""@ }) + digits(h / 100, 10, false) + "."@ + two_digits(h % 100)
    }
}

/// The magnitude of the finite float `bits` in hundredths, as whole units and
/// hundredths.
fn float_parts(bits: u32) -> (r: (u128, u128))
    requires
        float_exp(bits) != 255,
    ensures
        r.0 as nat == float_hundredths(bits) / 100,
        r.1 as nat == float_hundredths(bits) % 100,
{
    proof {
        lemma_pow2_values();
    }
    let e = (bits / 0x80_0000) % 256;
    let frac = bits % 0x80_0000;
    let m: u32 = if e == 0 { frac } else { frac + 0x80_0000 };
    assert(m as nat == float_mant(bits));
    if e >= 150 {
        let shift = e - 150;
        assert(pow2(0) == 1);
        let mut v: u128 = m as u128;
        let mut i: u32 = 0;
        assert(pow2(0) == 1);
        while i < shift
            invariant
                shift == e - 150,
                e <= 254,
                i <= shift,
                m < 0x100_0000,
                v as nat == m as nat * pow2(i as nat),
                pow2(24) == 0x100_0000,
                pow2(128) == u128::MAX + 1,
            decreases shift - i,
        {
            proof {
                lemma_pow2_mono((24 + i) as nat, 127);
                lemma_pow2_add(24, i as nat);
                assert(m as nat * pow2(i as nat) < pow2(24) * pow2(i as nat)) by (nonlinear_arith)
                    requires
                        m < 0x100_0000,
                        pow2(24) == 0x100_0000,
                        pow2(i as nat) > 0,
                {
                    lemma_pow2_mono(0, i as nat);
                }
                assert(pow2(128) == 2 * pow2(127));
            }
            v = v * 2;
            proof {
                assert(pow2((i + 1) as nat) == 2 * pow2(i as nat));
                assert(m as nat * (2 * pow2(i as nat)) == 2 * (m as nat * pow2(i as nat)))
                    by (nonlinear_arith);
            }
            i += 1;
        }
        assert(float_hundredths(bits) == v as nat * 100);
        assert((v as nat * 100) / 100 == v as nat) by (nonlinear_arith);
        assert((v as nat * 100) % 100 == 0) by (nonlinear_arith);
        (v, 0)
    } else {
        let k: u32 = if e == 0 { 149 } else { 150 - e };
        let x: u64 = m as u64 * 100;
        let h: u64 = if k >= 32 {
            proof {
                lemma_pow2_mono(32, k as nat);
                let d = pow2(k as nat);
                assert(x < d);
                assert(x as nat / d == 0 && x as nat % d == x as nat) by (nonlinear_arith)
                    requires
                        x < d,
                {
                }
            }
            0
        } else {
            let mut d: u64 = 1;
            let mut i: u32 = 0;
            while i < k
                invariant
                    i <= k < 32,
                    d as nat == pow2(i as nat),
                    d >= 1,
                    pow2(32) == 0x1_0000_0000,
                decreases k - i,
            {
                proof {
                    lemma_pow2_mono((i + 1) as nat, 32);
                    assert(pow2((i + 1) as nat) == 2 * pow2(i as nat));
                }
                d = d * 2;
                i += 1;
            }
            proof {
                lemma_pow2_mono(k as nat, 31);
                assert(pow2(32) == 2 * pow2(31));
            }
            let q = x / d;
            let r = x % d;
            if 2 * r > d || (2 * r == d && q % 2 == 1) {
                q + 1
            } else {
                q
            }
        };
        assert(h as nat == float_hundredths(bits));
        ((h / 100) as u128, (h % 100) as u128)
    }
}

/// Writes the float with bits `bits` with two decimal places.
pub fn float_to_text(bits: u32) -> (r: Vec<char>)
    ensures
        r@ == float_text(bits),
{
    let e = (bits / 0x80_0000) % 256;
    if e == 255 {
        if bits % 0x80_0000 != 0 {
            chars_of("NaN")
        } else if bits >= 0x8000_0000 {
            chars_of("-inf")
        } else {
            chars_of("inf")
        }
    } else {
        let (whole, hundredths) = float_parts(bits);
        let mut out: Vec<char> = if bits >= 0x8000_0000 {
            chars_of("-")
        } else {
            chars_of("")
        };
        let ghost sign = out@;
        push_digits(&mut out, whole, 10, false);
        let ghost whole_text = out@;
        out.push('.');
        let c1 = ((hundredths / 10) as u8 + 48u8) as char;
        let c2 = ((hundredths % 10) as u8 + 48u8) as char;
        out.push(c1);
        out.push(c2);
        proof {
            reveal_strlit(".");
            let h = float_hundredths(bits);
            assert(c1 == digit_char((h % 100 / 10) as int, false));
            assert(c2 == digit_char((h % 100 % 10) as int, false));
            assert(out@ =~= whole_text + "."@ + two_digits(h % 100));
            assert(out@ == (if bits >= 0x8000_0000 { "-"@ } else { ""@ }) + digits(h / 100, 10, false)
                + "."@ + two_digits(h % 100));
        }
        out
    }
}

/// A resource value rendered as text, or `None` for data types that have no
/// rendering and string indices outside `strings`.
pub open spec fn render(v: ResValue, strings: Seq<Seq<char>>) -> Option<Seq<char>> {
    let d = v.data as nat;
    if v.data_type == ResType::STRING {
        if d < strings.len() {
            Some(strings[d as int])
        } else {
            None
        }
    } else if v.data_type == ResType::INT_BOOLEAN {
        Some(if v.data != 0 { "true"@ } else { "false"@ })
    } else if v.data_type == ResType::INT_DEC {
        Some(digits(d, 10, false))
    } else if v.data_type == ResType::INT_HEX {
        Some("0x"@ + digits(d, 16, true))
    } else if v.data_type == ResType::FLOAT {
        Some(float_text(v.data))
    } else if v.data_type == ResType::REFERENCE {
        Some("@res/0x"@ + digits(d, 16, false))
    } else if v.data_type == ResType::DYNAMIC_REFERENCE {
        Some("@dyn/0x"@ + digits(d, 16, true))
    } else if v.data_type == ResType::ATTRIBUTE {
        Some("@attr/0x"@ + digits(d, 16, false))
    } else {
        None
    }
}

fn prefixed_hex(prefix: &str, n: u32, upper: bool) -> (r: String)
    ensures
        r@ == prefix@ + digits(n as nat, 16, upper),
{
    let mut out = chars_of(prefix);
    push_digits(&mut out, n as u128, 16, upper);
    string_of(&out)
}

impl ResValue {
    /// Renders the value as text; string values are looked up in `strings`.
    pub fn as_string(&self, strings: &Vec<String>) -> (r: Option<String>)
        ensures
            r.deep_view() == render(*self, strings.deep_view()),
    {
        let d = self.data;
        if self.data_type == ResType::STRING {
            if (d as usize) < strings.len() {
                Some(strings[d as usize].clone())
            } else {
                None
            }
        } else if self.data_type == ResType::INT_BOOLEAN {
            Some(if d != 0 { "true".to_owned() } else { "false".to_owned() })
        } else if self.data_type == ResType::INT_DEC {
            let mut out: Vec<char> = Vec::new();
            push_digits(&mut out, d as u128, 10, false);
            assert(out@ =~= digits(d as nat, 10, false));
            Some(string_of(&out))
        } else if self.data_type == ResType::INT_HEX {
            Some(prefixed_hex("0x", d, true))
        } else if self.data_type == ResType::FLOAT {
            Some(string_of(&float_to_text(d)))
        } else if self.data_type == ResType::REFERENCE {
            Some(prefixed_hex("@res/0x", d, false))
        } else if self.data_type == ResType::DYNAMIC_REFERENCE {
            Some(prefixed_hex("@dyn/0x", d, true))
        } else if self.data_type == ResType::ATTRIBUTE {
            Some(prefixed_hex("@attr/0x", d, false))
        } else {
            None
        }
    }
}

} // verus!
