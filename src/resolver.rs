//! Resolution of rendered references through a resource table.

use vstd::prelude::*;
use crate::arsc_parser::{lookup, Arsc, PackageView};
use crate::text::chars_of;

verus! {

/// Number of substitutions made at most when resolving a reference; it bounds
/// the work on reference cycles.
pub const MAX_SUBSTITUTIONS: u32 = 4;

/// The value of a hexadecimal digit, either case.
pub open spec fn hex_digit_value(c: char) -> Option<nat> {
    if '0' <= c && c <= '9' {
        Some((c as u32 - 48) as nat)
    } else if 'a' <= c && c <= 'f' {
        Some((c as u32 - 87) as nat)
    } else if 'A' <= c && c <= 'F' {
        Some((c as u32 - 55) as nat)
    } else {
        None
    }
}

/// The value of a run of hexadecimal digits; `None` if one is not a digit.
pub open spec fn hex_run_value(cs: Seq<char>) -> Option<nat>
    decreases cs.len(),
{
    if cs.len() == 0 {
        Some(0)
    } else {
        match (hex_run_value(cs.drop_last()), hex_digit_value(cs.last())) {
            (Some(a), Some(d)) => Some(a * 16 + d),
            _ => None,
        }
    }
}

/// `cs` without a leading `+`.
pub open spec fn unsigned_digits(cs: Seq<char>) -> Seq<char> {
    if cs.len() > 0 && cs[0] == '+' {
        cs.drop_first()
    } else {
        cs
    }
}

/// A hexadecimal `u32` as `u32::from_str_radix(_, 16)` reads it: an optional
/// `+`, then at least one digit, with a value that fits.
pub open spec fn parse_hex_u32(cs: Seq<char>) -> Option<u32> {
    let ds = unsigned_digits(cs);
    if ds.len() == 0 {
        None
    } else {
        match hex_run_value(ds) {
            Some(v) => if v <= u32::MAX {
                Some(v as u32)
            } else {
                None
            },
            None => None,
        }
    }
}

proof fn lemma_hex_run_grows(cs: Seq<char>, i: int, j: int)
    requires
        0 <= i <= j <= cs.len(),
        hex_run_value(cs.take(i)) is Some,
    ensures
        hex_run_value(cs.take(j)) is None || hex_run_value(cs.take(j))->0 >= hex_run_value(cs.take(i))->0,
    decreases j - i,
{
    if j > i {
        lemma_hex_run_grows(cs, i, j - 1);
        assert(cs.take(j).drop_last() =~= cs.take(j - 1));
    }
}

proof fn lemma_hex_run_none(cs: Seq<char>, i: int, j: int)
    requires
        0 <= i <= j <= cs.len(),
        hex_run_value(cs.take(i)) is None,
    ensures
        hex_run_value(cs.take(j)) is None,
    decreases j - i,
{
    if j > i {
        lemma_hex_run_none(cs, i, j - 1);
        assert(cs.take(j).drop_last() =~= cs.take(j - 1));
    }
}

fn hex_digit(c: char) -> (r: Option<u32>)
    ensures
        match hex_digit_value(c) {
            Some(d) => r == Some(d as u32),
            None => r is None,
        },
{
    if '0' <= c && c <= '9' {
        Some(c as u32 - 48)
    } else if 'a' <= c && c <= 'f' {
        Some(c as u32 - 87)
    } else if 'A' <= c && c <= 'F' {
        Some(c as u32 - 55)
    } else {
        None
    }
}

/// Reads the hexadecimal number in `cs` from position `from` on.
pub fn parse_hex(cs: &Vec<char>, from: usize) -> (r: Option<u32>)
    requires
        from <= cs@.len(),
    ensures
        r == parse_hex_u32(cs@.skip(from as int)),
{
    let ghost all = cs@.skip(from as int);
    let mut i = from;
    if i < cs.len() && cs[i] == '+' {
        i += 1;
    }
    let ghost ds = cs@.skip(i as int);
    assert(ds =~= unsigned_digits(all));
    if i == cs.len() {
        return None;
    }
    let start = i;
    let mut acc: u64 = 0;
    while i < cs.len()
        invariant
            start <= i <= cs@.len(),
            start < cs@.len(),
            ds == cs@.skip(start as int),
            ds == unsigned_digits(all),
            all == cs@.skip(from as int),
            hex_run_value(ds.take(i - start)) == Some(acc as nat),
            acc <= u32::MAX,
        decreases cs@.len() - i,
    {
        let d = match hex_digit(cs[i]) {
            Some(d) => d,
            None => {
                proof {
                    let k = i - start;
                    assert(ds.take(k + 1).drop_last() =~= ds.take(k));
                    assert(ds.take(k + 1).last() == cs@[i as int]);
                    lemma_hex_run_none(ds, k + 1, ds.len() as int);
                    assert(ds.take(ds.len() as int) =~= ds);
                    assert(hex_run_value(ds) is None);
                    assert(parse_hex_u32(all) is None);
                }
                return None;
            },
        };
        proof {
            let k = i - start;
            assert(ds.take(k + 1).drop_last() =~= ds.take(k));
            assert(ds.take(k + 1).last() == cs@[i as int]);
        }
        let next = acc * 16 + d as u64;
        assert(hex_run_value(ds.take(i - start + 1)) == Some(next as nat));
        if next > 0xFFFF_FFFF {
            proof {
                lemma_hex_run_grows(ds, i - start + 1, ds.len() as int);
                assert(ds.take(ds.len() as int) =~= ds);
                assert(hex_run_value(ds) is None || hex_run_value(ds)->0 > u32::MAX);
                assert(parse_hex_u32(all) is None);
            }
            return None;
        }
        acc = next;
        i += 1;
    }
    assert(ds.take(i - start) =~= ds);
    Some(acc as u32)
}

/// Whether `t` opens with the reference prefix `@res/0x`.
pub open spec fn is_reference(t: Seq<char>) -> bool {
    t.len() >= 7 && t.take(7) == "@res/0x"@
}

/// The resource id a rendered reference names, if it is one.
pub open spec fn reference_id(t: Seq<char>) -> Option<u32> {
    if is_reference(t) {
        parse_hex_u32(t.skip(7))
    } else {
        None
    }
}

/// A value after at most `n` substitutions of a reference by the value it
/// names in `packages`. A value that is not a reference, or names nothing, is
/// kept.
pub open spec fn resolve_in(v: Option<Seq<char>>, packages: Map<u32, PackageView>, n: nat) -> Option<Seq<char>>
    decreases n,
{
    if n == 0 {
        v
    } else {
        match v {
            None => None,
            Some(t) => match reference_id(t) {
                None => v,
                Some(id) => match lookup(packages, id) {
                    None => v,
                    Some(u) => resolve_in(Some(u), packages, (n - 1) as nat),
                },
            },
        }
    }
}

/// A value resolved through the table where one is given, else kept.
pub open spec fn resolve_spec(v: Option<Seq<char>>, packages: Option<Map<u32, PackageView>>) -> Option<Seq<char>> {
    match packages {
        None => v,
        Some(p) => resolve_in(v, p, MAX_SUBSTITUTIONS as nat),
    }
}

/// The packages of the table, where one is given.
pub open spec fn packages_of(arsc: Option<&Arsc>) -> Option<Map<u32, PackageView>> {
    match arsc {
        Some(a) => Some(a.packages_view()),
        None => None,
    }
}

fn reference_of(t: &String) -> (r: Option<u32>)
    ensures
        r == reference_id(t@),
{
    let cs = chars_of(t.as_str());
    assert(cs@ == t@);
    let prefix = chars_of("@res/0x");
    if cs.len() < prefix.len() {
        proof {
            reveal_strlit("@res/0x");
        }
        return None;
    }
    let mut i: usize = 0;
    while i < prefix.len()
        invariant
            prefix@ == "@res/0x"@,
            prefix@.len() <= cs@.len(),
            i <= prefix@.len(),
            cs@.take(i as int) == prefix@.take(i as int),
            cs@ == t@,
        decreases prefix@.len() - i,
    {
        if cs[i] != prefix[i] {
            proof {
                reveal_strlit("@res/0x");
                assert(cs@.take(7)[i as int] == cs@[i as int]);
                assert(cs@.take(7)[i as int] != "@res/0x"@[i as int]);
                assert(cs@.take(7) != "@res/0x"@);
                assert(t@.take(7) == cs@.take(7));
                assert(!is_reference(t@));
            }
            return None;
        }
        assert(cs@.take(i + 1) =~= prefix@.take(i + 1));
        i += 1;
    }
    proof {
        reveal_strlit("@res/0x");
        assert(prefix@.take(7) =~= prefix@);
    }
    parse_hex(&cs, i)
}

/// Resolves a rendered value: while it is a reference (`@res/0x…`) that names
/// a value in `arsc`, it is replaced by that value, at most
/// `MAX_SUBSTITUTIONS` times. Without a table the value is kept.
pub fn resolve(arsc: Option<&Arsc>, v: Option<String>) -> (r: Option<String>)
    ensures
        r.deep_view() == resolve_spec(v.deep_view(), packages_of(arsc)),
{
    let a = match arsc {
        None => return v,
        Some(a) => a,
    };
    let mut cur = v;
    let mut left: u32 = MAX_SUBSTITUTIONS;
    while left > 0
        invariant
            resolve_spec(v.deep_view(), packages_of(arsc)) == resolve_in(cur.deep_view(), a.packages_view(), left as nat),
        decreases left,
    {
        let id = match &cur {
            None => return None,
            Some(t) => match reference_of(t) {
                None => return cur,
                Some(id) => id,
            },
        };
        match a.get_res_value(id) {
            None => return cur,
            Some(u) => {
                cur = Some(u);
            },
        }
        left -= 1;
    }
    cur
}

/// A resource id whose package the table lacks names no value.
pub proof fn lemma_unknown_package_is_absent(packages: Map<u32, PackageView>, res_id: u32)
    requires
        !packages.contains_key(crate::arsc_parser::package_of(res_id)),
    ensures
        lookup(packages, res_id) is None,
{
}

/// A reference to a resource that exists and does not itself open with
/// `@res/0x` resolves to that resource's value, which does not open with
/// `@res/0x` either.
pub proof fn lemma_reference_to_plain_value_resolves(t: Seq<char>, packages: Map<u32, PackageView>)
    requires
        reference_id(t) is Some,
        lookup(packages, reference_id(t)->0) is Some,
        !is_reference(lookup(packages, reference_id(t)->0)->0),
    ensures
        resolve_in(Some(t), packages, MAX_SUBSTITUTIONS as nat) == lookup(packages, reference_id(t)->0),
        !is_reference(resolve_in(Some(t), packages, MAX_SUBSTITUTIONS as nat)->0),
{
    let u = lookup(packages, reference_id(t)->0);
    assert(resolve_in(Some(t), packages, 4) == resolve_in(u, packages, 3));
    assert(resolve_in(u, packages, 3) == u);
}

} // verus!
