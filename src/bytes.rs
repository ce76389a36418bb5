//! Little-endian scalar reads at a position of a byte slice.

use vstd::prelude::*;

verus! {

/// Whether `n` bytes are available at position `i` of `s`.
pub open spec fn fits(s: Seq<u8>, i: int, n: int) -> bool {
    0 <= i && 0 <= n && i + n <= s.len()
}

/// The little-endian 16-bit value at position `i`.
pub open spec fn le16(s: Seq<u8>, i: int) -> int {
    s[i] as int + 256 * s[i + 1] as int
}

/// The little-endian 32-bit value at position `i`.
pub open spec fn le32(s: Seq<u8>, i: int) -> int {
    le16(s, i) + 65536 * le16(s, i + 2)
}

/// Whether `n` bytes are available at `pos`.
pub fn available(b: &[u8], pos: usize, n: usize) -> (r: bool)
    ensures
        r == fits(b@, pos as int, n as int),
        b@.len() <= usize::MAX,
{
    pos <= b.len() && b.len() - pos >= n
}

/// Reads the byte at `pos`.
pub fn read_u8(b: &[u8], pos: usize) -> (r: Option<u8>)
    ensures
        r is Some <==> fits(b@, pos as int, 1),
        r is Some ==> r->0 == b@[pos as int],
{
    if pos < b.len() {
        Some(b[pos])
    } else {
        None
    }
}

/// Reads the little-endian `u16` at `pos`.
pub fn read_u16(b: &[u8], pos: usize) -> (r: Option<u16>)
    ensures
        r is Some <==> fits(b@, pos as int, 2),
        r is Some ==> r->0 as int == le16(b@, pos as int),
{
    if pos < b.len() && b.len() - pos >= 2 {
        let lo = b[pos] as u16;
        let hi = b[pos + 1] as u16;
        Some(lo + 256 * hi)
    } else {
        None
    }
}

/// Reads the little-endian `u32` at `pos`.
pub fn read_u32(b: &[u8], pos: usize) -> (r: Option<u32>)
    ensures
        r is Some <==> fits(b@, pos as int, 4),
        r is Some ==> r->0 as int == le32(b@, pos as int),
{
    if pos < b.len() && b.len() - pos >= 4 {
        let lo = b[pos] as u32 + 256 * (b[pos + 1] as u32);
        let hi = b[pos + 2] as u32 + 256 * (b[pos + 3] as u32);
        Some(lo + 65536 * hi)
    } else {
        None
    }
}

/// `pos + delta`, or `None` where the sum leaves `usize`.
pub fn advance(pos: usize, delta: u32) -> (r: Option<usize>)
    ensures
        r is Some <==> pos as int + delta as int <= usize::MAX,
        r is Some ==> r->0 as int == pos as int + delta as int,
{
    pos.checked_add(delta as usize)
}

/// The `n` little-endian 32-bit values at position `p`.
pub open spec fn words32(s: Seq<u8>, p: int, n: int) -> Seq<u32> {
    Seq::new(n as nat, |k: int| le32(s, p + 4 * k) as u32)
}

/// Reads `n` little-endian `u32` values at `pos`.
pub fn take_u32s(b: &[u8], pos: usize, n: usize) -> (v: Vec<u32>)
    requires
        fits(b@, pos as int, 4 * n),
    ensures
        v@ == words32(b@, pos as int, n as int),
{
    let len = b.len();
    let ghost want = words32(b@, pos as int, n as int);
    let mut v: Vec<u32> = Vec::new();
    let mut i: usize = 0;
    while i < n
        invariant
            len == b@.len(),
            pos + 4 * n <= len,
            i <= n,
            want == words32(b@, pos as int, n as int),
            v@ == want.take(i as int),
        decreases n - i,
    {
        let w = match read_u32(b, pos + 4 * i) {
            Some(w) => w,
            None => 0,
        };
        v.push(w);
        assert(v@ =~= want.take(i + 1));
        i += 1;
    }
    assert(want.take(n as int) =~= want);
    v
}

} // verus!
