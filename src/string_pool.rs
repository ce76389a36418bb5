//! String pools: an indexed sequence of strings in UTF-8 or UTF-16 form.

use vstd::prelude::*;
use crate::bytes::{available, fits, le16, le32, read_u16, read_u32};
use crate::chunks::{header_at, ChunkHeader, ParseError};
use crate::text::{utf16_lossy, utf16_lossy_text, utf8_lossy, utf8_lossy_of};

verus! {

/// The header of a string-pool chunk.
#[derive(Clone, Copy, Debug, PartialEq, Eq, Structural)]
pub struct StringPoolChunk {
    pub header: ChunkHeader,
    pub string_count: u32,
    pub style_count: u32,
    pub flags: u32,
    /// Whether the strings are UTF-8 encoded (flag bit 0x100); else UTF-16.
    pub is_utf8: bool,
    /// Start of the string data, from the start of the chunk.
    pub strings_start: u32,
    pub styles_start: u32,
}

/// Whether the UTF-8 flag (0x100) is set in `flags`.
pub open spec fn utf8_flag(flags: u32) -> bool {
    (flags as int / 256) % 2 == 1
}

/// The string-pool header at position `i`.
pub open spec fn pool_header_at(s: Seq<u8>, i: int) -> StringPoolChunk {
    StringPoolChunk {
        header: header_at(s, i),
        string_count: le32(s, i + 8) as u32,
        style_count: le32(s, i + 12) as u32,
        flags: le32(s, i + 16) as u32,
        is_utf8: utf8_flag(le32(s, i + 16) as u32),
        strings_start: le32(s, i + 20) as u32,
        styles_start: le32(s, i + 24) as u32,
    }
}

/// Size of a string-pool header.
pub const POOL_HEADER_SIZE: usize = 28;

/// Reads the string-pool header at `pos`.
pub fn parse_string_pool_header(b: &[u8], pos: usize) -> (r: Option<StringPoolChunk>)
    ensures
        r is Some <==> fits(b@, pos as int, 28),
        r is Some ==> r->0 == pool_header_at(b@, pos as int),
{
    if !available(b, pos, POOL_HEADER_SIZE) {
        return None;
    }
    let header = ChunkHeader::parse(b, pos)?;
    let string_count = read_u32(b, pos + 8)?;
    let style_count = read_u32(b, pos + 12)?;
    let flags = read_u32(b, pos + 16)?;
    let strings_start = read_u32(b, pos + 20)?;
    let styles_start = read_u32(b, pos + 24)?;
    Some(StringPoolChunk {
        header,
        string_count,
        style_count,
        flags,
        is_utf8: (flags / 256) % 2 == 1,
        strings_start,
        styles_start,
    })
}

/// Position of the first `zero` in `x` at or after `i`, or the length of `x`.
pub open spec fn nul_pos<T>(x: Seq<T>, zero: T, i: int) -> int
    decreases x.len() - i,
{
    if i < 0 || i >= x.len() {
        x.len() as int
    } else if x[i] == zero {
        i
    } else {
        nul_pos(x, zero, i + 1)
    }
}

/// `x` cut before its first `zero`.
pub open spec fn before_nul<T>(x: Seq<T>, zero: T) -> Seq<T> {
    x.take(nul_pos(x, zero, 0))
}

/// The `n` little-endian 16-bit code units at position `p`.
pub open spec fn units16(s: Seq<u8>, p: int, n: int) -> Seq<u16> {
    Seq::new(n as nat, |k: int| le16(s, p + 2 * k) as u16)
}

/// The string of a pool entry at position `p`, or `None` where its declared
/// length runs past the end of `s`.
///
/// A UTF-8 entry has two one-byte lengths (UTF-16 units, then bytes); a UTF-16
/// entry has one 16-bit length in code units. Text stops at the first NUL.
pub open spec fn entry_text(s: Seq<u8>, p: int, utf8: bool) -> Option<Seq<char>> {
    if !fits(s, p, 2) {
        None
    } else if utf8 {
        let n = s[p + 1] as int;
        if fits(s, p + 2, n) {
            Some(utf8_lossy_of(before_nul(s.subrange(p + 2, p + 2 + n), 0u8)))
        } else {
            None
        }
    } else {
        let n = le16(s, p);
        if fits(s, p + 2, 2 * n) {
            Some(utf16_lossy_text(before_nul(units16(s, p + 2, n), 0u16)))
        } else {
            None
        }
    }
}

/// Reads `n` 16-bit code units at `pos`, stopping before the first NUL.
pub fn units_before_nul(b: &[u8], pos: usize, n: usize) -> (v: Vec<u16>)
    requires
        fits(b@, pos as int, 2 * n),
    ensures
        v@ == before_nul(units16(b@, pos as int, n as int), 0u16),
{
    let ghost whole = units16(b@, pos as int, n as int);
    let len = b.len();
    let mut v: Vec<u16> = Vec::new();
    let mut k: usize = 0;
    while k < n
        invariant
            len == b@.len(),
            pos + 2 * n <= b@.len(),
            whole == units16(b@, pos as int, n as int),
            k <= n,
            v@ == whole.take(k as int),
            nul_pos(whole, 0u16, 0) == nul_pos(whole, 0u16, k as int),
        ensures
            k >= n || whole[k as int] == 0u16,
        decreases n - k,
    {
        let c = match read_u16(b, pos + 2 * k) {
            Some(c) => c,
            None => 0,
        };
        if c == 0 {
            break;
        }
        v.push(c);
        assert(v@ == whole.take(k + 1));
        k += 1;
    }
    assert(nul_pos(whole, 0u16, k as int) == k);
    v
}

/// Copies the `n` bytes at `pos`.
pub fn copy_bytes(b: &[u8], pos: usize, n: usize) -> (v: Vec<u8>)
    requires
        fits(b@, pos as int, n as int),
    ensures
        v@ == b@.subrange(pos as int, pos + n),
{
    let len = b.len();
    let mut v: Vec<u8> = Vec::new();
    let mut k: usize = 0;
    while k < n
        invariant
            len == b@.len(),
            pos + n <= b@.len(),
            k <= n,
            v@ == b@.subrange(pos as int, pos + k),
        decreases n - k,
    {
        v.push(b[pos + k]);
        assert(v@ == b@.subrange(pos as int, pos + k + 1));
        k += 1;
    }
    v
}

/// Reads the pool entry at `pos`; `None` where its declared length runs past
/// the end of `b`.
pub fn extract_string(b: &[u8], pos: usize, utf8: bool) -> (r: Option<String>)
    ensures
        match r {
            Some(t) => entry_text(b@, pos as int, utf8) == Some(t@),
            None => entry_text(b@, pos as int, utf8) is None,
        },
{
    if !available(b, pos, 2) {
        return None;
    }
    let start = pos + 2;
    if utf8 {
        let n = b[pos + 1] as usize;
        if !available(b, start, n) {
            return None;
        }
        let ghost whole = b@.subrange(start as int, start + n);
        let mut v: Vec<u8> = Vec::new();
        let mut k: usize = 0;
        while k < n
            invariant
                start + n <= b@.len(),
                whole == b@.subrange(start as int, start + n),
                k <= n,
                v@ == whole.take(k as int),
                nul_pos(whole, 0u8, 0) == nul_pos(whole, 0u8, k as int),
                b@.len() <= usize::MAX,
            ensures
                k >= n || whole[k as int] == 0u8,
            decreases n - k,
        {
            let c = b[start + k];
            if c == 0 {
                break;
            }
            v.push(c);
            assert(v@ == whole.take(k + 1));
            k += 1;
        }
        assert(nul_pos(whole, 0u8, k as int) == k);
        assert(v@ == before_nul(whole, 0u8));
        Some(utf8_lossy(v.as_slice()))
    } else {
        let n = read_u16(b, pos)? as usize;
        if !available(b, start, 2 * n) {
            return None;
        }
        let v = units_before_nul(b, start, n);
        Some(utf16_lossy(v.as_slice()))
    }
}

/// The strings of a pool from its `k`-th offset on: decoding stops at the first
/// offset past the end of the data, or entry whose length runs past it.
///
/// `data` is where the string data starts, `offsets` where the offset table
/// starts, `count` the number of offsets.
pub open spec fn pool_from(s: Seq<u8>, data: int, offsets: int, count: int, utf8: bool, k: int) -> Seq<Seq<char>>
    decreases count - k,
{
    if k < 0 || k >= count {
        Seq::empty()
    } else {
        let p = data + le32(s, offsets + 4 * k);
        if p >= s.len() {
            Seq::empty()
        } else {
            match entry_text(s, p, utf8) {
                None => Seq::empty(),
                Some(t) => seq![t] + pool_from(s, data, offsets, count, utf8, k + 1),
            }
        }
    }
}

/// The strings of the pool chunk at `base`, or the error that stops it: a
/// header or offset table that does not fit.
pub open spec fn pool_strings(s: Seq<u8>, base: int) -> Result<Seq<Seq<char>>, ParseError> {
    if !fits(s, base, 28) {
        Err(ParseError::StringPoolHeader)
    } else {
        let h = pool_header_at(s, base);
        if !fits(s, base + 28, 4 * h.string_count) {
            Err(ParseError::StringPool)
        } else {
            Ok(pool_from(s, base + h.strings_start, base + 28, h.string_count as int, h.is_utf8, 0))
        }
    }
}

/// Decodes the entries of a pool whose offset table is at `offsets`.
pub fn read_strings(b: &[u8], data: usize, offsets: usize, count: u32, utf8: bool) -> (r: Vec<String>)
    requires
        fits(b@, offsets as int, 4 * count),
    ensures
        r.deep_view() == pool_from(b@, data as int, offsets as int, count as int, utf8, 0),
{
    let len = b.len();
    let mut strings: Vec<String> = Vec::new();
    let mut k: u32 = 0;
    while k < count
        invariant
            len == b@.len(),
            fits(b@, offsets as int, 4 * count),
            k <= count,
            strings.deep_view() + pool_from(b@, data as int, offsets as int, count as int, utf8, k as int)
                == pool_from(b@, data as int, offsets as int, count as int, utf8, 0),
        ensures
            pool_from(b@, data as int, offsets as int, count as int, utf8, k as int)
                =~= Seq::<Seq<char>>::empty(),
        decreases count - k,
    {
        let off = match read_u32(b, offsets + 4 * (k as usize)) {
            Some(o) => o,
            None => 0,
        };
        if data >= b.len() || off as usize >= b.len() - data {
            assert(pool_from(b@, data as int, offsets as int, count as int, utf8, k as int)
                =~= Seq::empty());
            break;
        }
        match extract_string(b, data + off as usize, utf8) {
            Some(t) => {
                let ghost before = strings.deep_view();
                strings.push(t);
                assert(strings.deep_view() =~= before.push(t@));
                assert(before + pool_from(b@, data as int, offsets as int, count as int, utf8, k as int)
                    =~= strings.deep_view() + pool_from(b@, data as int, offsets as int, count as int, utf8, k + 1));
            },
            None => {
                assert(pool_from(b@, data as int, offsets as int, count as int, utf8, k as int)
                    =~= Seq::empty());
                break;
            },
        }
        k += 1;
    }
    assert(strings.deep_view() + Seq::<Seq<char>>::empty() =~= strings.deep_view());
    strings
}

/// Decodes the string-pool chunk at `base`. A truncated entry ends the pool
/// without error; a header or offset table that does not fit is an error.
pub fn string_table(b: &[u8], base: usize) -> (r: Result<Vec<String>, ParseError>)
    ensures
        match r {
            Ok(v) => pool_strings(b@, base as int) == Ok::<_, ParseError>(v.deep_view()),
            Err(e) => pool_strings(b@, base as int) == Err::<Seq<Seq<char>>, _>(e),
        },
{
    let len = b.len();
    let h = match parse_string_pool_header(b, base) {
        Some(h) => h,
        None => return Err(ParseError::StringPoolHeader),
    };
    let offsets = base + POOL_HEADER_SIZE;
    if (b.len() - offsets) / 4 < h.string_count as usize {
        return Err(ParseError::StringPool);
    }
    let data = match crate::bytes::advance(base, h.strings_start) {
        Some(d) => d,
        None => usize::MAX,
    };
    Ok(read_strings(b, data, offsets, h.string_count, h.is_utf8))
}

/// The string of the `k`-th offset of a pool, or `None` where the offset is
/// past the end of the data or the entry's declared length runs past it.
pub open spec fn offset_entry(s: Seq<u8>, data: int, offsets: int, utf8: bool, k: int) -> Option<Seq<char>> {
    let p = data + le32(s, offsets + 4 * k);
    if p >= s.len() {
        None
    } else {
        entry_text(s, p, utf8)
    }
}

proof fn lemma_pool_prefix(s: Seq<u8>, data: int, offsets: int, count: int, utf8: bool, k: int, i: int)
    requires
        0 <= i <= k < count,
        forall|j: int| 0 <= j < k ==> #[trigger] offset_entry(s, data, offsets, utf8, j) is Some,
        offset_entry(s, data, offsets, utf8, k) is None,
    ensures
        pool_from(s, data, offsets, count, utf8, i) == Seq::new((k - i) as nat, |j: int| offset_entry(s, data, offsets, utf8, i + j)->0),
    decreases k - i,
{
    if i < k {
        lemma_pool_prefix(s, data, offsets, count, utf8, k, i + 1);
        assert(offset_entry(s, data, offsets, utf8, i) is Some);
        assert(pool_from(s, data, offsets, count, utf8, i) =~= Seq::new((k - i) as nat, |j: int| offset_entry(s, data, offsets, utf8, i + j)->0));
    } else {
        assert(pool_from(s, data, offsets, count, utf8, i) =~= Seq::<Seq<char>>::empty());
    }
}

/// A string-pool entry whose declared length runs past the end of the input
/// ends the pool without error: the pool holds the strings before it.
pub proof fn lemma_truncated_entry_ends_pool(s: Seq<u8>, base: int, k: int)
    requires
        fits(s, base, 28),
        fits(s, base + 28, 4 * pool_header_at(s, base).string_count),
        0 <= k < pool_header_at(s, base).string_count,
        forall|j: int| 0 <= j < k ==> #[trigger] offset_entry(s, base + pool_header_at(s, base).strings_start, base + 28, pool_header_at(s, base).is_utf8, j) is Some,
        offset_entry(s, base + pool_header_at(s, base).strings_start, base + 28, pool_header_at(s, base).is_utf8, k) is None,
    ensures
        pool_strings(s, base) == Ok::<_, ParseError>(Seq::new(k as nat, |j: int| offset_entry(s, base + pool_header_at(s, base).strings_start, base + 28, pool_header_at(s, base).is_utf8, j)->0)),
{
    let h = pool_header_at(s, base);
    lemma_pool_prefix(s, base + h.strings_start, base + 28, h.string_count as int, h.is_utf8, k, 0);
    assert(Seq::new((k - 0) as nat, |j: int| offset_entry(s, base + h.strings_start, base + 28, h.is_utf8, 0 + j)->0)
        =~= Seq::new(k as nat, |j: int| offset_entry(s, base + h.strings_start, base + 28, h.is_utf8, j)->0));
}

} // verus!
