//! The resource table (`resources.arsc`): packages, their type and key names,
//! and the rendered values of their entries.

use vstd::prelude::*;
use std::collections::HashMap;
use crate::bytes::{advance, available, fits, le16, le32, read_u16, read_u32, read_u8, take_u32s, words32};
use crate::chunks::{
    header_at, res_value_at, type_spec_at, ChunkHeader, ChunkType, ParseError, ResValue,
    TableEntry, TableHeader, TableMap, TableMapEntry, TypeSpecChunkHeader,
};
use crate::render::render;
use crate::string_pool::{
    before_nul, copy_bytes, pool_strings, string_table, units16, units_before_nul,
};
use crate::text::{utf16_lossy, utf16_lossy_text};

verus! {

/// The rendered values of one entry: one for a simple entry, one per mapping
/// for a complex entry, none for an absent entry.
pub type EntryView = Seq<Option<Seq<char>>>;

/// A type id and the entries of one type chunk.
pub type TypeView = (u32, Seq<EntryView>);

/// A type-spec header and its configuration masks.
pub type TypeSpecView = (TypeSpecChunkHeader, Seq<u32>);

/// What a decoded package holds.
pub struct PackageView {
    pub name: Seq<char>,
    pub type_strings: Seq<Seq<char>>,
    pub key_strings: Seq<Seq<char>>,
    pub type_spec: Seq<TypeSpecView>,
    pub types: Seq<TypeView>,
}

/// Flag of a complex table entry, one holding name/value mappings.
pub const COMPLEX: u16 = 0x0001;

/// Entry offset that marks an absent entry.
pub const NO_ENTRY: u32 = 0xFFFF_FFFF;

// ---------------------------------------------------------------------------
// The decoding, stated over the input bytes.

/// The values of the table entry at `q`: a complex entry is followed by a
/// parent and a count, then `count` 12-byte mappings whose value records are
/// rendered; a simple entry by one value record.
pub open spec fn entry_values(s: Seq<u8>, q: int, strings: Seq<Seq<char>>) -> Result<EntryView, ParseError> {
    if !fits(s, q, 16) {
        Err(ParseError::TableEntry)
    } else if le16(s, q + 2) % 2 == 1 {
        let count = le32(s, q + 12);
        if !fits(s, q + 16, 12 * count) {
            Err(ParseError::TableEntry)
        } else {
            Ok(Seq::new(count as nat, |i: int| render(res_value_at(s, q + 16 + 12 * i + 4), strings)))
        }
    } else {
        Ok(seq![render(res_value_at(s, q + 8), strings)])
    }
}

/// `acc` followed by the entries of `r`, or the error of `r`.
pub open spec fn after<T>(acc: Seq<T>, r: Result<Seq<T>, ParseError>) -> Result<Seq<T>, ParseError> {
    match r {
        Ok(rest) => Ok(acc + rest),
        Err(e) => Err(e),
    }
}

/// The entries of a type chunk from the `k`-th offset on. Offsets are read at
/// `offsets`; entries lie at `base` plus their offset; `NO_ENTRY` is an absent
/// entry.
pub open spec fn entries_from(s: Seq<u8>, offsets: int, count: int, base: int, strings: Seq<Seq<char>>, k: int) -> Result<Seq<EntryView>, ParseError>
    decreases count - k,
{
    if k < 0 || k >= count {
        Ok(Seq::empty())
    } else {
        let off = le32(s, offsets + 4 * k);
        let e = if off == NO_ENTRY {
            Ok(Seq::empty())
        } else {
            entry_values(s, base + off, strings)
        };
        match e {
            Err(x) => Err(x),
            Ok(v) => after(seq![v], entries_from(s, offsets, count, base, strings, k + 1)),
        }
    }
}

/// Whether a type chunk header, its configuration included, fits at `p`.
pub open spec fn type_header_fits(s: Seq<u8>, p: int) -> bool {
    fits(s, p, 24) && le32(s, p + 20) >= 4 && fits(s, p + 20, le32(s, p + 20))
}

/// The type chunk at `p`: `None` for type id 0, which is skipped.
pub open spec fn type_chunk(s: Seq<u8>, p: int, strings: Seq<Seq<char>>) -> Result<Option<TypeView>, ParseError> {
    if !type_header_fits(s, p) {
        Err(ParseError::TypeChunkHeader)
    } else if s[p + 8] == 0 {
        Ok(None)
    } else {
        let count = le32(s, p + 12);
        let offsets = p + 20 + le32(s, p + 20);
        if !fits(s, offsets, 4 * count) {
            Err(ParseError::TypeChunkEntries)
        } else {
            match entries_from(s, offsets, count, p + le32(s, p + 16), strings, 0) {
                Err(e) => Err(e),
                Ok(entries) => Ok(Some((s[p + 8] as u32, entries))),
            }
        }
    }
}

/// The type-spec chunk at `p` with its configuration masks.
pub open spec fn type_spec_chunk(s: Seq<u8>, p: int) -> Result<TypeSpecView, ParseError> {
    if !fits(s, p, 16) || !fits(s, p + 16, 4 * le32(s, p + 12)) {
        Err(ParseError::TypeSpecHeader)
    } else {
        Ok((type_spec_at(s, p), words32(s, p + 16, le32(s, p + 12))))
    }
}

/// The chunks that follow a package's name pools, from `p` on, added to the
/// type-spec list `specs` and the type list `types`. The walk ends after the
/// chunk whose size reaches the end of the input (or is 0).
pub open spec fn type_stream(s: Seq<u8>, p: int, strings: Seq<Seq<char>>, specs: Seq<TypeSpecView>, types: Seq<TypeView>) -> Result<(Seq<TypeSpecView>, Seq<TypeView>), ParseError>
    decreases s.len() - p,
{
    if !fits(s, p, 8) {
        Err(ParseError::ChunkHeader)
    } else {
        let h = header_at(s, p);
        let step: Result<(Seq<TypeSpecView>, Seq<TypeView>), ParseError> = if h.typ == ChunkType::TABLE_SPEC {
            match type_spec_chunk(s, p) {
                Err(e) => Err(e),
                Ok(t) => Ok((specs.push(t), types)),
            }
        } else if h.typ == ChunkType::TABLE_TYPE {
            match type_chunk(s, p, strings) {
                Err(e) => Err(e),
                Ok(None) => Ok((specs, types)),
                Ok(Some(t)) => Ok((specs, types.push(t))),
            }
        } else {
            Ok((specs, types))
        };
        match step {
            Err(e) => Err(e),
            Ok((specs2, types2)) => if h.chunk_size == 0 || h.chunk_size >= s.len() - p {
                Ok((specs2, types2))
            } else {
                type_stream(s, p + h.chunk_size, strings, specs2, types2)
            },
        }
    }
}

/// Size of a package chunk header.
pub const PACKAGE_HEADER_SIZE: usize = 284;

/// The package name at `p`: 128 UTF-16 code units, cut at the first NUL.
pub open spec fn package_name_at(s: Seq<u8>, p: int) -> Seq<char> {
    utf16_lossy_text(before_nul(units16(s, p + 12, 128), 0u16))
}

/// The package chunk at `pos` with its id. Its name pools lie at the offsets
/// its header gives from `pos`; its type chunks start after its header and
/// both pools.
pub open spec fn package_at(s: Seq<u8>, pos: int, strings: Seq<Seq<char>>) -> Result<(u32, PackageView), ParseError> {
    if !fits(s, pos, 284) {
        Err(ParseError::PackageHeader)
    } else {
        let tp = pos + le32(s, pos + 268);
        let kp = pos + le32(s, pos + 276);
        match named_pool(s, tp, ParseError::TypeStrings) {
            Err(e) => Err(e),
            Ok(type_strings) => match named_pool(s, kp, ParseError::KeyStrings) {
                Err(e) => Err(e),
                Ok(key_strings) => {
                    let start = pos + header_at(s, tp).chunk_size + header_at(s, kp).chunk_size
                        + header_at(s, pos).header_size;
                    match type_stream(s, start, strings, Seq::empty(), Seq::empty()) {
                        Err(e) => Err(e),
                        Ok((specs, types)) => Ok((
                            le32(s, pos + 8) as u32,
                            PackageView {
                                name: package_name_at(s, pos),
                                type_strings,
                                key_strings,
                                type_spec: specs,
                                types,
                            },
                        )),
                    }
                },
            },
        }
    }
}

/// The strings of a package's name pool at `p`; any failure is `err`.
pub open spec fn named_pool(s: Seq<u8>, p: int, err: ParseError) -> Result<Seq<Seq<char>>, ParseError> {
    if !fits(s, p, 8) {
        Err(err)
    } else {
        match pool_strings(s, p) {
            Err(_) => Err(err),
            Ok(v) => Ok(v),
        }
    }
}

/// The table's chunks from `pos` on, over the global string pool `strings`
/// and the packages decoded so far. A string pool replaces the global pool; a
/// package is stored under its id; other chunks are skipped by their size.
pub open spec fn table_from(s: Seq<u8>, pos: int, strings: Seq<Seq<char>>, packages: Map<u32, PackageView>) -> Result<(Seq<Seq<char>>, Map<u32, PackageView>), ParseError>
    decreases s.len() - pos,
{
    if pos < 0 || pos >= s.len() {
        Ok((strings, packages))
    } else if !fits(s, pos, 8) {
        Err(ParseError::ChunkHeader)
    } else {
        let h = header_at(s, pos);
        let step: Result<(Seq<Seq<char>>, Map<u32, PackageView>), ParseError> = if h.typ == ChunkType::STRING_POOL {
            match pool_strings(s, pos) {
                Err(_) => Err(ParseError::StringPool),
                Ok(st) => Ok((st, packages)),
            }
        } else if h.typ == ChunkType::TABLE_PACKAGE {
            match package_at(s, pos, strings) {
                Err(e) => Err(e),
                Ok((id, p)) => Ok((strings, packages.insert(id, p))),
            }
        } else {
            Ok((strings, packages))
        };
        match step {
            Err(e) => Err(e),
            Ok((strings2, packages2)) => if h.chunk_size == 0 || pos + h.chunk_size >= s.len() {
                Ok((strings2, packages2))
            } else {
                table_from(s, pos + h.chunk_size, strings2, packages2)
            },
        }
    }
}

/// The decoded table: its global string pool and its packages by id. The
/// chunks start after the 12-byte table header; the declared package count is
/// not used.
pub open spec fn decode_table(s: Seq<u8>) -> Result<(Seq<Seq<char>>, Map<u32, PackageView>), ParseError> {
    if !fits(s, 0, 12) {
        Err(ParseError::ChunkHeader)
    } else {
        table_from(s, 12, Seq::empty(), Map::empty())
    }
}

// ---------------------------------------------------------------------------
// The decoder.

/// A decoded package.
#[derive(Clone, Debug)]
pub struct Package {
    /// Symbolic name of the package.
    pub name: String,
    /// Names of the resource types; type id `t` names `type_strings[t - 1]`.
    pub type_strings: Vec<String>,
    /// Names of the resource entries.
    pub key_strings: Vec<String>,
    /// Type-spec headers with their configuration masks.
    pub type_spec: Vec<(TypeSpecChunkHeader, Vec<u32>)>,
    /// For each type chunk, its type id and the values of its entries by index.
    pub types: Vec<(u32, Vec<Vec<Option<String>>>)>,
}

/// The type-spec list as headers and mask sequences.
pub open spec fn specs_view(v: Seq<(TypeSpecChunkHeader, Vec<u32>)>) -> Seq<TypeSpecView> {
    v.map_values(|x: (TypeSpecChunkHeader, Vec<u32>)| (x.0, x.1@))
}

impl View for Package {
    type V = PackageView;

    open spec fn view(&self) -> PackageView {
        PackageView {
            name: self.name@,
            type_strings: self.type_strings.deep_view(),
            key_strings: self.key_strings.deep_view(),
            type_spec: specs_view(self.type_spec@),
            types: self.types.deep_view(),
        }
    }
}

fn decode_entry(b: &[u8], q: usize, strings: &Vec<String>) -> (r: Result<Vec<Option<String>>, ParseError>)
    ensures
        match r {
            Ok(v) => entry_values(b@, q as int, strings.deep_view()) == Ok::<_, ParseError>(v.deep_view()),
            Err(e) => entry_values(b@, q as int, strings.deep_view()) == Err::<EntryView, _>(e),
        },
{
    let len = b.len();
    if !available(b, q, 16) {
        return Err(ParseError::TableEntry);
    }
    let entry = match TableEntry::parse(b, q) {
        Some(e) => e,
        None => return Err(ParseError::TableEntry),
    };
    let mut out: Vec<Option<String>> = Vec::new();
    if entry.flags % 2 == COMPLEX {
        let map_entry = match TableMapEntry::parse(b, q + 8) {
            Some(m) => m,
            None => return Err(ParseError::TableEntry),
        };
        let count = map_entry.count;
        let first = q + 16;
        if (len - first) / 12 < count as usize {
            return Err(ParseError::TableEntry);
        }
        let ghost want = Seq::new(count as nat, |i: int| render(res_value_at(b@, q + 16 + 12 * i + 4), strings.deep_view()));
        let mut i: u32 = 0;
        while i < count
            invariant
                len == b@.len(),
                first == q + 16,
                first + 12 * count <= len,
                i <= count,
                want == Seq::new(count as nat, |i: int| render(res_value_at(b@, q + 16 + 12 * i + 4), strings.deep_view())),
                out.deep_view() == want.take(i as int),
            decreases count - i,
        {
            let map = match TableMap::parse(b, first + 12 * (i as usize)) {
                Some(m) => m,
                None => return Err(ParseError::TableEntry),
            };
            let ghost before = out.deep_view();
            out.push(map.value.as_string(strings));
            assert(out.deep_view() =~= before.push(want[i as int]));
            assert(want.take(i + 1) =~= want.take(i as int).push(want[i as int]));
            i += 1;
        }
        assert(want.take(count as int) =~= want);
    } else {
        let v = match ResValue::parse(b, q + 8) {
            Some(v) => v,
            None => return Err(ParseError::TableEntry),
        };
        out.push(v.as_string(strings));
        assert(out.deep_view() =~= seq![render(res_value_at(b@, q + 8), strings.deep_view())]);
    }
    Ok(out)
}

fn decode_entries(b: &[u8], offsets: usize, count: u32, base: Option<usize>, Ghost(spec_base): Ghost<int>, strings: &Vec<String>) -> (r: Result<Vec<Vec<Option<String>>>, ParseError>)
    requires
        fits(b@, offsets as int, 4 * count),
        base is Some ==> spec_base == base->0,
        base is None ==> spec_base > usize::MAX,
    ensures
        ({
            match r {
                Ok(v) => entries_from(b@, offsets as int, count as int, spec_base, strings.deep_view(), 0)
                    == Ok::<_, ParseError>(v.deep_view()),
                Err(e) => entries_from(b@, offsets as int, count as int, spec_base, strings.deep_view(), 0)
                    == Err::<Seq<EntryView>, _>(e),
            }
        }),
{
    let len = b.len();
    let mut out: Vec<Vec<Option<String>>> = Vec::new();
    let mut k: u32 = 0;
    while k < count
        invariant
            len == b@.len(),
            fits(b@, offsets as int, 4 * count),
            k <= count,
            base is Some ==> spec_base == base->0,
            base is None ==> spec_base > usize::MAX,
            entries_from(b@, offsets as int, count as int, spec_base, strings.deep_view(), 0)
                == after(out.deep_view(), entries_from(b@, offsets as int, count as int, spec_base, strings.deep_view(), k as int)),
        decreases count - k,
    {
        let ghost dv = strings.deep_view();
        let off = match read_u32(b, offsets + 4 * (k as usize)) {
            Some(o) => o,
            None => return Err(ParseError::TableEntry),
        };
        let entry: Vec<Option<String>> = if off == NO_ENTRY {
            Vec::new()
        } else {
            let q = match base {
                None => None,
                Some(x) => advance(x, off),
            };
            match q {
                None => {
                    assert(!fits(b@, spec_base + off, 16));
                    return Err(ParseError::TableEntry);
                },
                Some(q) => match decode_entry(b, q, strings) {
                    Ok(v) => v,
                    Err(e) => return Err(e),
                },
            }
        };
        let ghost before = out.deep_view();
        let ghost entry_dv = entry.deep_view();
        assert(off == NO_ENTRY ==> entry_dv =~= Seq::<Option<Seq<char>>>::empty());
        out.push(entry);
        assert(out.deep_view() =~= before + seq![entry_dv]);
        proof {
            let rest = entries_from(b@, offsets as int, count as int, spec_base, dv, k + 1);
            assert(entries_from(b@, offsets as int, count as int, spec_base, dv, k as int)
                == after(seq![entry_dv], rest));
            match rest {
                Ok(r) => {
                    assert(before + (seq![entry_dv] + r) =~= out.deep_view() + r);
                },
                Err(_) => {},
            }
        }
        k += 1;
    }
    assert(out.deep_view() + Seq::<EntryView>::empty() =~= out.deep_view());
    Ok(out)
}

/// The configuration a type chunk applies to; its content is kept as bytes.
#[derive(Clone, Debug, PartialEq, Eq)]
pub struct TypeChunkConfig {
    /// Size of the configuration in bytes, this field included.
    pub structure_size: u32,
    /// The configuration bytes after the size field.
    pub data: Vec<u8>,
}

impl TypeChunkConfig {
    /// Reads the configuration at `pos`: its size, then the remaining
    /// `size - 4` bytes.
    pub fn parse(b: &[u8], pos: usize) -> (r: Option<TypeChunkConfig>)
        ensures
            r is Some <==> fits(b@, pos as int, 4) && le32(b@, pos as int) >= 4 && fits(b@, pos as int, le32(b@, pos as int)),
            r is Some ==> r->0.structure_size as int == le32(b@, pos as int) && r->0.data@ == b@.subrange(pos + 4, pos + le32(b@, pos as int)),
    {
        let structure_size = read_u32(b, pos)?;
        if structure_size < 4 || !available(b, pos, structure_size as usize) {
            return None;
        }
        let data = copy_bytes(b, pos + 4, (structure_size - 4) as usize);
        Some(TypeChunkConfig { structure_size, data })
    }
}

/// The header of a type chunk.
#[derive(Clone, Debug, PartialEq, Eq)]
pub struct TypeChunkHeader {
    pub header: ChunkHeader,
    /// Type identifier, 1-based; 0 is invalid.
    pub id: u8,
    pub flags: u8,
    pub res1: u16,
    /// Number of entry offsets that follow the header.
    pub entry_count: u32,
    /// Offset from the start of the chunk to the entries.
    pub entries_start: u32,
    pub config: TypeChunkConfig,
}

impl TypeChunkHeader {
    /// Reads the type chunk header at `pos`, its configuration included.
    pub fn parse(b: &[u8], pos: usize) -> (r: Option<TypeChunkHeader>)
        ensures
            r is Some <==> type_header_fits(b@, pos as int),
            r is Some ==> {
                let h = r->0;
                &&& h.header == header_at(b@, pos as int)
                &&& h.id == b@[pos + 8]
                &&& h.flags == b@[pos + 9]
                &&& h.res1 as int == le16(b@, pos + 10)
                &&& h.entry_count as int == le32(b@, pos + 12)
                &&& h.entries_start as int == le32(b@, pos + 16)
                &&& h.config.structure_size as int == le32(b@, pos + 20)
                &&& h.config.data@ == b@.subrange(pos + 24, pos + 20 + le32(b@, pos + 20))
            },
    {
        if !available(b, pos, 24) {
            return None;
        }
        let header = ChunkHeader::parse(b, pos)?;
        let id = read_u8(b, pos + 8)?;
        let flags = read_u8(b, pos + 9)?;
        let res1 = read_u16(b, pos + 10)?;
        let entry_count = read_u32(b, pos + 12)?;
        let entries_start = read_u32(b, pos + 16)?;
        let config = TypeChunkConfig::parse(b, pos + 20)?;
        Some(TypeChunkHeader { header, id, flags, res1, entry_count, entries_start, config })
    }
}

fn decode_type_chunk(b: &[u8], p: usize, strings: &Vec<String>) -> (r: Result<Option<(u32, Vec<Vec<Option<String>>>)>, ParseError>)
    ensures
        match r {
            Ok(t) => type_chunk(b@, p as int, strings.deep_view()) == Ok::<_, ParseError>(t.deep_view()),
            Err(e) => type_chunk(b@, p as int, strings.deep_view()) == Err::<Option<TypeView>, _>(e),
        },
{
    let len = b.len();
    let h = match TypeChunkHeader::parse(b, p) {
        Some(h) => h,
        None => return Err(ParseError::TypeChunkHeader),
    };
    if h.id == 0 {
        return Ok(None);
    }
    let offsets = p + 20 + h.config.structure_size as usize;
    if (len - offsets) / 4 < h.entry_count as usize {
        return Err(ParseError::TypeChunkEntries);
    }
    let base = advance(p, h.entries_start);
    match decode_entries(b, offsets, h.entry_count, base, Ghost(p + h.entries_start as int), strings) {
        Err(e) => Err(e),
        Ok(entries) => {
            let t = (h.id as u32, entries);
            assert(t.deep_view() == (b@[p + 8] as u32, entries.deep_view()));
            Ok(Some(t))
        },
    }
}

fn decode_type_spec(b: &[u8], p: usize) -> (r: Result<(TypeSpecChunkHeader, Vec<u32>), ParseError>)
    ensures
        match r {
            Ok(t) => type_spec_chunk(b@, p as int) == Ok::<_, ParseError>((t.0, t.1@)),
            Err(e) => type_spec_chunk(b@, p as int) == Err::<TypeSpecView, _>(e),
        },
{
    match TypeSpecChunkHeader::parse(b, p) {
        Some(t) => Ok(t),
        None => Err(ParseError::TypeSpecHeader),
    }
}

fn decode_type_stream(b: &[u8], start: usize, strings: &Vec<String>) -> (r: Result<(Vec<(TypeSpecChunkHeader, Vec<u32>)>, Vec<(u32, Vec<Vec<Option<String>>>)>), ParseError>)
    ensures
        match r {
            Ok(t) => type_stream(b@, start as int, strings.deep_view(), Seq::empty(), Seq::empty())
                == Ok::<_, ParseError>((specs_view(t.0@), t.1.deep_view())),
            Err(e) => type_stream(b@, start as int, strings.deep_view(), Seq::empty(), Seq::empty())
                == Err::<(Seq<TypeSpecView>, Seq<TypeView>), _>(e),
        },
{
    let len = b.len();
    let mut specs: Vec<(TypeSpecChunkHeader, Vec<u32>)> = Vec::new();
    let mut types: Vec<(u32, Vec<Vec<Option<String>>>)> = Vec::new();
    let mut p = start;
    assert(specs_view(specs@) =~= Seq::empty());
    assert(types.deep_view() =~= Seq::empty());
    loop
        invariant
            len == b@.len(),
            type_stream(b@, start as int, strings.deep_view(), Seq::empty(), Seq::empty())
                == type_stream(b@, p as int, strings.deep_view(), specs_view(specs@), types.deep_view()),
        decreases len - p,
    {
        let ghost dv = strings.deep_view();
        let ghost specs0 = specs_view(specs@);
        let ghost types0 = types.deep_view();
        let h = match ChunkHeader::parse(b, p) {
            Some(h) => h,
            None => return Err(ParseError::ChunkHeader),
        };
        if h.typ == ChunkType::TABLE_SPEC {
            match decode_type_spec(b, p) {
                Err(e) => return Err(e),
                Ok(t) => {
                    let ghost tv = (t.0, t.1@);
                    specs.push(t);
                    assert(specs_view(specs@) =~= specs0.push(tv));
                },
            }
        } else if h.typ == ChunkType::TABLE_TYPE {
            match decode_type_chunk(b, p, strings) {
                Err(e) => return Err(e),
                Ok(None) => {},
                Ok(Some(t)) => {
                    let ghost tv = t.deep_view();
                    types.push(t);
                    assert(types.deep_view() =~= types0.push(tv));
                },
            }
        }
        if h.chunk_size == 0 || h.chunk_size as usize >= len - p {
            return Ok((specs, types));
        }
        p = p + h.chunk_size as usize;
    }
}

/// The fixed header of a package chunk.
#[derive(Clone, Debug, PartialEq, Eq)]
pub struct PackageChunkHeader {
    pub header: ChunkHeader,
    /// Numeric id of the package, the top 8 bits of its resource ids.
    pub id: u32,
    /// Symbolic name of the package.
    pub name: String,
    /// Offset from the start of the package chunk to its type-name pool.
    pub type_strings: u32,
    pub last_public_type: u32,
    /// Offset from the start of the package chunk to its key-name pool.
    pub key_strings: u32,
    pub last_public_key: u32,
}

impl PackageChunkHeader {
    /// Reads the 284-byte package header at `pos`.
    pub fn parse(b: &[u8], pos: usize) -> (r: Option<PackageChunkHeader>)
        ensures
            r is Some <==> fits(b@, pos as int, 284),
            r is Some ==> {
                let h = r->0;
                &&& h.header == header_at(b@, pos as int)
                &&& h.id as int == le32(b@, pos + 8)
                &&& h.name@ == package_name_at(b@, pos as int)
                &&& h.type_strings as int == le32(b@, pos + 268)
                &&& h.last_public_type as int == le32(b@, pos + 272)
                &&& h.key_strings as int == le32(b@, pos + 276)
                &&& h.last_public_key as int == le32(b@, pos + 280)
            },
    {
        if !available(b, pos, PACKAGE_HEADER_SIZE) {
            return None;
        }
        let header = ChunkHeader::parse(b, pos)?;
        let id = read_u32(b, pos + 8)?;
        let units = units_before_nul(b, pos + 12, 128);
        let name = utf16_lossy(units.as_slice());
        let type_strings = read_u32(b, pos + 268)?;
        let last_public_type = read_u32(b, pos + 272)?;
        let key_strings = read_u32(b, pos + 276)?;
        let last_public_key = read_u32(b, pos + 280)?;
        Some(PackageChunkHeader {
            header,
            id,
            name,
            type_strings,
            last_public_type,
            key_strings,
            last_public_key,
        })
    }
}

fn decode_named_pool(b: &[u8], pos: usize, off: u32, err: ParseError) -> (r: Result<(u32, Vec<String>), ParseError>)
    ensures
        match named_pool(b@, pos + off, err) {
            Ok(v) => r is Ok && r->Ok_0.0 == header_at(b@, pos + off).chunk_size && r->Ok_0.1.deep_view() == v,
            Err(e) => r == Err::<(u32, Vec<String>), _>(e),
        },
{
    let len = b.len();
    let p = match advance(pos, off) {
        Some(x) => x,
        None => return Err(err),
    };
    let h = match ChunkHeader::parse(b, p) {
        Some(h) => h,
        None => return Err(err),
    };
    match string_table(b, p) {
        Ok(v) => Ok((h.chunk_size, v)),
        Err(_) => Err(err),
    }
}

fn decode_package(b: &[u8], pos: usize, strings: &Vec<String>) -> (r: Result<(u32, Package), ParseError>)
    ensures
        match r {
            Ok(t) => package_at(b@, pos as int, strings.deep_view()) == Ok::<_, ParseError>((t.0, t.1@)),
            Err(e) => package_at(b@, pos as int, strings.deep_view()) == Err::<(u32, PackageView), _>(e),
        },
{
    let len = b.len();
    let ph = match PackageChunkHeader::parse(b, pos) {
        Some(h) => h,
        None => return Err(ParseError::PackageHeader),
    };
    let (tsize, type_strings) = match decode_named_pool(b, pos, ph.type_strings, ParseError::TypeStrings) {
        Ok(t) => t,
        Err(e) => return Err(e),
    };
    let (ksize, key_strings) = match decode_named_pool(b, pos, ph.key_strings, ParseError::KeyStrings) {
        Ok(t) => t,
        Err(e) => return Err(e),
    };
    let start = match advance(pos, tsize) {
        None => None,
        Some(x) => match advance(x, ksize) {
            None => None,
            Some(y) => advance(y, ph.header.header_size as u32),
        },
    };
    let start = match start {
        Some(x) => x,
        None => {
            assert(!fits(b@, pos + tsize + ksize + ph.header.header_size, 8));
            return Err(ParseError::ChunkHeader);
        },
    };
    let (type_spec, types) = match decode_type_stream(b, start, strings) {
        Ok(t) => t,
        Err(e) => return Err(e),
    };
    let package = Package { name: ph.name, type_strings, key_strings, type_spec, types };
    Ok((ph.id, package))
}

/// The global string pool and the packages of a resource table.
#[derive(Clone, Debug)]
pub struct Arsc<'barsc> {
    binary_arsc: &'barsc [u8],
    strings: Vec<String>,
    packages: HashMap<u32, Package>,
}

/// The id of the package a resource id belongs to (its top 8 bits).
pub open spec fn package_of(res_id: u32) -> u32 {
    (res_id as int / 0x100_0000) as u32
}

/// The type id within the package (bits 16 to 23).
pub open spec fn type_of(res_id: u32) -> u32 {
    ((res_id as int / 0x1_0000) % 256) as u32
}

/// The entry index within the type (the low 16 bits).
pub open spec fn entry_of(res_id: u32) -> int {
    res_id as int % 0x1_0000
}

/// The first present value in `values` from position `j` on.
pub open spec fn first_present(values: EntryView, j: int) -> Option<Seq<char>>
    decreases values.len() - j,
{
    if j < 0 || j >= values.len() {
        None
    } else if values[j] is Some {
        values[j]
    } else {
        first_present(values, j + 1)
    }
}

/// The first present value at entry `e` of the type chunks with id `t`, from
/// the `k`-th type chunk on.
pub open spec fn first_value(types: Seq<TypeView>, t: u32, e: int, k: int) -> Option<Seq<char>>
    decreases types.len() - k,
{
    if k < 0 || k >= types.len() {
        None
    } else if types[k].0 == t && e < types[k].1.len() && first_present(types[k].1[e], 0) is Some {
        first_present(types[k].1[e], 0)
    } else {
        first_value(types, t, e, k + 1)
    }
}

/// The value of a resource id in `packages`: absent where its package is.
pub open spec fn lookup(packages: Map<u32, PackageView>, res_id: u32) -> Option<Seq<char>> {
    if !packages.contains_key(package_of(res_id)) {
        None
    } else {
        first_value(packages[package_of(res_id)].types, type_of(res_id), entry_of(res_id), 0)
    }
}

fn first_present_exec(values: &Vec<Option<String>>) -> (r: Option<String>)
    ensures
        r.deep_view() == first_present(values.deep_view(), 0),
{
    let mut j: usize = 0;
    while j < values.len()
        invariant
            j <= values@.len(),
            first_present(values.deep_view(), 0) == first_present(values.deep_view(), j as int),
        decreases values@.len() - j,
    {
        match &values[j] {
            Some(v) => {
                return Some(v.clone());
            },
            None => {},
        }
        j += 1;
    }
    None
}

impl<'barsc> Arsc<'barsc> {
    /// The bytes the table is decoded from.
    pub closed spec fn bytes(&self) -> Seq<u8> {
        self.binary_arsc@
    }

    /// The global string pool.
    pub closed spec fn strings_view(&self) -> Seq<Seq<char>> {
        self.strings.deep_view()
    }

    /// The packages by id.
    pub closed spec fn packages_view(&self) -> Map<u32, PackageView> {
        self.packages@.map_values(|p: Package| p@)
    }

    /// A table over `binary_arsc` with nothing decoded yet.
    pub fn new(binary_arsc: &'barsc [u8]) -> (r: Self)
        ensures
            r.bytes() == binary_arsc@,
            r.strings_view() == Seq::<Seq<char>>::empty(),
            r.packages_view() == Map::<u32, PackageView>::empty(),
    {
        let r = Self { binary_arsc, strings: Vec::new(), packages: HashMap::new() };
        assert(r.strings.deep_view() =~= Seq::<Seq<char>>::empty());
        assert(r.packages_view() =~= Map::<u32, PackageView>::empty());
        r
    }

    /// The global string pool.
    pub fn strings(&self) -> (r: &Vec<String>)
        ensures
            r.deep_view() == self.strings_view(),
    {
        &self.strings
    }

    /// The package with id `id`.
    pub fn package(&self, id: u32) -> (r: Option<&Package>)
        ensures
            r is Some <==> self.packages_view().contains_key(id),
            r is Some ==> r->0@ == self.packages_view()[id],
    {
        broadcast use vstd::std_specs::hash::group_hash_axioms;
        self.packages.get(&id)
    }

    /// Decodes the table. On success the global pool and the packages are
    /// those of `decode_table`, and the input bytes are returned; on failure
    /// the table is left as it was.
    #[verifier::rlimit(30)]
    pub fn parse(&mut self) -> (r: Result<Vec<u8>, ParseError>)
        ensures
            final(self).bytes() == old(self).bytes(),
            match decode_table(old(self).bytes()) {
                Ok((st, pk)) => r is Ok && r->Ok_0@ == old(self).bytes()
                    && final(self).strings_view() == st && final(self).packages_view() == pk,
                Err(e) => r == Err::<Vec<u8>, _>(e) && *final(self) == *old(self),
            },
    {
        broadcast use vstd::std_specs::hash::group_hash_axioms;
        let b = self.binary_arsc;
        let len = b.len();
        if TableHeader::parse(b, 0).is_none() {
            return Err(ParseError::ChunkHeader);
        }
        let mut strings: Vec<String> = Vec::new();
        let mut packages: HashMap<u32, Package> = HashMap::new();
        let mut pos: usize = 12;
        assert(strings.deep_view() =~= Seq::<Seq<char>>::empty());
        assert(packages@.map_values(|p: Package| p@) =~= Map::<u32, PackageView>::empty());
        while pos < len
            invariant
                len == b@.len(),
                b@ == self.binary_arsc@,
                decode_table(b@) == table_from(b@, pos as int, strings.deep_view(), packages@.map_values(|p: Package| p@)),
            decreases len - pos,
        {
            let h = match ChunkHeader::parse(b, pos) {
                Some(h) => h,
                None => return Err(ParseError::ChunkHeader),
            };
            if h.typ == ChunkType::STRING_POOL {
                strings = match string_table(b, pos) {
                    Ok(v) => v,
                    Err(_) => return Err(ParseError::StringPool),
                };
            } else if h.typ == ChunkType::TABLE_PACKAGE {
                let ghost before = packages@.map_values(|p: Package| p@);
                match decode_package(b, pos, &strings) {
                    Err(e) => return Err(e),
                    Ok((id, package)) => {
                        let ghost pv = package@;
                        packages.insert(id, package);
                        assert(packages@.map_values(|p: Package| p@) =~= before.insert(id, pv));
                    },
                }
            }
            if h.chunk_size == 0 || h.chunk_size as usize >= len - pos {
                pos = len;
            } else {
                pos = pos + h.chunk_size as usize;
            }
        }
        assert(decode_table(b@) == Ok::<_, ParseError>((strings.deep_view(), packages@.map_values(|p: Package| p@))));
        self.strings = strings;
        self.packages = packages;
        Ok(copy_bytes(b, 0, len))
    }

    /// The first present value of resource `res_id`: among the type chunks of
    /// its package with its type id, in order, the first value of its entry
    /// index. Absent where the package is unknown.
    pub fn get_res_value(&self, res_id: u32) -> (r: Option<String>)
        ensures
            r.deep_view() == lookup(self.packages_view(), res_id),
    {
        broadcast use vstd::std_specs::hash::group_hash_axioms;
        let package_id = res_id / 0x100_0000;
        let typ = (res_id / 0x1_0000) % 256;
        let entry = (res_id % 0x1_0000) as usize;
        let package = match self.packages.get(&package_id) {
            Some(p) => p,
            None => return None,
        };
        let types = &package.types;
        let mut k: usize = 0;
        while k < types.len()
            invariant
                k <= types@.len(),
                types.deep_view() == self.packages_view()[package_id].types,
                self.packages_view().contains_key(package_id),
                lookup(self.packages_view(), res_id) == first_value(types.deep_view(), typ, entry as int, k as int),
            decreases types@.len() - k,
        {
            let t = &types[k];
            if t.0 == typ && entry < t.1.len() {
                let found = first_present_exec(&t.1[entry]);
                if found.is_some() {
                    return found;
                }
            }
            k += 1;
        }
        None
    }
}

/// Decoding the same bytes twice gives the same string pool and packages.
pub proof fn lemma_decode_table_deterministic(a: Seq<u8>, b: Seq<u8>)
    requires
        a == b,
    ensures
        decode_table(a) == decode_table(b),
{
}

/// A type chunk with no entries decodes cleanly: its type id with no
/// entries.
pub proof fn lemma_empty_type_chunk(s: Seq<u8>, p: int, strings: Seq<Seq<char>>)
    requires
        type_header_fits(s, p),
        s[p + 8] != 0,
        le32(s, p + 12) == 0,
    ensures
        type_chunk(s, p, strings) == Ok::<_, ParseError>(Some((s[p + 8] as u32, Seq::<EntryView>::empty()))),
{
}

/// The entry at index `k` of a type chunk: empty where its offset is
/// `NO_ENTRY`, else the values of the table entry it points to.
pub open spec fn entry_at(s: Seq<u8>, offsets: int, base: int, strings: Seq<Seq<char>>, k: int) -> Result<EntryView, ParseError> {
    let off = le32(s, offsets + 4 * k);
    if off == NO_ENTRY {
        Ok(Seq::empty())
    } else {
        entry_values(s, base + off, strings)
    }
}

/// Decoded entries follow the offset table index by index.
pub proof fn lemma_entries_by_index(s: Seq<u8>, offsets: int, count: int, base: int, strings: Seq<Seq<char>>, i: int)
    requires
        0 <= i <= count,
        entries_from(s, offsets, count, base, strings, i) is Ok,
    ensures
        entries_from(s, offsets, count, base, strings, i)->Ok_0.len() == count - i,
        forall|k: int|
            i <= k < count ==> #[trigger] entry_at(s, offsets, base, strings, k) is Ok
                && entries_from(s, offsets, count, base, strings, i)->Ok_0[k - i] == entry_at(s, offsets, base, strings, k)->Ok_0,
    decreases count - i,
{
    if i < count {
        lemma_entries_by_index(s, offsets, count, base, strings, i + 1);
        let v = entries_from(s, offsets, count, base, strings, i)->Ok_0;
        let rest = entries_from(s, offsets, count, base, strings, i + 1)->Ok_0;
        assert(v == seq![entry_at(s, offsets, base, strings, i)->Ok_0] + rest);
        assert forall|k: int| i <= k < count implies #[trigger] entry_at(s, offsets, base, strings, k) is Ok
            && entries_from(s, offsets, count, base, strings, i)->Ok_0[k - i] == entry_at(s, offsets, base, strings, k)->Ok_0 by {
            if k > i {
                assert(entry_at(s, offsets, base, strings, k) is Ok && rest[k - (i + 1)] == entry_at(s, offsets, base, strings, k)->Ok_0);
                assert(v[k - i] == rest[k - (i + 1)]);
            }
        }
    }
}

/// An entry offset of `NO_ENTRY` gives an empty entry at its index.
pub proof fn lemma_absent_entry_is_empty(s: Seq<u8>, offsets: int, count: int, base: int, strings: Seq<Seq<char>>, k: int)
    requires
        0 <= k < count,
        le32(s, offsets + 4 * k) == NO_ENTRY,
        entries_from(s, offsets, count, base, strings, 0) is Ok,
    ensures
        entries_from(s, offsets, count, base, strings, 0)->Ok_0[k] == Seq::<Option<Seq<char>>>::empty(),
{
    lemma_entries_by_index(s, offsets, count, base, strings, 0);
    assert(entry_at(s, offsets, base, strings, k) is Ok);
}

/// Every type id in `types` is at least 1.
pub open spec fn type_ids_positive(types: Seq<TypeView>) -> bool {
    forall|i: int| 0 <= i < types.len() ==> #[trigger] types[i].0 >= 1
}

/// Every type id of every package is at least 1.
pub open spec fn package_type_ids_positive(packages: Map<u32, PackageView>) -> bool {
    forall|id: u32| packages.contains_key(id) ==> type_ids_positive(#[trigger] packages[id].types)
}

proof fn lemma_type_stream_ids(s: Seq<u8>, p: int, strings: Seq<Seq<char>>, specs: Seq<TypeSpecView>, types: Seq<TypeView>)
    requires
        type_ids_positive(types),
    ensures
        type_stream(s, p, strings, specs, types) is Ok ==> type_ids_positive(type_stream(s, p, strings, specs, types)->Ok_0.1),
    decreases s.len() - p,
{
    if fits(s, p, 8) {
        let h = header_at(s, p);
        if h.typ == ChunkType::TABLE_TYPE {
            match type_chunk(s, p, strings) {
                Ok(Some(t)) => {
                    assert(t.0 == s[p + 8] as u32);
                    assert(type_ids_positive(types.push(t)));
                    if !(h.chunk_size == 0 || h.chunk_size >= s.len() - p) {
                        lemma_type_stream_ids(s, p + h.chunk_size, strings, specs, types.push(t));
                    }
                },
                _ => {
                    if !(h.chunk_size == 0 || h.chunk_size >= s.len() - p) {
                        lemma_type_stream_ids(s, p + h.chunk_size, strings, specs, types);
                    }
                },
            }
        } else if h.typ == ChunkType::TABLE_SPEC {
            match type_spec_chunk(s, p) {
                Ok(t) => {
                    if !(h.chunk_size == 0 || h.chunk_size >= s.len() - p) {
                        lemma_type_stream_ids(s, p + h.chunk_size, strings, specs.push(t), types);
                    }
                },
                Err(_) => {},
            }
        } else {
            if !(h.chunk_size == 0 || h.chunk_size >= s.len() - p) {
                lemma_type_stream_ids(s, p + h.chunk_size, strings, specs, types);
            }
        }
    }
}

proof fn lemma_table_from_ids(s: Seq<u8>, pos: int, strings: Seq<Seq<char>>, packages: Map<u32, PackageView>)
    requires
        package_type_ids_positive(packages),
    ensures
        table_from(s, pos, strings, packages) is Ok ==> package_type_ids_positive(table_from(s, pos, strings, packages)->Ok_0.1),
    decreases s.len() - pos,
{
    if 0 <= pos < s.len() && fits(s, pos, 8) {
        let h = header_at(s, pos);
        let next = !(h.chunk_size == 0 || pos + h.chunk_size >= s.len());
        if h.typ == ChunkType::STRING_POOL {
            match pool_strings(s, pos) {
                Ok(st) => {
                    if next {
                        lemma_table_from_ids(s, pos + h.chunk_size, st, packages);
                    }
                },
                Err(_) => {},
            }
        } else if h.typ == ChunkType::TABLE_PACKAGE {
            match package_at(s, pos, strings) {
                Ok((id, pv)) => {
                    let tp = pos + le32(s, pos + 268);
                    let kp = pos + le32(s, pos + 276);
                    let start = pos + header_at(s, tp).chunk_size + header_at(s, kp).chunk_size
                        + header_at(s, pos).header_size;
                    lemma_type_stream_ids(s, start, strings, Seq::empty(), Seq::empty());
                    assert(type_ids_positive(pv.types));
                    let pk2 = packages.insert(id, pv);
                    assert(package_type_ids_positive(pk2)) by {
                        assert forall|j: u32| pk2.contains_key(j) implies type_ids_positive(#[trigger] pk2[j].types) by {
                            if j != id {
                                assert(packages.contains_key(j));
                            }
                        }
                    }
                    if next {
                        lemma_table_from_ids(s, pos + h.chunk_size, strings, pk2);
                    }
                },
                Err(_) => {},
            }
        } else {
            if next {
                lemma_table_from_ids(s, pos + h.chunk_size, strings, packages);
            }
        }
    }
}

/// In a decoded table, every type id of every package is at least 1.
pub proof fn lemma_decoded_type_ids_positive(s: Seq<u8>)
    ensures
        decode_table(s) is Ok ==> package_type_ids_positive(decode_table(s)->Ok_0.1),
{
    if fits(s, 0, 12) {
        lemma_table_from_ids(s, 12, Seq::empty(), Map::empty());
    }
}

/// Whether `t` is what the type chunk at some position of `s` decodes to.
pub open spec fn from_type_chunk(s: Seq<u8>, t: TypeView) -> bool {
    exists|q: int, g: Seq<Seq<char>>| #[trigger] type_chunk(s, q, g) == Ok::<_, ParseError>(Some(t))
}

/// Whether every type tuple of every package comes from a type chunk of `s`.
pub open spec fn types_from_chunks(s: Seq<u8>, packages: Map<u32, PackageView>) -> bool {
    forall|id: u32, i: int|
        packages.contains_key(id) && 0 <= i < packages[id].types.len() ==> from_type_chunk(s, #[trigger] packages[id].types[i])
}

proof fn lemma_type_stream_chunks(s: Seq<u8>, p: int, strings: Seq<Seq<char>>, specs: Seq<TypeSpecView>, types: Seq<TypeView>)
    requires
        forall|i: int| 0 <= i < types.len() ==> from_type_chunk(s, #[trigger] types[i]),
    ensures
        type_stream(s, p, strings, specs, types) is Ok ==> forall|i: int|
            0 <= i < type_stream(s, p, strings, specs, types)->Ok_0.1.len() ==> from_type_chunk(
                s,
                #[trigger] type_stream(s, p, strings, specs, types)->Ok_0.1[i],
            ),
    decreases s.len() - p,
{
    if fits(s, p, 8) {
        let h = header_at(s, p);
        let next = !(h.chunk_size == 0 || h.chunk_size >= s.len() - p);
        if h.typ == ChunkType::TABLE_SPEC {
            if type_spec_chunk(s, p) is Ok && next {
                lemma_type_stream_chunks(s, p + h.chunk_size, strings, specs.push(type_spec_chunk(s, p)->Ok_0), types);
            }
        } else if h.typ == ChunkType::TABLE_TYPE {
            match type_chunk(s, p, strings) {
                Ok(Some(t)) => {
                    assert(from_type_chunk(s, t));
                    let types2 = types.push(t);
                    assert forall|i: int| 0 <= i < types2.len() implies from_type_chunk(s, #[trigger] types2[i]) by {
                        if i < types.len() {
                            assert(types2[i] == types[i]);
                        }
                    }
                    if next {
                        lemma_type_stream_chunks(s, p + h.chunk_size, strings, specs, types2);
                    }
                },
                Ok(None) => {
                    if next {
                        lemma_type_stream_chunks(s, p + h.chunk_size, strings, specs, types);
                    }
                },
                Err(_) => {},
            }
        } else if next {
            lemma_type_stream_chunks(s, p + h.chunk_size, strings, specs, types);
        }
    }
}

proof fn lemma_table_from_chunks(s: Seq<u8>, pos: int, strings: Seq<Seq<char>>, packages: Map<u32, PackageView>)
    requires
        types_from_chunks(s, packages),
    ensures
        table_from(s, pos, strings, packages) is Ok ==> types_from_chunks(s, table_from(s, pos, strings, packages)->Ok_0.1),
    decreases s.len() - pos,
{
    if 0 <= pos < s.len() && fits(s, pos, 8) {
        let h = header_at(s, pos);
        let next = !(h.chunk_size == 0 || pos + h.chunk_size >= s.len());
        if h.typ == ChunkType::STRING_POOL {
            if pool_strings(s, pos) is Ok && next {
                lemma_table_from_chunks(s, pos + h.chunk_size, pool_strings(s, pos)->Ok_0, packages);
            }
        } else if h.typ == ChunkType::TABLE_PACKAGE {
            match package_at(s, pos, strings) {
                Ok((id, pv)) => {
                    let tp = pos + le32(s, pos + 268);
                    let kp = pos + le32(s, pos + 276);
                    let start = pos + header_at(s, tp).chunk_size + header_at(s, kp).chunk_size
                        + header_at(s, pos).header_size;
                    lemma_type_stream_chunks(s, start, strings, Seq::empty(), Seq::empty());
                    let pk2 = packages.insert(id, pv);
                    assert forall|j: u32, i: int| pk2.contains_key(j) && 0 <= i < pk2[j].types.len() implies from_type_chunk(
                        s,
                        #[trigger] pk2[j].types[i],
                    ) by {
                        if j != id {
                            assert(packages.contains_key(j) && packages[j] == pk2[j]);
                        }
                    }
                    if next {
                        lemma_table_from_chunks(s, pos + h.chunk_size, strings, pk2);
                    }
                },
                Err(_) => {},
            }
        } else if next {
            lemma_table_from_chunks(s, pos + h.chunk_size, strings, packages);
        }
    }
}

/// Every type tuple of every package of a decoded table is what some type
/// chunk of the input decodes to.
pub proof fn lemma_decoded_types_come_from_chunks(s: Seq<u8>)
    ensures
        decode_table(s) is Ok ==> types_from_chunks(s, decode_table(s)->Ok_0.1),
{
    if fits(s, 0, 12) {
        lemma_table_from_chunks(s, 12, Seq::empty(), Map::empty());
    }
}

/// A type tuple decoded from a chunk without entries holds no entries.
pub proof fn lemma_empty_chunk_tuple(s: Seq<u8>, q: int, g: Seq<Seq<char>>, t: TypeView)
    requires
        type_chunk(s, q, g) == Ok::<_, ParseError>(Some(t)),
        le32(s, q + 12) == 0,
    ensures
        t.1 == Seq::<EntryView>::empty(),
{
    lemma_empty_type_chunk(s, q, g);
}

/// In a type tuple decoded from a chunk, the entry at an index whose offset is
/// `NO_ENTRY` is empty, and there is one entry per offset.
pub proof fn lemma_hole_in_chunk_tuple(s: Seq<u8>, q: int, g: Seq<Seq<char>>, t: TypeView, k: int)
    requires
        type_chunk(s, q, g) == Ok::<_, ParseError>(Some(t)),
        0 <= k < le32(s, q + 12),
        le32(s, q + 20 + le32(s, q + 20) + 4 * k) == NO_ENTRY,
    ensures
        t.1.len() == le32(s, q + 12),
        t.1[k] == Seq::<Option<Seq<char>>>::empty(),
{
    let offsets = q + 20 + le32(s, q + 20);
    let count = le32(s, q + 12);
    let base = q + le32(s, q + 16);
    lemma_entries_by_index(s, offsets, count, base, g, 0);
    lemma_absent_entry_is_empty(s, offsets, count, base, g, k);
}

} // verus!
