//! Chunk headers and the fixed-layout records shared by the binary XML and
//! resource-table formats.

use vstd::prelude::*;
use crate::text::{chars_of, digits, push_digits, string_of};
use crate::bytes::{take_u32s, words32, fits, available, le16, le32, read_u16, read_u32, read_u8};

verus! {

/// Why a decode failed.
#[derive(Clone, Copy, Debug, PartialEq, Eq, Structural)]
pub enum ParseError {
    Generic,
    ChunkHeader,
    StringPoolHeader,
    BufferNotEnough,
    StringPool,
    String,
    ResourceMap,
    StartNamespace,
    EndNamespace,
    StartElement,
    Attribute,
    BuildXml,
    PackageHeader,
    TypeStrings,
    KeyStrings,
    TypeSpecHeader,
    TypeChunkHeader,
    TypeChunkEntries,
    TableEntry,
    Zip,
    File,
}

/// The 8-byte header that opens every chunk.
#[derive(Clone, Copy, Debug, PartialEq, Eq, Structural)]
pub struct ChunkHeader {
    /// Type identifier of the chunk; its meaning depends on the containing chunk.
    pub typ: u16,
    /// Size of the chunk header in bytes.
    pub header_size: u16,
    /// Total size of the chunk in bytes, header included.
    pub chunk_size: u32,
}

/// The chunk header at position `i`.
pub open spec fn header_at(s: Seq<u8>, i: int) -> ChunkHeader {
    ChunkHeader {
        typ: le16(s, i) as u16,
        header_size: le16(s, i + 2) as u16,
        chunk_size: le32(s, i + 4) as u32,
    }
}

impl ChunkHeader {
    /// Reads the chunk header at `pos`.
    pub fn parse(b: &[u8], pos: usize) -> (r: Option<ChunkHeader>)
        ensures
            r is Some <==> fits(b@, pos as int, 8),
            r is Some ==> r->0 == header_at(b@, pos as int),
    {
        if !available(b, pos, 8) {
            return None;
        }
        let typ = read_u16(b, pos)?;
        let header_size = read_u16(b, pos + 2)?;
        let chunk_size = read_u32(b, pos + 4)?;
        Some(ChunkHeader { typ, header_size, chunk_size })
    }
}

impl ChunkHeader {
    /// The header's fields in lower-case hexadecimal, as
    /// `ChunkHeader { typ: 0x1, header_size: 0x1c, chunk_size: 0x2a0 }`.
    pub fn to_text(&self) -> (r: String)
        ensures
            r@ == "ChunkHeader { typ: 0x"@ + digits(self.typ as nat, 16, false) + ", header_size: 0x"@
                + digits(self.header_size as nat, 16, false) + ", chunk_size: 0x"@ + digits(
                self.chunk_size as nat,
                16,
                false,
            ) + " }"@,
    {
        let mut out = chars_of("ChunkHeader { typ: 0x");
        push_digits(&mut out, self.typ as u128, 16, false);
        out.append(&mut chars_of(", header_size: 0x"));
        push_digits(&mut out, self.header_size as u128, 16, false);
        out.append(&mut chars_of(", chunk_size: 0x"));
        push_digits(&mut out, self.chunk_size as u128, 16, false);
        out.append(&mut chars_of(" }"));
        string_of(&out)
    }
}

/// The chunk type identifiers.
pub struct ChunkType;

impl ChunkType {
    pub const NULL: u16 = 0x0000;
    pub const STRING_POOL: u16 = 0x0001;
    pub const TABLE: u16 = 0x0002;
    pub const XML: u16 = 0x0003;
    pub const XML_START_NAMESPACE: u16 = 0x0100;
    pub const XML_END_NAMESPACE: u16 = 0x0101;
    pub const XML_START_ELEMENT: u16 = 0x0102;
    pub const XML_END_ELEMENT: u16 = 0x0103;
    pub const XML_CDATA: u16 = 0x0104;
    pub const XML_LAST_CHUNK: u16 = 0x017f;
    pub const XML_RESOURCE_MAP: u16 = 0x0180;
    pub const TABLE_PACKAGE: u16 = 0x0200;
    pub const TABLE_TYPE: u16 = 0x0201;
    pub const TABLE_SPEC: u16 = 0x0202;
    pub const TABLE_LIBRARY: u16 = 0x0203;
    pub const TABLE_OVERLAYABLE: u16 = 0x0204;
    pub const TABLE_OVERLAYABLE_POLICY: u16 = 0x0205;
    pub const TABLE_STAGED_ALIAS: u16 = 0x0206;
}

/// The header of a resource table: a chunk header and the package count.
#[derive(Clone, Copy, Debug, PartialEq, Eq, Structural)]
pub struct TableHeader {
    pub header: ChunkHeader,
    /// Number of packages the table declares; informational only.
    pub package_count: u32,
}

impl TableHeader {
    /// Reads the 12-byte table header at `pos`.
    pub fn parse(b: &[u8], pos: usize) -> (r: Option<TableHeader>)
        ensures
            r is Some <==> fits(b@, pos as int, 12),
            r is Some ==> r->0.header == header_at(b@, pos as int) && r->0.package_count as int
                == le32(b@, pos + 8),
    {
        if !available(b, pos, 12) {
            return None;
        }
        let header = ChunkHeader::parse(b, pos)?;
        let package_count = read_u32(b, pos + 8)?;
        Some(TableHeader { header, package_count })
    }
}

/// The fixed part of a type-spec chunk.
#[derive(Clone, Copy, Debug, PartialEq, Eq, Structural)]
pub struct TypeSpecChunkHeader {
    pub header: ChunkHeader,
    /// Type identifier, 1-based.
    pub type_id: u8,
    pub res0: u8,
    pub res1: u16,
    /// Number of entry configuration masks that follow.
    pub entry_count: u32,
}

/// The type-spec chunk header at position `i`.
pub open spec fn type_spec_at(s: Seq<u8>, i: int) -> TypeSpecChunkHeader {
    TypeSpecChunkHeader {
        header: header_at(s, i),
        type_id: s[i + 8],
        res0: s[i + 9],
        res1: le16(s, i + 10) as u16,
        entry_count: le32(s, i + 12) as u32,
    }
}

impl TypeSpecChunkHeader {
    /// Reads the type-spec chunk at `pos`: its 16-byte header, then the
    /// `entry_count` configuration masks that follow it.
    pub fn parse(b: &[u8], pos: usize) -> (r: Option<(TypeSpecChunkHeader, Vec<u32>)>)
        ensures
            r is Some <==> fits(b@, pos as int, 16) && fits(b@, pos + 16, 4 * le32(b@, pos + 12)),
            r is Some ==> {
                let (h, masks) = r->0;
                h == type_spec_at(b@, pos as int) && masks@ == words32(b@, pos + 16, le32(b@, pos + 12))
            },
    {
        let len = b.len();
        let h = Self::parse_header(b, pos)?;
        let first = pos + 16;
        if (len - first) / 4 < h.entry_count as usize {
            return None;
        }
        let masks = take_u32s(b, first, h.entry_count as usize);
        Some((h, masks))
    }

    fn parse_header(b: &[u8], pos: usize) -> (r: Option<TypeSpecChunkHeader>)
        ensures
            r is Some <==> fits(b@, pos as int, 16),
            r is Some ==> r->0 == type_spec_at(b@, pos as int),
    {
        if !available(b, pos, 16) {
            return None;
        }
        let header = ChunkHeader::parse(b, pos)?;
        let type_id = read_u8(b, pos + 8)?;
        let res0 = read_u8(b, pos + 9)?;
        let res1 = read_u16(b, pos + 10)?;
        let entry_count = read_u32(b, pos + 12)?;
        Some(TypeSpecChunkHeader { header, type_id, res0, res1, entry_count })
    }
}

/// A value record: a size, a data type and 32 bits of data.
#[derive(Clone, Copy, Debug, PartialEq, Eq, Structural)]
pub struct ResValue {
    /// Number of bytes in the record.
    pub size: u16,
    /// Always 0.
    pub res0: u8,
    /// Type of the data, one of the `ResType` constants.
    pub data_type: u8,
    /// The data, interpreted according to `data_type`.
    pub data: u32,
}

/// The value record at position `i`; the reserved byte is kept as 0.
pub open spec fn res_value_at(s: Seq<u8>, i: int) -> ResValue {
    ResValue { size: le16(s, i) as u16, res0: 0, data_type: s[i + 3], data: le32(s, i + 4) as u32 }
}

impl ResValue {
    /// Reads the 8-byte value record at `pos`.
    pub fn parse(b: &[u8], pos: usize) -> (r: Option<ResValue>)
        ensures
            r is Some <==> fits(b@, pos as int, 8),
            r is Some ==> r->0 == res_value_at(b@, pos as int),
    {
        if !available(b, pos, 8) {
            return None;
        }
        let size = read_u16(b, pos)?;
        let data_type = read_u8(b, pos + 3)?;
        let data = read_u32(b, pos + 4)?;
        Some(ResValue { size, res0: 0, data_type, data })
    }
}

/// The fixed part of an entry of a type chunk.
#[derive(Clone, Copy, Debug, PartialEq, Eq, Structural)]
pub struct TableEntry {
    /// Number of bytes in this record.
    pub size: u16,
    /// Flags; bit 0x0001 marks a complex entry.
    pub flags: u16,
    /// Index of the entry's name in the package's key-name pool.
    pub string_index: u32,
}

impl TableEntry {
    /// Reads the 8-byte entry record at `pos`.
    pub fn parse(b: &[u8], pos: usize) -> (r: Option<TableEntry>)
        ensures
            r is Some <==> fits(b@, pos as int, 8),
            r is Some ==> r->0.size as int == le16(b@, pos as int) && r->0.flags as int == le16(b@, pos + 2)
                && r->0.string_index as int == le32(b@, pos + 4),
    {
        if !available(b, pos, 8) {
            return None;
        }
        Some(TableEntry { size: read_u16(b, pos)?, flags: read_u16(b, pos + 2)?, string_index: read_u32(b, pos + 4)? })
    }
}

/// The header of a complex entry: its parent and its number of mappings.
#[derive(Clone, Copy, Debug, PartialEq, Eq, Structural)]
pub struct TableMapEntry {
    /// Resource id of the parent mapping, or 0.
    pub parent: u32,
    /// Number of name/value mappings that follow.
    pub count: u32,
}

impl TableMapEntry {
    /// Reads the 8-byte complex-entry header at `pos`.
    pub fn parse(b: &[u8], pos: usize) -> (r: Option<TableMapEntry>)
        ensures
            r is Some <==> fits(b@, pos as int, 8),
            r is Some ==> r->0.parent as int == le32(b@, pos as int) && r->0.count as int == le32(b@, pos + 4),
    {
        if !available(b, pos, 8) {
            return None;
        }
        Some(TableMapEntry { parent: read_u32(b, pos)?, count: read_u32(b, pos + 4)? })
    }
}

/// One name/value mapping of a complex entry.
#[derive(Clone, Copy, Debug, PartialEq, Eq, Structural)]
pub struct TableMap {
    /// Resource id naming the mapping.
    pub name: u32,
    pub value: ResValue,
}

impl TableMap {
    /// Reads the 12-byte mapping at `pos`.
    pub fn parse(b: &[u8], pos: usize) -> (r: Option<TableMap>)
        ensures
            r is Some <==> fits(b@, pos as int, 12),
            r is Some ==> r->0.name as int == le32(b@, pos as int) && r->0.value == res_value_at(b@, pos + 4),
    {
        if !available(b, pos, 12) {
            return None;
        }
        Some(TableMap { name: read_u32(b, pos)?, value: ResValue::parse(b, pos + 4)? })
    }
}

/// The data types of a value record.
pub struct ResType;

impl ResType {
    pub const NULL: u8 = 0x00;
    pub const REFERENCE: u8 = 0x01;
    pub const ATTRIBUTE: u8 = 0x02;
    pub const STRING: u8 = 0x03;
    pub const FLOAT: u8 = 0x04;
    pub const DIMENSION: u8 = 0x05;
    pub const FRACTION: u8 = 0x06;
    pub const DYNAMIC_REFERENCE: u8 = 0x07;
    pub const INT_DEC: u8 = 0x10;
    pub const INT_HEX: u8 = 0x11;
    pub const INT_BOOLEAN: u8 = 0x12;
}

} // verus!
