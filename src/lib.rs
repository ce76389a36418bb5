//! Decoding of Android's compiled resource containers: the binary XML form
//! of `AndroidManifest.xml` and the `resources.arsc` resource table, with
//! attribute values resolved through the table.

pub mod arsc_parser;
pub mod attributes;
pub mod bytes;
pub mod chunks;
pub mod parser;
pub mod render;
pub mod resolver;
pub mod string_pool;
pub mod summary;
pub mod text;
pub mod xml_parser;
pub mod xml_writer;

pub use arsc_parser::{Arsc, Package, PackageChunkHeader, TypeChunkConfig, TypeChunkHeader};
pub use chunks::{
    ChunkHeader, ChunkType, ParseError, ResType, ResValue, TableEntry, TableHeader, TableMap, TableMapEntry,
    TypeSpecChunkHeader,
};
pub use parser::Parser;
pub use string_pool::StringPoolChunk;
pub use xml_parser::{AndroidManifest, ResourceMapChunk, XMLTreeAttrExt, XmlEvent, XmlNamespace};
pub use summary::{Component, IntentFilter, ManifestSummary};
