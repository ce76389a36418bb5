//! The binary XML form of `AndroidManifest.xml`: decoding into element
//! events, and writing those events as XML text.

use vstd::prelude::*;
use crate::arsc_parser::{Arsc, PackageView};
use crate::attributes::{attribute_name_of, get_attribute_name};
use crate::bytes::{advance, available, fits, le16, le32, read_u16, read_u32, take_u32s, words32};
use crate::chunks::{header_at, res_value_at, ChunkHeader, ChunkType, ParseError, ResValue};
use crate::render::render;
use crate::resolver::{packages_of, resolve, resolve_spec};
use crate::string_pool::{pool_strings, string_table};
use crate::xml_writer::{
    decl_text, end_tag_text, start_tag_text, utf8_of, write_decl, write_end_tag, write_start_tag,
};

verus! {

/// The namespace declared by the last start-namespace chunk.
#[derive(Clone, Debug, PartialEq, Eq)]
pub struct XmlNamespace {
    pub prefix: String,
    pub uri: String,
}

/// The element part of a start- or end-element chunk.
#[derive(Clone, Copy, Debug, PartialEq, Eq, Structural)]
pub struct XMLTreeAttrExt {
    /// String index of the element's namespace.
    pub ns: u32,
    /// String index of the element's name.
    pub name: u32,
    /// Offset from the start of this record to the first attribute.
    pub attribute_start: u16,
    /// Distance from one attribute record to the next.
    pub attribute_size: u16,
    /// Number of attributes.
    pub attribute_count: u16,
    /// 1-based index of the `id` attribute; 0 if none.
    pub id_index: u16,
    /// 1-based index of the `class` attribute; 0 if none.
    pub class_index: u16,
    /// 1-based index of the `style` attribute; 0 if none.
    pub style_index: u16,
}

impl XMLTreeAttrExt {
    /// Reads the 20-byte element record of a start-element chunk at `pos`.
    pub fn parse(b: &[u8], pos: usize) -> (r: Option<XMLTreeAttrExt>)
        ensures
            r is Some <==> fits(b@, pos as int, 20),
            r is Some ==> {
                let x = r->0;
                &&& x.ns as int == le32(b@, pos as int)
                &&& x.name as int == le32(b@, pos + 4)
                &&& x.attribute_start as int == le16(b@, pos + 8)
                &&& x.attribute_size as int == le16(b@, pos + 10)
                &&& x.attribute_count as int == le16(b@, pos + 12)
                &&& x.id_index as int == le16(b@, pos + 14)
                &&& x.class_index as int == le16(b@, pos + 16)
                &&& x.style_index as int == le16(b@, pos + 18)
            },
    {
        if !available(b, pos, 20) {
            return None;
        }
        Some(XMLTreeAttrExt {
            ns: read_u32(b, pos)?,
            name: read_u32(b, pos + 4)?,
            attribute_start: read_u16(b, pos + 8)?,
            attribute_size: read_u16(b, pos + 10)?,
            attribute_count: read_u16(b, pos + 12)?,
            id_index: read_u16(b, pos + 14)?,
            class_index: read_u16(b, pos + 16)?,
            style_index: read_u16(b, pos + 18)?,
        })
    }

    /// Reads the 8-byte element record of an end-element chunk at `pos`: the
    /// namespace and name indices, the other fields 0.
    pub fn parse_end(b: &[u8], pos: usize) -> (r: Option<XMLTreeAttrExt>)
        ensures
            r is Some <==> fits(b@, pos as int, 8),
            r is Some ==> r->0.ns as int == le32(b@, pos as int) && r->0.name as int == le32(
                b@,
                pos + 4,
            ) && r->0.attribute_count == 0,
    {
        if !available(b, pos, 8) {
            return None;
        }
        Some(XMLTreeAttrExt {
            ns: read_u32(b, pos)?,
            name: read_u32(b, pos + 4)?,
            attribute_start: 0,
            attribute_size: 0,
            attribute_count: 0,
            id_index: 0,
            class_index: 0,
            style_index: 0,
        })
    }
}

/// An attribute record.
#[derive(Clone, Copy, Debug, PartialEq, Eq, Structural)]
pub struct XMLTreeAttribute {
    /// String index of the attribute's namespace.
    pub ns: u32,
    /// String index of the attribute's name.
    pub name: u32,
    /// String index of the attribute's raw text.
    pub raw_value: u32,
    pub typed_value: ResValue,
}

impl XMLTreeAttribute {
    /// Reads the 20-byte attribute record at `pos`.
    pub fn parse(b: &[u8], pos: usize) -> (r: Option<XMLTreeAttribute>)
        ensures
            r is Some <==> fits(b@, pos as int, 20),
            r is Some ==> r->0.name as int == le32(b@, pos + 4) && r->0.typed_value == res_value_at(
                b@,
                pos + 12,
            ),
    {
        if !available(b, pos, 20) {
            return None;
        }
        Some(XMLTreeAttribute {
            ns: read_u32(b, pos)?,
            name: read_u32(b, pos + 4)?,
            raw_value: read_u32(b, pos + 8)?,
            typed_value: ResValue::parse(b, pos + 12)?,
        })
    }
}

/// The resource-map chunk of a document; its ids are kept by
/// `AndroidManifest::resource_ids`, where `ids[i]` is the framework resource
/// id of the attribute named by string `i`.
pub struct ResourceMapChunk {}

/// An element event of a decoded document.
#[derive(Clone, Debug)]
pub enum XmlEvent {
    Start { name: String, attributes: Vec<(String, String)> },
    End { name: String },
}

/// What an element event holds.
pub enum EventView {
    Start(Seq<char>, Seq<(Seq<char>, Seq<char>)>),
    End(Seq<char>),
}

impl View for XmlEvent {
    type V = EventView;

    open spec fn view(&self) -> EventView {
        match self {
            XmlEvent::Start { name, attributes } => EventView::Start(name@, attributes.deep_view()),
            XmlEvent::End { name } => EventView::End(name@),
        }
    }
}

/// The events of a sequence, viewed.
pub open spec fn events_view(v: Seq<XmlEvent>) -> Seq<EventView> {
    v.map_values(|e: XmlEvent| e@)
}

/// Where the decoder stands between chunks.
pub struct XmlState {
    pub strings: Seq<Seq<char>>,
    pub ids: Seq<u32>,
    pub ns: (Seq<char>, Seq<char>),
    pub events: Seq<EventView>,
}

/// The text of string `i`, or `UNKNOWN` where there is none.
pub open spec fn string_or_unknown(strings: Seq<Seq<char>>, i: u32) -> Seq<char> {
    if (i as int) < strings.len() {
        strings[i as int]
    } else {
        "UNKNOWN"@
    }
}

/// The name of the attribute whose name index is `name`: the framework name
/// of its resource id where the map gives one the table knows, else string
/// `name`, else none.
pub open spec fn attr_name(strings: Seq<Seq<char>>, ids: Seq<u32>, name: u32) -> Option<Seq<char>> {
    if (name as int) < ids.len() && attribute_name_of(ids[name as int]) is Some {
        attribute_name_of(ids[name as int])
    } else if (name as int) < strings.len() {
        Some(strings[name as int])
    } else {
        None
    }
}

/// The attribute record at `a` as a name and a resolved value; `None` where
/// either is missing, and the attribute is dropped.
pub open spec fn attr_at(s: Seq<u8>, a: int, strings: Seq<Seq<char>>, ids: Seq<u32>, pk: Option<Map<u32, PackageView>>) -> Option<(Seq<char>, Seq<char>)> {
    let n = attr_name(strings, ids, le32(s, a + 4) as u32);
    let v = resolve_spec(render(res_value_at(s, a + 12), strings), pk);
    if n is Some && v is Some {
        Some((n->0, v->0))
    } else {
        None
    }
}

/// The attributes of an element from the `k`-th on, added to `acc`. Records
/// lie `stride` bytes apart from `first`.
pub open spec fn attrs_from(s: Seq<u8>, first: int, stride: int, count: int, strings: Seq<Seq<char>>, ids: Seq<u32>, pk: Option<Map<u32, PackageView>>, acc: Seq<(Seq<char>, Seq<char>)>, k: int) -> Result<Seq<(Seq<char>, Seq<char>)>, ParseError>
    decreases count - k,
{
    if k < 0 || k >= count {
        Ok(acc)
    } else if !fits(s, first + stride * k, 20) {
        Err(ParseError::Attribute)
    } else {
        let acc2 = match attr_at(s, first + stride * k, strings, ids, pk) {
            Some(p) => acc.push(p),
            None => acc,
        };
        attrs_from(s, first, stride, count, strings, ids, pk, acc2, k + 1)
    }
}

/// The start-element chunk at `pos`; its element record follows the 16-byte
/// node header.
pub open spec fn start_element(s: Seq<u8>, pos: int, strings: Seq<Seq<char>>, ids: Seq<u32>, pk: Option<Map<u32, PackageView>>) -> Result<EventView, ParseError> {
    let x = pos + 16;
    if !fits(s, x, 20) {
        Err(ParseError::StartElement)
    } else {
        match attrs_from(s, x + le16(s, x + 8), le16(s, x + 10), le16(s, x + 12), strings, ids, pk, Seq::empty(), 0) {
            Err(e) => Err(e),
            Ok(attrs) => Ok(EventView::Start(string_or_unknown(strings, le32(s, x + 4) as u32), attrs)),
        }
    }
}

/// The end-element chunk at `pos`.
pub open spec fn end_element(s: Seq<u8>, pos: int, strings: Seq<Seq<char>>) -> Result<EventView, ParseError> {
    if !fits(s, pos + 16, 8) {
        Err(ParseError::StartElement)
    } else {
        Ok(EventView::End(string_or_unknown(strings, le32(s, pos + 20) as u32)))
    }
}

/// Whether the decoder handles chunks of type `t` and goes on after them.
pub open spec fn continues_after(t: u16) -> bool {
    t == ChunkType::STRING_POOL || t == ChunkType::XML_RESOURCE_MAP || t == ChunkType::XML_START_NAMESPACE
        || t == ChunkType::XML_START_ELEMENT || t == ChunkType::XML_END_ELEMENT || t == ChunkType::XML_CDATA
}

/// The effect of the chunk at `pos` on the decoder's state.
#[verifier::opaque]
pub open spec fn xml_step(s: Seq<u8>, pos: int, pk: Option<Map<u32, PackageView>>, st: XmlState) -> Result<XmlState, ParseError> {
    let h = header_at(s, pos);
    if h.typ == ChunkType::STRING_POOL {
        match pool_strings(s, pos) {
            Err(_) => Err(ParseError::StringPool),
            Ok(strings) => Ok(XmlState { strings, ..st }),
        }
    } else if h.typ == ChunkType::XML_RESOURCE_MAP {
        let n = (h.chunk_size - h.header_size) / 4;
        if h.chunk_size < h.header_size || !fits(s, pos + 8, 4 * n) {
            Err(ParseError::ResourceMap)
        } else {
            Ok(XmlState { ids: words32(s, pos + 8, n), ..st })
        }
    } else if h.typ == ChunkType::XML_START_NAMESPACE {
        if !fits(s, pos + 16, 8) {
            Err(ParseError::StartNamespace)
        } else {
            Ok(XmlState {
                ns: (string_or_unknown(st.strings, le32(s, pos + 16) as u32), string_or_unknown(st.strings, le32(s, pos + 20) as u32)),
                ..st
            })
        }
    } else if h.typ == ChunkType::XML_START_ELEMENT {
        match start_element(s, pos, st.strings, st.ids, pk) {
            Err(e) => Err(e),
            Ok(ev) => Ok(XmlState { events: st.events.push(ev), ..st }),
        }
    } else if h.typ == ChunkType::XML_END_ELEMENT {
        match end_element(s, pos, st.strings) {
            Err(e) => Err(e),
            Ok(ev) => Ok(XmlState { events: st.events.push(ev), ..st }),
        }
    } else {
        Ok(st)
    }
}

/// The document's chunks from `pos` on. An end-namespace chunk or one of an
/// unknown type ends the walk, as does a chunk of size 0 or one that reaches
/// the end of the input.
pub open spec fn xml_from(s: Seq<u8>, pos: int, pk: Option<Map<u32, PackageView>>, st: XmlState) -> Result<XmlState, ParseError>
    decreases s.len() - pos,
{
    if pos < 0 || pos >= s.len() {
        Ok(st)
    } else if !fits(s, pos, 8) {
        Err(ParseError::ChunkHeader)
    } else {
        let h = header_at(s, pos);
        if !continues_after(h.typ) {
            Ok(st)
        } else {
            match xml_step(s, pos, pk, st) {
                Err(e) => Err(e),
                Ok(st2) => if h.chunk_size == 0 || pos + h.chunk_size >= s.len() {
                    Ok(st2)
                } else {
                    xml_from(s, pos + h.chunk_size, pk, st2)
                },
            }
        }
    }
}

/// The namespace assumed before any start-namespace chunk.
pub open spec fn default_ns() -> (Seq<char>, Seq<char>) {
    ("android"@, "http://schemas.android.com/apk/res/android"@)
}

/// The decoded document: its chunks follow the 8-byte outer header, whose
/// type is not checked.
pub open spec fn decode_xml(s: Seq<u8>, pk: Option<Map<u32, PackageView>>) -> Result<XmlState, ParseError> {
    if !fits(s, 0, 8) {
        Err(ParseError::ChunkHeader)
    } else {
        xml_from(s, 8, pk, XmlState { strings: Seq::empty(), ids: Seq::empty(), ns: default_ns(), events: Seq::empty() })
    }
}

/// The text of one event.
pub open spec fn event_text(e: EventView) -> Seq<char> {
    match e {
        EventView::Start(name, attrs) => start_tag_text(name, attrs),
        EventView::End(name) => end_tag_text(name),
    }
}

/// The bytes of a sequence of events, each written as UTF-8.
pub open spec fn events_bytes(evs: Seq<EventView>) -> Seq<u8>
    decreases evs.len(),
{
    if evs.len() == 0 {
        Seq::empty()
    } else {
        events_bytes(evs.drop_last()) + utf8_of(event_text(evs.last()))
    }
}

/// The bytes of a document: the declaration, then its events.
pub open spec fn document_bytes(evs: Seq<EventView>) -> Seq<u8> {
    utf8_of(decl_text("1.1"@, "utf-8"@)) + events_bytes(evs)
}

// ---------------------------------------------------------------------------
// The decoder.

fn name_or_unknown(strings: &Vec<String>, i: u32) -> (r: String)
    ensures
        r@ == string_or_unknown(strings.deep_view(), i),
{
    if (i as usize) < strings.len() {
        strings[i as usize].clone()
    } else {
        "UNKNOWN".to_owned()
    }
}

fn decode_attr_name(strings: &Vec<String>, ids: &Vec<u32>, name: u32) -> (r: Option<String>)
    ensures
        r.deep_view() == attr_name(strings.deep_view(), ids@, name),
{
    if (name as usize) < ids.len() {
        let n = get_attribute_name(ids[name as usize]);
        if n.is_some() {
            return n;
        }
    }
    if (name as usize) < strings.len() {
        Some(strings[name as usize].clone())
    } else {
        None
    }
}

fn decode_attrs(b: &[u8], first: usize, stride: u16, count: u16, strings: &Vec<String>, ids: &Vec<u32>, arsc: Option<&Arsc>) -> (r: Result<Vec<(String, String)>, ParseError>)
    ensures
        match attrs_from(b@, first as int, stride as int, count as int, strings.deep_view(), ids@, packages_of(arsc), Seq::empty(), 0) {
            Ok(v) => r is Ok && r->Ok_0.deep_view() == v,
            Err(e) => r == Err::<Vec<(String, String)>, _>(e),
        },
{
    let len = b.len();
    let ghost pk = packages_of(arsc);
    let ghost dv = strings.deep_view();
    let mut out: Vec<(String, String)> = Vec::new();
    let mut k: u16 = 0;
    assert(out.deep_view() =~= Seq::<(Seq<char>, Seq<char>)>::empty());
    while k < count
        invariant
            len == b@.len(),
            pk == packages_of(arsc),
            dv == strings.deep_view(),
            attrs_from(b@, first as int, stride as int, count as int, dv, ids@, pk, Seq::empty(), 0)
                == attrs_from(b@, first as int, stride as int, count as int, dv, ids@, pk, out.deep_view(), k as int),
        decreases count - k,
    {
        assert(stride as u32 * k as u32 <= 0xFFFF_FFFF) by (nonlinear_arith)
            requires
                stride <= 0xFFFF,
                k <= 0xFFFF,
        ;
        let a = match advance(first, stride as u32 * k as u32) {
            Some(a) => a,
            None => return Err(ParseError::Attribute),
        };
        let attr = match XMLTreeAttribute::parse(b, a) {
            Some(x) => x,
            None => return Err(ParseError::Attribute),
        };
        let name = decode_attr_name(strings, ids, attr.name);
        let value = resolve(arsc, attr.typed_value.as_string(strings));
        match (name, value) {
            (Some(n), Some(v)) => {
                let ghost before = out.deep_view();
                let ghost pair = (n@, v@);
                out.push((n, v));
                assert(out.deep_view() =~= before.push(pair));
            },
            _ => {},
        }
        k += 1;
    }
    Ok(out)
}

fn decode_start_element(b: &[u8], pos: usize, strings: &Vec<String>, ids: &Vec<u32>, arsc: Option<&Arsc>) -> (r: Result<XmlEvent, ParseError>)
    ensures
        match start_element(b@, pos as int, strings.deep_view(), ids@, packages_of(arsc)) {
            Ok(ev) => r is Ok && r->Ok_0@ == ev,
            Err(e) => r == Err::<XmlEvent, _>(e),
        },
{
    let len = b.len();
    let x = match advance(pos, 16) {
        Some(x) => x,
        None => return Err(ParseError::StartElement),
    };
    let ext = match XMLTreeAttrExt::parse(b, x) {
        Some(e) => e,
        None => return Err(ParseError::StartElement),
    };
    let name = name_or_unknown(strings, ext.name);
    let first = match advance(x, ext.attribute_start as u32) {
        Some(f) => f,
        None => {
            if ext.attribute_count == 0 {
                assert(attrs_from(b@, x + ext.attribute_start, ext.attribute_size as int, 0, strings.deep_view(), ids@, packages_of(arsc), Seq::empty(), 0)
                    == Ok::<_, ParseError>(Seq::<(Seq<char>, Seq<char>)>::empty()));
                let attributes: Vec<(String, String)> = Vec::new();
                assert(attributes.deep_view() =~= Seq::<(Seq<char>, Seq<char>)>::empty());
                return Ok(XmlEvent::Start { name, attributes });
            }
            return Err(ParseError::Attribute);
        },
    };
    match decode_attrs(b, first, ext.attribute_size, ext.attribute_count, strings, ids, arsc) {
        Err(e) => Err(e),
        Ok(attributes) => Ok(XmlEvent::Start { name, attributes }),
    }
}

fn decode_end_element(b: &[u8], pos: usize, strings: &Vec<String>) -> (r: Result<XmlEvent, ParseError>)
    ensures
        match end_element(b@, pos as int, strings.deep_view()) {
            Ok(ev) => r is Ok && r->Ok_0@ == ev,
            Err(e) => r == Err::<XmlEvent, _>(e),
        },
{
    let len = b.len();
    let x = match advance(pos, 16) {
        Some(x) => x,
        None => return Err(ParseError::StartElement),
    };
    let ext = match XMLTreeAttrExt::parse_end(b, x) {
        Some(e) => e,
        None => return Err(ParseError::StartElement),
    };
    Ok(XmlEvent::End { name: name_or_unknown(strings, ext.name) })
}

/// The decoder's state between chunks.
struct DecodeState {
    strings: Vec<String>,
    ids: Vec<u32>,
    ns: XmlNamespace,
    events: Vec<XmlEvent>,
}

impl View for DecodeState {
    type V = XmlState;

    closed spec fn view(&self) -> XmlState {
        XmlState {
            strings: self.strings.deep_view(),
            ids: self.ids@,
            ns: (self.ns.prefix@, self.ns.uri@),
            events: events_view(self.events@),
        }
    }
}

fn continues(t: u16) -> (r: bool)
    ensures
        r == continues_after(t),
{
    t == ChunkType::STRING_POOL || t == ChunkType::XML_RESOURCE_MAP || t == ChunkType::XML_START_NAMESPACE
        || t == ChunkType::XML_START_ELEMENT || t == ChunkType::XML_END_ELEMENT || t == ChunkType::XML_CDATA
}

fn decode_chunk(b: &[u8], pos: usize, typ: u16, arsc: Option<&Arsc>, st: &mut DecodeState) -> (r: Result<(), ParseError>)
    requires
        fits(b@, pos as int, 8),
        typ == header_at(b@, pos as int).typ,
    ensures
        match xml_step(b@, pos as int, packages_of(arsc), old(st)@) {
            Ok(st2) => r is Ok && final(st)@ == st2,
            Err(e) => r == Err::<(), _>(e),
        },
{
    reveal(xml_step);
    let len = b.len();
    let ghost events0 = events_view(st.events@);
    if typ == ChunkType::STRING_POOL {
        st.strings = match string_table(b, pos) {
            Ok(v) => v,
            Err(_) => return Err(ParseError::StringPool),
        };
    } else if typ == ChunkType::XML_RESOURCE_MAP {
        let h = match ChunkHeader::parse(b, pos) {
            Some(h) => h,
            None => return Err(ParseError::ResourceMap),
        };
        if h.chunk_size < h.header_size as u32 {
            return Err(ParseError::ResourceMap);
        }
        let n = ((h.chunk_size - h.header_size as u32) / 4) as usize;
        if (len - (pos + 8)) / 4 < n {
            return Err(ParseError::ResourceMap);
        }
        st.ids = take_u32s(b, pos + 8, n);
    } else if typ == ChunkType::XML_START_NAMESPACE {
        if !available(b, pos, 24) {
            return Err(ParseError::StartNamespace);
        }
        let prefix = match read_u32(b, pos + 16) {
            Some(i) => i,
            None => return Err(ParseError::StartNamespace),
        };
        let uri = match read_u32(b, pos + 20) {
            Some(i) => i,
            None => return Err(ParseError::StartNamespace),
        };
        st.ns = XmlNamespace {
            prefix: name_or_unknown(&st.strings, prefix),
            uri: name_or_unknown(&st.strings, uri),
        };
    } else if typ == ChunkType::XML_START_ELEMENT {
        match decode_start_element(b, pos, &st.strings, &st.ids, arsc) {
            Err(e) => return Err(e),
            Ok(ev) => {
                let ghost evv = ev@;
                st.events.push(ev);
                assert(events_view(st.events@) =~= events0.push(evv));
            },
        }
    } else if typ == ChunkType::XML_END_ELEMENT {
        match decode_end_element(b, pos, &st.strings) {
            Err(e) => return Err(e),
            Ok(ev) => {
                let ghost evv = ev@;
                st.events.push(ev);
                assert(events_view(st.events@) =~= events0.push(evv));
            },
        }
    }
    Ok(())
}

/// A binary XML document and what its decoding found.
#[derive(Clone, Debug)]
pub struct AndroidManifest<'bxml> {
    binary_xml: &'bxml [u8],
    strings: Vec<String>,
    resource_ids: Vec<u32>,
    xml_namespace: XmlNamespace,
}

impl<'bxml> AndroidManifest<'bxml> {
    /// The bytes of the document.
    pub closed spec fn bytes(&self) -> Seq<u8> {
        self.binary_xml@
    }

    /// The document's string pool.
    pub closed spec fn strings_view(&self) -> Seq<Seq<char>> {
        self.strings.deep_view()
    }

    /// The document's resource-id map.
    pub closed spec fn resource_ids_view(&self) -> Seq<u32> {
        self.resource_ids@
    }

    /// The namespace in effect, as prefix and URI.
    pub closed spec fn namespace_view(&self) -> (Seq<char>, Seq<char>) {
        (self.xml_namespace.prefix@, self.xml_namespace.uri@)
    }

    /// A document over `binary_xml` with nothing decoded yet, in the Android
    /// namespace.
    pub fn new(binary_xml: &'bxml [u8]) -> (r: Self)
        ensures
            r.bytes() == binary_xml@,
            r.strings_view() == Seq::<Seq<char>>::empty(),
            r.resource_ids_view() == Seq::<u32>::empty(),
            r.namespace_view() == default_ns(),
    {
        let r = Self {
            binary_xml,
            strings: Vec::new(),
            resource_ids: Vec::new(),
            xml_namespace: XmlNamespace {
                prefix: "android".to_owned(),
                uri: "http://schemas.android.com/apk/res/android".to_owned(),
            },
        };
        assert(r.strings.deep_view() =~= Seq::<Seq<char>>::empty());
        r
    }

    /// The document's string pool.
    pub fn strings(&self) -> (r: &Vec<String>)
        ensures
            r.deep_view() == self.strings_view(),
    {
        &self.strings
    }

    /// The document's resource-id map.
    pub fn resource_ids(&self) -> (r: &Vec<u32>)
        ensures
            r@ == self.resource_ids_view(),
    {
        &self.resource_ids
    }

    /// The namespace in effect.
    pub fn namespace(&self) -> (r: &XmlNamespace)
        ensures
            (r.prefix@, r.uri@) == self.namespace_view(),
    {
        &self.xml_namespace
    }

    /// Decodes the document into element events, resolving attribute values
    /// through `arsc` where one is given. On success the string pool, the
    /// resource-id map and the namespace are those the decoding ends with; on
    /// failure the document is left as it was.
    pub fn decode_events(&mut self, arsc: Option<&Arsc>) -> (r: Result<Vec<XmlEvent>, ParseError>)
        ensures
            final(self).bytes() == old(self).bytes(),
            match decode_xml(old(self).bytes(), packages_of(arsc)) {
                Ok(st) => r is Ok && events_view(r->Ok_0@) == st.events
                    && final(self).strings_view() == st.strings
                    && final(self).resource_ids_view() == st.ids
                    && final(self).namespace_view() == st.ns,
                Err(e) => r == Err::<Vec<XmlEvent>, _>(e) && *final(self) == *old(self),
            },
    {
        let b = self.binary_xml;
        let len = b.len();
        let ghost pk = packages_of(arsc);
        if ChunkHeader::parse(b, 0).is_none() {
            return Err(ParseError::ChunkHeader);
        }
        let mut st = DecodeState {
            strings: Vec::new(),
            ids: Vec::new(),
            ns: XmlNamespace {
                prefix: "android".to_owned(),
                uri: "http://schemas.android.com/apk/res/android".to_owned(),
            },
            events: Vec::new(),
        };
        let mut pos: usize = 8;
        assert(st.strings.deep_view() =~= Seq::<Seq<char>>::empty());
        assert(events_view(st.events@) =~= Seq::<EventView>::empty());
        while pos < len
            invariant_except_break
                decode_xml(b@, pk) == xml_from(b@, pos as int, pk, st.view()),
            invariant
                len == b@.len(),
                b@ == self.binary_xml@,
                pk == packages_of(arsc),
            ensures
                decode_xml(b@, pk) == Ok::<_, ParseError>(st.view()),
            decreases len - pos,
        {
            let h = match ChunkHeader::parse(b, pos) {
                Some(h) => h,
                None => return Err(ParseError::ChunkHeader),
            };
            if !continues(h.typ) {
                break;
            }
            match decode_chunk(b, pos, h.typ, arsc, &mut st) {
                Err(e) => return Err(e),
                Ok(()) => {},
            }
            if h.chunk_size == 0 || h.chunk_size as usize >= len - pos {
                break;
            }
            pos = pos + h.chunk_size as usize;
        }
        self.strings = st.strings;
        self.resource_ids = st.ids;
        self.xml_namespace = st.ns;
        Ok(st.events)
    }
}

/// Writes the XML declaration (version 1.1, UTF-8) and then each event, in
/// order. A failure of the writer on the declaration would be `BuildXml`, on
/// an element `StartElement`; writing into memory does not fail.
pub fn write_document(events: &Vec<XmlEvent>) -> (r: Result<Vec<u8>, ParseError>)
    ensures
        r is Ok,
        r->Ok_0@ == document_bytes(events_view(events@)),
{
    let mut out = match write_decl("1.1", "utf-8") {
        Ok(v) => v,
        Err(_) => return Err(ParseError::BuildXml),
    };
    let ghost decl = out@;
    let mut i: usize = 0;
    while i < events.len()
        invariant
            i <= events@.len(),
            decl == utf8_of(decl_text("1.1"@, "utf-8"@)),
            out@ == decl + events_bytes(events_view(events@).take(i as int)),
        decreases events@.len() - i,
    {
        let mut piece = match &events[i] {
            XmlEvent::Start { name, attributes } => match write_start_tag(name.as_str(), attributes) {
                Ok(v) => v,
                Err(_) => return Err(ParseError::StartElement),
            },
            XmlEvent::End { name } => match write_end_tag(name.as_str()) {
                Ok(v) => v,
                Err(_) => return Err(ParseError::StartElement),
            },
        };
        proof {
            let evs = events_view(events@);
            assert(evs.take(i + 1).drop_last() =~= evs.take(i as int));
            assert(piece@ == utf8_of(event_text(evs[i as int])));
        }
        out.append(&mut piece);
        i += 1;
    }
    assert(events_view(events@).take(events@.len() as int) =~= events_view(events@));
    Ok(out)
}

impl<'bxml> AndroidManifest<'bxml> {
    /// Decodes the document and writes it as XML text: a declaration, then a
    /// start or end tag for each element event. Attribute values are resolved
    /// through `arsc` where one is given.
    pub fn parse(&mut self, arsc: Option<&Arsc>) -> (r: Result<Vec<u8>, ParseError>)
        ensures
            final(self).bytes() == old(self).bytes(),
            match decode_xml(old(self).bytes(), packages_of(arsc)) {
                Ok(st) => r is Ok && r->Ok_0@ == document_bytes(st.events)
                    && final(self).strings_view() == st.strings
                    && final(self).resource_ids_view() == st.ids
                    && final(self).namespace_view() == st.ns,
                Err(e) => r == Err::<Vec<u8>, _>(e),
            },
    {
        let events = self.decode_events(arsc)?;
        write_document(&events)
    }
}

/// A name written for a string index is that string where the pool has it,
/// and the literal `UNKNOWN` otherwise.
pub proof fn lemma_rendered_names(strings: Seq<Seq<char>>, i: u32)
    ensures
        (i as int) < strings.len() ==> string_or_unknown(strings, i) == strings[i as int],
        (i as int) >= strings.len() ==> string_or_unknown(strings, i) == "UNKNOWN"@,
{
}

/// The name of an element event.
pub open spec fn event_name(e: EventView) -> Seq<char> {
    match e {
        EventView::Start(name, _) => name,
        EventView::End(name) => name,
    }
}

/// Whether `t` is one of the strings of a string pool found in `s`.
pub open spec fn pooled(s: Seq<u8>, t: Seq<char>) -> bool {
    exists|q: int| #[trigger] pool_strings(s, q) is Ok && pool_strings(s, q)->Ok_0.contains(t)
}

/// Whether every event is named `UNKNOWN` or by a pooled string.
pub open spec fn names_pooled(s: Seq<u8>, evs: Seq<EventView>) -> bool {
    forall|i: int| 0 <= i < evs.len() ==> event_name(#[trigger] evs[i]) == "UNKNOWN"@ || pooled(s, event_name(evs[i]))
}

/// Whether every string of `strings` is pooled.
pub open spec fn strings_pooled(s: Seq<u8>, strings: Seq<Seq<char>>) -> bool {
    forall|j: int| 0 <= j < strings.len() ==> pooled(s, #[trigger] strings[j])
}

proof fn lemma_step_names(s: Seq<u8>, pos: int, pk: Option<Map<u32, PackageView>>, st: XmlState)
    requires
        names_pooled(s, st.events),
        strings_pooled(s, st.strings),
    ensures
        xml_step(s, pos, pk, st) is Ok ==> names_pooled(s, xml_step(s, pos, pk, st)->Ok_0.events)
            && strings_pooled(s, xml_step(s, pos, pk, st)->Ok_0.strings),
{
    reveal(xml_step);
    let h = header_at(s, pos);
    if h.typ == ChunkType::STRING_POOL {
        if pool_strings(s, pos) is Ok {
            let st2 = pool_strings(s, pos)->Ok_0;
            assert forall|j: int| 0 <= j < st2.len() implies pooled(s, #[trigger] st2[j]) by {
                assert(st2.contains(st2[j]));
                assert(pool_strings(s, pos) is Ok && pool_strings(s, pos)->Ok_0.contains(st2[j]));
            }
        }
    } else if h.typ == ChunkType::XML_START_ELEMENT || h.typ == ChunkType::XML_END_ELEMENT {
        let r = if h.typ == ChunkType::XML_START_ELEMENT {
            start_element(s, pos, st.strings, st.ids, pk)
        } else {
            end_element(s, pos, st.strings)
        };
        if r is Ok {
            let ev = r->Ok_0;
            let idx = le32(s, pos + 20) as u32;
            assert(event_name(ev) == string_or_unknown(st.strings, idx));
            if (idx as int) < st.strings.len() {
                assert(pooled(s, st.strings[idx as int]));
            }
            let evs = st.events.push(ev);
            assert forall|i: int| 0 <= i < evs.len() implies event_name(#[trigger] evs[i]) == "UNKNOWN"@ || pooled(s, event_name(evs[i])) by {
                if i < st.events.len() {
                    assert(evs[i] == st.events[i]);
                }
            }
        }
    }
}

proof fn lemma_from_names(s: Seq<u8>, pos: int, pk: Option<Map<u32, PackageView>>, st: XmlState)
    requires
        names_pooled(s, st.events),
        strings_pooled(s, st.strings),
    ensures
        xml_from(s, pos, pk, st) is Ok ==> names_pooled(s, xml_from(s, pos, pk, st)->Ok_0.events),
    decreases s.len() - pos,
{
    if 0 <= pos < s.len() && fits(s, pos, 8) && continues_after(header_at(s, pos).typ) {
        lemma_step_names(s, pos, pk, st);
        let h = header_at(s, pos);
        if xml_step(s, pos, pk, st) is Ok && !(h.chunk_size == 0 || pos + h.chunk_size >= s.len()) {
            lemma_from_names(s, pos + h.chunk_size, pk, xml_step(s, pos, pk, st)->Ok_0);
        }
    }
}

/// Every element written for a decoded document is named by a string of one
/// of the document's string pools, or by the literal `UNKNOWN` where its
/// index lies outside the pool in effect.
pub proof fn lemma_element_names_pooled_or_unknown(s: Seq<u8>, pk: Option<Map<u32, PackageView>>)
    ensures
        decode_xml(s, pk) is Ok ==> names_pooled(s, decode_xml(s, pk)->Ok_0.events),
{
    if fits(s, 0, 8) {
        let st = XmlState { strings: Seq::empty(), ids: Seq::empty(), ns: default_ns(), events: Seq::empty() };
        lemma_from_names(s, 8, pk, st);
    }
}

} // verus!
