//! The XML text of start tags, end tags and the declaration, written by
//! quick-xml's `Writer`.

use vstd::prelude::*;

verus! {

/// quick-xml's error type, returned by its writer and mapped by the callers
/// to the library's own errors.
#[verifier::external_type_specification]
#[verifier::external_body]
pub struct ExXmlError(quick_xml::Error);

/// The UTF-8 encoding of one character.
pub open spec fn char_utf8(c: char) -> Seq<u8> {
    let v = c as u32 as int;
    if v < 0x80 {
        seq![v as u8]
    } else if v < 0x800 {
        seq![(0xC0 + v / 64) as u8, (0x80 + v % 64) as u8]
    } else if v < 0x1_0000 {
        seq![(0xE0 + v / 4096) as u8, (0x80 + (v / 64) % 64) as u8, (0x80 + v % 64) as u8]
    } else {
        seq![
            (0xF0 + v / 262144) as u8,
            (0x80 + (v / 4096) % 64) as u8,
            (0x80 + (v / 64) % 64) as u8,
            (0x80 + v % 64) as u8,
        ]
    }
}

/// The UTF-8 encoding of a character sequence.
pub open spec fn utf8_of(s: Seq<char>) -> Seq<u8>
    decreases s.len(),
{
    if s.len() == 0 {
        Seq::empty()
    } else {
        utf8_of(s.drop_last()) + char_utf8(s.last())
    }
}

/// A character with XML's five special characters replaced by entities.
pub open spec fn escape_char(c: char) -> Seq<char> {
    if c == '<' {
        "&lt;"@
    } else if c == '>' {
        "&gt;"@
    } else if c == '&' {
        "&amp;"@
    } else if c == '\'' {
        "&apos;"@
    } else if c == '"' {
        "&quot;"@
    } else {
        seq![c]
    }
}

/// A text with XML's five special characters replaced by entities.
pub open spec fn xml_escape(s: Seq<char>) -> Seq<char>
    decreases s.len(),
{
    if s.len() == 0 {
        Seq::empty()
    } else {
        xml_escape(s.drop_last()) + escape_char(s.last())
    }
}

/// The attributes of a start tag: each as ` key="value"`, the value escaped.
pub open spec fn attributes_text(attrs: Seq<(Seq<char>, Seq<char>)>) -> Seq<char>
    decreases attrs.len(),
{
    if attrs.len() == 0 {
        Seq::empty()
    } else {
        let (k, v) = attrs.last();
        attributes_text(attrs.drop_last()) + " "@ + k + "=\""@ + xml_escape(v) + "\""@
    }
}

/// A start tag.
pub open spec fn start_tag_text(name: Seq<char>, attrs: Seq<(Seq<char>, Seq<char>)>) -> Seq<char> {
    "<"@ + name + attributes_text(attrs) + ">"@
}

/// An end tag.
pub open spec fn end_tag_text(name: Seq<char>) -> Seq<char> {
    "</"@ + name + ">"@
}

/// An XML declaration with a version and an encoding.
pub open spec fn decl_text(version: Seq<char>, encoding: Seq<char>) -> Seq<char> {
    "<?xml version=\""@ + version + "\" encoding=\""@ + encoding + "\"?>"@
}

/// Relies on `quick_xml::Writer::write_event` with an `Event::Start` made by
/// `BytesStart::new(name).with_attributes(..)`: the writer puts out `<`, the
/// name, for each attribute a space, the key, `="`, the value escaped by
/// `quick_xml::escape` and `"`, then `>`. Writing into a `Vec<u8>` does not
/// fail.
#[verifier::external_body]
pub(crate) fn write_start_tag(name: &str, attributes: &Vec<(String, String)>) -> (r: Result<Vec<u8>, quick_xml::Error>)
    ensures
        r is Ok,
        r->Ok_0@ == utf8_of(start_tag_text(name@, attributes.deep_view())),
{
    let start = quick_xml::events::BytesStart::new(name)
        .with_attributes(attributes.iter().map(|(k, v)| (k.as_str(), v.as_str())));
    let mut writer = quick_xml::Writer::new(Vec::new());
    writer.write_event(quick_xml::events::Event::Start(start))?;
    Ok(writer.into_inner())
}

/// Relies on `quick_xml::Writer::write_event` with an `Event::End` made by
/// `BytesEnd::new(name)`: the writer puts out `</`, the name and `>`.
/// Writing into a `Vec<u8>` does not fail.
#[verifier::external_body]
pub(crate) fn write_end_tag(name: &str) -> (r: Result<Vec<u8>, quick_xml::Error>)
    ensures
        r is Ok,
        r->Ok_0@ == utf8_of(end_tag_text(name@)),
{
    let mut writer = quick_xml::Writer::new(Vec::new());
    writer.write_event(quick_xml::events::Event::End(quick_xml::events::BytesEnd::new(name)))?;
    Ok(writer.into_inner())
}

/// Relies on `quick_xml::Writer::write_event` with an `Event::Decl` made by
/// `BytesDecl::new(version, Some(encoding), None)`: the writer puts out
/// `<?xml version="`, the version, `" encoding="`, the encoding and `"?>`.
/// Writing into a `Vec<u8>` does not fail.
#[verifier::external_body]
pub(crate) fn write_decl(version: &str, encoding: &str) -> (r: Result<Vec<u8>, quick_xml::Error>)
    ensures
        r is Ok,
        r->Ok_0@ == utf8_of(decl_text(version@, encoding@)),
{
    let decl = quick_xml::events::BytesDecl::new(version, Some(encoding), None);
    let mut writer = quick_xml::Writer::new(Vec::new());
    writer.write_event(quick_xml::events::Event::Decl(decl))?;
    Ok(writer.into_inner())
}

/// An escaped attribute value holds no `<`, `>`, `"` or `'`: it cannot end
/// its quotes or open a tag.
pub proof fn lemma_escaped_value_stays_quoted(v: Seq<char>)
    ensures
        forall|i: int|
            0 <= i < xml_escape(v).len() ==> #[trigger] xml_escape(v)[i] != '<' && xml_escape(v)[i] != '>'
                && xml_escape(v)[i] != '"' && xml_escape(v)[i] != '\'',
    decreases v.len(),
{
    reveal_strlit("&lt;");
    reveal_strlit("&gt;");
    reveal_strlit("&amp;");
    reveal_strlit("&apos;");
    reveal_strlit("&quot;");
    if v.len() > 0 {
        lemma_escaped_value_stays_quoted(v.drop_last());
        let a = xml_escape(v.drop_last());
        let b = escape_char(v.last());
        assert(xml_escape(v) == a + b);
        assert forall|i: int| 0 <= i < xml_escape(v).len() implies #[trigger] xml_escape(v)[i] != '<'
            && xml_escape(v)[i] != '>' && xml_escape(v)[i] != '"' && xml_escape(v)[i] != '\'' by {
            if i >= a.len() {
                assert(xml_escape(v)[i] == b[i - a.len()]);
            } else {
                assert(xml_escape(v)[i] == a[i]);
            }
        }
    }
}

} // verus!
