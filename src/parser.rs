//! Decoding of an application's manifest together with its resource table.

use vstd::prelude::*;
use crate::arsc_parser::{decode_table, Arsc};
use crate::chunks::ParseError;
use crate::xml_parser::{decode_xml, document_bytes, events_view, AndroidManifest, XmlEvent};

verus! {

/// The two files of an application package that the decoding needs.
pub struct Parser {
    arsc_raw: Vec<u8>,
    manifest_raw: Vec<u8>,
}

impl Parser {
    /// The bytes of `resources.arsc`.
    pub closed spec fn arsc_bytes(&self) -> Seq<u8> {
        self.arsc_raw@
    }

    /// The bytes of `AndroidManifest.xml`.
    pub closed spec fn manifest_bytes(&self) -> Seq<u8> {
        self.manifest_raw@
    }

    /// A parser over the bytes of `resources.arsc` and `AndroidManifest.xml`.
    pub fn from_bytes(arsc_raw: Vec<u8>, manifest_raw: Vec<u8>) -> (r: Self)
        ensures
            r.arsc_bytes() == arsc_raw@,
            r.manifest_bytes() == manifest_raw@,
    {
        Parser { arsc_raw, manifest_raw }
    }

    /// Decodes the resource table, then the manifest into element events with
    /// their attribute values resolved through the table.
    pub fn decode_events(&mut self) -> (r: Result<Vec<XmlEvent>, ParseError>)
        ensures
            *final(self) == *old(self),
            match decode_table(old(self).arsc_bytes()) {
                Err(e) => r == Err::<Vec<XmlEvent>, _>(e),
                Ok((_, packages)) => match decode_xml(old(self).manifest_bytes(), Some(packages)) {
                    Err(e) => r == Err::<Vec<XmlEvent>, _>(e),
                    Ok(st) => r is Ok && events_view(r->Ok_0@) == st.events,
                },
            },
    {
        let mut arsc_parser = Arsc::new(self.arsc_raw.as_slice());
        arsc_parser.parse()?;
        let mut manifest_parser = AndroidManifest::new(self.manifest_raw.as_slice());
        manifest_parser.decode_events(Some(&arsc_parser))
    }

    /// Decodes the resource table, then the manifest with its attribute values
    /// resolved through the table, and writes the manifest as XML text.
    pub fn parse(&mut self) -> (r: Result<Vec<u8>, ParseError>)
        ensures
            *final(self) == *old(self),
            match decode_table(old(self).arsc_bytes()) {
                Err(e) => r == Err::<Vec<u8>, _>(e),
                Ok((_, packages)) => match decode_xml(old(self).manifest_bytes(), Some(packages)) {
                    Err(e) => r == Err::<Vec<u8>, _>(e),
                    Ok(st) => r is Ok && r->Ok_0@ == document_bytes(st.events),
                },
            },
    {
        let mut arsc_parser = Arsc::new(self.arsc_raw.as_slice());
        arsc_parser.parse()?;
        let mut manifest_parser = AndroidManifest::new(self.manifest_raw.as_slice());
        manifest_parser.parse(Some(&arsc_parser))
    }
}

} // verus!
