use bxmlrs::chunks::ResType;
use bxmlrs::xml_parser::write_document;
use bxmlrs::{AndroidManifest, Arsc, ParseError, Parser, XmlEvent};

const ANDROID_URI: &str = "http://schemas.android.com/apk/res/android";

fn u16le(v: u16) -> [u8; 2] {
    v.to_le_bytes()
}

fn u32le(v: u32) -> [u8; 4] {
    v.to_le_bytes()
}

fn pool(strings: &[&str], utf8: bool) -> Vec<u8> {
    let mut data: Vec<u8> = Vec::new();
    let mut offsets: Vec<u32> = Vec::new();
    for s in strings {
        offsets.push(data.len() as u32);
        if utf8 {
            data.push(s.chars().count() as u8);
            data.push(s.len() as u8);
            data.extend_from_slice(s.as_bytes());
            data.push(0);
        } else {
            let units: Vec<u16> = s.encode_utf16().collect();
            data.extend_from_slice(&u16le(units.len() as u16));
            for u in units {
                data.extend_from_slice(&u16le(u));
            }
            data.extend_from_slice(&[0, 0]);
        }
    }
    while data.len() % 4 != 0 {
        data.push(0);
    }
    let strings_start = 28 + 4 * strings.len();
    let mut out = Vec::new();
    out.extend_from_slice(&u16le(0x0001));
    out.extend_from_slice(&u16le(28));
    out.extend_from_slice(&u32le((strings_start + data.len()) as u32));
    out.extend_from_slice(&u32le(strings.len() as u32));
    out.extend_from_slice(&u32le(0));
    out.extend_from_slice(&u32le(if utf8 { 0x100 } else { 0 }));
    out.extend_from_slice(&u32le(strings_start as u32));
    out.extend_from_slice(&u32le(0));
    for o in offsets {
        out.extend_from_slice(&u32le(o));
    }
    out.extend_from_slice(&data);
    out
}

fn resource_map(ids: &[u32]) -> Vec<u8> {
    let mut out = Vec::new();
    out.extend_from_slice(&u16le(0x0180));
    out.extend_from_slice(&u16le(8));
    out.extend_from_slice(&u32le((8 + 4 * ids.len()) as u32));
    for id in ids {
        out.extend_from_slice(&u32le(*id));
    }
    out
}

fn namespace(typ: u16, prefix: u32, uri: u32) -> Vec<u8> {
    let mut out = Vec::new();
    out.extend_from_slice(&u16le(typ));
    out.extend_from_slice(&u16le(16));
    out.extend_from_slice(&u32le(24));
    out.extend_from_slice(&u32le(1));
    out.extend_from_slice(&u32le(0xFFFF_FFFF));
    out.extend_from_slice(&u32le(prefix));
    out.extend_from_slice(&u32le(uri));
    out
}

fn start_element(name: u32, attrs: &[(u32, u8, u32)]) -> Vec<u8> {
    let mut out = Vec::new();
    out.extend_from_slice(&u16le(0x0102));
    out.extend_from_slice(&u16le(16));
    out.extend_from_slice(&u32le((36 + 20 * attrs.len()) as u32));
    out.extend_from_slice(&u32le(1));
    out.extend_from_slice(&u32le(0xFFFF_FFFF));
    out.extend_from_slice(&u32le(0xFFFF_FFFF));
    out.extend_from_slice(&u32le(name));
    out.extend_from_slice(&u16le(20));
    out.extend_from_slice(&u16le(20));
    out.extend_from_slice(&u16le(attrs.len() as u16));
    out.extend_from_slice(&u16le(0));
    out.extend_from_slice(&u16le(0));
    out.extend_from_slice(&u16le(0));
    for (n, t, d) in attrs {
        out.extend_from_slice(&u32le(0xFFFF_FFFF));
        out.extend_from_slice(&u32le(*n));
        out.extend_from_slice(&u32le(0xFFFF_FFFF));
        out.extend_from_slice(&u16le(8));
        out.push(0);
        out.push(*t);
        out.extend_from_slice(&u32le(*d));
    }
    out
}

fn end_element(name: u32) -> Vec<u8> {
    let mut out = Vec::new();
    out.extend_from_slice(&u16le(0x0103));
    out.extend_from_slice(&u16le(16));
    out.extend_from_slice(&u32le(24));
    out.extend_from_slice(&u32le(1));
    out.extend_from_slice(&u32le(0xFFFF_FFFF));
    out.extend_from_slice(&u32le(0xFFFF_FFFF));
    out.extend_from_slice(&u32le(name));
    out
}

fn document(pool_bytes: Vec<u8>, ids: &[u32], body: &[Vec<u8>]) -> Vec<u8> {
    let rm = resource_map(ids);
    let size: usize = 8 + pool_bytes.len() + rm.len() + body.iter().map(|b| b.len()).sum::<usize>();
    let mut out = Vec::new();
    out.extend_from_slice(&u16le(0x0003));
    out.extend_from_slice(&u16le(8));
    out.extend_from_slice(&u32le(size as u32));
    out.extend_from_slice(&pool_bytes);
    out.extend_from_slice(&rm);
    for b in body {
        out.extend_from_slice(b);
    }
    out
}

// String indices of the sample manifest.
const S_MIN_SDK: u32 = 0;
const S_TARGET_SDK: u32 = 1;
const S_LABEL: u32 = 2;
const S_ANDROID: u32 = 3;
const S_URI: u32 = 4;
const S_MANIFEST: u32 = 5;
const S_PACKAGE: u32 = 6;
const S_PACKAGE_NAME: u32 = 7;
const S_USES_SDK: u32 = 8;
const S_APPLICATION: u32 = 9;
const S_THEME: u32 = 10;
const S_DESCRIPTION: u32 = 11;

fn sample_strings() -> Vec<&'static str> {
    vec![
        "minSdkVersion",
        "targetSdkVersion",
        "label",
        "android",
        ANDROID_URI,
        "manifest",
        "package",
        "com.example.app",
        "uses-sdk",
        "application",
        "theme",
        "a & b <c>",
    ]
}

fn sample_manifest() -> Vec<u8> {
    document(
        pool(&sample_strings(), false),
        &[0x0101020c, 0x01010270, 0x01010001],
        &[
            namespace(0x0100, S_ANDROID, S_URI),
            start_element(S_MANIFEST, &[(S_PACKAGE, ResType::STRING, S_PACKAGE_NAME)]),
            start_element(S_USES_SDK, &[(S_MIN_SDK, ResType::INT_DEC, 21), (S_TARGET_SDK, ResType::INT_DEC, 30)]),
            end_element(S_USES_SDK),
            start_element(
                S_APPLICATION,
                &[(S_LABEL, ResType::REFERENCE, 0x7f110001), (S_THEME, ResType::STRING, S_DESCRIPTION)],
            ),
            end_element(S_APPLICATION),
            end_element(S_MANIFEST),
            namespace(0x0101, S_ANDROID, S_URI),
        ],
    )
}

fn table_with_label() -> Vec<u8> {
    let gp = pool(&["Sample App"], true);
    let tp = pool(&["attr", "string"], false);
    let kp = pool(&["app_name", "alias"], true);
    let mut ty = Vec::new();
    let entries: [(u8, u32); 2] = [(ResType::REFERENCE, 0x7f110002), (ResType::STRING, 0)];
    let header_size = 28usize;
    let entries_start = header_size + 4 * 3;
    ty.extend_from_slice(&u16le(0x0201));
    ty.extend_from_slice(&u16le(header_size as u16));
    ty.extend_from_slice(&u32le((entries_start + 16 * 3) as u32));
    ty.push(0x11);
    ty.push(0);
    ty.extend_from_slice(&u16le(0));
    ty.extend_from_slice(&u32le(3));
    ty.extend_from_slice(&u32le(entries_start as u32));
    ty.extend_from_slice(&u32le(8));
    ty.extend_from_slice(&u32le(0));
    for i in 0..3u32 {
        ty.extend_from_slice(&u32le(16 * i));
    }
    let all: [(u8, u32); 3] = [(ResType::INT_DEC, 0), entries[0], entries[1]];
    for (t, d) in all {
        ty.extend_from_slice(&u16le(8));
        ty.extend_from_slice(&u16le(0));
        ty.extend_from_slice(&u32le(0));
        ty.extend_from_slice(&u16le(8));
        ty.push(0);
        ty.push(t);
        ty.extend_from_slice(&u32le(d));
    }
    let mut pkg = Vec::new();
    pkg.extend_from_slice(&u16le(0x0200));
    pkg.extend_from_slice(&u16le(284));
    pkg.extend_from_slice(&u32le((284 + tp.len() + kp.len() + ty.len()) as u32));
    pkg.extend_from_slice(&u32le(0x7f));
    for _ in 0..128 {
        pkg.extend_from_slice(&u16le(0));
    }
    pkg.extend_from_slice(&u32le(284));
    pkg.extend_from_slice(&u32le(0));
    pkg.extend_from_slice(&u32le((284 + tp.len()) as u32));
    pkg.extend_from_slice(&u32le(0));
    pkg.extend_from_slice(&tp);
    pkg.extend_from_slice(&kp);
    pkg.extend_from_slice(&ty);
    let mut out = Vec::new();
    out.extend_from_slice(&u16le(0x0002));
    out.extend_from_slice(&u16le(12));
    out.extend_from_slice(&u32le((12 + gp.len() + pkg.len()) as u32));
    out.extend_from_slice(&u32le(1));
    out.extend_from_slice(&gp);
    out.extend_from_slice(&pkg);
    out
}

fn decoded_text(bytes: &[u8], arsc: Option<&Arsc>) -> String {
    let mut m = AndroidManifest::new(bytes);
    String::from_utf8(m.parse(arsc).unwrap()).unwrap()
}

#[test]
fn test_xml_parser() {
    let bytes = sample_manifest();
    let mut parser = AndroidManifest::new(bytes.as_slice());
    assert!(parser.parse(None).is_ok());
    assert!(parser.strings().contains(&"theme".to_string()));
    assert_eq!(parser.resource_ids(), &vec![0x0101020c, 0x01010270, 0x01010001]);
    assert_eq!(parser.namespace().uri, ANDROID_URI);
}

#[test]
fn test_parser() {
    let mut parser = Parser::from_bytes(table_with_label(), sample_manifest());
    let out = parser.parse().unwrap();
    let text = std::str::from_utf8(&out).unwrap();
    let mut reader = quick_xml::Reader::from_str(text);
    reader.trim_text(true);
    let mut depth: i32 = 0;
    let mut elements = 0;
    loop {
        match reader.read_event() {
            Ok(quick_xml::events::Event::Eof) => break,
            Ok(quick_xml::events::Event::Start(_)) => {
                depth += 1;
                elements += 1;
            }
            Ok(quick_xml::events::Event::End(_)) => depth -= 1,
            Err(e) => panic!("Error at position {}: {:?}", reader.buffer_position(), e),
            _ => (),
        }
    }
    assert_eq!(depth, 0);
    assert_eq!(elements, 3);
}

#[test]
fn output_is_declaration_then_tags() {
    let text = decoded_text(&sample_manifest(), None);
    assert_eq!(
        text,
        "<?xml version=\"1.1\" encoding=\"utf-8\"?>\
         <manifest package=\"com.example.app\">\
         <uses-sdk minSdkVersion=\"21\" targetSdkVersion=\"30\"></uses-sdk>\
         <application label=\"@res/0x7f110001\" theme=\"a &amp; b &lt;c&gt;\"></application>\
         </manifest>"
    );
}

#[test]
fn root_is_manifest_with_package() {
    let bytes = sample_manifest();
    let mut m = AndroidManifest::new(bytes.as_slice());
    let events = m.decode_events(None).unwrap();
    match &events[0] {
        XmlEvent::Start { name, attributes } => {
            assert_eq!(name, "manifest");
            let package = attributes.iter().find(|(k, _)| k == "package").unwrap();
            assert!(!package.1.is_empty());
        }
        _ => panic!("first event is not a start tag"),
    }
}

#[test]
fn uses_sdk_versions_render_as_integers() {
    let text = decoded_text(&sample_manifest(), None);
    assert!(text.contains("<uses-sdk minSdkVersion=\"21\" targetSdkVersion=\"30\">"));
}

#[test]
fn reference_resolves_through_the_table() {
    let arsc_bytes = table_with_label();
    let mut arsc = Arsc::new(arsc_bytes.as_slice());
    arsc.parse().unwrap();
    assert_eq!(arsc.get_res_value(0x7f110001), Some("@res/0x7f110002".to_string()));
    let text = decoded_text(&sample_manifest(), Some(&arsc));
    assert!(text.contains("label=\"Sample App\""));
    assert!(!text.contains("@res/0x"));
}

#[test]
fn without_table_references_stay_textual() {
    let text = decoded_text(&sample_manifest(), None);
    assert!(text.contains("label=\"@res/0x7f110001\""));
}

#[test]
fn truncated_last_pool_entry_keeps_earlier_elements() {
    let mut p = pool(&["manifest", "uses-sdk", "application"], false);
    let last = 28 + 12 + u32::from_le_bytes([p[36], p[37], p[38], p[39]]) as usize;
    p[last..last + 2].copy_from_slice(&u16le(0x7FFF));
    let bytes = document(p, &[], &[start_element(0, &[]), start_element(1, &[]), end_element(1), end_element(0)]);
    let mut m = AndroidManifest::new(bytes.as_slice());
    let out = m.parse(None).unwrap();
    assert_eq!(m.strings(), &vec!["manifest".to_string(), "uses-sdk".to_string()]);
    let text = String::from_utf8(out).unwrap();
    assert!(text.contains("<manifest>"));
    assert!(text.contains("<uses-sdk></uses-sdk>"));
}

#[test]
fn unknown_string_index_renders_unknown() {
    let bytes = document(pool(&["manifest"], true), &[], &[start_element(7, &[(9, ResType::INT_DEC, 1)]), end_element(0)]);
    let text = decoded_text(&bytes, None);
    assert!(text.ends_with("<UNKNOWN></manifest>"));
}

#[test]
fn framework_names_come_from_the_resource_map() {
    let bytes = document(
        pool(&["x", "manifest"], true),
        &[0x01010003],
        &[start_element(1, &[(0, ResType::INT_BOOLEAN, 1)]), end_element(1)],
    );
    let text = decoded_text(&bytes, None);
    assert!(text.contains("<manifest name=\"true\">"));
}

#[test]
fn utf8_pool_with_invalid_bytes_uses_replacement() {
    let mut p = pool(&["ab"], true);
    let at = 28 + 4 + 2;
    p[at] = 0xFF;
    let bytes = document(p, &[], &[start_element(0, &[]), end_element(0)]);
    let mut m = AndroidManifest::new(bytes.as_slice());
    m.parse(None).unwrap();
    assert_eq!(m.strings(), &vec!["\u{FFFD}b".to_string()]);
}

#[test]
fn utf16_pool_with_lone_surrogate_uses_replacement() {
    let mut p = pool(&["ab"], false);
    let at = 28 + 4 + 2;
    p[at..at + 2].copy_from_slice(&u16le(0xD800));
    let bytes = document(p, &[], &[start_element(0, &[]), end_element(0)]);
    let mut m = AndroidManifest::new(bytes.as_slice());
    m.parse(None).unwrap();
    assert_eq!(m.strings(), &vec!["\u{FFFD}b".to_string()]);
}

#[test]
fn pool_entry_is_cut_at_nul() {
    let mut p = pool(&["abcd"], false);
    let at = 28 + 4 + 2 + 4;
    p[at..at + 2].copy_from_slice(&u16le(0));
    let bytes = document(p, &[], &[]);
    let mut m = AndroidManifest::new(bytes.as_slice());
    m.parse(None).unwrap();
    assert_eq!(m.strings(), &vec!["ab".to_string()]);
}

#[test]
fn short_document_is_a_chunk_header_error() {
    let bytes = vec![3u8, 0, 8];
    let mut m = AndroidManifest::new(bytes.as_slice());
    assert_eq!(m.parse(None), Err(ParseError::ChunkHeader));
}

#[test]
fn truncated_attribute_is_an_error() {
    let mut el = start_element(0, &[(0, ResType::INT_DEC, 1)]);
    el.truncate(el.len() - 4);
    let bytes = document(pool(&["a"], true), &[], &[el]);
    let mut m = AndroidManifest::new(bytes.as_slice());
    assert_eq!(m.parse(None), Err(ParseError::Attribute));
}

#[test]
fn truncated_start_element_is_an_error() {
    let mut el = start_element(0, &[]);
    el.truncate(20);
    let bytes = document(pool(&["a"], true), &[], &[el]);
    let mut m = AndroidManifest::new(bytes.as_slice());
    assert_eq!(m.parse(None), Err(ParseError::StartElement));
}

#[test]
fn truncated_namespace_is_an_error() {
    let mut ns = namespace(0x0100, 0, 0);
    ns.truncate(18);
    let bytes = document(pool(&["a"], true), &[], &[ns]);
    let mut m = AndroidManifest::new(bytes.as_slice());
    assert_eq!(m.parse(None), Err(ParseError::StartNamespace));
}

#[test]
fn bad_resource_map_is_an_error() {
    let mut rm = resource_map(&[1, 2]);
    rm[4..8].copy_from_slice(&u32le(4));
    let p = pool(&["a"], true);
    let mut bytes = Vec::new();
    bytes.extend_from_slice(&u16le(0x0003));
    bytes.extend_from_slice(&u16le(8));
    bytes.extend_from_slice(&u32le(0));
    bytes.extend_from_slice(&p);
    bytes.extend_from_slice(&rm);
    let mut m = AndroidManifest::new(bytes.as_slice());
    assert_eq!(m.parse(None), Err(ParseError::ResourceMap));
}

#[test]
fn bad_document_pool_is_a_string_pool_error() {
    let mut bytes = Vec::new();
    bytes.extend_from_slice(&u16le(0x0003));
    bytes.extend_from_slice(&u16le(8));
    bytes.extend_from_slice(&u32le(0));
    bytes.extend_from_slice(&u16le(0x0001));
    bytes.extend_from_slice(&u16le(28));
    bytes.extend_from_slice(&u32le(28));
    bytes.extend_from_slice(&u32le(5));
    let mut m = AndroidManifest::new(bytes.as_slice());
    assert_eq!(m.parse(None), Err(ParseError::StringPool));
}

#[test]
fn unknown_chunk_ends_the_document() {
    let mut other = end_element(0);
    other[0..2].copy_from_slice(&u16le(0x0999));
    let bytes = document(pool(&["a"], true), &[], &[start_element(0, &[]), other, end_element(0)]);
    let text = decoded_text(&bytes, None);
    assert!(text.ends_with("<a>"));
}

#[test]
fn written_document_escapes_attribute_values() {
    let events = vec![
        XmlEvent::Start { name: "e".to_string(), attributes: vec![("k".to_string(), "'\"".to_string())] },
        XmlEvent::End { name: "e".to_string() },
    ];
    let out = write_document(&events).unwrap();
    assert_eq!(
        String::from_utf8(out).unwrap(),
        "<?xml version=\"1.1\" encoding=\"utf-8\"?><e k=\"&apos;&quot;\"></e>"
    );
}

#[test]
fn missing_table_in_package_is_an_error() {
    let mut parser = Parser::from_bytes(Vec::new(), sample_manifest());
    assert_eq!(parser.parse(), Err(ParseError::ChunkHeader));
}

#[test]
fn summary_collects_components_and_fields() {
    let s = |v: &str| v.to_string();
    let attrs = |pairs: &[(&str, &str)]| pairs.iter().map(|(k, v)| (s(k), s(v))).collect::<Vec<_>>();
    let start = |n: &str, a: &[(&str, &str)]| XmlEvent::Start { name: s(n), attributes: attrs(a) };
    let end = |n: &str| XmlEvent::End { name: s(n) };
    let events = vec![
        start("manifest", &[("package", "com.example.app")]),
        start("uses-sdk", &[("minSdkVersion", "21"), ("targetSdkVersion", "30")]),
        end("uses-sdk"),
        start("uses-permission", &[("name", "android.permission.INTERNET")]),
        end("uses-permission"),
        start("application", &[("label", "Sample"), ("name", "com.example.App"), ("icon", "@res/0x7f0d0000")]),
        start("activity", &[("name", ".Main")]),
        start("intent-filter", &[]),
        start("action", &[("name", "android.intent.action.MAIN")]),
        end("action"),
        start("category", &[("name", "android.intent.category.LAUNCHER")]),
        end("category"),
        end("intent-filter"),
        end("activity"),
        start("service", &[("name", ".Sync")]),
        end("service"),
        start("receiver", &[]),
        end("receiver"),
        start("provider", &[("name", ".Files")]),
        end("provider"),
        end("application"),
        end("manifest"),
    ];
    let summary = bxmlrs::ManifestSummary::from_events(&events);
    assert_eq!(summary.package_name, "com.example.app");
    assert_eq!(summary.min_sdk, "21");
    assert_eq!(summary.target_sdk, "30");
    assert_eq!(summary.application_name, "Sample");
    assert_eq!(summary.application_class, "com.example.App");
    assert_eq!(summary.icon, "@res/0x7f0d0000");
    assert_eq!(summary.permissions, vec![s("android.permission.INTERNET")]);
    assert_eq!(summary.providers, vec![s(".Files")]);
    assert_eq!(summary.activities.len(), 1);
    assert_eq!(summary.activities[0].name, ".Main");
    assert_eq!(summary.activities[0].intent_filters.len(), 1);
    assert_eq!(summary.activities[0].intent_filters[0].action, "android.intent.action.MAIN");
    assert_eq!(summary.activities[0].intent_filters[0].categories, vec![s("android.intent.category.LAUNCHER")]);
    assert_eq!(summary.services.len(), 1);
    assert_eq!(summary.services[0].name, ".Sync");
    assert_eq!(summary.receivers.len(), 1);
    assert_eq!(summary.receivers[0].name, "");
    assert!(summary.open_components.is_empty());
}

#[test]
fn parser_events_resolve_labels() {
    let mut parser = Parser::from_bytes(table_with_label(), sample_manifest());
    let events = parser.decode_events().unwrap();
    let summary = bxmlrs::ManifestSummary::from_events(&events);
    assert_eq!(summary.package_name, "com.example.app");
    assert_eq!(summary.application_name, "Sample App");
    assert_eq!(summary.min_sdk, "21");
}

#[test]
fn utf16_pool_decodes_surrogate_pairs() {
    let bytes = document(pool(&["a\u{1F600}b", "\u{e9}"], false), &[], &[]);
    let mut m = AndroidManifest::new(bytes.as_slice());
    m.parse(None).unwrap();
    assert_eq!(m.strings(), &vec!["a\u{1F600}b".to_string(), "\u{e9}".to_string()]);
}
