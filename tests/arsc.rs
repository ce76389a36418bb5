use bxmlrs::arsc_parser::Arsc;
use bxmlrs::chunks::{ResType, ResValue};
use bxmlrs::{ChunkHeader, ParseError};

fn u16le(v: u16) -> [u8; 2] {
    v.to_le_bytes()
}

fn u32le(v: u32) -> [u8; 4] {
    v.to_le_bytes()
}

fn pool(strings: &[&str], utf8: bool) -> Vec<u8> {
    let mut data: Vec<u8> = Vec::new();
    let mut offsets: Vec<u32> = Vec::new();
    for s in strings {
        offsets.push(data.len() as u32);
        if utf8 {
            data.push(s.chars().count() as u8);
            data.push(s.len() as u8);
            data.extend_from_slice(s.as_bytes());
            data.push(0);
        } else {
            let units: Vec<u16> = s.encode_utf16().collect();
            data.extend_from_slice(&u16le(units.len() as u16));
            for u in units {
                data.extend_from_slice(&u16le(u));
            }
            data.extend_from_slice(&[0, 0]);
        }
    }
    while data.len() % 4 != 0 {
        data.push(0);
    }
    let strings_start = 28 + 4 * strings.len();
    let mut out = Vec::new();
    out.extend_from_slice(&u16le(0x0001));
    out.extend_from_slice(&u16le(28));
    out.extend_from_slice(&u32le((strings_start + data.len()) as u32));
    out.extend_from_slice(&u32le(strings.len() as u32));
    out.extend_from_slice(&u32le(0));
    out.extend_from_slice(&u32le(if utf8 { 0x100 } else { 0 }));
    out.extend_from_slice(&u32le(strings_start as u32));
    out.extend_from_slice(&u32le(0));
    for o in offsets {
        out.extend_from_slice(&u32le(o));
    }
    out.extend_from_slice(&data);
    out
}

fn simple_entry(key: u32, data_type: u8, data: u32) -> Vec<u8> {
    let mut e = Vec::new();
    e.extend_from_slice(&u16le(8));
    e.extend_from_slice(&u16le(0));
    e.extend_from_slice(&u32le(key));
    e.extend_from_slice(&u16le(8));
    e.push(0);
    e.push(data_type);
    e.extend_from_slice(&u32le(data));
    e
}

fn complex_entry(key: u32, values: &[(u8, u32)]) -> Vec<u8> {
    let mut e = Vec::new();
    e.extend_from_slice(&u16le(16));
    e.extend_from_slice(&u16le(1));
    e.extend_from_slice(&u32le(key));
    e.extend_from_slice(&u32le(0));
    e.extend_from_slice(&u32le(values.len() as u32));
    for (i, (t, d)) in values.iter().enumerate() {
        e.extend_from_slice(&u32le(0x0100_0000 + i as u32));
        e.extend_from_slice(&u16le(8));
        e.push(0);
        e.push(*t);
        e.extend_from_slice(&u32le(*d));
    }
    e
}

fn type_chunk(id: u8, entries: &[Option<Vec<u8>>]) -> Vec<u8> {
    let header_size = 20 + 8;
    let entries_start = header_size + 4 * entries.len();
    let mut offsets: Vec<u32> = Vec::new();
    let mut body: Vec<u8> = Vec::new();
    for e in entries {
        match e {
            None => offsets.push(0xFFFF_FFFF),
            Some(b) => {
                offsets.push(body.len() as u32);
                body.extend_from_slice(b);
            }
        }
    }
    let mut out = Vec::new();
    out.extend_from_slice(&u16le(0x0201));
    out.extend_from_slice(&u16le(header_size as u16));
    out.extend_from_slice(&u32le((entries_start + body.len()) as u32));
    out.push(id);
    out.push(0);
    out.extend_from_slice(&u16le(0));
    out.extend_from_slice(&u32le(entries.len() as u32));
    out.extend_from_slice(&u32le(entries_start as u32));
    out.extend_from_slice(&u32le(8));
    out.extend_from_slice(&u32le(0));
    for o in offsets {
        out.extend_from_slice(&u32le(o));
    }
    out.extend_from_slice(&body);
    out
}

fn type_spec_chunk(id: u8, masks: &[u32]) -> Vec<u8> {
    let mut out = Vec::new();
    out.extend_from_slice(&u16le(0x0202));
    out.extend_from_slice(&u16le(16));
    out.extend_from_slice(&u32le((16 + 4 * masks.len()) as u32));
    out.push(id);
    out.push(0);
    out.extend_from_slice(&u16le(0));
    out.extend_from_slice(&u32le(masks.len() as u32));
    for m in masks {
        out.extend_from_slice(&u32le(*m));
    }
    out
}

fn package(id: u32, name: &str, types: &[&str], keys: &[&str], chunks: &[Vec<u8>]) -> Vec<u8> {
    let tp = pool(types, false);
    let kp = pool(keys, true);
    let body: usize = chunks.iter().map(|c| c.len()).sum();
    let mut out = Vec::new();
    out.extend_from_slice(&u16le(0x0200));
    out.extend_from_slice(&u16le(284));
    out.extend_from_slice(&u32le((284 + tp.len() + kp.len() + body) as u32));
    out.extend_from_slice(&u32le(id));
    let units: Vec<u16> = name.encode_utf16().collect();
    for i in 0..128 {
        out.extend_from_slice(&u16le(if i < units.len() { units[i] } else { 0 }));
    }
    out.extend_from_slice(&u32le(284));
    out.extend_from_slice(&u32le(types.len() as u32));
    out.extend_from_slice(&u32le((284 + tp.len()) as u32));
    out.extend_from_slice(&u32le(0));
    out.extend_from_slice(&tp);
    out.extend_from_slice(&kp);
    for c in chunks {
        out.extend_from_slice(c);
    }
    out
}

fn table(global: &[&str], packages: &[Vec<u8>]) -> Vec<u8> {
    let gp = pool(global, true);
    let body: usize = packages.iter().map(|p| p.len()).sum();
    let mut out = Vec::new();
    out.extend_from_slice(&u16le(0x0002));
    out.extend_from_slice(&u16le(12));
    out.extend_from_slice(&u32le((12 + gp.len() + body) as u32));
    out.extend_from_slice(&u32le(packages.len() as u32));
    out.extend_from_slice(&gp);
    for p in packages {
        out.extend_from_slice(p);
    }
    out
}

fn sample_table() -> Vec<u8> {
    let mut strings_entries: Vec<Option<Vec<u8>>> = vec![None; 0x1fd];
    strings_entries.push(Some(simple_entry(0, ResType::STRING, 0)));
    let strings_type = type_chunk(0x11, &strings_entries);
    let refs = type_chunk(
        0x02,
        &[
            Some(simple_entry(1, ResType::REFERENCE, 0x7f1101fd)),
            None,
            Some(complex_entry(2, &[(ResType::INT_DEC, 7), (ResType::STRING, 1)])),
        ],
    );
    table(
        &["Frequently asked questions", "second"],
        &[package(
            127,
            "com.example.app",
            &["attr", "drawable", "string"],
            &["faq", "link", "pair"],
            &[type_spec_chunk(0x11, &[0, 0]), strings_type, refs],
        )],
    )
}

#[test]
fn test_arsc_parser() {
    let bytes = sample_table();
    let mut parser = Arsc::new(bytes.as_slice());
    let out = parser.parse();
    assert_eq!(out, Ok(bytes.clone()));
    let p = parser.package(127u32).unwrap();
    assert!(p.type_strings.contains(&"attr".to_string()));
    assert_eq!(p.name, "com.example.app");
    assert_eq!(p.key_strings, vec!["faq".to_string(), "link".to_string(), "pair".to_string()]);
    assert_eq!(p.type_spec.len(), 1);
    assert_eq!(p.type_spec[0].1, vec![0, 0]);
}

#[test]
fn test_resid_to_name() {
    let res_id = 0x7f1101fd;
    let bytes = sample_table();
    let mut parser = Arsc::new(bytes.as_slice());
    parser.parse().unwrap();
    assert_eq!(parser.get_res_value(res_id), Some("Frequently asked questions".to_string()));
}

#[test]
fn reference_values_render_as_text() {
    let bytes = sample_table();
    let mut parser = Arsc::new(bytes.as_slice());
    parser.parse().unwrap();
    assert_eq!(parser.get_res_value(0x7f020000), Some("@res/0x7f1101fd".to_string()));
    assert_eq!(parser.get_res_value(0x7f020002), Some("7".to_string()));
}

#[test]
fn complex_entry_keeps_each_mapping() {
    let bytes = sample_table();
    let mut parser = Arsc::new(bytes.as_slice());
    parser.parse().unwrap();
    let p = parser.package(127).unwrap();
    let refs = p.types.iter().find(|t| t.0 == 2).unwrap();
    assert_eq!(refs.1[2], vec![Some("7".to_string()), Some("second".to_string())]);
}

#[test]
fn absent_entry_is_an_empty_hole() {
    let bytes = sample_table();
    let mut parser = Arsc::new(bytes.as_slice());
    parser.parse().unwrap();
    let p = parser.package(127).unwrap();
    let refs = p.types.iter().find(|t| t.0 == 2).unwrap();
    assert_eq!(refs.1[1], Vec::<Option<String>>::new());
    assert_eq!(parser.get_res_value(0x7f020001), None);
}

#[test]
fn type_chunk_without_entries_decodes() {
    let bytes = table(&["v"], &[package(1, "p", &["string"], &["k"], &[type_chunk(1, &[])])]);
    let mut parser = Arsc::new(bytes.as_slice());
    assert!(parser.parse().is_ok());
    let p = parser.package(1).unwrap();
    assert_eq!(p.types, vec![(1u32, Vec::<Vec<Option<String>>>::new())]);
}

#[test]
fn type_id_zero_is_skipped() {
    let bytes = table(
        &["v"],
        &[package(
            1,
            "p",
            &["string"],
            &["k"],
            &[type_chunk(0, &[Some(simple_entry(0, ResType::STRING, 0))]), type_chunk(1, &[Some(simple_entry(0, ResType::STRING, 0))])],
        )],
    );
    let mut parser = Arsc::new(bytes.as_slice());
    parser.parse().unwrap();
    let p = parser.package(1).unwrap();
    assert_eq!(p.types.len(), 1);
    assert!(p.types.iter().all(|t| t.0 >= 1));
}

#[test]
fn unknown_package_resolves_to_nothing() {
    let bytes = sample_table();
    let mut parser = Arsc::new(bytes.as_slice());
    parser.parse().unwrap();
    assert_eq!(parser.get_res_value(0x0101_0000), None);
    assert_eq!(parser.get_res_value(0x7f11_0000), None);
}

#[test]
fn decoding_twice_gives_the_same_table() {
    let bytes = sample_table();
    let mut a = Arsc::new(bytes.as_slice());
    let mut b = Arsc::new(bytes.as_slice());
    a.parse().unwrap();
    b.parse().unwrap();
    assert_eq!(a.strings(), b.strings());
    let pa = a.package(127).unwrap();
    let pb = b.package(127).unwrap();
    assert_eq!(pa.types, pb.types);
    assert_eq!(pa.type_strings, pb.type_strings);
}

#[test]
fn short_table_is_a_chunk_header_error() {
    let bytes = vec![2u8, 0, 12, 0];
    let mut parser = Arsc::new(bytes.as_slice());
    assert_eq!(parser.parse(), Err(ParseError::ChunkHeader));
}

#[test]
fn truncated_package_header_is_an_error() {
    let mut bytes = table(&["v"], &[]);
    bytes.extend_from_slice(&u16le(0x0200));
    bytes.extend_from_slice(&u16le(284));
    bytes.extend_from_slice(&u32le(300));
    bytes.extend_from_slice(&[0u8; 20]);
    let mut parser = Arsc::new(bytes.as_slice());
    assert_eq!(parser.parse(), Err(ParseError::PackageHeader));
}

#[test]
fn bad_type_strings_offset_is_an_error() {
    let mut p = package(1, "p", &["string"], &["k"], &[type_chunk(1, &[])]);
    p[268..272].copy_from_slice(&u32le(0x00FF_FFFF));
    let bytes = table(&["v"], &[p]);
    let mut parser = Arsc::new(bytes.as_slice());
    assert_eq!(parser.parse(), Err(ParseError::TypeStrings));
}

#[test]
fn bad_key_strings_offset_is_an_error() {
    let mut p = package(1, "p", &["string"], &["k"], &[type_chunk(1, &[])]);
    p[276..280].copy_from_slice(&u32le(0x00FF_FFFF));
    let bytes = table(&["v"], &[p]);
    let mut parser = Arsc::new(bytes.as_slice());
    assert_eq!(parser.parse(), Err(ParseError::KeyStrings));
}

#[test]
fn entry_past_the_end_is_a_table_entry_error() {
    let mut t = type_chunk(1, &[Some(simple_entry(0, ResType::STRING, 0))]);
    let last = t.len();
    t.truncate(last - 4);
    let mut p = package(1, "p", &["string"], &["k"], &[]);
    p.extend_from_slice(&t);
    let bytes = table(&["v"], &[p]);
    let mut parser = Arsc::new(bytes.as_slice());
    assert_eq!(parser.parse(), Err(ParseError::TableEntry));
}

#[test]
fn short_type_chunk_header_is_an_error() {
    let mut p = package(1, "p", &["string"], &["k"], &[]);
    p.extend_from_slice(&u16le(0x0201));
    p.extend_from_slice(&u16le(28));
    p.extend_from_slice(&u32le(40));
    p.extend_from_slice(&[1u8, 0, 0, 0]);
    let bytes = table(&["v"], &[p]);
    let mut parser = Arsc::new(bytes.as_slice());
    assert_eq!(parser.parse(), Err(ParseError::TypeChunkHeader));
}

#[test]
fn short_offset_table_is_a_type_chunk_entries_error() {
    let mut t = type_chunk(1, &[None, None]);
    t.truncate(t.len() - 4);
    let mut p = package(1, "p", &["string"], &["k"], &[]);
    p.extend_from_slice(&t);
    let bytes = table(&["v"], &[p]);
    let mut parser = Arsc::new(bytes.as_slice());
    assert_eq!(parser.parse(), Err(ParseError::TypeChunkEntries));
}

#[test]
fn short_type_spec_is_a_type_spec_header_error() {
    let mut t = type_spec_chunk(1, &[0, 0, 0]);
    t.truncate(t.len() - 2);
    let mut p = package(1, "p", &["string"], &["k"], &[]);
    p.extend_from_slice(&t);
    let bytes = table(&["v"], &[p]);
    let mut parser = Arsc::new(bytes.as_slice());
    assert_eq!(parser.parse(), Err(ParseError::TypeSpecHeader));
}

#[test]
fn bad_global_pool_is_a_string_pool_error() {
    let mut bytes = Vec::new();
    bytes.extend_from_slice(&u16le(0x0002));
    bytes.extend_from_slice(&u16le(12));
    bytes.extend_from_slice(&u32le(40));
    bytes.extend_from_slice(&u32le(0));
    bytes.extend_from_slice(&u16le(0x0001));
    bytes.extend_from_slice(&u16le(28));
    bytes.extend_from_slice(&u32le(28));
    bytes.extend_from_slice(&[0u8; 8]);
    let mut parser = Arsc::new(bytes.as_slice());
    assert_eq!(parser.parse(), Err(ParseError::StringPool));
}

#[test]
fn values_render_by_data_type() {
    let strings = vec!["zero".to_string()];
    let v = |t: u8, d: u32| ResValue { size: 8, res0: 0, data_type: t, data: d }.as_string(&strings);
    assert_eq!(v(ResType::STRING, 0), Some("zero".to_string()));
    assert_eq!(v(ResType::STRING, 1), None);
    assert_eq!(v(ResType::INT_BOOLEAN, 0), Some("false".to_string()));
    assert_eq!(v(ResType::INT_BOOLEAN, 0xFFFF_FFFF), Some("true".to_string()));
    assert_eq!(v(ResType::INT_DEC, 4294967295), Some("4294967295".to_string()));
    assert_eq!(v(ResType::INT_DEC, 0), Some("0".to_string()));
    assert_eq!(v(ResType::INT_HEX, 0x1F), Some("0x1F".to_string()));
    assert_eq!(v(ResType::REFERENCE, 0x7f0a00be), Some("@res/0x7f0a00be".to_string()));
    assert_eq!(v(ResType::ATTRIBUTE, 0x0101_0000), Some("@attr/0x1010000".to_string()));
    assert_eq!(v(ResType::DYNAMIC_REFERENCE, 0xab), Some("@dyn/0xAB".to_string()));
    assert_eq!(v(ResType::DIMENSION, 1), None);
    assert_eq!(v(ResType::NULL, 1), None);
}

#[test]
fn floats_render_with_two_decimals() {
    let strings: Vec<String> = Vec::new();
    let samples: Vec<f32> = vec![
        0.0, -0.0, 1.0, 2.4, -2.4, 0.125, 0.375, 0.005, 0.015, 2.5, 1.0e-3, 123456.78, 3.0e38,
        f32::MAX, f32::MIN_POSITIVE, 1.0e-45, -1.0e-45, f32::INFINITY, f32::NEG_INFINITY, f32::NAN,
        16777216.0, 1.0e10, 0.994, 0.995, 0.996,
    ];
    for f in samples {
        let bits = f.to_bits();
        let got = ResValue { size: 8, res0: 0, data_type: ResType::FLOAT, data: bits }.as_string(&strings);
        assert_eq!(got, Some(format!("{:.2}", f)), "bits {:#x}", bits);
    }
    let mut bits: u32 = 1;
    for _ in 0..4000 {
        bits = bits.wrapping_mul(1_103_515_245).wrapping_add(12345);
        let f = f32::from_bits(bits);
        let got = ResValue { size: 8, res0: 0, data_type: ResType::FLOAT, data: bits }.as_string(&strings);
        assert_eq!(got, Some(format!("{:.2}", f)), "bits {:#x}", bits);
    }
}

#[test]
fn chunk_header_text_is_hexadecimal() {
    let h = ChunkHeader { typ: 1, header_size: 0x1c, chunk_size: 0x2a0 };
    assert_eq!(h.to_text(), "ChunkHeader { typ: 0x1, header_size: 0x1c, chunk_size: 0x2a0 }");
    let bytes = [0x01u8, 0x00, 0x1c, 0x00, 0xa0, 0x02, 0x00, 0x00];
    assert_eq!(ChunkHeader::parse(&bytes, 0), Some(h));
    assert_eq!(ChunkHeader::parse(&bytes, 1), None);
}

#[test]
fn reference_cycles_stop_after_four_substitutions() {
    let bytes = table(
        &["v"],
        &[package(
            0x7f,
            "p",
            &["attr", "string"],
            &["a", "b"],
            &[type_chunk(
                0x11,
                &[Some(simple_entry(0, ResType::REFERENCE, 0x7f110001)), Some(simple_entry(1, ResType::REFERENCE, 0x7f110000))],
            )],
        )],
    );
    let mut arsc = Arsc::new(bytes.as_slice());
    arsc.parse().unwrap();
    let start = Some("@res/0x7f110000".to_string());
    assert_eq!(bxmlrs::resolver::resolve(Some(&arsc), start.clone()), Some("@res/0x7f110000".to_string()));
    let other = Some("@res/0x7f110001".to_string());
    assert_eq!(bxmlrs::resolver::resolve(Some(&arsc), other.clone()), other);
    assert_eq!(bxmlrs::resolver::resolve(None, start.clone()), start);
    let dangling = Some("@res/0x7f119999".to_string());
    assert_eq!(bxmlrs::resolver::resolve(Some(&arsc), dangling.clone()), dangling);
    assert_eq!(bxmlrs::resolver::resolve(Some(&arsc), Some("plain".to_string())), Some("plain".to_string()));
}

#[test]
fn hex_reads_like_from_str_radix() {
    let cases = ["1f", "+1f", "", "+", "-1", "ffffffff", "100000000", "FfA0", "g", "00000000000000007", "12 "];
    for c in cases {
        let chars: Vec<char> = c.chars().collect();
        assert_eq!(bxmlrs::resolver::parse_hex(&chars, 0), u32::from_str_radix(c, 16).ok(), "case {:?}", c);
    }
    let chars: Vec<char> = "@res/0x7f0a".chars().collect();
    assert_eq!(bxmlrs::resolver::parse_hex(&chars, 7), Some(0x7f0a));
}

#[test]
fn attribute_names_by_resource_id() {
    assert_eq!(bxmlrs::attributes::get_attribute_name(0x01010003), Some("name".to_string()));
    assert_eq!(bxmlrs::attributes::get_attribute_name(0x0101020c), Some("minSdkVersion".to_string()));
    assert_eq!(bxmlrs::attributes::get_attribute_name(0x7f010000), None);
}

#[test]
fn type_spec_reader_needs_its_masks() {
    let chunk = type_spec_chunk(3, &[7, 9]);
    let (h, masks) = bxmlrs::TypeSpecChunkHeader::parse(&chunk, 0).unwrap();
    assert_eq!(h.type_id, 3);
    assert_eq!(h.entry_count, 2);
    assert_eq!(masks, vec![7, 9]);
    assert!(bxmlrs::TypeSpecChunkHeader::parse(&chunk[..chunk.len() - 1], 0).is_none());
    assert!(bxmlrs::TypeSpecChunkHeader::parse(&chunk[..15], 0).is_none());
}
