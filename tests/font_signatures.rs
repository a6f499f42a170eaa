use fontsig::signatures::common::{Confidence, SignatureError};
use fontsig::signatures::otf::{otf_magic, otf_parser};
use fontsig::signatures::ttf::{ttf_magic, ttf_parser};
use fontsig::structures::common::{parse, size, ByteOrder, FieldSpec, FieldWidth, StructureError};
use fontsig::structures::ttf::{calculate_ttf_file_size, parse_ttf_header, TTFHeader, TTFTableEntry};

fn directory(magic: &[u8], count: u16, entries: &[(&[u8; 4], u32, u32)]) -> Vec<u8> {
    let mut out = magic.to_vec();
    out.extend_from_slice(&count.to_be_bytes());
    out.extend_from_slice(&[0, 0x30, 0, 2, 0, 0]);
    for (tag, offset, length) in entries {
        out.extend_from_slice(&tag[..]);
        out.extend_from_slice(&0xdead_beefu32.to_be_bytes());
        out.extend_from_slice(&offset.to_be_bytes());
        out.extend_from_slice(&length.to_be_bytes());
    }
    out
}

fn sample(magic: &[u8]) -> Vec<u8> {
    directory(magic, 3, &[(b"head", 20, 10), (b"hhea", 30, 10), (b"maxp", 40, 4)])
}

fn layout(widths: &[FieldWidth]) -> Vec<FieldSpec> {
    widths.iter().map(|w| FieldSpec { name: "field", width: *w }).collect()
}

#[test]
fn decoder_rejects_short_input() {
    let l = layout(&[FieldWidth::U32, FieldWidth::U16]);
    assert_eq!(parse(&[1, 2, 3, 4, 5], &l, ByteOrder::Big), Err(StructureError));
    assert_eq!(parse(&[], &l, ByteOrder::Little), Err(StructureError));
}

#[test]
fn decoder_reads_big_endian() {
    let l = layout(&[FieldWidth::U8, FieldWidth::U16, FieldWidth::U32]);
    let data = [0xab, 0x12, 0x34, 0x01, 0x02, 0x03, 0x04, 0xff];
    assert_eq!(parse(&data, &l, ByteOrder::Big), Ok(vec![0xab, 0x1234, 0x0102_0304]));
}

#[test]
fn decoder_reads_little_endian() {
    let l = layout(&[FieldWidth::U8, FieldWidth::U16, FieldWidth::U32]);
    let data = [0xab, 0x12, 0x34, 0x01, 0x02, 0x03, 0x04];
    assert_eq!(parse(&data, &l, ByteOrder::Little), Ok(vec![0xab, 0x3412, 0x0403_0201]));
}

#[test]
fn decoder_empty_layout() {
    assert_eq!(parse(&[], &Vec::new(), ByteOrder::Big), Ok(vec![]));
}

#[test]
fn layout_size_sums_widths() {
    let l = layout(&[FieldWidth::U32, FieldWidth::U16, FieldWidth::U16, FieldWidth::U8]);
    assert_eq!(size(&l), 9);
    assert_eq!(size(&Vec::new()), 0);
}

#[test]
fn round_trip_directory_size() {
    let data = sample(&[0, 1, 0, 0]);
    let header = parse_ttf_header(&data).expect("directory parses");
    assert_eq!(header.tables.len(), 3);
    assert_eq!(&header.tables[0].tag, b"head");
    assert_eq!(&header.tables[1].tag, b"hhea");
    assert_eq!(&header.tables[2].tag, b"maxp");
    assert_eq!(header.tables[0].checksum, 0xdead_beef);
    assert_eq!(header.tables[1].offset, 30);
    assert_eq!(header.tables[2].length, 4);
    assert_eq!(calculate_ttf_file_size(&header), Some(44));
}

#[test]
fn table_count_over_ceiling_rejected() {
    let mut data = directory(&[0, 1, 0, 0], 33, &[(b"head", 20, 10), (b"hhea", 30, 10), (b"maxp", 40, 4)]);
    data.resize(14 + 16 * 40, 0);
    assert_eq!(parse_ttf_header(&data).err(), Some(StructureError));
}

#[test]
fn table_count_at_ceiling_accepted() {
    let mut entries: Vec<(&[u8; 4], u32, u32)> = vec![(b"head", 20, 10), (b"hhea", 30, 10), (b"maxp", 40, 4)];
    while entries.len() < 32 {
        entries.push((b"name", 100, 1));
    }
    let data = directory(&[0, 1, 0, 0], 32, &entries);
    let header = parse_ttf_header(&data).expect("directory parses");
    assert_eq!(header.tables.len(), 32);
    assert_eq!(calculate_ttf_file_size(&header), Some(101));
}

#[test]
fn missing_required_tag_rejected() {
    for missing in [b"head", b"hhea", b"maxp"] {
        let entries: Vec<(&[u8; 4], u32, u32)> = [(b"head", 20, 10), (b"hhea", 30, 10), (b"maxp", 40, 4)]
            .into_iter()
            .filter(|e| e.0 != missing)
            .collect();
        let data = directory(b"OTTO", entries.len() as u16, &entries);
        assert!(parse_ttf_header(&data).is_err());
        assert_eq!(otf_parser(&data, 0).err(), Some(SignatureError));
        assert_eq!(ttf_parser(&data, 0).err(), Some(SignatureError));
    }
}

#[test]
fn single_head_entry_rejected() {
    let data = directory(&[0, 1, 0, 0], 1, &[(b"head", 20, 10)]);
    assert!(parse_ttf_header(&data).is_err());
    assert!(ttf_parser(&data, 0).is_err());
    assert!(otf_parser(&data, 0).is_err());
}

#[test]
fn truncated_entry_rejected() {
    let mut data = sample(&[0, 1, 0, 0]);
    data.truncate(data.len() - 1);
    assert!(parse_ttf_header(&data).is_err());
}

#[test]
fn opentype_adapter_grades_high() {
    let data = sample(b"OTTO");
    let result = otf_parser(&data, 0).expect("valid font");
    assert_eq!(result.confidence, Confidence::High);
    assert_eq!(result.size, 44);
    assert_eq!(result.offset, 0);
    assert_eq!(result.description, "OpenType font");
}

#[test]
fn truetype_adapter_grades_high() {
    let data = sample(&[0, 1, 0, 0]);
    let result = ttf_parser(&data, 0).expect("valid font");
    assert_eq!(result.confidence, Confidence::High);
    assert_eq!(result.size, 44);
    assert_eq!(result.description, "TrueType font");
}

#[test]
fn adapters_use_candidate_offset() {
    let mut data = vec![0xee; 7];
    data.extend(sample(b"true"));
    let result = ttf_parser(&data, 7).expect("valid font");
    assert_eq!(result.offset, 7);
    assert_eq!(result.size, 44);
    assert!(ttf_parser(&data, 0).is_err());
}

#[test]
fn truncated_preamble_rejected() {
    let data = b"OTTO\x00\x03\x00".to_vec();
    assert_eq!(otf_parser(&data, 0).err(), Some(SignatureError));
    assert_eq!(ttf_parser(&data, 0).err(), Some(SignatureError));
    assert!(otf_parser(&data, data.len()).is_err());
}

#[test]
fn size_is_furthest_extent_not_last() {
    let data = directory(&[0, 1, 0, 0], 3, &[(b"maxp", 500, 12), (b"head", 20, 10), (b"hhea", 30, 10)]);
    let result = ttf_parser(&data, 0).expect("valid font");
    assert_eq!(result.size, 512);
}

#[test]
fn size_of_empty_directory_unknown() {
    assert_eq!(calculate_ttf_file_size(&TTFHeader { tables: vec![] }), None);
}

#[test]
fn size_widens_before_adding() {
    let entry = TTFTableEntry { tag: *b"glyf", checksum: 0, offset: 0xffff_ffff, length: 0xffff_ffff };
    assert_eq!(calculate_ttf_file_size(&TTFHeader { tables: vec![entry] }), Some(0x1_ffff_fffe));
}

#[test]
fn magic_sets() {
    assert_eq!(otf_magic(), vec![b"OTTO".to_vec()]);
    assert_eq!(ttf_magic(), vec![vec![0, 1, 0, 0], b"true".to_vec()]);
}
