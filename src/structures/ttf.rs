//! The sfnt table directory shared by TrueType and OpenType fonts: its
//! parser, which checks the directory's structure, and the estimate of the
//! font's total size from the tables that the directory lists.
use vstd::prelude::*;
use vstd::arithmetic::div_mod::lemma_fundamental_div_mod_converse;
use vstd::slice::slice_subrange;
use crate::structures::common::{
    be_value, field_offset, field_value, layout_size, parse, size, width_bytes, ByteOrder,
    FieldSpec, FieldWidth, StructureError,
};

verus! {

/// One entry of the table directory.
#[derive(Debug, Default, Clone, Copy)]
pub struct TTFTableEntry {
    pub tag: [u8; 4],
    pub checksum: u32,
    pub offset: usize,
    pub length: usize,
}

/// The table directory, entries in the order in which the font lists them.
#[derive(Debug, Default, Clone)]
pub struct TTFHeader {
    pub tables: Vec<TTFTableEntry>,
}

/// Bytes before the first directory entry: magic, table count, search
/// range, entry selector and range shift.
pub const TTF_HEADER_SIZE: usize = 4 + 2 + 2 + 2 + 2;

/// Bytes of one directory entry: tag, checksum, offset and length.
pub const TTF_TABLE_ENTRY_SIZE: usize = 4 + 4 + 4 + 4;

/// Largest table count that the parser accepts.
pub const MAX_TABLES: u32 = 32;

/// The table count that the preamble declares.
pub open spec fn num_tables(data: Seq<u8>) -> nat {
    be_value(data.subrange(4, 6))
}

/// Where directory entry `i` starts.
pub open spec fn entry_start(i: int) -> int {
    TTF_HEADER_SIZE + TTF_TABLE_ENTRY_SIZE * i
}

/// The big-endian 32-bit word at `at`.
pub open spec fn word_at(data: Seq<u8>, at: int) -> nat {
    be_value(data.subrange(at, at + 4))
}

/// The four tag bytes of directory entry `i`.
pub open spec fn tag_at(data: Seq<u8>, i: int) -> Seq<u8> {
    data.subrange(entry_start(i), entry_start(i) + 4)
}

/// `e` holds what directory entry `i` of `data` says.
pub open spec fn entry_from(e: TTFTableEntry, data: Seq<u8>, i: int) -> bool {
    &&& e.tag@ == tag_at(data, i)
    &&& e.checksum == word_at(data, entry_start(i) + 4)
    &&& e.offset == word_at(data, entry_start(i) + 8)
    &&& e.length == word_at(data, entry_start(i) + 12)
}

/// The preamble is there, its table count is within bounds, and every entry
/// that it declares lies within `data`.
pub open spec fn directory_in_bounds(data: Seq<u8>) -> bool {
    &&& data.len() >= TTF_HEADER_SIZE
    &&& num_tables(data) <= MAX_TABLES
    &&& data.len() >= entry_start(num_tables(data) as int)
}

/// `head`
pub open spec fn head_tag() -> Seq<u8> {
    seq![0x68u8, 0x65u8, 0x61u8, 0x64u8]
}

/// `hhea`
pub open spec fn hhea_tag() -> Seq<u8> {
    seq![0x68u8, 0x68u8, 0x65u8, 0x61u8]
}

/// `maxp`
pub open spec fn maxp_tag() -> Seq<u8> {
    seq![0x6du8, 0x61u8, 0x78u8, 0x70u8]
}

/// Some declared entry of the directory carries `tag`.
pub open spec fn lists_tag(data: Seq<u8>, tag: Seq<u8>) -> bool {
    exists|i: int| 0 <= i < num_tables(data) && tag_at(data, i) == tag
}

pub open spec fn has_required_tables(data: Seq<u8>) -> bool {
    &&& lists_tag(data, head_tag())
    &&& lists_tag(data, hhea_tag())
    &&& lists_tag(data, maxp_tag())
}

/// `data` starts with a table directory that the parser accepts.
pub open spec fn valid_directory(data: Seq<u8>) -> bool {
    directory_in_bounds(data) && has_required_tables(data)
}

/// Furthest byte that a table reaches.
pub open spec fn extent(e: TTFTableEntry) -> int {
    e.offset + e.length
}

/// Furthest byte that directory entry `i` of `data` says its table reaches.
pub open spec fn entry_extent(data: Seq<u8>, i: int) -> int {
    word_at(data, entry_start(i) + 8) + word_at(data, entry_start(i) + 12) as int
}

/// `v` is the largest extent among the entries that the directory at the
/// start of `data` declares.
pub open spec fn is_font_size(data: Seq<u8>, v: int) -> bool {
    &&& forall|i: int| 0 <= i < num_tables(data) ==> #[trigger] entry_extent(data, i) <= v
    &&& exists|i: int| 0 <= i < num_tables(data) && #[trigger] entry_extent(data, i) == v
}

/// No declared entry reaches beyond what `usize` holds.
pub open spec fn extents_fit(data: Seq<u8>) -> bool {
    forall|i: int| 0 <= i < num_tables(data) ==> #[trigger] entry_extent(data, i) <= usize::MAX
}

/// `v` is the largest extent among `tables`.
pub open spec fn is_max_extent(tables: Seq<TTFTableEntry>, v: int) -> bool {
    &&& forall|i: int| 0 <= i < tables.len() ==> extent(#[trigger] tables[i]) <= v
    &&& exists|i: int| 0 <= i < tables.len() && extent(#[trigger] tables[i]) == v
}

proof fn lemma_be_value_4(s: Seq<u8>)
    requires
        s.len() == 4,
    ensures
        be_value(s) == s[0] * 0x100_0000 + s[1] * 0x1_0000 + s[2] * 0x100 + s[3],
{
    reveal_with_fuel(be_value, 5);
    assert(s.drop_last().drop_last().drop_last().drop_last() =~= Seq::<u8>::empty());
}

/// The bytes of a 4-byte big-endian word, recovered from its value.
proof fn lemma_word_bytes(s: Seq<u8>)
    requires
        s.len() == 4,
    ensures
        s[0] == be_value(s) / 0x100_0000,
        s[1] == (be_value(s) / 0x1_0000) % 0x100,
        s[2] == (be_value(s) / 0x100) % 0x100,
        s[3] == be_value(s) % 0x100,
{
    lemma_be_value_4(s);
    let v = be_value(s) as int;
    let (a, b, c, d) = (s[0] as int, s[1] as int, s[2] as int, s[3] as int);
    lemma_fundamental_div_mod_converse(v, 0x100_0000, a, b * 0x1_0000 + c * 0x100 + d);
    lemma_fundamental_div_mod_converse(v, 0x1_0000, a * 0x100 + b, c * 0x100 + d);
    lemma_fundamental_div_mod_converse(a * 0x100 + b, 0x100, a, b);
    lemma_fundamental_div_mod_converse(v, 0x100, (a * 0x100 + b) * 0x100 + c, d);
    lemma_fundamental_div_mod_converse((a * 0x100 + b) * 0x100 + c, 0x100, a * 0x100 + b, c);
}

/// The four bytes of `v`, most significant first.
fn tag_bytes(v: u32) -> (r: [u8; 4])
    ensures
        r@[0] == v / 0x100_0000,
        r@[1] == (v / 0x1_0000) % 0x100,
        r@[2] == (v / 0x100) % 0x100,
        r@[3] == v % 0x100,
{
    [(v / 0x100_0000) as u8, ((v / 0x1_0000) % 0x100) as u8, ((v / 0x100) % 0x100) as u8, (v
        % 0x100) as u8]
}

fn header_layout() -> (r: Vec<FieldSpec>)
    ensures
        r@.len() == 5,
        layout_size(r@) == TTF_HEADER_SIZE,
        field_offset(r@, 1) == 4,
        width_bytes(r@[1].width) == 2,
{
    let r = vec![
        FieldSpec { name: "magic", width: FieldWidth::U32 },
        FieldSpec { name: "num_tables", width: FieldWidth::U16 },
        FieldSpec { name: "search_range", width: FieldWidth::U16 },
        FieldSpec { name: "entry_selector", width: FieldWidth::U16 },
        FieldSpec { name: "range_shift", width: FieldWidth::U16 },
    ];
    assert(field_offset(r@, 0) == 0);
    assert(field_offset(r@, 1) == 4);
    assert(field_offset(r@, 2) == 6);
    assert(field_offset(r@, 3) == 8);
    assert(field_offset(r@, 4) == 10);
    assert(field_offset(r@, 5) == 12);
    r
}

fn table_entry_layout() -> (r: Vec<FieldSpec>)
    ensures
        r@.len() == 4,
        layout_size(r@) == TTF_TABLE_ENTRY_SIZE,
        forall|i: int| 0 <= i < 4 ==> field_offset(r@, i) == 4 * i,
        forall|i: int| 0 <= i < 4 ==> width_bytes(#[trigger] r@[i].width) == 4,
{
    let r = vec![
        FieldSpec { name: "tag", width: FieldWidth::U32 },
        FieldSpec { name: "checksum", width: FieldWidth::U32 },
        FieldSpec { name: "offset", width: FieldWidth::U32 },
        FieldSpec { name: "length", width: FieldWidth::U32 },
    ];
    assert(field_offset(r@, 0) == 0);
    assert(field_offset(r@, 1) == 4);
    assert(field_offset(r@, 2) == 8);
    assert(field_offset(r@, 3) == 12);
    assert(field_offset(r@, 4) == 16);
    r
}

/// Some entry of `tables` carries `tag`.
fn contains_tag(tables: &Vec<TTFTableEntry>, tag: [u8; 4]) -> (r: bool)
    ensures
        r == exists|i: int| 0 <= i < tables@.len() && tables@[i].tag@ == tag@,
{
    let mut i: usize = 0;
    while i < tables.len()
        invariant
            i <= tables@.len(),
            forall|k: int| 0 <= k < i ==> tables@[k].tag@ != tag@,
        decreases tables@.len() - i,
    {
        let t = &tables[i].tag;
        if t[0] == tag[0] && t[1] == tag[1] && t[2] == tag[2] && t[3] == tag[3] {
            assert(tables@[i as int].tag@ =~= tag@);
            return true;
        }
        assert(tables@[i as int].tag@[0] != tag@[0] || tables@[i as int].tag@[1] != tag@[1]
            || tables@[i as int].tag@[2] != tag@[2] || tables@[i as int].tag@[3] != tag@[3]);
        i = i + 1;
    }
    false
}

/// Parses the table directory at the start of `data`: the 14-byte preamble,
/// then as many 16-byte entries as it declares, all big-endian. Fails when
/// the preamble or a declared entry runs past the end of `data`, when more
/// than 32 tables are declared, or when `head`, `hhea` or `maxp` is missing.
pub fn parse_ttf_header(data: &[u8]) -> (r: Result<TTFHeader, StructureError>)
    ensures
        r is Ok <==> valid_directory(data@),
        data@.len() >= TTF_HEADER_SIZE && num_tables(data@) > MAX_TABLES ==> r is Err,
        !has_required_tables(data@) ==> r is Err,
        r matches Ok(h) ==> {
            &&& h.tables@.len() == num_tables(data@)
            &&& forall|i: int| 0 <= i < h.tables@.len() ==> entry_from(#[trigger] h.tables@[i], data@, i)
        },
{
    let header_layout = header_layout();
    let header = match parse(data, &header_layout, ByteOrder::Big) {
        Ok(values) => values,
        Err(e) => return Err(e),
    };
    let count = header[1];
    assert(data@.subrange(4, 6) =~= data@.subrange(
        field_offset(header_layout@, 1) as int,
        (field_offset(header_layout@, 1) + width_bytes(header_layout@[1].width)) as int,
    ));
    assert(count == num_tables(data@));
    if count > MAX_TABLES {
        return Err(StructureError);
    }
    let entry_layout = table_entry_layout();
    let entry_size = size(&entry_layout);
    let mut tables: Vec<TTFTableEntry> = Vec::new();
    let mut i: usize = 0;
    while i < count as usize
        invariant
            count == num_tables(data@),
            count <= MAX_TABLES,
            i <= count,
            entry_size == TTF_TABLE_ENTRY_SIZE,
            entry_layout@.len() == 4,
            layout_size(entry_layout@) == TTF_TABLE_ENTRY_SIZE,
            forall|k: int| 0 <= k < 4 ==> field_offset(entry_layout@, k) == 4 * k,
            forall|k: int| 0 <= k < 4 ==> width_bytes(#[trigger] entry_layout@[k].width) == 4,
            tables@.len() == i,
            forall|k: int| 0 <= k < i ==> entry_from(#[trigger] tables@[k], data@, k),
            data@.len() >= entry_start(i as int),
        decreases count - i,
    {
        assert(i * entry_size <= 512) by (nonlinear_arith)
            requires
                i <= 32,
                entry_size == 16,
        ;
        let entry_offset = TTF_HEADER_SIZE + i * entry_size;
        if entry_offset + entry_size > data.len() {
            return Err(StructureError);
        }
        let entry_data = slice_subrange(data, entry_offset, entry_offset + entry_size);
        let values = match parse(entry_data, &entry_layout, ByteOrder::Big) {
            Ok(values) => values,
            Err(e) => return Err(e),
        };
        let ghost base = entry_start(i as int);
        proof {
            assert forall|k: int| 0 <= k < 4 implies values@[k] == word_at(data@, base + 4 * k) by {
                assert(entry_data@.subrange(
                    field_offset(entry_layout@, k) as int,
                    (field_offset(entry_layout@, k) + width_bytes(entry_layout@[k].width)) as int,
                ) =~= data@.subrange(base + 4 * k, base + 4 * k + 4));
            }
            lemma_word_bytes(tag_at(data@, i as int));
        }
        let tag = tag_bytes(values[0]);
        assert(tag@ =~= tag_at(data@, i as int));
        tables.push(TTFTableEntry {
            tag,
            checksum: values[1],
            offset: values[2] as usize,
            length: values[3] as usize,
        });
        i = i + 1;
    }
    let ghost entries = tables@;
    assert forall|k: int| 0 <= k < entries.len() implies entries[k].tag@ == tag_at(data@, k) by {
        assert(entry_from(entries[k], data@, k));
    }
    if !contains_tag(&tables, [0x68, 0x65, 0x61, 0x64]) {
        assert(!lists_tag(data@, head_tag())) by {
            assert([0x68u8, 0x65u8, 0x61u8, 0x64u8]@ =~= head_tag());
        }
        return Err(StructureError);
    }
    if !contains_tag(&tables, [0x68, 0x68, 0x65, 0x61]) {
        assert(!lists_tag(data@, hhea_tag())) by {
            assert([0x68u8, 0x68u8, 0x65u8, 0x61u8]@ =~= hhea_tag());
        }
        return Err(StructureError);
    }
    if !contains_tag(&tables, [0x6d, 0x61, 0x78, 0x70]) {
        assert(!lists_tag(data@, maxp_tag())) by {
            assert([0x6du8, 0x61u8, 0x78u8, 0x70u8]@ =~= maxp_tag());
        }
        return Err(StructureError);
    }
    assert([0x68u8, 0x65u8, 0x61u8, 0x64u8]@ =~= head_tag());
    assert([0x68u8, 0x68u8, 0x65u8, 0x61u8]@ =~= hhea_tag());
    assert([0x6du8, 0x61u8, 0x78u8, 0x70u8]@ =~= maxp_tag());
    assert(has_required_tables(data@));
    Ok(TTFHeader { tables })
}

/// Total size of the font: the furthest byte that any table reaches. `None`
/// when there are no tables, or when that byte lies beyond what `usize`
/// holds on this platform.
pub fn calculate_ttf_file_size(header: &TTFHeader) -> (r: Option<usize>)
    ensures
        r is None <==> header.tables@.len() == 0 || exists|i: int|
            0 <= i < header.tables@.len() && extent(#[trigger] header.tables@[i]) > usize::MAX,
        r matches Some(v) ==> is_max_extent(header.tables@, v as int),
{
    if header.tables.len() == 0 {
        return None;
    }
    let mut best: usize = 0;
    let mut i: usize = 0;
    while i < header.tables.len()
        invariant
            i <= header.tables@.len(),
            header.tables@.len() > 0,
            forall|k: int| 0 <= k < i ==> extent(#[trigger] header.tables@[k]) <= best,
            i > 0 ==> exists|k: int| 0 <= k < i && extent(#[trigger] header.tables@[k]) == best,
            forall|k: int| 0 <= k < i ==> extent(#[trigger] header.tables@[k]) <= usize::MAX,
        decreases header.tables@.len() - i,
    {
        let e = &header.tables[i];
        let end = match e.offset.checked_add(e.length) {
            Some(end) => end,
            None => {
                assert(extent(header.tables@[i as int]) > usize::MAX);
                return None;
            },
        };
        if i == 0 || end > best {
            best = end;
        }
        i = i + 1;
    }
    Some(best)
}

} // verus!
