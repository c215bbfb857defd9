//! PFR1 header and logical font directory parsing.
use vstd::prelude::*;
use crate::bit_reader::{
    read_u8_spec, read_u24_spec,
    PfrBitReader, read_bits_spec, read_i24_spec, read_u16_spec, lemma_read_bits_bound, min_int,
    lemma_split_read, lemma_aligned_byte_read, lemma_bit_at_bound, bit_at, bits_value,
    available_bits,
};
use vstd::arithmetic::power2::lemma2_to64;
use crate::text::{decimal, decimal_string, string_from_utf8_lossy, utf8_lossy};

verus! {

/// The fixed-size PFR1 header.
#[derive(Debug, Clone, Copy)]
pub struct PfrHeader {
    pub version: u8,
    pub signature: u32,
    pub header_sig2: u16,
    pub header_size: u16,
    pub log_font_dir_size: u32,
    pub log_font_dir_offset: u32,
    pub log_font_max_size: u16,
    pub log_font_section_size: u32,
    pub log_font_section_offset: u32,
    pub phys_font_max_size: u16,
    pub phys_font_section_size: u32,
    pub phys_font_section_offset: u32,
    pub gps_max_size: u16,
    pub gps_section_size: u32,
    pub gps_section_offset: u32,
    pub max_blue_values: u8,
    pub max_x_orus: u8,
    pub max_y_orus: u8,
    pub phys_font_max_size_high: u8,
    pub pfr_invert_bitmap: bool,
    pub pfr_black_pixel: bool,
    pub flags: u8,
    pub n_phys_fonts: u16,
    pub max_chars: u16,
}

impl PfrHeader {
    /// A header with every field zero or false.
    pub fn new() -> (h: Self)
        ensures
            h.version == 0 && h.signature == 0 && h.header_sig2 == 0 && h.header_size == 0,
            h.log_font_dir_size == 0 && h.log_font_dir_offset == 0 && h.log_font_max_size == 0,
            h.log_font_section_size == 0 && h.log_font_section_offset == 0,
            h.phys_font_max_size == 0 && h.phys_font_section_size == 0
                && h.phys_font_section_offset == 0,
            h.gps_max_size == 0 && h.gps_section_size == 0 && h.gps_section_offset == 0,
            h.max_blue_values == 0 && h.max_x_orus == 0 && h.max_y_orus == 0
                && h.phys_font_max_size_high == 0,
            !h.pfr_invert_bitmap && !h.pfr_black_pixel && h.flags == 0,
            h.n_phys_fonts == 0 && h.max_chars == 0,
    {
        PfrHeader {
            version: 0,
            signature: 0,
            header_sig2: 0,
            header_size: 0,
            log_font_dir_size: 0,
            log_font_dir_offset: 0,
            log_font_max_size: 0,
            log_font_section_size: 0,
            log_font_section_offset: 0,
            phys_font_max_size: 0,
            phys_font_section_size: 0,
            phys_font_section_offset: 0,
            gps_max_size: 0,
            gps_section_size: 0,
            gps_section_offset: 0,
            max_blue_values: 0,
            max_x_orus: 0,
            max_y_orus: 0,
            phys_font_max_size_high: 0,
            pfr_invert_bitmap: false,
            pfr_black_pixel: false,
            flags: 0,
            n_phys_fonts: 0,
            max_chars: 0,
        }
    }
}

/// Big-endian 16-bit value at byte `i`.
pub open spec fn be16(d: Seq<u8>, i: int) -> int {
    d[i] as int * 0x100 + d[i + 1] as int
}

/// Big-endian 24-bit value at byte `i`.
pub open spec fn be24(d: Seq<u8>, i: int) -> int {
    d[i] as int * 0x1_0000 + d[i + 1] as int * 0x100 + d[i + 2] as int
}

proof fn lemma_u8_at(d: Seq<u8>, p: int)
    requires
        0 <= p < d.len(),
    ensures
        read_u8_spec(d, p * 8) == (d[p], (p + 1) * 8),
{
    assert((p * 8 + 7) / 8 == p);
}

proof fn lemma_u16_at(d: Seq<u8>, p: int)
    requires
        0 <= p,
        p + 2 <= d.len(),
    ensures
        read_u16_spec(d, p * 8) == (be16(d, p) as u16, (p + 2) * 8),
        be16(d, p) < 0x1_0000,
{
    lemma_u8_at(d, p);
    lemma_u8_at(d, p + 1);
}

proof fn lemma_u24_at(d: Seq<u8>, p: int)
    requires
        0 <= p,
        p + 3 <= d.len(),
    ensures
        read_u24_spec(d, p * 8) == (be24(d, p) as u32, (p + 3) * 8),
        be24(d, p) < 0x100_0000,
{
    lemma_u8_at(d, p);
    lemma_u8_at(d, p + 1);
    lemma_u8_at(d, p + 2);
}

/// Smallest PFR1 data that holds a whole header.
pub const PFR_HEADER_SIZE: usize = 58;

/// The header fields, at their fixed byte offsets in `d`.
pub open spec fn header_matches(h: PfrHeader, d: Seq<u8>) -> bool {
    &&& h.version == 1
    &&& h.signature == be16(d, 4)
    &&& h.header_sig2 == be16(d, 6)
    &&& h.header_size == be16(d, 8)
    &&& h.log_font_dir_size == be16(d, 10)
    &&& h.log_font_dir_offset == be16(d, 12)
    &&& h.log_font_max_size == be16(d, 14)
    &&& h.log_font_section_size == be24(d, 16)
    &&& h.log_font_section_offset == be24(d, 19)
    &&& h.phys_font_max_size == be16(d, 22)
    &&& h.phys_font_section_size == be24(d, 24)
    &&& h.phys_font_section_offset == be24(d, 27)
    &&& h.gps_max_size == be16(d, 30)
    &&& h.gps_section_size == be24(d, 32)
    &&& h.gps_section_offset == be24(d, 35)
    &&& h.max_blue_values == d[38]
    &&& h.max_x_orus == d[39]
    &&& h.max_y_orus == d[40]
    &&& h.phys_font_max_size_high == d[41]
    &&& h.flags == d[42]
    &&& h.pfr_invert_bitmap == (d[42] & 0x02 != 0)
    &&& h.pfr_black_pixel == (d[42] & 0x01 != 0)
    &&& h.n_phys_fonts == be16(d, 52)
    &&& h.max_chars == be16(d, 56)
}

/// The bytes of "PFR1".
pub open spec fn pfr1_magic() -> Seq<u8> {
    seq![0x50u8, 0x46u8, 0x52u8, 0x31u8]
}

/// Error text for data shorter than a header.
pub open spec fn too_small_message(len: nat) -> Seq<char> {
    "PFR data too small for header ("@ + decimal(len) + " bytes, need >= 58)"@
}

/// Error text for data that does not start with the PFR1 magic.
pub open spec fn bad_magic_message(magic: Seq<u8>) -> Seq<char> {
    "Invalid PFR magic: '"@ + utf8_lossy(magic) + "'"@
}

/// Parses the PFR header from raw data. Fails when the data is shorter than
/// the header or its first four bytes are not "PFR1"; the error then shows
/// those bytes decoded as UTF-8.
#[verifier::rlimit(40)]
pub fn parse_pfr_header(data: &[u8]) -> (r: Result<PfrHeader, String>)
    ensures
        data@.len() < 58 ==> (r matches Err(e) && e@ == too_small_message(data@.len())),
        data@.len() >= 58 ==> (r is Ok <==> data@.subrange(0, 4) == pfr1_magic()),
        data@.len() >= 58 && data@.subrange(0, 4) != pfr1_magic() ==> (r matches Err(e) && e@
            == bad_magic_message(data@.subrange(0, 4))),
        data@.len() >= 58 && data@.subrange(0, 4) == pfr1_magic() ==> (r matches Ok(h)
            && header_matches(h, data@)),
{
    if data.len() < PFR_HEADER_SIZE {
        let mut msg = String::from_str("PFR data too small for header (");
        let n = decimal_string(data.len());
        msg.append(n.as_str());
        msg.append(" bytes, need >= 58)");
        return Err(msg);
    }
    let mut reader = PfrBitReader::new(data);

    // Read magic: "PFR1" (4 bytes)
    let magic = reader.read_bytes(4);
    assert(reader.cursor() == 32);
    assert(magic@ == data@.subrange(0, 4));
    let is_pfr1 = magic.len() == 4 && magic[0] == 0x50 && magic[1] == 0x46 && magic[2] == 0x52
        && magic[3] == 0x31;
    assert(is_pfr1 <==> magic@ =~= pfr1_magic());
    if !is_pfr1 {
        let magic_str = string_from_utf8_lossy(magic.as_slice());
        let mut msg = String::from_str("Invalid PFR magic: '");
        msg.append(magic_str.as_str());
        msg.append("'");
        return Err(msg);
    }

    let mut header = PfrHeader::new();
    header.version = if is_pfr1 {
        1
    } else {
        0
    };

    proof { lemma_u16_at(data@, 4); }
    header.signature = reader.read_u16() as u32;
    proof { lemma_u16_at(data@, 6); }
    header.header_sig2 = reader.read_u16();
    proof { lemma_u16_at(data@, 8); }
    header.header_size = reader.read_u16();
    proof { lemma_u16_at(data@, 10); }
    header.log_font_dir_size = reader.read_u16() as u32;
    proof { lemma_u16_at(data@, 12); }
    header.log_font_dir_offset = reader.read_u16() as u32;
    proof { lemma_u16_at(data@, 14); }
    header.log_font_max_size = reader.read_u16();
    proof { lemma_u24_at(data@, 16); }
    header.log_font_section_size = reader.read_u24();
    proof { lemma_u24_at(data@, 19); }
    header.log_font_section_offset = reader.read_u24();
    proof { lemma_u16_at(data@, 22); }
    header.phys_font_max_size = reader.read_u16();
    proof { lemma_u24_at(data@, 24); }
    header.phys_font_section_size = reader.read_u24();
    proof { lemma_u24_at(data@, 27); }
    header.phys_font_section_offset = reader.read_u24();
    proof { lemma_u16_at(data@, 30); }
    header.gps_max_size = reader.read_u16();
    proof { lemma_u24_at(data@, 32); }
    header.gps_section_size = reader.read_u24();
    proof { lemma_u24_at(data@, 35); }
    header.gps_section_offset = reader.read_u24();
    proof { lemma_u8_at(data@, 38); }
    header.max_blue_values = reader.read_u8();
    proof { lemma_u8_at(data@, 39); }
    header.max_x_orus = reader.read_u8();
    proof { lemma_u8_at(data@, 40); }
    header.max_y_orus = reader.read_u8();
    proof { lemma_u8_at(data@, 41); }
    header.phys_font_max_size_high = reader.read_u8();

    proof { lemma_u8_at(data@, 42); }
    let flags_byte = reader.read_u8();
    header.pfr_invert_bitmap = (flags_byte & 0x02) != 0;
    header.pfr_black_pixel = (flags_byte & 0x01) != 0;
    header.flags = flags_byte;

    proof { lemma_u24_at(data@, 43); }
    let _bct_max_size = reader.read_u24();
    proof { lemma_u24_at(data@, 46); }
    let _bct_set_max_size = reader.read_u24();
    proof { lemma_u24_at(data@, 49); }
    let _pft_bct_set_max_size = reader.read_u24();

    proof { lemma_u16_at(data@, 52); }
    header.n_phys_fonts = reader.read_u16();

    proof { lemma_u8_at(data@, 54); }
    let _max_stem_snap_v = reader.read_u8();
    proof { lemma_u8_at(data@, 55); }
    let _max_stem_snap_h = reader.read_u8();

    proof { lemma_u16_at(data@, 56); }
    header.max_chars = reader.read_u16();

    Ok(header)
}

/// One entry of the logical font directory.
#[derive(Debug, Clone, Copy)]
pub struct LogicalFontRecord {
    pub font_matrix: [i32; 4],
    pub size: u32,
    pub offset: u32,
    pub style_flags: u32,
}

/// What a logical font record holds, as plain values.
pub struct FontRecordView {
    pub matrix: Seq<i32>,
    pub size: u32,
    pub offset: u32,
    pub style_flags: u32,
}

impl View for LogicalFontRecord {
    type V = FontRecordView;

    open spec fn view(&self) -> FontRecordView {
        FontRecordView {
            matrix: self.font_matrix@,
            size: self.size,
            offset: self.offset,
            style_flags: self.style_flags,
        }
    }
}

/// Cursor after `n` reads of `bits` bits each.
pub open spec fn skip_reads(data: Seq<u8>, cursor: int, bits: u32, n: nat) -> int
    decreases n,
{
    if n == 0 {
        cursor
    } else {
        read_bits_spec(data, skip_reads(data, cursor, bits, (n - 1) as nat), bits).1
    }
}

/// Cursor after one extra item: an 8-bit size, an 8-bit type, then `size`
/// payload bytes read 8 bits at a time.
pub open spec fn extra_item_end(data: Seq<u8>, cursor: int) -> int {
    let (size, c1) = read_bits_spec(data, cursor, 8);
    let c2 = read_bits_spec(data, c1, 8).1;
    skip_reads(data, c2, 8, size as nat)
}

/// Cursor after `n` extra items.
pub open spec fn extra_items_end(data: Seq<u8>, cursor: int, n: nat) -> int
    decreases n,
{
    if n == 0 {
        cursor
    } else {
        extra_item_end(data, extra_items_end(data, cursor, (n - 1) as nat))
    }
}

/// Cursor after the stroke or bold thickness fields that the flag bits
/// announce (a miter join adds a 24-bit limit after a stroke thickness).
pub open spec fn thickness_end(
    data: Seq<u8>,
    cursor: int,
    two_byte_bold: bool,
    bold: bool,
    two_byte_stroke: bool,
    stroke: bool,
    line_join: u32,
) -> int {
    if stroke {
        let c = read_bits_spec(data, cursor, if two_byte_stroke { 16 } else { 8 }).1;
        if line_join == 0 {
            read_bits_spec(data, c, 24).1
        } else {
            c
        }
    } else if bold {
        read_bits_spec(data, cursor, if two_byte_bold { 16 } else { 8 }).1
    } else {
        cursor
    }
}

/// One logical font record at `c0`: four 24-bit matrix entries, a flags
/// byte (zero bit, extra items, two-byte bold, bold, two-byte stroke,
/// stroke, 2-bit line join), the thickness fields, the extra items, a 16-bit
/// physical font size, a 24-bit physical font offset and, when the header
/// says so, an 8-bit size increment in units of 65536.
#[verifier::opaque]
pub open spec fn font_record_spec(data: Seq<u8>, c0: int, size_high: bool) -> (
    FontRecordView,
    int,
) {
    let (m0, c1) = read_i24_spec(data, c0);
    let (m1, c2) = read_i24_spec(data, c1);
    let (m2, c3) = read_i24_spec(data, c2);
    let (m3, c4) = read_i24_spec(data, c3);
    let c5 = read_bits_spec(data, c4, 1).1;
    let (extra, c6) = read_bits_spec(data, c5, 1);
    let (two_bold, c7) = read_bits_spec(data, c6, 1);
    let (bold, c8) = read_bits_spec(data, c7, 1);
    let (two_stroke, c9) = read_bits_spec(data, c8, 1);
    let (stroke, c10) = read_bits_spec(data, c9, 1);
    let (join, c11) = read_bits_spec(data, c10, 2);
    let c12 = thickness_end(data, c11, two_bold != 0, bold != 0, two_stroke != 0, stroke != 0, join);
    let c13 = if extra != 0 {
        let (n, c) = read_bits_spec(data, c12, 8);
        extra_items_end(data, c, n as nat)
    } else {
        c12
    };
    let (size, c14) = read_bits_spec(data, c13, 16);
    let (offset, c15) = read_bits_spec(data, c14, 24);
    let (inc, c16) = if size_high {
        read_bits_spec(data, c15, 8)
    } else {
        (0u32, c15)
    };
    (
        FontRecordView {
            matrix: seq![m0, m1, m2, m3],
            size: (size + inc * 0x1_0000) as u32,
            offset,
            style_flags: 0,
        },
        c16,
    )
}

/// `n` consecutive logical font records from `c0`, and the cursor after them.
pub open spec fn font_records_spec(data: Seq<u8>, c0: int, n: nat, size_high: bool) -> (
    Seq<FontRecordView>,
    int,
)
    decreases n,
{
    if n == 0 {
        (seq![], c0)
    } else {
        let (rs, c) = font_records_spec(data, c0, (n - 1) as nat, size_high);
        let (r, c1) = font_record_spec(data, c, size_high);
        (rs.push(r), c1)
    }
}

/// Reading `n` records gives `n` records.
pub proof fn lemma_font_records_len(data: Seq<u8>, c0: int, n: nat, size_high: bool)
    ensures
        font_records_spec(data, c0, n, size_high).0.len() == n,
    decreases n,
{
    if n > 0 {
        lemma_font_records_len(data, c0, (n - 1) as nat, size_high);
    }
}

/// The logical font directory that `header` points to in `data`. With no
/// directory it is empty. A PFR1 header whose directory is smaller than 14
/// bytes describes one font, read at the start of the logical font section
/// when that section is at least 18 bytes long and starts inside the data.
/// Otherwise the directory is a 16-bit count followed by that many records,
/// of which at most 16 are read.
pub open spec fn logical_font_directory_spec(data: Seq<u8>, header: PfrHeader) -> Seq<
    FontRecordView,
> {
    let high = header.phys_font_max_size_high != 0;
    if header.log_font_dir_offset == 0 || header.log_font_dir_size == 0 {
        seq![]
    } else if header.version == 1 && header.log_font_dir_size < 14 {
        let off = header.log_font_section_offset as int;
        if header.log_font_section_size >= 18 && off > 0 && off < data.len() {
            seq![font_record_spec(data, off * 8, high).0]
        } else {
            seq![]
        }
    } else if header.log_font_dir_offset >= data.len() {
        seq![]
    } else {
        let (n, c) = read_u16_spec(data, header.log_font_dir_offset * 8);
        font_records_spec(data, c, min_int(n as int, 16) as nat, high).0
    }
}

/// A logical font directory never holds more than 16 records.
pub proof fn lemma_directory_at_most_16(data: Seq<u8>, header: PfrHeader)
    ensures
        logical_font_directory_spec(data, header).len() <= 16,
{
    if header.log_font_dir_offset != 0 && header.log_font_dir_size != 0 && !(header.version == 1
        && header.log_font_dir_size < 14) && header.log_font_dir_offset < data.len() {
        let (n, c) = read_u16_spec(data, header.log_font_dir_offset * 8);
        lemma_font_records_len(
            data,
            c,
            min_int(n as int, 16) as nat,
            header.phys_font_max_size_high != 0,
        );
    }
}

/// The two flag bits of the header: `pfr_black_pixel` is the lowest bit of
/// the flags byte at offset 42 and `pfr_invert_bitmap` the next one; no
/// other bit of that byte affects either.
pub proof fn lemma_header_flag_bits(h: PfrHeader, d: Seq<u8>)
    requires
        d.len() >= 58,
        header_matches(h, d),
    ensures
        h.pfr_black_pixel == (d[42] % 2 == 1),
        h.pfr_invert_bitmap == ((d[42] / 2) % 2 == 1),
{
    let f = d[42];
    assert((f & 0x01 != 0) == (f % 2 == 1)) by (bit_vector);
    assert((f & 0x02 != 0) == ((f / 2) % 2 == 1)) by (bit_vector);
}

/// Sixteen bits read at a byte boundary are the big-endian value of the two
/// bytes there.
proof fn lemma_aligned_bits16(d: Seq<u8>, a: int)
    requires
        0 <= a,
        a + 2 <= d.len(),
    ensures
        read_bits_spec(d, a * 8, 16) == (be16(d, a) as u32, a * 8 + 16),
        be16(d, a) < 0x1_0000,
{
    lemma2_to64();
    lemma_split_read(d, a * 8, 8, 8);
    lemma_aligned_byte_read(d, a);
    lemma_aligned_byte_read(d, a + 1);
    lemma_u8_at(d, a);
    lemma_u8_at(d, a + 1);
    assert((a + 1) * 8 == a * 8 + 8);
}

/// Twenty-four bits read at a byte boundary are the big-endian value of the
/// three bytes there.
proof fn lemma_aligned_bits24(d: Seq<u8>, a: int)
    requires
        0 <= a,
        a + 3 <= d.len(),
    ensures
        read_bits_spec(d, a * 8, 24) == (be24(d, a) as u32, a * 8 + 24),
        be24(d, a) < 0x100_0000,
{
    lemma2_to64();
    lemma_aligned_bits16(d, a);
    lemma_split_read(d, a * 8, 16, 8);
    lemma_aligned_byte_read(d, a + 2);
    lemma_u8_at(d, a + 2);
    assert((a + 2) * 8 == a * 8 + 16);
    lemma_read_bits_bound(d, a * 8, 24);
    let v = read_bits_spec(d, a * 8, 24).0;
    assert(v as int == be16(d, a) * 256 + d[a + 2]);
    assert(be16(d, a) * 256 + d[a + 2] == be24(d, a));
}

/// Bit `j` (0 the most significant) of byte `q`, read as a one-bit field.
proof fn lemma_flag_bit(d: Seq<u8>, q: int, j: int)
    requires
        0 <= q < d.len(),
        0 <= j < 8,
    ensures
        read_bits_spec(d, q * 8 + j, 1) == ((((d[q] as u32) >> ((7 - j) as u32)) & 1u32) as u32,
            q * 8 + j + 1),
{
    let i = q * 8 + j;
    assert(i / 8 == q && i % 8 == j);
    assert(available_bits(d, i) >= 1);
    assert(bits_value(d, i, 1) == 2 * bits_value(d, i, 0) + bit_at(d, i));
    lemma_bit_at_bound(d, i);
}

/// Number of bytes of thickness data that follow a record's flags byte `f`:
/// with the stroke bit (0x04) a one-byte stroke thickness (two bytes with
/// 0x08), plus a three-byte miter limit when the line join (the low two
/// bits) is 0; else with the bold bit (0x10) a one-byte bold thickness (two
/// bytes with 0x20); else none.
pub open spec fn thickness_bytes(f: u8) -> int {
    if f & 0x04 != 0 {
        (if f & 0x08 != 0 { 2int } else { 1int }) + (if f & 0x03 == 0 { 3int } else { 0int })
    } else if f & 0x10 != 0 {
        if f & 0x20 != 0 { 2 } else { 1 }
    } else {
        0
    }
}

/// A three-byte big-endian two's complement value.
pub open spec fn be24_signed(d: Seq<u8>, i: int) -> int {
    if be24(d, i) >= 0x80_0000 {
        be24(d, i) - 0x100_0000
    } else {
        be24(d, i)
    }
}

/// Layout of a logical font record without extra items, starting at byte
/// `p`: four three-byte signed matrix entries, the flags byte, the thickness
/// bytes that the flags announce (`thickness_bytes`), then the 16-bit
/// physical font size and the 24-bit offset, and with `size_high` one more
/// byte counting units of 65536 in the size.
#[verifier::rlimit(80)]
pub proof fn lemma_record_layout(d: Seq<u8>, p: int, size_high: bool)
    requires
        0 <= p,
        p + 13 <= d.len(),
        d[p + 12] & 0x40 == 0,
        p + 18 + thickness_bytes(d[p + 12]) + (if size_high { 1int } else { 0int }) <= d.len(),
    ensures
        ({
            let t = thickness_bytes(d[p + 12]);
            let r = font_record_spec(d, p * 8, size_high).0;
            &&& r.matrix == seq![
                be24_signed(d, p) as i32,
                be24_signed(d, p + 3) as i32,
                be24_signed(d, p + 6) as i32,
                be24_signed(d, p + 9) as i32,
            ]
            &&& r.size == be16(d, p + 13 + t) + (if size_high { d[p + 18 + t] * 0x1_0000 } else { 0 })
            &&& r.offset == be24(d, p + 15 + t)
        }),
{
    reveal(font_record_spec);
    lemma2_to64();
    let f = d[p + 12];
    let q = p + 12;
    let t = thickness_bytes(f);
    lemma_u24_at(d, p);
    lemma_u24_at(d, p + 3);
    lemma_u24_at(d, p + 6);
    lemma_u24_at(d, p + 9);
    assert(read_i24_spec(d, p * 8).1 == (p + 3) * 8);
    assert(read_i24_spec(d, (p + 3) * 8).1 == (p + 6) * 8);
    assert(read_i24_spec(d, (p + 6) * 8).1 == (p + 9) * 8);
    assert(read_i24_spec(d, (p + 9) * 8).1 == q * 8);
    lemma_flag_bit(d, q, 0);
    lemma_flag_bit(d, q, 1);
    lemma_flag_bit(d, q, 2);
    lemma_flag_bit(d, q, 3);
    lemma_flag_bit(d, q, 4);
    lemma_flag_bit(d, q, 5);
    lemma_flag_bit(d, q, 6);
    lemma_flag_bit(d, q, 7);
    lemma_split_read(d, q * 8 + 6, 1, 1);
    let fb = f as u32;
    assert(fb as u8 == f);
    assert(((fb >> 6u32) & 1u32) == 0) by (bit_vector)
        requires
            fb < 256,
            (fb as u8) & 0x40 == 0,
    ;
    assert((((fb >> 2u32) & 1u32) != 0) == ((fb as u8) & 0x04 != 0)) by (bit_vector)
        requires
            fb < 256,
    ;
    assert((((fb >> 3u32) & 1u32) != 0) == ((fb as u8) & 0x08 != 0)) by (bit_vector)
        requires
            fb < 256,
    ;
    assert((((fb >> 4u32) & 1u32) != 0) == ((fb as u8) & 0x10 != 0)) by (bit_vector)
        requires
            fb < 256,
    ;
    assert((((fb >> 5u32) & 1u32) != 0) == ((fb as u8) & 0x20 != 0)) by (bit_vector)
        requires
            fb < 256,
    ;
    assert(((((fb >> 1u32) & 1u32) * 2 + ((fb >> 0u32) & 1u32)) == 0) == ((fb as u8) & 0x03
        == 0)) by (bit_vector)
        requires
            fb < 256,
    ;
    assert(read_bits_spec(d, q * 8 + 6, 2).1 == (q + 1) * 8);
    assert(read_bits_spec(d, q * 8 + 6, 2).0 as int == ((fb >> 1u32) & 1u32) * 2 + ((fb
        >> 0u32) & 1u32));
    let c11 = (q + 1) * 8;
    assert(available_bits(d, c11) >= 8 * (t + 5));
    let c13 = (q + 1 + t) * 8;
    lemma_aligned_bits16(d, q + 1 + t);
    lemma_aligned_bits24(d, q + 3 + t);
    assert(c13 + 16 == (q + 3 + t) * 8);
    if size_high {
        lemma_aligned_byte_read(d, q + 6 + t);
        lemma_u8_at(d, q + 6 + t);
        assert((q + 3 + t) * 8 + 24 == (q + 6 + t) * 8);
    }
}

/// Reads `n` groups of `bits` bits and drops them.
fn skip_bit_groups(reader: &mut PfrBitReader, bits: u32, n: u32)
    requires
        old(reader).wf(),
    ensures
        final(reader).wf(),
        final(reader).bytes() == old(reader).bytes(),
        final(reader).cursor() == skip_reads(old(reader).bytes(), old(reader).cursor(), bits, n as nat),
{
    let mut i: u32 = 0;
    while i < n
        invariant
            reader.wf(),
            reader.bytes() == old(reader).bytes(),
            i <= n,
            reader.cursor() == skip_reads(old(reader).bytes(), old(reader).cursor(), bits, i as nat),
        decreases n - i,
    {
        reader.read_bits(bits);
        i += 1;
    }
}

/// Reads one logical font record.
fn read_logical_font_record(reader: &mut PfrBitReader, size_high: bool) -> (r: LogicalFontRecord)
    requires
        old(reader).wf(),
    ensures
        final(reader).wf(),
        final(reader).bytes() == old(reader).bytes(),
        (r@, final(reader).cursor()) == font_record_spec(old(reader).bytes(), old(reader).cursor(), size_high),
{
    let ghost data = reader.bytes();
    proof {
        reveal(font_record_spec);
    }
    // Font matrix: 4 x 24-bit two's complement values
    let m0 = reader.read_i24();
    let m1 = reader.read_i24();
    let m2 = reader.read_i24();
    let m3 = reader.read_i24();
    let font_matrix = [m0, m1, m2, m3];

    // Flags byte (8 individual bits)
    let _zero_bit = reader.read_bit();
    let extra_items_present = reader.read_bit();
    let two_byte_bold_thickness = reader.read_bit();
    let bold_flag = reader.read_bit();
    let two_byte_stroke_thickness = reader.read_bit();
    let stroke_flag = reader.read_bit();
    let line_join_type = reader.read_bits(2);

    // Skip stroke/bold data based on flags
    if stroke_flag {
        if two_byte_stroke_thickness {
            reader.read_bits(16);
        } else {
            reader.read_bits(8);
        }
        if line_join_type == 0 {
            // MITER_LINE_JOIN
            reader.read_bits(24);
        }
    } else if bold_flag {
        if two_byte_bold_thickness {
            reader.read_bits(16);
        } else {
            reader.read_bits(8);
        }
    }

    // Skip extra items if present
    if extra_items_present {
        let n_extra_items = reader.read_bits(8);
        let ghost c_items = reader.cursor();
        let mut i: u32 = 0;
        while i < n_extra_items
            invariant
                reader.wf(),
                reader.bytes() == data,
                i <= n_extra_items,
                reader.cursor() == extra_items_end(data, c_items, i as nat),
            decreases n_extra_items - i,
        {
            let extra_item_size = reader.read_bits(8);
            let _extra_item_type = reader.read_bits(8);
            skip_bit_groups(reader, 8, extra_item_size);
            i += 1;
        }
    }

    // physFontSize (u16) and physFontOffset (u24)
    let c_size = Ghost(reader.cursor());
    let phys_font_size = reader.read_bits(16) as u32;
    let phys_font_offset = reader.read_bits(24) as u32;

    let c_inc = Ghost(reader.cursor());
    let mut phys_font_size_increment: u32 = 0;
    if size_high {
        phys_font_size_increment = reader.read_bits(8) as u32;
    }
    proof {
        lemma2_to64();
        lemma_read_bits_bound(data, c_size@, 16);
        lemma_read_bits_bound(data, c_inc@, 8);
    }
    let full_phys_font_size = phys_font_size + phys_font_size_increment * 65536;

    let r = LogicalFontRecord {
        font_matrix,
        size: full_phys_font_size,
        offset: phys_font_offset,
        style_flags: 0,
    };
    assert(r@.matrix == seq![m0, m1, m2, m3]);
    r
}

/// Parses the logical font directory that `header` describes.
pub fn parse_logical_font_directory(data: &[u8], header: &PfrHeader) -> (r: Result<
    Vec<LogicalFontRecord>,
    String,
>)
    ensures
        r is Ok,
        r matches Ok(fonts) ==> fonts@.len() == logical_font_directory_spec(data@, *header).len()
            && forall|i: int|
            0 <= i < fonts@.len() ==> #[trigger] fonts@[i]@ == logical_font_directory_spec(
                data@,
                *header,
            )[i],
{
    let mut logical_fonts: Vec<LogicalFontRecord> = Vec::new();
    let high = header.phys_font_max_size_high != 0;

    if header.log_font_dir_offset == 0 || header.log_font_dir_size == 0 {
        return Ok(logical_fonts);
    }

    let is_pfr1 = header.version == 1;

    // PFR1 with small LogFontDir: read directly from LogFontSection
    if is_pfr1 && header.log_font_dir_size < 14 {
        let section_offset = header.log_font_section_offset as usize;
        let section_size = header.log_font_section_size as usize;

        if section_size >= 18 && section_offset > 0 && section_offset < data.len() {
            let mut reader = PfrBitReader::from_offset(data, section_offset);
            let record = read_logical_font_record(&mut reader, high);
            logical_fonts.push(record);
        }
        return Ok(logical_fonts);
    }

    // Large LogFontDir: read from LogFontDirOffset
    let dir_offset = header.log_font_dir_offset as usize;
    if dir_offset >= data.len() {
        return Ok(logical_fonts);
    }

    let mut reader = PfrBitReader::from_offset(data, dir_offset);
    let n_log_fonts = reader.read_u16() as usize;
    let ghost c_records = reader.cursor();
    let count = if n_log_fonts < 16 {
        n_log_fonts
    } else {
        16
    };

    let mut i: usize = 0;
    while i < count
        invariant
            reader.wf(),
            reader.bytes() == data@,
            i <= count,
            logical_fonts@.len() == i,
            font_records_spec(data@, c_records, i as nat, high).1 == reader.cursor(),
            font_records_spec(data@, c_records, i as nat, high).0.len() == i,
            forall|j: int|
                0 <= j < i ==> #[trigger] logical_fonts@[j]@ == font_records_spec(
                    data@,
                    c_records,
                    i as nat,
                    high,
                ).0[j],
        decreases count - i,
    {
        let ghost before = font_records_spec(data@, c_records, i as nat, high);
        let ghost old_fonts = logical_fonts@;
        let record = read_logical_font_record(&mut reader, high);
        logical_fonts.push(record);
        i += 1;
        proof {
            let after = font_records_spec(data@, c_records, i as nat, high);
            assert(after.0 == before.0.push(record@));
            assert forall|j: int| 0 <= j < i implies #[trigger] logical_fonts@[j]@ == after.0[j] by {
                if j < i - 1 {
                    assert(logical_fonts@[j] == old_fonts[j]);
                }
            }
        }
    }
    Ok(logical_fonts)
}

} // verus!
