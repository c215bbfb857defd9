use vm_rust::header::{parse_logical_font_directory, parse_pfr_header, PfrHeader};

fn sample_header_bytes() -> Vec<u8> {
    let mut d = Vec::new();
    d.extend_from_slice(b"PFR1"); // magic
    d.extend_from_slice(&[0x00, 0x02]); // signature
    d.extend_from_slice(&[0x00, 0x03]); // header_sig2
    d.extend_from_slice(&[0x00, 0x3A]); // header_size
    d.extend_from_slice(&[0x00, 0x0F]); // log_font_dir_size
    d.extend_from_slice(&[0x00, 0x3A]); // log_font_dir_offset
    d.extend_from_slice(&[0x00, 0x12]); // log_font_max_size
    d.extend_from_slice(&[0x00, 0x00, 0x13]); // log_font_section_size
    d.extend_from_slice(&[0x01, 0x02, 0x03]); // log_font_section_offset
    d.extend_from_slice(&[0x12, 0x34]); // phys_font_max_size
    d.extend_from_slice(&[0x00, 0x01, 0x00]); // phys_font_section_size
    d.extend_from_slice(&[0x00, 0x00, 0x80]); // phys_font_section_offset
    d.extend_from_slice(&[0x00, 0x10]); // gps_max_size
    d.extend_from_slice(&[0x00, 0x00, 0x20]); // gps_section_size
    d.extend_from_slice(&[0x00, 0x00, 0x30]); // gps_section_offset
    d.extend_from_slice(&[5, 6, 7, 1]); // blue values, x orus, y orus, size high
    d.push(0x03); // flags
    d.extend_from_slice(&[0; 9]); // bct sizes
    d.extend_from_slice(&[0x00, 0x02]); // n_phys_fonts
    d.extend_from_slice(&[0, 0]); // stem snaps
    d.extend_from_slice(&[0x01, 0x00]); // max_chars
    assert_eq!(d.len(), 58);
    d
}

#[test]
fn header_too_small() {
    let data = [0u8; 57];
    let err = parse_pfr_header(&data).unwrap_err();
    assert_eq!(err, "PFR data too small for header (57 bytes, need >= 58)");
    let err = parse_pfr_header(&[]).unwrap_err();
    assert_eq!(err, "PFR data too small for header (0 bytes, need >= 58)");
}

#[test]
fn header_bad_magic() {
    let mut data = sample_header_bytes();
    data[3] = b'2';
    let err = parse_pfr_header(&data).unwrap_err();
    assert_eq!(err, "Invalid PFR magic: 'PFR2'");
}

#[test]
fn header_bad_magic_invalid_utf8() {
    let mut data = sample_header_bytes();
    data[0] = 0xFF;
    let err = parse_pfr_header(&data).unwrap_err();
    assert_eq!(err, "Invalid PFR magic: '\u{FFFD}FR1'");
}

#[test]
fn header_magic_high_bit_byte() {
    let mut data = sample_header_bytes();
    data[3] = 0xB1;
    let err = parse_pfr_header(&data).unwrap_err();
    assert_eq!(err, "Invalid PFR magic: 'PFR\u{FFFD}'");
}

#[test]
fn header_fields() {
    let data = sample_header_bytes();
    let h = parse_pfr_header(&data).unwrap();
    assert_eq!(h.version, 1);
    assert_eq!(h.signature, 2);
    assert_eq!(h.header_sig2, 3);
    assert_eq!(h.header_size, 58);
    assert_eq!(h.log_font_dir_size, 15);
    assert_eq!(h.log_font_dir_offset, 58);
    assert_eq!(h.log_font_max_size, 0x12);
    assert_eq!(h.log_font_section_size, 0x13);
    assert_eq!(h.log_font_section_offset, 0x010203);
    assert_eq!(h.phys_font_max_size, 0x1234);
    assert_eq!(h.phys_font_section_size, 0x100);
    assert_eq!(h.phys_font_section_offset, 0x80);
    assert_eq!(h.gps_max_size, 0x10);
    assert_eq!(h.gps_section_size, 0x20);
    assert_eq!(h.gps_section_offset, 0x30);
    assert_eq!(h.max_blue_values, 5);
    assert_eq!(h.max_x_orus, 6);
    assert_eq!(h.max_y_orus, 7);
    assert_eq!(h.phys_font_max_size_high, 1);
    assert_eq!(h.flags, 3);
    assert!(h.pfr_invert_bitmap);
    assert!(h.pfr_black_pixel);
    assert_eq!(h.n_phys_fonts, 2);
    assert_eq!(h.max_chars, 0x100);
}

#[test]
fn header_new_is_zero() {
    let h = PfrHeader::new();
    assert_eq!(h.version, 0);
    assert_eq!(h.log_font_dir_offset, 0);
    assert!(!h.pfr_invert_bitmap);
}

/// A record: matrix (1, -1, 0x123456, -2), flags, size, offset.
fn record_bytes(flags: u8, tail: &[u8]) -> Vec<u8> {
    let mut d = vec![0x00, 0x00, 0x01, 0xFF, 0xFF, 0xFF, 0x12, 0x34, 0x56, 0xFF, 0xFF, 0xFE];
    d.push(flags);
    d.extend_from_slice(tail);
    d
}

#[test]
fn directory_empty_when_absent() {
    let data = sample_header_bytes();
    let mut h = parse_pfr_header(&data).unwrap();
    h.log_font_dir_offset = 0;
    assert!(parse_logical_font_directory(&data, &h).unwrap().is_empty());
    h.log_font_dir_offset = 58;
    h.log_font_dir_size = 0;
    assert!(parse_logical_font_directory(&data, &h).unwrap().is_empty());
}

#[test]
fn directory_large_form() {
    let mut data = sample_header_bytes();
    // count = 2
    data.extend_from_slice(&[0x00, 0x02]);
    // record 1: no flags; size 0x0102, offset 0x030405, size increment 0x01
    data.extend_from_slice(&record_bytes(0x00, &[0x01, 0x02, 0x03, 0x04, 0x05, 0x01]));
    // record 2: stroke flag (bit 5 from the top), one-byte thickness, miter join (0):
    // flags 0b0000_0100 -> stroke; thickness byte, 24-bit miter limit
    data.extend_from_slice(&record_bytes(0x04, &[0x09, 0xAA, 0xBB, 0xCC, 0x00, 0x10, 0x00, 0x00, 0x20, 0x00]));
    let h = parse_pfr_header(&data).unwrap();
    let fonts = parse_logical_font_directory(&data, &h).unwrap();
    assert_eq!(fonts.len(), 2);
    assert_eq!(fonts[0].font_matrix, [1, -1, 0x123456, -2]);
    assert_eq!(fonts[0].size, 0x0102 + 0x01 * 65536);
    assert_eq!(fonts[0].offset, 0x030405);
    assert_eq!(fonts[0].style_flags, 0);
    assert_eq!(fonts[1].font_matrix, [1, -1, 0x123456, -2]);
    assert_eq!(fonts[1].size, 0x0010);
    assert_eq!(fonts[1].offset, 0x000020);
}

#[test]
fn directory_large_form_extra_items() {
    let mut data = sample_header_bytes();
    data.extend_from_slice(&[0x00, 0x01]);
    // flags 0b0100_0000: extra items present; 2 items: (size 1, type 7, [x]), (size 0, type 8)
    data.extend_from_slice(&record_bytes(
        0x40,
        &[0x02, 0x01, 0x07, 0xEE, 0x00, 0x08, 0x00, 0x30, 0x00, 0x00, 0x40, 0x00],
    ));
    let mut h = parse_pfr_header(&data).unwrap();
    h.phys_font_max_size_high = 0;
    let fonts = parse_logical_font_directory(&data, &h).unwrap();
    assert_eq!(fonts.len(), 1);
    assert_eq!(fonts[0].size, 0x0030);
    assert_eq!(fonts[0].offset, 0x000040);
}

#[test]
fn directory_reads_at_most_16() {
    let mut data = sample_header_bytes();
    data.extend_from_slice(&[0x00, 0x20]);
    for _ in 0..20 {
        data.extend_from_slice(&record_bytes(0x00, &[0x00, 0x01, 0x00, 0x00, 0x02]));
    }
    let mut h = parse_pfr_header(&data).unwrap();
    h.phys_font_max_size_high = 0;
    let fonts = parse_logical_font_directory(&data, &h).unwrap();
    assert_eq!(fonts.len(), 16);
    assert!(fonts.iter().all(|f| f.size == 1 && f.offset == 2));
}

#[test]
fn directory_offset_past_data() {
    let data = sample_header_bytes();
    let mut h = parse_pfr_header(&data).unwrap();
    h.log_font_dir_offset = 500;
    assert!(parse_logical_font_directory(&data, &h).unwrap().is_empty());
}

#[test]
fn directory_small_form_reads_section() {
    let mut data = sample_header_bytes();
    data.extend_from_slice(&record_bytes(0x00, &[0x00, 0x05, 0x00, 0x00, 0x06]));
    let mut h = parse_pfr_header(&data).unwrap();
    h.log_font_dir_size = 10;
    h.log_font_section_offset = 58;
    h.log_font_section_size = 18;
    h.phys_font_max_size_high = 0;
    let fonts = parse_logical_font_directory(&data, &h).unwrap();
    assert_eq!(fonts.len(), 1);
    assert_eq!(fonts[0].font_matrix, [1, -1, 0x123456, -2]);
    assert_eq!(fonts[0].size, 5);
    assert_eq!(fonts[0].offset, 6);
    // a section too small, or starting outside the data, gives no font
    h.log_font_section_size = 17;
    assert!(parse_logical_font_directory(&data, &h).unwrap().is_empty());
    h.log_font_section_size = 18;
    h.log_font_section_offset = data.len() as u32;
    assert!(parse_logical_font_directory(&data, &h).unwrap().is_empty());
}
