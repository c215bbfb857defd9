use vm_rust::bit_reader::PfrBitReader;

#[test]
fn test_read_u8() {
    let data = [0x42, 0xFF];
    let mut reader = PfrBitReader::new(&data);
    assert_eq!(reader.read_u8(), 0x42);
    assert_eq!(reader.read_u8(), 0xFF);
}

#[test]
fn test_read_u16() {
    let data = [0x12, 0x34];
    let mut reader = PfrBitReader::new(&data);
    assert_eq!(reader.read_u16(), 0x1234);
}

#[test]
fn test_read_bits() {
    let data = [0b10110100];
    let mut reader = PfrBitReader::new(&data);
    assert_eq!(reader.read_bits(3), 0b101);
    assert_eq!(reader.read_bits(5), 0b10100);
}

#[test]
fn test_read_bits_signed() {
    let data = [0b11110000];
    let mut reader = PfrBitReader::new(&data);
    assert_eq!(reader.read_bits_signed(4), -1); // 0b1111 = -1 in 4-bit signed
}

#[test]
fn test_save_restore() {
    let data = [0x42, 0x43, 0x44];
    let mut reader = PfrBitReader::new(&data);
    reader.read_u8();
    reader.save_position();
    assert_eq!(reader.read_u8(), 0x43);
    reader.restore_position();
    assert_eq!(reader.read_u8(), 0x43);
}

#[test]
fn read_u8_past_end_is_zero() {
    let data = [0x01];
    let mut reader = PfrBitReader::new(&data);
    assert_eq!(reader.read_u8(), 0x01);
    assert_eq!(reader.read_u8(), 0);
    assert!(reader.is_eof());
    assert_eq!(reader.position(), 1);
}

#[test]
fn byte_read_drops_partial_byte() {
    let data = [0xAB, 0xCD];
    let mut reader = PfrBitReader::new(&data);
    assert_eq!(reader.read_bits(4), 0xA);
    assert_eq!(reader.position(), 1);
    assert_eq!(reader.read_u8(), 0xCD);
}

#[test]
fn read_bits_across_bytes() {
    let data = [0x12, 0x34, 0x56];
    let mut reader = PfrBitReader::new(&data);
    assert_eq!(reader.read_bits(4), 0x1);
    assert_eq!(reader.read_bits(12), 0x234);
    assert_eq!(reader.read_bits(8), 0x56);
    assert!(reader.is_eof());
}

#[test]
fn split_read_matches_single_read() {
    let data = [0x9C, 0x3F, 0xA1];
    let mut one = PfrBitReader::new(&data);
    let whole = one.read_bits(19);
    let mut two = PfrBitReader::new(&data);
    let a = two.read_bits(7);
    let b = two.read_bits(12);
    assert_eq!(whole, (a << 12) | b);
    assert_eq!(one.position(), two.position());
}

#[test]
fn aligned_eight_bits_equal_a_byte() {
    let data = [0x5A, 0xC3];
    let mut bits = PfrBitReader::from_offset(&data, 1);
    let mut bytes = PfrBitReader::from_offset(&data, 1);
    assert_eq!(bits.read_bits(8), bytes.read_u8() as u32);
    assert_eq!(bits.position(), bytes.position());
}

#[test]
fn read_bits_stops_at_end_of_data() {
    let data = [0xFF];
    let mut reader = PfrBitReader::new(&data);
    reader.read_bits(5);
    // Only three bits are left: they are returned unshifted.
    assert_eq!(reader.read_bits(8), 0b111);
    assert!(reader.is_eof());
    assert_eq!(reader.read_bits(8), 0);
}

#[test]
fn read_bits_keeps_low_32_bits() {
    let data = [0x80, 0, 0, 0, 0x01];
    let mut reader = PfrBitReader::new(&data);
    assert_eq!(reader.read_bits(40), 0x0000_0001);
}

#[test]
fn read_bits_zero_count() {
    let data = [0xFF];
    let mut reader = PfrBitReader::new(&data);
    assert_eq!(reader.read_bits(0), 0);
    assert_eq!(reader.position(), 0);
}

#[test]
fn signed_reads_sign_extend() {
    let data = [0x80, 0xFF, 0xFE, 0x80, 0x00, 0x00, 0x7F, 0xFF];
    let mut reader = PfrBitReader::new(&data);
    assert_eq!(reader.read_i8(), -128);
    assert_eq!(reader.read_i16(), -2);
    assert_eq!(reader.read_i24(), -0x80_0000);
    assert_eq!(reader.read_i16(), 0x7FFF);
}

#[test]
fn read_bits_signed_positive_and_full_width() {
    let data = [0b0111_0000, 0x7F, 0xFF, 0xFF, 0xFF];
    let mut reader = PfrBitReader::new(&data);
    assert_eq!(reader.read_bits_signed(4), 7);
    assert_eq!(reader.read_bits_signed(0), 0);
    let mut reader = PfrBitReader::from_offset(&data, 1);
    assert_eq!(reader.read_bits_signed(32), 0x7FFF_FFFF);
}

#[test]
fn read_u24_and_u32() {
    let data = [0x01, 0x02, 0x03, 0xDE, 0xAD, 0xBE, 0xEF];
    let mut reader = PfrBitReader::new(&data);
    assert_eq!(reader.read_u24(), 0x010203);
    assert_eq!(reader.read_u32(), 0xDEADBEEF);
}

#[test]
fn read_i24_positive() {
    let data = [0x12, 0x34, 0x56];
    let mut reader = PfrBitReader::new(&data);
    assert_eq!(reader.read_i24(), 0x123456);
}

#[test]
fn peek_does_not_consume() {
    let data = [0b1010_1010, 0xFF];
    let mut reader = PfrBitReader::new(&data);
    reader.read_bits(2);
    assert_eq!(reader.peek_bits(6), 0b10_1010);
    assert_eq!(reader.read_bits(6), 0b10_1010);
    assert_eq!(reader.peek_bits(8), 0xFF);
    assert_eq!(reader.position(), 1);
}

#[test]
fn read_bit_reads_msb_first() {
    let data = [0b1000_0001];
    let mut reader = PfrBitReader::new(&data);
    assert!(reader.read_bit());
    for _ in 0..6 {
        assert!(!reader.read_bit());
    }
    assert!(reader.read_bit());
}

#[test]
fn read_bytes_and_string_clamp() {
    let data = b"PFR1xy";
    let mut reader = PfrBitReader::new(data);
    assert_eq!(reader.read_bytes(4), b"PFR1".to_vec());
    assert_eq!(reader.read_string(10), "xy");
    assert_eq!(reader.position(), 6);
    assert_eq!(reader.read_bytes(3), Vec::<u8>::new());
}

#[test]
fn read_string_replaces_invalid_utf8() {
    let data = [0x41, 0xFF, 0x42];
    let mut reader = PfrBitReader::new(&data);
    assert_eq!(reader.read_string(3), "A\u{FFFD}B");
}

#[test]
fn skip_and_remaining() {
    let data = [1, 2, 3, 4, 5];
    let mut reader = PfrBitReader::new(&data);
    assert_eq!(reader.remaining(), 5);
    reader.read_bits(3);
    reader.skip(2);
    assert_eq!(reader.position(), 3);
    assert_eq!(reader.remaining(), 2);
    reader.skip(10);
    assert_eq!(reader.position(), 5);
    assert_eq!(reader.remaining(), 0);
    assert!(reader.is_eof());
}

#[test]
fn set_position_and_data_slice() {
    let data = [9, 8, 7];
    let mut reader = PfrBitReader::new(&data);
    reader.read_bits(3);
    reader.set_position(2);
    assert_eq!(reader.read_u8(), 7);
    reader.set_position(10);
    assert_eq!(reader.remaining(), 0);
    assert!(reader.is_eof());
    assert_eq!(reader.data_slice(), &data[..]);
}

#[test]
fn restore_without_save_does_nothing() {
    let data = [0x11, 0x22];
    let mut reader = PfrBitReader::new(&data);
    reader.read_u8();
    reader.restore_position();
    assert_eq!(reader.read_u8(), 0x22);
}

#[test]
fn restore_keeps_partial_byte() {
    let data = [0b1100_1010, 0x33];
    let mut reader = PfrBitReader::new(&data);
    reader.read_bits(3);
    reader.save_position();
    assert_eq!(reader.read_bits(5), 0b01010);
    assert_eq!(reader.read_u8(), 0x33);
    reader.restore_position();
    assert_eq!(reader.read_bits(5), 0b01010);
}

#[test]
fn align_to_byte_moves_to_next_byte() {
    let data = [0xF0, 0x0F];
    let mut reader = PfrBitReader::new(&data);
    reader.read_bits(1);
    reader.align_to_byte();
    assert_eq!(reader.read_bits(8), 0x0F);
}
