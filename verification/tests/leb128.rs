use wasm_compiler::leb128::{encode_leb128_u32, read_leb128_u32};

#[test]
fn reads_nothing_from_empty_input() {
    assert_eq!(read_leb128_u32(&[]), (0, 0));
}

#[test]
fn reads_single_byte() {
    assert_eq!(read_leb128_u32(&[0x05]), (5, 1));
    assert_eq!(read_leb128_u32(&[0x7f, 0xff]), (127, 1));
}

#[test]
fn reads_multi_byte_value() {
    assert_eq!(read_leb128_u32(&[0xE5, 0x8E, 0x26]), (624485, 3));
    assert_eq!(read_leb128_u32(&[0x80, 0x01, 0x55]), (128, 2));
}

#[test]
fn truncated_input_gives_partial_value_and_full_length() {
    assert_eq!(read_leb128_u32(&[0x80]), (0, 1));
    assert_eq!(read_leb128_u32(&[0xE5, 0x8E]), (0x0765, 2));
}

#[test]
fn stops_after_five_bytes() {
    assert_eq!(
        read_leb128_u32(&[0xff, 0xff, 0xff, 0xff, 0xff, 0xff, 0x01]),
        (u32::MAX, 5)
    );
    assert_eq!(read_leb128_u32(&[0x80, 0x80, 0x80, 0x80, 0x80, 0x01]), (0, 5));
}

#[test]
fn fifth_byte_is_cut_to_32_bits() {
    assert_eq!(
        read_leb128_u32(&[0x80, 0x80, 0x80, 0x80, 0x7f]),
        (0xf000_0000, 5)
    );
}

#[test]
fn encodes_shortest_form() {
    assert_eq!(encode_leb128_u32(0), vec![0x00]);
    assert_eq!(encode_leb128_u32(127), vec![0x7f]);
    assert_eq!(encode_leb128_u32(128), vec![0x80, 0x01]);
    assert_eq!(encode_leb128_u32(624485), vec![0xE5, 0x8E, 0x26]);
    assert_eq!(encode_leb128_u32(u32::MAX), vec![0xff, 0xff, 0xff, 0xff, 0x0f]);
}

#[test]
fn reading_an_encoding_gives_the_value_back() {
    for n in [0u32, 1, 127, 128, 300, 16383, 16384, 2_097_151, 2_097_152, 268_435_455, 268_435_456, u32::MAX] {
        let mut bytes = encode_leb128_u32(n);
        let len = bytes.len();
        assert_eq!(read_leb128_u32(&bytes), (n, len));
        bytes.extend_from_slice(&[0xff, 0x00]);
        assert_eq!(read_leb128_u32(&bytes), (n, len));
    }
}
