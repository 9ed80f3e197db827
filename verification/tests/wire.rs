use pngrs::wire::{read_be_u32, write_be_u32};

#[test]
fn a_number_is_read_most_significant_byte_first() {
    assert_eq!(read_be_u32(&[0, 0, 0, 42], 0), 42);
    assert_eq!(read_be_u32(&[0x12, 0x34, 0x56, 0x78], 0), 0x1234_5678);
    assert_eq!(read_be_u32(&[0xFF, 0xFF, 0xFF, 0xFF], 0), u32::MAX);
    assert_eq!(read_be_u32(&[0xAB, 0xD1, 0xD8, 0x4E], 0), 2882656334);
    assert_eq!(read_be_u32(&[9, 9, 0, 0, 1, 0, 9], 2), 256);
}

#[test]
fn a_number_is_written_most_significant_byte_first() {
    let mut out = vec![7u8];
    write_be_u32(&mut out, 42);
    write_be_u32(&mut out, 0x1234_5678);
    write_be_u32(&mut out, u32::MAX);
    write_be_u32(&mut out, 0);
    assert_eq!(
        out,
        [7, 0, 0, 0, 42, 0x12, 0x34, 0x56, 0x78, 0xFF, 0xFF, 0xFF, 0xFF, 0, 0, 0, 0]
    );
}

#[test]
fn reading_and_writing_agree_with_the_standard_library() {
    for value in [0u32, 1, 255, 256, 65_535, 65_536, 16_777_215, 16_777_216, 2882656334, u32::MAX] {
        let mut out = Vec::new();
        write_be_u32(&mut out, value);
        assert_eq!(out, value.to_be_bytes());
        assert_eq!(read_be_u32(&out, 0), value);
        assert_eq!(read_be_u32(&out, 0), u32::from_be_bytes(value.to_be_bytes()));
    }
}
