use tiny_jit::misc::byte_writer::ByteWriter;

#[test]
fn new_writer_is_empty() {
    let writer = ByteWriter::new();
    assert!(writer.bytes().is_empty());
}

#[test]
fn write_u8_appends_and_returns_offset() {
    let mut writer = ByteWriter::new();
    assert_eq!(writer.write_u8(0xAB), 0);
    assert_eq!(writer.write_u8(0x00), 1);
    assert_eq!(writer.write_u8(0xFF), 2);
    assert_eq!(writer.bytes(), &vec![0xAB, 0x00, 0xFF]);
}

#[test]
fn write_i8_is_twos_complement() {
    let mut writer = ByteWriter::new();
    assert_eq!(writer.write_i8(-1), 0);
    assert_eq!(writer.write_i8(i8::MIN), 1);
    assert_eq!(writer.write_i8(i8::MAX), 2);
    assert_eq!(writer.write_i8(0), 3);
    assert_eq!(writer.bytes(), &vec![0xFF, 0x80, 0x7F, 0x00]);
}

#[test]
fn write_i32_is_little_endian() {
    let mut writer = ByteWriter::new();
    assert_eq!(writer.write_i32(0x12345678), 0);
    assert_eq!(writer.bytes(), &vec![0x78, 0x56, 0x34, 0x12]);
    assert_eq!(writer.write_i32(-2), 4);
    assert_eq!(writer.write_i32(i32::MIN), 8);
    assert_eq!(writer.write_i32(i32::MAX), 12);
    assert_eq!(
        writer.bytes(),
        &vec![
            0x78, 0x56, 0x34, 0x12, 0xFE, 0xFF, 0xFF, 0xFF, 0x00, 0x00, 0x00, 0x80, 0xFF, 0xFF,
            0xFF, 0x7F
        ]
    );
}

#[test]
fn write_i64_is_little_endian() {
    let mut writer = ByteWriter::new();
    writer.write_u8(0x90);
    assert_eq!(writer.write_i64(0x0102030405060708), 1);
    assert_eq!(
        writer.bytes(),
        &vec![0x90, 0x08, 0x07, 0x06, 0x05, 0x04, 0x03, 0x02, 0x01]
    );
}

#[test]
fn write_i64_boundaries() {
    let mut writer = ByteWriter::new();
    writer.write_i64(-1);
    writer.write_i64(i64::MIN);
    writer.write_i64(i64::MAX);
    assert_eq!(writer.bytes()[0..8].to_vec(), vec![0xFF; 8]);
    assert_eq!(
        writer.bytes()[8..16].to_vec(),
        vec![0, 0, 0, 0, 0, 0, 0, 0x80]
    );
    assert_eq!(
        writer.bytes()[16..24].to_vec(),
        vec![0xFF, 0xFF, 0xFF, 0xFF, 0xFF, 0xFF, 0xFF, 0x7F]
    );
}

#[test]
fn write_i64_agrees_with_std() {
    let samples: Vec<i64> = vec![0, 1, -1, 255, 256, -256, 430, 1 << 40, -(1 << 40), i64::MIN, i64::MAX];
    for value in samples {
        let mut writer = ByteWriter::new();
        writer.write_i64(value);
        assert_eq!(writer.bytes(), &value.to_le_bytes().to_vec());
    }
}

#[test]
fn write_i32_agrees_with_std() {
    let samples: Vec<i32> = vec![0, 1, -1, 19, -10, 65535, -65536, i32::MIN, i32::MAX];
    for value in samples {
        let mut writer = ByteWriter::new();
        writer.write_i32(value);
        assert_eq!(writer.bytes(), &value.to_le_bytes().to_vec());
    }
}

#[test]
fn from_bytes_copies() {
    let source = vec![1u8, 2, 3];
    let mut writer = ByteWriter::from_bytes(&source);
    assert_eq!(writer.bytes(), &source);
    assert_eq!(writer.write_u8(4), 3);
    assert_eq!(writer.bytes(), &vec![1, 2, 3, 4]);
    assert_eq!(source, vec![1, 2, 3]);
}

#[test]
fn rewrite_i32_overwrites_the_field_only() {
    let mut writer = ByteWriter::from_bytes(&vec![0xE9, 0, 0, 0, 0, 0xC3]);
    writer.rewrite_i32(1, -5);
    assert_eq!(writer.bytes(), &vec![0xE9, 0xFB, 0xFF, 0xFF, 0xFF, 0xC3]);
    writer.rewrite_i32(1, 0x0A0B0C0D);
    assert_eq!(writer.bytes(), &vec![0xE9, 0x0D, 0x0C, 0x0B, 0x0A, 0xC3]);
}

#[test]
fn rewrite_i32_at_the_ends() {
    let mut writer = ByteWriter::from_bytes(&vec![9, 9, 9, 9, 7, 7, 7, 7]);
    writer.rewrite_i32(0, 1);
    writer.rewrite_i32(4, -1);
    assert_eq!(writer.bytes(), &vec![1, 0, 0, 0, 0xFF, 0xFF, 0xFF, 0xFF]);
}

#[test]
fn rewrite_i64_overwrites_the_field_only() {
    let mut writer = ByteWriter::from_bytes(&vec![0x48, 0xB8, 0, 0, 0, 0, 0, 0, 0, 0, 0xC3]);
    writer.rewrite_i64(2, 0x1122334455667788);
    assert_eq!(
        writer.bytes(),
        &vec![0x48, 0xB8, 0x88, 0x77, 0x66, 0x55, 0x44, 0x33, 0x22, 0x11, 0xC3]
    );
    writer.rewrite_i64(2, -2);
    assert_eq!(
        writer.bytes(),
        &vec![0x48, 0xB8, 0xFE, 0xFF, 0xFF, 0xFF, 0xFF, 0xFF, 0xFF, 0xFF, 0xC3]
    );
}

#[test]
fn rewrite_keeps_the_length() {
    let mut writer = ByteWriter::new();
    writer.write_i64(0);
    writer.write_i64(0);
    writer.rewrite_i32(6, 0x01020304);
    assert_eq!(writer.bytes().len(), 16);
    assert_eq!(
        writer.bytes(),
        &vec![0, 0, 0, 0, 0, 0, 4, 3, 2, 1, 0, 0, 0, 0, 0, 0]
    );
}
