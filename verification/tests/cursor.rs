use jvm_common::utils::cursor::{ByteCursor, ByteOrder, CursorError};

#[test]
fn reads_big_endian_numbers() {
    let data = [0x01u8, 0x02, 0x03, 0x04, 0x05, 0x06, 0x07, 0x08, 0xFF, 0xFE];
    let mut c = ByteCursor::new(&data);
    assert_eq!(c.order(), ByteOrder::BigEndian);
    assert_eq!(c.u16(), Ok(0x0102));
    assert_eq!(c.position(), 2);
    assert_eq!(c.u32(), Ok(0x0304_0506));
    assert_eq!(c.u8(), Ok(0x07));
    assert_eq!(c.i8(), Ok(0x08));
    assert_eq!(c.i16(), Ok(-2));
    assert!(c.is_eof());
    assert_eq!(c.remaining(), 0);
}

#[test]
fn reads_little_endian_numbers() {
    let data = [0x01u8, 0x02, 0x03, 0x04, 0x05, 0x06, 0x07, 0x08];
    let mut c = ByteCursor::with_order(&data, ByteOrder::LittleEndian);
    assert_eq!(c.u16(), Ok(0x0201));
    let mut c = ByteCursor::with_order(&data, ByteOrder::LittleEndian);
    assert_eq!(c.u64(), Ok(0x0807_0605_0403_0201));
    let mut c = ByteCursor::with_order(&data, ByteOrder::LittleEndian);
    assert_eq!(c.u32(), Ok(0x0403_0201));
    assert_eq!(c.i32(), Ok(0x0807_0605));
}

#[test]
fn signed_reads_wrap() {
    let data = [0xFFu8; 8];
    let mut c = ByteCursor::new(&data);
    assert_eq!(c.i64(), Ok(-1));
    let data = [0x80u8, 0, 0, 0];
    let mut c = ByteCursor::new(&data);
    assert_eq!(c.i32(), Ok(i32::MIN));
    let data = [0x12u8, 0x34, 0x56, 0x78, 0x9A, 0xBC, 0xDE, 0xF0];
    let mut c = ByteCursor::new(&data);
    assert_eq!(c.u64(), Ok(0x1234_5678_9ABC_DEF0));
}

#[test]
fn failed_read_leaves_cursor_unchanged() {
    let data = [0x01u8, 0x02, 0x03];
    let mut c = ByteCursor::new(&data);
    assert_eq!(c.u8(), Ok(1));
    assert_eq!(c.u32(), Err(CursorError::UnexpectedEof));
    assert_eq!(c.position(), 1);
    assert_eq!(c.skip(3), Err(CursorError::UnexpectedEof));
    assert_eq!(c.position(), 1);
    let mut buf = [9u8; 3];
    assert_eq!(c.read_exact(&mut buf), Err(CursorError::UnexpectedEof));
    assert_eq!(buf, [9, 9, 9]);
    assert_eq!(c.u16(), Ok(0x0203));
    assert_eq!(c.try_u8(), None);
}

#[test]
fn slices_skip_align_and_copy() {
    let data = [10u8, 11, 12, 13, 14, 15, 16, 17];
    let mut c = ByteCursor::new(&data);
    assert_eq!(c.slice(2), Ok(&data[0..2]));
    assert_eq!(c.try_u8(), Some(12));
    assert_eq!(c.align(4), Ok(()));
    assert_eq!(c.position(), 4);
    assert_eq!(c.align(4), Ok(()));
    assert_eq!(c.position(), 4);
    assert_eq!(c.bytes(1), Ok(&[14u8][..]));
    let mut buf = [0u8; 2];
    assert_eq!(c.read_exact(&mut buf), Ok(()));
    assert_eq!(buf, [15, 16]);
    assert_eq!(c.align(8), Ok(()));
    assert!(c.is_eof());
    assert_eq!(c.skip(0), Ok(()));
    assert_eq!(c.slice(1), Err(CursorError::UnexpectedEof));
}
