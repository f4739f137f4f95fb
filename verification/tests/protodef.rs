use byteorder::{LittleEndian, WriteBytesExt};
use mcbe_protocol::protodef::mcbe::little_string;
use mcbe_protocol::protodef::native_types::reader::{read_i32, read_li32, read_varint};
use mcbe_protocol::protodef::native_types::writer::{write_bool, write_lu16, write_u8, write_var_int};
use mcbe_protocol::protodef::reader::{Read, ReadError};
use mcbe_protocol::protodef::writer::Write;

#[test]
fn write_native_types() -> std::io::Result<()> {
    let buf = [0x8e, 0xdc, 0x08];
    let mut buffer: Vec<u8> = Vec::new();
    buffer.write_var_int(142862)?;
    buffer.write_u16::<LittleEndian>(44829)?;
    buffer.write_bool(true)?;
    buffer.write_string("abcdeg".to_owned())?;
    println!("{:?},{:?}", buf, buffer);
    Ok(())
}

#[test]
fn varint_encoding_of_142862() {
    let mut buffer: Vec<u8> = Vec::new();
    let n = buffer.write_var_int(142862).unwrap();
    assert_eq!(n, 3);
    assert_eq!(buffer, vec![0x8e, 0xdc, 0x08]);
}

#[test]
fn write_native_types_bytes() {
    let mut buffer: Vec<u8> = Vec::new();
    buffer.write_var_int(142862).unwrap();
    buffer.write_u16::<LittleEndian>(44829).unwrap();
    buffer.write_bool(true).unwrap();
    let n = buffer.write_string("abcdeg".to_owned()).unwrap();
    assert_eq!(n, 7);
    assert_eq!(
        buffer,
        vec![0x8e, 0xdc, 0x08, 0x1d, 0xaf, 0x01, 0x06, b'a', b'b', b'c', b'd', b'e', b'g']
    );
}

#[test]
fn varint_roundtrip_values() {
    for v in [0u64, 1, 127, 128, 300, 16383, 16384, 142862, u32::MAX as u64, u64::MAX - 1, u64::MAX] {
        let mut buffer: Vec<u8> = Vec::new();
        let n = write_var_int(v, &mut buffer).unwrap();
        assert_eq!(n as usize, buffer.len());
        buffer.push(0x55);
        let s: &[u8] = &buffer;
        assert_eq!(s.read_varint(0).unwrap(), (v, n));
        assert_eq!(read_varint(&buffer, 0).unwrap(), (v, n));
    }
}

#[test]
fn varint_sizes() {
    let mut b = Vec::new();
    assert_eq!(write_var_int(127, &mut b).unwrap(), 1);
    assert_eq!(write_var_int(128, &mut b).unwrap(), 2);
    assert_eq!(write_var_int(u64::MAX, &mut b).unwrap(), 10);
    assert_eq!(&b[3..], &[0xff, 0xff, 0xff, 0xff, 0xff, 0xff, 0xff, 0xff, 0xff, 0x01]);
}

#[test]
fn varint_ten_bytes_wraps_to_64_bits() {
    // the tenth byte contributes only its lowest bit
    let buf: [u8; 10] = [0xff, 0xff, 0xff, 0xff, 0xff, 0xff, 0xff, 0xff, 0xff, 0x7f];
    let s: &[u8] = &buf;
    assert_eq!(s.read_varint(0).unwrap(), (u64::MAX, 10));
}

#[test]
fn varint_at_offset() {
    let buf = [0x00, 0x00, 0xac, 0x02, 0x09];
    let s: &[u8] = &buf;
    assert_eq!(s.read_varint(2).unwrap(), (300, 2));
    assert_eq!(read_varint(&buf, 4).unwrap(), (9, 1));
}

#[test]
fn read_varint_out_of_bounds() {
    let buf = [0x80, 0x80];
    let s: &[u8] = &buf;
    assert_eq!(s.read_varint(0), Err(ReadError::OutOfBounds(2)));
    assert_eq!(s.read_varint(5), Err(ReadError::OutOfBounds(2)));
}

#[test]
fn read_i32_both_orders() {
    let buf = [0x00, 0x00, 0x02, 0x38, 0xff, 0xff, 0xff, 0xfe];
    assert_eq!(read_i32(&buf, 0).unwrap(), (568, 4));
    assert_eq!(read_i32(&buf, 4).unwrap(), (-2, 4));
    assert_eq!(read_li32(&buf, 0).unwrap(), (0x3802_0000, 4));
    assert_eq!(read_li32(&buf, 4).unwrap(), (-16_777_217, 4));
    let s: &[u8] = &buf;
    assert_eq!(s.read_i32(0), 568);
    assert_eq!(s.read_li32(4), -16_777_217);
}

#[test]
fn little_string_reads() {
    // "hé" is three bytes
    let buf2: Vec<u8> = [vec![0xaa, 3, 0, 0, 0], "hé".as_bytes().to_vec(), vec![0x01]].concat();
    assert_eq!(little_string(&buf2, 1).unwrap(), ("hé".to_owned(), 7));
    let s: &[u8] = &buf2;
    assert_eq!(s.read_little_string(1).unwrap(), ("hé".to_owned(), 7));
}

#[test]
fn little_string_missing_characters() {
    let buf = [5u8, 0, 0, 0, b'a', b'b'];
    let s: &[u8] = &buf;
    assert_eq!(s.read_little_string(0), Err(ReadError::MissingCharacters(6, 9)));
}

#[test]
fn little_string_negative_length_is_missing_characters() {
    // a length of i32::MIN, widened to 64 bits, runs far past the slice
    let buf = [0x00u8, 0x00, 0x00, 0x80];
    let s: &[u8] = &buf;
    let end = 4u64 + (i32::MIN as u64);
    assert_eq!(s.read_little_string(0), Err(ReadError::MissingCharacters(4, end)));
}

#[test]
fn writers_append() {
    let mut b = vec![9u8];
    write_u8(7, &mut b).unwrap();
    write_lu16(0x1234, &mut b).unwrap();
    write_bool(true, &mut b).unwrap();
    write_bool(false, &mut b).unwrap();
    assert_eq!(b, vec![9, 7, 0x34, 0x12, 1, 0]);
    let mut w: Vec<u8> = Vec::new();
    w.write_bool(false).unwrap();
    w.write_bool(true).unwrap();
    assert_eq!(w, vec![0, 1]);
}

#[test]
fn write_string_prefix() {
    let long = "x".repeat(200);
    let mut b: Vec<u8> = Vec::new();
    assert_eq!(b.write_string(long.clone()).unwrap(), 202);
    assert_eq!(&b[..2], &[0xc8, 0x01]);
    assert_eq!(&b[2..], long.as_bytes());
}

#[test]
fn ten_continuation_bytes_then_end_is_out_of_bounds() {
    let buf = [0xffu8; 10];
    let s: &[u8] = &buf;
    assert_eq!(s.read_varint(0), Err(ReadError::OutOfBounds(10)));
}
