use moonfire_db::coding::{append_varint32, decode_varint32, unzigzag32, zigzag32};

#[test]
fn zigzag_values() {
    let cases: [(i32, u32); 7] = [
        (0, 0),
        (-1, 1),
        (1, 2),
        (-2, 3),
        (2, 4),
        (i32::MAX, 0xffff_fffe),
        (i32::MIN, 0xffff_ffff),
    ];
    for &(decoded, encoded) in &cases {
        assert_eq!(zigzag32(decoded), encoded);
        assert_eq!(unzigzag32(encoded), decoded);
    }
}

#[test]
fn varint_values() {
    let cases: [(u32, &[u8]); 8] = [
        (0, b"\x00"),
        (1, b"\x01"),
        (127, b"\x7f"),
        (128, b"\x80\x01"),
        (300, b"\xac\x02"),
        (16384, b"\x80\x80\x01"),
        (0x0fff_ffff, b"\xff\xff\xff\x7f"),
        (0xffff_ffff, b"\xff\xff\xff\xff\x0f"),
    ];
    for &(value, bytes) in &cases {
        let mut out = vec![0xaa];
        append_varint32(value, &mut out);
        assert_eq!(&out[1..], bytes);
        out.push(0x55);
        assert_eq!(decode_varint32(&out, 1), Ok((value, 1 + bytes.len())));
    }
}

#[test]
fn varint_errors() {
    assert_eq!(decode_varint32(b"", 0), Err(()));
    assert_eq!(decode_varint32(b"\x01", 1), Err(()));
    assert_eq!(decode_varint32(b"\x01", 7), Err(()));
    assert_eq!(decode_varint32(b"\x80", 0), Err(()));
    assert_eq!(decode_varint32(b"\x80\x80\x80\x80", 0), Err(()));
    assert_eq!(decode_varint32(b"\xff\xff\xff\xff\x10", 0), Err(()));
    assert_eq!(decode_varint32(b"\xff\xff\xff\xff\x8f\x00", 0), Err(()));
    // Digits of zero at the top are taken.
    assert_eq!(decode_varint32(b"\x81\x80\x00", 0), Ok((1, 3)));
}
