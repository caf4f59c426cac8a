use rs_sdk::error::SdkError;
use rs_sdk::util::base58check_decode;
use rs_sdk::util::base58check_encode;
use rs_sdk::util::hex_decode;
use rs_sdk::util::hex_encode;
use rs_sdk::util::read_varint;
use rs_sdk::util::write_varint;

#[test]
fn hex_roundtrip() {
    let data = b"hello";
    let h = hex_encode(data);
    assert_eq!(h, "68656c6c6f");
    let back = hex_decode(&h).unwrap();
    assert_eq!(&back, data);
}

#[test]
fn varint_cases() {
    let mut buf = Vec::new();
    write_varint(0xfc, &mut buf);
    assert_eq!(buf, vec![0xfc]);
    let (v, n) = read_varint(&buf).unwrap();
    assert_eq!(v, 0xfc);
    assert_eq!(n, 1);

    buf.clear();
    write_varint(0xfd, &mut buf);
    assert_eq!(buf, vec![0xfd, 0xfd, 0x00]);
    let (v, n) = read_varint(&buf).unwrap();
    assert_eq!(v, 0xfd);
    assert_eq!(n, 3);

    buf.clear();
    write_varint(0x1_0000, &mut buf);
    assert_eq!(buf[0], 0xfe);
    let (v, n) = read_varint(&buf).unwrap();
    assert_eq!(v, 0x1_0000);
    assert_eq!(n, 5);

    buf.clear();
    write_varint(0x1_0000_0000, &mut buf);
    assert_eq!(buf[0], 0xff);
    let (v, n) = read_varint(&buf).unwrap();
    assert_eq!(v, 0x1_0000_0000);
    assert_eq!(n, 9);
}

#[test]
fn b58check_roundtrip() {
    let version = 0x00u8;
    let payload = [0x12u8; 20];
    let s = base58check_encode(version, &payload);
    let (v2, p2) = base58check_decode(&s).unwrap();
    assert_eq!(v2, version);
    assert_eq!(p2, payload);
}

#[test]
fn varint_roundtrip_boundary_values() {
    let cases: [(u64, usize); 8] = [
        (0x00, 1),
        (0xFC, 1),
        (0xFD, 3),
        (0xFFFF, 3),
        (0x1_0000, 5),
        (0xFFFF_FFFF, 5),
        (0x1_0000_0000, 9),
        (u64::MAX, 9),
    ];
    for (value, encoded_len) in cases {
        let mut buf = Vec::new();
        write_varint(value, &mut buf);
        assert_eq!(buf.len(), encoded_len);
        let (v, n) = read_varint(&buf).unwrap();
        assert_eq!(v, value);
        assert_eq!(n, encoded_len);
    }
}

#[test]
fn varint_read_truncated_fails() {
    assert!(read_varint(&[]).is_err());
    assert!(read_varint(&[0xfd]).is_err());
    assert!(read_varint(&[0xfd, 0x01]).is_err());
    assert!(read_varint(&[0xfe, 0x01, 0x02, 0x03]).is_err());
    assert!(read_varint(&[0xff, 0x01, 0x02, 0x03, 0x04, 0x05, 0x06, 0x07]).is_err());
}

#[test]
fn varint_read_accepts_non_minimal() {
    // A value below 0xFD written in the 0xFD form is still accepted.
    let (v, n) = read_varint(&[0xfd, 0x01, 0x00]).unwrap();
    assert_eq!(v, 1);
    assert_eq!(n, 3);
}

#[test]
fn hex_decode_errors() {
    assert!(matches!(hex_decode("abc"), Err(SdkError::InvalidArgument(_))));
    assert!(matches!(hex_decode("zz"), Err(SdkError::InvalidArgument(_))));
    assert_eq!(hex_decode("  68656C6C6F  ").unwrap(), b"hello");
    assert_eq!(hex_decode("").unwrap(), Vec::<u8>::new());
}

#[test]
fn b58check_known_vector() {
    // All-zero public-key hash under version 0x00: the well-known pattern of
    // leading '1' digits.
    let s = base58check_encode(0x00, &[0u8; 20]);
    assert_eq!(s, "1111111111111111111114oLvT2");
}

#[test]
fn b58check_decode_errors() {
    // '0' is outside the base-58 alphabet.
    assert!(matches!(
        base58check_decode("0"),
        Err(SdkError::InvalidArgument(_))
    ));
    // Decodes to fewer than five bytes.
    assert!(matches!(
        base58check_decode("11"),
        Err(SdkError::InvalidArgument(_))
    ));
    // Valid checksum but nothing after the version byte.
    let s = base58check_encode(0x05, &[]);
    assert!(matches!(
        base58check_decode(&s),
        Err(SdkError::InvalidArgument(_))
    ));
    // Corrupted checksum.
    assert!(matches!(
        base58check_decode("1111111111111111111114oLvT3"),
        Err(SdkError::InvalidArgument(_))
    ));
}

#[test]
fn b58check_flipping_any_character_fails() {
    let s = base58check_encode(0x00, &[0x12u8; 20]);
    let chars: Vec<char> = s.chars().collect();
    for i in 0..chars.len() {
        let replacement = if chars[i] == '2' { '3' } else { '2' };
        let mut flipped = chars.clone();
        flipped[i] = replacement;
        let flipped: String = flipped.into_iter().collect();
        match base58check_decode(&flipped) {
            Err(SdkError::InvalidArgument(m)) => {
                assert_eq!(m, "bad base58check checksum", "flip at {}", i)
            },
            other => panic!("flip at {} gave {:?}", i, other),
        }
    }
}
