use eas_listener::header::{
    build_same_bits, byte_to_bits_lsb_first, byte_to_bits_msb_first, bits_to_byte_lsb_first,
    decode_same_bits, validate_header, HeaderError,
};

#[test]
fn nnnn_is_accepted() {
    assert!(validate_header("NNNN").is_ok());
}

#[test]
fn full_header_is_accepted() {
    assert!(validate_header("ZCZC-WXR-TOR-006037+0030-0011200-TEST-").is_ok());
}

#[test]
fn missing_prefix_is_rejected() {
    let err = validate_header("WXR-TOR-006037-").unwrap_err();
    match err {
        HeaderError::InvalidConfig(msg) => {
            assert_eq!(msg, "Header must start with 'ZCZC-'");
        }
        HeaderError::Io(_) => panic!("unexpected error kind"),
    }
}

#[test]
fn missing_trailing_dash_is_rejected() {
    let err = validate_header("ZCZC-WXR-TOR-006037").unwrap_err();
    match err {
        HeaderError::InvalidConfig(msg) => {
            assert_eq!(msg, "Header must end with '-'");
        }
        HeaderError::Io(_) => panic!("unexpected error kind"),
    }
}

#[test]
fn non_ascii_is_rejected() {
    let err = validate_header("ZCZC-WXR-TÖR-").unwrap_err();
    match err {
        HeaderError::InvalidConfig(msg) => {
            assert_eq!(msg, "Header must be ASCII");
        }
        HeaderError::Io(_) => panic!("unexpected error kind"),
    }
}

#[test]
fn nnnn_lookalike_of_other_length_is_rejected() {
    assert!(validate_header("NNNNN").is_err());
}

#[test]
fn io_errors_convert_into_header_errors() {
    let io_err = std::io::Error::new(std::io::ErrorKind::Other, "disk");
    let err = HeaderError::from(io_err);
    assert!(matches!(err, HeaderError::Io(_)));
    assert_eq!(err.message(), "I/O error");
}

#[test]
fn preamble_byte_bits_msb() {
    // 0xD5 = 1101_0101
    assert_eq!(byte_to_bits_msb_first(0xD5), [1, 1, 0, 1, 0, 1, 0, 1]);
}

#[test]
fn header_byte_bits_lsb() {
    // 'Z' = 0x5A = 0101_1010
    assert_eq!(byte_to_bits_lsb_first(0x5A), [0, 1, 0, 1, 1, 0, 1, 0]);
}

#[test]
fn bits_to_byte_inverts_byte_to_bits() {
    for b in [0u8, 1, 0x5A, 0xD5, 0xFF] {
        let bits = byte_to_bits_lsb_first(b);
        assert_eq!(bits_to_byte_lsb_first(&bits), b);
    }
}

#[test]
fn burst_has_preamble_then_payload() {
    let bits = build_same_bits("NNNN");
    assert_eq!(bits.len(), (16 + 4) * 8);
    // every preamble byte is 0xD5 sent msb first
    let pre = byte_to_bits_msb_first(0xD5);
    for k in 0..16 {
        assert_eq!(&bits[k * 8..k * 8 + 8], &pre);
    }
    // 'N' = 0x4E sent lsb first
    let n_bits = byte_to_bits_lsb_first(b'N');
    assert_eq!(&bits[128..136], &n_bits);
}

#[test]
fn burst_round_trips_to_header_bytes() {
    let header = "ZCZC-WXR-TOR-006037+0030-0011200-TEST-";
    let bits = build_same_bits(header);
    let decoded = decode_same_bits(&bits).expect("well-formed burst");
    assert_eq!(decoded, header.as_bytes());
}

#[test]
fn short_or_ragged_bit_streams_decode_to_nothing() {
    assert!(decode_same_bits(&vec![0; 127]).is_none());
    assert!(decode_same_bits(&vec![0; 130]).is_none());
}
