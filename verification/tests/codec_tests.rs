use qmk_volume::codec::{
    check_response, decode_packet, encode_set_volume, level_from_volume, DecodedCommand,
    VolumeError, MAX_LEVEL, OPCODE_SET_VOLUME, PROTOCOL_MARKER, REPORT_LENGTH, VOLUME_SCALE,
};

#[test]
fn round_trip_recovers_fields() {
    let buf = encode_set_volume(42, false).unwrap();
    assert_eq!(buf.len(), REPORT_LENGTH + 1);
    assert_eq!(buf.len(), 33);
    let decoded = decode_packet(&buf).unwrap();
    assert_eq!(decoded.opcode, 0x01);
    assert_eq!(decoded.level, 42);
    assert_eq!(decoded.mute, 0);
}

#[test]
fn packet_layout_is_bit_exact() {
    let buf = encode_set_volume(73, true).unwrap();
    assert_eq!(buf[0], 0x00);
    assert_eq!(buf[1], PROTOCOL_MARKER);
    assert_eq!(buf[1], b'A');
    assert_eq!(buf[2], OPCODE_SET_VOLUME);
    assert_eq!(buf[3], 73);
    assert_eq!(buf[4], 1);
    for i in 5..33 {
        assert_eq!(buf[i], 0x00);
    }
}

#[test]
fn decoder_ignores_reserved_tail() {
    let mut buf = encode_set_volume(42, false).unwrap();
    for i in 5..33 {
        buf[i] = 0xAB;
    }
    let decoded = decode_packet(&buf).unwrap();
    assert_eq!(
        decoded,
        DecodedCommand { opcode: 0x01, level: 42, mute: 0 }
    );
}

#[test]
fn encode_rejects_level_above_100() {
    let r = encode_set_volume(101, false);
    assert!(matches!(r, Err(VolumeError::InvalidVolumeError)));
}

#[test]
fn encode_accepts_boundary_levels() {
    assert!(encode_set_volume(100, false).is_ok());
    assert!(encode_set_volume(0, true).is_ok());
    assert_eq!(MAX_LEVEL, 100);
}

#[test]
fn fourth_root_scaling_examples() {
    // 1.0 -> 100, 0.0 -> 0, 0.0625 -> 50 (0.0625^(1/4) == 0.5).
    assert_eq!(level_from_volume(VOLUME_SCALE), 100);
    assert_eq!(level_from_volume(0), 0);
    assert_eq!(level_from_volume(62500), 50);
}

#[test]
fn fourth_root_scaling_compresses_small_values() {
    // 0.000001^(1/4) ~ 0.0316, so one part per million already shows as 3.
    assert_eq!(level_from_volume(1), 3);
    // 0.5^(1/4) ~ 0.8409, so half volume shows as 84.
    assert_eq!(level_from_volume(500000), 84);
}

#[test]
fn response_byte_zero_is_protocol_failure() {
    let resp = [0x00u8; 32];
    let r = check_response(&resp);
    assert!(matches!(r, Err(VolumeError::Unsuccessful)));
}

#[test]
fn response_byte_one_is_success() {
    let mut resp = [0x00u8; 32];
    resp[0] = 0x01;
    assert!(check_response(&resp).is_ok());
}

#[test]
fn empty_response_is_failure() {
    let resp: [u8; 0] = [];
    assert!(matches!(check_response(&resp), Err(VolumeError::Unsuccessful)));
}

#[test]
fn short_packet_does_not_decode() {
    let buf = vec![0x00u8, PROTOCOL_MARKER, 0x01, 42];
    assert!(decode_packet(&buf).is_none());
}

#[test]
fn wrong_marker_does_not_decode() {
    let mut buf = encode_set_volume(42, false).unwrap();
    buf[1] = b'B';
    assert!(decode_packet(&buf).is_none());
}
