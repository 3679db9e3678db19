use qmk_volume::codec::{decode_packet, VOLUME_SCALE};
use qmk_volume::writer::{build_volume_packet, Filter, USAGE, USAGE_PAGE};

#[test]
fn filter_requires_usage_page_and_usage() {
    assert!(Filter::Any.filter(USAGE_PAGE, USAGE, 0x3434, 0x0934));
    assert!(!Filter::Any.filter(0x0001, USAGE, 0x3434, 0x0934));
    assert!(!Filter::Any.filter(USAGE_PAGE, 0x01, 0x3434, 0x0934));
}

#[test]
fn vendor_filter_matches_vendor_only() {
    let f = Filter::Vendor(0x3434);
    assert!(f.filter(USAGE_PAGE, USAGE, 0x3434, 0x0001));
    assert!(f.filter(USAGE_PAGE, USAGE, 0x3434, 0x0934));
    assert!(!f.filter(USAGE_PAGE, USAGE, 0x1234, 0x0934));
}

#[test]
fn product_filter_matches_both_ids() {
    let f = Filter::Product(0x3434, 0x0934);
    assert!(f.filter(USAGE_PAGE, USAGE, 0x3434, 0x0934));
    assert!(!f.filter(USAGE_PAGE, USAGE, 0x3434, 0x0001));
    assert!(!f.filter(USAGE_PAGE, USAGE, 0x1234, 0x0934));
}

#[test]
fn build_volume_packet_scales_and_frames() {
    let buf = build_volume_packet(VOLUME_SCALE, false);
    assert_eq!(buf.len(), 33);
    let decoded = decode_packet(&buf).unwrap();
    assert_eq!(decoded.opcode, 0x01);
    assert_eq!(decoded.level, 100);
    assert_eq!(decoded.mute, 0);
}

#[test]
fn build_volume_packet_carries_mute_flag() {
    let buf = build_volume_packet(62500, true);
    let decoded = decode_packet(&buf).unwrap();
    assert_eq!(decoded.level, 50);
    assert_eq!(decoded.mute, 1);
}

#[test]
fn build_volume_packet_at_zero() {
    let buf = build_volume_packet(0, false);
    let decoded = decode_packet(&buf).unwrap();
    assert_eq!(decoded.level, 0);
    assert_eq!(decoded.mute, 0);
}
