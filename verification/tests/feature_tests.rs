use openlogi::feature::{event_payload, CreatableFeature, FeatureEndpoint, FeatureType};
use openlogi::message::{HidppMessage, Message, MessageHeader};
use openlogi::nibble::U4;
use openlogi::smartshift::{RatchetControlMode, SmartShiftFeature, WheelMode};
use openlogi::feature::Hidpp20Error;

/// Builds a raw long report carrying a HID++2.0 broadcast with the given
/// header fields and a recognisable payload.
fn broadcast(device_index: u8, feature_index: u8, function: u8, software: u8) -> HidppMessage {
    Message::Long(
        MessageHeader {
            device_index,
            feature_index,
            function_id: U4::from_lo(function),
            software_id: U4::from_lo(software),
        },
        [0xab; 16],
    )
    .to_raw()
}

#[test]
fn accepts_matching_broadcast_and_returns_sub_id() {
    let (func, payload) =
        event_payload(broadcast(2, 5, 1, 0), false, 2, 5).expect("broadcast should pass");
    assert_eq!(func.to_lo(), 1);
    assert_eq!(payload, [0xab; 16]);
}

#[test]
fn rejects_request_matched_report() {
    assert!(event_payload(broadcast(2, 5, 0, 0), true, 2, 5).is_none());
}

#[test]
fn rejects_other_device_or_feature() {
    assert!(event_payload(broadcast(9, 5, 0, 0), false, 2, 5).is_none());
    assert!(event_payload(broadcast(2, 9, 0, 0), false, 2, 5).is_none());
}

#[test]
fn gates_on_software_id_only_not_sub_id() {
    assert!(event_payload(broadcast(2, 5, 0, 1), false, 2, 5).is_none());
    assert!(event_payload(broadcast(2, 5, 7, 0), false, 2, 5).is_some());
}

#[test]
fn short_report_payload_is_zero_padded() {
    let msg = Message::Short(
        MessageHeader {
            device_index: 1,
            feature_index: 3,
            function_id: U4::from_lo(2),
            software_id: U4::from_lo(0),
        },
        [7, 8, 9],
    );
    let raw = msg.to_raw();
    assert_eq!(raw, HidppMessage::Short([1, 3, 0x20, 7, 8, 9]));
    let (func, payload) = event_payload(raw, false, 1, 3).expect("short broadcast");
    assert_eq!(func.to_lo(), 2);
    let mut expected = [0u8; 16];
    expected[0] = 7;
    expected[1] = 8;
    expected[2] = 9;
    assert_eq!(payload, expected);
}

#[test]
fn raw_roundtrip_preserves_message() {
    let raw = HidppMessage::Long([
        4, 6, 0x3a, 1, 2, 3, 4, 5, 6, 7, 8, 9, 10, 11, 12, 13, 14, 15, 16,
    ]);
    let msg = Message::from_raw(raw);
    let h = msg.header();
    assert_eq!(h.device_index, 4);
    assert_eq!(h.feature_index, 6);
    assert_eq!(h.function_id.to_lo(), 3);
    assert_eq!(h.software_id.to_lo(), 0xa);
    assert_eq!(msg.to_raw(), raw);
}

#[test]
fn nibbles_split_and_combine() {
    assert_eq!(U4::from_lo(0xab).to_lo(), 0xb);
    assert_eq!(U4::from_hi(0xab).to_lo(), 0xa);
    assert_eq!(U4::from_hi(0xab).to_hi(), 0xa0);
    assert_eq!(openlogi::nibble::combine(U4::from_lo(0xc), U4::from_lo(0x5)), 0xc5);
}

#[test]
fn feature_type_bits_roundtrip() {
    let t = FeatureType::from(0b1010_1111u8);
    assert!(t.obsolete);
    assert!(!t.hidden);
    assert!(t.engineering);
    assert!(!t.manufacturing_deactivatable);
    assert!(t.compliance_deactivatable);
    assert_eq!(u8::from(t), 0b1010_1000);
    assert_eq!(FeatureType::from(u8::from(t)), t);
    assert_eq!(u8::from(FeatureType::from(0xff)), 0xf8);
}

#[test]
fn endpoint_frames_requests() {
    let ep = FeatureEndpoint::new(1, 9);
    let h = ep.header(0x13, U4::from_lo(5));
    assert_eq!(h.function_id.to_lo(), 3);
    assert_eq!(h.software_id.to_lo(), 5);
    let m = ep.request(2, [1, 2, 3], U4::from_lo(4));
    assert_eq!(m.to_raw(), HidppMessage::Short([1, 9, 0x24, 1, 2, 3]));
    let l = ep.request_long(1, [0xee; 16], U4::from_lo(1));
    let mut expected = [0xeeu8; 19];
    expected[0] = 1;
    expected[1] = 9;
    expected[2] = 0x11;
    assert_eq!(l.to_raw(), HidppMessage::Long(expected));
}

#[test]
fn smartshift_requests_and_responses() {
    let f = SmartShiftFeature::new(1, 4);
    assert_eq!(<SmartShiftFeature as CreatableFeature>::ID, 0x2110);
    assert_eq!(<SmartShiftFeature as CreatableFeature>::STARTING_VERSION, 0);
    let get = f.get_ratchet_control_mode_request(U4::from_lo(2));
    assert_eq!(get.to_raw(), HidppMessage::Short([1, 4, 0x02, 0, 0, 0]));
    let set = f.set_ratchet_control_mode(U4::from_lo(2), Some(WheelMode::Ratchet), None, Some(0x10));
    assert_eq!(set.to_raw(), HidppMessage::Short([1, 4, 0x12, 2, 0, 0x10]));

    let resp = Message::from_raw(HidppMessage::Short([1, 4, 0x02, 1, 0x0a, 0xff]));
    assert_eq!(
        SmartShiftFeature::get_ratchet_control_mode(Ok(resp)),
        Ok(RatchetControlMode {
            wheel_mode: WheelMode::Freespin,
            auto_disengage: 0x0a,
            auto_disengage_default: 0xff,
        })
    );
    let bad = Message::from_raw(HidppMessage::Short([1, 4, 0x02, 7, 0, 0]));
    assert_eq!(
        SmartShiftFeature::get_ratchet_control_mode(Ok(bad)),
        Err(Hidpp20Error::UnsupportedResponse)
    );
    assert_eq!(
        SmartShiftFeature::get_ratchet_control_mode(Err(Hidpp20Error::Channel)),
        Err(Hidpp20Error::Channel)
    );
    // Zero disengage values send the same request as leaving them out.
    assert_eq!(
        f.set_ratchet_control_mode(U4::from_lo(3), None, Some(0), Some(0)).to_raw(),
        f.set_ratchet_control_mode(U4::from_lo(3), None, None, None).to_raw()
    );
    assert_eq!(WheelMode::try_from_primitive(2), Some(WheelMode::Ratchet));
    assert_eq!(WheelMode::try_from_primitive(0), None);
    assert_eq!(u8::from(WheelMode::Freespin), 1);
}
