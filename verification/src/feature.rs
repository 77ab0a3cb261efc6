//! Device features: addressing, event filtering and the feature-type bits.

use vstd::prelude::*;
use crate::message::{decode, extend, HidppMessage, Message, MessageHeader};
use crate::nibble::U4;

verus! {

/// Errors of a HID++ 2.0 exchange.
#[derive(Clone, Copy, Debug, PartialEq, Eq, Structural)]
pub enum Hidpp20Error {
    /// The transport failed before a response arrived.
    Channel,
    /// The device answered with a HID++ 2.0 error code.
    Feature(u8),
    /// The response did not have the expected shape.
    UnsupportedResponse,
}

/// A concrete implementation of a HID++ 2.0 device feature.
pub trait Feature {}

/// A [`Feature`] that can be instantiated from its place on a device.
pub trait CreatableFeature: Feature + Sized {
    /// The protocol ID of the implemented feature.
    const ID: u16;

    /// The version of the feature the implementation starts to support.
    const STARTING_VERSION: u8;

    /// Creates the feature at `feature_index` of the device at `device_index`.
    fn new(device_index: u8, feature_index: u8) -> Self;
}

/// A feature's addressable `(device, feature)` endpoint.
#[derive(Clone, Copy, Debug, PartialEq, Eq, Structural)]
pub struct FeatureEndpoint {
    /// The index of the device the feature belongs to.
    pub device_index: u8,
    /// The index of the feature in the device's feature table.
    pub feature_index: u8,
}

impl FeatureEndpoint {
    /// Binds an endpoint to `feature_index` on `device_index`.
    pub fn new(device_index: u8, feature_index: u8) -> (r: Self)
        ensures
            r.device_index == device_index,
            r.feature_index == feature_index,
    {
        FeatureEndpoint { device_index, feature_index }
    }

    /// The request header addressing `function` on this endpoint, stamped with
    /// `software_id` (the channel's next software id).
    pub fn header(&self, function: u8, software_id: U4) -> (h: MessageHeader)
        ensures
            h.device_index == self.device_index,
            h.feature_index == self.feature_index,
            h.function_id.value() == function % 16,
            h.software_id == software_id,
    {
        MessageHeader {
            device_index: self.device_index,
            feature_index: self.feature_index,
            function_id: U4::from_lo(function),
            software_id,
        }
    }

    /// The short-report request calling `function` with a 3-byte payload.
    pub fn request(&self, function: u8, args: [u8; 3], software_id: U4) -> (m: Message)
        ensures
            m@.long == false,
            m@.payload == args@,
            m@.header.device_index == self.device_index,
            m@.header.feature_index == self.feature_index,
            m@.header.function_id == function % 16,
            m@.header.software_id == software_id.value(),
    {
        Message::Short(self.header(function, software_id), args)
    }

    /// The long-report request calling `function` with a 16-byte payload.
    pub fn request_long(&self, function: u8, args: [u8; 16], software_id: U4) -> (m: Message)
        ensures
            m@.long == true,
            m@.payload == args@,
            m@.header.device_index == self.device_index,
            m@.header.feature_index == self.feature_index,
            m@.header.function_id == function % 16,
            m@.header.software_id == software_id.value(),
    {
        Message::Long(self.header(function, software_id), args)
    }
}

/// Whether a raw report is an unsolicited broadcast for this endpoint:
/// not already matched to a request, addressed to `(device_index,
/// feature_index)`, and carrying a zero software id.
pub open spec fn is_event_for(
    raw: HidppMessage,
    matched: bool,
    device_index: u8,
    feature_index: u8,
) -> bool {
    let m = decode(raw.is_long(), raw.bytes());
    &&& !matched
    &&& m.header.device_index == device_index
    &&& m.header.feature_index == feature_index
    &&& m.header.software_id == 0
}

/// Shared prelude of a feature's event listener: keeps only unsolicited
/// broadcasts for `(device_index, feature_index)` and returns the event's
/// function id (its sub-id) with the zero-padded payload. The sub-id is not
/// filtered: that is left to the caller.
pub fn event_payload(raw: HidppMessage, matched: bool, device_index: u8, feature_index: u8) -> (r:
    Option<(U4, [u8; 16])>)
    ensures
        r is Some <==> is_event_for(raw, matched, device_index, feature_index),
        r matches Some((f, p)) ==> {
            let m = decode(raw.is_long(), raw.bytes());
            f.value() == m.header.function_id && p@ == extend(m.payload)
        },
{
    if matched {
        return None;
    }
    let msg = Message::from_raw(raw);
    let header = msg.header();
    if header.device_index != device_index || header.feature_index != feature_index
        || header.software_id.to_lo() != 0 {
        return None;
    }
    Some((header.function_id, msg.extend_payload()))
}

/// Properties of a feature, as advertised in its feature-table entry.
#[derive(Clone, Copy, Debug, PartialEq, Eq, Structural, Hash)]
pub struct FeatureType {
    /// Replaced by a newer feature; still advertised for older software.
    pub obsolete: bool,
    /// Not to be managed by end-user configuration software.
    pub hidden: bool,
    /// Disabled for user software; used for testing and manufacturing.
    pub engineering: bool,
    /// A manufacturing feature that can be permanently deactivated
    /// (feature version 2 onwards).
    pub manufacturing_deactivatable: bool,
    /// A compliance feature that can be permanently deactivated
    /// (feature version 2 onwards).
    pub compliance_deactivatable: bool,
}

/// The feature type that the bits of `value` describe.
pub open spec fn feature_type_of(value: u8) -> FeatureType {
    FeatureType {
        obsolete: value & 0x80 != 0,
        hidden: value & 0x40 != 0,
        engineering: value & 0x20 != 0,
        manufacturing_deactivatable: value & 0x10 != 0,
        compliance_deactivatable: value & 0x08 != 0,
    }
}

/// The bits that describe a feature type.
pub open spec fn feature_type_bits(t: FeatureType) -> u8 {
    (if t.obsolete { 0x80u8 } else { 0u8 }) | (if t.hidden { 0x40u8 } else { 0u8 }) | (
    if t.engineering {
        0x20u8
    } else {
        0u8
    }) | (if t.manufacturing_deactivatable { 0x10u8 } else { 0u8 }) | (
    if t.compliance_deactivatable {
        0x08u8
    } else {
        0u8
    })
}

impl From<u8> for FeatureType {
    fn from(value: u8) -> (r: Self) {
        FeatureType {
            obsolete: value & 0x80 != 0,
            hidden: value & 0x40 != 0,
            engineering: value & 0x20 != 0,
            manufacturing_deactivatable: value & 0x10 != 0,
            compliance_deactivatable: value & 0x08 != 0,
        }
    }
}

impl vstd::std_specs::convert::FromSpecImpl<u8> for FeatureType {
    open spec fn obeys_from_spec() -> bool {
        true
    }

    open spec fn from_spec(value: u8) -> FeatureType {
        feature_type_of(value)
    }
}

impl From<FeatureType> for u8 {
    fn from(value: FeatureType) -> (r: Self) {
        (if value.obsolete { 0x80u8 } else { 0u8 }) | (if value.hidden { 0x40u8 } else { 0u8 }) | (
        if value.engineering {
            0x20u8
        } else {
            0u8
        }) | (if value.manufacturing_deactivatable { 0x10u8 } else { 0u8 }) | (
        if value.compliance_deactivatable {
            0x08u8
        } else {
            0u8
        })
    }
}

impl vstd::std_specs::convert::FromSpecImpl<FeatureType> for u8 {
    open spec fn obeys_from_spec() -> bool {
        true
    }

    open spec fn from_spec(value: FeatureType) -> u8 {
        feature_type_bits(value)
    }
}

/// Encoding a feature type and decoding the bits gives it back.
pub proof fn lemma_feature_type_roundtrip(t: FeatureType)
    ensures
        feature_type_of(feature_type_bits(t)) == t,
{
    let (o, h, e, m, c) = (
        t.obsolete,
        t.hidden,
        t.engineering,
        t.manufacturing_deactivatable,
        t.compliance_deactivatable,
    );
    let v = feature_type_bits(t);
    assert(v & 0x80 != 0 <==> o) by (bit_vector)
        requires
            v == (if o { 0x80u8 } else { 0u8 }) | (if h { 0x40u8 } else { 0u8 }) | (if e {
                0x20u8
            } else {
                0u8
            }) | (if m { 0x10u8 } else { 0u8 }) | (if c { 0x08u8 } else { 0u8 }),
    ;
    assert(v & 0x40 != 0 <==> h) by (bit_vector)
        requires
            v == (if o { 0x80u8 } else { 0u8 }) | (if h { 0x40u8 } else { 0u8 }) | (if e {
                0x20u8
            } else {
                0u8
            }) | (if m { 0x10u8 } else { 0u8 }) | (if c { 0x08u8 } else { 0u8 }),
    ;
    assert(v & 0x20 != 0 <==> e) by (bit_vector)
        requires
            v == (if o { 0x80u8 } else { 0u8 }) | (if h { 0x40u8 } else { 0u8 }) | (if e {
                0x20u8
            } else {
                0u8
            }) | (if m { 0x10u8 } else { 0u8 }) | (if c { 0x08u8 } else { 0u8 }),
    ;
    assert(v & 0x10 != 0 <==> m) by (bit_vector)
        requires
            v == (if o { 0x80u8 } else { 0u8 }) | (if h { 0x40u8 } else { 0u8 }) | (if e {
                0x20u8
            } else {
                0u8
            }) | (if m { 0x10u8 } else { 0u8 }) | (if c { 0x08u8 } else { 0u8 }),
    ;
    assert(v & 0x08 != 0 <==> c) by (bit_vector)
        requires
            v == (if o { 0x80u8 } else { 0u8 }) | (if h { 0x40u8 } else { 0u8 }) | (if e {
                0x20u8
            } else {
                0u8
            }) | (if m { 0x10u8 } else { 0u8 }) | (if c { 0x08u8 } else { 0u8 }),
    ;
}

/// Each flag of a feature type is tied to its own bit of the type byte: bit 7
/// obsolete, bit 6 hidden, bit 5 engineering, bit 4 manufacturing
/// deactivatable, bit 3 compliance deactivatable; encoding sets exactly the
/// bits of the flags that are set, and never bits 2 to 0.
pub proof fn lemma_feature_type_flag_bits(value: u8, t: FeatureType)
    ensures
        feature_type_of(value).obsolete <==> value & 0x80 != 0,
        feature_type_of(value).hidden <==> value & 0x40 != 0,
        feature_type_of(value).engineering <==> value & 0x20 != 0,
        feature_type_of(value).manufacturing_deactivatable <==> value & 0x10 != 0,
        feature_type_of(value).compliance_deactivatable <==> value & 0x08 != 0,
        feature_type_bits(t) & 0x80 != 0 <==> t.obsolete,
        feature_type_bits(t) & 0x40 != 0 <==> t.hidden,
        feature_type_bits(t) & 0x20 != 0 <==> t.engineering,
        feature_type_bits(t) & 0x10 != 0 <==> t.manufacturing_deactivatable,
        feature_type_bits(t) & 0x08 != 0 <==> t.compliance_deactivatable,
        feature_type_bits(t) & 0x07 == 0,
{
    let (o, h, e, m, c) = (
        t.obsolete,
        t.hidden,
        t.engineering,
        t.manufacturing_deactivatable,
        t.compliance_deactivatable,
    );
    let v = feature_type_bits(t);
    assert(v & 0x80 != 0 <==> o) by (bit_vector)
        requires
            v == (if o { 0x80u8 } else { 0u8 }) | (if h { 0x40u8 } else { 0u8 }) | (if e {
                0x20u8
            } else {
                0u8
            }) | (if m { 0x10u8 } else { 0u8 }) | (if c { 0x08u8 } else { 0u8 }),
    ;
    assert(v & 0x40 != 0 <==> h) by (bit_vector)
        requires
            v == (if o { 0x80u8 } else { 0u8 }) | (if h { 0x40u8 } else { 0u8 }) | (if e {
                0x20u8
            } else {
                0u8
            }) | (if m { 0x10u8 } else { 0u8 }) | (if c { 0x08u8 } else { 0u8 }),
    ;
    assert(v & 0x20 != 0 <==> e) by (bit_vector)
        requires
            v == (if o { 0x80u8 } else { 0u8 }) | (if h { 0x40u8 } else { 0u8 }) | (if e {
                0x20u8
            } else {
                0u8
            }) | (if m { 0x10u8 } else { 0u8 }) | (if c { 0x08u8 } else { 0u8 }),
    ;
    assert(v & 0x10 != 0 <==> m) by (bit_vector)
        requires
            v == (if o { 0x80u8 } else { 0u8 }) | (if h { 0x40u8 } else { 0u8 }) | (if e {
                0x20u8
            } else {
                0u8
            }) | (if m { 0x10u8 } else { 0u8 }) | (if c { 0x08u8 } else { 0u8 }),
    ;
    assert(v & 0x08 != 0 <==> c) by (bit_vector)
        requires
            v == (if o { 0x80u8 } else { 0u8 }) | (if h { 0x40u8 } else { 0u8 }) | (if e {
                0x20u8
            } else {
                0u8
            }) | (if m { 0x10u8 } else { 0u8 }) | (if c { 0x08u8 } else { 0u8 }),
    ;
    assert(v & 0x07 == 0) by (bit_vector)
        requires
            v == (if o { 0x80u8 } else { 0u8 }) | (if h { 0x40u8 } else { 0u8 }) | (if e {
                0x20u8
            } else {
                0u8
            }) | (if m { 0x10u8 } else { 0u8 }) | (if c { 0x08u8 } else { 0u8 }),
    ;
}

/// Decoding the bits of a byte and encoding them again keeps exactly the five
/// feature-type bits (7 down to 3) and clears the rest.
pub proof fn lemma_feature_bits_roundtrip(value: u8)
    ensures
        feature_type_bits(feature_type_of(value)) == value & 0xf8,
{
    assert(((if value & 0x80 != 0 { 0x80u8 } else { 0u8 }) | (if value & 0x40 != 0 {
        0x40u8
    } else {
        0u8
    }) | (if value & 0x20 != 0 { 0x20u8 } else { 0u8 }) | (if value & 0x10 != 0 {
        0x10u8
    } else {
        0u8
    }) | (if value & 0x08 != 0 { 0x08u8 } else { 0u8 })) == value & 0xf8) by (bit_vector);
}


/// Only the software id gates a broadcast: any function id (the event's
/// sub-id) passes through unchanged to the caller.
pub proof fn lemma_event_sub_id_passes(raw: HidppMessage, device_index: u8, feature_index: u8)
    requires
        decode(raw.is_long(), raw.bytes()).header.device_index == device_index,
        decode(raw.is_long(), raw.bytes()).header.feature_index == feature_index,
        decode(raw.is_long(), raw.bytes()).header.software_id == 0,
    ensures
        is_event_for(raw, false, device_index, feature_index),
        !is_event_for(raw, true, device_index, feature_index),
{
}

/// A report already matched to a request, or one with a non-zero software
/// id, is never an event.
pub proof fn lemma_responses_are_not_events(
    raw: HidppMessage,
    matched: bool,
    device_index: u8,
    feature_index: u8,
)
    requires
        matched || decode(raw.is_long(), raw.bytes()).header.software_id != 0,
    ensures
        !is_event_for(raw, matched, device_index, feature_index),
{
}

/// In terms of the raw report body: a report is an event for `(device,
/// feature)` exactly when it was not matched to a request, byte 0 is the
/// device index, byte 1 the feature index, and the low nibble of byte 2 (the
/// software id) is zero.
pub proof fn lemma_event_bytes(raw: HidppMessage, matched: bool, device_index: u8, feature_index: u8)
    ensures
        is_event_for(raw, matched, device_index, feature_index) <==> (!matched && raw.bytes()[0]
            == device_index && raw.bytes()[1] == feature_index && raw.bytes()[2] % 16 == 0),
{
}

} // verus!
