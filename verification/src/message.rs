//! HID++ 2.0 messages and their raw report framing.
//!
//! A raw report (without its report id) is the header — device index,
//! feature index, then function id and software id packed into one byte —
//! followed by the parameters: 3 bytes for a short report, 16 for a long one.

use vstd::prelude::*;
use crate::nibble::{combine, combine_spec, U4};

verus! {

/// Length of a short report, report id included.
pub const SHORT_REPORT_LENGTH: usize = 7;

/// Length of a long report, report id included.
pub const LONG_REPORT_LENGTH: usize = 20;

/// A raw HID++ report body (the report id is implied by the variant).
#[derive(Clone, Copy, Debug, PartialEq, Eq)]
pub enum HidppMessage {
    Short([u8; 6]),
    Long([u8; 19]),
}

impl HidppMessage {
    /// Whether this is a long report.
    pub open spec fn is_long(self) -> bool {
        self is Long
    }

    /// The report body's bytes.
    pub open spec fn bytes(self) -> Seq<u8> {
        match self {
            HidppMessage::Short(b) => b@,
            HidppMessage::Long(b) => b@,
        }
    }
}

/// Addressing part of a HID++ 2.0 message.
#[derive(Clone, Copy, Debug, PartialEq, Eq, Structural)]
pub struct MessageHeader {
    pub device_index: u8,
    pub feature_index: u8,
    pub function_id: U4,
    pub software_id: U4,
}

/// The header as plain numbers.
pub struct HeaderView {
    pub device_index: u8,
    pub feature_index: u8,
    pub function_id: u8,
    pub software_id: u8,
}

impl View for MessageHeader {
    type V = HeaderView;

    open spec fn view(&self) -> HeaderView {
        HeaderView {
            device_index: self.device_index,
            feature_index: self.feature_index,
            function_id: self.function_id.value(),
            software_id: self.software_id.value(),
        }
    }
}

/// A HID++ 2.0 message: header plus short (3-byte) or long (16-byte) payload.
#[derive(Clone, Copy, Debug, PartialEq, Eq)]
pub enum Message {
    Short(MessageHeader, [u8; 3]),
    Long(MessageHeader, [u8; 16]),
}

/// A message as plain values.
pub struct MessageView {
    pub header: HeaderView,
    pub long: bool,
    pub payload: Seq<u8>,
}

impl View for Message {
    type V = MessageView;

    open spec fn view(&self) -> MessageView {
        match *self {
            Message::Short(h, p) => MessageView { header: h@, long: false, payload: p@ },
            Message::Long(h, p) => MessageView { header: h@, long: true, payload: p@ },
        }
    }
}

/// Both nibbles of the header are below 16 (true of every header built here).
pub open spec fn header_wf(h: HeaderView) -> bool {
    h.function_id < 16 && h.software_id < 16
}

/// A message view that a `Message` can have.
pub open spec fn message_wf(m: MessageView) -> bool {
    &&& header_wf(m.header)
    &&& m.payload.len() == if m.long { 16nat } else { 3nat }
}

/// Header encoded in the first three bytes of `b`.
pub open spec fn decode_header(b: Seq<u8>) -> HeaderView {
    HeaderView {
        device_index: b[0],
        feature_index: b[1],
        function_id: (b[2] / 16) as u8,
        software_id: (b[2] % 16) as u8,
    }
}

/// The message that a raw report body carries.
pub open spec fn decode(long: bool, b: Seq<u8>) -> MessageView {
    MessageView { header: decode_header(b), long: long, payload: b.subrange(3, b.len() as int) }
}

/// The raw report body of a message.
pub open spec fn encode(m: MessageView) -> Seq<u8> {
    seq![
        m.header.device_index,
        m.header.feature_index,
        combine_spec(m.header.function_id, m.header.software_id),
    ] + m.payload
}

/// A payload padded with zeros to the 16 bytes of a long report.
pub open spec fn extend(payload: Seq<u8>) -> Seq<u8> {
    Seq::new(16, |i: int| if i < payload.len() { payload[i] } else { 0u8 })
}

impl Message {
    /// The message's header.
    pub fn header(&self) -> (h: MessageHeader)
        ensures
            h@ == self@.header,
    {
        match self {
            Message::Short(h, _) => *h,
            Message::Long(h, _) => *h,
        }
    }

    /// The payload, zero-padded to 16 bytes.
    pub fn extend_payload(&self) -> (p: [u8; 16])
        ensures
            p@ == extend(self@.payload),
    {
        match self {
            Message::Short(_, s) => {
                let mut p = [0u8; 16];
                p[0] = s[0];
                p[1] = s[1];
                p[2] = s[2];
                proof {
                    assert(p@ =~= extend(self@.payload));
                }
                p
            },
            Message::Long(_, l) => {
                proof {
                    assert(l@ =~= extend(self@.payload));
                }
                *l
            },
        }
    }

    /// Reads a message from a raw report body.
    pub fn from_raw(raw: HidppMessage) -> (m: Message)
        ensures
            m@ == decode(raw.is_long(), raw.bytes()),
            message_wf(m@),
    {
        match raw {
            HidppMessage::Short(b) => {
                let h = MessageHeader {
                    device_index: b[0],
                    feature_index: b[1],
                    function_id: U4::from_hi(b[2]),
                    software_id: U4::from_lo(b[2]),
                };
                let p: [u8; 3] = [b[3], b[4], b[5]];
                let m = Message::Short(h, p);
                proof {
                    assert(m@.payload =~= raw.bytes().subrange(3, 6));
                }
                m
            },
            HidppMessage::Long(b) => {
                let h = MessageHeader {
                    device_index: b[0],
                    feature_index: b[1],
                    function_id: U4::from_hi(b[2]),
                    software_id: U4::from_lo(b[2]),
                };
                let mut p = [0u8; 16];
                let mut i: usize = 0;
                while i < 16
                    invariant
                        i <= 16,
                        raw == HidppMessage::Long(b),
                        forall|k: int| 0 <= k < i ==> p@[k] == b@[k + 3],
                    decreases 16 - i,
                {
                    p[i] = b[i + 3];
                    i += 1;
                }
                let m = Message::Long(h, p);
                proof {
                    assert(m@.payload =~= raw.bytes().subrange(3, 19));
                }
                m
            },
        }
    }

    /// Writes the message as a raw report body.
    pub fn to_raw(&self) -> (r: HidppMessage)
        ensures
            r.is_long() == self@.long,
            r.bytes() == encode(self@),
    {
        match self {
            Message::Short(h, p) => {
                let c = combine(h.function_id, h.software_id);
                let b: [u8; 6] = [h.device_index, h.feature_index, c, p[0], p[1], p[2]];
                let r = HidppMessage::Short(b);
                proof {
                    assert(r.bytes() =~= encode(self@));
                }
                r
            },
            Message::Long(h, p) => {
                let c = combine(h.function_id, h.software_id);
                let mut b = [0u8; 19];
                b[0] = h.device_index;
                b[1] = h.feature_index;
                b[2] = c;
                let mut i: usize = 0;
                while i < 16
                    invariant
                        i <= 16,
                        b@[0] == h.device_index,
                        b@[1] == h.feature_index,
                        b@[2] == c,
                        forall|k: int| 0 <= k < i ==> b@[k + 3] == p@[k],
                    decreases 16 - i,
                {
                    b[i + 3] = p[i];
                    i += 1;
                }
                let r = HidppMessage::Long(b);
                proof {
                    assert(r.bytes() =~= encode(self@));
                }
                r
            },
        }
    }
}

/// Reading back a written message gives the message again.
pub proof fn lemma_decode_encode(m: MessageView)
    requires
        message_wf(m),
    ensures
        decode(m.long, encode(m)) == m,
{
    let b = encode(m);
    let f = m.header.function_id;
    let s = m.header.software_id;
    assert(combine_spec(f, s) / 16 == f && combine_spec(f, s) % 16 == s) by (nonlinear_arith)
        requires
            f < 16,
            s < 16,
    ;
    assert(b.subrange(3, b.len() as int) =~= m.payload);
    assert(decode_header(b) == m.header);
}

/// Writing a read message gives the report body again.
pub proof fn lemma_encode_decode(long: bool, b: Seq<u8>)
    requires
        b.len() >= 3,
    ensures
        encode(decode(long, b)) == b,
{
    let v = b[2];
    assert(combine_spec((v / 16) as u8, (v % 16) as u8) == v) by (nonlinear_arith);
    assert(encode(decode(long, b)) =~= b);
}

/// The report body's layout: byte 0 is the device index, byte 1 the feature
/// index, byte 2 the function id in its high nibble and the software id in
/// its low nibble, and the payload follows from byte 3; a short body has 6
/// bytes and a long one 19.
pub proof fn lemma_report_layout(m: MessageView, long: bool, b: Seq<u8>)
    requires
        message_wf(m),
        b.len() >= 3,
    ensures
        encode(m).len() == if m.long { 19int } else { 6int },
        encode(m)[0] == m.header.device_index,
        encode(m)[1] == m.header.feature_index,
        encode(m)[2] as int == m.header.function_id * 16 + m.header.software_id,
        forall|i: int| 0 <= i < m.payload.len() ==> #[trigger] encode(m)[3 + i] == m.payload[i],
        decode(long, b).long == long,
        decode(long, b).header.device_index == b[0],
        decode(long, b).header.feature_index == b[1],
        decode(long, b).header.function_id == b[2] / 16,
        decode(long, b).header.software_id == b[2] % 16,
        decode(long, b).payload.len() == b.len() - 3,
        forall|i: int| 0 <= i < b.len() - 3 ==> #[trigger] decode(long, b).payload[i] == b[3 + i],
{
    let f = m.header.function_id;
    let s = m.header.software_id;
    assert(f * 16 + s < 256) by (nonlinear_arith)
        requires
            f < 16,
            s < 16,
    ;
}

/// A padded payload keeps the payload's bytes and fills the rest of the 16
/// bytes with zeros.
pub proof fn lemma_extend_pads_with_zeros(payload: Seq<u8>)
    requires
        payload.len() <= 16,
    ensures
        extend(payload).len() == 16,
        forall|i: int| 0 <= i < payload.len() ==> #[trigger] extend(payload)[i] == payload[i],
        forall|i: int| payload.len() <= i < 16 ==> #[trigger] extend(payload)[i] == 0,
{
}

} // verus!
