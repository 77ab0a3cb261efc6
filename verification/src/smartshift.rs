//! The `SmartShift` feature (ID `0x2110`): ratchet control of a smart-shift
//! scroll wheel.
//!
//! The exchange with the device happens outside: this module builds the
//! request messages and interprets the responses.

use vstd::prelude::*;
use crate::feature::{CreatableFeature, Feature, FeatureEndpoint, Hidpp20Error};
use crate::message::{extend, Message};
use crate::nibble::U4;

verus! {

/// The `SmartShift` / `0x2110` feature.
pub struct SmartShiftFeature {
    /// The endpoint this feature talks to.
    pub endpoint: FeatureEndpoint,
}

impl Feature for SmartShiftFeature {}

impl CreatableFeature for SmartShiftFeature {
    const ID: u16 = 0x2110;
    const STARTING_VERSION: u8 = 0;

    fn new(device_index: u8, feature_index: u8) -> (r: Self)
        ensures
            r.endpoint.device_index == device_index,
            r.endpoint.feature_index == feature_index,
    {
        SmartShiftFeature { endpoint: FeatureEndpoint::new(device_index, feature_index) }
    }
}

/// The ratchet mode of the scroll wheel.
#[derive(Clone, Copy, Debug, PartialEq, Eq, Structural, Hash)]
pub enum WheelMode {
    Freespin,
    Ratchet,
}

/// The wire value of a wheel mode.
pub open spec fn wheel_mode_code(m: WheelMode) -> u8 {
    match m {
        WheelMode::Freespin => 1,
        WheelMode::Ratchet => 2,
    }
}

/// The wheel mode with wire value `v`, if any.
pub open spec fn wheel_mode_of(v: u8) -> Option<WheelMode> {
    if v == 1 {
        Some(WheelMode::Freespin)
    } else if v == 2 {
        Some(WheelMode::Ratchet)
    } else {
        None
    }
}

impl WheelMode {
    /// The wheel mode with wire value `v`; `None` for any other value.
    pub fn try_from_primitive(v: u8) -> (r: Option<WheelMode>)
        ensures
            r == wheel_mode_of(v),
    {
        if v == 1 {
            Some(WheelMode::Freespin)
        } else if v == 2 {
            Some(WheelMode::Ratchet)
        } else {
            None
        }
    }
}

impl From<WheelMode> for u8 {
    fn from(m: WheelMode) -> (r: u8) {
        match m {
            WheelMode::Freespin => 1,
            WheelMode::Ratchet => 2,
        }
    }
}

impl vstd::std_specs::convert::FromSpecImpl<WheelMode> for u8 {
    open spec fn obeys_from_spec() -> bool {
        true
    }

    open spec fn from_spec(m: WheelMode) -> u8 {
        wheel_mode_code(m)
    }
}

/// The ratchet control mode of the mouse wheel.
#[derive(Clone, Copy, Debug, PartialEq, Eq, Structural, Hash)]
pub struct RatchetControlMode {
    /// The mode the wheel is set to (not the automatic disengage state).
    pub wheel_mode: WheelMode,
    /// Quarter-turns per second for the wheel to disengage; `0xff` never.
    pub auto_disengage: u8,
    /// The default value of `auto_disengage`.
    pub auto_disengage_default: u8,
}

/// The ratchet control mode carried by a response payload, if its first byte
/// is a known wheel mode.
pub open spec fn ratchet_mode_of(payload: Seq<u8>) -> Option<RatchetControlMode> {
    let p = extend(payload);
    match wheel_mode_of(p[0]) {
        Some(w) => Some(
            RatchetControlMode { wheel_mode: w, auto_disengage: p[1], auto_disengage_default: p[2] },
        ),
        None => None,
    }
}

/// The parameters of a `setRatchetControlMode` request.
pub open spec fn ratchet_args(
    wheel_mode: Option<WheelMode>,
    auto_disengage: Option<u8>,
    auto_disengage_default: Option<u8>,
) -> Seq<u8> {
    seq![
        match wheel_mode {
            Some(m) => wheel_mode_code(m),
            None => 0u8,
        },
        match auto_disengage {
            Some(v) => v,
            None => 0u8,
        },
        match auto_disengage_default {
            Some(v) => v,
            None => 0u8,
        },
    ]
}

impl SmartShiftFeature {
    /// The request that reads the current ratchet control mode (function 0),
    /// stamped with `software_id`.
    pub fn get_ratchet_control_mode_request(&self, software_id: U4) -> (m: Message)
        ensures
            m@.long == false,
            m@.payload == seq![0u8, 0u8, 0u8],
            m@.header.device_index == self.endpoint.device_index,
            m@.header.feature_index == self.endpoint.feature_index,
            m@.header.function_id == 0,
            m@.header.software_id == software_id.value(),
    {
        let m = self.endpoint.request(0, [0u8; 3], software_id);
        proof {
            assert(m@.payload =~= seq![0u8, 0u8, 0u8]);
        }
        m
    }

    /// Interprets the outcome of the `getRatchetControlMode` exchange.
    ///
    /// `wheel_mode` only reflects the mode set by software or the mode button;
    /// it says nothing of whether the wheel is auto-disengaged.
    pub fn get_ratchet_control_mode(response: Result<Message, Hidpp20Error>) -> (r: Result<
        RatchetControlMode,
        Hidpp20Error,
    >)
        ensures
            response matches Err(e) ==> r == Err::<RatchetControlMode, Hidpp20Error>(e),
            response matches Ok(m) ==> r == match ratchet_mode_of(m@.payload) {
                Some(mode) => Ok::<RatchetControlMode, Hidpp20Error>(mode),
                None => Err(Hidpp20Error::UnsupportedResponse),
            },
    {
        let payload = response?.extend_payload();
        let wheel_mode = match WheelMode::try_from_primitive(payload[0]) {
            Some(w) => w,
            None => return Err(Hidpp20Error::UnsupportedResponse),
        };
        Ok(
            RatchetControlMode {
                wheel_mode,
                auto_disengage: payload[1],
                auto_disengage_default: payload[2],
            },
        )
    }

    /// The request that sets the ratchet control mode (function 1), stamped
    /// with `software_id`. A `None` (or, for the two disengage values, `0`)
    /// leaves the device's current value as it is; `0x01..=0xfe` is the
    /// number of quarter-turns per second that disengages the wheel and `0xff`
    /// makes the ratchet permanent.
    pub fn set_ratchet_control_mode(
        &self,
        software_id: U4,
        wheel_mode: Option<WheelMode>,
        auto_disengage: Option<u8>,
        auto_disengage_default: Option<u8>,
    ) -> (m: Message)
        ensures
            m@.long == false,
            m@.payload == ratchet_args(wheel_mode, auto_disengage, auto_disengage_default),
            m@.header.device_index == self.endpoint.device_index,
            m@.header.feature_index == self.endpoint.feature_index,
            m@.header.function_id == 1,
            m@.header.software_id == software_id.value(),
    {
        let w: u8 = match wheel_mode {
            Some(m) => u8::from(m),
            None => 0,
        };
        let a: u8 = match auto_disengage {
            Some(v) => v,
            None => 0,
        };
        let d: u8 = match auto_disengage_default {
            Some(v) => v,
            None => 0,
        };
        let m = self.endpoint.request(1, [w, a, d], software_id);
        proof {
            assert(m@.payload =~= ratchet_args(wheel_mode, auto_disengage, auto_disengage_default));
        }
        m
    }
}


/// The wire values of the wheel modes: freespin is 1 and ratchet 2, and no
/// other byte is a wheel mode.
pub proof fn lemma_wheel_mode_codes(v: u8)
    ensures
        wheel_mode_code(WheelMode::Freespin) == 1,
        wheel_mode_code(WheelMode::Ratchet) == 2,
        v != 1 && v != 2 ==> wheel_mode_of(v) is None,
{
}

/// A `setRatchetControlMode` request carries three independent bytes: the
/// wheel mode's wire value (0 to leave it), the auto-disengage threshold (0
/// to leave it) and its default (0 to leave it); each byte depends only on
/// its own argument.
pub proof fn lemma_ratchet_args_bytes(
    wheel_mode: Option<WheelMode>,
    auto_disengage: Option<u8>,
    auto_disengage_default: Option<u8>,
)
    ensures
        ratchet_args(wheel_mode, auto_disengage, auto_disengage_default).len() == 3,
        ratchet_args(wheel_mode, auto_disengage, auto_disengage_default)[0] == match wheel_mode {
            Some(WheelMode::Freespin) => 1u8,
            Some(WheelMode::Ratchet) => 2u8,
            None => 0u8,
        },
        ratchet_args(wheel_mode, auto_disengage, auto_disengage_default)[1] == match auto_disengage {
            Some(v) => v,
            None => 0u8,
        },
        ratchet_args(wheel_mode, auto_disengage, auto_disengage_default)[2] == match auto_disengage_default {
            Some(v) => v,
            None => 0u8,
        },
{
}

/// A response whose first byte is 1 or 2 reads as freespin or ratchet, with
/// the next two bytes as the threshold and its default; any other first
/// byte reads as no mode.
pub proof fn lemma_ratchet_response_bytes(payload: Seq<u8>)
    requires
        payload.len() >= 3,
    ensures
        payload[0] == 1 ==> ratchet_mode_of(payload) == Some(
            RatchetControlMode {
                wheel_mode: WheelMode::Freespin,
                auto_disengage: payload[1],
                auto_disengage_default: payload[2],
            },
        ),
        payload[0] == 2 ==> ratchet_mode_of(payload) == Some(
            RatchetControlMode {
                wheel_mode: WheelMode::Ratchet,
                auto_disengage: payload[1],
                auto_disengage_default: payload[2],
            },
        ),
        payload[0] != 1 && payload[0] != 2 ==> ratchet_mode_of(payload) is None,
{
    assert(extend(payload)[0] == payload[0] && extend(payload)[1] == payload[1] && extend(
        payload,
    )[2] == payload[2]);
}

/// Writing a wheel mode and reading it back gives the same mode.
pub proof fn lemma_wheel_mode_roundtrip(m: WheelMode)
    ensures
        wheel_mode_of(wheel_mode_code(m)) == Some(m),
{
}

/// A response payload carrying a known wheel mode reads back as exactly the
/// three bytes of a `set` request that wrote them.
pub proof fn lemma_ratchet_set_then_get(m: WheelMode, a: u8, d: u8)
    ensures
        ratchet_mode_of(ratchet_args(Some(m), Some(a), Some(d))) == Some(
            RatchetControlMode { wheel_mode: m, auto_disengage: a, auto_disengage_default: d },
        ),
{
    let p = ratchet_args(Some(m), Some(a), Some(d));
    assert(extend(p)[0] == p[0] && extend(p)[1] == p[1] && extend(p)[2] == p[2]);
}


/// For the two disengage values, `0` sends the same request as `None` (the
/// device keeps its current value); so does `None` for the wheel mode.
pub proof fn lemma_zero_same_as_none(wheel_mode: Option<WheelMode>, a: Option<u8>, d: Option<u8>)
    ensures
        ratchet_args(wheel_mode, Some(0), d) == ratchet_args(wheel_mode, None, d),
        ratchet_args(wheel_mode, a, Some(0)) == ratchet_args(wheel_mode, a, None),
        ratchet_args(None, a, d)[0] == 0,
{
}

} // verus!
