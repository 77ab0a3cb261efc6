//! Verified core of the OpenLogi device tooling: HID++ 2.0 framing, the
//! device-asset registry, cache path hygiene, mask painting and the small
//! state machines behind the tray, pairing and permission watchers.

pub mod text;
pub mod index;
pub mod nibble;
pub mod message;
pub mod feature;
pub mod smartshift;
pub mod buttons;
pub mod transport;
pub mod hook;
pub mod http;
pub mod glow;
pub mod metadata;
pub mod asset;
pub mod lighting;
pub mod tray;
pub mod pairing;
pub mod picker;
pub mod watcher;
pub mod mouse_model;
