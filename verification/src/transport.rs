//! Which HID nodes carry HID++.
//!
//! Logitech exposes its HID++ long report under a vendor-defined collection
//! whose page differs by transport; a BLE-direct collection carries only the
//! long report, so short requests must be re-framed as long ones.

use vstd::prelude::*;

verus! {

/// Logitech HID vendor ID.
pub const LOGITECH_VID: u16 = 0x046d;

/// HID++ long-report vendor collections, as `(usage_page, usage_id, long_only)`:
/// USB / receivers / Bluetooth-classic, then Bluetooth-Low-Energy direct.
pub const HIDPP_LONG_COLLECTIONS: [(u16, u16, bool); 2] = [
    (0xff00, 0x0002, false),
    (0xff43, 0x0202, true),
];

/// `(usage_page, usage_id)` is one of the listed collections: the USB /
/// receiver / Bluetooth-classic one or the BLE-direct one.
pub open spec fn is_listed(usage_page: u16, usage_id: u16) -> bool {
    ||| usage_page == 0xff00 && usage_id == 0x0002
    ||| usage_page == 0xff43 && usage_id == 0x0202
}

/// `(usage_page, usage_id)` is the listed long-only (BLE-direct) collection.
pub open spec fn is_listed_long_only(usage_page: u16, usage_id: u16) -> bool {
    usage_page == 0xff43 && usage_id == 0x0202
}

/// Whether `(usage_page, usage_id)` is one of the HID++ long-report collections.
pub fn is_hidpp_long_collection(usage_page: u16, usage_id: u16) -> (r: bool)
    ensures
        r == is_listed(usage_page, usage_id),
{
    let mut i: usize = 0;
    while i < 2
        invariant
            i <= 2,
            forall|k: int|
                0 <= k < i ==> !(#[trigger] HIDPP_LONG_COLLECTIONS@[k].0 == usage_page
                    && HIDPP_LONG_COLLECTIONS@[k].1 == usage_id),
        decreases 2 - i,
    {
        let (page, usage, _) = HIDPP_LONG_COLLECTIONS[i];
        if page == usage_page && usage == usage_id {
            return true;
        }
        i += 1;
    }
    proof {
        lemma_collection_table(usage_page, usage_id);
    }
    false
}

/// Whether the matched collection exposes only the long report; `false` for
/// pages that are not listed.
pub fn is_long_only_collection(usage_page: u16, usage_id: u16) -> (r: bool)
    ensures
        r == is_listed_long_only(usage_page, usage_id),
{
    let mut i: usize = 0;
    while i < 2
        invariant
            i <= 2,
            forall|k: int|
                0 <= k < i ==> !(#[trigger] HIDPP_LONG_COLLECTIONS@[k].2
                    && HIDPP_LONG_COLLECTIONS@[k].0 == usage_page && HIDPP_LONG_COLLECTIONS@[k].1
                    == usage_id),
        decreases 2 - i,
    {
        let (page, usage, long_only) = HIDPP_LONG_COLLECTIONS[i];
        if long_only && page == usage_page && usage == usage_id {
            return true;
        }
        i += 1;
    }
    proof {
        lemma_collection_table(usage_page, usage_id);
    }
    false
}

/// Whether an enumerated HID node is one to open as a HID++ device.
pub fn is_hidpp_node(vendor_id: u16, usage_page: u16, usage_id: u16) -> (r: bool)
    ensures
        r == (vendor_id == LOGITECH_VID && is_listed(usage_page, usage_id)),
{
    vendor_id == LOGITECH_VID && is_hidpp_long_collection(usage_page, usage_id)
}

/// The `(short, long)` report support to advertise for a node: every node
/// carries the long report, and a long-only node no short one.
pub fn supports_short_long_hidpp(long_only: bool) -> (r: Option<(bool, bool)>)
    ensures
        r == Some((!long_only, true)),
{
    Some((!long_only, true))
}


/// A long-only collection is always one of the HID++ collections, and the
/// table lists exactly the collections of `is_listed`, with the long-only
/// flag set exactly where `is_listed_long_only` holds.
pub proof fn lemma_collection_table(usage_page: u16, usage_id: u16)
    ensures
        is_listed_long_only(usage_page, usage_id) ==> is_listed(usage_page, usage_id),
        is_listed(usage_page, usage_id) <==> exists|i: int|
            0 <= i < 2 && #[trigger] HIDPP_LONG_COLLECTIONS@[i].0 == usage_page
                && HIDPP_LONG_COLLECTIONS@[i].1 == usage_id,
        is_listed_long_only(usage_page, usage_id) <==> exists|i: int|
            0 <= i < 2 && #[trigger] HIDPP_LONG_COLLECTIONS@[i].2
                && HIDPP_LONG_COLLECTIONS@[i].0 == usage_page
                && HIDPP_LONG_COLLECTIONS@[i].1 == usage_id,
{
    let t = HIDPP_LONG_COLLECTIONS@;
    assert(t[0].0 == 0xff00 && t[0].1 == 0x0002 && !t[0].2);
    assert(t[1].0 == 0xff43 && t[1].1 == 0x0202 && t[1].2);
    if is_listed(usage_page, usage_id) {
        if usage_page == 0xff00 {
            assert(t[0].0 == usage_page && t[0].1 == usage_id);
        } else {
            assert(t[1].0 == usage_page && t[1].1 == usage_id);
        }
    }
    if is_listed_long_only(usage_page, usage_id) {
        assert(t[1].2 && t[1].0 == usage_page && t[1].1 == usage_id);
    }
}

} // verus!
