//! The per-depot `core_metadata.json`: image dimensions and the button
//! hotspots of the buttons render.
//!
//! A hotspot's marker is carried through unchanged; its type is left to the
//! caller (the GUI keeps it as a percentage point).

use vstd::prelude::*;
use crate::buttons::ButtonId;
use crate::text::str_eq;

verus! {

/// Pixel dimensions of a device image.
#[derive(Clone, Copy, Debug, PartialEq, Eq, Structural)]
pub struct Origin {
    pub width: u32,
    pub height: u32,
}

/// Where the annotation card should sit relative to its marker: -1 left /
/// up, 0 centre, +1 right / down.
#[derive(Clone, Copy, Debug, PartialEq, Eq, Structural)]
pub struct Direction {
    pub x: i32,
    pub y: i32,
}

/// One button slot of an image.
#[derive(Clone, Debug)]
pub struct Assignment<M> {
    pub slot_name: String,
    pub marker: M,
    pub label: Direction,
}

/// One image of the depot.
#[derive(Clone, Debug)]
pub struct ImageEntry<M> {
    pub key: String,
    pub origin: Origin,
    pub assignments: Vec<Assignment<M>>,
}

/// The parsed metadata file.
#[derive(Clone, Debug)]
pub struct Metadata<M> {
    pub images: Vec<ImageEntry<M>>,
}

/// A button hotspot: which button, where its marker is, and where its label
/// goes.
#[derive(Clone, Copy, Debug)]
pub struct HotspotEntry<M> {
    pub id: ButtonId,
    pub marker: M,
    pub label: Direction,
}

/// The key of the image that carries the button assignments.
pub open spec fn buttons_image_key() -> Seq<char> {
    "device_buttons_image"@
}

/// The button a Logitech slot name stands for; unknown slots have none.
pub open spec fn slot_button(name: Seq<char>) -> Option<ButtonId> {
    if name == "SLOT_NAME_LEFT_BUTTON"@ {
        Some(ButtonId::LeftClick)
    } else if name == "SLOT_NAME_RIGHT_BUTTON"@ {
        Some(ButtonId::RightClick)
    } else if name == "SLOT_NAME_MIDDLE_BUTTON"@ {
        Some(ButtonId::MiddleClick)
    } else if name == "SLOT_NAME_BACK_BUTTON"@ {
        Some(ButtonId::Back)
    } else if name == "SLOT_NAME_FORWARD_BUTTON"@ {
        Some(ButtonId::Forward)
    } else if name == "SLOT_NAME_MODESHIFT_BUTTON"@ {
        Some(ButtonId::DpiToggle)
    } else {
        None
    }
}

/// Each of the six Logitech slot names stands for its own button: left,
/// right and middle click, back, forward, and the mode-shift button (DPI
/// toggle); so no two of them map to the same button.
pub proof fn lemma_slot_names(name: Seq<char>)
    ensures
        slot_button("SLOT_NAME_LEFT_BUTTON"@) == Some(ButtonId::LeftClick),
        slot_button("SLOT_NAME_RIGHT_BUTTON"@) == Some(ButtonId::RightClick),
        slot_button("SLOT_NAME_MIDDLE_BUTTON"@) == Some(ButtonId::MiddleClick),
        slot_button("SLOT_NAME_BACK_BUTTON"@) == Some(ButtonId::Back),
        slot_button("SLOT_NAME_FORWARD_BUTTON"@) == Some(ButtonId::Forward),
        slot_button("SLOT_NAME_MODESHIFT_BUTTON"@) == Some(ButtonId::DpiToggle),
        name != "SLOT_NAME_LEFT_BUTTON"@ && name != "SLOT_NAME_RIGHT_BUTTON"@ && name
            != "SLOT_NAME_MIDDLE_BUTTON"@ && name != "SLOT_NAME_BACK_BUTTON"@ && name
            != "SLOT_NAME_FORWARD_BUTTON"@ && name != "SLOT_NAME_MODESHIFT_BUTTON"@ ==> slot_button(
            name,
        ) is None,
{
    reveal_strlit("SLOT_NAME_LEFT_BUTTON");
    reveal_strlit("SLOT_NAME_RIGHT_BUTTON");
    reveal_strlit("SLOT_NAME_MIDDLE_BUTTON");
    reveal_strlit("SLOT_NAME_BACK_BUTTON");
    reveal_strlit("SLOT_NAME_FORWARD_BUTTON");
    reveal_strlit("SLOT_NAME_MODESHIFT_BUTTON");
    assert("SLOT_NAME_LEFT_BUTTON"@[10] != "SLOT_NAME_BACK_BUTTON"@[10]);
    assert("SLOT_NAME_LEFT_BUTTON"@.len() != "SLOT_NAME_RIGHT_BUTTON"@.len());
    assert("SLOT_NAME_LEFT_BUTTON"@.len() != "SLOT_NAME_MIDDLE_BUTTON"@.len());
    assert("SLOT_NAME_RIGHT_BUTTON"@.len() != "SLOT_NAME_MIDDLE_BUTTON"@.len());
    assert("SLOT_NAME_BACK_BUTTON"@.len() != "SLOT_NAME_RIGHT_BUTTON"@.len());
    assert("SLOT_NAME_BACK_BUTTON"@.len() != "SLOT_NAME_MIDDLE_BUTTON"@.len());
    let m = "SLOT_NAME_MODESHIFT_BUTTON"@;
    assert(m.len() != "SLOT_NAME_LEFT_BUTTON"@.len());
    assert(m.len() != "SLOT_NAME_RIGHT_BUTTON"@.len());
    assert(m.len() != "SLOT_NAME_MIDDLE_BUTTON"@.len());
    assert(m.len() != "SLOT_NAME_BACK_BUTTON"@.len());
    assert(m.len() != "SLOT_NAME_FORWARD_BUTTON"@.len());
}

/// Maps a Logitech slot name to a button; unknown slots map to `None`.
pub fn map_slot_name(name: &str) -> (r: Option<ButtonId>)
    ensures
        r == slot_button(name@),
{
    if str_eq(name, "SLOT_NAME_LEFT_BUTTON") {
        Some(ButtonId::LeftClick)
    } else if str_eq(name, "SLOT_NAME_RIGHT_BUTTON") {
        Some(ButtonId::RightClick)
    } else if str_eq(name, "SLOT_NAME_MIDDLE_BUTTON") {
        Some(ButtonId::MiddleClick)
    } else if str_eq(name, "SLOT_NAME_BACK_BUTTON") {
        Some(ButtonId::Back)
    } else if str_eq(name, "SLOT_NAME_FORWARD_BUTTON") {
        Some(ButtonId::Forward)
    } else if str_eq(name, "SLOT_NAME_MODESHIFT_BUTTON") {
        Some(ButtonId::DpiToggle)
    } else {
        None
    }
}

/// The first image whose key is the buttons image, if any.
pub open spec fn buttons_image<M>(images: Seq<ImageEntry<M>>) -> Option<ImageEntry<M>>
    decreases images.len(),
{
    if images.len() == 0 {
        None
    } else if images[0].key@ == buttons_image_key() {
        Some(images[0])
    } else {
        buttons_image(images.drop_first())
    }
}

/// The key of the image whose dimensions are the device's.
pub open spec fn device_image_key() -> Seq<char> {
    "device_image"@
}

/// The first image whose key is the device image, if any.
pub open spec fn device_image<M>(images: Seq<ImageEntry<M>>) -> Option<ImageEntry<M>>
    decreases images.len(),
{
    if images.len() == 0 {
        None
    } else if images[0].key@ == device_image_key() {
        Some(images[0])
    } else {
        device_image(images.drop_first())
    }
}

/// The hotspots of a list of assignments, in order, skipping unknown slots.
pub open spec fn hotspots_of<M>(assignments: Seq<Assignment<M>>) -> Seq<HotspotEntry<M>>
    decreases assignments.len(),
{
    if assignments.len() == 0 {
        seq![]
    } else {
        let rest = hotspots_of(assignments.drop_last());
        let a = assignments.last();
        match slot_button(a.slot_name@) {
            Some(id) => rest.push(HotspotEntry { id, marker: a.marker, label: a.label }),
            None => rest,
        }
    }
}

impl<M: Copy> Metadata<M> {
    /// Image dimensions, taken from the `device_image` entry; without one
    /// there are none.
    pub fn origin(&self) -> (r: Option<Origin>)
        ensures
            r == match device_image(self.images@) {
                Some(img) => Some(img.origin),
                None => None,
            },
    {
        let n = self.images.len();
        let mut i: usize = 0;
        proof {
            assert(self.images@.skip(0) =~= self.images@);
        }
        while i < n
            invariant
                n == self.images@.len(),
                i <= n,
                device_image(self.images@) == device_image(self.images@.skip(i as int)),
            decreases n - i,
        {
            let img = &self.images[i];
            if str_eq(img.key.as_str(), "device_image") {
                proof {
                    assert(self.images@.skip(i as int)[0] == *img);
                }
                return Some(img.origin);
            }
            proof {
                assert(self.images@.skip(i as int).drop_first() =~= self.images@.skip(i + 1));
            }
            i += 1;
        }
        None
    }

    /// The button hotspots of the buttons image, in assignment order; slots
    /// without a known button are skipped, and without a buttons image there
    /// are none.
    pub fn hotspots(&self) -> (r: Vec<HotspotEntry<M>>)
        ensures
            r@ == match buttons_image(self.images@) {
                Some(img) => hotspots_of(img.assignments@),
                None => Seq::empty(),
            },
    {
        let n = self.images.len();
        let mut i: usize = 0;
        proof {
            assert(self.images@.skip(0) =~= self.images@);
        }
        while i < n
            invariant
                n == self.images@.len(),
                i <= n,
                buttons_image(self.images@) == buttons_image(self.images@.skip(i as int)),
            decreases n - i,
        {
            let img = &self.images[i];
            if str_eq(img.key.as_str(), "device_buttons_image") {
                let mut out: Vec<HotspotEntry<M>> = Vec::new();
                let m = img.assignments.len();
                let mut j: usize = 0;
                while j < m
                    invariant
                        m == img.assignments@.len(),
                        j <= m,
                        out@ == hotspots_of(img.assignments@.take(j as int)),
                    decreases m - j,
                {
                    let a = &img.assignments[j];
                    let slot = map_slot_name(a.slot_name.as_str());
                    proof {
                        assert(img.assignments@.take(j + 1).drop_last() =~= img.assignments@.take(
                            j as int,
                        ));
                    }
                    match slot {
                        Some(id) => {
                            out.push(HotspotEntry { id, marker: a.marker, label: a.label });
                        },
                        None => {},
                    }
                    j += 1;
                }
                proof {
                    assert(img.assignments@.take(m as int) =~= img.assignments@);
                    assert(self.images@.skip(i as int)[0] == *img);
                }
                return out;
            }
            proof {
                assert(self.images@.skip(i as int).drop_first() =~= self.images@.skip(i + 1));
            }
            i += 1;
        }
        Vec::new()
    }
}

/// The buttons image is the first image keyed `device_buttons_image`, and
/// the device image the first keyed `device_image`; without such an image
/// there is none.
pub proof fn lemma_first_image_with_key<M>(images: Seq<ImageEntry<M>>, i: int)
    ensures
        0 <= i < images.len() && images[i].key@ == "device_buttons_image"@ && (forall|j: int|
            0 <= j < i ==> #[trigger] images[j].key@ != "device_buttons_image"@) ==> buttons_image(
            images,
        ) == Some(images[i]),
        (forall|j: int| 0 <= j < images.len() ==> #[trigger] images[j].key@ != "device_buttons_image"@)
            ==> buttons_image(images) is None,
        0 <= i < images.len() && images[i].key@ == "device_image"@ && (forall|j: int|
            0 <= j < i ==> #[trigger] images[j].key@ != "device_image"@) ==> device_image(images)
            == Some(images[i]),
        (forall|j: int| 0 <= j < images.len() ==> #[trigger] images[j].key@ != "device_image"@)
            ==> device_image(images) is None,
    decreases images.len(),
{
    if images.len() > 0 {
        let rest = images.drop_first();
        lemma_first_image_with_key(rest, i - 1);
        assert forall|j: int| 0 <= j < rest.len() implies #[trigger] rest[j] == images[j + 1] by {}
    }
}

/// Hotspots keep assignment order and skip unknown slots: one more
/// assignment adds its button, marker and label at the end when its slot
/// name is known, and nothing otherwise.
pub proof fn lemma_hotspots_append<M>(assignments: Seq<Assignment<M>>, a: Assignment<M>)
    ensures
        hotspots_of(Seq::<Assignment<M>>::empty()) == Seq::<HotspotEntry<M>>::empty(),
        slot_button(a.slot_name@) matches Some(id) ==> hotspots_of(assignments.push(a))
            == hotspots_of(assignments).push(HotspotEntry { id, marker: a.marker, label: a.label }),
        slot_button(a.slot_name@) is None ==> hotspots_of(assignments.push(a)) == hotspots_of(
            assignments,
        ),
{
    assert(assignments.push(a).drop_last() =~= assignments);
}

} // verus!
