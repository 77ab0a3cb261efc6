//! Hover and highlight state of the mouse model's button hotspots.

use vstd::prelude::*;
use crate::buttons::ButtonId;

verus! {

/// The hovered button after the pointer enters (`is_hovered`) or leaves the
/// hotspot of `button`: entering hovers it; leaving clears the hover only if
/// it was this button's.
pub fn hover_update(current: Option<ButtonId>, button: ButtonId, is_hovered: bool) -> (r: Option<
    ButtonId,
>)
    ensures
        r == if is_hovered {
            Some(button)
        } else if current == Some(button) {
            None::<ButtonId>
        } else {
            current
        },
{
    if is_hovered {
        Some(button)
    } else if current == Some(button) {
        None
    } else {
        current
    }
}

/// The button to highlight: the hovered one, else the one being configured.
pub fn highlighted(hovered: Option<ButtonId>, active: Option<ButtonId>) -> (r: Option<ButtonId>)
    ensures
        r == if hovered is Some {
            hovered
        } else {
            active
        },
{
    match hovered {
        Some(b) => Some(b),
        None => active,
    }
}

/// Whether the hotspot of `button` is drawn highlighted.
pub fn hotspot_highlighted(button: ButtonId, hovered: Option<ButtonId>, active: Option<ButtonId>) -> (r:
    bool)
    ensures
        r == (hovered == Some(button) || active == Some(button)),
{
    hovered == Some(button) || active == Some(button)
}

} // verus!
