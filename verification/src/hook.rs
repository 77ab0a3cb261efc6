//! Translation of Windows low-level mouse-hook messages (`WH_MOUSE_LL`) into
//! mouse events.
//!
//! The message numbers and flags are the Win32 ABI values.

use vstd::prelude::*;
use crate::buttons::ButtonId;
use crate::text::string_from_str;

verus! {

pub const WM_LBUTTONDOWN: u32 = 0x0201;
pub const WM_LBUTTONUP: u32 = 0x0202;
pub const WM_RBUTTONDOWN: u32 = 0x0204;
pub const WM_RBUTTONUP: u32 = 0x0205;
pub const WM_MBUTTONDOWN: u32 = 0x0207;
pub const WM_MBUTTONUP: u32 = 0x0208;
pub const WM_MOUSEWHEEL: u32 = 0x020a;
pub const WM_XBUTTONDOWN: u32 = 0x020b;
pub const WM_XBUTTONUP: u32 = 0x020c;
pub const WM_MOUSEHWHEEL: u32 = 0x020e;
pub const XBUTTON1: u16 = 0x0001;
pub const XBUTTON2: u16 = 0x0002;
/// `MSLLHOOKSTRUCT.flags` bit of input injected by software.
pub const LLMHF_INJECTED: u32 = 0x0001;

/// One wheel notch in raw wheel units.
pub const WHEEL_DELTA: i16 = 120;

/// A mouse event. Scroll deltas are raw wheel units: `WHEEL_DELTA` per notch,
/// positive for wheel-forward (scroll up) and wheel-right.
#[derive(Clone, Copy, Debug, PartialEq, Eq, Structural)]
pub enum MouseEvent {
    Button { id: ButtonId, pressed: bool },
    Scroll { delta_x: i16, delta_y: i16 },
}

/// The high 16 bits of `value`.
pub open spec fn high_word_spec(value: u32) -> u16 {
    (value / 0x10000) as u16
}

/// The high 16 bits of `value`, read as two's complement.
pub open spec fn signed_high_word_spec(value: u32) -> i16 {
    let h = high_word_spec(value);
    if h < 0x8000 {
        h as i16
    } else {
        (h - 0x10000) as i16
    }
}

/// The high word of `value`.
pub fn high_word(value: u32) -> (r: u16)
    ensures
        r == high_word_spec(value),
{
    assert((value >> 16) == value / 0x10000) by (bit_vector);
    (value >> 16) as u16
}

/// The high word of `value` as a signed number.
pub fn signed_high_word(value: u32) -> (r: i16)
    ensures
        r == signed_high_word_spec(value),
{
    let h = high_word(value);
    assert(h < 0x8000 ==> h as i16 == h) by (bit_vector);
    assert(h >= 0x8000 ==> h as i16 == h - 0x10000) by (bit_vector);
    h as i16
}

/// Whether a message number is a button press, a button release, or neither.
pub open spec fn press_state(msg: u32) -> Option<bool> {
    if msg == WM_LBUTTONDOWN || msg == WM_RBUTTONDOWN || msg == WM_MBUTTONDOWN || msg
        == WM_XBUTTONDOWN {
        Some(true)
    } else if msg == WM_LBUTTONUP || msg == WM_RBUTTONUP || msg == WM_MBUTTONUP || msg
        == WM_XBUTTONUP {
        Some(false)
    } else {
        None
    }
}

/// The button a button message is about; `XBUTTON1` / `XBUTTON2` in the high
/// word of `mouse_data` select Back / Forward for the X-button messages.
pub open spec fn button_of(msg: u32, mouse_data: u32) -> Option<ButtonId> {
    if msg == WM_LBUTTONDOWN || msg == WM_LBUTTONUP {
        Some(ButtonId::LeftClick)
    } else if msg == WM_RBUTTONDOWN || msg == WM_RBUTTONUP {
        Some(ButtonId::RightClick)
    } else if msg == WM_MBUTTONDOWN || msg == WM_MBUTTONUP {
        Some(ButtonId::MiddleClick)
    } else if msg == WM_XBUTTONDOWN || msg == WM_XBUTTONUP {
        if high_word_spec(mouse_data) == XBUTTON1 {
            Some(ButtonId::Back)
        } else if high_word_spec(mouse_data) == XBUTTON2 {
            Some(ButtonId::Forward)
        } else {
            None
        }
    } else {
        None
    }
}

/// The event that a hook message describes; injected input and unknown
/// messages describe none.
pub open spec fn translate_spec(wparam: usize, flags: u32, mouse_data: u32) -> Option<MouseEvent> {
    let msg = wparam as u32;
    if flags & LLMHF_INJECTED != 0 {
        None
    } else if press_state(msg) is Some {
        match button_of(msg, mouse_data) {
            Some(id) => Some(MouseEvent::Button { id, pressed: press_state(msg)->0 }),
            None => None,
        }
    } else if msg == WM_MOUSEWHEEL {
        Some(MouseEvent::Scroll { delta_x: 0, delta_y: signed_high_word_spec(mouse_data) })
    } else if msg == WM_MOUSEHWHEEL {
        Some(MouseEvent::Scroll { delta_x: signed_high_word_spec(mouse_data), delta_y: 0 })
    } else {
        None
    }
}

/// Translates a low-level hook message. `flags` and `mouse_data` are the
/// fields of the `MSLLHOOKSTRUCT` that came with it.
pub fn translate_event(wparam: usize, flags: u32, mouse_data: u32) -> (r: Option<MouseEvent>)
    ensures
        r == translate_spec(wparam, flags, mouse_data),
{
    if flags & LLMHF_INJECTED != 0 {
        return None;
    }
    let msg = wparam as u32;
    let pressed = if msg == WM_LBUTTONDOWN || msg == WM_RBUTTONDOWN || msg == WM_MBUTTONDOWN || msg
        == WM_XBUTTONDOWN {
        Some(true)
    } else if msg == WM_LBUTTONUP || msg == WM_RBUTTONUP || msg == WM_MBUTTONUP || msg
        == WM_XBUTTONUP {
        Some(false)
    } else {
        None
    };
    if let Some(pressed) = pressed {
        let id = if msg == WM_LBUTTONDOWN || msg == WM_LBUTTONUP {
            ButtonId::LeftClick
        } else if msg == WM_RBUTTONDOWN || msg == WM_RBUTTONUP {
            ButtonId::RightClick
        } else if msg == WM_MBUTTONDOWN || msg == WM_MBUTTONUP {
            ButtonId::MiddleClick
        } else {
            let x = high_word(mouse_data);
            if x == XBUTTON1 {
                ButtonId::Back
            } else if x == XBUTTON2 {
                ButtonId::Forward
            } else {
                return None;
            }
        };
        return Some(MouseEvent::Button { id, pressed });
    }
    if msg == WM_MOUSEWHEEL {
        Some(MouseEvent::Scroll { delta_x: 0, delta_y: signed_high_word(mouse_data) })
    } else if msg == WM_MOUSEHWHEEL {
        Some(MouseEvent::Scroll { delta_x: signed_high_word(mouse_data), delta_y: 0 })
    } else {
        None
    }
}


/// Software-injected input never produces an event.
pub proof fn lemma_injected_ignored(wparam: usize, flags: u32, mouse_data: u32)
    requires
        flags & LLMHF_INJECTED != 0,
    ensures
        translate_spec(wparam, flags, mouse_data) is None,
{
}

/// Wheel-forward (a positive high word) scrolls up: `delta_y` is positive,
/// with the raw wheel units passed through unchanged.
pub proof fn lemma_wheel_forward_scrolls_up(flags: u32, mouse_data: u32)
    requires
        flags & LLMHF_INJECTED == 0,
        0 < high_word_spec(mouse_data) < 0x8000,
    ensures
        translate_spec(WM_MOUSEWHEEL as usize, flags, mouse_data) == Some(
            MouseEvent::Scroll { delta_x: 0, delta_y: high_word_spec(mouse_data) as i16 },
        ),
        high_word_spec(mouse_data) as i16 > 0,
{
}


/// Each button message names its own button, pressed on the `DOWN` message
/// and released on the `UP` one: left (`0x0201`/`0x0202`), right
/// (`0x0204`/`0x0205`), middle (`0x0207`/`0x0208`), and for the X-button
/// messages (`0x020b`/`0x020c`) Back when the high word of `mouse_data` is 1
/// and Forward when it is 2; the wheel messages (`0x020a` vertical, `0x020e`
/// horizontal) carry the signed high word on their own axis only.
pub proof fn lemma_button_and_wheel_messages(flags: u32, mouse_data: u32)
    requires
        flags & 1 == 0,
    ensures
        translate_spec(0x0201usize, flags, mouse_data) == Some(
            MouseEvent::Button { id: ButtonId::LeftClick, pressed: true },
        ),
        translate_spec(0x0202usize, flags, mouse_data) == Some(
            MouseEvent::Button { id: ButtonId::LeftClick, pressed: false },
        ),
        translate_spec(0x0204usize, flags, mouse_data) == Some(
            MouseEvent::Button { id: ButtonId::RightClick, pressed: true },
        ),
        translate_spec(0x0205usize, flags, mouse_data) == Some(
            MouseEvent::Button { id: ButtonId::RightClick, pressed: false },
        ),
        translate_spec(0x0207usize, flags, mouse_data) == Some(
            MouseEvent::Button { id: ButtonId::MiddleClick, pressed: true },
        ),
        translate_spec(0x0208usize, flags, mouse_data) == Some(
            MouseEvent::Button { id: ButtonId::MiddleClick, pressed: false },
        ),
        mouse_data / 0x10000 == 1 ==> translate_spec(0x020busize, flags, mouse_data) == Some(
            MouseEvent::Button { id: ButtonId::Back, pressed: true },
        ),
        mouse_data / 0x10000 == 1 ==> translate_spec(0x020cusize, flags, mouse_data) == Some(
            MouseEvent::Button { id: ButtonId::Back, pressed: false },
        ),
        mouse_data / 0x10000 == 2 ==> translate_spec(0x020busize, flags, mouse_data) == Some(
            MouseEvent::Button { id: ButtonId::Forward, pressed: true },
        ),
        mouse_data / 0x10000 == 2 ==> translate_spec(0x020cusize, flags, mouse_data) == Some(
            MouseEvent::Button { id: ButtonId::Forward, pressed: false },
        ),
        mouse_data / 0x10000 != 1 && mouse_data / 0x10000 != 2 ==> translate_spec(
            0x020busize,
            flags,
            mouse_data,
        ) is None && translate_spec(0x020cusize, flags, mouse_data) is None,
        translate_spec(0x020ausize, flags, mouse_data) matches Some(
            MouseEvent::Scroll { delta_x, delta_y },
        ) && delta_x == 0 && delta_y as int == (if mouse_data / 0x10000 < 0x8000 {
            (mouse_data / 0x10000) as int
        } else {
            mouse_data / 0x10000 - 0x10000
        }),
        translate_spec(0x020eusize, flags, mouse_data) matches Some(
            MouseEvent::Scroll { delta_x, delta_y },
        ) && delta_y == 0 && delta_x as int == (if mouse_data / 0x10000 < 0x8000 {
            (mouse_data / 0x10000) as int
        } else {
            mouse_data / 0x10000 - 0x10000
        }),
{
    let h = mouse_data / 0x10000;
    assert(h < 0x10000) by (nonlinear_arith)
        requires
            h == mouse_data / 0x10000,
            mouse_data < 0x1_0000_0000,
    ;
    assert(h < 0x8000 ==> (h as u16) as i16 == h) by (bit_vector)
        requires
            h < 0x10000,
    ;
    assert(h >= 0x8000 ==> ((h as u16) - 0x10000) as i16 == h - 0x10000) by (bit_vector)
        requires
            h < 0x10000,
    ;
}

/// Injected input is never translated, whatever the message.
pub proof fn lemma_injected_never_translated(wparam: usize, flags: u32, mouse_data: u32)
    requires
        flags & 1 != 0,
    ensures
        translate_spec(wparam, flags, mouse_data) is None,
{
}

/// `nCode` of a hook call that carries an event to process.
pub const HC_ACTION: i32 = 0;

/// What the event callback asks for.
#[derive(Clone, Copy, Debug, PartialEq, Eq, Structural)]
pub enum EventDisposition {
    PassThrough,
    Suppress,
}

/// What the hook procedure does with a call.
#[derive(Clone, Copy, Debug, PartialEq, Eq, Structural)]
pub enum HookAction {
    /// Forward to the next hook in the chain.
    CallNext,
    /// Swallow the event (the procedure returns 1).
    Suppress,
}

/// The event a hook call hands to the callback: only `HC_ACTION` calls carry
/// one, translated as [`translate_event`] does.
pub fn hook_event(code: i32, wparam: usize, flags: u32, mouse_data: u32) -> (r: Option<MouseEvent>)
    ensures
        r == if code == HC_ACTION {
            translate_spec(wparam, flags, mouse_data)
        } else {
            None
        },
{
    if code != HC_ACTION {
        return None;
    }
    translate_event(wparam, flags, mouse_data)
}

/// The hook's answer given the callback's disposition (`None` when no
/// callback is installed, which passes the event through).
pub fn hook_action(disposition: Option<EventDisposition>) -> (r: HookAction)
    ensures
        r == if disposition == Some(EventDisposition::Suppress) {
            HookAction::Suppress
        } else {
            HookAction::CallNext
        },
{
    match disposition {
        Some(EventDisposition::Suppress) => HookAction::Suppress,
        _ => HookAction::CallNext,
    }
}

/// The event a hook call carries: only an `HC_ACTION` call with hook data
/// (`(flags, mouse_data)`, absent when the OS passed none) carries one.
pub open spec fn proc_event_spec(code: i32, wparam: usize, data: Option<(u32, u32)>) -> Option<
    MouseEvent,
> {
    if code == HC_ACTION {
        match data {
            Some((flags, mouse_data)) => translate_spec(wparam, flags, mouse_data),
            None => None,
        }
    } else {
        None
    }
}

/// The hook procedure's decision for one call: events that are not
/// translated, and events with no callback installed, go to the next hook;
/// a translated event goes to the callback, and is swallowed exactly when
/// the callback asks to suppress it.
pub fn mouse_proc_action<F: Fn(MouseEvent) -> EventDisposition>(
    code: i32,
    wparam: usize,
    data: Option<(u32, u32)>,
    callback: Option<&F>,
) -> (r: HookAction)
    requires
        callback matches Some(cb) ==> forall|e: MouseEvent| #[trigger] cb.requires((e,)),
    ensures
        match proc_event_spec(code, wparam, data) {
            None => r == HookAction::CallNext,
            Some(e) => match callback {
                None => r == HookAction::CallNext,
                Some(cb) => exists|d: EventDisposition|
                    #[trigger] cb.ensures((e,), d) && r == (if d == EventDisposition::Suppress {
                        HookAction::Suppress
                    } else {
                        HookAction::CallNext
                    }),
            },
        },
{
    let event = match data {
        Some((flags, mouse_data)) => hook_event(code, wparam, flags, mouse_data),
        None => None,
    };
    match event {
        None => HookAction::CallNext,
        Some(e) => {
            let disposition = match callback {
                Some(cb) => Some(cb(e)),
                None => None,
            };
            hook_action(disposition)
        },
    }
}

/// Why the hook could not be installed.
#[derive(Debug)]
pub enum HookError {
    /// The Windows hook could not be set up; the text says why.
    WindowsHook(String),
}

/// The message of the error given when a hook is already installed.
pub open spec fn already_installed_message() -> Seq<char> {
    "another Windows mouse hook is already installed"@
}

/// The process-wide callback slot of the low-level mouse hook: one hook at a
/// time may hold it.
#[derive(Debug)]
pub struct HookSlot {
    pub installed: bool,
}

impl HookSlot {
    /// An empty slot.
    pub fn new() -> (r: HookSlot)
        ensures
            !r.installed,
    {
        HookSlot { installed: false }
    }

    /// Claims the slot for a new hook; a slot that is already held is left
    /// as it is and the claim fails.
    pub fn claim(&mut self) -> (r: Result<(), HookError>)
        ensures
            final(self).installed,
            r is Ok <==> !old(self).installed,
            r matches Err(HookError::WindowsHook(m)) ==> m@ == already_installed_message(),
    {
        if self.installed {
            return Err(HookError::WindowsHook(
                string_from_str("another Windows mouse hook is already installed"),
            ));
        }
        self.installed = true;
        Ok(())
    }

    /// Empties the slot (the hook thread is exiting, or its hook could not be
    /// set).
    pub fn release(&mut self)
        ensures
            !final(self).installed,
    {
        self.installed = false;
    }
}

} // verus!
