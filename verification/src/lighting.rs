//! Basic RGB lighting controls: the colour palette, hex colours, and the
//! changes the panel's swatches, toggle and brightness slider make.

use vstd::prelude::*;
use crate::text::{chars_of, eq_ignore_ascii_case, eq_ignore_ascii_case_spec, string_from_str};

verus! {

/// Preset colours as 6-hex `"RRGGBB"`.
pub const PALETTE: [&'static str; 9] = [
    "ff3b30", "ff9500", "ffcc00", "34c759", "00c7be", "007aff", "5856d6", "af52de", "ffffff",
];

/// The colour used when a hex string does not parse: white.
pub const FALLBACK_COLOR: u32 = 0x00ff_ffff;

/// A device's lighting settings.
#[derive(Clone, Debug)]
pub struct Lighting {
    pub enabled: bool,
    /// `"RRGGBB"`.
    pub color: String,
    /// Percent, `0..=100`.
    pub brightness: u8,
}

/// The value of a hexadecimal digit (either case).
pub open spec fn hex_digit_value(c: char) -> Option<nat> {
    if '0' <= c && c <= '9' {
        Some((c as nat - '0' as nat) as nat)
    } else if 'a' <= c && c <= 'f' {
        Some((c as nat - 'a' as nat + 10) as nat)
    } else if 'A' <= c && c <= 'F' {
        Some((c as nat - 'A' as nat + 10) as nat)
    } else {
        None
    }
}

/// The number that a string of hex digits spells, if every character is a
/// hex digit.
pub open spec fn hex_digits_value(s: Seq<char>) -> Option<nat>
    decreases s.len(),
{
    if s.len() == 0 {
        Some(0)
    } else {
        match (hex_digits_value(s.drop_last()), hex_digit_value(s.last())) {
            (Some(v), Some(d)) => Some(v * 16 + d),
            _ => None,
        }
    }
}

/// `u32::from_str_radix(s, 16)`: an optional `+` then at least one hex
/// digit, with a value that fits in `u32`.
pub open spec fn parse_u32_hex(s: Seq<char>) -> Option<u32> {
    let body = if s.len() > 0 && s[0] == '+' { s.drop_first() } else { s };
    if body.len() == 0 {
        None
    } else {
        match hex_digits_value(body) {
            Some(v) => if v <= u32::MAX {
                Some(v as u32)
            } else {
                None
            },
            None => None,
        }
    }
}

/// Digit value of one character.
fn digit_value(c: char) -> (r: Option<u32>)
    ensures
        match hex_digit_value(c) {
            Some(v) => r == Some(v as u32),
            None => r is None,
        },
{
    if '0' <= c && c <= '9' {
        Some((c as u32) - ('0' as u32))
    } else if 'a' <= c && c <= 'f' {
        Some((c as u32) - ('a' as u32) + 10)
    } else if 'A' <= c && c <= 'F' {
        Some((c as u32) - ('A' as u32) + 10)
    } else {
        None
    }
}

proof fn lemma_hex_prefix_grows(s: Seq<char>, i: int)
    requires
        0 <= i <= s.len(),
        hex_digits_value(s) is Some,
    ensures
        hex_digits_value(s.take(i)) is Some,
        hex_digits_value(s.take(i))->0 <= hex_digits_value(s)->0,
    decreases s.len() - i,
{
    if i < s.len() {
        lemma_hex_prefix_grows(s, i + 1);
        assert(s.take(i + 1).drop_last() =~= s.take(i));
    } else {
        assert(s.take(i) =~= s);
    }
}

/// Digit values: `'0'` to `'9'` are 0 to 9, `'a'` to `'f'` and `'A'` to
/// `'F'` are 10 to 15, and nothing else is a digit.
pub proof fn lemma_hex_digit_values(c: char)
    ensures
        '0' <= c <= '9' ==> hex_digit_value(c) == Some((c as u32 - 48) as nat),
        'a' <= c <= 'f' ==> hex_digit_value(c) == Some((c as u32 - 87) as nat),
        'A' <= c <= 'F' ==> hex_digit_value(c) == Some((c as u32 - 55) as nat),
        !('0' <= c <= '9' || 'a' <= c <= 'f' || 'A' <= c <= 'F') ==> hex_digit_value(c) is None,
{
}

/// Digits are read most significant first: appending a digit `d` to a run
/// of digits worth `v` gives `16 v + d`, a run with a non-digit has no
/// value, and an empty run is worth 0.
pub proof fn lemma_hex_digits_append(s: Seq<char>, c: char)
    ensures
        hex_digits_value(Seq::empty()) == Some(0nat),
        hex_digits_value(s) matches Some(v) ==> (hex_digit_value(c) matches Some(d)
            ==> hex_digits_value(s.push(c)) == Some(16 * v + d)),
        hex_digit_value(c) is None ==> hex_digits_value(s.push(c)) is None,
        hex_digits_value(s) is None ==> hex_digits_value(s.push(c)) is None,
{
    assert(s.push(c).drop_last() =~= s);
}

/// `parse_u32_hex` reads an optional leading `+` and then the digits: with
/// the `+` removed the value is the same, an empty body has none, and a body
/// of digits has its value when that fits in `u32` and none otherwise.
pub proof fn lemma_parse_u32_hex(s: Seq<char>)
    ensures
        (s.len() == 0 || s[0] != '+') ==> parse_u32_hex(seq!['+'] + s) == parse_u32_hex(s),
        parse_u32_hex(Seq::empty()) is None,
        parse_u32_hex(seq!['+']) is None,
        (s.len() > 0 && s[0] != '+') ==> parse_u32_hex(s) == match hex_digits_value(s) {
            Some(v) => if v <= 0xffff_ffff {
                Some(v as u32)
            } else {
                None
            },
            None => None,
        },
{
    assert((seq!['+'] + s).drop_first() =~= s);
    assert(seq!['+'].drop_first() =~= Seq::<char>::empty());
}

/// Parses `"RRGGBB"` (any hex number that fits `u32`) for `rgb()`; white when
/// it does not parse.
pub fn parse_hex(hex: &str) -> (r: u32)
    ensures
        r == match parse_u32_hex(hex@) {
            Some(v) => v,
            None => FALLBACK_COLOR,
        },
{
    let c = chars_of(hex);
    let n = c.len();
    let start: usize = if n > 0 && c[0] == '+' { 1 } else { 0 };
    let ghost body = if hex@.len() > 0 && hex@[0] == '+' { hex@.drop_first() } else { hex@ };
    proof {
        assert(body =~= c@.subrange(start as int, n as int));
    }
    if start == n {
        return FALLBACK_COLOR;
    }
    let mut acc: u64 = 0;
    let mut i: usize = start;
    while i < n
        invariant
            n == c@.len(),
            start <= i <= n,
            body =~= c@.subrange(start as int, n as int),
            body == if hex@.len() > 0 && hex@[0] == '+' { hex@.drop_first() } else { hex@ },
            body.len() > 0,
            hex_digits_value(body.take(i - start)) == Some(acc as nat),
            acc <= u32::MAX,
        decreases n - i,
    {
        proof {
            assert(body.take(i + 1 - start).drop_last() =~= body.take(i - start));
            assert(body.take(i + 1 - start).last() == c@[i as int]);
        }
        let d = match digit_value(c[i]) {
            Some(d) => d,
            None => {
                proof {
                    assert(hex_digits_value(body.take(i + 1 - start)) is None);
                    if hex_digits_value(body) is Some {
                        lemma_hex_prefix_grows(body, i + 1 - start);
                    }
                }
                return FALLBACK_COLOR;
            },
        };
        let next = acc * 16 + d as u64;
        proof {
            assert(hex_digits_value(body.take(i + 1 - start)) == Some(next as nat));
        }
        if next > 0xffff_ffff {
            proof {
                if hex_digits_value(body) is Some {
                    lemma_hex_prefix_grows(body, i + 1 - start);
                }
            }
            return FALLBACK_COLOR;
        }
        acc = next;
        i += 1;
    }
    proof {
        assert(body.take(n - start) =~= body);
    }
    acc as u32
}

/// Whether the swatch of colour `hex` shows as selected: lighting is on and
/// its colour is `hex`, ignoring ASCII case.
pub fn swatch_selected(current: &Lighting, hex: &str) -> (r: bool)
    ensures
        r == (current.enabled && eq_ignore_ascii_case_spec(current.color@, hex@)),
{
    current.enabled && eq_ignore_ascii_case(current.color.as_str(), hex)
}

/// Clicking a swatch: lighting on, in colour `hex`.
pub fn with_color(current: &Lighting, hex: &str) -> (r: Lighting)
    ensures
        r.enabled,
        r.color@ == hex@,
        r.brightness == current.brightness,
{
    Lighting { enabled: true, color: string_from_str(hex), brightness: current.brightness }
}

/// Clicking the on/off pill: lighting flipped, colour and brightness kept.
pub fn toggled(current: &Lighting) -> (r: Lighting)
    ensures
        r.enabled == !current.enabled,
        r.color@ == current.color@,
        r.brightness == current.brightness,
{
    Lighting {
        enabled: !current.enabled,
        color: string_from_str(current.color.as_str()),
        brightness: current.brightness,
    }
}

/// Releasing the brightness slider at `percent`: lighting on at that
/// brightness, colour kept.
pub fn with_brightness(current: &Lighting, percent: u8) -> (r: Lighting)
    ensures
        r.enabled,
        r.color@ == current.color@,
        r.brightness == percent,
{
    Lighting {
        enabled: true,
        color: string_from_str(current.color.as_str()),
        brightness: percent,
    }
}

/// The slider value to push after the device's brightness was read as
/// `current`, when `last_pushed` was the value last pushed: the new value
/// when the brightness changed (a device switch or an edit elsewhere), and
/// nothing otherwise, so that a drag in progress is not fought.
pub open spec fn brightness_resync_spec(last_pushed: u8, current: u8) -> Option<u8> {
    if current != last_pushed {
        Some(current)
    } else {
        None
    }
}

/// Re-syncs the brightness slider: returns the value to push into it, if
/// any, and records `current` as the value last pushed.
pub fn brightness_resync(last_pushed: &mut u8, current: u8) -> (r: Option<u8>)
    ensures
        r == brightness_resync_spec(*old(last_pushed), current),
        *final(last_pushed) == current,
{
    if current != *last_pushed {
        *last_pushed = current;
        Some(current)
    } else {
        None
    }
}

/// A brightness is pushed into the slider at most once: right after a
/// re-sync, the same brightness pushes nothing.
pub proof fn lemma_resync_pushes_once(last_pushed: u8, current: u8)
    ensures
        brightness_resync_spec(current, current) is None,
        brightness_resync_spec(last_pushed, current) matches Some(v) ==> v == current,
{
}

} // verus!