//! String helpers shared by the registry lookups and path handling.
//!
//! Everything here works on the `Seq<char>` view of `str` / `String`.

use vstd::prelude::*;

verus! {

/// ASCII lower-casing of one character; non-ASCII-uppercase characters are
/// returned unchanged (the behaviour of `char::to_ascii_lowercase`).
pub open spec fn ascii_lower(c: char) -> char {
    if 'A' <= c && c <= 'Z' {
        ((c as u32) + 32) as char
    } else {
        c
    }
}

/// ASCII lower-casing of a whole string.
pub open spec fn ascii_lower_seq(s: Seq<char>) -> Seq<char> {
    Seq::new(s.len(), |i: int| ascii_lower(s[i]))
}

/// Case-insensitive (ASCII only) equality, as `str::eq_ignore_ascii_case`.
pub open spec fn eq_ignore_ascii_case_spec(a: Seq<char>, b: Seq<char>) -> bool {
    ascii_lower_seq(a) == ascii_lower_seq(b)
}

/// `b` is a suffix of `a`.
pub open spec fn has_suffix(a: Seq<char>, b: Seq<char>) -> bool {
    b.len() <= a.len() && a.subrange(a.len() - b.len(), a.len() as int) == b
}

/// The characters of `s`, in order.
pub fn chars_of(s: &str) -> (res: Vec<char>)
    ensures
        res@ == s@,
{
    let mut res: Vec<char> = Vec::new();
    for c in it: s.chars()
        invariant
            res@ == it.seq().take(it.index() as int),
    {
        res.push(c);
    }
    res
}

/// Calls `String::push`, which appends the character `c` to `s`.
#[verifier::external_body]
pub(crate) fn push_char(s: &mut String, c: char)
    ensures
        final(s)@ == old(s)@.push(c),
{
    s.push(c);
}

/// Lower-cases one ASCII character.
pub fn to_ascii_lower(c: char) -> (r: char)
    ensures
        r == ascii_lower(c),
{
    if 'A' <= c && c <= 'Z' {
        let v: u8 = c as u8;
        (v + 32) as char
    } else {
        c
    }
}

/// Case-insensitive (ASCII only) equality of two strings.
pub fn eq_ignore_ascii_case(a: &str, b: &str) -> (r: bool)
    ensures
        r == eq_ignore_ascii_case_spec(a@, b@),
{
    let ca = chars_of(a);
    let cb = chars_of(b);
    if ca.len() != cb.len() {
        proof {
            assert(ascii_lower_seq(a@).len() != ascii_lower_seq(b@).len());
        }
        return false;
    }
    let n = ca.len();
    let mut i: usize = 0;
    while i < n
        invariant
            n == ca@.len(),
            n == cb@.len(),
            ca@ == a@,
            cb@ == b@,
            i <= n,
            forall|k: int| 0 <= k < i ==> ascii_lower(ca@[k]) == ascii_lower(cb@[k]),
        decreases n - i,
    {
        if to_ascii_lower(ca[i]) != to_ascii_lower(cb[i]) {
            proof {
                assert(ascii_lower_seq(a@)[i as int] != ascii_lower_seq(b@)[i as int]);
            }
            return false;
        }
        i += 1;
    }
    proof {
        assert(ascii_lower_seq(a@) =~= ascii_lower_seq(b@));
    }
    true
}

/// Whether `a` ends with `suffix`, comparing ASCII letters case-insensitively.
pub fn ends_with_ignore_ascii_case(a: &str, suffix: &str) -> (r: bool)
    ensures
        r == has_suffix(ascii_lower_seq(a@), ascii_lower_seq(suffix@)),
{
    let ca = chars_of(a);
    let cs = chars_of(suffix);
    let ghost la = ascii_lower_seq(a@);
    let ghost ls = ascii_lower_seq(suffix@);
    if cs.len() > ca.len() {
        return false;
    }
    let off = ca.len() - cs.len();
    let n = cs.len();
    let mut i: usize = 0;
    while i < n
        invariant
            n == cs@.len(),
            off + n == ca@.len(),
            off + n == ca.len(),
            ca@ == a@,
            cs@ == suffix@,
            la == ascii_lower_seq(a@),
            ls == ascii_lower_seq(suffix@),
            i <= n,
            forall|k: int| 0 <= k < i ==> la[off + k] == ls[k],
        decreases n - i,
    {
        if to_ascii_lower(ca[off + i]) != to_ascii_lower(cs[i]) {
            proof {
                assert(la.subrange(la.len() - ls.len(), la.len() as int)[i as int] != ls[i as int]);
            }
            return false;
        }
        i += 1;
    }
    proof {
        assert(la.subrange(la.len() - ls.len(), la.len() as int) =~= ls);
    }
    true
}

} // verus!

verus! {

/// Lower-case hexadecimal digits.
pub const HEX_LOWER: [char; 16] = [
    '0', '1', '2', '3', '4', '5', '6', '7', '8', '9', 'a', 'b', 'c', 'd', 'e', 'f',
];

/// Two lower-case hex digits per byte, most significant first.
pub open spec fn hex_lower(b: Seq<u8>) -> Seq<char>
    decreases b.len(),
{
    if b.len() == 0 {
        seq![]
    } else {
        hex_lower(b.drop_last()) + seq![
            HEX_LOWER@[(b.last() / 16) as int],
            HEX_LOWER@[(b.last() % 16) as int],
        ]
    }
}

/// Lower-case hex encoding of `data`, e.g. `[0xbe, 0xef]` gives `"beef"`.
pub fn to_hex_lower(data: &[u8]) -> (r: String)
    ensures
        r@ == hex_lower(data@),
{
    let mut r = String::new();
    let n = data.len();
    let mut i: usize = 0;
    while i < n
        invariant
            n == data@.len(),
            i <= n,
            r@ == hex_lower(data@.take(i as int)),
        decreases n - i,
    {
        let b = data[i];
        push_char(&mut r, HEX_LOWER[(b / 16) as usize]);
        push_char(&mut r, HEX_LOWER[(b % 16) as usize]);
        proof {
            assert(data@.take(i + 1).drop_last() =~= data@.take(i as int));
        }
        i += 1;
    }
    proof {
        assert(data@.take(n as int) =~= data@);
    }
    r
}

/// A string with the characters of `v`.
pub fn string_from_chars(v: &Vec<char>) -> (r: String)
    ensures
        r@ == v@,
{
    let mut r = String::new();
    let n = v.len();
    let mut i: usize = 0;
    while i < n
        invariant
            n == v@.len(),
            i <= n,
            r@ == v@.take(i as int),
        decreases n - i,
    {
        push_char(&mut r, v[i]);
        proof {
            assert(v@.take(i + 1) =~= v@.take(i as int).push(v@[i as int]));
        }
        i += 1;
    }
    proof {
        assert(v@.take(n as int) =~= v@);
    }
    r
}

/// A copy of `s`.
pub fn string_from_str(s: &str) -> (r: String)
    ensures
        r@ == s@,
{
    let v = chars_of(s);
    string_from_chars(&v)
}

} // verus!

verus! {

/// Exact equality of two strings.
pub fn str_eq(a: &str, b: &str) -> (r: bool)
    ensures
        r == (a@ == b@),
{
    let ca = chars_of(a);
    let cb = chars_of(b);
    if ca.len() != cb.len() {
        return false;
    }
    let n = ca.len();
    let mut i: usize = 0;
    while i < n
        invariant
            n == ca@.len(),
            n == cb@.len(),
            ca@ == a@,
            cb@ == b@,
            i <= n,
            forall|k: int| 0 <= k < i ==> ca@[k] == cb@[k],
        decreases n - i,
    {
        if ca[i] != cb[i] {
            return false;
        }
        i += 1;
    }
    proof {
        assert(ca@ =~= cb@);
    }
    true
}


/// Hex encoding doubles the length.
pub proof fn lemma_hex_lower_len(b: Seq<u8>)
    ensures
        hex_lower(b).len() == 2 * b.len(),
    decreases b.len(),
{
    if b.len() > 0 {
        lemma_hex_lower_len(b.drop_last());
    }
}

/// The character of hex digit `d` (below 16): `'0'` to `'9'`, then `'a'` to
/// `'f'`.
pub open spec fn hex_digit_char(d: int) -> char {
    if d < 10 {
        (48 + d) as char
    } else {
        (87 + d) as char
    }
}

/// The digit table holds `'0'` to `'9'` then `'a'` to `'f'`: entry `d` is
/// the character of digit `d`.
pub proof fn lemma_hex_digit_table()
    ensures
        HEX_LOWER@.len() == 16,
        forall|d: int| 0 <= d < 16 ==> #[trigger] HEX_LOWER@[d] == hex_digit_char(d),
{
    let t = HEX_LOWER@;
    assert(t[0] == '0' && t[1] == '1' && t[2] == '2' && t[3] == '3' && t[4] == '4' && t[5]
        == '5' && t[6] == '6' && t[7] == '7' && t[8] == '8' && t[9] == '9');
    assert(t[10] == 'a' && t[11] == 'b' && t[12] == 'c' && t[13] == 'd' && t[14] == 'e' && t[15]
        == 'f');
    assert forall|d: int| 0 <= d < 16 implies #[trigger] t[d] == hex_digit_char(d) by {
        assert(d == 0 || d == 1 || d == 2 || d == 3 || d == 4 || d == 5 || d == 6 || d == 7 || d
            == 8 || d == 9 || d == 10 || d == 11 || d == 12 || d == 13 || d == 14 || d == 15);
    }
}

/// Hex encoding writes each byte as two lower-case digits, high nibble
/// first: byte `i` becomes characters `2i` and `2i + 1`.
pub proof fn lemma_hex_lower_digits(b: Seq<u8>)
    ensures
        hex_lower(b).len() == 2 * b.len(),
        forall|i: int|
            0 <= i < b.len() ==> #[trigger] hex_lower(b)[2 * i] == hex_digit_char((b[i] / 16) as int)
                && hex_lower(b)[2 * i + 1] == hex_digit_char((b[i] % 16) as int),
    decreases b.len(),
{
    lemma_hex_lower_len(b);
    if b.len() > 0 {
        let front = b.drop_last();
        lemma_hex_lower_digits(front);
        lemma_hex_lower_len(front);
        let t = HEX_LOWER@;
        lemma_hex_digit_table();
        let n = b.len() - 1;
        assert forall|i: int| 0 <= i < b.len() implies #[trigger] hex_lower(b)[2 * i]
            == hex_digit_char((b[i] / 16) as int) && hex_lower(b)[2 * i + 1] == hex_digit_char(
            (b[i] % 16) as int,
        ) by {
            if i < n {
                assert(front[i] == b[i]);
                assert(hex_lower(b)[2 * i] == hex_lower(front)[2 * i]);
                assert(hex_lower(b)[2 * i + 1] == hex_lower(front)[2 * i + 1]);
            } else {
                assert(b.last() == b[i]);
                assert(hex_lower(b)[2 * i] == t[(b.last() / 16) as int]);
                assert(hex_lower(b)[2 * i + 1] == t[(b.last() % 16) as int]);
            }
        }
    }
}

/// Lower-casing maps `'A'` to `'Z'` onto `'a'` to `'z'` (32 code points on)
/// and leaves every other character, position by position.
pub proof fn lemma_ascii_lower(c: char, s: Seq<char>)
    ensures
        'A' <= c <= 'Z' ==> ascii_lower(c) as u32 == c as u32 + 32,
        !('A' <= c <= 'Z') ==> ascii_lower(c) == c,
        ascii_lower_seq(s).len() == s.len(),
        forall|i: int| 0 <= i < s.len() ==> #[trigger] ascii_lower_seq(s)[i] == ascii_lower(s[i]),
{
}

/// `b` is a suffix of `a` exactly when `a` is some string followed by `b`;
/// two strings are equal ignoring ASCII case exactly when they have the same
/// length and agree position by position after lower-casing.
pub proof fn lemma_suffix_and_case(a: Seq<char>, b: Seq<char>, p: Seq<char>)
    ensures
        has_suffix(a, b) ==> a == a.take(a.len() - b.len()) + b,
        a == p + b ==> has_suffix(a, b),
        eq_ignore_ascii_case_spec(a, b) <==> (a.len() == b.len() && forall|i: int|
            0 <= i < a.len() ==> #[trigger] ascii_lower(a[i]) == ascii_lower(b[i])),
{
    if has_suffix(a, b) {
        assert(a =~= a.take(a.len() - b.len()) + b);
    }
    if a == p + b {
        assert(a.subrange(a.len() - b.len(), a.len() as int) =~= b);
    }
    if a.len() == b.len() && forall|i: int|
        0 <= i < a.len() ==> #[trigger] ascii_lower(a[i]) == ascii_lower(b[i]) {
        assert(ascii_lower_seq(a) =~= ascii_lower_seq(b));
    }
    if eq_ignore_ascii_case_spec(a, b) {
        assert forall|i: int| 0 <= i < a.len() implies #[trigger] ascii_lower(a[i]) == ascii_lower(
            b[i],
        ) by {
            assert(ascii_lower_seq(a)[i] == ascii_lower_seq(b)[i]);
        }
    }
}

} // verus!
