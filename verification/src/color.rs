//! Colors given as `#RRGGBB` text and as red, green and blue components.
use crate::text::push_char;
use vstd::prelude::*;

verus! {

/// An RGBA color; `from_rgb` makes an opaque one.
#[derive(Clone, Copy, Debug, PartialEq, Eq, Structural)]
pub struct Color32 {
    pub r: u8,
    pub g: u8,
    pub b: u8,
    pub a: u8,
}

impl Color32 {
    /// `Color32::from_rgb`: fully opaque.
    pub fn from_rgb(r: u8, g: u8, b: u8) -> (c: Color32)
        ensures
            c == (Color32 { r, g, b, a: 255 }),
    {
        Color32 { r, g, b, a: 255 }
    }
}

/// Value of a hexadecimal digit (either case), or `None`.
pub open spec fn hex_value(c: char) -> Option<int> {
    if '0' <= c && c <= '9' {
        Some(c as int - '0' as int)
    } else if 'a' <= c && c <= 'f' {
        Some(c as int - 'a' as int + 10)
    } else if 'A' <= c && c <= 'F' {
        Some(c as int - 'A' as int + 10)
    } else {
        None
    }
}

/// What `u8::from_str_radix(s, 16)` gives for a text of one or two
/// characters: an optional `+` followed by hexadecimal digits (a lone `+` is
/// an error).
pub open spec fn hex_pair_value(s: Seq<char>) -> Option<u8> {
    if s.len() == 1 {
        match hex_value(s[0]) {
            Some(v) => Some(v as u8),
            None => None,
        }
    } else if s[0] == '+' {
        match hex_value(s[1]) {
            Some(v) => Some(v as u8),
            None => None,
        }
    } else {
        match (hex_value(s[0]), hex_value(s[1])) {
            (Some(h), Some(l)) => Some((16 * h + l) as u8),
            _ => None,
        }
    }
}

/// `u8::from_str_radix(s, 16).ok()` on one or two characters. Trusted: as the
/// standard library documents it, the text is an optional `+` sign followed
/// by at least one digit of the radix (either case), and anything else is an
/// error; two hexadecimal digits never overflow a `u8`.
#[verifier::external_body]
fn parse_hex_pair(s: &str) -> (r: Option<u8>)
    requires
        1 <= s@.len() <= 2,
    ensures
        r == hex_pair_value(s@),
{
    u8::from_str_radix(s, 16).ok()
}

/// The text after its leading `#` characters.
pub open spec fn without_hashes(s: Seq<char>) -> Seq<char>
    decreases s.len(),
{
    if s.len() > 0 && s[0] == '#' {
        without_hashes(s.drop_first())
    } else {
        s
    }
}

/// Position of the first character of `s` that is not `#`.
fn hash_prefix_len(s: &str) -> (r: usize)
    ensures
        r <= s@.len(),
        without_hashes(s@) == s@.subrange(r as int, s@.len() as int),
{
    let n = s.unicode_len();
    let mut i: usize = 0;
    proof {
        assert(s@.subrange(0, n as int) =~= s@);
    }
    while i < n && s.get_char(i) == '#'
        invariant
            n == s@.len(),
            i <= n,
            without_hashes(s@) == without_hashes(s@.subrange(i as int, n as int)),
        decreases n - i,
    {
        proof {
            let t = s@.subrange(i as int, n as int);
            assert(t.drop_first() =~= s@.subrange(i + 1, n as int));
        }
        i = i + 1;
    }
    proof {
        let t = s@.subrange(i as int, n as int);
        assert(t.len() == 0 || t[0] != '#');
    }
    i
}

/// Bytes of a character in UTF-8 (`char::len_utf8`).
pub open spec fn utf8_width(c: char) -> int {
    if (c as u32) < 0x80 {
        1
    } else if (c as u32) < 0x800 {
        2
    } else if (c as u32) < 0x10000 {
        3
    } else {
        4
    }
}

/// How many characters from `i` make up exactly the next two bytes of the
/// text (two one-byte characters, or one two-byte character), or 0 when the
/// next two bytes end inside a character or the text ends first.
pub open spec fn pair_chars(t: Seq<char>, i: int) -> int {
    if i < t.len() && utf8_width(t[i]) == 2 {
        1
    } else if i + 1 < t.len() && utf8_width(t[i]) == 1 && utf8_width(t[i + 1]) == 1 {
        2
    } else {
        0
    }
}

/// A component read from the two bytes at character `i`: their number, or
/// 255 when they are not a hexadecimal number.
pub open spec fn component(t: Seq<char>, i: int) -> u8 {
    match hex_pair_value(t.subrange(i, i + pair_chars(t, i))) {
        Some(v) => v,
        None => 255,
    }
}

/// Where the second component starts, in characters.
pub open spec fn second_pair(t: Seq<char>) -> int {
    pair_chars(t, 0)
}

/// Where the third component starts, in characters.
pub open spec fn third_pair(t: Seq<char>) -> int {
    pair_chars(t, 0) + pair_chars(t, pair_chars(t, 0))
}

/// The color of `#RRGGBB` text.
pub open spec fn color_of_hex(hex: Seq<char>) -> Color32 {
    let t = without_hashes(hex);
    Color32 {
        r: component(t, 0),
        g: component(t, second_pair(t)),
        b: component(t, third_pair(t)),
        a: 255,
    }
}

/// After the leading `#`s, the first six bytes split into three pieces of
/// two bytes at character boundaries (else they cannot be sliced out).
pub open spec fn hex_text_fits(hex: Seq<char>) -> bool {
    let t = without_hashes(hex);
    &&& pair_chars(t, 0) > 0
    &&& pair_chars(t, second_pair(t)) > 0
    &&& pair_chars(t, third_pair(t)) > 0
}

/// The number of characters that make up the next two bytes at `i`.
fn pair_len(t: &str, i: usize) -> (r: usize)
    requires
        i <= t@.len(),
    ensures
        r == pair_chars(t@, i as int),
{
    let n = t.unicode_len();
    if i < n && (t.get_char(i) as u32) >= 0x80 && (t.get_char(i) as u32) < 0x800 {
        1
    } else if i < n && n - i > 1 && (t.get_char(i) as u32) < 0x80 && (t.get_char(i + 1) as u32) < 0x80 {
        2
    } else {
        0
    }
}

/// The component at character `i`.
fn component_at(t: &str, i: usize) -> (r: u8)
    requires
        i <= t@.len(),
        pair_chars(t@, i as int) > 0,
    ensures
        r == component(t@, i as int),
{
    let n = t.unicode_len();
    let g = pair_len(t, i);
    assert(i + g <= n);
    match parse_hex_pair(t.substring_char(i, i + g)) {
        Some(v) => v,
        None => 255,
    }
}

/// `hex_to_color32`: the leading `#`s are dropped and each of the next
/// three two-byte pieces gives red, green and blue; a piece that is not a
/// hexadecimal number counts as 255.
pub fn hex_to_color32(hex: &str) -> (c: Color32)
    requires
        hex_text_fits(hex@),
    ensures
        c == color_of_hex(hex@),
{
    let start = hash_prefix_len(hex);
    let t = hex.substring_char(start, hex.unicode_len());
    let g0 = pair_len(t, 0);
    let r = component_at(t, 0);
    let g1 = pair_len(t, g0);
    let g = component_at(t, g0);
    let b = component_at(t, g0 + g1);
    Color32::from_rgb(r, g, b)
}

/// The uppercase hexadecimal digit of `d` (0 to 15).
pub open spec fn upper_hex_digit(d: int) -> char {
    if d < 10 {
        (d + '0' as int) as char
    } else {
        (d - 10 + 'A' as int) as char
    }
}

fn hex_digit_char(d: u8) -> (c: char)
    requires
        d < 16,
    ensures
        c == upper_hex_digit(d as int),
{
    if d < 10 {
        (d + 48) as char
    } else {
        (d + 55) as char
    }
}

/// `format!("{:02X}", v)`.
pub open spec fn hex2(v: u8) -> Seq<char> {
    seq![upper_hex_digit(v as int / 16), upper_hex_digit(v as int % 16)]
}

/// `color32_to_hex`: `#RRGGBB` with uppercase digits.
pub fn color32_to_hex(color: Color32) -> (s: String)
    ensures
        s@ == seq!['#'] + hex2(color.r) + hex2(color.g) + hex2(color.b),
{
    let mut s = String::new();
    push_char(&mut s, '#');
    push_char(&mut s, hex_digit_char(color.r / 16));
    push_char(&mut s, hex_digit_char(color.r % 16));
    push_char(&mut s, hex_digit_char(color.g / 16));
    push_char(&mut s, hex_digit_char(color.g % 16));
    push_char(&mut s, hex_digit_char(color.b / 16));
    push_char(&mut s, hex_digit_char(color.b % 16));
    proof {
        assert(s@ =~= seq!['#'] + hex2(color.r) + hex2(color.g) + hex2(color.b));
    }
    s
}

/// Reading back the text of a color gives its components, fully opaque:
/// `hex_to_color32(&color32_to_hex(c))` is `c` with alpha 255.
pub proof fn lemma_hex_round_trip(c: Color32)
    ensures
        hex_text_fits(seq!['#'] + hex2(c.r) + hex2(c.g) + hex2(c.b)),
        color_of_hex(seq!['#'] + hex2(c.r) + hex2(c.g) + hex2(c.b)) == Color32::from_rgb_spec(c.r, c.g, c.b),
{
    let s = seq!['#'] + hex2(c.r) + hex2(c.g) + hex2(c.b);
    let t = hex2(c.r) + hex2(c.g) + hex2(c.b);
    assert(s.drop_first() =~= t);
    lemma_hex2(c.r);
    lemma_hex2(c.g);
    lemma_hex2(c.b);
    assert(t[0] != '#');
    assert(without_hashes(t) == t);
    assert(without_hashes(s) == t);
    assert(pair_chars(t, 0) == 2);
    assert(pair_chars(t, 2) == 2);
    assert(pair_chars(t, 4) == 2);
    assert(t.subrange(0, 2) =~= hex2(c.r));
    assert(t.subrange(2, 4) =~= hex2(c.g));
    assert(t.subrange(4, 6) =~= hex2(c.b));
}

impl Color32 {
    /// The opaque color with the given components.
    pub open spec fn from_rgb_spec(r: u8, g: u8, b: u8) -> Color32 {
        Color32 { r, g, b, a: 255 }
    }
}

/// The two digits of `v` read back as `v`, and they are ASCII but not `#`.
proof fn lemma_hex2(v: u8)
    ensures
        hex_pair_value(hex2(v)) == Some(v),
        (hex2(v)[0] as u32) < 128,
        (hex2(v)[1] as u32) < 128,
        hex2(v)[0] != '#',
{
    let hi = v as int / 16;
    let lo = v as int % 16;
    assert(0 <= hi < 16 && 0 <= lo < 16);
    assert(hex_value(upper_hex_digit(hi)) == Some(hi));
    assert(hex_value(upper_hex_digit(lo)) == Some(lo));
    assert(16 * hi + lo == v);
}

} // verus!
