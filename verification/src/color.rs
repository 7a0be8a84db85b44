//! Hex color settings: validation, normalization, migration of former defaults and
//! conversion to the color values that drawing uses.
use vstd::prelude::*;

use crate::text::{
    ascii_upper, is_trimmed, lemma_trimmed_fixed, lemma_upper_trim_fixed, chars_equal, chars_of, char_is_hexdigit, copy_range, is_ascii_hexdigit, string_of, to_ascii_upper, trim,
    trimmed, uppercased,
};

verus! {

pub const DEFAULT_GRID_COLOR: &'static str = "#FFFFFF11";

pub const DEFAULT_SELECTION_COLOR: &'static str = "#00FFFF11";

pub const DEFAULT_SELECTION_BORDER_COLOR: &'static str = "#00FFFF44";

pub const PREVIOUS_DEFAULT_GRID_COLOR: &'static str = "#FFFFFF22";

pub const PREVIOUS_DEFAULT_SELECTION_COLOR: &'static str = "#00FFFF22";

pub const PREVIOUS_DEFAULT_SELECTION_BORDER_COLOR: &'static str = "#00FFFF88";

pub const LEGACY_DEFAULT_GRID_COLOR: &'static str = "#22FFFFFF";

pub const LEGACY_DEFAULT_SELECTION_COLOR: &'static str = "#2200FFFF";

pub const LEGACY_DEFAULT_SELECTION_BORDER_COLOR: &'static str = "#8800FFFF";

/// A color with straight (not premultiplied) alpha.
#[derive(Debug, Clone, Copy, PartialEq, Eq, Structural)]
pub struct RgbaColor {
    pub red: u8,
    pub green: u8,
    pub blue: u8,
    pub alpha: u8,
}

/// `#RRGGBB` or `#RRGGBBAA` with hex digits of either case and no surrounding whitespace.
pub open spec fn is_hex_color_text(t: Seq<char>) -> bool {
    &&& (t.len() == 7 || t.len() == 9)
    &&& t[0] == '#'
    &&& forall|i: int| 1 <= i < t.len() ==> is_ascii_hexdigit(#[trigger] t[i])
}

/// A color setting is valid when, once trimmed, it is `#RRGGBB` or `#RRGGBBAA`.
pub open spec fn spec_is_valid_hex_color(s: Seq<char>) -> bool {
    is_hex_color_text(trim(s))
}

/// The value of one hex digit.
pub open spec fn hex_value(c: char) -> int {
    if '0' <= c && c <= '9' {
        c as int - '0' as int
    } else if 'a' <= c && c <= 'f' {
        c as int - 'a' as int + 10
    } else {
        c as int - 'A' as int + 10
    }
}

/// The byte spelled by two hex digits.
pub open spec fn hex_byte(high: char, low: char) -> u8 {
    (hex_value(high) * 16 + hex_value(low)) as u8
}

/// Colors that used to be the defaults map to the current defaults.
pub open spec fn migrate_default_color(v: Seq<char>) -> Seq<char> {
    if v == PREVIOUS_DEFAULT_GRID_COLOR@ || v == LEGACY_DEFAULT_GRID_COLOR@ {
        DEFAULT_GRID_COLOR@
    } else if v == PREVIOUS_DEFAULT_SELECTION_COLOR@ || v == LEGACY_DEFAULT_SELECTION_COLOR@ {
        DEFAULT_SELECTION_COLOR@
    } else if v == PREVIOUS_DEFAULT_SELECTION_BORDER_COLOR@
        || v == LEGACY_DEFAULT_SELECTION_BORDER_COLOR@ {
        DEFAULT_SELECTION_BORDER_COLOR@
    } else {
        v
    }
}

/// A color setting trimmed and upper-cased, or `default` when missing or invalid.
pub open spec fn spec_normalize(value: Option<Seq<char>>, default: Seq<char>) -> Seq<char> {
    match value {
        None => default,
        Some(v) => {
            let u = to_ascii_upper(trim(v));
            if spec_is_valid_hex_color(u) {
                u
            } else {
                default
            }
        },
    }
}

/// As `spec_normalize`, and a former default color becomes the current default.
pub open spec fn spec_normalize_stored(value: Option<Seq<char>>, default: Seq<char>) -> Seq<
    char,
> {
    match value {
        None => default,
        Some(v) => {
            let u = to_ascii_upper(trim(v));
            if spec_is_valid_hex_color(u) {
                migrate_default_color(u)
            } else {
                default
            }
        },
    }
}

/// An `#AARRGGBB` color rewritten as `#RRGGBBAA`; `#RRGGBB` kept; anything invalid gives `default`.
pub open spec fn spec_argb_to_rgba(value: Seq<char>, default: Seq<char>) -> Seq<char> {
    let u = to_ascii_upper(trim(value));
    if !spec_is_valid_hex_color(u) {
        default
    } else if u.len() == 9 {
        seq!['#'] + u.subrange(3, 9) + u.subrange(1, 3)
    } else {
        u
    }
}

/// The color a color text spells; alpha is opaque when the text has no alpha digits.
pub open spec fn spec_rgba_of_text(t: Seq<char>) -> RgbaColor {
    RgbaColor {
        red: hex_byte(t[1], t[2]),
        green: hex_byte(t[3], t[4]),
        blue: hex_byte(t[5], t[6]),
        alpha: if t.len() == 9 {
            hex_byte(t[7], t[8])
        } else {
            255
        },
    }
}

/// The Win32 `COLORREF` layout: red in the low byte, then green, then blue.
pub open spec fn spec_rgb(red: u8, green: u8, blue: u8) -> u32 {
    (red as int + green as int * 256 + blue as int * 65536) as u32
}

pub fn rgb(red: u8, green: u8, blue: u8) -> (c: u32)
    ensures
        c == spec_rgb(red, green, blue),
{
    let r = red as u32;
    let g = green as u32;
    let b = blue as u32;
    assert(r | (g << 8) | (b << 16) == r + g * 256 + b * 65536) by (bit_vector)
        requires
            r < 256,
            g < 256,
            b < 256,
    ;
    r | (g << 8) | (b << 16)
}

fn is_hex_color_chars(t: &[char]) -> (b: bool)
    ensures
        b == is_hex_color_text(t@),
{
    if !(t.len() == 7 || t.len() == 9) || t[0] != '#' {
        return false;
    }
    let mut i: usize = 1;
    while i < t.len()
        invariant
            1 <= i <= t.len(),
            forall|k: int| 1 <= k < i ==> is_ascii_hexdigit(#[trigger] t@[k]),
        decreases t.len() - i,
    {
        if !char_is_hexdigit(t[i]) {
            return false;
        }
        i += 1;
    }
    true
}

/// Whether a color setting is `#RRGGBB` or `#RRGGBBAA` once trimmed.
pub fn is_valid_hex_color(value: &str) -> (b: bool)
    ensures
        b == spec_is_valid_hex_color(value@),
{
    let cs = chars_of(value);
    let t = trimmed(cs.as_slice());
    is_hex_color_chars(t.as_slice())
}

/// The current default for a former default color, or the color itself.
pub fn migrate_default(v: Vec<char>) -> (r: Vec<char>)
    ensures
        r@ == migrate_default_color(v@),
        (v@ == PREVIOUS_DEFAULT_GRID_COLOR@ || v@ == LEGACY_DEFAULT_GRID_COLOR@) ==> r@
            == DEFAULT_GRID_COLOR@,
        (v@ == PREVIOUS_DEFAULT_SELECTION_COLOR@ || v@ == LEGACY_DEFAULT_SELECTION_COLOR@) ==> r@
            == DEFAULT_SELECTION_COLOR@,
        (v@ == PREVIOUS_DEFAULT_SELECTION_BORDER_COLOR@ || v@
            == LEGACY_DEFAULT_SELECTION_BORDER_COLOR@) ==> r@ == DEFAULT_SELECTION_BORDER_COLOR@,
        !is_former_default(v@) ==> r@ == v@,
{
    proof {
        lemma_former_defaults_text();
    }
    if chars_equal(v.as_slice(), chars_of(PREVIOUS_DEFAULT_GRID_COLOR).as_slice())
        || chars_equal(v.as_slice(), chars_of(LEGACY_DEFAULT_GRID_COLOR).as_slice()) {
        chars_of(DEFAULT_GRID_COLOR)
    } else if chars_equal(v.as_slice(), chars_of(PREVIOUS_DEFAULT_SELECTION_COLOR).as_slice())
        || chars_equal(v.as_slice(), chars_of(LEGACY_DEFAULT_SELECTION_COLOR).as_slice()) {
        chars_of(DEFAULT_SELECTION_COLOR)
    } else if chars_equal(
        v.as_slice(),
        chars_of(PREVIOUS_DEFAULT_SELECTION_BORDER_COLOR).as_slice(),
    ) || chars_equal(v.as_slice(), chars_of(LEGACY_DEFAULT_SELECTION_BORDER_COLOR).as_slice()) {
        chars_of(DEFAULT_SELECTION_BORDER_COLOR)
    } else {
        v
    }
}

/// A color setting trimmed and upper-cased; `default` when it is missing or invalid.
pub fn normalize_hex_color(value: Option<&str>, default: &str) -> (r: String)
    ensures
        r@ == spec_normalize(
            match value {
                Some(v) => Some(v@),
                None => None,
            },
            default@,
        ),
        value matches Some(v) ==> (spec_is_valid_hex_color(v@) ==> r@ == to_ascii_upper(
            trim(v@),
        )) && (!spec_is_valid_hex_color(v@) ==> r@ == default@),
        value is None ==> r@ == default@,
{
    proof {
        if let Some(v) = value {
            lemma_upper_keeps_validity(v@);
        }
    }
    let value = match value {
        Some(v) => v,
        None => return string_of(chars_of(default).as_slice()),
    };
    let u = uppercased(trimmed(chars_of(value).as_slice()).as_slice());
    let t = trimmed(u.as_slice());
    if is_hex_color_chars(t.as_slice()) {
        string_of(u.as_slice())
    } else {
        string_of(chars_of(default).as_slice())
    }
}

/// As `normalize_hex_color`, and a color that used to be a default
/// becomes the current default.
pub fn normalize_stored_hex_color(value: Option<&str>, default: &str) -> (r: String)
    ensures
        r@ == spec_normalize_stored(
            match value {
                Some(v) => Some(v@),
                None => None,
            },
            default@,
        ),
        value matches Some(v) ==> {
            let u = to_ascii_upper(trim(v@));
            &&& (u == PREVIOUS_DEFAULT_GRID_COLOR@ || u == LEGACY_DEFAULT_GRID_COLOR@) ==> r@
                == DEFAULT_GRID_COLOR@
            &&& (u == PREVIOUS_DEFAULT_SELECTION_COLOR@ || u == LEGACY_DEFAULT_SELECTION_COLOR@)
                ==> r@ == DEFAULT_SELECTION_COLOR@
            &&& (u == PREVIOUS_DEFAULT_SELECTION_BORDER_COLOR@ || u
                == LEGACY_DEFAULT_SELECTION_BORDER_COLOR@) ==> r@ == DEFAULT_SELECTION_BORDER_COLOR@
            &&& (spec_is_valid_hex_color(v@) && !is_former_default(u)) ==> r@ == u
            &&& !spec_is_valid_hex_color(v@) ==> r@ == default@
        },
        value is None ==> r@ == default@,
{
    proof {
        if let Some(v) = value {
            lemma_stored_normalize_migrates(v@, default@);
        }
    }
    let value = match value {
        Some(v) => v,
        None => return string_of(chars_of(default).as_slice()),
    };
    let u = uppercased(trimmed(chars_of(value).as_slice()).as_slice());
    let t = trimmed(u.as_slice());
    if is_hex_color_chars(t.as_slice()) {
        let m = migrate_default(u);
        string_of(m.as_slice())
    } else {
        string_of(chars_of(default).as_slice())
    }
}

/// Rewrites an `#AARRGGBB` color as `#RRGGBBAA`, keeps `#RRGGBB`, and gives `default`
/// for anything invalid.
pub fn argb_to_rgba_hex(value: &str, default: &str) -> (r: String)
    ensures
        r@ == spec_argb_to_rgba(value@, default@),
{
    let u = uppercased(trimmed(chars_of(value).as_slice()).as_slice());
    let t = trimmed(u.as_slice());
    if !is_hex_color_chars(t.as_slice()) {
        return string_of(chars_of(default).as_slice());
    }
    if u.len() == 9 {
        let mut out = String::new();
        out.push('#');
        crate::text::push_chars(&mut out, copy_range(u.as_slice(), 3, 9).as_slice());
        crate::text::push_chars(&mut out, copy_range(u.as_slice(), 1, 3).as_slice());
        proof {
            assert(out@ =~= seq!['#'] + u@.subrange(3, 9) + u@.subrange(1, 3));
        }
        out
    } else {
        string_of(u.as_slice())
    }
}

/// The value of a hex digit.
fn hex_digit_value(c: char) -> (v: u8)
    requires
        is_ascii_hexdigit(c),
    ensures
        v == hex_value(c),
{
    let n = c as u32;
    if '0' <= c && c <= '9' {
        (n - 48) as u8
    } else if 'a' <= c && c <= 'f' {
        (n - 97 + 10) as u8
    } else {
        (n - 65 + 10) as u8
    }
}

/// The byte spelled by two hex digits.
fn hex_pair(high: char, low: char) -> (b: u8)
    requires
        is_ascii_hexdigit(high),
        is_ascii_hexdigit(low),
    ensures
        b == hex_byte(high, low),
{
    let h = hex_digit_value(high);
    let l = hex_digit_value(low);
    h * 16 + l
}

/// The color a normalized color text spells.
fn rgba_of_text(t: &[char]) -> (c: RgbaColor)
    requires
        is_hex_color_text(t@),
    ensures
        c == spec_rgba_of_text(t@),
{
    let red = hex_pair(t[1], t[2]);
    let green = hex_pair(t[3], t[4]);
    let blue = hex_pair(t[5], t[6]);
    let alpha = if t.len() == 9 {
        hex_pair(t[7], t[8])
    } else {
        255
    };
    RgbaColor { red, green, blue, alpha }
}

/// The normalized form of a valid color is itself valid color text.
proof fn lemma_normalized_is_text(value: Seq<char>, default: Seq<char>)
    requires
        is_hex_color_text(default),
    ensures
        is_hex_color_text(spec_normalize(Some(value), default)),
        is_hex_color_text(spec_normalize_stored(Some(value), default)),
{
    lemma_upper_trim_fixed(value);
    lemma_defaults_are_text();
}

/// Every default color is color text, which the color reader can take apart.
pub proof fn lemma_defaults_are_text()
    ensures
        is_hex_color_text(DEFAULT_GRID_COLOR@),
        is_hex_color_text(DEFAULT_SELECTION_COLOR@),
        is_hex_color_text(DEFAULT_SELECTION_BORDER_COLOR@),
        is_readable_color(DEFAULT_GRID_COLOR@),
        is_readable_color(DEFAULT_SELECTION_COLOR@),
        is_readable_color(DEFAULT_SELECTION_BORDER_COLOR@),
{
    reveal_strlit("#FFFFFF11");
    reveal_strlit("#00FFFF11");
    reveal_strlit("#00FFFF44");
    lemma_color_text_reads(DEFAULT_GRID_COLOR@);
    lemma_color_text_reads(DEFAULT_SELECTION_COLOR@);
    lemma_color_text_reads(DEFAULT_SELECTION_BORDER_COLOR@);
}

/// `s` without its leading `#` characters, as `str::trim_start_matches('#')` leaves it.
pub open spec fn strip_hashes(s: Seq<char>) -> Seq<char>
    decreases s.len(),
{
    if s.len() > 0 && s[0] == '#' {
        strip_hashes(s.drop_first())
    } else {
        s
    }
}

pub open spec fn is_ascii_char(c: char) -> bool {
    (c as u32) < 128
}

/// What `u8::from_str_radix(_, 16)` gives for a text of the two characters `a` and `b`:
/// two hex digits, or `+` and one hex digit.
pub open spec fn parse_hex_pair(a: char, b: char) -> Option<u8> {
    if a == '+' {
        if is_ascii_hexdigit(b) {
            Some(hex_value(b) as u8)
        } else {
            None
        }
    } else if is_ascii_hexdigit(a) && is_ascii_hexdigit(b) {
        Some(hex_byte(a, b))
    } else {
        None
    }
}

/// A channel that does not parse is fully on.
pub open spec fn or_opaque(v: Option<u8>) -> u8 {
    match v {
        Some(b) => b,
        None => 255,
    }
}

/// A text the color reader can take apart: after its leading `#`s it has at least six
/// characters, and the first six are ASCII.
pub open spec fn is_readable_color(t: Seq<char>) -> bool {
    let h = strip_hashes(t);
    h.len() >= 6 && forall|i: int| 0 <= i < 6 ==> is_ascii_char(#[trigger] h[i])
}

/// The drawing color the color reader makes of a text: leading `#`s dropped, then red,
/// green and blue from the first three pairs of characters and, when exactly eight are
/// left, alpha from the fourth; a pair that does not parse gives 255.
pub open spec fn spec_rgba_of_setting(t: Seq<char>) -> RgbaColor {
    let h = strip_hashes(t);
    RgbaColor {
        red: or_opaque(parse_hex_pair(h[0], h[1])),
        green: or_opaque(parse_hex_pair(h[2], h[3])),
        blue: or_opaque(parse_hex_pair(h[4], h[5])),
        alpha: if h.len() == 8 {
            or_opaque(parse_hex_pair(h[6], h[7]))
        } else {
            255
        },
    }
}

/// On color text the reader gives the color the text spells.
pub proof fn lemma_color_text_reads(t: Seq<char>)
    requires
        is_hex_color_text(t),
    ensures
        is_readable_color(t),
        spec_rgba_of_setting(t) == spec_rgba_of_text(t),
{
    let h = t.drop_first();
    assert(is_ascii_hexdigit(t[1]));
    assert(strip_hashes(h) == h);
    assert(strip_hashes(t) == h);
    assert forall|i: int| 0 <= i < h.len() implies is_ascii_hexdigit(#[trigger] h[i]) && h[i]
        != '+' && is_ascii_char(h[i]) by {
        assert(h[i] == t[i + 1]);
        assert(is_ascii_hexdigit(t[i + 1]));
    }
}

/// Where leading `#`s end.
fn hash_prefix_len(t: &[char]) -> (n: usize)
    ensures
        n <= t.len(),
        t@.skip(n as int) == strip_hashes(t@),
{
    let mut i: usize = 0;
    proof {
        assert(t@.skip(0) == t@);
    }
    while i < t.len() && t[i] == '#'
        invariant
            i <= t.len(),
            strip_hashes(t@.skip(i as int)) == strip_hashes(t@),
        decreases t.len() - i,
    {
        proof {
            assert(t@.skip(i as int).drop_first() == t@.skip(i + 1));
        }
        i += 1;
    }
    i
}

fn parse_pair(a: char, b: char) -> (r: Option<u8>)
    ensures
        r == parse_hex_pair(a, b),
{
    if a == '+' {
        if char_is_hexdigit(b) {
            Some(hex_digit_value(b))
        } else {
            None
        }
    } else if char_is_hexdigit(a) && char_is_hexdigit(b) {
        Some(hex_pair(a, b))
    } else {
        None
    }
}

fn or_full(v: Option<u8>) -> (b: u8)
    ensures
        b == or_opaque(v),
{
    match v {
        Some(b) => b,
        None => 255,
    }
}

/// The drawing color the color reader makes of a readable text.
fn rgba_of_setting(t: &[char]) -> (c: RgbaColor)
    requires
        is_readable_color(t@),
    ensures
        c == spec_rgba_of_setting(t@),
{
    let n = hash_prefix_len(t);
    let h = copy_range(t, n, t.len());
    proof {
        assert(h@ == strip_hashes(t@));
    }
    let red = or_full(parse_pair(h[0], h[1]));
    let green = or_full(parse_pair(h[2], h[3]));
    let blue = or_full(parse_pair(h[4], h[5]));
    let alpha = if h.len() == 8 {
        or_full(parse_pair(h[6], h[7]))
    } else {
        255
    };
    RgbaColor { red, green, blue, alpha }
}

/// The drawing color a color setting stands for: the setting when it is a valid color,
/// else what the color reader makes of `default`.
pub fn rgba_from_hex(value: &str, default: &str) -> (c: RgbaColor)
    requires
        spec_is_valid_hex_color(value@) || is_readable_color(default@),
    ensures
        c == spec_rgba_of_setting(spec_normalize(Some(value@), default@)),
        is_hex_color_text(default@) ==> c == spec_rgba_of_text(
            spec_normalize(Some(value@), default@),
        ),
{
    let normalized = normalize_hex_color(Some(value), default);
    let n = chars_of(normalized.as_str());
    proof {
        lemma_upper_keeps_validity(value@);
        lemma_upper_trim_fixed(value@);
        if spec_is_valid_hex_color(value@) {
            lemma_color_text_reads(n@);
        }
        if is_hex_color_text(default@) {
            lemma_normalized_is_text(value@, default@);
            lemma_color_text_reads(n@);
        }
    }
    rgba_of_setting(n.as_slice())
}

/// The `COLORREF` of a color setting, with the default grid color in place of an invalid one.
pub fn colorref_from_hex(value: &str) -> (c: Option<u32>)
    ensures
        c == Some(
            {
                let t = spec_normalize(Some(value@), DEFAULT_GRID_COLOR@);
                spec_rgb(hex_byte(t[1], t[2]), hex_byte(t[3], t[4]), hex_byte(t[5], t[6]))
            },
        ),
{
    proof {
        lemma_defaults_are_text();
    }
    let color = rgba_from_hex(value, DEFAULT_GRID_COLOR);
    Some(rgb(color.red, color.green, color.blue))
}

/// A color text that normalizing leaves as it is: `#RRGGBB` or `#RRGGBBAA` in upper case.
pub open spec fn is_settled_color(c: Seq<char>) -> bool {
    is_hex_color_text(c) && to_ascii_upper(c) == c
}

proof fn lemma_color_text_trimmed(c: Seq<char>)
    requires
        is_hex_color_text(c),
    ensures
        is_trimmed(c),
        trim(c) == c,
{
    assert(is_ascii_hexdigit(c[c.len() - 1]));
    lemma_trimmed_fixed(c);
}

proof fn lemma_upper_idempotent(s: Seq<char>)
    ensures
        to_ascii_upper(to_ascii_upper(s)) == to_ascii_upper(s),
{
    assert forall|i: int| 0 <= i < s.len() implies #[trigger] ascii_upper(ascii_upper(s[i]))
        == ascii_upper(s[i]) by {
        let c = s[i];
        if 'a' <= c && c <= 'z' {
            assert(ascii_upper(c) as u32 == c as u32 - 32);
        }
    }
    assert(to_ascii_upper(to_ascii_upper(s)) =~= to_ascii_upper(s));
}

/// A settled color is its own normalization, and also its own stored normalization when
/// it is not a color that used to be a default.
pub proof fn lemma_settled_color_fixed(c: Seq<char>, default: Seq<char>)
    requires
        is_settled_color(c),
    ensures
        spec_normalize(Some(c), default) == c,
        migrate_default_color(c) == c ==> spec_normalize_stored(Some(c), default) == c,
{
    lemma_color_text_trimmed(c);
}

/// Normalizing a color setting twice gives what normalizing it once gives, for a default
/// that is itself a settled color (as every default of the library is).
pub proof fn lemma_normalize_idempotent(value: Option<Seq<char>>, default: Seq<char>)
    requires
        is_settled_color(default),
    ensures
        is_settled_color(spec_normalize(value, default)),
        spec_normalize(Some(spec_normalize(value, default)), default) == spec_normalize(
            value,
            default,
        ),
{
    if let Some(v) = value {
        let u = to_ascii_upper(trim(v));
        lemma_upper_trim_fixed(v);
        lemma_upper_idempotent(trim(v));
        if spec_is_valid_hex_color(u) {
            assert(trim(u) == u);
            assert(is_settled_color(u));
        }
        lemma_settled_color_fixed(spec_normalize(value, default), default);
    } else {
        lemma_settled_color_fixed(default, default);
    }
}

/// Every default color is settled.
pub proof fn lemma_defaults_settled()
    ensures
        is_settled_color(DEFAULT_GRID_COLOR@),
        is_settled_color(DEFAULT_SELECTION_COLOR@),
        is_settled_color(DEFAULT_SELECTION_BORDER_COLOR@),
{
    reveal_strlit("#FFFFFF11");
    reveal_strlit("#00FFFF11");
    reveal_strlit("#00FFFF44");
    assert(to_ascii_upper(DEFAULT_GRID_COLOR@) =~= DEFAULT_GRID_COLOR@);
    assert(to_ascii_upper(DEFAULT_SELECTION_COLOR@) =~= DEFAULT_SELECTION_COLOR@);
    assert(to_ascii_upper(DEFAULT_SELECTION_BORDER_COLOR@) =~= DEFAULT_SELECTION_BORDER_COLOR@);
}

/// A settled color is a valid color setting.
pub proof fn lemma_settled_is_valid(c: Seq<char>)
    requires
        is_settled_color(c),
    ensures
        spec_is_valid_hex_color(c),
{
    lemma_color_text_trimmed(c);
}

proof fn lemma_upper_char_classes(c: char)
    ensures
        (ascii_upper(c) == '#') == (c == '#'),
        is_ascii_hexdigit(ascii_upper(c)) == is_ascii_hexdigit(c),
{
    if 'a' <= c && c <= 'z' {
        assert(ascii_upper(c) as u32 == c as u32 - 32);
    }
}

/// Upper-casing a trimmed setting keeps it valid and keeps it invalid: a color setting is
/// valid exactly when its trimmed, upper-cased form is.
pub proof fn lemma_upper_keeps_validity(v: Seq<char>)
    ensures
        spec_is_valid_hex_color(to_ascii_upper(trim(v))) == spec_is_valid_hex_color(v),
        is_hex_color_text(to_ascii_upper(trim(v))) == is_hex_color_text(trim(v)),
{
    let t = trim(v);
    let u = to_ascii_upper(t);
    lemma_upper_trim_fixed(v);
    assert forall|i: int| 0 <= i < t.len() implies (#[trigger] u[i] == '#') == (t[i] == '#')
        && is_ascii_hexdigit(u[i]) == is_ascii_hexdigit(t[i]) by {
        lemma_upper_char_classes(t[i]);
    }
    if is_hex_color_text(t) {
        assert(u[0] == '#');
        assert forall|i: int| 1 <= i < u.len() implies is_ascii_hexdigit(#[trigger] u[i]) by {
            assert(is_ascii_hexdigit(t[i]));
        }
    }
    if is_hex_color_text(u) {
        assert(t[0] == '#') by {
            assert(u[0] == '#');
        }
        assert forall|i: int| 1 <= i < t.len() implies is_ascii_hexdigit(#[trigger] t[i]) by {
            assert(is_ascii_hexdigit(u[i]));
        }
    }
}

/// Normalizing gives the default exactly for a missing setting or one that is not a valid
/// color, and otherwise the setting trimmed and upper-cased, which is a settled color; so
/// for a settled default, the result is always valid and normalizing it again changes
/// nothing.
pub proof fn lemma_normalize_result(value: Option<Seq<char>>, default: Seq<char>)
    requires
        is_settled_color(default),
    ensures
        match value {
            Some(v) if spec_is_valid_hex_color(v) => spec_normalize(value, default)
                == to_ascii_upper(trim(v)),
            _ => spec_normalize(value, default) == default,
        },
        spec_is_valid_hex_color(spec_normalize(value, default)),
        is_settled_color(spec_normalize(value, default)),
        to_ascii_upper(spec_normalize(value, default)) == spec_normalize(value, default),
        spec_normalize(Some(spec_normalize(value, default)), default) == spec_normalize(
            value,
            default,
        ),
{
    if let Some(v) = value {
        lemma_upper_keeps_validity(v);
    }
    lemma_normalize_idempotent(value, default);
    lemma_settled_is_valid(spec_normalize(value, default));
}

/// One of the six colors that used to be defaults (grid, selection and border, of both
/// earlier sets of defaults).
pub open spec fn is_former_default(u: Seq<char>) -> bool {
    ||| u == PREVIOUS_DEFAULT_GRID_COLOR@
    ||| u == LEGACY_DEFAULT_GRID_COLOR@
    ||| u == PREVIOUS_DEFAULT_SELECTION_COLOR@
    ||| u == LEGACY_DEFAULT_SELECTION_COLOR@
    ||| u == PREVIOUS_DEFAULT_SELECTION_BORDER_COLOR@
    ||| u == LEGACY_DEFAULT_SELECTION_BORDER_COLOR@
}

/// The six former defaults are color text, and they differ from one another.
proof fn lemma_former_defaults_text()
    ensures
        is_hex_color_text(PREVIOUS_DEFAULT_GRID_COLOR@),
        is_hex_color_text(LEGACY_DEFAULT_GRID_COLOR@),
        is_hex_color_text(PREVIOUS_DEFAULT_SELECTION_COLOR@),
        is_hex_color_text(LEGACY_DEFAULT_SELECTION_COLOR@),
        is_hex_color_text(PREVIOUS_DEFAULT_SELECTION_BORDER_COLOR@),
        is_hex_color_text(LEGACY_DEFAULT_SELECTION_BORDER_COLOR@),
        PREVIOUS_DEFAULT_GRID_COLOR@ != PREVIOUS_DEFAULT_SELECTION_COLOR@,
        PREVIOUS_DEFAULT_GRID_COLOR@ != LEGACY_DEFAULT_SELECTION_COLOR@,
        PREVIOUS_DEFAULT_GRID_COLOR@ != PREVIOUS_DEFAULT_SELECTION_BORDER_COLOR@,
        PREVIOUS_DEFAULT_GRID_COLOR@ != LEGACY_DEFAULT_SELECTION_BORDER_COLOR@,
        LEGACY_DEFAULT_GRID_COLOR@ != PREVIOUS_DEFAULT_SELECTION_COLOR@,
        LEGACY_DEFAULT_GRID_COLOR@ != LEGACY_DEFAULT_SELECTION_COLOR@,
        LEGACY_DEFAULT_GRID_COLOR@ != PREVIOUS_DEFAULT_SELECTION_BORDER_COLOR@,
        LEGACY_DEFAULT_GRID_COLOR@ != LEGACY_DEFAULT_SELECTION_BORDER_COLOR@,
        PREVIOUS_DEFAULT_SELECTION_COLOR@ != PREVIOUS_DEFAULT_SELECTION_BORDER_COLOR@,
        PREVIOUS_DEFAULT_SELECTION_COLOR@ != LEGACY_DEFAULT_SELECTION_BORDER_COLOR@,
        LEGACY_DEFAULT_SELECTION_COLOR@ != PREVIOUS_DEFAULT_SELECTION_BORDER_COLOR@,
        LEGACY_DEFAULT_SELECTION_COLOR@ != LEGACY_DEFAULT_SELECTION_BORDER_COLOR@,
{
    reveal_strlit("#FFFFFF22");
    reveal_strlit("#22FFFFFF");
    reveal_strlit("#00FFFF22");
    reveal_strlit("#2200FFFF");
    reveal_strlit("#00FFFF88");
    reveal_strlit("#8800FFFF");
    assert(PREVIOUS_DEFAULT_GRID_COLOR@[1] != PREVIOUS_DEFAULT_SELECTION_COLOR@[1]);
    assert(PREVIOUS_DEFAULT_GRID_COLOR@[1] != LEGACY_DEFAULT_SELECTION_COLOR@[1]);
    assert(PREVIOUS_DEFAULT_GRID_COLOR@[1] != PREVIOUS_DEFAULT_SELECTION_BORDER_COLOR@[1]);
    assert(PREVIOUS_DEFAULT_GRID_COLOR@[1] != LEGACY_DEFAULT_SELECTION_BORDER_COLOR@[1]);
    assert(LEGACY_DEFAULT_GRID_COLOR@[2] != PREVIOUS_DEFAULT_SELECTION_COLOR@[2]);
    assert(LEGACY_DEFAULT_GRID_COLOR@[3] != LEGACY_DEFAULT_SELECTION_COLOR@[3]);
    assert(LEGACY_DEFAULT_GRID_COLOR@[2] != PREVIOUS_DEFAULT_SELECTION_BORDER_COLOR@[2]);
    assert(LEGACY_DEFAULT_GRID_COLOR@[1] != LEGACY_DEFAULT_SELECTION_BORDER_COLOR@[1]);
    assert(PREVIOUS_DEFAULT_SELECTION_COLOR@[7] != PREVIOUS_DEFAULT_SELECTION_BORDER_COLOR@[7]);
    assert(PREVIOUS_DEFAULT_SELECTION_COLOR@[1] != LEGACY_DEFAULT_SELECTION_BORDER_COLOR@[1]);
    assert(LEGACY_DEFAULT_SELECTION_COLOR@[1] != PREVIOUS_DEFAULT_SELECTION_BORDER_COLOR@[1]);
    assert(LEGACY_DEFAULT_SELECTION_COLOR@[1] != LEGACY_DEFAULT_SELECTION_BORDER_COLOR@[1]);
}

/// Loading a stored color moves each former default to the current default of its kind,
/// and keeps (trimmed and upper-cased) every other valid color; an invalid color gives
/// `default`.
pub proof fn lemma_stored_normalize_migrates(v: Seq<char>, default: Seq<char>)
    ensures
        ({
            let u = to_ascii_upper(trim(v));
            let r = spec_normalize_stored(Some(v), default);
            &&& (u == PREVIOUS_DEFAULT_GRID_COLOR@ || u == LEGACY_DEFAULT_GRID_COLOR@) ==> r
                == DEFAULT_GRID_COLOR@
            &&& (u == PREVIOUS_DEFAULT_SELECTION_COLOR@ || u == LEGACY_DEFAULT_SELECTION_COLOR@)
                ==> r == DEFAULT_SELECTION_COLOR@
            &&& (u == PREVIOUS_DEFAULT_SELECTION_BORDER_COLOR@ || u
                == LEGACY_DEFAULT_SELECTION_BORDER_COLOR@) ==> r == DEFAULT_SELECTION_BORDER_COLOR@
            &&& (spec_is_valid_hex_color(v) && !is_former_default(u)) ==> r == u
            &&& !spec_is_valid_hex_color(v) ==> r == default
        }),
{
    let u = to_ascii_upper(trim(v));
    lemma_upper_keeps_validity(v);
    lemma_upper_trim_fixed(v);
    lemma_former_defaults_text();
    if is_former_default(u) {
        lemma_color_text_trimmed(u);
    }
}

} // verus!
