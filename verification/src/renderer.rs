//! 720x1280 BGRA8888 software canvas: theme colors, dashboard sections and rectangle fills.
use vstd::prelude::*;
use vstd::string::StringExecFns;
use crate::media::{blitted, copy_image_to_bgra_buffer};
use crate::picture::{
    crop, crop_box, cropped, fit_size, minus_or_zero, triangle_resized, resize_exact, resize_fit, ResizeFilter,
    RgbaImage,
};
use crate::text::{
    ascii_lower, hex_digit_str, hex_upper, chars_of, hex_digit, hex_value, is_whitespace, lower_equals, parse_u8_dec,
    parse_u8_hex, parse_u8_in, trim, trim_back, trim_bounds, trim_front, unsigned_digits,
    decimal, lemma_decimal_parses_u8, lemma_decimal_reads_back,
};

verus! {

pub const WIDTH: usize = 720;

pub const HEIGHT: usize = 1280;

pub const BUFFER_SIZE: usize = 3_686_400;

/// Accent color of the dashboard.
#[derive(Debug, Clone, Copy, PartialEq, Eq)]
pub enum ThemeColor {
    RogRed,
    CyberCyan,
    MatrixGreen,
    AmberGold,
    NeonPurple,
    Custom([u8; 3]),
}

/// The accent color of `c` as [R, G, B].
pub open spec fn theme_rgb(c: ThemeColor) -> Seq<u8> {
    match c {
        ThemeColor::RogRed => seq![0xeeu8, 0x22u8, 0x22u8],
        ThemeColor::CyberCyan => seq![0x00u8, 0xeeu8, 0xeeu8],
        ThemeColor::MatrixGreen => seq![0x33u8, 0xeeu8, 0x33u8],
        ThemeColor::AmberGold => seq![0xffu8, 0xb0u8, 0x00u8],
        ThemeColor::NeonPurple => seq![0xaau8, 0x33u8, 0xeeu8],
        ThemeColor::Custom(rgb) => rgb@,
    }
}

/// The accent color of `c` as [B, G, R, A].
pub open spec fn theme_accent_bgra(c: ThemeColor) -> Seq<u8> {
    match c {
        ThemeColor::RogRed => seq![0x22u8, 0x22u8, 0xeeu8, 0xffu8],
        ThemeColor::CyberCyan => seq![0xeeu8, 0xeeu8, 0x00u8, 0xffu8],
        ThemeColor::MatrixGreen => seq![0x33u8, 0xeeu8, 0x33u8, 0xffu8],
        ThemeColor::AmberGold => seq![0x00u8, 0xb0u8, 0xffu8, 0xffu8],
        ThemeColor::NeonPurple => seq![0xeeu8, 0x33u8, 0xaau8, 0xffu8],
        ThemeColor::Custom(rgb) => seq![rgb[2], rgb[1], rgb[0], 0xffu8],
    }
}

/// The two upper-case hexadecimal digits of a byte.
pub open spec fn byte_hex(b: u8) -> Seq<char> {
    seq![hex_upper((b / 16) as int), hex_upper((b % 16) as int)]
}

/// `#RRGGBB` of three color channels.
pub open spec fn hex_code(rgb: Seq<u8>) -> Seq<char> {
    seq!['#'] + byte_hex(rgb[0]) + byte_hex(rgb[1]) + byte_hex(rgb[2])
}

/// The display label of `c`.
pub open spec fn theme_label(c: ThemeColor) -> Seq<char> {
    match c {
        ThemeColor::RogRed => "ROG Red"@,
        ThemeColor::CyberCyan => "Cyber Cyan"@,
        ThemeColor::MatrixGreen => "Matrix Green"@,
        ThemeColor::AmberGold => "Amber Gold"@,
        ThemeColor::NeonPurple => "Neon Purple"@,
        ThemeColor::Custom(rgb) => "Custom ("@ + hex_code(rgb@) + ")"@,
    }
}

/// `t`, ASCII letters lowercased, spells `word`.
pub open spec fn is_word(t: Seq<char>, word: Seq<char>) -> bool {
    t.map_values(|c: char| ascii_lower(c)) == word
}

/// The preset that a (trimmed) name selects, compared without regard to case.
pub open spec fn preset_named(t: Seq<char>) -> Option<ThemeColor> {
    if is_word(t, "red"@) || is_word(t, "rog"@) || is_word(t, "rogred"@) {
        Some(ThemeColor::RogRed)
    } else if is_word(t, "cyan"@) || is_word(t, "cyber"@) || is_word(t, "cybercyan"@) {
        Some(ThemeColor::CyberCyan)
    } else if is_word(t, "green"@) || is_word(t, "matrix"@) || is_word(t, "matrixgreen"@) {
        Some(ThemeColor::MatrixGreen)
    } else if is_word(t, "amber"@) || is_word(t, "gold"@) || is_word(t, "ambergold"@) {
        Some(ThemeColor::AmberGold)
    } else if is_word(t, "purple"@) || is_word(t, "neon"@) || is_word(t, "neonpurple"@) {
        Some(ThemeColor::NeonPurple)
    } else {
        None
    }
}

/// `t` without one leading `#`.
pub open spec fn hex_body(t: Seq<char>) -> Seq<char> {
    if t.len() > 0 && t[0] == '#' {
        t.drop_first()
    } else {
        t
    }
}

/// Every character of `t` is ASCII.
pub open spec fn all_ascii(t: Seq<char>) -> bool {
    forall|i: int| 0 <= i < t.len() ==> t[i] < '\u{80}'
}

/// The three channels of a six-digit hex code, when each pair parses.
pub open spec fn hex_channels(h: Seq<char>) -> Option<Seq<u8>> {
    if all_ascii(h) && h.len() == 6 {
        match (
            parse_u8_hex(h.subrange(0, 2)),
            parse_u8_hex(h.subrange(2, 4)),
            parse_u8_hex(h.subrange(4, 6)),
        ) {
            (Some(r), Some(g), Some(b)) => Some(seq![r, g, b]),
            _ => None,
        }
    } else {
        None
    }
}

/// `t` with a surrounding `rgb(` ... `)` removed, when both are there.
pub open spec fn rgb_body(t: Seq<char>) -> Seq<char> {
    if t.len() >= 5 && t.take(4) == "rgb("@ && t.last() == ')' {
        t.subrange(4, t.len() - 1)
    } else {
        t
    }
}

/// The positions of the commas of `t`, in increasing order.
pub open spec fn comma_positions(t: Seq<char>) -> Seq<int>
    decreases t.len(),
{
    if t.len() == 0 {
        Seq::empty()
    } else {
        let p = comma_positions(t.drop_last());
        if t.last() == ',' {
            p.push(t.len() - 1)
        } else {
            p
        }
    }
}

/// The three channels of `a, b, c` (decimal, each part trimmed), when there are exactly
/// three comma-separated parts and each parses.
pub open spec fn decimal_channels(t: Seq<char>) -> Option<Seq<u8>> {
    let p = comma_positions(t);
    if p.len() == 2 {
        match (
            parse_u8_dec(trim(t.take(p[0]))),
            parse_u8_dec(trim(t.subrange(p[0] + 1, p[1]))),
            parse_u8_dec(trim(t.skip(p[1] + 1))),
        ) {
            (Some(r), Some(g), Some(b)) => Some(seq![r, g, b]),
            _ => None,
        }
    } else {
        None
    }
}

/// What `ThemeColor::parse` gives for the characters `s`: a preset name (any case), else
/// a hex code `#RRGGBB` or `RRGGBB`, else `R, G, B` or `rgb(R, G, B)`.
pub open spec fn parse_theme(s: Seq<char>) -> Option<ThemeColor> {
    let t = trim(s);
    match preset_named(t) {
        Some(c) => Some(c),
        None => match hex_channels(hex_body(t)) {
            Some(rgb) => Some(ThemeColor::Custom([rgb[0], rgb[1], rgb[2]])),
            None => match decimal_channels(rgb_body(t)) {
                Some(rgb) => Some(ThemeColor::Custom([rgb[0], rgb[1], rgb[2]])),
                None => None,
            },
        },
    }
}

/// Appends `#RRGGBB` to `out`.
fn append_hex_code(out: &mut String, rgb: [u8; 3])
    ensures
        final(out)@ == old(out)@ + hex_code(rgb@),
{
    proof {
        reveal_strlit("#");
    }
    out.append("#");
    let mut k: usize = 0;
    while k < 3
        invariant
            k <= 3,
            out@ == old(out)@ + seq!['#'] + (if k == 0 {
                Seq::empty()
            } else if k == 1 {
                byte_hex(rgb@[0])
            } else if k == 2 {
                byte_hex(rgb@[0]) + byte_hex(rgb@[1])
            } else {
                byte_hex(rgb@[0]) + byte_hex(rgb@[1]) + byte_hex(rgb@[2])
            }),
        decreases 3 - k,
    {
        let b = rgb[k];
        out.append(hex_digit_str(b / 16));
        out.append(hex_digit_str(b % 16));
        proof {
            if k == 0 {
                assert(out@ =~= old(out)@ + seq!['#'] + byte_hex(rgb@[0]));
            } else if k == 1 {
                assert(out@ =~= old(out)@ + seq!['#'] + (byte_hex(rgb@[0]) + byte_hex(rgb@[1])));
            } else {
                assert(out@ =~= old(out)@ + seq!['#'] + (byte_hex(rgb@[0]) + byte_hex(rgb@[1])
                    + byte_hex(rgb@[2])));
            }
        }
        k = k + 1;
    }
    assert(out@ =~= old(out)@ + hex_code(rgb@));
}

impl ThemeColor {
    /// Returns the primary accent color as [B, G, R, A].
    pub fn accent_bgra(&self) -> (r: [u8; 4])
        ensures
            r@ == theme_accent_bgra(*self),
    {
        let r = match self {
            Self::RogRed => [0x22, 0x22, 0xee, 0xff],  // Bright Red
            Self::CyberCyan => [0xee, 0xee, 0x00, 0xff],  // Cyan
            Self::MatrixGreen => [0x33, 0xee, 0x33, 0xff],  // Neon Green
            Self::AmberGold => [0x00, 0xb0, 0xff, 0xff],  // Amber Gold
            Self::NeonPurple => [0xee, 0x33, 0xaa, 0xff],  // Purple
            Self::Custom(rgb) => [rgb[2], rgb[1], rgb[0], 0xff],  // Custom RGB -> BGRA
        };
        assert(r@ =~= theme_accent_bgra(*self));
        r
    }

    /// Returns the primary accent color as [R, G, B].
    pub fn rgb(&self) -> (r: [u8; 3])
        ensures
            r@ == theme_rgb(*self),
    {
        let r = match self {
            Self::RogRed => [0xee, 0x22, 0x22],
            Self::CyberCyan => [0x00, 0xee, 0xee],
            Self::MatrixGreen => [0x33, 0xee, 0x33],
            Self::AmberGold => [0xff, 0xb0, 0x00],
            Self::NeonPurple => [0xaa, 0x33, 0xee],
            Self::Custom(rgb) => *rgb,
        };
        assert(r@ =~= theme_rgb(*self));
        r
    }

    /// Returns the hex code string for this theme color, e.g. "#EE2222".
    pub fn hex(&self) -> (r: String)
        ensures
            r@ == hex_code(theme_rgb(*self)),
    {
        let rgb = self.rgb();
        let mut out = String::new();
        append_hex_code(&mut out, rgb);
        assert(out@ =~= hex_code(theme_rgb(*self)));
        out
    }

    /// Returns the human-readable display label for this theme color.
    pub fn label(&self) -> (r: String)
        ensures
            r@ == theme_label(*self),
    {
        let mut out = String::new();
        match self {
            Self::RogRed => out.append("ROG Red"),
            Self::CyberCyan => out.append("Cyber Cyan"),
            Self::MatrixGreen => out.append("Matrix Green"),
            Self::AmberGold => out.append("Amber Gold"),
            Self::NeonPurple => out.append("Neon Purple"),
            Self::Custom(rgb) => {
                out.append("Custom (");
                append_hex_code(&mut out, *rgb);
                out.append(")");
            },
        }
        assert(out@ =~= theme_label(*self));
        out
    }

    /// Returns the background canvas color as [B, G, R, A].
    pub fn bg_bgra(&self) -> (r: [u8; 4])
        ensures
            r@ == seq![0x12u8, 0x10u8, 0x10u8, 0xffu8],
    {
        let r = [0x12, 0x10, 0x10, 0xff];  // Deep dark background
        assert(r@ =~= seq![0x12u8, 0x10u8, 0x10u8, 0xffu8]);
        r
    }

    /// Returns the card surface color as [B, G, R, A].
    pub fn card_bgra(&self) -> (r: [u8; 4])
        ensures
            r@ == seq![0x24u8, 0x20u8, 0x20u8, 0xffu8],
    {
        let r = [0x24, 0x20, 0x20, 0xff];  // Card background
        assert(r@ =~= seq![0x24u8, 0x20u8, 0x20u8, 0xffu8]);
        r
    }

    /// Parses a theme color from a preset name, hex string, or RGB triplet.
    pub fn parse(s: &str) -> (r: Option<Self>)
        ensures
            r == parse_theme(s@),
    {
        let v = chars_of(s);
        let (a, b) = trim_bounds(&v, 0, v.len());
        assert(v@.subrange(0, v@.len() as int) =~= v@);
        let preset = Self::preset_in(&v, a, b);
        if preset.is_some() {
            return preset;
        }
        // Hex code, with or without '#'
        let hexed = Self::hex_color_in(&v, a, b);
        if hexed.is_some() {
            return hexed;
        }
        // Decimal triplet, with or without rgb( ... )
        let (ra, rb) = Self::rgb_bounds(&v, a, b);
        Self::decimal_triplet(&v, ra, rb)
    }

    /// The preset that `v[a..b]` names, compared without regard to ASCII case.
    fn preset_in(v: &Vec<char>, a: usize, b: usize) -> (r: Option<Self>)
        requires
            a <= b <= v@.len(),
        ensures
            r == preset_named(v@.subrange(a as int, b as int)),
    {
        if lower_equals(v, a, b, "red") || lower_equals(v, a, b, "rog") || lower_equals(
            v,
            a,
            b,
            "rogred",
        ) {
            return Some(Self::RogRed);
        }
        if lower_equals(v, a, b, "cyan") || lower_equals(v, a, b, "cyber") || lower_equals(
            v,
            a,
            b,
            "cybercyan",
        ) {
            return Some(Self::CyberCyan);
        }
        if lower_equals(v, a, b, "green") || lower_equals(v, a, b, "matrix") || lower_equals(
            v,
            a,
            b,
            "matrixgreen",
        ) {
            return Some(Self::MatrixGreen);
        }
        if lower_equals(v, a, b, "amber") || lower_equals(v, a, b, "gold") || lower_equals(
            v,
            a,
            b,
            "ambergold",
        ) {
            return Some(Self::AmberGold);
        }
        if lower_equals(v, a, b, "purple") || lower_equals(v, a, b, "neon") || lower_equals(
            v,
            a,
            b,
            "neonpurple",
        ) {
            return Some(Self::NeonPurple);
        }
        None
    }

    /// The color of a six-digit hex code in `v[a..b]`, with or without a leading `#`.
    fn hex_color_in(v: &Vec<char>, a: usize, b: usize) -> (r: Option<Self>)
        requires
            a <= b <= v@.len(),
        ensures
            r == (match hex_channels(hex_body(v@.subrange(a as int, b as int))) {
                Some(rgb) => Some(ThemeColor::Custom([rgb[0], rgb[1], rgb[2]])),
                None => None,
            }),
    {
        let ghost t = v@.subrange(a as int, b as int);
        let h = if a < b && v[a] == '#' {
            a + 1
        } else {
            a
        };
        assert(v@.subrange(h as int, b as int) == hex_body(t)) by {
            if a < b && v@[a as int] == '#' {
                assert(t.drop_first() =~= v@.subrange(h as int, b as int));
            } else {
                assert(t =~= v@.subrange(h as int, b as int));
            }
        }
        let ghost hb = hex_body(t);
        if b - h == 6 && Self::all_ascii_in(v, h, b) {
            let rr = parse_u8_in(v, h, h + 2, true);
            let gg = parse_u8_in(v, h + 2, h + 4, true);
            let bb = parse_u8_in(v, h + 4, h + 6, true);
            assert(hb.subrange(0, 2) =~= v@.subrange(h as int, h + 2));
            assert(hb.subrange(2, 4) =~= v@.subrange(h + 2, h + 4));
            assert(hb.subrange(4, 6) =~= v@.subrange(h + 4, h + 6));
            if let (Some(r), Some(g), Some(bl)) = (rr, gg, bb) {
                return Some(Self::Custom([r, g, bl]));
            }
        }
        None
    }

    /// The bounds of `v[a..b]` without a surrounding `rgb(` ... `)`.
    fn rgb_bounds(v: &Vec<char>, a: usize, b: usize) -> (r: (usize, usize))
        requires
            a <= b <= v@.len(),
        ensures
            r.0 <= r.1 <= v@.len(),
            v@.subrange(r.0 as int, r.1 as int) == rgb_body(v@.subrange(a as int, b as int)),
    {
        let ghost t = v@.subrange(a as int, b as int);
        proof {
            reveal_strlit("rgb(");
        }
        if b - a >= 5 && v[a] == 'r' && v[a + 1] == 'g' && v[a + 2] == 'b' && v[a + 3] == '('
            && v[b - 1] == ')' {
            assert(t.take(4) =~= "rgb("@);
            assert(t.subrange(4, t.len() - 1) =~= v@.subrange(a + 4, b - 1));
            (a + 4, b - 1)
        } else {
            proof {
                if t.len() >= 5 && t.take(4) == "rgb("@ {
                    assert(t.take(4)[0] == 'r' && t.take(4)[1] == 'g' && t.take(4)[2] == 'b'
                        && t.take(4)[3] == '(');
                }
            }
            (a, b)
        }
    }

    /// Whether every character of `v[from..to]` is ASCII.
    fn all_ascii_in(v: &Vec<char>, from: usize, to: usize) -> (r: bool)
        requires
            from <= to <= v@.len(),
        ensures
            r == all_ascii(v@.subrange(from as int, to as int)),
    {
        let mut k = from;
        while k < to
            invariant
                from <= k <= to <= v@.len(),
                forall|i: int| from <= i < k ==> v@[i] < '\u{80}',
            decreases to - k,
        {
            if v[k] >= '\u{80}' {
                assert(v@.subrange(from as int, to as int)[k - from] == v@[k as int]);
                return false;
            }
            k = k + 1;
        }
        assert forall|i: int| 0 <= i < to - from implies v@.subrange(from as int, to as int)[i]
            < '\u{80}' by {
            assert(v@.subrange(from as int, to as int)[i] == v@[from + i]);
        }
        true
    }

    /// Parses `v[from..to]` as three comma-separated decimal channels.
    fn decimal_triplet(v: &Vec<char>, from: usize, to: usize) -> (r: Option<Self>)
        requires
            from <= to <= v@.len(),
        ensures
            r == (match decimal_channels(v@.subrange(from as int, to as int)) {
                Some(rgb) => Some(ThemeColor::Custom([rgb[0], rgb[1], rgb[2]])),
                None => None,
            }),
    {
        let ghost t = v@.subrange(from as int, to as int);
        let mut commas: Vec<usize> = Vec::new();
        let mut k = from;
        while k < to
            invariant
                from <= k <= to <= v@.len(),
                t == v@.subrange(from as int, to as int),
                commas@.len() == comma_positions(t.take(k - from)).len(),
                forall|j: int|
                    0 <= j < commas@.len() ==> commas@[j] as int == #[trigger] comma_positions(
                        t.take(k - from),
                    )[j],
            decreases to - k,
        {
            assert(t.take(k - from + 1).drop_last() =~= t.take(k - from));
            if v[k] == ',' {
                commas.push(k - from);
            }
            k = k + 1;
        }
        assert(t.take(to - from) =~= t);
        if commas.len() != 2 {
            return None;
        }
        proof {
            lemma_comma_positions_sorted(t);
        }
        assert(commas@[0] < commas@[1] < to - from);
        let c0 = from + commas[0];
        let c1 = from + commas[1];
        let (a0, b0) = trim_bounds(v, from, c0);
        let (a1, b1) = trim_bounds(v, c0 + 1, c1);
        let (a2, b2) = trim_bounds(v, c1 + 1, to);
        assert(t.take(c0 - from) =~= v@.subrange(from as int, c0 as int));
        assert(t.subrange(c0 - from + 1, c1 - from) =~= v@.subrange(c0 + 1, c1 as int));
        assert(t.skip(c1 - from + 1) =~= v@.subrange(c1 + 1, to as int));
        let rr = parse_u8_in(v, a0, b0, false);
        let gg = parse_u8_in(v, a1, b1, false);
        let bb = parse_u8_in(v, a2, b2, false);
        match (rr, gg, bb) {
            (Some(r), Some(g), Some(b)) => Some(Self::Custom([r, g, b])),
            _ => None,
        }
    }
}

/// The comma positions are increasing and lie inside `t`.
proof fn lemma_comma_positions_sorted(t: Seq<char>)
    ensures
        forall|j: int| 0 <= j < comma_positions(t).len() ==> 0 <= #[trigger] comma_positions(t)[j] < t.len(),
        forall|j1: int, j2: int|
            0 <= j1 < j2 < comma_positions(t).len() ==> comma_positions(t)[j1] < comma_positions(
                t,
            )[j2],
    decreases t.len(),
{
    if t.len() > 0 {
        let p = comma_positions(t.drop_last());
        lemma_comma_positions_sorted(t.drop_last());
        if t.last() == ',' {
            assert forall|j: int| 0 <= j < p.len() implies comma_positions(t)[j] == p[j] by {}
        } else {
            assert(comma_positions(t) == p);
        }
    }
}

/// Law: the accent color in [B, G, R, A] is the [R, G, B] color reversed, fully opaque.
pub proof fn law_accent_is_reversed_rgb(c: ThemeColor)
    ensures
        theme_accent_bgra(c) == seq![theme_rgb(c)[2], theme_rgb(c)[1], theme_rgb(c)[0], 0xffu8],
{
    assert(theme_accent_bgra(c) =~= seq![theme_rgb(c)[2], theme_rgb(c)[1], theme_rgb(c)[0], 0xffu8]);
}


/// An upper-case hex digit reads back as its value, and is neither whitespace nor non-ASCII.
proof fn lemma_hex_upper(d: int)
    requires
        0 <= d < 16,
    ensures
        hex_digit(hex_upper(d)) == Some(d),
        !is_whitespace(hex_upper(d)),
        hex_upper(d) < '\u{80}',
        hex_upper(d) != '+' && hex_upper(d) != '-',
{
}

/// The two hex digits of a byte parse back (radix 16) to the byte.
proof fn lemma_byte_hex_parses(x: u8)
    ensures
        parse_u8_hex(byte_hex(x)) == Some(x),
{
    let s = byte_hex(x);
    lemma_hex_upper((x / 16) as int);
    lemma_hex_upper((x % 16) as int);
    assert(unsigned_digits(s) == Some(s));
    reveal_with_fuel(hex_value, 3);
    assert(s.drop_last().drop_last() =~= Seq::<char>::empty());
    assert(s.drop_last().last() == s[0]);
    assert(hex_value(s) == Some(16 * ((x / 16) as int) + (x % 16) as int));
}

/// Law: the hex code of any theme color parses back to that color as a custom RGB color.
pub proof fn law_hex_code_parses_back(c: ThemeColor)
    ensures
        parse_theme(hex_code(theme_rgb(c))) == Some(
            ThemeColor::Custom([theme_rgb(c)[0], theme_rgb(c)[1], theme_rgb(c)[2]]),
        ),
{
    let rgb = theme_rgb(c);
    assert(rgb.len() == 3);
    let h = hex_code(rgb);
    assert(h.len() == 7);
    lemma_hex_upper((rgb[0] / 16) as int);
    lemma_hex_upper((rgb[0] % 16) as int);
    lemma_hex_upper((rgb[1] / 16) as int);
    lemma_hex_upper((rgb[1] % 16) as int);
    lemma_hex_upper((rgb[2] / 16) as int);
    lemma_hex_upper((rgb[2] % 16) as int);
    // no surrounding whitespace
    assert(h[0] == '#');
    assert(trim_front(h) == h);
    assert(h.last() == hex_upper((rgb[2] % 16) as int));
    assert(trim_back(h) == h);
    assert(trim(h) == h);
    // no preset name has seven letters
    reveal_strlit("red");
    reveal_strlit("rog");
    reveal_strlit("rogred");
    reveal_strlit("cyan");
    reveal_strlit("cyber");
    reveal_strlit("cybercyan");
    reveal_strlit("green");
    reveal_strlit("matrix");
    reveal_strlit("matrixgreen");
    reveal_strlit("amber");
    reveal_strlit("gold");
    reveal_strlit("ambergold");
    reveal_strlit("purple");
    reveal_strlit("neon");
    reveal_strlit("neonpurple");
    let lowered = h.map_values(|ch: char| ascii_lower(ch));
    assert(lowered.len() == 7);
    assert(!is_word(h, "red"@) && !is_word(h, "rog"@) && !is_word(h, "rogred"@));
    assert(!is_word(h, "cyan"@) && !is_word(h, "cyber"@) && !is_word(h, "cybercyan"@));
    assert(!is_word(h, "green"@) && !is_word(h, "matrix"@) && !is_word(h, "matrixgreen"@));
    assert(!is_word(h, "amber"@) && !is_word(h, "gold"@) && !is_word(h, "ambergold"@));
    assert(!is_word(h, "purple"@) && !is_word(h, "neon"@) && !is_word(h, "neonpurple"@));
    assert(preset_named(h) is None);
    // six ASCII hex digits after the '#'
    let body = hex_body(h);
    assert(body =~= byte_hex(rgb[0]) + byte_hex(rgb[1]) + byte_hex(rgb[2]));
    assert(all_ascii(body));
    assert(body.subrange(0, 2) =~= byte_hex(rgb[0]));
    assert(body.subrange(2, 4) =~= byte_hex(rgb[1]));
    assert(body.subrange(4, 6) =~= byte_hex(rgb[2]));
    lemma_byte_hex_parses(rgb[0]);
    lemma_byte_hex_parses(rgb[1]);
    lemma_byte_hex_parses(rgb[2]);
}

/// `rgb(R, G, B)`: the three channels in decimal, as `format!("rgb({}, {}, {})", ..)` writes
/// them.
pub open spec fn rgb_text(rgb: Seq<u8>) -> Seq<char> {
    "rgb("@ + decimal(rgb[0] as nat) + ", "@ + decimal(rgb[1] as nat) + ", "@ + decimal(rgb[2] as nat)
        + ")"@
}

/// A comma-free tail adds no comma position.
proof fn lemma_commas_of_plain_tail(x: Seq<char>, y: Seq<char>)
    requires
        forall|i: int| 0 <= i < y.len() ==> y[i] != ',',
    ensures
        comma_positions(x + y) == comma_positions(x),
    decreases y.len(),
{
    if y.len() == 0 {
        assert(x + y =~= x);
    } else {
        assert((x + y).drop_last() =~= x + y.drop_last());
        lemma_commas_of_plain_tail(x, y.drop_last());
    }
}

/// A trailing comma adds its own position.
proof fn lemma_commas_of_comma(x: Seq<char>)
    ensures
        comma_positions(x + seq![',']) == comma_positions(x).push(x.len() as int),
{
    assert((x + seq![',']).drop_last() =~= x);
}

/// Law: the `rgb(R, G, B)` text of any theme color parses back to that color as a custom RGB
/// color.
pub proof fn law_rgb_text_parses_back(c: ThemeColor)
    ensures
        parse_theme(rgb_text(theme_rgb(c))) == Some(
            ThemeColor::Custom([theme_rgb(c)[0], theme_rgb(c)[1], theme_rgb(c)[2]]),
        ),
{
    let rgb = theme_rgb(c);
    assert(rgb.len() == 3);
    let dr = decimal(rgb[0] as nat);
    let dg = decimal(rgb[1] as nat);
    let db = decimal(rgb[2] as nat);
    lemma_decimal_reads_back(rgb[0] as nat);
    lemma_decimal_reads_back(rgb[1] as nat);
    lemma_decimal_reads_back(rgb[2] as nat);
    lemma_decimal_parses_u8(rgb[0]);
    lemma_decimal_parses_u8(rgb[1]);
    lemma_decimal_parses_u8(rgb[2]);
    reveal_strlit("rgb(");
    reveal_strlit(", ");
    reveal_strlit(")");
    let t = rgb_text(rgb);
    assert(t.len() >= 12);
    assert(t[0] == 'r');
    assert(t.last() == ')');
    assert(trim_front(t) == t);
    assert(trim_back(t) == t);
    assert(trim(t) == t);
    // longer than any preset name
    reveal_strlit("red");
    reveal_strlit("rog");
    reveal_strlit("rogred");
    reveal_strlit("cyan");
    reveal_strlit("cyber");
    reveal_strlit("cybercyan");
    reveal_strlit("green");
    reveal_strlit("matrix");
    reveal_strlit("matrixgreen");
    reveal_strlit("amber");
    reveal_strlit("gold");
    reveal_strlit("ambergold");
    reveal_strlit("purple");
    reveal_strlit("neon");
    reveal_strlit("neonpurple");
    let lowered = t.map_values(|ch: char| ascii_lower(ch));
    assert(lowered.len() == t.len());
    assert(preset_named(t) is None);
    // not a hex code
    assert(hex_body(t) == t);
    assert(hex_channels(hex_body(t)) is None);
    // the body between the parentheses
    assert(t.take(4) =~= "rgb("@);
    let body = rgb_body(t);
    let sg = seq![' '] + dg;
    let sb = seq![' '] + db;
    assert(body =~= dr + seq![','] + sg + seq![','] + sb);
    assert forall|i: int| 0 <= i < dr.len() implies dr[i] != ',' by {
        assert('0' <= dr[i] <= '9');
    }
    assert forall|i: int| 0 <= i < sg.len() implies sg[i] != ',' by {
        if i > 0 {
            assert(sg[i] == dg[i - 1]);
            assert('0' <= dg[i - 1] <= '9');
        }
    }
    assert forall|i: int| 0 <= i < sb.len() implies sb[i] != ',' by {
        if i > 0 {
            assert(sb[i] == db[i - 1]);
            assert('0' <= db[i - 1] <= '9');
        }
    }
    lemma_commas_of_plain_tail(Seq::<char>::empty(), dr);
    assert(Seq::<char>::empty() + dr =~= dr);
    assert(comma_positions(Seq::<char>::empty()) =~= Seq::<int>::empty());
    lemma_commas_of_comma(dr);
    let p1 = dr + seq![','];
    lemma_commas_of_plain_tail(p1, sg);
    lemma_commas_of_comma(p1 + sg);
    let p2 = p1 + sg + seq![','];
    lemma_commas_of_plain_tail(p2, sb);
    assert(body =~= p2 + sb);
    let p = comma_positions(body);
    assert(p =~= seq![dr.len() as int, (dr.len() + 1 + sg.len()) as int]);
    assert(body.take(p[0]) =~= dr);
    assert(body.subrange(p[0] + 1, p[1]) =~= sg);
    assert(body.skip(p[1] + 1) =~= sb);
}

/// `#rrggbb`: the hex code of three channels with lower-case digits, as `to_lowercase`
/// writes the code.
pub open spec fn lower_hex_code(rgb: Seq<u8>) -> Seq<char> {
    hex_code(rgb).map_values(|ch: char| ascii_lower(ch))
}

/// The two lower-case hex digits of a byte.
pub open spec fn lower_byte_hex(b: u8) -> Seq<char> {
    seq![ascii_lower(hex_upper((b / 16) as int)), ascii_lower(hex_upper((b % 16) as int))]
}

/// A lower-cased hex digit still reads as its value.
proof fn lemma_hex_lower(d: int)
    requires
        0 <= d < 16,
    ensures
        hex_digit(ascii_lower(hex_upper(d))) == Some(d),
        !is_whitespace(ascii_lower(hex_upper(d))),
        ascii_lower(hex_upper(d)) < '\u{80}',
        ascii_lower(hex_upper(d)) != '+' && ascii_lower(hex_upper(d)) != '-',
        ascii_lower(hex_upper(d)) != '#',
{
}

/// The two lower-case hex digits of a byte parse back (radix 16) to the byte.
proof fn lemma_lower_byte_hex_parses(x: u8)
    ensures
        parse_u8_hex(lower_byte_hex(x)) == Some(x),
{
    let s = lower_byte_hex(x);
    lemma_hex_lower((x / 16) as int);
    lemma_hex_lower((x % 16) as int);
    assert(unsigned_digits(s) == Some(s));
    reveal_with_fuel(hex_value, 3);
    assert(s.drop_last().drop_last() =~= Seq::<char>::empty());
    assert(s.drop_last().last() == s[0]);
    assert(hex_value(s) == Some(16 * ((x / 16) as int) + (x % 16) as int));
}

/// Law: the hex code of any theme color, written in lower case, parses back to that color as
/// a custom RGB color.
pub proof fn law_lower_hex_code_parses_back(c: ThemeColor)
    ensures
        parse_theme(lower_hex_code(theme_rgb(c))) == Some(
            ThemeColor::Custom([theme_rgb(c)[0], theme_rgb(c)[1], theme_rgb(c)[2]]),
        ),
{
    let rgb = theme_rgb(c);
    assert(rgb.len() == 3);
    let h = lower_hex_code(rgb);
    assert(h.len() == 7);
    lemma_hex_lower((rgb[0] / 16) as int);
    lemma_hex_lower((rgb[0] % 16) as int);
    lemma_hex_lower((rgb[1] / 16) as int);
    lemma_hex_lower((rgb[1] % 16) as int);
    lemma_hex_lower((rgb[2] / 16) as int);
    lemma_hex_lower((rgb[2] % 16) as int);
    // no surrounding whitespace
    assert(h[0] == '#');
    assert(trim_front(h) == h);
    assert(h.last() == ascii_lower(hex_upper((rgb[2] % 16) as int)));
    assert(trim_back(h) == h);
    assert(trim(h) == h);
    // no preset name has seven letters
    reveal_strlit("red");
    reveal_strlit("rog");
    reveal_strlit("rogred");
    reveal_strlit("cyan");
    reveal_strlit("cyber");
    reveal_strlit("cybercyan");
    reveal_strlit("green");
    reveal_strlit("matrix");
    reveal_strlit("matrixgreen");
    reveal_strlit("amber");
    reveal_strlit("gold");
    reveal_strlit("ambergold");
    reveal_strlit("purple");
    reveal_strlit("neon");
    reveal_strlit("neonpurple");
    let lowered = h.map_values(|ch: char| ascii_lower(ch));
    assert(lowered.len() == 7);
    assert(!is_word(h, "red"@) && !is_word(h, "rog"@) && !is_word(h, "rogred"@));
    assert(!is_word(h, "cyan"@) && !is_word(h, "cyber"@) && !is_word(h, "cybercyan"@));
    assert(!is_word(h, "green"@) && !is_word(h, "matrix"@) && !is_word(h, "matrixgreen"@));
    assert(!is_word(h, "amber"@) && !is_word(h, "gold"@) && !is_word(h, "ambergold"@));
    assert(!is_word(h, "purple"@) && !is_word(h, "neon"@) && !is_word(h, "neonpurple"@));
    assert(preset_named(h) is None);
    // six ASCII hex digits after the '#'
    let body = hex_body(h);
    assert(body =~= lower_byte_hex(rgb[0]) + lower_byte_hex(rgb[1]) + lower_byte_hex(rgb[2]));
    assert(all_ascii(body));
    assert(body.subrange(0, 2) =~= lower_byte_hex(rgb[0]));
    assert(body.subrange(2, 4) =~= lower_byte_hex(rgb[1]));
    assert(body.subrange(4, 6) =~= lower_byte_hex(rgb[2]));
    lemma_lower_byte_hex_parses(rgb[0]);
    lemma_lower_byte_hex_parses(rgb[1]);
    lemma_lower_byte_hex_parses(rgb[2]);
}


/// The pixel of the 720-pixel-wide canvas that byte `k` belongs to, its column and row.
pub open spec fn pixel_x(k: int) -> int {
    (k / 4) % 720
}

pub open spec fn pixel_y(k: int) -> int {
    (k / 4) / 720
}

/// All four bytes of the pixel of byte `k` lie inside a buffer of `len` bytes.
pub open spec fn whole_pixel(k: int, len: int) -> bool {
    4 * (k / 4) + 3 < len
}

/// Byte `k` belongs to a whole pixel of the canvas inside the rectangle at (`rx`, `ry`)
/// of `rw` x `rh` pixels, clipped to the 720x1280 canvas.
pub open spec fn in_rect(k: int, len: int, rx: int, ry: int, rw: int, rh: int) -> bool {
    &&& whole_pixel(k, len)
    &&& rx <= pixel_x(k) < rx + rw
    &&& ry <= pixel_y(k) < ry + rh
    &&& pixel_y(k) < 1280
}

/// `s` with every whole pixel of the clipped rectangle set to `color` [B, G, R, A].
pub open spec fn filled(s: Seq<u8>, rx: int, ry: int, rw: int, rh: int, color: Seq<u8>) -> Seq<u8> {
    Seq::new(s.len(), |k: int| if in_rect(k, s.len() as int, rx, ry, rw, rh) { color[k % 4] } else { s[k] })
}

/// The byte offsets of the pixel at column `x`, row `y` decompose back into it.
pub proof fn lemma_pixel_offset(x: int, y: int, j: int)
    requires
        0 <= x < 720,
        0 <= y,
        0 <= j < 4,
    ensures
        ((y * 720 + x) * 4 + j) / 4 == y * 720 + x,
        ((y * 720 + x) * 4 + j) % 4 == j,
        pixel_x((y * 720 + x) * 4 + j) == x,
        pixel_y((y * 720 + x) * 4 + j) == y,
{
    assert(((y * 720 + x) * 4 + j) / 4 == y * 720 + x) by (nonlinear_arith)
        requires 0 <= x < 720, 0 <= y, 0 <= j < 4;
    assert(((y * 720 + x) * 4 + j) % 4 == j) by (nonlinear_arith)
        requires 0 <= x < 720, 0 <= y, 0 <= j < 4;
    assert((y * 720 + x) % 720 == x) by (nonlinear_arith)
        requires 0 <= x < 720, 0 <= y;
    assert((y * 720 + x) / 720 == y) by (nonlinear_arith)
        requires 0 <= x < 720, 0 <= y;
}

/// Every byte lies in the pixel whose offset is four times its pixel index.
pub proof fn lemma_pixel_of_byte(k: int)
    requires
        0 <= k,
    ensures
        k == (pixel_y(k) * 720 + pixel_x(k)) * 4 + k % 4,
        0 <= pixel_x(k) < 720,
        0 <= pixel_y(k),
{
}

/// Fills a solid rectangle with color [B, G, R, A] into a 720x1280 BGRA buffer.
pub fn fill_rect_bgra(buffer: &mut [u8], rx: usize, ry: usize, rw: usize, rh: usize, color: [u8; 4])
    requires
        rx + rw <= usize::MAX,
        ry + rh <= usize::MAX,
    ensures
        final(buffer)@ == filled(old(buffer)@, rx as int, ry as int, rw as int, rh as int, color@),
{
    let ghost s = buffer@;
    let len = buffer.len();
    let max_y = if ry + rh < HEIGHT {
        ry + rh
    } else {
        HEIGHT
    };
    let max_x = if rx + rw < WIDTH {
        rx + rw
    } else {
        WIDTH
    };
    let mut y = ry;
    while y < max_y
        invariant
            len == s.len(),
            buffer@.len() == s.len(),
            max_y == (if ry + rh < HEIGHT { ry + rh } else { HEIGHT as int }),
            max_x == (if rx + rw < WIDTH { rx + rw } else { WIDTH as int }),
            ry <= y,
            y <= max_y || y == ry,
            forall|k: int|
                0 <= k < s.len() ==> #[trigger] buffer@[k] == (if whole_pixel(k, s.len() as int)
                    && rx <= pixel_x(k) < max_x && ry <= pixel_y(k) < y {
                    color@[k % 4]
                } else {
                    s[k]
                }),
        decreases max_y - y,
    {
        let mut x = rx;
        while x < max_x
            invariant
                len == s.len(),
                buffer@.len() == s.len(),
                max_x == (if rx + rw < WIDTH { rx + rw } else { WIDTH as int }),
                ry <= y < max_y,
                max_y <= HEIGHT,
                rx <= x,
                x <= max_x || max_x < rx,
                forall|k: int|
                    0 <= k < s.len() ==> #[trigger] buffer@[k] == (if whole_pixel(k, s.len() as int)
                        && rx <= pixel_x(k) < max_x && (ry <= pixel_y(k) < y || (pixel_y(k) == y
                        && pixel_x(k) < x)) {
                        color@[k % 4]
                    } else {
                        s[k]
                    }),
            decreases max_x - x,
        {
            let offset = (y * WIDTH + x) * 4;
            let ghost before = buffer@;
            if offset + 3 < len {
                buffer[offset] = color[0];
                buffer[offset + 1] = color[1];
                buffer[offset + 2] = color[2];
                buffer[offset + 3] = color[3];
            }
            proof {
                assert forall|k: int| 0 <= k < s.len() implies #[trigger] buffer@[k] == (if whole_pixel(
                    k,
                    s.len() as int,
                ) && rx <= pixel_x(k) < max_x && (ry <= pixel_y(k) < y || (pixel_y(k) == y
                    && pixel_x(k) < x + 1)) {
                    color@[k % 4]
                } else {
                    s[k]
                }) by {
                    lemma_pixel_of_byte(k);
                    if offset <= k < offset + 4 {
                        lemma_pixel_offset(x as int, y as int, k - offset);
                    } else {
                        if pixel_y(k) == y && pixel_x(k) == x {
                            lemma_pixel_offset(x as int, y as int, k % 4);
                        }
                    }
                }
            }
            x = x + 1;
        }
        y = y + 1;
    }
    assert forall|k: int| 0 <= k < s.len() implies #[trigger] buffer@[k] == filled(
        s,
        rx as int,
        ry as int,
        rw as int,
        rh as int,
        color@,
    )[k] by {
        lemma_pixel_of_byte(k);
    }
    assert(buffer@ =~= filled(s, rx as int, ry as int, rw as int, rh as int, color@));
}


/// `a - b`, or 0 when `b` is larger (`usize::saturating_sub`).
pub open spec fn sat_sub(a: int, b: int) -> int {
    if a >= b {
        a - b
    } else {
        0
    }
}

/// The buffer after the four edge fills of a rectangle border of `t` pixels.
pub open spec fn bordered(s: Seq<u8>, rx: int, ry: int, rw: int, rh: int, t: int, color: Seq<u8>) -> Seq<u8> {
    let s1 = filled(s, rx, ry, rw, t, color);
    let s2 = filled(s1, rx, ry + sat_sub(rh, t), rw, t, color);
    let s3 = filled(s2, rx, ry, t, rh, color);
    filled(s3, rx + sat_sub(rw, t), ry, t, rh, color)
}

/// Draws an unfilled rectangular border with the specified thickness and color.
pub fn draw_border_bgra(
    buffer: &mut [u8],
    rx: usize,
    ry: usize,
    rw: usize,
    rh: usize,
    thickness: usize,
    color: [u8; 4],
)
    requires
        rx + rw <= usize::MAX,
        ry + rh <= usize::MAX,
        rx + thickness <= usize::MAX,
        ry + thickness <= usize::MAX,
        ry + sat_sub(rh as int, thickness as int) + thickness <= usize::MAX,
        rx + sat_sub(rw as int, thickness as int) + thickness <= usize::MAX,
    ensures
        final(buffer)@ == bordered(
            old(buffer)@,
            rx as int,
            ry as int,
            rw as int,
            rh as int,
            thickness as int,
            color@,
        ),
{
    fill_rect_bgra(buffer, rx, ry, rw, thickness, color);
    fill_rect_bgra(buffer, rx, ry + rh.saturating_sub(thickness), rw, thickness, color);
    fill_rect_bgra(buffer, rx, ry, thickness, rh, color);
    fill_rect_bgra(buffer, rx + rw.saturating_sub(thickness), ry, thickness, rh, color);
}

/// Law: drawing a border leaves every pixel strictly inside it (and every pixel outside the
/// rectangle) as it was.
pub proof fn law_border_keeps_interior(
    s: Seq<u8>,
    rx: int,
    ry: int,
    rw: int,
    rh: int,
    t: int,
    color: Seq<u8>,
    k: int,
)
    requires
        0 <= rx,
        0 <= ry,
        0 <= t <= rw,
        t <= rh,
        0 <= k < s.len(),
        (rx + t <= pixel_x(k) < rx + rw - t && ry + t <= pixel_y(k) < ry + rh - t) || !(rx <= pixel_x(k)
            < rx + rw && ry <= pixel_y(k) < ry + rh),
    ensures
        bordered(s, rx, ry, rw, rh, t, color)[k] == s[k],
{
    let s1 = filled(s, rx, ry, rw, t, color);
    let s2 = filled(s1, rx, ry + sat_sub(rh, t), rw, t, color);
    let s3 = filled(s2, rx, ry, t, rh, color);
    let s4 = filled(s3, rx + sat_sub(rw, t), ry, t, rh, color);
    assert(s1[k] == s[k]);
    assert(s2[k] == s1[k]);
    assert(s3[k] == s2[k]);
    assert(s4[k] == s3[k]);
}


/// The BGRA colors of the three columns of the tearing test at frame `frame`: red, green,
/// blue on even frames and green, blue, red on odd ones.
pub open spec fn split_colors(frame: u32) -> (Seq<u8>, Seq<u8>, Seq<u8>) {
    if frame % 2 == 0 {
        (seq![0x00u8, 0x00, 0xff, 0xff], seq![0x00u8, 0xff, 0x00, 0xff], seq![0xffu8, 0x00, 0x00, 0xff])
    } else {
        (seq![0x00u8, 0xff, 0x00, 0xff], seq![0xffu8, 0x00, 0x00, 0xff], seq![0x00u8, 0x00, 0xff, 0xff])
    }
}

/// The SMPTE bar colors, BGRA, left to right: white, yellow, cyan, green, magenta, red, blue.
pub open spec fn bar_color(i: int) -> Seq<u8> {
    if i == 0 {
        seq![0xffu8, 0xff, 0xff, 0xff]
    } else if i == 1 {
        seq![0x00u8, 0xff, 0xff, 0xff]
    } else if i == 2 {
        seq![0xffu8, 0xff, 0x00, 0xff]
    } else if i == 3 {
        seq![0x00u8, 0xff, 0x00, 0xff]
    } else if i == 4 {
        seq![0xffu8, 0x00, 0xff, 0xff]
    } else if i == 5 {
        seq![0x00u8, 0x00, 0xff, 0xff]
    } else {
        seq![0xffu8, 0x00, 0x00, 0xff]
    }
}

/// `s` with the first `n` color bars (102 pixels wide, 1100 high) painted.
pub open spec fn bars(s: Seq<u8>, n: nat) -> Seq<u8>
    decreases n,
{
    if n == 0 {
        s
    } else {
        filled(bars(s, (n - 1) as nat), (n - 1) * 102, 0, 102, 1100, bar_color(n - 1))
    }
}

/// Byte `k` of the rainbow gradient at frame `frame`: row `y` has red `(y + 4 frame) % 256`,
/// green `(2 y + 4 frame) % 256` and blue `255 - red`, fully opaque.
pub open spec fn gradient_byte(k: int, frame: u32) -> u8 {
    let y = k / 2880;
    let shift = frame * 4;
    let r = (y + shift) % 256;
    let g = (2 * y + shift) % 256;
    if k % 4 == 0 {
        (255 - r) as u8
    } else if k % 4 == 1 {
        g as u8
    } else if k % 4 == 2 {
        r as u8
    } else {
        255u8
    }
}

/// The frame buffer `s` after the test pattern `name` was drawn at frame `frame` (its caption
/// aside): three flashing color columns, SMPTE color bars, a moving rainbow gradient, or black.
pub open spec fn pattern_frame(name: Seq<char>, frame: u32, s: Seq<u8>) -> Seq<u8> {
    if name == "vertical-split"@ {
        let (c0, c1, c2) = split_colors(frame);
        filled(filled(filled(s, 0, 0, 240, 1280, c0), 240, 0, 240, 1280, c1), 480, 0, 240, 1280, c2)
    } else if name == "colorbars"@ {
        filled(bars(s, 7), 0, 1100, 720, 180, seq![0x20u8, 0x20, 0x20, 0xff])
    } else if name == "gradient"@ {
        Seq::new(s.len(), |k: int| if k < 3_686_400 { gradient_byte(k, frame) } else { s[k] })
    } else {
        filled(s, 0, 0, 720, 1280, seq![0x00u8, 0x00, 0x00, 0xff])
    }
}

/// Where the first `n` bars are painted, a pixel in the column range of bar `i < n` above the
/// grey band holds bar `i`'s colour; a pixel right of them keeps its bytes.
proof fn lemma_bars_pixel(s: Seq<u8>, n: nat, k: int)
    requires
        n <= 7,
        0 <= k < s.len(),
        whole_pixel(k, s.len() as int),
        pixel_y(k) < 1100,
    ensures
        bars(s, n).len() == s.len(),
        pixel_x(k) < n * 102 ==> bars(s, n)[k] == bar_color(pixel_x(k) / 102)[k % 4],
        pixel_x(k) >= n * 102 ==> bars(s, n)[k] == s[k],
    decreases n,
{
    if n > 0 {
        lemma_bars_pixel(s, (n - 1) as nat, k);
        let i = n - 1;
        if i * 102 <= pixel_x(k) < i * 102 + 102 {
            assert(pixel_x(k) / 102 == i);
        }
    }
}

/// Law: in the colour-bar test pattern, every pixel above the grey band (rows 0..1100) in the
/// columns of bar `i` (102 pixels each, from the left) has the SMPTE colour of position `i`,
/// in BGRA: white, yellow, cyan, green, magenta, red, blue; the band below is dark grey.
pub proof fn law_colorbars_order(frame: u32, s: Seq<u8>, k: int)
    requires
        0 <= k < s.len(),
        whole_pixel(k, s.len() as int),
        pixel_x(k) < 714,
    ensures
        ({
            let f = pattern_frame("colorbars"@, frame, s);
            let i = pixel_x(k) / 102;
            let smpte: Seq<u8> = if i == 0 {
                seq![0xffu8, 0xff, 0xff, 0xff]
            } else if i == 1 {
                seq![0x00u8, 0xff, 0xff, 0xff]
            } else if i == 2 {
                seq![0xffu8, 0xff, 0x00, 0xff]
            } else if i == 3 {
                seq![0x00u8, 0xff, 0x00, 0xff]
            } else if i == 4 {
                seq![0xffu8, 0x00, 0xff, 0xff]
            } else if i == 5 {
                seq![0x00u8, 0x00, 0xff, 0xff]
            } else {
                seq![0xffu8, 0x00, 0x00, 0xff]
            };
            &&& pixel_y(k) < 1100 ==> f[k] == smpte[k % 4]
            &&& 1100 <= pixel_y(k) < 1280 ==> f[k] == seq![0x20u8, 0x20, 0x20, 0xff][k % 4]
        }),
{
    reveal_strlit("colorbars");
    reveal_strlit("vertical-split");
    assert("colorbars"@ != "vertical-split"@) by {
        assert("colorbars"@.len() != "vertical-split"@.len());
    }
    if pixel_y(k) < 1100 {
        lemma_bars_pixel(s, 7, k);
    } else {
        lemma_bars_pixel(s, 7, 0);
    }
}

/// The BGRA color of bar `i`.
fn bar_color_at(i: usize) -> (c: [u8; 4])
    ensures
        c@ == bar_color(i as int),
{
    let c: [u8; 4] = if i == 0 {
        [0xff, 0xff, 0xff, 0xff]
    } else if i == 1 {
        [0x00, 0xff, 0xff, 0xff]
    } else if i == 2 {
        [0xff, 0xff, 0x00, 0xff]
    } else if i == 3 {
        [0x00, 0xff, 0x00, 0xff]
    } else if i == 4 {
        [0xff, 0x00, 0xff, 0xff]
    } else if i == 5 {
        [0x00, 0x00, 0xff, 0xff]
    } else {
        [0xff, 0x00, 0x00, 0xff]
    };
    assert(c@ =~= bar_color(i as int));
    c
}

/// Paints the rainbow gradient of frame `frame` over the whole canvas.
fn paint_gradient(buffer: &mut [u8], frame_count: u32)
    requires
        old(buffer)@.len() >= 3_686_400,
        frame_count * 4 <= u32::MAX,
        frame_count * 4 + 2558 <= usize::MAX,
    ensures
        final(buffer)@ == Seq::new(
            old(buffer)@.len(),
            |k: int| if k < 3_686_400 { gradient_byte(k, frame_count) } else { old(buffer)@[k] },
        ),
{
    let ghost s = buffer@;
    let shift = (frame_count * 4) as usize;
    let mut p: usize = 0;
    while p < 921_600
        invariant
            buffer@.len() == s.len(),
            s.len() >= 3_686_400,
            shift == frame_count * 4,
            frame_count * 4 + 2558 <= usize::MAX,
            p <= 921_600,
            forall|k: int|
                0 <= k < s.len() ==> #[trigger] buffer@[k] == (if k < p * 4 {
                    gradient_byte(k, frame_count)
                } else {
                    s[k]
                }),
        decreases 921_600 - p,
    {
        let y = p / 720;
        let r = ((y + shift) % 256) as u8;
        let g = ((y * 2 + shift) % 256) as u8;
        let b = 255 - r;
        let offset = p * 4;
        buffer[offset] = b;
        buffer[offset + 1] = g;
        buffer[offset + 2] = r;
        buffer[offset + 3] = 0xff;
        proof {
            assert forall|k: int| 0 <= k < s.len() implies #[trigger] buffer@[k] == (if k < (p + 1) * 4 {
                gradient_byte(k, frame_count)
            } else {
                s[k]
            }) by {
                if offset <= k < offset + 4 {
                    assert(k / 2880 == y);
                    assert(k % 4 == k - offset);
                }
            }
        }
        p = p + 1;
    }
    assert(buffer@ =~= Seq::new(
        s.len(),
        |k: int| if k < 3_686_400 { gradient_byte(k, frame_count) } else { s[k] },
    ));
}

/// Renders test patterns for tearing and color verification: "vertical-split",
/// "colorbars", "gradient", or a black frame for any other name. The patterns' captions
/// ("FRAME n", the color-test and gradient titles) are not drawn: the bitmap font they are
/// drawn with is not part of this library.
pub fn render_pattern(pattern_name: &str, frame_count: u32, buffer: &mut [u8])
    requires
        pattern_name@ == "gradient"@ ==> old(buffer)@.len() >= 3_686_400 && frame_count * 4
            <= u32::MAX && frame_count * 4 + 2558 <= usize::MAX,
    ensures
        final(buffer)@ == pattern_frame(pattern_name@, frame_count, old(buffer)@),
{
    if crate::text::str_equals(pattern_name, "vertical-split") {
        let even = frame_count % 2 == 0;
        let c0: [u8; 4] = if even {
            [0x00, 0x00, 0xff, 0xff]
        } else {
            [0x00, 0xff, 0x00, 0xff]
        };
        let c1: [u8; 4] = if even {
            [0x00, 0xff, 0x00, 0xff]
        } else {
            [0xff, 0x00, 0x00, 0xff]
        };
        let c2: [u8; 4] = if even {
            [0xff, 0x00, 0x00, 0xff]
        } else {
            [0x00, 0x00, 0xff, 0xff]
        };
        assert(c0@ =~= split_colors(frame_count).0);
        assert(c1@ =~= split_colors(frame_count).1);
        assert(c2@ =~= split_colors(frame_count).2);
        fill_rect_bgra(buffer, 0, 0, 240, HEIGHT, c0);
        fill_rect_bgra(buffer, 240, 0, 240, HEIGHT, c1);
        fill_rect_bgra(buffer, 480, 0, 240, HEIGHT, c2);
    } else if crate::text::str_equals(pattern_name, "colorbars") {
        let ghost s = buffer@;
        let mut i: usize = 0;
        while i < 7
            invariant
                i <= 7,
                buffer@ == bars(s, i as nat),
            decreases 7 - i,
        {
            fill_rect_bgra(buffer, i * 102, 0, 102, HEIGHT - 180, bar_color_at(i));
            i = i + 1;
        }
        fill_rect_bgra(buffer, 0, HEIGHT - 180, WIDTH, 180, [0x20, 0x20, 0x20, 0xff]);
        assert([0x20u8, 0x20, 0x20, 0xff]@ =~= seq![0x20u8, 0x20, 0x20, 0xff]);
    } else if crate::text::str_equals(pattern_name, "gradient") {
        paint_gradient(buffer, frame_count);
    } else {
        fill_rect_bgra(buffer, 0, 0, WIDTH, HEIGHT, [0x00, 0x00, 0x00, 0xff]);
        assert([0x00u8, 0x00, 0x00, 0xff]@ =~= seq![0x00u8, 0x00, 0x00, 0xff]);
    }
}

/// What a dashboard slot shows.
#[derive(Debug, Clone, Copy, PartialEq, Eq, Structural)]
pub enum DashboardSection {
    /// An empty, disabled slot.
    Empty,
    Clock,
    Cpu,
    Gpu,
    Ram,
    Network,
}

impl Default for DashboardSection {
    fn default() -> (r: Self)
        ensures
            r == DashboardSection::Empty,
    {
        DashboardSection::Empty
    }
}

impl DashboardSection {
    /// Returns the human-readable display label for this dashboard slot option.
    pub fn label(&self) -> (r: &'static str)
        ensures
            r@ == match *self {
                DashboardSection::Empty => "(Empty / Disabled)"@,
                DashboardSection::Clock => "🕒 Clock & Date"@,
                DashboardSection::Cpu => "💻 CPU (Usage, Temp, Freq)"@,
                DashboardSection::Gpu => "🎮 GPU (Usage, Temp, VRAM)"@,
                DashboardSection::Ram => "🧠 RAM (Memory Usage)"@,
                DashboardSection::Network => "🌐 Network (Up/Down Bandwidth)"@,
            },
    {
        match self {
            DashboardSection::Empty => "(Empty / Disabled)",
            DashboardSection::Clock => "🕒 Clock & Date",
            DashboardSection::Cpu => "💻 CPU (Usage, Temp, Freq)",
            DashboardSection::Gpu => "🎮 GPU (Usage, Temp, VRAM)",
            DashboardSection::Ram => "🧠 RAM (Memory Usage)",
            DashboardSection::Network => "🌐 Network (Up/Down Bandwidth)",
        }
    }
}


/// Timezone configuration for the dashboard clock display.
#[derive(Debug, Clone, Copy, PartialEq, Eq, Structural)]
pub enum TimezoneConfig {
    /// Local time according to the operating system's configured timezone.
    Local,
    /// Coordinated Universal Time (UTC).
    Utc,
    /// Custom fixed UTC offset in minutes (e.g. +600 for AEST UTC+10).
    Custom(i32),
}

impl Default for TimezoneConfig {
    fn default() -> (r: Self)
        ensures
            r == TimezoneConfig::Local,
    {
        TimezoneConfig::Local
    }
}

/// The strftime formats that the clock uses.
pub open spec fn clock_format(f: Seq<char>) -> bool {
    f == "%H:%M:%S"@ || f == "%I:%M:%S %p"@ || f == "%A, %b %d, %Y"@
}

/// An offset of `minutes` is one that `chrono::FixedOffset::east_opt` accepts: strictly
/// within a day.
pub open spec fn offset_accepted(minutes: i32) -> bool {
    -86_400 < minutes * 60 < 86_400
}

/// Reads `std::time::SystemTime::now` against the Unix epoch with `duration_since`: whether
/// the clock is at or after the epoch, and the whole seconds and nanoseconds from it (either
/// way). The reading is the time; what is stated is that the nanoseconds are below one second,
/// as `Duration::subsec_nanos` documents.
#[verifier::external_body]
fn read_system_clock() -> (r: (bool, u64, u32))
    ensures
        r.2 < 1_000_000_000,
{
    match std::time::SystemTime::now().duration_since(std::time::UNIX_EPOCH) {
        Ok(d) => (true, d.as_secs(), d.subsec_nanos()),
        Err(e) => (false, e.duration().as_secs(), e.duration().subsec_nanos()),
    }
}

/// The largest distance from the epoch, in seconds, at which the clock is read as it is (about
/// 253,000 years, inside chrono's range of dates); a clock set further away is read as this.
pub const CLOCK_LIMIT_SECS: i64 = 8_000_000_000_000;

/// The signed Unix timestamp (seconds, nanoseconds) of a clock reading `secs`/`nanos` after
/// (`after`) or before the epoch, as chrono counts times before the epoch (whole seconds
/// towards the past, nanoseconds forwards), kept within `CLOCK_LIMIT_SECS` of the epoch.
pub open spec fn clock_timestamp_of(after: bool, secs: u64, nanos: u32) -> (int, int) {
    if after {
        if secs > CLOCK_LIMIT_SECS {
            (CLOCK_LIMIT_SECS as int, nanos as int)
        } else {
            (secs as int, nanos as int)
        }
    } else if secs >= CLOCK_LIMIT_SECS {
        (-CLOCK_LIMIT_SECS, 0)
    } else if nanos == 0 {
        (-(secs as int), 0)
    } else {
        (-(secs as int) - 1, 1_000_000_000 - nanos)
    }
}

/// The timestamp of a clock reading, as `clock_timestamp_of`.
pub fn clock_timestamp(after: bool, secs: u64, nanos: u32) -> (r: (i64, u32))
    requires
        nanos < 1_000_000_000,
    ensures
        (r.0 as int, r.1 as int) == clock_timestamp_of(after, secs, nanos),
        -CLOCK_LIMIT_SECS <= r.0 <= CLOCK_LIMIT_SECS,
        r.1 < 1_000_000_000,
{
    if after {
        if secs > CLOCK_LIMIT_SECS as u64 {
            (CLOCK_LIMIT_SECS, nanos)
        } else {
            (secs as i64, nanos)
        }
    } else if secs >= CLOCK_LIMIT_SECS as u64 {
        (-CLOCK_LIMIT_SECS, 0)
    } else if nanos == 0 {
        (-(secs as i64), 0)
    } else {
        (-(secs as i64) - 1, 1_000_000_000 - nanos)
    }
}

/// The instant `secs`/`nanos` from the epoch (`chrono::DateTime::<Utc>::from_timestamp`, which
/// gives a time for every timestamp within `CLOCK_LIMIT_SECS`) in the machine's time zone
/// (`with_timezone(&chrono::Local)`), formatted with `time_fmt` and with `date_fmt`. The text
/// depends on the time zone; what is stated is that each of these formats writes at least one
/// character (a digit, `:` or `,`). chrono's look-up of the local zone panics if the machine's
/// zone data has no rule for the instant ("unable to select local time type"); that is a state
/// of the machine, not of the arguments, and no `requires` can rule it out.
#[verifier::external_body]
fn local_clock_text(secs: i64, nanos: u32, time_fmt: &str, date_fmt: &str) -> (r: (String, String))
    requires
        -CLOCK_LIMIT_SECS <= secs <= CLOCK_LIMIT_SECS,
        nanos < 1_000_000_000,
        clock_format(time_fmt@),
        clock_format(date_fmt@),
    ensures
        r.0@.len() > 0,
        r.1@.len() > 0,
{
    let utc = chrono::DateTime::<chrono::Utc>::from_timestamp(secs, nanos).unwrap_or_default();
    let now = utc.with_timezone(&chrono::Local);
    (now.format(time_fmt).to_string(), now.format(date_fmt).to_string())
}

/// The instant `secs`/`nanos` from the epoch as a UTC time
/// (`chrono::DateTime::<Utc>::from_timestamp`, defined for every timestamp within
/// `CLOCK_LIMIT_SECS`), formatted with `time_fmt` and with `date_fmt`. What is stated is that
/// each of these formats writes at least one character.
#[verifier::external_body]
fn utc_clock_text(secs: i64, nanos: u32, time_fmt: &str, date_fmt: &str) -> (r: (String, String))
    requires
        -CLOCK_LIMIT_SECS <= secs <= CLOCK_LIMIT_SECS,
        nanos < 1_000_000_000,
        clock_format(time_fmt@),
        clock_format(date_fmt@),
    ensures
        r.0@.len() > 0,
        r.1@.len() > 0,
{
    let now = chrono::DateTime::<chrono::Utc>::from_timestamp(secs, nanos).unwrap_or_default();
    (now.format(time_fmt).to_string(), now.format(date_fmt).to_string())
}

/// `chrono::FixedOffset::east_opt(offset_secs)`, which is `None` unless
/// `-86400 < offset_secs < 86400`, and the instant `secs`/`nanos` from the epoch
/// (`DateTime::<Utc>::from_timestamp`) in that offset, formatted with `time_fmt` and with
/// `date_fmt`. Whether there is a result is stated, and that each text has at least one
/// character; the digits are not.
#[verifier::external_body]
fn offset_clock_text(offset_secs: i32, secs: i64, nanos: u32, time_fmt: &str, date_fmt: &str) -> (r:
    Option<(String, String)>)
    requires
        -CLOCK_LIMIT_SECS <= secs <= CLOCK_LIMIT_SECS,
        nanos < 1_000_000_000,
        clock_format(time_fmt@),
        clock_format(date_fmt@),
    ensures
        r is Some <==> -86_400 < offset_secs < 86_400,
        r matches Some(t) ==> t.0@.len() > 0 && t.1@.len() > 0,
{
    let offset = chrono::FixedOffset::east_opt(offset_secs)?;
    let utc = chrono::DateTime::<chrono::Utc>::from_timestamp(secs, nanos).unwrap_or_default();
    let now = utc.with_timezone(&offset);
    Some((now.format(time_fmt).to_string(), now.format(date_fmt).to_string()))
}

/// The label of a fixed offset of `minutes` (within a day), e.g. "UTC+10:00", "UTC-03:30".
pub open spec fn offset_label(minutes: i32) -> Seq<char> {
    let abs_m = if minutes >= 0 {
        minutes as int
    } else {
        -minutes
    };
    "UTC"@ + seq![if minutes >= 0 { '+' } else { '-' }] + crate::text::two_digits((abs_m / 60) as nat)
        + seq![':'] + crate::text::two_digits((abs_m % 60) as nat)
}

/// The time format of the clock of `zone`: 24-hour or 12-hour with AM/PM; an offset that is
/// not accepted falls back to the 24-hour UTC clock.
pub open spec fn time_format(zone: TimezoneConfig, use_24h: bool) -> Seq<char> {
    match zone {
        TimezoneConfig::Custom(m) => if !offset_accepted(m) || use_24h {
            "%H:%M:%S"@
        } else {
            "%I:%M:%S %p"@
        },
        _ => if use_24h {
            "%H:%M:%S"@
        } else {
            "%I:%M:%S %p"@
        },
    }
}

/// What follows the formatted time on the clock of `zone`: " UTC" for UTC and for an offset
/// that is not accepted (the UTC fallback), a space and the offset's label for an accepted
/// offset, nothing for local time.
pub open spec fn clock_suffix(zone: TimezoneConfig) -> Seq<char> {
    match zone {
        TimezoneConfig::Local => ""@,
        TimezoneConfig::Utc => " UTC"@,
        TimezoneConfig::Custom(m) => if offset_accepted(m) {
            " "@ + offset_label(m)
        } else {
            " UTC"@
        },
    }
}

/// The time format of the clock of `zone`, as `time_format`.
pub fn clock_time_format(zone: TimezoneConfig, use_24h: bool) -> (r: &'static str)
    requires
        zone matches TimezoneConfig::Custom(m) ==> i32::MIN <= m * 60 <= i32::MAX,
    ensures
        r@ == time_format(zone, use_24h),
        clock_format(r@),
{
    let fallback = match zone {
        TimezoneConfig::Custom(m) => {
            let secs = m * 60;
            !(-86_400 < secs && secs < 86_400)
        },
        _ => false,
    };
    if fallback || use_24h {
        "%H:%M:%S"
    } else {
        "%I:%M:%S %p"
    }
}

/// Appends the label of an accepted offset of `minutes`.
fn push_offset_label(out: &mut String, minutes: i32)
    requires
        offset_accepted(minutes),
        i32::MIN <= minutes * 60 <= i32::MAX,
    ensures
        final(out)@ == old(out)@ + offset_label(minutes),
{
    let abs_m: u32 = if minutes >= 0 {
        minutes as u32
    } else {
        (-minutes) as u32
    };
    out.append("UTC");
    if minutes >= 0 {
        out.append("+");
    } else {
        out.append("-");
    }
    crate::text::push_two_digits(out, abs_m / 60);
    out.append(":");
    crate::text::push_two_digits(out, abs_m % 60);
    proof {
        reveal_strlit("UTC");
        reveal_strlit("+");
        reveal_strlit("-");
        reveal_strlit(":");
        assert(out@ =~= old(out)@ + offset_label(minutes));
    }
}

/// The clock strings of `zone` made from the formatted time and date `clock`: the time is
/// followed by the zone's `clock_suffix`; the date is kept as formatted.
pub fn clock_strings(zone: TimezoneConfig, clock: (String, String)) -> (r: (String, String))
    requires
        zone matches TimezoneConfig::Custom(m) ==> i32::MIN <= m * 60 <= i32::MAX,
    ensures
        r.1@ == clock.1@,
        r.0@ == clock.0@ + clock_suffix(zone),
{
    let (time, date) = clock;
    proof {
        reveal_strlit(" ");
        reveal_strlit(" UTC");
        reveal_strlit("");
    }
    match zone {
        TimezoneConfig::Custom(m) => {
            let secs = m * 60;
            if -86_400 < secs && secs < 86_400 {
                let mut out = time;
                out.append(" ");
                push_offset_label(&mut out, m);
                assert(out@ =~= clock.0@ + clock_suffix(zone));
                (out, date)
            } else {
                let mut out = time;
                out.append(" UTC");
                (out, date)
            }
        },
        TimezoneConfig::Utc => {
            let mut out = time;
            out.append(" UTC");
            (out, date)
        },
        TimezoneConfig::Local => {
            assert(time@ =~= time@ + clock_suffix(zone));
            (time, date)
        },
    }
}

impl TimezoneConfig {
    /// Returns the formatted time and date strings of the current time in this timezone. The
    /// time is 24-hour or 12-hour as asked and ends with the zone's `clock_suffix`: " UTC" for
    /// UTC, the offset's label (e.g. " UTC+10:00") for a fixed offset, and " UTC" again for an
    /// offset that is not within a day, which falls back to the 24-hour UTC clock. Both strings
    /// are non-empty; the digits and names depend on the clock and are not stated.
    pub fn now_strings(&self, use_24h: bool) -> (r: (String, String))
        requires
            *self matches TimezoneConfig::Custom(m) ==> i32::MIN <= m * 60 <= i32::MAX,
        ensures
            r.1@.len() > 0,
            r.0@.len() > clock_suffix(*self).len(),
            r.0@.subrange(r.0@.len() - clock_suffix(*self).len(), r.0@.len() as int) == clock_suffix(
                *self,
            ),
    {
        let zone = *self;
        let time_fmt = clock_time_format(zone, use_24h);
        let date_fmt = "%A, %b %d, %Y";
        proof {
            reveal_strlit("%A, %b %d, %Y");
        }
        let (after, raw_secs, raw_nanos) = read_system_clock();
        let (secs, nanos) = clock_timestamp(after, raw_secs, raw_nanos);
        let clock = match zone {
            TimezoneConfig::Local => local_clock_text(secs, nanos, time_fmt, date_fmt),
            TimezoneConfig::Utc => utc_clock_text(secs, nanos, time_fmt, date_fmt),
            TimezoneConfig::Custom(m) => {
                let offset_secs = m * 60;
                match offset_clock_text(offset_secs, secs, nanos, time_fmt, date_fmt) {
                    Some(text) => text,
                    None => utc_clock_text(secs, nanos, time_fmt, date_fmt),
                }
            },
        };
        let r = clock_strings(zone, clock);
        assert(r.0@.subrange(r.0@.len() - clock_suffix(zone).len(), r.0@.len() as int)
            =~= clock_suffix(zone));
        r
    }
}


/// The frame buffer `s` blacked out, with the `rw` x `rh` RGBA picture `rp` drawn centred on
/// it.
pub open spec fn framed(s: Seq<u8>, rw: int, rh: int, rp: Seq<u8>) -> Seq<u8> {
    blitted(
        filled(s, 0, 0, 720, 1280, seq![0x00u8, 0x00, 0x00, 0xff]),
        rw,
        rh,
        rp,
        minus_or_zero(720, rw) / 2,
        minus_or_zero(1280, rh) / 2,
    )
}

/// The frame buffer `s` blacked out with the `w` x `h` RGBA picture `px` drawn centred on it,
/// fitted to 720x1280 with its aspect ratio kept (`fit_size`) by Triangle resampling.
pub open spec fn fitted_frame(s: Seq<u8>, w: u32, h: u32, px: Seq<u8>) -> Seq<u8> {
    let (rw, rh) = fit_size(w, h, 720, 1280);
    framed(s, rw as int, rh as int, triangle_resized(px, w, h, rw, rh))
}

/// The frame buffer `s` blacked out with the `w` x `h` RGBA picture `px` resampled (Triangle)
/// to `nw` x `nh` and its centre 720x1280 crop (clamped to the picture) drawn centred on it.
pub open spec fn covered_frame(s: Seq<u8>, w: u32, h: u32, px: Seq<u8>, nw: u32, nh: u32) -> Seq<u8> {
    let x = (minus_or_zero(nw as int, 720) / 2) as u32;
    let y = (minus_or_zero(nh as int, 1280) / 2) as u32;
    let (x2, y2, cw2, ch2) = crop_box(nw, nh, x, y, 720, 1280);
    framed(
        s,
        cw2 as int,
        ch2 as int,
        cropped(nw as int, triangle_resized(px, w, h, nw, nh), x2 as int, y2 as int, cw2 as int, ch2 as int),
    )
}

/// Converts a picture to the 720x1280 BGRA8888 frame buffer, centred on black: fitted with
/// its aspect ratio kept (letterboxed), or, for crop-fill, resampled to `cover` (the scaled
/// size that covers the panel) and center-cropped; Triangle filter. A picture without pixels
/// leaves the buffer as it was. The resampled pixel values are the `image` crate's and are
/// not stated.
pub fn image_to_bgra(img: &RgbaImage, buffer: &mut [u8], cover: Option<(u32, u32)>)
    requires
        img.wf(),
        img.width > 0 && img.height > 0 ==> old(buffer)@.len() >= 3_686_400,
        cover matches Some((nw, nh)) ==> nw as nat * nh as nat * 4 <= usize::MAX,
    ensures
        img.width == 0 || img.height == 0 ==> final(buffer)@ == old(buffer)@,
        img.width > 0 && img.height > 0 ==> match cover {
            None => final(buffer)@ == fitted_frame(old(buffer)@, img.width, img.height, img.pixels@),
            Some((nw, nh)) => final(buffer)@ == covered_frame(
                old(buffer)@,
                img.width,
                img.height,
                img.pixels@,
                nw,
                nh,
            ),
        },
{
    if img.width == 0 || img.height == 0 {
        return;
    }
    let ghost s = buffer@;
    fill_rect_bgra(buffer, 0, 0, WIDTH, HEIGHT, [0x00, 0x00, 0x00, 0xff]);
    assert([0x00u8, 0x00, 0x00, 0xff]@ =~= seq![0x00u8, 0x00, 0x00, 0xff]);
    let ghost mut scaled_px: Seq<u8> = Seq::empty();
    let resized = match cover {
        None => {
            let r = resize_fit(img, 720, 1280, ResizeFilter::Triangle);
            assert((r.width, r.height) == fit_size(img.width, img.height, 720, 1280));
            r
        },
        Some((nw, nh)) => {
            let scaled = resize_exact(img, nw, nh, ResizeFilter::Triangle);
            proof {
                scaled_px = scaled.pixels@;
            }
            let x = if nw > 720 {
                (nw - 720) / 2
            } else {
                0
            };
            let y = if nh > 1280 {
                (nh - 1280) / 2
            } else {
                0
            };
            crop(&scaled, x, y, 720, 1280)
        },
    };
    let rw = resized.width as usize;
    let rh = resized.height as usize;
    let offset_x = if rw < WIDTH {
        (WIDTH - rw) / 2
    } else {
        0
    };
    let offset_y = if rh < HEIGHT {
        (HEIGHT - rh) / 2
    } else {
        0
    };
    copy_image_to_bgra_buffer(&resized, buffer, offset_x, offset_y);
    proof {
        assert(buffer@ == framed(s, rw as int, rh as int, resized.pixels@));
        match cover {
            None => {
                assert((resized.width, resized.height) == fit_size(img.width, img.height, 720, 1280));
                let fs = fit_size(img.width, img.height, 720, 1280);
                assert(resized.pixels@.len() == fs.0 as nat * fs.1 as nat * 4);
                assert(resized.pixels@ == triangle_resized(img.pixels@, img.width, img.height, fs.0, fs.1));
                assert(buffer@ == framed(s, fs.0 as int, fs.1 as int, resized.pixels@));
                assert(buffer@ == fitted_frame(s, img.width, img.height, img.pixels@));
            },
            Some((nw, nh)) => {
                let x = (minus_or_zero(nw as int, 720) / 2) as u32;
                let y = (minus_or_zero(nh as int, 1280) / 2) as u32;
                let (x2, y2, cw2, ch2) = crop_box(nw, nh, x, y, 720, 1280);
                assert(scaled_px.len() == nw as nat * nh as nat * 4);
                assert(scaled_px == triangle_resized(img.pixels@, img.width, img.height, nw, nh));
                assert(resized.pixels@ == cropped(nw as int, scaled_px, x2 as int, y2 as int, cw2 as int, ch2 as int));
                assert(rw == cw2 && rh == ch2);
                assert(buffer@ == covered_frame(s, img.width, img.height, img.pixels@, nw, nh));
            },
        }
    }
}


/// The dashboard theme that a command-line name selects: "cyber", "matrix", "amber" or
/// "purple" (any letter case), and ROG red for anything else.
pub open spec fn dashboard_theme_for(name: Seq<char>) -> ThemeColor {
    if crate::media::names(name, "cyber"@) {
        ThemeColor::CyberCyan
    } else if crate::media::names(name, "matrix"@) {
        ThemeColor::MatrixGreen
    } else if crate::media::names(name, "amber"@) {
        ThemeColor::AmberGold
    } else if crate::media::names(name, "purple"@) {
        ThemeColor::NeonPurple
    } else {
        ThemeColor::RogRed
    }
}

/// The dashboard theme named `name`, as `dashboard_theme_for`.
pub fn dashboard_theme_named(name: &str) -> (r: ThemeColor)
    ensures
        r == dashboard_theme_for(name@),
{
    let v = chars_of(name);
    let n = v.len();
    proof {
        assert(v@.subrange(0, n as int) =~= name@);
    }
    if lower_equals(&v, 0, n, "cyber") {
        ThemeColor::CyberCyan
    } else if lower_equals(&v, 0, n, "matrix") {
        ThemeColor::MatrixGreen
    } else if lower_equals(&v, 0, n, "amber") {
        ThemeColor::AmberGold
    } else if lower_equals(&v, 0, n, "purple") {
        ThemeColor::NeonPurple
    } else {
        ThemeColor::RogRed
    }
}

/// The buffer after a horizontal gauge bar: the `w` x `h` track in `bg`, its left `fill`
/// pixels in `fg` (none when `fill` is 0), and a one-pixel grey frame around the track.
pub open spec fn bar_drawn(s: Seq<u8>, x: int, y: int, w: int, h: int, fill: int, fg: Seq<u8>, bg: Seq<u8>) -> Seq<u8> {
    let s1 = filled(s, x, y, w, h, bg);
    let s2 = if fill > 0 {
        filled(s1, x, y, fill, h, fg)
    } else {
        s1
    };
    bordered(s2, x, y, w, h, 1, seq![0x60u8, 0x60, 0x60, 0xff])
}

/// Draws a horizontal progress / gauge bar whose left `filled_w` pixels are filled (the
/// caller turns its fraction into that width).
pub fn draw_bar_bgra(
    buffer: &mut [u8],
    x: usize,
    y: usize,
    w: usize,
    h: usize,
    filled_w: usize,
    fg: [u8; 4],
    bg: [u8; 4],
)
    requires
        x + w + 1 <= usize::MAX,
        y + h + 1 <= usize::MAX,
        x + filled_w <= usize::MAX,
    ensures
        final(buffer)@ == bar_drawn(old(buffer)@, x as int, y as int, w as int, h as int, filled_w as int, fg@, bg@),
{
    fill_rect_bgra(buffer, x, y, w, h, bg);
    if filled_w > 0 {
        fill_rect_bgra(buffer, x, y, filled_w, h, fg);
    }
    let frame: [u8; 4] = [0x60, 0x60, 0x60, 0xff];
    assert(frame@ =~= seq![0x60u8, 0x60, 0x60, 0xff]);
    draw_border_bgra(buffer, x, y, w, h, 1, frame);
}

/// The colour of a dashboard card's border.
pub open spec fn card_edge() -> Seq<u8> {
    seq![0x40u8, 0x38, 0x38, 0xff]
}

/// The colour of a dashboard gauge's empty track.
pub open spec fn bar_track() -> Seq<u8> {
    seq![0x18u8, 0x14, 0x14, 0xff]
}

/// The colour of a dashboard card.
pub open spec fn card_color() -> Seq<u8> {
    seq![0x24u8, 0x20, 0x20, 0xff]
}

/// The height of a dashboard section's card (0 for an empty slot).
pub open spec fn section_height(sec: DashboardSection) -> int {
    match sec {
        DashboardSection::Empty => 0,
        DashboardSection::Clock => 145,
        DashboardSection::Cpu | DashboardSection::Gpu => 205,
        DashboardSection::Ram | DashboardSection::Network => 180,
    }
}

/// How far a section moves the next card down: its height and a 20-pixel gap (nothing for an
/// empty slot).
pub open spec fn section_advance(sec: DashboardSection) -> int {
    if sec == DashboardSection::Empty {
        0
    } else {
        section_height(sec) + 20
    }
}

/// The buffer after the card of `sec` at row `y`: the 648-pixel-wide card at x = 36, its
/// two-pixel border, and, but for the clock, a six-pixel accent strip along its top and a
/// 600x24 gauge (track, `fill` pixels of accent, grey frame) 24 pixels in from the left.
pub open spec fn section_drawn(s: Seq<u8>, sec: DashboardSection, y: int, fill: int, accent: Seq<u8>) -> Seq<u8> {
    if sec == DashboardSection::Empty {
        s
    } else {
        let h = section_height(sec);
        let c = bordered(filled(s, 36, y, 648, h, card_color()), 36, y, 648, h, 2, card_edge());
        if sec == DashboardSection::Clock {
            c
        } else {
            let bar_y = if sec == DashboardSection::Cpu || sec == DashboardSection::Gpu {
                y + 130
            } else {
                y + 110
            };
            bar_drawn(filled(c, 36, y, 648, 6, accent), 60, bar_y, 600, 24, fill, accent, bar_track())
        }
    }
}

/// The buffer and the next card row after the first `n` slots were stacked from row `y`.
pub open spec fn sections_stacked(
    s: Seq<u8>,
    slots: Seq<DashboardSection>,
    fills: Seq<u32>,
    y: int,
    n: nat,
    accent: Seq<u8>,
) -> (Seq<u8>, int)
    decreases n,
{
    if n == 0 {
        (s, y)
    } else {
        let (s1, y1) = sections_stacked(s, slots, fills, y, (n - 1) as nat, accent);
        (
            section_drawn(s1, slots[n - 1], y1, fills[n - 1] as int, accent),
            y1 + section_advance(slots[n - 1]),
        )
    }
}

/// The dashboard drawn over `s` without its text: the background; the header band (90 pixels
/// of card colour with a 4-pixel accent line at row 86) when shown, the cards then starting at
/// row 110, else at row 30; the five slots' cards stacked downwards; the 80-pixel footer card
/// with a one-pixel border when shown; and the 16-pixel accent bar along the bottom edge.
pub open spec fn dashboard_frame(
    s: Seq<u8>,
    slots: Seq<DashboardSection>,
    show_header: bool,
    show_footer: bool,
    theme: ThemeColor,
    fills: Seq<u32>,
) -> Seq<u8> {
    let accent = theme_accent_bgra(theme);
    let s0 = filled(s, 0, 0, 720, 1280, seq![0x12u8, 0x10, 0x10, 0xff]);
    let s1 = if show_header {
        filled(filled(s0, 0, 0, 720, 90, card_color()), 0, 86, 720, 4, accent)
    } else {
        s0
    };
    let y0 = if show_header {
        110
    } else {
        30
    };
    let (s2, y) = sections_stacked(s1, slots, fills, y0, 5, accent);
    let s3 = if show_footer {
        bordered(filled(s2, 36, y, 648, 80, card_color()), 36, y, 648, 80, 1, card_edge())
    } else {
        s2
    };
    filled(s3, 0, 1264, 720, 16, accent)
}

/// Draws the card of one dashboard section at row `y`, as `section_drawn`.
fn draw_section(buffer: &mut [u8], sec: DashboardSection, y: usize, fill: u32, accent: [u8; 4])
    requires
        y <= 2000,
        fill <= 600,
    ensures
        final(buffer)@ == section_drawn(old(buffer)@, sec, y as int, fill as int, accent@),
{
    if sec == DashboardSection::Empty {
        return;
    }
    let h: usize = match sec {
        DashboardSection::Clock => 145,
        DashboardSection::Cpu | DashboardSection::Gpu => 205,
        _ => 180,
    };
    let card: [u8; 4] = [0x24, 0x20, 0x20, 0xff];
    let edge: [u8; 4] = [0x40, 0x38, 0x38, 0xff];
    let track: [u8; 4] = [0x18, 0x14, 0x14, 0xff];
    assert(card@ =~= card_color());
    assert(edge@ =~= card_edge());
    assert(track@ =~= bar_track());
    fill_rect_bgra(buffer, 36, y, 648, h, card);
    draw_border_bgra(buffer, 36, y, 648, h, 2, edge);
    if sec == DashboardSection::Clock {
        return;
    }
    fill_rect_bgra(buffer, 36, y, 648, 6, accent);
    let bar_y = if sec == DashboardSection::Cpu || sec == DashboardSection::Gpu {
        y + 130
    } else {
        y + 110
    };
    draw_bar_bgra(buffer, 60, bar_y, 600, 24, fill as usize, accent, track);
}

/// Renders the dashboard's cards, gauges and bands to the 720x1280 BGRA canvas, as
/// `dashboard_frame`: `slots` in order from the top, each gauge filled `bar_fill_px[i]` of its
/// 600 pixels (the caller turns its reading into that width). The dashboard's text is not
/// drawn: the bitmap font it is drawn with is not part of this library.
pub fn render_dashboard_frame(
    slots: [DashboardSection; 5],
    show_header: bool,
    show_footer: bool,
    theme: ThemeColor,
    bar_fill_px: [u32; 5],
    buffer: &mut [u8],
)
    requires
        forall|i: int| 0 <= i < 5 ==> bar_fill_px@[i] <= 600,
    ensures
        final(buffer)@ == dashboard_frame(old(buffer)@, slots@, show_header, show_footer, theme, bar_fill_px@),
{
    let accent = theme.accent_bgra();
    let bg = theme.bg_bgra();
    let card = theme.card_bgra();
    let edge: [u8; 4] = [0x40, 0x38, 0x38, 0xff];
    assert(edge@ =~= card_edge());
    fill_rect_bgra(buffer, 0, 0, WIDTH, HEIGHT, bg);
    let mut y: usize = if show_header {
        fill_rect_bgra(buffer, 0, 0, WIDTH, 90, card);
        fill_rect_bgra(buffer, 0, 86, WIDTH, 4, accent);
        110
    } else {
        30
    };
    let ghost s1 = buffer@;
    let ghost y0 = y as int;
    let mut i: usize = 0;
    while i < 5
        invariant
            i <= 5,
            y0 == (if show_header { 110int } else { 30int }),
            y <= y0 + 225 * i,
            forall|j: int| 0 <= j < 5 ==> bar_fill_px@[j] <= 600,
            accent@ == theme_accent_bgra(theme),
            (buffer@, y as int) == sections_stacked(s1, slots@, bar_fill_px@, y0, i as nat, accent@),
        decreases 5 - i,
    {
        let sec = slots[i];
        draw_section(buffer, sec, y, bar_fill_px[i], accent);
        if sec != DashboardSection::Empty {
            y = y + match sec {
                DashboardSection::Clock => 165,
                DashboardSection::Cpu | DashboardSection::Gpu => 225,
                _ => 200,
            };
        }
        i = i + 1;
    }
    if show_footer {
        fill_rect_bgra(buffer, 36, y, 648, 80, card);
        draw_border_bgra(buffer, 36, y, 648, 80, 1, edge);
    }
    fill_rect_bgra(buffer, 0, HEIGHT - 16, WIDTH, 16, accent);
}

} // verus!
