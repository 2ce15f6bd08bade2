//! Colors: an RGBA value read from and written in the script-hex form
//! (`&H` with the bytes in reverse order) and the web form (`#` with the bytes
//! in order, or a CSS color name).
use vstd::prelude::*;
use crate::text::{ascii_lower, chars_of, eq_chars, push_str, string_of};

verus! {

/// An RGBA color; each channel is a byte and the alpha is not premultiplied.
#[derive(Clone, Copy, Debug, PartialEq, Eq, Structural)]
pub struct Color {
    pub r: u8,
    pub g: u8,
    pub b: u8,
    pub a: u8,
}

/// Why a color text was refused.
#[derive(Clone, Copy, Debug, PartialEq, Eq, Structural)]
pub enum ColorError {
    /// The text lacks its prefix, or the number of hex digits is not 2, 4, 6 or 8.
    InvalidLength,
    /// A character after the prefix is not a hex digit.
    InvalidDigit,
    /// The text is not a known color name.
    UnknownName,
}

pub open spec fn opaque_white() -> Color {
    Color { r: 255, g: 255, b: 255, a: 255 }
}

pub open spec fn opaque_black() -> Color {
    Color { r: 0, g: 0, b: 0, a: 255 }
}

pub open spec fn transparent() -> Color {
    Color { r: 0, g: 0, b: 0, a: 0 }
}

pub open spec fn hex_value(c: char) -> Option<nat> {
    if '0' <= c && c <= '9' {
        Some((c as int - '0' as int) as nat)
    } else if 'a' <= c && c <= 'f' {
        Some((c as int - 'a' as int + 10) as nat)
    } else if 'A' <= c && c <= 'F' {
        Some((c as int - 'A' as int + 10) as nat)
    } else {
        None
    }
}

pub open spec fn all_hex(s: Seq<char>) -> bool {
    forall|i: int| 0 <= i < s.len() ==> (#[trigger] hex_value(s[i])) is Some
}

/// The byte that the two hex digits at `2k` and `2k + 1` denote.
pub open spec fn hex_byte(s: Seq<char>, k: int) -> u8 {
    (hex_value(s[2 * k])->0 * 16 + hex_value(s[2 * k + 1])->0) as u8
}

pub open spec fn valid_hex_len(n: nat) -> bool {
    n == 2 || n == 4 || n == 6 || n == 8
}

/// Script-hex digits: the last byte is red, then green, blue and alpha going
/// leftwards; a missing channel is zero and a missing alpha is opaque.
pub open spec fn ssa_digits_color(d: Seq<char>) -> Color {
    let n = d.len() as int / 2;
    Color {
        r: hex_byte(d, n - 1),
        g: if n >= 2 { hex_byte(d, n - 2) } else { 0 },
        b: if n >= 3 { hex_byte(d, n - 3) } else { 0 },
        a: if n == 4 { hex_byte(d, 0) } else { 255 },
    }
}

/// Web hex digits: red, green, blue in order, or alpha then red, green, blue
/// when there are four bytes; a missing channel is zero and a missing alpha is opaque.
pub open spec fn vtt_digits_color(d: Seq<char>) -> Color {
    let n = d.len() as int / 2;
    if n == 4 {
        Color { r: hex_byte(d, 1), g: hex_byte(d, 2), b: hex_byte(d, 3), a: hex_byte(d, 0) }
    } else {
        Color {
            r: hex_byte(d, 0),
            g: if n >= 2 { hex_byte(d, 1) } else { 0 },
            b: if n >= 3 { hex_byte(d, 2) } else { 0 },
            a: 255,
        }
    }
}

pub open spec fn hex_digits_result(d: Seq<char>, web: bool) -> Result<Color, ColorError> {
    if !valid_hex_len(d.len()) {
        Err(ColorError::InvalidLength)
    } else if !all_hex(d) {
        Err(ColorError::InvalidDigit)
    } else if web {
        Ok(vtt_digits_color(d))
    } else {
        Ok(ssa_digits_color(d))
    }
}

/// What reading a script-hex color gives.
pub open spec fn ssa_color_spec(s: Seq<char>) -> Result<Color, ColorError> {
    if s.len() >= 2 && s[0] == '&' && s[1] == 'H' {
        hex_digits_result(s.skip(2), false)
    } else {
        Err(ColorError::InvalidLength)
    }
}

/// What reading a web color gives: `#` and hex digits, or a color name in any case.
pub open spec fn vtt_color_spec(s: Seq<char>) -> Result<Color, ColorError> {
    if s.len() >= 1 && s[0] == '#' {
        hex_digits_result(s.skip(1), true)
    } else {
        match named_color(s.map_values(|c: char| ascii_lower(c))) {
            Some(c) => Ok(c),
            None => Err(ColorError::UnknownName),
        }
    }
}

/// The color that a lower-case CSS color name stands for.
pub open spec fn named_color(s: Seq<char>) -> Option<Color> {
    if s == "aliceblue"@ {
        Some(Color { r: 240, g: 248, b: 255, a: 255 })
    } else if s == "antiquewhite"@ {
        Some(Color { r: 250, g: 235, b: 215, a: 255 })
    } else if s == "aqua"@ {
        Some(Color { r: 0, g: 255, b: 255, a: 255 })
    } else if s == "aquamarine"@ {
        Some(Color { r: 127, g: 255, b: 212, a: 255 })
    } else if s == "azure"@ {
        Some(Color { r: 240, g: 255, b: 255, a: 255 })
    } else if s == "beige"@ {
        Some(Color { r: 245, g: 245, b: 220, a: 255 })
    } else if s == "bisque"@ {
        Some(Color { r: 255, g: 228, b: 196, a: 255 })
    } else if s == "black"@ {
        Some(Color { r: 0, g: 0, b: 0, a: 255 })
    } else if s == "blanchedalmond"@ {
        Some(Color { r: 255, g: 235, b: 205, a: 255 })
    } else if s == "blue"@ {
        Some(Color { r: 0, g: 0, b: 255, a: 255 })
    } else if s == "blueviolet"@ {
        Some(Color { r: 138, g: 43, b: 226, a: 255 })
    } else if s == "brown"@ {
        Some(Color { r: 165, g: 42, b: 42, a: 255 })
    } else if s == "burlywood"@ {
        Some(Color { r: 222, g: 184, b: 135, a: 255 })
    } else if s == "cadetblue"@ {
        Some(Color { r: 95, g: 158, b: 160, a: 255 })
    } else if s == "chartreuse"@ {
        Some(Color { r: 127, g: 255, b: 0, a: 255 })
    } else if s == "chocolate"@ {
        Some(Color { r: 210, g: 105, b: 30, a: 255 })
    } else if s == "coral"@ {
        Some(Color { r: 255, g: 127, b: 80, a: 255 })
    } else if s == "cornflowerblue"@ {
        Some(Color { r: 100, g: 149, b: 237, a: 255 })
    } else if s == "cornsilk"@ {
        Some(Color { r: 255, g: 248, b: 220, a: 255 })
    } else if s == "crimson"@ {
        Some(Color { r: 220, g: 20, b: 60, a: 255 })
    } else if s == "cyan"@ {
        Some(Color { r: 0, g: 255, b: 255, a: 255 })
    } else if s == "darkblue"@ {
        Some(Color { r: 0, g: 0, b: 139, a: 255 })
    } else if s == "darkcyan"@ {
        Some(Color { r: 0, g: 139, b: 139, a: 255 })
    } else if s == "darkgoldenrod"@ {
        Some(Color { r: 184, g: 134, b: 11, a: 255 })
    } else if s == "darkgray"@ {
        Some(Color { r: 169, g: 169, b: 169, a: 255 })
    } else if s == "darkgrey"@ {
        Some(Color { r: 169, g: 169, b: 169, a: 255 })
    } else if s == "darkgreen"@ {
        Some(Color { r: 0, g: 100, b: 0, a: 255 })
    } else if s == "darkkhaki"@ {
        Some(Color { r: 189, g: 183, b: 107, a: 255 })
    } else if s == "darkmagenta"@ {
        Some(Color { r: 139, g: 0, b: 139, a: 255 })
    } else if s == "darkolivegreen"@ {
        Some(Color { r: 85, g: 107, b: 47, a: 255 })
    } else if s == "darkorange"@ {
        Some(Color { r: 255, g: 140, b: 0, a: 255 })
    } else if s == "darkorchid"@ {
        Some(Color { r: 153, g: 50, b: 204, a: 255 })
    } else if s == "darkred"@ {
        Some(Color { r: 139, g: 0, b: 0, a: 255 })
    } else if s == "darksalmon"@ {
        Some(Color { r: 233, g: 150, b: 122, a: 255 })
    } else if s == "darkseagreen"@ {
        Some(Color { r: 143, g: 188, b: 143, a: 255 })
    } else if s == "darkslateblue"@ {
        Some(Color { r: 72, g: 61, b: 139, a: 255 })
    } else if s == "darkslategray"@ {
        Some(Color { r: 47, g: 79, b: 79, a: 255 })
    } else if s == "darkslategrey"@ {
        Some(Color { r: 47, g: 79, b: 79, a: 255 })
    } else if s == "darkturquoise"@ {
        Some(Color { r: 0, g: 206, b: 209, a: 255 })
    } else if s == "darkviolet"@ {
        Some(Color { r: 148, g: 0, b: 211, a: 255 })
    } else if s == "deeppink"@ {
        Some(Color { r: 255, g: 20, b: 147, a: 255 })
    } else if s == "deepskyblue"@ {
        Some(Color { r: 0, g: 191, b: 255, a: 255 })
    } else if s == "dimgray"@ {
        Some(Color { r: 105, g: 105, b: 105, a: 255 })
    } else if s == "dimgrey"@ {
        Some(Color { r: 105, g: 105, b: 105, a: 255 })
    } else if s == "dodgerblue"@ {
        Some(Color { r: 30, g: 144, b: 255, a: 255 })
    } else if s == "firebrick"@ {
        Some(Color { r: 178, g: 34, b: 34, a: 255 })
    } else if s == "floralwhite"@ {
        Some(Color { r: 255, g: 250, b: 240, a: 255 })
    } else if s == "forestgreen"@ {
        Some(Color { r: 34, g: 139, b: 34, a: 255 })
    } else if s == "fuchsia"@ {
        Some(Color { r: 255, g: 0, b: 255, a: 255 })
    } else if s == "gainsboro"@ {
        Some(Color { r: 220, g: 220, b: 220, a: 255 })
    } else if s == "ghostwhite"@ {
        Some(Color { r: 248, g: 248, b: 255, a: 255 })
    } else if s == "gold"@ {
        Some(Color { r: 255, g: 215, b: 0, a: 255 })
    } else if s == "goldenrod"@ {
        Some(Color { r: 218, g: 165, b: 32, a: 255 })
    } else if s == "gray"@ {
        Some(Color { r: 128, g: 128, b: 128, a: 255 })
    } else if s == "grey"@ {
        Some(Color { r: 128, g: 128, b: 128, a: 255 })
    } else if s == "green"@ {
        Some(Color { r: 0, g: 128, b: 0, a: 255 })
    } else if s == "greenyellow"@ {
        Some(Color { r: 173, g: 255, b: 47, a: 255 })
    } else if s == "honeydew"@ {
        Some(Color { r: 240, g: 255, b: 240, a: 255 })
    } else if s == "hotpink"@ {
        Some(Color { r: 255, g: 105, b: 180, a: 255 })
    } else if s == "ivory"@ {
        Some(Color { r: 255, g: 255, b: 240, a: 255 })
    } else if s == "khaki"@ {
        Some(Color { r: 240, g: 230, b: 140, a: 255 })
    } else if s == "lavender"@ {
        Some(Color { r: 230, g: 230, b: 250, a: 255 })
    } else if s == "lavenderblush"@ {
        Some(Color { r: 255, g: 240, b: 245, a: 255 })
    } else if s == "lawngreen"@ {
        Some(Color { r: 124, g: 252, b: 0, a: 255 })
    } else if s == "lemonchiffon"@ {
        Some(Color { r: 255, g: 250, b: 205, a: 255 })
    } else if s == "lightblue"@ {
        Some(Color { r: 173, g: 216, b: 230, a: 255 })
    } else if s == "lightcoral"@ {
        Some(Color { r: 240, g: 128, b: 128, a: 255 })
    } else if s == "lightcyan"@ {
        Some(Color { r: 224, g: 255, b: 255, a: 255 })
    } else if s == "lightgoldenrodyellow"@ {
        Some(Color { r: 250, g: 250, b: 210, a: 255 })
    } else if s == "lightgray"@ {
        Some(Color { r: 211, g: 211, b: 211, a: 255 })
    } else if s == "lightgrey"@ {
        Some(Color { r: 211, g: 211, b: 211, a: 255 })
    } else if s == "lightgreen"@ {
        Some(Color { r: 144, g: 238, b: 144, a: 255 })
    } else if s == "lightpink"@ {
        Some(Color { r: 255, g: 182, b: 193, a: 255 })
    } else if s == "lightsalmon"@ {
        Some(Color { r: 255, g: 160, b: 122, a: 255 })
    } else if s == "lightseagreen"@ {
        Some(Color { r: 32, g: 178, b: 170, a: 255 })
    } else if s == "lightskyblue"@ {
        Some(Color { r: 135, g: 206, b: 250, a: 255 })
    } else if s == "lightslategray"@ {
        Some(Color { r: 119, g: 136, b: 153, a: 255 })
    } else if s == "lightslategrey"@ {
        Some(Color { r: 119, g: 136, b: 153, a: 255 })
    } else if s == "lightsteelblue"@ {
        Some(Color { r: 176, g: 196, b: 222, a: 255 })
    } else if s == "lightyellow"@ {
        Some(Color { r: 255, g: 255, b: 224, a: 255 })
    } else if s == "lime"@ {
        Some(Color { r: 0, g: 255, b: 0, a: 255 })
    } else if s == "limegreen"@ {
        Some(Color { r: 50, g: 205, b: 50, a: 255 })
    } else if s == "linen"@ {
        Some(Color { r: 250, g: 240, b: 230, a: 255 })
    } else if s == "magenta"@ {
        Some(Color { r: 255, g: 0, b: 255, a: 255 })
    } else if s == "maroon"@ {
        Some(Color { r: 128, g: 0, b: 0, a: 255 })
    } else if s == "mediumaquamarine"@ {
        Some(Color { r: 102, g: 205, b: 170, a: 255 })
    } else if s == "mediumblue"@ {
        Some(Color { r: 0, g: 0, b: 205, a: 255 })
    } else if s == "mediumorchid"@ {
        Some(Color { r: 186, g: 85, b: 211, a: 255 })
    } else if s == "mediumpurple"@ {
        Some(Color { r: 147, g: 112, b: 219, a: 255 })
    } else if s == "mediumseagreen"@ {
        Some(Color { r: 60, g: 179, b: 113, a: 255 })
    } else if s == "mediumslateblue"@ {
        Some(Color { r: 123, g: 104, b: 238, a: 255 })
    } else if s == "mediumspringgreen"@ {
        Some(Color { r: 0, g: 250, b: 154, a: 255 })
    } else if s == "mediumturquoise"@ {
        Some(Color { r: 72, g: 209, b: 204, a: 255 })
    } else if s == "mediumvioletred"@ {
        Some(Color { r: 199, g: 21, b: 133, a: 255 })
    } else if s == "midnightblue"@ {
        Some(Color { r: 25, g: 25, b: 112, a: 255 })
    } else if s == "mintcream"@ {
        Some(Color { r: 245, g: 255, b: 250, a: 255 })
    } else if s == "mistyrose"@ {
        Some(Color { r: 255, g: 228, b: 225, a: 255 })
    } else if s == "moccasin"@ {
        Some(Color { r: 255, g: 228, b: 181, a: 255 })
    } else if s == "navajowhite"@ {
        Some(Color { r: 255, g: 222, b: 173, a: 255 })
    } else if s == "navy"@ {
        Some(Color { r: 0, g: 0, b: 128, a: 255 })
    } else if s == "oldlace"@ {
        Some(Color { r: 253, g: 245, b: 230, a: 255 })
    } else if s == "olive"@ {
        Some(Color { r: 128, g: 128, b: 0, a: 255 })
    } else if s == "olivedrab"@ {
        Some(Color { r: 107, g: 142, b: 35, a: 255 })
    } else if s == "orange"@ {
        Some(Color { r: 255, g: 165, b: 0, a: 255 })
    } else if s == "orangered"@ {
        Some(Color { r: 255, g: 69, b: 0, a: 255 })
    } else if s == "orchid"@ {
        Some(Color { r: 218, g: 112, b: 214, a: 255 })
    } else if s == "palegoldenrod"@ {
        Some(Color { r: 238, g: 232, b: 170, a: 255 })
    } else if s == "palegreen"@ {
        Some(Color { r: 152, g: 251, b: 152, a: 255 })
    } else if s == "paleturquoise"@ {
        Some(Color { r: 175, g: 238, b: 238, a: 255 })
    } else if s == "palevioletred"@ {
        Some(Color { r: 219, g: 112, b: 147, a: 255 })
    } else if s == "papayawhip"@ {
        Some(Color { r: 255, g: 239, b: 213, a: 255 })
    } else if s == "peachpuff"@ {
        Some(Color { r: 255, g: 218, b: 185, a: 255 })
    } else if s == "peru"@ {
        Some(Color { r: 205, g: 133, b: 63, a: 255 })
    } else if s == "pink"@ {
        Some(Color { r: 255, g: 192, b: 203, a: 255 })
    } else if s == "plum"@ {
        Some(Color { r: 221, g: 160, b: 221, a: 255 })
    } else if s == "powderblue"@ {
        Some(Color { r: 176, g: 224, b: 230, a: 255 })
    } else if s == "purple"@ {
        Some(Color { r: 128, g: 0, b: 128, a: 255 })
    } else if s == "rebeccapurple"@ {
        Some(Color { r: 102, g: 51, b: 153, a: 255 })
    } else if s == "red"@ {
        Some(Color { r: 255, g: 0, b: 0, a: 255 })
    } else if s == "rosybrown"@ {
        Some(Color { r: 188, g: 143, b: 143, a: 255 })
    } else if s == "royalblue"@ {
        Some(Color { r: 65, g: 105, b: 225, a: 255 })
    } else if s == "saddlebrown"@ {
        Some(Color { r: 139, g: 69, b: 19, a: 255 })
    } else if s == "salmon"@ {
        Some(Color { r: 250, g: 128, b: 114, a: 255 })
    } else if s == "sandybrown"@ {
        Some(Color { r: 244, g: 164, b: 96, a: 255 })
    } else if s == "seagreen"@ {
        Some(Color { r: 46, g: 139, b: 87, a: 255 })
    } else if s == "seashell"@ {
        Some(Color { r: 255, g: 245, b: 238, a: 255 })
    } else if s == "sienna"@ {
        Some(Color { r: 160, g: 82, b: 45, a: 255 })
    } else if s == "silver"@ {
        Some(Color { r: 192, g: 192, b: 192, a: 255 })
    } else if s == "skyblue"@ {
        Some(Color { r: 135, g: 206, b: 235, a: 255 })
    } else if s == "slateblue"@ {
        Some(Color { r: 106, g: 90, b: 205, a: 255 })
    } else if s == "slategray"@ {
        Some(Color { r: 112, g: 128, b: 144, a: 255 })
    } else if s == "slategrey"@ {
        Some(Color { r: 112, g: 128, b: 144, a: 255 })
    } else if s == "snow"@ {
        Some(Color { r: 255, g: 250, b: 250, a: 255 })
    } else if s == "springgreen"@ {
        Some(Color { r: 0, g: 255, b: 127, a: 255 })
    } else if s == "steelblue"@ {
        Some(Color { r: 70, g: 130, b: 180, a: 255 })
    } else if s == "tan"@ {
        Some(Color { r: 210, g: 180, b: 140, a: 255 })
    } else if s == "teal"@ {
        Some(Color { r: 0, g: 128, b: 128, a: 255 })
    } else if s == "thistle"@ {
        Some(Color { r: 216, g: 191, b: 216, a: 255 })
    } else if s == "tomato"@ {
        Some(Color { r: 255, g: 99, b: 71, a: 255 })
    } else if s == "turquoise"@ {
        Some(Color { r: 64, g: 224, b: 208, a: 255 })
    } else if s == "violet"@ {
        Some(Color { r: 238, g: 130, b: 238, a: 255 })
    } else if s == "wheat"@ {
        Some(Color { r: 245, g: 222, b: 179, a: 255 })
    } else if s == "white"@ {
        Some(Color { r: 255, g: 255, b: 255, a: 255 })
    } else if s == "whitesmoke"@ {
        Some(Color { r: 245, g: 245, b: 245, a: 255 })
    } else if s == "yellow"@ {
        Some(Color { r: 255, g: 255, b: 0, a: 255 })
    } else if s == "yellowgreen"@ {
        Some(Color { r: 154, g: 205, b: 50, a: 255 })
    } else {
        None
    }
}

/// The upper-case hex digit of `d`.
pub open spec fn hex_char(d: nat) -> char {
    if d < 10 {
        (d + '0' as nat) as char
    } else {
        (d - 10 + 'A' as nat) as char
    }
}

/// Two upper-case hex digits for a byte.
pub open spec fn hex2(v: u8) -> Seq<char> {
    seq![hex_char(v as nat / 16), hex_char(v as nat % 16)]
}

impl Color {
    /// `&HBBGGRR` when opaque, else `&HAABBGGRR`.
    pub open spec fn spec_ssa_string(self) -> Seq<char> {
        if self.a == 255 {
            seq!['&', 'H'] + hex2(self.b) + hex2(self.g) + hex2(self.r)
        } else {
            seq!['&', 'H'] + hex2(self.a) + hex2(self.b) + hex2(self.g) + hex2(self.r)
        }
    }

    /// `#RRGGBB` when opaque, else `#RRGGBBAA`.
    pub open spec fn spec_vtt_string(self) -> Seq<char> {
        if self.a == 255 {
            seq!['#'] + hex2(self.r) + hex2(self.g) + hex2(self.b)
        } else {
            seq!['#'] + hex2(self.r) + hex2(self.g) + hex2(self.b) + hex2(self.a)
        }
    }

    pub fn new(r: u8, g: u8, b: u8, a: u8) -> (c: Color)
        ensures
            c == (Color { r, g, b, a }),
    {
        Color { r, g, b, a }
    }

    pub fn white() -> (c: Color)
        ensures
            c == opaque_white(),
    {
        Color { r: 255, g: 255, b: 255, a: 255 }
    }

    pub fn black() -> (c: Color)
        ensures
            c == opaque_black(),
    {
        Color { r: 0, g: 0, b: 0, a: 255 }
    }

    pub fn transparent() -> (c: Color)
        ensures
            c == transparent(),
    {
        Color { r: 0, g: 0, b: 0, a: 0 }
    }

    /// Reads a script-hex color: `&H` and 2, 4, 6 or 8 hex digits.
    pub fn from_ssa(s: &str) -> (r: Result<Color, ColorError>)
        ensures
            r == ssa_color_spec(s@),
    {
        let v = chars_of(s);
        color_from_ssa_chars(v.as_slice())
    }

    /// Reads a web color: `#` and 2, 4, 6 or 8 hex digits, or a CSS color name.
    pub fn from_vtt(s: &str) -> (r: Result<Color, ColorError>)
        ensures
            r == vtt_color_spec(s@),
    {
        let v = chars_of(s);
        color_from_vtt_chars(v.as_slice())
    }

    pub fn ssa_chars(&self) -> (r: Vec<char>)
        ensures
            r@ == self.spec_ssa_string(),
    {
        let mut out: Vec<char> = Vec::new();
        out.push('&');
        out.push('H');
        if self.a != 255 {
            push_hex2(&mut out, self.a);
        }
        push_hex2(&mut out, self.b);
        push_hex2(&mut out, self.g);
        push_hex2(&mut out, self.r);
        assert(out@ =~= self.spec_ssa_string());
        out
    }

    pub fn vtt_chars(&self) -> (r: Vec<char>)
        ensures
            r@ == self.spec_vtt_string(),
    {
        let mut out: Vec<char> = Vec::new();
        out.push('#');
        push_hex2(&mut out, self.r);
        push_hex2(&mut out, self.g);
        push_hex2(&mut out, self.b);
        if self.a != 255 {
            push_hex2(&mut out, self.a);
        }
        assert(out@ =~= self.spec_vtt_string());
        out
    }

    /// The script-hex form: six digits when opaque, else eight with the alpha first.
    pub fn to_ssa_string(&self) -> (r: String)
        ensures
            r@ == self.spec_ssa_string(),
    {
        string_of(self.ssa_chars().as_slice())
    }

    /// The web form: six digits when opaque, else eight with the alpha last.
    pub fn to_vtt_string(&self) -> (r: String)
        ensures
            r@ == self.spec_vtt_string(),
    {
        string_of(self.vtt_chars().as_slice())
    }
}

fn hex_char_exec(d: u8) -> (r: char)
    requires
        d < 16,
    ensures
        r == hex_char(d as nat),
{
    if d < 10 {
        (d + 48) as char
    } else {
        (d - 10 + 65) as char
    }
}

fn push_hex2(out: &mut Vec<char>, v: u8)
    ensures
        final(out)@ == old(out)@ + hex2(v),
{
    out.push(hex_char_exec(v / 16));
    out.push(hex_char_exec(v % 16));
    assert(final(out)@ =~= old(out)@ + hex2(v));
}

fn hex_value_exec(c: char) -> (r: Option<u8>)
    ensures
        match hex_value(c) {
            Some(v) => r == Some(v as u8) && v < 16,
            None => r is None,
        },
{
    if '0' <= c && c <= '9' {
        Some((c as u32 - '0' as u32) as u8)
    } else if 'a' <= c && c <= 'f' {
        Some((c as u32 - 'a' as u32 + 10) as u8)
    } else if 'A' <= c && c <= 'F' {
        Some((c as u32 - 'A' as u32 + 10) as u8)
    } else {
        None
    }
}

/// The bytes of a run of hex digits of even length, or `InvalidDigit`.
fn hex_bytes(d: &[char]) -> (r: Result<Vec<u8>, ColorError>)
    requires
        d@.len() % 2 == 0,
    ensures
        match r {
            Ok(v) => all_hex(d@) && v@.len() == d@.len() / 2 && forall|k: int|
                0 <= k < v@.len() ==> v@[k] == #[trigger] hex_byte(d@, k),
            Err(e) => !all_hex(d@) && e == ColorError::InvalidDigit,
        },
{
    let mut v: Vec<u8> = Vec::new();
    let mut i: usize = 0;
    let n = d.len();
    while i < n / 2
        invariant
            n == d@.len(),
            n % 2 == 0,
            i <= n / 2,
            v@.len() == i,
            forall|m: int| 0 <= m < 2 * i ==> (#[trigger] hex_value(d@[m])) is Some,
            forall|k: int| 0 <= k < i ==> v@[k] == #[trigger] hex_byte(d@, k),
        decreases n / 2 - i,
    {
        let hi = match hex_value_exec(d[2 * i]) {
            Some(x) => x,
            None => return Err(ColorError::InvalidDigit),
        };
        let lo = match hex_value_exec(d[2 * i + 1]) {
            Some(x) => x,
            None => return Err(ColorError::InvalidDigit),
        };
        v.push(hi * 16 + lo);
        i += 1;
    }
    Ok(v)
}

fn hex_digits_exec(d: &[char], web: bool) -> (r: Result<Color, ColorError>)
    ensures
        r == hex_digits_result(d@, web),
{
    let n = d.len();
    if !(n == 2 || n == 4 || n == 6 || n == 8) {
        return Err(ColorError::InvalidLength);
    }
    let v = match hex_bytes(d) {
        Ok(v) => v,
        Err(e) => return Err(e),
    };
    let k = v.len();
    if web {
        if k == 4 {
            Ok(Color { r: v[1], g: v[2], b: v[3], a: v[0] })
        } else {
            Ok(Color {
                r: v[0],
                g: if k >= 2 { v[1] } else { 0 },
                b: if k >= 3 { v[2] } else { 0 },
                a: 255,
            })
        }
    } else {
        Ok(Color {
            r: v[k - 1],
            g: if k >= 2 { v[k - 2] } else { 0 },
            b: if k >= 3 { v[k - 3] } else { 0 },
            a: if k == 4 { v[0] } else { 255 },
        })
    }
}

pub fn color_from_ssa_chars(s: &[char]) -> (r: Result<Color, ColorError>)
    ensures
        r == ssa_color_spec(s@),
{
    if s.len() >= 2 && s[0] == '&' && s[1] == 'H' {
        let mut d: Vec<char> = Vec::new();
        let mut i: usize = 2;
        while i < s.len()
            invariant
                2 <= i <= s@.len(),
                d@ == s@.subrange(2, i as int),
            decreases s.len() - i,
        {
            d.push(s[i]);
            i += 1;
            assert(d@ =~= s@.subrange(2, i as int));
        }
        assert(d@ =~= s@.skip(2));
        hex_digits_exec(d.as_slice(), false)
    } else {
        Err(ColorError::InvalidLength)
    }
}

pub fn color_from_vtt_chars(s: &[char]) -> (r: Result<Color, ColorError>)
    ensures
        r == vtt_color_spec(s@),
{
    if s.len() >= 1 && s[0] == '#' {
        let mut d: Vec<char> = Vec::new();
        let mut i: usize = 1;
        while i < s.len()
            invariant
                1 <= i <= s@.len(),
                d@ == s@.subrange(1, i as int),
            decreases s.len() - i,
        {
            d.push(s[i]);
            i += 1;
            assert(d@ =~= s@.subrange(1, i as int));
        }
        assert(d@ =~= s@.skip(1));
        hex_digits_exec(d.as_slice(), true)
    } else {
        let mut low: Vec<char> = Vec::new();
        let mut i: usize = 0;
        while i < s.len()
            invariant
                i <= s@.len(),
                low@ == s@.take(i as int).map_values(|c: char| ascii_lower(c)),
            decreases s.len() - i,
        {
            low.push(crate::text::ascii_lower_exec(s[i]));
            i += 1;
            assert(low@ =~= s@.take(i as int).map_values(|c: char| ascii_lower(c)));
        }
        assert(s@.take(s@.len() as int) =~= s@);
        match named_color_exec(low.as_slice()) {
            Some(c) => Ok(c),
            None => Err(ColorError::UnknownName),
        }
    }
}

#[verifier::rlimit(50)]
fn named_color_exec(s: &[char]) -> (r: Option<Color>)
    ensures
        r == named_color(s@),
{
    if eq_chars(s, chars_of("aliceblue").as_slice()) {
        return Some(Color { r: 240, g: 248, b: 255, a: 255 });
    }
    if eq_chars(s, chars_of("antiquewhite").as_slice()) {
        return Some(Color { r: 250, g: 235, b: 215, a: 255 });
    }
    if eq_chars(s, chars_of("aqua").as_slice()) {
        return Some(Color { r: 0, g: 255, b: 255, a: 255 });
    }
    if eq_chars(s, chars_of("aquamarine").as_slice()) {
        return Some(Color { r: 127, g: 255, b: 212, a: 255 });
    }
    if eq_chars(s, chars_of("azure").as_slice()) {
        return Some(Color { r: 240, g: 255, b: 255, a: 255 });
    }
    if eq_chars(s, chars_of("beige").as_slice()) {
        return Some(Color { r: 245, g: 245, b: 220, a: 255 });
    }
    if eq_chars(s, chars_of("bisque").as_slice()) {
        return Some(Color { r: 255, g: 228, b: 196, a: 255 });
    }
    if eq_chars(s, chars_of("black").as_slice()) {
        return Some(Color { r: 0, g: 0, b: 0, a: 255 });
    }
    if eq_chars(s, chars_of("blanchedalmond").as_slice()) {
        return Some(Color { r: 255, g: 235, b: 205, a: 255 });
    }
    if eq_chars(s, chars_of("blue").as_slice()) {
        return Some(Color { r: 0, g: 0, b: 255, a: 255 });
    }
    if eq_chars(s, chars_of("blueviolet").as_slice()) {
        return Some(Color { r: 138, g: 43, b: 226, a: 255 });
    }
    if eq_chars(s, chars_of("brown").as_slice()) {
        return Some(Color { r: 165, g: 42, b: 42, a: 255 });
    }
    if eq_chars(s, chars_of("burlywood").as_slice()) {
        return Some(Color { r: 222, g: 184, b: 135, a: 255 });
    }
    if eq_chars(s, chars_of("cadetblue").as_slice()) {
        return Some(Color { r: 95, g: 158, b: 160, a: 255 });
    }
    if eq_chars(s, chars_of("chartreuse").as_slice()) {
        return Some(Color { r: 127, g: 255, b: 0, a: 255 });
    }
    if eq_chars(s, chars_of("chocolate").as_slice()) {
        return Some(Color { r: 210, g: 105, b: 30, a: 255 });
    }
    if eq_chars(s, chars_of("coral").as_slice()) {
        return Some(Color { r: 255, g: 127, b: 80, a: 255 });
    }
    if eq_chars(s, chars_of("cornflowerblue").as_slice()) {
        return Some(Color { r: 100, g: 149, b: 237, a: 255 });
    }
    if eq_chars(s, chars_of("cornsilk").as_slice()) {
        return Some(Color { r: 255, g: 248, b: 220, a: 255 });
    }
    if eq_chars(s, chars_of("crimson").as_slice()) {
        return Some(Color { r: 220, g: 20, b: 60, a: 255 });
    }
    if eq_chars(s, chars_of("cyan").as_slice()) {
        return Some(Color { r: 0, g: 255, b: 255, a: 255 });
    }
    if eq_chars(s, chars_of("darkblue").as_slice()) {
        return Some(Color { r: 0, g: 0, b: 139, a: 255 });
    }
    if eq_chars(s, chars_of("darkcyan").as_slice()) {
        return Some(Color { r: 0, g: 139, b: 139, a: 255 });
    }
    if eq_chars(s, chars_of("darkgoldenrod").as_slice()) {
        return Some(Color { r: 184, g: 134, b: 11, a: 255 });
    }
    if eq_chars(s, chars_of("darkgray").as_slice()) {
        return Some(Color { r: 169, g: 169, b: 169, a: 255 });
    }
    if eq_chars(s, chars_of("darkgrey").as_slice()) {
        return Some(Color { r: 169, g: 169, b: 169, a: 255 });
    }
    if eq_chars(s, chars_of("darkgreen").as_slice()) {
        return Some(Color { r: 0, g: 100, b: 0, a: 255 });
    }
    if eq_chars(s, chars_of("darkkhaki").as_slice()) {
        return Some(Color { r: 189, g: 183, b: 107, a: 255 });
    }
    if eq_chars(s, chars_of("darkmagenta").as_slice()) {
        return Some(Color { r: 139, g: 0, b: 139, a: 255 });
    }
    if eq_chars(s, chars_of("darkolivegreen").as_slice()) {
        return Some(Color { r: 85, g: 107, b: 47, a: 255 });
    }
    if eq_chars(s, chars_of("darkorange").as_slice()) {
        return Some(Color { r: 255, g: 140, b: 0, a: 255 });
    }
    if eq_chars(s, chars_of("darkorchid").as_slice()) {
        return Some(Color { r: 153, g: 50, b: 204, a: 255 });
    }
    if eq_chars(s, chars_of("darkred").as_slice()) {
        return Some(Color { r: 139, g: 0, b: 0, a: 255 });
    }
    if eq_chars(s, chars_of("darksalmon").as_slice()) {
        return Some(Color { r: 233, g: 150, b: 122, a: 255 });
    }
    if eq_chars(s, chars_of("darkseagreen").as_slice()) {
        return Some(Color { r: 143, g: 188, b: 143, a: 255 });
    }
    if eq_chars(s, chars_of("darkslateblue").as_slice()) {
        return Some(Color { r: 72, g: 61, b: 139, a: 255 });
    }
    if eq_chars(s, chars_of("darkslategray").as_slice()) {
        return Some(Color { r: 47, g: 79, b: 79, a: 255 });
    }
    if eq_chars(s, chars_of("darkslategrey").as_slice()) {
        return Some(Color { r: 47, g: 79, b: 79, a: 255 });
    }
    if eq_chars(s, chars_of("darkturquoise").as_slice()) {
        return Some(Color { r: 0, g: 206, b: 209, a: 255 });
    }
    if eq_chars(s, chars_of("darkviolet").as_slice()) {
        return Some(Color { r: 148, g: 0, b: 211, a: 255 });
    }
    if eq_chars(s, chars_of("deeppink").as_slice()) {
        return Some(Color { r: 255, g: 20, b: 147, a: 255 });
    }
    if eq_chars(s, chars_of("deepskyblue").as_slice()) {
        return Some(Color { r: 0, g: 191, b: 255, a: 255 });
    }
    if eq_chars(s, chars_of("dimgray").as_slice()) {
        return Some(Color { r: 105, g: 105, b: 105, a: 255 });
    }
    if eq_chars(s, chars_of("dimgrey").as_slice()) {
        return Some(Color { r: 105, g: 105, b: 105, a: 255 });
    }
    if eq_chars(s, chars_of("dodgerblue").as_slice()) {
        return Some(Color { r: 30, g: 144, b: 255, a: 255 });
    }
    if eq_chars(s, chars_of("firebrick").as_slice()) {
        return Some(Color { r: 178, g: 34, b: 34, a: 255 });
    }
    if eq_chars(s, chars_of("floralwhite").as_slice()) {
        return Some(Color { r: 255, g: 250, b: 240, a: 255 });
    }
    if eq_chars(s, chars_of("forestgreen").as_slice()) {
        return Some(Color { r: 34, g: 139, b: 34, a: 255 });
    }
    if eq_chars(s, chars_of("fuchsia").as_slice()) {
        return Some(Color { r: 255, g: 0, b: 255, a: 255 });
    }
    if eq_chars(s, chars_of("gainsboro").as_slice()) {
        return Some(Color { r: 220, g: 220, b: 220, a: 255 });
    }
    if eq_chars(s, chars_of("ghostwhite").as_slice()) {
        return Some(Color { r: 248, g: 248, b: 255, a: 255 });
    }
    if eq_chars(s, chars_of("gold").as_slice()) {
        return Some(Color { r: 255, g: 215, b: 0, a: 255 });
    }
    if eq_chars(s, chars_of("goldenrod").as_slice()) {
        return Some(Color { r: 218, g: 165, b: 32, a: 255 });
    }
    if eq_chars(s, chars_of("gray").as_slice()) {
        return Some(Color { r: 128, g: 128, b: 128, a: 255 });
    }
    if eq_chars(s, chars_of("grey").as_slice()) {
        return Some(Color { r: 128, g: 128, b: 128, a: 255 });
    }
    if eq_chars(s, chars_of("green").as_slice()) {
        return Some(Color { r: 0, g: 128, b: 0, a: 255 });
    }
    if eq_chars(s, chars_of("greenyellow").as_slice()) {
        return Some(Color { r: 173, g: 255, b: 47, a: 255 });
    }
    if eq_chars(s, chars_of("honeydew").as_slice()) {
        return Some(Color { r: 240, g: 255, b: 240, a: 255 });
    }
    if eq_chars(s, chars_of("hotpink").as_slice()) {
        return Some(Color { r: 255, g: 105, b: 180, a: 255 });
    }
    if eq_chars(s, chars_of("ivory").as_slice()) {
        return Some(Color { r: 255, g: 255, b: 240, a: 255 });
    }
    if eq_chars(s, chars_of("khaki").as_slice()) {
        return Some(Color { r: 240, g: 230, b: 140, a: 255 });
    }
    if eq_chars(s, chars_of("lavender").as_slice()) {
        return Some(Color { r: 230, g: 230, b: 250, a: 255 });
    }
    if eq_chars(s, chars_of("lavenderblush").as_slice()) {
        return Some(Color { r: 255, g: 240, b: 245, a: 255 });
    }
    if eq_chars(s, chars_of("lawngreen").as_slice()) {
        return Some(Color { r: 124, g: 252, b: 0, a: 255 });
    }
    if eq_chars(s, chars_of("lemonchiffon").as_slice()) {
        return Some(Color { r: 255, g: 250, b: 205, a: 255 });
    }
    if eq_chars(s, chars_of("lightblue").as_slice()) {
        return Some(Color { r: 173, g: 216, b: 230, a: 255 });
    }
    if eq_chars(s, chars_of("lightcoral").as_slice()) {
        return Some(Color { r: 240, g: 128, b: 128, a: 255 });
    }
    if eq_chars(s, chars_of("lightcyan").as_slice()) {
        return Some(Color { r: 224, g: 255, b: 255, a: 255 });
    }
    if eq_chars(s, chars_of("lightgoldenrodyellow").as_slice()) {
        return Some(Color { r: 250, g: 250, b: 210, a: 255 });
    }
    if eq_chars(s, chars_of("lightgray").as_slice()) {
        return Some(Color { r: 211, g: 211, b: 211, a: 255 });
    }
    if eq_chars(s, chars_of("lightgrey").as_slice()) {
        return Some(Color { r: 211, g: 211, b: 211, a: 255 });
    }
    if eq_chars(s, chars_of("lightgreen").as_slice()) {
        return Some(Color { r: 144, g: 238, b: 144, a: 255 });
    }
    if eq_chars(s, chars_of("lightpink").as_slice()) {
        return Some(Color { r: 255, g: 182, b: 193, a: 255 });
    }
    if eq_chars(s, chars_of("lightsalmon").as_slice()) {
        return Some(Color { r: 255, g: 160, b: 122, a: 255 });
    }
    if eq_chars(s, chars_of("lightseagreen").as_slice()) {
        return Some(Color { r: 32, g: 178, b: 170, a: 255 });
    }
    if eq_chars(s, chars_of("lightskyblue").as_slice()) {
        return Some(Color { r: 135, g: 206, b: 250, a: 255 });
    }
    if eq_chars(s, chars_of("lightslategray").as_slice()) {
        return Some(Color { r: 119, g: 136, b: 153, a: 255 });
    }
    if eq_chars(s, chars_of("lightslategrey").as_slice()) {
        return Some(Color { r: 119, g: 136, b: 153, a: 255 });
    }
    if eq_chars(s, chars_of("lightsteelblue").as_slice()) {
        return Some(Color { r: 176, g: 196, b: 222, a: 255 });
    }
    if eq_chars(s, chars_of("lightyellow").as_slice()) {
        return Some(Color { r: 255, g: 255, b: 224, a: 255 });
    }
    if eq_chars(s, chars_of("lime").as_slice()) {
        return Some(Color { r: 0, g: 255, b: 0, a: 255 });
    }
    if eq_chars(s, chars_of("limegreen").as_slice()) {
        return Some(Color { r: 50, g: 205, b: 50, a: 255 });
    }
    if eq_chars(s, chars_of("linen").as_slice()) {
        return Some(Color { r: 250, g: 240, b: 230, a: 255 });
    }
    if eq_chars(s, chars_of("magenta").as_slice()) {
        return Some(Color { r: 255, g: 0, b: 255, a: 255 });
    }
    if eq_chars(s, chars_of("maroon").as_slice()) {
        return Some(Color { r: 128, g: 0, b: 0, a: 255 });
    }
    if eq_chars(s, chars_of("mediumaquamarine").as_slice()) {
        return Some(Color { r: 102, g: 205, b: 170, a: 255 });
    }
    if eq_chars(s, chars_of("mediumblue").as_slice()) {
        return Some(Color { r: 0, g: 0, b: 205, a: 255 });
    }
    if eq_chars(s, chars_of("mediumorchid").as_slice()) {
        return Some(Color { r: 186, g: 85, b: 211, a: 255 });
    }
    if eq_chars(s, chars_of("mediumpurple").as_slice()) {
        return Some(Color { r: 147, g: 112, b: 219, a: 255 });
    }
    if eq_chars(s, chars_of("mediumseagreen").as_slice()) {
        return Some(Color { r: 60, g: 179, b: 113, a: 255 });
    }
    if eq_chars(s, chars_of("mediumslateblue").as_slice()) {
        return Some(Color { r: 123, g: 104, b: 238, a: 255 });
    }
    if eq_chars(s, chars_of("mediumspringgreen").as_slice()) {
        return Some(Color { r: 0, g: 250, b: 154, a: 255 });
    }
    if eq_chars(s, chars_of("mediumturquoise").as_slice()) {
        return Some(Color { r: 72, g: 209, b: 204, a: 255 });
    }
    if eq_chars(s, chars_of("mediumvioletred").as_slice()) {
        return Some(Color { r: 199, g: 21, b: 133, a: 255 });
    }
    if eq_chars(s, chars_of("midnightblue").as_slice()) {
        return Some(Color { r: 25, g: 25, b: 112, a: 255 });
    }
    if eq_chars(s, chars_of("mintcream").as_slice()) {
        return Some(Color { r: 245, g: 255, b: 250, a: 255 });
    }
    if eq_chars(s, chars_of("mistyrose").as_slice()) {
        return Some(Color { r: 255, g: 228, b: 225, a: 255 });
    }
    if eq_chars(s, chars_of("moccasin").as_slice()) {
        return Some(Color { r: 255, g: 228, b: 181, a: 255 });
    }
    if eq_chars(s, chars_of("navajowhite").as_slice()) {
        return Some(Color { r: 255, g: 222, b: 173, a: 255 });
    }
    if eq_chars(s, chars_of("navy").as_slice()) {
        return Some(Color { r: 0, g: 0, b: 128, a: 255 });
    }
    if eq_chars(s, chars_of("oldlace").as_slice()) {
        return Some(Color { r: 253, g: 245, b: 230, a: 255 });
    }
    if eq_chars(s, chars_of("olive").as_slice()) {
        return Some(Color { r: 128, g: 128, b: 0, a: 255 });
    }
    if eq_chars(s, chars_of("olivedrab").as_slice()) {
        return Some(Color { r: 107, g: 142, b: 35, a: 255 });
    }
    if eq_chars(s, chars_of("orange").as_slice()) {
        return Some(Color { r: 255, g: 165, b: 0, a: 255 });
    }
    if eq_chars(s, chars_of("orangered").as_slice()) {
        return Some(Color { r: 255, g: 69, b: 0, a: 255 });
    }
    if eq_chars(s, chars_of("orchid").as_slice()) {
        return Some(Color { r: 218, g: 112, b: 214, a: 255 });
    }
    if eq_chars(s, chars_of("palegoldenrod").as_slice()) {
        return Some(Color { r: 238, g: 232, b: 170, a: 255 });
    }
    if eq_chars(s, chars_of("palegreen").as_slice()) {
        return Some(Color { r: 152, g: 251, b: 152, a: 255 });
    }
    if eq_chars(s, chars_of("paleturquoise").as_slice()) {
        return Some(Color { r: 175, g: 238, b: 238, a: 255 });
    }
    if eq_chars(s, chars_of("palevioletred").as_slice()) {
        return Some(Color { r: 219, g: 112, b: 147, a: 255 });
    }
    if eq_chars(s, chars_of("papayawhip").as_slice()) {
        return Some(Color { r: 255, g: 239, b: 213, a: 255 });
    }
    if eq_chars(s, chars_of("peachpuff").as_slice()) {
        return Some(Color { r: 255, g: 218, b: 185, a: 255 });
    }
    if eq_chars(s, chars_of("peru").as_slice()) {
        return Some(Color { r: 205, g: 133, b: 63, a: 255 });
    }
    if eq_chars(s, chars_of("pink").as_slice()) {
        return Some(Color { r: 255, g: 192, b: 203, a: 255 });
    }
    if eq_chars(s, chars_of("plum").as_slice()) {
        return Some(Color { r: 221, g: 160, b: 221, a: 255 });
    }
    if eq_chars(s, chars_of("powderblue").as_slice()) {
        return Some(Color { r: 176, g: 224, b: 230, a: 255 });
    }
    if eq_chars(s, chars_of("purple").as_slice()) {
        return Some(Color { r: 128, g: 0, b: 128, a: 255 });
    }
    if eq_chars(s, chars_of("rebeccapurple").as_slice()) {
        return Some(Color { r: 102, g: 51, b: 153, a: 255 });
    }
    if eq_chars(s, chars_of("red").as_slice()) {
        return Some(Color { r: 255, g: 0, b: 0, a: 255 });
    }
    if eq_chars(s, chars_of("rosybrown").as_slice()) {
        return Some(Color { r: 188, g: 143, b: 143, a: 255 });
    }
    if eq_chars(s, chars_of("royalblue").as_slice()) {
        return Some(Color { r: 65, g: 105, b: 225, a: 255 });
    }
    if eq_chars(s, chars_of("saddlebrown").as_slice()) {
        return Some(Color { r: 139, g: 69, b: 19, a: 255 });
    }
    if eq_chars(s, chars_of("salmon").as_slice()) {
        return Some(Color { r: 250, g: 128, b: 114, a: 255 });
    }
    if eq_chars(s, chars_of("sandybrown").as_slice()) {
        return Some(Color { r: 244, g: 164, b: 96, a: 255 });
    }
    if eq_chars(s, chars_of("seagreen").as_slice()) {
        return Some(Color { r: 46, g: 139, b: 87, a: 255 });
    }
    if eq_chars(s, chars_of("seashell").as_slice()) {
        return Some(Color { r: 255, g: 245, b: 238, a: 255 });
    }
    if eq_chars(s, chars_of("sienna").as_slice()) {
        return Some(Color { r: 160, g: 82, b: 45, a: 255 });
    }
    if eq_chars(s, chars_of("silver").as_slice()) {
        return Some(Color { r: 192, g: 192, b: 192, a: 255 });
    }
    if eq_chars(s, chars_of("skyblue").as_slice()) {
        return Some(Color { r: 135, g: 206, b: 235, a: 255 });
    }
    if eq_chars(s, chars_of("slateblue").as_slice()) {
        return Some(Color { r: 106, g: 90, b: 205, a: 255 });
    }
    if eq_chars(s, chars_of("slategray").as_slice()) {
        return Some(Color { r: 112, g: 128, b: 144, a: 255 });
    }
    if eq_chars(s, chars_of("slategrey").as_slice()) {
        return Some(Color { r: 112, g: 128, b: 144, a: 255 });
    }
    if eq_chars(s, chars_of("snow").as_slice()) {
        return Some(Color { r: 255, g: 250, b: 250, a: 255 });
    }
    if eq_chars(s, chars_of("springgreen").as_slice()) {
        return Some(Color { r: 0, g: 255, b: 127, a: 255 });
    }
    if eq_chars(s, chars_of("steelblue").as_slice()) {
        return Some(Color { r: 70, g: 130, b: 180, a: 255 });
    }
    if eq_chars(s, chars_of("tan").as_slice()) {
        return Some(Color { r: 210, g: 180, b: 140, a: 255 });
    }
    if eq_chars(s, chars_of("teal").as_slice()) {
        return Some(Color { r: 0, g: 128, b: 128, a: 255 });
    }
    if eq_chars(s, chars_of("thistle").as_slice()) {
        return Some(Color { r: 216, g: 191, b: 216, a: 255 });
    }
    if eq_chars(s, chars_of("tomato").as_slice()) {
        return Some(Color { r: 255, g: 99, b: 71, a: 255 });
    }
    if eq_chars(s, chars_of("turquoise").as_slice()) {
        return Some(Color { r: 64, g: 224, b: 208, a: 255 });
    }
    if eq_chars(s, chars_of("violet").as_slice()) {
        return Some(Color { r: 238, g: 130, b: 238, a: 255 });
    }
    if eq_chars(s, chars_of("wheat").as_slice()) {
        return Some(Color { r: 245, g: 222, b: 179, a: 255 });
    }
    if eq_chars(s, chars_of("white").as_slice()) {
        return Some(Color { r: 255, g: 255, b: 255, a: 255 });
    }
    if eq_chars(s, chars_of("whitesmoke").as_slice()) {
        return Some(Color { r: 245, g: 245, b: 245, a: 255 });
    }
    if eq_chars(s, chars_of("yellow").as_slice()) {
        return Some(Color { r: 255, g: 255, b: 0, a: 255 });
    }
    if eq_chars(s, chars_of("yellowgreen").as_slice()) {
        return Some(Color { r: 154, g: 205, b: 50, a: 255 });
    }
    None
}

} // verus!
