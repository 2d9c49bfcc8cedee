//! Colors and their hexadecimal notation.

use crate::text;
use vstd::prelude::*;
use vstd::string::StrSliceExecFns;
use vstd::string::StringExecFns;

verus! {

/// An RGBA color, parsed from a `"#rrggbb"` (opaque) or `"#rrggbbaa"` hex string.
///
/// The leading `#` is optional in either form. Six hex digits yield an opaque
/// color; eight carry an explicit alpha channel, which is what makes transparent
/// bars and translucent pills expressible in the config.
#[derive(Debug, Clone, Copy, PartialEq, Eq, Structural)]
pub struct Color {
    /// Red channel.
    pub r: u8,
    /// Green channel.
    pub g: u8,
    /// Blue channel.
    pub b: u8,
    /// Alpha channel; `0xFF` is fully opaque, `0x00` fully transparent.
    pub a: u8,
}

/// The value of a hexadecimal digit, in either case.
pub open spec fn hex_value(c: char) -> Option<int> {
    if '0' <= c <= '9' {
        Some(c as int - '0' as int)
    } else if 'a' <= c <= 'f' {
        Some(c as int - 'a' as int + 10)
    } else if 'A' <= c <= 'F' {
        Some(c as int - 'A' as int + 10)
    } else {
        None
    }
}

/// The digits of a color: `s` without the `#` it may begin with.
pub open spec fn hex_digits(s: Seq<char>) -> Seq<char> {
    if s.len() > 0 && s[0] == '#' {
        s.skip(1)
    } else {
        s
    }
}

/// Six or eight hexadecimal digits.
pub open spec fn is_hex_color(digits: Seq<char>) -> bool {
    &&& digits.len() == 6 || digits.len() == 8
    &&& forall|i: int| 0 <= i < digits.len() ==> hex_value(#[trigger] digits[i]) is Some
}

/// The channel whose two digits begin at `i`.
pub open spec fn hex_channel(digits: Seq<char>, i: int) -> u8 {
    (hex_value(digits[i])->0 * 16 + hex_value(digits[i + 1])->0) as u8
}

/// The color a hex string denotes, if it denotes one.
pub open spec fn color_of_hex(s: Seq<char>) -> Option<Color> {
    let digits = hex_digits(s);
    if is_hex_color(digits) {
        Some(
            Color {
                r: hex_channel(digits, 0),
                g: hex_channel(digits, 2),
                b: hex_channel(digits, 4),
                a: if digits.len() == 8 {
                    hex_channel(digits, 6)
                } else {
                    0xFF
                },
            },
        )
    } else {
        None
    }
}

/// What `std`'s `Debug` writes for a string: the text in double quotes, with
/// special characters escaped.
pub uninterp spec fn debug_quoted(s: Seq<char>) -> Seq<char>;

/// `std`'s `Debug` rendering of a string slice. The result is named and not
/// stated: which characters are escaped, and how, goes by Unicode tables.
#[verifier::external_body]
pub(crate) fn quoted(s: &str) -> (shown: String)
    ensures
        shown@ == debug_quoted(s@),
{
    format!("{s:?}")
}

/// The message for a string that denotes no color, given the string in quotes.
pub open spec fn hex_message(shown: Seq<char>) -> Seq<char> {
    "invalid color "@ + shown + ": expected a \"#rrggbb\" or \"#rrggbbaa\" hex string"@
}

/// Compose the message for a string that denotes no color, given the string in
/// quotes.
pub fn invalid_hex_message(shown: &str) -> (message: String)
    ensures
        message@ == hex_message(shown@),
{
    let mut message: String = text::joined("invalid color ", shown);
    message.append(": expected a \"#rrggbb\" or \"#rrggbbaa\" hex string");
    message
}

fn hex_digit(c: char) -> (value: Option<u8>)
    ensures
        match value {
            Some(v) => hex_value(c) == Some(v as int) && v < 16,
            None => hex_value(c) is None,
        },
{
    if '0' <= c && c <= '9' {
        Some((c as u32 - '0' as u32) as u8)
    } else if 'a' <= c && c <= 'f' {
        Some((c as u32 - 'a' as u32 + 10) as u8)
    } else if 'A' <= c && c <= 'F' {
        Some((c as u32 - 'A' as u32 + 10) as u8)
    } else {
        None
    }
}

impl Color {
    /// Construct an opaque color from its RGB channels.
    pub fn rgb(r: u8, g: u8, b: u8) -> (color: Self)
        ensures
            color == (Color { r, g, b, a: 0xFF }),
    {
        Color { r, g, b, a: 0xFF }
    }

    /// Construct a color from its RGBA channels.
    pub fn rgba(r: u8, g: u8, b: u8, a: u8) -> (color: Self)
        ensures
            color == (Color { r, g, b, a }),
    {
        Color { r, g, b, a }
    }

    /// The color as an `(r, g, b)` tuple, dropping alpha.
    pub fn to_rgb(self) -> (channels: (u8, u8, u8))
        ensures
            channels == (self.r, self.g, self.b),
    {
        (self.r, self.g, self.b)
    }

    /// The channels of the color, the form the renderer consumes.
    pub open spec fn channels(self) -> (u8, u8, u8, u8) {
        (self.r, self.g, self.b, self.a)
    }

    /// The color as an `(r, g, b, a)` tuple, the form the renderer consumes.
    pub fn to_rgba(self) -> (channels: (u8, u8, u8, u8))
        ensures
            channels == self.channels(),
    {
        (self.r, self.g, self.b, self.a)
    }

    /// Parse a `#rrggbb` / `#rrggbbaa` hex string (the `#` is optional) into a color.
    ///
    /// Six hex digits give an opaque color (alpha `0xFF`); eight set an explicit
    /// alpha. Any other length, or a non-hex digit, returns a human-readable
    /// message, so a typo surfaces as a clear configuration error rather than a
    /// wrong-but-silent color.
    pub fn parse_hex(s: &str) -> (result: Result<Color, String>)
        ensures
            match result {
                Ok(color) => color_of_hex(s@) == Some(color),
                Err(message) => color_of_hex(s@) is None && message@ == hex_message(
                    debug_quoted(s@),
                ),
            },
    {
        match Color::from_hex(s) {
            Some(color) => Ok(color),
            None => {
                let shown: String = quoted(s);
                Err(invalid_hex_message(shown.as_str()))
            },
        }
    }

    /// The color a hex string denotes, if it denotes one.
    pub fn from_hex(s: &str) -> (color: Option<Color>)
        ensures
            color == color_of_hex(s@),
    {
        let len: usize = s.unicode_len();
        let hex: &str = if len > 0 && s.get_char(0) == '#' {
            s.substring_char(1, len)
        } else {
            s
        };
        proof {
            assert(hex@ =~= hex_digits(s@));
        }
        let n: usize = hex.unicode_len();
        if n != 6 && n != 8 {
            return None;
        }
        let mut values: Vec<u8> = Vec::new();
        let mut i: usize = 0;
        while i < n
            invariant
                i <= n == hex@.len(),
                hex@ == hex_digits(s@),
                values@.len() == i,
                forall|k: int|
                    0 <= k < i ==> hex_value(#[trigger] hex@[k]) == Some(values@[k] as int)
                        && values@[k] < 16,
            decreases n - i,
        {
            match hex_digit(hex.get_char(i)) {
                Some(v) => {
                    values.push(v);
                },
                None => {
                    assert(hex_value(hex@[i as int]) is None);
                    return None;
                },
            }
            i += 1;
        }
        assert(forall|k: int|
            0 <= k < n ==> hex_value(#[trigger] hex@[k]) == Some(values@[k] as int) && values@[k]
                < 16);
        assert(is_hex_color(hex@));
        let a: u8 = if n == 8 {
            values[6] * 16 + values[7]
        } else {
            0xFF
        };
        Some(
            Color {
                r: values[0] * 16 + values[1],
                g: values[2] * 16 + values[3],
                b: values[4] * 16 + values[5],
                a,
            },
        )
    }
}

/// A leading `#` changes nothing: digits that denote a color denote the same one
/// behind a `#`.
pub proof fn lemma_hash_is_optional(digits: Seq<char>)
    requires
        digits.len() == 0 || digits[0] != '#',
    ensures
        color_of_hex(seq!['#'] + digits) == color_of_hex(digits),
{
    assert((seq!['#'] + digits).skip(1) =~= digits);
}

/// Six digits denote an opaque color.
pub proof fn lemma_six_digits_are_opaque(s: Seq<char>)
    requires
        hex_digits(s).len() == 6,
    ensures
        color_of_hex(s) is Some ==> color_of_hex(s)->0.a == 0xFF,
{
}

/// Whether `c` is the hexadecimal digit of `value`, in lower or upper case.
pub open spec fn is_hex_digit(c: char, value: int) -> bool {
    &&& 0 <= value < 16
    &&& value < 10 ==> c as int == '0' as int + value
    &&& value >= 10 ==> c as int == 'a' as int + value - 10 || c as int == 'A' as int + value - 10
}

/// A color is written as two digits for each of red, green and blue, the higher digit
/// first, and two more for the alpha where it is not opaque.
pub proof fn lemma_a_color_is_read_channel_by_channel(
    s: &str,
    color: Option<Color>,
    values: Seq<int>,
)
    requires
        call_ensures(Color::from_hex, (s,), color),
        values.len() == 6 || values.len() == 8,
        s@.len() == values.len() + 1,
        s@[0] == '#',
        forall|i: int| 0 <= i < values.len() ==> is_hex_digit(s@[i + 1], #[trigger] values[i]),
    ensures
        color matches Some(color) && color.r == 16 * values[0] + values[1] && color.g == 16
            * values[2] + values[3] && color.b == 16 * values[4] + values[5] && color.a == if values.len()
            == 8 {
            16 * values[6] + values[7]
        } else {
            255
        },
{
    let digits = hex_digits(s@);
    assert forall|i: int| 0 <= i < values.len() implies hex_value(#[trigger] digits[i]) == Some(
        values[i],
    ) by {
        assert(digits[i] == s@[i + 1]);
        assert(is_hex_digit(s@[i + 1], values[i]));
    }
    assert(hex_value(digits[0]) == Some(values[0]) && hex_value(digits[1]) == Some(values[1]));
    assert(hex_value(digits[2]) == Some(values[2]) && hex_value(digits[3]) == Some(values[3]));
    assert(hex_value(digits[4]) == Some(values[4]) && hex_value(digits[5]) == Some(values[5]));
    if values.len() == 8 {
        assert(hex_value(digits[6]) == Some(values[6]) && hex_value(digits[7]) == Some(values[7]));
    }
}

/// What has another number of digits, or a character that is none, is no color.
pub proof fn lemma_what_is_no_hex_is_no_color(s: &str, color: Option<Color>, i: int)
    requires
        call_ensures(Color::from_hex, (s,), color),
        ({
            let start = if s@.len() > 0 && s@[0] == '#' {
                1int
            } else {
                0
            };
            ||| s@.len() - start != 6 && s@.len() - start != 8
            ||| start <= i < s@.len() && forall|value: int| !#[trigger] is_hex_digit(s@[i], value)
        }),
    ensures
        color is None,
{
    let digits = hex_digits(s@);
    let start = s@.len() - digits.len();
    if digits.len() == 6 || digits.len() == 8 {
        assert(digits[i - start] == s@[i]);
        let c = s@[i];
        if hex_value(c) is Some {
            assert(is_hex_digit(c, hex_value(c)->0));
        }
    }
}

/// The channels of a color are red, green, blue and alpha, in this order, and a color made
/// of three is opaque.
pub proof fn lemma_channels_are_in_order(
    color: Color,
    all: (u8, u8, u8, u8),
    three: (u8, u8, u8),
    r: u8,
    g: u8,
    b: u8,
    a: u8,
    opaque: Color,
    made: Color,
)
    requires
        call_ensures(Color::to_rgba, (color,), all),
        call_ensures(Color::to_rgb, (color,), three),
        call_ensures(Color::rgb, (r, g, b), opaque),
        call_ensures(Color::rgba, (r, g, b, a), made),
    ensures
        all.0 == color.r && all.1 == color.g && all.2 == color.b && all.3 == color.a,
        three.0 == color.r && three.1 == color.g && three.2 == color.b,
        opaque.r == r && opaque.g == g && opaque.b == b && opaque.a == 255,
        made.r == r && made.g == g && made.b == b && made.a == a,
{
}

} // verus!
