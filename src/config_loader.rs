use vstd::prelude::*;
use vstd::utf8::encode_utf8;

verus! {

/// The value of an ASCII hexadecimal digit, in either case.
pub open spec fn hex_digit(b: u8) -> Option<u8> {
    if 48 <= b <= 57 {
        Some((b - 48) as u8)
    } else if 97 <= b <= 102 {
        Some((b - 87) as u8)
    } else if 65 <= b <= 70 {
        Some((b - 55) as u8)
    } else {
        None
    }
}

/// The byte that two characters of a colour write: two hexadecimal digits, or a `+` and one
/// digit; anything else counts as 0.
pub open spec fn pair_value(hi: u8, lo: u8) -> u8 {
    match (hex_digit(hi), hex_digit(lo)) {
        (Some(h), Some(l)) => (16 * h + l) as u8,
        (None, Some(l)) => if hi == 43 {
            l
        } else {
            0
        },
        _ => 0,
    }
}

/// The colour that the UTF-8 bytes of `#RRGGBB` write: black unless there are seven bytes
/// and the first is `#`.
pub open spec fn color_of_hex(b: Seq<u8>) -> RgbColor {
    if b.len() != 7 || b[0] != 35 {
        RgbColor { r: 0, g: 0, b: 0 }
    } else {
        RgbColor { r: pair_value(b[1], b[2]), g: pair_value(b[3], b[4]), b: pair_value(b[5], b[6]) }
    }
}

fn hex_digit_of(b: u8) -> (r: Option<u8>)
    ensures
        r == hex_digit(b),
{
    if 48 <= b && b <= 57 {
        Some(b - 48)
    } else if 97 <= b && b <= 102 {
        Some(b - 87)
    } else if 65 <= b && b <= 70 {
        Some(b - 55)
    } else {
        None
    }
}

fn pair_value_of(hi: u8, lo: u8) -> (r: u8)
    ensures
        r == pair_value(hi, lo),
{
    match (hex_digit_of(hi), hex_digit_of(lo)) {
        (Some(h), Some(l)) => 16 * h + l,
        (None, Some(l)) => if hi == 43 {
            l
        } else {
            0
        },
        _ => 0,
    }
}

/// A colour as its red, green and blue components.
#[derive(Debug, Clone, Copy, PartialEq, Eq, Structural)]
pub struct RgbColor {
    pub r: u8,
    pub g: u8,
    pub b: u8,
}

impl RgbColor {
    /// Reads a colour written `#RRGGBB`; a malformed colour is black, and a malformed
    /// component is 0.
    pub fn from_hex(hex: &str) -> (r: RgbColor)
        ensures
            r == color_of_hex(encode_utf8(hex@)),
    {
        let b = hex.as_bytes();
        if b.len() != 7 || b[0] != 35 {
            return RgbColor { r: 0, g: 0, b: 0 };
        }
        RgbColor {
            r: pair_value_of(b[1], b[2]),
            g: pair_value_of(b[3], b[4]),
            b: pair_value_of(b[5], b[6]),
        }
    }
}

/// A colour written `#RRGGBB`.
#[derive(Debug, Clone)]
pub struct HexColor(pub String);

impl HexColor {
    pub fn to_rgb(&self) -> (r: RgbColor)
        ensures
            r == color_of_hex(encode_utf8(self.0@)),
    {
        RgbColor::from_hex(self.0.as_str())
    }
}

/// The colours of the tool's output.
#[derive(Debug, Clone)]
pub struct Colors {
    pub primary: HexColor,
    pub secondary: HexColor,
    pub surplus: HexColor,
    pub deficit: HexColor,
    pub error: HexColor,
}

impl Colors {
    pub fn default() -> (r: Colors)
        ensures
            r.primary.0@ == "#F8E16C"@,
            r.secondary.0@ == "#F07DEC"@,
            r.surplus.0@ == "#6DF3A2"@,
            r.deficit.0@ == "#F06684"@,
            r.error.0@ == "#00FF00"@,
    {
        Colors {
            primary: HexColor("#F8E16C".to_string()),
            secondary: HexColor("#F07DEC".to_string()),
            surplus: HexColor("#6DF3A2".to_string()),
            deficit: HexColor("#F06684".to_string()),
            error: HexColor("#00FF00".to_string()),
        }
    }
}

/// The expected working time.
#[derive(Debug, Clone)]
pub struct Schedule {
    /// The expected time of a working day, `HH:MM`.
    pub daily_hours: String,
}

impl Schedule {
    pub fn default() -> (r: Schedule)
        ensures
            r.daily_hours@ == "08:00"@,
    {
        Schedule { daily_hours: "08:00".to_string() }
    }
}

/// The user's settings.
#[derive(Debug, Clone)]
pub struct Config {
    pub colors: Colors,
    pub schedule: Schedule,
    pub list_icon: String,
    pub summary_icon: String,
}

impl Config {
    pub fn default() -> (r: Config)
        ensures
            r.colors.primary.0@ == "#F8E16C"@,
            r.colors.secondary.0@ == "#F07DEC"@,
            r.colors.surplus.0@ == "#6DF3A2"@,
            r.colors.deficit.0@ == "#F06684"@,
            r.colors.error.0@ == "#00FF00"@,
            r.schedule.daily_hours@ == "08:00"@,
            r.list_icon@ == " "@,
            r.summary_icon@ == "\u{23c0}"@,
    {
        Config {
            colors: Colors::default(),
            schedule: Schedule::default(),
            list_icon: " ".to_string(),
            summary_icon: "\u{23c0}".to_string(),
        }
    }
}

} // verus!
