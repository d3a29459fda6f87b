//! The colours of the dashboard: the built-in palette, and `#RRGGBB` colours read from
//! an Omarchy theme file.
use vstd::prelude::*;

use crate::sync::{join, join_path, nonempty, set_value};
use crate::text::chars_of;
use crate::text_format::{debug_text, describe_quoted};

verus! {

/// A colour by its red, green and blue components.
#[derive(Clone, Copy, Debug, PartialEq, Eq, Structural)]
pub struct Rgb {
    pub r: u8,
    pub g: u8,
    pub b: u8,
}

/// The colours the dashboard is drawn with.
#[derive(Clone, Copy, Debug, PartialEq, Eq, Structural)]
pub struct Palette {
    pub background: Rgb,
    pub panel: Rgb,
    pub foreground: Rgb,
    pub bright_foreground: Rgb,
    pub muted: Rgb,
    pub accent: Rgb,
    pub selection: Rgb,
    pub green: Rgb,
    pub red: Rgb,
}

/// The value of a hexadecimal digit, if `c` is one.
pub open spec fn hex_digit(c: char) -> Option<int> {
    if '0' <= c && c <= '9' {
        Some(c as int - '0' as int)
    } else if 'a' <= c && c <= 'f' {
        Some(c as int - 'a' as int + 10)
    } else if 'A' <= c && c <= 'F' {
        Some(c as int - 'A' as int + 10)
    } else {
        None
    }
}

/// The byte that two hexadecimal digits spell, the first one the high digit.
pub open spec fn hex_pair(a: char, b: char) -> Option<u8> {
    match (hex_digit(a), hex_digit(b)) {
        (Some(x), Some(y)) => Some((16 * x + y) as u8),
        _ => None,
    }
}

/// The colour `value` spells as `#` and six hexadecimal digits, or the message that
/// refuses it.
pub open spec fn hex_color(value: Seq<char>) -> Result<Rgb, Seq<char>> {
    let refusal = "expected #RRGGBB color, got "@ + debug_text(value);
    if value.len() != 7 || value[0] != '#' {
        Err(refusal)
    } else {
        match (hex_pair(value[1], value[2]), hex_pair(value[3], value[4]), hex_pair(value[5], value[6])) {
            (Some(r), Some(g), Some(b)) => Ok(Rgb { r, g, b }),
            _ => Err(refusal),
        }
    }
}

/// A colour is read exactly from `#` followed by six hexadecimal digits; every other text
/// is refused with the same message.
pub proof fn lemma_hex_color_exactly_six_digits(value: Seq<char>)
    ensures
        hex_color(value) is Ok <==> (value.len() == 7 && value[0] == '#' && forall|i: int|
            1 <= i < 7 ==> #[trigger] hex_digit(value[i]) is Some),
        hex_color(value) is Err ==> hex_color(value) == Err::<Rgb, Seq<char>>(
            "expected #RRGGBB color, got "@ + debug_text(value),
        ),
{
    if value.len() == 7 && value[0] == '#' && hex_color(value) is Ok {
        assert forall|i: int| 1 <= i < 7 implies #[trigger] hex_digit(value[i]) is Some by {
            if i == 1 || i == 2 {
                assert(hex_pair(value[1], value[2]) is Some);
            } else if i == 3 || i == 4 {
                assert(hex_pair(value[3], value[4]) is Some);
            } else {
                assert(hex_pair(value[5], value[6]) is Some);
            }
        }
    }
    if value.len() == 7 && value[0] == '#' && (forall|i: int| 1 <= i < 7 ==> #[trigger] hex_digit(value[i]) is Some) {
        assert(hex_digit(value[1]) is Some && hex_digit(value[2]) is Some);
        assert(hex_digit(value[3]) is Some && hex_digit(value[4]) is Some);
        assert(hex_digit(value[5]) is Some && hex_digit(value[6]) is Some);
    }
}

/// The value of a hexadecimal digit, if `c` is one.
fn hex_digit_value(c: char) -> (value: Option<u8>)
    ensures
        value matches Some(v) ==> hex_digit(c) == Some(v as int),
        value is None ==> hex_digit(c) is None,
{
    if '0' <= c && c <= '9' {
        Some((c as u32 - '0' as u32) as u8)
    } else if 'a' <= c && c <= 'f' {
        Some((c as u32 - 'a' as u32 + 10) as u8)
    } else if 'A' <= c && c <= 'F' {
        Some((c as u32 - 'A' as u32 + 10) as u8)
    } else {
        None
    }
}

/// The byte that two hexadecimal digits spell.
fn hex_pair_value(a: char, b: char) -> (value: Option<u8>)
    ensures
        value == hex_pair(a, b),
{
    match (hex_digit_value(a), hex_digit_value(b)) {
        (Some(x), Some(y)) => Some(16 * x + y),
        _ => None,
    }
}

/// The message that refuses `value` as a colour.
fn refusal(value: &str) -> (message: String)
    ensures
        message@ == "expected #RRGGBB color, got "@ + debug_text(value@),
{
    let mut message = String::from_str("expected #RRGGBB color, got ");
    describe_quoted(&mut message, value);
    message
}

/// Reads a `#RRGGBB` colour: `#` and six hexadecimal digits; anything else is refused.
pub fn parse_hex(value: &str) -> (color: Result<Rgb, String>)
    ensures
        color matches Ok(c) ==> hex_color(value@) == Ok::<Rgb, Seq<char>>(c),
        color matches Err(m) ==> hex_color(value@) == Err::<Rgb, Seq<char>>(m@),
{
    let chars = chars_of(value);
    if chars.len() != 7 || chars[0] != '#' {
        return Err(refusal(value));
    }
    let r = hex_pair_value(chars[1], chars[2]);
    let g = hex_pair_value(chars[3], chars[4]);
    let b = hex_pair_value(chars[5], chars[6]);
    match (r, g, b) {
        (Some(r), Some(g), Some(b)) => Ok(Rgb { r, g, b }),
        _ => Err(refusal(value)),
    }
}

/// The colour of each part of the dashboard that a theme file names, as `#RRGGBB` text.
#[derive(Clone, Debug)]
pub struct HexColors {
    pub accent: String,
    pub selection: String,
    pub muted: String,
    pub background: String,
    pub lighter_background: String,
    pub foreground: String,
    pub bright_foreground: String,
    pub green: String,
    pub red: String,
}

/// The first colour of the list that is refused, in the order a palette reads them.
pub open spec fn first_refusal(colors: Seq<Seq<char>>) -> Option<Seq<char>>
    decreases colors.len(),
{
    if colors.len() == 0 {
        None
    } else {
        match hex_color(colors[0]) {
            Err(m) => Some(m),
            Ok(_) => first_refusal(colors.skip(1)),
        }
    }
}

impl Palette {
    /// The built-in palette.
    pub fn default_palette() -> (palette: Palette)
        ensures
            palette == (Palette {
                background: Rgb { r: 26, g: 27, b: 38 },
                panel: Rgb { r: 36, g: 40, b: 59 },
                foreground: Rgb { r: 169, g: 177, b: 214 },
                bright_foreground: Rgb { r: 192, g: 202, b: 245 },
                muted: Rgb { r: 65, g: 72, b: 104 },
                accent: Rgb { r: 122, g: 162, b: 247 },
                selection: Rgb { r: 41, g: 46, b: 66 },
                green: Rgb { r: 158, g: 206, b: 106 },
                red: Rgb { r: 247, g: 118, b: 142 },
            }),
    {
        Palette {
            background: Rgb { r: 26, g: 27, b: 38 },
            panel: Rgb { r: 36, g: 40, b: 59 },
            foreground: Rgb { r: 169, g: 177, b: 214 },
            bright_foreground: Rgb { r: 192, g: 202, b: 245 },
            muted: Rgb { r: 65, g: 72, b: 104 },
            accent: Rgb { r: 122, g: 162, b: 247 },
            selection: Rgb { r: 41, g: 46, b: 66 },
            green: Rgb { r: 158, g: 206, b: 106 },
            red: Rgb { r: 247, g: 118, b: 142 },
        }
    }

    /// The palette a theme file's colours give: its background, its lighter background
    /// for panels, its foregrounds, muted, accent, selection, green and red. The first
    /// colour that is not `#RRGGBB` refuses the whole palette.
    #[verifier::rlimit(60)]
    pub fn from_hex_colors(colors: &HexColors) -> (palette: Result<Palette, String>)
        ensures
            ({
                let order = seq![
                    colors.background@,
                    colors.lighter_background@,
                    colors.foreground@,
                    colors.bright_foreground@,
                    colors.muted@,
                    colors.accent@,
                    colors.selection@,
                    colors.green@,
                    colors.red@,
                ];
                match palette {
                    Ok(p) => first_refusal(order) is None && p == (Palette {
                        background: hex_color(colors.background@)->Ok_0,
                        panel: hex_color(colors.lighter_background@)->Ok_0,
                        foreground: hex_color(colors.foreground@)->Ok_0,
                        bright_foreground: hex_color(colors.bright_foreground@)->Ok_0,
                        muted: hex_color(colors.muted@)->Ok_0,
                        accent: hex_color(colors.accent@)->Ok_0,
                        selection: hex_color(colors.selection@)->Ok_0,
                        green: hex_color(colors.green@)->Ok_0,
                        red: hex_color(colors.red@)->Ok_0,
                    }),
                    Err(m) => first_refusal(order) == Some(m@),
                }
            }),
    {
        let ghost order = seq![
            colors.background@,
            colors.lighter_background@,
            colors.foreground@,
            colors.bright_foreground@,
            colors.muted@,
            colors.accent@,
            colors.selection@,
            colors.green@,
            colors.red@,
        ];
        proof {
            reveal_with_fuel(first_refusal, 10);
            assert(order.skip(1) =~= order.subrange(1, 9));
            assert(order.skip(1).skip(1) =~= order.subrange(2, 9));
            assert(order.skip(1).skip(1).skip(1) =~= order.subrange(3, 9));
            assert(order.skip(1).skip(1).skip(1).skip(1) =~= order.subrange(4, 9));
            assert(order.skip(1).skip(1).skip(1).skip(1).skip(1) =~= order.subrange(5, 9));
            assert(order.skip(1).skip(1).skip(1).skip(1).skip(1).skip(1) =~= order.subrange(6, 9));
            assert(order.skip(1).skip(1).skip(1).skip(1).skip(1).skip(1).skip(1) =~= order.subrange(7, 9));
            assert(order.skip(1).skip(1).skip(1).skip(1).skip(1).skip(1).skip(1).skip(1) =~= order.subrange(8, 9));
            assert(order.skip(1).skip(1).skip(1).skip(1).skip(1).skip(1).skip(1).skip(1).skip(1) =~= order.subrange(9, 9));
        }
        let background = match parse_hex(colors.background.as_str()) {
            Ok(c) => c,
            Err(m) => {
                return Err(m);
            },
        };
        let panel = match parse_hex(colors.lighter_background.as_str()) {
            Ok(c) => c,
            Err(m) => {
                return Err(m);
            },
        };
        let foreground = match parse_hex(colors.foreground.as_str()) {
            Ok(c) => c,
            Err(m) => {
                return Err(m);
            },
        };
        let bright_foreground = match parse_hex(colors.bright_foreground.as_str()) {
            Ok(c) => c,
            Err(m) => {
                return Err(m);
            },
        };
        let muted = match parse_hex(colors.muted.as_str()) {
            Ok(c) => c,
            Err(m) => {
                return Err(m);
            },
        };
        let accent = match parse_hex(colors.accent.as_str()) {
            Ok(c) => c,
            Err(m) => {
                return Err(m);
            },
        };
        let selection = match parse_hex(colors.selection.as_str()) {
            Ok(c) => c,
            Err(m) => {
                return Err(m);
            },
        };
        let green = match parse_hex(colors.green.as_str()) {
            Ok(c) => c,
            Err(m) => {
                return Err(m);
            },
        };
        let red = match parse_hex(colors.red.as_str()) {
            Ok(c) => c,
            Err(m) => {
                return Err(m);
            },
        };
        Ok(Palette { background, panel, foreground, bright_foreground, muted, accent, selection, green, red })
    }
}

/// The theme file of the current Omarchy theme, given the values of `XDG_STATE_HOME`
/// and `HOME`: below the state directory, else below `~/.local/state`; none without
/// either.
pub open spec fn theme_path_for(xdg_state_home: Option<String>, home: Option<String>) -> Option<Seq<char>> {
    match set_value(xdg_state_home) {
        Some(state) => Some(join_path(state, "omarchy/current/theme/colors.toml"@)),
        None => match set_value(home) {
            Some(h) => Some(join_path(h, ".local/state/omarchy/current/theme/colors.toml"@)),
            None => None,
        },
    }
}

/// The theme file of the current Omarchy theme.
pub fn theme_path(xdg_state_home: Option<String>, home: Option<String>) -> (path: Option<String>)
    ensures
        path matches Some(p) ==> theme_path_for(xdg_state_home, home) == Some(p@),
        path is None ==> theme_path_for(xdg_state_home, home) is None,
{
    match nonempty(xdg_state_home) {
        Some(state) => Some(join(state.as_str(), "omarchy/current/theme/colors.toml")),
        None => match nonempty(home) {
            Some(h) => Some(join(h.as_str(), ".local/state/omarchy/current/theme/colors.toml")),
            None => None,
        },
    }
}

} // verus!
