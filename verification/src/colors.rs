//! Color scheme for the rain: a 5-step brightness gradient for discrete
//! rendering and an RGB base for continuous fades.
//!
//! Colors are named by the library's own `TermColor`; the embedding
//! program translates them to whatever its terminal backend expects.

use vstd::prelude::*;

verus! {

/// The sixteen classic terminal colors.
#[derive(Clone, Copy, Debug, PartialEq, Eq, Structural)]
pub enum TermColor {
    Black,
    DarkRed,
    DarkGreen,
    DarkYellow,
    DarkBlue,
    DarkMagenta,
    DarkCyan,
    Grey,
    DarkGrey,
    Red,
    Green,
    Yellow,
    Blue,
    Magenta,
    Cyan,
    White,
}

/// Color scheme selected once at startup from a 0-15 color code.
#[derive(Clone, Copy, Debug, PartialEq, Eq, Structural)]
pub enum MatrixColorScheme {
    /// The classic fixed green-to-white-to-black ramp.
    Green,
    /// White head, the given base color for the body, black tail.
    Custom(TermColor),
}

/// The terminal color a 0-15 code names; codes above 15 fall back
/// to green.
pub open spec fn spec_ansi_color(code: u8) -> TermColor {
    if code == 0 {
        TermColor::Black
    } else if code == 1 {
        TermColor::DarkRed
    } else if code == 2 {
        TermColor::DarkGreen
    } else if code == 3 {
        TermColor::DarkYellow
    } else if code == 4 {
        TermColor::DarkBlue
    } else if code == 5 {
        TermColor::DarkMagenta
    } else if code == 6 {
        TermColor::DarkCyan
    } else if code == 7 {
        TermColor::Grey
    } else if code == 8 {
        TermColor::DarkGrey
    } else if code == 9 {
        TermColor::Red
    } else if code == 10 {
        TermColor::Green
    } else if code == 11 {
        TermColor::Yellow
    } else if code == 12 {
        TermColor::Blue
    } else if code == 13 {
        TermColor::Magenta
    } else if code == 14 {
        TermColor::Cyan
    } else if code == 15 {
        TermColor::White
    } else {
        TermColor::Green
    }
}

/// The scheme a 0-15 code selects: green hues (and out-of-range codes,
/// which fall back to green) give the classic scheme, everything else
/// a custom one.
pub open spec fn spec_scheme_of_code(code: u8) -> MatrixColorScheme {
    if spec_ansi_color(code) == TermColor::Green || spec_ansi_color(code)
        == TermColor::DarkGreen {
        MatrixColorScheme::Green
    } else {
        MatrixColorScheme::Custom(spec_ansi_color(code))
    }
}

/// Whether a code is out of the documented 0-15 range, so that the
/// fallback to the classic scheme should be reported to the operator.
pub open spec fn spec_code_is_fallback(code: u8) -> bool {
    code > 15
}

/// The approximate RGB triple behind each terminal color, used as the
/// base of continuous fades. Colors without a listed triple fall back
/// to the green one.
pub open spec fn spec_rgb_of_color(c: TermColor) -> (u8, u8, u8) {
    match c {
        TermColor::Red => (255, 0, 0),
        TermColor::DarkRed => (139, 0, 0),
        TermColor::Blue => (0, 0, 255),
        TermColor::DarkBlue => (0, 0, 139),
        TermColor::Yellow => (255, 255, 0),
        TermColor::DarkYellow => (184, 134, 11),
        TermColor::Magenta => (255, 0, 255),
        TermColor::DarkMagenta => (139, 0, 139),
        TermColor::Cyan => (0, 255, 255),
        TermColor::DarkCyan => (0, 139, 139),
        TermColor::White => (255, 255, 255),
        TermColor::Grey => (192, 192, 192),
        TermColor::DarkGrey => (169, 169, 169),
        TermColor::Black => (0, 0, 0),
        TermColor::Green => (0, 255, 0),
        TermColor::DarkGreen => (0, 255, 0),
    }
}

/// The 5-step gradient of a scheme: (head, mid, dim, dark, darkest).
/// The head is always white for visibility; the classic scheme fades
/// through greens, a custom one through its base color.
pub open spec fn spec_scheme_colors(s: MatrixColorScheme) -> (
    TermColor,
    TermColor,
    TermColor,
    TermColor,
    TermColor,
) {
    match s {
        MatrixColorScheme::Green => (
            TermColor::White,
            TermColor::Green,
            TermColor::DarkGreen,
            TermColor::DarkGreen,
            TermColor::Black,
        ),
        MatrixColorScheme::Custom(base) => (TermColor::White, base, base, base, TermColor::Black),
    }
}

/// The RGB base of a scheme for continuous-fade rendering.
pub open spec fn spec_scheme_base_rgb(s: MatrixColorScheme) -> (u8, u8, u8) {
    match s {
        MatrixColorScheme::Green => (0, 255, 0),
        MatrixColorScheme::Custom(base) => spec_rgb_of_color(base),
    }
}

impl MatrixColorScheme {
    /// Selects the scheme for a 0-15 color code; out-of-range codes
    /// fall back to the classic green scheme (the caller should report
    /// that with `spec_code_is_fallback` in mind).
    pub fn from_ansi_code(code: u8) -> (r: Self)
        ensures
            r == spec_scheme_of_code(code),
            spec_code_is_fallback(code) ==> r == MatrixColorScheme::Green,
    {
        let color = match code {
            0 => TermColor::Black,
            1 => TermColor::DarkRed,
            2 => TermColor::DarkGreen,
            3 => TermColor::DarkYellow,
            4 => TermColor::DarkBlue,
            5 => TermColor::DarkMagenta,
            6 => TermColor::DarkCyan,
            7 => TermColor::Grey,
            8 => TermColor::DarkGrey,
            9 => TermColor::Red,
            10 => TermColor::Green,
            11 => TermColor::Yellow,
            12 => TermColor::Blue,
            13 => TermColor::Magenta,
            14 => TermColor::Cyan,
            15 => TermColor::White,
            _ => TermColor::Green,
        };
        if matches!(color, TermColor::Green | TermColor::DarkGreen) {
            MatrixColorScheme::Green
        } else {
            MatrixColorScheme::Custom(color)
        }
    }

    /// The five-color gradient of this scheme:
    /// (bright head, mid, dim, dark, darkest).
    pub fn get_colors(self) -> (r: (TermColor, TermColor, TermColor, TermColor, TermColor))
        ensures
            r == spec_scheme_colors(self),
    {
        match self {
            MatrixColorScheme::Green => (
                TermColor::White,
                TermColor::Green,
                TermColor::DarkGreen,
                TermColor::DarkGreen,
                TermColor::Black,
            ),
            MatrixColorScheme::Custom(base) => (
                TermColor::White,
                base,
                base,
                base,
                TermColor::Black,
            ),
        }
    }

    /// The RGB components the continuous fade starts from.
    pub fn get_base_rgb(self) -> (r: (u8, u8, u8))
        ensures
            r == spec_scheme_base_rgb(self),
    {
        match self {
            MatrixColorScheme::Green => (0, 255, 0),
            MatrixColorScheme::Custom(color) => match color {
                TermColor::Red => (255, 0, 0),
                TermColor::DarkRed => (139, 0, 0),
                TermColor::Blue => (0, 0, 255),
                TermColor::DarkBlue => (0, 0, 139),
                TermColor::Yellow => (255, 255, 0),
                TermColor::DarkYellow => (184, 134, 11),
                TermColor::Magenta => (255, 0, 255),
                TermColor::DarkMagenta => (139, 0, 139),
                TermColor::Cyan => (0, 255, 255),
                TermColor::DarkCyan => (0, 139, 139),
                TermColor::White => (255, 255, 255),
                TermColor::Grey => (192, 192, 192),
                TermColor::DarkGrey => (169, 169, 169),
                TermColor::Black => (0, 0, 0),
                TermColor::Green => (0, 255, 0),
                TermColor::DarkGreen => (0, 255, 0),
            },
        }
    }
}

} // verus!
