//! Render commands: what the engine asks the terminal to draw each
//! frame. The embedding program executes them in order; the library
//! only decides what they are.

use vstd::prelude::*;
use crate::colors::{MatrixColorScheme, TermColor, spec_scheme_colors, spec_scheme_base_rgb};

verus! {

/// The color a glyph is drawn with: either one of the terminal's named
/// colors, or a continuous fade the drawer derives from a base RGB
/// triple, the glyph's index and the trail length.
#[derive(Clone, Copy, Debug, PartialEq, Eq, Structural)]
#[verifier::ext_equal]
pub enum RenderColor {
    Solid(TermColor),
    Fade { r: u8, g: u8, b: u8, index: usize, length: usize },
}

/// One drawing step: blank a cell, or put a colored glyph in a cell.
#[derive(Clone, Copy, Debug, PartialEq, Eq, Structural)]
#[verifier::ext_equal]
pub enum RenderCmd {
    Clear { col: u16, row: u16 },
    Glyph { col: u16, row: u16, color: RenderColor, glyph: char },
}

/// The column a command touches.
pub open spec fn cmd_col(c: RenderCmd) -> u16 {
    match c {
        RenderCmd::Clear { col, .. } => col,
        RenderCmd::Glyph { col, .. } => col,
    }
}

/// The row a command touches.
pub open spec fn cmd_row(c: RenderCmd) -> u16 {
    match c {
        RenderCmd::Clear { row, .. } => row,
        RenderCmd::Glyph { row, .. } => row,
    }
}

/// Whether a command puts a glyph in the given cell.
pub open spec fn cmd_is_glyph_at(c: RenderCmd, col: u16, row: u16) -> bool {
    match c {
        RenderCmd::Glyph { col: c2, row: r2, .. } => c2 == col && r2 == row,
        RenderCmd::Clear { .. } => false,
    }
}

/// Whether a command blanks the given cell.
pub open spec fn cmd_is_clear_at(c: RenderCmd, col: u16, row: u16) -> bool {
    c == (RenderCmd::Clear { col, row })
}

/// The discrete 5-bucket gradient: the glyph `i` places behind the
/// head takes the head color at 0, then mid, dim, dark, and darkest
/// from 16 on.
pub open spec fn spec_bucket_color(scheme: MatrixColorScheme, i: int) -> TermColor {
    if i == 0 {
        spec_scheme_colors(scheme).0
    } else if i <= 3 {
        spec_scheme_colors(scheme).1
    } else if i <= 8 {
        spec_scheme_colors(scheme).2
    } else if i <= 15 {
        spec_scheme_colors(scheme).3
    } else {
        spec_scheme_colors(scheme).4
    }
}

/// The color of the glyph `i` places behind the head: the discrete
/// bucket in plain mode; in continuous mode the head keeps the bright
/// color and every other glyph fades from the scheme's base RGB.
pub open spec fn spec_glyph_color(
    scheme: MatrixColorScheme,
    rgb_fade: bool,
    i: int,
    length: usize,
) -> RenderColor {
    if !rgb_fade {
        RenderColor::Solid(spec_bucket_color(scheme, i))
    } else if i == 0 {
        RenderColor::Solid(spec_scheme_colors(scheme).0)
    } else {
        RenderColor::Fade {
            r: spec_scheme_base_rgb(scheme).0,
            g: spec_scheme_base_rgb(scheme).1,
            b: spec_scheme_base_rgb(scheme).2,
            index: i as usize,
            length,
        }
    }
}

} // verus!
