//! The kernel's palette, as 0x00RRGGBB words.

use vstd::prelude::*;

verus! {

/// A color as 0x00RRGGBB; the top byte marks transparency.
pub type Color = u32;

pub const BLACK: Color = 0x00000000;
pub const WHITE: Color = 0x00FFFFFF;
pub const RED: Color = 0x00FF0000;
pub const GREEN: Color = 0x0000FF00;
pub const BLUE: Color = 0x000000FF;
/// A pixel of this color is not drawn.
pub const TRANSPARENT: Color = 0xFF000000;
pub const DEEP_BLACK: Color = 0x000B0B0D;
pub const DARK_PURPLE: Color = 0x002C1A47;
pub const COSMIC_BLUE: Color = 0x001E2A78;
pub const BRIGHT_VIOLET: Color = 0x00A259FF;
pub const SMOKE_WHITE: Color = 0x00EAEAEA;
pub const NEON_GREEN: Color = 0x003DFFB4;
pub const BACKGROUND_COLOR: Color = DEEP_BLACK;
pub const ACCENT_COLOR: Color = BRIGHT_VIOLET;
pub const TEXT_PRIMARY: Color = SMOKE_WHITE;
pub const TEXT_SECONDARY: Color = BRIGHT_VIOLET;
pub const TEXT_ACCENT: Color = NEON_GREEN;

} // verus!
