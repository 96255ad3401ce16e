//! Images embedded in the kernel.

use vstd::prelude::*;
use crate::colors::Color;

verus! {

/// A raw image: `width` by `height` pixels, row by row, as 0x00RRGGBB.
pub struct RawImage {
    pub width: usize,
    pub height: usize,
    pub data: &'static [Color],
}

} // verus!
