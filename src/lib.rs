//! Driver for the SSD1681 two-colour e-paper controller and a rotated
//! black/red framebuffer for its 200x200 panel.
pub mod cmd;
pub mod color;
pub mod driver;
pub mod flag;
pub mod graphics;
pub mod interface;

use vstd::prelude::*;

verus! {

/// Maximum display height this driver supports
pub const HEIGHT: u8 = 200;

/// Maximum display width this driver supports
pub const WIDTH: u8 = 200;

/// Bytes in one bit-plane: one bit per pixel, rows padded to whole bytes.
pub const PLANE_BYTES: usize = 5000;

} // verus!
