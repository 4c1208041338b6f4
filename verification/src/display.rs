use crate::bitmap::Bitmap;
use crate::error::ErrorKind;
use vstd::prelude::*;

verus! {

/// Width of the physical display in pixels.
pub const DISPLAY_WIDTH: usize = 128;

/// Height of the physical display in pixels.
pub const DISPLAY_HEIGHT: usize = 64;

/// The sink a composited frame is handed to.  The engine promises nothing
/// about these calls; implementations live outside the engine and drive
/// the actual hardware.
pub trait Display {
    fn on(&mut self) -> Result<(), ErrorKind>;

    fn reset(&mut self) -> Result<(), ErrorKind>;

    fn update(&mut self, bitmap: Bitmap) -> Result<(), ErrorKind>;

    fn flip_display(&mut self);

    fn width(&self) -> usize;

    fn height(&self) -> usize;
}

} // verus!
