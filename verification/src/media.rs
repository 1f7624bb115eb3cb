use vstd::prelude::*;

verus! {

/// How the fourth byte of each pixel is to be read: as alpha, or as padding.
#[derive(Debug, Clone, Copy, PartialEq, Eq, Structural)]
pub enum PixelFormatKind {
    Rgba,
    Rgbx,
}

} // verus!
