use vstd::prelude::*;

verus! {

/// The size of a window, in pixels.
#[derive(Clone, Copy)]
pub struct WindowDimensions {
    pub width: u32,
    pub height: u32,
}

} // verus!
