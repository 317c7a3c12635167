use vstd::prelude::*;

verus! {

/// Width and height of the viewport in character cells / terminal rows.
#[derive(Debug, Copy, Clone)]
pub struct Dimensions {
    pub width: usize,
    pub height: usize,
}

} // verus!
