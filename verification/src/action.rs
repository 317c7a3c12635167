use vstd::prelude::*;

verus! {

/// The closed set of viewer commands produced by an external input-dispatch
/// layer and fed into the viewport engine one at a time.
#[derive(Debug, Copy, Clone)]
pub enum Action {
    // Does nothing, for debugging, shouldn't modify any state.
    NoOp,
    MoveCursorDown(usize),
    MoveCursorUp(usize),
    ScrollViewportDown(usize),
    ScrollViewportUp(usize),
    // Move the viewport by half the height of the screen, and update the focused node
    // so that the focus remains in the same spot on the screen.
    //
    // When a count is provided, move the viewport by that many _lines_, as opposed to
    // N * half-screen size increments. The exact semantics of repeated jumps are a
    // deliberately unspecified extension point; the engine treats these as no-ops.
    // A provided count is always at least 1.
    JumpDown(Option<usize>),
    JumpUp(Option<usize>),
    FocusTop,
    FocusBottom,
    MoveFocusedElemToCenter,
    MoveFocusedElemToTop,
    MoveFocusedElemToBottom,
}

} // verus!
