//! The UI-element index. On platforms without an accessibility backend it
//! is a stub: initialization succeeds and every query finds nothing.

use vstd::prelude::*;

verus! {

/// One UI element's rectangle, in physical pixels.
#[derive(Clone, Copy, PartialEq, Eq, Structural, Debug)]
pub struct ElementRect {
    pub x: i32,
    pub y: i32,
    pub width: i32,
    pub height: i32,
}

/// An index of the UI elements under the pointer, queried while a capture
/// overlay is up.
pub struct UiElementIndex;

impl UiElementIndex {
    pub fn new() -> (idx: UiElementIndex)
    {
        UiElementIndex
    }

    /// Prepare the index; nothing can fail here.
    pub fn init(&mut self) -> (out: Result<(), String>)
        ensures
            out is Ok,
    {
        Ok(())
    }

    /// Rebuild the index, optionally leaving one window out; nothing can
    /// fail here.
    pub fn rebuild_index(&mut self, exclude_hwnd: Option<isize>) -> (out: Result<(), String>)
        ensures
            out is Ok,
    {
        Ok(())
    }

    /// The window rectangles under the point: none on this backend.
    pub fn query_window_at_point(&self, mx: i32, my: i32) -> (out: Result<Vec<ElementRect>, String>)
        ensures
            out is Ok && out->Ok_0@ == Seq::<ElementRect>::empty(),
    {
        Ok(Vec::new())
    }

    /// The element chain under the point: none on this backend.
    pub fn query_chain_at_point(&mut self, mx: i32, my: i32) -> (out: Result<
        Vec<ElementRect>,
        String,
    >)
        ensures
            out is Ok && out->Ok_0@ == Seq::<ElementRect>::empty(),
    {
        Ok(Vec::new())
    }
}

} // verus!
