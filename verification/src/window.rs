//! The title of the host window.

use vstd::prelude::*;

verus! {

/// Sets a window's title. Titles are not implemented: the call does
/// nothing.
pub fn set_window_title(hwnd: usize, title: &str) {
    let _ = hwnd;
    let _ = title;
}

} // verus!
