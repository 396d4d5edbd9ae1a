//! The size of the text area of the terminal window. The terminal device
//! itself (raw mode, escape sequences, key events) is driven by the
//! embedding application; the core only needs to know how many columns and
//! rows of text are visible.

use vstd::prelude::*;

verus! {

/// Width and height, in character cells, of the area that shows buffer text.
#[derive(Clone, Copy, PartialEq, Eq, Structural, Debug)]
pub struct Size {
    pub width: u16,
    pub height: u16,
}

} // verus!
