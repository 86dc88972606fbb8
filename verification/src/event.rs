//! Key events: the debounced output of the matrix scanner.

use vstd::prelude::*;

verus! {

/// One committed edge of one key: the key at logical position
/// `(row, col)` went down (`pressed`) or up (`!pressed`).
///
/// Row and column are logical matrix coordinates, independent of which
/// axis is electrically driven.
#[derive(Clone, Copy, Debug, PartialEq, Eq, Structural)]
pub struct KeyEvent {
    pub row: u8,
    pub col: u8,
    pub pressed: bool,
}

} // verus!
