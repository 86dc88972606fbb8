//! Key codes and modifier combinations.
//!
//! A key code is the one-byte HID keyboard usage that a key sends; a
//! [`ModifierCombination`] is the set of modifier keys that an action can
//! attach to it, together with the side (left or right) they live on.

use vstd::prelude::*;

verus! {

/// HID keyboard usage of a key, as sent in the keys array of a boot
/// keyboard report. Usages 0 through 3 are reserved by HID and are not
/// real keys.
pub type KeyCode = u8;

pub const KC_NO: u8 = 0x00;
pub const KC_A: u8 = 0x04;
pub const KC_B: u8 = 0x05;
pub const KC_C: u8 = 0x06;
pub const KC_D: u8 = 0x07;
pub const KC_E: u8 = 0x08;
pub const KC_F: u8 = 0x09;
pub const KC_K: u8 = 0x0E;
pub const KC_Z: u8 = 0x1D;
pub const KC_1: u8 = 0x1E;
pub const KC_0: u8 = 0x27;
pub const KC_SPACE: u8 = 0x2C;
pub const KC_LSHIFT_USAGE: u8 = 0xE1;

/// The HID modifier-byte bit of the left control key.
pub const HID_MOD_LCTRL: u8 = 0x01;
/// The HID modifier-byte bit of the left shift key.
pub const HID_MOD_LSHIFT: u8 = 0x02;
/// The HID modifier-byte bit of the left alt key.
pub const HID_MOD_LALT: u8 = 0x04;
/// The HID modifier-byte bit of the left gui key.
pub const HID_MOD_LGUI: u8 = 0x08;

/// A set of modifier keys: control, shift, alt and gui, all taken from one
/// side of the keyboard (`right` selects which side).
///
/// Packed to one byte by [`ModifierCombination::bits`]: bit 0 control,
/// bit 1 shift, bit 2 alt, bit 3 gui, bit 4 the side.
#[derive(Clone, Copy, Debug, PartialEq, Eq, Structural)]
pub struct ModifierCombination {
    pub right: bool,
    pub gui: bool,
    pub alt: bool,
    pub shift: bool,
    pub ctrl: bool,
}

impl ModifierCombination {
    /// The packed one-byte form; always below 32.
    pub open spec fn spec_bits(self) -> u8 {
        ((if self.ctrl { 1int } else { 0 }) + (if self.shift { 2int } else { 0 }) + (if self.alt {
            4int
        } else {
            0
        }) + (if self.gui { 8int } else { 0 }) + (if self.right { 16int } else { 0 })) as u8
    }

    /// The set with the given members.
    pub fn new_from(right: bool, gui: bool, alt: bool, shift: bool, ctrl: bool) -> (r: Self)
        ensures
            r == (ModifierCombination { right, gui, alt, shift, ctrl }),
    {
        ModifierCombination { right, gui, alt, shift, ctrl }
    }

    /// The empty set, on the left side.
    pub fn new() -> (r: Self)
        ensures
            r == Self::spec_empty(),
    {
        ModifierCombination { right: false, gui: false, alt: false, shift: false, ctrl: false }
    }

    pub open spec fn spec_empty() -> Self {
        ModifierCombination { right: false, gui: false, alt: false, shift: false, ctrl: false }
    }

    pub open spec fn spec_is_empty(self) -> bool {
        !self.ctrl && !self.shift && !self.alt && !self.gui
    }

    /// Whether no modifier key is in the set (the side alone does not count).
    pub fn is_empty(&self) -> (r: bool)
        ensures
            r == self.spec_is_empty(),
    {
        !(self.gui || self.alt || self.shift || self.ctrl)
    }

    /// Pack to one byte: bit 0 control, bit 1 shift, bit 2 alt, bit 3 gui,
    /// bit 4 the side.
    pub fn bits(&self) -> (r: u8)
        ensures
            r == self.spec_bits(),
            r < 32,
    {
        let mut r: u8 = 0;
        if self.ctrl {
            r = r + 1;
        }
        if self.shift {
            r = r + 2;
        }
        if self.alt {
            r = r + 4;
        }
        if self.gui {
            r = r + 8;
        }
        if self.right {
            r = r + 16;
        }
        r
    }

    pub open spec fn spec_from_bits(b: u8) -> Self {
        ModifierCombination {
            right: b / 16 % 2 == 1,
            gui: b / 8 % 2 == 1,
            alt: b / 4 % 2 == 1,
            shift: b / 2 % 2 == 1,
            ctrl: b % 2 == 1,
        }
    }

    /// Unpack from the one-byte form; bits above bit 4 are ignored.
    pub fn from_bits(b: u8) -> (r: Self)
        ensures
            r == Self::spec_from_bits(b),
    {
        ModifierCombination {
            right: b / 16 % 2 == 1,
            gui: b / 8 % 2 == 1,
            alt: b / 4 % 2 == 1,
            shift: b / 2 % 2 == 1,
            ctrl: b % 2 == 1,
        }
    }

    /// The HID modifier byte this set asserts: left modifiers sit in bits
    /// 0 through 3 (control, shift, alt, gui), right modifiers in bits 4
    /// through 7.
    pub open spec fn spec_hid_bits(self) -> u8 {
        if self.right {
            (self.spec_side_bits() * 16) as u8
        } else {
            self.spec_side_bits()
        }
    }

    /// The four side-local bits: bit 0 control, bit 1 shift, bit 2 alt,
    /// bit 3 gui; always below 16.
    pub open spec fn spec_side_bits(self) -> u8 {
        ((if self.ctrl { 1int } else { 0 }) + (if self.shift { 2int } else { 0 }) + (if self.alt {
            4int
        } else {
            0
        }) + (if self.gui { 8int } else { 0 })) as u8
    }

    /// The HID modifier byte of the set; see [`ModifierCombination::spec_hid_bits`].
    pub fn hid_bits(&self) -> (r: u8)
        ensures
            r == self.spec_hid_bits(),
    {
        let mut r: u8 = 0;
        if self.ctrl {
            r = r + 1;
        }
        if self.shift {
            r = r + 2;
        }
        if self.alt {
            r = r + 4;
        }
        if self.gui {
            r = r + 8;
        }
        if self.right {
            r = r * 16;
        }
        r
    }
}

/// Packing and unpacking a modifier combination are mutually inverse.
pub proof fn lemma_modifier_bits_round_trip(m: ModifierCombination, b: u8)
    requires
        b < 32,
    ensures
        ModifierCombination::spec_from_bits(m.spec_bits()) == m,
        ModifierCombination::spec_from_bits(b).spec_bits() == b,
{
}

} // verus!
