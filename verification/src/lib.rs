//! Core logic of a keyboard firmware: matrix debouncing, layered keymaps,
//! the key-action state machine that turns key events into HID reports, a
//! wear-aware storage log, the Vial configuration protocol, split-keyboard
//! message framing, and the supervisor's restart policy.
//!
//! Everything here is pure logic over plain values; pin access, USB
//! transport and flash programming live outside and hand values in.

pub mod action;
pub mod debounce;
pub mod keyboard;
pub mod keyboard_macro;
pub mod keymap;
pub mod layout;
pub mod light;
pub mod matrix;
pub mod replay;
pub mod report;
pub mod split;
pub mod storage;
pub mod supervisor;
pub mod vial;
pub mod event;
pub mod keycode;
