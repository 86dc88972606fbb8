//! Key actions: what a key position does, and the two-byte code that the
//! configuration protocol uses to read and write an action over the wire.

use vstd::prelude::*;
use vstd::arithmetic::div_mod::lemma_fundamental_div_mod_converse;
use crate::keycode::{KeyCode, ModifierCombination};

verus! {

/// A small mouse step: one button, or one signed one-byte delta of one
/// axis. Deltas are accumulated per tick by the key machine and are
/// clamped to one byte by construction.
#[derive(Clone, Copy, Debug, PartialEq, Eq, Structural)]
pub enum MouseAction {
    /// Press or release mouse button `0..8`.
    Button(u8),
    /// Move horizontally by the given delta per tick.
    MoveX(i8),
    /// Move vertically by the given delta per tick.
    MoveY(i8),
    /// Scroll vertically by the given delta per tick.
    Wheel(i8),
    /// Scroll horizontally by the given delta per tick.
    Pan(i8),
}

/// What a key position does.
#[derive(Clone, Copy, Debug, PartialEq, Eq, Structural)]
pub enum KeyAction {
    /// Inert: the position does nothing.
    No,
    /// Fall through to the next enabled layer below.
    Transparent,
    /// A plain key.
    Single(KeyCode),
    /// A key with ephemeral modifiers held around it.
    WithModifier(KeyCode, ModifierCombination),
    /// Momentary layer: on while held.
    LayerOn(u8),
    /// Toggle a layer on press.
    LayerToggle(u8),
    /// Activate exactly this momentary layer on press.
    LayerTo(u8),
    /// Change the default layer on press.
    LayerDefault(u8),
    /// Momentary layer that locks after enough consecutive taps.
    LayerTapToggle(u8),
    /// The layer is applied to the next key press only.
    OneShotLayer(u8),
    /// The modifiers are applied to the next key press only.
    OneShotMod(ModifierCombination),
    /// Tap for the key, hold for the modifiers.
    ModTap(KeyCode, ModifierCombination),
    /// Tap for the key, hold for the layer.
    LayerTap(u8, KeyCode),
    /// Tap for the first key, hold for the second.
    TapHold(KeyCode, KeyCode),
    /// Trigger the stored macro with this identifier.
    Macro(u8),
    /// A mouse button or motion.
    Mouse(MouseAction),
    /// A consumer-page usage (media keys).
    Consumer(u16),
    /// A system-control usage (power, sleep).
    System(u8),
}

/// The two's-complement byte of a signed delta.
pub open spec fn spec_i8_to_byte(d: i8) -> u8 {
    if d >= 0 {
        d as u8
    } else {
        (d + 256) as u8
    }
}

/// The signed delta a two's-complement byte carries.
pub open spec fn spec_byte_to_i8(v: u8) -> i8 {
    if v < 128 {
        v as i8
    } else {
        (v - 256) as i8
    }
}

/// The two's-complement byte of a signed delta.
pub fn i8_to_byte(d: i8) -> (r: u8)
    ensures
        r == spec_i8_to_byte(d),
{
    if d >= 0 {
        d as u8
    } else {
        ((d as i16) + 256) as u8
    }
}

/// The signed delta a two's-complement byte carries.
pub fn byte_to_i8(v: u8) -> (r: i8)
    ensures
        r == spec_byte_to_i8(v),
{
    if v < 128 {
        v as i8
    } else {
        ((v as i16) - 256) as i8
    }
}

pub open spec fn spec_pack(tag: int, payload: int) -> u16 {
    (tag * 0x2000 + payload) as u16
}

/// Whether the action can be carried in one two-byte wire code.
///
/// Not every action fits: `TapHold` carries two full key codes (sixteen
/// bits), a `Single` of a reserved usage below 4 would collide with the
/// codes of `No` and `Transparent`, a `LayerTap` layer must fit in five
/// bits, a mouse button index in three, and a consumer usage in thirteen.
pub open spec fn spec_encodable(a: KeyAction) -> bool {
    match a {
        KeyAction::Single(k) => k >= 4,
        KeyAction::TapHold(_, _) => false,
        KeyAction::LayerTap(layer, _) => layer < 32,
        KeyAction::Mouse(m) => match m {
            MouseAction::Button(b) => b < 8,
            _ => true,
        },
        KeyAction::Consumer(u) => u < 0x2000,
        _ => true,
    }
}

/// The two-byte wire code of an encodable action.
pub open spec fn spec_to_code(a: KeyAction) -> u16 {
    match a {
        KeyAction::No => 0,
        KeyAction::Transparent => 1,
        KeyAction::Single(k) => k as u16,
        KeyAction::WithModifier(k, m) => spec_pack(1, m.spec_bits() * 256 + k),
        KeyAction::LayerOn(l) => spec_pack(2, 0 * 256 + l),
        KeyAction::LayerToggle(l) => spec_pack(2, 1 * 256 + l),
        KeyAction::LayerTo(l) => spec_pack(2, 2 * 256 + l),
        KeyAction::LayerDefault(l) => spec_pack(2, 3 * 256 + l),
        KeyAction::LayerTapToggle(l) => spec_pack(2, 4 * 256 + l),
        KeyAction::OneShotLayer(l) => spec_pack(2, 5 * 256 + l),
        KeyAction::OneShotMod(m) => spec_pack(3, m.spec_bits() as int),
        KeyAction::ModTap(k, m) => spec_pack(4, m.spec_bits() * 256 + k),
        KeyAction::LayerTap(l, k) => spec_pack(5, l * 256 + k),
        KeyAction::TapHold(_, _) => 0,
        KeyAction::System(v) => spec_pack(6, 0 * 256 + v),
        KeyAction::Macro(id) => spec_pack(6, 1 * 256 + id),
        KeyAction::Mouse(MouseAction::Button(b)) => spec_pack(6, 2 * 256 + b),
        KeyAction::Mouse(MouseAction::MoveX(d)) => spec_pack(6, 3 * 256 + spec_i8_to_byte(d)),
        KeyAction::Mouse(MouseAction::MoveY(d)) => spec_pack(6, 4 * 256 + spec_i8_to_byte(d)),
        KeyAction::Mouse(MouseAction::Wheel(d)) => spec_pack(6, 5 * 256 + spec_i8_to_byte(d)),
        KeyAction::Mouse(MouseAction::Pan(d)) => spec_pack(6, 6 * 256 + spec_i8_to_byte(d)),
        KeyAction::Consumer(u) => spec_pack(7, u as int),
    }
}

/// The code an action is sent as: its wire code if one exists, else 0,
/// the code of `No`.
pub open spec fn spec_code_of(a: KeyAction) -> u16 {
    if spec_encodable(a) {
        spec_to_code(a)
    } else {
        0
    }
}

/// The action a two-byte wire code names. A code that names nothing
/// decodes to `No`, so an unknown code is inert rather than an error.
pub open spec fn spec_from_code(c: u16) -> KeyAction {
    let tag = c / 0x2000;
    let p = c % 0x2000;
    if tag == 0 {
        if p == 0 {
            KeyAction::No
        } else if p == 1 {
            KeyAction::Transparent
        } else if 4 <= p < 256 {
            KeyAction::Single(p as u8)
        } else {
            KeyAction::No
        }
    } else if tag == 1 {
        KeyAction::WithModifier((p % 256) as u8, ModifierCombination::spec_from_bits((p / 256) as u8))
    } else if tag == 2 {
        let sub = p / 256;
        let l = (p % 256) as u8;
        if sub == 0 {
            KeyAction::LayerOn(l)
        } else if sub == 1 {
            KeyAction::LayerToggle(l)
        } else if sub == 2 {
            KeyAction::LayerTo(l)
        } else if sub == 3 {
            KeyAction::LayerDefault(l)
        } else if sub == 4 {
            KeyAction::LayerTapToggle(l)
        } else if sub == 5 {
            KeyAction::OneShotLayer(l)
        } else {
            KeyAction::No
        }
    } else if tag == 3 {
        if p < 32 {
            KeyAction::OneShotMod(ModifierCombination::spec_from_bits(p as u8))
        } else {
            KeyAction::No
        }
    } else if tag == 4 {
        KeyAction::ModTap((p % 256) as u8, ModifierCombination::spec_from_bits((p / 256) as u8))
    } else if tag == 5 {
        KeyAction::LayerTap((p / 256) as u8, (p % 256) as u8)
    } else if tag == 6 {
        let sub = p / 256;
        let v = (p % 256) as u8;
        if sub == 0 {
            KeyAction::System(v)
        } else if sub == 1 {
            KeyAction::Macro(v)
        } else if sub == 2 {
            if v < 8 {
                KeyAction::Mouse(MouseAction::Button(v))
            } else {
                KeyAction::No
            }
        } else if sub == 3 {
            KeyAction::Mouse(MouseAction::MoveX(spec_byte_to_i8(v)))
        } else if sub == 4 {
            KeyAction::Mouse(MouseAction::MoveY(spec_byte_to_i8(v)))
        } else if sub == 5 {
            KeyAction::Mouse(MouseAction::Wheel(spec_byte_to_i8(v)))
        } else if sub == 6 {
            KeyAction::Mouse(MouseAction::Pan(spec_byte_to_i8(v)))
        } else {
            KeyAction::No
        }
    } else {
        KeyAction::Consumer(p)
    }
}

/// Splitting `tag * 0x2000 + payload` recovers the tag and the payload.
proof fn lemma_pack_unpack(tag: int, payload: int)
    requires
        0 <= tag < 8,
        0 <= payload < 0x2000,
    ensures
        spec_pack(tag, payload) / 0x2000 == tag,
        spec_pack(tag, payload) % 0x2000 == payload,
{
    let c = tag * 0x2000 + payload;
    assert(0 <= c < 0x10000);
    assert(spec_pack(tag, payload) == c);
    lemma_fundamental_div_mod_converse(c, 0x2000, tag, payload);
}

/// Splitting `sub * 256 + v` recovers the two halves.
proof fn lemma_split_256(sub: int, v: int)
    requires
        0 <= sub < 32,
        0 <= v < 256,
    ensures
        (sub * 256 + v) / 256 == sub,
        (sub * 256 + v) % 256 == v,
{
    lemma_fundamental_div_mod_converse(sub * 256 + v, 256, sub, v);
}

/// Decoding the code of an encodable action gives the action back: a
/// keymap cell written over the configuration protocol reads back as the
/// very action that was written.
pub proof fn lemma_action_code_round_trip(a: KeyAction)
    requires
        spec_encodable(a),
    ensures
        spec_from_code(spec_to_code(a)) == a,
{
    crate::keycode::lemma_modifier_bits_round_trip(ModifierCombination::spec_empty(), 0);
    match a {
        KeyAction::No => {
        },
        KeyAction::Transparent => {
        },
        KeyAction::Single(k) => {
            lemma_pack_unpack(0, k as int);
        },
        KeyAction::WithModifier(k, m) => {
            crate::keycode::lemma_modifier_bits_round_trip(m, 0);
            lemma_pack_unpack(1, m.spec_bits() * 256 + k);
            lemma_split_256(m.spec_bits() as int, k as int);
        },
        KeyAction::LayerOn(l) => {
            lemma_pack_unpack(2, l as int);
            lemma_split_256(0, l as int);
        },
        KeyAction::LayerToggle(l) => {
            lemma_pack_unpack(2, 256 + l);
            lemma_split_256(1, l as int);
        },
        KeyAction::LayerTo(l) => {
            lemma_pack_unpack(2, 2 * 256 + l);
            lemma_split_256(2, l as int);
        },
        KeyAction::LayerDefault(l) => {
            lemma_pack_unpack(2, 3 * 256 + l);
            lemma_split_256(3, l as int);
        },
        KeyAction::LayerTapToggle(l) => {
            lemma_pack_unpack(2, 4 * 256 + l);
            lemma_split_256(4, l as int);
        },
        KeyAction::OneShotLayer(l) => {
            lemma_pack_unpack(2, 5 * 256 + l);
            lemma_split_256(5, l as int);
        },
        KeyAction::OneShotMod(m) => {
            crate::keycode::lemma_modifier_bits_round_trip(m, 0);
            lemma_pack_unpack(3, m.spec_bits() as int);
        },
        KeyAction::ModTap(k, m) => {
            crate::keycode::lemma_modifier_bits_round_trip(m, 0);
            lemma_pack_unpack(4, m.spec_bits() * 256 + k);
            lemma_split_256(m.spec_bits() as int, k as int);
        },
        KeyAction::LayerTap(l, k) => {
            lemma_pack_unpack(5, l * 256 + k);
            lemma_split_256(l as int, k as int);
        },
        KeyAction::TapHold(_, _) => {
        },
        KeyAction::System(v) => {
            lemma_pack_unpack(6, v as int);
            lemma_split_256(0, v as int);
        },
        KeyAction::Macro(id) => {
            lemma_pack_unpack(6, 256 + id);
            lemma_split_256(1, id as int);
        },
        KeyAction::Mouse(m) => {
            match m {
                MouseAction::Button(b) => {
                    lemma_pack_unpack(6, 2 * 256 + b);
                    lemma_split_256(2, b as int);
                },
                MouseAction::MoveX(d) => {
                    lemma_pack_unpack(6, 3 * 256 + spec_i8_to_byte(d));
                    lemma_split_256(3, spec_i8_to_byte(d) as int);
                },
                MouseAction::MoveY(d) => {
                    lemma_pack_unpack(6, 4 * 256 + spec_i8_to_byte(d));
                    lemma_split_256(4, spec_i8_to_byte(d) as int);
                },
                MouseAction::Wheel(d) => {
                    lemma_pack_unpack(6, 5 * 256 + spec_i8_to_byte(d));
                    lemma_split_256(5, spec_i8_to_byte(d) as int);
                },
                MouseAction::Pan(d) => {
                    lemma_pack_unpack(6, 6 * 256 + spec_i8_to_byte(d));
                    lemma_split_256(6, spec_i8_to_byte(d) as int);
                },
            }
        },
        KeyAction::Consumer(u) => {
            lemma_pack_unpack(7, u as int);
        },
    }
}

impl KeyAction {
    /// Whether the action fits in one two-byte wire code; see
    /// [`spec_encodable`].
    pub fn encodable(&self) -> (r: bool)
        ensures
            r == spec_encodable(*self),
    {
        match *self {
            KeyAction::Single(k) => k >= 4,
            KeyAction::TapHold(_, _) => false,
            KeyAction::LayerTap(layer, _) => layer < 32,
            KeyAction::Mouse(MouseAction::Button(b)) => b < 8,
            KeyAction::Consumer(u) => u < 0x2000,
            _ => true,
        }
    }

    /// The two-byte wire code of the action; an action that no code names
    /// is sent as 0, the code of `No`.
    pub fn to_code(&self) -> (r: u16)
        ensures
            spec_encodable(*self) ==> r == spec_to_code(*self),
            !spec_encodable(*self) ==> r == 0,
            r == spec_code_of(*self),
    {
        match *self {
            KeyAction::No => 0,
            KeyAction::Transparent => 1,
            KeyAction::Single(k) => if k >= 4 {
                k as u16
            } else {
                0
            },
            KeyAction::WithModifier(k, m) => 0x2000 + (m.bits() as u16) * 256 + (k as u16),
            KeyAction::LayerOn(l) => 2 * 0x2000 + (l as u16),
            KeyAction::LayerToggle(l) => 2 * 0x2000 + 256 + (l as u16),
            KeyAction::LayerTo(l) => 2 * 0x2000 + 2 * 256 + (l as u16),
            KeyAction::LayerDefault(l) => 2 * 0x2000 + 3 * 256 + (l as u16),
            KeyAction::LayerTapToggle(l) => 2 * 0x2000 + 4 * 256 + (l as u16),
            KeyAction::OneShotLayer(l) => 2 * 0x2000 + 5 * 256 + (l as u16),
            KeyAction::OneShotMod(m) => 3 * 0x2000 + (m.bits() as u16),
            KeyAction::ModTap(k, m) => 4 * 0x2000 + (m.bits() as u16) * 256 + (k as u16),
            KeyAction::LayerTap(l, k) => if l < 32 {
                5 * 0x2000 + (l as u16) * 256 + (k as u16)
            } else {
                0
            },
            KeyAction::TapHold(_, _) => 0,
            KeyAction::System(v) => 6 * 0x2000 + (v as u16),
            KeyAction::Macro(id) => 6 * 0x2000 + 256 + (id as u16),
            KeyAction::Mouse(MouseAction::Button(b)) => if b < 8 {
                6 * 0x2000 + 2 * 256 + (b as u16)
            } else {
                0
            },
            KeyAction::Mouse(MouseAction::MoveX(d)) => 6 * 0x2000 + 3 * 256 + (i8_to_byte(d) as u16),
            KeyAction::Mouse(MouseAction::MoveY(d)) => 6 * 0x2000 + 4 * 256 + (i8_to_byte(d) as u16),
            KeyAction::Mouse(MouseAction::Wheel(d)) => 6 * 0x2000 + 5 * 256 + (i8_to_byte(d) as u16),
            KeyAction::Mouse(MouseAction::Pan(d)) => 6 * 0x2000 + 6 * 256 + (i8_to_byte(d) as u16),
            KeyAction::Consumer(u) => if u < 0x2000 {
                7 * 0x2000 + u
            } else {
                0
            },
        }
    }

    /// The action a two-byte wire code names; inverse to
    /// [`KeyAction::to_code`] on encodable actions.
    pub fn from_code(c: u16) -> (r: KeyAction)
        ensures
            r == spec_from_code(c),
    {
        let tag = c / 0x2000;
        let p = c % 0x2000;
        if tag == 0 {
            if p == 0 {
                KeyAction::No
            } else if p == 1 {
                KeyAction::Transparent
            } else if 4 <= p && p < 256 {
                KeyAction::Single(p as u8)
            } else {
                KeyAction::No
            }
        } else if tag == 1 {
            KeyAction::WithModifier((p % 256) as u8, ModifierCombination::from_bits((p / 256) as u8))
        } else if tag == 2 {
            let sub = p / 256;
            let l = (p % 256) as u8;
            if sub == 0 {
                KeyAction::LayerOn(l)
            } else if sub == 1 {
                KeyAction::LayerToggle(l)
            } else if sub == 2 {
                KeyAction::LayerTo(l)
            } else if sub == 3 {
                KeyAction::LayerDefault(l)
            } else if sub == 4 {
                KeyAction::LayerTapToggle(l)
            } else if sub == 5 {
                KeyAction::OneShotLayer(l)
            } else {
                KeyAction::No
            }
        } else if tag == 3 {
            if p < 32 {
                KeyAction::OneShotMod(ModifierCombination::from_bits(p as u8))
            } else {
                KeyAction::No
            }
        } else if tag == 4 {
            KeyAction::ModTap((p % 256) as u8, ModifierCombination::from_bits((p / 256) as u8))
        } else if tag == 5 {
            KeyAction::LayerTap((p / 256) as u8, (p % 256) as u8)
        } else if tag == 6 {
            let sub = p / 256;
            let v = (p % 256) as u8;
            if sub == 0 {
                KeyAction::System(v)
            } else if sub == 1 {
                KeyAction::Macro(v)
            } else if sub == 2 {
                if v < 8 {
                    KeyAction::Mouse(MouseAction::Button(v))
                } else {
                    KeyAction::No
                }
            } else if sub == 3 {
                KeyAction::Mouse(MouseAction::MoveX(byte_to_i8(v)))
            } else if sub == 4 {
                KeyAction::Mouse(MouseAction::MoveY(byte_to_i8(v)))
            } else if sub == 5 {
                KeyAction::Mouse(MouseAction::Wheel(byte_to_i8(v)))
            } else if sub == 6 {
                KeyAction::Mouse(MouseAction::Pan(byte_to_i8(v)))
            } else {
                KeyAction::No
            }
        } else {
            KeyAction::Consumer(p)
        }
    }
}

} // verus!
