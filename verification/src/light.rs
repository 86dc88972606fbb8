//! Indicator lights: turning the host's one-byte LED report into levels
//! for the three assignable indicator pins.

use vstd::prelude::*;

verus! {

/// Bit 0 of the indicator report: num lock.
pub const LED_NUM_LOCK: u8 = 0;

/// Bit 1 of the indicator report: caps lock.
pub const LED_CAPS_LOCK: u8 = 1;

/// Bit 2 of the indicator report: scroll lock.
pub const LED_SCROLL_LOCK: u8 = 2;

/// Whether bit `b` of the indicator byte is set.
pub open spec fn spec_indicator_bit(indicator: u8, b: int) -> bool {
    (indicator >> (b as u8)) & 1 == 1
}

/// The light service: three indicator pins — num lock, caps lock,
/// scroll lock — each wired active-high or active-low.
pub struct LightService {
    /// Per pin: true when the pin is wired active-low.
    pub active_low: [bool; 3],
}

impl LightService {
    pub fn new(active_low: [bool; 3]) -> (r: LightService)
        ensures
            r.active_low == active_low,
    {
        LightService { active_low }
    }

    /// The level pin `b` drives when its indicator bit is `on`: the bit
    /// itself, inverted on an active-low pin.
    pub open spec fn spec_level(&self, b: int, on: bool) -> bool {
        if self.active_low[b] {
            !on
        } else {
            on
        }
    }

    /// The three pin levels the host's indicator byte asks for, in order
    /// num lock, caps lock, scroll lock.
    pub fn levels(&self, indicator: u8) -> (r: [bool; 3])
        ensures
            r[0] == self.spec_level(0, spec_indicator_bit(indicator, 0)),
            r[1] == self.spec_level(1, spec_indicator_bit(indicator, 1)),
            r[2] == self.spec_level(2, spec_indicator_bit(indicator, 2)),
    {
        let num = (indicator >> 0u8) & 1 == 1;
        let caps = (indicator >> 1u8) & 1 == 1;
        let scroll = (indicator >> 2u8) & 1 == 1;
        [
            if self.active_low[0] {
                !num
            } else {
                num
            },
            if self.active_low[1] {
                !caps
            } else {
                caps
            },
            if self.active_low[2] {
                !scroll
            } else {
                scroll
            },
        ]
    }
}

} // verus!
