//! The key-action state machine: the heart of the firmware. It consumes
//! debounced key events, resolves each against the keymap, keeps the
//! per-key state of everything held, disambiguates tap from hold, applies
//! one-shot modifiers and layers, pumps macros, and emits a report
//! whenever the outgoing report changes.
//!
//! Every transition is a function of the machine's state, the event and
//! its time alone — nothing here consults a clock, a queue or the
//! scheduler — so a timed event stream determines the report stream.

use vstd::prelude::*;
use crate::action::{KeyAction, MouseAction};
use crate::event::KeyEvent;
use crate::keycode::ModifierCombination;
use crate::keyboard_macro::MacroOp;
use crate::keymap::KeyMap;
use crate::report::{
    spec_deregister_key,
    spec_register_key,
    CompositeReport,
    KeyboardReport,
};

verus! {

/// How long a dual-role key may stay down and still count as a tap,
/// in milliseconds.
pub const TAPPING_TERM_MS: u64 = 200;

/// How long a one-shot modifier or layer waits for its key, in
/// milliseconds.
pub const ONESHOT_TIMEOUT_MS: u64 = 500;

/// How many consecutive taps lock a tap-toggle layer.
pub const TAP_TOGGLE_COUNT: u8 = 5;

/// Tuning of the machine.
#[derive(Clone, Copy, Debug, PartialEq, Eq, Structural)]
pub struct KeyboardConfig {
    /// The tap-or-hold decision window, in milliseconds.
    pub tapping_term: u64,
    /// How long a one-shot modifier or layer waits, in milliseconds.
    pub oneshot_timeout: u64,
    /// Resolve a dual-role key as held as soon as another key goes down,
    /// instead of waiting for that key to be released.
    pub hold_on_other_press: bool,
    /// How many consecutive taps lock a tap-toggle layer.
    pub tap_toggle_count: u8,
}

impl KeyboardConfig {
    /// The default tuning: permissive hold, 200 ms tapping term, 500 ms
    /// one-shot timeout, five taps to lock a layer.
    pub fn new() -> (r: KeyboardConfig)
        ensures
            r == (KeyboardConfig {
                tapping_term: TAPPING_TERM_MS,
                oneshot_timeout: ONESHOT_TIMEOUT_MS,
                hold_on_other_press: false,
                tap_toggle_count: TAP_TOGGLE_COUNT,
            }),
    {
        KeyboardConfig {
            tapping_term: TAPPING_TERM_MS,
            oneshot_timeout: ONESHOT_TIMEOUT_MS,
            hold_on_other_press: false,
            tap_toggle_count: TAP_TOGGLE_COUNT,
        }
    }
}

/// What releasing a held key must undo.
#[derive(Clone, Copy, Debug, PartialEq, Eq, Structural)]
pub enum HeldEffect {
    /// A plain key: remove it from the report.
    Key(u8),
    /// A key with ephemeral modifiers: remove both.
    KeyWithMods(u8, u8),
    /// A momentary layer: turn it off.
    Layer(u8),
    /// Modifiers held by a resolved dual-role key: drop them.
    HoldMods(u8),
    /// A key held by a resolved dual-role key: remove it.
    HoldKey(u8),
    /// A mouse button: release it.
    MouseButton(u8),
    /// Horizontal mouse motion by this per-tick delta: withdraw it.
    MouseMoveX(i8),
    /// Vertical mouse motion by this per-tick delta: withdraw it.
    MouseMoveY(i8),
    /// Vertical scrolling by this per-tick delta: withdraw it.
    MouseWheel(i8),
    /// Horizontal scrolling by this per-tick delta: withdraw it.
    MousePan(i8),
    /// A consumer usage: clear it.
    ConsumerUse,
    /// A system usage: clear it.
    SystemUse,
    /// Nothing: the press did all its work.
    Passive,
}

/// One held key: where it sits, what its release undoes, and the one-shot
/// modifiers it consumed.
#[derive(Clone, Copy, Debug, PartialEq, Eq, Structural)]
pub struct HeldKey {
    pub row: u8,
    pub col: u8,
    /// What release must undo.
    pub effect: HeldEffect,
    /// One-shot modifier bits applied to this key alone.
    pub extra_mods: u8,
    /// Whether releasing this key retires the one-shot layer.
    pub clears_os_layer: bool,
}

/// The one-shot modifier state.
#[derive(Clone, Copy, Debug, PartialEq, Eq, Structural)]
pub enum OneShotState {
    /// No one-shot modifier armed.
    Idle,
    /// Armed: the modifiers apply to the next key press, or expire.
    Pending { mods: ModifierCombination, since: u64 },
    /// Locked by a double tap: the modifiers stay until unlocked.
    Locked { mods: ModifierCombination },
}

/// An armed one-shot layer.
#[derive(Clone, Copy, Debug, PartialEq, Eq, Structural)]
pub struct OsLayer {
    pub layer: u8,
    pub since: u64,
}

/// Which branch a dual-role key takes when it resolves as held.
#[derive(Clone, Copy, Debug, PartialEq, Eq, Structural)]
pub enum HoldBranch {
    /// Hold for modifiers.
    Mods(ModifierCombination),
    /// Hold for a momentary layer.
    Layer(u8),
    /// Hold for another key.
    Key(u8),
}

/// A dual-role key waiting for its tap-or-hold decision.
#[derive(Clone, Copy, Debug, PartialEq, Eq, Structural)]
pub struct PendingTapHold {
    pub row: u8,
    pub col: u8,
    /// The key sent if this resolves as a tap.
    pub tap_key: u8,
    /// What holding engages.
    pub branch: HoldBranch,
    /// When the key went down.
    pub pressed_at: u64,
}

/// An event set aside while a dual-role key is undecided.
#[derive(Clone, Copy, Debug, PartialEq, Eq, Structural)]
pub struct DeferredEvent {
    pub ev: KeyEvent,
    pub at: u64,
}

/// A macro in flight.
#[derive(Clone, Copy, Debug, PartialEq, Eq, Structural)]
pub struct MacroRun {
    pub id: u8,
    /// The next operation to pump.
    pub pos: u16,
    /// Pump nothing before this time.
    pub next_at: u64,
}

/// One outgoing report.
#[derive(Clone, Copy, Debug, PartialEq, Eq)]
pub enum Report {
    /// The boot keyboard report.
    Keyboard(KeyboardReport),
    /// The mouse sub-report.
    Mouse(CompositeReport),
    /// The consumer usage sub-report.
    Consumer(u16),
    /// The system-control sub-report.
    System(u8),
}

/// The key-action state machine. All fields are plain values: a
/// transition builds the next state outright, which is what makes the
/// machine a function of its event stream.
#[derive(Clone, Copy, Debug, PartialEq, Eq)]
pub struct Keyboard {
    /// The outgoing boot keyboard report as last assembled.
    pub report: KeyboardReport,
    /// The last keyboard report actually emitted; repeats are suppressed
    /// against it.
    pub last_sent: Option<KeyboardReport>,
    /// Everything currently held.
    pub held: [Option<HeldKey>; 8],
    /// The one-shot modifier state.
    pub oneshot: OneShotState,
    /// The armed one-shot layer, if any.
    pub os_layer: Option<OsLayer>,
    /// The undecided dual-role key, if any.
    pub pending: Option<PendingTapHold>,
    /// The event set aside while `pending` is undecided.
    pub deferred: Option<DeferredEvent>,
    /// Consecutive tap count of the last tap-toggle layer key.
    pub tap_toggle: Option<(u8, u8)>,
    /// The mouse, consumer and system state.
    pub mouse: CompositeReport,
    /// The macro in flight, if any.
    pub macro_run: Option<MacroRun>,
    /// Tuning.
    pub config: KeyboardConfig,
}

/// The modifier bits one held entry asserts.
pub open spec fn spec_entry_mods(e: Option<HeldKey>) -> u8 {
    match e {
        Some(hk) => match hk.effect {
            HeldEffect::KeyWithMods(_, m) => m | hk.extra_mods,
            HeldEffect::HoldMods(m) => m | hk.extra_mods,
            _ => hk.extra_mods,
        },
        None => 0,
    }
}

/// The modifier bits the held entries from slot `i` on assert.
pub open spec fn spec_held_mods_from(held: [Option<HeldKey>; 8], i: int) -> u8
    decreases 8 - i,
{
    if i < 0 || i >= 8 {
        0
    } else {
        spec_entry_mods(held[i]) | spec_held_mods_from(held, i + 1)
    }
}

/// The modifier bits a locked one-shot asserts.
pub open spec fn spec_os_mods(os: OneShotState) -> u8 {
    match os {
        OneShotState::Locked { mods } => mods.spec_hid_bits(),
        _ => 0,
    }
}

/// The machine's current modifier byte: everything held plus a locked
/// one-shot. A merely pending one-shot shows nothing until a key
/// consumes it.
pub open spec fn spec_modifier(kb: Keyboard) -> u8 {
    spec_held_mods_from(kb.held, 0) | spec_os_mods(kb.oneshot)
}

/// Slot `t` of the held array after writing slot `j`.
pub open spec fn spec_held_slot(held: [Option<HeldKey>; 8], j: int, v: Option<HeldKey>, t: int) -> Option<HeldKey> {
    if t == j {
        v
    } else {
        held[t]
    }
}

/// The held array after writing slot `j`.
pub open spec fn spec_held_set(held: [Option<HeldKey>; 8], j: int, v: Option<HeldKey>) -> [Option<
    HeldKey,
>; 8] {
    [
        spec_held_slot(held, j, v, 0),
        spec_held_slot(held, j, v, 1),
        spec_held_slot(held, j, v, 2),
        spec_held_slot(held, j, v, 3),
        spec_held_slot(held, j, v, 4),
        spec_held_slot(held, j, v, 5),
        spec_held_slot(held, j, v, 6),
        spec_held_slot(held, j, v, 7),
    ]
}

/// The first free held slot at or after `i`.
pub open spec fn spec_held_free(held: [Option<HeldKey>; 8], i: int) -> Option<int>
    decreases 8 - i,
{
    if i < 0 || i >= 8 {
        None
    } else if held[i] is None {
        Some(i)
    } else {
        spec_held_free(held, i + 1)
    }
}

/// The first held slot at or after `i` occupied by key `(row, col)`.
pub open spec fn spec_held_find(held: [Option<HeldKey>; 8], row: u8, col: u8, i: int) -> Option<
    int,
>
    decreases 8 - i,
{
    if i < 0 || i >= 8 {
        None
    } else {
        match held[i] {
            Some(hk) => if hk.row == row && hk.col == col {
                Some(i)
            } else {
                spec_held_find(held, row, col, i + 1)
            },
            None => spec_held_find(held, row, col, i + 1),
        }
    }
}

/// What recording a held key does: it takes the first free slot; with
/// every slot taken the entry is dropped, like a seventh key in the
/// report.
pub open spec fn spec_held_insert(held: [Option<HeldKey>; 8], hk: HeldKey) -> [Option<HeldKey>; 8] {
    match spec_held_free(held, 0) {
        Some(j) => spec_held_set(held, j, Some(hk)),
        None => held,
    }
}

/// The contribution of one held entry to one motion axis (0 horizontal,
/// 1 vertical, 2 wheel, 3 pan).
pub open spec fn spec_entry_axis(e: Option<HeldKey>, axis: int) -> int {
    match e {
        Some(hk) => match hk.effect {
            HeldEffect::MouseMoveX(d) => if axis == 0 {
                d as int
            } else {
                0
            },
            HeldEffect::MouseMoveY(d) => if axis == 1 {
                d as int
            } else {
                0
            },
            HeldEffect::MouseWheel(d) => if axis == 2 {
                d as int
            } else {
                0
            },
            HeldEffect::MousePan(d) => if axis == 3 {
                d as int
            } else {
                0
            },
            _ => 0,
        },
        None => 0,
    }
}

/// The sum of one motion axis over the held entries from slot `i` on:
/// motion keys held together add up.
pub open spec fn spec_axis_sum(held: [Option<HeldKey>; 8], axis: int, i: int) -> int
    decreases 8 - i,
{
    if i < 0 || i >= 8 {
        0
    } else {
        spec_entry_axis(held[i], axis) + spec_axis_sum(held, axis, i + 1)
    }
}

/// A per-tick delta clamped to one byte's magnitude.
pub open spec fn spec_clamp127(v: int) -> i8 {
    if v > 127 {
        127i8
    } else if v < -127 {
        -127i8
    } else {
        v as i8
    }
}

/// The mouse state with its four motion axes recomputed from what is
/// held: each axis is the clamped sum of the held per-tick deltas, so
/// releasing one of two keys on an axis withdraws only its own share.
pub open spec fn spec_mouse_motion(kb: Keyboard) -> CompositeReport {
    CompositeReport {
        x: spec_clamp127(spec_axis_sum(kb.held, 0, 0)),
        y: spec_clamp127(spec_axis_sum(kb.held, 1, 0)),
        wheel: spec_clamp127(spec_axis_sum(kb.held, 2, 0)),
        pan: spec_clamp127(spec_axis_sum(kb.held, 3, 0)),
        ..kb.mouse
    }
}

/// Whether any motion key is held; while one is, every tick repeats the
/// per-tick delta report, which is how motion accumulates at the host.
pub open spec fn spec_has_motion(held: [Option<HeldKey>; 8], i: int) -> bool
    decreases 8 - i,
{
    if i < 0 || i >= 8 {
        false
    } else {
        (match held[i] {
            Some(hk) => match hk.effect {
                HeldEffect::MouseMoveX(_) => true,
                HeldEffect::MouseMoveY(_) => true,
                HeldEffect::MouseWheel(_) => true,
                HeldEffect::MousePan(_) => true,
                _ => false,
            },
            None => false,
        }) || spec_has_motion(held, i + 1)
    }
}

impl Keyboard {
    /// The outgoing report never carries a phantom repeat.
    pub open spec fn wf(&self) -> bool {
        self.report.wf()
    }

    /// A fresh machine: nothing held, nothing armed, the empty report
    /// already on the wire.
    pub fn new(config: KeyboardConfig) -> (r: Keyboard)
        ensures
            r.wf(),
            r.config == config,
            forall|i: int| 0 <= i < 8 ==> r.held[i] is None,
            r.oneshot == OneShotState::Idle,
            r.os_layer is None,
            r.pending is None,
            r.deferred is None,
            r.macro_run is None,
            r.report == (KeyboardReport { modifier: 0, keys: [0, 0, 0, 0, 0, 0] }),
            r.last_sent == Some(KeyboardReport { modifier: 0, keys: [0, 0, 0, 0, 0, 0] }),
            r.mouse == CompositeReport::spec_empty(),
    {
        let empty = KeyboardReport { modifier: 0, keys: [0, 0, 0, 0, 0, 0] };
        Keyboard {
            report: empty,
            last_sent: Some(empty),
            held: [None; 8],
            oneshot: OneShotState::Idle,
            os_layer: None,
            pending: None,
            deferred: None,
            tap_toggle: None,
            mouse: CompositeReport::new(),
            macro_run: None,
            config,
        }
    }

    /// The machine's current modifier byte; see [`spec_modifier`].
    pub fn current_modifier(&self) -> (r: u8)
        ensures
            r == spec_modifier(*self),
    {
        let mut acc: u8 = match self.oneshot {
            OneShotState::Locked { mods } => mods.hid_bits(),
            _ => 0,
        };
        proof {
            let o = spec_os_mods(self.oneshot);
            assert(0u8 | o == o) by (bit_vector);
        }
        let mut i: usize = 8;
        while i > 0
            invariant
                i <= 8,
                acc == spec_held_mods_from(self.held, i as int) | spec_os_mods(self.oneshot),
            decreases i,
        {
            i = i - 1;
            let em: u8 = match self.held[i] {
                Some(hk) => match hk.effect {
                    HeldEffect::KeyWithMods(_, m) => m | hk.extra_mods,
                    HeldEffect::HoldMods(m) => m | hk.extra_mods,
                    _ => hk.extra_mods,
                },
                None => 0,
            };
            proof {
                let h = spec_held_mods_from(self.held, i + 1);
                let o = spec_os_mods(self.oneshot);
                assert(em | (h | o) == (em | h) | o) by (bit_vector);
            }
            acc = em | acc;
        }
        acc
    }

    /// Record a held key in the first free slot; see
    /// [`spec_held_insert`].
    fn held_insert(&mut self, hk: HeldKey)
        ensures
            *final(self) == (Keyboard { held: spec_held_insert(old(self).held, hk), ..*old(self) }),
    {
        let mut i: usize = 0;
        while i < 8
            invariant
                i <= 8,
                *self == *old(self),
                spec_held_free(old(self).held, 0) == spec_held_free(old(self).held, i as int),
            decreases 8 - i,
        {
            if self.held[i].is_none() {
                self.held[i] = Some(hk);
                proof {
                    assert(self.held =~= spec_held_set(old(self).held, i as int, Some(hk)));
                }
                return ;
            }
            i = i + 1;
        }
    }

    /// Remove and return the held entry of key `(row, col)`, if any; see
    /// [`spec_held_find`].
    fn held_take(&mut self, row: u8, col: u8) -> (r: Option<HeldKey>)
        ensures
            match spec_held_find(old(self).held, row, col, 0) {
                Some(j) => 0 <= j < 8 && old(self).held[j] is Some && r == old(self).held[j]
                    && *final(self) == (Keyboard {
                    held: spec_held_set(old(self).held, j, None),
                    ..*old(self)
                }),
                None => r is None && *final(self) == *old(self),
            },
    {
        let mut i: usize = 0;
        while i < 8
            invariant
                i <= 8,
                *self == *old(self),
                spec_held_find(old(self).held, row, col, 0) == spec_held_find(
                    old(self).held,
                    row,
                    col,
                    i as int,
                ),
            decreases 8 - i,
        {
            match self.held[i] {
                Some(hk) => {
                    if hk.row == row && hk.col == col {
                        self.held[i] = None;
                        proof {
                            assert(self.held =~= spec_held_set(old(self).held, i as int, None));
                        }
                        return Some(hk);
                    }
                },
                None => {
                },
            }
            i = i + 1;
        }
        None
    }
}

/// What emitting does: assemble the report from the current modifier
/// byte and key slots, and push it only if it differs from the last one
/// sent.
pub open spec fn spec_emit(kb: Keyboard) -> (Keyboard, Seq<Report>) {
    let rep = KeyboardReport { modifier: spec_modifier(kb), keys: kb.report.keys };
    if kb.last_sent == Some(rep) {
        (Keyboard { report: rep, ..kb }, Seq::empty())
    } else {
        (Keyboard { report: rep, last_sent: Some(rep), ..kb }, seq![Report::Keyboard(rep)])
    }
}

impl Keyboard {
    /// Recompute the four motion axes from what is held; see
    /// [`spec_mouse_motion`].
    fn mouse_axes(&self) -> (r: (i8, i8, i8, i8))
        ensures
            r.0 == spec_clamp127(spec_axis_sum(self.held, 0, 0)),
            r.1 == spec_clamp127(spec_axis_sum(self.held, 1, 0)),
            r.2 == spec_clamp127(spec_axis_sum(self.held, 2, 0)),
            r.3 == spec_clamp127(spec_axis_sum(self.held, 3, 0)),
    {
        let mut sx: i32 = 0;
        let mut sy: i32 = 0;
        let mut sw: i32 = 0;
        let mut sp: i32 = 0;
        let mut i: usize = 8;
        while i > 0
            invariant
                i <= 8,
                sx == spec_axis_sum(self.held, 0, i as int),
                sy == spec_axis_sum(self.held, 1, i as int),
                sw == spec_axis_sum(self.held, 2, i as int),
                sp == spec_axis_sum(self.held, 3, i as int),
                -128 * 8 <= sx <= 127 * 8,
                -128 * 8 <= sy <= 127 * 8,
                -128 * 8 <= sw <= 127 * 8,
                -128 * 8 <= sp <= 127 * 8,
            decreases i,
        {
            i = i - 1;
            proof {
                lemma_axis_sum_bounds(self.held, 0, i + 1);
                lemma_axis_sum_bounds(self.held, 1, i + 1);
                lemma_axis_sum_bounds(self.held, 2, i + 1);
                lemma_axis_sum_bounds(self.held, 3, i + 1);
            }
            match self.held[i] {
                Some(hk) => match hk.effect {
                    HeldEffect::MouseMoveX(d) => {
                        sx = sx + d as i32;
                    },
                    HeldEffect::MouseMoveY(d) => {
                        sy = sy + d as i32;
                    },
                    HeldEffect::MouseWheel(d) => {
                        sw = sw + d as i32;
                    },
                    HeldEffect::MousePan(d) => {
                        sp = sp + d as i32;
                    },
                    _ => {
                    },
                },
                None => {
                },
            }
        }
        (clamp127(sx), clamp127(sy), clamp127(sw), clamp127(sp))
    }

    /// Whether any motion key is held; see [`spec_has_motion`].
    fn has_motion(&self) -> (r: bool)
        ensures
            r == spec_has_motion(self.held, 0),
    {
        let mut i: usize = 8;
        let mut found = false;
        while i > 0
            invariant
                i <= 8,
                found == spec_has_motion(self.held, i as int),
            decreases i,
        {
            i = i - 1;
            let here = match self.held[i] {
                Some(hk) => match hk.effect {
                    HeldEffect::MouseMoveX(_) => true,
                    HeldEffect::MouseMoveY(_) => true,
                    HeldEffect::MouseWheel(_) => true,
                    HeldEffect::MousePan(_) => true,
                    _ => false,
                },
                None => false,
            };
            found = here || found;
        }
        found
    }

    /// Recompute the motion axes and push the resulting mouse report.
    fn refresh_mouse(&mut self, out: &mut Vec<Report>)
        ensures
            *final(self) == (Keyboard { mouse: spec_mouse_motion(*old(self)), ..*old(self) }),
            final(out)@ == old(out)@ + seq![Report::Mouse(spec_mouse_motion(*old(self)))],
    {
        let (x, y, wheel, pan) = self.mouse_axes();
        self.mouse.x = x;
        self.mouse.y = y;
        self.mouse.wheel = wheel;
        self.mouse.pan = pan;
        out.push(Report::Mouse(self.mouse));
    }

    /// Assemble and emit the keyboard report if it changed; see
    /// [`spec_emit`].
    fn emit(&mut self, out: &mut Vec<Report>)
        ensures
            *final(self) == spec_emit(*old(self)).0,
            final(out)@ == old(out)@ + spec_emit(*old(self)).1,
    {
        let m = self.current_modifier();
        let rep = KeyboardReport { modifier: m, keys: self.report.keys };
        let same = match self.last_sent {
            Some(ls) => reports_equal(&ls, &rep),
            None => false,
        };
        self.report = rep;
        if !same {
            self.last_sent = Some(rep);
            out.push(Report::Keyboard(rep));
        } else {
            proof {
                assert(final(out)@ =~= old(out)@ + spec_emit(*old(self)).1);
            }
        }
    }
}

/// What consuming the one-shot modifier at a key press does: a pending
/// one-shot is spent on this key and disarmed; a locked or idle one is
/// left alone.
pub open spec fn spec_consume_oneshot(os: OneShotState) -> (OneShotState, u8) {
    match os {
        OneShotState::Pending { mods, since } => (OneShotState::Idle, mods.spec_hid_bits()),
        other => (other, 0),
    }
}

/// What pressing a one-shot modifier key does: arm it; arm it again on a
/// different set; lock it on a repeated tap while armed and still inside
/// the one-shot window; unlock it on a tap while locked.
pub open spec fn spec_oneshot_press(
    os: OneShotState,
    m: ModifierCombination,
    now: u64,
    timeout: u64,
) -> OneShotState {
    match os {
        OneShotState::Idle => OneShotState::Pending { mods: m, since: now },
        OneShotState::Pending { mods, since } => if mods == m && since <= now && now - since
            < timeout {
            OneShotState::Locked { mods: m }
        } else {
            OneShotState::Pending { mods: m, since: now }
        },
        OneShotState::Locked { mods } => if mods == m {
            OneShotState::Idle
        } else {
            OneShotState::Pending { mods: m, since: now }
        },
    }
}

/// What one key press does to the machine, the layer mask and the default
/// layer, given the action the keymap resolved; dual-role actions are
/// handled by the caller and reach here as no-ops.
pub open spec fn spec_press_action(
    kb: Keyboard,
    layers_len: int,
    mask: u32,
    default: u8,
    row: u8,
    col: u8,
    action: KeyAction,
    now: u64,
) -> (Keyboard, u32, u8, Seq<Report>) {
    let clears = kb.os_layer is Some;
    match action {
        KeyAction::Single(k) => {
            if k == 0 {
                (kb, mask, default, Seq::empty())
            } else {
                let (os, extra) = spec_consume_oneshot(kb.oneshot);
                let kb1 = Keyboard {
                    report: spec_register_key(kb.report, k),
                    held: spec_held_insert(
                        kb.held,
                        HeldKey {
                            row,
                            col,
                            effect: HeldEffect::Key(k),
                            extra_mods: extra,
                            clears_os_layer: clears,
                        },
                    ),
                    oneshot: os,
                    ..kb
                };
                let (kb2, out) = spec_emit(kb1);
                (kb2, mask, default, out)
            }
        },
        KeyAction::WithModifier(k, m) => {
            if k == 0 {
                (kb, mask, default, Seq::empty())
            } else {
                let (os, extra) = spec_consume_oneshot(kb.oneshot);
                let kb1 = Keyboard {
                    report: spec_register_key(kb.report, k),
                    held: spec_held_insert(
                        kb.held,
                        HeldKey {
                            row,
                            col,
                            effect: HeldEffect::KeyWithMods(k, m.spec_hid_bits()),
                            extra_mods: extra,
                            clears_os_layer: clears,
                        },
                    ),
                    oneshot: os,
                    ..kb
                };
                let (kb2, out) = spec_emit(kb1);
                (kb2, mask, default, out)
            }
        },
        KeyAction::LayerOn(n) => {
            if n < layers_len {
                let kb1 = Keyboard {
                    held: spec_held_insert(
                        kb.held,
                        HeldKey {
                            row,
                            col,
                            effect: HeldEffect::Layer(n),
                            extra_mods: 0,
                            clears_os_layer: false,
                        },
                    ),
                    ..kb
                };
                (kb1, mask | (1u32 << (n as u32)), default, Seq::empty())
            } else {
                (kb, mask, default, Seq::empty())
            }
        },
        KeyAction::LayerToggle(n) => {
            if n < layers_len {
                let mask1 = if (mask >> (n as u32)) & 1 == 1 {
                    mask & !(1u32 << (n as u32))
                } else {
                    mask | (1u32 << (n as u32))
                };
                (kb, mask1, default, Seq::empty())
            } else {
                (kb, mask, default, Seq::empty())
            }
        },
        KeyAction::LayerTo(n) => {
            if n < layers_len {
                (kb, 1u32 << (n as u32), default, Seq::empty())
            } else {
                (kb, mask, default, Seq::empty())
            }
        },
        KeyAction::LayerDefault(n) => {
            if n < layers_len {
                (kb, mask, n, Seq::empty())
            } else {
                (kb, mask, default, Seq::empty())
            }
        },
        KeyAction::LayerTapToggle(n) => {
            if n < layers_len {
                let c = match kb.tap_toggle {
                    Some((l, c0)) => if l == n {
                        c0
                    } else {
                        0
                    },
                    None => 0,
                };
                let c1 = if c < 255 {
                    (c + 1) as u8
                } else {
                    c
                };
                if c1 >= kb.config.tap_toggle_count {
                    let kb1 = Keyboard { tap_toggle: Some((n, 0)), ..kb };
                    (kb1, mask | (1u32 << (n as u32)), default, Seq::empty())
                } else {
                    let kb1 = Keyboard {
                        tap_toggle: Some((n, c1)),
                        held: spec_held_insert(
                            kb.held,
                            HeldKey {
                                row,
                                col,
                                effect: HeldEffect::Layer(n),
                                extra_mods: 0,
                                clears_os_layer: false,
                            },
                        ),
                        ..kb
                    };
                    (kb1, mask | (1u32 << (n as u32)), default, Seq::empty())
                }
            } else {
                (kb, mask, default, Seq::empty())
            }
        },
        KeyAction::OneShotLayer(n) => {
            let kb1 = Keyboard { os_layer: Some(OsLayer { layer: n, since: now }), ..kb };
            (kb1, mask, default, Seq::empty())
        },
        KeyAction::OneShotMod(m) => {
            let kb1 = Keyboard {
                oneshot: spec_oneshot_press(kb.oneshot, m, now, kb.config.oneshot_timeout),
                ..kb
            };
            let (kb2, out) = spec_emit(kb1);
            (kb2, mask, default, out)
        },
        KeyAction::Macro(id) => {
            let kb1 = Keyboard { macro_run: Some(MacroRun { id, pos: 0, next_at: now }), ..kb };
            (kb1, mask, default, Seq::empty())
        },
        KeyAction::Mouse(ma) => {
            match ma {
                MouseAction::Button(b) => {
                    if b < 8 {
                        let mouse1 = CompositeReport {
                            buttons: kb.mouse.buttons | (1u8 << b),
                            ..kb.mouse
                        };
                        let kb1 = Keyboard {
                            mouse: mouse1,
                            held: spec_held_insert(
                                kb.held,
                                HeldKey {
                                    row,
                                    col,
                                    effect: HeldEffect::MouseButton(b),
                                    extra_mods: 0,
                                    clears_os_layer: false,
                                },
                            ),
                            ..kb
                        };
                        (kb1, mask, default, seq![Report::Mouse(mouse1)])
                    } else {
                        (kb, mask, default, Seq::empty())
                    }
                },
                _ => {
                    let effect = match ma {
                        MouseAction::MoveX(d) => HeldEffect::MouseMoveX(d),
                        MouseAction::MoveY(d) => HeldEffect::MouseMoveY(d),
                        MouseAction::Wheel(d) => HeldEffect::MouseWheel(d),
                        MouseAction::Pan(d) => HeldEffect::MousePan(d),
                        MouseAction::Button(_) => HeldEffect::Passive,
                    };
                    let kb1 = Keyboard {
                        held: spec_held_insert(
                            kb.held,
                            HeldKey { row, col, effect, extra_mods: 0, clears_os_layer: false },
                        ),
                        ..kb
                    };
                    let mouse1 = spec_mouse_motion(kb1);
                    (
                        Keyboard { mouse: mouse1, ..kb1 },
                        mask,
                        default,
                        seq![Report::Mouse(mouse1)],
                    )
                },
            }
        },
        KeyAction::Consumer(u) => {
            let kb1 = Keyboard {
                mouse: CompositeReport { media_usage_id: u, ..kb.mouse },
                held: spec_held_insert(
                    kb.held,
                    HeldKey {
                        row,
                        col,
                        effect: HeldEffect::ConsumerUse,
                        extra_mods: 0,
                        clears_os_layer: false,
                    },
                ),
                ..kb
            };
            (kb1, mask, default, seq![Report::Consumer(u)])
        },
        KeyAction::System(v) => {
            let kb1 = Keyboard {
                mouse: CompositeReport { system_usage_id: v, ..kb.mouse },
                held: spec_held_insert(
                    kb.held,
                    HeldKey {
                        row,
                        col,
                        effect: HeldEffect::SystemUse,
                        extra_mods: 0,
                        clears_os_layer: false,
                    },
                ),
                ..kb
            };
            (kb1, mask, default, seq![Report::System(v)])
        },
        _ => (kb, mask, default, Seq::empty()),
    }
}

/// What one key release does: the held entry latched at press — never the
/// keymap, so a layer change mid-hold cannot change what release undoes —
/// is removed and its effect undone. A release with no held entry does
/// nothing.
pub open spec fn spec_release(
    kb: Keyboard,
    layers_len: int,
    mask: u32,
    row: u8,
    col: u8,
) -> (Keyboard, u32, Seq<Report>) {
    match spec_held_find(kb.held, row, col, 0) {
        None => (kb, mask, Seq::empty()),
        Some(j) => {
            let hk = kb.held[j]->Some_0;
            let kb1 = Keyboard {
                held: spec_held_set(kb.held, j, None),
                os_layer: if hk.clears_os_layer {
                    None
                } else {
                    kb.os_layer
                },
                ..kb
            };
            match hk.effect {
                HeldEffect::Key(k) => {
                    let kb2 = Keyboard { report: spec_deregister_key(kb1.report, k), ..kb1 };
                    let (kb3, out) = spec_emit(kb2);
                    (kb3, mask, out)
                },
                HeldEffect::KeyWithMods(k, _) => {
                    let kb2 = Keyboard { report: spec_deregister_key(kb1.report, k), ..kb1 };
                    let (kb3, out) = spec_emit(kb2);
                    (kb3, mask, out)
                },
                HeldEffect::HoldKey(k) => {
                    let kb2 = Keyboard { report: spec_deregister_key(kb1.report, k), ..kb1 };
                    let (kb3, out) = spec_emit(kb2);
                    (kb3, mask, out)
                },
                HeldEffect::Layer(n) => {
                    if n < layers_len {
                        (kb1, mask & !(1u32 << (n as u32)), Seq::empty())
                    } else {
                        (kb1, mask, Seq::empty())
                    }
                },
                HeldEffect::HoldMods(_) => {
                    let (kb2, out) = spec_emit(kb1);
                    (kb2, mask, out)
                },
                HeldEffect::MouseButton(b) => {
                    let mouse1 = if b < 8 {
                        CompositeReport { buttons: kb1.mouse.buttons & !(1u8 << b), ..kb1.mouse }
                    } else {
                        kb1.mouse
                    };
                    (Keyboard { mouse: mouse1, ..kb1 }, mask, seq![Report::Mouse(mouse1)])
                },
                HeldEffect::MouseMoveX(_) => {
                    let mouse1 = spec_mouse_motion(kb1);
                    (Keyboard { mouse: mouse1, ..kb1 }, mask, seq![Report::Mouse(mouse1)])
                },
                HeldEffect::MouseMoveY(_) => {
                    let mouse1 = spec_mouse_motion(kb1);
                    (Keyboard { mouse: mouse1, ..kb1 }, mask, seq![Report::Mouse(mouse1)])
                },
                HeldEffect::MouseWheel(_) => {
                    let mouse1 = spec_mouse_motion(kb1);
                    (Keyboard { mouse: mouse1, ..kb1 }, mask, seq![Report::Mouse(mouse1)])
                },
                HeldEffect::MousePan(_) => {
                    let mouse1 = spec_mouse_motion(kb1);
                    (Keyboard { mouse: mouse1, ..kb1 }, mask, seq![Report::Mouse(mouse1)])
                },
                HeldEffect::ConsumerUse => {
                    let mouse1 = CompositeReport { media_usage_id: 0, ..kb1.mouse };
                    (Keyboard { mouse: mouse1, ..kb1 }, mask, seq![Report::Consumer(0)])
                },
                HeldEffect::SystemUse => {
                    let mouse1 = CompositeReport { system_usage_id: 0, ..kb1.mouse };
                    (Keyboard { mouse: mouse1, ..kb1 }, mask, seq![Report::System(0)])
                },
                HeldEffect::Passive => (kb1, mask, Seq::empty()),
            }
        },
    }
}

/// The extra lookup mask an armed one-shot layer contributes.
pub open spec fn spec_os_layer_mask(kb: Keyboard) -> u32 {
    match kb.os_layer {
        Some(o) => if o.layer < 32 {
            1u32 << (o.layer as u32)
        } else {
            0
        },
        None => 0,
    }
}

/// What one event does when no dual-role key is undecided: a press
/// resolves the live action — under the one-shot layer, if armed — and
/// latches it; a dual-role press merely becomes the undecided key; a
/// release undoes its latched entry. An event outside the matrix does
/// nothing.
pub open spec fn spec_process_core(
    kb: Keyboard,
    km: KeyMap,
    mask: u32,
    default: u8,
    ev: KeyEvent,
    now: u64,
) -> (Keyboard, u32, u8, Seq<Report>) {
    if ev.row >= km.spec_rows() || ev.col >= km.spec_cols() {
        (kb, mask, default, Seq::empty())
    } else if ev.pressed {
        let action = km.spec_get_action_m(mask | spec_os_layer_mask(kb), default, ev.row as int, ev.col as int);
        match action {
            KeyAction::ModTap(k, m) => {
                let kb1 = Keyboard {
                    pending: Some(
                        PendingTapHold {
                            row: ev.row,
                            col: ev.col,
                            tap_key: k,
                            branch: HoldBranch::Mods(m),
                            pressed_at: now,
                        },
                    ),
                    ..kb
                };
                (kb1, mask, default, Seq::empty())
            },
            KeyAction::LayerTap(n, k) => {
                let kb1 = Keyboard {
                    pending: Some(
                        PendingTapHold {
                            row: ev.row,
                            col: ev.col,
                            tap_key: k,
                            branch: HoldBranch::Layer(n),
                            pressed_at: now,
                        },
                    ),
                    ..kb
                };
                (kb1, mask, default, Seq::empty())
            },
            KeyAction::TapHold(t, h) => {
                let kb1 = Keyboard {
                    pending: Some(
                        PendingTapHold {
                            row: ev.row,
                            col: ev.col,
                            tap_key: t,
                            branch: HoldBranch::Key(h),
                            pressed_at: now,
                        },
                    ),
                    ..kb
                };
                (kb1, mask, default, Seq::empty())
            },
            _ => spec_press_action(kb, km.layers.len() as int, mask, default, ev.row, ev.col, action, now),
        }
    } else {
        let (kb1, mask1, out) = spec_release(kb, km.layers.len() as int, mask, ev.row, ev.col);
        (kb1, mask1, default, out)
    }
}

impl Keyboard {
    /// Apply one resolved, non-dual-role press; see [`spec_press_action`].
    fn press_action(
        &mut self,
        km: &mut KeyMap,
        row: u8,
        col: u8,
        action: KeyAction,
        now: u64,
        out: &mut Vec<Report>,
    )
        requires
            old(self).wf(),
            old(km).wf(),
        ensures
            final(self).wf(),
            final(km).wf(),
            final(km).layers == old(km).layers,
            ({
                let (kb1, mask1, default1, o) = spec_press_action(
                    *old(self),
                    old(km).layers.len() as int,
                    old(km).active_layers,
                    old(km).default_layer,
                    row,
                    col,
                    action,
                    now,
                );
                &&& *final(self) == kb1
                &&& final(km).active_layers == mask1
                &&& final(km).default_layer == default1
                &&& final(out)@ == old(out)@ + o
            }),
    {
        let clears = self.os_layer.is_some();
        match action {
            KeyAction::Single(k) => {
                if k != 0 {
                    let extra = self.consume_oneshot();
                    self.report.register_key(k);
                    self.held_insert(
                        HeldKey {
                            row,
                            col,
                            effect: HeldEffect::Key(k),
                            extra_mods: extra,
                            clears_os_layer: clears,
                        },
                    );
                    self.emit(out);
                }
            },
            KeyAction::WithModifier(k, m) => {
                if k != 0 {
                    let extra = self.consume_oneshot();
                    let bits = m.hid_bits();
                    self.report.register_key(k);
                    self.held_insert(
                        HeldKey {
                            row,
                            col,
                            effect: HeldEffect::KeyWithMods(k, bits),
                            extra_mods: extra,
                            clears_os_layer: clears,
                        },
                    );
                    self.emit(out);
                }
            },
            KeyAction::LayerOn(n) => {
                if (n as usize) < km.layer_count() {
                    self.held_insert(
                        HeldKey {
                            row,
                            col,
                            effect: HeldEffect::Layer(n),
                            extra_mods: 0,
                            clears_os_layer: false,
                        },
                    );
                    km.push_layer(n);
                }
            },
            KeyAction::LayerToggle(n) => {
                if (n as usize) < km.layer_count() {
                    km.toggle_layer(n);
                }
            },
            KeyAction::LayerTo(n) => {
                if (n as usize) < km.layer_count() {
                    km.activate_only_layer(n);
                }
            },
            KeyAction::LayerDefault(n) => {
                if (n as usize) < km.layer_count() {
                    km.set_default_layer(n);
                }
            },
            KeyAction::LayerTapToggle(n) => {
                if (n as usize) < km.layer_count() {
                    let c: u8 = match self.tap_toggle {
                        Some((l, c0)) => if l == n {
                            c0
                        } else {
                            0
                        },
                        None => 0,
                    };
                    let c1: u8 = if c < 255 {
                        c + 1
                    } else {
                        c
                    };
                    if c1 >= self.config.tap_toggle_count {
                        self.tap_toggle = Some((n, 0));
                        km.push_layer(n);
                    } else {
                        self.tap_toggle = Some((n, c1));
                        self.held_insert(
                            HeldKey {
                                row,
                                col,
                                effect: HeldEffect::Layer(n),
                                extra_mods: 0,
                                clears_os_layer: false,
                            },
                        );
                        km.push_layer(n);
                    }
                }
            },
            KeyAction::OneShotLayer(n) => {
                self.os_layer = Some(OsLayer { layer: n, since: now });
            },
            KeyAction::OneShotMod(m) => {
                self.oneshot = match self.oneshot {
                    OneShotState::Idle => OneShotState::Pending { mods: m, since: now },
                    OneShotState::Pending { mods, since } => if mods == m && now >= since && now
                        - since < self.config.oneshot_timeout {
                        OneShotState::Locked { mods: m }
                    } else {
                        OneShotState::Pending { mods: m, since: now }
                    },
                    OneShotState::Locked { mods } => if mods == m {
                        OneShotState::Idle
                    } else {
                        OneShotState::Pending { mods: m, since: now }
                    },
                };
                self.emit(out);
            },
            KeyAction::Macro(id) => {
                self.macro_run = Some(MacroRun { id, pos: 0, next_at: now });
            },
            KeyAction::Mouse(ma) => {
                match ma {
                    MouseAction::Button(b) => {
                        if b < 8 {
                            self.mouse.buttons = self.mouse.buttons | (1u8 << b);
                            self.held_insert(
                                HeldKey {
                                    row,
                                    col,
                                    effect: HeldEffect::MouseButton(b),
                                    extra_mods: 0,
                                    clears_os_layer: false,
                                },
                            );
                            out.push(Report::Mouse(self.mouse));
                        }
                    },
                    MouseAction::MoveX(d) => {
                        self.held_insert(
                            HeldKey {
                                row,
                                col,
                                effect: HeldEffect::MouseMoveX(d),
                                extra_mods: 0,
                                clears_os_layer: false,
                            },
                        );
                        self.refresh_mouse(out);
                    },
                    MouseAction::MoveY(d) => {
                        self.held_insert(
                            HeldKey {
                                row,
                                col,
                                effect: HeldEffect::MouseMoveY(d),
                                extra_mods: 0,
                                clears_os_layer: false,
                            },
                        );
                        self.refresh_mouse(out);
                    },
                    MouseAction::Wheel(d) => {
                        self.held_insert(
                            HeldKey {
                                row,
                                col,
                                effect: HeldEffect::MouseWheel(d),
                                extra_mods: 0,
                                clears_os_layer: false,
                            },
                        );
                        self.refresh_mouse(out);
                    },
                    MouseAction::Pan(d) => {
                        self.held_insert(
                            HeldKey {
                                row,
                                col,
                                effect: HeldEffect::MousePan(d),
                                extra_mods: 0,
                                clears_os_layer: false,
                            },
                        );
                        self.refresh_mouse(out);
                    },
                }
            },
            KeyAction::Consumer(u) => {
                self.mouse.media_usage_id = u;
                self.held_insert(
                    HeldKey {
                        row,
                        col,
                        effect: HeldEffect::ConsumerUse,
                        extra_mods: 0,
                        clears_os_layer: false,
                    },
                );
                out.push(Report::Consumer(u));
            },
            KeyAction::System(v) => {
                self.mouse.system_usage_id = v;
                self.held_insert(
                    HeldKey {
                        row,
                        col,
                        effect: HeldEffect::SystemUse,
                        extra_mods: 0,
                        clears_os_layer: false,
                    },
                );
                out.push(Report::System(v));
            },
            _ => {
            },
        }
    }

    /// Spend a pending one-shot modifier on this key press; see
    /// [`spec_consume_oneshot`].
    fn consume_oneshot(&mut self) -> (r: u8)
        ensures
            final(self).oneshot == spec_consume_oneshot(old(self).oneshot).0,
            r == spec_consume_oneshot(old(self).oneshot).1,
            *final(self) == (Keyboard { oneshot: final(self).oneshot, ..*old(self) }),
    {
        match self.oneshot {
            OneShotState::Pending { mods, since } => {
                self.oneshot = OneShotState::Idle;
                mods.hid_bits()
            },
            _ => 0,
        }
    }

    /// Undo one key release; see [`spec_release`].
    fn release_action(&mut self, km: &mut KeyMap, row: u8, col: u8, out: &mut Vec<Report>)
        requires
            old(self).wf(),
            old(km).wf(),
        ensures
            final(self).wf(),
            final(km).wf(),
            final(km).layers == old(km).layers,
            final(km).default_layer == old(km).default_layer,
            ({
                let (kb1, mask1, o) = spec_release(
                    *old(self),
                    old(km).layers.len() as int,
                    old(km).active_layers,
                    row,
                    col,
                );
                &&& *final(self) == kb1
                &&& final(km).active_layers == mask1
                &&& final(out)@ == old(out)@ + o
            }),
    {
        let ghost spec_r = spec_release(
            *old(self),
            old(km).layers.len() as int,
            old(km).active_layers,
            row,
            col,
        );
        match self.held_take(row, col) {
            None => {
                proof {
                    assert(*self == spec_r.0);
                }
            },
            Some(hk) => {
                if hk.clears_os_layer {
                    self.os_layer = None;
                }
                proof {
                    let j = spec_held_find(old(self).held, row, col, 0)->Some_0;
                    assert(*self == (Keyboard {
                        held: spec_held_set(old(self).held, j, None),
                        os_layer: if hk.clears_os_layer { None } else { old(self).os_layer },
                        ..*old(self)
                    }));
                }
                match hk.effect {
                    HeldEffect::Key(k) => {
                        if k != 0 {
                            self.report.deregister_key(k);
                        } else {
                            proof {
                                assert(spec_deregister_key(self.report, 0u8).keys =~= self
                                    .report
                                    .keys);
                            }
                        }
                        self.emit(out);
                    },
                    HeldEffect::KeyWithMods(k, _) => {
                        if k != 0 {
                            self.report.deregister_key(k);
                        } else {
                            proof {
                                assert(spec_deregister_key(self.report, 0u8).keys =~= self
                                    .report
                                    .keys);
                            }
                        }
                        self.emit(out);
                    },
                    HeldEffect::HoldKey(k) => {
                        if k != 0 {
                            self.report.deregister_key(k);
                        } else {
                            proof {
                                assert(spec_deregister_key(self.report, 0u8).keys =~= self
                                    .report
                                    .keys);
                            }
                        }
                        self.emit(out);
                    },
                    HeldEffect::Layer(n) => {
                        if (n as usize) < km.layer_count() {
                            km.pop_layer(n);
                        }
                    },
                    HeldEffect::HoldMods(_) => {
                        self.emit(out);
                    },
                    HeldEffect::MouseButton(b) => {
                        if b < 8 {
                            self.mouse.buttons = self.mouse.buttons & !(1u8 << b);
                        }
                        out.push(Report::Mouse(self.mouse));
                    },
                    HeldEffect::MouseMoveX(_) => {
                        self.refresh_mouse(out);
                    },
                    HeldEffect::MouseMoveY(_) => {
                        self.refresh_mouse(out);
                    },
                    HeldEffect::MouseWheel(_) => {
                        self.refresh_mouse(out);
                    },
                    HeldEffect::MousePan(_) => {
                        self.refresh_mouse(out);
                    },
                    HeldEffect::ConsumerUse => {
                        self.mouse.media_usage_id = 0;
                        out.push(Report::Consumer(0));
                    },
                    HeldEffect::SystemUse => {
                        self.mouse.system_usage_id = 0;
                        out.push(Report::System(0));
                    },
                    HeldEffect::Passive => {
                    },
                }
            },
        }
    }

    /// Handle one event with no dual-role key undecided; see
    /// [`spec_process_core`].
    fn process_core(&mut self, km: &mut KeyMap, ev: KeyEvent, now: u64, out: &mut Vec<Report>)
        requires
            old(self).wf(),
            old(km).wf(),
        ensures
            final(self).wf(),
            final(km).wf(),
            final(km).layers == old(km).layers,
            ({
                let (kb1, mask1, default1, o) = spec_process_core(
                    *old(self),
                    *old(km),
                    old(km).active_layers,
                    old(km).default_layer,
                    ev,
                    now,
                );
                &&& *final(self) == kb1
                &&& final(km).active_layers == mask1
                &&& final(km).default_layer == default1
                &&& final(out)@ == old(out)@ + o
            }),
    {
        if (ev.row as usize) >= km.rows() || (ev.col as usize) >= km.cols() {
            return ;
        }
        if ev.pressed {
            let extra: u32 = match self.os_layer {
                Some(o) => if o.layer < 32 {
                    1u32 << (o.layer as u32)
                } else {
                    0
                },
                None => 0,
            };
            let action = km.get_action_masked(extra, ev.row as usize, ev.col as usize);
            match action {
                KeyAction::ModTap(k, m) => {
                    self.pending = Some(
                        PendingTapHold {
                            row: ev.row,
                            col: ev.col,
                            tap_key: k,
                            branch: HoldBranch::Mods(m),
                            pressed_at: now,
                        },
                    );
                },
                KeyAction::LayerTap(n, k) => {
                    self.pending = Some(
                        PendingTapHold {
                            row: ev.row,
                            col: ev.col,
                            tap_key: k,
                            branch: HoldBranch::Layer(n),
                            pressed_at: now,
                        },
                    );
                },
                KeyAction::TapHold(t, h) => {
                    self.pending = Some(
                        PendingTapHold {
                            row: ev.row,
                            col: ev.col,
                            tap_key: t,
                            branch: HoldBranch::Key(h),
                            pressed_at: now,
                        },
                    );
                },
                _ => {
                    self.press_action(km, ev.row, ev.col, action, now, out);
                },
            }
        } else {
            self.release_action(km, ev.row, ev.col, out);
        }
    }
}

/// What resolving the undecided dual-role key as held does: engage its
/// hold branch — modifiers, a momentary layer, or the hold key — without
/// emitting; the caller emits (or lets the next report carry it).
pub open spec fn spec_resolve_hold(kb: Keyboard, p: PendingTapHold, layers_len: int, mask: u32) -> (
    Keyboard,
    u32,
) {
    let kbp = Keyboard { pending: None, ..kb };
    match p.branch {
        HoldBranch::Mods(m) => {
            let hk = HeldKey {
                row: p.row,
                col: p.col,
                effect: HeldEffect::HoldMods(m.spec_hid_bits()),
                extra_mods: 0,
                clears_os_layer: false,
            };
            (Keyboard { held: spec_held_insert(kbp.held, hk), ..kbp }, mask)
        },
        HoldBranch::Layer(n) => {
            if n < layers_len {
                let hk = HeldKey {
                    row: p.row,
                    col: p.col,
                    effect: HeldEffect::Layer(n),
                    extra_mods: 0,
                    clears_os_layer: false,
                };
                (
                    Keyboard { held: spec_held_insert(kbp.held, hk), ..kbp },
                    mask | (1u32 << (n as u32)),
                )
            } else {
                (kbp, mask)
            }
        },
        HoldBranch::Key(h) => {
            if h != 0 {
                let hk = HeldKey {
                    row: p.row,
                    col: p.col,
                    effect: HeldEffect::HoldKey(h),
                    extra_mods: 0,
                    clears_os_layer: false,
                };
                (
                    Keyboard {
                        report: spec_register_key(kbp.report, h),
                        held: spec_held_insert(kbp.held, hk),
                        ..kbp
                    },
                    mask,
                )
            } else {
                (kbp, mask)
            }
        },
    }
}

/// What resolving the undecided dual-role key as a tap does: synthesise
/// the tap key's press and release as two back-to-back reports, with
/// repeats suppressed like every other emission — a half that equals what
/// was last sent (a tap key already down, or a full report) is not sent
/// again.
pub open spec fn spec_tap_emit(kb: Keyboard, tap: u8) -> (Keyboard, Seq<Report>) {
    if tap == 0 {
        (kb, Seq::empty())
    } else {
        let m = spec_modifier(kb);
        let rep2 = KeyboardReport { modifier: m, keys: kb.report.keys };
        let rep1 = spec_register_key(rep2, tap);
        let out1 = if kb.last_sent == Some(rep1) {
            Seq::empty()
        } else {
            seq![Report::Keyboard(rep1)]
        };
        let out2 = if rep1 == rep2 {
            Seq::empty()
        } else {
            seq![Report::Keyboard(rep2)]
        };
        (Keyboard { report: rep2, last_sent: Some(rep2), ..kb }, out1 + out2)
    }
}

/// Hand the set-aside event, if any, through the ordinary path.
pub open spec fn spec_flush_deferred(kb: Keyboard, km: KeyMap, mask: u32, default: u8) -> (
    Keyboard,
    u32,
    u8,
    Seq<Report>,
) {
    match kb.deferred {
        None => (kb, mask, default, Seq::empty()),
        Some(d) => spec_process_core(
            Keyboard { deferred: None, ..kb },
            km,
            mask,
            default,
            d.ev,
            d.at,
        ),
    }
}

/// Resolve the undecided key as held, flush the set-aside event, then
/// handle the current event.
pub open spec fn spec_resolve_then(
    kb: Keyboard,
    p: PendingTapHold,
    km: KeyMap,
    mask: u32,
    default: u8,
    ev: KeyEvent,
    now: u64,
) -> (Keyboard, u32, u8, Seq<Report>) {
    let (kb1, mask1) = spec_resolve_hold(kb, p, km.layers.len() as int, mask);
    let (kb2, mask2, default2, out1) = spec_flush_deferred(kb1, km, mask1, default);
    let (kb3, mask3, default3, out2) = spec_process_core(kb2, km, mask2, default2, ev, now);
    (kb3, mask3, default3, out1 + out2)
}

/// What one event does to the whole machine.
///
/// With no dual-role key undecided this is the ordinary path. While one
/// is undecided: its own release resolves it as a tap; another press
/// resolves it as held at once in hold-on-other-press mode, and is set
/// aside once in permissive mode; the set-aside key's release (permissive
/// hold) resolves it as held; a second press while one is set aside also
/// resolves it as held; an unrelated release passes through.
pub open spec fn spec_process_event(
    kb: Keyboard,
    km: KeyMap,
    mask: u32,
    default: u8,
    ev: KeyEvent,
    now: u64,
) -> (Keyboard, u32, u8, Seq<Report>) {
    match kb.pending {
        None => spec_process_core(kb, km, mask, default, ev, now),
        Some(p) => {
            if !ev.pressed && ev.row == p.row && ev.col == p.col {
                let kb1 = Keyboard { pending: None, ..kb };
                let (kb2, out1) = spec_tap_emit(kb1, p.tap_key);
                let (kb3, mask3, default3, out2) = spec_flush_deferred(kb2, km, mask, default);
                (kb3, mask3, default3, out1 + out2)
            } else if ev.pressed && kb.config.hold_on_other_press {
                spec_resolve_then(kb, p, km, mask, default, ev, now)
            } else if !ev.pressed && match kb.deferred {
                Some(d) => d.ev.pressed && d.ev.row == ev.row && d.ev.col == ev.col,
                None => false,
            } {
                spec_resolve_then(kb, p, km, mask, default, ev, now)
            } else if ev.pressed {
                match kb.deferred {
                    None => (
                        Keyboard { deferred: Some(DeferredEvent { ev, at: now }), ..kb },
                        mask,
                        default,
                        Seq::empty(),
                    ),
                    Some(_) => spec_resolve_then(kb, p, km, mask, default, ev, now),
                }
            } else {
                spec_process_core(kb, km, mask, default, ev, now)
            }
        },
    }
}

/// What the passage of time does: an undecided dual-role key past the
/// tapping term resolves as held; a one-shot modifier or layer past its
/// timeout disarms; one operation of the running macro is pumped; and
/// while motion keys are held, the per-tick motion report is repeated —
/// that repetition is how the deltas accumulate at the host.
pub open spec fn spec_tick(
    kb: Keyboard,
    km: KeyMap,
    mask: u32,
    default: u8,
    macros: Seq<Seq<MacroOp>>,
    now: u64,
) -> (Keyboard, u32, u8, Seq<Report>) {
    let (kb1, mask1, default1, out1) = match kb.pending {
        Some(p) => if now >= p.pressed_at + kb.config.tapping_term {
            let (ka, maska) = spec_resolve_hold(kb, p, km.layers.len() as int, mask);
            let (kbf, maskf, defaultf, outf) = spec_flush_deferred(ka, km, maska, default);
            let (kbe, oute) = spec_emit(kbf);
            (kbe, maskf, defaultf, outf + oute)
        } else {
            (kb, mask, default, Seq::empty())
        },
        None => (kb, mask, default, Seq::empty()),
    };
    let kb2 = match kb1.oneshot {
        OneShotState::Pending { mods, since } => if now >= since + kb1.config.oneshot_timeout {
            Keyboard { oneshot: OneShotState::Idle, ..kb1 }
        } else {
            kb1
        },
        _ => kb1,
    };
    let kb3 = match kb2.os_layer {
        Some(o) => if now >= o.since + kb2.config.oneshot_timeout {
            Keyboard { os_layer: None, ..kb2 }
        } else {
            kb2
        },
        None => kb2,
    };
    let (kb4, out4) = spec_macro_pump(kb3, macros, now);
    let (kb5, out5) = if spec_has_motion(kb4.held, 0) {
        let mouse1 = spec_mouse_motion(kb4);
        (Keyboard { mouse: mouse1, ..kb4 }, seq![Report::Mouse(mouse1)])
    } else {
        (kb4, Seq::empty())
    };
    (kb5, mask1, default1, out1 + out4 + out5)
}

/// Pump one operation of the running macro, if its time has come.
pub open spec fn spec_macro_pump(kb: Keyboard, macros: Seq<Seq<MacroOp>>, now: u64) -> (
    Keyboard,
    Seq<Report>,
) {
    match kb.macro_run {
        None => (kb, Seq::empty()),
        Some(mr) => {
            if now < mr.next_at {
                (kb, Seq::empty())
            } else if mr.id >= macros.len() || mr.pos == 0xFFFF {
                (Keyboard { macro_run: None, ..kb }, Seq::empty())
            } else if mr.pos >= macros[mr.id as int].len() {
                (Keyboard { macro_run: None, ..kb }, Seq::empty())
            } else {
                let bumped = Some(MacroRun { pos: (mr.pos + 1) as u16, ..mr });
                match macros[mr.id as int][mr.pos as int] {
                    MacroOp::Tap(k, shift) => {
                        if k == 0 {
                            (Keyboard { macro_run: bumped, ..kb }, Seq::empty())
                        } else {
                            let m = spec_modifier(kb);
                            let m1 = if shift {
                                m | 0x02
                            } else {
                                m
                            };
                            let rep2 = KeyboardReport { modifier: m, keys: kb.report.keys };
                            let rep1 = spec_register_key(
                                KeyboardReport { modifier: m1, keys: kb.report.keys },
                                k,
                            );
                            let out1 = if kb.last_sent == Some(rep1) {
                                Seq::empty()
                            } else {
                                seq![Report::Keyboard(rep1)]
                            };
                            let out2 = if rep1 == rep2 {
                                Seq::empty()
                            } else {
                                seq![Report::Keyboard(rep2)]
                            };
                            (
                                Keyboard {
                                    report: rep2,
                                    last_sent: Some(rep2),
                                    macro_run: bumped,
                                    ..kb
                                },
                                out1 + out2,
                            )
                        }
                    },
                    MacroOp::Press(k) => {
                        if k == 0 {
                            (Keyboard { macro_run: bumped, ..kb }, Seq::empty())
                        } else {
                            let kb1 = Keyboard {
                                report: spec_register_key(kb.report, k),
                                macro_run: bumped,
                                ..kb
                            };
                            let (kb2, out) = spec_emit(kb1);
                            (kb2, out)
                        }
                    },
                    MacroOp::Release(k) => {
                        if k == 0 {
                            (Keyboard { macro_run: bumped, ..kb }, Seq::empty())
                        } else {
                            let kb1 = Keyboard {
                                report: spec_deregister_key(kb.report, k),
                                macro_run: bumped,
                                ..kb
                            };
                            let (kb2, out) = spec_emit(kb1);
                            (kb2, out)
                        }
                    },
                    MacroOp::Delay(d) => {
                        let na = if now > u64::MAX - (d as u64) {
                            u64::MAX
                        } else {
                            (now + d) as u64
                        };
                        (
                            Keyboard {
                                macro_run: Some(MacroRun { pos: (mr.pos + 1) as u16, next_at: na, ..mr }),
                                ..kb
                            },
                            Seq::empty(),
                        )
                    },
                }
            }
        },
    }
}

/// A lookup reads the keymap's action array alone: two keymaps with the
/// same layers look up the same action under the same mask and default.
proof fn lemma_lookup_same_layers(a: KeyMap, b: KeyMap, mask: u32, default: u8, l: int, row: int, col: int)
    requires
        a.layers == b.layers,
    ensures
        a.spec_lookup_m(mask, default, l, row, col) == b.spec_lookup_m(mask, default, l, row, col),
    decreases l + 1,
{
    if l >= 0 {
        lemma_lookup_same_layers(a, b, mask, default, l - 1, row, col);
    }
}

/// The ordinary event path reads the keymap's action array alone.
proof fn lemma_process_core_same_layers(
    a: KeyMap,
    b: KeyMap,
    kb: Keyboard,
    mask: u32,
    default: u8,
    ev: KeyEvent,
    now: u64,
)
    requires
        a.layers == b.layers,
    ensures
        spec_process_core(kb, a, mask, default, ev, now) == spec_process_core(
            kb,
            b,
            mask,
            default,
            ev,
            now,
        ),
{
    lemma_lookup_same_layers(
        a,
        b,
        mask | spec_os_layer_mask(kb),
        default,
        a.layers.len() - 1,
        ev.row as int,
        ev.col as int,
    );
}

impl Keyboard {
    /// Resolve the undecided dual-role key as held; see
    /// [`spec_resolve_hold`].
    fn resolve_hold(&mut self, km: &mut KeyMap, p: PendingTapHold)
        requires
            old(self).wf(),
            old(km).wf(),
        ensures
            final(self).wf(),
            final(km).wf(),
            final(km).layers == old(km).layers,
            final(km).default_layer == old(km).default_layer,
            ({
                let (kb1, mask1) = spec_resolve_hold(
                    *old(self),
                    p,
                    old(km).layers.len() as int,
                    old(km).active_layers,
                );
                &&& *final(self) == kb1
                &&& final(km).active_layers == mask1
            }),
    {
        self.pending = None;
        match p.branch {
            HoldBranch::Mods(m) => {
                let bits = m.hid_bits();
                self.held_insert(
                    HeldKey {
                        row: p.row,
                        col: p.col,
                        effect: HeldEffect::HoldMods(bits),
                        extra_mods: 0,
                        clears_os_layer: false,
                    },
                );
            },
            HoldBranch::Layer(n) => {
                if (n as usize) < km.layer_count() {
                    self.held_insert(
                        HeldKey {
                            row: p.row,
                            col: p.col,
                            effect: HeldEffect::Layer(n),
                            extra_mods: 0,
                            clears_os_layer: false,
                        },
                    );
                    km.push_layer(n);
                }
            },
            HoldBranch::Key(h) => {
                if h != 0 {
                    self.report.register_key(h);
                    self.held_insert(
                        HeldKey {
                            row: p.row,
                            col: p.col,
                            effect: HeldEffect::HoldKey(h),
                            extra_mods: 0,
                            clears_os_layer: false,
                        },
                    );
                }
            },
        }
    }

    /// Synthesise the tap key's press and release; see [`spec_tap_emit`].
    fn tap_emit(&mut self, tap: u8, out: &mut Vec<Report>)
        requires
            old(self).wf(),
        ensures
            final(self).wf(),
            *final(self) == spec_tap_emit(*old(self), tap).0,
            final(out)@ == old(out)@ + spec_tap_emit(*old(self), tap).1,
    {
        if tap == 0 {
            return ;
        }
        let m = self.current_modifier();
        let rep2 = KeyboardReport { modifier: m, keys: self.report.keys };
        let mut rep1 = rep2;
        rep1.register_key(tap);
        let skip1 = match self.last_sent {
            Some(ls) => reports_equal(&ls, &rep1),
            None => false,
        };
        if !skip1 {
            out.push(Report::Keyboard(rep1));
        }
        if !reports_equal(&rep1, &rep2) {
            out.push(Report::Keyboard(rep2));
        }
        self.report = rep2;
        self.last_sent = Some(rep2);
        proof {
            assert(out@ =~= old(out)@ + spec_tap_emit(*old(self), tap).1);
        }
    }

    /// Hand the set-aside event through the ordinary path; see
    /// [`spec_flush_deferred`].
    fn flush_deferred(&mut self, km: &mut KeyMap, out: &mut Vec<Report>)
        requires
            old(self).wf(),
            old(km).wf(),
        ensures
            final(self).wf(),
            final(km).wf(),
            final(km).layers == old(km).layers,
            ({
                let (kb1, mask1, default1, o) = spec_flush_deferred(
                    *old(self),
                    *old(km),
                    old(km).active_layers,
                    old(km).default_layer,
                );
                &&& *final(self) == kb1
                &&& final(km).active_layers == mask1
                &&& final(km).default_layer == default1
                &&& final(out)@ == old(out)@ + o
            }),
    {
        match self.deferred {
            None => {
            },
            Some(d) => {
                self.deferred = None;
                self.process_core(km, d.ev, d.at, out);
            },
        }
    }

    /// Handle one debounced key event; see [`spec_process_event`].
    ///
    /// The returned reports are everything this event caused, in order;
    /// the machine, the layer mask and the default layer move exactly as
    /// the specification function says, so the report stream is a
    /// function of the timed event stream alone.
    #[verifier::rlimit(100)]
    pub fn process_event(&mut self, km: &mut KeyMap, ev: KeyEvent, now: u64) -> (out: Vec<Report>)
        requires
            old(self).wf(),
            old(km).wf(),
        ensures
            final(self).wf(),
            final(km).wf(),
            final(km).layers == old(km).layers,
            ({
                let (kb1, mask1, default1, o) = spec_process_event(
                    *old(self),
                    *old(km),
                    old(km).active_layers,
                    old(km).default_layer,
                    ev,
                    now,
                );
                &&& *final(self) == kb1
                &&& final(km).active_layers == mask1
                &&& final(km).default_layer == default1
                &&& out@ == o
            }),
    {
        let mut out: Vec<Report> = Vec::new();
        match self.pending {
            None => {
                self.process_core(km, ev, now, &mut out);
            },
            Some(p) => {
                if !ev.pressed && ev.row == p.row && ev.col == p.col {
                    self.pending = None;
                    self.tap_emit(p.tap_key, &mut out);
                    self.flush_deferred(km, &mut out);
                    proof {
                        lemma_process_core_same_layers(
                            *old(km),
                            *km,
                            spec_process_event(
                                *old(self),
                                *old(km),
                                old(km).active_layers,
                                old(km).default_layer,
                                ev,
                                now,
                            ).0,
                            0,
                            0,
                            ev,
                            now,
                        );
                    }
                } else if ev.pressed && self.config.hold_on_other_press {
                    self.resolve_then(km, p, ev, now, &mut out);
                } else {
                    let permissive_trigger = !ev.pressed && match self.deferred {
                        Some(d) => d.ev.pressed && d.ev.row == ev.row && d.ev.col == ev.col,
                        None => false,
                    };
                    if permissive_trigger {
                        self.resolve_then(km, p, ev, now, &mut out);
                    } else if ev.pressed {
                        match self.deferred {
                            None => {
                                self.deferred = Some(DeferredEvent { ev, at: now });
                            },
                            Some(_) => {
                                self.resolve_then(km, p, ev, now, &mut out);
                            },
                        }
                    } else {
                        self.process_core(km, ev, now, &mut out);
                    }
                }
            },
        }
        out
    }

    /// Resolve as held, flush, then handle the current event; see
    /// [`spec_resolve_then`].
    #[verifier::rlimit(100)]
    fn resolve_then(
        &mut self,
        km: &mut KeyMap,
        p: PendingTapHold,
        ev: KeyEvent,
        now: u64,
        out: &mut Vec<Report>,
    )
        requires
            old(self).wf(),
            old(km).wf(),
        ensures
            final(self).wf(),
            final(km).wf(),
            final(km).layers == old(km).layers,
            ({
                let (kb1, mask1, default1, o) = spec_resolve_then(
                    *old(self),
                    p,
                    *old(km),
                    old(km).active_layers,
                    old(km).default_layer,
                    ev,
                    now,
                );
                &&& *final(self) == kb1
                &&& final(km).active_layers == mask1
                &&& final(km).default_layer == default1
                &&& final(out)@ == old(out)@ + o
            }),
    {
        self.resolve_hold(km, p);
        let ghost km_a = *km;
        let ghost kb_a = *self;
        self.flush_deferred(km, out);
        let ghost km_b = *km;
        let ghost kb_b = *self;
        proof {
            let (kb1, mask1) = spec_resolve_hold(
                *old(self),
                p,
                old(km).layers.len() as int,
                old(km).active_layers,
            );
            lemma_flush_same_layers(kb_a, *old(km), km_a, mask1, old(km).default_layer);
            let (kb2, mask2, default2, out1) = spec_flush_deferred(
                kb1,
                *old(km),
                mask1,
                old(km).default_layer,
            );
            lemma_process_core_same_layers(*old(km), km_b, kb_b, mask2, default2, ev, now);
        }
        self.process_core(km, ev, now, out);
        proof {
            let spec_all = spec_resolve_then(
                *old(self),
                p,
                *old(km),
                old(km).active_layers,
                old(km).default_layer,
                ev,
                now,
            );
            assert(final(out)@ =~= old(out)@ + spec_all.3);
        }
    }

    /// Let time pass: resolve an expired dual-role key as held, retire
    /// expired one-shots, pump the running macro; see [`spec_tick`].
    #[verifier::rlimit(100)]
    pub fn tick(&mut self, km: &mut KeyMap, macros: &Vec<Vec<MacroOp>>, now: u64) -> (out: Vec<
        Report,
    >)
        requires
            old(self).wf(),
            old(km).wf(),
        ensures
            final(self).wf(),
            final(km).wf(),
            final(km).layers == old(km).layers,
            ({
                let (kb1, mask1, default1, o) = spec_tick(
                    *old(self),
                    *old(km),
                    old(km).active_layers,
                    old(km).default_layer,
                    spec_macros_view(macros),
                    now,
                );
                &&& *final(self) == kb1
                &&& final(km).active_layers == mask1
                &&& final(km).default_layer == default1
                &&& out@ == o
            }),
    {
        let mut out: Vec<Report> = Vec::new();
        match self.pending {
            Some(p) => {
                if now >= sat_add(p.pressed_at, self.config.tapping_term) && p.pressed_at
                    <= u64::MAX - self.config.tapping_term {
                    self.resolve_hold(km, p);
                    proof {
                        let (kb1, mask1) = spec_resolve_hold(
                            *old(self),
                            p,
                            old(km).layers.len() as int,
                            old(km).active_layers,
                        );
                        lemma_flush_same_layers(kb1, *old(km), *km, mask1, old(km).default_layer);
                    }
                    self.flush_deferred(km, &mut out);
                    self.emit(&mut out);
                }
            },
            None => {
            },
        }
        match self.oneshot {
            OneShotState::Pending { mods, since } => {
                if now >= sat_add(since, self.config.oneshot_timeout) && since <= u64::MAX
                    - self.config.oneshot_timeout {
                    self.oneshot = OneShotState::Idle;
                }
            },
            _ => {
            },
        }
        match self.os_layer {
            Some(o) => {
                if now >= sat_add(o.since, self.config.oneshot_timeout) && o.since <= u64::MAX
                    - self.config.oneshot_timeout {
                    self.os_layer = None;
                }
            },
            None => {
            },
        }
        self.macro_pump(macros, now, &mut out);
        if self.has_motion() {
            self.refresh_mouse(&mut out);
        }
        proof {
            let t = spec_tick(
                *old(self),
                *old(km),
                old(km).active_layers,
                old(km).default_layer,
                spec_macros_view(macros),
                now,
            );
            assert(out@ =~= t.3);
        }
        out
    }

    /// Pump one macro operation; see [`spec_macro_pump`].
    fn macro_pump(&mut self, macros: &Vec<Vec<MacroOp>>, now: u64, out: &mut Vec<Report>)
        requires
            old(self).wf(),
        ensures
            final(self).wf(),
            *final(self) == spec_macro_pump(*old(self), spec_macros_view(macros), now).0,
            final(out)@ == old(out)@ + spec_macro_pump(*old(self), spec_macros_view(macros), now).1,
    {
        let mr = match self.macro_run {
            None => {
                return ;
            },
            Some(mr) => mr,
        };
        if now < mr.next_at {
            return ;
        }
        if (mr.id as usize) >= macros.len() || mr.pos == 0xFFFF {
            self.macro_run = None;
            return ;
        }
        let ops: &Vec<MacroOp> = &macros[mr.id as usize];
        if (mr.pos as usize) >= ops.len() {
            self.macro_run = None;
            return ;
        }
        let bumped = Some(MacroRun { pos: mr.pos + 1, ..mr });
        proof {
            assert(spec_macros_view(macros)[mr.id as int] == macros[mr.id as int]@);
        }
        match ops[mr.pos as usize] {
            MacroOp::Tap(k, shift) => {
                if k == 0 {
                    self.macro_run = bumped;
                } else {
                    let m = self.current_modifier();
                    let m1 = if shift {
                        m | 0x02
                    } else {
                        m
                    };
                    let rep2 = KeyboardReport { modifier: m, keys: self.report.keys };
                    let mut rep1 = KeyboardReport { modifier: m1, keys: self.report.keys };
                    rep1.register_key(k);
                    let skip1 = match self.last_sent {
                        Some(ls) => reports_equal(&ls, &rep1),
                        None => false,
                    };
                    if !skip1 {
                        out.push(Report::Keyboard(rep1));
                    }
                    if !reports_equal(&rep1, &rep2) {
                        out.push(Report::Keyboard(rep2));
                    }
                    self.report = rep2;
                    self.last_sent = Some(rep2);
                    self.macro_run = bumped;
                }
            },
            MacroOp::Press(k) => {
                if k == 0 {
                    self.macro_run = bumped;
                } else {
                    self.report.register_key(k);
                    self.macro_run = bumped;
                    self.emit(out);
                }
            },
            MacroOp::Release(k) => {
                if k == 0 {
                    self.macro_run = bumped;
                } else {
                    self.report.deregister_key(k);
                    self.macro_run = bumped;
                    self.emit(out);
                }
            },
            MacroOp::Delay(d) => {
                let na = sat_add(now, d as u64);
                self.macro_run = Some(MacroRun { pos: mr.pos + 1, next_at: na, ..mr });
            },
        }
    }
}

/// The stored macros as the specification sees them.
pub open spec fn spec_macros_view(macros: &Vec<Vec<MacroOp>>) -> Seq<Seq<MacroOp>> {
    macros@.map_values(|v: Vec<MacroOp>| v@)
}

/// The deferred flush reads the keymap's action array alone.
proof fn lemma_flush_same_layers(kb: Keyboard, a: KeyMap, b: KeyMap, mask: u32, default: u8)
    requires
        a.layers == b.layers,
    ensures
        spec_flush_deferred(kb, a, mask, default) == spec_flush_deferred(kb, b, mask, default),
{
    match kb.deferred {
        None => {
        },
        Some(d) => {
            lemma_process_core_same_layers(
                a,
                b,
                Keyboard { deferred: None, ..kb },
                mask,
                default,
                d.ev,
                d.at,
            );
        },
    }
}

/// Saturating addition on times: the far future stays the far future.
fn sat_add(a: u64, b: u64) -> (r: u64)
    ensures
        r == if a > u64::MAX - b {
            u64::MAX
        } else {
            (a + b) as u64
        },
{
    if a > u64::MAX - b {
        u64::MAX
    } else {
        a + b
    }
}

/// One step of a timed input stream: a key event or a timer tick.
#[derive(Clone, Copy, Debug, PartialEq, Eq, Structural)]
pub enum RunStep {
    /// A debounced key event arriving at the given time.
    Event(KeyEvent, u64),
    /// The timer firing at the given time.
    Tick(u64),
}

/// The machine run over a whole timed stream: the final state and every
/// report emitted, in order. This is a mathematical function of the
/// initial state and the stream alone — [`Keyboard::process_event`] and
/// [`Keyboard::tick`] equal it step by step — so for a fixed timed stream
/// the report sequence is determined, whatever the scheduler interleaves
/// between the steps.
pub open spec fn spec_run(
    kb: Keyboard,
    km: KeyMap,
    mask: u32,
    default: u8,
    macros: Seq<Seq<MacroOp>>,
    steps: Seq<RunStep>,
) -> (Keyboard, u32, u8, Seq<Report>)
    decreases steps.len(),
{
    if steps.len() == 0 {
        (kb, mask, default, Seq::empty())
    } else {
        let first = match steps[0] {
            RunStep::Event(ev, t) => spec_process_event(kb, km, mask, default, ev, t),
            RunStep::Tick(t) => spec_tick(kb, km, mask, default, macros, t),
        };
        let rest = spec_run(first.0, km, first.1, first.2, macros, steps.drop_first());
        (rest.0, rest.1, rest.2, first.3 + rest.3)
    }
}

/// Runs compose: running a stream and then a continuation is one run of
/// the concatenated stream, reports in order. With [`spec_run`] being a
/// function, this is the whole tap-hold determinism claim: a fixed timed
/// stream of key events yields one and only one report sequence, however
/// the stream is cut into pieces by the scheduler.
#[verifier::rlimit(100)]
#[verifier::spinoff_prover]
pub proof fn lemma_run_append(
    kb: Keyboard,
    km: KeyMap,
    mask: u32,
    default: u8,
    macros: Seq<Seq<MacroOp>>,
    s1: Seq<RunStep>,
    s2: Seq<RunStep>,
)
    ensures
        ({
            let a = spec_run(kb, km, mask, default, macros, s1);
            let b = spec_run(a.0, km, a.1, a.2, macros, s2);
            spec_run(kb, km, mask, default, macros, s1 + s2) == (b.0, b.1, b.2, a.3 + b.3)
        }),
    decreases s1.len(),
{
    let a = spec_run(kb, km, mask, default, macros, s1);
    let b = spec_run(a.0, km, a.1, a.2, macros, s2);
    if s1.len() == 0 {
        assert(s1 + s2 =~= s2);
        assert(a.3 + b.3 =~= b.3);
    } else {
        assert((s1 + s2)[0] == s1[0]);
        let first = match s1[0] {
            RunStep::Event(ev, t) => spec_process_event(kb, km, mask, default, ev, t),
            RunStep::Tick(t) => spec_tick(kb, km, mask, default, macros, t),
        };
        assert((s1 + s2).drop_first() =~= s1.drop_first() + s2);
        lemma_run_append(first.0, km, first.1, first.2, macros, s1.drop_first(), s2);
        let a1 = spec_run(first.0, km, first.1, first.2, macros, s1.drop_first());
        let b1 = spec_run(a1.0, km, a1.1, a1.2, macros, s2);
        assert(first.3 + (a1.3 + b1.3) =~= (first.3 + a1.3) + b1.3);
    }
}

/// Clamp a summed delta to one byte's magnitude; see [`spec_clamp127`].
fn clamp127(v: i32) -> (r: i8)
    ensures
        r == spec_clamp127(v as int),
{
    if v > 127 {
        127
    } else if v < -127 {
        -127
    } else {
        v as i8
    }
}

/// Each axis sum stays within eight one-byte deltas.
proof fn lemma_axis_sum_bounds(held: [Option<HeldKey>; 8], axis: int, i: int)
    requires
        0 <= i <= 8,
    ensures
        -128 * (8 - i) <= spec_axis_sum(held, axis, i) <= 127 * (8 - i),
    decreases 8 - i,
{
    if i < 8 {
        lemma_axis_sum_bounds(held, axis, i + 1);
    }
}

/// Whether two keyboard reports are the same, byte for byte.
fn reports_equal(a: &KeyboardReport, b: &KeyboardReport) -> (r: bool)
    ensures
        r == (*a == *b),
{
    let keys_eq = a.keys[0] == b.keys[0] && a.keys[1] == b.keys[1] && a.keys[2] == b.keys[2]
        && a.keys[3] == b.keys[3] && a.keys[4] == b.keys[4] && a.keys[5] == b.keys[5];
    proof {
        if keys_eq {
            assert(a.keys =~= b.keys);
        }
    }
    a.modifier == b.modifier && keys_eq
}

} // verus!
