//! End-to-end scenarios: timed key events in, reports out.
use rmk_core::event::KeyEvent;
use rmk_core::keyboard::{Keyboard, KeyboardConfig, Report};
use rmk_core::keycode::{ModifierCombination, KC_A, KC_B, KC_F, KC_K};
use rmk_core::keymap::KeyMap;
use rmk_core::report::KeyboardReport;
use rmk_core::debounce::RapidDebouncer;
use rmk_core::debounce::DefaultDebouncer;
use rmk_core::action::KeyAction;

fn shift() -> ModifierCombination {
    ModifierCombination::new_from(false, false, false, true, false)
}

fn make_keymap() -> KeyMap {
    let layer0 = vec![
        KeyAction::Single(KC_A),
        KeyAction::ModTap(KC_F, shift()),
        KeyAction::Single(KC_K),
        KeyAction::LayerOn(1),
        KeyAction::OneShotMod(shift()),
    ];
    let layer1 = vec![
        KeyAction::Single(KC_B),
        KeyAction::Transparent,
        KeyAction::Transparent,
        KeyAction::Transparent,
        KeyAction::Transparent,
    ];
    KeyMap::new(vec![vec![layer0], vec![layer1]])
}

fn kb_report(modifier: u8, keys: [u8; 6]) -> Report {
    Report::Keyboard(KeyboardReport { modifier, keys })
}

fn press(row: u8, col: u8) -> KeyEvent {
    KeyEvent { row, col, pressed: true }
}

fn release(row: u8, col: u8) -> KeyEvent {
    KeyEvent { row, col, pressed: false }
}

#[test]
fn plain_tap() {
    let mut km = make_keymap();
    let mut kb = Keyboard::new(KeyboardConfig::new());
    let out = kb.process_event(&mut km, press(0, 0), 0);
    assert_eq!(out, vec![kb_report(0, [KC_A, 0, 0, 0, 0, 0])]);
    let out = kb.process_event(&mut km, release(0, 0), 50);
    assert_eq!(out, vec![kb_report(0, [0, 0, 0, 0, 0, 0])]);
}

#[test]
fn mod_tap_as_hold() {
    let mut km = make_keymap();
    let mut config = KeyboardConfig::new();
    config.hold_on_other_press = true;
    let mut kb = Keyboard::new(config);
    let out = kb.process_event(&mut km, press(0, 1), 0);
    assert_eq!(out, vec![]);
    let out = kb.process_event(&mut km, press(0, 2), 100);
    assert_eq!(out, vec![kb_report(0x02, [KC_K, 0, 0, 0, 0, 0])]);
    let out = kb.process_event(&mut km, release(0, 2), 150);
    assert_eq!(out, vec![kb_report(0x02, [0, 0, 0, 0, 0, 0])]);
    let out = kb.process_event(&mut km, release(0, 1), 200);
    assert_eq!(out, vec![kb_report(0, [0, 0, 0, 0, 0, 0])]);
}

#[test]
fn mod_tap_as_tap() {
    let mut km = make_keymap();
    let mut kb = Keyboard::new(KeyboardConfig::new());
    let out = kb.process_event(&mut km, press(0, 1), 0);
    assert_eq!(out, vec![]);
    let out = kb.process_event(&mut km, release(0, 1), 80);
    assert_eq!(
        out,
        vec![kb_report(0, [KC_F, 0, 0, 0, 0, 0]), kb_report(0, [0, 0, 0, 0, 0, 0])]
    );
}

#[test]
fn mod_tap_hold_by_timeout() {
    let mut km = make_keymap();
    let mut kb = Keyboard::new(KeyboardConfig::new());
    let macros: Vec<Vec<rmk_core::keyboard_macro::MacroOp>> = Vec::new();
    kb.process_event(&mut km, press(0, 1), 0);
    let out = kb.tick(&mut km, &macros, 200);
    assert_eq!(out, vec![kb_report(0x02, [0, 0, 0, 0, 0, 0])]);
    let out = kb.process_event(&mut km, release(0, 1), 250);
    assert_eq!(out, vec![kb_report(0, [0, 0, 0, 0, 0, 0])]);
}

#[test]
fn permissive_hold_resolves_on_other_release() {
    let mut km = make_keymap();
    let mut kb = Keyboard::new(KeyboardConfig::new());
    kb.process_event(&mut km, press(0, 1), 0);
    // While undecided, the other press is set aside.
    let out = kb.process_event(&mut km, press(0, 2), 100);
    assert_eq!(out, vec![]);
    // Its release resolves the dual-role key as held, flushes the press,
    // then handles the release.
    let out = kb.process_event(&mut km, release(0, 2), 150);
    assert_eq!(
        out,
        vec![
            kb_report(0x02, [KC_K, 0, 0, 0, 0, 0]),
            kb_report(0x02, [0, 0, 0, 0, 0, 0]),
        ]
    );
    let out = kb.process_event(&mut km, release(0, 1), 200);
    assert_eq!(out, vec![kb_report(0, [0, 0, 0, 0, 0, 0])]);
}

#[test]
fn one_shot_shift() {
    let mut km = make_keymap();
    let mut kb = Keyboard::new(KeyboardConfig::new());
    let out = kb.process_event(&mut km, press(0, 4), 0);
    assert_eq!(out, vec![]);
    let out = kb.process_event(&mut km, release(0, 4), 20);
    assert_eq!(out, vec![]);
    let out = kb.process_event(&mut km, press(0, 0), 50);
    assert_eq!(out, vec![kb_report(0x02, [KC_A, 0, 0, 0, 0, 0])]);
    let out = kb.process_event(&mut km, release(0, 0), 100);
    assert_eq!(out, vec![kb_report(0, [0, 0, 0, 0, 0, 0])]);
    // The one-shot is spent: the next press is unshifted.
    let out = kb.process_event(&mut km, press(0, 0), 150);
    assert_eq!(out, vec![kb_report(0, [KC_A, 0, 0, 0, 0, 0])]);
    kb.process_event(&mut km, release(0, 0), 200);
}

#[test]
fn layer_momentary() {
    let mut km = make_keymap();
    let mut kb = Keyboard::new(KeyboardConfig::new());
    let out = kb.process_event(&mut km, press(0, 3), 0);
    assert_eq!(out, vec![]);
    let out = kb.process_event(&mut km, press(0, 0), 10);
    assert_eq!(out, vec![kb_report(0, [KC_B, 0, 0, 0, 0, 0])]);
    let out = kb.process_event(&mut km, release(0, 0), 20);
    assert_eq!(out, vec![kb_report(0, [0, 0, 0, 0, 0, 0])]);
    let out = kb.process_event(&mut km, release(0, 3), 30);
    assert_eq!(out, vec![]);
    let out = kb.process_event(&mut km, press(0, 0), 40);
    assert_eq!(out, vec![kb_report(0, [KC_A, 0, 0, 0, 0, 0])]);
}

#[test]
fn debounce_rejection() {
    let mut db = DefaultDebouncer::new(1, 1, 20);
    assert_eq!(db.debounce(0, 0, true, 0), None);
    assert_eq!(db.debounce(0, 0, false, 5), None);
    assert_eq!(db.debounce(0, 0, true, 10), None);
    let ev = db.debounce(0, 0, true, 20);
    assert_eq!(ev, Some(KeyEvent { row: 0, col: 0, pressed: true }));
}

#[test]
fn debounce_interval_between_commits() {
    let mut db = DefaultDebouncer::new(1, 1, 20);
    let ev = db.debounce(0, 0, true, 100);
    assert_eq!(ev, Some(KeyEvent { row: 0, col: 0, pressed: true }));
    // A release bouncing inside the interval commits nothing.
    assert_eq!(db.debounce(0, 0, false, 105), None);
    assert_eq!(db.debounce(0, 0, false, 115), None);
    // Once the interval has passed, the release commits.
    let ev = db.debounce(0, 0, false, 125);
    assert_eq!(ev, Some(KeyEvent { row: 0, col: 0, pressed: false }));
}

#[test]
fn rapid_debouncer_asymmetric() {
    let mut db = RapidDebouncer::new(1, 1, 5, 20);
    // Press flips after 5 ms of disagreement.
    assert_eq!(db.debounce(0, 0, true, 2), None);
    let ev = db.debounce(0, 0, true, 7);
    assert_eq!(ev, Some(KeyEvent { row: 0, col: 0, pressed: true }));
    // Release needs 20 ms of disagreement.
    assert_eq!(db.debounce(0, 0, false, 17), None);
    assert_eq!(db.debounce(0, 0, false, 26), None);
    let ev = db.debounce(0, 0, false, 30);
    assert_eq!(ev, Some(KeyEvent { row: 0, col: 0, pressed: false }));
}

#[test]
fn rollover_cap_six_keys() {
    let layer0 = vec![vec![
        KeyAction::Single(4),
        KeyAction::Single(5),
        KeyAction::Single(6),
        KeyAction::Single(7),
        KeyAction::Single(8),
        KeyAction::Single(9),
        KeyAction::Single(10),
    ]];
    let mut km = KeyMap::new(vec![layer0]);
    let mut kb = Keyboard::new(KeyboardConfig::new());
    let mut last = None;
    for c in 0..7u8 {
        let out = kb.process_event(&mut km, press(0, c), c as u64);
        if let Some(Report::Keyboard(rep)) = out.last() {
            last = Some(*rep);
        }
    }
    // The seventh press was dropped: six keys, never more.
    let rep = last.unwrap();
    assert_eq!(rep.keys, [4, 5, 6, 7, 8, 9]);
    let nonzero = rep.keys.iter().filter(|k| **k != 0).count();
    assert!(nonzero <= 6);
}
