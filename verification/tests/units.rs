//! Unit tests: the wire codecs, the storage log, the configuration
//! service, the layout grammar, and the smaller services.
use rmk_core::event::KeyEvent;
use rmk_core::keyboard::{Keyboard, KeyboardConfig, Report};
use rmk_core::keyboard_macro::{compile_items, MacroItem, MacroOp};
use rmk_core::keycode::{ModifierCombination, KC_A, KC_B, KC_C, KC_F};
use rmk_core::keymap::KeyMap;
use rmk_core::layout::{get_layer, parse_key, parse_modifiers, LayoutError, ParsedKey};
use rmk_core::light::LightService;
use rmk_core::report::{CompositeReport, CompositeReportType, KeyboardReport};
use rmk_core::split::{
    encode_split_message,
    parse_split_message,
    SplitMessage,
    SplitPeripheral,
};
use rmk_core::storage::{encode_record, parse_frame_at, Storage, StorageRecord};
use rmk_core::supervisor::{Supervisor, Task};
use rmk_core::vial::{
    VialService,
    CMD_EXTENDED,
    CMD_GET_KEYCODE,
    CMD_MACRO_GET_BUFFER,
    CMD_MACRO_SET_BUFFER,
    CMD_SET_KEYCODE,
    EXTENDED_PROTOCOL_VERSION,
    EXT_GET_DEF,
    EXT_GET_KEYBOARD_ID,
    EXT_GET_SIZE,
    VIAL_MSG_LEN,
};
use rmk_core::replay::{config_value, layout_options_value};
use rmk_core::split::translate_peripheral_event;
use rmk_core::matrix::logical_coords;
use rmk_core::debounce::DefaultDebouncer;
use rmk_core::action::{KeyAction, MouseAction};

fn lctrl() -> ModifierCombination {
    ModifierCombination::new_from(false, false, false, false, true)
}

fn lshift() -> ModifierCombination {
    ModifierCombination::new_from(false, false, false, true, false)
}

fn simple_keymap(layers: usize, rows: usize, cols: usize) -> KeyMap {
    let mut all = Vec::new();
    for l in 0..layers {
        let mut layer = Vec::new();
        for _ in 0..rows {
            let mut row = Vec::new();
            for _ in 0..cols {
                row.push(if l == 0 { KeyAction::Single(KC_A) } else { KeyAction::Transparent });
            }
            layer.push(row);
        }
        all.push(layer);
    }
    KeyMap::new(all)
}

#[test]
fn action_code_round_trip_each_variant() {
    let actions = vec![
        KeyAction::No,
        KeyAction::Transparent,
        KeyAction::Single(KC_A),
        KeyAction::WithModifier(KC_C, lctrl()),
        KeyAction::LayerOn(3),
        KeyAction::LayerToggle(2),
        KeyAction::LayerTo(1),
        KeyAction::LayerDefault(1),
        KeyAction::LayerTapToggle(2),
        KeyAction::OneShotLayer(1),
        KeyAction::OneShotMod(lshift()),
        KeyAction::ModTap(KC_F, lshift()),
        KeyAction::LayerTap(2, KC_B),
        KeyAction::Macro(7),
        KeyAction::Mouse(MouseAction::Button(2)),
        KeyAction::Mouse(MouseAction::MoveX(-5)),
        KeyAction::Consumer(0x00E9),
        KeyAction::System(0x81),
    ];
    for a in actions {
        let code = a.to_code();
        assert_eq!(KeyAction::from_code(code), a);
    }
    // An action no code can carry is sent as the inert code.
    assert_eq!(KeyAction::TapHold(KC_A, KC_B).to_code(), 0);
    assert_eq!(KeyAction::from_code(0), KeyAction::No);
}

#[test]
fn storage_record_round_trip() {
    let records = vec![
        StorageRecord::KeymapCell { layer: 1, row: 2, col: 3, code: 0x2345 },
        StorageRecord::MacroEntry { id: 4, data: vec![1, 2, 3, 4, 5] },
        StorageRecord::Config { key: 7, value: 0xDEAD_BEEF },
        StorageRecord::LayoutOptions { value: 42 },
        StorageRecord::Snapshot { data: vec![0, 0, 0, 4, 0] },
    ];
    for rec in records {
        let enc = encode_record(&rec);
        let parsed = parse_frame_at(&enc, 0);
        let (back, consumed) = parsed.expect("a whole frame parses");
        assert_eq!(consumed, enc.len());
        assert_eq!(back, rec);
    }
}

#[test]
fn storage_rejects_bad_checksum() {
    let rec = StorageRecord::Config { key: 1, value: 99 };
    let mut enc = encode_record(&rec);
    let last = enc.len() - 1;
    enc[last] = enc[last].wrapping_add(1);
    assert_eq!(parse_frame_at(&enc, 0), None);
}

#[test]
fn storage_append_and_reread() {
    let mut st = Storage::new(2, 128);
    let rec = StorageRecord::KeymapCell { layer: 0, row: 1, col: 2, code: 0x0004 };
    st.append(&rec).expect("fits");
    let rec2 = StorageRecord::Config { key: 3, value: 5 };
    st.append(&rec2).expect("fits");
    let (records, end) = rmk_core::storage::parse_sector_records(&st.sectors[st.active]);
    assert_eq!(records, vec![rec, rec2]);
    assert_eq!(end, st.cursor);
}

#[test]
fn storage_advances_to_next_sector() {
    let mut st = Storage::new(2, 32);
    // Each keymap-cell record takes 12 bytes; the third does not fit in
    // a 32-byte sector and lands in the next one.
    let rec = StorageRecord::KeymapCell { layer: 0, row: 0, col: 0, code: 4 };
    st.append(&rec).expect("fits");
    st.append(&rec).expect("fits");
    assert_eq!(st.active, 0);
    st.append(&rec).expect("advances");
    assert_eq!(st.active, 1);
    let (records, _) = rmk_core::storage::parse_sector_records(&st.sectors[1]);
    assert_eq!(records.len(), 1);
}

#[test]
fn storage_compaction_snapshot() {
    let mut st = Storage::new(3, 64);
    let rec = StorageRecord::KeymapCell { layer: 0, row: 0, col: 0, code: 4 };
    st.append(&rec).expect("fits");
    assert!(st.needs_compaction(64));
    let snapshot = StorageRecord::Snapshot { data: vec![0, 0, 0, 5, 0] };
    st.compact(&snapshot).expect("snapshot fits");
    assert_eq!(st.active, 1);
    let (records, _) = rmk_core::storage::parse_sector_records(&st.sectors[1]);
    assert_eq!(records, vec![snapshot]);
    // Every other sector is erased.
    assert!(st.sectors[0].iter().all(|b| *b == 0xFF));
    assert!(st.sectors[2].iter().all(|b| *b == 0xFF));
}

fn vial_set_request(layer: u8, row: u8, col: u8, code: u16) -> Vec<u8> {
    let mut req = vec![0u8; VIAL_MSG_LEN];
    req[0] = CMD_SET_KEYCODE;
    req[1] = layer;
    req[2] = row;
    req[3] = col;
    req[4] = (code / 256) as u8;
    req[5] = (code % 256) as u8;
    req
}

fn vial_get_request(layer: u8, row: u8, col: u8) -> Vec<u8> {
    let mut req = vec![0u8; VIAL_MSG_LEN];
    req[0] = CMD_GET_KEYCODE;
    req[1] = layer;
    req[2] = row;
    req[3] = col;
    req
}

#[test]
fn vial_keymap_round_trip_with_reboot() {
    let mut km = simple_keymap(1, 3, 5);
    let mut vial = VialService::new([1, 2, 3, 4, 5, 6, 7, 8], vec![]);
    let mut storage = Storage::new(2, 256);
    let action = KeyAction::WithModifier(KC_C, lctrl());
    let code = action.to_code();

    // Write the cell over the protocol; the change is visible at once.
    let (resp, record) = vial.handle_request(&vial_set_request(0, 2, 4, code), &mut km, false);
    assert_eq!(resp.len(), VIAL_MSG_LEN);
    assert_eq!(resp[0], CMD_SET_KEYCODE);
    assert_eq!(km.action_at(0, 2, 4), action);
    storage.append(&record.expect("a write appends a record")).expect("fits");

    // Read it back over the protocol: byte-equal code.
    let (resp, _) = vial.handle_request(&vial_get_request(0, 2, 4), &mut km, false);
    assert_eq!(resp[4], (code / 256) as u8);
    assert_eq!(resp[5], (code % 256) as u8);

    // Reboot: replay the log over the compiled default keymap.
    let mut km2 = simple_keymap(1, 3, 5);
    let (records, _) = rmk_core::storage::parse_sector_records(&storage.sectors[storage.active]);
    km2.apply_records(&records);
    assert_eq!(km2.action_at(0, 2, 4), action);
}

#[test]
fn vial_rejects_out_of_range_write() {
    let mut km = simple_keymap(1, 2, 2);
    let mut vial = VialService::new([0; 8], vec![]);
    let (resp, record) = vial.handle_request(&vial_set_request(3, 0, 0, 4), &mut km, false);
    assert_eq!(resp[0], 0xFF);
    assert_eq!(record, None);
}

#[test]
fn vial_unknown_command() {
    let mut km = simple_keymap(1, 2, 2);
    let mut vial = VialService::new([0; 8], vec![]);
    let mut req = vec![0u8; VIAL_MSG_LEN];
    req[0] = 0x77;
    let (resp, _) = vial.handle_request(&req, &mut km, false);
    assert_eq!(resp[0], 0xFF);
    assert_eq!(resp.len(), VIAL_MSG_LEN);
}

#[test]
fn vial_unlock_handshake() {
    let mut km = simple_keymap(1, 2, 2);
    let mut vial = VialService::new([0; 8], vec![]);
    let mut start = vec![0u8; VIAL_MSG_LEN];
    start[0] = 0xFE;
    start[1] = 0x06;
    vial.handle_request(&start, &mut km, false);
    let mut poll = vec![0u8; VIAL_MSG_LEN];
    poll[0] = 0xFE;
    poll[1] = 0x07;
    // Polls without the keys held make no progress.
    for _ in 0..20 {
        let (resp, _) = vial.handle_request(&poll, &mut km, false);
        assert_eq!(resp[0], 0);
    }
    // Polls with the keys held unlock after enough rounds.
    let mut unlocked = false;
    for _ in 0..20 {
        let (resp, _) = vial.handle_request(&poll, &mut km, true);
        if resp[0] == 1 {
            unlocked = true;
        }
    }
    assert!(unlocked);
    let mut lock = vec![0u8; VIAL_MSG_LEN];
    lock[0] = 0xFE;
    lock[1] = 0x08;
    vial.handle_request(&lock, &mut km, false);
    let mut status = vec![0u8; VIAL_MSG_LEN];
    status[0] = 0xFE;
    status[1] = 0x05;
    let (resp, _) = vial.handle_request(&status, &mut km, false);
    assert_eq!(resp[0], 0);
}

#[test]
fn layout_parse_modifiers_words() {
    let m = parse_modifiers("LShift | LCtrl");
    assert!(m.shift && m.ctrl && !m.alt && !m.gui && !m.right);
    let m = parse_modifiers("RAlt");
    assert!(m.alt && m.right);
    let m = parse_modifiers("");
    assert!(m.is_empty());
    let m = parse_modifiers("Bogus|LGui");
    assert!(m.gui && !m.shift);
}

#[test]
fn layout_get_layer() {
    assert_eq!(get_layer("MO(1)", "MO(", ")"), 1);
    assert_eq!(get_layer("OSL(12)", "OSL(", ")"), 12);
    assert_eq!(get_layer("TT(255)", "TT(", ")"), 255);
}

#[test]
fn layout_parse_key_forms() {
    assert_eq!(parse_key("____"), Ok(ParsedKey::Inert));
    assert_eq!(parse_key("A"), Ok(ParsedKey::Plain(b"A".to_vec())));
    assert_eq!(parse_key("Enter"), Ok(ParsedKey::Plain(b"Enter".to_vec())));
    assert_eq!(parse_key("MO(1)"), Ok(ParsedKey::Momentary(1)));
    assert_eq!(parse_key("OSL(2)"), Ok(ParsedKey::OneShot(2)));
    assert_eq!(parse_key("TT(3)"), Ok(ParsedKey::TapToggle(3)));
    assert_eq!(parse_key("TG(4)"), Ok(ParsedKey::Toggle(4)));
    assert_eq!(parse_key("TO(5)"), Ok(ParsedKey::To(5)));
    assert_eq!(parse_key("DF(1)"), Ok(ParsedKey::DefaultLayer(1)));
    match parse_key("WM(A, LShift)") {
        Ok(ParsedKey::WithMods(id, m)) => {
            assert_eq!(id, b"A".to_vec());
            assert!(m.shift && !m.ctrl);
        },
        other => panic!("unexpected: {:?}", other),
    }
    match parse_key("MT(F, LShift)") {
        Ok(ParsedKey::ModTapKey(id, m)) => {
            assert_eq!(id, b"F".to_vec());
            assert!(m.shift);
        },
        other => panic!("unexpected: {:?}", other),
    }
    match parse_key("LT(2, Space)") {
        Ok(ParsedKey::LayerTapKey(n, id)) => {
            assert_eq!(n, 2);
            assert_eq!(id, b"Space".to_vec());
        },
        other => panic!("unexpected: {:?}", other),
    }
    match parse_key("TH(A, B)") {
        Ok(ParsedKey::TapHoldKey(t, h)) => {
            assert_eq!(t, b"A".to_vec());
            assert_eq!(h, b"B".to_vec());
        },
        other => panic!("unexpected: {:?}", other),
    }
    match parse_key("LM(1, LAlt)") {
        Ok(ParsedKey::LayerMods(n, m)) => {
            assert_eq!(n, 1);
            assert!(m.alt);
        },
        other => panic!("unexpected: {:?}", other),
    }
    match parse_key("OSM(RCtrl)") {
        Ok(ParsedKey::OneShotMods(m)) => {
            assert!(m.ctrl && m.right);
        },
        other => panic!("unexpected: {:?}", other),
    }
}

#[test]
fn layout_parse_key_errors() {
    assert_eq!(parse_key("WM(A, Bogus)"), Err(LayoutError::EmptyModifiers));
    assert_eq!(parse_key("WM(A, LShift, X)"), Err(LayoutError::BadForm));
    assert_eq!(parse_key("MT(F,)"), Err(LayoutError::BadForm));
    assert_eq!(parse_key("MO(abc)"), Err(LayoutError::BadLayer));
    assert_eq!(parse_key("TG(999)"), Err(LayoutError::BadLayer));
}

#[test]
fn split_frame_round_trip() {
    let messages = vec![
        SplitMessage::Key(KeyEvent { row: 3, col: 7, pressed: true }),
        SplitMessage::Key(KeyEvent { row: 0, col: 0, pressed: false }),
        SplitMessage::ConnectionState(true),
        SplitMessage::ConnectionState(false),
        SplitMessage::LedIndicator(0x05),
        SplitMessage::SyncRequest,
    ];
    for m in messages {
        let enc = encode_split_message(&m);
        let (back, used) = parse_split_message(&enc).expect("parses");
        assert_eq!(back, m);
        assert_eq!(used, enc.len());
    }
}

#[test]
fn split_frame_rejects_corruption() {
    let enc0 = encode_split_message(&SplitMessage::ConnectionState(true));
    let mut enc = enc0.clone();
    let last = enc.len() - 1;
    enc[last] = enc[last].wrapping_add(1);
    assert_eq!(parse_split_message(&enc), None);
    let mut enc = enc0.clone();
    enc[0] = 0x55;
    assert_eq!(parse_split_message(&enc), None);
}

#[test]
fn split_peripheral_forwards_only_when_connected() {
    let mut p = SplitPeripheral::new();
    let ev = KeyEvent { row: 1, col: 2, pressed: true };
    assert_eq!(p.on_key_event(ev), None);
    p.handle_central_message(&SplitMessage::ConnectionState(true));
    assert_eq!(p.on_key_event(ev), Some(SplitMessage::Key(ev)));
    p.handle_central_message(&SplitMessage::LedIndicator(1));
    assert_eq!(p.on_key_event(ev), Some(SplitMessage::Key(ev)));
    p.handle_central_message(&SplitMessage::ConnectionState(false));
    assert_eq!(p.on_key_event(ev), None);
}

#[test]
fn split_translate_offsets() {
    let ev = KeyEvent { row: 1, col: 2, pressed: true };
    assert_eq!(
        translate_peripheral_event(ev, 4, 0),
        Some(KeyEvent { row: 5, col: 2, pressed: true })
    );
    assert_eq!(translate_peripheral_event(ev, 255, 0), None);
}

#[test]
fn light_levels_follow_indicator() {
    let svc = LightService::new([false, true, false]);
    // Caps lock on, wired active-low: the pin goes low.
    let levels = svc.levels(0b0000_0010);
    assert_eq!(levels, [false, false, false]);
    let levels = svc.levels(0b0000_0101);
    assert_eq!(levels, [true, true, true]);
}

#[test]
fn supervisor_restarts_after_delay() {
    let mut sup = Supervisor::new();
    assert!(sup.all_running);
    sup.on_task_exit(Task::Vial, 5000);
    assert!(!sup.all_running);
    assert_eq!(sup.last_fault, Some(Task::Vial));
    // Too early: nothing restarts.
    assert!(!sup.on_time(5500));
    assert!(!sup.all_running);
    // One second after the fault, everything runs again.
    assert!(sup.on_time(6000));
    assert!(sup.all_running);
}

#[test]
fn composite_report_serializes() {
    let rep = CompositeReport {
        buttons: 0b0000_0101,
        x: -2,
        y: 3,
        wheel: -1,
        pan: 0,
        media_usage_id: 0x00CD,
        system_usage_id: 0x82,
    };
    assert_eq!(rep.serialize(CompositeReportType::Mouse), vec![0x05, 0xFE, 0x03, 0xFF, 0x00]);
    assert_eq!(rep.serialize(CompositeReportType::Consumer), vec![0xCD, 0x00]);
    assert_eq!(rep.serialize(CompositeReportType::System), vec![0x82]);
    assert_eq!(rep.serialize(CompositeReportType::NoReport), Vec::<u8>::new());
    assert_eq!(CompositeReportType::from_u8(2), CompositeReportType::Consumer);
    assert_eq!(CompositeReportType::from_u8(9), CompositeReportType::NoReport);
}

#[test]
fn keyboard_report_bytes() {
    let mut rep = KeyboardReport::new();
    rep.register_key(KC_A);
    rep.register_key(KC_B);
    rep.modifier = 0x02;
    assert_eq!(rep.to_bytes(), vec![0x02, 0, KC_A, KC_B, 0, 0, 0, 0]);
    rep.deregister_key(KC_A);
    assert_eq!(rep.to_bytes(), vec![0x02, 0, 0, KC_B, 0, 0, 0, 0]);
}

#[test]
fn macro_compile_and_pump() {
    let items = vec![
        MacroItem::Press(KC_C),
        MacroItem::Delay(10),
        MacroItem::Release(KC_C),
        MacroItem::Text(b"a9".to_vec()),
    ];
    let ops = compile_items(&items);
    assert_eq!(
        ops,
        vec![
            MacroOp::Press(KC_C),
            MacroOp::Delay(10),
            MacroOp::Release(KC_C),
            MacroOp::Tap(4, false),
            MacroOp::Tap(0x26, false),
        ]
    );

    let mut km = simple_keymap(2, 1, 2);
    km.set_action(0, 0, 1, KeyAction::Macro(0));
    let macros = vec![ops];
    let mut kb = Keyboard::new(KeyboardConfig::new());
    let out = kb.process_event(&mut km, KeyEvent { row: 0, col: 1, pressed: true }, 0);
    assert_eq!(out, vec![]);
    // Press C.
    let out = kb.tick(&mut km, &macros, 1);
    assert_eq!(
        out,
        vec![Report::Keyboard(KeyboardReport { modifier: 0, keys: [KC_C, 0, 0, 0, 0, 0] })]
    );
    // The delay holds the next operation back.
    let out = kb.tick(&mut km, &macros, 2);
    assert_eq!(out, vec![]);
    let out = kb.tick(&mut km, &macros, 5);
    assert_eq!(out, vec![]);
    // Release C once the delay has passed.
    let out = kb.tick(&mut km, &macros, 12);
    assert_eq!(
        out,
        vec![Report::Keyboard(KeyboardReport { modifier: 0, keys: [0, 0, 0, 0, 0, 0] })]
    );
    // Then the text: tap 'a', tap '9'.
    let out = kb.tick(&mut km, &macros, 13);
    assert_eq!(out.len(), 2);
    let out = kb.tick(&mut km, &macros, 14);
    assert_eq!(out.len(), 2);
    // Done.
    let out = kb.tick(&mut km, &macros, 15);
    assert_eq!(out, vec![]);
}

#[test]
fn keyboard_mouse_and_consumer() {
    let mut km = simple_keymap(1, 1, 3);
    km.set_action(0, 0, 0, KeyAction::Mouse(MouseAction::Button(0)));
    km.set_action(0, 0, 1, KeyAction::Consumer(0x00B5));
    km.set_action(0, 0, 2, KeyAction::System(0x81));
    let mut kb = Keyboard::new(KeyboardConfig::new());
    let out = kb.process_event(&mut km, KeyEvent { row: 0, col: 0, pressed: true }, 0);
    match out.as_slice() {
        [Report::Mouse(m)] => assert_eq!(m.buttons, 1),
        other => panic!("unexpected: {:?}", other),
    }
    let out = kb.process_event(&mut km, KeyEvent { row: 0, col: 0, pressed: false }, 10);
    match out.as_slice() {
        [Report::Mouse(m)] => assert_eq!(m.buttons, 0),
        other => panic!("unexpected: {:?}", other),
    }
    let out = kb.process_event(&mut km, KeyEvent { row: 0, col: 1, pressed: true }, 20);
    assert_eq!(out, vec![Report::Consumer(0x00B5)]);
    let out = kb.process_event(&mut km, KeyEvent { row: 0, col: 1, pressed: false }, 30);
    assert_eq!(out, vec![Report::Consumer(0)]);
    let out = kb.process_event(&mut km, KeyEvent { row: 0, col: 2, pressed: true }, 40);
    assert_eq!(out, vec![Report::System(0x81)]);
    let out = kb.process_event(&mut km, KeyEvent { row: 0, col: 2, pressed: false }, 50);
    assert_eq!(out, vec![Report::System(0)]);
}

#[test]
fn keymap_layer_precedence() {
    let mut km = simple_keymap(3, 1, 1);
    km.set_action(1, 0, 0, KeyAction::Single(KC_B));
    // Only the default layer: layer 0 wins.
    assert_eq!(km.get_action(0, 0), KeyAction::Single(KC_A));
    // Layer 2 active but transparent: falls through to layer 1? Not
    // active; falls to layer 0.
    km.push_layer(2);
    assert_eq!(km.get_action(0, 0), KeyAction::Single(KC_A));
    // Layer 1 active: its cell wins over layer 0.
    km.push_layer(1);
    assert_eq!(km.get_action(0, 0), KeyAction::Single(KC_B));
    // Pops are idempotent.
    km.pop_layer(1);
    km.pop_layer(1);
    assert_eq!(km.get_action(0, 0), KeyAction::Single(KC_A));
}

#[test]
fn matrix_scan_collects_events() {
    let mut db = DefaultDebouncer::new(2, 2, 20);
    let samples = vec![vec![true, false], vec![false, true]];
    // At time 20 the debounce interval since boot has passed.
    let events = db.scan(&samples, 20);
    assert_eq!(
        events,
        vec![
            KeyEvent { row: 0, col: 0, pressed: true },
            KeyEvent { row: 1, col: 1, pressed: true },
        ]
    );
    assert_eq!(logical_coords(true, 3, 5), (5, 3));
    assert_eq!(logical_coords(false, 3, 5), (3, 5));
}

#[test]
fn layer_toggle_and_default() {
    let mut km = simple_keymap(2, 1, 2);
    km.set_action(1, 0, 0, KeyAction::Single(KC_B));
    km.set_action(0, 0, 1, KeyAction::LayerToggle(1));
    let mut kb = Keyboard::new(KeyboardConfig::new());
    // Toggle layer 1 on: the cell resolves on layer 1 now.
    kb.process_event(&mut km, KeyEvent { row: 0, col: 1, pressed: true }, 0);
    kb.process_event(&mut km, KeyEvent { row: 0, col: 1, pressed: false }, 10);
    assert_eq!(km.get_action(0, 0), KeyAction::Single(KC_B));
    // Toggle it off again.
    kb.process_event(&mut km, KeyEvent { row: 0, col: 1, pressed: true }, 20);
    kb.process_event(&mut km, KeyEvent { row: 0, col: 1, pressed: false }, 30);
    assert_eq!(km.get_action(0, 0), KeyAction::Single(KC_A));
}

#[test]
fn tap_of_key_already_down_suppresses_repeats() {
    let layer0 = vec![vec![
        KeyAction::Single(KC_F),
        KeyAction::ModTap(KC_F, lshift()),
    ]];
    let mut km = KeyMap::new(vec![layer0]);
    let mut kb = Keyboard::new(KeyboardConfig::new());
    let out = kb.process_event(&mut km, KeyEvent { row: 0, col: 0, pressed: true }, 0);
    assert_eq!(out.len(), 1);
    // The dual-role key taps its key while that key is already down:
    // both synthetic halves equal the last report sent, so nothing is
    // pushed — consecutive sent reports stay pairwise distinct.
    kb.process_event(&mut km, KeyEvent { row: 0, col: 1, pressed: true }, 10);
    let out = kb.process_event(&mut km, KeyEvent { row: 0, col: 1, pressed: false }, 50);
    assert_eq!(out, vec![]);
}

#[test]
fn mouse_motion_accumulates_and_withdraws() {
    let layer0 = vec![vec![
        KeyAction::Mouse(MouseAction::MoveX(100)),
        KeyAction::Mouse(MouseAction::MoveX(50)),
    ]];
    let mut km = KeyMap::new(vec![layer0]);
    let mut kb = Keyboard::new(KeyboardConfig::new());
    let macros: Vec<Vec<MacroOp>> = Vec::new();
    let out = kb.process_event(&mut km, KeyEvent { row: 0, col: 0, pressed: true }, 0);
    match out.as_slice() {
        [Report::Mouse(m)] => assert_eq!(m.x, 100),
        other => panic!("unexpected: {:?}", other),
    }
    // Two motion keys add up, clamped to one byte's magnitude.
    let out = kb.process_event(&mut km, KeyEvent { row: 0, col: 1, pressed: true }, 10);
    match out.as_slice() {
        [Report::Mouse(m)] => assert_eq!(m.x, 127),
        other => panic!("unexpected: {:?}", other),
    }
    // Releasing one withdraws only its own share.
    let out = kb.process_event(&mut km, KeyEvent { row: 0, col: 0, pressed: false }, 20);
    match out.as_slice() {
        [Report::Mouse(m)] => assert_eq!(m.x, 50),
        other => panic!("unexpected: {:?}", other),
    }
    // While motion is held, each tick repeats the per-tick delta.
    let out = kb.tick(&mut km, &macros, 21);
    match out.as_slice() {
        [Report::Mouse(m)] => assert_eq!(m.x, 50),
        other => panic!("unexpected: {:?}", other),
    }
    let out = kb.process_event(&mut km, KeyEvent { row: 0, col: 1, pressed: false }, 30);
    match out.as_slice() {
        [Report::Mouse(m)] => assert_eq!(m.x, 0),
        other => panic!("unexpected: {:?}", other),
    }
    // With nothing held, ticks stay quiet.
    let out = kb.tick(&mut km, &macros, 31);
    assert_eq!(out, vec![]);
}

#[test]
fn macro_buffer_survives_reboot() {
    let mut km = simple_keymap(1, 1, 1);
    let mut vial = VialService::new([0; 8], vec![]);
    let mut storage = Storage::new(2, 512);
    let mut req = vec![0u8; VIAL_MSG_LEN];
    req[0] = CMD_MACRO_SET_BUFFER;
    req[1] = 0;
    req[2] = 0;
    req[3] = 4;
    req[4] = 9;
    req[5] = 8;
    req[6] = 7;
    req[7] = 6;
    let (resp, record) = vial.handle_request(&req, &mut km, false);
    assert_eq!(resp[0], CMD_MACRO_SET_BUFFER);
    storage.append(&record.expect("a buffer write appends a record")).expect("fits");

    // Reboot: a fresh service replays the log and serves the same bytes.
    let mut vial2 = VialService::new([0; 8], vec![]);
    let (records, _) = rmk_core::storage::parse_sector_records(&storage.sectors[storage.active]);
    vial2.apply_records(&records);
    let mut get = vec![0u8; VIAL_MSG_LEN];
    get[0] = CMD_MACRO_GET_BUFFER;
    get[3] = 4;
    let (resp, _) = vial2.handle_request(&get, &mut km, false);
    assert_eq!(&resp[4..8], &[9, 8, 7, 6]);
}

#[test]
fn config_and_layout_options_replay() {
    let records = vec![
        StorageRecord::Config { key: 1, value: 10 },
        StorageRecord::LayoutOptions { value: 7 },
        StorageRecord::Config { key: 2, value: 20 },
        StorageRecord::Config { key: 1, value: 30 },
    ];
    assert_eq!(config_value(&records, 1), Some(30));
    assert_eq!(config_value(&records, 2), Some(20));
    assert_eq!(config_value(&records, 9), None);
    assert_eq!(layout_options_value(&records), Some(7));
    assert_eq!(layout_options_value(&Vec::new()), None);
}

#[test]
fn vial_extended_commands() {
    let mut km = simple_keymap(1, 1, 1);
    let id = [0x11, 0x22, 0x33, 0x44, 0x55, 0x66, 0x77, 0x88];
    let mut vial = VialService::new(id, vec![1, 2, 3]);
    let mut req = vec![0u8; VIAL_MSG_LEN];
    req[0] = CMD_EXTENDED;
    req[1] = EXT_GET_KEYBOARD_ID;
    let (resp, _) = vial.handle_request(&req, &mut km, false);
    assert_eq!(resp[0], EXTENDED_PROTOCOL_VERSION);
    assert_eq!(&resp[4..12], &id);

    let mut req = vec![0u8; VIAL_MSG_LEN];
    req[0] = CMD_EXTENDED;
    req[1] = EXT_GET_SIZE;
    let (resp, _) = vial.handle_request(&req, &mut km, false);
    assert_eq!(&resp[0..4], &[3, 0, 0, 0]);

    let mut req = vec![0u8; VIAL_MSG_LEN];
    req[0] = CMD_EXTENDED;
    req[1] = EXT_GET_DEF;
    let (resp, _) = vial.handle_request(&req, &mut km, false);
    assert_eq!(&resp[0..3], &[1, 2, 3]);
    assert!(resp[3..].iter().all(|b| *b == 0));

    // An unknown extended command degrades like an unknown command.
    let mut req = vec![0u8; VIAL_MSG_LEN];
    req[0] = CMD_EXTENDED;
    req[1] = 0x5A;
    let (resp, _) = vial.handle_request(&req, &mut km, false);
    assert_eq!(resp[0], 0xFF);
}

#[test]
fn one_shot_double_tap_locks_only_inside_window() {
    let layer0 = vec![vec![
        KeyAction::Single(KC_A),
        KeyAction::OneShotMod(lshift()),
    ]];
    let mut km = KeyMap::new(vec![layer0]);
    let mut kb = Keyboard::new(KeyboardConfig::new());
    // Two taps far apart re-arm instead of locking: the second tap comes
    // after the one-shot window.
    kb.process_event(&mut km, KeyEvent { row: 0, col: 1, pressed: true }, 0);
    kb.process_event(&mut km, KeyEvent { row: 0, col: 1, pressed: false }, 10);
    kb.process_event(&mut km, KeyEvent { row: 0, col: 1, pressed: true }, 900);
    kb.process_event(&mut km, KeyEvent { row: 0, col: 1, pressed: false }, 910);
    // The re-armed one-shot is spent by the next key, so the one after
    // comes unshifted — nothing got locked.
    let out = kb.process_event(&mut km, KeyEvent { row: 0, col: 0, pressed: true }, 920);
    assert_eq!(
        out,
        vec![Report::Keyboard(KeyboardReport { modifier: 0x02, keys: [KC_A, 0, 0, 0, 0, 0] })]
    );
    kb.process_event(&mut km, KeyEvent { row: 0, col: 0, pressed: false }, 930);
    let out = kb.process_event(&mut km, KeyEvent { row: 0, col: 0, pressed: true }, 940);
    assert_eq!(
        out,
        vec![Report::Keyboard(KeyboardReport { modifier: 0, keys: [KC_A, 0, 0, 0, 0, 0] })]
    );
    kb.process_event(&mut km, KeyEvent { row: 0, col: 0, pressed: false }, 950);

    // Two quick taps lock the modifier until it is tapped again.
    kb.process_event(&mut km, KeyEvent { row: 0, col: 1, pressed: true }, 1000);
    kb.process_event(&mut km, KeyEvent { row: 0, col: 1, pressed: false }, 1010);
    kb.process_event(&mut km, KeyEvent { row: 0, col: 1, pressed: true }, 1020);
    kb.process_event(&mut km, KeyEvent { row: 0, col: 1, pressed: false }, 1030);
    let out = kb.process_event(&mut km, KeyEvent { row: 0, col: 0, pressed: true }, 1040);
    assert_eq!(
        out,
        vec![Report::Keyboard(KeyboardReport { modifier: 0x02, keys: [KC_A, 0, 0, 0, 0, 0] })]
    );
    kb.process_event(&mut km, KeyEvent { row: 0, col: 0, pressed: false }, 1050);
    // Still shifted: the lock outlives the key.
    let out = kb.process_event(&mut km, KeyEvent { row: 0, col: 0, pressed: true }, 1060);
    assert_eq!(
        out,
        vec![Report::Keyboard(KeyboardReport { modifier: 0x02, keys: [KC_A, 0, 0, 0, 0, 0] })]
    );
    kb.process_event(&mut km, KeyEvent { row: 0, col: 0, pressed: false }, 1070);
}
