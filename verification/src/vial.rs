//! The configuration service: one 32-byte request in, one 32-byte
//! response out. The first request byte selects the command; unknown
//! commands answer a single 0xFF so newer hosts degrade gracefully.
//!
//! A keymap write mutates the keymap first and hands back the storage
//! record to append, so the change is visible — and on its way to flash —
//! before the response goes out.

use vstd::prelude::*;
use crate::action::KeyAction;
use crate::keymap::KeyMap;
use crate::storage::StorageRecord;

verus! {

/// Command: the configuration protocol version.
pub const CMD_GET_PROTOCOL_VERSION: u8 = 0x01;

/// Command: read one keymap cell's wire code.
pub const CMD_GET_KEYCODE: u8 = 0x04;

/// Command: write one keymap cell's wire code.
pub const CMD_SET_KEYCODE: u8 = 0x05;

/// Command: read a slice of the macro buffer.
pub const CMD_MACRO_GET_BUFFER: u8 = 0x0C;

/// Command: write a slice of the macro buffer.
pub const CMD_MACRO_SET_BUFFER: u8 = 0x0D;

/// Command: how many layers the keymap has.
pub const CMD_GET_LAYER_COUNT: u8 = 0x11;

/// Command prefix of the extended commands; the second byte selects.
pub const CMD_EXTENDED: u8 = 0xFE;

/// Extended: the keyboard identifier and extended protocol version.
pub const EXT_GET_KEYBOARD_ID: u8 = 0x00;

/// Extended: the size of the layout definition blob.
pub const EXT_GET_SIZE: u8 = 0x01;

/// Extended: one 32-byte page of the layout definition blob.
pub const EXT_GET_DEF: u8 = 0x02;

/// Extended: whether the keyboard is unlocked, and whether an unlock is
/// in progress.
pub const EXT_GET_UNLOCK_STATUS: u8 = 0x05;

/// Extended: begin the unlock handshake.
pub const EXT_UNLOCK_START: u8 = 0x06;

/// Extended: one step of the unlock handshake.
pub const EXT_UNLOCK_POLL: u8 = 0x07;

/// Extended: lock again.
pub const EXT_LOCK: u8 = 0x08;

/// The protocol version sent to the host.
pub const PROTOCOL_VERSION: u16 = 0x0009;

/// The extended protocol version sent in the keyboard identifier reply.
pub const EXTENDED_PROTOCOL_VERSION: u8 = 6;

/// How many successful polls, with the unlock keys held, finish the
/// unlock handshake.
pub const UNLOCK_POLLS: u8 = 10;

/// The reply to a command nobody recognises.
pub const RESP_UNKNOWN: u8 = 0xFF;

/// The size of every request and response.
pub const VIAL_MSG_LEN: usize = 32;

/// The size of the macro buffer.
pub const MACRO_BUFFER_LEN: usize = 256;

/// The configuration service's own state: the unlock handshake, the
/// fixed identity, the opaque layout definition blob, and the macro
/// buffer.
pub struct VialService {
    /// Whether the host has completed the unlock handshake.
    pub unlocked: bool,
    /// Whether an unlock handshake is under way.
    pub unlock_in_progress: bool,
    /// Completed polls of the current handshake.
    pub unlock_counter: u8,
    /// The fixed eight-byte keyboard identifier.
    pub keyboard_id: [u8; 8],
    /// The compressed layout definition blob, opaque to the firmware.
    pub definition: Vec<u8>,
    /// The macro buffer, read and written in slices.
    pub macro_buffer: Vec<u8>,
}

/// What reading one keymap cell answers: the wire code of the stored
/// action.
pub open spec fn spec_get_keycode_resp(km: KeyMap, layer: u8, row: u8, col: u8) -> u16 {
    crate::action::spec_code_of(km.spec_action_at(layer as int, row as int, col as int))
}

/// Whether a keymap write is acceptable: the cell exists and layer 0
/// does not take `Transparent`.
pub open spec fn spec_set_keycode_ok(km: KeyMap, layer: u8, row: u8, col: u8, code: u16) -> bool {
    &&& (layer as int) < km.layers.len()
    &&& (row as int) < km.spec_rows()
    &&& (col as int) < km.spec_cols()
    &&& !(layer == 0 && crate::action::spec_from_code(code) is Transparent)
}

/// Whether the first byte (and, for the extended prefix, the second)
/// names a command this service implements.
pub open spec fn spec_known_command(req: Seq<u8>) -> bool {
    let cmd = req[0];
    ||| cmd == CMD_GET_PROTOCOL_VERSION
    ||| cmd == CMD_GET_KEYCODE
    ||| cmd == CMD_SET_KEYCODE
    ||| cmd == CMD_MACRO_GET_BUFFER
    ||| cmd == CMD_MACRO_SET_BUFFER
    ||| cmd == CMD_GET_LAYER_COUNT
    ||| (cmd == CMD_EXTENDED && (req[1] == EXT_GET_KEYBOARD_ID || req[1] == EXT_GET_SIZE || req[1]
        == EXT_GET_DEF || req[1] == EXT_GET_UNLOCK_STATUS || req[1] == EXT_UNLOCK_START || req[1]
        == EXT_UNLOCK_POLL || req[1] == EXT_LOCK))
}

/// The unlock handshake keeps its state.
pub open spec fn spec_unlock_same(a: VialService, b: VialService) -> bool {
    &&& a.unlocked == b.unlocked
    &&& a.unlock_in_progress == b.unlock_in_progress
    &&& a.unlock_counter == b.unlock_counter
}

/// What one unlock poll does, as `(unlocked, in progress, counter)`:
/// progress is made only while a handshake runs and the required keys
/// are physically held; letting go starts the count over; enough held
/// polls unlock and end the handshake.
pub open spec fn spec_unlock_poll(s: VialService, keys_held: bool) -> (bool, bool, u8) {
    if s.unlock_in_progress {
        if keys_held {
            if s.unlock_counter >= UNLOCK_POLLS {
                (true, false, s.unlock_counter)
            } else {
                (s.unlocked, true, (s.unlock_counter + 1) as u8)
            }
        } else {
            (s.unlocked, true, 0)
        }
    } else {
        (s.unlocked, false, s.unlock_counter)
    }
}

/// Where a definition page starts in the blob; a page index whose byte
/// offset cannot be formed points past the end, so the page reads as
/// zeros.
pub open spec fn spec_def_page_start(s: VialService, page: int) -> int {
    if page <= usize::MAX as int / VIAL_MSG_LEN as int {
        page * VIAL_MSG_LEN as int
    } else {
        s.definition@.len() as int
    }
}

/// Byte `t` of the definition page starting at `start`: the blob's byte,
/// or zero past its end.
pub open spec fn spec_def_byte(s: VialService, start: int, t: int) -> u8 {
    if start + t < s.definition@.len() {
        s.definition@[start + t]
    } else {
        0u8
    }
}

impl VialService {
    pub open spec fn wf(&self) -> bool {
        self.macro_buffer@.len() == MACRO_BUFFER_LEN
    }

    /// A fresh service: locked, with the given identity and definition
    /// blob, and an empty macro buffer.
    pub fn new(keyboard_id: [u8; 8], definition: Vec<u8>) -> (r: VialService)
        ensures
            r.wf(),
            !r.unlocked,
            !r.unlock_in_progress,
            r.keyboard_id == keyboard_id,
            r.definition == definition,
            forall|i: int| 0 <= i < MACRO_BUFFER_LEN ==> #[trigger] r.macro_buffer@[i] == 0,
    {
        let mut macro_buffer: Vec<u8> = Vec::new();
        let mut i: usize = 0;
        while i < MACRO_BUFFER_LEN
            invariant
                i <= MACRO_BUFFER_LEN,
                macro_buffer@.len() == i,
                forall|t: int| 0 <= t < i ==> #[trigger] macro_buffer@[t] == 0,
            decreases MACRO_BUFFER_LEN - i,
        {
            macro_buffer.push(0);
            i = i + 1;
        }
        VialService {
            unlocked: false,
            unlock_in_progress: false,
            unlock_counter: 0,
            keyboard_id,
            definition,
            macro_buffer,
        }
    }
    /// Serve one request. Exactly one 32-byte response comes back, and
    /// at most one storage record to append:
    ///
    /// - a keymap read answers the stored cell's wire code, high byte
    ///   first, after echoing the request header;
    /// - a keymap write is applied to the keymap — and handed back as a
    ///   record — exactly when the cell exists and the write does not put
    ///   `Transparent` on layer 0; a rejected write answers 0xFF;
    /// - macro buffer reads and writes move slices of at most 26 bytes,
    ///   and a write hands back the whole buffer as a record;
    /// - the extended commands answer the keyboard identity, the
    ///   definition blob's size and pages, and drive the unlock
    ///   handshake, which advances one poll at a time and only while the
    ///   required keys are physically held;
    /// - an unknown command answers a single 0xFF.
    pub fn handle_request(
        &mut self,
        req: &Vec<u8>,
        km: &mut KeyMap,
        keys_held: bool,
    ) -> (r: (Vec<u8>, Option<StorageRecord>))
        requires
            old(self).wf(),
            old(km).wf(),
            req@.len() == VIAL_MSG_LEN,
        ensures
            final(self).wf(),
            final(km).wf(),
            r.0@.len() == VIAL_MSG_LEN,
            final(km).layers.len() == old(km).layers.len(),
            final(km).spec_rows() == old(km).spec_rows(),
            final(km).spec_cols() == old(km).spec_cols(),
            final(km).active_layers == old(km).active_layers,
            final(km).default_layer == old(km).default_layer,
            req@[0] != CMD_SET_KEYCODE ==> *final(km) == *old(km),
            req@[0] != CMD_SET_KEYCODE && req@[0] != CMD_MACRO_SET_BUFFER ==> r.1 is None
                && *final(self) == (VialService {
                unlocked: final(self).unlocked,
                unlock_in_progress: final(self).unlock_in_progress,
                unlock_counter: final(self).unlock_counter,
                ..*old(self)
            }),
            req@[0] != CMD_EXTENDED ==> spec_unlock_same(*old(self), *final(self)),
            !spec_known_command(req@) ==> r.0@[0] == RESP_UNKNOWN && r.1 is None,
            req@[0] == CMD_GET_PROTOCOL_VERSION ==> r.0@[0] == CMD_GET_PROTOCOL_VERSION && r.0@[1]
                == (PROTOCOL_VERSION / 256) as u8 && r.0@[2] == (PROTOCOL_VERSION % 256) as u8,
            req@[0] == CMD_GET_LAYER_COUNT ==> r.0@[1] == old(km).layers.len() as u8,
            req@[0] == CMD_GET_KEYCODE ==> ({
                let layer = req@[1];
                let row = req@[2];
                let col = req@[3];
                if (layer as int) < old(km).layers.len() && (row as int) < old(km).spec_rows() && (
                col as int) < old(km).spec_cols() {
                    let code = spec_get_keycode_resp(*old(km), layer, row, col);
                    r.0@[4] == (code / 256) as u8 && r.0@[5] == (code % 256) as u8
                } else {
                    r.0@[0] == RESP_UNKNOWN
                }
            }),
            req@[0] == CMD_SET_KEYCODE ==> ({
                let layer = req@[1];
                let row = req@[2];
                let col = req@[3];
                let code = (req@[4] * 256 + req@[5]) as u16;
                if spec_set_keycode_ok(*old(km), layer, row, col, code) {
                    &&& final(km).spec_action_at(layer as int, row as int, col as int)
                        == crate::action::spec_from_code(code)
                    &&& forall|l: int, rr: int, cc: int|
                        0 <= l < old(km).layers.len() && 0 <= rr < old(km).spec_rows() && 0 <= cc
                            < old(km).spec_cols() && !(l == layer && rr == row && cc == col)
                            ==> #[trigger] final(km).spec_action_at(l, rr, cc) == old(
                            km,
                        ).spec_action_at(l, rr, cc)
                    &&& r.1 == Some(StorageRecord::KeymapCell { layer, row, col, code })
                    &&& r.0@[0] == CMD_SET_KEYCODE
                } else {
                    &&& *final(km) == *old(km)
                    &&& r.1 is None
                    &&& r.0@[0] == RESP_UNKNOWN
                }
            }),
            req@[0] == CMD_MACRO_GET_BUFFER ==> ({
                let offset = req@[1] + 256 * req@[2];
                let size = req@[3] as int;
                if size <= 26 && offset + size <= MACRO_BUFFER_LEN {
                    &&& r.0@[0] == CMD_MACRO_GET_BUFFER
                    &&& r.0@[1] == req@[1] && r.0@[2] == req@[2] && r.0@[3] == req@[3]
                    &&& forall|t: int|
                        0 <= t < size ==> r.0@[4 + t] == #[trigger] old(self).macro_buffer@[offset
                            + t]
                } else {
                    r.0@[0] == RESP_UNKNOWN
                }
            }),
            req@[0] == CMD_MACRO_SET_BUFFER ==> ({
                let offset = req@[1] + 256 * req@[2];
                let size = req@[3] as int;
                &&& final(self).keyboard_id == old(self).keyboard_id
                &&& final(self).definition == old(self).definition
                &&& if size <= 26 && offset + size <= MACRO_BUFFER_LEN {
                    &&& r.0@[0] == CMD_MACRO_SET_BUFFER
                    &&& r.0@[1] == req@[1] && r.0@[2] == req@[2] && r.0@[3] == req@[3]
                    &&& forall|t: int|
                        0 <= t < size ==> #[trigger] final(self).macro_buffer@[offset + t]
                            == req@[4 + t]
                    &&& forall|t: int|
                        0 <= t < MACRO_BUFFER_LEN && !(offset <= t < offset + size)
                            ==> #[trigger] final(self).macro_buffer@[t] == old(self).macro_buffer@[t]
                    &&& match r.1 {
                        Some(rec) => rec matches StorageRecord::MacroEntry { id, data } && id == 0
                            && data@ == final(self).macro_buffer@,
                        None => false,
                    }
                } else {
                    &&& r.0@[0] == RESP_UNKNOWN
                    &&& r.1 is None
                    &&& *final(self) == *old(self)
                }
            }),
            req@[0] == CMD_EXTENDED ==> ({
                let sub = req@[1];
                &&& sub == EXT_GET_KEYBOARD_ID ==> spec_unlock_same(*old(self), *final(self))
                    && r.0@[0] == EXTENDED_PROTOCOL_VERSION && forall|t: int|
                    0 <= t < 8 ==> r.0@[4 + t] == #[trigger] old(self).keyboard_id[t]
                &&& sub == EXT_GET_SIZE ==> spec_unlock_same(*old(self), *final(self)) && ({
                    let n = old(self).definition@.len() as int;
                    &&& r.0@[0] == (n % 256) as u8
                    &&& r.0@[1] == ((n / 256) % 256) as u8
                    &&& r.0@[2] == ((n / 0x10000) % 256) as u8
                    &&& r.0@[3] == ((n / 0x1000000) % 256) as u8
                })
                &&& sub == EXT_GET_DEF ==> spec_unlock_same(*old(self), *final(self)) && ({
                    let page = req@[2] + 256 * req@[3];
                    let start = spec_def_page_start(*old(self), page as int);
                    forall|t: int|
                        0 <= t < VIAL_MSG_LEN ==> r.0@[t] == (if start + t < old(self).definition@.len() {
                            #[trigger] old(self).definition@[start + t]
                        } else {
                            0u8
                        })
                })
                &&& sub == EXT_GET_UNLOCK_STATUS ==> spec_unlock_same(*old(self), *final(self))
                    && r.0@[0] == (if old(self).unlocked {
                    1u8
                } else {
                    0u8
                }) && r.0@[1] == (if old(self).unlock_in_progress {
                    1u8
                } else {
                    0u8
                })
                &&& sub == EXT_UNLOCK_START ==> final(self).unlock_in_progress && final(self).unlock_counter == 0 && final(self).unlocked == old(self).unlocked && r.0@[0] == 0
                &&& sub == EXT_UNLOCK_POLL ==> ({
                    let st = spec_unlock_poll(*old(self), keys_held);
                    &&& final(self).unlocked == st.0
                    &&& final(self).unlock_in_progress == st.1
                    &&& final(self).unlock_counter == st.2
                    &&& r.0@[0] == (if st.0 {
                        1u8
                    } else {
                        0u8
                    })
                    &&& r.0@[1] == (if st.1 {
                        1u8
                    } else {
                        0u8
                    })
                    &&& r.0@[2] == st.2
                })
                &&& sub == EXT_LOCK ==> !final(self).unlocked && !final(self).unlock_in_progress
                    && final(self).unlock_counter == 0 && r.0@[0] == 0
                &&& !(sub == EXT_GET_KEYBOARD_ID || sub == EXT_GET_SIZE || sub == EXT_GET_DEF
                    || sub == EXT_GET_UNLOCK_STATUS || sub == EXT_UNLOCK_START || sub
                    == EXT_UNLOCK_POLL || sub == EXT_LOCK) ==> spec_unlock_same(
                    *old(self),
                    *final(self),
                ) && r.0@[0] == RESP_UNKNOWN
            }),
    {
        let mut resp: Vec<u8> = zeroed_response();
        let cmd = req[0];
        if cmd == CMD_GET_PROTOCOL_VERSION {
            resp.set(0, CMD_GET_PROTOCOL_VERSION);
            resp.set(1, (PROTOCOL_VERSION / 256) as u8);
            resp.set(2, (PROTOCOL_VERSION % 256) as u8);
            (resp, None)
        } else if cmd == CMD_GET_LAYER_COUNT {
            resp.set(0, CMD_GET_LAYER_COUNT);
            resp.set(1, km.layer_count() as u8);
            (resp, None)
        } else if cmd == CMD_GET_KEYCODE {
            let layer = req[1];
            let row = req[2];
            let col = req[3];
            if (layer as usize) < km.layer_count() && (row as usize) < km.rows() && (col as usize)
                < km.cols() {
                let action = km.action_at(layer, row, col);
                let code = action.to_code();
                resp.set(0, CMD_GET_KEYCODE);
                resp.set(1, layer);
                resp.set(2, row);
                resp.set(3, col);
                resp.set(4, (code / 256) as u8);
                resp.set(5, (code % 256) as u8);
                (resp, None)
            } else {
                resp.set(0, RESP_UNKNOWN);
                (resp, None)
            }
        } else if cmd == CMD_SET_KEYCODE {
            let layer = req[1];
            let row = req[2];
            let col = req[3];
            let code: u16 = (req[4] as u16) * 256 + (req[5] as u16);
            let action = KeyAction::from_code(code);
            let in_range = (layer as usize) < km.layer_count() && (row as usize) < km.rows() && (
            col as usize) < km.cols();
            if in_range && !(layer == 0 && matches!(action, KeyAction::Transparent)) {
                km.set_action(layer, row, col, action);
                resp.set(0, CMD_SET_KEYCODE);
                resp.set(1, layer);
                resp.set(2, row);
                resp.set(3, col);
                resp.set(4, req[4]);
                resp.set(5, req[5]);
                (resp, Some(StorageRecord::KeymapCell { layer, row, col, code }))
            } else {
                resp.set(0, RESP_UNKNOWN);
                (resp, None)
            }
        } else if cmd == CMD_MACRO_GET_BUFFER {
            let offset: usize = (req[1] as usize) + 256 * (req[2] as usize);
            let size: usize = req[3] as usize;
            if size <= 26 && offset <= MACRO_BUFFER_LEN && size <= MACRO_BUFFER_LEN - offset {
                resp.set(0, CMD_MACRO_GET_BUFFER);
                resp.set(1, req[1]);
                resp.set(2, req[2]);
                resp.set(3, req[3]);
                let mut i: usize = 0;
                while i < size
                    invariant
                        i <= size,
                        size <= 26,
                        offset == req@[1] + 256 * req@[2],
                        size == req@[3] as int,
                        req@.len() == VIAL_MSG_LEN,
                        offset + size <= self.macro_buffer@.len(),
                        self.wf(),
                        *self == *old(self),
                        resp@.len() == VIAL_MSG_LEN,
                        resp@[0] == CMD_MACRO_GET_BUFFER,
                        resp@[1] == req@[1],
                        resp@[2] == req@[2],
                        resp@[3] == req@[3],
                        forall|t: int|
                            0 <= t < i ==> resp@[4 + t] == #[trigger] self.macro_buffer@[offset
                                + t],
                    decreases size - i,
                {
                    let b = self.macro_buffer[offset + i];
                    resp.set(4 + i, b);
                    i = i + 1;
                }
                (resp, None)
            } else {
                resp.set(0, RESP_UNKNOWN);
                (resp, None)
            }
        } else if cmd == CMD_MACRO_SET_BUFFER {
            let offset: usize = (req[1] as usize) + 256 * (req[2] as usize);
            let size: usize = req[3] as usize;
            if size <= 26 && offset <= MACRO_BUFFER_LEN && size <= MACRO_BUFFER_LEN - offset {
                resp.set(0, CMD_MACRO_SET_BUFFER);
                resp.set(1, req[1]);
                resp.set(2, req[2]);
                resp.set(3, req[3]);
                let mut i: usize = 0;
                while i < size
                    invariant
                        i <= size,
                        size <= 26,
                        offset == req@[1] + 256 * req@[2],
                        size == req@[3] as int,
                        offset + size <= self.macro_buffer@.len(),
                        self.wf(),
                        req@.len() == VIAL_MSG_LEN,
                        self.unlocked == old(self).unlocked,
                        self.unlock_in_progress == old(self).unlock_in_progress,
                        self.unlock_counter == old(self).unlock_counter,
                        self.keyboard_id == old(self).keyboard_id,
                        self.definition == old(self).definition,
                        forall|t: int|
                            0 <= t < i ==> #[trigger] self.macro_buffer@[offset + t] == req@[4
                                + t],
                        forall|t: int|
                            0 <= t < MACRO_BUFFER_LEN && !(offset <= t < offset + i)
                                ==> #[trigger] self.macro_buffer@[t] == old(self).macro_buffer@[t],
                    decreases size - i,
                {
                    let b = req[4 + i];
                    self.macro_buffer.set(offset + i, b);
                    i = i + 1;
                }
                let record = StorageRecord::MacroEntry {
                    id: 0,
                    data: clone_bytes(&self.macro_buffer),
                };
                (resp, Some(record))
            } else {
                resp.set(0, RESP_UNKNOWN);
                (resp, None)
            }
        } else if cmd == CMD_EXTENDED {
            let sub = req[1];
            if sub == EXT_GET_KEYBOARD_ID {
                resp.set(0, EXTENDED_PROTOCOL_VERSION);
                let mut i: usize = 0;
                while i < 8
                    invariant
                        i <= 8,
                        resp@.len() == VIAL_MSG_LEN,
                        resp@[0] == EXTENDED_PROTOCOL_VERSION,
                        self.wf(),
                        *self == *old(self),
                        forall|t: int|
                            0 <= t < i ==> resp@[4 + t] == #[trigger] self.keyboard_id[t],
                    decreases 8 - i,
                {
                    let b = self.keyboard_id[i];
                    resp.set(4 + i, b);
                    i = i + 1;
                }
                (resp, None)
            } else if sub == EXT_GET_SIZE {
                let n = self.definition.len();
                resp.set(0, (n % 256) as u8);
                resp.set(1, ((n / 256) % 256) as u8);
                resp.set(2, ((n / 0x10000) % 256) as u8);
                resp.set(3, ((n / 0x1000000) % 256) as u8);
                (resp, None)
            } else if sub == EXT_GET_DEF {
                let page: usize = (req[2] as usize) + 256 * (req[3] as usize);
                let start: usize = if page <= usize::MAX / VIAL_MSG_LEN {
                    page * VIAL_MSG_LEN
                } else {
                    self.definition.len()
                };
                let dlen = self.definition.len();
                let mut i: usize = 0;
                while i < VIAL_MSG_LEN
                    invariant
                        i <= VIAL_MSG_LEN,
                        resp@.len() == VIAL_MSG_LEN,
                        self.wf(),
                        *self == *old(self),
                        dlen == self.definition@.len(),
                        page == req@[2] + 256 * req@[3],
                        start as int == spec_def_page_start(*self, page as int),
                        forall|t: int|
                            0 <= t < i ==> #[trigger] resp@[t] == spec_def_byte(
                                *self,
                                start as int,
                                t,
                            ),
                        forall|t: int| i <= t < VIAL_MSG_LEN ==> #[trigger] resp@[t] == 0,
                    decreases VIAL_MSG_LEN - i,
                {
                    if start <= usize::MAX - i && start + i < self.definition.len() {
                        let b = self.definition[start + i];
                        resp.set(i, b);
                    }
                    i = i + 1;
                }
                (resp, None)
            } else if sub == EXT_GET_UNLOCK_STATUS {
                resp.set(0, if self.unlocked { 1 } else { 0 });
                resp.set(1, if self.unlock_in_progress { 1 } else { 0 });
                (resp, None)
            } else if sub == EXT_UNLOCK_START {
                self.unlock_in_progress = true;
                self.unlock_counter = 0;
                resp.set(0, 0);
                (resp, None)
            } else if sub == EXT_UNLOCK_POLL {
                if self.unlock_in_progress {
                    if keys_held {
                        if self.unlock_counter >= UNLOCK_POLLS {
                            self.unlocked = true;
                            self.unlock_in_progress = false;
                        } else {
                            self.unlock_counter = self.unlock_counter + 1;
                        }
                    } else {
                        self.unlock_counter = 0;
                    }
                }
                resp.set(0, if self.unlocked { 1 } else { 0 });
                resp.set(1, if self.unlock_in_progress { 1 } else { 0 });
                resp.set(2, self.unlock_counter);
                (resp, None)
            } else if sub == EXT_LOCK {
                self.unlocked = false;
                self.unlock_in_progress = false;
                self.unlock_counter = 0;
                resp.set(0, 0);
                (resp, None)
            } else {
                resp.set(0, RESP_UNKNOWN);
                (resp, None)
            }
        } else {
            resp.set(0, RESP_UNKNOWN);
            (resp, None)
        }
    }
}

/// A fresh all-zero response.
fn zeroed_response() -> (r: Vec<u8>)
    ensures
        r@.len() == VIAL_MSG_LEN,
        forall|i: int| 0 <= i < VIAL_MSG_LEN ==> #[trigger] r@[i] == 0,
{
    let mut v: Vec<u8> = Vec::new();
    let mut i: usize = 0;
    while i < VIAL_MSG_LEN
        invariant
            i <= VIAL_MSG_LEN,
            v@.len() == i,
            forall|t: int| 0 <= t < i ==> #[trigger] v@[t] == 0,
        decreases VIAL_MSG_LEN - i,
    {
        v.push(0);
        i = i + 1;
    }
    v
}

/// A copy of a byte vector.
fn clone_bytes(v: &Vec<u8>) -> (r: Vec<u8>)
    ensures
        r@ == v@,
{
    let mut out: Vec<u8> = Vec::new();
    let mut i: usize = 0;
    while i < v.len()
        invariant
            i <= v@.len(),
            out@ =~= v@.take(i as int),
        decreases v@.len() - i,
    {
        out.push(v[i]);
        i = i + 1;
    }
    proof {
        assert(v@.take(v@.len() as int) =~= v@);
    }
    out
}

/// Writing an encodable action over the protocol and reading the same
/// cell back yields the very action that was written: the stored action
/// is the decoded code, and the read answers its code, which decodes to
/// the action again.
pub proof fn lemma_vial_keycode_round_trip(a: KeyAction)
    requires
        crate::action::spec_encodable(a),
    ensures
        crate::action::spec_from_code(crate::action::spec_to_code(a)) == a,
        crate::action::spec_to_code(crate::action::spec_from_code(crate::action::spec_to_code(a)))
            == crate::action::spec_to_code(a),
{
    crate::action::lemma_action_code_round_trip(a);
}

} // verus!
