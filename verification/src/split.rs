//! The split link: the frame format both halves speak, and the
//! peripheral's decision logic — forward key events only while the
//! central says it is connected.

use vstd::prelude::*;
use crate::event::KeyEvent;

verus! {

/// The first byte of every split frame.
pub const SPLIT_MAGIC: u8 = 0xAA;

/// Frame kind of a forwarded key event.
pub const SPLIT_KIND_KEY: u8 = 1;

/// Frame kind of the central's connection-state broadcast.
pub const SPLIT_KIND_CONNECTION: u8 = 2;

/// Frame kind of a forwarded LED indicator byte.
pub const SPLIT_KIND_LED: u8 = 3;

/// Frame kind of a synchronisation request.
pub const SPLIT_KIND_SYNC: u8 = 4;

/// One message between the two halves.
#[derive(Clone, Copy, Debug, PartialEq, Eq, Structural)]
pub enum SplitMessage {
    /// A key event of the peripheral's matrix.
    Key(KeyEvent),
    /// Whether the central holds a host connection.
    ConnectionState(bool),
    /// The host's LED indicator byte.
    LedIndicator(u8),
    /// A request to resynchronise.
    SyncRequest,
}

/// One step of the eight-bit checksum register.
pub open spec fn spec_crc8_shift(c: u8) -> u8 {
    if c & 0x80 != 0 {
        (c << 1) ^ 0x07
    } else {
        c << 1
    }
}

/// `n` steps of the eight-bit checksum register.
pub open spec fn spec_crc8_bits(c: u8, n: nat) -> u8
    decreases n,
{
    if n == 0 {
        c
    } else {
        spec_crc8_bits(spec_crc8_shift(c), (n - 1) as nat)
    }
}

/// The eight-bit checksum of a byte string: polynomial 0x07, initial
/// value 0, bytes folded in order.
pub open spec fn spec_crc8(s: Seq<u8>) -> u8
    decreases s.len(),
{
    if s.len() == 0 {
        0
    } else {
        spec_crc8_bits(spec_crc8(s.drop_last()) ^ s.last(), 8)
    }
}

/// Folding commutes with one shift step, so the loop below can run
/// forward.
proof fn lemma_crc8_bits_shift(c: u8, n: nat)
    ensures
        spec_crc8_bits(spec_crc8_shift(c), n) == spec_crc8_shift(spec_crc8_bits(c, n)),
    decreases n,
{
    if n > 0 {
        lemma_crc8_bits_shift(spec_crc8_shift(c), (n - 1) as nat);
    }
}

/// Compute the eight-bit checksum.
pub fn crc8(bytes: &Vec<u8>) -> (r: u8)
    ensures
        r == spec_crc8(bytes@),
{
    let mut c: u8 = 0;
    let mut i: usize = 0;
    while i < bytes.len()
        invariant
            i <= bytes.len(),
            c == spec_crc8(bytes@.take(i as int)),
        decreases bytes.len() - i,
    {
        let start: u8 = c ^ bytes[i];
        let mut acc: u8 = start;
        let mut k: usize = 0;
        while k < 8
            invariant
                k <= 8,
                acc == spec_crc8_bits(start, k as nat),
            decreases 8 - k,
        {
            proof {
                lemma_crc8_bits_shift(start, k as nat);
            }
            acc = if acc & 0x80 != 0 {
                (acc << 1u8) ^ 0x07
            } else {
                acc << 1u8
            };
            k = k + 1;
        }
        proof {
            assert(bytes@.take(i + 1).drop_last() =~= bytes@.take(i as int));
            assert(bytes@.take(i + 1).last() == bytes@[i as int]);
        }
        c = acc;
        i = i + 1;
    }
    proof {
        assert(bytes@.take(bytes@.len() as int) =~= bytes@);
    }
    c
}

/// The kind byte of a message.
pub open spec fn spec_split_kind(m: SplitMessage) -> u8 {
    match m {
        SplitMessage::Key(_) => SPLIT_KIND_KEY,
        SplitMessage::ConnectionState(_) => SPLIT_KIND_CONNECTION,
        SplitMessage::LedIndicator(_) => SPLIT_KIND_LED,
        SplitMessage::SyncRequest => SPLIT_KIND_SYNC,
    }
}

/// The payload bytes of a message.
pub open spec fn spec_split_payload(m: SplitMessage) -> Seq<u8> {
    match m {
        SplitMessage::Key(ev) => seq![
            ev.row,
            ev.col,
            if ev.pressed {
                1u8
            } else {
                0u8
            },
        ],
        SplitMessage::ConnectionState(b) => seq![
            if b {
                1u8
            } else {
                0u8
            },
        ],
        SplitMessage::LedIndicator(v) => seq![v],
        SplitMessage::SyncRequest => Seq::empty(),
    }
}

/// The full frame of a message: magic, kind, payload length, payload,
/// checksum over kind, length and payload.
pub open spec fn spec_encode_split(m: SplitMessage) -> Seq<u8> {
    let payload = spec_split_payload(m);
    let body = seq![spec_split_kind(m), payload.len() as u8] + payload;
    seq![SPLIT_MAGIC] + body + seq![spec_crc8(body)]
}

/// The message a frame starting at the head of `s` carries, if a whole
/// well-formed one starts there, and how many bytes it takes.
pub open spec fn spec_parse_split(s: Seq<u8>) -> Option<(SplitMessage, int)> {
    if s.len() < 4 {
        None
    } else if s[0] != SPLIT_MAGIC {
        None
    } else {
        let kind = s[1];
        let len = s[2] as int;
        let total = 4 + len;
        if s.len() < total {
            None
        } else {
            let payload = s.subrange(3, 3 + len);
            let crc = s[3 + len];
            if crc != spec_crc8(seq![kind, len as u8] + payload) {
                None
            } else if kind == SPLIT_KIND_KEY && len == 3 && payload[2] <= 1 {
                Some(
                    (
                        SplitMessage::Key(
                            KeyEvent { row: payload[0], col: payload[1], pressed: payload[2] == 1 },
                        ),
                        total,
                    ),
                )
            } else if kind == SPLIT_KIND_CONNECTION && len == 1 && payload[0] <= 1 {
                Some((SplitMessage::ConnectionState(payload[0] == 1), total))
            } else if kind == SPLIT_KIND_LED && len == 1 {
                Some((SplitMessage::LedIndicator(payload[0]), total))
            } else if kind == SPLIT_KIND_SYNC && len == 0 {
                Some((SplitMessage::SyncRequest, total))
            } else {
                None
            }
        }
    }
}

/// A frame parses back to the message it was built from.
pub proof fn lemma_split_round_trip(m: SplitMessage)
    ensures
        spec_parse_split(spec_encode_split(m)) == Some(
            (m, spec_encode_split(m).len() as int),
        ),
{
    let payload = spec_split_payload(m);
    let body = seq![spec_split_kind(m), payload.len() as u8] + payload;
    let enc = spec_encode_split(m);
    assert(enc.len() == 4 + payload.len());
    assert(enc[0] == SPLIT_MAGIC);
    assert(enc[1] == spec_split_kind(m));
    assert(enc[2] == payload.len() as u8);
    assert(enc.subrange(3, 3 + payload.len() as int) =~= payload);
    assert(enc[3 + payload.len() as int] == spec_crc8(body));
    assert(seq![spec_split_kind(m), payload.len() as u8] + enc.subrange(
        3,
        3 + payload.len() as int,
    ) =~= body);
    match m {
        SplitMessage::Key(ev) => {
            assert(payload[2] == if ev.pressed {
                1u8
            } else {
                0u8
            });
        },
        SplitMessage::ConnectionState(b) => {
        },
        SplitMessage::LedIndicator(_) => {
        },
        SplitMessage::SyncRequest => {
        },
    }
}

/// Build the frame of a message.
pub fn encode_split_message(m: &SplitMessage) -> (out: Vec<u8>)
    ensures
        out@ == spec_encode_split(*m),
{
    let mut payload: Vec<u8> = Vec::new();
    match m {
        SplitMessage::Key(ev) => {
            payload.push(ev.row);
            payload.push(ev.col);
            payload.push(
                if ev.pressed {
                    1
                } else {
                    0
                },
            );
        },
        SplitMessage::ConnectionState(b) => {
            payload.push(
                if *b {
                    1
                } else {
                    0
                },
            );
        },
        SplitMessage::LedIndicator(v) => {
            payload.push(*v);
        },
        SplitMessage::SyncRequest => {
        },
    }
    proof {
        assert(payload@ =~= spec_split_payload(*m));
    }
    let kind: u8 = match m {
        SplitMessage::Key(_) => SPLIT_KIND_KEY,
        SplitMessage::ConnectionState(_) => SPLIT_KIND_CONNECTION,
        SplitMessage::LedIndicator(_) => SPLIT_KIND_LED,
        SplitMessage::SyncRequest => SPLIT_KIND_SYNC,
    };
    let mut body: Vec<u8> = Vec::new();
    body.push(kind);
    body.push(payload.len() as u8);
    let mut i: usize = 0;
    while i < payload.len()
        invariant
            i <= payload@.len(),
            payload@.len() <= 3,
            body@ =~= seq![kind, payload@.len() as u8] + payload@.take(i as int),
        decreases payload.len() - i,
    {
        body.push(payload[i]);
        i = i + 1;
    }
    proof {
        assert(payload@.take(payload@.len() as int) =~= payload@);
    }
    let crc = crc8(&body);
    let mut out: Vec<u8> = Vec::new();
    out.push(SPLIT_MAGIC);
    let mut k: usize = 0;
    while k < body.len()
        invariant
            k <= body@.len(),
            out@ =~= seq![SPLIT_MAGIC] + body@.take(k as int),
        decreases body.len() - k,
    {
        out.push(body[k]);
        k = k + 1;
    }
    out.push(crc);
    proof {
        assert(body@.take(body@.len() as int) =~= body@);
        assert(out@ =~= spec_encode_split(*m));
    }
    out
}

/// Parse the frame at the head of `bytes`; see [`spec_parse_split`].
pub fn parse_split_message(bytes: &Vec<u8>) -> (r: Option<(SplitMessage, usize)>)
    ensures
        match spec_parse_split(bytes@) {
            Some((m, total)) => r == Some((m, total as usize)),
            None => r is None,
        },
{
    if bytes.len() < 4 {
        return None;
    }
    if bytes[0] != SPLIT_MAGIC {
        return None;
    }
    let kind = bytes[1];
    let len = bytes[2] as usize;
    if bytes.len() - 4 < len {
        return None;
    }
    let total = 4 + len;
    let mut body: Vec<u8> = Vec::new();
    body.push(kind);
    body.push(bytes[2]);
    let mut i: usize = 0;
    while i < len
        invariant
            i <= len,
            len <= 255,
            4 + len <= bytes@.len(),
            body@ =~= seq![bytes@[1], bytes@[2]] + bytes@.subrange(3, 3 + i as int),
        decreases len - i,
    {
        body.push(bytes[3 + i]);
        proof {
            assert(body@ =~= seq![bytes@[1], bytes@[2]] + bytes@.subrange(3, 3 + i + 1)) by {
                assert(forall|t: int|
                    0 <= t <= i ==> #[trigger] bytes@.subrange(3, 3 + i + 1)[t] == bytes@[3 + t]);
                assert(forall|t: int|
                    0 <= t < i ==> #[trigger] bytes@.subrange(3, 3 + i as int)[t] == bytes@[3 + t]);
            }
        }
        i = i + 1;
    }
    let crc = crc8(&body);
    if bytes[3 + len] != crc {
        return None;
    }
    if kind == SPLIT_KIND_KEY && len == 3 && bytes[5] <= 1 {
        proof {
            assert(bytes@.subrange(3, 6)[0] == bytes@[3]);
            assert(bytes@.subrange(3, 6)[1] == bytes@[4]);
            assert(bytes@.subrange(3, 6)[2] == bytes@[5]);
        }
        Some(
            (
                SplitMessage::Key(
                    KeyEvent { row: bytes[3], col: bytes[4], pressed: bytes[5] == 1 },
                ),
                total,
            ),
        )
    } else if kind == SPLIT_KIND_CONNECTION && len == 1 && bytes[3] <= 1 {
        proof {
            assert(bytes@.subrange(3, 4)[0] == bytes@[3]);
        }
        Some((SplitMessage::ConnectionState(bytes[3] == 1), total))
    } else if kind == SPLIT_KIND_LED && len == 1 {
        proof {
            assert(bytes@.subrange(3, 4)[0] == bytes@[3]);
        }
        Some((SplitMessage::LedIndicator(bytes[3]), total))
    } else if kind == SPLIT_KIND_SYNC && len == 0 {
        Some((SplitMessage::SyncRequest, total))
    } else {
        proof {
            if spec_parse_split(bytes@) is Some {
                assert(bytes@.subrange(3, 3 + len as int).len() == len);
                if kind == SPLIT_KIND_KEY && len == 3 {
                    assert(bytes@.subrange(3, 6)[2] == bytes@[5]);
                }
                if kind == SPLIT_KIND_CONNECTION && len == 1 {
                    assert(bytes@.subrange(3, 4)[0] == bytes@[3]);
                }
            }
        }
        None
    }
}

/// Translate a peripheral's local coordinates into the central's matrix
/// space; an event that would leave the matrix is dropped.
pub fn translate_peripheral_event(ev: KeyEvent, row_offset: u8, col_offset: u8) -> (r: Option<
    KeyEvent,
>)
    ensures
        if ev.row + row_offset <= 255 && ev.col + col_offset <= 255 {
            r == Some(
                KeyEvent {
                    row: (ev.row + row_offset) as u8,
                    col: (ev.col + col_offset) as u8,
                    pressed: ev.pressed,
                },
            )
        } else {
            r is None
        },
{
    if ev.row <= 255 - row_offset && ev.col <= 255 - col_offset {
        Some(KeyEvent { row: ev.row + row_offset, col: ev.col + col_offset, pressed: ev.pressed })
    } else {
        None
    }
}

/// The split peripheral's state machine: it scans its own matrix and
/// forwards key events, but only while the central has said the host
/// connection is up. The transport that moves the frames lives outside
/// and hands messages in and out.
pub struct SplitPeripheral {
    /// The last connection state the central broadcast.
    pub connected: bool,
}

impl SplitPeripheral {
    /// A fresh peripheral: not connected until the central says so.
    pub fn new() -> (r: SplitPeripheral)
        ensures
            !r.connected,
    {
        SplitPeripheral { connected: false }
    }

    /// Take note of a message from the central: only the connection
    /// broadcast changes anything.
    pub fn handle_central_message(&mut self, m: &SplitMessage)
        ensures
            final(self).connected == match *m {
                SplitMessage::ConnectionState(b) => b,
                _ => old(self).connected,
            },
    {
        match m {
            SplitMessage::ConnectionState(b) => {
                self.connected = *b;
            },
            _ => {
            },
        }
    }

    /// What to send for one local key event: the forwarded key message
    /// while connected, nothing while not.
    pub fn on_key_event(&self, ev: KeyEvent) -> (r: Option<SplitMessage>)
        ensures
            self.connected ==> r == Some(SplitMessage::Key(ev)),
            !self.connected ==> r is None,
    {
        if self.connected {
            Some(SplitMessage::Key(ev))
        } else {
            None
        }
    }
}

} // verus!
