//! The wear-aware storage log: typed records framed with a magic word, a
//! length and a checksum, appended to a rotating set of flash-like
//! sectors and replayed at boot, where later records supersede earlier
//! ones.
//!
//! At the wire level a record is a kind byte and a payload; the spec
//! functions here parse sectors into `(kind, payload)` pairs, and the
//! typed [`StorageRecord`] view sits on top of them.

use vstd::prelude::*;

verus! {

/// First magic byte of a record frame (the magic word 0xC0DE, little
/// endian).
pub const RECORD_MAGIC_0: u8 = 0xDE;

/// Second magic byte of a record frame.
pub const RECORD_MAGIC_1: u8 = 0xC0;

/// Frame overhead in bytes: magic (2), kind (1), length (2), checksum (2).
pub const RECORD_OVERHEAD: usize = 7;

/// Record kind of one keymap cell write.
pub const KIND_KEYMAP_CELL: u8 = 1;

/// Record kind of one stored macro.
pub const KIND_MACRO: u8 = 2;

/// Record kind of one configuration value.
pub const KIND_CONFIG: u8 = 3;

/// Record kind of the layout-options word.
pub const KIND_LAYOUT_OPTIONS: u8 = 4;

/// Record kind of a compaction snapshot.
pub const KIND_SNAPSHOT: u8 = 5;

/// One entry of the storage log.
#[derive(Clone, Debug, PartialEq, Eq)]
pub enum StorageRecord {
    /// One keymap cell holds the action with this wire code.
    KeymapCell { layer: u8, row: u8, col: u8, code: u16 },
    /// The macro slot `id` holds these bytes.
    MacroEntry { id: u8, data: Vec<u8> },
    /// A configuration key holds this value.
    Config { key: u8, value: u32 },
    /// The layout-options word.
    LayoutOptions { value: u32 },
    /// A compaction snapshot: keymap cells packed five bytes each;
    /// replay starts over from it.
    Snapshot { data: Vec<u8> },
}

/// The low byte of a sixteen-bit value.
pub open spec fn spec_lo16(v: u16) -> u8 {
    (v % 256) as u8
}

/// The high byte of a sixteen-bit value.
pub open spec fn spec_hi16(v: u16) -> u8 {
    (v / 256) as u8
}

/// The four little-endian bytes of a thirty-two-bit value.
pub open spec fn spec_le32(v: u32) -> Seq<u8> {
    seq![
        (v % 256) as u8,
        ((v / 256) % 256) as u8,
        ((v / 0x10000) % 256) as u8,
        (v / 0x1000000) as u8,
    ]
}

pub open spec fn spec_from_le32(b0: u8, b1: u8, b2: u8, b3: u8) -> u32 {
    (b0 + b1 * 256 + b2 * 0x10000 + b3 * 0x1000000) as u32
}

/// One shift step of the checksum register.
pub open spec fn spec_crc16_shift(c: u16) -> u16 {
    if c & 0x8000 != 0 {
        (c << 1) ^ 0x1021
    } else {
        c << 1
    }
}

/// `n` shift steps of the checksum register.
pub open spec fn spec_crc16_bits(c: u16, n: nat) -> u16
    decreases n,
{
    if n == 0 {
        c
    } else {
        spec_crc16_bits(spec_crc16_shift(c), (n - 1) as nat)
    }
}

/// Fold one byte into the checksum register.
pub open spec fn spec_crc16_step(c: u16, b: u8) -> u16 {
    spec_crc16_bits(c ^ ((b as u16) << 8), 8)
}

/// The checksum of a byte string: a sixteen-bit cyclic redundancy check
/// with polynomial 0x1021 and initial value 0xFFFF, bytes folded in
/// order.
pub open spec fn spec_crc16(s: Seq<u8>) -> u16
    decreases s.len(),
{
    if s.len() == 0 {
        0xFFFF
    } else {
        spec_crc16_step(spec_crc16(s.drop_last()), s.last())
    }
}

/// Compute the checksum of a byte string.
pub fn crc16(bytes: &Vec<u8>) -> (r: u16)
    ensures
        r == spec_crc16(bytes@),
{
    let mut c: u16 = 0xFFFF;
    let mut i: usize = 0;
    while i < bytes.len()
        invariant
            i <= bytes.len(),
            c == spec_crc16(bytes@.take(i as int)),
        decreases bytes.len() - i,
    {
        let b = bytes[i];
        let start: u16 = c ^ ((b as u16) << 8u16);
        let mut acc: u16 = start;
        let mut k: usize = 0;
        while k < 8
            invariant
                k <= 8,
                acc == spec_crc16_bits(start, k as nat),
            decreases 8 - k,
        {
            proof {
                lemma_crc16_bits_shift(start, k as nat);
            }
            acc = if acc & 0x8000 != 0 {
                (acc << 1u16) ^ 0x1021
            } else {
                acc << 1u16
            };
            k = k + 1;
        }
        proof {
            assert(bytes@.take(i + 1).drop_last() =~= bytes@.take(i as int));
            assert(bytes@.take(i + 1).last() == bytes@[i as int]);
        }
        c = acc;
        i = i + 1;
    }
    proof {
        assert(bytes@.take(bytes@.len() as int) =~= bytes@);
    }
    c
}

/// The kind byte of a record.
pub open spec fn spec_record_kind(r: StorageRecord) -> u8 {
    match r {
        StorageRecord::KeymapCell { .. } => KIND_KEYMAP_CELL,
        StorageRecord::MacroEntry { .. } => KIND_MACRO,
        StorageRecord::Config { .. } => KIND_CONFIG,
        StorageRecord::LayoutOptions { .. } => KIND_LAYOUT_OPTIONS,
        StorageRecord::Snapshot { .. } => KIND_SNAPSHOT,
    }
}

/// The payload bytes of a record.
pub open spec fn spec_record_payload(r: StorageRecord) -> Seq<u8> {
    match r {
        StorageRecord::KeymapCell { layer, row, col, code } => seq![
            layer,
            row,
            col,
            spec_lo16(code),
            spec_hi16(code),
        ],
        StorageRecord::MacroEntry { id, data } => seq![id] + data@,
        StorageRecord::Config { key, value } => seq![key] + spec_le32(value),
        StorageRecord::LayoutOptions { value } => spec_le32(value),
        StorageRecord::Snapshot { data } => data@,
    }
}

/// A record whose payload fits the frame's sixteen-bit length field.
pub open spec fn spec_record_wf(r: StorageRecord) -> bool {
    spec_record_payload(r).len() <= 0xFFFF
}

/// Whether a payload has the shape its kind demands. Only shaped records
/// are parsed back out of a sector.
pub open spec fn spec_payload_valid(kind: u8, payload: Seq<u8>) -> bool {
    if kind == KIND_KEYMAP_CELL {
        payload.len() == 5
    } else if kind == KIND_MACRO {
        payload.len() >= 1
    } else if kind == KIND_CONFIG {
        payload.len() == 5
    } else if kind == KIND_LAYOUT_OPTIONS {
        payload.len() == 4
    } else if kind == KIND_SNAPSHOT {
        true
    } else {
        false
    }
}

/// Every record the library writes is shaped.
pub proof fn lemma_record_payload_valid(r: StorageRecord)
    ensures
        spec_payload_valid(spec_record_kind(r), spec_record_payload(r)),
{
}

/// Whether a typed record reads the given kind and payload: this is what
/// parsing promises about the record it hands back.
pub open spec fn spec_record_matches(r: StorageRecord, kind: u8, payload: Seq<u8>) -> bool {
    spec_record_kind(r) == kind && spec_record_payload(r) == payload
}

/// What the checksum covers: the kind byte, the two length bytes and the
/// payload.
pub open spec fn spec_frame_body(kind: u8, payload: Seq<u8>) -> Seq<u8> {
    let len = payload.len() as u16;
    seq![kind, spec_lo16(len), spec_hi16(len)] + payload
}

/// The full frame of a record: magic word, kind, length, payload,
/// checksum.
pub open spec fn spec_encode_frame(kind: u8, payload: Seq<u8>) -> Seq<u8> {
    let len = payload.len() as u16;
    let crc = spec_crc16(spec_frame_body(kind, payload));
    seq![RECORD_MAGIC_0, RECORD_MAGIC_1, kind, spec_lo16(len), spec_hi16(len)] + payload + seq![
        spec_lo16(crc),
        spec_hi16(crc),
    ]
}

/// Parse one frame at offset `i` of a sector: `None` when the bytes
/// there are not a whole, shaped record with a good checksum; otherwise
/// the kind, the payload and the number of bytes the frame takes.
pub open spec fn spec_parse_frame_at(s: Seq<u8>, i: int) -> Option<((u8, Seq<u8>), int)> {
    if i < 0 || i + RECORD_OVERHEAD > s.len() {
        None
    } else if s[i] != RECORD_MAGIC_0 || s[i + 1] != RECORD_MAGIC_1 {
        None
    } else {
        let kind = s[i + 2];
        let len = s[i + 3] + 256 * s[i + 4];
        let total = RECORD_OVERHEAD + len;
        if i + total > s.len() {
            None
        } else {
            let payload = s.subrange(i + 5, i + 5 + len);
            let crc = s[i + 5 + len] + 256 * s[i + 6 + len];
            if crc != spec_crc16(spec_frame_body(kind, payload)) {
                None
            } else if !spec_payload_valid(kind, payload) {
                None
            } else {
                Some(((kind, payload), total))
            }
        }
    }
}

/// A frame written into a larger byte string parses back from it: the
/// parser reads exactly the frame's own bytes.
pub proof fn lemma_parse_encoded_frame(s: Seq<u8>, i: int, kind: u8, payload: Seq<u8>)
    requires
        payload.len() <= 0xFFFF,
        spec_payload_valid(kind, payload),
        0 <= i,
        i + spec_encode_frame(kind, payload).len() <= s.len(),
        s.subrange(i, i + spec_encode_frame(kind, payload).len()) == spec_encode_frame(
            kind,
            payload,
        ),
    ensures
        spec_parse_frame_at(s, i) == Some(((kind, payload), spec_encode_frame(kind, payload).len() as int)),
{
    let enc = spec_encode_frame(kind, payload);
    let n = enc.len() as int;
    let w = s.subrange(i, i + n);
    let len = payload.len() as int;
    let lenw = payload.len() as u16;
    let crc = spec_crc16(spec_frame_body(kind, payload));
    assert(forall|j: int| 0 <= j < n ==> #[trigger] w[j] == s[i + j]);
    assert(forall|j: int| 0 <= j < n ==> #[trigger] w[j] == enc[j]);
    assert(enc[0] == RECORD_MAGIC_0);
    assert(enc[1] == RECORD_MAGIC_1);
    assert(enc[2] == kind);
    assert(enc[3] == spec_lo16(lenw));
    assert(enc[4] == spec_hi16(lenw));
    assert(s[i + 0] == RECORD_MAGIC_0 && s[i + 1] == RECORD_MAGIC_1);
    assert(s[i + 2] == kind && s[i + 3] == spec_lo16(lenw) && s[i + 4] == spec_hi16(lenw));
    assert(spec_lo16(lenw) + 256 * spec_hi16(lenw) == len);
    assert(forall|j: int| 0 <= j < len ==> enc[5 + j] == #[trigger] payload[j]);
    assert(s.subrange(i + 5, i + 5 + len) =~= payload) by {
        assert(forall|j: int|
            0 <= j < len ==> #[trigger] s.subrange(i + 5, i + 5 + len)[j] == s[i + 5 + j]);
        assert(forall|j: int| 0 <= j < len ==> s[i + 5 + j] == #[trigger] w[5 + j]);
    }
    assert(enc[5 + len] == spec_lo16(crc));
    assert(enc[6 + len] == spec_hi16(crc));
    assert(s[i + 5 + len] == w[5 + len] && s[i + 6 + len] == w[6 + len]);
    assert(s[i + 5 + len] == spec_lo16(crc) && s[i + 6 + len] == spec_hi16(crc));
    assert(spec_lo16(crc) + 256 * spec_hi16(crc) == crc);
}

/// Shifting first and folding the remaining steps is the same as folding
/// first and shifting last: the checksum register's steps commute with
/// themselves.
proof fn lemma_crc16_bits_shift(c: u16, n: nat)
    ensures
        spec_crc16_bits(spec_crc16_shift(c), n) == spec_crc16_shift(spec_crc16_bits(c, n)),
    decreases n,
{
    if n > 0 {
        lemma_crc16_bits_shift(spec_crc16_shift(c), (n - 1) as nat);
    }
}

/// Build the frame of a record.
pub fn encode_record(r: &StorageRecord) -> (out: Vec<u8>)
    requires
        spec_record_wf(*r),
    ensures
        out@ == spec_encode_frame(spec_record_kind(*r), spec_record_payload(*r)),
        out@.len() == spec_record_payload(*r).len() + RECORD_OVERHEAD,
{
    let payload: Vec<u8> = record_payload_bytes(r);
    let kind: u8 = match r {
        StorageRecord::KeymapCell { .. } => KIND_KEYMAP_CELL,
        StorageRecord::MacroEntry { .. } => KIND_MACRO,
        StorageRecord::Config { .. } => KIND_CONFIG,
        StorageRecord::LayoutOptions { .. } => KIND_LAYOUT_OPTIONS,
        StorageRecord::Snapshot { .. } => KIND_SNAPSHOT,
    };
    let len: u16 = payload.len() as u16;
    let mut body: Vec<u8> = Vec::new();
    body.push(kind);
    body.push((len % 256) as u8);
    body.push((len / 256) as u8);
    let mut pi: usize = 0;
    while pi < payload.len()
        invariant
            pi <= payload.len(),
            body@ =~= seq![kind, spec_lo16(len as u16), spec_hi16(len as u16)] + payload@.take(
                pi as int,
            ),
            len == payload.len() as u16,
            payload@.len() <= 0xFFFF,
        decreases payload.len() - pi,
    {
        body.push(payload[pi]);
        pi = pi + 1;
    }
    proof {
        assert(payload@.take(payload@.len() as int) =~= payload@);
        assert(body@ =~= spec_frame_body(kind, payload@));
    }
    let crc = crc16(&body);
    let mut out: Vec<u8> = Vec::new();
    out.push(RECORD_MAGIC_0);
    out.push(RECORD_MAGIC_1);
    let mut bi: usize = 0;
    while bi < body.len()
        invariant
            bi <= body.len(),
            out@ =~= seq![RECORD_MAGIC_0, RECORD_MAGIC_1] + body@.take(bi as int),
        decreases body.len() - bi,
    {
        out.push(body[bi]);
        bi = bi + 1;
    }
    out.push((crc % 256) as u8);
    out.push((crc / 256) as u8);
    proof {
        assert(body@.take(body@.len() as int) =~= body@);
        assert(out@ =~= spec_encode_frame(spec_record_kind(*r), spec_record_payload(*r)));
    }
    out
}

/// The payload bytes of a record.
fn record_payload_bytes(r: &StorageRecord) -> (out: Vec<u8>)
    ensures
        out@ == spec_record_payload(*r),
{
    match r {
        StorageRecord::KeymapCell { layer, row, col, code } => {
            let mut v: Vec<u8> = Vec::new();
            v.push(*layer);
            v.push(*row);
            v.push(*col);
            v.push((*code % 256) as u8);
            v.push((*code / 256) as u8);
            proof {
                assert(v@ =~= spec_record_payload(*r));
            }
            v
        },
        StorageRecord::MacroEntry { id, data } => {
            let mut v: Vec<u8> = Vec::new();
            v.push(*id);
            let mut i: usize = 0;
            while i < data.len()
                invariant
                    i <= data.len(),
                    v@ =~= seq![*id] + data@.take(i as int),
                decreases data.len() - i,
            {
                v.push(data[i]);
                i = i + 1;
            }
            proof {
                assert(data@.take(data@.len() as int) =~= data@);
                assert(v@ =~= spec_record_payload(*r));
            }
            v
        },
        StorageRecord::Config { key, value } => {
            let mut v: Vec<u8> = Vec::new();
            v.push(*key);
            push_le32(&mut v, *value);
            proof {
                assert(v@ =~= spec_record_payload(*r));
            }
            v
        },
        StorageRecord::LayoutOptions { value } => {
            let mut v: Vec<u8> = Vec::new();
            push_le32(&mut v, *value);
            proof {
                assert(v@ =~= spec_record_payload(*r));
            }
            v
        },
        StorageRecord::Snapshot { data } => {
            let mut v: Vec<u8> = Vec::new();
            let mut i: usize = 0;
            while i < data.len()
                invariant
                    i <= data.len(),
                    v@ =~= data@.take(i as int),
                decreases data.len() - i,
            {
                v.push(data[i]);
                i = i + 1;
            }
            proof {
                assert(data@.take(data@.len() as int) =~= data@);
            }
            v
        },
    }
}

/// The records of a sector from offset `i` on: frames parsed one after
/// the other until the first offset where no whole, shaped record with a
/// good checksum lies.
pub open spec fn spec_parse_records(s: Seq<u8>, i: int) -> Seq<(u8, Seq<u8>)>
    decreases s.len() - i,
{
    match spec_parse_frame_at(s, i) {
        None => Seq::empty(),
        Some((kp, total)) => seq![kp] + spec_parse_records(s, i + total),
    }
}

/// The offset where parsing from `i` stops.
pub open spec fn spec_parse_end(s: Seq<u8>, i: int) -> int
    decreases s.len() - i,
{
    match spec_parse_frame_at(s, i) {
        None => i,
        Some((_, total)) => spec_parse_end(s, i + total),
    }
}

/// Parsing never stops before where it started.
pub proof fn lemma_parse_end_monotone(s: Seq<u8>, i: int)
    ensures
        spec_parse_end(s, i) >= i,
    decreases s.len() - i,
{
    match spec_parse_frame_at(s, i) {
        None => {
        },
        Some((_, total)) => {
            lemma_parse_end_monotone(s, i + total);
        },
    }
}

/// A parsed frame is read from its own bytes alone: two equally long
/// sectors that agree on the frame's bytes parse it the same.
proof fn lemma_parse_frame_stable(s1: Seq<u8>, s2: Seq<u8>, i: int, kp: (u8, Seq<u8>), total: int)
    requires
        s1.len() == s2.len(),
        spec_parse_frame_at(s1, i) == Some((kp, total)),
        forall|j: int| i <= j < i + total ==> s1[j] == #[trigger] s2[j],
    ensures
        spec_parse_frame_at(s2, i) == Some((kp, total)),
{
    let len = s1[i + 3] + 256 * s1[i + 4];
    assert(s2.subrange(i + 5, i + 5 + len) =~= s1.subrange(i + 5, i + 5 + len)) by {
        assert(forall|j: int|
            0 <= j < len ==> #[trigger] s2.subrange(i + 5, i + 5 + len)[j] == s2[i + 5 + j]);
        assert(forall|j: int|
            0 <= j < len ==> #[trigger] s1.subrange(i + 5, i + 5 + len)[j] == s1[i + 5 + j]);
    }
}

/// Writing beyond where parsing stops does not disturb what was already
/// there: the records of the changed sector are the old records followed
/// by whatever parses at the old stopping point.
proof fn lemma_parse_split(s1: Seq<u8>, s2: Seq<u8>, i: int)
    requires
        s1.len() == s2.len(),
        0 <= i,
        forall|j: int| i <= j < spec_parse_end(s1, i) ==> s1[j] == #[trigger] s2[j],
    ensures
        spec_parse_records(s2, i) == spec_parse_records(s1, i) + spec_parse_records(
            s2,
            spec_parse_end(s1, i),
        ),
        spec_parse_end(s2, i) == spec_parse_end(s2, spec_parse_end(s1, i)),
    decreases s1.len() - i,
{
    let u = spec_parse_end(s1, i);
    match spec_parse_frame_at(s1, i) {
        None => {
            assert(u == i);
            assert(spec_parse_records(s1, i) == Seq::<(u8, Seq<u8>)>::empty());
            assert(spec_parse_records(s2, i) =~= spec_parse_records(s1, i)
                + spec_parse_records(s2, i));
        },
        Some((kp, total)) => {
            lemma_parse_end_monotone(s1, i + total);
            lemma_parse_frame_stable(s1, s2, i, kp, total);
            lemma_parse_split(s1, s2, i + total);
            assert(spec_parse_records(s2, i) =~= spec_parse_records(s1, i) + spec_parse_records(
                s2,
                u,
            ));
        },
    }
}

/// Nothing parses inside erased bytes: at an offset holding 0xFF (or too
/// near the end for a frame) parsing stops at once.
pub proof fn lemma_parse_erased(s: Seq<u8>, i: int)
    requires
        0 <= i,
        i + RECORD_OVERHEAD > s.len() || s[i] == 0xFF,
    ensures
        spec_parse_records(s, i) == Seq::<(u8, Seq<u8>)>::empty(),
        spec_parse_end(s, i) == i,
{
}

/// Appending one encoded record to a sector extends its record chain by
/// exactly that record: the bytes before the old stopping point keep
/// their parse, the new frame parses at the stopping point, and the
/// erased bytes after it stop the parse again.
pub proof fn lemma_append_record(s1: Seq<u8>, s2: Seq<u8>, kind: u8, payload: Seq<u8>)
    requires
        s1.len() == s2.len(),
        payload.len() <= 0xFFFF,
        spec_payload_valid(kind, payload),
        ({
            let u = spec_parse_end(s1, 0);
            let n = spec_encode_frame(kind, payload).len() as int;
            &&& 0 <= u
            &&& u + n <= s1.len()
            &&& forall|j: int| 0 <= j < u ==> s1[j] == #[trigger] s2[j]
            &&& s2.subrange(u, u + n) == spec_encode_frame(kind, payload)
            &&& forall|j: int| u + n <= j < s2.len() ==> #[trigger] s2[j] == 0xFF
        }),
    ensures
        spec_parse_records(s2, 0) == spec_parse_records(s1, 0) + seq![(kind, payload)],
        spec_parse_end(s2, 0) == spec_parse_end(s1, 0) + spec_encode_frame(kind, payload).len(),
{
    let u = spec_parse_end(s1, 0);
    let n = spec_encode_frame(kind, payload).len() as int;
    lemma_parse_end_monotone(s1, 0);
    lemma_parse_split(s1, s2, 0);
    lemma_parse_encoded_frame(s2, u, kind, payload);
    if u + n + RECORD_OVERHEAD <= s2.len() {
        assert(s2[u + n] == 0xFF);
    }
    lemma_parse_erased(s2, u + n);
    assert(spec_parse_records(s2, u) =~= seq![(kind, payload)]);
    assert(spec_parse_records(s2, 0) =~= spec_parse_records(s1, 0) + seq![(kind, payload)]);
}

/// A storage failure.
#[derive(Clone, Copy, Debug, PartialEq, Eq, Structural)]
pub enum StorageError {
    /// The flash driver cannot be reached; raised by the transport that
    /// mirrors these sectors, never by the in-memory log itself.
    FlashUnreachable,
    /// A record's checksum failed.
    BadCrc,
    /// The record does not fit in a sector, or the next sector is not
    /// free.
    OutOfSpace,
}

/// The wear-aware log: a rotating set of equally sized sectors, one of
/// them active. Appends go to the active sector's write cursor; a record
/// that does not fit advances to the next (erased) sector.
pub struct Storage {
    /// The sector contents; erased bytes read 0xFF.
    pub sectors: Vec<Vec<u8>>,
    /// Which sector appends go to.
    pub active: usize,
    /// The write offset inside the active sector.
    pub cursor: usize,
}

impl Storage {
    /// The size of every sector.
    pub open spec fn spec_sector_size(&self) -> int {
        self.sectors[0]@.len() as int
    }

    /// Shape invariant: at least two equally sized sectors, a cursor that
    /// sits exactly where the active sector's record chain stops, and
    /// nothing but erased bytes after it.
    pub open spec fn wf(&self) -> bool {
        &&& self.sectors.len() >= 2
        &&& self.spec_sector_size() >= RECORD_OVERHEAD
        &&& forall|k: int|
            0 <= k < self.sectors.len() ==> #[trigger] self.sectors[k]@.len()
                == self.spec_sector_size()
        &&& self.active < self.sectors.len()
        &&& self.cursor <= self.spec_sector_size()
        &&& self.cursor == spec_parse_end(self.sectors[self.active as int]@, 0)
        &&& forall|j: int|
            self.cursor <= j < self.spec_sector_size() ==> #[trigger] self.sectors[self.active as int]@[j]
                == 0xFF
    }

    /// The records the active sector holds.
    pub open spec fn spec_active_records(&self) -> Seq<(u8, Seq<u8>)> {
        spec_parse_records(self.sectors[self.active as int]@, 0)
    }

    /// The sector an append that does not fit rolls into.
    pub open spec fn spec_next_sector(&self) -> int {
        if self.active + 1 < self.sectors.len() {
            self.active as int + 1
        } else {
            0
        }
    }

    /// Whether every byte of sector `k` is erased.
    pub open spec fn spec_sector_erased(&self, k: int) -> bool {
        forall|j: int| 0 <= j < self.sectors[k]@.len() ==> #[trigger] self.sectors[k]@[j] == 0xFF
    }

    /// A fresh log: every sector erased, writing starts in sector 0.
    pub fn new(sector_count: usize, sector_size: usize) -> (r: Storage)
        requires
            sector_count >= 2,
            sector_size >= RECORD_OVERHEAD,
        ensures
            r.wf(),
            r.sectors.len() == sector_count,
            r.spec_sector_size() == sector_size,
            r.active == 0,
            r.spec_active_records() == Seq::<(u8, Seq<u8>)>::empty(),
    {
        let mut sectors: Vec<Vec<u8>> = Vec::new();
        let mut k: usize = 0;
        while k < sector_count
            invariant
                k <= sector_count,
                sectors.len() == k,
                forall|t: int| 0 <= t < k ==> #[trigger] sectors[t]@.len() == sector_size,
                forall|t: int, j: int|
                    0 <= t < k && 0 <= j < sector_size ==> #[trigger] sectors[t]@[j] == 0xFF,
            decreases sector_count - k,
        {
            let mut sector: Vec<u8> = Vec::new();
            let mut j: usize = 0;
            while j < sector_size
                invariant
                    j <= sector_size,
                    sector.len() == j,
                    forall|t: int| 0 <= t < j ==> #[trigger] sector@[t] == 0xFF,
                decreases sector_size - j,
            {
                sector.push(0xFF);
                j = j + 1;
            }
            sectors.push(sector);
            k = k + 1;
        }
        let r = Storage { sectors, active: 0, cursor: 0 };
        proof {
            lemma_parse_erased(r.sectors[0]@, 0);
        }
        r
    }

    /// How many bytes are still free in the active sector.
    pub fn remaining(&self) -> (r: usize)
        requires
            self.wf(),
        ensures
            r == self.spec_sector_size() - self.cursor,
    {
        let size = self.sectors[self.active].len();
        size - self.cursor
    }

    /// Whether fewer than `min_free` bytes remain in the active sector,
    /// the signal to compact.
    pub fn needs_compaction(&self, min_free: usize) -> (r: bool)
        requires
            self.wf(),
        ensures
            r == (self.spec_sector_size() - self.cursor < min_free),
    {
        self.remaining() < min_free
    }

    /// Erase one sector to 0xFF.
    fn erase_sector(&mut self, k: usize)
        requires
            k < old(self).sectors.len(),
        ensures
            final(self).sectors.len() == old(self).sectors.len(),
            final(self).active == old(self).active,
            final(self).cursor == old(self).cursor,
            final(self).sectors[k as int]@.len() == old(self).sectors[k as int]@.len(),
            forall|j: int|
                0 <= j < old(self).sectors[k as int]@.len() ==> #[trigger] final(self).sectors[k as int]@[j] == 0xFF,
            forall|t: int|
                0 <= t < old(self).sectors.len() && t != k ==> #[trigger] final(self).sectors[t]
                    == old(self).sectors[t],
    {
        let size = self.sectors[k].len();
        let mut j: usize = 0;
        while j < size
            invariant
                j <= size,
                k < self.sectors.len(),
                self.sectors.len() == old(self).sectors.len(),
                self.active == old(self).active,
                self.cursor == old(self).cursor,
                size == self.sectors[k as int]@.len(),
                self.sectors[k as int]@.len() == old(self).sectors[k as int]@.len(),
                forall|t: int| 0 <= t < j ==> #[trigger] self.sectors[k as int]@[t] == 0xFF,
                forall|t: int|
                    0 <= t < self.sectors.len() && t != k ==> #[trigger] self.sectors[t] == old(
                        self,
                    ).sectors[t],
            decreases size - j,
        {
            self.sectors[k].set(j, 0xFF);
            j = j + 1;
        }
    }

    /// Write the frame bytes at the active sector's cursor; the caller
    /// has checked that they fit.
    fn write_at_cursor(&mut self, enc: &Vec<u8>)
        requires
            old(self).wf(),
            old(self).cursor + enc@.len() <= old(self).spec_sector_size(),
        ensures
            final(self).sectors.len() == old(self).sectors.len(),
            final(self).active == old(self).active,
            final(self).cursor == old(self).cursor,
            final(self).sectors[final(self).active as int]@.len() == old(self).spec_sector_size(),
            forall|j: int|
                0 <= j < old(self).cursor ==> #[trigger] final(self).sectors[final(self).active as int]@[j] == old(self).sectors[old(self).active as int]@[j],
            final(self).sectors[final(self).active as int]@.subrange(
                old(self).cursor as int,
                old(self).cursor + enc@.len(),
            ) == enc@,
            forall|j: int|
                old(self).cursor + enc@.len() <= j < old(self).spec_sector_size()
                    ==> #[trigger] final(self).sectors[final(self).active as int]@[j] == old(self).sectors[old(self).active as int]@[j],
            forall|t: int|
                0 <= t < old(self).sectors.len() && t != old(self).active
                    ==> #[trigger] final(self).sectors[t] == old(self).sectors[t],
    {
        let a = self.active;
        let cur = self.cursor;
        let size = self.sectors[a].len();
        let mut j: usize = 0;
        while j < enc.len()
            invariant
                j <= enc@.len(),
                a < self.sectors.len(),
                size == self.sectors[a as int]@.len(),
                cur + enc@.len() <= size,
                a == old(self).active,
                cur == old(self).cursor,
                cur + enc@.len() <= self.sectors[a as int]@.len(),
                self.sectors.len() == old(self).sectors.len(),
                self.active == old(self).active,
                self.cursor == old(self).cursor,
                self.sectors[a as int]@.len() == old(self).sectors[a as int]@.len(),
                old(self).wf(),
                forall|t: int|
                    0 <= t < cur ==> #[trigger] self.sectors[a as int]@[t] == old(
                        self,
                    ).sectors[a as int]@[t],
                forall|t: int|
                    0 <= t < j ==> #[trigger] self.sectors[a as int]@[cur + t] == enc@[t],
                forall|t: int|
                    cur + j <= t < self.sectors[a as int]@.len()
                        ==> #[trigger] self.sectors[a as int]@[t] == old(
                        self,
                    ).sectors[a as int]@[t],
                forall|t: int|
                    0 <= t < self.sectors.len() && t != a ==> #[trigger] self.sectors[t] == old(
                        self,
                    ).sectors[t],
            decreases enc@.len() - j,
        {
            self.sectors[a].set(cur + j, enc[j]);
            j = j + 1;
        }
        proof {
            assert(self.sectors[a as int]@.subrange(cur as int, cur + enc@.len()) =~= enc@) by {
                assert(forall|t: int|
                    0 <= t < enc@.len() ==> #[trigger] self.sectors[a as int]@.subrange(
                        cur as int,
                        cur + enc@.len(),
                    )[t] == self.sectors[a as int]@[cur + t]);
            }
        }
    }

    /// Append one record to the log. A record that still fits in the
    /// active sector lands at the cursor; one that does not advances to
    /// the next sector — which must be erased — and lands at its start;
    /// records never straddle a sector boundary. A record too large for
    /// any sector, or an occupied next sector, is `OutOfSpace`, and the
    /// log is unchanged.
    pub fn append(&mut self, r: &StorageRecord) -> (res: Result<(), StorageError>)
        requires
            old(self).wf(),
            spec_record_wf(*r),
        ensures
            final(self).wf(),
            final(self).sectors.len() == old(self).sectors.len(),
            final(self).spec_sector_size() == old(self).spec_sector_size(),
            match res {
                Ok(()) => final(self).spec_active_records() == if old(self).cursor
                    + spec_record_payload(*r).len() + RECORD_OVERHEAD <= old(self).spec_sector_size() {
                    old(self).spec_active_records().push(
                        (spec_record_kind(*r), spec_record_payload(*r)),
                    )
                } else {
                    seq![(spec_record_kind(*r), spec_record_payload(*r))]
                },
                Err(e) => e == StorageError::OutOfSpace && *final(self) == *old(self),
            },
            res is Err <==> spec_record_payload(*r).len() + RECORD_OVERHEAD > old(
                self,
            ).spec_sector_size() || (old(self).cursor + spec_record_payload(*r).len()
                + RECORD_OVERHEAD > old(self).spec_sector_size() && !old(self).spec_sector_erased(
                old(self).spec_next_sector(),
            )),
    {
        let enc = encode_record(r);
        let size = self.sectors[self.active].len();
        if enc.len() > size {
            return Err(StorageError::OutOfSpace);
        }
        if enc.len() <= size - self.cursor {
            let ghost s1 = self.sectors[self.active as int]@;
            self.write_at_cursor(&enc);
            proof {
                let s2 = self.sectors[self.active as int]@;
                lemma_record_payload_valid(*r);
                lemma_append_record(s1, s2, spec_record_kind(*r), spec_record_payload(*r));
            }
            self.cursor = self.cursor + enc.len();
            Ok(())
        } else {
            let next = if self.active + 1 < self.sectors.len() {
                self.active + 1
            } else {
                0
            };
            if !self.sector_is_erased(next) {
                return Err(StorageError::OutOfSpace);
            }
            self.erase_sector(next);
            self.active = next;
            self.cursor = 0;
            proof {
                lemma_parse_erased(self.sectors[next as int]@, 0);
            }
            let ghost s1 = self.sectors[self.active as int]@;
            self.write_at_cursor(&enc);
            proof {
                let s2 = self.sectors[self.active as int]@;
                lemma_record_payload_valid(*r);
                lemma_append_record(s1, s2, spec_record_kind(*r), spec_record_payload(*r));
                assert(spec_parse_records(s1, 0) =~= Seq::<(u8, Seq<u8>)>::empty());
            }
            self.cursor = enc.len();
            Ok(())
        }
    }

    /// Whether every byte of a sector is erased.
    fn sector_is_erased(&self, k: usize) -> (r: bool)
        requires
            k < self.sectors.len(),
        ensures
            r == forall|j: int|
                0 <= j < self.sectors[k as int]@.len() ==> #[trigger] self.sectors[k as int]@[j]
                    == 0xFF,
    {
        let size = self.sectors[k].len();
        let mut j: usize = 0;
        while j < size
            invariant
                j <= size,
                k < self.sectors.len(),
                size == self.sectors[k as int]@.len(),
                forall|t: int| 0 <= t < j ==> #[trigger] self.sectors[k as int]@[t] == 0xFF,
            decreases size - j,
        {
            if self.sectors[k][j] != 0xFF {
                return false;
            }
            j = j + 1;
        }
        true
    }

    /// Compact: write one snapshot record — the whole live state — as
    /// the first record of the next sector, make that sector active, and
    /// erase every other sector. A snapshot too large for a sector is
    /// `OutOfSpace`, and the log is unchanged.
    pub fn compact(&mut self, snapshot: &StorageRecord) -> (res: Result<(), StorageError>)
        requires
            old(self).wf(),
            spec_record_wf(*snapshot),
        ensures
            final(self).wf(),
            final(self).sectors.len() == old(self).sectors.len(),
            final(self).spec_sector_size() == old(self).spec_sector_size(),
            match res {
                Ok(()) => final(self).spec_active_records() == seq![
                    (spec_record_kind(*snapshot), spec_record_payload(*snapshot)),
                ],
                Err(e) => e == StorageError::OutOfSpace && *final(self) == *old(self),
            },
            res is Err <==> spec_record_payload(*snapshot).len() + RECORD_OVERHEAD > old(
                self,
            ).spec_sector_size(),
    {
        let enc = encode_record(snapshot);
        let size = self.sectors[self.active].len();
        if enc.len() > size {
            return Err(StorageError::OutOfSpace);
        }
        let next = if self.active + 1 < self.sectors.len() {
            self.active + 1
        } else {
            0
        };
        let mut k: usize = 0;
        let n = self.sectors.len();
        while k < n
            invariant
                k <= n,
                next < n,
                n == self.sectors.len(),
                self.sectors.len() == old(self).sectors.len(),
                self.active == old(self).active,
                self.cursor == old(self).cursor,
                forall|t: int|
                    0 <= t < n ==> #[trigger] self.sectors[t]@.len() == old(
                        self,
                    ).spec_sector_size(),
                forall|t: int, j: int|
                    0 <= t < k && 0 <= j < self.sectors[t]@.len() && t != next
                        ==> #[trigger] self.sectors[t]@[j] == 0xFF,
                self.sectors[next as int] == old(self).sectors[next as int],
                old(self).wf(),
            decreases n - k,
        {
            if k != next {
                self.erase_sector(k);
            }
            k = k + 1;
        }
        self.erase_sector(next);
        self.active = next;
        self.cursor = 0;
        proof {
            lemma_parse_erased(self.sectors[next as int]@, 0);
        }
        let ghost s1 = self.sectors[self.active as int]@;
        self.write_at_cursor(&enc);
        proof {
            let s2 = self.sectors[self.active as int]@;
            lemma_record_payload_valid(*snapshot);
            lemma_append_record(s1, s2, spec_record_kind(*snapshot), spec_record_payload(*snapshot));
            assert(spec_parse_records(s1, 0) =~= Seq::<(u8, Seq<u8>)>::empty());
        }
        self.cursor = enc.len();
        Ok(())
    }
}

/// Parse one frame at offset `i`, handing back the typed record and the
/// frame's size; `None` exactly where [`spec_parse_frame_at`] parses
/// nothing.
pub fn parse_frame_at(s: &Vec<u8>, i: usize) -> (r: Option<(StorageRecord, usize)>)
    ensures
        match spec_parse_frame_at(s@, i as int) {
            None => r is None,
            Some((kp, total)) => {
                &&& r is Some
                &&& r->Some_0.1 == total
                &&& spec_record_matches(r->Some_0.0, kp.0, kp.1)
            },
        },
{
    if s.len() < RECORD_OVERHEAD || i > s.len() - RECORD_OVERHEAD {
        return None;
    }
    if s[i] != RECORD_MAGIC_0 || s[i + 1] != RECORD_MAGIC_1 {
        return None;
    }
    let kind = s[i + 2];
    let len: usize = s[i + 3] as usize + 256 * (s[i + 4] as usize);
    if len > s.len() - i - RECORD_OVERHEAD {
        return None;
    }
    let total = RECORD_OVERHEAD + len;
    let slen = s.len();
    let mut payload: Vec<u8> = Vec::new();
    let mut j: usize = 0;
    while j < len
        invariant
            j <= len,
            slen == s@.len(),
            i + RECORD_OVERHEAD + len <= slen,
            payload@ =~= s@.subrange(i + 5, i + 5 + j),
        decreases len - j,
    {
        payload.push(s[i + 5 + j]);
        proof {
            assert(payload@ =~= s@.subrange(i + 5, i + 5 + j + 1)) by {
                assert(forall|t: int|
                    0 <= t <= j ==> #[trigger] s@.subrange(i + 5, i + 5 + j + 1)[t] == s@[i + 5
                        + t]);
                assert(forall|t: int|
                    0 <= t < j ==> #[trigger] s@.subrange(i + 5, i + 5 + j)[t] == s@[i + 5 + t]);
            }
        }
        j = j + 1;
    }
    let mut body: Vec<u8> = Vec::new();
    body.push(kind);
    body.push(s[i + 3]);
    body.push(s[i + 4]);
    let mut t: usize = 0;
    while t < payload.len()
        invariant
            t <= payload.len(),
            slen == s@.len(),
            i + RECORD_OVERHEAD + len <= slen,
            payload@.len() == len,
            body@ =~= seq![kind, s@[i + 3], s@[i + 4]] + payload@.take(t as int),
        decreases payload.len() - t,
    {
        body.push(payload[t]);
        t = t + 1;
    }
    proof {
        assert(payload@.take(payload@.len() as int) =~= payload@);
        assert(s@[i + 3] == spec_lo16((payload@.len() as u16)) && s@[i + 4] == spec_hi16(
            (payload@.len() as u16),
        )) by {
            assert(len == s@[i + 3] + 256 * s@[i + 4]);
        }
        assert(body@ =~= spec_frame_body(kind, payload@));
    }
    let crc = crc16(&body);
    let stored: u16 = s[i + 5 + len] as u16 + 256 * (s[i + 6 + len] as u16);
    if stored != crc {
        return None;
    }
    let rec: StorageRecord = if kind == KIND_KEYMAP_CELL {
        if payload.len() != 5 {
            return None;
        }
        let code: u16 = payload[3] as u16 + 256 * (payload[4] as u16);
        let r = StorageRecord::KeymapCell {
            layer: payload[0],
            row: payload[1],
            col: payload[2],
            code,
        };
        proof {
            assert(spec_record_payload(r) =~= payload@);
        }
        r
    } else if kind == KIND_MACRO {
        if payload.len() < 1 {
            return None;
        }
        let id = payload[0];
        let mut data = payload;
        let _ = data.remove(0);
        let r = StorageRecord::MacroEntry { id, data };
        proof {
            assert(spec_record_payload(r) =~= seq![id] + payload@.remove(0));
            assert(seq![id] + payload@.remove(0) =~= payload@);
        }
        r
    } else if kind == KIND_CONFIG {
        if payload.len() != 5 {
            return None;
        }
        let value = from_le32(payload[1], payload[2], payload[3], payload[4]);
        let r = StorageRecord::Config { key: payload[0], value };
        proof {
            assert(spec_record_payload(r) =~= payload@);
        }
        r
    } else if kind == KIND_LAYOUT_OPTIONS {
        if payload.len() != 4 {
            return None;
        }
        let value = from_le32(payload[0], payload[1], payload[2], payload[3]);
        let r = StorageRecord::LayoutOptions { value };
        proof {
            assert(spec_record_payload(r) =~= payload@);
        }
        r
    } else if kind == KIND_SNAPSHOT {
        StorageRecord::Snapshot { data: payload }
    } else {
        return None;
    };
    Some((rec, total))
}

/// Reassemble a value from its four little-endian bytes.
fn from_le32(b0: u8, b1: u8, b2: u8, b3: u8) -> (r: u32)
    ensures
        r == spec_from_le32(b0, b1, b2, b3),
        spec_le32(r) == seq![b0, b1, b2, b3],
{
    let r = b0 as u32 + 256 * (b1 as u32) + 0x10000 * (b2 as u32) + 0x1000000 * (b3 as u32);
    proof {
        assert(spec_le32(r) =~= seq![b0, b1, b2, b3]) by {
            assert(r == b0 + b1 * 256 + b2 * 0x10000 + b3 * 0x1000000);
            assert(r % 256 == b0 && (r / 256) % 256 == b1 && (r / 0x10000) % 256 == b2 && r
                / 0x1000000 == b3) by (nonlinear_arith)
                requires
                    r == b0 + b1 * 256 + b2 * 0x10000 + b3 * 0x1000000,
                    b0 < 256 && b1 < 256 && b2 < 256 && b3 < 256,
            ;
        }
    }
    r
}

/// Parse a whole sector: the records of its chain and the offset where
/// the chain stops.
pub fn parse_sector_records(s: &Vec<u8>) -> (r: (Vec<StorageRecord>, usize))
    ensures
        r.1 == spec_parse_end(s@, 0),
        r.0@.len() == spec_parse_records(s@, 0).len(),
        forall|t: int|
            0 <= t < r.0@.len() ==> spec_record_matches(
                #[trigger] r.0@[t],
                spec_parse_records(s@, 0)[t].0,
                spec_parse_records(s@, 0)[t].1,
            ),
{
    let mut recs: Vec<StorageRecord> = Vec::new();
    let ghost all = spec_parse_records(s@, 0);
    let slen = s.len();
    let mut off: usize = 0;
    loop
        invariant
            slen == s@.len(),
            off <= slen,
            all == spec_parse_records(s@, 0),
            spec_parse_end(s@, 0) == spec_parse_end(s@, off as int),
            all =~= spec_parse_records(s@, 0).take(recs@.len() as int) + spec_parse_records(
                s@,
                off as int,
            ),
            recs@.len() <= all.len(),
            forall|t: int|
                0 <= t < recs@.len() ==> spec_record_matches(
                    #[trigger] recs@[t],
                    all[t].0,
                    all[t].1,
                ),
        ensures
            off == spec_parse_end(s@, 0),
            recs@.len() == all.len(),
            forall|t: int|
                0 <= t < recs@.len() ==> spec_record_matches(
                    #[trigger] recs@[t],
                    all[t].0,
                    all[t].1,
                ),
        decreases s@.len() - off,
    {
        match parse_frame_at(s, off) {
            None => {
                proof {
                    assert(spec_parse_records(s@, off as int) =~= Seq::<(u8, Seq<u8>)>::empty());
                    assert(all =~= spec_parse_records(s@, 0).take(recs@.len() as int));
                    assert(recs@.len() == all.len());
                }
                break ;
            },
            Some((rec, consumed)) => {
                proof {
                    let kp = spec_parse_frame_at(s@, off as int)->Some_0.0;
                    assert(spec_parse_records(s@, off as int) == seq![kp] + spec_parse_records(
                        s@,
                        off + consumed,
                    ));
                    assert(all[recs@.len() as int] == kp);
                    lemma_parse_end_monotone(s@, off + consumed);
                    assert(off + consumed <= slen);
                }
                recs.push(rec);
                off = off + consumed;
                proof {
                    assert(all =~= spec_parse_records(s@, 0).take(recs@.len() as int)
                        + spec_parse_records(s@, off as int));
                }
            },
        }
    }
    (recs, off)
}

/// Append the four little-endian bytes of a value.
fn push_le32(v: &mut Vec<u8>, value: u32)
    ensures
        final(v)@ == old(v)@ + spec_le32(value),
{
    v.push((value % 256) as u8);
    v.push(((value / 256) % 256) as u8);
    v.push(((value / 0x10000) % 256) as u8);
    v.push((value / 0x1000000) as u8);
    proof {
        assert(v@ =~= old(v)@ + spec_le32(value));
    }
}

} // verus!
