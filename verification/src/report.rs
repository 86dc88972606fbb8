//! HID reports: the boot keyboard report with its six-key rollover cap,
//! and the composite report that carries mouse, consumer and system usages.
//!
//! The byte form of the composite sub-reports is produced by the same
//! serializer the transport uses, behind trusted wrappers whose contracts
//! state the exact bytes.

use vstd::prelude::*;
use crate::action::spec_i8_to_byte;

verus! {

/// A boot keyboard report: one modifier byte and up to six concurrently
/// pressed keys. A slot holding 0 is empty.
#[derive(Clone, Copy, Debug, PartialEq, Eq)]
pub struct KeyboardReport {
    /// The HID modifier byte.
    pub modifier: u8,
    /// The pressed non-modifier keys; 0 marks an empty slot.
    pub keys: [u8; 6],
}

/// The first slot at or after `i` holding `target`, if any.
pub open spec fn spec_find_slot(keys: [u8; 6], target: u8, i: int) -> Option<int>
    decreases 6 - i,
{
    if i < 0 || i >= 6 {
        None
    } else if keys[i] == target {
        Some(i)
    } else {
        spec_find_slot(keys, target, i + 1)
    }
}

/// Slot `t` after writing `kc` into slot `j`.
pub open spec fn spec_slot_with(keys: [u8; 6], j: int, kc: u8, t: int) -> u8 {
    if t == j {
        kc
    } else {
        keys[t]
    }
}

/// The six slots after writing `kc` into slot `j`.
pub open spec fn spec_keys_with(keys: [u8; 6], j: int, kc: u8) -> [u8; 6] {
    [
        spec_slot_with(keys, j, kc, 0),
        spec_slot_with(keys, j, kc, 1),
        spec_slot_with(keys, j, kc, 2),
        spec_slot_with(keys, j, kc, 3),
        spec_slot_with(keys, j, kc, 4),
        spec_slot_with(keys, j, kc, 5),
    ]
}

/// What adding a pressed key does: a key already present changes nothing;
/// otherwise it takes the first empty slot; with no empty slot the press
/// is dropped.
pub open spec fn spec_register_key(rep: KeyboardReport, kc: u8) -> KeyboardReport {
    if spec_find_slot(rep.keys, kc, 0) is Some {
        rep
    } else {
        match spec_find_slot(rep.keys, 0, 0) {
            Some(j) => KeyboardReport {
                modifier: rep.modifier,
                keys: spec_keys_with(rep.keys, j, kc),
            },
            None => rep,
        }
    }
}

/// Slot `i` after removing key `kc`.
pub open spec fn spec_slot_without(keys: [u8; 6], kc: u8, i: int) -> u8 {
    if keys[i] == kc {
        0
    } else {
        keys[i]
    }
}

/// Where the first slot holding `target` at or after `i` lies, and that
/// no earlier slot from `i` on holds it.
pub proof fn lemma_find_slot(keys: [u8; 6], target: u8, i: int)
    requires
        0 <= i <= 6,
    ensures
        (spec_find_slot(keys, target, i) is Some <==> exists|j: int|
            i <= j < 6 && keys[j] == target),
        match spec_find_slot(keys, target, i) {
            Some(j) => i <= j < 6 && keys[j] == target && forall|t: int|
                i <= t < j ==> keys[t] != target,
            None => true,
        },
    decreases 6 - i,
{
    if i < 6 {
        lemma_find_slot(keys, target, i + 1);
        if keys[i] == target {
            assert(keys[i] == target);
        }
    }
}

/// What removing a released key does: every slot holding it is emptied.
pub open spec fn spec_deregister_key(rep: KeyboardReport, kc: u8) -> KeyboardReport {
    KeyboardReport {
        modifier: rep.modifier,
        keys: [
            spec_slot_without(rep.keys, kc, 0),
            spec_slot_without(rep.keys, kc, 1),
            spec_slot_without(rep.keys, kc, 2),
            spec_slot_without(rep.keys, kc, 3),
            spec_slot_without(rep.keys, kc, 4),
            spec_slot_without(rep.keys, kc, 5),
        ],
    }
}

impl KeyboardReport {
    /// No key is in two slots: a report never carries a phantom repeat.
    pub open spec fn wf(&self) -> bool {
        forall|i: int, j: int|
            0 <= i < 6 && 0 <= j < 6 && i != j && self.keys[i] != 0 ==> self.keys[i]
                != self.keys[j]
    }

    /// Whether key `kc` is in the report.
    pub open spec fn spec_contains(&self, kc: u8) -> bool {
        exists|i: int| 0 <= i < 6 && self.keys[i] == kc
    }

    /// How many slots are taken.
    pub open spec fn spec_key_count(&self) -> int {
        Set::new(|i: int| 0 <= i < 6 && self.keys[i] != 0).len() as int
    }

    /// The empty report: no modifiers, no keys.
    pub fn new() -> (r: KeyboardReport)
        ensures
            r.wf(),
            r.modifier == 0,
            forall|i: int| 0 <= i < 6 ==> r.keys[i] == 0,
    {
        KeyboardReport { modifier: 0, keys: [0, 0, 0, 0, 0, 0] }
    }

    /// Whether key `kc` is in the report.
    pub fn contains(&self, kc: u8) -> (r: bool)
        ensures
            r == self.spec_contains(kc),
    {
        let mut i: usize = 0;
        while i < 6
            invariant
                i <= 6,
                forall|j: int| 0 <= j < i ==> self.keys[j] != kc,
            decreases 6 - i,
        {
            if self.keys[i] == kc {
                return true;
            }
            i = i + 1;
        }
        false
    }

    /// Add a pressed key. A key already present stays where it is; a new
    /// key takes the first empty slot; with all six slots taken the press
    /// is silently dropped — the report never grows past six keys and
    /// never reports a phantom.
    pub fn register_key(&mut self, kc: u8)
        requires
            old(self).wf(),
            kc != 0,
        ensures
            final(self).wf(),
            final(self).modifier == old(self).modifier,
            final(self).spec_contains(kc) || forall|i: int|
                0 <= i < 6 ==> #[trigger] old(self).keys[i] != 0,
            old(self).spec_contains(kc) ==> *final(self) == *old(self),
            forall|j: int|
                0 <= j < 6 && old(self).keys[j] != 0 ==> final(self).keys[j] == #[trigger] old(
                    self,
                ).keys[j],
            forall|j: int|
                0 <= j < 6 && #[trigger] final(self).keys[j] != old(self).keys[j] ==> old(
                    self,
                ).keys[j] == 0 && final(self).keys[j] == kc,
            *final(self) == spec_register_key(*old(self), kc),
    {
        proof {
            lemma_find_slot(old(self).keys, kc, 0);
            lemma_find_slot(old(self).keys, 0, 0);
        }
        if self.contains(kc) {
            return ;
        }
        let mut i: usize = 0;
        while i < 6
            invariant
                i <= 6,
                kc != 0,
                old(self).wf(),
                !old(self).spec_contains(kc),
                *self == *old(self),
                spec_find_slot(old(self).keys, kc, 0) is None,
                spec_find_slot(old(self).keys, 0, 0) == spec_find_slot(old(self).keys, 0, i as int),
                forall|j: int| 0 <= j < i ==> self.keys[j] != 0,
            decreases 6 - i,
        {
            if self.keys[i] == 0 {
                self.keys[i] = kc;
                proof {
                    assert(self.keys[i as int] == kc);
                    assert(forall|j: int|
                        0 <= j < 6 && j != i ==> self.keys[j] == #[trigger] old(self).keys[j]);
                    assert forall|a: int, b: int|
                        0 <= a < 6 && 0 <= b < 6 && a != b && self.keys[a] != 0 implies self.keys[a]
                        != self.keys[b] by {
                        if a != i && b != i {
                            assert(old(self).keys[a] != 0 ==> old(self).keys[a] != old(
                                self,
                            ).keys[b]);
                        } else if b == i {
                            assert(!(old(self).keys[a] == kc));
                        }
                    }
                    assert(spec_find_slot(old(self).keys, 0, 0) == Some(i as int));
                    assert(self.keys =~= spec_keys_with(old(self).keys, i as int, kc));
                }
                return ;
            }
            i = i + 1;
        }
        proof {
            assert(spec_find_slot(old(self).keys, 0, 0) is None);
        }
    }

    /// Remove a released key; a key that is not in the report changes
    /// nothing.
    pub fn deregister_key(&mut self, kc: u8)
        requires
            old(self).wf(),
            kc != 0,
        ensures
            final(self).wf(),
            final(self).modifier == old(self).modifier,
            !final(self).spec_contains(kc),
            forall|j: int|
                0 <= j < 6 && old(self).keys[j] != kc ==> final(self).keys[j] == #[trigger] old(
                    self,
                ).keys[j],
            forall|j: int|
                0 <= j < 6 && old(self).keys[j] == kc ==> #[trigger] final(self).keys[j] == 0,
            *final(self) == spec_deregister_key(*old(self), kc),
    {
        let mut i: usize = 0;
        while i < 6
            invariant
                i <= 6,
                kc != 0,
                old(self).wf(),
                self.wf(),
                self.modifier == old(self).modifier,
                forall|j: int| 0 <= j < i ==> #[trigger] self.keys[j] != kc,
                forall|j: int|
                    0 <= j < 6 && old(self).keys[j] != kc ==> self.keys[j] == #[trigger] old(
                        self,
                    ).keys[j],
                forall|j: int|
                    0 <= j < i && old(self).keys[j] == kc ==> #[trigger] self.keys[j] == 0,
                forall|j: int| i <= j < 6 ==> self.keys[j] == #[trigger] old(self).keys[j],
            decreases 6 - i,
        {
            if self.keys[i] == kc {
                self.keys[i] = 0;
            }
            i = i + 1;
        }
        proof {
            assert(self.keys =~= spec_deregister_key(*old(self), kc).keys);
        }
    }

    /// The eight-byte boot keyboard wire form: modifier, reserved zero,
    /// then the six key slots.
    pub open spec fn spec_bytes(&self) -> Seq<u8> {
        seq![
            self.modifier,
            0u8,
            self.keys[0],
            self.keys[1],
            self.keys[2],
            self.keys[3],
            self.keys[4],
            self.keys[5],
        ]
    }

    /// Serialize to the eight-byte boot keyboard wire form.
    pub fn to_bytes(&self) -> (r: Vec<u8>)
        ensures
            r@ == self.spec_bytes(),
    {
        let mut v: Vec<u8> = Vec::new();
        v.push(self.modifier);
        v.push(0);
        v.push(self.keys[0]);
        v.push(self.keys[1]);
        v.push(self.keys[2]);
        v.push(self.keys[3]);
        v.push(self.keys[4]);
        v.push(self.keys[5]);
        proof {
            assert(v@ =~= self.spec_bytes());
        }
        v
    }
}

/// Which sub-report of the composite report a report identifier names.
#[derive(Clone, Copy, Debug, PartialEq, Eq, Structural)]
pub enum CompositeReportType {
    /// No sub-report.
    NoReport,
    /// The mouse sub-report, report identifier 1.
    Mouse,
    /// The consumer sub-report, report identifier 2.
    Consumer,
    /// The system-control sub-report, report identifier 3.
    System,
}

impl CompositeReportType {
    /// The sub-report a report identifier names; unknown identifiers name
    /// none.
    pub fn from_u8(report_id: u8) -> (r: Self)
        ensures
            r == Self::spec_from_u8(report_id),
    {
        match report_id {
            0x01 => Self::Mouse,
            0x02 => Self::Consumer,
            0x03 => Self::System,
            _ => Self::NoReport,
        }
    }

    pub open spec fn spec_from_u8(report_id: u8) -> Self {
        if report_id == 0x01 {
            Self::Mouse
        } else if report_id == 0x02 {
            Self::Consumer
        } else if report_id == 0x03 {
            Self::System
        } else {
            Self::NoReport
        }
    }

    /// The report identifier of the sub-report.
    pub fn to_u8(&self) -> (r: u8)
        ensures
            Self::spec_from_u8(r) == *self,
    {
        match *self {
            Self::NoReport => 0x00,
            Self::Mouse => 0x01,
            Self::Consumer => 0x02,
            Self::System => 0x03,
        }
    }
}

/// The composite report: mouse state, one consumer usage and one system
/// usage, sent one sub-report at a time under a report identifier.
#[derive(Clone, Copy, Debug, PartialEq, Eq, Structural)]
pub struct CompositeReport {
    /// Pressed mouse buttons, one bit each.
    pub buttons: u8,
    /// Horizontal mouse delta for this tick.
    pub x: i8,
    /// Vertical mouse delta for this tick.
    pub y: i8,
    /// Vertical scroll delta for this tick.
    pub wheel: i8,
    /// Horizontal scroll delta for this tick.
    pub pan: i8,
    /// The active consumer-page usage, 0 when none.
    pub media_usage_id: u16,
    /// The active system-control usage, 0 when none.
    pub system_usage_id: u8,
}

/// Relies on `ssmarshal::serialize` of usbd-hid's `MouseReport`: the
/// fields are written in declaration order, one byte each, signed values
/// in two's complement.
#[verifier::external_body]
fn mouse_report_bytes(buttons: u8, x: i8, y: i8, wheel: i8, pan: i8) -> (r: Vec<u8>)
    ensures
        r@ == seq![
            buttons,
            spec_i8_to_byte(x),
            spec_i8_to_byte(y),
            spec_i8_to_byte(wheel),
            spec_i8_to_byte(pan),
        ],
{
    let report = usbd_hid::descriptor::MouseReport { buttons, x, y, wheel, pan };
    let mut buf = [0u8; 5];
    let n = ssmarshal::serialize(&mut buf, &report).expect("a five-byte buffer fits a mouse report");
    buf[..n].to_vec()
}

/// Relies on `ssmarshal::serialize` of usbd-hid's `MediaKeyboardReport`:
/// one sixteen-bit usage, little endian.
#[verifier::external_body]
fn media_report_bytes(usage_id: u16) -> (r: Vec<u8>)
    ensures
        r@ == seq![(usage_id % 256) as u8, (usage_id / 256) as u8],
{
    let report = usbd_hid::descriptor::MediaKeyboardReport { usage_id };
    let mut buf = [0u8; 2];
    let n = ssmarshal::serialize(&mut buf, &report).expect("a two-byte buffer fits a media report");
    buf[..n].to_vec()
}

/// Relies on `ssmarshal::serialize` of usbd-hid's `SystemControlReport`:
/// the one usage byte.
#[verifier::external_body]
fn system_report_bytes(usage_id: u8) -> (r: Vec<u8>)
    ensures
        r@ == seq![usage_id],
{
    let report = usbd_hid::descriptor::SystemControlReport { usage_id };
    let mut buf = [0u8; 1];
    let n = ssmarshal::serialize(&mut buf, &report).expect("a one-byte buffer fits a system report");
    buf[..n].to_vec()
}

impl CompositeReport {
    /// The composite report at rest: no buttons, no motion, no usages.
    pub fn new() -> (r: CompositeReport)
        ensures
            r == Self::spec_empty(),
    {
        CompositeReport {
            buttons: 0,
            x: 0,
            y: 0,
            wheel: 0,
            pan: 0,
            media_usage_id: 0,
            system_usage_id: 0,
        }
    }

    pub open spec fn spec_empty() -> CompositeReport {
        CompositeReport {
            buttons: 0,
            x: 0,
            y: 0,
            wheel: 0,
            pan: 0,
            media_usage_id: 0,
            system_usage_id: 0,
        }
    }

    /// The wire form of one sub-report: the mouse sub-report is its five
    /// fields in order, the consumer sub-report its usage in little
    /// endian, the system sub-report its one byte; no sub-report is
    /// empty.
    pub open spec fn spec_serialize(&self, report_type: CompositeReportType) -> Seq<u8> {
        match report_type {
            CompositeReportType::NoReport => Seq::empty(),
            CompositeReportType::Mouse => seq![
                self.buttons,
                spec_i8_to_byte(self.x),
                spec_i8_to_byte(self.y),
                spec_i8_to_byte(self.wheel),
                spec_i8_to_byte(self.pan),
            ],
            CompositeReportType::Consumer => seq![
                (self.media_usage_id % 256) as u8,
                (self.media_usage_id / 256) as u8,
            ],
            CompositeReportType::System => seq![self.system_usage_id],
        }
    }

    /// Serialize one sub-report to its wire bytes.
    pub fn serialize(&self, report_type: CompositeReportType) -> (r: Vec<u8>)
        ensures
            r@ == self.spec_serialize(report_type),
    {
        match report_type {
            CompositeReportType::NoReport => Vec::new(),
            CompositeReportType::Mouse => mouse_report_bytes(
                self.buttons,
                self.x,
                self.y,
                self.wheel,
                self.pan,
            ),
            CompositeReportType::Consumer => media_report_bytes(self.media_usage_id),
            CompositeReportType::System => system_report_bytes(self.system_usage_id),
        }
    }
}

} // verus!
