//! Boot-time replay: applying the storage log to the keymap, the macro
//! buffer and the configuration values, later records superseding
//! earlier ones.
//!
//! A keymap cell record rewrites one cell; a snapshot record carries a
//! batch of cell entries, five bytes each (`layer, row, col, code`, the
//! code little endian). A write that does not fit the keymap — or would
//! put `Transparent` on layer 0 — is ignored, there as here. A macro
//! record rewrites the whole macro buffer; configuration and
//! layout-option records are looked up by key, last write wins.

use vstd::prelude::*;
use crate::action::{spec_from_code, KeyAction};
use crate::keymap::KeyMap;
use crate::storage::StorageRecord;
use crate::vial::{VialService, MACRO_BUFFER_LEN};

verus! {

/// Whether one cell write may be applied: the coordinates exist, and
/// layer 0 never takes `Transparent`.
pub open spec fn spec_cell_write_valid(
    layers: int,
    rows: int,
    cols: int,
    layer: u8,
    row: u8,
    col: u8,
    code: u16,
) -> bool {
    &&& (layer as int) < layers
    &&& (row as int) < rows
    &&& (col as int) < cols
    &&& !(layer == 0 && spec_from_code(code) is Transparent)
}

/// The layer byte of snapshot entry `e`.
pub open spec fn spec_entry_layer(data: Seq<u8>, e: int) -> u8 {
    data[5 * e]
}

/// The row byte of snapshot entry `e`.
pub open spec fn spec_entry_row(data: Seq<u8>, e: int) -> u8 {
    data[5 * e + 1]
}

/// The column byte of snapshot entry `e`.
pub open spec fn spec_entry_col(data: Seq<u8>, e: int) -> u8 {
    data[5 * e + 2]
}

/// The action code of snapshot entry `e`.
pub open spec fn spec_entry_code(data: Seq<u8>, e: int) -> u16 {
    (data[5 * e + 3] + 256 * data[5 * e + 4]) as u16
}

/// The code the last applicable entry among the first `k` snapshot
/// entries writes into cell `(l, r, c)`, if any does.
pub open spec fn spec_snapshot_find(
    data: Seq<u8>,
    k: int,
    layers: int,
    rows: int,
    cols: int,
    l: int,
    r: int,
    c: int,
) -> Option<u16>
    decreases k,
{
    if k <= 0 {
        None
    } else {
        let e = k - 1;
        if spec_entry_layer(data, e) == l && spec_entry_row(data, e) == r && spec_entry_col(
            data,
            e,
        ) == c && spec_cell_write_valid(
            layers,
            rows,
            cols,
            spec_entry_layer(data, e),
            spec_entry_row(data, e),
            spec_entry_col(data, e),
            spec_entry_code(data, e),
        ) {
            Some(spec_entry_code(data, e))
        } else {
            spec_snapshot_find(data, e, layers, rows, cols, l, r, c)
        }
    }
}

/// The find only reads the bytes of the first `k` entries.
pub proof fn lemma_snapshot_find_stable(
    d1: Seq<u8>,
    d2: Seq<u8>,
    k: int,
    layers: int,
    rows: int,
    cols: int,
    l: int,
    r: int,
    c: int,
)
    requires
        5 * k <= d1.len(),
        5 * k <= d2.len(),
        forall|j: int| 0 <= j < 5 * k ==> d1[j] == #[trigger] d2[j],
    ensures
        spec_snapshot_find(d1, k, layers, rows, cols, l, r, c) == spec_snapshot_find(
            d2,
            k,
            layers,
            rows,
            cols,
            l,
            r,
            c,
        ),
    decreases k,
{
    if k > 0 {
        lemma_snapshot_find_stable(d1, d2, k - 1, layers, rows, cols, l, r, c);
    }
}

/// The code that replaying a record sequence leaves in cell `(l, r, c)`,
/// if any record wrote it: the last applicable keymap-cell record or
/// snapshot entry wins.
pub open spec fn spec_replay_cell(
    records: Seq<StorageRecord>,
    layers: int,
    rows: int,
    cols: int,
    l: int,
    r: int,
    c: int,
) -> Option<u16>
    decreases records.len(),
{
    if records.len() == 0 {
        None
    } else {
        let rest = records.drop_last();
        match records.last() {
            StorageRecord::KeymapCell { layer, row, col, code } => {
                if layer == l && row == r && col == c && spec_cell_write_valid(
                    layers,
                    rows,
                    cols,
                    layer,
                    row,
                    col,
                    code,
                ) {
                    Some(code)
                } else {
                    spec_replay_cell(rest, layers, rows, cols, l, r, c)
                }
            },
            StorageRecord::Snapshot { data } => {
                match spec_snapshot_find(
                    data@,
                    data@.len() as int / 5,
                    layers,
                    rows,
                    cols,
                    l,
                    r,
                    c,
                ) {
                    Some(code) => Some(code),
                    None => spec_replay_cell(rest, layers, rows, cols, l, r, c),
                }
            },
            _ => spec_replay_cell(rest, layers, rows, cols, l, r, c),
        }
    }
}

/// Durability of a cell write: a log that ends with an applicable
/// keymap-cell record replays that cell to exactly the written code,
/// whatever came before.
pub proof fn lemma_replay_last_write_wins(
    records: Seq<StorageRecord>,
    layers: int,
    rows: int,
    cols: int,
    layer: u8,
    row: u8,
    col: u8,
    code: u16,
)
    requires
        spec_cell_write_valid(layers, rows, cols, layer, row, col, code),
    ensures
        spec_replay_cell(
            records.push(StorageRecord::KeymapCell { layer, row, col, code }),
            layers,
            rows,
            cols,
            layer as int,
            row as int,
            col as int,
        ) == Some(code),
{
    let pushed = records.push(StorageRecord::KeymapCell { layer, row, col, code });
    assert(pushed.last() == StorageRecord::KeymapCell { layer, row, col, code });
}

/// A record that is not a cell write (or an inapplicable one) leaves
/// every cell's replay untouched.
pub proof fn lemma_replay_other_record(
    records: Seq<StorageRecord>,
    rec: StorageRecord,
    layers: int,
    rows: int,
    cols: int,
    l: int,
    r: int,
    c: int,
)
    requires
        match rec {
            StorageRecord::KeymapCell { layer, row, col, code } => !(layer == l && row == r && col
                == c && spec_cell_write_valid(layers, rows, cols, layer, row, col, code)),
            StorageRecord::Snapshot { data } => spec_snapshot_find(
                data@,
                data@.len() as int / 5,
                layers,
                rows,
                cols,
                l,
                r,
                c,
            ) is None,
            _ => true,
        },
    ensures
        spec_replay_cell(records.push(rec), layers, rows, cols, l, r, c) == spec_replay_cell(
            records,
            layers,
            rows,
            cols,
            l,
            r,
            c,
        ),
{
    assert(records.push(rec).drop_last() =~= records);
}

/// The bytes the last applicable macro record leaves in the macro
/// buffer, if any record wrote it. Only a whole-buffer record — slot 0,
/// exactly the buffer's size — applies; anything else is ignored rather
/// than truncating the buffer.
pub open spec fn spec_replay_macro_buffer(records: Seq<StorageRecord>) -> Option<Seq<u8>>
    decreases records.len(),
{
    if records.len() == 0 {
        None
    } else {
        match records.last() {
            StorageRecord::MacroEntry { id, data } => if id == 0 && data@.len()
                == MACRO_BUFFER_LEN {
                Some(data@)
            } else {
                spec_replay_macro_buffer(records.drop_last())
            },
            _ => spec_replay_macro_buffer(records.drop_last()),
        }
    }
}

/// The value the last configuration record leaves under `key`, if any
/// record wrote it.
pub open spec fn spec_replay_config(records: Seq<StorageRecord>, key: u8) -> Option<u32>
    decreases records.len(),
{
    if records.len() == 0 {
        None
    } else {
        match records.last() {
            StorageRecord::Config { key: k, value } => if k == key {
                Some(value)
            } else {
                spec_replay_config(records.drop_last(), key)
            },
            _ => spec_replay_config(records.drop_last(), key),
        }
    }
}

/// The last layout-options word the log holds, if any.
pub open spec fn spec_replay_layout_options(records: Seq<StorageRecord>) -> Option<u32>
    decreases records.len(),
{
    if records.len() == 0 {
        None
    } else {
        match records.last() {
            StorageRecord::LayoutOptions { value } => Some(value),
            _ => spec_replay_layout_options(records.drop_last()),
        }
    }
}

/// Look up the boot value of one configuration key: the last
/// configuration record that wrote it wins.
pub fn config_value(records: &Vec<StorageRecord>, key: u8) -> (r: Option<u32>)
    ensures
        r == spec_replay_config(records@, key),
{
    let mut i = records.len();
    proof {
        assert(records@.take(records@.len() as int) =~= records@);
    }
    while i > 0
        invariant
            i <= records@.len(),
            spec_replay_config(records@, key) == spec_replay_config(records@.take(i as int), key),
        decreases i,
    {
        proof {
            assert(records@.take(i as int).drop_last() =~= records@.take(i - 1));
            assert(records@.take(i as int).last() == records@[i - 1]);
        }
        match &records[i - 1] {
            StorageRecord::Config { key: k, value } => {
                if *k == key {
                    return Some(*value);
                }
            },
            _ => {
            },
        }
        i = i - 1;
    }
    None
}

/// Look up the boot layout-options word: the last record wins.
pub fn layout_options_value(records: &Vec<StorageRecord>) -> (r: Option<u32>)
    ensures
        r == spec_replay_layout_options(records@),
{
    let mut i = records.len();
    proof {
        assert(records@.take(records@.len() as int) =~= records@);
    }
    while i > 0
        invariant
            i <= records@.len(),
            spec_replay_layout_options(records@) == spec_replay_layout_options(
                records@.take(i as int),
            ),
        decreases i,
    {
        proof {
            assert(records@.take(i as int).drop_last() =~= records@.take(i - 1));
            assert(records@.take(i as int).last() == records@[i - 1]);
        }
        match &records[i - 1] {
            StorageRecord::LayoutOptions { value } => {
                return Some(*value);
            },
            _ => {
            },
        }
        i = i - 1;
    }
    None
}

impl VialService {
    /// Replay the record list into the macro buffer: the last
    /// whole-buffer macro record wins; with none, the buffer keeps its
    /// compiled default. Nothing else of the service changes.
    pub fn apply_records(&mut self, records: &Vec<StorageRecord>)
        requires
            old(self).wf(),
        ensures
            final(self).wf(),
            final(self).macro_buffer@ == match spec_replay_macro_buffer(records@) {
                Some(data) => data,
                None => old(self).macro_buffer@,
            },
            final(self).unlocked == old(self).unlocked,
            final(self).unlock_in_progress == old(self).unlock_in_progress,
            final(self).unlock_counter == old(self).unlock_counter,
            final(self).keyboard_id == old(self).keyboard_id,
            final(self).definition == old(self).definition,
    {
        let mut i = records.len();
        proof {
            assert(records@.take(records@.len() as int) =~= records@);
        }
        while i > 0
            invariant
                i <= records@.len(),
                *self == *old(self),
                spec_replay_macro_buffer(records@) == spec_replay_macro_buffer(
                    records@.take(i as int),
                ),
            decreases i,
        {
            proof {
                assert(records@.take(i as int).drop_last() =~= records@.take(i - 1));
                assert(records@.take(i as int).last() == records@[i - 1]);
            }
            match &records[i - 1] {
                StorageRecord::MacroEntry { id, data } => {
                    if *id == 0 && data.len() == MACRO_BUFFER_LEN {
                        self.macro_buffer = copy_bytes(data);
                        return ;
                    }
                },
                _ => {
                },
            }
            i = i - 1;
        }
    }
}

/// A copy of a byte vector.
fn copy_bytes(v: &Vec<u8>) -> (r: Vec<u8>)
    ensures
        r@ == v@,
{
    let mut out: Vec<u8> = Vec::new();
    let mut i: usize = 0;
    while i < v.len()
        invariant
            i <= v@.len(),
            out@ =~= v@.take(i as int),
        decreases v@.len() - i,
    {
        out.push(v[i]);
        i = i + 1;
    }
    proof {
        assert(v@.take(v@.len() as int) =~= v@);
    }
    out
}

impl KeyMap {
    /// Replay a record list into the keymap: apply each applicable cell
    /// write and snapshot entry in order, so that each cell ends up
    /// holding the action of the last record that wrote it, decoded from
    /// its wire code. Records that are not cell writes, and writes that
    /// do not fit the keymap, change nothing.
    pub fn apply_records(&mut self, records: &Vec<StorageRecord>)
        requires
            old(self).wf(),
        ensures
            final(self).wf(),
            final(self).layers.len() == old(self).layers.len(),
            final(self).spec_rows() == old(self).spec_rows(),
            final(self).spec_cols() == old(self).spec_cols(),
            final(self).active_layers == old(self).active_layers,
            final(self).default_layer == old(self).default_layer,
            forall|l: int, r: int, c: int|
                0 <= l < old(self).layers.len() && 0 <= r < old(self).spec_rows() && 0 <= c < old(
                    self,
                ).spec_cols() ==> #[trigger] final(self).spec_action_at(l, r, c) == (
                match spec_replay_cell(
                    records@,
                    old(self).layers.len() as int,
                    old(self).spec_rows(),
                    old(self).spec_cols(),
                    l,
                    r,
                    c,
                ) {
                    Some(code) => spec_from_code(code),
                    None => old(self).spec_action_at(l, r, c),
                }),
    {
        let ghost layers = self.layers.len() as int;
        let ghost rows = self.spec_rows();
        let ghost cols = self.spec_cols();
        let mut i: usize = 0;
        while i < records.len()
            invariant
                i <= records.len(),
                old(self).wf(),
                self.wf(),
                layers == old(self).layers.len() as int,
                rows == old(self).spec_rows(),
                cols == old(self).spec_cols(),
                self.layers.len() == old(self).layers.len(),
                self.spec_rows() == old(self).spec_rows(),
                self.spec_cols() == old(self).spec_cols(),
                self.active_layers == old(self).active_layers,
                self.default_layer == old(self).default_layer,
                forall|l: int, r: int, c: int|
                    0 <= l < layers && 0 <= r < rows && 0 <= c < cols
                        ==> #[trigger] self.spec_action_at(l, r, c) == (
                    match spec_replay_cell(records@.take(i as int), layers, rows, cols, l, r, c) {
                        Some(code) => spec_from_code(code),
                        None => old(self).spec_action_at(l, r, c),
                    }),
            decreases records.len() - i,
        {
            let ghost prefix = records@.take(i as int);
            let ghost prefix1 = records@.take(i + 1);
            proof {
                assert(prefix1.drop_last() =~= prefix);
                assert(prefix1.last() == records@[i as int]);
            }
            match &records[i] {
                StorageRecord::KeymapCell { layer, row, col, code } => {
                    self.apply_cell_write(*layer, *row, *col, *code);
                },
                StorageRecord::Snapshot { data } => {
                    self.apply_snapshot(data);
                },
                _ => {
                },
            }
            i = i + 1;
        }
        proof {
            assert(records@.take(records@.len() as int) =~= records@);
        }
    }

    /// Apply one cell write if it fits; see [`spec_cell_write_valid`].
    fn apply_cell_write(&mut self, layer: u8, row: u8, col: u8, code: u16)
        requires
            old(self).wf(),
        ensures
            final(self).wf(),
            final(self).layers.len() == old(self).layers.len(),
            final(self).spec_rows() == old(self).spec_rows(),
            final(self).spec_cols() == old(self).spec_cols(),
            final(self).active_layers == old(self).active_layers,
            final(self).default_layer == old(self).default_layer,
            forall|l: int, r: int, c: int|
                0 <= l < old(self).layers.len() && 0 <= r < old(self).spec_rows() && 0 <= c < old(
                    self,
                ).spec_cols() ==> #[trigger] final(self).spec_action_at(l, r, c) == (
                if l == layer && r == row && c == col && spec_cell_write_valid(
                    old(self).layers.len() as int,
                    old(self).spec_rows(),
                    old(self).spec_cols(),
                    layer,
                    row,
                    col,
                    code,
                ) {
                    spec_from_code(code)
                } else {
                    old(self).spec_action_at(l, r, c)
                }),
    {
        if (layer as usize) < self.layer_count() && (row as usize) < self.rows() && (col as usize)
            < self.cols() {
            let action = KeyAction::from_code(code);
            if !(layer == 0 && matches!(action, KeyAction::Transparent)) {
                self.set_action(layer, row, col, action);
            }
        }
    }

    /// Apply every entry of one snapshot in order.
    fn apply_snapshot(&mut self, data: &Vec<u8>)
        requires
            old(self).wf(),
        ensures
            final(self).wf(),
            final(self).layers.len() == old(self).layers.len(),
            final(self).spec_rows() == old(self).spec_rows(),
            final(self).spec_cols() == old(self).spec_cols(),
            final(self).active_layers == old(self).active_layers,
            final(self).default_layer == old(self).default_layer,
            forall|l: int, r: int, c: int|
                0 <= l < old(self).layers.len() && 0 <= r < old(self).spec_rows() && 0 <= c < old(
                    self,
                ).spec_cols() ==> #[trigger] final(self).spec_action_at(l, r, c) == (
                match spec_snapshot_find(
                    data@,
                    data@.len() as int / 5,
                    old(self).layers.len() as int,
                    old(self).spec_rows(),
                    old(self).spec_cols(),
                    l,
                    r,
                    c,
                ) {
                    Some(code) => spec_from_code(code),
                    None => old(self).spec_action_at(l, r, c),
                }),
    {
        let ghost layers = self.layers.len() as int;
        let ghost rows = self.spec_rows();
        let ghost cols = self.spec_cols();
        let dlen = data.len();
        let n = dlen / 5;
        proof {
            assert(5 * (data@.len() as int / 5) <= data@.len()) by (nonlinear_arith);
        }
        let mut e: usize = 0;
        while e < n
            invariant
                e <= n,
                dlen == data@.len(),
                n == data@.len() as int / 5,
                5 * (n as int) <= dlen,
                old(self).wf(),
                self.wf(),
                layers == old(self).layers.len() as int,
                rows == old(self).spec_rows(),
                cols == old(self).spec_cols(),
                self.layers.len() == old(self).layers.len(),
                self.spec_rows() == old(self).spec_rows(),
                self.spec_cols() == old(self).spec_cols(),
                self.active_layers == old(self).active_layers,
                self.default_layer == old(self).default_layer,
                forall|l: int, r: int, c: int|
                    0 <= l < layers && 0 <= r < rows && 0 <= c < cols
                        ==> #[trigger] self.spec_action_at(l, r, c) == (
                    match spec_snapshot_find(data@, e as int, layers, rows, cols, l, r, c) {
                        Some(code) => spec_from_code(code),
                        None => old(self).spec_action_at(l, r, c),
                    }),
            decreases n - e,
        {
            let layer = data[5 * e];
            let row = data[5 * e + 1];
            let col = data[5 * e + 2];
            let code: u16 = data[5 * e + 3] as u16 + 256 * (data[5 * e + 4] as u16);
            proof {
                assert(spec_entry_layer(data@, e as int) == layer);
                assert(spec_entry_row(data@, e as int) == row);
                assert(spec_entry_col(data@, e as int) == col);
                assert(spec_entry_code(data@, e as int) == code);
            }
            self.apply_cell_write(layer, row, col, code);
            e = e + 1;
        }
    }
}

} // verus!
