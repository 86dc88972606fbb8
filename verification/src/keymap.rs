//! The layered keymap: a three-dimensional array of key actions, a bitmask
//! of momentarily active layers, and a default layer that sits under the
//! momentary stack.
//!
//! Lookup scans layers from the highest one down; a layer takes part when
//! its bit is set in the mask or when it is the default layer, and the
//! first participating cell that is not `Transparent` wins.

use vstd::prelude::*;
use crate::action::KeyAction;

verus! {

/// The most layers a keymap can hold: the active-layer mask is one 32-bit
/// word, one bit per layer.
pub const MAX_LAYERS: usize = 32;

/// A layered keymap.
pub struct KeyMap {
    /// The actions, indexed as `layers[layer][row][col]`.
    pub layers: Vec<Vec<Vec<KeyAction>>>,
    /// One bit per layer; bit `l` set means layer `l` is momentarily on.
    pub active_layers: u32,
    /// The base layer that always takes part in lookup.
    pub default_layer: u8,
}

impl KeyMap {
    /// Shape and content invariant: at least one layer and at most 32, a
    /// rectangular grid on every layer, a default layer that exists, and
    /// no `Transparent` on layer 0 (there is nothing below it to fall
    /// through to).
    pub open spec fn wf(&self) -> bool {
        &&& 1 <= self.layers.len() <= MAX_LAYERS
        &&& self.spec_rows() >= 1
        &&& self.spec_cols() >= 1
        &&& forall|l: int|
            0 <= l < self.layers.len() ==> #[trigger] self.layers[l]@.len() == self.spec_rows()
        &&& forall|l: int, r: int|
            0 <= l < self.layers.len() && 0 <= r < self.spec_rows() ==> #[trigger] self.layers[l][r]@.len()
                == self.spec_cols()
        &&& self.default_layer < self.layers.len()
        &&& forall|r: int, c: int|
            0 <= r < self.spec_rows() && 0 <= c < self.spec_cols() ==> #[trigger] self.layers[0][r][c]
                != KeyAction::Transparent
    }

    pub open spec fn spec_rows(&self) -> int {
        self.layers[0]@.len() as int
    }

    pub open spec fn spec_cols(&self) -> int {
        self.layers[0][0]@.len() as int
    }

    /// Whether layer `l` takes part in lookup: its bit is set in the
    /// momentary mask, or it is the default layer.
    pub open spec fn spec_layer_enabled(&self, l: int) -> bool {
        l == self.default_layer || (self.active_layers >> (l as u32)) & 1 == 1
    }

    /// The first action that is not `Transparent` on an enabled layer,
    /// scanning from layer `l` downward; `No` if every enabled cell below
    /// is transparent or disabled.
    pub open spec fn spec_lookup(&self, l: int, row: int, col: int) -> KeyAction
        decreases l + 1,
    {
        if l < 0 {
            KeyAction::No
        } else if self.spec_layer_enabled(l) && self.layers[l][row][col]
            != KeyAction::Transparent {
            self.layers[l][row][col]
        } else {
            self.spec_lookup(l - 1, row, col)
        }
    }

    /// What the key at `(row, col)` does right now.
    pub open spec fn spec_get_action(&self, row: int, col: int) -> KeyAction {
        self.spec_lookup(self.layers.len() - 1, row, col)
    }

    /// Build a keymap from a default action array: no momentary layer on,
    /// default layer 0.
    pub fn new(layers: Vec<Vec<Vec<KeyAction>>>) -> (r: KeyMap)
        requires
            1 <= layers.len() <= MAX_LAYERS,
            layers[0]@.len() >= 1,
            layers[0][0]@.len() >= 1,
            forall|l: int| 0 <= l < layers.len() ==> #[trigger] layers[l]@.len() == layers[0]@.len(),
            forall|l: int, r: int|
                0 <= l < layers.len() && 0 <= r < layers[0]@.len() ==> #[trigger] layers[l][r]@.len()
                    == layers[0][0]@.len(),
            forall|r: int, c: int|
                0 <= r < layers[0]@.len() && 0 <= c < layers[0][0]@.len() ==> #[trigger] layers[0][r][c]
                    != KeyAction::Transparent,
        ensures
            r.wf(),
            r.layers == layers,
            r.active_layers == 0u32,
            r.default_layer == 0u8,
    {
        KeyMap { layers, active_layers: 0, default_layer: 0 }
    }

    /// The number of layers.
    pub fn layer_count(&self) -> (r: usize)
        ensures
            r == self.layers.len(),
    {
        self.layers.len()
    }

    /// The number of rows.
    pub fn rows(&self) -> (r: usize)
        requires
            self.wf(),
        ensures
            r == self.spec_rows(),
    {
        let first: &Vec<Vec<KeyAction>> = &self.layers[0];
        first.len()
    }

    /// The number of columns.
    pub fn cols(&self) -> (r: usize)
        requires
            self.wf(),
        ensures
            r == self.spec_cols(),
    {
        let first: &Vec<KeyAction> = &self.layers[0][0];
        first.len()
    }

    /// Whether layer `l` takes part in a lookup under the given mask and
    /// default layer.
    pub open spec fn spec_layer_enabled_m(&self, mask: u32, default: u8, l: int) -> bool {
        l == default || (mask >> (l as u32)) & 1 == 1
    }

    /// [`KeyMap::spec_lookup`], generalized to any mask and default.
    pub open spec fn spec_lookup_m(&self, mask: u32, default: u8, l: int, row: int, col: int) -> KeyAction
        decreases l + 1,
    {
        if l < 0 {
            KeyAction::No
        } else if self.spec_layer_enabled_m(mask, default, l) && self.layers[l][row][col]
            != KeyAction::Transparent {
            self.layers[l][row][col]
        } else {
            self.spec_lookup_m(mask, default, l - 1, row, col)
        }
    }

    /// [`KeyMap::spec_get_action`], generalized to any mask and default.
    pub open spec fn spec_get_action_m(&self, mask: u32, default: u8, row: int, col: int) -> KeyAction {
        self.spec_lookup_m(mask, default, self.layers.len() - 1, row, col)
    }

    /// The two lookup forms agree when the mask and default are the
    /// keymap's own.
    pub proof fn lemma_lookup_m_own(&self, l: int, row: int, col: int)
        ensures
            self.spec_lookup_m(self.active_layers, self.default_layer, l, row, col)
                == self.spec_lookup(l, row, col),
        decreases l + 1,
    {
        if l >= 0 {
            self.lemma_lookup_m_own(l - 1, row, col);
        }
    }

    /// Look up the live action at `(row, col)`: scan layers from the
    /// highest down; the first enabled cell that is not `Transparent`
    /// wins.
    pub fn get_action(&self, row: usize, col: usize) -> (r: KeyAction)
        requires
            self.wf(),
            row < self.spec_rows(),
            col < self.spec_cols(),
        ensures
            r == self.spec_get_action(row as int, col as int),
    {
        let r = self.get_action_masked(0, row, col);
        proof {
            self.lemma_lookup_m_own(self.layers.len() - 1, row as int, col as int);
            assert(self.active_layers | 0 == self.active_layers) by (bit_vector);
        }
        r
    }

    /// Look up the live action with extra momentary layers held on for
    /// this one lookup (a one-shot layer).
    pub fn get_action_masked(&self, extra: u32, row: usize, col: usize) -> (r: KeyAction)
        requires
            self.wf(),
            row < self.spec_rows(),
            col < self.spec_cols(),
        ensures
            r == self.spec_get_action_m(
                self.active_layers | extra,
                self.default_layer,
                row as int,
                col as int,
            ),
    {
        let mask = self.active_layers | extra;
        let n = self.layers.len();
        let mut l = n;
        while l > 0
            invariant
                self.wf(),
                row < self.spec_rows(),
                col < self.spec_cols(),
                l <= n,
                n == self.layers.len(),
                mask == self.active_layers | extra,
                self.spec_get_action_m(mask, self.default_layer, row as int, col as int)
                    == self.spec_lookup_m(mask, self.default_layer, l - 1, row as int, col as int),
            decreases l,
        {
            l = l - 1;
            let enabled = l == self.default_layer as usize || (mask >> (l as u32)) & 1 == 1;
            if enabled {
                let a = self.layers[l][row][col];
                if !matches!(a, KeyAction::Transparent) {
                    return a;
                }
            }
        }
        KeyAction::No
    }

    /// Write `action` into one cell of one layer.
    ///
    /// Layer 0 never takes `Transparent`; the configuration service
    /// rejects such a write before calling here.
    pub fn set_action(&mut self, layer: u8, row: u8, col: u8, action: KeyAction)
        requires
            old(self).wf(),
            layer < old(self).layers.len(),
            row < old(self).spec_rows(),
            col < old(self).spec_cols(),
            layer == 0 ==> action != KeyAction::Transparent,
        ensures
            final(self).wf(),
            final(self).layers.len() == old(self).layers.len(),
            final(self).spec_rows() == old(self).spec_rows(),
            final(self).spec_cols() == old(self).spec_cols(),
            final(self).spec_action_at(layer as int, row as int, col as int) == action,
            final(self).active_layers == old(self).active_layers,
            final(self).default_layer == old(self).default_layer,
            forall|l: int, r: int, c: int|
                0 <= l < old(self).layers.len() && 0 <= r < old(self).spec_rows() && 0 <= c < old(
                    self,
                ).spec_cols() && !(l == layer && r == row && c == col)
                    ==> #[trigger] final(self).spec_action_at(l, r, c) == old(self).spec_action_at(
                    l,
                    r,
                    c,
                ),
    {
        self.layers[layer as usize][row as usize].set(col as usize, action);
    }

    /// The stored action of one cell of one layer (not the live lookup).
    pub open spec fn spec_action_at(&self, layer: int, row: int, col: int) -> KeyAction {
        self.layers[layer][row][col]
    }

    /// Read the stored action of one cell of one layer.
    pub fn action_at(&self, layer: u8, row: u8, col: u8) -> (r: KeyAction)
        requires
            self.wf(),
            layer < self.layers.len(),
            row < self.spec_rows(),
            col < self.spec_cols(),
        ensures
            r == self.spec_action_at(layer as int, row as int, col as int),
    {
        self.layers[layer as usize][row as usize][col as usize]
    }

    /// Turn a momentary layer on. Pushing a layer that is already on
    /// changes nothing.
    pub fn push_layer(&mut self, n: u8)
        requires
            old(self).wf(),
            n < old(self).layers.len(),
        ensures
            final(self).wf(),
            final(self).layers == old(self).layers,
            final(self).default_layer == old(self).default_layer,
            final(self).active_layers == old(self).active_layers | (1u32 << (n as u32)),
            old(self).spec_layer_enabled(n as int) && old(self).active_layers >> (n as u32) & 1
                == 1 ==> final(self).active_layers == old(self).active_layers,
            forall|m: int|
                0 <= m < 32 ==> (#[trigger] final(self).spec_layer_enabled(m) <==> (m == n as int
                    || old(self).spec_layer_enabled(m))),
    {
        let a = self.active_layers;
        let bit: u32 = 1u32 << (n as u32);
        self.active_layers = a | bit;
        proof {
            let nn = n as u32;
            assert((a >> nn) & 1 == 1 ==> (a | (1u32 << nn)) == a) by (bit_vector)
                requires
                    nn < 32,
            ;
            assert(forall|m: u32|
                m < 32 ==> #[trigger] ((a | (1u32 << nn)) >> m) & 1 == (if m == nn {
                    1u32
                } else {
                    (a >> m) & 1
                })) by (bit_vector)
                requires
                    nn < 32,
            ;
        }
    }

    /// Turn a momentary layer off. Popping a layer that is not on changes
    /// nothing; the default layer keeps taking part in lookup either way.
    pub fn pop_layer(&mut self, n: u8)
        requires
            old(self).wf(),
            n < old(self).layers.len(),
        ensures
            final(self).wf(),
            final(self).layers == old(self).layers,
            final(self).default_layer == old(self).default_layer,
            final(self).active_layers == old(self).active_layers & !(1u32 << (n as u32)),
            old(self).active_layers >> (n as u32) & 1 != 1 ==> final(self).active_layers == old(
                self,
            ).active_layers,
            forall|m: int|
                0 <= m < 32 ==> (#[trigger] final(self).spec_layer_enabled(m) <==> (m != n as int
                    && old(self).spec_layer_enabled(m)) || m == old(self).default_layer as int),
    {
        let a = self.active_layers;
        let bit: u32 = 1u32 << (n as u32);
        self.active_layers = a & !bit;
        proof {
            let nn = n as u32;
            assert((a >> nn) & 1 != 1 ==> (a & !(1u32 << nn)) == a) by (bit_vector)
                requires
                    nn < 32,
            ;
            assert(forall|m: u32|
                m < 32 ==> #[trigger] ((a & !(1u32 << nn)) >> m) & 1 == (if m == nn {
                    0u32
                } else {
                    (a >> m) & 1
                })) by (bit_vector)
                requires
                    nn < 32,
            ;
        }
    }

    /// Toggle a momentary layer: on if it was off, off if it was on.
    pub fn toggle_layer(&mut self, n: u8)
        requires
            old(self).wf(),
            n < old(self).layers.len(),
        ensures
            final(self).wf(),
            final(self).layers == old(self).layers,
            final(self).default_layer == old(self).default_layer,
            old(self).active_layers >> (n as u32) & 1 == 1 ==> final(self).active_layers == old(
                self,
            ).active_layers & !(1u32 << (n as u32)),
            old(self).active_layers >> (n as u32) & 1 != 1 ==> final(self).active_layers == old(
                self,
            ).active_layers | (1u32 << (n as u32)),
    {
        if (self.active_layers >> (n as u32)) & 1 == 1 {
            self.pop_layer(n);
        } else {
            self.push_layer(n);
        }
    }

    /// Make `n` the only momentarily active layer.
    pub fn activate_only_layer(&mut self, n: u8)
        requires
            old(self).wf(),
            n < old(self).layers.len(),
        ensures
            final(self).wf(),
            final(self).layers == old(self).layers,
            final(self).default_layer == old(self).default_layer,
            final(self).active_layers == 1u32 << (n as u32),
    {
        self.active_layers = 1u32 << (n as u32);
    }

    /// Change the base layer that sits under the momentary stack.
    pub fn set_default_layer(&mut self, n: u8)
        requires
            old(self).wf(),
            n < old(self).layers.len(),
        ensures
            final(self).wf(),
            final(self).layers == old(self).layers,
            final(self).active_layers == old(self).active_layers,
            final(self).default_layer == n,
    {
        self.default_layer = n;
    }
}

} // verus!
