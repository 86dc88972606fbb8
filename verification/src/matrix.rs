//! The matrix scanner's pure half: mapping electrical coordinates to
//! logical ones and folding a full grid of samples through the
//! debouncer. Driving output pins and reading input pins happens
//! outside; what comes in here is the sampled level of every cell.

use vstd::prelude::*;
use crate::debounce::{spec_default_step, DefaultDebouncer};
use crate::event::KeyEvent;

verus! {

/// The default settle time after driving an output line, in
/// microseconds.
pub const SCAN_DELAY_US: u64 = 5;

/// The logical `(row, col)` of the key at electrical position
/// `(out_idx, in_idx)`: with `col2row` the driven lines are columns and
/// the sensed lines rows, otherwise the other way around.
pub fn logical_coords(col2row: bool, out_idx: u8, in_idx: u8) -> (r: (u8, u8))
    ensures
        col2row ==> r == (in_idx, out_idx),
        !col2row ==> r == (out_idx, in_idx),
{
    if col2row {
        (in_idx, out_idx)
    } else {
        (out_idx, in_idx)
    }
}

/// The events one full grid of samples commits, scanning row-major from
/// cell `(r, c)` on: each cell's sample runs through the debounce step,
/// and the committed edges come out in scan order.
pub open spec fn spec_scan_from(
    db: DefaultDebouncer,
    samples: Seq<Seq<bool>>,
    now: u64,
    r: int,
    c: int,
) -> Seq<KeyEvent>
    decreases db.spec_rows() - r, db.spec_cols() - c,
{
    if r < 0 || c < 0 || r >= db.spec_rows() {
        Seq::empty()
    } else if c >= db.spec_cols() {
        spec_scan_from(db, samples, now, r + 1, 0)
    } else {
        let (st1, e) = spec_default_step(db.cells[r][c], samples[r][c], now, db.debounce_ms);
        let rest = spec_scan_from(db, samples, now, r, c + 1);
        match e {
            Some(pressed) => seq![KeyEvent { row: r as u8, col: c as u8, pressed }] + rest,
            None => rest,
        }
    }
}

impl DefaultDebouncer {
    /// Feed one full grid of samples, one per cell, taken at time `now`:
    /// every cell steps once, and the committed events come back in scan
    /// order (row-major).
    pub fn scan(&mut self, samples: &Vec<Vec<bool>>, now: u64) -> (out: Vec<KeyEvent>)
        requires
            old(self).wf(),
            old(self).spec_rows() <= 256,
            old(self).spec_cols() <= 256,
            samples@.len() == old(self).spec_rows(),
            forall|r: int|
                0 <= r < samples@.len() ==> #[trigger] samples@[r]@.len() == old(self).spec_cols(),
            forall|r: int, c: int|
                0 <= r < old(self).spec_rows() && 0 <= c < old(self).spec_cols() ==> now
                    >= #[trigger] old(self).cells[r][c].last_change,
        ensures
            final(self).wf(),
            final(self).spec_rows() == old(self).spec_rows(),
            final(self).spec_cols() == old(self).spec_cols(),
            final(self).debounce_ms == old(self).debounce_ms,
            forall|r: int, c: int|
                0 <= r < old(self).spec_rows() && 0 <= c < old(self).spec_cols()
                    ==> #[trigger] final(self).cells[r][c] == spec_default_step(
                    old(self).cells[r][c],
                    samples@[r]@[c],
                    now,
                    old(self).debounce_ms,
                ).0,
            out@ == spec_scan_from(*old(self), samples@.map_values(|v: Vec<bool>| v@), now, 0, 0),
    {
        let ghost samples_view = samples@.map_values(|v: Vec<bool>| v@);
        let rows = self.cells.len();
        let cols = self.cells[0].len();
        let mut out: Vec<KeyEvent> = Vec::new();
        let mut r: usize = 0;
        while r < rows
            invariant
                r <= rows,
                rows == old(self).spec_rows(),
                cols == old(self).spec_cols(),
                rows <= 256,
                cols <= 256,
                samples_view == samples@.map_values(|v: Vec<bool>| v@),
                samples@.len() == rows,
                forall|t: int| 0 <= t < rows ==> #[trigger] samples@[t]@.len() == cols,
                self.wf(),
                self.spec_rows() == rows,
                self.spec_cols() == cols,
                self.debounce_ms == old(self).debounce_ms,
                forall|t: int, c: int|
                    0 <= t < r && 0 <= c < cols ==> #[trigger] self.cells[t][c]
                        == spec_default_step(
                        old(self).cells[t][c],
                        samples@[t]@[c],
                        now,
                        old(self).debounce_ms,
                    ).0,
                forall|t: int, c: int|
                    r <= t < rows && 0 <= c < cols ==> #[trigger] self.cells[t][c] == old(
                        self,
                    ).cells[t][c],
                forall|t: int, c: int|
                    0 <= t < rows && 0 <= c < cols ==> now >= #[trigger] old(
                        self,
                    ).cells[t][c].last_change,
                spec_scan_from(*old(self), samples_view, now, 0, 0) =~= out@ + spec_scan_from(
                    *old(self),
                    samples_view,
                    now,
                    r as int,
                    0,
                ),
            decreases rows - r,
        {
            let mut c: usize = 0;
            while c < cols
                invariant
                    c <= cols,
                    r < rows,
                    rows == old(self).spec_rows(),
                    cols == old(self).spec_cols(),
                    rows <= 256,
                    cols <= 256,
                    samples_view == samples@.map_values(|v: Vec<bool>| v@),
                    samples@.len() == rows,
                    forall|t: int| 0 <= t < rows ==> #[trigger] samples@[t]@.len() == cols,
                    self.wf(),
                    self.spec_rows() == rows,
                    self.spec_cols() == cols,
                    self.debounce_ms == old(self).debounce_ms,
                    forall|t: int, cc: int|
                        0 <= t < r && 0 <= cc < cols ==> #[trigger] self.cells[t][cc]
                            == spec_default_step(
                            old(self).cells[t][cc],
                            samples@[t]@[cc],
                            now,
                            old(self).debounce_ms,
                        ).0,
                    forall|cc: int|
                        0 <= cc < c ==> #[trigger] self.cells[r as int][cc] == spec_default_step(
                            old(self).cells[r as int][cc],
                            samples@[r as int]@[cc],
                            now,
                            old(self).debounce_ms,
                        ).0,
                    forall|cc: int|
                        c <= cc < cols ==> #[trigger] self.cells[r as int][cc] == old(
                            self,
                        ).cells[r as int][cc],
                    forall|t: int, cc: int|
                        r < t < rows && 0 <= cc < cols ==> #[trigger] self.cells[t][cc] == old(
                            self,
                        ).cells[t][cc],
                    forall|t: int, cc: int|
                        0 <= t < rows && 0 <= cc < cols ==> now >= #[trigger] old(
                            self,
                        ).cells[t][cc].last_change,
                    spec_scan_from(*old(self), samples_view, now, 0, 0) =~= out@ + spec_scan_from(
                        *old(self),
                        samples_view,
                        now,
                        r as int,
                        c as int,
                    ),
                decreases cols - c,
            {
                let raw = samples[r][c];
                proof {
                    assert(samples_view[r as int][c as int] == samples@[r as int]@[c as int]);
                    assert(self.cells[r as int][c as int] == old(self).cells[r as int][c as int]);
                }
                match self.debounce(r, c, raw, now) {
                    Some(ev) => {
                        out.push(ev);
                    },
                    None => {
                    },
                }
                c = c + 1;
            }
            r = r + 1;
        }
        out
    }
}

} // verus!
