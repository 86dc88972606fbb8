//! Debouncing: turning noisy per-cell samples into committed key events.
//!
//! Both debouncers share one contract: an event is emitted exactly when a
//! cell's filtered state flips. The default debouncer commits a flip only
//! when the sample disagrees with the committed state and the debounce
//! interval has passed since the last committed change; the rapid
//! debouncer runs a per-cell down-counter with a smaller threshold for
//! presses than for releases, to cut press latency.

use vstd::prelude::*;
use crate::event::KeyEvent;

verus! {

/// The default debounce interval, in milliseconds.
pub const DEBOUNCE_MS: u64 = 20;

/// The rapid debouncer's press threshold, in milliseconds.
pub const RAPID_PRESS_MS: u64 = 5;

/// One cell's filtered state: the committed level and the time of the
/// last committed change.
#[derive(Clone, Copy, Debug, PartialEq, Eq, Structural)]
pub struct DebounceState {
    /// The committed level: true while the key counts as pressed.
    pub state: bool,
    /// When the committed level last changed, in milliseconds.
    pub last_change: u64,
}

/// What one sample does to one cell under the default policy: a sample
/// that disagrees with the committed level flips it — and reports the
/// flip — only when the debounce interval has passed since the last
/// committed change; any other sample changes nothing.
pub open spec fn spec_default_step(st: DebounceState, raw: bool, now: u64, d: u64) -> (
    DebounceState,
    Option<bool>,
) {
    if raw != st.state && now - st.last_change >= d {
        (DebounceState { state: raw, last_change: now }, Some(raw))
    } else {
        (st, None)
    }
}

/// The committed events of a whole sample stream of one cell, under the
/// default policy: each entry of the result is one committed edge with
/// its time.
pub open spec fn spec_default_run(st: DebounceState, samples: Seq<(bool, u64)>, d: u64) -> (
    DebounceState,
    Seq<(bool, u64)>,
)
    decreases samples.len(),
{
    if samples.len() == 0 {
        (st, Seq::empty())
    } else {
        let (st1, e) = spec_default_step(st, samples[0].0, samples[0].1, d);
        let (stf, rest) = spec_default_run(st1, samples.drop_first(), d);
        match e {
            Some(pressed) => (stf, seq![(pressed, samples[0].1)] + rest),
            None => (stf, rest),
        }
    }
}

/// Sample times never run backwards, and none predates the cell's last
/// committed change.
pub open spec fn spec_samples_monotone(st: DebounceState, samples: Seq<(bool, u64)>) -> bool {
    &&& forall|i: int| 0 <= i < samples.len() ==> st.last_change <= #[trigger] samples[i].1
    &&& forall|i: int, j: int|
        0 <= i <= j < samples.len() ==> #[trigger] samples[i].1 <= #[trigger] samples[j].1
}

/// Debounce keeps its word on any sample stream of one cell:
///
/// - between any two committed events at least the debounce interval
///   elapses, and the first comes no earlier than the debounce interval
///   after the cell's last committed change;
/// - committed events alternate: the first flips the committed level, and
///   every later one flips its predecessor.
///
/// The final cell state tracks the last committed event, which is what
/// lets the argument run on to any continuation of the stream.
pub proof fn lemma_default_debounce_stream(
    st: DebounceState,
    samples: Seq<(bool, u64)>,
    d: u64,
)
    requires
        spec_samples_monotone(st, samples),
    ensures
        ({
            let (stf, out) = spec_default_run(st, samples, d);
            &&& forall|i: int|
                0 <= i < out.len() - 1 ==> #[trigger] out[i + 1].1 >= out[i].1 + d
            &&& forall|i: int| 0 <= i < out.len() - 1 ==> #[trigger] out[i + 1].0 == !out[i].0
            &&& out.len() > 0 ==> out[0].0 == !st.state && out[0].1 >= st.last_change + d
            &&& if out.len() == 0 {
                stf == st
            } else {
                stf.state == out.last().0 && stf.last_change == out.last().1
            }
        }),
    decreases samples.len(),
{
    if samples.len() == 0 {
    } else {
        let raw = samples[0].0;
        let now = samples[0].1;
        let (st1, e) = spec_default_step(st, raw, now, d);
        assert(spec_samples_monotone(st1, samples.drop_first())) by {
            assert(forall|i: int|
                0 <= i < samples.drop_first().len() ==> #[trigger] samples.drop_first()[i]
                    == samples[i + 1]);
        }
        lemma_default_debounce_stream(st1, samples.drop_first(), d);
        let (stf, rest) = spec_default_run(st1, samples.drop_first(), d);
        match e {
            Some(pressed) => {
                let out = seq![(pressed, now)] + rest;
                assert(out[0] == (pressed, now));
                assert(forall|i: int| 0 <= i < rest.len() ==> #[trigger] out[i + 1] == rest[i]);
                assert forall|i: int| 0 <= i < out.len() - 1 implies #[trigger] out[i + 1].1
                    >= out[i].1 + d by {
                    if i == 0 {
                        assert(out[1] == rest[0]);
                        assert(rest[0].1 >= st1.last_change + d);
                    } else {
                        assert(out[i] == rest[i - 1]);
                        assert(out[i + 1] == rest[i]);
                        assert(rest[(i - 1) + 1].1 >= rest[i - 1].1 + d);
                    }
                }
                assert forall|i: int| 0 <= i < out.len() - 1 implies #[trigger] out[i + 1].0
                    == !out[i].0 by {
                    if i == 0 {
                        assert(out[1] == rest[0]);
                        assert(rest[0].0 == !st1.state);
                    } else {
                        assert(out[i] == rest[i - 1]);
                        assert(out[i + 1] == rest[i]);
                        assert(rest[(i - 1) + 1].0 == !rest[i - 1].0);
                    }
                }
                assert(out.last() == if rest.len() == 0 {
                    (pressed, now)
                } else {
                    rest.last()
                });
            },
            None => {
            },
        }
    }
}

/// The default debouncer: one [`DebounceState`] per cell and a shared
/// debounce interval.
pub struct DefaultDebouncer {
    /// Per-cell filtered state, indexed as `cells[row][col]`.
    pub cells: Vec<Vec<DebounceState>>,
    /// The debounce interval, in milliseconds.
    pub debounce_ms: u64,
}

impl DefaultDebouncer {
    /// Rectangular grid of cells.
    pub open spec fn wf(&self) -> bool {
        &&& self.cells.len() >= 1
        &&& forall|r: int|
            0 <= r < self.cells.len() ==> #[trigger] self.cells[r]@.len() == self.cells[0]@.len()
        &&& self.cells[0]@.len() >= 1
    }

    pub open spec fn spec_rows(&self) -> int {
        self.cells.len() as int
    }

    pub open spec fn spec_cols(&self) -> int {
        self.cells[0]@.len() as int
    }

    /// A fresh debouncer: every cell released, last change at time 0.
    pub fn new(rows: usize, cols: usize, debounce_ms: u64) -> (r: DefaultDebouncer)
        requires
            1 <= rows,
            1 <= cols,
        ensures
            r.wf(),
            r.spec_rows() == rows,
            r.spec_cols() == cols,
            r.debounce_ms == debounce_ms,
            forall|rr: int, cc: int|
                0 <= rr < rows && 0 <= cc < cols ==> #[trigger] r.cells[rr][cc]
                    == (DebounceState { state: false, last_change: 0 }),
    {
        let mut cells: Vec<Vec<DebounceState>> = Vec::new();
        let mut i: usize = 0;
        while i < rows
            invariant
                i <= rows,
                cells.len() == i,
                forall|r: int| 0 <= r < i ==> #[trigger] cells[r]@.len() == cols,
                forall|rr: int, cc: int|
                    0 <= rr < i && 0 <= cc < cols ==> #[trigger] cells[rr][cc] == (DebounceState {
                        state: false,
                        last_change: 0,
                    }),
            decreases rows - i,
        {
            let mut row: Vec<DebounceState> = Vec::new();
            let mut j: usize = 0;
            while j < cols
                invariant
                    j <= cols,
                    row.len() == j,
                    forall|cc: int|
                        0 <= cc < j ==> #[trigger] row[cc] == (DebounceState {
                            state: false,
                            last_change: 0,
                        }),
                decreases cols - j,
            {
                row.push(DebounceState { state: false, last_change: 0 });
                j = j + 1;
            }
            cells.push(row);
            i = i + 1;
        }
        DefaultDebouncer { cells, debounce_ms }
    }

    /// Feed one raw sample of one cell; the returned event, if any, is
    /// the committed edge, exactly as [`spec_default_step`] says.
    pub fn debounce(&mut self, row: usize, col: usize, raw: bool, now: u64) -> (r: Option<
        KeyEvent,
    >)
        requires
            old(self).wf(),
            row < old(self).spec_rows(),
            col < old(self).spec_cols(),
            now >= old(self).cells[row as int][col as int].last_change,
            row < 256,
            col < 256,
        ensures
            final(self).wf(),
            final(self).spec_rows() == old(self).spec_rows(),
            final(self).spec_cols() == old(self).spec_cols(),
            final(self).debounce_ms == old(self).debounce_ms,
            ({
                let (st1, e) = spec_default_step(
                    old(self).cells[row as int][col as int],
                    raw,
                    now,
                    old(self).debounce_ms,
                );
                &&& final(self).cells[row as int][col as int] == st1
                &&& r == match e {
                    Some(pressed) => Some(
                        KeyEvent { row: row as u8, col: col as u8, pressed },
                    ),
                    None => None::<KeyEvent>,
                }
            }),
            forall|rr: int, cc: int|
                0 <= rr < old(self).spec_rows() && 0 <= cc < old(self).spec_cols() && !(rr == row
                    && cc == col) ==> #[trigger] final(self).cells[rr][cc] == old(
                    self,
                ).cells[rr][cc],
    {
        let st = self.cells[row][col];
        if raw != st.state && now - st.last_change >= self.debounce_ms {
            self.cells[row].set(col, DebounceState { state: raw, last_change: now });
            Some(KeyEvent { row: row as u8, col: col as u8, pressed: raw })
        } else {
            None
        }
    }
}

/// One cell of the rapid debouncer: the committed level, the remaining
/// down-count toward the next flip, and the time of the last sample.
#[derive(Clone, Copy, Debug, PartialEq, Eq, Structural)]
pub struct RapidCell {
    /// The committed level: true while the key counts as pressed.
    pub state: bool,
    /// Milliseconds of disagreement still needed before the level flips.
    pub counter: u64,
    /// When the cell was last sampled, in milliseconds.
    pub last_sample: u64,
}

/// The threshold reloaded after a flip to `state` (or after agreement):
/// how long the samples must disagree with `state` before it flips again.
/// A release-to-press transition uses the smaller press threshold.
pub open spec fn spec_rapid_threshold(state: bool, press_ms: u64, release_ms: u64) -> u64 {
    if state {
        release_ms
    } else {
        press_ms
    }
}

/// What one sample does to one rapid cell: agreement reloads the counter;
/// disagreement counts the elapsed time down, and on reaching zero the
/// level flips, the flip is reported, and the counter reloads for the
/// opposite direction.
pub open spec fn spec_rapid_step(st: RapidCell, raw: bool, now: u64, press_ms: u64, release_ms: u64) -> (
    RapidCell,
    Option<bool>,
) {
    let elapsed = (now - st.last_sample) as u64;
    if raw == st.state {
        (
            RapidCell {
                state: st.state,
                counter: spec_rapid_threshold(st.state, press_ms, release_ms),
                last_sample: now,
            },
            None,
        )
    } else if st.counter > elapsed {
        (
            RapidCell { state: st.state, counter: (st.counter - elapsed) as u64, last_sample: now },
            None,
        )
    } else {
        (
            RapidCell {
                state: raw,
                counter: spec_rapid_threshold(raw, press_ms, release_ms),
                last_sample: now,
            },
            Some(raw),
        )
    }
}

/// The rapid debouncer: a per-cell down-counter with an asymmetric
/// threshold, smaller for presses than for releases.
pub struct RapidDebouncer {
    /// Per-cell state, indexed as `cells[row][col]`.
    pub cells: Vec<Vec<RapidCell>>,
    /// Milliseconds of disagreement before a release-to-press flip.
    pub press_ms: u64,
    /// Milliseconds of disagreement before a press-to-release flip.
    pub release_ms: u64,
}

impl RapidDebouncer {
    /// Rectangular grid of cells.
    pub open spec fn wf(&self) -> bool {
        &&& self.cells.len() >= 1
        &&& forall|r: int|
            0 <= r < self.cells.len() ==> #[trigger] self.cells[r]@.len() == self.cells[0]@.len()
        &&& self.cells[0]@.len() >= 1
    }

    pub open spec fn spec_rows(&self) -> int {
        self.cells.len() as int
    }

    pub open spec fn spec_cols(&self) -> int {
        self.cells[0]@.len() as int
    }

    /// A fresh debouncer: every cell released, its counter loaded with
    /// the press threshold.
    pub fn new(rows: usize, cols: usize, press_ms: u64, release_ms: u64) -> (r: RapidDebouncer)
        requires
            1 <= rows,
            1 <= cols,
        ensures
            r.wf(),
            r.spec_rows() == rows,
            r.spec_cols() == cols,
            r.press_ms == press_ms,
            r.release_ms == release_ms,
            forall|rr: int, cc: int|
                0 <= rr < rows && 0 <= cc < cols ==> #[trigger] r.cells[rr][cc] == (RapidCell {
                    state: false,
                    counter: press_ms,
                    last_sample: 0,
                }),
    {
        let mut cells: Vec<Vec<RapidCell>> = Vec::new();
        let mut i: usize = 0;
        while i < rows
            invariant
                i <= rows,
                cells.len() == i,
                forall|r: int| 0 <= r < i ==> #[trigger] cells[r]@.len() == cols,
                forall|rr: int, cc: int|
                    0 <= rr < i && 0 <= cc < cols ==> #[trigger] cells[rr][cc] == (RapidCell {
                        state: false,
                        counter: press_ms,
                        last_sample: 0,
                    }),
            decreases rows - i,
        {
            let mut row: Vec<RapidCell> = Vec::new();
            let mut j: usize = 0;
            while j < cols
                invariant
                    j <= cols,
                    row.len() == j,
                    forall|cc: int|
                        0 <= cc < j ==> #[trigger] row[cc] == (RapidCell {
                            state: false,
                            counter: press_ms,
                            last_sample: 0,
                        }),
                decreases cols - j,
            {
                row.push(RapidCell { state: false, counter: press_ms, last_sample: 0 });
                j = j + 1;
            }
            cells.push(row);
            i = i + 1;
        }
        RapidDebouncer { cells, press_ms, release_ms }
    }

    /// Feed one raw sample of one cell; the returned event, if any, is
    /// the committed edge, exactly as [`spec_rapid_step`] says. An event
    /// always flips the committed level, so the committed events of any
    /// one cell alternate press, release, press, release.
    pub fn debounce(&mut self, row: usize, col: usize, raw: bool, now: u64) -> (r: Option<
        KeyEvent,
    >)
        requires
            old(self).wf(),
            row < old(self).spec_rows(),
            col < old(self).spec_cols(),
            now >= old(self).cells[row as int][col as int].last_sample,
            row < 256,
            col < 256,
        ensures
            final(self).wf(),
            final(self).spec_rows() == old(self).spec_rows(),
            final(self).spec_cols() == old(self).spec_cols(),
            final(self).press_ms == old(self).press_ms,
            final(self).release_ms == old(self).release_ms,
            ({
                let (st1, e) = spec_rapid_step(
                    old(self).cells[row as int][col as int],
                    raw,
                    now,
                    old(self).press_ms,
                    old(self).release_ms,
                );
                &&& final(self).cells[row as int][col as int] == st1
                &&& r == match e {
                    Some(pressed) => Some(
                        KeyEvent { row: row as u8, col: col as u8, pressed },
                    ),
                    None => None::<KeyEvent>,
                }
                &&& r is Some ==> st1.state == !old(self).cells[row as int][col as int].state
            }),
            forall|rr: int, cc: int|
                0 <= rr < old(self).spec_rows() && 0 <= cc < old(self).spec_cols() && !(rr == row
                    && cc == col) ==> #[trigger] final(self).cells[rr][cc] == old(
                    self,
                ).cells[rr][cc],
    {
        let st = self.cells[row][col];
        let elapsed = now - st.last_sample;
        if raw == st.state {
            let thresh = if st.state {
                self.release_ms
            } else {
                self.press_ms
            };
            self.cells[row].set(
                col,
                RapidCell { state: st.state, counter: thresh, last_sample: now },
            );
            None
        } else if st.counter > elapsed {
            self.cells[row].set(
                col,
                RapidCell { state: st.state, counter: st.counter - elapsed, last_sample: now },
            );
            None
        } else {
            let thresh = if raw {
                self.release_ms
            } else {
                self.press_ms
            };
            self.cells[row].set(col, RapidCell { state: raw, counter: thresh, last_sample: now });
            Some(KeyEvent { row: row as u8, col: col as u8, pressed: raw })
        }
    }
}

} // verus!
