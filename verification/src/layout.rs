//! Parsing the human-readable layout: each cell of the configured keymap
//! is a short string — a key name, or a form such as `MO(1)`, `WM(A,
//! LShift)`, `MT(F, LShift)` — parsed here into a structured key
//! description. Turning the description into generated code happens
//! outside; this module owns the grammar.
//!
//! All parsing works on the string's bytes; the grammar is ASCII.

use vstd::prelude::*;
use vstd::string::StringSliceAdditionalSpecFns;

verus! {

/// Which modifiers a parsed modifier list names. The side is shared: one
/// `right` flag and the four modifier flags.
#[derive(Clone, Copy, Debug, PartialEq, Eq, Structural)]
pub struct ModifierCombinationMacro {
    pub right: bool,
    pub gui: bool,
    pub alt: bool,
    pub shift: bool,
    pub ctrl: bool,
}

impl ModifierCombinationMacro {
    /// No modifiers.
    pub fn new() -> (r: Self)
        ensures
            r == Self::spec_new(),
    {
        Self { right: false, gui: false, alt: false, shift: false, ctrl: false }
    }

    pub open spec fn spec_new() -> Self {
        Self { right: false, gui: false, alt: false, shift: false, ctrl: false }
    }

    pub open spec fn spec_is_empty(self) -> bool {
        !(self.gui || self.alt || self.shift || self.ctrl)
    }

    /// Whether the list named no modifier (the side alone counts for
    /// nothing).
    pub fn is_empty(&self) -> (r: bool)
        ensures
            r == self.spec_is_empty(),
    {
        !(self.gui || self.alt || self.shift || self.ctrl)
    }
}

/// A parsed key description: what one cell string means.
#[derive(Clone, Debug, PartialEq, Eq)]
pub enum ParsedKey {
    /// An inert position (a string of underscores).
    Inert,
    /// A plain key name, to be resolved as a key-code identifier.
    Plain(Vec<u8>),
    /// `WM(key, mods)`: a key with modifiers.
    WithMods(Vec<u8>, ModifierCombinationMacro),
    /// `MO(n)`: momentary layer.
    Momentary(u8),
    /// `OSL(n)`: one-shot layer.
    OneShot(u8),
    /// `OSM(mods)`: one-shot modifiers.
    OneShotMods(ModifierCombinationMacro),
    /// `LM(n, mods)`: momentary layer with modifiers.
    LayerMods(u8, ModifierCombinationMacro),
    /// `LT(n, key)`: tap for the key, hold for the layer.
    LayerTapKey(u8, Vec<u8>),
    /// `TT(n)`: tap-toggle layer.
    TapToggle(u8),
    /// `TG(n)`: toggle layer.
    Toggle(u8),
    /// `TO(n)`: activate exactly this layer.
    To(u8),
    /// `DF(n)`: change the default layer.
    DefaultLayer(u8),
    /// `MT(key, mods)`: tap for the key, hold for the modifiers.
    ModTapKey(Vec<u8>, ModifierCombinationMacro),
    /// `TH(tap, hold)`: tap for the first key, hold for the second.
    TapHoldKey(Vec<u8>, Vec<u8>),
}

/// Why a cell string was rejected.
#[derive(Clone, Copy, Debug, PartialEq, Eq, Structural)]
pub enum LayoutError {
    /// A two-part form did not have exactly two comma-separated parts,
    /// or lost its closing parenthesis.
    BadForm,
    /// The modifier list named no modifier.
    EmptyModifiers,
    /// The layer number is not a decimal number up to 255.
    BadLayer,
}

/// Whether a byte is ASCII whitespace, as the layout grammar trims it.
pub open spec fn spec_is_ws(b: u8) -> bool {
    b == 0x20 || (0x09 <= b <= 0x0D)
}

/// The first non-whitespace position at or after `lo`, up to `hi`.
pub open spec fn spec_ws_lo(s: Seq<u8>, lo: int, hi: int) -> int
    decreases hi - lo,
{
    if lo < hi && spec_is_ws(s[lo]) {
        spec_ws_lo(s, lo + 1, hi)
    } else {
        lo
    }
}

/// The position after the last non-whitespace byte in `[lo, hi)`.
pub open spec fn spec_ws_hi(s: Seq<u8>, lo: int, hi: int) -> int
    decreases hi - lo,
{
    if hi > lo && spec_is_ws(s[hi - 1]) {
        spec_ws_hi(s, lo, hi - 1)
    } else {
        hi
    }
}

/// The window `[lo, hi)` with surrounding whitespace trimmed.
pub open spec fn spec_trim(s: Seq<u8>, lo: int, hi: int) -> (int, int) {
    let a = spec_ws_lo(s, lo, hi);
    (a, spec_ws_hi(s, a, hi))
}

/// The first position of byte `b` in `[i, hi)`, or `hi`.
pub open spec fn spec_find(s: Seq<u8>, b: u8, i: int, hi: int) -> int
    decreases hi - i,
{
    if i < hi {
        if s[i] == b {
            i
        } else {
            spec_find(s, b, i + 1, hi)
        }
    } else {
        hi
    }
}

/// The window after repeatedly removing the whole prefix `p` from the
/// front.
pub open spec fn spec_trim_start(s: Seq<u8>, lo: int, hi: int, p: Seq<u8>) -> int
    decreases hi - lo,
{
    if p.len() > 0 && lo + p.len() <= hi && s.subrange(lo, lo + p.len()) == p {
        spec_trim_start(s, lo + p.len(), hi, p)
    } else {
        lo
    }
}

/// The window after repeatedly removing the whole suffix `p` from the
/// back.
pub open spec fn spec_trim_end(s: Seq<u8>, lo: int, hi: int, p: Seq<u8>) -> int
    decreases hi - lo,
{
    if p.len() > 0 && lo + p.len() <= hi && s.subrange(hi - p.len(), hi) == p {
        spec_trim_end(s, lo, hi - p.len(), p)
    } else {
        hi
    }
}

/// The new end after removing the suffix `p` once, if it is there.
pub open spec fn spec_strip_suffix(s: Seq<u8>, lo: int, hi: int, p: Seq<u8>) -> Option<int> {
    if lo + p.len() <= hi && s.subrange(hi - p.len(), hi) == p {
        Some(hi - p.len())
    } else {
        None
    }
}

/// The decimal value of `[lo, hi)`, capped at 256: every digit folds in
/// unless the running value has already left the one-byte range.
pub open spec fn spec_num_capped(s: Seq<u8>, lo: int, hi: int) -> int
    decreases hi - lo,
{
    if lo >= hi {
        0
    } else {
        let v = spec_num_capped(s, lo, hi - 1);
        if v > 255 {
            256
        } else {
            let d = s[hi - 1] - 0x30;
            if v * 10 + d > 255 {
                256
            } else {
                v * 10 + d
            }
        }
    }
}

/// Whether every byte of `[lo, hi)` is a decimal digit.
pub open spec fn spec_all_digits(s: Seq<u8>, lo: int, hi: int) -> bool {
    forall|i: int| lo <= i < hi ==> 0x30 <= #[trigger] s[i] <= 0x39
}

/// The one-byte layer number `[lo, hi)` names, if it names one: an
/// optional plus sign, then decimal digits, value up to 255.
pub open spec fn spec_parse_layer(s: Seq<u8>, lo: int, hi: int) -> Option<u8> {
    let lo1 = if lo < hi && s[lo] == 0x2B {
        lo + 1
    } else {
        lo
    };
    if lo1 < hi && spec_all_digits(s, lo1, hi) && spec_num_capped(s, lo1, hi) <= 255 {
        Some(spec_num_capped(s, lo1, hi) as u8)
    } else {
        None
    }
}

/// The modifier word literals of the grammar.
pub open spec fn lit_lshift() -> Seq<u8> {
    seq![0x4Cu8, 0x53, 0x68, 0x69, 0x66, 0x74]
}

pub open spec fn lit_lctrl() -> Seq<u8> {
    seq![0x4Cu8, 0x43, 0x74, 0x72, 0x6C]
}

pub open spec fn lit_lalt() -> Seq<u8> {
    seq![0x4Cu8, 0x41, 0x6C, 0x74]
}

pub open spec fn lit_lgui() -> Seq<u8> {
    seq![0x4Cu8, 0x47, 0x75, 0x69]
}

pub open spec fn lit_rshift() -> Seq<u8> {
    seq![0x52u8, 0x53, 0x68, 0x69, 0x66, 0x74]
}

pub open spec fn lit_rctrl() -> Seq<u8> {
    seq![0x52u8, 0x43, 0x74, 0x72, 0x6C]
}

pub open spec fn lit_ralt() -> Seq<u8> {
    seq![0x52u8, 0x41, 0x6C, 0x74]
}

pub open spec fn lit_rgui() -> Seq<u8> {
    seq![0x52u8, 0x47, 0x75, 0x69]
}

/// What one word of a modifier list adds to the combination; an unknown
/// word adds nothing.
pub open spec fn spec_apply_word(m: ModifierCombinationMacro, w: Seq<u8>) -> ModifierCombinationMacro {
    if w == lit_lshift() {
        ModifierCombinationMacro { shift: true, ..m }
    } else if w == lit_lctrl() {
        ModifierCombinationMacro { ctrl: true, ..m }
    } else if w == lit_lalt() {
        ModifierCombinationMacro { alt: true, ..m }
    } else if w == lit_lgui() {
        ModifierCombinationMacro { gui: true, ..m }
    } else if w == lit_rshift() {
        ModifierCombinationMacro { right: true, shift: true, ..m }
    } else if w == lit_rctrl() {
        ModifierCombinationMacro { right: true, ctrl: true, ..m }
    } else if w == lit_ralt() {
        ModifierCombinationMacro { right: true, alt: true, ..m }
    } else if w == lit_rgui() {
        ModifierCombinationMacro { right: true, gui: true, ..m }
    } else {
        m
    }
}

/// The combination a modifier list `[i, hi)` names, words separated by
/// `|`, each trimmed, folded left to right into `m`.
pub open spec fn spec_parse_mods_from(s: Seq<u8>, i: int, hi: int, m: ModifierCombinationMacro) -> ModifierCombinationMacro
    decreases hi - i,
{
    if i >= hi {
        m
    } else {
        let j = spec_find(s, 0x7C, i, hi);
        let t = spec_trim(s, i, j);
        let m1 = spec_apply_word(m, s.subrange(t.0, t.1));
        if j >= hi || j < i {
            m1
        } else {
            spec_parse_mods_from(s, j + 1, hi, m1)
        }
    }
}

/// The comma-separated parts of `[i, hi)`: each trimmed, empty parts
/// dropped, given as trimmed windows.
pub open spec fn spec_segments(s: Seq<u8>, i: int, hi: int) -> Seq<(int, int)>
    decreases hi - i,
{
    if i >= hi {
        Seq::empty()
    } else {
        let j = spec_find(s, 0x2C, i, hi);
        let t = spec_trim(s, i, j);
        let rest = if j >= hi || j < i {
            Seq::empty()
        } else {
            spec_segments(s, j + 1, hi)
        };
        if t.1 > t.0 {
            seq![t] + rest
        } else {
            rest
        }
    }
}

/// The first position of byte `b` in `[i, hi)`, or `hi`; see
/// [`spec_find`].
fn find_byte(s: &[u8], b: u8, i: usize, hi: usize) -> (r: usize)
    requires
        i <= hi <= s@.len(),
    ensures
        r == spec_find(s@, b, i as int, hi as int),
        i <= r <= hi,
{
    let mut k = i;
    while k < hi
        invariant
            i <= k <= hi <= s@.len(),
            spec_find(s@, b, i as int, hi as int) == spec_find(s@, b, k as int, hi as int),
        decreases hi - k,
    {
        if s[k] == b {
            return k;
        }
        k = k + 1;
    }
    k
}

/// Trim ASCII whitespace off both ends of `[lo, hi)`; see [`spec_trim`].
fn trim_range(s: &[u8], lo: usize, hi: usize) -> (r: (usize, usize))
    requires
        lo <= hi <= s@.len(),
    ensures
        r.0 == spec_trim(s@, lo as int, hi as int).0,
        r.1 == spec_trim(s@, lo as int, hi as int).1,
        lo <= r.0 <= r.1 <= hi,
{
    let mut a = lo;
    while a < hi && (s[a] == 0x20 || (0x09 <= s[a] && s[a] <= 0x0D))
        invariant
            lo <= a <= hi <= s@.len(),
            spec_ws_lo(s@, lo as int, hi as int) == spec_ws_lo(s@, a as int, hi as int),
        decreases hi - a,
    {
        a = a + 1;
    }
    let mut b = hi;
    while b > a && (s[b - 1] == 0x20 || (0x09 <= s[b - 1] && s[b - 1] <= 0x0D))
        invariant
            a <= b <= hi <= s@.len(),
            spec_ws_hi(s@, a as int, hi as int) == spec_ws_hi(s@, a as int, b as int),
        decreases b,
    {
        b = b - 1;
    }
    (a, b)
}

/// Whether `[lo, hi)` equals the word `w` byte for byte.
fn range_eq(s: &[u8], lo: usize, hi: usize, w: &[u8]) -> (r: bool)
    requires
        lo <= hi <= s@.len(),
    ensures
        r == (s@.subrange(lo as int, hi as int) == w@),
{
    if hi - lo != w.len() {
        proof {
            assert(s@.subrange(lo as int, hi as int).len() != w@.len());
        }
        return false;
    }
    let mut k: usize = 0;
    while k < w.len()
        invariant
            k <= w@.len(),
            lo + w@.len() == hi,
            hi <= s@.len(),
            forall|t: int| 0 <= t < k ==> s@[lo + t] == #[trigger] w@[t],
        decreases w.len() - k,
    {
        if s[lo + k] != w[k] {
            proof {
                assert(s@.subrange(lo as int, hi as int)[k as int] == s@[lo + k]);
            }
            return false;
        }
        k = k + 1;
    }
    proof {
        assert(s@.subrange(lo as int, hi as int) =~= w@);
    }
    true
}

/// A copy of `[lo, hi)`.
fn copy_range(s: &[u8], lo: usize, hi: usize) -> (r: Vec<u8>)
    requires
        lo <= hi <= s@.len(),
    ensures
        r@ == s@.subrange(lo as int, hi as int),
{
    let mut out: Vec<u8> = Vec::new();
    let mut k = lo;
    while k < hi
        invariant
            lo <= k <= hi <= s@.len(),
            out@ =~= s@.subrange(lo as int, k as int),
        decreases hi - k,
    {
        out.push(s[k]);
        proof {
            assert(out@ =~= s@.subrange(lo as int, k + 1));
        }
        k = k + 1;
    }
    out
}

/// Fold one trimmed word of a modifier list into the combination; see
/// [`spec_apply_word`].
fn apply_word(s: &[u8], lo: usize, hi: usize, m: ModifierCombinationMacro) -> (r: ModifierCombinationMacro)
    requires
        lo <= hi <= s@.len(),
    ensures
        r == spec_apply_word(m, s@.subrange(lo as int, hi as int)),
{
    let w_lshift: [u8; 6] = [0x4C, 0x53, 0x68, 0x69, 0x66, 0x74];
    let w_lctrl: [u8; 5] = [0x4C, 0x43, 0x74, 0x72, 0x6C];
    let w_lalt: [u8; 4] = [0x4C, 0x41, 0x6C, 0x74];
    let w_lgui: [u8; 4] = [0x4C, 0x47, 0x75, 0x69];
    let w_rshift: [u8; 6] = [0x52, 0x53, 0x68, 0x69, 0x66, 0x74];
    let w_rctrl: [u8; 5] = [0x52, 0x43, 0x74, 0x72, 0x6C];
    let w_ralt: [u8; 4] = [0x52, 0x41, 0x6C, 0x74];
    let w_rgui: [u8; 4] = [0x52, 0x47, 0x75, 0x69];
    proof {
        assert(w_lshift@ =~= lit_lshift());
        assert(w_lctrl@ =~= lit_lctrl());
        assert(w_lalt@ =~= lit_lalt());
        assert(w_lgui@ =~= lit_lgui());
        assert(w_rshift@ =~= lit_rshift());
        assert(w_rctrl@ =~= lit_rctrl());
        assert(w_ralt@ =~= lit_ralt());
        assert(w_rgui@ =~= lit_rgui());
    }
    if range_eq(s, lo, hi, w_lshift.as_slice()) {
        ModifierCombinationMacro { shift: true, ..m }
    } else if range_eq(s, lo, hi, w_lctrl.as_slice()) {
        ModifierCombinationMacro { ctrl: true, ..m }
    } else if range_eq(s, lo, hi, w_lalt.as_slice()) {
        ModifierCombinationMacro { alt: true, ..m }
    } else if range_eq(s, lo, hi, w_lgui.as_slice()) {
        ModifierCombinationMacro { gui: true, ..m }
    } else if range_eq(s, lo, hi, w_rshift.as_slice()) {
        ModifierCombinationMacro { right: true, shift: true, ..m }
    } else if range_eq(s, lo, hi, w_rctrl.as_slice()) {
        ModifierCombinationMacro { right: true, ctrl: true, ..m }
    } else if range_eq(s, lo, hi, w_ralt.as_slice()) {
        ModifierCombinationMacro { right: true, alt: true, ..m }
    } else if range_eq(s, lo, hi, w_rgui.as_slice()) {
        ModifierCombinationMacro { right: true, gui: true, ..m }
    } else {
        m
    }
}

/// Parse a modifier list in `[lo, hi)`; see [`spec_parse_mods_from`].
fn parse_modifiers_range(s: &[u8], lo: usize, hi: usize) -> (r: ModifierCombinationMacro)
    requires
        lo <= hi <= s@.len(),
    ensures
        r == spec_parse_mods_from(s@, lo as int, hi as int, ModifierCombinationMacro::spec_new()),
{
    let mut m = ModifierCombinationMacro::new();
    let mut cur = lo;
    loop
        invariant
            lo <= cur,
            cur <= hi + 1,
            hi <= s@.len(),
            spec_parse_mods_from(s@, lo as int, hi as int, ModifierCombinationMacro::spec_new())
                == spec_parse_mods_from(s@, cur as int, hi as int, m),
        ensures
            m == spec_parse_mods_from(
                s@,
                lo as int,
                hi as int,
                ModifierCombinationMacro::spec_new(),
            ),
        decreases hi + 1 - cur,
    {
        if cur >= hi {
            break ;
        }
        let j = find_byte(s, 0x7C, cur, hi);
        let t = trim_range(s, cur, j);
        m = apply_word(s, t.0, t.1, m);
        if j >= hi {
            break ;
        }
        cur = j + 1;
    }
    m
}

/// Parse a modifier list: words such as `LShift`, `RAlt`, separated by
/// `|`, each trimmed of surrounding whitespace; unknown words are
/// ignored, and a word on the right side sets the shared side flag.
pub fn parse_modifiers(modifiers_str: &str) -> (r: ModifierCombinationMacro)
    ensures
        r == spec_parse_mods_from(
            modifiers_str.spec_bytes(),
            0,
            modifiers_str.spec_bytes().len() as int,
            ModifierCombinationMacro::spec_new(),
        ),
{
    let s = modifiers_str.as_bytes();
    parse_modifiers_range(s, 0, s.len())
}

/// What [`get_layer`] computes: strip the prefix and the suffix, as
/// often as they are there, and read the remainder as a layer number.
pub open spec fn spec_get_layer(s: Seq<u8>, prefix: Seq<u8>, suffix: Seq<u8>) -> Option<u8> {
    let lo = spec_trim_start(s, 0, s.len() as int, prefix);
    let hi = spec_trim_end(s, lo, s.len() as int, suffix);
    spec_parse_layer(s, lo, hi)
}

/// Strip the prefix from the front, as often as it is there; see
/// [`spec_trim_start`].
fn trim_start_lit(s: &[u8], lo: usize, hi: usize, p: &[u8]) -> (r: usize)
    requires
        lo <= hi <= s@.len(),
    ensures
        r == spec_trim_start(s@, lo as int, hi as int, p@),
        lo <= r <= hi,
{
    let mut cur = lo;
    loop
        invariant
            lo <= cur <= hi <= s@.len(),
            spec_trim_start(s@, lo as int, hi as int, p@) == spec_trim_start(
                s@,
                cur as int,
                hi as int,
                p@,
            ),
        ensures
            cur == spec_trim_start(s@, lo as int, hi as int, p@),
            lo <= cur <= hi,
        decreases hi - cur,
    {
        if p.len() == 0 || p.len() > hi - cur {
            return cur;
        }
        if !range_eq(s, cur, cur + p.len(), p) {
            return cur;
        }
        cur = cur + p.len();
    }
}

/// Strip the suffix from the back, as often as it is there; see
/// [`spec_trim_end`].
fn trim_end_lit(s: &[u8], lo: usize, hi: usize, p: &[u8]) -> (r: usize)
    requires
        lo <= hi <= s@.len(),
    ensures
        r == spec_trim_end(s@, lo as int, hi as int, p@),
        lo <= r <= hi,
{
    let mut cur = hi;
    loop
        invariant
            lo <= cur <= hi <= s@.len(),
            spec_trim_end(s@, lo as int, hi as int, p@) == spec_trim_end(
                s@,
                lo as int,
                cur as int,
                p@,
            ),
        ensures
            cur == spec_trim_end(s@, lo as int, hi as int, p@),
            lo <= cur <= hi,
        decreases cur,
    {
        if p.len() == 0 || p.len() > cur - lo {
            return cur;
        }
        if !range_eq(s, cur - p.len(), cur, p) {
            return cur;
        }
        cur = cur - p.len();
    }
}

/// Read the layer number in `[lo, hi)`; `None` unless it is an optional
/// plus sign, then digits, value up to 255.
fn parse_layer_range(s: &[u8], lo: usize, hi: usize) -> (r: Option<u8>)
    requires
        lo <= hi <= s@.len(),
    ensures
        r == spec_parse_layer(s@, lo as int, hi as int),
{
    let lo1 = if lo < hi && s[lo] == 0x2B {
        lo + 1
    } else {
        lo
    };
    if lo1 >= hi {
        return None;
    }
    let mut val: u16 = 0;
    let mut k = lo1;
    while k < hi
        invariant
            lo <= lo1 <= k <= hi <= s@.len(),
            lo1 as int == (if lo < hi && s@[lo as int] == 0x2B {
                lo + 1
            } else {
                lo as int
            }),
            spec_all_digits(s@, lo1 as int, k as int),
            val == spec_num_capped(s@, lo1 as int, k as int),
            val <= 256,
        decreases hi - k,
    {
        let b = s[k];
        if b < 0x30 || b > 0x39 {
            proof {
                assert(lo1 <= k < hi && !(0x30 <= s@[k as int] <= 0x39));
                assert(!spec_all_digits(s@, lo1 as int, hi as int));
            }
            return None;
        }
        let d = (b - 0x30) as u16;
        val = if val > 255 {
            256
        } else if val * 10 + d > 255 {
            256
        } else {
            val * 10 + d
        };
        k = k + 1;
    }
    if val <= 255 {
        Some(val as u8)
    } else {
        None
    }
}

/// Count segments and hand out the first two: `r.0` is the segment
/// count, capped at 3.
fn segments2(s: &[u8], lo: usize, hi: usize) -> (r: (usize, (usize, usize), (usize, usize)))
    requires
        lo <= hi <= s@.len(),
    ensures
        ({
            let segs = spec_segments(s@, lo as int, hi as int);
            &&& r.0 == (if segs.len() > 2 {
                3int
            } else {
                segs.len() as int
            })
            &&& r.0 >= 1 ==> (r.1.0 as int, r.1.1 as int) == segs[0] && lo <= r.1.0 <= r.1.1 <= hi
            &&& r.0 >= 2 ==> (r.2.0 as int, r.2.1 as int) == segs[1] && lo <= r.2.0 <= r.2.1 <= hi
        }),
{
    let mut cur = lo;
    let mut count: usize = 0;
    let mut s0: (usize, usize) = (lo, lo);
    let mut s1: (usize, usize) = (lo, lo);
    let ghost mut done: Seq<(int, int)> = Seq::empty();
    loop
        invariant_except_break
            spec_segments(s@, lo as int, hi as int) =~= done + spec_segments(
                s@,
                cur as int,
                hi as int,
            ),
        invariant
            lo <= cur <= hi <= s@.len(),
            count == (if done.len() > 2 {
                3int
            } else {
                done.len() as int
            }),
            count >= 1 ==> (s0.0 as int, s0.1 as int) == done[0] && lo <= s0.0 <= s0.1 <= hi,
            count >= 2 ==> (s1.0 as int, s1.1 as int) == done[1] && lo <= s1.0 <= s1.1 <= hi,
        ensures
            spec_segments(s@, lo as int, hi as int) =~= done,
            count == (if done.len() > 2 {
                3int
            } else {
                done.len() as int
            }),
            count >= 1 ==> (s0.0 as int, s0.1 as int) == done[0] && lo <= s0.0 <= s0.1 <= hi,
            count >= 2 ==> (s1.0 as int, s1.1 as int) == done[1] && lo <= s1.0 <= s1.1 <= hi,
        decreases hi - cur,
    {
        if cur >= hi {
            proof {
                assert(spec_segments(s@, lo as int, hi as int) =~= done);
            }
            break ;
        }
        let j = find_byte(s, 0x2C, cur, hi);
        let t = trim_range(s, cur, j);
        if t.1 > t.0 {
            if count == 0 {
                s0 = t;
            } else if count == 1 {
                s1 = t;
            }
            if count < 3 {
                count = count + 1;
            }
            proof {
                done = done.push((t.0 as int, t.1 as int));
            }
        }
        if j >= hi {
            proof {
                assert(spec_segments(s@, lo as int, hi as int) =~= done);
            }
            break ;
        }
        proof {
            assert(spec_segments(s@, lo as int, hi as int) =~= done + spec_segments(
                s@,
                j + 1,
                hi as int,
            ));
        }
        cur = j + 1;
    }
    (count, s0, s1)
}

/// How [`parse_key`]'s result relates to the cell string's bytes: the
/// grammar, case by case.
pub open spec fn spec_parse_key_rel(s: Seq<u8>, r: Result<ParsedKey, LayoutError>) -> bool {
    let len = s.len() as int;
    if len < 5 {
        if len > 0 && (forall|i: int| 0 <= i < len ==> s[i] == 0x5F) {
            r == Ok::<ParsedKey, LayoutError>(ParsedKey::Inert)
        } else {
            match r {
                Ok(ParsedKey::Plain(id)) => id@ == s,
                _ => false,
            }
        }
    } else if s.subrange(0, 3) == seq![0x57u8, 0x4D, 0x28] {  // "WM("
        let lo = spec_trim_start(s, 0, len, seq![0x57u8, 0x4D, 0x28]);
        match spec_strip_suffix(s, lo, len, seq![0x29u8]) {
            None => r == Err::<ParsedKey, LayoutError>(LayoutError::BadForm),
            Some(hi) => {
                let segs = spec_segments(s, lo, hi);
                if segs.len() != 2 {
                    r == Err::<ParsedKey, LayoutError>(LayoutError::BadForm)
                } else {
                    let m = spec_parse_mods_from(
                        s,
                        segs[1].0,
                        segs[1].1,
                        ModifierCombinationMacro::spec_new(),
                    );
                    if m.spec_is_empty() {
                        r == Err::<ParsedKey, LayoutError>(LayoutError::EmptyModifiers)
                    } else {
                        match r {
                            Ok(ParsedKey::WithMods(id, mm)) => id@ == s.subrange(
                                segs[0].0,
                                segs[0].1,
                            ) && mm == m,
                            _ => false,
                        }
                    }
                }
            },
        }
    } else if s.subrange(0, 3) == seq![0x4Du8, 0x4F, 0x28] {  // "MO("
        spec_layer_form_rel(s, seq![0x4Du8, 0x4F, 0x28], r, 0)
    } else if s.subrange(0, 3) == seq![0x4Fu8, 0x53, 0x4C] {  // "OSL"
        spec_layer_form_rel(s, seq![0x4Fu8, 0x53, 0x4C, 0x28], r, 1)
    } else if s.subrange(0, 3) == seq![0x4Fu8, 0x53, 0x4D] {  // "OSM"
        let lo = spec_trim_start(s, 0, len, seq![0x4Fu8, 0x53, 0x4D, 0x28]);
        match spec_strip_suffix(s, lo, len, seq![0x29u8]) {
            None => r == Err::<ParsedKey, LayoutError>(LayoutError::BadForm),
            Some(hi) => {
                let m = spec_parse_mods_from(s, lo, hi, ModifierCombinationMacro::spec_new());
                if m.spec_is_empty() {
                    r == Err::<ParsedKey, LayoutError>(LayoutError::EmptyModifiers)
                } else {
                    r == Ok::<ParsedKey, LayoutError>(ParsedKey::OneShotMods(m))
                }
            },
        }
    } else if s.subrange(0, 3) == seq![0x4Cu8, 0x4D, 0x28] {  // "LM("
        let lo = spec_trim_start(s, 0, len, seq![0x4Cu8, 0x4D, 0x28]);
        match spec_strip_suffix(s, lo, len, seq![0x29u8]) {
            None => r == Err::<ParsedKey, LayoutError>(LayoutError::BadForm),
            Some(hi) => {
                let segs = spec_segments(s, lo, hi);
                if segs.len() != 2 {
                    r == Err::<ParsedKey, LayoutError>(LayoutError::BadForm)
                } else {
                    match spec_parse_layer(s, segs[0].0, segs[0].1) {
                        None => r == Err::<ParsedKey, LayoutError>(LayoutError::BadLayer),
                        Some(n) => {
                            let m = spec_parse_mods_from(
                                s,
                                segs[1].0,
                                segs[1].1,
                                ModifierCombinationMacro::spec_new(),
                            );
                            if m.spec_is_empty() {
                                r == Err::<ParsedKey, LayoutError>(LayoutError::EmptyModifiers)
                            } else {
                                r == Ok::<ParsedKey, LayoutError>(ParsedKey::LayerMods(n, m))
                            }
                        },
                    }
                }
            },
        }
    } else if s.subrange(0, 3) == seq![0x4Cu8, 0x54, 0x28] {  // "LT("
        let lo = spec_trim_start(s, 0, len, seq![0x4Cu8, 0x54, 0x28]);
        let hi = spec_trim_end(s, lo, len, seq![0x29u8]);
        let segs = spec_segments(s, lo, hi);
        if segs.len() != 2 {
            r == Err::<ParsedKey, LayoutError>(LayoutError::BadForm)
        } else {
            match spec_parse_layer(s, segs[0].0, segs[0].1) {
                None => r == Err::<ParsedKey, LayoutError>(LayoutError::BadLayer),
                Some(n) => match r {
                    Ok(ParsedKey::LayerTapKey(nn, id)) => nn == n && id@ == s.subrange(
                        segs[1].0,
                        segs[1].1,
                    ),
                    _ => false,
                },
            }
        }
    } else if s.subrange(0, 3) == seq![0x54u8, 0x54, 0x28] {  // "TT("
        spec_layer_form_rel(s, seq![0x54u8, 0x54, 0x28], r, 2)
    } else if s.subrange(0, 3) == seq![0x54u8, 0x47, 0x28] {  // "TG("
        spec_layer_form_rel(s, seq![0x54u8, 0x47, 0x28], r, 3)
    } else if s.subrange(0, 3) == seq![0x54u8, 0x4F, 0x28] {  // "TO("
        spec_layer_form_rel(s, seq![0x54u8, 0x4F, 0x28], r, 4)
    } else if s.subrange(0, 3) == seq![0x44u8, 0x46, 0x28] {  // "DF("
        spec_layer_form_rel(s, seq![0x44u8, 0x46, 0x28], r, 5)
    } else if s.subrange(0, 3) == seq![0x4Du8, 0x54, 0x28] {  // "MT("
        let lo = spec_trim_start(s, 0, len, seq![0x4Du8, 0x54, 0x28]);
        match spec_strip_suffix(s, lo, len, seq![0x29u8]) {
            None => r == Err::<ParsedKey, LayoutError>(LayoutError::BadForm),
            Some(hi) => {
                let segs = spec_segments(s, lo, hi);
                if segs.len() != 2 {
                    r == Err::<ParsedKey, LayoutError>(LayoutError::BadForm)
                } else {
                    let m = spec_parse_mods_from(
                        s,
                        segs[1].0,
                        segs[1].1,
                        ModifierCombinationMacro::spec_new(),
                    );
                    if m.spec_is_empty() {
                        r == Err::<ParsedKey, LayoutError>(LayoutError::EmptyModifiers)
                    } else {
                        match r {
                            Ok(ParsedKey::ModTapKey(id, mm)) => id@ == s.subrange(
                                segs[0].0,
                                segs[0].1,
                            ) && mm == m,
                            _ => false,
                        }
                    }
                }
            },
        }
    } else if s.subrange(0, 3) == seq![0x54u8, 0x48, 0x28] {  // "TH("
        let lo = spec_trim_start(s, 0, len, seq![0x54u8, 0x48, 0x28]);
        match spec_strip_suffix(s, lo, len, seq![0x29u8]) {
            None => r == Err::<ParsedKey, LayoutError>(LayoutError::BadForm),
            Some(hi) => {
                let segs = spec_segments(s, lo, hi);
                if segs.len() != 2 {
                    r == Err::<ParsedKey, LayoutError>(LayoutError::BadForm)
                } else {
                    match r {
                        Ok(ParsedKey::TapHoldKey(id1, id2)) => id1@ == s.subrange(
                            segs[0].0,
                            segs[0].1,
                        ) && id2@ == s.subrange(segs[1].0, segs[1].1),
                        _ => false,
                    }
                }
            },
        }
    } else {
        match r {
            Ok(ParsedKey::Plain(id)) => id@ == s,
            _ => false,
        }
    }
}

/// The single-layer forms share one shape: strip the prefix and the
/// closing parenthesis, read a layer number, and wrap it in the form's
/// own constructor (selected by `which`).
pub open spec fn spec_layer_form_rel(
    s: Seq<u8>,
    prefix: Seq<u8>,
    r: Result<ParsedKey, LayoutError>,
    which: int,
) -> bool {
    let len = s.len() as int;
    let lo = spec_trim_start(s, 0, len, prefix);
    let hi = spec_trim_end(s, lo, len, seq![0x29u8]);
    match spec_parse_layer(s, lo, hi) {
        None => r == Err::<ParsedKey, LayoutError>(LayoutError::BadLayer),
        Some(n) => r == Ok::<ParsedKey, LayoutError>(
            if which == 0 {
                ParsedKey::Momentary(n)
            } else if which == 1 {
                ParsedKey::OneShot(n)
            } else if which == 2 {
                ParsedKey::TapToggle(n)
            } else if which == 3 {
                ParsedKey::Toggle(n)
            } else if which == 4 {
                ParsedKey::To(n)
            } else {
                ParsedKey::DefaultLayer(n)
            },
        ),
    }
}

/// Strip the suffix once, if it is there; see [`spec_strip_suffix`].
fn strip_suffix_once(s: &[u8], lo: usize, hi: usize, p: &[u8]) -> (r: Option<usize>)
    requires
        lo <= hi <= s@.len(),
    ensures
        match spec_strip_suffix(s@, lo as int, hi as int, p@) {
            Some(h) => r == Some(h as usize) && lo <= h <= hi,
            None => r is None,
        },
{
    if p.len() <= hi - lo && range_eq(s, hi - p.len(), hi, p) {
        Some(hi - p.len())
    } else {
        None
    }
}

/// Parse one cell string of the layout into its key description; see
/// [`spec_parse_key_rel`] for the grammar, case by case. A malformed
/// form is an error, never a panic.
pub fn parse_key(key: &str) -> (r: Result<ParsedKey, LayoutError>)
    ensures
        spec_parse_key_rel(key.spec_bytes(), r),
{
    let s = key.as_bytes();
    let len = s.len();
    if len < 5 {
        let mut all_underscore = len > 0;
        let mut i: usize = 0;
        while i < len
            invariant
                i <= len <= s@.len(),
                len == s@.len(),
                all_underscore == (len > 0 && forall|t: int| 0 <= t < i ==> s@[t] == 0x5F),
            decreases len - i,
        {
            if s[i] != 0x5F {
                all_underscore = false;
            }
            i = i + 1;
        }
        if all_underscore {
            return Ok(ParsedKey::Inert);
        }
        proof {
            assert(s@.subrange(0, len as int) =~= s@);
        }
        return Ok(ParsedKey::Plain(copy_range(s, 0, len)));
    }
    let p_wm: [u8; 3] = [0x57, 0x4D, 0x28];
    let p_mo: [u8; 3] = [0x4D, 0x4F, 0x28];
    let p_osl3: [u8; 3] = [0x4F, 0x53, 0x4C];
    let p_osl4: [u8; 4] = [0x4F, 0x53, 0x4C, 0x28];
    let p_osm3: [u8; 3] = [0x4F, 0x53, 0x4D];
    let p_osm4: [u8; 4] = [0x4F, 0x53, 0x4D, 0x28];
    let p_lm: [u8; 3] = [0x4C, 0x4D, 0x28];
    let p_lt: [u8; 3] = [0x4C, 0x54, 0x28];
    let p_tt: [u8; 3] = [0x54, 0x54, 0x28];
    let p_tg: [u8; 3] = [0x54, 0x47, 0x28];
    let p_to: [u8; 3] = [0x54, 0x4F, 0x28];
    let p_df: [u8; 3] = [0x44, 0x46, 0x28];
    let p_mt: [u8; 3] = [0x4D, 0x54, 0x28];
    let p_th: [u8; 3] = [0x54, 0x48, 0x28];
    let close: [u8; 1] = [0x29];
    proof {
        assert(p_wm@ =~= seq![0x57u8, 0x4D, 0x28]);
        assert(p_mo@ =~= seq![0x4Du8, 0x4F, 0x28]);
        assert(p_osl3@ =~= seq![0x4Fu8, 0x53, 0x4C]);
        assert(p_osl4@ =~= seq![0x4Fu8, 0x53, 0x4C, 0x28]);
        assert(p_osm3@ =~= seq![0x4Fu8, 0x53, 0x4D]);
        assert(p_osm4@ =~= seq![0x4Fu8, 0x53, 0x4D, 0x28]);
        assert(p_lm@ =~= seq![0x4Cu8, 0x4D, 0x28]);
        assert(p_lt@ =~= seq![0x4Cu8, 0x54, 0x28]);
        assert(p_tt@ =~= seq![0x54u8, 0x54, 0x28]);
        assert(p_tg@ =~= seq![0x54u8, 0x47, 0x28]);
        assert(p_to@ =~= seq![0x54u8, 0x4F, 0x28]);
        assert(p_df@ =~= seq![0x44u8, 0x46, 0x28]);
        assert(p_mt@ =~= seq![0x4Du8, 0x54, 0x28]);
        assert(p_th@ =~= seq![0x54u8, 0x48, 0x28]);
        assert(close@ =~= seq![0x29u8]);
    }
    if range_eq(s, 0, 3, p_wm.as_slice()) {
        let lo = trim_start_lit(s, 0, len, p_wm.as_slice());
        match strip_suffix_once(s, lo, len, close.as_slice()) {
            None => Err(LayoutError::BadForm),
            Some(hi) => {
                let (count, seg0, seg1) = segments2(s, lo, hi);
                if count != 2 {
                    return Err(LayoutError::BadForm);
                }
                let m = parse_modifiers_range(s, seg1.0, seg1.1);
                if m.is_empty() {
                    return Err(LayoutError::EmptyModifiers);
                }
                Ok(ParsedKey::WithMods(copy_range(s, seg0.0, seg0.1), m))
            },
        }
    } else if range_eq(s, 0, 3, p_mo.as_slice()) {
        let lo = trim_start_lit(s, 0, len, p_mo.as_slice());
        let hi = trim_end_lit(s, lo, len, close.as_slice());
        match parse_layer_range(s, lo, hi) {
            Some(n) => Ok(ParsedKey::Momentary(n)),
            None => Err(LayoutError::BadLayer),
        }
    } else if range_eq(s, 0, 3, p_osl3.as_slice()) {
        let lo = trim_start_lit(s, 0, len, p_osl4.as_slice());
        let hi = trim_end_lit(s, lo, len, close.as_slice());
        match parse_layer_range(s, lo, hi) {
            Some(n) => Ok(ParsedKey::OneShot(n)),
            None => Err(LayoutError::BadLayer),
        }
    } else if range_eq(s, 0, 3, p_osm3.as_slice()) {
        let lo = trim_start_lit(s, 0, len, p_osm4.as_slice());
        match strip_suffix_once(s, lo, len, close.as_slice()) {
            None => Err(LayoutError::BadForm),
            Some(hi) => {
                let m = parse_modifiers_range(s, lo, hi);
                if m.is_empty() {
                    return Err(LayoutError::EmptyModifiers);
                }
                Ok(ParsedKey::OneShotMods(m))
            },
        }
    } else if range_eq(s, 0, 3, p_lm.as_slice()) {
        let lo = trim_start_lit(s, 0, len, p_lm.as_slice());
        match strip_suffix_once(s, lo, len, close.as_slice()) {
            None => Err(LayoutError::BadForm),
            Some(hi) => {
                let (count, seg0, seg1) = segments2(s, lo, hi);
                if count != 2 {
                    return Err(LayoutError::BadForm);
                }
                match parse_layer_range(s, seg0.0, seg0.1) {
                    None => Err(LayoutError::BadLayer),
                    Some(n) => {
                        let m = parse_modifiers_range(s, seg1.0, seg1.1);
                        if m.is_empty() {
                            return Err(LayoutError::EmptyModifiers);
                        }
                        Ok(ParsedKey::LayerMods(n, m))
                    },
                }
            },
        }
    } else if range_eq(s, 0, 3, p_lt.as_slice()) {
        let lo = trim_start_lit(s, 0, len, p_lt.as_slice());
        let hi = trim_end_lit(s, lo, len, close.as_slice());
        let (count, seg0, seg1) = segments2(s, lo, hi);
        if count != 2 {
            return Err(LayoutError::BadForm);
        }
        match parse_layer_range(s, seg0.0, seg0.1) {
            None => Err(LayoutError::BadLayer),
            Some(n) => Ok(ParsedKey::LayerTapKey(n, copy_range(s, seg1.0, seg1.1))),
        }
    } else if range_eq(s, 0, 3, p_tt.as_slice()) {
        let lo = trim_start_lit(s, 0, len, p_tt.as_slice());
        let hi = trim_end_lit(s, lo, len, close.as_slice());
        match parse_layer_range(s, lo, hi) {
            Some(n) => Ok(ParsedKey::TapToggle(n)),
            None => Err(LayoutError::BadLayer),
        }
    } else if range_eq(s, 0, 3, p_tg.as_slice()) {
        let lo = trim_start_lit(s, 0, len, p_tg.as_slice());
        let hi = trim_end_lit(s, lo, len, close.as_slice());
        match parse_layer_range(s, lo, hi) {
            Some(n) => Ok(ParsedKey::Toggle(n)),
            None => Err(LayoutError::BadLayer),
        }
    } else if range_eq(s, 0, 3, p_to.as_slice()) {
        let lo = trim_start_lit(s, 0, len, p_to.as_slice());
        let hi = trim_end_lit(s, lo, len, close.as_slice());
        match parse_layer_range(s, lo, hi) {
            Some(n) => Ok(ParsedKey::To(n)),
            None => Err(LayoutError::BadLayer),
        }
    } else if range_eq(s, 0, 3, p_df.as_slice()) {
        let lo = trim_start_lit(s, 0, len, p_df.as_slice());
        let hi = trim_end_lit(s, lo, len, close.as_slice());
        match parse_layer_range(s, lo, hi) {
            Some(n) => Ok(ParsedKey::DefaultLayer(n)),
            None => Err(LayoutError::BadLayer),
        }
    } else if range_eq(s, 0, 3, p_mt.as_slice()) {
        let lo = trim_start_lit(s, 0, len, p_mt.as_slice());
        match strip_suffix_once(s, lo, len, close.as_slice()) {
            None => Err(LayoutError::BadForm),
            Some(hi) => {
                let (count, seg0, seg1) = segments2(s, lo, hi);
                if count != 2 {
                    return Err(LayoutError::BadForm);
                }
                let m = parse_modifiers_range(s, seg1.0, seg1.1);
                if m.is_empty() {
                    return Err(LayoutError::EmptyModifiers);
                }
                Ok(ParsedKey::ModTapKey(copy_range(s, seg0.0, seg0.1), m))
            },
        }
    } else if range_eq(s, 0, 3, p_th.as_slice()) {
        let lo = trim_start_lit(s, 0, len, p_th.as_slice());
        match strip_suffix_once(s, lo, len, close.as_slice()) {
            None => Err(LayoutError::BadForm),
            Some(hi) => {
                let (count, seg0, seg1) = segments2(s, lo, hi);
                if count != 2 {
                    return Err(LayoutError::BadForm);
                }
                Ok(
                    ParsedKey::TapHoldKey(
                        copy_range(s, seg0.0, seg0.1),
                        copy_range(s, seg1.0, seg1.1),
                    ),
                )
            },
        }
    } else {
        proof {
            assert(s@.subrange(0, len as int) =~= s@);
        }
        Ok(ParsedKey::Plain(copy_range(s, 0, len)))
    }
}

/// Read the layer number out of a form such as `MO(1)` or `OSL(2)`:
/// strip the prefix and suffix, as often as they are there, and read the
/// remainder as a decimal number.
///
/// The caller promises the remainder is a well-formed layer number; the
/// grammar's own entry point rejects malformed forms before coming here.
pub fn get_layer(key: &str, prefix: &str, suffix: &str) -> (r: u8)
    requires
        spec_get_layer(key.spec_bytes(), prefix.spec_bytes(), suffix.spec_bytes()) is Some,
    ensures
        Some(r) == spec_get_layer(key.spec_bytes(), prefix.spec_bytes(), suffix.spec_bytes()),
{
    let s = key.as_bytes();
    let p = prefix.as_bytes();
    let suf = suffix.as_bytes();
    let lo = trim_start_lit(s, 0, s.len(), p);
    let hi = trim_end_lit(s, lo, s.len(), suf);
    match parse_layer_range(s, lo, hi) {
        Some(n) => n,
        None => 0,
    }
}

} // verus!
