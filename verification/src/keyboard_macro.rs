//! Stored macros: a macro is a sequence of items — taps, presses,
//! releases, delays and text — compiled into a flat list of primitive
//! operations that the key machine pumps one per tick.

use vstd::prelude::*;

verus! {

/// One primitive operation of a running macro.
#[derive(Clone, Copy, Debug, PartialEq, Eq, Structural)]
pub enum MacroOp {
    /// Press and at once release a key, with or without shift.
    Tap(u8, bool),
    /// Press a key and leave it down.
    Press(u8),
    /// Release a key pressed earlier.
    Release(u8),
    /// Wait this many milliseconds before the next operation.
    Delay(u16),
}

/// One item of a stored macro, as the configuration protocol writes it.
#[derive(Clone, Debug, PartialEq, Eq)]
pub enum MacroItem {
    /// Tap a key.
    Tap(u8),
    /// Press a key and leave it down.
    Press(u8),
    /// Release a key pressed earlier.
    Release(u8),
    /// Wait this many milliseconds.
    Delay(u16),
    /// Type a text, one tap per character.
    Text(Vec<u8>),
}

/// The key and shift state that types an ASCII character, if the plain
/// boot keyboard layout has one: letters, digits, space, and a few
/// punctuation marks; anything else is skipped.
pub open spec fn spec_char_to_tap(ch: u8) -> Option<(u8, bool)> {
    if 0x61 <= ch <= 0x7A {  // 'a'..'z'
        Some((((ch - 0x61) + 4) as u8, false))
    } else if 0x41 <= ch <= 0x5A {  // 'A'..'Z'
        Some((((ch - 0x41) + 4) as u8, true))
    } else if ch == 0x30 {  // '0'
        Some((0x27, false))
    } else if 0x31 <= ch <= 0x39 {  // '1'..'9'
        Some((((ch - 0x31) + 0x1E) as u8, false))
    } else if ch == 0x20 {  // space
        Some((0x2C, false))
    } else if ch == 0x0A {  // newline
        Some((0x28, false))
    } else if ch == 0x2D {  // '-'
        Some((0x2D, false))
    } else if ch == 0x2E {  // '.'
        Some((0x37, false))
    } else {
        None
    }
}

/// The key and shift state that types an ASCII character; see
/// [`spec_char_to_tap`].
pub fn char_to_tap(ch: u8) -> (r: Option<(u8, bool)>)
    ensures
        r == spec_char_to_tap(ch),
{
    if 0x61 <= ch && ch <= 0x7A {
        Some((ch - 0x61 + 4, false))
    } else if 0x41 <= ch && ch <= 0x5A {
        Some((ch - 0x41 + 4, true))
    } else if ch == 0x30 {
        Some((0x27, false))
    } else if 0x31 <= ch && ch <= 0x39 {
        Some((ch - 0x31 + 0x1E, false))
    } else if ch == 0x20 {
        Some((0x2C, false))
    } else if ch == 0x0A {
        Some((0x28, false))
    } else if ch == 0x2D {
        Some((0x2D, false))
    } else if ch == 0x2E {
        Some((0x37, false))
    } else {
        None
    }
}

/// The taps that type a text: one per character the layout has, in
/// order; other characters are skipped.
pub open spec fn spec_text_ops(text: Seq<u8>) -> Seq<MacroOp>
    decreases text.len(),
{
    if text.len() == 0 {
        Seq::empty()
    } else {
        let rest = spec_text_ops(text.drop_last());
        match spec_char_to_tap(text.last()) {
            Some((kc, shift)) => rest.push(MacroOp::Tap(kc, shift)),
            None => rest,
        }
    }
}

/// The primitive operations of one item.
pub open spec fn spec_item_ops(item: MacroItem) -> Seq<MacroOp> {
    match item {
        MacroItem::Tap(kc) => seq![MacroOp::Tap(kc, false)],
        MacroItem::Press(kc) => seq![MacroOp::Press(kc)],
        MacroItem::Release(kc) => seq![MacroOp::Release(kc)],
        MacroItem::Delay(ms) => seq![MacroOp::Delay(ms)],
        MacroItem::Text(text) => spec_text_ops(text@),
    }
}

/// The primitive operations of a whole macro, items in order.
pub open spec fn spec_compile_items(items: Seq<MacroItem>) -> Seq<MacroOp>
    decreases items.len(),
{
    if items.len() == 0 {
        Seq::empty()
    } else {
        spec_compile_items(items.drop_last()) + spec_item_ops(items.last())
    }
}

/// Compile a macro into the flat operations the key machine pumps.
pub fn compile_items(items: &Vec<MacroItem>) -> (r: Vec<MacroOp>)
    ensures
        r@ == spec_compile_items(items@),
{
    let mut out: Vec<MacroOp> = Vec::new();
    let mut i: usize = 0;
    while i < items.len()
        invariant
            i <= items.len(),
            out@ == spec_compile_items(items@.take(i as int)),
        decreases items.len() - i,
    {
        proof {
            assert(items@.take(i + 1).drop_last() =~= items@.take(i as int));
            assert(items@.take(i + 1).last() == items@[i as int]);
        }
        match &items[i] {
            MacroItem::Tap(kc) => {
                out.push(MacroOp::Tap(*kc, false));
                proof {
                    assert(out@ =~= spec_compile_items(items@.take(i + 1)));
                }
            },
            MacroItem::Press(kc) => {
                out.push(MacroOp::Press(*kc));
                proof {
                    assert(out@ =~= spec_compile_items(items@.take(i + 1)));
                }
            },
            MacroItem::Release(kc) => {
                out.push(MacroOp::Release(*kc));
                proof {
                    assert(out@ =~= spec_compile_items(items@.take(i + 1)));
                }
            },
            MacroItem::Delay(ms) => {
                out.push(MacroOp::Delay(*ms));
                proof {
                    assert(out@ =~= spec_compile_items(items@.take(i + 1)));
                }
            },
            MacroItem::Text(text) => {
                let mut t: usize = 0;
                while t < text.len()
                    invariant
                        t <= text.len(),
                        out@ == spec_compile_items(items@.take(i as int)) + spec_text_ops(
                            text@.take(t as int),
                        ),
                    decreases text.len() - t,
                {
                    proof {
                        assert(text@.take(t + 1).drop_last() =~= text@.take(t as int));
                        assert(text@.take(t + 1).last() == text@[t as int]);
                    }
                    match char_to_tap(text[t]) {
                        Some((kc, shift)) => {
                            out.push(MacroOp::Tap(kc, shift));
                        },
                        None => {
                        },
                    }
                    t = t + 1;
                }
                proof {
                    assert(text@.take(text@.len() as int) =~= text@);
                    assert(out@ =~= spec_compile_items(items@.take(i + 1)));
                }
            },
        }
        i = i + 1;
    }
    proof {
        assert(items@.take(items@.len() as int) =~= items@);
    }
    out
}

} // verus!
