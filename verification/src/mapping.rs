//! The display form of a single byte.

use vstd::prelude::*;
use crate::args::Args;

verus! {

/// The display form of `b` in caret and meta notation. Tab and newline are
/// left as they are: their display has options of its own.
pub open spec fn escape_spec(b: u8) -> Seq<u8> {
    if b == 9 || b == 10 {
        seq![b]
    } else if b < 32 {
        seq![94u8, (b + 64) as u8]
    } else if b < 127 {
        seq![b]
    } else if b == 127 {
        seq![94u8, 63u8]
    } else if b < 160 {
        seq![77u8, 45u8, 94u8, (b - 64) as u8]
    } else if b < 255 {
        seq![77u8, 45u8, (b - 128) as u8]
    } else {
        seq![77u8, 45u8, 94u8, 63u8]
    }
}

/// The display form of a tab: `^I` where tabs are shown, else the tab.
pub open spec fn tab_spec(show_tabs: bool) -> Seq<u8> {
    if show_tabs {
        seq![94u8, 73u8]
    } else {
        seq![9u8]
    }
}

/// The display form of a newline: `$` and the newline where line ends are
/// shown, else the newline alone.
pub open spec fn new_line_spec(show_ends: bool) -> Seq<u8> {
    if show_ends {
        seq![36u8, 10u8]
    } else {
        seq![10u8]
    }
}

/// The display form of `b` under `args`. Tab comes first, then newline;
/// every other byte passes unchanged unless non-printing bytes are shown.
pub open spec fn render_byte(args: Args, b: u8) -> Seq<u8> {
    if b == 9 {
        tab_spec(args.show_tabs)
    } else if b == 10 {
        new_line_spec(args.show_ends)
    } else if !args.show_non_printing {
        seq![b]
    } else {
        escape_spec(b)
    }
}

/// The display form of each byte of `s` in turn.
pub open spec fn render_bytes(args: Args, s: Seq<u8>) -> Seq<u8>
    decreases s.len(),
{
    if s.len() == 0 {
        Seq::empty()
    } else {
        render_bytes(args, s.drop_last()) + render_byte(args, s.last())
    }
}

/// The table is total: every byte has a display form of one to four
/// bytes. A control byte is shown as a caret and the byte with bit 6
/// flipped, and a byte of the high half as `M-` and the display form of
/// the byte without its high bit (but where that byte is a tab or a
/// newline, which the table leaves alone).
pub proof fn lemma_escape_shape(b: u8)
    ensures
        1 <= escape_spec(b).len() <= 4,
        b < 32 && b != 9 && b != 10 ==> escape_spec(b) == seq![94u8, b ^ 0x40],
        b >= 128 && b != 128 + 9 && b != 128 + 10 ==> escape_spec(b) == seq![77u8, 45u8]
            + escape_spec((b - 128) as u8),
{
    if b < 32 {
        assert(b ^ 0x40 == b + 64) by (bit_vector)
            requires
                b < 32,
        ;
    }
    if b >= 128 {
        let low = (b - 128) as u8;
        if low != 9 && low != 10 {
            assert(seq![77u8, 45u8] + escape_spec(low) =~= escape_spec(b));
        }
    }
}

/// Appends the display form of `b` in caret and meta notation to `out`.
pub fn escape(b: u8, out: &mut Vec<u8>)
    ensures
        final(out)@ == old(out)@ + escape_spec(b),
{
    if b == 9 || b == 10 {
        out.push(b);
    } else if b < 32 {
        out.push(94);
        out.push(b + 64);
    } else if b < 127 {
        out.push(b);
    } else if b == 127 {
        out.push(94);
        out.push(63);
    } else if b < 160 {
        out.push(77);
        out.push(45);
        out.push(94);
        out.push(b - 64);
    } else if b < 255 {
        out.push(77);
        out.push(45);
        out.push(b - 128);
    } else {
        out.push(77);
        out.push(45);
        out.push(94);
        out.push(63);
    }
    assert(out@ =~= old(out)@ + escape_spec(b));
}

/// A tab.
pub const TAB: [u8; 1] = [9];

/// A tab made visible: `^I`.
pub const VISIBLE_TAB: [u8; 2] = [94, 73];

/// A newline.
pub const NEW_LINE: [u8; 1] = [10];

/// A newline with its mark: `$` and the newline.
pub const VISIBLE_NEW_LINE: [u8; 2] = [36, 10];

/// The bytes that stand for a tab under `args`.
pub fn tab(args: &Args) -> (r: &'static [u8])
    ensures
        r@ == tab_spec(args.show_tabs),
{
    let r: &'static [u8] = if args.show_tabs {
        let visible: &'static [u8; 2] = &VISIBLE_TAB;
        visible.as_slice()
    } else {
        let plain: &'static [u8; 1] = &TAB;
        plain.as_slice()
    };
    assert(r@ =~= tab_spec(args.show_tabs));
    r
}

/// The bytes that stand for a newline under `args`.
pub fn new_line(args: &Args) -> (r: &'static [u8])
    ensures
        r@ == new_line_spec(args.show_ends),
{
    let r: &'static [u8] = if args.show_ends {
        let visible: &'static [u8; 2] = &VISIBLE_NEW_LINE;
        visible.as_slice()
    } else {
        let plain: &'static [u8; 1] = &NEW_LINE;
        plain.as_slice()
    };
    assert(r@ =~= new_line_spec(args.show_ends));
    r
}

/// Appends the display form of `b` under `args` to `out`.
pub fn write_byte(args: &Args, b: u8, out: &mut Vec<u8>)
    ensures
        final(out)@ == old(out)@ + render_byte(*args, b),
{
    if b == 9 {
        out.extend_from_slice(tab(args));
    } else if b == 10 {
        out.extend_from_slice(new_line(args));
    } else if !args.show_non_printing {
        out.push(b);
        assert(out@ =~= old(out)@ + seq![b]);
    } else {
        escape(b, out);
    }
}

/// Appends the display form of each byte of `bytes` under `args` to `out`.
pub fn write_bytes(args: &Args, bytes: &[u8], out: &mut Vec<u8>)
    ensures
        final(out)@ == old(out)@ + render_bytes(*args, bytes@),
{
    let mut i: usize = 0;
    while i < bytes.len()
        invariant
            i <= bytes.len(),
            out@ == old(out)@ + render_bytes(*args, bytes@.take(i as int)),
        decreases bytes.len() - i,
    {
        write_byte(args, bytes[i], out);
        proof {
            let next = bytes@.take(i + 1);
            assert(next.drop_last() =~= bytes@.take(i as int));
            assert(next.last() == bytes@[i as int]);
            assert(out@ =~= old(out)@ + render_bytes(*args, next));
        }
        i += 1;
    }
    assert(bytes@.take(i as int) =~= bytes@);
}

} // verus!
