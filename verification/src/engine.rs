//! The rewriting of one line after another: which lines are blank, which
//! are dropped, which are numbered, and what each turns into.

use vstd::prelude::*;
use crate::args::Args;
use crate::counter::{label, LineCounter};
use crate::mapping::{render_bytes, write_bytes};

verus! {

/// Whether `line` is blank: it is a terminator and nothing else.
pub open spec fn is_blank_spec(line: Seq<u8>) -> bool {
    line =~= seq![10u8] || line =~= seq![13u8, 10u8] || line =~= seq![13u8]
}

/// What the engine remembers from one line to the next.
pub struct State {
    /// The number that the next numbered line gets.
    pub line_counter: nat,
    /// Whether the line before this one was blank.
    pub last_line_was_blank: bool,
}

/// The state before the first line.
pub open spec fn initial() -> State {
    State { line_counter: 1, last_line_was_blank: false }
}

/// Whether `line` is dropped: it is blank, so was the line before it, and
/// blank lines are squeezed.
pub open spec fn suppressed(args: Args, st: State, line: Seq<u8>) -> bool {
    args.squeeze_blank && st.last_line_was_blank && is_blank_spec(line)
}

/// Whether `line` gets a number.
pub open spec fn numbered(args: Args, st: State, line: Seq<u8>) -> bool {
    !suppressed(args, st, line) && args.number_lines && (!args.number_non_blank || !is_blank_spec(
        line,
    ))
}

/// What `line` turns into in state `st`.
pub open spec fn line_output(args: Args, st: State, line: Seq<u8>) -> Seq<u8> {
    if suppressed(args, st, line) {
        Seq::empty()
    } else if numbered(args, st, line) {
        label(st.line_counter) + render_bytes(args, line)
    } else {
        render_bytes(args, line)
    }
}

/// The state after `line` was seen in state `st`.
pub open spec fn line_next(args: Args, st: State, line: Seq<u8>) -> State {
    State {
        line_counter: if numbered(args, st, line) {
            st.line_counter + 1
        } else {
            st.line_counter
        },
        last_line_was_blank: is_blank_spec(line),
    }
}

/// The state after `lines` were seen in order, starting in state `st`.
pub open spec fn state_after(args: Args, st: State, lines: Seq<Seq<u8>>) -> State
    decreases lines.len(),
{
    if lines.len() == 0 {
        st
    } else {
        line_next(args, state_after(args, st, lines.drop_last()), lines.last())
    }
}

/// What `lines` turn into, starting in state `st`.
pub open spec fn output_of(args: Args, st: State, lines: Seq<Seq<u8>>) -> Seq<u8>
    decreases lines.len(),
{
    if lines.len() == 0 {
        Seq::empty()
    } else {
        output_of(args, st, lines.drop_last()) + line_output(
            args,
            state_after(args, st, lines.drop_last()),
            lines.last(),
        )
    }
}

/// How many of `lines` are let through, starting in state `st`.
pub open spec fn emitted(args: Args, st: State, lines: Seq<Seq<u8>>) -> nat
    decreases lines.len(),
{
    if lines.len() == 0 {
        0
    } else {
        let before = emitted(args, st, lines.drop_last());
        if suppressed(args, state_after(args, st, lines.drop_last()), lines.last()) {
            before
        } else {
            before + 1
        }
    }
}

/// Whether `line` is blank.
pub fn is_blank(line: &[u8]) -> (b: bool)
    ensures
        b == is_blank_spec(line@),
{
    let b = if line.len() == 1 {
        line[0] == 10 || line[0] == 13
    } else if line.len() == 2 {
        line[0] == 13 && line[1] == 10
    } else {
        false
    };
    proof {
        if b {
            if line.len() == 1 {
                assert(line@ =~= seq![line@[0]]);
            } else {
                assert(line@ =~= seq![13u8, 10u8]);
            }
        } else {
            if line@ == seq![10u8] {
                assert(line@.len() == 1 && line@[0] == 10);
            }
            if line@ == seq![13u8] {
                assert(line@.len() == 1 && line@[0] == 13);
            }
            if line@ == seq![13u8, 10u8] {
                assert(line@.len() == 2 && line@[0] == 13 && line@[1] == 10);
            }
        }
    }
    b
}

/// The engine's memory: the line counter and whether the last line was
/// blank.
pub struct TransformState {
    counter: LineCounter,
    last_line_was_blank: bool,
}

impl View for TransformState {
    type V = State;

    closed spec fn view(&self) -> State {
        State {
            line_counter: self.counter.value(),
            last_line_was_blank: self.last_line_was_blank,
        }
    }
}

impl TransformState {
    /// The counter is in order.
    pub closed spec fn wf(&self) -> bool {
        self.counter.wf()
    }

    /// The state before the first line: the counter at 1, no blank line
    /// seen.
    pub fn new() -> (s: TransformState)
        ensures
            s.wf(),
            s@ == initial(),
    {
        TransformState { counter: LineCounter::new(), last_line_was_blank: false }
    }

    /// Whether the last line seen was blank.
    pub fn last_line_was_blank(&self) -> (b: bool)
        ensures
            b == self@.last_line_was_blank,
    {
        self.last_line_was_blank
    }

    /// The number that the next numbered line gets, in decimal.
    pub fn line_counter(&self) -> (d: Vec<u8>)
        requires
            self.wf(),
        ensures
            d@ == crate::counter::decimal(self@.line_counter),
    {
        self.counter.digits().clone()
    }

    /// Rewrites one line: appends to `out` what `line` turns into under
    /// `args`, and remembers what the next line needs.
    pub fn transform_line(&mut self, args: &Args, line: &[u8], out: &mut Vec<u8>)
        requires
            old(self).wf(),
        ensures
            final(self).wf(),
            final(out)@ == old(out)@ + line_output(*args, old(self)@, line@),
            final(self)@ == line_next(*args, old(self)@, line@),
    {
        let blank = is_blank(line);
        if args.squeeze_blank && self.last_line_was_blank && blank {
            assert(out@ =~= old(out)@ + Seq::<u8>::empty());
            return ;
        }
        let ghost lab = Seq::<u8>::empty();
        if args.number_lines && (!args.number_non_blank || !blank) {
            self.counter.write_label(out);
            self.counter.increment();
            proof {
                lab = label(old(self)@.line_counter);
            }
        }
        write_bytes(args, line, out);
        self.last_line_was_blank = blank;
        assert(out@ =~= old(out)@ + (lab + render_bytes(*args, line@)));
        assert(Seq::<u8>::empty() + render_bytes(*args, line@) =~= render_bytes(*args, line@));
    }
}

} // verus!
