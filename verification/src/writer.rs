//! Rewriting a stream that arrives in pieces, and whole runs over sources
//! held in memory.

use vstd::prelude::*;
use crate::args::Args;
use crate::engine::{initial, line_output, output_of, state_after, State, TransformState};
use crate::lines::{complete, lines_of, pending, split_lines, LineSplitter};

verus! {

/// What the end of the stream adds: the rewriting of the fragment that no
/// newline closed, if there is one.
pub open spec fn finish_output(args: Args, st: State, fragment: Seq<u8>) -> Seq<u8> {
    if fragment.len() == 0 {
        Seq::empty()
    } else {
        line_output(args, st, fragment)
    }
}

/// The fragment that is left open after `pieces` were written in order.
pub open spec fn pending_at(pieces: Seq<Seq<u8>>) -> Seq<u8>
    decreases pieces.len(),
{
    if pieces.len() == 0 {
        Seq::empty()
    } else {
        pending(pending_at(pieces.drop_last()) + pieces.last())
    }
}

/// The engine's state after `pieces` were written in order.
pub open spec fn state_at(args: Args, pieces: Seq<Seq<u8>>) -> State
    decreases pieces.len(),
{
    if pieces.len() == 0 {
        initial()
    } else {
        state_after(
            args,
            state_at(args, pieces.drop_last()),
            complete(pending_at(pieces.drop_last()) + pieces.last()),
        )
    }
}

/// What writing `pieces` in order has put out, before the stream is
/// ended.
pub open spec fn written(args: Args, pieces: Seq<Seq<u8>>) -> Seq<u8>
    decreases pieces.len(),
{
    if pieces.len() == 0 {
        Seq::empty()
    } else {
        written(args, pieces.drop_last()) + output_of(
            args,
            state_at(args, pieces.drop_last()),
            complete(pending_at(pieces.drop_last()) + pieces.last()),
        )
    }
}

/// The output of a run that writes `sources` one after another and then
/// ends the stream.
pub open spec fn process_spec(args: Args, sources: Seq<Seq<u8>>) -> Seq<u8> {
    written(args, sources) + finish_output(args, state_at(args, sources), pending_at(sources))
}

/// The rewriting of the stream `input` taken whole: it is split into
/// lines, and each line is rewritten in turn from the initial state.
pub open spec fn transform(args: Args, input: Seq<u8>) -> Seq<u8> {
    output_of(args, initial(), split_lines(input))
}

/// The rewriting writer: it takes the stream in pieces of any size, cuts
/// it into lines and hands back what each completed line turns into.
pub struct OutWriter {
    args: Args,
    state: TransformState,
    splitter: LineSplitter,
}

impl OutWriter {
    /// The parts are in order.
    pub closed spec fn wf(&self) -> bool {
        self.state.wf() && self.splitter.wf()
    }

    /// The options that the writer was made with.
    pub closed spec fn args(&self) -> Args {
        self.args
    }

    /// The engine's state.
    pub closed spec fn state(&self) -> State {
        self.state@
    }

    /// The bytes written since the last newline, not yet put out.
    pub closed spec fn pending(&self) -> Seq<u8> {
        self.splitter.partial()
    }

    /// A writer at the start of a stream.
    pub fn new(args: Args) -> (w: OutWriter)
        ensures
            w.wf(),
            w.args() == args,
            w.state() == initial(),
            w.pending() == Seq::<u8>::empty(),
    {
        OutWriter { args, state: TransformState::new(), splitter: LineSplitter::new() }
    }

    /// Writes the next piece of the stream. Returns the rewriting of the
    /// lines that it completes; what follows its last newline waits for
    /// the next piece or for the end of the stream.
    pub fn write_all(&mut self, buf: &[u8]) -> (out: Vec<u8>)
        requires
            old(self).wf(),
        ensures
            final(self).wf(),
            final(self).args() == old(self).args(),
            out@ == output_of(
                old(self).args(),
                old(self).state(),
                complete(old(self).pending() + buf@),
            ),
            final(self).state() == state_after(
                old(self).args(),
                old(self).state(),
                complete(old(self).pending() + buf@),
            ),
            final(self).pending() == pending(old(self).pending() + buf@),
    {
        let lines = self.splitter.feed(buf);
        let ghost all = lines_of(lines@);
        let ghost args = self.args;
        let ghost st = self.state@;
        let mut out: Vec<u8> = Vec::new();
        let mut i: usize = 0;
        proof {
            assert(all.take(0) =~= Seq::<Seq<u8>>::empty());
        }
        while i < lines.len()
            invariant
                i <= lines.len(),
                all == lines_of(lines@),
                args == self.args,
                self.state.wf(),
                self.splitter.wf(),
                self.splitter.partial() == pending(old(self).pending() + buf@),
                out@ == output_of(args, st, all.take(i as int)),
                self.state@ == state_after(args, st, all.take(i as int)),
            decreases lines.len() - i,
        {
            proof {
                let next = all.take(i + 1);
                assert(next.drop_last() =~= all.take(i as int));
                assert(next.last() == lines@[i as int]@);
            }
            self.state.transform_line(&self.args, lines[i].as_slice(), &mut out);
            i += 1;
        }
        proof {
            assert(all.take(i as int) =~= all);
        }
        out
    }

    /// Ends the stream. Returns the rewriting of the fragment that no
    /// newline closed, if there is one.
    pub fn finish(&mut self) -> (out: Vec<u8>)
        requires
            old(self).wf(),
        ensures
            final(self).wf(),
            final(self).args() == old(self).args(),
            out@ == finish_output(old(self).args(), old(self).state(), old(self).pending()),
            final(self).pending() == Seq::<u8>::empty(),
            final(self).state() == if old(self).pending().len() == 0 {
                old(self).state()
            } else {
                crate::engine::line_next(old(self).args(), old(self).state(), old(self).pending())
            },
    {
        let mut out: Vec<u8> = Vec::new();
        match self.splitter.finish() {
            Some(line) => {
                self.state.transform_line(&self.args, line.as_slice(), &mut out);
                assert(out@ =~= line_output(old(self).args(), old(self).state(), line@));
            },
            None => {},
        }
        out
    }
}

/// Runs the whole rewriting over sources held in memory: writes each in
/// turn, ends the stream, and returns all that came out.
pub fn process(args: &Args, sources: &Vec<Vec<u8>>) -> (out: Vec<u8>)
    ensures
        out@ == process_spec(*args, lines_of(sources@)),
{
    let ghost all = lines_of(sources@);
    let mut w = OutWriter::new(*args);
    let mut out: Vec<u8> = Vec::new();
    let mut i: usize = 0;
    proof {
        assert(all.take(0) =~= Seq::<Seq<u8>>::empty());
    }
    while i < sources.len()
        invariant
            i <= sources.len(),
            all == lines_of(sources@),
            w.wf(),
            w.args() == *args,
            w.state() == state_at(*args, all.take(i as int)),
            w.pending() == pending_at(all.take(i as int)),
            out@ == written(*args, all.take(i as int)),
        decreases sources.len() - i,
    {
        proof {
            let next = all.take(i + 1);
            assert(next.drop_last() =~= all.take(i as int));
            assert(next.last() == sources@[i as int]@);
        }
        let mut piece = w.write_all(sources[i].as_slice());
        out.append(&mut piece);
        i += 1;
    }
    let mut last = w.finish();
    out.append(&mut last);
    proof {
        assert(all.take(i as int) =~= all);
    }
    out
}

} // verus!
