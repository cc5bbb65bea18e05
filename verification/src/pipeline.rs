//! The run in two halves: one cuts the sources into lines and queues
//! them, the other takes lines from the queue and rewrites them.

use vstd::prelude::*;
use std::collections::VecDeque;
use crate::args::Args;
use crate::engine::{initial, output_of, state_after, State, TransformState};
use crate::lines::{
    complete, concat, lemma_split_append, lines_of, pending, split_lines, LineSplitter,
};
use crate::theorems::{lemma_lines_append, theorem_process_is_transform};
use crate::writer::process_spec;

verus! {

/// The state of a queue of lines, as contracts see it.
pub struct QueueState {
    /// The lines that wait, the oldest first.
    pub items: Seq<Seq<u8>>,
    /// How many lines may wait at once, if that is limited.
    pub bound: Option<nat>,
    /// Whether the sending end is open.
    pub sender_open: bool,
    /// Whether the receiving end is open.
    pub receiver_open: bool,
}

impl QueueState {
    /// Whether both ends are open.
    pub open spec fn connected(self) -> bool {
        self.sender_open && self.receiver_open
    }

    /// Whether as many lines wait as may.
    pub open spec fn is_full(self) -> bool {
        match self.bound {
            Some(n) => self.items.len() >= n,
            None => false,
        }
    }

    /// The state with `line` queued behind the others.
    pub open spec fn pushed(self, line: Seq<u8>) -> QueueState {
        QueueState { items: self.items.push(line), ..self }
    }

    /// The state with the oldest line taken.
    pub open spec fn popped(self) -> QueueState {
        QueueState { items: self.items.drop_first(), ..self }
    }
}

/// Why a line was not queued. The line comes back with the reason.
#[derive(Debug)]
pub enum SendError {
    /// As many lines wait as may: try again when one was taken.
    Full(Vec<u8>),
    /// An end of the queue is closed: no line will be taken any more.
    Disconnected(Vec<u8>),
}

/// What the receiving end finds.
#[derive(Debug)]
pub enum Received {
    /// The oldest line that waited.
    Line(Vec<u8>),
    /// Nothing waits, but more may come.
    Empty,
    /// Nothing waits and nothing will come.
    Closed,
}

/// A first-in-first-out queue of lines with two ends that close
/// separately.
pub struct LineQueue {
    items: VecDeque<Vec<u8>>,
    bound: Option<usize>,
    sender_open: bool,
    receiver_open: bool,
}

impl View for LineQueue {
    type V = QueueState;

    closed spec fn view(&self) -> QueueState {
        QueueState {
            items: Seq::new(self.items@.len(), |i: int| self.items@[i]@),
            bound: match self.bound {
                Some(n) => Some(n as nat),
                None => None,
            },
            sender_open: self.sender_open,
            receiver_open: self.receiver_open,
        }
    }
}

impl LineQueue {
    /// A queue with both ends open and nothing in it, which lets `bound`
    /// lines wait at once, or any number where there is no bound.
    pub fn new(bound: Option<usize>) -> (q: LineQueue)
        ensures
            q@.items == Seq::<Seq<u8>>::empty(),
            q@.bound == match bound {
                Some(n) => Some(n as nat),
                None => None,
            },
            q@.connected(),
    {
        let q = LineQueue { items: VecDeque::new(), bound, sender_open: true, receiver_open: true };
        assert(q@.items =~= Seq::<Seq<u8>>::empty());
        q
    }

    /// How many lines wait.
    pub fn len(&self) -> (n: usize)
        ensures
            n == self@.items.len(),
    {
        self.items.len()
    }

    /// Queues `line` behind the others. With an end closed the line is
    /// refused at once; with the queue full it is refused for now. A
    /// refused line comes back and the queue is as it was.
    pub fn send(&mut self, line: Vec<u8>) -> (res: Result<(), SendError>)
        ensures
            !old(self)@.connected() ==> final(self)@ == old(self)@ && res == Err::<(), SendError>(
                SendError::Disconnected(line),
            ),
            old(self)@.connected() && old(self)@.is_full() ==> final(self)@ == old(self)@ && res
                == Err::<(), SendError>(SendError::Full(line)),
            old(self)@.connected() && !old(self)@.is_full() ==> final(self)@ == old(self)@.pushed(
                line@,
            ) && res.is_ok(),
    {
        if !self.sender_open || !self.receiver_open {
            return Err(SendError::Disconnected(line));
        }
        let full = match self.bound {
            Some(n) => self.items.len() >= n,
            None => false,
        };
        if full {
            return Err(SendError::Full(line));
        }
        self.items.push_back(line);
        assert(self@.items =~= old(self)@.items.push(line@));
        Ok(())
    }

    /// Takes the oldest line that waits. The lines come out in the order
    /// in which they were queued. A closed sending end shows only when
    /// no line waits any more.
    pub fn recv(&mut self) -> (res: Received)
        ensures
            !old(self)@.receiver_open ==> final(self)@ == old(self)@ && res is Closed,
            old(self)@.receiver_open && old(self)@.items.len() > 0 ==> final(self)@ == old(
                self,
            )@.popped() && res is Line && res->Line_0@ == old(self)@.items[0],
            old(self)@.receiver_open && old(self)@.items.len() == 0 ==> final(self)@ == old(self)@
                && if old(self)@.sender_open {
                res is Empty
            } else {
                res is Closed
            },
    {
        if !self.receiver_open {
            return Received::Closed;
        }
        match self.items.pop_front() {
            Some(line) => {
                assert(self@.items =~= old(self)@.items.drop_first());
                Received::Line(line)
            },
            None => {
                assert(self@.items =~= old(self)@.items);
                if self.sender_open {
                    Received::Empty
                } else {
                    Received::Closed
                }
            },
        }
    }

    /// Closes the sending end. The lines that wait stay to be taken.
    pub fn close_sender(&mut self)
        ensures
            final(self)@ == (QueueState { sender_open: false, ..old(self)@ }),
    {
        self.sender_open = false;
        assert(self@.items =~= old(self)@.items);
    }

    /// Closes the receiving end. The lines that wait are dropped.
    pub fn close_receiver(&mut self)
        ensures
            final(self)@ == (QueueState {
                receiver_open: false,
                items: Seq::<Seq<u8>>::empty(),
                ..old(self)@
            }),
    {
        self.receiver_open = false;
        self.items.clear();
        assert(self@.items =~= Seq::<Seq<u8>>::empty());
    }
}

/// Whether the first `items.len() - rest.len()` of `items` were
/// rewritten in order and the others are `rest`: the state moved from
/// `st0` to `st1` over them, and their rewriting brought the output from
/// `out0` to `out1`.
pub open spec fn took(
    args: Args,
    items: Seq<Seq<u8>>,
    rest: Seq<Seq<u8>>,
    st0: State,
    st1: State,
    out0: Seq<u8>,
    out1: Seq<u8>,
) -> bool {
    let k = items.len() - rest.len();
    &&& 0 <= k
    &&& rest == items.skip(k)
    &&& st1 == state_after(args, st0, items.take(k))
    &&& out1 == out0 + output_of(args, st0, items.take(k))
}

/// The half of the run that rewrites: it owns the engine's state.
pub struct Consumer {
    args: Args,
    state: TransformState,
}

impl Consumer {
    /// The engine's state is in order.
    pub closed spec fn wf(&self) -> bool {
        self.state.wf()
    }

    /// The options that the consumer was made with.
    pub closed spec fn args(&self) -> Args {
        self.args
    }

    /// The engine's state.
    pub closed spec fn state(&self) -> State {
        self.state@
    }

    /// A consumer at the start of a stream.
    pub fn new(args: Args) -> (c: Consumer)
        ensures
            c.wf(),
            c.args() == args,
            c.state() == initial(),
    {
        Consumer { args, state: TransformState::new() }
    }

    /// Takes every line that waits in `queue`, oldest first, and appends
    /// what each turns into to `out`. Returns whether the stream is at
    /// its end: nothing waits and nothing will come.
    pub fn drain(&mut self, queue: &mut LineQueue, out: &mut Vec<u8>) -> (finished: bool)
        requires
            old(self).wf(),
            old(queue)@.receiver_open,
        ensures
            final(self).wf(),
            final(self).args() == old(self).args(),
            final(queue)@ == (QueueState { items: Seq::<Seq<u8>>::empty(), ..old(queue)@ }),
            final(self).state() == state_after(
                old(self).args(),
                old(self).state(),
                old(queue)@.items,
            ),
            final(out)@ == old(out)@ + output_of(
                old(self).args(),
                old(self).state(),
                old(queue)@.items,
            ),
            finished == !old(queue)@.sender_open,
    {
        let ghost items = queue@.items;
        let ghost args = self.args;
        let ghost st = self.state@;
        proof {
            assert(items.skip(0) =~= items);
            assert(items.take(0) =~= Seq::<Seq<u8>>::empty());
            assert(out@ + Seq::<u8>::empty() =~= out@);
        }
        loop
            invariant
                self.state.wf(),
                self.args == args,
                args == old(self).args,
                st == old(self).state@,
                old(queue)@.receiver_open,
                queue@.bound == old(queue)@.bound,
                queue@.sender_open == old(queue)@.sender_open,
                queue@.receiver_open,
                items == old(queue)@.items,
                took(args, items, queue@.items, st, self.state@, old(out)@, out@),
            decreases queue@.items.len(),
        {
            let ghost k = items.len() - queue@.items.len();
            match queue.recv() {
                Received::Line(line) => {
                    self.state.transform_line(&self.args, line.as_slice(), out);
                    proof {
                        assert(items.take(k + 1).drop_last() =~= items.take(k));
                        assert(items.take(k + 1).last() == items.skip(k)[0]);
                        assert(queue@.items =~= items.skip(k + 1));
                        assert(out@ =~= old(out)@ + output_of(args, st, items.take(k + 1)));
                    }
                },
                Received::Empty => {
                    proof {
                        assert(items.take(k) =~= items);
                        assert(queue@.items =~= Seq::<Seq<u8>>::empty());
                    }
                    return false;
                },
                Received::Closed => {
                    proof {
                        assert(items.take(k) =~= items);
                        assert(queue@.items =~= Seq::<Seq<u8>>::empty());
                    }
                    return true;
                },
            }
        }
    }
}

/// Queues `line`; where the queue is full, the consumer first takes all
/// that waits and rewrites it. So the line is queued in any case, behind
/// the others or alone.
pub fn deliver(queue: &mut LineQueue, consumer: &mut Consumer, out: &mut Vec<u8>, line: Vec<u8>)
    requires
        old(consumer).wf(),
        old(queue)@.connected(),
        old(queue)@.bound != Some(0nat),
    ensures
        final(consumer).wf(),
        final(consumer).args() == old(consumer).args(),
        final(queue)@.connected(),
        final(queue)@.bound == old(queue)@.bound,
        final(queue)@.items == if old(queue)@.is_full() {
            seq![line@]
        } else {
            old(queue)@.items.push(line@)
        },
        took(
            old(consumer).args(),
            old(queue)@.items.push(line@),
            final(queue)@.items,
            old(consumer).state(),
            final(consumer).state(),
            old(out)@,
            final(out)@,
        ),
{
    let ghost items = queue@.items.push(line@);
    let ghost args = consumer.args();
    let ghost st = consumer.state();
    match queue.send(line) {
        Ok(()) => {
            proof {
                assert(items.skip(0) =~= items);
                assert(items.take(0) =~= Seq::<Seq<u8>>::empty());
                assert(out@ + Seq::<u8>::empty() =~= out@);
            }
        },
        Err(SendError::Full(line)) => {
            consumer.drain(queue, out);
            let queued = queue.send(line);
            assert(queued.is_ok());
            proof {
                let k = items.len() - 1;
                assert(items.take(k) =~= old(queue)@.items);
                assert(queue@.items =~= items.skip(k));
            }
        },
        Err(SendError::Disconnected(_)) => {
            assert(false);
        },
    }
}

/// Whether a run stands as it should after `sent` were queued in order:
/// those that no longer wait were rewritten from the initial state, and
/// `out` is what came of them.
pub open spec fn in_step(
    args: Args,
    sent: Seq<Seq<u8>>,
    queued: Seq<Seq<u8>>,
    st: State,
    out: Seq<u8>,
) -> bool {
    took(args, sent, queued, initial(), st, Seq::<u8>::empty(), out)
}

/// A run that was in step stays in step when one more line is queued and
/// some of the lines that wait are rewritten.
pub proof fn lemma_in_step(
    args: Args,
    sent: Seq<Seq<u8>>,
    line: Seq<u8>,
    queued: Seq<Seq<u8>>,
    st: State,
    out: Seq<u8>,
    rest: Seq<Seq<u8>>,
    st1: State,
    out1: Seq<u8>,
)
    requires
        in_step(args, sent, queued, st, out),
        took(args, queued.push(line), rest, st, st1, out, out1),
    ensures
        in_step(args, sent.push(line), rest, st1, out1),
{
    let d = sent.len() - queued.len();
    let items = queued.push(line);
    let k = items.len() - rest.len();
    let all = sent.push(line);
    assert(all.skip(d) =~= items);
    assert(all.take(d) =~= sent.take(d));
    assert(all.take(d + k) =~= all.take(d) + items.take(k));
    assert(all.skip(d + k) =~= items.skip(k));
    lemma_lines_append(args, initial(), all.take(d), items.take(k));
    assert(out1 =~= Seq::<u8>::empty() + output_of(args, initial(), all.take(d + k)));
}

/// Runs the whole rewriting over sources held in memory as two halves
/// joined by a queue that lets `bound` lines wait, or any number where
/// there is no bound. The output is that of the run in one piece.
pub fn process_pipelined(args: &Args, sources: &Vec<Vec<u8>>, bound: Option<usize>) -> (out: Vec<
    u8,
>)
    requires
        bound != Some(0usize),
    ensures
        out@ == process_spec(*args, lines_of(sources@)),
{
    let ghost all = lines_of(sources@);
    let mut queue = LineQueue::new(bound);
    let mut consumer = Consumer::new(*args);
    let mut splitter = LineSplitter::new();
    let mut out: Vec<u8> = Vec::new();
    let ghost mut sent = Seq::<Seq<u8>>::empty();
    let mut i: usize = 0;
    proof {
        assert(all.take(0) =~= Seq::<Seq<u8>>::empty());
        assert(sent.skip(0) =~= sent);
        assert(sent.take(0) =~= sent);
        assert(complete(concat(all.take(0))) =~= sent);
    }
    while i < sources.len()
        invariant
            i <= sources.len(),
            all == lines_of(sources@),
            consumer.wf(),
            consumer.args() == *args,
            splitter.wf(),
            queue@.connected(),
            queue@.bound != Some(0nat),
            sent == complete(concat(all.take(i as int))),
            splitter.partial() == pending(concat(all.take(i as int))),
            in_step(*args, sent, queue@.items, consumer.state(), out@),
        decreases sources.len() - i,
    {
        let lines = splitter.feed(sources[i].as_slice());
        let ghost base = sent;
        let ghost fresh = lines_of(lines@);
        proof {
            let next = all.take(i + 1);
            assert(next.drop_last() =~= all.take(i as int));
            assert(next.last() == sources@[i as int]@);
            lemma_split_append(concat(all.take(i as int)), sources@[i as int]@);
            assert(base + fresh.take(0) =~= base);
        }
        let mut j: usize = 0;
        while j < lines.len()
            invariant
                j <= lines.len(),
                fresh == lines_of(lines@),
                consumer.wf(),
                consumer.args() == *args,
                queue@.connected(),
                queue@.bound != Some(0nat),
                sent == base + fresh.take(j as int),
                in_step(*args, sent, queue@.items, consumer.state(), out@),
            decreases lines.len() - j,
        {
            let line = lines[j].clone();
            let ghost queued = queue@.items;
            let ghost st = consumer.state();
            let ghost before = out@;
            deliver(&mut queue, &mut consumer, &mut out, line);
            proof {
                lemma_in_step(
                    *args,
                    sent,
                    line@,
                    queued,
                    st,
                    before,
                    queue@.items,
                    consumer.state(),
                    out@,
                );
                assert(base + fresh.take(j + 1) =~= sent.push(line@));
                sent = sent.push(line@);
            }
            j += 1;
        }
        proof {
            assert(fresh.take(j as int) =~= fresh);
        }
        i += 1;
    }
    proof {
        assert(all.take(i as int) =~= all);
    }
    match splitter.finish() {
        Some(line) => {
            let ghost queued = queue@.items;
            let ghost st = consumer.state();
            let ghost before = out@;
            deliver(&mut queue, &mut consumer, &mut out, line);
            proof {
                lemma_in_step(
                    *args,
                    sent,
                    line@,
                    queued,
                    st,
                    before,
                    queue@.items,
                    consumer.state(),
                    out@,
                );
                sent = sent.push(line@);
            }
        },
        None => {},
    }
    assert(sent == split_lines(concat(all)));
    queue.close_sender();
    let ghost waiting = queue@.items;
    let ghost st = consumer.state();
    consumer.drain(&mut queue, &mut out);
    queue.close_receiver();
    proof {
        let d = sent.len() - waiting.len();
        assert(sent.take(d) + waiting =~= sent);
        lemma_lines_append(*args, initial(), sent.take(d), waiting);
        assert(out@ =~= output_of(*args, initial(), sent));
        theorem_process_is_transform(*args, all);
    }
    out
}

} // verus!
