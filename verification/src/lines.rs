//! Splitting a byte stream into lines, each with its terminator.

use vstd::prelude::*;

verus! {

/// The newline byte, on which the stream is split.
pub const NEWLINE: u8 = 10;

/// The bytes of `s` after its last newline: the line that is not yet
/// delimited. Empty where `s` ends in a newline.
pub open spec fn pending(s: Seq<u8>) -> Seq<u8>
    decreases s.len(),
{
    if s.len() == 0 || s.last() == NEWLINE {
        Seq::empty()
    } else {
        pending(s.drop_last()).push(s.last())
    }
}

/// The delimited lines of `s` in order, each up to and including its
/// newline.
pub open spec fn complete(s: Seq<u8>) -> Seq<Seq<u8>>
    decreases s.len(),
{
    if s.len() == 0 {
        Seq::empty()
    } else if s.last() == NEWLINE {
        complete(s.drop_last()).push(pending(s.drop_last()).push(NEWLINE))
    } else {
        complete(s.drop_last())
    }
}

/// The lines of the whole stream `s`: the delimited ones and, where `s`
/// does not end in a newline, the fragment that is left.
pub open spec fn split_lines(s: Seq<u8>) -> Seq<Seq<u8>> {
    if pending(s).len() == 0 {
        complete(s)
    } else {
        complete(s).push(pending(s))
    }
}

/// The lines one after another, with nothing between them.
pub open spec fn concat(lines: Seq<Seq<u8>>) -> Seq<u8>
    decreases lines.len(),
{
    if lines.len() == 0 {
        Seq::empty()
    } else {
        concat(lines.drop_last()) + lines.last()
    }
}

/// Whether `s` holds no newline.
pub open spec fn unbroken(s: Seq<u8>) -> bool {
    forall|i: int| 0 <= i < s.len() ==> s[i] != NEWLINE
}

/// Whether `line` is a delimited line: it ends in the only newline it has.
pub open spec fn delimited(line: Seq<u8>) -> bool {
    line.len() >= 1 && line.last() == NEWLINE && unbroken(line.drop_last())
}

/// The views of the lines in `v`.
pub open spec fn lines_of(v: Seq<Vec<u8>>) -> Seq<Seq<u8>> {
    Seq::new(v.len(), |i: int| v[i]@)
}

/// The fragment that is left holds no newline.
pub proof fn lemma_pending_unbroken(s: Seq<u8>)
    ensures
        unbroken(pending(s)),
        pending(s).len() <= s.len(),
    decreases s.len(),
{
    if s.len() != 0 && s.last() != NEWLINE {
        lemma_pending_unbroken(s.drop_last());
    }
}

/// A stream without a newline is all fragment.
pub proof fn lemma_unbroken_pending(s: Seq<u8>)
    requires
        unbroken(s),
    ensures
        pending(s) == s,
        complete(s) == Seq::<Seq<u8>>::empty(),
    decreases s.len(),
{
    if s.len() != 0 {
        lemma_unbroken_pending(s.drop_last());
        assert(s.drop_last().push(s.last()) =~= s);
    } else {
        assert(pending(s) =~= s);
    }
}

/// Each delimited line ends in its only newline.
pub proof fn lemma_complete_delimited(s: Seq<u8>)
    ensures
        forall|i: int| 0 <= i < complete(s).len() ==> delimited(#[trigger] complete(s)[i]),
    decreases s.len(),
{
    if s.len() != 0 {
        lemma_complete_delimited(s.drop_last());
        if s.last() == NEWLINE {
            let p = pending(s.drop_last());
            lemma_pending_unbroken(s.drop_last());
            assert(p.push(NEWLINE).drop_last() =~= p);
            assert(delimited(p.push(NEWLINE)));
            assert forall|i: int| 0 <= i < complete(s).len() implies delimited(
                #[trigger] complete(s)[i],
            ) by {
                if i < complete(s).len() - 1 {
                    assert(complete(s)[i] == complete(s.drop_last())[i]);
                }
            }
        }
    }
}

/// The delimited lines and the fragment make up the stream.
pub proof fn lemma_complete_concat(s: Seq<u8>)
    ensures
        concat(complete(s)) + pending(s) == s,
    decreases s.len(),
{
    if s.len() == 0 {
        assert(concat(complete(s)) + pending(s) =~= s);
    } else {
        let t = s.drop_last();
        lemma_complete_concat(t);
        if s.last() == NEWLINE {
            let line = pending(t).push(NEWLINE);
            assert(complete(s).drop_last() =~= complete(t));
            assert(concat(complete(s)) == concat(complete(t)) + line);
            assert(concat(complete(t)) + line =~= (concat(complete(t)) + pending(t)).push(
                NEWLINE,
            ));
            assert(t.push(NEWLINE) =~= s);
            assert(concat(complete(s)) + pending(s) =~= s);
        } else {
            assert(concat(complete(s)) + pending(s) =~= (concat(complete(t)) + pending(t)).push(
                s.last(),
            ));
            assert(t.push(s.last()) =~= s);
        }
    }
}

/// Splitting loses and adds nothing: the lines of a stream, one after
/// another, are the stream; no line is empty; each but the last is
/// delimited, and the last is delimited or holds no newline.
pub proof fn lemma_split_lines(s: Seq<u8>)
    ensures
        concat(split_lines(s)) == s,
        forall|i: int| 0 <= i < split_lines(s).len() ==> (#[trigger] split_lines(s)[i]).len() >= 1,
        forall|i: int|
            0 <= i < split_lines(s).len() - 1 ==> delimited(#[trigger] split_lines(s)[i]),
        split_lines(s).len() >= 1 ==> delimited(split_lines(s).last()) || unbroken(
            split_lines(s).last(),
        ),
{
    lemma_complete_concat(s);
    lemma_complete_delimited(s);
    lemma_pending_unbroken(s);
    if pending(s).len() == 0 {
        assert(concat(complete(s)) + pending(s) =~= concat(complete(s)));
    } else {
        assert(split_lines(s).drop_last() =~= complete(s));
    }
}

/// Splitting a stream in two pieces gives the same lines as splitting it
/// whole: the second piece goes on from the fragment that the first left.
pub proof fn lemma_split_append(a: Seq<u8>, b: Seq<u8>)
    ensures
        complete(a + b) == complete(a) + complete(pending(a) + b),
        pending(a + b) == pending(pending(a) + b),
    decreases b.len(),
{
    if b.len() == 0 {
        assert(a + b =~= a);
        assert(pending(a) + b =~= pending(a));
        lemma_pending_unbroken(a);
        lemma_unbroken_pending(pending(a));
        assert(complete(a) + complete(pending(a) + b) =~= complete(a));
    } else {
        let c = b.drop_last();
        lemma_split_append(a, c);
        assert((a + b).drop_last() =~= a + c);
        assert((pending(a) + b).drop_last() =~= pending(a) + c);
        assert((a + b).last() == b.last());
        assert((pending(a) + b).last() == b.last());
        if b.last() == NEWLINE {
            assert(complete(a + b) =~= complete(a) + complete(pending(a) + b));
        }
    }
}

/// Cuts a stream that comes in pieces into lines.
pub struct LineSplitter {
    partial: Vec<u8>,
}

impl LineSplitter {
    /// The fragment kept holds no newline.
    pub closed spec fn wf(&self) -> bool {
        unbroken(self.partial@)
    }

    /// The bytes taken in since the last newline.
    pub closed spec fn partial(&self) -> Seq<u8> {
        self.partial@
    }

    /// A splitter that has seen nothing.
    pub fn new() -> (s: LineSplitter)
        ensures
            s.wf(),
            s.partial() == Seq::<u8>::empty(),
    {
        LineSplitter { partial: Vec::new() }
    }

    /// Takes in the next piece of the stream and hands out the lines that
    /// it completes. What follows the last newline is kept for later.
    pub fn feed(&mut self, chunk: &[u8]) -> (lines: Vec<Vec<u8>>)
        requires
            old(self).wf(),
        ensures
            final(self).wf(),
            lines_of(lines@) == complete(old(self).partial() + chunk@),
            final(self).partial() == pending(old(self).partial() + chunk@),
    {
        let ghost start = self.partial@;
        let mut lines: Vec<Vec<u8>> = Vec::new();
        let mut i: usize = 0;
        proof {
            assert(start + chunk@.take(0) =~= start);
            lemma_unbroken_pending(start);
            assert(lines_of(lines@) =~= complete(start));
        }
        while i < chunk.len()
            invariant
                i <= chunk.len(),
                lines_of(lines@) == complete(start + chunk@.take(i as int)),
                self.partial@ == pending(start + chunk@.take(i as int)),
            decreases chunk.len() - i,
        {
            let b: u8 = chunk[i];
            let ghost seen = start + chunk@.take(i as int);
            let ghost next = start + chunk@.take(i + 1);
            proof {
                assert(next.drop_last() =~= seen);
                assert(next.last() == b);
            }
            self.partial.push(b);
            if b == NEWLINE {
                let mut line: Vec<u8> = Vec::new();
                std::mem::swap(&mut line, &mut self.partial);
                let ghost before = lines@;
                lines.push(line);
                proof {
                    assert(lines_of(lines@) =~= lines_of(before).push(line@));
                }
            }
            i += 1;
        }
        proof {
            assert(chunk@.take(i as int) =~= chunk@);
            lemma_pending_unbroken(start + chunk@);
        }
        lines
    }

    /// Ends the stream: hands out the fragment that no newline closed, if
    /// there is one.
    pub fn finish(&mut self) -> (last: Option<Vec<u8>>)
        requires
            old(self).wf(),
        ensures
            final(self).wf(),
            final(self).partial() == Seq::<u8>::empty(),
            old(self).partial().len() == 0 ==> last.is_none(),
            old(self).partial().len() > 0 ==> last.is_some() && last.unwrap()@ == old(
                self,
            ).partial(),
    {
        if self.partial.len() == 0 {
            None
        } else {
            let mut line: Vec<u8> = Vec::new();
            std::mem::swap(&mut line, &mut self.partial);
            Some(line)
        }
    }
}

} // verus!
