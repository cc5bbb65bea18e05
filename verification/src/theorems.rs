//! What holds of the rewriting as a whole, whatever the input.

use vstd::prelude::*;
use crate::args::Args;
use crate::counter::label;
use crate::engine::{
    emitted, initial, is_blank_spec, line_next, line_output, output_of, state_after, State,
};
use crate::lines::{complete, concat, lemma_split_append, lemma_split_lines, pending, split_lines};
use crate::mapping::render_bytes;
use crate::writer::{pending_at, process_spec, state_at, transform, written};

verus! {

/// Rewriting `a` and then `b` is rewriting the two together: the second
/// goes on in the state that the first left.
pub proof fn lemma_lines_append(args: Args, st: State, a: Seq<Seq<u8>>, b: Seq<Seq<u8>>)
    ensures
        state_after(args, st, a + b) == state_after(args, state_after(args, st, a), b),
        output_of(args, st, a + b) == output_of(args, st, a) + output_of(
            args,
            state_after(args, st, a),
            b,
        ),
        emitted(args, st, a + b) == emitted(args, st, a) + emitted(
            args,
            state_after(args, st, a),
            b,
        ),
    decreases b.len(),
{
    if b.len() == 0 {
        assert(a + b =~= a);
        assert(output_of(args, st, a) + Seq::<u8>::empty() =~= output_of(args, st, a));
    } else {
        lemma_lines_append(args, st, a, b.drop_last());
        assert((a + b).drop_last() =~= a + b.drop_last());
        assert((a + b).last() == b.last());
        let mid = state_after(args, st, a);
        let s = state_after(args, mid, b.drop_last());
        assert(output_of(args, st, a + b) =~= output_of(args, st, a) + (output_of(
            args,
            mid,
            b.drop_last(),
        ) + line_output(args, s, b.last())));
    }
}

/// Writing a stream in pieces keeps nothing but what writing it whole
/// would keep: the same fragment is left open, the engine is in the same
/// state, and the same bytes have come out.
pub proof fn lemma_pieces(args: Args, pieces: Seq<Seq<u8>>)
    ensures
        pending_at(pieces) == pending(concat(pieces)),
        state_at(args, pieces) == state_after(args, initial(), complete(concat(pieces))),
        written(args, pieces) == output_of(args, initial(), complete(concat(pieces))),
    decreases pieces.len(),
{
    if pieces.len() == 0 {
        assert(complete(concat(pieces)) =~= Seq::<Seq<u8>>::empty());
    } else {
        let before = pieces.drop_last();
        lemma_pieces(args, before);
        lemma_split_append(concat(before), pieces.last());
        lemma_lines_append(
            args,
            initial(),
            complete(concat(before)),
            complete(pending(concat(before)) + pieces.last()),
        );
    }
}

/// A run over sources writes what the rewriting of their concatenation,
/// taken whole, is: where one source ends and the next begins leaves no
/// trace.
pub proof fn theorem_process_is_transform(args: Args, sources: Seq<Seq<u8>>)
    ensures
        process_spec(args, sources) == transform(args, concat(sources)),
{
    lemma_pieces(args, sources);
    let input = concat(sources);
    if pending(input).len() != 0 {
        assert(split_lines(input).drop_last() =~= complete(input));
    } else {
        assert(process_spec(args, sources) =~= written(args, sources));
    }
}

/// With no option set every byte is shown as itself.
pub proof fn lemma_render_plain(args: Args, s: Seq<u8>)
    requires
        !args.show_non_printing,
        !args.show_ends,
        !args.show_tabs,
    ensures
        render_bytes(args, s) == s,
    decreases s.len(),
{
    if s.len() == 0 {
        assert(render_bytes(args, s) =~= s);
    } else {
        lemma_render_plain(args, s.drop_last());
        assert(s.drop_last() + seq![s.last()] =~= s);
    }
}

/// With no option set lines come out as they went in.
pub proof fn lemma_output_plain(st: State, lines: Seq<Seq<u8>>)
    ensures
        output_of(Args::plain(), st, lines) == concat(lines),
    decreases lines.len(),
{
    if lines.len() != 0 {
        lemma_output_plain(st, lines.drop_last());
        lemma_render_plain(Args::plain(), lines.last());
    }
}

/// Identity: with no option set, the rewriting of a stream is the stream,
/// byte for byte.
pub proof fn theorem_identity_stream(input: Seq<u8>)
    ensures
        transform(Args::plain(), input) == input,
{
    lemma_output_plain(initial(), split_lines(input));
    lemma_split_lines(input);
}

/// Identity: with no option set, a run over any sources writes their
/// contents one after another, byte for byte.
pub proof fn theorem_identity(sources: Seq<Seq<u8>>)
    ensures
        process_spec(Args::plain(), sources) == concat(sources),
{
    theorem_process_is_transform(Args::plain(), sources);
    theorem_identity_stream(concat(sources));
}

/// Concatenation: a run over `a` and then `b` writes what a run over the
/// single source `a + b` writes. This holds under every choice of
/// options.
pub proof fn theorem_concatenation(args: Args, a: Seq<u8>, b: Seq<u8>)
    ensures
        process_spec(args, seq![a, b]) == process_spec(args, seq![a + b]),
{
    let two = seq![a, b];
    let one = seq![a + b];
    theorem_process_is_transform(args, two);
    theorem_process_is_transform(args, one);
    assert(two.drop_last() =~= seq![a]);
    assert(seq![a].drop_last() =~= Seq::<Seq<u8>>::empty());
    assert(one.drop_last() =~= Seq::<Seq<u8>>::empty());
    assert(concat(Seq::<Seq<u8>>::empty()) =~= Seq::<u8>::empty());
    assert(concat(seq![a]) =~= a);
    assert(concat(two) =~= a + b);
    assert(concat(one) =~= a + b);
}

/// The counter never goes back, and it moves on by at most one for each
/// line that is let through.
pub proof fn lemma_counter_bounds(args: Args, st: State, lines: Seq<Seq<u8>>)
    ensures
        st.line_counter <= state_after(args, st, lines).line_counter <= st.line_counter + emitted(
            args,
            st,
            lines,
        ),
    decreases lines.len(),
{
    if lines.len() != 0 {
        lemma_counter_bounds(args, st, lines.drop_last());
    }
}

/// Whether every line of `lines` is blank.
pub open spec fn all_blank(lines: Seq<Seq<u8>>) -> bool {
    forall|i: int| 0 <= i < lines.len() ==> is_blank_spec(#[trigger] lines[i])
}

/// Squeezing lets through nothing of blank lines that follow a blank
/// line.
pub proof fn lemma_squeezed_tail(args: Args, st: State, run: Seq<Seq<u8>>)
    requires
        args.squeeze_blank,
        st.last_line_was_blank,
        all_blank(run),
    ensures
        emitted(args, st, run) == 0,
        output_of(args, st, run) == Seq::<u8>::empty(),
        state_after(args, st, run) == st,
    decreases run.len(),
{
    if run.len() != 0 {
        assert(all_blank(run.drop_last())) by {
            assert forall|i: int| 0 <= i < run.drop_last().len() implies is_blank_spec(
                #[trigger] run.drop_last()[i],
            ) by {
                assert(run.drop_last()[i] == run[i]);
            }
        }
        lemma_squeezed_tail(args, st, run.drop_last());
        assert(is_blank_spec(run.last()));
        assert(output_of(args, st, run) =~= Seq::<u8>::empty());
    }
}

/// Squeeze: of a run of two or more blank lines that follows a line that
/// is not blank (or begins the stream), squeezing lets through exactly
/// one, the first, and what comes out is what that line alone turns into.
pub proof fn theorem_squeeze(args: Args, st: State, run: Seq<Seq<u8>>)
    requires
        args.squeeze_blank,
        !st.last_line_was_blank,
        run.len() >= 2,
        all_blank(run),
    ensures
        emitted(args, st, run) == 1,
        output_of(args, st, run) == line_output(args, st, run[0]),
        state_after(args, st, run) == line_next(args, st, run[0]),
{
    let head = seq![run[0]];
    let tail = run.subrange(1, run.len() as int);
    assert(head + tail =~= run);
    assert(head.drop_last() =~= Seq::<Seq<u8>>::empty());
    assert(is_blank_spec(run[0]));
    assert(all_blank(tail)) by {
        assert forall|i: int| 0 <= i < tail.len() implies is_blank_spec(#[trigger] tail[i]) by {
            assert(tail[i] == run[i + 1]);
        }
    }
    let mid = line_next(args, st, run[0]);
    assert(state_after(args, st, head.drop_last()) == st);
    assert(output_of(args, st, head.drop_last()) =~= Seq::<u8>::empty());
    assert(emitted(args, st, head.drop_last()) == 0);
    assert(head.last() == run[0]);
    assert(state_after(args, st, head) == mid);
    assert(output_of(args, st, head) =~= line_output(args, st, run[0]));
    assert(emitted(args, st, head) == 1);
    lemma_lines_append(args, st, head, tail);
    lemma_squeezed_tail(args, mid, tail);
    assert(line_output(args, st, run[0]) + Seq::<u8>::empty() =~= line_output(args, st, run[0]));
}

/// Without squeezing every line is let through, so a run of `k` blank
/// lines comes out as `k` lines.
pub proof fn theorem_no_squeeze(args: Args, st: State, lines: Seq<Seq<u8>>)
    requires
        !args.squeeze_blank,
    ensures
        emitted(args, st, lines) == lines.len(),
    decreases lines.len(),
{
    if lines.len() != 0 {
        theorem_no_squeeze(args, st, lines.drop_last());
    }
}

/// Numbering: where every line is numbered and none is squeezed, the
/// line at place `i` (counted from 0) meets the counter `i` above where
/// it began, comes out as the label of that number and then its content,
/// and every line is let through. From the initial state the first line
/// is labelled 1, the next 2, and so on without a gap.
pub proof fn theorem_numbering(args: Args, st: State, lines: Seq<Seq<u8>>, i: int)
    requires
        args.number_lines,
        !args.number_non_blank,
        !args.squeeze_blank,
        0 <= i < lines.len(),
    ensures
        state_after(args, st, lines.take(i)).line_counter == st.line_counter + i,
        line_output(args, state_after(args, st, lines.take(i)), lines[i]) == label(
            (st.line_counter + i) as nat,
        ) + render_bytes(args, lines[i]),
        emitted(args, st, lines) == lines.len(),
    decreases i,
{
    theorem_no_squeeze(args, st, lines);
    if i > 0 {
        theorem_numbering(args, st, lines, i - 1);
        assert(lines.take(i).drop_last() =~= lines.take(i - 1));
        assert(lines.take(i).last() == lines[i - 1]);
    }
}

} // verus!
