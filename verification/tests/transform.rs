use crab::args::{args, Args, CrabArgs};
use crab::counter::LineCounter;
use crab::engine::{is_blank, TransformState};
use crab::lines::LineSplitter;
use crab::mapping::{escape, new_line, tab, write_byte, write_bytes};
use crab::writer::{process, OutWriter};

fn plain() -> Args {
    Args::none()
}

fn run(args: &Args, input: &[u8]) -> Vec<u8> {
    process(args, &vec![input.to_vec()])
}

fn escaped(b: u8) -> Vec<u8> {
    let mut out = Vec::new();
    escape(b, &mut out);
    out
}

fn given() -> CrabArgs {
    CrabArgs {
        files: vec![],
        number_lines: false,
        number_non_blank: false,
        show_all: false,
        ev: false,
        t: false,
        show_ends: false,
        show_tabs: false,
        squeeze_blank: false,
        show_non_printing: false,
    }
}

#[test]
fn escape_table_vectors() {
    assert_eq!(escaped(0x00), b"^@".to_vec());
    assert_eq!(escaped(0x7f), b"^?".to_vec());
    assert_eq!(escaped(0xff), b"M-^?".to_vec());
    assert_eq!(escaped(0xa0), b"M- ".to_vec());
    let mut show_tabs = plain();
    show_tabs.show_tabs = true;
    let mut out = Vec::new();
    write_byte(&show_tabs, 0x09, &mut out);
    assert_eq!(out, b"^I".to_vec());
}

#[test]
fn escape_table_is_total() {
    for value in 0..=255u8 {
        let expected: Vec<u8> = match value {
            9 | 10 => vec![value],
            0..=31 => vec![b'^', value ^ 0x40],
            32..=126 => vec![value],
            127 => vec![b'^', b'?'],
            128..=159 => vec![b'M', b'-', b'^', (value - 128) ^ 0x40],
            160..=254 => vec![b'M', b'-', value - 128],
            255 => vec![b'M', b'-', b'^', b'?'],
        };
        let out = escaped(value);
        assert_eq!(out, expected, "byte {}", value);
        assert!(!out.is_empty() && out.len() <= 4);
    }
}

#[test]
fn escape_table_edges() {
    assert_eq!(escaped(1), b"^A".to_vec());
    assert_eq!(escaped(8), b"^H".to_vec());
    assert_eq!(escaped(9), b"\t".to_vec());
    assert_eq!(escaped(10), b"\n".to_vec());
    assert_eq!(escaped(11), b"^K".to_vec());
    assert_eq!(escaped(13), b"^M".to_vec());
    assert_eq!(escaped(31), b"^_".to_vec());
    assert_eq!(escaped(32), b" ".to_vec());
    assert_eq!(escaped(126), b"~".to_vec());
    assert_eq!(escaped(128), b"M-^@".to_vec());
    assert_eq!(escaped(159), b"M-^_".to_vec());
    assert_eq!(escaped(160), b"M- ".to_vec());
    assert_eq!(escaped(161), b"M-!".to_vec());
    assert_eq!(escaped(254), b"M-~".to_vec());
}

#[test]
fn tab_and_new_line_follow_the_options() {
    let mut a = plain();
    assert_eq!(tab(&a), &b"\t"[..]);
    assert_eq!(new_line(&a), &b"\n"[..]);
    a.show_tabs = true;
    assert_eq!(tab(&a), &b"^I"[..]);
    assert_eq!(new_line(&a), &b"\n"[..]);
    a.show_ends = true;
    assert_eq!(tab(&a), &b"^I"[..]);
    assert_eq!(new_line(&a), &b"$\n"[..]);
}

#[test]
fn bytes_pass_unless_non_printing_is_shown() {
    let a = plain();
    let input: Vec<u8> = (0..=255u8).collect();
    let mut out = Vec::new();
    write_bytes(&a, &input, &mut out);
    assert_eq!(out, input);
    let mut v = plain();
    v.show_non_printing = true;
    let mut out = Vec::new();
    write_bytes(&v, b"a\r\x7f\x80\t\n", &mut out);
    assert_eq!(out, b"a^M^?M-^@\t\n".to_vec());
}

#[test]
fn tab_is_shown_before_non_printing_is_asked() {
    let mut a = plain();
    a.show_non_printing = true;
    a.show_tabs = true;
    a.show_ends = true;
    let mut out = vec![b'>'];
    write_bytes(&a, b"\t\x01\n", &mut out);
    assert_eq!(out, b">^I^A$\n".to_vec());
}

#[test]
fn blank_lines_are_terminators_alone() {
    assert!(is_blank(b"\n"));
    assert!(is_blank(b"\r\n"));
    assert!(is_blank(b"\r"));
    assert!(!is_blank(b""));
    assert!(!is_blank(b" \n"));
    assert!(!is_blank(b"\n\n"));
    assert!(!is_blank(b"\r\r"));
    assert!(!is_blank(b"\n\r"));
    assert!(!is_blank(b"a"));
    assert!(!is_blank(b"\r\r\n"));
}

#[test]
fn squeeze_keeps_one_blank_line() {
    let mut a = plain();
    a.squeeze_blank = true;
    assert_eq!(run(&a, b"a\n\n\nb"), b"a\n\nb".to_vec());
}

#[test]
fn numbering_counts_every_line() {
    let mut a = plain();
    a.number_lines = true;
    assert_eq!(
        run(&a, b"x\n\ny\n"),
        b"     1\tx\n     2\t\n     3\ty\n".to_vec()
    );
}

#[test]
fn tabs_and_ends_are_shown() {
    let mut a = plain();
    a.show_tabs = true;
    a.show_ends = true;
    assert_eq!(run(&a, b"hi\tthere\n"), b"hi^Ithere$\n".to_vec());
}

#[test]
fn identity_on_every_byte() {
    let mut input: Vec<u8> = (0..=255u8).collect();
    input.extend_from_slice(b"\n\n\r\n\r\n\n tail without newline\r");
    assert_eq!(run(&plain(), &input), input);
    assert_eq!(run(&plain(), b""), Vec::<u8>::new());
}

#[test]
fn identity_over_several_sources() {
    let sources = vec![b"one\ntw".to_vec(), Vec::new(), b"o\n\n".to_vec(), b"\rend".to_vec()];
    assert_eq!(process(&plain(), &sources), b"one\ntwo\n\n\rend".to_vec());
}

#[test]
fn sources_run_together() {
    let a = b"first\nsecond, cut".to_vec();
    let b = b" here\n\n\nlast".to_vec();
    let mut joined = a.clone();
    joined.extend_from_slice(&b);
    for bits in 0..64u8 {
        let opts = Args {
            show_non_printing: bits & 1 != 0,
            show_ends: bits & 2 != 0,
            show_tabs: bits & 4 != 0,
            number_lines: bits & 8 != 0,
            squeeze_blank: bits & 16 != 0,
            number_non_blank: bits & 32 != 0,
        };
        assert_eq!(
            process(&opts, &vec![a.clone(), b.clone()]),
            process(&opts, &vec![joined.clone()])
        );
    }
}

#[test]
fn a_boundary_inside_a_terminator_leaves_no_trace() {
    let mut a = plain();
    a.squeeze_blank = true;
    a.number_lines = true;
    let out = process(&a, &vec![b"x\n\r".to_vec(), b"\n\r".to_vec(), b"\ny".to_vec()]);
    assert_eq!(out, b"     1\tx\n     2\t\r\n     3\ty".to_vec());
}

#[test]
fn squeeze_run_lengths() {
    let mut squeeze = plain();
    squeeze.squeeze_blank = true;
    for k in 2..8usize {
        let mut input = b"a\n".to_vec();
        input.extend(std::iter::repeat(b'\n').take(k));
        input.extend_from_slice(b"b\n");
        assert_eq!(run(&squeeze, &input), b"a\n\nb\n".to_vec());
        assert_eq!(run(&plain(), &input), input);
    }
}

#[test]
fn squeeze_at_the_start_of_the_stream() {
    let mut a = plain();
    a.squeeze_blank = true;
    assert_eq!(run(&a, b"\n\n\nx\n"), b"\nx\n".to_vec());
}

#[test]
fn squeeze_takes_carriage_returns_for_blank() {
    let mut a = plain();
    a.squeeze_blank = true;
    assert_eq!(run(&a, b"a\n\r\n\n\r\nb\n"), b"a\n\r\nb\n".to_vec());
    assert_eq!(run(&a, b"a\n\n\r"), b"a\n\n".to_vec());
    assert_eq!(run(&a, b"a\n\r"), b"a\n\r".to_vec());
}

#[test]
fn squeezed_lines_are_not_counted() {
    let mut a = plain();
    a.squeeze_blank = true;
    a.number_lines = true;
    assert_eq!(
        run(&a, b"a\n\n\n\nb\n"),
        b"     1\ta\n     2\t\n     3\tb\n".to_vec()
    );
}

#[test]
fn blank_lines_get_no_number_when_only_others_do() {
    let mut a = plain();
    a.number_lines = true;
    a.number_non_blank = true;
    assert_eq!(
        run(&a, b"x\n\ny\n\r\nz"),
        b"     1\tx\n\n     2\ty\n\r\n     3\tz".to_vec()
    );
}

#[test]
fn the_label_tab_stays_a_tab() {
    let mut a = plain();
    a.number_lines = true;
    a.show_tabs = true;
    assert_eq!(run(&a, b"\tx\n"), b"     1\t^Ix\n".to_vec());
}

#[test]
fn numbering_has_no_gaps() {
    let mut a = plain();
    a.number_lines = true;
    let mut input = Vec::new();
    let mut expected = Vec::new();
    for n in 1..=1200usize {
        let line: &[u8] = if n % 3 == 0 { b"\n" } else { b"text\n" };
        input.extend_from_slice(line);
        expected.extend_from_slice(format!("{:>6}\t", n).as_bytes());
        expected.extend_from_slice(line);
    }
    assert_eq!(run(&a, &input), expected);
}

#[test]
fn labels_grow_past_the_field() {
    let mut state = TransformState::new();
    let mut a = plain();
    a.number_lines = true;
    let mut last = Vec::new();
    for _ in 0..1_000_000u32 {
        last.clear();
        state.transform_line(&a, b"\n", &mut last);
    }
    assert_eq!(last, b"1000000\t\n".to_vec());
    assert_eq!(state.line_counter(), b"1000001".to_vec());
    let mut next = Vec::new();
    state.transform_line(&a, b"x", &mut next);
    assert_eq!(next, b"1000001\tx".to_vec());
}

#[test]
fn counter_carries() {
    let mut c = LineCounter::new();
    assert_eq!(c.digits(), &b"1".to_vec());
    for _ in 0..8 {
        c.increment();
    }
    assert_eq!(c.digits(), &b"9".to_vec());
    c.increment();
    assert_eq!(c.digits(), &b"10".to_vec());
    for _ in 0..89 {
        c.increment();
    }
    assert_eq!(c.digits(), &b"99".to_vec());
    c.increment();
    assert_eq!(c.digits(), &b"100".to_vec());
    for _ in 0..99_899 {
        c.increment();
    }
    assert_eq!(c.digits(), &b"99999".to_vec());
    let mut label = Vec::new();
    c.write_label(&mut label);
    assert_eq!(label, b" 99999\t".to_vec());
    c.increment();
    let mut label = Vec::new();
    c.write_label(&mut label);
    assert_eq!(label, b"100000\t".to_vec());
}

#[test]
fn state_starts_at_one() {
    let state = TransformState::new();
    assert_eq!(state.line_counter(), b"1".to_vec());
    assert!(!state.last_line_was_blank());
}

#[test]
fn state_remembers_blankness() {
    let mut state = TransformState::new();
    let a = plain();
    let mut out = Vec::new();
    state.transform_line(&a, b"\r\n", &mut out);
    assert!(state.last_line_was_blank());
    state.transform_line(&a, b"x\n", &mut out);
    assert!(!state.last_line_was_blank());
    assert_eq!(out, b"\r\nx\n".to_vec());
    assert_eq!(state.line_counter(), b"1".to_vec());
}

#[test]
fn splitter_hands_out_whole_lines() {
    let mut s = LineSplitter::new();
    assert_eq!(s.feed(b"ab"), Vec::<Vec<u8>>::new());
    assert_eq!(s.feed(b"c\nd\n\ne"), vec![b"abc\n".to_vec(), b"d\n".to_vec(), b"\n".to_vec()]);
    assert_eq!(s.feed(b""), Vec::<Vec<u8>>::new());
    assert_eq!(s.feed(b"\r"), Vec::<Vec<u8>>::new());
    assert_eq!(s.feed(b"\n"), vec![b"e\r\n".to_vec()]);
    assert_eq!(s.finish(), None);
    assert_eq!(s.feed(b"tail"), Vec::<Vec<u8>>::new());
    assert_eq!(s.finish(), Some(b"tail".to_vec()));
    assert_eq!(s.finish(), None);
}

#[test]
fn writer_waits_for_the_end_of_a_line() {
    let mut a = plain();
    a.number_lines = true;
    a.show_ends = true;
    let mut w = OutWriter::new(a);
    assert_eq!(w.write_all(b"he"), Vec::<u8>::new());
    assert_eq!(w.write_all(b"llo\nwor"), b"     1\thello$\n".to_vec());
    assert_eq!(w.write_all(b"ld"), Vec::<u8>::new());
    assert_eq!(w.finish(), b"     2\tworld".to_vec());
    assert_eq!(w.finish(), Vec::<u8>::new());
}

#[test]
fn shorthands_resolve() {
    let mut g = given();
    g.files = vec!["a".to_string(), "-".to_string()];
    let (files, opts) = args(g);
    assert_eq!(files, vec!["a".to_string(), "-".to_string()]);
    assert_eq!(opts, Args::none());
    assert!(opts.is_identity());

    let mut g = given();
    g.show_all = true;
    let (_, opts) = args(g);
    assert!(opts.show_non_printing && opts.show_ends && opts.show_tabs);
    assert!(!opts.number_lines && !opts.number_non_blank && !opts.squeeze_blank);
    assert!(!opts.is_identity());

    let mut g = given();
    g.ev = true;
    let (_, opts) = args(g);
    assert!(opts.show_non_printing && opts.show_ends && !opts.show_tabs);

    let mut g = given();
    g.t = true;
    let (_, opts) = args(g);
    assert!(opts.show_non_printing && !opts.show_ends && opts.show_tabs);

    let mut g = given();
    g.number_non_blank = true;
    let (_, opts) = args(g);
    assert!(opts.number_lines && opts.number_non_blank);

    let mut g = given();
    g.squeeze_blank = true;
    g.number_lines = true;
    g.show_ends = true;
    let (_, opts) = args(g);
    assert!(opts.squeeze_blank && opts.number_lines && opts.show_ends);
    assert!(!opts.number_non_blank && !opts.show_tabs && !opts.show_non_printing);
}
