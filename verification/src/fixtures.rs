//! Inputs to try the program on: what each holds and where it is kept.

use vstd::prelude::*;
use vstd::string::StringExecFns;
use rand::seq::SliceRandom;
use crate::counter::decimal;

verus! {

/// The random number generator of the current thread.
#[verifier::external_type_specification]
#[verifier::external_body]
pub struct ExThreadRng(rand::rngs::ThreadRng);

/// `rand::thread_rng` hands out the generator of the current thread.
/// Nothing is claimed of it.
pub assume_specification[ rand::thread_rng ]() -> (rng: rand::rngs::ThreadRng)
;

/// Picks one of `chars` at random. Calls `SliceRandom::choose` on the
/// slice: it gives nothing for an empty slice and else one of the
/// slice's items; which one is left open.
#[verifier::external_body]
fn pick(chars: &[u8], rng: &mut rand::rngs::ThreadRng) -> (picked: Option<u8>)
    ensures
        picked.is_some() == (chars@.len() > 0),
        picked.is_some() ==> chars@.contains(picked.unwrap()),
{
    chars.choose(rng).copied()
}

/// An input to try the program on.
#[derive(Clone, Copy, Debug, PartialEq, Eq, Structural)]
pub enum TestFile {
    /// Printable characters, tabs and newlines in random order.
    Random,
    /// One line for each byte value, with the byte in it.
    AllTheBytes,
    /// A file that may not be read.
    NoPermissions,
    /// Standard input.
    Pipe,
}

/// How many bytes the random input has.
pub const RANDOM_LEN: usize = 10_000_001;

/// Whether `b` may occur in the random input: a printable character that
/// is no space, a tab or a newline.
pub open spec fn in_alphabet(b: u8) -> bool {
    33 <= b <= 126 || b == 9 || b == 10
}

/// The line for byte `b`: its value in decimal, ` = `, the byte itself
/// and a newline.
pub open spec fn byte_line(b: u8) -> Seq<u8> {
    decimal(b as nat) + seq![32u8, 61u8, 32u8, b, 10u8]
}

/// The lines for the first `n` byte values, in order.
pub open spec fn byte_lines(n: nat) -> Seq<u8>
    decreases n,
{
    if n == 0 || n > 256 {
        Seq::empty()
    } else {
        byte_lines((n - 1) as nat) + byte_line((n - 1) as u8)
    }
}

/// Where `file` is kept. Standard input is kept nowhere.
pub open spec fn path_spec(file: TestFile) -> Seq<char> {
    match file {
        TestFile::Random => "test_inputs/random.txt"@,
        TestFile::AllTheBytes => "test_inputs/all_the_bytes.txt"@,
        TestFile::NoPermissions => "test_inputs/no_permission.txt"@,
        TestFile::Pipe => "-"@,
    }
}

/// The alphabet in the order in which it is kept: the printable
/// characters from `!` to `~`, then tab and newline.
pub open spec fn alphabet_spec() -> Seq<u8> {
    Seq::new(94, |i: int| (33 + i) as u8) + seq![9u8, 10u8]
}

/// The alphabet holds the bytes that may occur, and no others.
pub proof fn lemma_alphabet(b: u8)
    ensures
        alphabet_spec().contains(b) <==> in_alphabet(b),
{
    let chars = alphabet_spec();
    if in_alphabet(b) {
        if b == 9 {
            assert(chars[94] == b);
        } else if b == 10 {
            assert(chars[95] == b);
        } else {
            assert(chars[b - 33] == b);
        }
    }
}

/// The characters that the random input draws from.
pub fn alphabet() -> (chars: Vec<u8>)
    ensures
        chars@ == alphabet_spec(),
{
    let mut chars: Vec<u8> = Vec::new();
    let mut c: u8 = 33;
    while c <= 126
        invariant
            33 <= c <= 127,
            chars@.len() == c - 33,
            forall|i: int| 0 <= i < chars@.len() ==> chars@[i] == 33 + i,
        decreases 127 - c,
    {
        chars.push(c);
        c += 1;
    }
    chars.push(9);
    chars.push(10);
    assert(chars@ =~= alphabet_spec());
    chars
}

/// A text of `len` bytes, each drawn at random from the alphabet.
pub fn random_text(len: usize) -> (text: Vec<u8>)
    ensures
        text@.len() == len,
        forall|i: int| 0 <= i < len ==> in_alphabet(#[trigger] text@[i]),
{
    let chars = alphabet();
    let mut rng = rand::thread_rng();
    let mut text: Vec<u8> = Vec::new();
    while text.len() < len
        invariant
            text@.len() <= len,
            chars@ == alphabet_spec(),
            forall|i: int| 0 <= i < text@.len() ==> in_alphabet(#[trigger] text@[i]),
        decreases len - text@.len(),
    {
        match pick(chars.as_slice(), &mut rng) {
            Some(b) => {
                proof {
                    lemma_alphabet(b);
                }
                text.push(b);
            },
            None => {
                assert(false);
            },
        }
    }
    text
}

/// Appends the value of `b` in decimal to `out`.
fn write_decimal(b: u8, out: &mut Vec<u8>)
    ensures
        final(out)@ == old(out)@ + decimal(b as nat),
{
    if b >= 100 {
        out.push(48 + b / 100);
    }
    if b >= 10 {
        out.push(48 + (b / 10) % 10);
    }
    out.push(48 + b % 10);
    proof {
        let n = b as nat;
        if n >= 100 {
            assert(decimal(n / 100) =~= seq![(48 + n / 100) as u8]);
            assert(decimal(n / 10) =~= decimal(n / 100).push((48 + (n / 10) % 10) as u8));
        } else if n >= 10 {
            assert(decimal(n / 10) =~= seq![(48 + n / 10) as u8]);
        }
        assert(out@ =~= old(out)@ + decimal(n));
    }
}

/// The input with one line for each of the 256 byte values.
pub fn all_the_bytes() -> (text: Vec<u8>)
    ensures
        text@ == byte_lines(256),
{
    let mut text: Vec<u8> = Vec::new();
    let mut n: usize = 0;
    while n < 256
        invariant
            n <= 256,
            text@ == byte_lines(n as nat),
        decreases 256 - n,
    {
        let b: u8 = n as u8;
        let ghost before = text@;
        write_decimal(b, &mut text);
        text.push(32);
        text.push(61);
        text.push(32);
        text.push(b);
        text.push(10);
        n += 1;
        assert(text@ =~= before + byte_line(b));
    }
    text
}

impl TestFile {
    /// The path at which this input is kept.
    pub fn get_path(&self) -> (path: String)
        requires
            !(self is Pipe),
        ensures
            path@ == path_spec(*self),
    {
        String::from_str(self.get())
    }

    /// The token that names this input on the command line: its path, or
    /// `-` for standard input.
    pub fn get(&self) -> (name: &'static str)
        ensures
            name@ == path_spec(*self),
    {
        match self {
            TestFile::Random => "test_inputs/random.txt",
            TestFile::AllTheBytes => "test_inputs/all_the_bytes.txt",
            TestFile::NoPermissions => "test_inputs/no_permission.txt",
            TestFile::Pipe => "-",
        }
    }

    /// What this input holds when it is first made. The file that may not
    /// be read is made empty, and standard input holds nothing of its
    /// own.
    pub fn contents(&self) -> (text: Vec<u8>)
        ensures
            *self is Random ==> text@.len() == RANDOM_LEN && forall|i: int|
                0 <= i < text@.len() ==> in_alphabet(#[trigger] text@[i]),
            *self is AllTheBytes ==> text@ == byte_lines(256),
            *self is NoPermissions || *self is Pipe ==> text@.len() == 0,
    {
        match self {
            TestFile::Random => random_text(RANDOM_LEN),
            TestFile::AllTheBytes => all_the_bytes(),
            _ => Vec::new(),
        }
    }
}

} // verus!
