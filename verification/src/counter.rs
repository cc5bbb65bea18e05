//! The line counter, kept as decimal digits so that it never overflows,
//! and the label that a numbered line begins with.

use vstd::prelude::*;

verus! {

/// The decimal digits of `n` in ASCII, most significant first, with no
/// leading zero.
pub open spec fn decimal(n: nat) -> Seq<u8>
    decreases n,
{
    if n < 10 {
        seq![(48 + n) as u8]
    } else {
        decimal(n / 10).push((48 + n % 10) as u8)
    }
}

/// The number that the ASCII digits `s` spell.
pub open spec fn digits_value(s: Seq<u8>) -> nat
    decreases s.len(),
{
    if s.len() == 0 {
        0
    } else {
        (digits_value(s.drop_last()) * 10 + (s.last() - 48)) as nat
    }
}

/// `k` spaces.
pub open spec fn spaces(k: nat) -> Seq<u8> {
    Seq::new(k, |i: int| 32u8)
}

/// What a numbered line begins with: `n` in decimal, right-justified in a
/// field of six characters, and a tab.
pub open spec fn label(n: nat) -> Seq<u8> {
    let d = decimal(n);
    let pad = if d.len() < 6 {
        (6 - d.len()) as nat
    } else {
        0
    };
    (spaces(pad) + d).push(9u8)
}

/// The digits that follow `s` in counting order.
pub open spec fn succ_digits(s: Seq<u8>) -> Seq<u8>
    decreases s.len(),
{
    if s.len() == 0 {
        seq![49u8]
    } else if s.last() == 57 {
        succ_digits(s.drop_last()).push(48u8)
    } else {
        s.drop_last().push((s.last() + 1) as u8)
    }
}

/// Every byte of `decimal(n)` is an ASCII digit, and there is at least one.
pub proof fn lemma_decimal_digits(n: nat)
    ensures
        decimal(n).len() >= 1,
        forall|i: int| 0 <= i < decimal(n).len() ==> 48 <= #[trigger] decimal(n)[i] <= 57,
    decreases n,
{
    if n >= 10 {
        lemma_decimal_digits(n / 10);
    }
}

/// The digits of a number spell that number.
pub proof fn lemma_value_of_decimal(n: nat)
    ensures
        digits_value(decimal(n)) == n,
    decreases n,
{
    if n < 10 {
        assert(decimal(n).drop_last() =~= Seq::<u8>::empty());
        assert(digits_value(decimal(n).drop_last()) == 0);
    } else {
        lemma_value_of_decimal(n / 10);
        assert(decimal(n).drop_last() =~= decimal(n / 10));
    }
}

/// Counting on from the digits of `n` gives the digits of `n + 1`.
pub proof fn lemma_succ_of_decimal(n: nat)
    ensures
        succ_digits(decimal(n)) == decimal(n + 1),
    decreases n,
{
    let d = decimal(n);
    if n < 10 {
        assert(d.drop_last() =~= Seq::<u8>::empty());
        if n == 9 {
            assert(succ_digits(d.drop_last()) =~= seq![49u8]);
            assert(decimal(1) =~= seq![49u8]);
            assert(decimal(10) =~= decimal(1).push(48u8));
        } else {
            assert(succ_digits(d) =~= decimal(n + 1));
        }
    } else {
        assert(d.drop_last() =~= decimal(n / 10));
        if n % 10 == 9 {
            lemma_succ_of_decimal(n / 10);
            assert((n + 1) / 10 == n / 10 + 1);
            assert((n + 1) % 10 == 0);
        } else {
            assert((n + 1) / 10 == n / 10);
            assert((n + 1) % 10 == n % 10 + 1);
            assert(succ_digits(d) =~= decimal(n + 1));
        }
    }
}

/// A run of nines rolls over to zeros, and the digits before it count on.
pub proof fn lemma_succ_carry(s: Seq<u8>, i: int)
    requires
        0 <= i <= s.len(),
        forall|j: int| i <= j < s.len() ==> s[j] == 57,
    ensures
        succ_digits(s) == succ_digits(s.take(i)) + Seq::new((s.len() - i) as nat, |j: int| 48u8),
    decreases s.len() - i,
{
    let zeros = Seq::new((s.len() - i) as nat, |j: int| 48u8);
    if i == s.len() {
        assert(s.take(i) =~= s);
        assert(succ_digits(s) =~= succ_digits(s.take(i)) + zeros);
    } else {
        let t = s.drop_last();
        lemma_succ_carry(t, i);
        assert(t.take(i) =~= s.take(i));
        let fewer = Seq::new((t.len() - i) as nat, |j: int| 48u8);
        assert((succ_digits(s.take(i)) + fewer).push(48u8) =~= succ_digits(s.take(i)) + zeros);
    }
}

/// A count of lines, from 1 upward without bound.
pub struct LineCounter {
    digits: Vec<u8>,
}

impl LineCounter {
    /// The digits are those of the count: ASCII, no leading zero.
    pub closed spec fn wf(&self) -> bool {
        self.digits@ == decimal(digits_value(self.digits@))
    }

    /// The count.
    pub closed spec fn value(&self) -> nat {
        digits_value(self.digits@)
    }

    /// A counter that stands at 1.
    pub fn new() -> (c: LineCounter)
        ensures
            c.wf(),
            c.value() == 1,
    {
        let c = LineCounter { digits: vec![49u8] };
        proof {
            assert(c.digits@ =~= decimal(1));
            lemma_value_of_decimal(1);
        }
        c
    }

    /// The count in decimal.
    pub fn digits(&self) -> (d: &Vec<u8>)
        requires
            self.wf(),
        ensures
            d@ == decimal(self.value()),
    {
        &self.digits
    }

    /// Moves the counter on by one.
    pub fn increment(&mut self)
        requires
            old(self).wf(),
        ensures
            final(self).wf(),
            final(self).value() == old(self).value() + 1,
    {
        let ghost before = self.digits@;
        let n: usize = self.digits.len();
        let mut i: usize = n;
        proof {
            lemma_decimal_digits(digits_value(before));
        }
        while i > 0 && self.digits[i - 1] == 57
            invariant
                i <= n,
                n == before.len(),
                self.digits@.len() == n,
                self.digits@.take(i as int) == before.take(i as int),
                forall|j: int| i <= j < n ==> before[j] == 57,
                forall|j: int| i <= j < n ==> self.digits@[j] == 48,
                forall|j: int| 0 <= j < n ==> 48 <= #[trigger] before[j] <= 57,
            decreases i,
        {
            assert(before[i - 1] == 57) by {
                assert(self.digits@.take(i as int)[i - 1] == before.take(i as int)[i - 1]);
            }
            self.digits.set(i - 1, 48);
            i -= 1;
            assert(self.digits@.take(i as int) =~= before.take(i as int));
        }
        let ghost zeros = Seq::new((n - i) as nat, |j: int| 48u8);
        let ghost head = before.take(i as int);
        if i == 0 {
            self.digits.insert(0, 49);
            proof {
                assert(head =~= Seq::<u8>::empty());
                assert(self.digits@ =~= succ_digits(head) + zeros);
            }
        } else {
            let d: u8 = self.digits[i - 1];
            assert(d == before[i - 1]) by {
                assert(self.digits@.take(i as int)[i - 1] == before.take(i as int)[i - 1]);
            }
            self.digits.set(i - 1, d + 1);
            proof {
                assert(head.last() == d);
                assert(succ_digits(head) == head.drop_last().push((d + 1) as u8));
                assert forall|j: int| 0 <= j < n implies self.digits@[j] == (succ_digits(head)
                    + zeros)[j] by {
                    if j < i - 1 {
                        assert(self.digits@[j] == before.take(i as int)[j]);
                    }
                }
                assert(self.digits@ =~= succ_digits(head) + zeros);
            }
        }
        proof {
            let v = digits_value(before);
            lemma_succ_carry(before, i as int);
            lemma_succ_of_decimal(v);
            lemma_value_of_decimal(v + 1);
        }
    }

    /// Appends the label of a line with this number to `out`.
    pub fn write_label(&self, out: &mut Vec<u8>)
        requires
            self.wf(),
        ensures
            final(out)@ == old(out)@ + label(self.value()),
    {
        let n: usize = self.digits.len();
        let mut k: usize = n;
        while k < 6
            invariant
                n <= k,
                n < 6 ==> k <= 6,
                n >= 6 ==> k == n,
                out@ == old(out)@ + spaces((k - n) as nat),
            decreases 6 - k,
        {
            out.push(32);
            k += 1;
            assert(out@ =~= old(out)@ + spaces((k - n) as nat));
        }
        let ghost padded = out@;
        let mut i: usize = 0;
        while i < n
            invariant
                i <= n,
                n == self.digits@.len(),
                out@ == padded + self.digits@.take(i as int),
            decreases n - i,
        {
            out.push(self.digits[i]);
            i += 1;
            assert(out@ =~= padded + self.digits@.take(i as int));
        }
        out.push(9);
        proof {
            assert(self.digits@.take(n as int) =~= self.digits@);
            assert(out@ =~= old(out)@ + label(self.value()));
        }
    }
}

} // verus!
