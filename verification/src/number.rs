//! Integers in base ten.

use vstd::prelude::*;

verus! {

/// The ASCII digit of `d`, for `d` below ten.
pub open spec fn digit_byte(d: nat) -> u8 {
    (48 + d) as u8
}

/// The digits of `n` in base ten, most significant first, without leading
/// zeros; zero is the single digit `0`.
pub open spec fn nat_text(n: nat) -> Seq<u8>
    decreases n,
{
    if n < 10 {
        seq![digit_byte(n)]
    } else {
        nat_text(n / 10).push(digit_byte(n % 10))
    }
}

/// The text of `n` in base ten: a minus sign before a negative number, no sign
/// before any other.
pub open spec fn int_text(n: int) -> Seq<u8> {
    if n < 0 {
        seq![45u8] + nat_text((-n) as nat)
    } else {
        nat_text(n as nat)
    }
}

/// The number that a run of ASCII digits denotes in base ten.
pub open spec fn digits_value(text: Seq<u8>) -> nat
    decreases text.len(),
{
    if text.len() == 0 {
        0
    } else {
        (digits_value(text.drop_last()) * 10 + (text.last() - 48)) as nat
    }
}

/// Whether every byte of `text` is an ASCII digit.
pub open spec fn all_digits(text: Seq<u8>) -> bool {
    forall|i: int| 0 <= i < text.len() ==> 48 <= #[trigger] text[i] <= 57
}

/// The text of a number is made of digits only, begins with `0` for zero
/// alone, and denotes the number it was made from.
pub proof fn lemma_nat_text_denotes(n: nat)
    ensures
        nat_text(n).len() >= 1,
        all_digits(nat_text(n)),
        digits_value(nat_text(n)) == n,
        nat_text(n)[0] == 48u8 <==> n == 0,
    decreases n,
{
    if n >= 10 {
        lemma_nat_text_denotes(n / 10);
        let head = nat_text(n / 10);
        let text = nat_text(n);
        assert(text.drop_last() == head);
        assert(text.last() == digit_byte(n % 10));
        assert(text[0] == head[0]);
        assert forall|i: int| 0 <= i < text.len() implies 48 <= #[trigger] text[i] <= 57 by {
            if i < head.len() {
                assert(text[i] == head[i]);
            }
        }
    } else {
        assert(nat_text(n).drop_last() == Seq::<u8>::empty());
        assert(digits_value(Seq::<u8>::empty()) == 0);
    }
}

/// Two numbers with the same text are the same number.
pub proof fn lemma_nat_text_injective(a: nat, b: nat)
    requires
        nat_text(a) == nat_text(b),
    ensures
        a == b,
{
    lemma_nat_text_denotes(a);
    lemma_nat_text_denotes(b);
}

/// Appends the decimal text of `n` to `out`.
pub fn push_u64(out: &mut Vec<u8>, n: u64)
    ensures
        final(out)@ == old(out)@ + nat_text(n as nat),
{
    let mut digits: Vec<u8> = Vec::new();
    let mut rest: u64 = n;
    // The digits come out least significant first.
    while rest >= 10
        invariant
            nat_text(n as nat) == nat_text(rest as nat) + digits@.reverse(),
        decreases rest,
    {
        let d: u8 = (rest % 10) as u8;
        let ghost before = digits@;
        digits.push(48 + d);
        proof {
            assert(nat_text(rest as nat) == nat_text((rest / 10) as nat).push(
                digit_byte((rest % 10) as nat),
            ));
            assert(digits@.reverse() == seq![digit_byte((rest % 10) as nat)] + before.reverse());
        }
        rest = rest / 10;
    }
    digits.push(48 + (rest as u8));
    proof {
        let before = digits@.drop_last();
        assert(digits@.reverse() == seq![digit_byte(rest as nat)] + before.reverse());
        assert(nat_text(rest as nat) == seq![digit_byte(rest as nat)]);
    }
    let mut i: usize = digits.len();
    while i > 0
        invariant
            i <= digits.len(),
            out@ + digits@.reverse().skip(digits.len() - i) == old(out)@ + digits@.reverse(),
        decreases i,
    {
        i = i - 1;
        let ghost before = out@;
        out.push(digits[i]);
        proof {
            let rev = digits@.reverse();
            let k = digits.len() - i - 1;
            assert(rev[k] == digits@[i as int]);
            assert(rev.skip(k) == seq![rev[k]] + rev.skip(k + 1));
            assert(before + rev.skip(k) == before.push(rev[k]) + rev.skip(k + 1));
        }
    }
    assert(digits@.reverse().skip(digits.len() as int) == Seq::<u8>::empty());
}

/// Appends the decimal text of `n` to `out`, with a minus sign if `n` is
/// negative.
pub fn push_i64(out: &mut Vec<u8>, n: i64)
    ensures
        final(out)@ == old(out)@ + int_text(n as int),
{
    if n < 0 {
        out.push(45);
        // The magnitude of the least `i64` does not fit in an `i64`.
        let magnitude: u64 = ((-(n + 1)) as u64) + 1;
        push_u64(out, magnitude);
        assert(final(out)@ == old(out)@ + (seq![45u8] + nat_text((-n) as nat)));
    } else {
        push_u64(out, n as u64);
    }
}

/// The decimal text of `n`.
pub fn render_u64(n: u64) -> (text: Vec<u8>)
    ensures
        text@ == nat_text(n as nat),
{
    let mut text: Vec<u8> = Vec::new();
    push_u64(&mut text, n);
    text
}

/// The decimal text of `n`.
pub fn render_i64(n: i64) -> (text: Vec<u8>)
    ensures
        text@ == int_text(n as int),
{
    let mut text: Vec<u8> = Vec::new();
    push_i64(&mut text, n);
    text
}

} // verus!
