//! Floating-point values as text.
//!
//! A floating-point value is held here by what its text is made of: not a
//! number, an infinity, a zero, or a sign with the decimal digits and the
//! decimal exponent of the shortest decimal that reads back as the value. The
//! caller finds the digits; this module lays them out.

use crate::number::{int_text, push_i64};
use crate::text::push_str;
use vstd::prelude::*;
use vstd::string::StringSliceAdditionalSpecFns;

verus! {

/// A non-zero finite value: `0.d1 d2 .. dn` times ten to the `exponent`, with
/// a minus sign in front if `negative`.
pub struct DecimalModel {
    pub negative: bool,
    /// The digits as numbers from 0 to 9, the most significant first.
    pub digits: Seq<u8>,
    pub exponent: int,
}

impl DecimalModel {
    /// There is a digit, every digit is below ten and the first is not zero.
    pub open spec fn wf(self) -> bool {
        &&& self.digits.len() >= 1
        &&& self.digits[0] != 0
        &&& forall|i: int| 0 <= i < self.digits.len() ==> #[trigger] self.digits[i] <= 9
    }
}

/// What a floating-point value is, as far as its text goes.
pub enum FloatModel {
    Nan,
    Infinite { negative: bool },
    Zero { negative: bool },
    Finite(DecimalModel),
}

/// The ASCII digits of a run of digits.
pub open spec fn digit_chars(digits: Seq<u8>) -> Seq<u8> {
    Seq::new(digits.len(), |i: int| (48 + digits[i]) as u8)
}

/// `count` times the digit `0`.
pub open spec fn zeros(count: int) -> Seq<u8> {
    Seq::new(
        if count > 0 {
            count as nat
        } else {
            0
        },
        |i: int| 48u8,
    )
}

/// A minus sign for a negative value, nothing for another.
pub open spec fn sign_text(negative: bool) -> Seq<u8> {
    if negative {
        seq![45u8]
    } else {
        Seq::empty()
    }
}

/// The value written out with a decimal point and no exponent.
///
/// A value below one begins with `0.`; a whole number ends in `.0` where
/// `point_always` asks for it, and has no point otherwise.
pub open spec fn positional_text(d: DecimalModel, point_always: bool) -> Seq<u8> {
    let text = digit_chars(d.digits);
    let n = d.digits.len() as int;
    sign_text(d.negative) + if d.exponent <= 0 {
        seq![48u8, 46u8] + zeros(-d.exponent) + text
    } else if d.exponent < n {
        text.subrange(0, d.exponent).push(46u8) + text.subrange(d.exponent, n)
    } else if point_always {
        text + zeros(d.exponent - n) + seq![46u8, 48u8]
    } else {
        text + zeros(d.exponent - n)
    }
}

/// The value written with one digit before the point and a power of ten
/// after an `e`.
pub open spec fn scientific_text(d: DecimalModel) -> Seq<u8> {
    let text = digit_chars(d.digits);
    let n = d.digits.len() as int;
    sign_text(d.negative) + if n > 1 {
        seq![text[0], 46u8] + text.subrange(1, n)
    } else {
        seq![text[0]]
    } + seq![101u8] + int_text(d.exponent - 1)
}

/// Whether the debug form of a value with this exponent uses a power of ten:
/// it does from ten to the sixteenth upwards and below a ten-thousandth.
pub open spec fn debug_is_scientific(exponent: int) -> bool {
    exponent > 16 || exponent < -3
}

/// The text of a float where it is shown to a reader.
pub open spec fn float_display_text(f: FloatModel) -> Seq<u8> {
    match f {
        FloatModel::Nan => "NaN".spec_bytes(),
        FloatModel::Infinite { negative } => sign_text(negative) + "inf".spec_bytes(),
        FloatModel::Zero { negative } => sign_text(negative) + seq![48u8],
        FloatModel::Finite(d) => positional_text(d, false),
    }
}

/// The text of a float in debug form: always recognisable as a float, and
/// with a power of ten where the plain form would be long.
pub open spec fn float_debug_text(f: FloatModel) -> Seq<u8> {
    match f {
        FloatModel::Nan => "NaN".spec_bytes(),
        FloatModel::Infinite { negative } => sign_text(negative) + "inf".spec_bytes(),
        FloatModel::Zero { negative } => sign_text(negative) + seq![48u8, 46u8, 48u8],
        FloatModel::Finite(d) => if debug_is_scientific(d.exponent) {
            scientific_text(d)
        } else {
            positional_text(d, true)
        },
    }
}

/// The sign, digits and exponent of a non-zero finite value.
pub struct Decimal {
    negative: bool,
    digits: Vec<u8>,
    exponent: i32,
}

impl View for Decimal {
    type V = DecimalModel;

    closed spec fn view(&self) -> DecimalModel {
        DecimalModel {
            negative: self.negative,
            digits: self.digits@,
            exponent: self.exponent as int,
        }
    }
}

impl Decimal {
    #[verifier::type_invariant]
    spec fn valid(self) -> bool {
        self@.wf()
    }

    /// The value `0.d1 d2 .. dn` times ten to the `exponent`, where `digits`
    /// holds the numbers `d1` to `dn`; `None` unless there is a digit, every
    /// digit is below ten and the first is not zero.
    pub fn new(negative: bool, digits: Vec<u8>, exponent: i32) -> (made: Option<Decimal>)
        ensures
            made is Some <==> (DecimalModel {
                negative,
                digits: digits@,
                exponent: exponent as int,
            }).wf(),
            made matches Some(d) ==> d@ == (DecimalModel {
                negative,
                digits: digits@,
                exponent: exponent as int,
            }),
    {
        if digits.len() == 0 || digits[0] == 0 {
            return None;
        }
        let mut i: usize = 0;
        while i < digits.len()
            invariant
                i <= digits.len(),
                forall|j: int| 0 <= j < i ==> #[trigger] digits@[j] <= 9,
            decreases digits.len() - i,
        {
            if digits[i] > 9 {
                return None;
            }
            i = i + 1;
        }
        Some(Decimal { negative, digits, exponent })
    }
}

/// A floating-point value.
pub enum Float {
    /// Not a number.
    Nan,
    /// An infinity.
    Infinite { negative: bool },
    /// A zero, which has a sign too.
    Zero { negative: bool },
    /// Any other value.
    Finite(Decimal),
}

impl View for Float {
    type V = FloatModel;

    open spec fn view(&self) -> FloatModel {
        match self {
            Float::Nan => FloatModel::Nan,
            Float::Infinite { negative } => FloatModel::Infinite { negative: *negative },
            Float::Zero { negative } => FloatModel::Zero { negative: *negative },
            Float::Finite(d) => FloatModel::Finite(d@),
        }
    }
}

fn push_sign(out: &mut Vec<u8>, negative: bool)
    ensures
        final(out)@ == old(out)@ + sign_text(negative),
{
    if negative {
        out.push(45);
    }
}

fn push_zeros(out: &mut Vec<u8>, count: i64)
    ensures
        final(out)@ == old(out)@ + zeros(count as int),
{
    let mut i: i64 = 0;
    while i < count
        invariant
            0 <= i,
            i <= count || i == 0,
            out@ == old(out)@ + zeros(i as int),
        decreases count - i,
    {
        out.push(48);
        i = i + 1;
        assert(zeros(i as int) == zeros(i - 1).push(48u8));
    }
    assert(zeros(i as int) == zeros(count as int));
}

fn push_digits(out: &mut Vec<u8>, digits: &Vec<u8>, from: usize, to: usize)
    requires
        from <= to <= digits.len(),
        forall|i: int| 0 <= i < digits.len() ==> #[trigger] digits@[i] <= 9,
    ensures
        final(out)@ == old(out)@ + digit_chars(digits@).subrange(from as int, to as int),
{
    let mut i: usize = from;
    while i < to
        invariant
            from <= i <= to <= digits.len(),
            forall|j: int| 0 <= j < digits.len() ==> #[trigger] digits@[j] <= 9,
            out@ == old(out)@ + digit_chars(digits@).subrange(from as int, i as int),
        decreases to - i,
    {
        out.push(48 + digits[i]);
        assert(digit_chars(digits@).subrange(from as int, i + 1) == digit_chars(
            digits@,
        ).subrange(from as int, i as int).push((48 + digits@[i as int]) as u8));
        i = i + 1;
    }
}

impl Decimal {
    /// Appends the value in positional notation to `out`.
    fn push_positional(&self, out: &mut Vec<u8>, point_always: bool)
        ensures
            final(out)@ == old(out)@ + positional_text(self@, point_always),
    {
        proof {
            use_type_invariant(self);
        }
        let n: usize = self.digits.len();
        let e: i64 = self.exponent as i64;
        let ghost text = digit_chars(self.digits@);
        let ghost start = out@;
        push_sign(out, self.negative);
        let ghost signed = out@;
        if e <= 0 {
            out.push(48);
            out.push(46);
            push_zeros(out, -e);
            push_digits(out, &self.digits, 0, n);
            assert(text.subrange(0, n as int) == text);
            assert(out@ == signed + (seq![48u8, 46u8] + zeros(-e) + text));
        } else if (e as u64) < (n as u64) {
            let k: usize = e as usize;
            push_digits(out, &self.digits, 0, k);
            out.push(46);
            push_digits(out, &self.digits, k, n);
            assert(out@ == signed + (text.subrange(0, e as int).push(46u8) + text.subrange(
                e as int,
                n as int,
            )));
        } else {
            push_digits(out, &self.digits, 0, n);
            assert(text.subrange(0, n as int) == text);
            push_zeros(out, e - (n as i64));
            if point_always {
                out.push(46);
                out.push(48);
                assert(out@ == signed + (text + zeros(e - n) + seq![46u8, 48u8]));
            } else {
                assert(out@ == signed + (text + zeros(e - n)));
            }
        }
        assert(out@ == start + positional_text(self@, point_always));
    }

    /// Appends the value with a power of ten to `out`.
    fn push_scientific(&self, out: &mut Vec<u8>)
        ensures
            final(out)@ == old(out)@ + scientific_text(self@),
    {
        proof {
            use_type_invariant(self);
        }
        let n: usize = self.digits.len();
        let ghost text = digit_chars(self.digits@);
        let ghost start = out@;
        push_sign(out, self.negative);
        let ghost signed = out@;
        push_digits(out, &self.digits, 0, 1);
        assert(text.subrange(0, 1) == seq![text[0]]);
        if n > 1 {
            out.push(46);
            push_digits(out, &self.digits, 1, n);
            assert(out@ == signed + (seq![text[0], 46u8] + text.subrange(1, n as int)));
        }
        let ghost mantissa = out@;
        out.push(101);
        push_i64(out, (self.exponent as i64) - 1);
        assert(out@ == mantissa + (seq![101u8] + int_text(self@.exponent - 1)));
        assert(out@ == start + scientific_text(self@));
    }
}

impl Float {
    /// Appends the text of the value, as shown to a reader, to `out`.
    pub fn push_display(&self, out: &mut Vec<u8>)
        ensures
            final(out)@ == old(out)@ + float_display_text(self@),
    {
        match self {
            Float::Nan => push_str(out, "NaN"),
            Float::Infinite { negative } => {
                push_sign(out, *negative);
                push_str(out, "inf");
            },
            Float::Zero { negative } => {
                push_sign(out, *negative);
                out.push(48);
            },
            Float::Finite(d) => d.push_positional(out, false),
        }
    }

    /// Appends the debug form of the value to `out`.
    pub fn push_debug(&self, out: &mut Vec<u8>)
        ensures
            final(out)@ == old(out)@ + float_debug_text(self@),
    {
        match self {
            Float::Nan => push_str(out, "NaN"),
            Float::Infinite { negative } => {
                push_sign(out, *negative);
                push_str(out, "inf");
            },
            Float::Zero { negative } => {
                push_sign(out, *negative);
                out.push(48);
                out.push(46);
                out.push(48);
                assert(final(out)@ == old(out)@ + (sign_text(*negative) + seq![48u8, 46u8, 48u8]));
            },
            Float::Finite(d) => {
                if d.exponent > 16 || d.exponent < -3 {
                    d.push_scientific(out)
                } else {
                    d.push_positional(out, true)
                }
            },
        }
    }
}

} // verus!
