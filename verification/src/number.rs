//! Real numbers as bit patterns, and the arithmetic that a host supplies.
//!
//! The library keeps every real number as its IEEE 754 bit pattern. Numbers are
//! compared here, on the patterns. What has to be computed with them (sums,
//! quotients, logarithms, their rendering) comes from an [`Arithmetic`] that
//! the caller names, and nothing is taken for granted of its operations. Each
//! contract that speaks of computed values says which operations give them,
//! applied to what, and in which order; it does so of an arithmetic that has one
//! result for given operands ([`repeatable`]). What does not rest on a computed
//! value is said of every arithmetic.

use vstd::prelude::*;

verus! {

/// A double-precision number, as its IEEE 754 bit pattern.
#[derive(Debug, Clone, Copy, PartialEq, Eq, Structural)]
pub struct Number {
    pub bits: u64,
}

/// A single-precision number, as its IEEE 754 bit pattern.
#[derive(Debug, Clone, Copy, PartialEq, Eq, Structural)]
pub struct Single {
    pub bits: u32,
}

/// 0
#[verifier::allow_in_spec]
pub fn zero() -> (r: Number)
    returns
        (Number { bits: 0 }),
{
    Number { bits: 0 }
}

/// 1
#[verifier::allow_in_spec]
pub fn one() -> (r: Number)
    returns
        (Number { bits: 0x3FF0_0000_0000_0000 }),
{
    Number { bits: 0x3FF0_0000_0000_0000 }
}

/// 100
#[verifier::allow_in_spec]
pub fn hundred() -> (r: Number)
    returns
        (Number { bits: 0x4059_0000_0000_0000 }),
{
    Number { bits: 0x4059_0000_0000_0000 }
}

/// 252, the trading days of a year
#[verifier::allow_in_spec]
pub fn trading_days() -> (r: Number)
    returns
        (Number { bits: 0x406F_8000_0000_0000 }),
{
    Number { bits: 0x406F_8000_0000_0000 }
}

/// The operations on numbers that a host supplies.
pub trait Arithmetic {
    /// `a + b`
    fn plus(a: Number, b: Number) -> Number;

    /// `a - b`
    fn minus(a: Number, b: Number) -> Number;

    /// `a * b`
    fn times(a: Number, b: Number) -> Number;

    /// `a / b`
    fn divide(a: Number, b: Number) -> Number;

    /// The natural logarithm.
    fn ln(a: Number) -> Number;

    /// The square root.
    fn sqrt(a: Number) -> Number;

    /// `a` to the power of two.
    fn square(a: Number) -> Number;

    /// The number nearest to a count.
    fn from_count(n: u128) -> Number;

    /// The number in decimal notation with two digits behind the point.
    fn fixed2(a: Number) -> String;

    /// The number that a text denotes, if it denotes one.
    fn parse_single(text: &str) -> Option<Single>;
}

/// What `A` gives for `a + b`.
pub open spec fn plus<A: Arithmetic>(a: Number, b: Number) -> Number {
    choose|r: Number| call_ensures(A::plus, (a, b), r)
}

/// What `A` gives for `a - b`.
pub open spec fn minus<A: Arithmetic>(a: Number, b: Number) -> Number {
    choose|r: Number| call_ensures(A::minus, (a, b), r)
}

/// What `A` gives for `a * b`.
pub open spec fn times<A: Arithmetic>(a: Number, b: Number) -> Number {
    choose|r: Number| call_ensures(A::times, (a, b), r)
}

/// What `A` gives for `a / b`.
pub open spec fn divide<A: Arithmetic>(a: Number, b: Number) -> Number {
    choose|r: Number| call_ensures(A::divide, (a, b), r)
}

/// What `A` gives for the natural logarithm of `a`.
pub open spec fn ln<A: Arithmetic>(a: Number) -> Number {
    choose|r: Number| call_ensures(A::ln, (a,), r)
}

/// What `A` gives for the square root of `a`.
pub open spec fn sqrt<A: Arithmetic>(a: Number) -> Number {
    choose|r: Number| call_ensures(A::sqrt, (a,), r)
}

/// What `A` gives for the square of `a`.
pub open spec fn square<A: Arithmetic>(a: Number) -> Number {
    choose|r: Number| call_ensures(A::square, (a,), r)
}

/// What `A` gives for a count as a number.
pub open spec fn from_count<A: Arithmetic>(n: nat) -> Number {
    let count = n as u128;
    choose|r: Number| call_ensures(A::from_count, (count,), r)
}

/// How `A` renders `a` with two digits behind the point.
pub open spec fn fixed2<A: Arithmetic>(a: Number) -> Seq<char> {
    (choose|r: String| call_ensures(A::fixed2, (a,), r))@
}

/// `A` may read `r` in a text.
pub open spec fn may_read<A: Arithmetic>(text: Seq<char>, r: Option<Single>) -> bool {
    exists|s: &str| s@ == text && #[trigger] call_ensures(A::parse_single, (s,), r)
}

/// What `A` reads in a text.
pub open spec fn parse_single<A: Arithmetic>(text: Seq<char>) -> Option<Single> {
    choose|r: Option<Single>| may_read::<A>(text, r)
}

/// Every operation of `A` has one result for given operands.
pub open spec fn repeatable<A: Arithmetic>() -> bool {
    &&& forall|a: Number, b: Number, r: Number| #[trigger]
        call_ensures(A::plus, (a, b), r) ==> r == plus::<A>(a, b)
    &&& forall|a: Number, b: Number, r: Number| #[trigger]
        call_ensures(A::minus, (a, b), r) ==> r == minus::<A>(a, b)
    &&& forall|a: Number, b: Number, r: Number| #[trigger]
        call_ensures(A::times, (a, b), r) ==> r == times::<A>(a, b)
    &&& forall|a: Number, b: Number, r: Number| #[trigger]
        call_ensures(A::divide, (a, b), r) ==> r == divide::<A>(a, b)
    &&& forall|a: Number, r: Number| #[trigger]
        call_ensures(A::ln, (a,), r) ==> r == ln::<A>(a)
    &&& forall|a: Number, r: Number| #[trigger]
        call_ensures(A::sqrt, (a,), r) ==> r == sqrt::<A>(a)
    &&& forall|a: Number, r: Number| #[trigger]
        call_ensures(A::square, (a,), r) ==> r == square::<A>(a)
    &&& forall|n: u128, r: Number| #[trigger]
        call_ensures(A::from_count, (n,), r) ==> r == from_count::<A>(n as nat)
    &&& forall|a: Number, r: String| #[trigger]
        call_ensures(A::fixed2, (a,), r) ==> r@ == fixed2::<A>(a)
    &&& forall|s: &str, r: Option<Single>| #[trigger]
        call_ensures(A::parse_single, (s,), r) ==> r == parse_single::<A>(s@)
}

impl Number {
    /// The pattern stands for no number.
    pub open spec fn spec_is_nan(self) -> bool {
        (0x7FF0_0000_0000_0000 < self.bits && self.bits < 0x8000_0000_0000_0000)
            || 0xFFF0_0000_0000_0000 < self.bits
    }

    /// The place of a number among the others: patterns of larger numbers have
    /// larger ranks, and both zeros have the rank 0.
    pub open spec fn rank(self) -> int {
        if self.bits < 0x8000_0000_0000_0000 {
            self.bits as int
        } else {
            0x8000_0000_0000_0000 - self.bits
        }
    }

    /// `self < other`
    pub open spec fn below(self, other: Number) -> bool {
        !self.spec_is_nan() && !other.spec_is_nan() && self.rank() < other.rank()
    }

    /// `self == other`
    pub open spec fn level_with(self, other: Number) -> bool {
        !self.spec_is_nan() && !other.spec_is_nan() && self.rank() == other.rank()
    }

    /// `self <= other`
    pub open spec fn at_most(self, other: Number) -> bool {
        !self.spec_is_nan() && !other.spec_is_nan() && self.rank() <= other.rank()
    }

    /// `self > 0`
    pub open spec fn positive(self) -> bool {
        zero().below(self)
    }

    fn is_nan(self) -> (r: bool)
        ensures
            r == self.spec_is_nan(),
    {
        (0x7FF0_0000_0000_0000 < self.bits && self.bits < 0x8000_0000_0000_0000)
            || 0xFFF0_0000_0000_0000 < self.bits
    }

    fn rank_value(self) -> (r: i128)
        ensures
            r == self.rank(),
    {
        if self.bits < 0x8000_0000_0000_0000 {
            self.bits as i128
        } else {
            0x8000_0000_0000_0000i128 - self.bits as i128
        }
    }

    /// `self < other`
    pub fn is_below(self, other: Number) -> (r: bool)
        ensures
            r == self.below(other),
    {
        !self.is_nan() && !other.is_nan() && self.rank_value() < other.rank_value()
    }

    /// `self == other`
    pub fn is_level_with(self, other: Number) -> (r: bool)
        ensures
            r == self.level_with(other),
    {
        !self.is_nan() && !other.is_nan() && self.rank_value() == other.rank_value()
    }

    /// `self <= other`
    pub fn is_at_most(self, other: Number) -> (r: bool)
        ensures
            r == self.at_most(other),
    {
        !self.is_nan() && !other.is_nan() && self.rank_value() <= other.rank_value()
    }

    /// `self > 0`
    pub fn is_positive(self) -> (r: bool)
        ensures
            r == self.positive(),
    {
        zero().is_below(self)
    }
}

impl Single {
    /// The number lies between 0 and 2, both included.
    pub open spec fn from_zero_to_two(self) -> bool {
        self.bits <= 0x4000_0000 || self.bits == 0x8000_0000
    }

    /// Whether the number lies between 0 and 2, both included.
    pub fn is_from_zero_to_two(self) -> (r: bool)
        ensures
            r == self.from_zero_to_two(),
    {
        self.bits <= 0x4000_0000 || self.bits == 0x8000_0000
    }
}

/// The sum of the numbers, taken from the left and starting at 0.
pub open spec fn sum<A: Arithmetic>(values: Seq<Number>) -> Number
    decreases values.len(),
{
    if values.len() == 0 {
        zero()
    } else {
        plus::<A>(sum::<A>(values.drop_last()), values.last())
    }
}

/// The sum of the numbers, taken from the left and starting at 0.
pub fn total<A: Arithmetic>(values: &Vec<Number>) -> (r: Number)
    ensures
        repeatable::<A>() ==> r == sum::<A>(values@),
{
    let mut acc = zero();
    for i in 0..values.len()
        invariant
            repeatable::<A>() ==> acc == sum::<A>(values@.take(i as int)),
    {
        assert(values@.take(i + 1).drop_last() =~= values@.take(i as int));
        acc = A::plus(acc, values[i]);
    }
    assert(values@.take(values@.len() as int) =~= values@);
    acc
}

} // verus!
