//! Rational numbers with a non-zero denominator.
use vstd::prelude::*;

verus! {

/// An `i32` that is never zero.
#[derive(Debug, Clone, Copy, PartialEq, Eq, Structural)]
pub struct NonZeroI32(i32);

impl NonZeroI32 {
    /// The value held.
    pub closed spec fn value(self) -> i32 {
        self.0
    }

    /// The wrapper of `n` (meaningful for a non-zero `n`).
    pub closed spec fn of(n: i32) -> NonZeroI32 {
        NonZeroI32(n)
    }

    /// The wrapper of `n` holds `n`.
    pub broadcast proof fn lemma_of(n: i32)
        ensures
            #[trigger] NonZeroI32::of(n).value() == n,
    {
    }

    /// A wrapper is determined by the value it holds.
    pub proof fn lemma_value_determines(a: NonZeroI32, b: NonZeroI32)
        ensures
            a.value() == b.value() ==> a == b,
    {
    }

    #[verifier::type_invariant]
    closed spec fn inv(self) -> bool {
        self.0 != 0
    }

    /// Wraps `n` when it is not zero.
    pub fn new(n: i32) -> (r: Option<NonZeroI32>)
        ensures
            r is None <==> n == 0,
            r matches Some(x) ==> x.value() == n && x == NonZeroI32::of(n),
    {
        if n == 0 {
            None
        } else {
            Some(NonZeroI32(n))
        }
    }

    /// Returns the value held, which is not zero.
    pub fn get(self) -> (n: i32)
        ensures
            n == self.value(),
            n != 0,
    {
        proof {
            use_type_invariant(self);
        }
        self.0
    }
}

/// A rational number as ffmpeg lays it out: a numerator and a denominator,
/// which may be zero.
#[derive(Debug, Clone, Copy, PartialEq, Eq, Structural)]
pub struct AVRational {
    /// Numerator.
    pub num: i32,
    /// Denominator.
    pub den: i32,
}

/// A rational number.
#[derive(Debug, Clone, Copy, PartialEq, Eq, Structural)]
pub struct Rational {
    /// Numerator.
    pub numerator: i32,
    /// Denominator.
    pub denominator: NonZeroI32,
}

impl Default for Rational {
    fn default() -> (r: Rational)
        ensures
            r.numerator == 0,
            r.denominator.value() == 1,
            r == Rational::zero_spec(),
    {
        Self::zero()
    }
}

impl Rational {
    /// The zero rational number, `0/1`, as the contracts see it.
    pub open spec fn zero_spec() -> Rational {
        Rational { numerator: 0, denominator: NonZeroI32::of(1) }
    }

    /// The zero rational number, `0/1`.
    pub fn zero() -> (r: Rational)
        ensures
            r.numerator == 0,
            r.denominator.value() == 1,
            r == Rational::zero_spec(),
    {
        Rational { numerator: 0, denominator: NonZeroI32(1) }
    }

    /// Creates a new rational number.
    pub fn new(numerator: i32, denominator: NonZeroI32) -> (r: Rational)
        ensures
            r.numerator == numerator,
            r.denominator == denominator,
    {
        Rational { numerator, denominator }
    }

    /// Creates a rational number from a numerator and a denominator that is
    /// known not to be zero.
    pub fn static_new(numerator: i32, denominator: i32) -> (r: Rational)
        requires
            denominator != 0,
        ensures
            r.numerator == numerator,
            r.denominator.value() == denominator,
            r.denominator == NonZeroI32::of(denominator),
    {
        match NonZeroI32::new(denominator) {
            Some(d) => Self::new(numerator, d),
            None => {
                assert(false);
                Self::zero()
            },
        }
    }
}

impl From<AVRational> for Rational {
    /// A zero denominator gives zero.
    fn from(rational: AVRational) -> (r: Rational) {
        proof {
            NonZeroI32::lemma_of(1);
            NonZeroI32::lemma_of(rational.den);
        }
        match NonZeroI32::new(rational.den) {
            Some(d) => Rational { numerator: rational.num, denominator: d },
            None => Rational::zero(),
        }
    }
}

impl vstd::std_specs::convert::FromSpecImpl<AVRational> for Rational {
    open spec fn obeys_from_spec() -> bool {
        true
    }

    open spec fn from_spec(v: AVRational) -> Rational {
        if v.den == 0 {
            Rational { numerator: 0, denominator: NonZeroI32::of(1) }
        } else {
            Rational { numerator: v.num, denominator: NonZeroI32::of(v.den) }
        }
    }
}

impl From<Rational> for AVRational {
    fn from(rational: Rational) -> (r: AVRational) {
        AVRational { num: rational.numerator, den: rational.denominator.get() }
    }
}

impl vstd::std_specs::convert::FromSpecImpl<Rational> for AVRational {
    open spec fn obeys_from_spec() -> bool {
        true
    }

    open spec fn from_spec(v: Rational) -> AVRational {
        AVRational { num: v.numerator, den: v.denominator.value() }
    }
}

/// Handing a rational number to ffmpeg and reading it back gives the same
/// number; an ffmpeg rational with a non-zero denominator survives the
/// opposite trip.
pub proof fn lemma_rational_av_roundtrip(r: Rational, a: AVRational)
    requires
        r.denominator.value() != 0,
        a.den != 0,
    ensures
        <Rational as vstd::std_specs::convert::FromSpec<AVRational>>::from_spec(
            <AVRational as vstd::std_specs::convert::FromSpec<Rational>>::from_spec(r)) == r,
        <AVRational as vstd::std_specs::convert::FromSpec<Rational>>::from_spec(
            <Rational as vstd::std_specs::convert::FromSpec<AVRational>>::from_spec(a)) == a,
{
    NonZeroI32::lemma_of(r.denominator.value());
    NonZeroI32::lemma_of(a.den);
    assert(NonZeroI32::of(r.denominator.value()) == r.denominator);
}

impl From<i32> for Rational {
    fn from(value: i32) -> (r: Rational) {
        proof {
            NonZeroI32::lemma_of(1);
        }
        Rational::static_new(value, 1)
    }
}

impl vstd::std_specs::convert::FromSpecImpl<i32> for Rational {
    open spec fn obeys_from_spec() -> bool {
        true
    }

    open spec fn from_spec(v: i32) -> Rational {
        Rational { numerator: v, denominator: NonZeroI32::of(1) }
    }
}

} // verus!
