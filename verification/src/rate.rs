//! Frame-rate values: an always-reduced rational type, the `FrameRate`
//! enumeration with its ten named broadcast rates, normalization between the
//! two, and the serialized numerator/denominator record form.

use vstd::prelude::*;
use crate::gcd::gcd;
use crate::gcd::gcd_u32;
use crate::gcd::lemma_gcd_reduce;
use crate::gcd::lemma_reduce_same_value;
use crate::gcd::lemma_reduce_scale;
use vstd::arithmetic::div_mod::lemma_div_basics_2;
use vstd::arithmetic::div_mod::lemma_div_nonincreasing;

verus! {

/// An exact fraction of two unsigned 32-bit integers, always held in lowest
/// terms with a positive denominator: see [`Rational::wf`].
#[derive(Clone, Copy, Debug, PartialEq, Eq, Structural)]
pub struct Rational {
    num: u32,
    den: u32,
}

impl Rational {
    /// The numerator, as a mathematical integer.
    pub closed spec fn num_spec(self) -> nat {
        self.num as nat
    }

    /// The denominator, as a mathematical integer.
    pub closed spec fn den_spec(self) -> nat {
        self.den as nat
    }

    /// Well-formedness: the denominator is positive and the fraction is in
    /// lowest terms. Every `Rational` built by [`Rational::new`] satisfies it.
    pub open spec fn wf(self) -> bool {
        self.den_spec() > 0 && gcd(self.num_spec(), self.den_spec()) == 1
    }

    /// The reduced form of `n / d`: both parts divided by their gcd.
    pub closed spec fn reduced_spec(n: u32, d: u32) -> Rational {
        Rational {
            num: (n as nat / gcd(n as nat, d as nat)) as u32,
            den: (d as nat / gcd(n as nat, d as nat)) as u32,
        }
    }

    /// Builds the fraction `num / den` reduced to lowest terms.
    pub fn new(num: u32, den: u32) -> (r: Rational)
        requires
            den != 0,
        ensures
            r == Rational::reduced_spec(num, den),
            r.wf(),
            r.num_spec() == num as nat / gcd(num as nat, den as nat),
            r.den_spec() == den as nat / gcd(num as nat, den as nat),
            r.num_spec() * den as nat == num as nat * r.den_spec(),
    {
        proof {
            lemma_reduced_spec_props(num, den);
        }
        let g: u32 = gcd_u32(num, den);
        Rational { num: num / g, den: den / g }
    }

    /// The numerator of the reduced fraction.
    pub fn numer(&self) -> (n: u32)
        ensures
            n as nat == self.num_spec(),
    {
        self.num
    }

    /// The denominator of the reduced fraction.
    pub fn denom(&self) -> (d: u32)
        ensures
            d as nat == self.den_spec(),
    {
        self.den
    }
}

/// The reduced form of `n / d` is well formed, its parts are the quotients by
/// the gcd, and it denotes the same value as `n / d` (by cross-multiplication).
pub proof fn lemma_reduced_spec_props(n: u32, d: u32)
    requires
        d != 0,
    ensures
        ({
            let r = Rational::reduced_spec(n, d);
            let g = gcd(n as nat, d as nat);
            &&& g > 0
            &&& r.wf()
            &&& r.num_spec() == n as nat / g
            &&& r.den_spec() == d as nat / g
            &&& r.num_spec() * d as nat == n as nat * r.den_spec()
        }),
{
    let g = gcd(n as nat, d as nat);
    lemma_gcd_reduce(n as nat, d as nat);
    lemma_div_nonincreasing(n as int, g as int);
    lemma_div_nonincreasing(d as int, g as int);
    let rn = n as nat / g;
    let rd = d as nat / g;
    assert(rn <= n as nat && rd <= d as nat);
    assert(rn * d as nat == n as nat * rd) by {
        assert(n as nat == g * rn && d as nat == g * rd);
        assert(rn * (g * rd) == (g * rn) * rd) by {
            vstd::arithmetic::mul::lemma_mul_is_associative(rn as int, g as int, rd as int);
            vstd::arithmetic::mul::lemma_mul_is_commutative(rn as int, g as int);
            vstd::arithmetic::mul::lemma_mul_is_associative(g as int, rn as int, rd as int);
        }
    }
}

/// The gcd of each of the ten named numerator/denominator pairs is 1, so each
/// table entry is already in lowest terms.
pub proof fn lemma_named_pairs_reduced()
    ensures
        gcd(24, 1) == 1,
        gcd(25, 1) == 1,
        gcd(30, 1) == 1,
        gcd(50, 1) == 1,
        gcd(60, 1) == 1,
        gcd(120, 1) == 1,
        gcd(24000, 1001) == 1,
        gcd(25000, 1001) == 1,
        gcd(30000, 1001) == 1,
        gcd(60000, 1001) == 1,
{
    reveal_with_fuel(gcd, 12);
}

/// A video/media frame rate: one of ten named broadcast-standard rates, or
/// any other rational number of frames per second as `FrCustom`.
///
/// Each named rate stands for an exact fraction (see [`FrameRate::rat_num`]
/// and [`FrameRate::rat_den`]); the four fractional rates are the
/// "drop-frame"-style rates with denominator 1001.
#[derive(Clone, Copy, Debug, PartialEq, Eq, Structural)]
pub enum FrameRate {
    _24_00,
    _25_00,
    _30_00,
    _50_00,
    _60_00,
    _120_00,
    _23_97,
    _24_97,
    _29_97,
    _59_94,
    FrCustom(Rational),
}

impl FrameRate {
    /// The numerator of the exact rational value of this rate.
    pub open spec fn rat_num(self) -> nat {
        match self {
            FrameRate::_24_00 => 24,
            FrameRate::_25_00 => 25,
            FrameRate::_30_00 => 30,
            FrameRate::_50_00 => 50,
            FrameRate::_60_00 => 60,
            FrameRate::_120_00 => 120,
            FrameRate::_23_97 => 24000,
            FrameRate::_24_97 => 25000,
            FrameRate::_29_97 => 30000,
            FrameRate::_59_94 => 60000,
            FrameRate::FrCustom(r) => r.num_spec(),
        }
    }

    /// The denominator of the exact rational value of this rate.
    pub open spec fn rat_den(self) -> nat {
        match self {
            FrameRate::_23_97 => 1001,
            FrameRate::_24_97 => 1001,
            FrameRate::_29_97 => 1001,
            FrameRate::_59_94 => 1001,
            FrameRate::FrCustom(r) => r.den_spec(),
            _ => 1,
        }
    }

    /// The rational carried by a `FrCustom` is well formed. Holds trivially
    /// of the named rates; every rate built by this crate's functions has it.
    pub open spec fn inner_wf(self) -> bool {
        match self {
            FrameRate::FrCustom(r) => r.wf(),
            _ => true,
        }
    }

    /// A canonical rate: a `FrCustom` is reduced and does not duplicate one
    /// of the ten named rates. Normalization returns only canonical values,
    /// and canonical values are exactly those that round-trip through the
    /// record form unchanged.
    pub open spec fn canonical(self) -> bool {
        match self {
            FrameRate::FrCustom(r) => r.wf() && FrameRate::normalize_spec(r) == FrameRate::FrCustom(r),
            _ => true,
        }
    }

    /// The canonical rate denoting the reduced fraction `r`: the named rate
    /// whose table entry matches, if any, otherwise `FrCustom(r)`.
    pub open spec fn normalize_spec(r: Rational) -> FrameRate {
        let n = r.num_spec();
        let d = r.den_spec();
        if d == 1 {
            if n == 24 {
                FrameRate::_24_00
            } else if n == 25 {
                FrameRate::_25_00
            } else if n == 30 {
                FrameRate::_30_00
            } else if n == 50 {
                FrameRate::_50_00
            } else if n == 60 {
                FrameRate::_60_00
            } else if n == 120 {
                FrameRate::_120_00
            } else {
                FrameRate::FrCustom(r)
            }
        } else if d == 1001 {
            if n == 24000 {
                FrameRate::_23_97
            } else if n == 25000 {
                FrameRate::_24_97
            } else if n == 30000 {
                FrameRate::_29_97
            } else if n == 60000 {
                FrameRate::_59_94
            } else {
                FrameRate::FrCustom(r)
            }
        } else {
            FrameRate::FrCustom(r)
        }
    }

    /// The exact rational form of this rate, at the specification level.
    pub closed spec fn to_rational_spec(self) -> Rational {
        match self {
            FrameRate::FrCustom(r) => r,
            _ => Rational { num: self.rat_num() as u32, den: self.rat_den() as u32 },
        }
    }

    /// Builds the canonical rate for the fraction `num / den`: the fraction
    /// is reduced to lowest terms and matched against the ten named rates.
    pub fn new(num: u32, den: u32) -> (v: FrameRate)
        requires
            den != 0,
        ensures
            v == rate_of(num, den),
            v.canonical(),
            v.rat_num() == num as nat / gcd(num as nat, den as nat),
            v.rat_den() == den as nat / gcd(num as nat, den as nat),
            v.rat_num() * den as nat == num as nat * v.rat_den(),
    {
        FrameRate::from_rational(Rational::new(num, den))
    }

    /// Maps a reduced fraction to its canonical rate: the named rate whose
    /// table entry it equals, otherwise the custom rate wrapping it.
    pub fn from_rational(r: Rational) -> (v: FrameRate)
        requires
            r.wf(),
        ensures
            v == FrameRate::normalize_spec(r),
            v.canonical(),
            v.rat_num() == r.num_spec(),
            v.rat_den() == r.den_spec(),
    {
        let n: u32 = r.numer();
        let d: u32 = r.denom();
        if d == 1 {
            if n == 24 {
                FrameRate::_24_00
            } else if n == 25 {
                FrameRate::_25_00
            } else if n == 30 {
                FrameRate::_30_00
            } else if n == 50 {
                FrameRate::_50_00
            } else if n == 60 {
                FrameRate::_60_00
            } else if n == 120 {
                FrameRate::_120_00
            } else {
                FrameRate::FrCustom(r)
            }
        } else if d == 1001 {
            if n == 24000 {
                FrameRate::_23_97
            } else if n == 25000 {
                FrameRate::_24_97
            } else if n == 30000 {
                FrameRate::_29_97
            } else if n == 60000 {
                FrameRate::_59_94
            } else {
                FrameRate::FrCustom(r)
            }
        } else {
            FrameRate::FrCustom(r)
        }
    }

    /// The exact rational form of this rate: the table entry of a named rate,
    /// or the fraction a custom rate carries, unchanged.
    pub fn to_rational(&self) -> (r: Rational)
        ensures
            r == self.to_rational_spec(),
            r.num_spec() == self.rat_num(),
            r.den_spec() == self.rat_den(),
            self.inner_wf() ==> r.wf(),
    {
        proof {
            lemma_named_pairs_reduced();
        }
        match self {
            FrameRate::_24_00 => Rational { num: 24, den: 1 },
            FrameRate::_25_00 => Rational { num: 25, den: 1 },
            FrameRate::_30_00 => Rational { num: 30, den: 1 },
            FrameRate::_50_00 => Rational { num: 50, den: 1 },
            FrameRate::_60_00 => Rational { num: 60, den: 1 },
            FrameRate::_120_00 => Rational { num: 120, den: 1 },
            FrameRate::_23_97 => Rational { num: 24000, den: 1001 },
            FrameRate::_24_97 => Rational { num: 25000, den: 1001 },
            FrameRate::_29_97 => Rational { num: 30000, den: 1001 },
            FrameRate::_59_94 => Rational { num: 60000, den: 1001 },
            FrameRate::FrCustom(r) => *r,
        }
    }

    /// The serialized form of this rate, at the specification level: the
    /// reduced numerator/denominator pair of its rational form.
    pub open spec fn to_record_spec(self) -> SerializeRational {
        SerializeRational { num: self.rat_num() as u32, den: self.rat_den() as u32 }
    }

    /// Serializes: the record holding the reduced numerator/denominator pair
    /// of this rate's rational form.
    pub fn to_record(&self) -> (rec: SerializeRational)
        ensures
            rec == self.to_record_spec(),
            rec.num as nat == self.rat_num(),
            rec.den as nat == self.rat_den(),
    {
        let r = self.to_rational();
        SerializeRational { num: r.numer(), den: r.denom() }
    }

    /// What deserializing a record yields: no value when the denominator is
    /// zero, otherwise the canonical rate of the reduced fraction.
    pub open spec fn from_record_spec(rec: SerializeRational) -> Option<FrameRate> {
        if rec.den == 0 {
            None
        } else {
            Some(rate_of(rec.num, rec.den))
        }
    }

    /// Deserializes a record: fails exactly when the denominator is zero,
    /// otherwise reduces the fraction and normalizes it, so any non-reduced
    /// input collapses to the same canonical rate as its reduced form.
    pub fn from_record(rec: SerializeRational) -> (v: Option<FrameRate>)
        ensures
            v == FrameRate::from_record_spec(rec),
            v is None <==> rec.den == 0,
    {
        if rec.den == 0 {
            None
        } else {
            Some(FrameRate::new(rec.num, rec.den))
        }
    }
}

/// The canonical rate of the fraction `num / den`: reduce, then normalize.
pub open spec fn rate_of(num: u32, den: u32) -> FrameRate
    recommends
        den != 0,
{
    FrameRate::normalize_spec(Rational::reduced_spec(num, den))
}

/// The serialized interchange record: a numerator/denominator pair as two
/// plain unsigned 32-bit fields, with no invariant of its own.
#[derive(Clone, Copy, Debug, PartialEq, Eq, Structural)]
pub struct SerializeRational {
    pub num: u32,
    pub den: u32,
}

/// Law: normalizing the rational form of a canonical rate gives the rate
/// back. In particular each of the ten named rates round-trips through its
/// table entry.
pub proof fn lemma_normalize_to_rational(v: FrameRate)
    requires
        v.canonical(),
    ensures
        FrameRate::normalize_spec(v.to_rational_spec()) == v,
{
}

/// Law: construction is canonical.
pub proof fn lemma_rate_of_canonical(num: u32, den: u32)
    requires
        den != 0,
    ensures
        rate_of(num, den).canonical(),
{
    lemma_reduced_spec_props(num, den);
}

/// Law: construction is reduction-invariant. Scaling numerator and
/// denominator by the same positive factor yields the same rate, so any
/// non-reduced fraction denotes the rate of its reduced form.
pub proof fn lemma_rate_of_scale(num: u32, den: u32, k: u32, knum: u32, kden: u32)
    requires
        den != 0,
        k != 0,
        knum as nat == k as nat * num as nat,
        kden as nat == k as nat * den as nat,
    ensures
        rate_of(knum, kden) == rate_of(num, den),
{
    lemma_reduce_scale(k as nat, num as nat, den as nat);
    assert(Rational::reduced_spec(knum, kden) == Rational::reduced_spec(num, den));
}

/// Law: equality of rates is equality of rational values. Two fractions with
/// equal cross-products construct the same canonical rate, whatever surface
/// representation they were written in.
pub proof fn lemma_rate_of_same_value(num1: u32, den1: u32, num2: u32, den2: u32)
    requires
        den1 != 0,
        den2 != 0,
        num1 as nat * den2 as nat == num2 as nat * den1 as nat,
    ensures
        rate_of(num1, den1) == rate_of(num2, den2),
{
    lemma_reduce_same_value(num1 as nat, den1 as nat, num2 as nat, den2 as nat);
    assert(Rational::reduced_spec(num1, den1) == Rational::reduced_spec(num2, den2));
}

/// Law: every canonical rate round-trips through its serialized record. The
/// restriction to canonical rates is necessary: a `FrCustom` that duplicates
/// a named table entry deserializes to the named rate instead.
pub proof fn lemma_record_roundtrip(v: FrameRate)
    requires
        v.canonical(),
    ensures
        FrameRate::from_record_spec(v.to_record_spec()) == Some(v),
{
    broadcast use lemma_div_basics_2;

    lemma_named_pairs_reduced();
    let rec = v.to_record_spec();
    match v {
        FrameRate::FrCustom(r) => {
            assert(gcd(rec.num as nat, rec.den as nat) == 1);
            assert(Rational::reduced_spec(rec.num, rec.den) == r);
        },
        _ => {
            assert(Rational::reduced_spec(rec.num, rec.den) == v.to_rational_spec());
        },
    }
}

/// Law: deserializing the record of a freshly constructed rate gives that
/// rate back, so normalization is idempotent.
pub proof fn lemma_rate_of_idempotent(num: u32, den: u32)
    requires
        den != 0,
    ensures
        ({
            let v = rate_of(num, den);
            FrameRate::from_record_spec(v.to_record_spec()) == Some(v)
        }),
{
    lemma_rate_of_canonical(num, den);
    lemma_record_roundtrip(rate_of(num, den));
}

} // verus!
