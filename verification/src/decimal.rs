//! Fixed-point decimal numbers, as prices and sizes are carried.
//!
//! A [`Decimal`] is `mantissa * 10^-scale` with at most 28 decimal places and a
//! mantissa of at most 96 bits, the range of `rust_decimal::Decimal`. Numeric
//! comparison is delegated to `rust_decimal`.
use crate::util::text::decimal_chars;
use vstd::prelude::*;

verus! {

/// The largest magnitude of a mantissa: `2^96 - 1`.
pub const MAX_MANTISSA: i128 = 79228162514264337593543950335i128;

/// The largest number of decimal places.
pub const MAX_SCALE: u32 = 28u32;

/// `10^n` for `n >= 0`, and 1 below.
pub open spec fn pow10(n: int) -> int
    decreases n,
{
    if n <= 0 {
        1
    } else {
        10 * pow10(n - 1)
    }
}

pub proof fn lemma_pow10_positive(n: int)
    ensures
        pow10(n) > 0,
    decreases n,
{
    if n > 0 {
        lemma_pow10_positive(n - 1);
    }
}

/// A decimal number `mantissa * 10^-scale`.
#[derive(Clone, Copy, Debug)]
pub struct Decimal {
    mantissa: i128,
    scale: u32,
}

impl Decimal {
    /// At most 28 decimal places and a mantissa of at most 96 bits: what every
    /// decimal value holds.
    #[verifier::type_invariant]
    pub open spec fn wf(self) -> bool {
        &&& self.spec_scale() <= MAX_SCALE
        &&& -MAX_MANTISSA <= self.spec_mantissa() <= MAX_MANTISSA
    }

    /// The mantissa.
    pub closed spec fn spec_mantissa(self) -> i128 {
        self.mantissa
    }

    /// The number of decimal places.
    pub closed spec fn spec_scale(self) -> u32 {
        self.scale
    }

    /// The number times `10^28`: an integer, since the scale is at most 28.
    /// Two decimals are numerically equal, or ordered, as their keys are.
    pub open spec fn key(self) -> int {
        self.spec_mantissa() * pow10(MAX_SCALE - self.spec_scale())
    }

    /// `num * 10^-scale`.
    pub fn new(num: i64, scale: u32) -> (d: Decimal)
        requires
            scale <= MAX_SCALE,
        ensures
            d.spec_mantissa() == num,
            d.spec_scale() == scale,
    {
        Decimal { mantissa: num as i128, scale }
    }

    /// `num * 10^-scale` with a 96-bit mantissa.
    pub fn from_i128_with_scale(num: i128, scale: u32) -> (d: Decimal)
        requires
            scale <= MAX_SCALE,
            -MAX_MANTISSA <= num <= MAX_MANTISSA,
        ensures
            d.spec_mantissa() == num,
            d.spec_scale() == scale,
    {
        Decimal { mantissa: num, scale }
    }

    /// Zero.
    pub fn zero() -> (d: Decimal)
        ensures
            d.spec_mantissa() == 0,
            d.spec_scale() == 0,
    {
        Decimal { mantissa: 0, scale: 0 }
    }

    pub fn mantissa(&self) -> (m: i128)
        ensures
            m == self.spec_mantissa(),
            -MAX_MANTISSA <= m <= MAX_MANTISSA,
    {
        proof {
            use_type_invariant(self);
        }
        self.mantissa
    }

    pub fn scale(&self) -> (s: u32)
        ensures
            s == self.spec_scale(),
            s <= MAX_SCALE,
    {
        proof {
            use_type_invariant(self);
        }
        self.scale
    }

    /// Whether the number is zero.
    pub fn is_zero(&self) -> (z: bool)
        ensures
            z == (self.spec_mantissa() == 0),
            z == (self.key() == 0),
    {
        proof {
            lemma_pow10_positive(MAX_SCALE - self.scale);
            if self.mantissa != 0 {
                assert(self.key() != 0) by (nonlinear_arith)
                    requires
                        self.mantissa != 0,
                        pow10(MAX_SCALE - self.scale) > 0,
                        self.key() == self.mantissa * pow10(MAX_SCALE - self.scale),
                ;
            }
        }
        self.mantissa == 0
    }

    /// The number with its sign flipped.
    pub fn neg(self) -> (d: Decimal)
        ensures
            d.spec_mantissa() == -self.spec_mantissa(),
            d.spec_scale() == self.spec_scale(),
    {
        proof {
            use_type_invariant(&self);
        }
        Decimal { mantissa: -self.mantissa, scale: self.scale }
    }

    /// Makes the number non-negative (`positive`) or non-positive, keeping its magnitude.
    pub fn set_sign_positive(&mut self, positive: bool)
        ensures
            final(self).spec_scale() == old(self).spec_scale(),
            final(self).spec_mantissa() == (if positive {
                abs_i128(old(self).spec_mantissa())
            } else {
                -abs_i128(old(self).spec_mantissa())
            }),
    {
        proof {
            use_type_invariant(&*self);
        }
        let m = if self.mantissa < 0 {
            -self.mantissa
        } else {
            self.mantissa
        };
        let scale = self.scale;
        *self = Decimal { mantissa: if positive { m } else { -m }, scale };
    }

    /// The sign of `self - other`: -1, 0 or 1.
    pub fn compare(&self, other: &Decimal) -> (c: i8)
        ensures
            c == sign(self.key() - other.key()),
    {
        compare_values(self, other)
    }
}

/// A decimal is its mantissa and its scale.
pub proof fn lemma_same_parts(a: Decimal, b: Decimal)
    requires
        a.spec_mantissa() == b.spec_mantissa(),
        a.spec_scale() == b.spec_scale(),
    ensures
        a == b,
{
}

/// `|m|`.
pub open spec fn abs_i128(m: i128) -> int {
    if m < 0 {
        -m
    } else {
        m as int
    }
}

/// The sign of `x`: -1, 0 or 1.
pub open spec fn sign(x: int) -> i8 {
    if x < 0 {
        -1i8
    } else if x == 0 {
        0i8
    } else {
        1i8
    }
}

/// Compares the two numbers with `Ord::cmp` of `rust_decimal::Decimal`, which orders
/// decimals by their numeric value whatever their scales: the claim is that the
/// result is the sign of the difference of the two values, scaled to 28 places.
#[verifier::external_body]
fn compare_values(a: &Decimal, b: &Decimal) -> (c: i8)
    ensures
        c == sign(a.key() - b.key()),
{
    let x = rust_decimal::Decimal::from_i128_with_scale(a.mantissa, a.scale);
    let y = rust_decimal::Decimal::from_i128_with_scale(b.mantissa, b.scale);
    match x.cmp(&y) {
        std::cmp::Ordering::Less => -1,
        std::cmp::Ordering::Equal => 0,
        std::cmp::Ordering::Greater => 1,
    }
}

/// The text of `mantissa * 10^-scale` as `rust_decimal` writes a decimal with
/// `{}`: a minus sign for a negative number, the integer digits (`0` when there
/// are none), and, for a positive scale, a point followed by exactly `scale`
/// fraction digits, trailing zeros kept.
pub open spec fn decimal_text(mantissa: int, scale: nat) -> Seq<char> {
    let magnitude: nat = if mantissa < 0 {
        (-mantissa) as nat
    } else {
        mantissa as nat
    };
    let digits = if magnitude == 0 {
        Seq::<char>::empty()
    } else {
        decimal_chars(magnitude)
    };
    let padded = if digits.len() < scale {
        Seq::new((scale - digits.len()) as nat, |i: int| '0') + digits
    } else {
        digits
    };
    let whole = padded.take(padded.len() - scale);
    let fraction = padded.skip(padded.len() - scale);
    let sign_text = if mantissa < 0 {
        seq!['-']
    } else {
        Seq::<char>::empty()
    };
    let whole_text = if whole.len() == 0 {
        seq!['0']
    } else {
        whole
    };
    let fraction_text = if scale == 0 {
        Seq::<char>::empty()
    } else {
        seq!['.'] + fraction
    };
    sign_text + whole_text + fraction_text
}

/// Writes the number with `Display` of `rust_decimal::Decimal`, built from the
/// same mantissa and scale: the claim is that the text is [`decimal_text`] of
/// them.
#[verifier::external_body]
pub(crate) fn decimal_to_string(d: &Decimal) -> (s: String)
    ensures
        s@ == decimal_text(d.spec_mantissa() as int, d.spec_scale() as nat),
{
    rust_decimal::Decimal::from_i128_with_scale(d.mantissa, d.scale).to_string()
}

impl PartialEq for Decimal {
    fn eq(&self, other: &Decimal) -> (r: bool) {
        self.compare(other) == 0
    }
}

impl vstd::std_specs::cmp::PartialEqSpecImpl for Decimal {
    open spec fn obeys_eq_spec() -> bool {
        true
    }

    open spec fn eq_spec(&self, other: &Decimal) -> bool {
        self.key() == other.key()
    }
}

impl Eq for Decimal {
}

} // verus!
