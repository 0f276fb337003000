//! The Chi distribution: its parameter and the decisions of its methods.
//!
//! A Chi distribution has one parameter, the degrees of freedom, a number
//! above zero. Numbers are binary64 and travel as bit patterns (see
//! [`crate::binary64`]). This module holds what does not need floating-point
//! arithmetic: which parameters are accepted, how many normal draws a sample
//! takes, when a mode exists, the ends of the support, and for each of
//! `pdf`, `ln_pdf` and `cdf` whether the result is a fixed number or which
//! closed form gives it. The closed forms themselves are evaluated by the
//! caller, in floating point.
use crate::binary64::{
    eq, eq_spec, gt, is_nan, is_nan_spec, le, lemma_infinity_pattern, lemma_named_values,
    lemma_positive_patterns, lemma_unsigned_order, lemma_zero_patterns, lt, scaled_value, to_i64, unit, INFINITY,
    NEG_INFINITY, ONE, SIGN_BIT, ZERO,
};
use crate::error::StatsError;
use vstd::arithmetic::div_mod::lemma_div_pos_is_pos;
use vstd::arithmetic::power2::{
    lemma2_to64, lemma2_to64_rest, lemma_pow2_adds, lemma_pow2_pos, pow2,
};
use vstd::prelude::*;

verus! {

/// The pattern of `160.0`: above this many degrees of freedom the density is
/// computed in the log domain, because the direct form overflows.
pub const LOG_DOMAIN_CUTOVER: u64 = 0x4064_0000_0000_0000;

/// A Chi distribution. The degrees of freedom are above zero and not a NaN;
/// positive infinity is accepted as the limiting case.
#[derive(Clone, Copy, Debug, PartialEq, Eq, Structural)]
pub struct Chi {
    freedom: u64,
}

/// How the density at a point is obtained.
#[derive(Clone, Copy, Debug, PartialEq, Eq, Structural)]
pub enum Density {
    /// The density is this number.
    Exact(u64),
    /// The density is `exp` of the log-density at the point.
    ExpOfLog,
    /// The density is
    /// `2^(1 - k/2) * x^(k - 1) * exp(-x^2 / 2) / Gamma(k / 2)`
    /// for `k` degrees of freedom.
    ClosedForm,
}

/// How the log-density at a point is obtained.
#[derive(Clone, Copy, Debug, PartialEq, Eq, Structural)]
pub enum LogDensity {
    /// The log-density is this number.
    Exact(u64),
    /// The log-density is
    /// `(1 - k/2) * ln 2 + (k - 1) * ln x - x^2 / 2 - lnGamma(k / 2)`
    /// for `k` degrees of freedom.
    ClosedForm,
}

/// How the cumulative probability at a point is obtained.
#[derive(Clone, Copy, Debug, PartialEq, Eq, Structural)]
pub enum Cumulative {
    /// The probability is this number.
    Exact(u64),
    /// The probability is the regularized lower incomplete gamma function at
    /// `(k / 2, x^2 / 2)` for `k` degrees of freedom.
    LowerGamma,
}

/// The scaled value of the cutover is 160 units.
pub proof fn lemma_cutover_value()
    ensures
        !is_nan_spec(LOG_DOMAIN_CUTOVER),
        scaled_value(LOG_DOMAIN_CUTOVER) == 160 * unit(),
{
    lemma2_to64();
    lemma2_to64_rest();
    lemma_pow2_adds(50, 1029);
    lemma_pow2_adds(5, 1074);
    let p = pow2(1029) as int;
    assert((5 * 0x4_0000_0000_0000) * p == 5 * (0x4_0000_0000_0000 * p)) by (nonlinear_arith);
}

impl Chi {
    /// The pattern of the degrees of freedom.
    pub closed spec fn freedom_bits(self) -> u64 {
        self.freedom
    }

    /// The patterns that are accepted as degrees of freedom: the numbers
    /// above zero, positive infinity among them.
    pub open spec fn valid_freedom(bits: u64) -> bool {
        !is_nan_spec(bits) && scaled_value(bits) > 0
    }

    /// What holds of every `Chi`: its degrees of freedom are valid.
    #[verifier::type_invariant]
    pub open spec fn wf(self) -> bool {
        Self::valid_freedom(self.freedom_bits())
    }

    /// What `new` returns: the distribution with the given degrees of
    /// freedom if they are valid, else `BadParams`.
    pub closed spec fn new_spec(freedom: u64) -> Result<Chi, StatsError> {
        if Self::valid_freedom(freedom) {
            Ok(Chi { freedom })
        } else {
            Err(StatsError::BadParams)
        }
    }

    /// A Chi distribution with the given degrees of freedom, or `BadParams`
    /// if they are a NaN, zero or below zero.
    pub fn new(freedom: u64) -> (r: Result<Chi, StatsError>)
        ensures
            r == Self::new_spec(freedom),
            Self::valid_freedom(freedom) ==> (r matches Ok(c) && c.wf() && c.freedom_bits()
                == freedom),
            !Self::valid_freedom(freedom) ==> r == Err::<Chi, StatsError>(StatsError::BadParams),
    {
        proof {
            lemma_named_values();
        }
        if is_nan(freedom) || le(freedom, ZERO) {
            Err(StatsError::BadParams)
        } else {
            Ok(Chi { freedom })
        }
    }

    /// The degrees of freedom, as they were given to `new`.
    pub fn freedom(&self) -> (r: u64)
        ensures
            r == self.freedom_bits(),
            Self::valid_freedom(r),
    {
        proof {
            use_type_invariant(self);
        }
        self.freedom
    }

    /// The number of standard normal draws whose squares a sample sums: the
    /// whole part of the degrees of freedom, or `i64::MAX` if that is less.
    pub open spec fn draws_spec(self) -> int {
        let whole = scaled_value(self.freedom_bits()) / unit() as int;
        if whole > i64::MAX {
            i64::MAX as int
        } else {
            whole
        }
    }

    /// The number of standard normal draws whose squares a sample sums
    /// before it takes the root. A fractional part of the degrees of freedom
    /// is dropped, so a sample follows the distribution exactly only when
    /// the degrees of freedom are whole.
    pub fn draws(&self) -> (n: i64)
        ensures
            n == self.draws_spec(),
            n >= 0,
    {
        proof {
            use_type_invariant(self);
            lemma_pow2_pos(1074);
            lemma_div_pos_is_pos(scaled_value(self.freedom), unit() as int);
        }
        to_i64(self.freedom)
    }

    /// Whether the distribution has a mode: it has with one degree of
    /// freedom or more.
    pub open spec fn has_mode_spec(self) -> bool {
        scaled_value(self.freedom_bits()) >= unit()
    }

    /// Whether the distribution has a mode.
    pub fn has_mode(&self) -> (r: bool)
        ensures
            r == self.has_mode_spec(),
    {
        proof {
            use_type_invariant(self);
            lemma_named_values();
        }
        !lt(self.freedom, ONE)
    }

    /// The lower end of the support: `+0.0`.
    pub fn min(&self) -> (r: u64)
        ensures
            r == ZERO,
    {
        ZERO
    }

    /// The upper end of the support: positive infinity.
    pub fn max(&self) -> (r: u64)
        ensures
            r == INFINITY,
    {
        INFINITY
    }

    /// Where the density vanishes whatever the formulas say: with infinitely
    /// many degrees of freedom, at positive infinity and at zero.
    pub open spec fn density_vanishes(self, x: u64) -> bool {
        eq_spec(self.freedom_bits(), INFINITY) || eq_spec(x, INFINITY) || eq_spec(x, ZERO)
    }

    /// How the density at `x` is obtained.
    pub open spec fn pdf_spec(self, x: u64) -> Density {
        if self.density_vanishes(x) {
            Density::Exact(ZERO)
        } else if scaled_value(self.freedom_bits()) > 160 * unit() {
            Density::ExpOfLog
        } else {
            Density::ClosedForm
        }
    }

    /// How the log-density at `x` is obtained.
    pub open spec fn ln_pdf_spec(self, x: u64) -> LogDensity {
        if self.density_vanishes(x) {
            LogDensity::Exact(NEG_INFINITY)
        } else {
            LogDensity::ClosedForm
        }
    }

    /// How the cumulative probability at `x` is obtained.
    pub open spec fn cdf_spec(self, x: u64) -> Cumulative {
        if eq_spec(x, INFINITY) || eq_spec(self.freedom_bits(), INFINITY) {
            Cumulative::Exact(ONE)
        } else {
            Cumulative::LowerGamma
        }
    }

    /// How the density at `x` is obtained: zero where it vanishes, through
    /// the log-density above 160 degrees of freedom, else by the closed form.
    pub fn pdf(&self, x: u64) -> (r: Density)
        ensures
            r == self.pdf_spec(x),
    {
        proof {
            use_type_invariant(self);
            lemma_cutover_value();
        }
        if eq(self.freedom, INFINITY) || eq(x, INFINITY) || eq(x, ZERO) {
            Density::Exact(ZERO)
        } else if gt(self.freedom, LOG_DOMAIN_CUTOVER) {
            Density::ExpOfLog
        } else {
            Density::ClosedForm
        }
    }

    /// How the log-density at `x` is obtained: negative infinity where the
    /// density vanishes, else by the closed form.
    pub fn ln_pdf(&self, x: u64) -> (r: LogDensity)
        ensures
            r == self.ln_pdf_spec(x),
    {
        if eq(self.freedom, INFINITY) || eq(x, INFINITY) || eq(x, ZERO) {
            LogDensity::Exact(NEG_INFINITY)
        } else {
            LogDensity::ClosedForm
        }
    }

    /// How the cumulative probability at `x` is obtained: one at positive
    /// infinity and with infinitely many degrees of freedom, else by the
    /// regularized lower incomplete gamma function.
    pub fn cdf(&self, x: u64) -> (r: Cumulative)
        ensures
            r == self.cdf_spec(x),
    {
        if eq(x, INFINITY) || eq(self.freedom, INFINITY) {
            Cumulative::Exact(ONE)
        } else {
            Cumulative::LowerGamma
        }
    }
}

/// Every number above zero is accepted as degrees of freedom, and the
/// distribution made from it holds that very pattern; every other pattern
/// is refused with `BadParams`.
pub proof fn lemma_new_keeps_freedom(freedom: u64)
    ensures
        Chi::valid_freedom(freedom) ==> (Chi::new_spec(freedom) matches Ok(c) && c.wf()
            && c.freedom_bits() == freedom),
        !Chi::valid_freedom(freedom) ==> Chi::new_spec(freedom) == Err::<Chi, StatsError>(
            StatsError::BadParams,
        ),
{
}

/// A distribution is determined by its degrees of freedom.
pub proof fn lemma_determined_by_freedom(c: Chi, d: Chi)
    ensures
        c == d <==> c.freedom_bits() == d.freedom_bits(),
{
}

/// The valid degrees of freedom are the patterns from the smallest
/// subnormal up to positive infinity.
pub proof fn lemma_valid_freedom_patterns(freedom: u64)
    ensures
        Chi::valid_freedom(freedom) <==> ZERO < freedom <= INFINITY,
{
    lemma_named_values();
    lemma_positive_patterns(freedom);
}

/// On valid degrees of freedom the two thresholds can be read off the
/// pattern: a mode exists from the pattern of `1.0` on, and the density
/// goes through the log domain above the pattern of `160.0`.
pub proof fn lemma_threshold_patterns(c: Chi)
    requires
        c.wf(),
    ensures
        c.has_mode_spec() <==> c.freedom_bits() >= ONE,
        scaled_value(c.freedom_bits()) > 160 * unit() <==> c.freedom_bits() > LOG_DOMAIN_CUTOVER,
{
    lemma_valid_freedom_patterns(c.freedom_bits());
    lemma_named_values();
    lemma_cutover_value();
    lemma_unsigned_order(c.freedom_bits(), ONE);
    lemma_unsigned_order(LOG_DOMAIN_CUTOVER, c.freedom_bits());
}

/// The density vanishes by rule exactly at the patterns of the two zeros
/// and of positive infinity, and everywhere when the degrees of freedom
/// are infinite.
pub proof fn lemma_density_vanishes_patterns(c: Chi, x: u64)
    requires
        c.wf(),
    ensures
        c.density_vanishes(x) <==> c.freedom_bits() == INFINITY || x == INFINITY || x == ZERO || x
            == SIGN_BIT,
{
    lemma_infinity_pattern(c.freedom_bits());
    lemma_infinity_pattern(x);
    lemma_zero_patterns(x);
}

/// At zero, of either sign, the density is zero and the log-density is
/// negative infinity, whatever the degrees of freedom.
pub proof fn lemma_density_at_zero(c: Chi, x: u64)
    requires
        c.wf(),
        eq_spec(x, ZERO),
    ensures
        c.pdf_spec(x) == Density::Exact(ZERO),
        c.ln_pdf_spec(x) == LogDensity::Exact(NEG_INFINITY),
{
}

/// With infinitely many degrees of freedom the density is zero and the
/// cumulative probability is one, at every point.
pub proof fn lemma_infinite_freedom(c: Chi, x: u64)
    requires
        c.wf(),
        eq_spec(c.freedom_bits(), INFINITY),
    ensures
        c.pdf_spec(x) == Density::Exact(ZERO),
        c.ln_pdf_spec(x) == LogDensity::Exact(NEG_INFINITY),
        c.cdf_spec(x) == Cumulative::Exact(ONE),
{
}

/// At positive infinity the cumulative probability is one, whatever the
/// degrees of freedom.
pub proof fn lemma_cdf_at_infinity(c: Chi, x: u64)
    requires
        c.wf(),
        eq_spec(x, INFINITY),
    ensures
        c.cdf_spec(x) == Cumulative::Exact(ONE),
{
}

} // verus!
