use chi_distribution::binary64::{INFINITY, NEG_INFINITY, ONE, SIGN_BIT, ZERO};
use chi_distribution::chi::{Chi, Cumulative, Density, LogDensity, LOG_DOMAIN_CUTOVER};
use chi_distribution::error::StatsError;

fn chi(freedom: f64) -> Chi {
    Chi::new(freedom.to_bits()).unwrap()
}

fn points() -> Vec<f64> {
    vec![
        -1e300,
        -3.0,
        -5e-324,
        5e-324,
        0.5,
        1.0,
        10.0,
        1e300,
        f64::MAX,
        f64::NEG_INFINITY,
        f64::NAN,
    ]
}

fn freedoms() -> Vec<f64> {
    vec![5e-324, 0.5, 1.0, 2.0, 3.7, 160.0, 161.0, 1e19, f64::MAX, f64::INFINITY]
}

#[test]
fn new_accepts_every_positive_freedom_and_keeps_it() {
    for k in freedoms() {
        let c = Chi::new(k.to_bits()).unwrap();
        assert_eq!(c.freedom(), k.to_bits());
        assert_eq!(f64::from_bits(c.freedom()), k);
    }
}

#[test]
fn new_rejects_zero_negative_and_nan() {
    assert_eq!(Chi::new(0.0f64.to_bits()), Err(StatsError::BadParams));
    assert_eq!(Chi::new((-1.0f64).to_bits()), Err(StatsError::BadParams));
    assert_eq!(Chi::new(f64::NAN.to_bits()), Err(StatsError::BadParams));
}

#[test]
fn new_rejects_every_pattern_that_is_not_above_zero() {
    assert_eq!(Chi::new((-0.0f64).to_bits()), Err(StatsError::BadParams));
    assert_eq!(Chi::new((-5e-324f64).to_bits()), Err(StatsError::BadParams));
    assert_eq!(Chi::new(f64::MIN.to_bits()), Err(StatsError::BadParams));
    assert_eq!(Chi::new(f64::NEG_INFINITY.to_bits()), Err(StatsError::BadParams));
    assert_eq!(Chi::new((-f64::NAN).to_bits()), Err(StatsError::BadParams));
    assert_eq!(Chi::new(0x7ff0_0000_0000_0001), Err(StatsError::BadParams));
    assert_eq!(Chi::new(u64::MAX), Err(StatsError::BadParams));
}

#[test]
fn new_accepts_the_ends_of_the_positive_range() {
    assert!(Chi::new(1).is_ok());
    assert!(Chi::new(f64::MIN_POSITIVE.to_bits()).is_ok());
    assert!(Chi::new(f64::MAX.to_bits()).is_ok());
    assert!(Chi::new(f64::INFINITY.to_bits()).is_ok());
}

#[test]
fn new_agrees_with_the_float_test_on_scattered_patterns() {
    let mut state: u64 = 0x2545_f491_4f6c_dd1d;
    for _ in 0..20000 {
        state ^= state << 13;
        state ^= state >> 7;
        state ^= state << 17;
        let k = f64::from_bits(state);
        assert_eq!(Chi::new(state).is_ok(), !(k.is_nan() || k <= 0.0));
    }
}

#[test]
fn chi_is_copied_and_compared_by_value() {
    let a = chi(2.0);
    let b = a;
    assert_eq!(a, b);
    assert_ne!(a, chi(3.0));
    assert_eq!(format!("{:?}", StatsError::BadParams), "BadParams");
}

#[test]
fn support_runs_from_zero_to_infinity() {
    for k in freedoms() {
        let c = chi(k);
        assert_eq!(c.min(), ZERO);
        assert_eq!(c.max(), INFINITY);
        assert_eq!(f64::from_bits(c.min()), 0.0);
        assert!(f64::from_bits(c.min()).is_sign_positive());
        assert_eq!(f64::from_bits(c.max()), f64::INFINITY);
    }
}

#[test]
fn density_at_zero_is_zero_and_its_log_negative_infinity() {
    for k in freedoms() {
        let c = chi(k);
        for x in [ZERO, SIGN_BIT] {
            assert_eq!(c.pdf(x), Density::Exact(0.0f64.to_bits()));
            assert_eq!(c.ln_pdf(x), LogDensity::Exact(f64::NEG_INFINITY.to_bits()));
        }
    }
    assert_eq!(chi(2.0).ln_pdf(ZERO), LogDensity::Exact(NEG_INFINITY));
}

#[test]
fn density_at_infinity_is_zero_and_its_log_negative_infinity() {
    for k in freedoms() {
        let c = chi(k);
        assert_eq!(c.pdf(INFINITY), Density::Exact(ZERO));
        assert_eq!(c.ln_pdf(INFINITY), LogDensity::Exact(NEG_INFINITY));
    }
}

#[test]
fn infinite_freedom_gives_zero_density_and_full_probability_everywhere() {
    let c = chi(f64::INFINITY);
    for x in points() {
        assert_eq!(c.pdf(x.to_bits()), Density::Exact(ZERO));
        assert_eq!(c.ln_pdf(x.to_bits()), LogDensity::Exact(NEG_INFINITY));
        assert_eq!(c.cdf(x.to_bits()), Cumulative::Exact(1.0f64.to_bits()));
    }
    assert_eq!(c.cdf(ZERO), Cumulative::Exact(ONE));
    assert_eq!(c.cdf(INFINITY), Cumulative::Exact(ONE));
}

#[test]
fn cdf_at_infinity_is_one() {
    for k in freedoms() {
        assert_eq!(chi(k).cdf(f64::INFINITY.to_bits()), Cumulative::Exact(1.0f64.to_bits()));
    }
}

#[test]
fn cdf_elsewhere_is_the_lower_gamma_function() {
    for k in [5e-324, 0.5, 1.0, 2.0, 160.0, 161.0, f64::MAX] {
        let c = chi(k);
        for x in points() {
            assert_eq!(c.cdf(x.to_bits()), Cumulative::LowerGamma);
        }
        assert_eq!(c.cdf(ZERO), Cumulative::LowerGamma);
        assert_eq!(c.cdf(SIGN_BIT), Cumulative::LowerGamma);
    }
}

#[test]
fn mode_of_one_degree_of_freedom_is_zero() {
    let c = chi(1.0);
    assert!(c.has_mode());
    assert_eq!((f64::from_bits(c.freedom()) - 1.0).sqrt(), 0.0);
}

#[test]
fn mode_exists_from_one_degree_of_freedom() {
    assert!(chi(1.0).has_mode());
    assert!(chi(1.0000000000000002).has_mode());
    assert!(chi(2.0).has_mode());
    assert!(chi(f64::MAX).has_mode());
    assert!(chi(f64::INFINITY).has_mode());
}

#[test]
fn mode_does_not_exist_below_one_degree_of_freedom() {
    assert!(!chi(0.5).has_mode());
    assert!(!chi(0.9999999999999999).has_mode());
    assert!(!chi(f64::MIN_POSITIVE).has_mode());
    assert!(!chi(5e-324).has_mode());
}

#[test]
fn density_of_two_degrees_at_one_is_the_closed_form() {
    assert_eq!(chi(2.0).pdf(1.0f64.to_bits()), Density::ClosedForm);
    assert_eq!(chi(2.0).ln_pdf(1.0f64.to_bits()), LogDensity::ClosedForm);
}

#[test]
fn density_goes_through_the_log_domain_above_160_degrees() {
    let x = 10.0f64.to_bits();
    assert_eq!(LOG_DOMAIN_CUTOVER, 160.0f64.to_bits());
    assert_eq!(chi(159.99999999999997).pdf(x), Density::ClosedForm);
    assert_eq!(chi(160.0).pdf(x), Density::ClosedForm);
    assert_eq!(chi(160.00000000000003).pdf(x), Density::ExpOfLog);
    assert_eq!(chi(161.0).pdf(x), Density::ExpOfLog);
    assert_eq!(chi(f64::MAX).pdf(x), Density::ExpOfLog);
    assert_eq!(chi(5e-324).pdf(x), Density::ClosedForm);
    assert_eq!(chi(160.0).ln_pdf(x), LogDensity::ClosedForm);
    assert_eq!(chi(161.0).ln_pdf(x), LogDensity::ClosedForm);
}

#[test]
fn density_rule_agrees_with_the_float_tests() {
    let mut xs = points();
    xs.extend([0.0, -0.0, f64::INFINITY]);
    for k in freedoms() {
        let c = chi(k);
        for &x in &xs {
            let expected = if k == f64::INFINITY || x == f64::INFINITY || x == 0.0 {
                Density::Exact(ZERO)
            } else if k > 160.0 {
                Density::ExpOfLog
            } else {
                Density::ClosedForm
            };
            assert_eq!(c.pdf(x.to_bits()), expected, "k = {k:?}, x = {x:?}");
        }
    }
}

#[test]
fn a_nan_or_negative_point_is_left_to_the_formulas() {
    let c = chi(3.0);
    for x in [f64::NAN, -f64::NAN, f64::NEG_INFINITY, -2.0] {
        assert_eq!(c.pdf(x.to_bits()), Density::ClosedForm);
        assert_eq!(c.ln_pdf(x.to_bits()), LogDensity::ClosedForm);
        assert_eq!(c.cdf(x.to_bits()), Cumulative::LowerGamma);
    }
    assert_eq!(chi(200.0).pdf(f64::NAN.to_bits()), Density::ExpOfLog);
}

#[test]
fn draws_is_the_whole_part_of_the_freedom() {
    assert_eq!(chi(5e-324).draws(), 0);
    assert_eq!(chi(0.5).draws(), 0);
    assert_eq!(chi(0.9999999999999999).draws(), 0);
    assert_eq!(chi(1.0).draws(), 1);
    assert_eq!(chi(1.9999999999999998).draws(), 1);
    assert_eq!(chi(2.0).draws(), 2);
    assert_eq!(chi(3.7).draws(), 3);
    assert_eq!(chi(160.0).draws(), 160);
    assert_eq!(chi(4503599627370495.5).draws(), 4503599627370495);
    assert_eq!(chi(9223372036854774784.0).draws(), 9223372036854774784);
}

#[test]
fn draws_stops_at_the_largest_integer() {
    assert_eq!(chi(9223372036854775808.0).draws(), i64::MAX);
    assert_eq!(chi(1e19).draws(), i64::MAX);
    assert_eq!(chi(f64::MAX).draws(), i64::MAX);
    assert_eq!(chi(f64::INFINITY).draws(), i64::MAX);
}

#[test]
fn draws_agrees_with_the_cast_on_scattered_freedoms() {
    let mut state: u64 = 0x1234_5678_9abc_def1;
    for _ in 0..20000 {
        state ^= state << 13;
        state ^= state >> 7;
        state ^= state << 17;
        let pattern = (state & 0x000f_ffff_ffff_ffff) | ((990 + (state >> 52) % 110) << 52);
        let k = f64::from_bits(pattern);
        assert_eq!(chi(k).draws(), k as i64, "{k:?}");
    }
}
