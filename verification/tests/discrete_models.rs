use distplot::combin::combination;
use distplot::discrete::binomial_pmf;
use distplot::discrete::geometric_pmf;
use distplot::discrete::hypergeometric_pmf;
use distplot::discrete::negative_binomial_pmf;
use distplot::discrete::Binomial;
use distplot::discrete::Geometric;
use distplot::discrete::Hypergeometric;
use distplot::discrete::NegativeBinomial;
use distplot::discrete::Poisson;
use distplot::model::ConstraintViolation;
use distplot::model::Stat;
use distplot::ratio::reduce_fraction;
use distplot::ratio::Ratio;

fn as_f64(r: Ratio) -> f64 {
    r.num as f64 / r.den as f64
}

#[test]
fn test_hypergeometric() {
    // Test edge cases
    assert!((as_f64(hypergeometric_pmf(0, 1, 1, 1).unwrap()) - 0.0).abs() < 1e-6);
    assert!((as_f64(hypergeometric_pmf(1, 1, 1, 1).unwrap()) - 1.0).abs() < 1e-6);
}

#[test]
fn test_negative_binomial() {
    let half = reduce_fraction(500_000, 1_000_000);
    let nb = |k: u64, r: u64, p: (u64, u64)| as_f64(negative_binomial_pmf(k, r, p.0, p.1).unwrap());

    // Too Simple test
    assert!(nb(0, 1, half) < 1.0);

    // Test with known values
    assert!((nb(2, 3, half) - (3.0 / 16.0_f64)).abs() < 1e-6);
    assert!((nb(1, 3, half) - 0.1875).abs() < 1e-6);

    // Test edge cases
    assert!((nb(0, 1, half) - 0.5).abs() < 1e-6);
    assert!((nb(0, 0, half) - 1.0).abs() < 1e-6);
    assert!((nb(0, 1, (990_000, 1_000_000)) - 1.0).abs() < 0.1);
}

#[test]
fn negative_binomial_exact_three_sixteenths() {
    // C(4, 2) (1/2)^2 (1/2)^3 == 3/16 exactly.
    let r = negative_binomial_pmf(2, 3, 1, 2).unwrap();
    assert_eq!(r.num * 16, r.den * 3);
}

#[test]
fn hypergeometric_degenerate_single_draw_exact() {
    assert_eq!(hypergeometric_pmf(0, 1, 1, 1).unwrap(), Ratio { num: 0, den: 1 });
    assert_eq!(hypergeometric_pmf(1, 1, 1, 1).unwrap(), Ratio { num: 1, den: 1 });
}

#[test]
fn combination_matches_pascal_values() {
    assert_eq!(combination(0, 0), 1);
    assert_eq!(combination(5, 2), 10);
    assert_eq!(combination(10, 5), 252);
    assert_eq!(combination(100, 50), 100891344545564193334812497256);
    assert_eq!(combination(120, 60), 96614908840363322603893139521372656);
}

#[test]
fn binomial_row_sums_to_one_exactly() {
    // The verified law in exact numbers: for p = 1/2 and n = 20 the mass
    // numerators sum to the common denominator 2^20.
    let b = Binomial::validate(20, 500_000).unwrap();
    let mut num_sum: u128 = 0;
    let mut den: u128 = 0;
    for k in 0..=20 {
        let r = b.pmf(k).unwrap();
        num_sum += r.num;
        den = r.den;
    }
    assert_eq!(num_sum, den);
    assert_eq!(den, 1u128 << 20);
}

#[test]
fn binomial_row_sums_near_one_for_general_p() {
    // p = 0.37 over n = 12 trials: the masses sum to one within 1e-9.
    let b = Binomial::validate(12, 370_000).unwrap();
    let total: f64 = (0..=12).map(|k| as_f64(b.pmf(k).unwrap())).sum();
    assert!((total - 1.0).abs() < 1e-9);
}

#[test]
fn binomial_mass_outside_support_is_zero() {
    let b = Binomial::validate(10, 250_000).unwrap();
    assert_eq!(b.pmf(11).unwrap(), Ratio { num: 0, den: 1 });
}

#[test]
fn binomial_validate_rejects_out_of_range() {
    assert_eq!(Binomial::validate(0, 500_000), Err(ConstraintViolation));
    assert_eq!(Binomial::validate(501, 500_000), Err(ConstraintViolation));
    assert_eq!(Binomial::validate(10, 0), Err(ConstraintViolation));
    assert_eq!(Binomial::validate(10, 1_000_000), Err(ConstraintViolation));
    assert!(Binomial::validate(500, 999_999).is_ok());
}

#[test]
fn binomial_stats_exact() {
    let b = Binomial::validate(10, 500_000).unwrap();
    assert_eq!(b.mean(), Stat::Finite(5_000_000));
    assert_eq!(b.variance(), Stat::Finite(2_500_000));
    assert_eq!(b.support_end(), 11);
}

#[test]
fn poisson_stats_equal_rate() {
    let p = Poisson::validate(1_000_000).unwrap();
    assert_eq!(p.mean(), Stat::Finite(1_000_000));
    assert_eq!(p.variance(), Stat::Finite(1_000_000));
    assert_eq!(p.support_end(), 20);
    assert_eq!(Poisson::validate(0), Err(ConstraintViolation));
    assert_eq!(Poisson::validate(20_000_001), Err(ConstraintViolation));
}

#[test]
fn geometric_masses_and_stats() {
    let g = Geometric::validate(500_000).unwrap();
    // (1-p)^(k-1) p for p = 1/2: 1/2, 1/4, 1/8.
    assert!((as_f64(g.pmf(1).unwrap()) - 0.5).abs() < 1e-12);
    assert!((as_f64(g.pmf(2).unwrap()) - 0.25).abs() < 1e-12);
    assert!((as_f64(g.pmf(3).unwrap()) - 0.125).abs() < 1e-12);
    assert_eq!(g.pmf(0).unwrap(), Ratio { num: 0, den: 1 });
    assert_eq!(g.mean(), Stat::Finite(2_000_000));
    assert_eq!(g.variance(), Stat::Finite(2_000_000));
    // p = 1 puts all the mass on the first trial.
    let sure = Geometric::validate(1_000_000).unwrap();
    assert!((as_f64(sure.pmf(1).unwrap()) - 1.0).abs() < 1e-12);
    assert_eq!(sure.pmf(2).unwrap().num, 0);
    assert_eq!(Geometric::validate(9_999), Err(ConstraintViolation));
}

#[test]
fn geometric_free_function_matches_closed_form() {
    // (1-p)^(k-1) p at p = 0.25, k = 3: 0.140625.
    let r = geometric_pmf(3, 1, 4).unwrap();
    assert_eq!((r.num, r.den), (9, 64));
}

#[test]
fn negative_binomial_stats_exact() {
    let m = NegativeBinomial::validate(3, 500_000).unwrap();
    // mean r/p = 6, variance r(1-p)/p^2 = 6.
    assert_eq!(m.mean(), Stat::Finite(6_000_000));
    assert_eq!(m.variance(), Stat::Finite(6_000_000));
    assert_eq!(m.support_end(), 50);
    assert_eq!(NegativeBinomial::validate(0, 500_000), Err(ConstraintViolation));
    assert_eq!(NegativeBinomial::validate(11, 500_000), Err(ConstraintViolation));
    assert_eq!(NegativeBinomial::validate(3, 995_000), Err(ConstraintViolation));
}

#[test]
fn hypergeometric_model_stats() {
    let h = Hypergeometric::validate(50, 20, 10).unwrap();
    // mean KM/N = 4; variance KM(N-M)(N-K)/(N^2(N-1)) = 240000/122.5 ...
    assert_eq!(h.mean(), Stat::Finite(4_000_000));
    assert_eq!(h.variance(), Stat::Finite(240_000_000_000 / 122_500));
    assert_eq!(h.support_end(), 11);
    // A population of one has no defined variance.
    let one = Hypergeometric::validate(1, 1, 1).unwrap();
    assert_eq!(one.variance(), Stat::Undefined);
    assert_eq!(Hypergeometric::validate(0, 0, 0), Err(ConstraintViolation));
    assert_eq!(Hypergeometric::validate(10, 11, 5), Err(ConstraintViolation));
    assert_eq!(Hypergeometric::validate(10, 5, 6), Err(ConstraintViolation));
}

#[test]
fn hypergeometric_row_sums_to_one_exactly() {
    // Vandermonde in exact numbers: the masses of N=30, M=12, K=8 share
    // the denominator C(30, 8) and their numerators sum to it.
    let h = Hypergeometric::validate(30, 12, 8).unwrap();
    let mut num_sum: u128 = 0;
    let mut den: u128 = 0;
    for x in 0..=8 {
        let r = h.pmf(x).unwrap();
        num_sum += r.num;
        den = r.den;
    }
    assert_eq!(num_sum, den);
    assert_eq!(den, combination(30, 8));
}

#[test]
fn binomial_overflow_is_reported_not_rounded() {
    // n beyond the 128-bit range reports None rather than a rounded mass.
    let b = Binomial::validate(200, 500_000).unwrap();
    assert_eq!(b.pmf(100), None);
}

#[test]
fn discrete_domains_follow_parameters() {
    let b = Binomial::validate(25, 500_000).unwrap();
    assert_eq!(b.x_range(), (0, 26_000_000));
    assert_eq!(b.y_range(), (0, 1_000_000));
    let h = Hypergeometric::validate(50, 20, 10).unwrap();
    assert_eq!(h.x_range(), (0, 11_000_000));
    let nb = NegativeBinomial::validate(3, 500_000).unwrap();
    assert_eq!(nb.x_range(), (0, 50_000_000));
    assert_eq!(nb.y_range(), (0, 300_000));
    let g = Geometric::validate(500_000).unwrap();
    assert_eq!(g.x_range(), (1_000_000, 20_000_000));
}

#[test]
fn geometric_partial_sums_approach_one() {
    // For p = 1/2 the mass missing after j trials is exactly (1/2)^j.
    let g = Geometric::validate(500_000).unwrap();
    let mut num_sum: u128 = 0;
    for k in 1..=10 {
        let r = g.pmf(k).unwrap();
        // Masses share the base 1/2, so scale each to the denominator 2^10.
        num_sum += r.num * (1u128 << (10 - k));
    }
    assert_eq!(num_sum, (1u128 << 10) - 1);
}
