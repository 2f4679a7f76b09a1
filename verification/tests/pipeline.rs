use distplot::continuous::Beta;
use distplot::continuous::BivariateNormal;
use distplot::continuous::ChiSquared;
use distplot::continuous::Exponential;
use distplot::continuous::FDistribution;
use distplot::continuous::Gamma;
use distplot::continuous::LogNormal;
use distplot::continuous::StudentT;
use distplot::continuous::Weibull;
use distplot::controller::parse_integer;
use distplot::controller::HypergeometricController;
use distplot::controller::ScalarParam;
use distplot::model::ConstraintViolation;
use distplot::model::ParamError;
use distplot::model::Stat;
use distplot::parse::parse_micros;
use distplot::render::caption_font_size;
use distplot::render::chart_height;
use distplot::render::prepare_render;
use distplot::render::RenderTarget;
use distplot::render::SeriesKind;
use distplot::sampling::index_grid;
use distplot::sampling::uniform_grid;
use distplot::sampling::SampleSeries;
use distplot::scheduler::ChangeScheduler;
use distplot::scheduler::Phase;

#[test]
fn parse_micros_accepts_plain_decimals() {
    assert_eq!(parse_micros(&b"3.14".to_vec()), Ok(3_140_000));
    assert_eq!(parse_micros(&b"-0.5".to_vec()), Ok(-500_000));
    assert_eq!(parse_micros(&b"10".to_vec()), Ok(10_000_000));
    assert_eq!(parse_micros(&b"0.000001".to_vec()), Ok(1));
    assert_eq!(parse_micros(&b"999999999.999999".to_vec()), Ok(999_999_999_999_999));
}

#[test]
fn parse_micros_rejects_malformed_input() {
    assert_eq!(parse_micros(&b"".to_vec()), Err(ParamError::Parse));
    assert_eq!(parse_micros(&b"abc".to_vec()), Err(ParamError::Parse));
    assert_eq!(parse_micros(&b"1.".to_vec()), Err(ParamError::Parse));
    assert_eq!(parse_micros(&b".5".to_vec()), Err(ParamError::Parse));
    assert_eq!(parse_micros(&b"1.2345678".to_vec()), Err(ParamError::Parse));
    assert_eq!(parse_micros(&b"1234567890".to_vec()), Err(ParamError::Parse));
    assert_eq!(parse_micros(&b"1,5".to_vec()), Err(ParamError::Parse));
    assert_eq!(parse_micros(&b"-".to_vec()), Err(ParamError::Parse));
}

#[test]
fn parse_integer_requires_whole_units() {
    assert_eq!(parse_integer(&b"50".to_vec()), Ok(50));
    assert_eq!(parse_integer(&b"-3".to_vec()), Ok(-3));
    assert_eq!(parse_integer(&b"3.000000".to_vec()), Ok(3));
    assert_eq!(parse_integer(&b"0.5".to_vec()), Err(ParamError::Parse));
    assert_eq!(parse_integer(&b"x".to_vec()), Err(ParamError::Parse));
}

#[test]
fn scalar_param_clamps_into_range() {
    let mut p = ScalarParam::new(1_000_000, 10_000, 20_000_000);
    assert_eq!(p.set(&b"2.5".to_vec()), Ok(()));
    assert_eq!(p.value, 2_500_000);
    assert_eq!(p.set(&b"25".to_vec()), Ok(()));
    assert_eq!(p.value, 20_000_000);
    assert_eq!(p.set(&b"0".to_vec()), Ok(()));
    assert_eq!(p.value, 10_000);
    assert_eq!(p.set(&b"oops".to_vec()), Err(ParamError::Parse));
    assert_eq!(p.value, 10_000);
}

#[test]
fn hypergeometric_cascade_clamps_in_one_call() {
    // Setting N below the current M clamps M to the new N, and because the
    // new M falls below the current K, K clamps too — one call, no second
    // user action.
    let mut c = HypergeometricController::new();
    assert_eq!((c.population, c.marked, c.draws), (50, 20, 10));
    assert_eq!(c.set_population(&b"5".to_vec()), Ok(()));
    assert_eq!((c.population, c.marked, c.draws), (5, 5, 5));
}

#[test]
fn hypergeometric_cascade_keeps_untouched_parameters() {
    let mut c = HypergeometricController::new();
    // N drops below M but stays above K: only M moves.
    assert_eq!(c.set_population(&b"15".to_vec()), Ok(()));
    assert_eq!((c.population, c.marked, c.draws), (15, 15, 10));
    // M drops below K: K follows.
    assert_eq!(c.set_marked(&b"4".to_vec()), Ok(()));
    assert_eq!((c.population, c.marked, c.draws), (15, 4, 4));
    // K beyond min(N, M) has no clamp rule: rejected, state unchanged.
    assert_eq!(c.set_draws(&b"99".to_vec()), Err(ParamError::Constraint));
    assert_eq!((c.population, c.marked, c.draws), (15, 4, 4));
    assert_eq!(c.set_draws(&b"2".to_vec()), Ok(()));
    assert_eq!((c.population, c.marked, c.draws), (15, 4, 2));
    // M beyond N is rejected the same way.
    assert_eq!(c.set_marked(&b"16".to_vec()), Err(ParamError::Constraint));
    assert_eq!((c.population, c.marked, c.draws), (15, 4, 2));
    // A failed parse leaves the whole cascade unapplied.
    assert_eq!(c.set_population(&b"5.5".to_vec()), Err(ParamError::Parse));
    assert_eq!((c.population, c.marked, c.draws), (15, 4, 2));
}

#[test]
fn f_distribution_degenerate_mean_is_infinite() {
    // df2 = 2 must report an infinite mean, never a quiet not-a-number.
    let f = FDistribution::validate(1_000_000, 2_000_000).unwrap();
    assert_eq!(f.mean(), Stat::Infinite);
    assert_eq!(f.variance(), Stat::Infinite);
    // df2 = 6: mean 6/4 = 1.5; variance still needs df2 > 4.
    let f = FDistribution::validate(2_000_000, 6_000_000).unwrap();
    assert_eq!(f.mean(), Stat::Finite(1_500_000));
    // 2*36*(2+6-2) / (2*16*2) = 432/128 = 6.75
    assert_eq!(f.variance(), Stat::Finite(6_750_000));
    let f = FDistribution::validate(1_000_000, 4_000_000).unwrap();
    assert_eq!(f.variance(), Stat::Infinite);
}

#[test]
fn continuous_stats_exact_values() {
    let e = Exponential::validate(2_000_000).unwrap();
    assert_eq!(e.mean(), Stat::Finite(500_000));
    assert_eq!(e.variance(), Stat::Finite(250_000));
    assert_eq!(e.hazard_micros(), 2_000_000);

    let g = Gamma::validate(3_000_000, 2_000_000).unwrap();
    assert_eq!(g.mean(), Stat::Finite(1_500_000));
    assert_eq!(g.variance(), Stat::Finite(750_000));

    let b = Beta::validate(2_000_000, 2_000_000).unwrap();
    assert_eq!(b.mean(), Stat::Finite(500_000));
    // 2*2/((2+2)^2 * (2+2+1)) = 4/80 = 0.05
    assert_eq!(b.variance(), Stat::Finite(50_000));

    let c = ChiSquared::validate(3_000_000).unwrap();
    assert_eq!(c.mean(), Stat::Finite(3_000_000));
    assert_eq!(c.variance(), Stat::Finite(6_000_000));
}

#[test]
fn student_t_degenerates_to_cauchy_at_one() {
    let t = StudentT::validate(1_000_000).unwrap();
    assert!(t.is_cauchy());
    assert_eq!(t.mean(), Stat::Undefined);
    assert_eq!(t.variance(), Stat::Undefined);
    let t = StudentT::validate(3_000_000).unwrap();
    assert!(!t.is_cauchy());
    assert_eq!(t.mean(), Stat::Finite(0));
    assert_eq!(t.variance(), Stat::Finite(3_000_000));
    let t = StudentT::validate(2_000_000).unwrap();
    assert_eq!(t.variance(), Stat::Undefined);
}

#[test]
fn weibull_and_log_normal_validate_ranges() {
    assert!(Weibull::validate(10_000, 10_000_000).is_ok());
    assert_eq!(Weibull::validate(9_999, 1_000_000), Err(ConstraintViolation));
    assert!(LogNormal::validate(-3_000_000, 100_000).is_ok());
    assert_eq!(LogNormal::validate(-3_000_001, 100_000), Err(ConstraintViolation));
    assert_eq!(LogNormal::validate(0, 99_999), Err(ConstraintViolation));
}

#[test]
fn bivariate_conditional_variance_exact() {
    let m = BivariateNormal::validate(1_000_000, -1_000_000, 1_000_000, 1_000_000, 200_000, 0)
        .unwrap();
    // var_y (1 - rho^2) = 1 * (1 - 0.04) = 0.96
    assert_eq!(m.conditional_variance(), Stat::Finite(960_000));
    assert_eq!(
        BivariateNormal::validate(0, 0, 1_000_000, 1_000_000, 1_000_000, 0),
        Err(ConstraintViolation)
    );
}

#[test]
fn sampling_is_deterministic_and_exact() {
    // The exponential curve's grid: 500 points at hundredth steps.
    let a = uniform_grid(0, 500, 10_000);
    let b = uniform_grid(0, 500, 10_000);
    assert_eq!(a, b);
    assert_eq!(a.len(), 500);
    assert_eq!(a[0], 0);
    assert_eq!(a[499], 4_990_000);
    // Student's t runs from -5 to 5.
    let t = uniform_grid(-500, 1000, 10_000);
    assert_eq!(t[0], -5_000_000);
    assert_eq!(t[999], 4_990_000);
    let s = index_grid(0, 21);
    assert_eq!(s.len(), 21);
    assert_eq!(s[20], 20);
}

#[test]
fn sample_series_pairs_positionally() {
    let xs = uniform_grid(0, 3, 1_000_000);
    let ys: Vec<f64> = vec![0.1, 0.2, 0.3];
    let series = SampleSeries::from_parts(xs, ys);
    assert_eq!(series.len(), 3);
    assert_eq!(series.xs[2], 2_000_000);
}

#[test]
fn render_plan_is_pure_and_skips_detached_targets() {
    let target = RenderTarget { attached: true, container_width: 400 };
    let p1 = prepare_render(&target, SeriesKind::Line, Stat::Finite(1), Stat::Finite(2), 0,
        5_000_000, 0, 1_000_000);
    let p2 = prepare_render(&target, SeriesKind::Line, Stat::Finite(1), Stat::Finite(2), 0,
        5_000_000, 0, 1_000_000);
    assert_eq!(p1, p2);
    let plan = p1.unwrap();
    assert_eq!(plan.width, 400);
    assert_eq!(plan.height, 300);
    assert_eq!(plan.font_size, 20);
    let detached = RenderTarget { attached: false, container_width: 400 };
    assert_eq!(
        prepare_render(&detached, SeriesKind::Bars, Stat::Infinite, Stat::Undefined, 0, 1, 0, 1),
        None
    );
}

#[test]
fn chart_layout_rules() {
    assert_eq!(chart_height(400), 300);
    assert_eq!(chart_height(401), 300);
    assert_eq!(chart_height(0), 0);
    assert_eq!(caption_font_size(301), 20);
    assert_eq!(caption_font_size(300), 10);
}

#[test]
fn scheduler_recomputes_every_change() {
    let mut s = ChangeScheduler::new();
    assert_eq!(s.phase, Phase::Idle);
    let after = s.on_parameter_change();
    assert_eq!(after, Phase::Idle);
    let _ = s.on_parameter_change();
    assert_eq!(s.changes_seen, 2);
    assert_eq!(s.recomputes_done, 2);
}

#[test]
fn model_domains_match_their_charts() {
    let e = Exponential::validate(1_000_000).unwrap();
    assert_eq!(e.x_range(), (0, 5_000_000));
    assert_eq!(e.y_range(), (0, 1_000_000));
    let g = e.sample_grid();
    assert_eq!(g.len(), 500);
    assert_eq!(g[1], 10_000);
    let t = StudentT::validate(5_000_000).unwrap();
    assert_eq!(t.x_range(), (-5_000_000, 5_000_000));
    let grid = t.sample_grid();
    assert_eq!(grid[0], -5_000_000);
    let b = Beta::validate(1_000_000, 1_000_000).unwrap();
    assert_eq!(b.sample_grid().len(), 1000);
    assert_eq!(b.x_range(), (0, 1_000_000));
}
