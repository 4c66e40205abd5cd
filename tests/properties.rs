use finance_engine::{
    company_health_score, gini_coefficient, hhi_and_diversification, increment_errors,
    increment_requests, operating_leverage, organic_growth, parse_number, portfolio_momentum,
    revenue_quality_score, sanitize_for_error_message, validate_input_security, CalculationError,
    ConcentrationIssue, ConcentrationRisk, FinanceEngine, Fixed, GiniLevel, GrowthRating,
    HealthRisk, MomentumRating, OrganicGrowthParams, PortfolioMomentumParams, PortfolioSegmentData,
    QualityGrade, Ratio, RequestCounters, MAX_UNITS,
};

fn num(s: &str) -> Fixed {
    parse_number(s).unwrap()
}

fn nums(v: &[&str]) -> Vec<Fixed> {
    v.iter().map(|s| num(s)).collect()
}

fn ratio(num: i128, den: i128) -> Ratio {
    Ratio { num, den }
}

#[test]
fn hhi_bounds_and_reciprocal() {
    for case in [vec!["15", "25", "5", "8"], vec!["1", "0"], vec!["3", "3", "3"], vec!["0.5", "999"]] {
        let x = hhi_and_diversification(&nums(&case)).unwrap();
        assert!(0 <= x.hhi.num && x.hhi.num <= x.hhi.den);
        assert!(x.effective_n.num >= x.effective_n.den);
        assert_eq!(x.effective_n, ratio(x.hhi.den, x.hhi.num));
    }
}

#[test]
fn hhi_exact_values() {
    let x = hhi_and_diversification(&nums(&["15", "25", "5", "8"])).unwrap();
    // shares 15/53, 25/53, 5/53, 8/53: HHI = 939 / 2809
    assert_eq!(x.hhi.num * 2809, x.hhi.den * 939);
    assert_eq!(x.risk_level, ConcentrationRisk::High);
    assert_eq!(
        x.assessment,
        "Revenue concentration is high with HHI of 0.334. The portfolio behaves like 3.0 equal-sized segments."
    );
    assert_eq!(x.largest_share.num * 53, x.largest_share.den * 25);
    // 2809 / 939 = 2.99 effective segments, just under three
    assert_eq!(
        x.concentration_issues,
        vec![ConcentrationIssue::LowEffectiveSegments { effective_n_tenths: 30 }]
    );
    assert_eq!(x.market_shares.len(), 4);
}

#[test]
fn hhi_warnings() {
    let x = hhi_and_diversification(&nums(&["90", "10"])).unwrap();
    assert_eq!(x.risk_level, ConcentrationRisk::High);
    assert_eq!(
        x.concentration_issues,
        vec![
            ConcentrationIssue::SingleSegmentDominance { share_pct_tenths: 900 },
            ConcentrationIssue::SevereConcentration,
            ConcentrationIssue::LowEffectiveSegments { effective_n_tenths: 12 },
        ]
    );
    assert_eq!(x.concentration_issues[0].message(), "Single segment dominance: 90.0% of revenue");
    assert_eq!(
        x.concentration_issues[2].message(),
        "Effective segment count (1.2) is below recommended minimum of 3"
    );
    let low = hhi_and_diversification(&nums(&["1"; 10])).unwrap();
    assert_eq!(low.risk_level, ConcentrationRisk::Low);
}

#[test]
fn hhi_errors() {
    assert_eq!(hhi_and_diversification(&nums(&["5"])).unwrap_err(), CalculationError::TooFewSegments);
    let e = hhi_and_diversification(&nums(&["5", "1", "-2", "-3"])).unwrap_err();
    assert_eq!(e, CalculationError::NegativeSegment { index: 2 });
    assert_eq!(e.message(), "Revenue at index 2 cannot be negative");
    assert_eq!(
        hhi_and_diversification(&nums(&["0", "0"])).unwrap_err(),
        CalculationError::NonPositiveTotal
    );
    let many = vec![num("1"); 1001];
    assert_eq!(hhi_and_diversification(&many).unwrap_err(), CalculationError::TooManySegments);
}

#[test]
fn gini_complements_and_sorting() {
    for case in [vec!["15", "25", "5", "8"], vec!["1", "1"], vec!["0", "0", "7"], vec!["2.345", "1.005", "9"]] {
        let x = gini_coefficient(&nums(&case)).unwrap();
        let sum = x.diversification_thousandths + x.gini_thousandths;
        assert!((999..=1001).contains(&sum));
        let s = &x.sorted_revenues_hundredths;
        assert_eq!(s.len(), case.len());
        assert!(s.windows(2).all(|w| w[0] <= w[1]));
    }
    let x = gini_coefficient(&nums(&["2.345", "1.005", "9"])).unwrap();
    assert_eq!(x.sorted_revenues_hundredths, vec![101, 235, 900]);
}

#[test]
fn gini_exact_values() {
    let x = gini_coefficient(&nums(&["15", "25", "5", "8"])).unwrap();
    // sorted 5, 8, 15, 25: gini = 67 / 212
    assert_eq!(x.gini_coefficient.num * 212, x.gini_coefficient.den * 67);
    assert_eq!(x.gini_thousandths, 316);
    assert_eq!(x.diversification_thousandths, 684);
    assert_eq!(x.concentration_level, GiniLevel::Moderate);
    assert_eq!(x.largest_segment_share_tenths, 472);
    assert_eq!(x.smallest_segment_share_tenths, 94);
    // 1 / (67/212 + 0.0001) = 3.16..
    assert_eq!(x.effective_segments_hundredths, 316);
    let equal = gini_coefficient(&nums(&["4", "4", "4"])).unwrap();
    assert_eq!(equal.gini_thousandths, 0);
    assert_eq!(equal.concentration_level, GiniLevel::Low);
    assert_eq!(equal.effective_segments_hundredths, 300);
}

#[test]
fn gini_errors() {
    assert_eq!(gini_coefficient(&nums(&["1", "-1"])).unwrap_err(), CalculationError::NegativeRevenues);
    assert_eq!(gini_coefficient(&nums(&["0", "0"])).unwrap_err(), CalculationError::ZeroTotalRevenue);
    assert_eq!(gini_coefficient(&vec![]).unwrap_err(), CalculationError::EmptyRevenueList);
}

#[test]
fn leverage_scenario_values() {
    let x = operating_leverage(num("0.09"), num("0.06")).unwrap();
    assert_eq!(x.operating_leverage_hundredths, 150);
    assert_eq!(x.margin_expansion_bps, 300);
    assert_eq!(x.efficiency_rating.label(), "Excellent");
    assert_eq!(x.interpretation(), "Revenue growing 1.5x faster than costs");
    let good = operating_leverage(num("0.13"), num("0.1")).unwrap();
    assert_eq!(good.efficiency_rating.label(), "Good");
    let adequate = operating_leverage(num("0.1"), num("0.1")).unwrap();
    assert_eq!(adequate.efficiency_rating.label(), "Adequate");
    let poor = operating_leverage(num("0.05"), num("0.1")).unwrap();
    assert_eq!(poor.efficiency_rating.label(), "Poor");
    let negative_costs = operating_leverage(num("0.02"), num("-0.04")).unwrap();
    assert_eq!(negative_costs.operating_leverage, ratio(-20000, 40000));
    assert_eq!(negative_costs.margin_expansion_bps, 600);
}

#[test]
fn leverage_zero_cost_growth_regardless_of_revenue() {
    for rg in ["0.09", "0", "-5", "1000000"] {
        let e = operating_leverage(num(rg), num("0")).unwrap_err();
        assert_eq!(e, CalculationError::ZeroCostGrowth);
        assert!(e.message().contains("Cost growth rate cannot be zero"));
    }
}

#[test]
fn organic_growth_scenario_values() {
    let x = organic_growth(num("48.7"), num("53.0")).unwrap();
    assert_eq!(x.absolute_growth_hundredths, 430);
    assert_eq!(x.organic_growth_rate_ten_thousandths, 883);
    assert_eq!(x.growth_rating, GrowthRating::Moderate);
    assert_eq!(x.organic_growth_pct_hundredths, x.annualized_cagr_hundredths);
    assert_eq!(organic_growth(num("100"), num("116")).unwrap().growth_rating, GrowthRating::Exceptional);
    assert_eq!(organic_growth(num("100"), num("111")).unwrap().growth_rating, GrowthRating::Strong);
    assert_eq!(organic_growth(num("100"), num("110")).unwrap().growth_rating, GrowthRating::Moderate);
    assert_eq!(organic_growth(num("100"), num("101")).unwrap().growth_rating, GrowthRating::Weak);
    assert_eq!(organic_growth(num("100"), num("100")).unwrap().growth_rating, GrowthRating::Declining);
    assert_eq!(organic_growth(num("-1"), num("5")).unwrap_err(), CalculationError::NonPositivePrior);
}

#[test]
fn health_score_scenario_values() {
    let x = company_health_score(num("0.09"), num("0.985"), num("0.377"), num("89.0"), num("0.849"))
        .unwrap();
    assert_eq!(x.components.revenue.num, 60 * x.components.revenue.den);
    assert_eq!(x.components.sla.num * 10, 985 * x.components.sla.den);
    assert_eq!(x.components.innovation.num * 10, 377 * x.components.innovation.den);
    assert_eq!(x.components.satisfaction.num, 89 * x.components.satisfaction.den);
    assert_eq!(x.components.pipeline.num * 10, 849 * x.components.pipeline.den);
    // 18 + 24.625 + 7.54 + 13.35 + 8.49 = 72.005
    assert_eq!(x.overall_score.num * 1000, 72005 * x.overall_score.den);
    assert_eq!(x.risk_level, HealthRisk::Medium);
    let capped = company_health_score(num("0.5"), num("1"), num("1"), num("100"), num("3")).unwrap();
    assert_eq!(capped.overall_score.num, 100 * capped.overall_score.den);
    assert_eq!(capped.risk_level, HealthRisk::Low);
    let floor = company_health_score(num("-0.2"), num("0"), num("0"), num("0"), num("0")).unwrap();
    assert_eq!(floor.overall_score.num, 0);
    assert_eq!(floor.risk_level, HealthRisk::Critical);
}

#[test]
fn health_score_errors() {
    let ok = |s: &str| num(s);
    assert_eq!(
        company_health_score(ok("0"), ok("1.01"), ok("0"), ok("0"), ok("0")).unwrap_err(),
        CalculationError::SlaOutOfRange
    );
    assert_eq!(
        company_health_score(ok("0"), ok("1"), ok("-0.1"), ok("0"), ok("0")).unwrap_err(),
        CalculationError::ModernRevenueOutOfRange
    );
    assert_eq!(
        company_health_score(ok("0"), ok("1"), ok("1"), ok("100.5"), ok("0")).unwrap_err(),
        CalculationError::SatisfactionOutOfRange
    );
    assert_eq!(
        company_health_score(ok("0"), ok("1"), ok("1"), ok("100"), ok("-1")).unwrap_err(),
        CalculationError::NegativePipeline
    );
}

#[test]
fn quality_score_rejections() {
    let mismatch = revenue_quality_score(num("15"), num("25"), num("10"), num("60")).unwrap_err();
    assert_eq!(mismatch, CalculationError::CategoriesMismatch);
    assert_eq!(mismatch.message(), "Revenue categories must sum to total revenue");
    let zero = revenue_quality_score(num("0"), num("0"), num("0"), num("0")).unwrap_err();
    assert_eq!(zero, CalculationError::InvalidRevenueAmounts);
    let negative = revenue_quality_score(num("1"), num("1"), num("1"), num("-3")).unwrap_err();
    assert_eq!(negative, CalculationError::InvalidRevenueAmounts);
    // within 1%: 50.4 against 50
    assert!(revenue_quality_score(num("15.4"), num("25"), num("10"), num("50")).is_ok());
}

#[test]
fn quality_score_values() {
    let x = revenue_quality_score(num("15"), num("25"), num("10"), num("50")).unwrap();
    // 0.3 + 0.5 * 0.7 = 0.65
    assert_eq!(x.quality_score.num * 100, 65 * x.quality_score.den);
    assert_eq!(x.grade, QualityGrade::B);
    assert_eq!(x.target_score, ratio(3, 4));
    assert_eq!(x.gap_to_target.num * 10, -x.gap_to_target.den);
    assert_eq!(x.distribution.high_growth.num, 30 * x.distribution.high_growth.den);
    let a = revenue_quality_score(num("40"), num("10"), num("0"), num("50")).unwrap();
    assert_eq!(a.grade, QualityGrade::A);
    let f = revenue_quality_score(num("0"), num("10"), num("40"), num("50")).unwrap();
    assert_eq!(f.grade, QualityGrade::F);
}

#[test]
fn momentum_empty_and_single_segment() {
    assert_eq!(portfolio_momentum(&vec![]).unwrap_err(), CalculationError::EmptySegments);
    let single = vec![(
        "core".to_string(),
        PortfolioSegmentData { revenue: num("12"), growth_rate: num("0.2") },
    )];
    let x = portfolio_momentum(&single).unwrap();
    assert_eq!(x.momentum_rating, MomentumRating::Strong);
    assert_eq!(x.portfolio_momentum_ten_thousandths, 2000);
    assert_eq!(x.top_contributor, "core");
    let zero = vec![
        ("a".to_string(), PortfolioSegmentData { revenue: num("5"), growth_rate: num("0.1") }),
        ("b".to_string(), PortfolioSegmentData { revenue: num("-5"), growth_rate: num("0.1") }),
    ];
    assert_eq!(portfolio_momentum(&zero).unwrap_err(), CalculationError::ZeroTotalRevenue);
}

#[test]
fn momentum_values_and_top_contributor() {
    let segments = vec![
        ("subscription".to_string(), PortfolioSegmentData { revenue: num("15"), growth_rate: num("0.20") }),
        ("enterprise".to_string(), PortfolioSegmentData { revenue: num("25"), growth_rate: num("0.14") }),
        ("upsell".to_string(), PortfolioSegmentData { revenue: num("5"), growth_rate: num("0.19") }),
        ("legacy".to_string(), PortfolioSegmentData { revenue: num("8"), growth_rate: num("-0.20") }),
    ];
    let x = portfolio_momentum(&segments).unwrap();
    // 5.85 / 53 = 0.11037..
    assert_eq!(x.portfolio_momentum_ten_thousandths, 1104);
    assert_eq!(x.portfolio_momentum_pct_hundredths, 1104);
    assert_eq!(x.top_contributor, "enterprise");
    assert_eq!(x.segment_contributions[0].0, "subscription");
    assert_eq!(x.segment_contributions[1].1.revenue_pct_tenths, 472);
    assert_eq!(x.segment_contributions[3].1.growth_rate_pct_tenths, -200);
    assert_eq!(x.segment_contributions[1].1.contribution_to_momentum_hundredths, 660);
    let declining = vec![("x".to_string(), PortfolioSegmentData { revenue: num("3"), growth_rate: num("-0.1") })];
    let d = portfolio_momentum(&declining).unwrap();
    assert_eq!(d.momentum_rating, MomentumRating::Declining);
    assert_eq!(d.top_contributor, "x");
    let shrinking = vec![
        ("worse".to_string(), PortfolioSegmentData { revenue: num("2"), growth_rate: num("-0.10") }),
        ("better".to_string(), PortfolioSegmentData { revenue: num("2"), growth_rate: num("-0.05") }),
        ("also".to_string(), PortfolioSegmentData { revenue: num("2"), growth_rate: num("-0.05") }),
    ];
    let s = portfolio_momentum(&shrinking).unwrap();
    assert_eq!(s.top_contributor, "better");
    assert_eq!(s.momentum_rating, MomentumRating::Declining);
    let tie = vec![
        ("first".to_string(), PortfolioSegmentData { revenue: num("1"), growth_rate: num("0.02") }),
        ("second".to_string(), PortfolioSegmentData { revenue: num("1"), growth_rate: num("0.02") }),
    ];
    let t = portfolio_momentum(&tie).unwrap();
    assert_eq!(t.top_contributor, "first");
    assert_eq!(t.momentum_rating, MomentumRating::Weak);
}

#[test]
fn decorations_do_not_change_values() {
    for (clean, decorated) in [
        ("1234.5", "$1,234.5"),
        ("1234.5", "1,234.5%"),
        ("0.09", "€0.09"),
        ("-7", "-£7¥"),
        ("1e3", "$1e3%"),
        ("53.0", "  $53.0  "),
    ] {
        assert_eq!(parse_number(clean).unwrap(), parse_number(decorated).unwrap());
    }
    assert_eq!(parse_number("$1,234.5").unwrap().units(), 1_234_500_000);
}

#[test]
fn parse_values() {
    assert_eq!(num("0.09").units(), 90_000);
    assert_eq!(num("-.5").units(), -500_000);
    assert_eq!(num("+3.").units(), 3_000_000);
    assert_eq!(num("1.5e-3").units(), 1_500);
    assert_eq!(num("2E2").units(), 200_000_000);
    assert_eq!(num("0.30000000000000004").units(), 300_000);
    assert_eq!(num("0.0000005").units(), 1);
    assert_eq!(num("-0.0000005").units(), -1);
    assert_eq!(num("0.00000049").units(), 0);
    assert_eq!(num("1e-99999999999999").units(), 0);
    assert_eq!(num("0e99999999999999").units(), 0);
    assert_eq!(num("1000000000").units(), MAX_UNITS);
}

#[test]
fn parse_errors() {
    assert_eq!(
        parse_number(&"1".repeat(101)).unwrap_err(),
        "Invalid number: input too long (max 100 characters)"
    );
    assert_eq!(parse_number("1\0").unwrap_err(), "Invalid number: input contains null bytes");
    assert_eq!(
        parse_number("1\u{1}\u{2}\u{3}2").unwrap_err(),
        "Invalid number: input contains too many control characters"
    );
    assert_eq!(parse_number("   ").unwrap_err(), "Empty string cannot be parsed as number");
    assert_eq!(parse_number("12abc").unwrap_err(), "Cannot parse '12abc' as a number");
    assert_eq!(parse_number("$").unwrap_err(), "Cannot parse '$' as a number");
    assert_eq!(parse_number("1e").unwrap_err(), "Cannot parse '1e' as a number");
    assert_eq!(parse_number(".").unwrap_err(), "Cannot parse '.' as a number");
    assert_eq!(parse_number("1e400").unwrap_err(), "Invalid number: '1e400'");
    assert_eq!(parse_number("-InF").unwrap_err(), "Invalid number: '-InF'");
    assert_eq!(parse_number("nan").unwrap_err(), "Invalid number: 'nan'");
    assert_eq!(parse_number("1000000000.000001").unwrap_err(), "Invalid number: '1000000000.000001'");
}

#[test]
fn sanitized_echo_is_safe() {
    let hostile = "\"quote' back\\slash <tag> `tick`\n\ttab\u{7}bell\u{0}nul é";
    let echo = sanitize_for_error_message(hostile);
    assert_eq!(echo, "?quote? back?slash ?tag? ?tick?  tab?bell?nul ?");
    assert!(echo.chars().all(|c| c.is_ascii_graphic() || c == ' '));
    assert!(!echo.contains('\\') && !echo.contains('"') && !echo.contains('\''));
    let long = "x".repeat(60);
    let cut = sanitize_for_error_message(&long);
    assert_eq!(cut, format!("{}...", "x".repeat(47)));
    assert_eq!(sanitize_for_error_message(&"y".repeat(50)), "y".repeat(50));
    let err = parse_number("1<script>").unwrap_err();
    assert_eq!(err, "Cannot parse '1?script?' as a number");
}

#[test]
fn security_validation_messages() {
    assert!(validate_input_security("12.5", "revenue").is_ok());
    assert!(validate_input_security("a\nb\tc", "revenue").is_ok());
    assert_eq!(
        validate_input_security("a\nb\tc\r", "revenue").unwrap_err(),
        "Invalid revenue: input contains too many control characters"
    );
    assert!(validate_input_security(&"é".repeat(100), "x").is_ok());
    assert_eq!(
        validate_input_security(&"é".repeat(101), "x").unwrap_err(),
        "Invalid x: input too long (max 100 characters)"
    );
}

#[test]
fn request_counting() {
    let mut c = RequestCounters::new();
    increment_requests(&mut c);
    increment_requests(&mut c);
    increment_errors(&mut c);
    assert_eq!((c.requests, c.errors), (2, 1));
    let mut full = RequestCounters { requests: u64::MAX, errors: 0 };
    increment_requests(&mut full);
    assert_eq!(full.requests, u64::MAX);

    let engine = FinanceEngine::new();
    let mut counters = RequestCounters::new();
    let good = OrganicGrowthParams { revenue_prior: "10".to_string(), revenue_current: "11".to_string() };
    let bad = OrganicGrowthParams { revenue_prior: "ten".to_string(), revenue_current: "11".to_string() };
    assert!(engine.calculate_organic_growth(&good, &mut counters).is_ok());
    assert_eq!(
        engine.calculate_organic_growth(&bad, &mut counters).unwrap_err(),
        "Invalid revenue_prior: Cannot parse 'ten' as a number"
    );
    assert_eq!((counters.requests, counters.errors), (2, 1));
    let empty = PortfolioMomentumParams { segments: vec![] };
    assert_eq!(
        engine.calculate_portfolio_momentum(&empty, &mut counters).unwrap_err(),
        "Calculation error: Segments cannot be empty"
    );
    assert_eq!((counters.requests, counters.errors), (3, 2));
}
