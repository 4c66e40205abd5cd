use finance_engine::{
    parse_number, CompanyHealthScoreParams, FinanceEngine, Fixed, GiniCoefficientParams,
    HHIParams, OperatingLeverageParams, OrganicGrowthParams, PortfolioMomentumParams,
    PortfolioSegmentData, Ratio, RequestCounters, RevenueQualityScoreParams,
};

fn value(r: Ratio) -> f64 {
    r.num as f64 / r.den as f64
}

fn number(x: f64) -> Fixed {
    parse_number(&x.to_string()).unwrap()
}

fn segment(revenue: f64, growth_rate: f64) -> PortfolioSegmentData {
    PortfolioSegmentData { revenue: number(revenue), growth_rate: number(growth_rate) }
}

#[test]
fn test_calculate_company_health_score() {
    let engine = FinanceEngine::new();
    let mut counters = RequestCounters::new();
    let params = CompanyHealthScoreParams {
        revenue_growth: "0.09".to_string(),
        sla_compliance: "0.985".to_string(),
        modern_revenue_pct: "0.377".to_string(),
        customer_satisfaction: "89.0".to_string(),
        pipeline_coverage: "0.849".to_string(),
    };
    let response = engine.calculate_company_health_score(&params, &mut counters).unwrap();
    let overall = value(response.overall_score);
    assert!(overall > 70.0 && overall < 74.0);
    assert!(overall <= 100.0);
    assert_eq!(response.risk_level.label(), "MEDIUM");
    assert!((value(response.components.revenue) - 60.0).abs() < 0.1);
    assert!((value(response.components.sla) - 98.5).abs() < 0.1);
    assert!((value(response.components.innovation) - 37.7).abs() < 0.1);
    assert!((value(response.components.satisfaction) - 89.0).abs() < 0.1);
    assert!((value(response.components.pipeline) - 84.9).abs() < 0.1);
    assert!((value(response.weighted_contributions.revenue) - 18.0).abs() < 0.1);
    assert!((value(response.weighted_contributions.sla) - 24.625).abs() < 0.1);
    assert!((value(response.weighted_contributions.innovation) - 7.54).abs() < 0.1);
    assert!((value(response.weighted_contributions.satisfaction) - 13.35).abs() < 0.1);
    assert!((value(response.weighted_contributions.pipeline) - 8.49).abs() < 0.1);
}

#[test]
fn test_calculate_revenue_quality_score() {
    let engine = FinanceEngine::new();
    let mut counters = RequestCounters::new();
    let params = RevenueQualityScoreParams {
        high_growth_revenue: "15.0".to_string(),
        stable_revenue: "25.0".to_string(),
        declining_revenue: "10.0".to_string(),
        total_revenue: "50.0".to_string(),
    };
    let response = engine.calculate_revenue_quality_score(&params, &mut counters).unwrap();
    let score = value(response.quality_score);
    assert!(score >= 0.0 && score <= 1.0);
    assert!(!response.grade.label().is_empty());
}

#[test]
fn test_calculate_hhi_and_diversification() {
    let engine = FinanceEngine::new();
    let mut counters = RequestCounters::new();
    let params = HHIParams { revenues: vec![number(15.0), number(25.0), number(5.0), number(8.0)] };
    let response = engine.calculate_hhi_and_diversification(&params, &mut counters).unwrap();
    let hhi = value(response.hhi);
    assert!(hhi >= 0.0 && hhi <= 1.0);
    assert!(value(response.effective_n) >= 1.0);
}

#[test]
fn test_calculate_operating_leverage() {
    let engine = FinanceEngine::new();
    let mut counters = RequestCounters::new();
    let params = OperatingLeverageParams {
        revenue_growth_rate: "0.09".to_string(),
        cost_growth_rate: "0.06".to_string(),
    };
    let response = engine.calculate_operating_leverage(&params, &mut counters).unwrap();
    assert_eq!(response.operating_leverage_hundredths as f64 / 100.0, 1.5);
    assert_eq!(response.revenue_growth_pct_tenths as f64 / 10.0, 9.0);
    assert_eq!(response.cost_growth_pct_tenths as f64 / 10.0, 6.0);
    assert_eq!(response.margin_expansion_bps as f64, 300.0);
    assert_eq!(response.efficiency_rating.label(), "Excellent");
    assert!(!response.interpretation().is_empty());
}

#[test]
fn test_calculate_operating_leverage_zero_cost_growth() {
    let engine = FinanceEngine::new();
    let mut counters = RequestCounters::new();
    let params = OperatingLeverageParams {
        revenue_growth_rate: "0.09".to_string(),
        cost_growth_rate: "0.0".to_string(),
    };
    let err = engine.calculate_operating_leverage(&params, &mut counters).unwrap_err();
    assert!(err.contains("Cost growth rate cannot be zero"));
}

#[test]
fn test_calculate_portfolio_momentum() {
    let engine = FinanceEngine::new();
    let mut counters = RequestCounters::new();
    let segments = vec![
        ("subscription".to_string(), segment(15.0, 0.20)),
        ("enterprise".to_string(), segment(25.0, 0.14)),
        ("upsell".to_string(), segment(5.0, 0.19)),
        ("legacy".to_string(), segment(8.0, -0.20)),
    ];
    let params = PortfolioMomentumParams { segments };
    let response = engine.calculate_portfolio_momentum(&params, &mut counters).unwrap();
    assert!(value(response.portfolio_momentum) > 0.0);
    assert_eq!(response.total_revenue_hundredths as f64 / 100.0, 53.0);
    assert_eq!(response.momentum_rating.label(), "Strong");
    assert!(!response.top_contributor.is_empty());
    assert_eq!(response.segment_contributions.len(), 4);
}

#[test]
fn test_calculate_gini_coefficient() {
    let engine = FinanceEngine::new();
    let mut counters = RequestCounters::new();
    let params = GiniCoefficientParams {
        revenues: vec![number(15.0), number(25.0), number(5.0), number(8.0)],
    };
    let response = engine.calculate_gini_coefficient(&params, &mut counters).unwrap();
    let gini = response.gini_thousandths as f64 / 1000.0;
    let diversification = response.diversification_thousandths as f64 / 1000.0;
    assert!(gini >= 0.0);
    assert!(gini <= 1.0);
    assert!((diversification - (1.0 - gini)).abs() < 0.001);
    assert!(response.largest_segment_share_tenths > response.smallest_segment_share_tenths);
    assert_eq!(response.sorted_revenues_hundredths.len(), 4);
    assert!(response.sorted_revenues_hundredths[0] <= response.sorted_revenues_hundredths[3]);
}

#[test]
fn test_calculate_gini_coefficient_empty_list() {
    let engine = FinanceEngine::new();
    let mut counters = RequestCounters::new();
    let params = GiniCoefficientParams { revenues: vec![] };
    let err = engine.calculate_gini_coefficient(&params, &mut counters).unwrap_err();
    assert!(err.contains("Revenue list cannot be empty"));
}

#[test]
fn test_calculate_organic_growth() {
    let engine = FinanceEngine::new();
    let mut counters = RequestCounters::new();
    let params = OrganicGrowthParams {
        revenue_prior: "48.7".to_string(),
        revenue_current: "53.0".to_string(),
    };
    let response = engine.calculate_organic_growth(&params, &mut counters).unwrap();
    assert!(response.organic_growth_rate_ten_thousandths > 0);
    assert_eq!(response.revenue_prior_hundredths as f64 / 100.0, 48.7);
    assert_eq!(response.revenue_current_hundredths as f64 / 100.0, 53.0);
    assert_eq!(response.absolute_growth_hundredths as f64 / 100.0, 4.3);
    assert_eq!(response.growth_rating.label(), "Moderate");
    assert_eq!(response.organic_growth_pct_hundredths, response.annualized_cagr_hundredths);
}

#[test]
fn test_calculate_organic_growth_negative_prior() {
    let engine = FinanceEngine::new();
    let mut counters = RequestCounters::new();
    let params = OrganicGrowthParams {
        revenue_prior: "0".to_string(),
        revenue_current: "53.0".to_string(),
    };
    let err = engine.calculate_organic_growth(&params, &mut counters).unwrap_err();
    assert!(err.contains("Prior period revenue must be positive"));
}

#[test]
fn test_calculate_organic_growth_declining() {
    let engine = FinanceEngine::new();
    let mut counters = RequestCounters::new();
    let params = OrganicGrowthParams {
        revenue_prior: "53.0".to_string(),
        revenue_current: "48.0".to_string(),
    };
    let response = engine.calculate_organic_growth(&params, &mut counters).unwrap();
    assert!(response.organic_growth_rate_ten_thousandths < 0);
    assert_eq!(response.growth_rating.label(), "Declining");
}
