//! Business health metrics over exact fixed-point numbers.
//!
//! Every figure is held as a whole number of millionths (`Fixed`), every
//! ratio that a metric reports unrounded is an exact fraction (`Ratio`), and
//! every rounded field is an integer count of the unit it is rounded to.
//! Numbers given as text are read by `parse_number`, which accepts
//! separators, currency symbols and a percent sign around standard decimal
//! syntax.
//!
//! Exact arithmetic in 128-bit integers bounds the inputs: a number's
//! magnitude is at most one billion (`MAX_UNITS` millionths), and a list of
//! segments holds at most `concentration::MAX_SEGMENTS` of them. Within those
//! bounds no calculation overflows and every result is exact before the
//! rounding that each field states.

pub mod concentration;
pub mod engine;
pub mod error;
pub mod fixed;
pub mod growth;
pub mod health;
pub mod metrics;
pub mod momentum;
pub mod parse;
pub mod quality;
pub mod text;

pub use concentration::{
    gini_coefficient, hhi_and_diversification, ConcentrationIssue, ConcentrationRisk,
    GiniCoefficientResponse, GiniLevel, HHIResponse,
};
pub use engine::{
    CompanyHealthScoreParams, FinanceEngine, GiniCoefficientParams, HHIParams,
    OperatingLeverageParams, OrganicGrowthParams, RevenueQualityScoreParams,
};
pub use error::CalculationError;
pub use fixed::{Fixed, Ratio, MAX_UNITS, UNITS_PER_ONE};
pub use growth::{
    operating_leverage, organic_growth, EfficiencyRating, GrowthRating, OperatingLeverageResponse,
    OrganicGrowthResponse,
};
pub use health::{company_health_score, CompanyHealthScoreResponse, HealthComponents, HealthRisk};
pub use metrics::{increment_errors, increment_requests, RequestCounters};
pub use momentum::{
    portfolio_momentum, MomentumRating, PortfolioMomentumParams, PortfolioMomentumResponse,
    PortfolioSegmentData, SegmentMomentumContribution,
};
pub use parse::parse_number;
pub use quality::{revenue_quality_score, QualityGrade, RevenueDistribution, RevenueQualityScoreResponse};
pub use text::{sanitize_for_error_message, validate_input_security};
