use vstd::prelude::*;

use crate::error::CalculationError;
use crate::fixed::{Fixed, Ratio, MAX_UNITS};

verus! {

/// The common denominator of the health sub-scores: a score of `k / 3_000_000`.
pub const COMPONENT_DEN: i128 = 3_000_000;

/// The common denominator of the weighted contributions and the overall score.
pub const WEIGHTED_DEN: i128 = 60_000_000;

/// How the overall health score is classed.
#[derive(Clone, Copy, Debug, PartialEq, Eq, Structural)]
pub enum HealthRisk {
    Low,
    Medium,
    High,
    Critical,
}

impl HealthRisk {
    pub open spec fn text(self) -> Seq<char> {
        match self {
            HealthRisk::Low => "LOW"@,
            HealthRisk::Medium => "MEDIUM"@,
            HealthRisk::High => "HIGH"@,
            HealthRisk::Critical => "CRITICAL"@,
        }
    }

    pub fn label(&self) -> (r: &'static str)
        ensures
            r@ == self.text(),
    {
        match self {
            HealthRisk::Low => "LOW",
            HealthRisk::Medium => "MEDIUM",
            HealthRisk::High => "HIGH",
            HealthRisk::Critical => "CRITICAL",
        }
    }

    pub open spec fn interpretation_text(self) -> Seq<char> {
        match self {
            HealthRisk::Low => "Company health is excellent across all dimensions."@,
            HealthRisk::Medium =>
                "Company health is good but some areas need attention for optimal performance."@,
            HealthRisk::High =>
                "Company faces significant challenges in multiple areas requiring strategic intervention."@,
            HealthRisk::Critical =>
                "Company health is critical with severe issues across key performance indicators."@,
        }
    }

    /// A sentence that explains the class.
    pub fn interpretation(&self) -> (r: &'static str)
        ensures
            r@ == self.interpretation_text(),
    {
        match self {
            HealthRisk::Low => "Company health is excellent across all dimensions.",
            HealthRisk::Medium =>
                "Company health is good but some areas need attention for optimal performance.",
            HealthRisk::High =>
                "Company faces significant challenges in multiple areas requiring strategic intervention.",
            HealthRisk::Critical =>
                "Company health is critical with severe issues across key performance indicators.",
        }
    }
}

/// One figure for each of the five dimensions of health.
#[derive(Clone, Copy, Debug, PartialEq, Eq)]
pub struct HealthComponents {
    pub revenue: Ratio,
    pub sla: Ratio,
    pub innovation: Ratio,
    pub satisfaction: Ratio,
    pub pipeline: Ratio,
}

/// The composite health score and how it was made.
#[derive(Clone, Copy, Debug, PartialEq, Eq)]
pub struct CompanyHealthScoreResponse {
    /// The weighted sum of the sub-scores, from 0 to 100.
    pub overall_score: Ratio,
    /// Each sub-score on a scale of 0 to 100.
    pub components: HealthComponents,
    /// What each sub-score adds to the overall score.
    pub weighted_contributions: HealthComponents,
    pub risk_level: HealthRisk,
}

// Sub-scores as numerators over COMPONENT_DEN, from inputs in millionths.
/// Revenue growth of 15% or more scores 100, no growth or less scores 0.
pub open spec fn revenue_points(g: int) -> int {
    if g <= 0 {
        0
    } else if g >= 150_000 {
        300_000_000
    } else {
        2000 * g
    }
}

/// Pipeline coverage of 100% or more scores 100.
pub open spec fn pipeline_points(p: int) -> int {
    if 300 * p >= 300_000_000 {
        300_000_000
    } else {
        300 * p
    }
}

/// The weighted sum of the sub-scores, over WEIGHTED_DEN: weights 0.30,
/// 0.25, 0.20, 0.15 and 0.10.
pub open spec fn overall_points(g: int, sla: int, modern: int, sat: int, pipe: int) -> int {
    6 * revenue_points(g) + 5 * (300 * sla) + 4 * (300 * modern) + 3 * (3 * sat) + 2
        * pipeline_points(pipe)
}

/// The class of an overall score of `s / WEIGHTED_DEN`: from 80 LOW, from 65
/// MEDIUM, from 50 HIGH, else CRITICAL.
pub open spec fn health_risk(s: int) -> HealthRisk {
    if s >= 80 * WEIGHTED_DEN {
        HealthRisk::Low
    } else if s >= 65 * WEIGHTED_DEN {
        HealthRisk::Medium
    } else if s >= 50 * WEIGHTED_DEN {
        HealthRisk::High
    } else {
        HealthRisk::Critical
    }
}

pub open spec fn component(n: int) -> Ratio {
    Ratio { num: n as i128, den: COMPONENT_DEN }
}

pub open spec fn weighted(n: int) -> Ratio {
    Ratio { num: n as i128, den: WEIGHTED_DEN }
}

/// What `company_health_score` gives for inputs of `g`, `sla`, `md`, `sat`
/// and `pipe` millionths.
pub open spec fn health_outcome(g: int, sla: int, md: int, sat: int, pipe: int) -> Result<
    CompanyHealthScoreResponse,
    CalculationError,
> {
    if !(0 <= sla <= 1_000_000) {
        Err(CalculationError::SlaOutOfRange)
    } else if !(0 <= md <= 1_000_000) {
        Err(CalculationError::ModernRevenueOutOfRange)
    } else if !(0 <= sat <= 100_000_000) {
        Err(CalculationError::SatisfactionOutOfRange)
    } else if pipe < 0 {
        Err(CalculationError::NegativePipeline)
    } else {
        Ok(
            CompanyHealthScoreResponse {
                overall_score: weighted(overall_points(g, sla, md, sat, pipe)),
                components: HealthComponents {
                    revenue: component(revenue_points(g)),
                    sla: component(300 * sla),
                    innovation: component(300 * md),
                    satisfaction: component(3 * sat),
                    pipeline: component(pipeline_points(pipe)),
                },
                weighted_contributions: HealthComponents {
                    revenue: weighted(6 * revenue_points(g)),
                    sla: weighted(5 * (300 * sla)),
                    innovation: weighted(4 * (300 * md)),
                    satisfaction: weighted(3 * (3 * sat)),
                    pipeline: weighted(2 * pipeline_points(pipe)),
                },
                risk_level: health_risk(overall_points(g, sla, md, sat, pipe)),
            },
        )
    }
}

/// The company health score: five dimensions on a 0-100 scale, weighted
/// and summed, then classed by risk.
pub fn company_health_score(
    revenue_growth: Fixed,
    sla_compliance: Fixed,
    modern_revenue_pct: Fixed,
    customer_satisfaction: Fixed,
    pipeline_coverage: Fixed,
) -> (r: Result<CompanyHealthScoreResponse, CalculationError>)
    ensures
        r == health_outcome(
            revenue_growth@,
            sla_compliance@,
            modern_revenue_pct@,
            customer_satisfaction@,
            pipeline_coverage@,
        ),
{
    let g = revenue_growth.units() as i128;
    let sla = sla_compliance.units() as i128;
    let md = modern_revenue_pct.units() as i128;
    let sat = customer_satisfaction.units() as i128;
    let pipe = pipeline_coverage.units() as i128;
    if sla < 0 || sla > 1_000_000 {
        return Err(CalculationError::SlaOutOfRange);
    }
    if md < 0 || md > 1_000_000 {
        return Err(CalculationError::ModernRevenueOutOfRange);
    }
    if sat < 0 || sat > 100_000_000 {
        return Err(CalculationError::SatisfactionOutOfRange);
    }
    if pipe < 0 {
        return Err(CalculationError::NegativePipeline);
    }
    let rev_pts: i128 = if g <= 0 {
        0
    } else if g >= 150_000 {
        300_000_000
    } else {
        2000 * g
    };
    let pipe_pts: i128 = if 300 * pipe >= 300_000_000 {
        300_000_000
    } else {
        300 * pipe
    };
    let components = HealthComponents {
        revenue: Ratio { num: rev_pts, den: COMPONENT_DEN },
        sla: Ratio { num: 300 * sla, den: COMPONENT_DEN },
        innovation: Ratio { num: 300 * md, den: COMPONENT_DEN },
        satisfaction: Ratio { num: 3 * sat, den: COMPONENT_DEN },
        pipeline: Ratio { num: pipe_pts, den: COMPONENT_DEN },
    };
    let w_rev = 6 * rev_pts;
    let w_sla = 5 * (300 * sla);
    let w_inn = 4 * (300 * md);
    let w_sat = 3 * (3 * sat);
    let w_pipe = 2 * pipe_pts;
    let total = w_rev + w_sla + w_inn + w_sat + w_pipe;
    let risk = if total >= 80 * WEIGHTED_DEN {
        HealthRisk::Low
    } else if total >= 65 * WEIGHTED_DEN {
        HealthRisk::Medium
    } else if total >= 50 * WEIGHTED_DEN {
        HealthRisk::High
    } else {
        HealthRisk::Critical
    };
    Ok(CompanyHealthScoreResponse {
        overall_score: Ratio { num: total, den: WEIGHTED_DEN },
        components,
        weighted_contributions: HealthComponents {
            revenue: Ratio { num: w_rev, den: WEIGHTED_DEN },
            sla: Ratio { num: w_sla, den: WEIGHTED_DEN },
            innovation: Ratio { num: w_inn, den: WEIGHTED_DEN },
            satisfaction: Ratio { num: w_sat, den: WEIGHTED_DEN },
            pipeline: Ratio { num: w_pipe, den: WEIGHTED_DEN },
        },
        risk_level: risk,
    })
}

} // verus!
