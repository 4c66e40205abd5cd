use vstd::prelude::*;

use crate::error::CalculationError;
use crate::fixed::{Fixed, Ratio, MAX_UNITS};

verus! {

/// The letter grade of revenue quality.
#[derive(Clone, Copy, Debug, PartialEq, Eq, Structural)]
pub enum QualityGrade {
    A,
    B,
    C,
    D,
    F,
}

impl QualityGrade {
    pub open spec fn text(self) -> Seq<char> {
        match self {
            QualityGrade::A => "A"@,
            QualityGrade::B => "B"@,
            QualityGrade::C => "C"@,
            QualityGrade::D => "D"@,
            QualityGrade::F => "F"@,
        }
    }

    pub fn label(&self) -> (r: &'static str)
        ensures
            r@ == self.text(),
    {
        match self {
            QualityGrade::A => "A",
            QualityGrade::B => "B",
            QualityGrade::C => "C",
            QualityGrade::D => "D",
            QualityGrade::F => "F",
        }
    }

    pub open spec fn recommendation_text(self) -> Seq<char> {
        match self {
            QualityGrade::A =>
                "Excellent revenue quality. Continue investing in high-growth segments and maintain momentum."@,
            QualityGrade::B =>
                "Good revenue quality with room for improvement. Focus on accelerating growth in stable segments."@,
            QualityGrade::C =>
                "Moderate revenue quality. Strategic pivot needed to increase high-growth revenue proportion."@,
            QualityGrade::D =>
                "Poor revenue quality. Urgent action required to address declining revenue and stimulate growth."@,
            QualityGrade::F =>
                "Critical revenue quality issues. Immediate restructuring needed to reverse declining trends."@,
        }
    }

    /// The strategic guidance that goes with the grade.
    pub fn recommendation(&self) -> (r: &'static str)
        ensures
            r@ == self.recommendation_text(),
    {
        match self {
            QualityGrade::A =>
                "Excellent revenue quality. Continue investing in high-growth segments and maintain momentum.",
            QualityGrade::B =>
                "Good revenue quality with room for improvement. Focus on accelerating growth in stable segments.",
            QualityGrade::C =>
                "Moderate revenue quality. Strategic pivot needed to increase high-growth revenue proportion.",
            QualityGrade::D =>
                "Poor revenue quality. Urgent action required to address declining revenue and stimulate growth.",
            QualityGrade::F =>
                "Critical revenue quality issues. Immediate restructuring needed to reverse declining trends.",
        }
    }
}

/// The grade of a quality score of `q / (10 * t)`, for `t > 0`: from 0.80 A,
/// from 0.65 B, from 0.50 C, from 0.35 D, else F.
pub open spec fn quality_grade(q: int, t: int) -> QualityGrade {
    if q >= 8 * t {
        QualityGrade::A
    } else if 2 * q >= 13 * t {
        QualityGrade::B
    } else if q >= 5 * t {
        QualityGrade::C
    } else if 2 * q >= 7 * t {
        QualityGrade::D
    } else {
        QualityGrade::F
    }
}

/// Revenue split by growth category, in percent of the total.
#[derive(Clone, Copy, Debug, PartialEq, Eq)]
pub struct RevenueDistribution {
    pub high_growth: Ratio,
    pub stable: Ratio,
    pub declining: Ratio,
}

/// The quality of revenue, judged by how much of it grows.
#[derive(Clone, Copy, Debug, PartialEq, Eq)]
pub struct RevenueQualityScoreResponse {
    /// From 0 to 1: high-growth revenue counts fully, stable revenue at 0.7,
    /// declining revenue not at all.
    pub quality_score: Ratio,
    pub distribution: RevenueDistribution,
    pub grade: QualityGrade,
    /// The benchmark score, 0.75.
    pub target_score: Ratio,
    /// The score less the benchmark.
    pub gap_to_target: Ratio,
}

/// What `revenue_quality_score` gives for buckets of `h`, `s` and `d`
/// millionths and a total of `t`.
pub open spec fn quality_outcome(h: int, s: int, d: int, t: int) -> Result<
    RevenueQualityScoreResponse,
    CalculationError,
> {
    let diff = h + s + d - t;
    if !(h >= 0 && s >= 0 && d >= 0 && t > 0) {
        Err(CalculationError::InvalidRevenueAmounts)
    } else if !(-t <= 100 * diff <= t) {
        Err(CalculationError::CategoriesMismatch)
    } else {
        Ok(
            RevenueQualityScoreResponse {
                quality_score: Ratio { num: (10 * h + 7 * s) as i128, den: (10 * t) as i128 },
                distribution: RevenueDistribution {
                    high_growth: Ratio { num: (100 * h) as i128, den: t as i128 },
                    stable: Ratio { num: (100 * s) as i128, den: t as i128 },
                    declining: Ratio { num: (100 * d) as i128, den: t as i128 },
                },
                grade: quality_grade(10 * h + 7 * s, t),
                target_score: Ratio { num: 3, den: 4 },
                gap_to_target: Ratio {
                    num: (20 * h + 14 * s - 15 * t) as i128,
                    den: (20 * t) as i128,
                },
            },
        )
    }
}

/// The revenue quality score of three revenue buckets that make up a
/// positive total, within 1%.
pub fn revenue_quality_score(
    high_growth_revenue: Fixed,
    stable_revenue: Fixed,
    declining_revenue: Fixed,
    total_revenue: Fixed,
) -> (r: Result<RevenueQualityScoreResponse, CalculationError>)
    ensures
        r == quality_outcome(
            high_growth_revenue@,
            stable_revenue@,
            declining_revenue@,
            total_revenue@,
        ),
{
    let h = high_growth_revenue.units() as i128;
    let s = stable_revenue.units() as i128;
    let d = declining_revenue.units() as i128;
    let t = total_revenue.units() as i128;
    if h < 0 || s < 0 || d < 0 || t <= 0 {
        return Err(CalculationError::InvalidRevenueAmounts);
    }
    let diff = h + s + d - t;
    if 100 * diff > t || 100 * diff < -t {
        return Err(CalculationError::CategoriesMismatch);
    }
    let q = 10 * h + 7 * s;
    let grade = if q >= 8 * t {
        QualityGrade::A
    } else if 2 * q >= 13 * t {
        QualityGrade::B
    } else if q >= 5 * t {
        QualityGrade::C
    } else if 2 * q >= 7 * t {
        QualityGrade::D
    } else {
        QualityGrade::F
    };
    Ok(RevenueQualityScoreResponse {
        quality_score: Ratio { num: q, den: 10 * t },
        distribution: RevenueDistribution {
            high_growth: Ratio { num: 100 * h, den: t },
            stable: Ratio { num: 100 * s, den: t },
            declining: Ratio { num: 100 * d, den: t },
        },
        grade,
        target_score: Ratio { num: 3, den: 4 },
        gap_to_target: Ratio { num: 20 * h + 14 * s - 15 * t, den: 20 * t },
    })
}

/// Revenue buckets are refused when the total is not positive, and when
/// they miss a positive total by more than 1% of it.
pub proof fn lemma_quality_refusals(h: int, s: int, d: int, t: int)
    ensures
        t <= 0 ==> quality_outcome(h, s, d, t) is Err,
        t > 0 && (100 * (h + s + d - t) > t || 100 * (h + s + d - t) < -t) ==> quality_outcome(
            h,
            s,
            d,
            t,
        ) is Err,
{
}

} // verus!
