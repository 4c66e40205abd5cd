use vstd::prelude::*;
use vstd::string::StringExecFns;

use crate::error::CalculationError;
use crate::fixed::{round_div, round_div_exec, Fixed, Ratio, MAX_UNITS};
use crate::text::{fixed_point_text, fixed_text};

verus! {

/// How operating leverage is rated.
#[derive(Clone, Copy, Debug, PartialEq, Eq, Structural)]
pub enum EfficiencyRating {
    Excellent,
    Good,
    Adequate,
    Poor,
}

impl EfficiencyRating {
    pub open spec fn text(self) -> Seq<char> {
        match self {
            EfficiencyRating::Excellent => "Excellent"@,
            EfficiencyRating::Good => "Good"@,
            EfficiencyRating::Adequate => "Adequate"@,
            EfficiencyRating::Poor => "Poor"@,
        }
    }

    pub fn label(&self) -> (r: &'static str)
        ensures
            r@ == self.text(),
    {
        match self {
            EfficiencyRating::Excellent => "Excellent",
            EfficiencyRating::Good => "Good",
            EfficiencyRating::Adequate => "Adequate",
            EfficiencyRating::Poor => "Poor",
        }
    }
}

/// The rating of a leverage of `n / d`, for `d > 0`: from 1.5 Excellent,
/// from 1.2 Good, from 1.0 Adequate, else Poor.
pub open spec fn efficiency_rating(n: int, d: int) -> EfficiencyRating {
    if 2 * n >= 3 * d {
        EfficiencyRating::Excellent
    } else if 5 * n >= 6 * d {
        EfficiencyRating::Good
    } else if n >= d {
        EfficiencyRating::Adequate
    } else {
        EfficiencyRating::Poor
    }
}

/// Revenue growth against cost growth.
#[derive(Clone, Copy, Debug, PartialEq, Eq)]
pub struct OperatingLeverageResponse {
    /// Revenue growth over cost growth, exactly.
    pub operating_leverage: Ratio,
    /// The leverage in hundredths.
    pub operating_leverage_hundredths: i128,
    /// The leverage in tenths.
    pub operating_leverage_tenths: i128,
    /// Revenue growth in tenths of a percent.
    pub revenue_growth_pct_tenths: i128,
    /// Cost growth in tenths of a percent.
    pub cost_growth_pct_tenths: i128,
    /// The margin change in basis points.
    pub margin_expansion_bps: i128,
    pub efficiency_rating: EfficiencyRating,
}

impl OperatingLeverageResponse {
    /// The leverage in words.
    pub fn interpretation(&self) -> (r: String)
        ensures
            r@ == "Revenue growing "@ + fixed_text(self.operating_leverage_tenths as int, 1)
                + "x faster than costs"@,
    {
        let mut m = String::from_str("Revenue growing ");
        m.append(fixed_point_text(self.operating_leverage_tenths, 1).as_str());
        m.append("x faster than costs");
        m
    }
}

/// What `operating_leverage` gives for growth rates of `rg` and `cg`
/// millionths.
pub open spec fn leverage_outcome(rg: int, cg: int) -> Result<
    OperatingLeverageResponse,
    CalculationError,
> {
    let n = if cg < 0 {
        -rg
    } else {
        rg
    };
    let d = if cg < 0 {
        -cg
    } else {
        cg
    };
    if cg == 0 {
        Err(CalculationError::ZeroCostGrowth)
    } else {
        Ok(
            OperatingLeverageResponse {
                operating_leverage: Ratio { num: n as i128, den: d as i128 },
                operating_leverage_hundredths: round_div(100 * n, d) as i128,
                operating_leverage_tenths: round_div(10 * n, d) as i128,
                revenue_growth_pct_tenths: round_div(rg, 1000) as i128,
                cost_growth_pct_tenths: round_div(cg, 1000) as i128,
                margin_expansion_bps: round_div(rg - cg, 100) as i128,
                efficiency_rating: efficiency_rating(n, d),
            },
        )
    }
}

/// Operating leverage: the ratio of revenue growth to cost growth, which must
/// not be zero.
pub fn operating_leverage(revenue_growth_rate: Fixed, cost_growth_rate: Fixed) -> (r: Result<
    OperatingLeverageResponse,
    CalculationError,
>)
    ensures
        r == leverage_outcome(revenue_growth_rate@, cost_growth_rate@),
{
    let rg = revenue_growth_rate.units() as i128;
    let cg = cost_growth_rate.units() as i128;
    if cg == 0 {
        return Err(CalculationError::ZeroCostGrowth);
    }
    let (n, d) = if cg < 0 {
        (-rg, -cg)
    } else {
        (rg, cg)
    };
    let rating = if 2 * n >= 3 * d {
        EfficiencyRating::Excellent
    } else if 5 * n >= 6 * d {
        EfficiencyRating::Good
    } else if n >= d {
        EfficiencyRating::Adequate
    } else {
        EfficiencyRating::Poor
    };
    Ok(OperatingLeverageResponse {
        operating_leverage: Ratio { num: n, den: d },
        operating_leverage_hundredths: round_div_exec(100 * n, d),
        operating_leverage_tenths: round_div_exec(10 * n, d),
        revenue_growth_pct_tenths: round_div_exec(rg, 1000),
        cost_growth_pct_tenths: round_div_exec(cg, 1000),
        margin_expansion_bps: round_div_exec(rg - cg, 100),
        efficiency_rating: rating,
    })
}

/// A cost growth rate of zero is refused, whatever the revenue growth rate,
/// with the message that says so.
pub proof fn lemma_zero_cost_growth_refused(revenue_growth_rate: int)
    ensures
        leverage_outcome(revenue_growth_rate, 0) == Err::<
            OperatingLeverageResponse,
            CalculationError,
        >(CalculationError::ZeroCostGrowth),
        CalculationError::ZeroCostGrowth.text() == "Cost growth rate cannot be zero"@,
{
}

/// How organic growth is rated.
#[derive(Clone, Copy, Debug, PartialEq, Eq, Structural)]
pub enum GrowthRating {
    Exceptional,
    Strong,
    Moderate,
    Weak,
    Declining,
}

impl GrowthRating {
    pub open spec fn text(self) -> Seq<char> {
        match self {
            GrowthRating::Exceptional => "Exceptional"@,
            GrowthRating::Strong => "Strong"@,
            GrowthRating::Moderate => "Moderate"@,
            GrowthRating::Weak => "Weak"@,
            GrowthRating::Declining => "Declining"@,
        }
    }

    pub fn label(&self) -> (r: &'static str)
        ensures
            r@ == self.text(),
    {
        match self {
            GrowthRating::Exceptional => "Exceptional",
            GrowthRating::Strong => "Strong",
            GrowthRating::Moderate => "Moderate",
            GrowthRating::Weak => "Weak",
            GrowthRating::Declining => "Declining",
        }
    }
}

/// The rating of a growth rate of `g / p`, for `p > 0`: above 0.15
/// Exceptional, above 0.10 Strong, above 0.05 Moderate, above zero Weak,
/// else Declining.
pub open spec fn growth_rating(g: int, p: int) -> GrowthRating {
    if 100 * g > 15 * p {
        GrowthRating::Exceptional
    } else if 10 * g > p {
        GrowthRating::Strong
    } else if 20 * g > p {
        GrowthRating::Moderate
    } else if g > 0 {
        GrowthRating::Weak
    } else {
        GrowthRating::Declining
    }
}

/// Growth from one period's revenue to the next.
#[derive(Clone, Copy, Debug, PartialEq, Eq)]
pub struct OrganicGrowthResponse {
    /// The growth rate, exactly.
    pub organic_growth_rate: Ratio,
    /// The growth rate in ten-thousandths.
    pub organic_growth_rate_ten_thousandths: i128,
    /// The growth rate in hundredths of a percent.
    pub organic_growth_pct_hundredths: i128,
    /// The change in revenue, in hundredths.
    pub absolute_growth_hundredths: i128,
    pub revenue_prior_hundredths: i128,
    pub revenue_current_hundredths: i128,
    pub growth_rating: GrowthRating,
    /// Reported as the growth rate itself, in hundredths of a percent.
    pub annualized_cagr_hundredths: i128,
}

/// What `organic_growth` gives for revenues of `p` and `c` millionths.
pub open spec fn organic_outcome(p: int, c: int) -> Result<OrganicGrowthResponse, CalculationError> {
    let g = c - p;
    let k = round_div(10000 * g, p) as i128;
    if p <= 0 {
        Err(CalculationError::NonPositivePrior)
    } else {
        Ok(
            OrganicGrowthResponse {
                organic_growth_rate: Ratio { num: g as i128, den: p as i128 },
                organic_growth_rate_ten_thousandths: k,
                organic_growth_pct_hundredths: k,
                absolute_growth_hundredths: round_div(g, 10000) as i128,
                revenue_prior_hundredths: round_div(p, 10000) as i128,
                revenue_current_hundredths: round_div(c, 10000) as i128,
                growth_rating: growth_rating(g, p),
                annualized_cagr_hundredths: k,
            },
        )
    }
}

/// Organic growth: the change from prior to current revenue over the prior
/// revenue, which must be positive.
pub fn organic_growth(revenue_prior: Fixed, revenue_current: Fixed) -> (r: Result<
    OrganicGrowthResponse,
    CalculationError,
>)
    ensures
        r == organic_outcome(revenue_prior@, revenue_current@),
{
    let p = revenue_prior.units() as i128;
    let c = revenue_current.units() as i128;
    if p <= 0 {
        return Err(CalculationError::NonPositivePrior);
    }
    let g = c - p;
    let rating = if 100 * g > 15 * p {
        GrowthRating::Exceptional
    } else if 10 * g > p {
        GrowthRating::Strong
    } else if 20 * g > p {
        GrowthRating::Moderate
    } else if g > 0 {
        GrowthRating::Weak
    } else {
        GrowthRating::Declining
    };
    let k = round_div_exec(10000 * g, p);
    Ok(OrganicGrowthResponse {
        organic_growth_rate: Ratio { num: g, den: p },
        organic_growth_rate_ten_thousandths: k,
        organic_growth_pct_hundredths: k,
        absolute_growth_hundredths: round_div_exec(g, 10000),
        revenue_prior_hundredths: round_div_exec(p, 10000),
        revenue_current_hundredths: round_div_exec(c, 10000),
        growth_rating: rating,
        annualized_cagr_hundredths: k,
    })
}

} // verus!
