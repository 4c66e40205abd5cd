use vstd::prelude::*;
use vstd::string::StringExecFns;

use crate::concentration::{
    gini_coefficient, gini_error, gini_matches, hhi_and_diversification, hhi_error, hhi_matches,
    units_of, GiniCoefficientResponse, HHIResponse,
};
use crate::error::CalculationError;
use crate::fixed::Fixed;
use crate::growth::{
    leverage_outcome, operating_leverage, organic_growth, organic_outcome,
    OperatingLeverageResponse, OrganicGrowthResponse,
};
use crate::health::{company_health_score, health_outcome, CompanyHealthScoreResponse};
use crate::metrics::{bumped, increment_errors, increment_requests, RequestCounters};
use crate::momentum::{
    distinct_names, momentum_error, momentum_matches, portfolio_momentum, PortfolioMomentumParams,
    PortfolioMomentumResponse,
};
use crate::parse::{number_outcome, parse_number};
use crate::quality::{quality_outcome, revenue_quality_score, RevenueQualityScoreResponse};

verus! {

/// Inputs of the company health score, each a flexible numeric text.
#[derive(Debug, PartialEq, Eq)]
pub struct CompanyHealthScoreParams {
    /// Year-over-year revenue growth as a fraction.
    pub revenue_growth: String,
    /// Service level compliance as a fraction.
    pub sla_compliance: String,
    /// Share of revenue from recurring streams, as a fraction.
    pub modern_revenue_pct: String,
    /// Customer satisfaction from 0 to 100.
    pub customer_satisfaction: String,
    /// Sales pipeline over annual revenue.
    pub pipeline_coverage: String,
}

/// Inputs of the revenue quality score, each a flexible numeric text.
#[derive(Debug, PartialEq, Eq)]
pub struct RevenueQualityScoreParams {
    pub high_growth_revenue: String,
    pub stable_revenue: String,
    pub declining_revenue: String,
    pub total_revenue: String,
}

/// Segment revenues for the Herfindahl-Hirschman index.
#[derive(Debug, PartialEq, Eq)]
pub struct HHIParams {
    pub revenues: Vec<Fixed>,
}

/// Inputs of operating leverage, each a flexible numeric text.
#[derive(Debug, PartialEq, Eq)]
pub struct OperatingLeverageParams {
    pub revenue_growth_rate: String,
    pub cost_growth_rate: String,
}

/// Segment revenues for the Gini coefficient, in any order.
#[derive(Debug, PartialEq, Eq)]
pub struct GiniCoefficientParams {
    pub revenues: Vec<Fixed>,
}

/// Inputs of organic growth, each a flexible numeric text.
#[derive(Debug, PartialEq, Eq)]
pub struct OrganicGrowthParams {
    pub revenue_prior: String,
    pub revenue_current: String,
}

/// The value of a numeric text that reads.
pub open spec fn value_of(s: Seq<char>) -> int {
    number_outcome(s)->Ok_0
}

/// The message for a field whose text does not read.
pub open spec fn field_message(field: Seq<char>, s: Seq<char>) -> Seq<char> {
    "Invalid "@ + field + ": "@ + number_outcome(s)->Err_0
}

/// The message for inputs that a calculation refuses.
pub open spec fn calculation_message(e: CalculationError) -> Seq<char> {
    "Calculation error: "@ + e.text()
}

/// Turns a calculation's outcome into a request's outcome.
pub open spec fn request_outcome<T>(r: Result<T, CalculationError>) -> Result<T, Seq<char>> {
    match r {
        Ok(x) => Ok(x),
        Err(e) => Err(calculation_message(e)),
    }
}

pub open spec fn health_request(p: CompanyHealthScoreParams) -> Result<
    CompanyHealthScoreResponse,
    Seq<char>,
> {
    if number_outcome(p.revenue_growth@) is Err {
        Err(field_message("revenue_growth"@, p.revenue_growth@))
    } else if number_outcome(p.sla_compliance@) is Err {
        Err(field_message("sla_compliance"@, p.sla_compliance@))
    } else if number_outcome(p.modern_revenue_pct@) is Err {
        Err(field_message("modern_revenue_pct"@, p.modern_revenue_pct@))
    } else if number_outcome(p.customer_satisfaction@) is Err {
        Err(field_message("customer_satisfaction"@, p.customer_satisfaction@))
    } else if number_outcome(p.pipeline_coverage@) is Err {
        Err(field_message("pipeline_coverage"@, p.pipeline_coverage@))
    } else {
        request_outcome(
            health_outcome(
                value_of(p.revenue_growth@),
                value_of(p.sla_compliance@),
                value_of(p.modern_revenue_pct@),
                value_of(p.customer_satisfaction@),
                value_of(p.pipeline_coverage@),
            ),
        )
    }
}

pub open spec fn quality_request(p: RevenueQualityScoreParams) -> Result<
    RevenueQualityScoreResponse,
    Seq<char>,
> {
    if number_outcome(p.high_growth_revenue@) is Err {
        Err(field_message("high_growth_revenue"@, p.high_growth_revenue@))
    } else if number_outcome(p.stable_revenue@) is Err {
        Err(field_message("stable_revenue"@, p.stable_revenue@))
    } else if number_outcome(p.declining_revenue@) is Err {
        Err(field_message("declining_revenue"@, p.declining_revenue@))
    } else if number_outcome(p.total_revenue@) is Err {
        Err(field_message("total_revenue"@, p.total_revenue@))
    } else {
        request_outcome(
            quality_outcome(
                value_of(p.high_growth_revenue@),
                value_of(p.stable_revenue@),
                value_of(p.declining_revenue@),
                value_of(p.total_revenue@),
            ),
        )
    }
}

pub open spec fn leverage_request(p: OperatingLeverageParams) -> Result<
    OperatingLeverageResponse,
    Seq<char>,
> {
    if number_outcome(p.revenue_growth_rate@) is Err {
        Err(field_message("revenue_growth_rate"@, p.revenue_growth_rate@))
    } else if number_outcome(p.cost_growth_rate@) is Err {
        Err(field_message("cost_growth_rate"@, p.cost_growth_rate@))
    } else {
        request_outcome(
            leverage_outcome(value_of(p.revenue_growth_rate@), value_of(p.cost_growth_rate@)),
        )
    }
}

pub open spec fn organic_request(p: OrganicGrowthParams) -> Result<
    OrganicGrowthResponse,
    Seq<char>,
> {
    if number_outcome(p.revenue_prior@) is Err {
        Err(field_message("revenue_prior"@, p.revenue_prior@))
    } else if number_outcome(p.revenue_current@) is Err {
        Err(field_message("revenue_current"@, p.revenue_current@))
    } else {
        request_outcome(organic_outcome(value_of(p.revenue_prior@), value_of(p.revenue_current@)))
    }
}

/// Whether the counters went from `before` to `after` for one request that
/// failed or not.
pub open spec fn counted(before: RequestCounters, after: RequestCounters, failed: bool) -> bool {
    &&& after.requests == bumped(before.requests)
    &&& after.errors == if failed {
        bumped(before.errors)
    } else {
        before.errors
    }
}

/// Reads the text of the field named `field`.
fn read_field(text: &String, field: &str) -> (r: Result<Fixed, String>)
    ensures
        r is Ok <==> number_outcome(text@) is Ok,
        r matches Ok(f) ==> f@ == value_of(text@),
        r matches Err(m) ==> m@ == field_message(field@, text@),
{
    match parse_number(text.as_str()) {
        Ok(f) => Ok(f),
        Err(e) => {
            let mut m = String::from_str("Invalid ");
            m.append(field);
            m.append(": ");
            m.append(e.as_str());
            Err(m)
        },
    }
}

fn calculation_error(e: CalculationError) -> (m: String)
    ensures
        m@ == calculation_message(e),
{
    let mut m = String::from_str("Calculation error: ");
    m.append(e.message().as_str());
    m
}

/// The calculation engine: each operation reads its inputs, computes, and
/// counts the request and any failure.
#[derive(Clone, Copy, Debug)]
pub struct FinanceEngine {}

impl FinanceEngine {
    pub fn new() -> (r: FinanceEngine) {
        FinanceEngine {  }
    }

    /// The company health score of the given inputs.
    pub fn calculate_company_health_score(
        &self,
        params: &CompanyHealthScoreParams,
        counters: &mut RequestCounters,
    ) -> (r: Result<CompanyHealthScoreResponse, String>)
        ensures
            r is Ok <==> health_request(*params) is Ok,
            r matches Ok(x) ==> health_request(*params) == Ok::<
                CompanyHealthScoreResponse,
                Seq<char>,
            >(x),
            r matches Err(m) ==> health_request(*params) == Err::<
                CompanyHealthScoreResponse,
                Seq<char>,
            >(m@),
            counted(*old(counters), *final(counters), r is Err),
    {
        increment_requests(counters);
        let r = self.health_score_uncounted(params);
        if r.is_err() {
            increment_errors(counters);
        }
        r
    }

    fn health_score_uncounted(&self, params: &CompanyHealthScoreParams) -> (r: Result<
        CompanyHealthScoreResponse,
        String,
    >)
        ensures
            r is Ok <==> health_request(*params) is Ok,
            r matches Ok(x) ==> health_request(*params) == Ok::<
                CompanyHealthScoreResponse,
                Seq<char>,
            >(x),
            r matches Err(m) ==> health_request(*params) == Err::<
                CompanyHealthScoreResponse,
                Seq<char>,
            >(m@),
    {
        let g = read_field(&params.revenue_growth, "revenue_growth")?;
        let sla = read_field(&params.sla_compliance, "sla_compliance")?;
        let md = read_field(&params.modern_revenue_pct, "modern_revenue_pct")?;
        let sat = read_field(&params.customer_satisfaction, "customer_satisfaction")?;
        let pipe = read_field(&params.pipeline_coverage, "pipeline_coverage")?;
        match company_health_score(g, sla, md, sat, pipe) {
            Ok(x) => Ok(x),
            Err(e) => Err(calculation_error(e)),
        }
    }
    /// The revenue quality score of the given buckets.
    pub fn calculate_revenue_quality_score(
        &self,
        params: &RevenueQualityScoreParams,
        counters: &mut RequestCounters,
    ) -> (r: Result<RevenueQualityScoreResponse, String>)
        ensures
            r is Ok <==> quality_request(*params) is Ok,
            r matches Ok(x) ==> quality_request(*params) == Ok::<
                RevenueQualityScoreResponse,
                Seq<char>,
            >(x),
            r matches Err(m) ==> quality_request(*params) == Err::<
                RevenueQualityScoreResponse,
                Seq<char>,
            >(m@),
            counted(*old(counters), *final(counters), r is Err),
    {
        increment_requests(counters);
        let r = self.quality_score_uncounted(params);
        if r.is_err() {
            increment_errors(counters);
        }
        r
    }

    fn quality_score_uncounted(&self, params: &RevenueQualityScoreParams) -> (r: Result<
        RevenueQualityScoreResponse,
        String,
    >)
        ensures
            r is Ok <==> quality_request(*params) is Ok,
            r matches Ok(x) ==> quality_request(*params) == Ok::<
                RevenueQualityScoreResponse,
                Seq<char>,
            >(x),
            r matches Err(m) ==> quality_request(*params) == Err::<
                RevenueQualityScoreResponse,
                Seq<char>,
            >(m@),
    {
        let h = read_field(&params.high_growth_revenue, "high_growth_revenue")?;
        let s = read_field(&params.stable_revenue, "stable_revenue")?;
        let d = read_field(&params.declining_revenue, "declining_revenue")?;
        let t = read_field(&params.total_revenue, "total_revenue")?;
        match revenue_quality_score(h, s, d, t) {
            Ok(x) => Ok(x),
            Err(e) => Err(calculation_error(e)),
        }
    }

    /// The Herfindahl-Hirschman index of the given segment revenues.
    pub fn calculate_hhi_and_diversification(
        &self,
        params: &HHIParams,
        counters: &mut RequestCounters,
    ) -> (r: Result<HHIResponse, String>)
        ensures
            r is Err <==> hhi_error(units_of(params.revenues@)) is Some,
            r matches Err(m) ==> m@ == calculation_message(
                hhi_error(units_of(params.revenues@))->Some_0,
            ),
            r matches Ok(x) ==> hhi_matches(x, units_of(params.revenues@)),
            counted(*old(counters), *final(counters), r is Err),
    {
        increment_requests(counters);
        match hhi_and_diversification(&params.revenues) {
            Ok(x) => Ok(x),
            Err(e) => {
                increment_errors(counters);
                Err(calculation_error(e))
            },
        }
    }

    /// The operating leverage of the given growth rates.
    pub fn calculate_operating_leverage(
        &self,
        params: &OperatingLeverageParams,
        counters: &mut RequestCounters,
    ) -> (r: Result<OperatingLeverageResponse, String>)
        ensures
            r is Ok <==> leverage_request(*params) is Ok,
            r matches Ok(x) ==> leverage_request(*params) == Ok::<
                OperatingLeverageResponse,
                Seq<char>,
            >(x),
            r matches Err(m) ==> leverage_request(*params) == Err::<
                OperatingLeverageResponse,
                Seq<char>,
            >(m@),
            counted(*old(counters), *final(counters), r is Err),
    {
        increment_requests(counters);
        let r = self.leverage_uncounted(params);
        if r.is_err() {
            increment_errors(counters);
        }
        r
    }

    fn leverage_uncounted(&self, params: &OperatingLeverageParams) -> (r: Result<
        OperatingLeverageResponse,
        String,
    >)
        ensures
            r is Ok <==> leverage_request(*params) is Ok,
            r matches Ok(x) ==> leverage_request(*params) == Ok::<
                OperatingLeverageResponse,
                Seq<char>,
            >(x),
            r matches Err(m) ==> leverage_request(*params) == Err::<
                OperatingLeverageResponse,
                Seq<char>,
            >(m@),
    {
        let rg = read_field(&params.revenue_growth_rate, "revenue_growth_rate")?;
        let cg = read_field(&params.cost_growth_rate, "cost_growth_rate")?;
        match operating_leverage(rg, cg) {
            Ok(x) => Ok(x),
            Err(e) => Err(calculation_error(e)),
        }
    }

    /// The momentum of the given portfolio.
    pub fn calculate_portfolio_momentum(
        &self,
        params: &PortfolioMomentumParams,
        counters: &mut RequestCounters,
    ) -> (r: Result<PortfolioMomentumResponse, String>)
        requires
            distinct_names(params.segments@),
        ensures
            r is Err <==> momentum_error(params.segments@) is Some,
            r matches Err(m) ==> m@ == calculation_message(
                momentum_error(params.segments@)->Some_0,
            ),
            r matches Ok(x) ==> momentum_matches(x, params.segments@),
            counted(*old(counters), *final(counters), r is Err),
    {
        increment_requests(counters);
        match portfolio_momentum(&params.segments) {
            Ok(x) => Ok(x),
            Err(e) => {
                increment_errors(counters);
                Err(calculation_error(e))
            },
        }
    }

    /// The Gini coefficient of the given revenues.
    pub fn calculate_gini_coefficient(
        &self,
        params: &GiniCoefficientParams,
        counters: &mut RequestCounters,
    ) -> (r: Result<GiniCoefficientResponse, String>)
        ensures
            r is Err <==> gini_error(units_of(params.revenues@)) is Some,
            r matches Err(m) ==> m@ == calculation_message(
                gini_error(units_of(params.revenues@))->Some_0,
            ),
            r matches Ok(x) ==> gini_matches(x, units_of(params.revenues@)),
            counted(*old(counters), *final(counters), r is Err),
    {
        increment_requests(counters);
        match gini_coefficient(&params.revenues) {
            Ok(x) => Ok(x),
            Err(e) => {
                increment_errors(counters);
                Err(calculation_error(e))
            },
        }
    }

    /// The organic growth from the given prior and current revenue.
    pub fn calculate_organic_growth(
        &self,
        params: &OrganicGrowthParams,
        counters: &mut RequestCounters,
    ) -> (r: Result<OrganicGrowthResponse, String>)
        ensures
            r is Ok <==> organic_request(*params) is Ok,
            r matches Ok(x) ==> organic_request(*params) == Ok::<OrganicGrowthResponse, Seq<char>>(
                x,
            ),
            r matches Err(m) ==> organic_request(*params) == Err::<
                OrganicGrowthResponse,
                Seq<char>,
            >(m@),
            counted(*old(counters), *final(counters), r is Err),
    {
        increment_requests(counters);
        let r = self.organic_uncounted(params);
        if r.is_err() {
            increment_errors(counters);
        }
        r
    }

    fn organic_uncounted(&self, params: &OrganicGrowthParams) -> (r: Result<
        OrganicGrowthResponse,
        String,
    >)
        ensures
            r is Ok <==> organic_request(*params) is Ok,
            r matches Ok(x) ==> organic_request(*params) == Ok::<OrganicGrowthResponse, Seq<char>>(
                x,
            ),
            r matches Err(m) ==> organic_request(*params) == Err::<
                OrganicGrowthResponse,
                Seq<char>,
            >(m@),
    {
        let p = read_field(&params.revenue_prior, "revenue_prior")?;
        let c = read_field(&params.revenue_current, "revenue_current")?;
        match organic_growth(p, c) {
            Ok(x) => Ok(x),
            Err(e) => Err(calculation_error(e)),
        }
    }
}

} // verus!
