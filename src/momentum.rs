use vstd::prelude::*;

use crate::concentration::{total, MAX_SEGMENTS};
use crate::error::CalculationError;
use crate::fixed::{round_div, round_div_exec, Fixed, Ratio, MAX_UNITS};

verus! {

/// One business segment: its revenue and its growth rate.
#[derive(Clone, Copy, Debug, PartialEq, Eq)]
pub struct PortfolioSegmentData {
    pub revenue: Fixed,
    pub growth_rate: Fixed,
}

/// The segments of a portfolio, each under its name.
#[derive(Debug)]
pub struct PortfolioMomentumParams {
    pub segments: Vec<(String, PortfolioSegmentData)>,
}

/// What one segment adds to the portfolio's momentum.
#[derive(Clone, Copy, Debug, PartialEq, Eq)]
pub struct SegmentMomentumContribution {
    /// The segment's revenue in hundredths.
    pub revenue_hundredths: i128,
    /// Its share of total revenue, in tenths of a percent.
    pub revenue_pct_tenths: i128,
    /// Its growth rate, in tenths of a percent.
    pub growth_rate_pct_tenths: i128,
    /// Its revenue-weighted growth, in hundredths of a percent.
    pub contribution_to_momentum_hundredths: i128,
}

/// How portfolio momentum is rated.
#[derive(Clone, Copy, Debug, PartialEq, Eq, Structural)]
pub enum MomentumRating {
    Strong,
    Moderate,
    Weak,
    Declining,
}

impl MomentumRating {
    pub open spec fn text(self) -> Seq<char> {
        match self {
            MomentumRating::Strong => "Strong"@,
            MomentumRating::Moderate => "Moderate"@,
            MomentumRating::Weak => "Weak"@,
            MomentumRating::Declining => "Declining"@,
        }
    }

    pub fn label(&self) -> (r: &'static str)
        ensures
            r@ == self.text(),
    {
        match self {
            MomentumRating::Strong => "Strong",
            MomentumRating::Moderate => "Moderate",
            MomentumRating::Weak => "Weak",
            MomentumRating::Declining => "Declining",
        }
    }
}

/// The rating of a momentum of `p / d`, for `d > 0`: above 0.10 Strong,
/// above 0.05 Moderate, above zero Weak, else Declining.
pub open spec fn momentum_rating(p: int, d: int) -> MomentumRating {
    if 10 * p > d {
        MomentumRating::Strong
    } else if 20 * p > d {
        MomentumRating::Moderate
    } else if p > 0 {
        MomentumRating::Weak
    } else {
        MomentumRating::Declining
    }
}

/// The revenue-weighted growth of a portfolio.
#[derive(Debug)]
pub struct PortfolioMomentumResponse {
    /// The momentum, exactly.
    pub portfolio_momentum: Ratio,
    /// The momentum in ten-thousandths.
    pub portfolio_momentum_ten_thousandths: i128,
    /// The momentum in hundredths of a percent.
    pub portfolio_momentum_pct_hundredths: i128,
    /// Total revenue in hundredths.
    pub total_revenue_hundredths: i128,
    /// Each segment's contribution, in the order of the segments.
    pub segment_contributions: Vec<(String, SegmentMomentumContribution)>,
    /// The segment with the largest contribution, the first of equals.
    pub top_contributor: String,
    pub momentum_rating: MomentumRating,
}

pub open spec fn segment_revenues(s: Seq<(String, PortfolioSegmentData)>) -> Seq<int> {
    s.map_values(|e: (String, PortfolioSegmentData)| e.1.revenue@)
}

pub open spec fn segment_products(s: Seq<(String, PortfolioSegmentData)>) -> Seq<int> {
    s.map_values(|e: (String, PortfolioSegmentData)| e.1.revenue@ * e.1.growth_rate@)
}

/// Each element times `sign`.
pub open spec fn signed(s: Seq<int>, sign: int) -> Seq<int> {
    s.map_values(|v: int| sign * v)
}

/// The index of the first largest element of a non-empty `s`.
pub open spec fn top_index(s: Seq<int>) -> int
    decreases s.len(),
{
    if s.len() <= 1 {
        0
    } else if s.last() > s[top_index(s.drop_last())] {
        s.len() - 1
    } else {
        top_index(s.drop_last())
    }
}

/// Whether no two segments share a name.
pub open spec fn distinct_names(s: Seq<(String, PortfolioSegmentData)>) -> bool {
    forall|i: int, j: int| 0 <= i < j < s.len() ==> s[i].0@ != s[j].0@
}

pub open spec fn contribution_of(r: int, g: int, sign: int, d: int) -> SegmentMomentumContribution {
    SegmentMomentumContribution {
        revenue_hundredths: round_div(r, 10000) as i128,
        revenue_pct_tenths: round_div(1000 * sign * r, d) as i128,
        growth_rate_pct_tenths: round_div(g, 1000) as i128,
        contribution_to_momentum_hundredths: round_div(sign * (r * g), 100 * d) as i128,
    }
}

/// The error `portfolio_momentum` reports for `segments`, if any.
pub open spec fn momentum_error(segments: Seq<(String, PortfolioSegmentData)>) -> Option<
    CalculationError,
> {
    if segments.len() == 0 {
        Some(CalculationError::EmptySegments)
    } else if segments.len() > MAX_SEGMENTS {
        Some(CalculationError::TooManySegments)
    } else if total(segment_revenues(segments)) == 0 {
        Some(CalculationError::ZeroTotalRevenue)
    } else {
        None
    }
}

/// Whether `x` is the momentum report on `segments`.
pub open spec fn momentum_matches(
    x: PortfolioMomentumResponse,
    segments: Seq<(String, PortfolioSegmentData)>,
) -> bool {
    let n = segments.len();
    let t = total(segment_revenues(segments));
    let sign = if t > 0 {
        1int
    } else {
        -1int
    };
    let d = sign * t;
    let p = sign * total(segment_products(segments));
    let top = top_index(signed(segment_products(segments), sign));
    &&& x.portfolio_momentum == Ratio { num: p as i128, den: (1_000_000 * d) as i128 }
    &&& x.portfolio_momentum_ten_thousandths == round_div(p, 100 * d)
    &&& x.portfolio_momentum_pct_hundredths == round_div(p, 100 * d)
    &&& x.total_revenue_hundredths == round_div(t, 10000)
    &&& x.momentum_rating == momentum_rating(p, 1_000_000 * d)
    &&& x.segment_contributions@.len() == n
    &&& forall|i: int|
        0 <= i < n ==> {
            &&& (#[trigger] x.segment_contributions@[i]).0@ == segments[i].0@
            &&& x.segment_contributions@[i].1 == contribution_of(
                segments[i].1.revenue@,
                segments[i].1.growth_rate@,
                sign,
                d,
            )
        }
    &&& x.top_contributor@ == segments[top].0@
}

/// Portfolio momentum: the revenue-weighted average growth rate of one to
/// `MAX_SEGMENTS` segments whose revenues do not sum to zero.
pub fn portfolio_momentum(segments: &Vec<(String, PortfolioSegmentData)>) -> (r: Result<
    PortfolioMomentumResponse,
    CalculationError,
>)
    requires
        distinct_names(segments@),
    ensures
        r is Err <==> momentum_error(segments@) is Some,
        r matches Err(e) ==> momentum_error(segments@) == Some(e),
        r matches Ok(x) ==> momentum_matches(x, segments@),
{
    let ghost revs = segment_revenues(segments@);
    let ghost prods = segment_products(segments@);
    let n = segments.len();
    if n == 0 {
        return Err(CalculationError::EmptySegments);
    }
    if n > MAX_SEGMENTS {
        return Err(CalculationError::TooManySegments);
    }
    let mut t: i128 = 0;
    let mut pt: i128 = 0;
    let mut i: usize = 0;
    assert(revs.subrange(0, 0) =~= Seq::<int>::empty());
    assert(prods.subrange(0, 0) =~= Seq::<int>::empty());
    while i < n
        invariant
            1 <= n == segments@.len() <= MAX_SEGMENTS,
            revs == segment_revenues(segments@),
            prods == segment_products(segments@),
            0 <= i <= n,
            t == total(revs.subrange(0, i as int)),
            pt == total(prods.subrange(0, i as int)),
            -(i * MAX_UNITS) <= t <= i * MAX_UNITS,
            -(i * 1_000_000_000_000_000_000_000_000_000_000) <= pt <= i
                * 1_000_000_000_000_000_000_000_000_000_000,
        decreases n - i,
    {
        let rv = segments[i].1.revenue.units() as i128;
        let gv = segments[i].1.growth_rate.units() as i128;
        assert(rv == revs[i as int]);
        assert(rv * gv == prods[i as int]);
        assert(-1_000_000_000_000_000_000_000_000_000_000 <= rv * gv
            <= 1_000_000_000_000_000_000_000_000_000_000) by (nonlinear_arith)
            requires
                -MAX_UNITS <= rv <= MAX_UNITS,
                -MAX_UNITS <= gv <= MAX_UNITS,
        ;
        assert(revs.subrange(0, i + 1).drop_last() =~= revs.subrange(0, i as int));
        assert(prods.subrange(0, i + 1).drop_last() =~= prods.subrange(0, i as int));
        t = t + rv;
        pt = pt + rv * gv;
        i = i + 1;
    }
    assert(revs.subrange(0, n as int) =~= revs);
    assert(prods.subrange(0, n as int) =~= prods);
    if t == 0 {
        return Err(CalculationError::ZeroTotalRevenue);
    }
    let sign: i128 = if t > 0 {
        1
    } else {
        -1
    };
    let d: i128 = if t > 0 {
        t
    } else {
        -t
    };
    let p: i128 = if t > 0 {
        pt
    } else {
        -pt
    };
    proof {
        if t > 0 {
            assert(sign == 1);
            assert(d == sign * t && p == sign * pt);
        } else {
            assert(sign == -1);
            assert(d == sign * t && p == sign * pt) by (nonlinear_arith)
                requires
                    sign == -1,
                    d == -t,
                    p == -pt,
            ;
        }
    }
    let ghost keys = signed(prods, sign as int);
    let mut contributions: Vec<(String, SegmentMomentumContribution)> = Vec::new();
    let mut best: i128 = 0;
    let mut top: usize = 0;
    let mut k: usize = 0;
    assert(keys.subrange(0, 0) =~= Seq::<int>::empty());
    while k < n
        invariant
            1 <= n == segments@.len() <= MAX_SEGMENTS,
            prods == segment_products(segments@),
            keys == signed(prods, sign as int),
            sign == 1 || sign == -1,
            1 <= d <= MAX_SEGMENTS * MAX_UNITS,
            0 <= k <= n,
            contributions@.len() == k,
            forall|j: int|
                0 <= j < k ==> {
                    &&& (#[trigger] contributions@[j]).0@ == segments@[j].0@
                    &&& contributions@[j].1 == contribution_of(
                        segments@[j].1.revenue@,
                        segments@[j].1.growth_rate@,
                        sign as int,
                        d as int,
                    )
                },
            k > 0 ==> top == top_index(keys.subrange(0, k as int)) && top < k && best
                == keys[top as int],
        decreases n - k,
    {
        let name = &segments[k].0;
        let rv = segments[k].1.revenue.units() as i128;
        let gv = segments[k].1.growth_rate.units() as i128;
        assert(-1_000_000_000_000_000_000_000_000_000_000 <= rv * gv
            <= 1_000_000_000_000_000_000_000_000_000_000) by (nonlinear_arith)
            requires
                -MAX_UNITS <= rv <= MAX_UNITS,
                -MAX_UNITS <= gv <= MAX_UNITS,
        ;
        let key = sign * (rv * gv);
        assert(key == keys[k as int]);
        let ghost prefix = keys.subrange(0, k as int);
        let ghost grown = keys.subrange(0, k + 1);
        assert(grown.drop_last() =~= prefix);
        if k > 0 {
            assert(prefix[top as int] == keys[top as int]);
        }
        if k == 0 || key > best {
            best = key;
            top = k;
        }
        let srv: i128 = if sign > 0 {
            rv
        } else {
            -rv
        };
        assert(1000 * srv == 1000 * sign * rv) by (nonlinear_arith)
            requires
                srv == sign * rv,
        ;
        let c = SegmentMomentumContribution {
            revenue_hundredths: round_div_exec(rv, 10000),
            revenue_pct_tenths: round_div_exec(1000 * srv, d),
            growth_rate_pct_tenths: round_div_exec(gv, 1000),
            contribution_to_momentum_hundredths: round_div_exec(key, 100 * d),
        };
        contributions.push((name.clone(), c));
        k = k + 1;
    }
    assert(keys.subrange(0, n as int) =~= keys);
    let top_contributor = segments[top].0.clone();
    let rating = if 10 * p > 1_000_000 * d {
        MomentumRating::Strong
    } else if 20 * p > 1_000_000 * d {
        MomentumRating::Moderate
    } else if p > 0 {
        MomentumRating::Weak
    } else {
        MomentumRating::Declining
    };
    let k4 = round_div_exec(p, 100 * d);
    Ok(PortfolioMomentumResponse {
        portfolio_momentum: Ratio { num: p, den: 1_000_000 * d },
        portfolio_momentum_ten_thousandths: k4,
        portfolio_momentum_pct_hundredths: k4,
        total_revenue_hundredths: round_div_exec(t, 10000),
        segment_contributions: contributions,
        top_contributor,
        momentum_rating: rating,
    })
}

/// A portfolio of one segment with non-zero revenue is accepted, moves at
/// that segment's growth rate, is rated Strong when the rate exceeds 0.10,
/// and names that segment its top contributor.
pub proof fn lemma_single_segment_momentum(
    segments: Seq<(String, PortfolioSegmentData)>,
    x: PortfolioMomentumResponse,
)
    requires
        segments.len() == 1,
        segments[0].1.revenue@ != 0,
        -MAX_UNITS <= segments[0].1.revenue@ <= MAX_UNITS,
        -MAX_UNITS <= segments[0].1.growth_rate@ <= MAX_UNITS,
        momentum_matches(x, segments),
    ensures
        momentum_error(segments) is None,
        x.portfolio_momentum.num * 1_000_000 == segments[0].1.growth_rate@
            * x.portfolio_momentum.den,
        segments[0].1.growth_rate@ > 100_000 ==> x.momentum_rating == MomentumRating::Strong,
        x.top_contributor@ == segments[0].0@,
{
    let r = segments[0].1.revenue@;
    let g = segments[0].1.growth_rate@;
    let revs = segment_revenues(segments);
    let prods = segment_products(segments);
    assert(revs.drop_last() =~= Seq::<int>::empty());
    assert(prods.drop_last() =~= Seq::<int>::empty());
    assert(revs.len() == 1 && revs.last() == r);
    assert(prods.len() == 1 && prods.last() == r * g);
    assert(total(revs.drop_last()) == 0);
    assert(total(prods.drop_last()) == 0);
    assert(total(revs) == r);
    assert(total(prods) == r * g);
    let d = if r > 0 {
        r
    } else {
        -r
    };
    if r > 0 {
        assert(1 * r == d && 1 * (r * g) == g * d) by (nonlinear_arith)
            requires
                d == r,
        ;
    } else {
        assert(-1 * r == d && -1 * (r * g) == g * d) by (nonlinear_arith)
            requires
                d == -r,
        ;
    }
    let p = g * d;
    assert(-1_000_000_000_000_000_000_000_000_000_000 <= p <= 1_000_000_000_000_000_000_000_000_000_000)
        by (nonlinear_arith)
        requires
            p == g * d,
            0 < d <= MAX_UNITS,
            -MAX_UNITS <= g <= MAX_UNITS,
    ;
    assert(p * 1_000_000 == g * (1_000_000 * d)) by (nonlinear_arith)
        requires
            p == g * d,
    ;
    if g > 100_000 {
        assert(10 * p > 1_000_000 * d) by (nonlinear_arith)
            requires
                p == g * d,
                g > 100_000,
                d > 0,
        ;
    }
}

} // verus!
