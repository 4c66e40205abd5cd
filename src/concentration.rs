use vstd::prelude::*;
use vstd::relations::{sorted_by, total_ordering};
use vstd::seq_lib::{group_to_multiset_ensures, lemma_sorted_unique};

use crate::error::CalculationError;
use crate::fixed::{round_div, round_div_exec, Fixed, Ratio, MAX_UNITS};
use crate::text::{fixed_point_text, fixed_text};
use vstd::string::StringExecFns;

verus! {

broadcast use group_to_multiset_ensures;

/// The values of a sequence of machine integers.
pub open spec fn ints(s: Seq<i128>) -> Seq<int> {
    s.map_values(|x: i128| x as int)
}

/// Whether `s` never decreases.
pub open spec fn ascending(s: Seq<int>) -> bool {
    forall|i: int, j: int| 0 <= i < j < s.len() ==> s[i] <= s[j]
}

proof fn lemma_int_order_total()
    ensures
        total_ordering(|x: int, y: int| x <= y),
{
}

proof fn lemma_insert_multiset(s: Seq<int>, i: int, x: int)
    requires
        0 <= i <= s.len(),
    ensures
        s.insert(i, x).to_multiset() == s.to_multiset().insert(x),
{
    let t = s.insert(i, x);
    assert(t.remove(i) =~= s);
    assert(t[i] == x);
    assert(t.to_multiset().count(x) > 0);
    assert(t.to_multiset() =~= s.to_multiset().insert(x));
}

/// The values of `v` in ascending order.
pub fn sort_values(v: &Vec<i128>) -> (r: Vec<i128>)
    ensures
        ints(r@) == ints(v@).sort(),
{
    let ghost leq = |x: int, y: int| x <= y;
    let n = v.len();
    let mut out: Vec<i128> = Vec::new();
    let mut k: usize = 0;
    assert(ints(v@).subrange(0, 0) =~= Seq::<int>::empty());
    assert(ints(out@) =~= Seq::<int>::empty());
    while k < n
        invariant
            n == v@.len(),
            0 <= k <= n,
            out@.len() == k,
            ascending(ints(out@)),
            ints(out@).to_multiset() == ints(v@).subrange(0, k as int).to_multiset(),
        decreases n - k,
    {
        let x = v[k];
        let mut pos: usize = 0;
        while pos < out.len() && out[pos] <= x
            invariant
                0 <= pos <= out@.len(),
                forall|j: int| 0 <= j < pos ==> out@[j] <= x,
            decreases out@.len() - pos,
        {
            pos = pos + 1;
        }
        let ghost before = ints(out@);
        out.insert(pos, x);
        proof {
            assert(ints(out@) =~= before.insert(pos as int, x as int));
            lemma_insert_multiset(before, pos as int, x as int);
            let p = ints(v@).subrange(0, k as int);
            assert(ints(v@).subrange(0, k + 1) =~= p.push(x as int));
            let s = ints(out@);
            assert(pos == before.len() || before[pos as int] > x);
            assert forall|i: int, j: int| 0 <= i < j < s.len() implies s[i] <= s[j] by {
                if j < pos {
                    assert(s[i] == before[i] && s[j] == before[j]);
                    assert(before[i] <= before[j]);
                } else if j == pos {
                    assert(s[j] == x);
                    assert(s[i] == before[i]);
                } else {
                    assert(s[j] == before[j - 1]);
                    assert(before[j - 1] > x) by {
                        if j - 1 > pos {
                            assert(before[pos as int] <= before[j - 1]);
                        }
                    }
                    if i < pos {
                        assert(s[i] == before[i]);
                    } else if i == pos {
                        assert(s[i] == x);
                    } else {
                        assert(s[i] == before[i - 1]);
                        assert(before[i - 1] <= before[j - 1]);
                    }
                }
            }
        }
        k = k + 1;
    }
    proof {
        assert(ints(v@).subrange(0, n as int) =~= ints(v@));
        ints(v@).lemma_sort_ensures();
        lemma_int_order_total();
        assert(sorted_by(ints(out@), leq));
        lemma_sorted_unique(ints(out@), ints(v@).sort(), leq);
    }
    out
}

/// The square of `MAX_UNITS`.
const SQUARE_BOUND: i128 = 1_000_000_000_000_000_000_000_000_000_000;

/// The most segments a concentration measure takes. With every value at
/// most `MAX_UNITS`, ten times the squared total of this many segments stays
/// within the operands `round_div_exec` takes, so the effective number of
/// segments is still computed exactly; about 1450 segments would not be.
pub const MAX_SEGMENTS: usize = 1000;

/// The values, in millionths, of a sequence of numbers.
pub open spec fn units_of(v: Seq<Fixed>) -> Seq<int> {
    v.map_values(|f: Fixed| f@)
}

pub open spec fn total(s: Seq<int>) -> int
    decreases s.len(),
{
    if s.len() == 0 {
        0
    } else {
        total(s.drop_last()) + s.last()
    }
}

pub open spec fn total_squares(s: Seq<int>) -> int
    decreases s.len(),
{
    if s.len() == 0 {
        0
    } else {
        total_squares(s.drop_last()) + s.last() * s.last()
    }
}

/// The largest of zero and the elements of `s`.
pub open spec fn largest(s: Seq<int>) -> int
    decreases s.len(),
{
    if s.len() == 0 {
        0
    } else if s.last() > largest(s.drop_last()) {
        s.last()
    } else {
        largest(s.drop_last())
    }
}

pub open spec fn all_non_negative(s: Seq<int>) -> bool {
    forall|i: int| 0 <= i < s.len() ==> s[i] >= 0
}

/// For non-negative values, the sum of squares lies between zero and the
/// square of the sum, and is positive where the sum is.
proof fn lemma_squares_bounded(s: Seq<int>)
    requires
        all_non_negative(s),
    ensures
        0 <= total_squares(s) <= total(s) * total(s),
        total(s) >= 0,
        total(s) > 0 ==> total_squares(s) > 0,
    decreases s.len(),
{
    if s.len() > 0 {
        let p = s.drop_last();
        assert(all_non_negative(p)) by {
            assert forall|i: int| 0 <= i < p.len() implies p[i] >= 0 by {
                assert(p[i] == s[i]);
            }
        }
        lemma_squares_bounded(p);
        let t = total(p);
        let q = total_squares(p);
        let x = s.last();
        assert(x == s[s.len() - 1]);
        assert(q + x * x <= (t + x) * (t + x)) by (nonlinear_arith)
            requires
                0 <= q <= t * t,
                t >= 0,
                x >= 0,
        ;
        assert(x * x >= 0) by (nonlinear_arith);
        if t + x > 0 && x > 0 {
            assert(x * x > 0) by (nonlinear_arith)
                requires
                    x > 0,
            ;
        }
    }
}

/// How concentrated revenue is, by HHI.
#[derive(Clone, Copy, Debug, PartialEq, Eq, Structural)]
pub enum ConcentrationRisk {
    Low,
    Medium,
    High,
}

impl ConcentrationRisk {
    pub open spec fn text(self) -> Seq<char> {
        match self {
            ConcentrationRisk::Low => "LOW"@,
            ConcentrationRisk::Medium => "MEDIUM"@,
            ConcentrationRisk::High => "HIGH"@,
        }
    }

    pub open spec fn word(self) -> Seq<char> {
        match self {
            ConcentrationRisk::Low => "low"@,
            ConcentrationRisk::Medium => "medium"@,
            ConcentrationRisk::High => "high"@,
        }
    }

    pub fn label(&self) -> (r: &'static str)
        ensures
            r@ == self.text(),
    {
        match self {
            ConcentrationRisk::Low => "LOW",
            ConcentrationRisk::Medium => "MEDIUM",
            ConcentrationRisk::High => "HIGH",
        }
    }

    fn lower_label(&self) -> (r: &'static str)
        ensures
            r@ == self.word(),
    {
        match self {
            ConcentrationRisk::Low => "low",
            ConcentrationRisk::Medium => "medium",
            ConcentrationRisk::High => "high",
        }
    }
}

/// The class of an HHI of `q / tt`: below 0.15 LOW, up to 0.25 MEDIUM, else
/// HIGH.
pub open spec fn concentration_risk(q: int, tt: int) -> ConcentrationRisk {
    if 20 * q < 3 * tt {
        ConcentrationRisk::Low
    } else if 4 * q <= tt {
        ConcentrationRisk::Medium
    } else {
        ConcentrationRisk::High
    }
}

/// A warning about concentrated revenue.
#[derive(Clone, Copy, Debug, PartialEq, Eq, Structural)]
pub enum ConcentrationIssue {
    /// One segment holds more than half the revenue; its share is given in
    /// tenths of a percent.
    SingleSegmentDominance { share_pct_tenths: i128 },
    /// The HHI exceeds 0.35.
    SevereConcentration,
    /// Fewer than three effective segments; their number is given in tenths.
    LowEffectiveSegments { effective_n_tenths: i128 },
}

impl ConcentrationIssue {
    pub open spec fn text(self) -> Seq<char> {
        match self {
            ConcentrationIssue::SingleSegmentDominance { share_pct_tenths } =>
                "Single segment dominance: "@ + fixed_text(share_pct_tenths as int, 1)
                + "% of revenue"@,
            ConcentrationIssue::SevereConcentration =>
                "HHI exceeds 0.35 indicating severe concentration"@,
            ConcentrationIssue::LowEffectiveSegments { effective_n_tenths } =>
                "Effective segment count ("@ + fixed_text(effective_n_tenths as int, 1)
                + ") is below recommended minimum of 3"@,
        }
    }

    /// The warning in words.
    pub fn message(&self) -> (r: String)
        ensures
            r@ == self.text(),
    {
        match self {
            ConcentrationIssue::SingleSegmentDominance { share_pct_tenths } => {
                let mut m = String::from_str("Single segment dominance: ");
                m.append(fixed_point_text(*share_pct_tenths, 1).as_str());
                m.append("% of revenue");
                m
            },
            ConcentrationIssue::SevereConcentration => String::from_str(
                "HHI exceeds 0.35 indicating severe concentration",
            ),
            ConcentrationIssue::LowEffectiveSegments { effective_n_tenths } => {
                let mut m = String::from_str("Effective segment count (");
                m.append(fixed_point_text(*effective_n_tenths, 1).as_str());
                m.append(") is below recommended minimum of 3");
                m
            },
        }
    }
}

/// The warnings for a total `t`, sum of squares `q` and largest value `m`:
/// a segment above half the total, an HHI above 0.35, fewer than three
/// effective segments.
pub open spec fn concentration_issues(t: int, q: int, m: int) -> Seq<ConcentrationIssue> {
    (if 2 * m > t {
        seq![
            ConcentrationIssue::SingleSegmentDominance {
                share_pct_tenths: round_div(1000 * m, t) as i128,
            },
        ]
    } else {
        Seq::empty()
    }) + (if 20 * q > 7 * (t * t) {
        seq![ConcentrationIssue::SevereConcentration]
    } else {
        Seq::empty()
    }) + (if t * t < 3 * q {
        seq![
            ConcentrationIssue::LowEffectiveSegments {
                effective_n_tenths: round_div(10 * (t * t), q) as i128,
            },
        ]
    } else {
        Seq::empty()
    })
}

pub open spec fn hhi_assessment(t: int, q: int) -> Seq<char> {
    "Revenue concentration is "@ + concentration_risk(q, t * t).word() + " with HHI of "@
        + fixed_text(round_div(1000 * q, t * t), 3) + ". The portfolio behaves like "@
        + fixed_text(round_div(10 * (t * t), q), 1) + " equal-sized segments."@
}

/// Revenue concentration by the Herfindahl-Hirschman index.
#[derive(Debug, PartialEq)]
pub struct HHIResponse {
    /// The sum of squared market shares.
    pub hhi: Ratio,
    /// One less the HHI.
    pub diversification_score: Ratio,
    /// The reciprocal of the HHI.
    pub effective_n: Ratio,
    pub risk_level: ConcentrationRisk,
    pub assessment: String,
    /// Each segment's share of the total.
    pub market_shares: Vec<Ratio>,
    pub largest_share: Ratio,
    pub concentration_issues: Vec<ConcentrationIssue>,
}

/// The first index of a negative element, if any.
pub open spec fn first_negative(s: Seq<int>, i: int) -> bool {
    0 <= i < s.len() && s[i] < 0 && forall|j: int| 0 <= j < i ==> s[j] >= 0
}

/// The index of the first negative element, or -1 where there is none.
pub open spec fn first_negative_index(s: Seq<int>) -> int
    decreases s.len(),
{
    if s.len() == 0 {
        -1
    } else if first_negative_index(s.drop_last()) >= 0 {
        first_negative_index(s.drop_last())
    } else if s.last() < 0 {
        s.len() - 1
    } else {
        -1
    }
}

proof fn lemma_first_negative(s: Seq<int>)
    ensures
        first_negative_index(s) == -1 <==> all_non_negative(s),
        first_negative_index(s) >= 0 ==> first_negative(s, first_negative_index(s)),
        -1 <= first_negative_index(s) < s.len(),
    decreases s.len(),
{
    if s.len() > 0 {
        let p = s.drop_last();
        lemma_first_negative(p);
        if all_non_negative(p) && s.last() >= 0 {
            assert forall|i: int| 0 <= i < s.len() implies s[i] >= 0 by {
                if i < p.len() {
                    assert(s[i] == p[i]);
                }
            }
        }
        if !all_non_negative(p) {
            let k = choose|k: int| 0 <= k < p.len() && !(p[k] >= 0);
            assert(s[k] == p[k]);
        }
        if first_negative_index(p) >= 0 {
            let f = first_negative_index(p);
            assert forall|j: int| 0 <= j < f implies s[j] >= 0 by {
                assert(s[j] == p[j]);
            }
            assert(s[f] == p[f]);
        }
        if first_negative_index(p) < 0 && s.last() < 0 {
            assert forall|j: int| 0 <= j < s.len() - 1 implies s[j] >= 0 by {
                assert(s[j] == p[j]);
            }
            assert(s[s.len() - 1] < 0);
        }
    }
}

/// Where the first `i + 1` elements have their first negative element last,
/// the whole sequence has its first negative element there too.
proof fn lemma_first_negative_prefix(s: Seq<int>, i: int)
    requires
        0 <= i < s.len(),
        first_negative_index(s.subrange(0, i + 1)) == i,
    ensures
        first_negative_index(s) == i,
    decreases s.len(),
{
    if s.len() > i + 1 {
        let p = s.drop_last();
        assert(p.subrange(0, i + 1) =~= s.subrange(0, i + 1));
        lemma_first_negative_prefix(p, i);
    } else {
        assert(s.subrange(0, i + 1) =~= s);
    }
}

/// The error `hhi_and_diversification` reports for revenues `u`, if any.
pub open spec fn hhi_error(u: Seq<int>) -> Option<CalculationError> {
    if u.len() < 2 {
        Some(CalculationError::TooFewSegments)
    } else if u.len() > MAX_SEGMENTS {
        Some(CalculationError::TooManySegments)
    } else if first_negative_index(u) >= 0 {
        Some(CalculationError::NegativeSegment { index: first_negative_index(u) as usize })
    } else if total(u) <= 0 {
        Some(CalculationError::NonPositiveTotal)
    } else {
        None
    }
}

/// Whether `x` is the HHI report on revenues `u`.
pub open spec fn hhi_matches(x: HHIResponse, u: Seq<int>) -> bool {
    let t = total(u);
    let q = total_squares(u);
    &&& x.hhi == Ratio { num: q as i128, den: (t * t) as i128 }
    &&& x.diversification_score == Ratio { num: (t * t - q) as i128, den: (t * t) as i128 }
    &&& x.effective_n == Ratio { num: (t * t) as i128, den: q as i128 }
    &&& x.largest_share == Ratio { num: largest(u) as i128, den: t as i128 }
    &&& x.market_shares@.len() == u.len()
    &&& forall|i: int|
        0 <= i < u.len() ==> #[trigger] x.market_shares@[i] == Ratio {
            num: u[i] as i128,
            den: t as i128,
        }
    &&& x.risk_level == concentration_risk(q, t * t)
    &&& x.concentration_issues@ == concentration_issues(t, q, largest(u))
    &&& x.assessment@ == hhi_assessment(t, q)
}

/// HHI and diversification of two to `MAX_SEGMENTS` non-negative segment
/// revenues with a positive total.
pub fn hhi_and_diversification(revenues: &Vec<Fixed>) -> (r: Result<HHIResponse, CalculationError>)
    ensures
        r is Err <==> hhi_error(units_of(revenues@)) is Some,
        r matches Err(e) ==> hhi_error(units_of(revenues@)) == Some(e),
        r matches Ok(x) ==> {
            &&& hhi_matches(x, units_of(revenues@))
            // the index lies between zero and one, and its reciprocal is at least one
            &&& 0 <= x.hhi.num <= x.hhi.den
            &&& x.hhi.num > 0
            &&& x.effective_n.num == x.hhi.den && x.effective_n.den == x.hhi.num
            // and the diversification score is one less the index
            &&& x.diversification_score.num == x.hhi.den - x.hhi.num
            &&& x.diversification_score.den == x.hhi.den
            &&& x.effective_n.num >= x.effective_n.den
        },
{
    let ghost u = units_of(revenues@);
    let n = revenues.len();
    if n < 2 {
        return Err(CalculationError::TooFewSegments);
    }
    if n > MAX_SEGMENTS {
        return Err(CalculationError::TooManySegments);
    }
    let mut t: i128 = 0;
    let mut q: i128 = 0;
    let mut m: i128 = 0;
    let mut i: usize = 0;
    assert(u.subrange(0, 0) =~= Seq::<int>::empty());
    while i < n
        invariant
            2 <= n == u.len() <= MAX_SEGMENTS,
            u == units_of(revenues@),
            0 <= i <= n,
            all_non_negative(u.subrange(0, i as int)),
            t == total(u.subrange(0, i as int)),
            q == total_squares(u.subrange(0, i as int)),
            m == largest(u.subrange(0, i as int)),
            0 <= t <= i * MAX_UNITS,
            0 <= q <= i * SQUARE_BOUND,
            0 <= m <= MAX_UNITS,
        decreases n - i,
    {
        let x = revenues[i].units() as i128;
        assert(x == u[i as int]);
        let ghost p = u.subrange(0, i as int);
        let ghost grown = u.subrange(0, i + 1);
        assert(grown.drop_last() =~= p);
        assert(grown.last() == x);
        if x < 0 {
            assert forall|j: int| 0 <= j < i implies u[j] >= 0 by {
                assert(u[j] == p[j]);
            }
            proof {
                lemma_first_negative(p);
                lemma_first_negative(u);
                assert(first_negative_index(grown) == i);
                lemma_first_negative_prefix(u, i as int);
            }
            return Err(CalculationError::NegativeSegment { index: i });
        }
        assert(x * x <= SQUARE_BOUND) by (nonlinear_arith)
            requires
                0 <= x <= MAX_UNITS,
        ;
        assert(x * x >= 0) by (nonlinear_arith);
        t = t + x;
        q = q + x * x;
        if x > m {
            m = x;
        }
        assert(all_non_negative(grown)) by {
            assert forall|j: int| 0 <= j < grown.len() implies grown[j] >= 0 by {
                if j < i {
                    assert(grown[j] == p[j]);
                }
            }
        }
        i = i + 1;
    }
    assert(u.subrange(0, n as int) =~= u);
    proof {
        lemma_first_negative(u);
    }
    if t <= 0 {
        return Err(CalculationError::NonPositiveTotal);
    }
    proof {
        lemma_squares_bounded(u);
    }
    assert(t * t <= 1_000_000_000_000_000_000_000_000_000_000_000_000) by (nonlinear_arith)
        requires
            0 <= t <= 1_000_000_000_000_000_000,
    ;
    let tt = t * t;
    let mut shares: Vec<Ratio> = Vec::new();
    let mut k: usize = 0;
    while k < n
        invariant
            n == u.len(),
            u == units_of(revenues@),
            0 <= k <= n,
            shares@.len() == k,
            forall|j: int|
                0 <= j < k ==> #[trigger] shares@[j] == (Ratio { num: u[j] as i128, den: t }),
        decreases n - k,
    {
        let x = revenues[k].units() as i128;
        shares.push(Ratio { num: x, den: t });
        k = k + 1;
    }
    let risk = if 20 * q < 3 * tt {
        ConcentrationRisk::Low
    } else if 4 * q <= tt {
        ConcentrationRisk::Medium
    } else {
        ConcentrationRisk::High
    };
    let hhi_thousandths = round_div_exec(1000 * q, tt);
    let eff_tenths = round_div_exec(10 * tt, q);
    let mut issues: Vec<ConcentrationIssue> = Vec::new();
    if 2 * m > t {
        issues.push(
            ConcentrationIssue::SingleSegmentDominance {
                share_pct_tenths: round_div_exec(1000 * m, t),
            },
        );
    }
    if 20 * q > 7 * tt {
        issues.push(ConcentrationIssue::SevereConcentration);
    }
    if tt < 3 * q {
        issues.push(ConcentrationIssue::LowEffectiveSegments { effective_n_tenths: eff_tenths });
    }
    assert(issues@ =~= concentration_issues(t as int, q as int, m as int));
    let mut assessment = String::from_str("Revenue concentration is ");
    assessment.append(risk.lower_label());
    assessment.append(" with HHI of ");
    assessment.append(fixed_point_text(hhi_thousandths, 3).as_str());
    assessment.append(". The portfolio behaves like ");
    assessment.append(fixed_point_text(eff_tenths, 1).as_str());
    assessment.append(" equal-sized segments.");
    Ok(HHIResponse {
        hhi: Ratio { num: q, den: tt },
        diversification_score: Ratio { num: tt - q, den: tt },
        effective_n: Ratio { num: tt, den: q },
        risk_level: risk,
        assessment,
        market_shares: shares,
        largest_share: Ratio { num: m, den: t },
        concentration_issues: issues,
    })
}

/// Each element's rank, counted from one, times the element, summed.
pub open spec fn rank_weighted_total(s: Seq<int>) -> int
    decreases s.len(),
{
    if s.len() == 0 {
        0
    } else {
        rank_weighted_total(s.drop_last()) + s.len() * s.last()
    }
}

/// The smallest element of a non-empty `s`.
pub open spec fn smallest(s: Seq<int>) -> int
    decreases s.len(),
{
    if s.len() <= 1 {
        s[0]
    } else if s.last() < smallest(s.drop_last()) {
        s.last()
    } else {
        smallest(s.drop_last())
    }
}

/// Each value rounded to hundredths of a unit.
pub open spec fn in_hundredths(s: Seq<int>) -> Seq<int> {
    s.map_values(|v: int| round_div(v, 10000))
}

/// How unequal revenue is, by the Gini coefficient.
#[derive(Clone, Copy, Debug, PartialEq, Eq, Structural)]
pub enum GiniLevel {
    Low,
    Moderate,
    High,
}

impl GiniLevel {
    pub open spec fn text(self) -> Seq<char> {
        match self {
            GiniLevel::Low => "Low"@,
            GiniLevel::Moderate => "Moderate"@,
            GiniLevel::High => "High"@,
        }
    }

    pub fn label(&self) -> (r: &'static str)
        ensures
            r@ == self.text(),
    {
        match self {
            GiniLevel::Low => "Low",
            GiniLevel::Moderate => "Moderate",
            GiniLevel::High => "High",
        }
    }
}

/// The level of a Gini coefficient of `gn / gd`, for `gd > 0`: below 0.25
/// Low, below 0.40 Moderate, else High.
pub open spec fn gini_level(gn: int, gd: int) -> GiniLevel {
    if 4 * gn < gd {
        GiniLevel::Low
    } else if 5 * gn < 2 * gd {
        GiniLevel::Moderate
    } else {
        GiniLevel::High
    }
}

/// The Gini coefficient of `u` as numerator and denominator.
pub open spec fn gini_numerator(u: Seq<int>) -> int {
    2 * rank_weighted_total(u.sort()) - (u.len() + 1) * total(u)
}

pub open spec fn gini_denominator(u: Seq<int>) -> int {
    u.len() * total(u)
}

/// The number of equal segments a Gini coefficient of `gn / gd` stands for,
/// in hundredths: `1 / (gini + 0.0001)` where the coefficient is positive,
/// else the number of segments `n`.
pub open spec fn effective_segments(gn: int, gd: int, n: int) -> int {
    if gn > 0 {
        round_div(1_000_000 * gd, 10_000 * gn + gd)
    } else {
        100 * n
    }
}

/// Revenue inequality across segments.
#[derive(Debug, PartialEq)]
pub struct GiniCoefficientResponse {
    /// The coefficient, exactly.
    pub gini_coefficient: Ratio,
    /// The coefficient in thousandths.
    pub gini_thousandths: i128,
    /// One less the coefficient, in thousandths.
    pub diversification_thousandths: i128,
    pub concentration_level: GiniLevel,
    /// The largest segment's share, in tenths of a percent.
    pub largest_segment_share_tenths: i128,
    /// The smallest segment's share, in tenths of a percent.
    pub smallest_segment_share_tenths: i128,
    /// The effective number of equal segments, in hundredths.
    pub effective_segments_hundredths: i128,
    /// The revenues in hundredths, in ascending order.
    pub sorted_revenues_hundredths: Vec<i128>,
}

proof fn lemma_round_close(a: int, b: int)
    requires
        b > 0,
    ensures
        -b <= 2 * (a - b * round_div(a, b)) <= b,
{
    if a >= 0 {
        vstd::arithmetic::div_mod::lemma_fundamental_div_mod(2 * a + b, 2 * b);
        let r = (2 * a + b) / (2 * b);
        assert(2 * b * r == 2 * (b * r)) by (nonlinear_arith);
    } else {
        vstd::arithmetic::div_mod::lemma_fundamental_div_mod(-2 * a + b, 2 * b);
        let r = (-2 * a + b) / (2 * b);
        assert(2 * b * r == 2 * (b * r)) by (nonlinear_arith);
        assert(b * (-r) == -(b * r)) by (nonlinear_arith);
    }
}

/// Rounding a share and its complement to thousandths separately gives
/// figures whose sum is within one thousandth of one.
proof fn lemma_complements_round_close(a: int, b: int)
    requires
        b > 0,
    ensures
        -1 <= round_div(1000 * (b - a), b) + round_div(1000 * a, b) - 1000 <= 1,
{
    let x = 1000 * a;
    let y = 1000 * (b - a);
    let r1 = round_div(x, b);
    let r2 = round_div(y, b);
    lemma_round_close(x, b);
    lemma_round_close(y, b);
    let e = r1 + r2 - 1000;
    let d1 = x - b * r1;
    let d2 = y - b * r2;
    assert(x + y == 1000 * b);
    assert(b * e == -(d1 + d2)) by (nonlinear_arith)
        requires
            e == r1 + r2 - 1000,
            d1 == x - b * r1,
            d2 == y - b * r2,
            x + y == 1000 * b,
    ;
    assert(-1 <= e <= 1) by (nonlinear_arith)
        requires
            b > 0,
            -b <= b * e <= b,
    ;
}

proof fn lemma_sorted_facts(u: Seq<int>)
    requires
        all_non_negative(u),
        forall|i: int| 0 <= i < u.len() ==> u[i] <= MAX_UNITS,
    ensures
        u.sort().len() == u.len(),
        forall|i: int| 0 <= i < u.sort().len() ==> 0 <= #[trigger] u.sort()[i] <= MAX_UNITS,
        ascending(u.sort()),
        u.sort().to_multiset() == u.to_multiset(),
{
    u.lemma_sort_ensures();
    let s = u.sort();
    assert(s.to_multiset().len() == s.len());
    assert(u.to_multiset().len() == u.len());
    assert forall|i: int| 0 <= i < s.len() implies 0 <= #[trigger] s[i] <= MAX_UNITS by {
        assert(s.contains(s[i]));
        assert(s.to_multiset().count(s[i]) > 0);
        assert(u.to_multiset().count(s[i]) > 0);
        assert(u.contains(s[i]));
        let j = choose|j: int| 0 <= j < u.len() && u[j] == s[i];
        assert(u[j] >= 0);
    }
    let leq = |x: int, y: int| x <= y;
    assert(sorted_by(s, leq));
    assert forall|i: int, j: int| 0 <= i < j < s.len() implies s[i] <= s[j] by {
        assert(leq(s[i], s[j]));
    }
}

/// The error `gini_coefficient` reports for revenues `u`, if any.
pub open spec fn gini_error(u: Seq<int>) -> Option<CalculationError> {
    if u.len() == 0 {
        Some(CalculationError::EmptyRevenueList)
    } else if u.len() > MAX_SEGMENTS {
        Some(CalculationError::TooManySegments)
    } else if !all_non_negative(u) {
        Some(CalculationError::NegativeRevenues)
    } else if total(u) == 0 {
        Some(CalculationError::ZeroTotalRevenue)
    } else {
        None
    }
}

/// Whether `x` is the Gini report on revenues `u`.
pub open spec fn gini_matches(x: GiniCoefficientResponse, u: Seq<int>) -> bool {
    let t = total(u);
    let gn = gini_numerator(u);
    let gd = gini_denominator(u);
    &&& x.gini_coefficient == Ratio { num: gn as i128, den: gd as i128 }
    &&& x.gini_thousandths == round_div(1000 * gn, gd)
    &&& x.diversification_thousandths == round_div(1000 * (gd - gn), gd)
    &&& x.concentration_level == gini_level(gn, gd)
    &&& x.largest_segment_share_tenths == round_div(1000 * largest(u), t)
    &&& x.smallest_segment_share_tenths == round_div(1000 * smallest(u), t)
    &&& x.effective_segments_hundredths == effective_segments(gn, gd, u.len() as int)
    &&& ints(x.sorted_revenues_hundredths@) == in_hundredths(u).sort()
}

/// The Gini coefficient of one to `MAX_SEGMENTS` non-negative revenues with
/// a non-zero total: ranks taken in ascending order, the coefficient is
/// `2 * sum(rank * revenue) / (n * total) - (n + 1) / n`.
pub fn gini_coefficient(revenues: &Vec<Fixed>) -> (r: Result<GiniCoefficientResponse, CalculationError>)
    ensures
        r is Err <==> gini_error(units_of(revenues@)) is Some,
        r matches Err(e) ==> gini_error(units_of(revenues@)) == Some(e),
        r matches Ok(x) ==> {
            &&& gini_matches(x, units_of(revenues@))
            // the diversification score is one less the coefficient, to a thousandth
            &&& -1 <= x.diversification_thousandths + x.gini_thousandths - 1000 <= 1
            // the sorted revenues never decrease and are the revenues, reordered
            &&& ascending(ints(x.sorted_revenues_hundredths@))
            &&& x.sorted_revenues_hundredths@.len() == revenues@.len()
            &&& ints(x.sorted_revenues_hundredths@).to_multiset() == in_hundredths(
                units_of(revenues@),
            ).to_multiset()
        },
{
    let ghost u = units_of(revenues@);
    let n = revenues.len();
    if n == 0 {
        return Err(CalculationError::EmptyRevenueList);
    }
    if n > MAX_SEGMENTS {
        return Err(CalculationError::TooManySegments);
    }
    let mut t: i128 = 0;
    let mut big: i128 = 0;
    let mut small: i128 = revenues[0].units() as i128;
    let mut vals: Vec<i128> = Vec::new();
    let mut hundredths: Vec<i128> = Vec::new();
    let mut i: usize = 0;
    assert(u.subrange(0, 0) =~= Seq::<int>::empty());
    while i < n
        invariant
            1 <= n == u.len() <= MAX_SEGMENTS,
            u == units_of(revenues@),
            0 <= i <= n,
            all_non_negative(u.subrange(0, i as int)),
            forall|j: int| 0 <= j < i ==> u[j] <= MAX_UNITS,
            t == total(u.subrange(0, i as int)),
            big == largest(u.subrange(0, i as int)),
            i > 0 ==> small == smallest(u.subrange(0, i as int)),
            i == 0 ==> small == u[0],
            0 <= t <= i * MAX_UNITS,
            0 <= big <= MAX_UNITS,
            0 <= small <= MAX_UNITS || i == 0,
            ints(vals@) == u.subrange(0, i as int),
            ints(hundredths@) == in_hundredths(u.subrange(0, i as int)),
        decreases n - i,
    {
        let x = revenues[i].units() as i128;
        assert(x == u[i as int]);
        let ghost p = u.subrange(0, i as int);
        let ghost grown = u.subrange(0, i + 1);
        assert(grown.drop_last() =~= p);
        assert(grown.last() == x);
        if x < 0 {
            assert(u[i as int] < 0);
            assert(!all_non_negative(u));
            return Err(CalculationError::NegativeRevenues);
        }
        t = t + x;
        if x > big {
            big = x;
        }
        if i == 0 || x < small {
            small = x;
        }
        vals.push(x);
        hundredths.push(round_div_exec(x, 10000));
        assert(ints(vals@) =~= grown);
        assert(in_hundredths(grown) =~= in_hundredths(p).push(round_div(x as int, 10000)));
        assert(ints(hundredths@) =~= in_hundredths(grown));
        assert(all_non_negative(grown)) by {
            assert forall|j: int| 0 <= j < grown.len() implies grown[j] >= 0 by {
                if j < i {
                    assert(grown[j] == p[j]);
                }
            }
        }
        if i == 0 {
            assert(grown.len() == 1);
        }
        i = i + 1;
    }
    assert(u.subrange(0, n as int) =~= u);
    if t == 0 {
        return Err(CalculationError::ZeroTotalRevenue);
    }
    proof {
        lemma_sorted_facts(u);
    }
    let sorted = sort_values(&vals);
    let ghost s = u.sort();
    let mut w: i128 = 0;
    let mut k: usize = 0;
    assert(s.subrange(0, 0) =~= Seq::<int>::empty());
    while k < n
        invariant
            n == s.len() <= MAX_SEGMENTS,
            ints(sorted@) == s,
            forall|j: int| 0 <= j < s.len() ==> 0 <= #[trigger] s[j] <= MAX_UNITS,
            0 <= k <= n,
            w == rank_weighted_total(s.subrange(0, k as int)),
            0 <= w <= k * 1_000_000_000_000_000_000,
        decreases n - k,
    {
        let x = sorted[k];
        assert(x == s[k as int]);
        let ghost grown = s.subrange(0, k + 1);
        assert(grown.drop_last() =~= s.subrange(0, k as int));
        assert(grown.last() == x);
        let rank = (k + 1) as i128;
        assert(0 <= rank * x <= 1_000_000_000_000_000_000) by (nonlinear_arith)
            requires
                0 <= x <= MAX_UNITS,
                1 <= rank <= 1000,
        ;
        w = w + rank * x;
        k = k + 1;
    }
    assert(s.subrange(0, n as int) =~= s);
    let nn = n as i128;
    assert(0 <= nn * t <= 1_000_000_000_000_000_000_000) by (nonlinear_arith)
        requires
            0 <= t <= 1_000_000_000_000_000_000,
            1 <= nn <= 1000,
    ;
    assert(0 <= (nn + 1) * t <= 1_001_000_000_000_000_000_000) by (nonlinear_arith)
        requires
            0 <= t <= 1_000_000_000_000_000_000,
            1 <= nn <= 1000,
    ;
    assert(nn * t > 0) by (nonlinear_arith)
        requires
            t > 0,
            nn >= 1,
    ;
    let gd = nn * t;
    let gn = 2 * w - (nn + 1) * t;
    let level = if 4 * gn < gd {
        GiniLevel::Low
    } else if 5 * gn < 2 * gd {
        GiniLevel::Moderate
    } else {
        GiniLevel::High
    };
    let effective = if gn > 0 {
        round_div_exec(1_000_000 * gd, 10_000 * gn + gd)
    } else {
        100 * nn
    };
    let gini_th = round_div_exec(1000 * gn, gd);
    let div_th = round_div_exec(1000 * (gd - gn), gd);
    proof {
        lemma_complements_round_close(gn as int, gd as int);
    }
    let sorted_h = sort_values(&hundredths);
    proof {
        in_hundredths(u).lemma_sort_ensures();
        let h = in_hundredths(u).sort();
        assert(h.to_multiset().len() == h.len());
        assert(in_hundredths(u).to_multiset().len() == in_hundredths(u).len());
        assert(ints(sorted_h@).len() == sorted_h@.len());
        let leq = |x: int, y: int| x <= y;
        assert(sorted_by(h, leq));
        assert forall|i: int, j: int| 0 <= i < j < h.len() implies h[i] <= h[j] by {
            assert(leq(h[i], h[j]));
        }
    }
    Ok(GiniCoefficientResponse {
        gini_coefficient: Ratio { num: gn, den: gd },
        gini_thousandths: gini_th,
        diversification_thousandths: div_th,
        concentration_level: level,
        largest_segment_share_tenths: round_div_exec(1000 * big, t),
        smallest_segment_share_tenths: round_div_exec(1000 * small, t),
        effective_segments_hundredths: effective,
        sorted_revenues_hundredths: sorted_h,
    })
}

} // verus!
