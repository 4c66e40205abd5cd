use vstd::prelude::*;
use vstd::string::StringExecFns;

use crate::text::{decimal_digits, decimal_text};

verus! {

/// Why a calculation refused its inputs.
#[derive(Clone, Copy, Debug, PartialEq, Eq, Structural)]
pub enum CalculationError {
    SlaOutOfRange,
    ModernRevenueOutOfRange,
    SatisfactionOutOfRange,
    NegativePipeline,
    InvalidRevenueAmounts,
    CategoriesMismatch,
    TooFewSegments,
    TooManySegments,
    NegativeSegment { index: usize },
    NonPositiveTotal,
    ZeroCostGrowth,
    EmptySegments,
    ZeroTotalRevenue,
    EmptyRevenueList,
    NegativeRevenues,
    NonPositivePrior,
}

impl CalculationError {
    pub open spec fn text(self) -> Seq<char> {
        match self {
            CalculationError::SlaOutOfRange => "SLA compliance must be between 0.0 and 1.0"@,
            CalculationError::ModernRevenueOutOfRange =>
                "Modern revenue percentage must be between 0.0 and 1.0"@,
            CalculationError::SatisfactionOutOfRange =>
                "Customer satisfaction must be between 0.0 and 100.0"@,
            CalculationError::NegativePipeline => "Pipeline coverage must be >= 0.0"@,
            CalculationError::InvalidRevenueAmounts =>
                "All revenue amounts must be non-negative and total must be positive"@,
            CalculationError::CategoriesMismatch => "Revenue categories must sum to total revenue"@,
            CalculationError::TooFewSegments => "Must contain at least 2 segments"@,
            CalculationError::TooManySegments => "Must contain at most 1000 segments"@,
            CalculationError::NegativeSegment { index } => "Revenue at index "@ + decimal_digits(
                index as nat,
            ) + " cannot be negative"@,
            CalculationError::NonPositiveTotal => "Total revenue must be positive"@,
            CalculationError::ZeroCostGrowth => "Cost growth rate cannot be zero"@,
            CalculationError::EmptySegments => "Segments cannot be empty"@,
            CalculationError::ZeroTotalRevenue => "Total revenue cannot be zero"@,
            CalculationError::EmptyRevenueList => "Revenue list cannot be empty"@,
            CalculationError::NegativeRevenues => "Revenues cannot be negative"@,
            CalculationError::NonPositivePrior => "Prior period revenue must be positive"@,
        }
    }

    /// The message that reports this error.
    pub fn message(&self) -> (r: String)
        ensures
            r@ == self.text(),
    {
        match self {
            CalculationError::SlaOutOfRange => String::from_str(
                "SLA compliance must be between 0.0 and 1.0",
            ),
            CalculationError::ModernRevenueOutOfRange => String::from_str(
                "Modern revenue percentage must be between 0.0 and 1.0",
            ),
            CalculationError::SatisfactionOutOfRange => String::from_str(
                "Customer satisfaction must be between 0.0 and 100.0",
            ),
            CalculationError::NegativePipeline => String::from_str(
                "Pipeline coverage must be >= 0.0",
            ),
            CalculationError::InvalidRevenueAmounts => String::from_str(
                "All revenue amounts must be non-negative and total must be positive",
            ),
            CalculationError::CategoriesMismatch => String::from_str(
                "Revenue categories must sum to total revenue",
            ),
            CalculationError::TooFewSegments => String::from_str(
                "Must contain at least 2 segments",
            ),
            CalculationError::TooManySegments => String::from_str(
                "Must contain at most 1000 segments",
            ),
            CalculationError::NegativeSegment { index } => {
                let mut m = String::from_str("Revenue at index ");
                m.append(decimal_text(*index as u128).as_str());
                m.append(" cannot be negative");
                m
            },
            CalculationError::NonPositiveTotal => String::from_str(
                "Total revenue must be positive",
            ),
            CalculationError::ZeroCostGrowth => String::from_str("Cost growth rate cannot be zero"),
            CalculationError::EmptySegments => String::from_str("Segments cannot be empty"),
            CalculationError::ZeroTotalRevenue => String::from_str("Total revenue cannot be zero"),
            CalculationError::EmptyRevenueList => String::from_str("Revenue list cannot be empty"),
            CalculationError::NegativeRevenues => String::from_str("Revenues cannot be negative"),
            CalculationError::NonPositivePrior => String::from_str(
                "Prior period revenue must be positive",
            ),
        }
    }
}

} // verus!
