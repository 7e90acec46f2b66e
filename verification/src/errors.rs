//! The decode-error taxonomy. Every decoder returns the first failure
//! verbatim; nothing is wrapped or summarized away.

use vstd::prelude::*;

use crate::formula::{FormulaError, FormulaErrorView};

verus! {

/// Which header field held an unknown tag byte.
#[derive(Debug, Clone, Copy, PartialEq, Eq, Structural)]
pub enum HeaderError {
    InvalidMagic,
    InvalidQuestGiverRace,
    InvalidCompletionCondition,
    InvalidQuestPlanetType,
    InvalidPlayerStatus,
    InvalidPlayerRace,
    InvalidRelationChange,
}

/// Which parameter field held an unknown tag byte.
#[derive(Debug, Clone, Copy, PartialEq, Eq, Structural)]
pub enum ParameterError {
    InvalidType,
    InvalidCriticalValue,
}

/// Which location field held an unknown tag byte.
#[derive(Debug, Clone, Copy, PartialEq, Eq, Structural)]
pub enum LocationError {
    InvalidLocationType,
}

/// Which parameter-change field held an unknown tag byte.
#[derive(Debug, Clone, Copy, PartialEq, Eq, Structural)]
pub enum ParameterChangeError {
    InvalidShowType,
    InvalidChangeType,
}

/// A decode failure. `Incomplete`: fewer bytes remain than a fixed-width read
/// requires. `ExpectedEnd`: undecoded bytes remain after the declared record
/// counts are satisfied. `InvalidFormula` carries the offending source text
/// together with the formula scanner's own positioned error.
#[derive(Debug, Clone, PartialEq, Eq)]
pub enum ParsingError {
    InvalidHeader(HeaderError),
    InvalidParameter(ParameterError),
    InvalidLocation(LocationError),
    InvalidParameterChange(ParameterChangeError),
    InvalidBool,
    InvalidString,
    Incomplete,
    ExpectedEnd,
    InvalidFormula { error: FormulaError, formula: String },
}

pub enum ParsingErrorView {
    InvalidHeader(HeaderError),
    InvalidParameter(ParameterError),
    InvalidLocation(LocationError),
    InvalidParameterChange(ParameterChangeError),
    InvalidBool,
    InvalidString,
    Incomplete,
    ExpectedEnd,
    InvalidFormula { error: FormulaErrorView, formula: Seq<char> },
}

impl View for ParsingError {
    type V = ParsingErrorView;

    open spec fn view(&self) -> ParsingErrorView {
        match self {
            ParsingError::InvalidHeader(e) => ParsingErrorView::InvalidHeader(*e),
            ParsingError::InvalidParameter(e) => ParsingErrorView::InvalidParameter(*e),
            ParsingError::InvalidLocation(e) => ParsingErrorView::InvalidLocation(*e),
            ParsingError::InvalidParameterChange(e) => ParsingErrorView::InvalidParameterChange(
                *e,
            ),
            ParsingError::InvalidBool => ParsingErrorView::InvalidBool,
            ParsingError::InvalidString => ParsingErrorView::InvalidString,
            ParsingError::Incomplete => ParsingErrorView::Incomplete,
            ParsingError::ExpectedEnd => ParsingErrorView::ExpectedEnd,
            ParsingError::InvalidFormula { error, formula } => ParsingErrorView::InvalidFormula {
                error: error@,
                formula: formula@,
            },
        }
    }
}

} // verus!
