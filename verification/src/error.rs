//! The error surfaced when formatting cannot proceed.
use crate::Span;
use vstd::prelude::*;

verus! {

/// Formatting failure: a statement kind the formatter does not handle, with
/// the source location of the offending construct.
#[derive(Clone, Copy, PartialEq, Eq, Structural, Debug)]
pub enum Error {
    UnsupportedStatement { span: Span },
}

impl Error {
    /// A short description of the failure, for reporting.
    pub fn message(&self) -> (r: &'static str)
        ensures
            r@ == "unsupported statement kind"@,
    {
        match self {
            Error::UnsupportedStatement { .. } => "unsupported statement kind",
        }
    }
}

} // verus!
