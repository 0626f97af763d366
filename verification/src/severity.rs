//! Severity levels for findings, totally ordered by a numeric rank.

use vstd::prelude::*;

verus! {

/// How serious a finding is.  The order is total:
/// `Info < Low < Medium < High < Critical`.
#[derive(Clone, Copy, Debug, PartialEq, Eq, Structural)]
pub enum Severity {
    Info,
    Low,
    Medium,
    High,
    Critical,
}

/// Numeric backing of the severity order.
pub open spec fn sev_rank(s: Severity) -> int {
    match s {
        Severity::Info => 0,
        Severity::Low => 1,
        Severity::Medium => 2,
        Severity::High => 3,
        Severity::Critical => 4,
    }
}

/// `a` is at least as severe as `b`.
pub open spec fn sev_ge(a: Severity, b: Severity) -> bool {
    sev_rank(a) >= sev_rank(b)
}

impl Severity {
    /// The numeric rank backing the total order.
    pub fn rank(self) -> (r: u8)
        ensures
            r as int == sev_rank(self),
    {
        match self {
            Severity::Info => 0,
            Severity::Low => 1,
            Severity::Medium => 2,
            Severity::High => 3,
            Severity::Critical => 4,
        }
    }

    /// Compare two severities under the total order.
    pub fn at_least(self, other: Severity) -> (r: bool)
        ensures
            r == sev_ge(self, other),
    {
        self.rank() >= other.rank()
    }
}

} // verus!
