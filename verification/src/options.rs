//! The configuration snapshot a scan runs under.

use vstd::prelude::*;

verus! {

/// Policy toggles for one scan.  Passed by value; never mutated during
/// scanning.
#[derive(Clone, Copy, Debug, PartialEq, Eq, Structural)]
pub struct ScanOptions {
    /// When set, a package that does not declare the mandatory contract
    /// exports gets a `Critical` finding; when clear, an `Info` one.
    pub require_contract_exports: bool,
    /// When set, an import of an unknown namespace is reported at
    /// `Medium`; when clear, at `High`.  The finding is emitted either way.
    pub allow_unknown_imports: bool,
}

/// The default policy: exports required, unknown imports allowed
/// (reported as a warning, not an error).
pub open spec fn default_options() -> ScanOptions {
    ScanOptions { require_contract_exports: true, allow_unknown_imports: true }
}

impl Default for ScanOptions {
    fn default() -> (r: Self)
        ensures
            r == default_options(),
    {
        ScanOptions { require_contract_exports: true, allow_unknown_imports: true }
    }
}

} // verus!
