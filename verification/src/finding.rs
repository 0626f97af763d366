//! Findings: the atomic unit of the scan's output.

use vstd::prelude::*;

use crate::bytes::clone_bytes;
use crate::severity::Severity;

verus! {

/// Stable category code of a finding.
#[derive(Clone, Copy, Debug, PartialEq, Eq, Structural)]
pub enum Category {
    /// An import namespace absent from the known-namespace registry.
    UnknownImport,
    /// An import namespace the registry flags as inherently dangerous.
    DangerousImport,
    /// The same namespace imported more than once.
    DuplicateImport,
    /// A mandatory contract export the package does not declare.
    MissingContractExport,
    /// The same symbol exported twice with the same signature.
    DuplicateExport,
    /// The same symbol exported twice with different signatures.
    ConflictingExport,
}

/// The textual code of each category, for presentation layers.
pub open spec fn category_code(c: Category) -> Seq<char> {
    match c {
        Category::UnknownImport => "unknown-import"@,
        Category::DangerousImport => "dangerous-import"@,
        Category::DuplicateImport => "duplicate-import"@,
        Category::MissingContractExport => "missing-contract-export"@,
        Category::DuplicateExport => "duplicate-export"@,
        Category::ConflictingExport => "conflicting-export"@,
    }
}

impl Category {
    /// The stable textual code of this category.
    pub fn code(self) -> (s: &'static str)
        ensures
            s@ == category_code(self),
    {
        match self {
            Category::UnknownImport => "unknown-import",
            Category::DangerousImport => "dangerous-import",
            Category::DuplicateImport => "duplicate-import",
            Category::MissingContractExport => "missing-contract-export",
            Category::DuplicateExport => "duplicate-export",
            Category::ConflictingExport => "conflicting-export",
        }
    }
}

/// One detected issue.  `message` carries the identifier the finding is
/// about (an import namespace or an export symbol); `location` is the
/// one-based ordinal of the manifest record that caused it, where one
/// exists.
#[derive(Debug)]
pub struct Finding {
    pub severity: Severity,
    pub category: Category,
    pub message: Vec<u8>,
    pub location: Option<u32>,
}

/// Mathematical model of a `Finding`.
#[verifier::ext_equal]
pub struct FindingView {
    pub severity: Severity,
    pub category: Category,
    pub message: Seq<u8>,
    pub location: Option<u32>,
}

impl View for Finding {
    type V = FindingView;

    open spec fn view(&self) -> FindingView {
        FindingView {
            severity: self.severity,
            category: self.category,
            message: self.message@,
            location: self.location,
        }
    }
}

/// The models of a sequence of findings.
pub open spec fn finding_views(s: Seq<Finding>) -> Seq<FindingView> {
    Seq::new(s.len(), |i: int| s[i]@)
}

impl Clone for Finding {
    /// A clone models the same finding.
    fn clone(&self) -> (r: Finding)
        ensures
            r@ == self@,
    {
        Finding {
            severity: self.severity,
            category: self.category,
            message: clone_bytes(&self.message),
            location: self.location,
        }
    }
}

} // verus!
