//! The export verifier: does the package declare the contract the host
//! requires, and does it declare anything twice?
//!
//! The host's mandatory capability set holds the single symbol
//! `vtx_entry`.  When it is missing the finding is `Critical` under
//! `require_contract_exports` and `Info` otherwise.  A symbol exported
//! twice with the same signature is noise (`Info`); with different
//! signatures it is an ambiguous contract (`High`).

use vstd::prelude::*;

use crate::bytes::bytes_eq;
use crate::bytes::bytes_of;
use crate::bytes::clone_bytes;
use crate::finding::Category;
use crate::finding::Finding;
use crate::finding::FindingView;
use crate::finding::finding_views;
use crate::options::ScanOptions;
use crate::package::ExportView;
use crate::package::MAX_ARCHIVE_BYTES;
use crate::package::Package;
use crate::package::PackageView;
use crate::severity::Severity;
use crate::severity::sev_ge;

verus! {

/// The one symbol of the host's mandatory capability set: `vtx_entry`.
pub open spec fn mandatory_export() -> Seq<u8> {
    seq![118u8, 116u8, 120u8, 95u8, 101u8, 110u8, 116u8, 114u8, 121u8]
}

/// The mandatory export symbol as a vector.
pub fn mandatory_export_bytes() -> (v: Vec<u8>)
    ensures
        v@ == mandatory_export(),
{
    let v = bytes_of([118, 116, 120, 95, 101, 110, 116, 114, 121]);
    proof {
        assert(v@ =~= mandatory_export());
    }
    v
}

/// The package declares an export of the given name.
pub open spec fn declares(exports: Seq<ExportView>, name: Seq<u8>) -> bool {
    exists|j: int| 0 <= j < exports.len() && (#[trigger] exports[j]).name == name
}

/// The finding for a missing mandatory export, if any.
pub open spec fn missing_findings(exports: Seq<ExportView>, opts: ScanOptions) -> Seq<
    FindingView,
> {
    if declares(exports, mandatory_export()) {
        Seq::empty()
    } else {
        seq![
            FindingView {
                severity: if opts.require_contract_exports {
                    Severity::Critical
                } else {
                    Severity::Info
                },
                category: Category::MissingContractExport,
                message: mandatory_export(),
                location: None,
            },
        ]
    }
}

/// The first index at or after `j` exporting `name`, or the length.
pub open spec fn first_name_at(exports: Seq<ExportView>, name: Seq<u8>, j: int) -> int
    decreases exports.len() - j,
{
    if j >= exports.len() {
        exports.len() as int
    } else if exports[j].name == name {
        j
    } else {
        first_name_at(exports, name, j + 1)
    }
}

/// The search result never precedes its starting point.
pub proof fn lemma_first_name_at_ge(exports: Seq<ExportView>, name: Seq<u8>, j: int)
    requires
        j <= exports.len(),
    ensures
        first_name_at(exports, name, j) >= j,
    decreases exports.len() - j,
{
    if j < exports.len() && exports[j].name != name {
        lemma_first_name_at_ge(exports, name, j + 1);
    }
}

/// Skipping over non-matching exports leaves the search unchanged.
pub proof fn lemma_first_name_at_skip(exports: Seq<ExportView>, name: Seq<u8>, from: int, upto: int)
    requires
        0 <= from <= upto <= exports.len(),
        forall|j: int| from <= j < upto ==> (#[trigger] exports[j]).name != name,
    ensures
        first_name_at(exports, name, from) == first_name_at(exports, name, upto),
    decreases upto - from,
{
    if from < upto {
        lemma_first_name_at_skip(exports, name, from + 1, upto);
    }
}

/// The duplicate-export findings the `k`-th export contributes.
pub open spec fn dup_findings_at(exports: Seq<ExportView>, k: int) -> Seq<FindingView> {
    let e = exports[k];
    let f = first_name_at(exports, e.name, 0);
    if f < k {
        if exports[f].signature == e.signature {
            seq![
                FindingView {
                    severity: Severity::Info,
                    category: Category::DuplicateExport,
                    message: e.name,
                    location: Some(e.line),
                },
            ]
        } else {
            seq![
                FindingView {
                    severity: Severity::High,
                    category: Category::ConflictingExport,
                    message: e.name,
                    location: Some(e.line),
                },
            ]
        }
    } else {
        Seq::empty()
    }
}

/// The duplicate-export findings of the first `k` exports.
pub open spec fn dup_upto(exports: Seq<ExportView>, k: int) -> Seq<FindingView>
    decreases k,
{
    if k <= 0 {
        Seq::empty()
    } else {
        dup_upto(exports, k - 1) + dup_findings_at(exports, k - 1)
    }
}

/// What verifying a package's exports yields: the missing-contract
/// finding, if any, then the duplicate findings in declaration order.
pub open spec fn spec_verify_exports(pkg: PackageView, opts: ScanOptions) -> Seq<FindingView> {
    missing_findings(pkg.exports, opts) + dup_upto(pkg.exports, pkg.exports.len() as int)
}

/// Each export contributes at most one duplicate finding, about its own
/// name.
pub proof fn lemma_dup_upto_bounds(exports: Seq<ExportView>, k: int)
    requires
        k <= exports.len(),
        forall|i: int|
            0 <= i < exports.len() ==> (#[trigger] exports[i]).name.len() <= MAX_ARCHIVE_BYTES,
    ensures
        dup_upto(exports, k).len() <= (if k < 0 {
            0
        } else {
            k
        }),
        forall|i: int|
            0 <= i < dup_upto(exports, k).len() ==> (#[trigger] dup_upto(exports, k)[i]).message.len()
                <= MAX_ARCHIVE_BYTES,
    decreases k,
{
    if k > 0 {
        lemma_dup_upto_bounds(exports, k - 1);
    }
}

/// Verify the package's exports under the given policy.
#[verifier::loop_isolation(false)]
pub fn verify_exports(pkg: &Package, opts: &ScanOptions) -> (out: Vec<Finding>)
    ensures
        finding_views(out@) == spec_verify_exports(pkg@, *opts),
{
    let mandatory = mandatory_export_bytes();
    let mut out: Vec<Finding> = Vec::new();
    let count = pkg.exports.len();
    let mut found = false;
    let mut j: usize = 0;
    while j < count && !found
        invariant
            0 <= j <= count,
            found ==> declares(pkg@.exports, mandatory_export()),
            !found ==> forall|t: int|
                0 <= t < j ==> (#[trigger] pkg@.exports[t]).name != mandatory_export(),
        decreases count - j,
    {
        if bytes_eq(&pkg.exports[j].name, &mandatory) {
            proof {
                assert(pkg@.exports[j as int].name == mandatory_export());
            }
            found = true;
        }
        j = j + 1;
    }
    if !found {
        proof {
            assert(!declares(pkg@.exports, mandatory_export()));
        }
        let sev = if opts.require_contract_exports {
            Severity::Critical
        } else {
            Severity::Info
        };
        out.push(
            Finding {
                severity: sev,
                category: Category::MissingContractExport,
                message: mandatory_export_bytes(),
                location: None,
            },
        );
    }
    proof {
        assert(finding_views(out@) =~~= missing_findings(pkg@.exports, *opts));
    }
    let ghost missing = finding_views(out@);
    let mut k: usize = 0;
    while k < count
        invariant
            0 <= k <= count,
            finding_views(out@) == missing + dup_upto(pkg@.exports, k as int),
        decreases count - k,
    {
        let ghost before = finding_views(out@);
        let mut f: usize = k;
        let mut t: usize = 0;
        while t < k && f == k
            invariant
                0 <= t <= k,
                f <= k,
                f == k ==> forall|u: int|
                    0 <= u < t ==> (#[trigger] pkg@.exports[u]).name != pkg@.exports[k as int].name,
                f < k ==> f < t && pkg@.exports[f as int].name == pkg@.exports[k as int].name
                    && forall|u: int|
                    0 <= u < f ==> (#[trigger] pkg@.exports[u]).name != pkg@.exports[k as int].name,
            decreases k - t,
        {
            if bytes_eq(&pkg.exports[t].name, &pkg.exports[k].name) {
                f = t;
            }
            t = t + 1;
        }
        if f < k {
            proof {
                lemma_first_name_at_skip(pkg@.exports, pkg@.exports[k as int].name, 0, f as int);
            }
            proof {
                assert(pkg@.exports[f as int].name == pkg@.exports[k as int].name);
                assert(first_name_at(pkg@.exports, pkg@.exports[k as int].name, 0) == f as int);
            }
            let e = &pkg.exports[k];
            if bytes_eq(&pkg.exports[f].signature, &e.signature) {
                out.push(
                    Finding {
                        severity: Severity::Info,
                        category: Category::DuplicateExport,
                        message: clone_bytes(&e.name),
                        location: Some(e.line),
                    },
                );
            } else {
                out.push(
                    Finding {
                        severity: Severity::High,
                        category: Category::ConflictingExport,
                        message: clone_bytes(&e.name),
                        location: Some(e.line),
                    },
                );
            }
        } else {
            proof {
                assert(f == k);
                lemma_first_name_at_skip(pkg@.exports, pkg@.exports[k as int].name, 0, k as int);
                lemma_first_name_at_ge(pkg@.exports, pkg@.exports[k as int].name, k as int);
            }
        }
        proof {
            assert(finding_views(out@) =~~= before + dup_findings_at(pkg@.exports, k as int));
        }
        k = k + 1;
    }
    out
}

/// Dropping the contract-export requirement never raises a finding's
/// severity: the two verifications agree finding for finding on
/// category, subject and location; the missing-contract finding weighs
/// at most as much without the requirement, and every other finding is
/// unchanged.
pub proof fn lemma_relax_exports_never_raises(
    exports: Seq<ExportView>,
    o_req: ScanOptions,
    o_opt: ScanOptions,
)
    requires
        o_req.require_contract_exports == true,
        o_opt.require_contract_exports == false,
    ensures
        ({
            let fs_req = missing_findings(exports, o_req) + dup_upto(exports, exports.len() as int);
            let fs_opt = missing_findings(exports, o_opt) + dup_upto(exports, exports.len() as int);
            fs_req.len() == fs_opt.len() && forall|i: int|
                0 <= i < fs_req.len() ==> {
                    let fr = #[trigger] fs_req[i];
                    let fo = fs_opt[i];
                    fo.category == fr.category && fo.message == fr.message && fo.location
                        == fr.location && sev_ge(fr.severity, fo.severity) && (fr.category
                        != Category::MissingContractExport ==> fo == fr)
                }
        }),
{
    assert(missing_findings(exports, o_req).len() == missing_findings(exports, o_opt).len());
}

/// For any fixed package, dropping the contract-export requirement
/// yields the same verification finding for finding, except that the
/// missing-contract finding weighs at most as much.
pub proof fn lemma_relax_exports_monotone(pkg: PackageView, o_req: ScanOptions, o_opt: ScanOptions)
    requires
        o_req.require_contract_exports == true,
        o_opt.require_contract_exports == false,
    ensures
        spec_verify_exports(pkg, o_req).len() == spec_verify_exports(pkg, o_opt).len(),
        forall|i: int|
            0 <= i < spec_verify_exports(pkg, o_req).len() ==> {
                let fr = #[trigger] spec_verify_exports(pkg, o_req)[i];
                let fo = spec_verify_exports(pkg, o_opt)[i];
                fo.category == fr.category && fo.message == fr.message && fo.location
                    == fr.location && sev_ge(fr.severity, fo.severity) && (fr.category
                    != Category::MissingContractExport ==> fo == fr)
            },
{
    lemma_relax_exports_never_raises(pkg.exports, o_req, o_opt);
}

} // verus!
