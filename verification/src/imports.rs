//! The import analyzer: one check per declared import, in declaration
//! order.
//!
//! A namespace already imported earlier is reported as noise (`Info`).
//! Otherwise a registry-known dangerous namespace is reported at the
//! registry's severity, an unknown namespace at `Medium` when unknown
//! imports are allowed and at `High` when they are denied.  An unknown
//! import is always reported; the policy toggle changes only its weight.

use vstd::prelude::*;

use crate::bytes::bytes_eq;
use crate::bytes::clone_bytes;
use crate::finding::Category;
use crate::finding::Finding;
use crate::finding::FindingView;
use crate::finding::finding_views;
use crate::options::ScanOptions;
use crate::package::ImportView;
use crate::package::MAX_ARCHIVE_BYTES;
use crate::package::Package;
use crate::package::PackageView;
use crate::registry::Registry;
use crate::registry::RegistryView;
use crate::registry::reg_lookup;
use crate::severity::Severity;
use crate::severity::sev_ge;

verus! {

/// The severity of an unknown-import finding under the given policy.
pub open spec fn unknown_severity(opts: ScanOptions) -> Severity {
    if opts.allow_unknown_imports {
        Severity::Medium
    } else {
        Severity::High
    }
}

/// The `k`-th import repeats an earlier declaration.
pub open spec fn dup_before(imports: Seq<ImportView>, k: int) -> bool {
    exists|j: int| 0 <= j < k && imports[j].namespace == imports[k].namespace
}

/// The findings the `k`-th import contributes.
pub open spec fn import_findings_at(
    imports: Seq<ImportView>,
    reg: RegistryView,
    opts: ScanOptions,
    k: int,
) -> Seq<FindingView> {
    let imp = imports[k];
    if dup_before(imports, k) {
        seq![
            FindingView {
                severity: Severity::Info,
                category: Category::DuplicateImport,
                message: imp.namespace,
                location: Some(imp.line),
            },
        ]
    } else {
        match reg_lookup(reg, imp.namespace) {
            Some(danger) => match danger {
                Some(sev) => seq![
                    FindingView {
                        severity: sev,
                        category: Category::DangerousImport,
                        message: imp.namespace,
                        location: Some(imp.line),
                    },
                ],
                None => Seq::empty(),
            },
            None => seq![
                FindingView {
                    severity: unknown_severity(opts),
                    category: Category::UnknownImport,
                    message: imp.namespace,
                    location: Some(imp.line),
                },
            ],
        }
    }
}

/// The findings of the first `k` imports, concatenated in order.
pub open spec fn analyze_upto(
    imports: Seq<ImportView>,
    reg: RegistryView,
    opts: ScanOptions,
    k: int,
) -> Seq<FindingView>
    decreases k,
{
    if k <= 0 {
        Seq::empty()
    } else {
        analyze_upto(imports, reg, opts, k - 1) + import_findings_at(imports, reg, opts, k - 1)
    }
}

/// What analyzing a package's imports yields.
pub open spec fn spec_analyze(pkg: PackageView, reg: RegistryView, opts: ScanOptions) -> Seq<
    FindingView,
> {
    analyze_upto(pkg.imports, reg, opts, pkg.imports.len() as int)
}

/// Each import contributes at most one finding, about its own namespace.
pub proof fn lemma_analyze_bounds(
    imports: Seq<ImportView>,
    reg: RegistryView,
    opts: ScanOptions,
    k: int,
)
    requires
        k <= imports.len(),
        forall|i: int|
            0 <= i < imports.len() ==> (#[trigger] imports[i]).namespace.len()
                <= MAX_ARCHIVE_BYTES,
    ensures
        analyze_upto(imports, reg, opts, k).len() <= (if k < 0 {
            0
        } else {
            k
        }),
        forall|i: int|
            0 <= i < analyze_upto(imports, reg, opts, k).len() ==> (#[trigger] analyze_upto(
                imports,
                reg,
                opts,
                k,
            )[i]).message.len() <= MAX_ARCHIVE_BYTES,
    decreases k,
{
    if k > 0 {
        lemma_analyze_bounds(imports, reg, opts, k - 1);
    }
}

/// Analyze the package's imports against the registry under the given
/// policy.
#[verifier::loop_isolation(false)]
pub fn analyze(pkg: &Package, reg: &Registry, opts: &ScanOptions) -> (out: Vec<Finding>)
    ensures
        finding_views(out@) == spec_analyze(pkg@, reg@, *opts),
{
    let mut out: Vec<Finding> = Vec::new();
    let count = pkg.imports.len();
    let mut k: usize = 0;
    while k < count
        invariant
            0 <= k <= count,
            finding_views(out@) == analyze_upto(pkg@.imports, reg@, *opts, k as int),
        decreases count - k,
    {
        let ghost before = finding_views(out@);
        let mut dup = false;
        let mut j: usize = 0;
        while j < k && !dup
            invariant
                0 <= j <= k,
                dup ==> dup_before(pkg@.imports, k as int),
                !dup ==> forall|t: int|
                    0 <= t < j ==> (#[trigger] pkg@.imports[t]).namespace != pkg@.imports[k as int].namespace,
            decreases k - j,
        {
            if bytes_eq(&pkg.imports[j].namespace, &pkg.imports[k].namespace) {
                proof {
                    assert(pkg@.imports[j as int].namespace == pkg@.imports[k as int].namespace);
                }
                dup = true;
            }
            j = j + 1;
        }
        if dup {
            let imp = &pkg.imports[k];
            out.push(
                Finding {
                    severity: Severity::Info,
                    category: Category::DuplicateImport,
                    message: clone_bytes(&imp.namespace),
                    location: Some(imp.line),
                },
            );
        } else {
            proof {
                assert(!dup_before(pkg@.imports, k as int));
            }
            let imp = &pkg.imports[k];
            match reg.lookup(&imp.namespace) {
                Some(danger) => match danger {
                    Some(sev) => {
                        out.push(
                            Finding {
                                severity: sev,
                                category: Category::DangerousImport,
                                message: clone_bytes(&imp.namespace),
                                location: Some(imp.line),
                            },
                        );
                    },
                    None => {},
                },
                None => {
                    let sev = if opts.allow_unknown_imports {
                        Severity::Medium
                    } else {
                        Severity::High
                    };
                    out.push(
                        Finding {
                            severity: sev,
                            category: Category::UnknownImport,
                            message: clone_bytes(&imp.namespace),
                            location: Some(imp.line),
                        },
                    );
                },
            }
        }
        proof {
            assert(finding_views(out@) =~~= before + import_findings_at(
                pkg@.imports,
                reg@,
                *opts,
                k as int,
            ));
        }
        k = k + 1;
    }
    out
}

/// Denying unknown imports never lowers a finding's severity: the two
/// analyses agree finding for finding on category, subject and location;
/// unknown-import findings weigh at least as much under denial, and every
/// other finding is unchanged.
pub proof fn lemma_deny_unknown_never_lowers(
    imports: Seq<ImportView>,
    reg: RegistryView,
    o_allow: ScanOptions,
    o_deny: ScanOptions,
    k: int,
)
    requires
        o_allow.allow_unknown_imports == true,
        o_deny.allow_unknown_imports == false,
    ensures
        analyze_upto(imports, reg, o_deny, k).len() == analyze_upto(
            imports,
            reg,
            o_allow,
            k,
        ).len(),
        forall|i: int|
            0 <= i < analyze_upto(imports, reg, o_allow, k).len() ==> {
                let fa = #[trigger] analyze_upto(imports, reg, o_allow, k)[i];
                let fd = analyze_upto(imports, reg, o_deny, k)[i];
                fd.category == fa.category && fd.message == fa.message && fd.location
                    == fa.location && sev_ge(fd.severity, fa.severity) && (fa.category
                    != Category::UnknownImport ==> fd == fa)
            },
    decreases k,
{
    if k > 0 {
        lemma_deny_unknown_never_lowers(imports, reg, o_allow, o_deny, k - 1);
        let fa1 = import_findings_at(imports, reg, o_allow, k - 1);
        let fd1 = import_findings_at(imports, reg, o_deny, k - 1);
        assert(fd1.len() == fa1.len());
    }
}

/// For any fixed package, denying unknown imports yields the same
/// analysis finding for finding, except that unknown-import findings
/// weigh at least as much.
pub proof fn lemma_deny_unknown_monotone(
    pkg: PackageView,
    reg: RegistryView,
    o_allow: ScanOptions,
    o_deny: ScanOptions,
)
    requires
        o_allow.allow_unknown_imports == true,
        o_deny.allow_unknown_imports == false,
    ensures
        spec_analyze(pkg, reg, o_deny).len() == spec_analyze(pkg, reg, o_allow).len(),
        forall|i: int|
            0 <= i < spec_analyze(pkg, reg, o_allow).len() ==> {
                let fa = #[trigger] spec_analyze(pkg, reg, o_allow)[i];
                let fd = spec_analyze(pkg, reg, o_deny)[i];
                fd.category == fa.category && fd.message == fa.message && fd.location
                    == fa.location && sev_ge(fd.severity, fa.severity) && (fa.category
                    != Category::UnknownImport ==> fd == fa)
            },
{
    lemma_deny_unknown_never_lowers(pkg.imports, reg, o_allow, o_deny, pkg.imports.len() as int);
}

} // verus!
