//! The rule engine: runs every check over the loaded package, collects
//! the findings in a fixed check order, deduplicates exact duplicates,
//! and builds the report.

use vstd::prelude::*;

use crate::bytes::bytes_eq;
use crate::bytes::clone_bytes;
use crate::exports::lemma_dup_upto_bounds;
use crate::exports::spec_verify_exports;
use crate::exports::verify_exports;
use crate::finding::Finding;
use crate::finding::FindingView;
use crate::finding::finding_views;
use crate::imports::analyze;
use crate::imports::lemma_analyze_bounds;
use crate::imports::spec_analyze;
use crate::options::ScanOptions;
use crate::package::MAX_ARCHIVE_BYTES;
use crate::package::Package;
use crate::package::PackageView;
use crate::registry::Registry;
use crate::registry::RegistryView;
use crate::report::LEN_LIMIT;
use crate::report::Report;
use crate::report::ReportView;
use crate::report::spec_build;
use crate::report::build;

verus! {

/// Two findings are exact duplicates: same category, same subject, same
/// location.
pub open spec fn key_eq(a: FindingView, b: FindingView) -> bool {
    a.category == b.category && a.message == b.message && a.location == b.location
}

/// Some finding of `fs` duplicates `g`.
pub open spec fn key_in(fs: Seq<FindingView>, g: FindingView) -> bool {
    exists|j: int| 0 <= j < fs.len() && key_eq(#[trigger] fs[j], g)
}

/// The first `k` findings with exact duplicates of earlier ones dropped.
pub open spec fn dedup_upto(fs: Seq<FindingView>, k: int) -> Seq<FindingView>
    decreases k,
{
    if k <= 0 {
        Seq::empty()
    } else {
        dedup_upto(fs, k - 1) + (if exists|j: int|
            0 <= j < k - 1 && key_eq(#[trigger] fs[j], fs[k - 1]) {
            Seq::empty()
        } else {
            seq![fs[k - 1]]
        })
    }
}

/// The findings with exact duplicates of earlier ones dropped.
pub open spec fn spec_dedup(fs: Seq<FindingView>) -> Seq<FindingView> {
    dedup_upto(fs, fs.len() as int)
}

/// A key occurs among the first `k` findings iff it survives into their
/// deduplication.
pub proof fn lemma_dedup_key(fs: Seq<FindingView>, k: int, g: FindingView)
    requires
        k <= fs.len(),
    ensures
        key_in(dedup_upto(fs, k), g) <==> exists|j: int|
            0 <= j < k && key_eq(#[trigger] fs[j], g),
    decreases k,
{
    if k > 0 {
        lemma_dedup_key(fs, k - 1, g);
        let pre = dedup_upto(fs, k - 1);
        let whole = dedup_upto(fs, k);
        if exists|j: int| 0 <= j < k && key_eq(#[trigger] fs[j], g) {
            let j = choose|j: int| 0 <= j < k && key_eq(#[trigger] fs[j], g);
            if j < k - 1 {
                let t = choose|t: int| 0 <= t < pre.len() && key_eq(#[trigger] pre[t], g);
                assert(key_eq(whole[t], g));
            } else {
                if exists|u: int| 0 <= u < k - 1 && key_eq(#[trigger] fs[u], g) {
                    let u = choose|u: int| 0 <= u < k - 1 && key_eq(#[trigger] fs[u], g);
                    let t = choose|t: int| 0 <= t < pre.len() && key_eq(#[trigger] pre[t], g);
                    assert(key_eq(whole[t], g));
                } else {
                    assert(!(exists|u: int|
                        0 <= u < k - 1 && key_eq(#[trigger] fs[u], fs[k - 1])));
                    assert(whole[whole.len() - 1] == fs[k - 1]);
                    assert(key_eq(whole[whole.len() - 1], g));
                }
            }
        }
        if key_in(whole, g) {
            let t = choose|t: int| 0 <= t < whole.len() && key_eq(#[trigger] whole[t], g);
            if t < pre.len() {
                assert(key_eq(pre[t], g));
            } else {
                assert(whole[t] == fs[k - 1]);
            }
        }
    }
}

/// Deduplication keeps a subsequence: lengths never grow and every bound
/// on the subjects carries over.
pub proof fn lemma_dedup_bounds(fs: Seq<FindingView>, k: int, lim: int)
    requires
        k <= fs.len(),
        forall|i: int| 0 <= i < fs.len() ==> (#[trigger] fs[i]).message.len() <= lim,
    ensures
        dedup_upto(fs, k).len() <= (if k < 0 {
            0
        } else {
            k
        }),
        forall|i: int|
            0 <= i < dedup_upto(fs, k).len() ==> (#[trigger] dedup_upto(fs, k)[i]).message.len()
                <= lim,
    decreases k,
{
    if k > 0 {
        lemma_dedup_bounds(fs, k - 1, lim);
    }
}

/// Whether two optional locations agree.
fn loc_eq(a: &Option<u32>, b: &Option<u32>) -> (r: bool)
    ensures
        r == (*a == *b),
{
    match (*a, *b) {
        (Some(x), Some(y)) => x == y,
        (None, None) => true,
        _ => false,
    }
}

/// Whether two findings are exact duplicates.
fn key_eq_exec(a: &Finding, b: &Finding) -> (r: bool)
    ensures
        r == key_eq(a@, b@),
{
    a.category == b.category && bytes_eq(&a.message, &b.message) && loc_eq(
        &a.location,
        &b.location,
    )
}

/// Drop every finding that exactly duplicates an earlier one.
#[verifier::loop_isolation(false)]
fn dedup(input: Vec<Finding>) -> (out: Vec<Finding>)
    ensures
        finding_views(out@) == spec_dedup(finding_views(input@)),
{
    let ghost fsv = finding_views(input@);
    let mut out: Vec<Finding> = Vec::new();
    let mut k: usize = 0;
    while k < input.len()
        invariant
            0 <= k <= input@.len(),
            finding_views(out@) == dedup_upto(fsv, k as int),
        decreases input.len() - k,
    {
        let ghost before = finding_views(out@);
        let mut seen = false;
        let mut t: usize = 0;
        while t < out.len() && !seen
            invariant
                0 <= t <= out@.len(),
                seen ==> key_in(finding_views(out@), fsv[k as int]),
                !seen ==> forall|u: int|
                    0 <= u < t ==> !key_eq(#[trigger] finding_views(out@)[u], fsv[k as int]),
            decreases out.len() - t,
        {
            if key_eq_exec(&out[t], &input[k]) {
                proof {
                    assert(key_eq(finding_views(out@)[t as int], fsv[k as int]));
                }
                seen = true;
            }
            t = t + 1;
        }
        proof {
            lemma_dedup_key(fsv, k as int, fsv[k as int]);
            if !seen {
                assert(!key_in(before, fsv[k as int]));
            }
        }
        if !seen {
            out.push(input[k].clone());
            proof {
                assert(finding_views(out@) =~~= before + seq![fsv[k as int]]);
                assert(dedup_upto(fsv, k as int + 1) =~~= before + seq![fsv[k as int]]);
            }
        } else {
            proof {
                assert(dedup_upto(fsv, k as int + 1) =~~= before);
            }
        }
        k = k + 1;
    }
    out
}

/// What running every check over a loaded package yields: the import
/// findings, then the export findings, exact duplicates dropped, built
/// into a report under the package's identity.
pub open spec fn spec_run(pkg: PackageView, reg: RegistryView, opts: ScanOptions) -> ReportView {
    spec_build(
        pkg.name,
        pkg.version,
        spec_dedup(spec_analyze(pkg, reg, opts) + spec_verify_exports(pkg, opts)),
    )
}

/// Run every check over the package and build the report.
pub fn run(pkg: &Package, reg: &Registry, opts: &ScanOptions) -> (r: Report)
    requires
        pkg@.wf(),
    ensures
        r@ == spec_run(pkg@, reg@, *opts),
        r@.wf(),
{
    let mut all = analyze(pkg, reg, opts);
    let mut more = verify_exports(pkg, opts);
    let ghost av = finding_views(all@);
    let ghost mv = finding_views(more@);
    all.append(&mut more);
    proof {
        assert(finding_views(all@) =~~= av + mv);
        lemma_analyze_bounds(pkg@.imports, reg@, *opts, pkg@.imports.len() as int);
        lemma_dup_upto_bounds(pkg@.exports, pkg@.exports.len() as int);
        assert(forall|i: int|
            0 <= i < (av + mv).len() ==> (#[trigger] (av + mv)[i]).message.len()
                <= MAX_ARCHIVE_BYTES);
        lemma_dedup_bounds(av + mv, (av + mv).len() as int, MAX_ARCHIVE_BYTES as int);
    }
    let deduped = dedup(all);
    proof {
        assert(mv =~~= spec_verify_exports(pkg@, *opts));
        assert(mv.len() <= 1 + pkg@.exports.len());
        assert(finding_views(deduped@).len() <= (av + mv).len());
        assert(deduped@.len() <= LEN_LIMIT);
        assert forall|i: int| 0 <= i < deduped@.len() implies (#[trigger] deduped@[i])@.message.len()
            <= LEN_LIMIT by {
            assert(finding_views(deduped@)[i] == deduped@[i]@);
            assert(finding_views(deduped@)[i].message.len() <= MAX_ARCHIVE_BYTES);
        }
    }
    let name = clone_bytes(&pkg.name);
    let version = clone_bytes(&pkg.version);
    build(name, version, deduped)
}

} // verus!
