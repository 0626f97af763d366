//! The report: the scan's sole artifact, an ordered, queryable snapshot.

use vstd::prelude::*;

use crate::finding::Finding;
use crate::finding::FindingView;
use crate::finding::finding_views;
use crate::severity::Severity;
use crate::severity::sev_ge;
use crate::severity::sev_rank;

verus! {

/// Every length the report encoding stores fits 32 bits.
pub const LEN_LIMIT: usize = 0xFFFFFFFF;

/// The scan's output: the package identity, the findings in order, and
/// the derived maximum severity (`None` when there are no findings: a
/// clean package has no severity, not a floor one).
#[derive(Debug)]
pub struct Report {
    pub package_name: Vec<u8>,
    pub package_version: Vec<u8>,
    pub findings: Vec<Finding>,
    pub max_severity: Option<Severity>,
}

#[verifier::ext_equal]
pub struct ReportView {
    pub package_name: Seq<u8>,
    pub package_version: Seq<u8>,
    pub findings: Seq<FindingView>,
    pub max_severity: Option<Severity>,
}

impl View for Report {
    type V = ReportView;

    open spec fn view(&self) -> ReportView {
        ReportView {
            package_name: self.package_name@,
            package_version: self.package_version@,
            findings: finding_views(self.findings@),
            max_severity: self.max_severity,
        }
    }
}

/// The maximum severity over the first `k` findings.
pub open spec fn max_upto(fs: Seq<FindingView>, k: int) -> Option<Severity>
    decreases k,
{
    if k <= 0 {
        None
    } else {
        match max_upto(fs, k - 1) {
            None => Some(fs[k - 1].severity),
            Some(m) => Some(
                if sev_ge(fs[k - 1].severity, m) {
                    fs[k - 1].severity
                } else {
                    m
                },
            ),
        }
    }
}

/// The maximum severity over all findings; `None` when there are none.
pub open spec fn spec_max_severity(fs: Seq<FindingView>) -> Option<Severity> {
    max_upto(fs, fs.len() as int)
}

/// The maximum is attained and dominates every finding.
pub proof fn lemma_max_upto_props(fs: Seq<FindingView>, k: int)
    requires
        0 <= k <= fs.len(),
    ensures
        match max_upto(fs, k) {
            None => k == 0,
            Some(m) => (exists|i: int| 0 <= i < k && (#[trigger] fs[i]).severity == m)
                && forall|i: int| 0 <= i < k ==> sev_ge(m, (#[trigger] fs[i]).severity),
        },
    decreases k,
{
    if k > 0 {
        lemma_max_upto_props(fs, k - 1);
    }
}

impl ReportView {
    /// The stored maximum is the derived one, and every stored length
    /// fits the 32-bit encoding.
    pub open spec fn wf(self) -> bool {
        &&& self.max_severity == spec_max_severity(self.findings)
        &&& self.package_name.len() <= LEN_LIMIT
        &&& self.package_version.len() <= LEN_LIMIT
        &&& self.findings.len() <= LEN_LIMIT
        &&& forall|i: int|
            0 <= i < self.findings.len() ==> (#[trigger] self.findings[i]).message.len()
                <= LEN_LIMIT
    }
}

/// Some finding reaches the threshold.
pub open spec fn spec_has_at_least(rv: ReportView, threshold: Severity) -> bool {
    exists|i: int|
        0 <= i < rv.findings.len() && sev_ge((#[trigger] rv.findings[i]).severity, threshold)
}

/// A report with no findings reaches no threshold at all, `Info`
/// included.
pub proof fn lemma_empty_report_has_nothing(rv: ReportView, threshold: Severity)
    requires
        rv.findings.len() == 0,
    ensures
        !spec_has_at_least(rv, threshold),
{
}

/// The report a list of findings builds into.
pub open spec fn spec_build(
    package_name: Seq<u8>,
    package_version: Seq<u8>,
    fs: Seq<FindingView>,
) -> ReportView {
    ReportView {
        package_name,
        package_version,
        findings: fs,
        max_severity: spec_max_severity(fs),
    }
}

/// Build a report: store the findings in order and derive the maximum
/// severity.
#[verifier::loop_isolation(false)]
pub fn build(package_name: Vec<u8>, package_version: Vec<u8>, findings: Vec<Finding>) -> (r:
    Report)
    requires
        package_name@.len() <= LEN_LIMIT,
        package_version@.len() <= LEN_LIMIT,
        findings@.len() <= LEN_LIMIT,
        forall|i: int|
            0 <= i < findings@.len() ==> (#[trigger] findings@[i])@.message.len() <= LEN_LIMIT,
    ensures
        r@ == spec_build(package_name@, package_version@, finding_views(findings@)),
        r@.wf(),
{
    let ghost fsv = finding_views(findings@);
    let mut max: Option<Severity> = None;
    let mut k: usize = 0;
    while k < findings.len()
        invariant
            0 <= k <= findings@.len(),
            max == max_upto(fsv, k as int),
        decreases findings.len() - k,
    {
        let s = findings[k].severity;
        max = match max {
            None => Some(s),
            Some(m) => Some(
                if s.rank() >= m.rank() {
                    s
                } else {
                    m
                },
            ),
        };
        k = k + 1;
    }
    Report { package_name, package_version, findings, max_severity: max }
}

impl Report {
    /// Whether some finding's severity is at least the threshold: a pure
    /// comparison against the stored maximum.
    pub fn has_at_least(&self, threshold: Severity) -> (r: bool)
        requires
            self@.wf(),
        ensures
            r == spec_has_at_least(self@, threshold),
    {
        proof {
            lemma_max_upto_props(self@.findings, self@.findings.len() as int);
        }
        match self.max_severity {
            None => false,
            Some(m) => {
                proof {
                    if sev_rank(m) >= sev_rank(threshold) {
                        let i = choose|i: int|
                            0 <= i < self@.findings.len() && (#[trigger] self@.findings[i]).severity == m;
                        assert(sev_ge(self@.findings[i].severity, threshold));
                    }
                }
                m.rank() >= threshold.rank()
            },
        }
    }
}

} // verus!
