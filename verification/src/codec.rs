//! The report codec: a deterministic, self-contained byte encoding of a
//! report, and its exact inverse.
//!
//! Layout: the package name and version as length-prefixed byte strings,
//! the finding count, then each finding as a severity tag, a category
//! tag, the length-prefixed subject, and the optional location (a marker
//! byte, then the value).  All lengths and the location are 32-bit
//! little-endian.  Decoding recomputes the derived maximum severity, so
//! the encoding carries no redundant state.

use vstd::prelude::*;

use crate::bytes::copy_range;
use crate::bytes::enc32;
use crate::bytes::le32_at;
use crate::bytes::le32_read;
use crate::bytes::lemma_enc32_roundtrip;
use crate::bytes::push_le32;
use crate::finding::Category;
use crate::finding::Finding;
use crate::finding::FindingView;
use crate::finding::finding_views;
use crate::report::LEN_LIMIT;
use crate::report::Report;
use crate::report::ReportView;
use crate::report::build;
use crate::report::spec_build;
use crate::severity::Severity;
use crate::severity::sev_rank;

verus! {

/// The tag byte of a severity: its rank.
pub open spec fn sev_tag(s: Severity) -> u8 {
    sev_rank(s) as u8
}

/// The severity of a tag byte.
pub open spec fn sev_of_tag(t: u8) -> Option<Severity> {
    if t == 0 {
        Some(Severity::Info)
    } else if t == 1 {
        Some(Severity::Low)
    } else if t == 2 {
        Some(Severity::Medium)
    } else if t == 3 {
        Some(Severity::High)
    } else if t == 4 {
        Some(Severity::Critical)
    } else {
        None
    }
}

/// The tag byte of a category.
pub open spec fn cat_tag(c: Category) -> u8 {
    match c {
        Category::UnknownImport => 0,
        Category::DangerousImport => 1,
        Category::DuplicateImport => 2,
        Category::MissingContractExport => 3,
        Category::DuplicateExport => 4,
        Category::ConflictingExport => 5,
    }
}

/// The category of a tag byte.
pub open spec fn cat_of_tag(t: u8) -> Option<Category> {
    if t == 0 {
        Some(Category::UnknownImport)
    } else if t == 1 {
        Some(Category::DangerousImport)
    } else if t == 2 {
        Some(Category::DuplicateImport)
    } else if t == 3 {
        Some(Category::MissingContractExport)
    } else if t == 4 {
        Some(Category::DuplicateExport)
    } else if t == 5 {
        Some(Category::ConflictingExport)
    } else {
        None
    }
}

/// A length-prefixed byte string.
pub open spec fn enc_lp(b: Seq<u8>) -> Seq<u8> {
    enc32(b.len() as u32) + b
}

/// An optional location: a marker byte, then the value.
pub open spec fn enc_loc(loc: Option<u32>) -> Seq<u8> {
    match loc {
        None => seq![0u8],
        Some(l) => seq![1u8] + enc32(l),
    }
}

/// One encoded finding.
pub open spec fn enc_finding(f: FindingView) -> Seq<u8> {
    seq![sev_tag(f.severity), cat_tag(f.category)] + enc_lp(f.message) + enc_loc(f.location)
}

/// The findings from index `k` on, encoded in order.
pub open spec fn enc_findings_from(fs: Seq<FindingView>, k: int) -> Seq<u8>
    decreases fs.len() - k,
{
    if k < 0 || k >= fs.len() {
        Seq::empty()
    } else {
        enc_finding(fs[k]) + enc_findings_from(fs, k + 1)
    }
}

/// The encoding of a whole report.
pub open spec fn enc_report(rv: ReportView) -> Seq<u8> {
    enc_lp(rv.package_name) + enc_lp(rv.package_version) + enc32(rv.findings.len() as u32)
        + enc_findings_from(rv.findings, 0)
}

/// A 32-bit value read at `i`: the value and the next index.
pub open spec fn dec32(s: Seq<u8>, i: int) -> Option<(int, int)> {
    if 0 <= i && i + 4 <= s.len() {
        Some((le32_at(s, i), i + 4))
    } else {
        None
    }
}

/// A length-prefixed byte string read at `i`.
pub open spec fn dec_lp(s: Seq<u8>, i: int) -> Option<(Seq<u8>, int)> {
    match dec32(s, i) {
        None => None,
        Some((n, j)) => if j + n <= s.len() {
            Some((s.subrange(j, j + n), j + n))
        } else {
            None
        },
    }
}

/// An optional location read at `i`.
pub open spec fn dec_loc(s: Seq<u8>, i: int) -> Option<(Option<u32>, int)> {
    if 0 <= i < s.len() {
        if s[i] == 0 {
            Some((None, i + 1))
        } else if s[i] == 1 {
            match dec32(s, i + 1) {
                None => None,
                Some((n, j)) => Some((Some(n as u32), j)),
            }
        } else {
            None
        }
    } else {
        None
    }
}

/// One finding read at `i`.
pub open spec fn dec_finding(s: Seq<u8>, i: int) -> Option<(FindingView, int)> {
    if 0 <= i && i + 2 <= s.len() {
        match (sev_of_tag(s[i]), cat_of_tag(s[i + 1])) {
            (Some(sev), Some(cat)) => match dec_lp(s, i + 2) {
                None => None,
                Some((msg, i3)) => match dec_loc(s, i3) {
                    None => None,
                    Some((loc, i4)) => Some(
                        (FindingView { severity: sev, category: cat, message: msg, location: loc }, i4),
                    ),
                },
            },
            _ => None,
        }
    } else {
        None
    }
}

/// `count` findings read at `i`.
pub open spec fn dec_findings(s: Seq<u8>, i: int, count: int) -> Option<(Seq<FindingView>, int)>
    decreases count,
{
    if count <= 0 {
        Some((Seq::empty(), i))
    } else {
        match dec_finding(s, i) {
            None => None,
            Some((f, j)) => match dec_findings(s, j, count - 1) {
                None => None,
                Some((rest, j2)) => Some((seq![f] + rest, j2)),
            },
        }
    }
}

/// What decoding a byte string yields: the exact inverse of the
/// encoding, with the maximum severity rederived.
pub open spec fn dec_report(s: Seq<u8>) -> Option<ReportView> {
    match dec_lp(s, 0) {
        None => None,
        Some((name, i1)) => match dec_lp(s, i1) {
            None => None,
            Some((version, i2)) => match dec32(s, i2) {
                None => None,
                Some((count, i3)) => match dec_findings(s, i3, count) {
                    None => None,
                    Some((fs, i4)) => if i4 == s.len() {
                        Some(spec_build(name, version, fs))
                    } else {
                        None
                    },
                },
            },
        },
    }
}

/// A window of a window: slicing an equality hypothesis down.
proof fn lemma_subrange_slice(s: Seq<u8>, i: int, e: Seq<u8>, a: int, b2: int)
    requires
        0 <= i,
        i + e.len() <= s.len(),
        s.subrange(i, i + e.len()) == e,
        0 <= a <= b2 <= e.len(),
    ensures
        s.subrange(i + a, i + b2) == e.subrange(a, b2),
{
    assert forall|t: int| 0 <= t < b2 - a implies s.subrange(i + a, i + b2)[t] == e.subrange(
        a,
        b2,
    )[t] by {
        assert(s.subrange(i, i + e.len())[a + t] == e[a + t]);
    }
    assert(s.subrange(i + a, i + b2) =~= e.subrange(a, b2));
}

/// One byte of an equality hypothesis.
proof fn lemma_subrange_index(s: Seq<u8>, i: int, e: Seq<u8>, t: int)
    requires
        0 <= i,
        i + e.len() <= s.len(),
        s.subrange(i, i + e.len()) == e,
        0 <= t < e.len(),
    ensures
        s[i + t] == e[t],
{
    assert(s.subrange(i, i + e.len())[t] == e[t]);
}

/// Reading four bytes that encode `n` yields `n`.
proof fn lemma_dec32_at(s: Seq<u8>, i: int, n: u32)
    requires
        0 <= i,
        i + 4 <= s.len(),
        s.subrange(i, i + 4) == enc32(n),
    ensures
        dec32(s, i) == Some((n as int, i + 4)),
{
    lemma_enc32_roundtrip(n);
    lemma_subrange_index(s, i, enc32(n), 0);
    lemma_subrange_index(s, i, enc32(n), 1);
    lemma_subrange_index(s, i, enc32(n), 2);
    lemma_subrange_index(s, i, enc32(n), 3);
    assert(le32_at(s, i) == le32_at(enc32(n), 0));
}

/// Reading a length-prefixed string where one was written yields it.
proof fn lemma_dec_lp_at(s: Seq<u8>, i: int, b: Seq<u8>)
    requires
        0 <= i,
        b.len() <= LEN_LIMIT,
        i + 4 + b.len() <= s.len(),
        s.subrange(i, i + 4 + b.len()) == enc_lp(b),
    ensures
        dec_lp(s, i) == Some((b, i + 4 + b.len())),
{
    let n = b.len() as u32;
    let e = enc_lp(b);
    assert(e.len() == 4 + b.len());
    lemma_subrange_slice(s, i, e, 0, 4);
    assert(e.subrange(0, 4) =~= enc32(n));
    lemma_dec32_at(s, i, n);
    lemma_subrange_slice(s, i, e, 4, e.len() as int);
    assert(e.subrange(4, e.len() as int) =~= b);
}

/// Reading a finding where one was written yields it.
proof fn lemma_dec_finding_at(s: Seq<u8>, i: int, f: FindingView)
    requires
        0 <= i,
        f.message.len() <= LEN_LIMIT,
        i + enc_finding(f).len() <= s.len(),
        s.subrange(i, i + enc_finding(f).len()) == enc_finding(f),
    ensures
        dec_finding(s, i) == Some((f, i + enc_finding(f).len())),
{
    let e = enc_finding(f);
    let mlen = f.message.len() as int;
    assert(e[0] == sev_tag(f.severity));
    assert(e[1] == cat_tag(f.category));
    lemma_subrange_index(s, i, e, 0);
    lemma_subrange_index(s, i, e, 1);
    assert(sev_of_tag(sev_tag(f.severity)) == Some(f.severity));
    assert(cat_of_tag(cat_tag(f.category)) == Some(f.category));
    lemma_subrange_slice(s, i, e, 2, 2 + 4 + mlen);
    assert(e.subrange(2, 2 + 4 + mlen) =~= enc_lp(f.message));
    lemma_dec_lp_at(s, i + 2, f.message);
    let i3 = i + 2 + 4 + mlen;
    match f.location {
        None => {
            assert(e.len() == 2 + 4 + mlen + 1);
            lemma_subrange_index(s, i, e, 2 + 4 + mlen);
            assert(e[2 + 4 + mlen] == 0u8);
            assert(dec_loc(s, i3) == Some((None::<u32>, i3 + 1)));
        },
        Some(l) => {
            assert(e.len() == 2 + 4 + mlen + 5);
            lemma_subrange_index(s, i, e, 2 + 4 + mlen);
            assert(e[2 + 4 + mlen] == 1u8);
            lemma_subrange_slice(s, i, e, 2 + 4 + mlen + 1, e.len() as int);
            assert(e.subrange(2 + 4 + mlen + 1, e.len() as int) =~= enc32(l));
            lemma_dec32_at(s, i3 + 1, l);
            assert((l as int) as u32 == l);
            assert(dec_loc(s, i3) == Some((Some(l), i3 + 5)));
        },
    }
}

/// Reading the findings where they were written yields them.
proof fn lemma_dec_findings_at(s: Seq<u8>, i: int, fs: Seq<FindingView>, k: int)
    requires
        0 <= i,
        0 <= k <= fs.len(),
        forall|t: int| 0 <= t < fs.len() ==> (#[trigger] fs[t]).message.len() <= LEN_LIMIT,
        i + enc_findings_from(fs, k).len() <= s.len(),
        s.subrange(i, i + enc_findings_from(fs, k).len()) == enc_findings_from(fs, k),
    ensures
        dec_findings(s, i, fs.len() - k) == Some((fs.skip(k), i + enc_findings_from(fs, k).len())),
    decreases fs.len() - k,
{
    if k == fs.len() {
        assert(fs.skip(k) =~= Seq::<FindingView>::empty());
        assert(dec_findings(s, i, 0) == Some((Seq::<FindingView>::empty(), i)));
        assert(Some((Seq::<FindingView>::empty(), i)) == Some((fs.skip(k), i)));
    } else {
        let e0 = enc_finding(fs[k]);
        let erest = enc_findings_from(fs, k + 1);
        let e = enc_findings_from(fs, k);
        assert(e == e0 + erest);
        lemma_subrange_slice(s, i, e, 0, e0.len() as int);
        assert(e.subrange(0, e0.len() as int) =~= e0);
        lemma_dec_finding_at(s, i, fs[k]);
        lemma_subrange_slice(s, i, e, e0.len() as int, e.len() as int);
        assert(e.subrange(e0.len() as int, e.len() as int) =~= erest);
        lemma_dec_findings_at(s, i + e0.len(), fs, k + 1);
        assert(seq![fs[k]] + fs.skip(k + 1) =~= fs.skip(k));
    }
}

/// Round trip: decoding an encoded report yields the report back,
/// structurally equal, with no information lost.
pub proof fn lemma_report_roundtrip(rv: ReportView)
    requires
        rv.wf(),
    ensures
        dec_report(enc_report(rv)) == Some(rv),
{
    let s = enc_report(rv);
    let e1 = enc_lp(rv.package_name);
    let e2 = enc_lp(rv.package_version);
    let e3 = enc32(rv.findings.len() as u32);
    let e4 = enc_findings_from(rv.findings, 0);
    let i1 = e1.len() as int;
    let i2 = i1 + e2.len() as int;
    let i3 = i2 + 4;
    assert(s.subrange(0, i1) =~= e1);
    lemma_dec_lp_at(s, 0, rv.package_name);
    assert(s.subrange(i1, i1 + e2.len() as int) =~= e2);
    lemma_dec_lp_at(s, i1, rv.package_version);
    assert(s.subrange(i2, i2 + 4) =~= e3);
    lemma_dec32_at(s, i2, rv.findings.len() as u32);
    assert((rv.findings.len() as u32) as int == rv.findings.len() as int);
    assert(s.subrange(i3, i3 + e4.len() as int) =~= e4);
    lemma_dec_findings_at(s, i3, rv.findings, 0);
    assert(rv.findings.skip(0) =~= rv.findings);
    assert(i3 + e4.len() == s.len());
    assert(dec_report(s) == Some(spec_build(rv.package_name, rv.package_version, rv.findings)));
    assert(spec_build(rv.package_name, rv.package_version, rv.findings) =~~= rv);
}

/// Append a length-prefixed byte string.
#[verifier::loop_isolation(false)]
fn push_lp(out: &mut Vec<u8>, b: &Vec<u8>)
    requires
        b@.len() <= LEN_LIMIT,
    ensures
        final(out)@ == old(out)@ + enc_lp(b@),
{
    push_le32(out, b.len() as u32);
    let ghost mid = out@;
    let mut i: usize = 0;
    while i < b.len()
        invariant
            0 <= i <= b@.len(),
            out@ == mid + b@.subrange(0, i as int),
        decreases b.len() - i,
    {
        out.push(b[i]);
        proof {
            assert(out@ =~= mid + b@.subrange(0, i + 1));
        }
        i = i + 1;
    }
    proof {
        assert(out@ =~= old(out)@ + enc_lp(b@));
    }
}

/// Append one encoded finding.
fn push_finding(out: &mut Vec<u8>, f: &Finding)
    requires
        f@.message.len() <= LEN_LIMIT,
    ensures
        final(out)@ == old(out)@ + enc_finding(f@),
{
    out.push(f.severity.rank());
    out.push(cat_tag_exec(f.category));
    push_lp(out, &f.message);
    match f.location {
        None => {
            out.push(0);
        },
        Some(l) => {
            out.push(1);
            push_le32(out, l);
        },
    }
    proof {
        assert(out@ =~= old(out)@ + enc_finding(f@));
    }
}

/// The tag byte of a category.
fn cat_tag_exec(c: Category) -> (t: u8)
    ensures
        t == cat_tag(c),
{
    match c {
        Category::UnknownImport => 0,
        Category::DangerousImport => 1,
        Category::DuplicateImport => 2,
        Category::MissingContractExport => 3,
        Category::DuplicateExport => 4,
        Category::ConflictingExport => 5,
    }
}

/// Encode a report into its deterministic byte representation.
#[verifier::loop_isolation(false)]
pub fn encode_report(r: &Report) -> (out: Vec<u8>)
    requires
        r@.wf(),
    ensures
        out@ == enc_report(r@),
{
    let mut out: Vec<u8> = Vec::new();
    push_lp(&mut out, &r.package_name);
    push_lp(&mut out, &r.package_version);
    push_le32(&mut out, r.findings.len() as u32);
    let ghost base = out@;
    let ghost fsv = finding_views(r.findings@);
    let mut k: usize = 0;
    while k < r.findings.len()
        invariant
            0 <= k <= r.findings@.len(),
            out@ + enc_findings_from(fsv, k as int) == base + enc_findings_from(fsv, 0),
        decreases r.findings.len() - k,
    {
        let ghost prev = out@;
        push_finding(&mut out, &r.findings[k]);
        proof {
            assert(enc_findings_from(fsv, k as int) == enc_finding(fsv[k as int])
                + enc_findings_from(fsv, k as int + 1));
            assert(prev + (enc_finding(fsv[k as int]) + enc_findings_from(fsv, k as int + 1))
                =~= out@ + enc_findings_from(fsv, k as int + 1));
        }
        k = k + 1;
    }
    proof {
        assert(out@ + Seq::<u8>::empty() =~= out@);
        assert(out@ =~= enc_report(r@));
    }
    out
}

/// Glue for the decoding loop: findings already read, then the rest.
pub open spec fn glue_findings(
    acc: Seq<FindingView>,
    rest: Option<(Seq<FindingView>, int)>,
) -> Option<(Seq<FindingView>, int)> {
    match rest {
        Some((fs, j)) => Some((acc + fs, j)),
        None => None,
    }
}

/// Decode a report from bytes: exactly the inverse of the encoding, or
/// `None` when the bytes are not a report.
#[verifier::loop_isolation(false)]
pub fn decode_report(bytes: &Vec<u8>) -> (r: Option<Report>)
    ensures
        match r {
            Some(rep) => dec_report(bytes@) == Some(rep@) && rep@.wf(),
            None => dec_report(bytes@) == None::<ReportView>,
        },
{
    let ghost s = bytes@;
    let (name, i1) = match read_lp(bytes, 0) {
        Some(x) => x,
        None => {
            return None;
        },
    };
    let (version, i2) = match read_lp(bytes, i1) {
        Some(x) => x,
        None => {
            return None;
        },
    };
    if i2 > bytes.len() || bytes.len() - i2 < 4 {
        return None;
    }
    let count32 = le32_read(bytes, i2);
    let i3 = i2 + 4;
    let count = count32 as usize;
    let ghost start = i3 as int;
    let mut findings: Vec<Finding> = Vec::new();
    let mut i = i3;
    let mut k: usize = 0;
    while k < count
        invariant
            0 <= k <= count,
            i3 <= i <= bytes@.len(),
            findings@.len() == k,
            forall|t: int|
                0 <= t < findings@.len() ==> (#[trigger] findings@[t])@.message.len() <= LEN_LIMIT,
            dec_findings(s, start, count as int) == glue_findings(
                finding_views(findings@),
                dec_findings(s, i as int, count as int - k as int),
            ),
        decreases count - k,
    {
        let ghost before = finding_views(findings@);
        let ghost di = i as int;
        let (f, ni) = match read_finding(bytes, i) {
            Some(x) => x,
            None => {
                proof {
                    assert(dec_findings(s, di, count as int - k as int) is None);
                }
                return None;
            },
        };
        proof {
            assert(dec_findings(s, di, count as int - k as int) == match dec_findings(
                s,
                ni as int,
                count as int - k as int - 1,
            ) {
                Some((rest, j2)) => Some((seq![f@] + rest, j2)),
                None => None::<(Seq<FindingView>, int)>,
            });
        }
        findings.push(f);
        proof {
            assert(finding_views(findings@) =~~= before + seq![finding_views(findings@)[k as int]]);
            match dec_findings(s, ni as int, count as int - k as int - 1) {
                Some((rest, j2)) => {
                    assert(before + (seq![finding_views(findings@)[k as int]] + rest)
                        =~= finding_views(findings@) + rest);
                },
                None => {},
            }
        }
        i = ni;
        k = k + 1;
    }
    proof {
        assert(dec_findings(s, i as int, 0) == Some((Seq::<FindingView>::empty(), i as int)));
        assert(finding_views(findings@) + Seq::<FindingView>::empty() =~= finding_views(
            findings@,
        ));
        assert(dec_findings(s, start, count as int) == Some((finding_views(findings@), i as int)));
    }
    if i != bytes.len() {
        return None;
    }
    let rep = build(name, version, findings);
    Some(rep)
}

/// Read a length-prefixed byte string.
fn read_lp(v: &Vec<u8>, i: usize) -> (r: Option<(Vec<u8>, usize)>)
    ensures
        match r {
            Some((b, j)) => dec_lp(v@, i as int) == Some((b@, j as int)) && i <= j <= v@.len()
                && b@.len() <= LEN_LIMIT,
            None => dec_lp(v@, i as int) == None::<(Seq<u8>, int)>,
        },
{
    let n = v.len();
    if i > n || n - i < 4 {
        return None;
    }
    let m = le32_read(v, i);
    let j = i + 4;
    let m_us = m as usize;
    if m_us > n - j {
        return None;
    }
    let b = copy_range(v, j, j + m_us);
    Some((b, j + m_us))
}

/// Read one encoded finding.
fn read_finding(v: &Vec<u8>, i: usize) -> (r: Option<(Finding, usize)>)
    ensures
        match r {
            Some((f, j)) => dec_finding(v@, i as int) == Some((f@, j as int)) && i <= j
                <= v@.len() && f@.message.len() <= LEN_LIMIT,
            None => dec_finding(v@, i as int) == None::<(FindingView, int)>,
        },
{
    let n = v.len();
    if i > n || n - i < 2 {
        return None;
    }
    let sev = match read_sev(v[i]) {
        Some(x) => x,
        None => {
            return None;
        },
    };
    let cat = match read_cat(v[i + 1]) {
        Some(x) => x,
        None => {
            return None;
        },
    };
    let (msg, i3) = match read_lp(v, i + 2) {
        Some(x) => x,
        None => {
            return None;
        },
    };
    if i3 >= n {
        return None;
    }
    let marker = v[i3];
    if marker == 0 {
        let f = Finding { severity: sev, category: cat, message: msg, location: None };
        Some((f, i3 + 1))
    } else if marker == 1 {
        if n - (i3 + 1) < 4 {
            return None;
        }
        let l = le32_read(v, i3 + 1);
        let f = Finding { severity: sev, category: cat, message: msg, location: Some(l) };
        proof {
            assert((le32_at(v@, i3 as int + 1) as u32) == l);
        }
        Some((f, i3 + 5))
    } else {
        None
    }
}

/// The severity of a tag byte.
fn read_sev(t: u8) -> (r: Option<Severity>)
    ensures
        r == sev_of_tag(t),
{
    if t == 0 {
        Some(Severity::Info)
    } else if t == 1 {
        Some(Severity::Low)
    } else if t == 2 {
        Some(Severity::Medium)
    } else if t == 3 {
        Some(Severity::High)
    } else if t == 4 {
        Some(Severity::Critical)
    } else {
        None
    }
}

/// The category of a tag byte.
fn read_cat(t: u8) -> (r: Option<Category>)
    ensures
        r == cat_of_tag(t),
{
    if t == 0 {
        Some(Category::UnknownImport)
    } else if t == 1 {
        Some(Category::DangerousImport)
    } else if t == 2 {
        Some(Category::DuplicateImport)
    } else if t == 3 {
        Some(Category::MissingContractExport)
    } else if t == 4 {
        Some(Category::DuplicateExport)
    } else if t == 5 {
        Some(Category::ConflictingExport)
    } else {
        None
    }
}

} // verus!
