//! The package loader: from raw archive bytes to a `Package`.
//!
//! A VTX archive is the magic `VTX1` followed by records.  Each record is
//! a tag byte, a 32-bit little-endian payload length, and the payload:
//! tag 1 is the package name, tag 2 the dotted version string, tag 3 one
//! import namespace, tag 4 one export (`symbol` or `symbol SP signature`),
//! tag 5 one member name.  Structural corruption (bad magic, truncation,
//! oversize input) is `MalformedArchive`; schema violations (unknown tag,
//! missing or repeated name or version, empty identifiers, a malformed
//! version) are `InvalidManifest`.  Loading never executes any payload.

use vstd::prelude::*;

use crate::bytes::copy_range;
use crate::bytes::check_version;
use crate::bytes::clone_bytes;
use crate::bytes::find_byte;
use crate::bytes::find_from;
use crate::bytes::le32_at;
use crate::bytes::le32_read;
use crate::bytes::version_ok;
use crate::package::ExportDecl;
use crate::package::ExportView;
use crate::package::ImportDecl;
use crate::package::ImportView;
use crate::package::MAX_ARCHIVE_BYTES;
use crate::package::Package;
use crate::package::PackageView;
use crate::package::import_views;
use crate::package::export_views;
use crate::package::member_views;

verus! {

/// Why an archive could not be loaded.
#[derive(Clone, Copy, Debug, PartialEq, Eq, Structural)]
pub enum LoadError {
    /// The container is structurally corrupt: truncated, missing its
    /// magic, or larger than the size safeguard.
    MalformedArchive,
    /// The container is intact but the manifest violates the schema.
    InvalidManifest,
}

/// One raw record of the archive.
#[derive(Debug)]
pub struct Record {
    pub tag: u8,
    pub payload: Vec<u8>,
}

#[verifier::ext_equal]
pub struct RecordView {
    pub tag: u8,
    pub payload: Seq<u8>,
}

impl View for Record {
    type V = RecordView;

    open spec fn view(&self) -> RecordView {
        RecordView { tag: self.tag, payload: self.payload@ }
    }
}

pub open spec fn record_views(s: Seq<Record>) -> Seq<RecordView> {
    Seq::new(s.len(), |i: int| s[i]@)
}

/// The records laid out from index `i` to the end of `s`, or `None` when
/// a record runs past the end.
pub open spec fn parse_records(s: Seq<u8>, i: int) -> Option<Seq<RecordView>>
    decreases s.len() - i,
{
    if i == s.len() {
        Some(Seq::empty())
    } else if i + 5 <= s.len() {
        let n = le32_at(s, i + 1);
        if i + 5 + n <= s.len() {
            match parse_records(s, i + 5 + n) {
                Some(rest) => Some(
                    seq![RecordView { tag: s[i], payload: s.subrange(i + 5, i + 5 + n) }] + rest,
                ),
                None => None,
            }
        } else {
            None
        }
    } else {
        None
    }
}

/// Manifest fields accumulated while walking the records.
#[verifier::ext_equal]
pub struct BuilderView {
    pub name: Option<Seq<u8>>,
    pub version: Option<Seq<u8>>,
    pub imports: Seq<ImportView>,
    pub exports: Seq<ExportView>,
    pub members: Seq<Seq<u8>>,
}

pub open spec fn empty_builder() -> BuilderView {
    BuilderView {
        name: None,
        version: None,
        imports: Seq::empty(),
        exports: Seq::empty(),
        members: Seq::empty(),
    }
}

/// How one record, the `line`-th of the manifest, extends the builder.
pub open spec fn step_record(r: RecordView, line: u32, st: BuilderView) -> Result<
    BuilderView,
    LoadError,
> {
    if r.tag == 1u8 {
        if st.name is Some || r.payload.len() == 0 {
            Err(LoadError::InvalidManifest)
        } else {
            Ok(BuilderView { name: Some(r.payload), ..st })
        }
    } else if r.tag == 2u8 {
        if st.version is Some || !version_ok(r.payload) {
            Err(LoadError::InvalidManifest)
        } else {
            Ok(BuilderView { version: Some(r.payload), ..st })
        }
    } else if r.tag == 3u8 {
        if r.payload.len() == 0 {
            Err(LoadError::InvalidManifest)
        } else {
            Ok(
                BuilderView {
                    imports: st.imports.push(ImportView { namespace: r.payload, line }),
                    ..st
                },
            )
        }
    } else if r.tag == 4u8 {
        let p = find_from(r.payload, 32u8, 0);
        let name = r.payload.subrange(0, p);
        let sig = if p < r.payload.len() {
            r.payload.subrange(p + 1, r.payload.len() as int)
        } else {
            Seq::empty()
        };
        if name.len() == 0 {
            Err(LoadError::InvalidManifest)
        } else {
            Ok(
                BuilderView {
                    exports: st.exports.push(ExportView { name, signature: sig, line }),
                    ..st
                },
            )
        }
    } else if r.tag == 5u8 {
        Ok(BuilderView { members: st.members.push(r.payload), ..st })
    } else {
        Err(LoadError::InvalidManifest)
    }
}

/// Walk the records from index `k` on, extending `st`.
pub open spec fn fold_records(recs: Seq<RecordView>, k: int, st: BuilderView) -> Result<
    BuilderView,
    LoadError,
>
    decreases recs.len() - k,
{
    if k < 0 || k >= recs.len() {
        Ok(st)
    } else {
        match step_record(recs[k], (k + 1) as u32, st) {
            Err(e) => Err(e),
            Ok(st2) => fold_records(recs, k + 1, st2),
        }
    }
}

/// The package a completed builder describes; the manifest must have
/// settled both the name and the version.
pub open spec fn finalize(st: BuilderView) -> Result<PackageView, LoadError> {
    match (st.name, st.version) {
        (Some(n), Some(v)) => Ok(
            PackageView {
                name: n,
                version: v,
                imports: st.imports,
                exports: st.exports,
                members: st.members,
            },
        ),
        _ => Err(LoadError::InvalidManifest),
    }
}

/// What loading an archive yields: the loader returns exactly this.
pub open spec fn parse_archive(s: Seq<u8>) -> Result<PackageView, LoadError> {
    if s.len() > MAX_ARCHIVE_BYTES {
        Err(LoadError::MalformedArchive)
    } else if s.len() < 4 || s[0] != 86u8 || s[1] != 84u8 || s[2] != 88u8 || s[3] != 49u8 {
        Err(LoadError::MalformedArchive)
    } else {
        match parse_records(s, 4) {
            None => Err(LoadError::MalformedArchive),
            Some(recs) => match fold_records(recs, 0, empty_builder()) {
                Err(e) => Err(e),
                Ok(st) => finalize(st),
            },
        }
    }
}

/// Prefix already parsed, glued to whatever the rest parses to.
pub open spec fn glue(acc: Seq<RecordView>, rest: Option<Seq<RecordView>>) -> Option<
    Seq<RecordView>,
> {
    match rest {
        Some(r) => Some(acc + r),
        None => None,
    }
}

/// Manifest accumulator mirroring `BuilderView`.
pub struct Builder {
    pub name: Option<Vec<u8>>,
    pub version: Option<Vec<u8>>,
    pub imports: Vec<ImportDecl>,
    pub exports: Vec<ExportDecl>,
    pub members: Vec<Vec<u8>>,
}

pub open spec fn opt_bytes_view(o: Option<Vec<u8>>) -> Option<Seq<u8>> {
    match o {
        Some(v) => Some(v@),
        None => None,
    }
}

impl View for Builder {
    type V = BuilderView;

    open spec fn view(&self) -> BuilderView {
        BuilderView {
            name: opt_bytes_view(self.name),
            version: opt_bytes_view(self.version),
            imports: import_views(self.imports@),
            exports: export_views(self.exports@),
            members: member_views(self.members@),
        }
    }
}

/// Load a package from archive bytes.  The result is exactly what
/// `parse_archive` says of the bytes; a loaded package is well formed.
#[verifier::loop_isolation(false)]
pub fn load_from_bytes(bytes: &Vec<u8>) -> (r: Result<Package, LoadError>)
    ensures
        match r {
            Ok(p) => parse_archive(bytes@) == Ok::<PackageView, LoadError>(p@) && p@.wf(),
            Err(e) => parse_archive(bytes@) == Err::<PackageView, LoadError>(e),
        },
{
    let ghost s = bytes@;
    let len = bytes.len();
    if len > MAX_ARCHIVE_BYTES {
        return Err(LoadError::MalformedArchive);
    }
    if len < 4 || bytes[0] != 86 || bytes[1] != 84 || bytes[2] != 88 || bytes[3] != 49 {
        return Err(LoadError::MalformedArchive);
    }
    let mut recs: Vec<Record> = Vec::new();
    let mut i: usize = 4;
    while i < len
        invariant
            4 <= i <= len,
            len == s.len(),
            len <= MAX_ARCHIVE_BYTES,
            len == bytes@.len(),
            s == bytes@,
            recs@.len() <= i,
            forall|t: int|
                0 <= t < recs@.len() ==> (#[trigger] recs@[t])@.payload.len()
                    <= MAX_ARCHIVE_BYTES,
            parse_records(s, 4) == glue(record_views(recs@), parse_records(s, i as int)),
        decreases len - i,
    {
        if i + 5 > len {
            proof {
                assert(parse_records(s, i as int) is None);
            }
            return Err(LoadError::MalformedArchive);
        }
        let tag = bytes[i];
        let n32 = le32_read(bytes, i + 1);
        let avail = len - (i + 5);
        if n32 > avail as u32 {
            proof {
                assert(le32_at(s, i + 1) > s.len() - (i + 5));
                assert(parse_records(s, i as int) is None);
            }
            return Err(LoadError::MalformedArchive);
        }
        let n = n32 as usize;
        let payload = copy_range(bytes, i + 5, i + 5 + n);
        let ghost old_recs = recs@;
        let ghost rv = RecordView { tag, payload: s.subrange(i as int + 5, i as int + 5 + n as int) };
        recs.push(Record { tag, payload });
        proof {
            assert(record_views(recs@) =~~= record_views(old_recs) + seq![rv]);
            assert(parse_records(s, i as int) == glue(seq![rv], parse_records(s, i as int + 5 + n as int)));
            match parse_records(s, i as int + 5 + n as int) {
                Some(rest) => {
                    assert(record_views(old_recs) + (seq![rv] + rest) =~~= record_views(recs@)
                        + rest);
                },
                None => {},
            }
        }
        i = i + 5 + n;
    }
    proof {
        assert(parse_records(s, i as int) == Some(Seq::<RecordView>::empty()));
        assert(record_views(recs@) + Seq::<RecordView>::empty() =~~= record_views(recs@));
        assert(parse_records(s, 4) == Some(record_views(recs@)));
    }
    let ghost recviews = record_views(recs@);
    let mut b = Builder {
        name: None,
        version: None,
        imports: Vec::new(),
        exports: Vec::new(),
        members: Vec::new(),
    };
    proof {
        assert(b@ =~~= empty_builder());
    }
    let rec_count = recs.len();
    let mut k: usize = 0;
    while k < rec_count
        invariant
            0 <= k <= rec_count,
            rec_count == recs@.len(),
            rec_count <= MAX_ARCHIVE_BYTES,
            recviews == record_views(recs@),
            forall|t: int|
                0 <= t < recs@.len() ==> (#[trigger] recs@[t])@.payload.len()
                    <= MAX_ARCHIVE_BYTES,
            fold_records(recviews, 0, empty_builder()) == fold_records(recviews, k as int, b@),
            b@.imports.len() <= k,
            b@.exports.len() <= k,
            b@.members.len() <= k,
            match b@.name {
                Some(nm) => nm.len() <= MAX_ARCHIVE_BYTES,
                None => true,
            },
            match b@.version {
                Some(vs) => vs.len() <= MAX_ARCHIVE_BYTES,
                None => true,
            },
            forall|t: int|
                0 <= t < b@.imports.len() ==> (#[trigger] b@.imports[t]).namespace.len()
                    <= MAX_ARCHIVE_BYTES,
            forall|t: int|
                0 <= t < b@.exports.len() ==> (#[trigger] b@.exports[t]).name.len()
                    <= MAX_ARCHIVE_BYTES && b@.exports[t].signature.len() <= MAX_ARCHIVE_BYTES,
            forall|t: int|
                0 <= t < b@.members.len() ==> (#[trigger] b@.members[t]).len()
                    <= MAX_ARCHIVE_BYTES,
        decreases rec_count - k,
    {
        let ghost old_b = b@;
        let ghost line_g = (k + 1) as u32;
        proof {
            assert(recviews[k as int] == recs@[k as int]@);
            assert(fold_records(recviews, k as int, old_b) == match step_record(
                recviews[k as int],
                line_g,
                old_b,
            ) {
                Err(e) => Err::<BuilderView, LoadError>(e),
                Ok(st2) => fold_records(recviews, k as int + 1, st2),
            });
        }
        let rec = &recs[k];
        let line = (k + 1) as u32;
        if rec.tag == 1 {
            if b.name.is_some() || rec.payload.len() == 0 {
                return Err(LoadError::InvalidManifest);
            }
            b.name = Some(clone_bytes(&rec.payload));
        } else if rec.tag == 2 {
            if b.version.is_some() || !check_version(&rec.payload) {
                return Err(LoadError::InvalidManifest);
            }
            b.version = Some(clone_bytes(&rec.payload));
        } else if rec.tag == 3 {
            if rec.payload.len() == 0 {
                return Err(LoadError::InvalidManifest);
            }
            b.imports.push(ImportDecl { namespace: clone_bytes(&rec.payload), line });
            proof {
                assert(b@.imports =~~= old_b.imports.push(
                    ImportView { namespace: recviews[k as int].payload, line: line_g },
                ));
            }
        } else if rec.tag == 4 {
            let p = find_byte(&rec.payload, 32, 0);
            if p == 0 {
                return Err(LoadError::InvalidManifest);
            }
            let name = copy_range(&rec.payload, 0, p);
            let sig = if p < rec.payload.len() {
                copy_range(&rec.payload, p + 1, rec.payload.len())
            } else {
                Vec::new()
            };
            proof {
                assert(name@.len() > 0);
            }
            b.exports.push(ExportDecl { name, signature: sig, line });
            proof {
                let pl = recviews[k as int].payload;
                let ps = find_from(pl, 32u8, 0);
                let sname = pl.subrange(0, ps);
                let ssig = if ps < pl.len() {
                    pl.subrange(ps + 1, pl.len() as int)
                } else {
                    Seq::<u8>::empty()
                };
                assert(b@.exports =~~= old_b.exports.push(
                    ExportView { name: sname, signature: ssig, line: line_g },
                ));
            }
        } else if rec.tag == 5 {
            b.members.push(clone_bytes(&rec.payload));
            proof {
                assert(b@.members =~~= old_b.members.push(recviews[k as int].payload));
            }
        } else {
            return Err(LoadError::InvalidManifest);
        }
        proof {
            assert(step_record(recviews[k as int], line_g, old_b) == Ok::<BuilderView, LoadError>(
                b@,
            ));
        }
        k = k + 1;
    }
    let ghost bview = b@;
    proof {
        assert(fold_records(recviews, 0, empty_builder()) == Ok::<BuilderView, LoadError>(bview));
    }
    let Builder { name, version, imports, exports, members } = b;
    match (name, version) {
        (Some(n), Some(v)) => {
            let pkg = Package { name: n, version: v, imports, exports, members };
            proof {
                assert(finalize(bview) == Ok::<PackageView, LoadError>(pkg@));
            }
            Ok(pkg)
        },
        (n2, v2) => {
            proof {
                assert(finalize(bview) == Err::<PackageView, LoadError>(LoadError::InvalidManifest));
            }
            Err(LoadError::InvalidManifest)
        },
    }
}

} // verus!
