//! Static security scanner for VTX plugin packages.
//!
//! A VTX package is a byte archive carrying a plugin's manifest (name,
//! version, declared imports and exports) and its raw members.  The scanner
//! loads such an archive, checks the declared imports against a registry of
//! known namespaces, checks that the mandatory contract exports are present,
//! and emits a severity-classified report.  Scanning is a pure function of
//! the archive bytes and the options: it never executes plugin code.

use vstd::prelude::*;

mod bytes;
mod codec;
mod engine;
mod exports;
mod finding;
mod imports;
mod loader;
mod options;
mod package;
mod registry;
mod report;
mod severity;

pub use codec::dec_report;
pub use codec::decode_report;
pub use codec::enc_report;
pub use codec::encode_report;
pub use codec::lemma_report_roundtrip;
pub use engine::run;
pub use engine::spec_dedup;
pub use engine::spec_run;
pub use exports::lemma_relax_exports_monotone;
pub use exports::lemma_relax_exports_never_raises;
pub use exports::mandatory_export;
pub use exports::verify_exports;
pub use exports::spec_verify_exports;
pub use finding::Category;
pub use finding::Finding;
pub use finding::FindingView;
pub use imports::lemma_deny_unknown_monotone;
pub use imports::lemma_deny_unknown_never_lowers;
pub use imports::analyze;
pub use imports::spec_analyze;
pub use loader::LoadError;
pub use loader::load_from_bytes;
pub use loader::parse_archive;
pub use options::ScanOptions;
pub use options::default_options;
pub use package::ExportDecl;
pub use package::ImportDecl;
pub use package::MAX_ARCHIVE_BYTES;
pub use package::Package;
pub use package::PackageView;
pub use registry::Registry;
pub use registry::RegistryEntry;
pub use registry::RegistryView;
pub use registry::default_registry;
pub use registry::default_registry_view;
pub use report::Report;
pub use report::ReportView;
pub use report::build;
pub use report::lemma_empty_report_has_nothing;
pub use report::spec_max_severity;
pub use report::spec_has_at_least;
pub use severity::Severity;
pub use severity::sev_ge;
pub use severity::sev_rank;

verus! {

/// Why a scan produced no report: the package could not be loaded, or
/// the engine itself failed unexpectedly.  An unscannable package is
/// never conflated with an unsafe one.
#[derive(Clone, Copy, Debug, PartialEq, Eq, Structural)]
pub enum ScanError {
    /// The package could not be loaded; the payload says why.
    Load(LoadError),
    /// An unexpected engine fault, distinct from any judgment about the
    /// package.
    Internal,
}

/// What scanning bytes under a registry yields.
pub open spec fn spec_scan_with(bytes: Seq<u8>, reg: RegistryView, opts: ScanOptions) -> Result<
    ReportView,
    ScanError,
> {
    match parse_archive(bytes) {
        Err(e) => Err(ScanError::Load(e)),
        Ok(pkg) => Ok(spec_run(pkg, reg, opts)),
    }
}

/// What scanning bytes under the default registry yields.
pub open spec fn spec_scan(bytes: Seq<u8>, opts: ScanOptions) -> Result<ReportView, ScanError> {
    spec_scan_with(bytes, default_registry_view(), opts)
}

/// Scan a package archive against an explicit namespace registry.
pub fn scan_with_registry(bytes: &Vec<u8>, registry: &Registry, options: &ScanOptions) -> (r:
    Result<Report, ScanError>)
    ensures
        match r {
            Ok(rep) => spec_scan_with(bytes@, registry@, *options) == Ok::<
                ReportView,
                ScanError,
            >(rep@) && rep@.wf(),
            Err(e) => spec_scan_with(bytes@, registry@, *options) == Err::<
                ReportView,
                ScanError,
            >(e),
        },
{
    match loader::load_from_bytes(bytes) {
        Err(e) => Err(ScanError::Load(e)),
        Ok(pkg) => Ok(engine::run(&pkg, registry, options)),
    }
}

/// Scan a package archive: load it, run every check under the default
/// registry, and build the report.  A load failure aborts the scan with
/// the load error; findings never do.
pub fn scan(bytes: &Vec<u8>, options: &ScanOptions) -> (r: Result<Report, ScanError>)
    ensures
        match r {
            Ok(rep) => spec_scan(bytes@, *options) == Ok::<ReportView, ScanError>(rep@)
                && rep@.wf(),
            Err(e) => spec_scan(bytes@, *options) == Err::<ReportView, ScanError>(e),
        },
{
    let registry = default_registry();
    scan_with_registry(bytes, &registry, options)
}

/// Scanning is deterministic: identical archive bytes and options yield
/// the same outcome, and when a report is produced, a byte-identical
/// serialization.
pub proof fn lemma_scan_deterministic(b1: Seq<u8>, o1: ScanOptions, b2: Seq<u8>, o2: ScanOptions)
    requires
        b1 == b2,
        o1 == o2,
    ensures
        spec_scan(b1, o1) == spec_scan(b2, o2),
        match (spec_scan(b1, o1), spec_scan(b2, o2)) {
            (Ok(r1), Ok(r2)) => enc_report(r1) == enc_report(r2),
            _ => true,
        },
{
}

} // verus!
