//! End-to-end tests of the VTX package scanner.

use vtx_security::{
    decode_report, default_registry, encode_report, load_from_bytes, scan, scan_with_registry,
    Category, LoadError, ScanError, ScanOptions, Severity,
};

fn le32(n: u32) -> [u8; 4] {
    n.to_le_bytes()
}

fn record(tag: u8, payload: &[u8]) -> Vec<u8> {
    let mut v = vec![tag];
    v.extend_from_slice(&le32(payload.len() as u32));
    v.extend_from_slice(payload);
    v
}

fn archive(records: &[Vec<u8>]) -> Vec<u8> {
    let mut v = b"VTX1".to_vec();
    for r in records {
        v.extend_from_slice(r);
    }
    v
}

/// A manifest head: name record, then version record.
fn head() -> Vec<Vec<u8>> {
    vec![record(1, b"demo.plugin"), record(2, b"1.2.3")]
}

fn opts(require: bool, allow: bool) -> ScanOptions {
    ScanOptions { require_contract_exports: require, allow_unknown_imports: allow }
}

#[test]
fn scenario_missing_contract_export() {
    let mut records = head();
    records.push(record(3, b"host.ui"));
    let bytes = archive(&records);
    let report = scan(&bytes, &opts(true, true)).unwrap();
    assert_eq!(report.findings.len(), 1);
    let f = &report.findings[0];
    assert_eq!(f.category, Category::MissingContractExport);
    assert_eq!(f.category.code(), "missing-contract-export");
    assert_eq!(f.severity, Severity::Critical);
    assert_eq!(f.message, b"vtx_entry".to_vec());
    assert_eq!(f.location, None);
    assert!(report.has_at_least(Severity::Critical));
    assert_eq!(report.max_severity, Some(Severity::Critical));
}

#[test]
fn scenario_clean_package() {
    let mut records = head();
    records.push(record(3, b"host.ui"));
    records.push(record(3, b"host.core"));
    records.push(record(4, b"vtx_entry fn()"));
    let bytes = archive(&records);
    let report = scan(&bytes, &opts(true, true)).unwrap();
    assert_eq!(report.findings.len(), 0);
    assert_eq!(report.max_severity, None);
    assert!(!report.has_at_least(Severity::Info));
    assert!(!report.has_at_least(Severity::Critical));
}

#[test]
fn scenario_unknown_import_policy() {
    let mut records = head();
    records.push(record(3, b"mystery.zone"));
    records.push(record(4, b"vtx_entry fn()"));
    let bytes = archive(&records);

    let lenient = scan(&bytes, &opts(true, true)).unwrap();
    assert_eq!(lenient.findings.len(), 1);
    assert_eq!(lenient.findings[0].category, Category::UnknownImport);
    assert_eq!(lenient.findings[0].severity, Severity::Medium);

    let strict = scan(&bytes, &opts(true, false)).unwrap();
    assert_eq!(strict.findings.len(), 1);
    assert_eq!(strict.findings[0].category, Category::UnknownImport);
    assert_eq!(strict.findings[0].severity, Severity::High);
    assert_eq!(strict.findings[0].message, lenient.findings[0].message);
    assert_eq!(strict.findings[0].location, lenient.findings[0].location);
}

#[test]
fn scenario_malformed_archive() {
    let mut bytes = archive(&head());
    bytes.truncate(bytes.len() - 3);
    let r = scan(&bytes, &opts(true, true));
    assert_eq!(r.unwrap_err(), ScanError::Load(LoadError::MalformedArchive));
}

#[test]
fn bad_magic_is_malformed() {
    let r = scan(&b"NOPE".to_vec(), &opts(true, true));
    assert_eq!(r.unwrap_err(), ScanError::Load(LoadError::MalformedArchive));
    let r = scan(&b"VT".to_vec(), &opts(true, true));
    assert_eq!(r.unwrap_err(), ScanError::Load(LoadError::MalformedArchive));
}

#[test]
fn oversize_archive_is_malformed() {
    let bytes = vec![0u8; 16777217];
    let r = scan(&bytes, &opts(true, true));
    assert_eq!(r.unwrap_err(), ScanError::Load(LoadError::MalformedArchive));
}

#[test]
fn scan_is_deterministic() {
    let mut records = head();
    records.push(record(3, b"mystery.zone"));
    records.push(record(3, b"host.fs"));
    let bytes = archive(&records);
    let o = opts(true, true);
    let r1 = scan(&bytes, &o).unwrap();
    let r2 = scan(&bytes, &o).unwrap();
    assert_eq!(encode_report(&r1), encode_report(&r2));
}

#[test]
fn report_roundtrips_through_codec() {
    let mut records = head();
    records.push(record(3, b"mystery.zone"));
    records.push(record(3, b"host.process"));
    let bytes = archive(&records);
    let report = scan(&bytes, &opts(true, false)).unwrap();
    assert!(report.findings.len() >= 3);
    let encoded = encode_report(&report);
    let back = decode_report(&encoded).unwrap();
    assert_eq!(back.package_name, report.package_name);
    assert_eq!(back.package_version, report.package_version);
    assert_eq!(back.max_severity, report.max_severity);
    assert_eq!(back.findings.len(), report.findings.len());
    for (a, b) in back.findings.iter().zip(report.findings.iter()) {
        assert_eq!(a.severity, b.severity);
        assert_eq!(a.category, b.category);
        assert_eq!(a.message, b.message);
        assert_eq!(a.location, b.location);
    }
}

#[test]
fn decode_rejects_garbage() {
    assert!(decode_report(&Vec::new()).is_none());
    assert!(decode_report(&b"xx".to_vec()).is_none());
    let mut records = head();
    records.push(record(4, b"vtx_entry fn()"));
    let report = scan(&archive(&records), &opts(true, true)).unwrap();
    let mut encoded = encode_report(&report);
    encoded.pop();
    assert!(decode_report(&encoded).is_none());
}

#[test]
fn dangerous_import_ignores_unknown_policy() {
    let mut records = head();
    records.push(record(3, b"host.process"));
    records.push(record(4, b"vtx_entry fn()"));
    let bytes = archive(&records);
    for allow in [true, false] {
        let report = scan(&bytes, &opts(true, allow)).unwrap();
        assert_eq!(report.findings.len(), 1);
        assert_eq!(report.findings[0].category, Category::DangerousImport);
        assert_eq!(report.findings[0].severity, Severity::Critical);
    }
}

#[test]
fn dangerous_import_high_for_fs_and_net() {
    for ns in [b"host.fs".as_slice(), b"host.net".as_slice()] {
        let mut records = head();
        records.push(record(3, ns));
        records.push(record(4, b"vtx_entry fn()"));
        let report = scan(&archive(&records), &opts(true, true)).unwrap();
        assert_eq!(report.findings.len(), 1);
        assert_eq!(report.findings[0].category, Category::DangerousImport);
        assert_eq!(report.findings[0].severity, Severity::High);
        assert_eq!(report.findings[0].message, ns.to_vec());
    }
}

#[test]
fn duplicate_import_is_info_noise() {
    let mut records = head();
    records.push(record(3, b"host.ui"));
    records.push(record(3, b"host.ui"));
    records.push(record(4, b"vtx_entry fn()"));
    let report = scan(&archive(&records), &opts(true, true)).unwrap();
    assert_eq!(report.findings.len(), 1);
    assert_eq!(report.findings[0].category, Category::DuplicateImport);
    assert_eq!(report.findings[0].severity, Severity::Info);
    assert_eq!(report.findings[0].message, b"host.ui".to_vec());
    // the repeat sits in the fourth manifest record
    assert_eq!(report.findings[0].location, Some(4));
}

#[test]
fn duplicate_export_same_signature_is_info() {
    let mut records = head();
    records.push(record(4, b"vtx_entry fn()"));
    records.push(record(4, b"vtx_entry fn()"));
    let report = scan(&archive(&records), &opts(true, true)).unwrap();
    assert_eq!(report.findings.len(), 1);
    assert_eq!(report.findings[0].category, Category::DuplicateExport);
    assert_eq!(report.findings[0].severity, Severity::Info);
}

#[test]
fn conflicting_export_signatures_are_high() {
    let mut records = head();
    records.push(record(4, b"vtx_entry fn()"));
    records.push(record(4, b"helper fn(a)"));
    records.push(record(4, b"helper fn(b)"));
    let report = scan(&archive(&records), &opts(true, true)).unwrap();
    assert_eq!(report.findings.len(), 1);
    assert_eq!(report.findings[0].category, Category::ConflictingExport);
    assert_eq!(report.findings[0].category.code(), "conflicting-export");
    assert_eq!(report.findings[0].severity, Severity::High);
    assert_eq!(report.findings[0].message, b"helper".to_vec());
}

#[test]
fn missing_export_downgrades_without_requirement() {
    let mut records = head();
    records.push(record(3, b"host.ui"));
    let bytes = archive(&records);
    let report = scan(&bytes, &opts(false, true)).unwrap();
    assert_eq!(report.findings.len(), 1);
    assert_eq!(report.findings[0].category, Category::MissingContractExport);
    assert_eq!(report.findings[0].severity, Severity::Info);
}

#[test]
fn invalid_manifest_variants() {
    let invalid = |records: &[Vec<u8>]| {
        let r = scan(&archive(records), &opts(true, true));
        assert_eq!(r.unwrap_err(), ScanError::Load(LoadError::InvalidManifest));
    };
    // no version
    invalid(&[record(1, b"demo.plugin")]);
    // no name
    invalid(&[record(2, b"1.2.3")]);
    // name declared twice
    invalid(&[record(1, b"a"), record(1, b"b"), record(2, b"1")]);
    // empty name
    invalid(&[record(1, b""), record(2, b"1.2.3")]);
    // malformed versions
    invalid(&[record(1, b"a"), record(2, b"")]);
    invalid(&[record(1, b"a"), record(2, b"1..2")]);
    invalid(&[record(1, b"a"), record(2, b".1")]);
    invalid(&[record(1, b"a"), record(2, b"1.x")]);
    // empty import namespace
    invalid(&[record(1, b"a"), record(2, b"1"), record(3, b"")]);
    // export with empty symbol
    invalid(&[record(1, b"a"), record(2, b"1"), record(4, b" sig")]);
    // unknown record tag
    invalid(&[record(1, b"a"), record(2, b"1"), record(9, b"x")]);
}

#[test]
fn loader_exposes_manifest_and_members() {
    let mut records = head();
    records.push(record(3, b"host.ui"));
    records.push(record(4, b"vtx_entry fn(i32) -> i32"));
    records.push(record(4, b"bare_symbol"));
    records.push(record(5, b"code/main.wasm"));
    let pkg = load_from_bytes(&archive(&records)).unwrap();
    assert_eq!(pkg.name, b"demo.plugin".to_vec());
    assert_eq!(pkg.version, b"1.2.3".to_vec());
    assert_eq!(pkg.imports.len(), 1);
    assert_eq!(pkg.imports[0].namespace, b"host.ui".to_vec());
    assert_eq!(pkg.imports[0].line, 3);
    assert_eq!(pkg.exports.len(), 2);
    assert_eq!(pkg.exports[0].name, b"vtx_entry".to_vec());
    assert_eq!(pkg.exports[0].signature, b"fn(i32) -> i32".to_vec());
    assert_eq!(pkg.exports[1].name, b"bare_symbol".to_vec());
    assert_eq!(pkg.exports[1].signature, Vec::new());
    assert_eq!(pkg.members.len(), 1);
    assert_eq!(pkg.members[0], b"code/main.wasm".to_vec());
}

#[test]
fn severity_order_is_total() {
    let all = [
        Severity::Info,
        Severity::Low,
        Severity::Medium,
        Severity::High,
        Severity::Critical,
    ];
    for (i, a) in all.iter().enumerate() {
        assert_eq!(a.rank() as usize, i);
        for (j, b) in all.iter().enumerate() {
            assert_eq!(a.at_least(*b), i >= j);
        }
    }
}

#[test]
fn has_at_least_tracks_the_maximum() {
    let mut records = head();
    records.push(record(3, b"mystery.zone"));
    records.push(record(4, b"vtx_entry fn()"));
    let report = scan(&archive(&records), &opts(true, true)).unwrap();
    assert_eq!(report.max_severity, Some(Severity::Medium));
    assert!(report.has_at_least(Severity::Info));
    assert!(report.has_at_least(Severity::Low));
    assert!(report.has_at_least(Severity::Medium));
    assert!(!report.has_at_least(Severity::High));
    assert!(!report.has_at_least(Severity::Critical));
}

#[test]
fn default_options_allow_unknown_and_require_exports() {
    let o = ScanOptions::default();
    assert!(o.require_contract_exports);
    assert!(o.allow_unknown_imports);
}

#[test]
fn explicit_registry_matches_default() {
    let mut records = head();
    records.push(record(3, b"host.fs"));
    records.push(record(4, b"vtx_entry fn()"));
    let bytes = archive(&records);
    let o = opts(true, true);
    let reg = default_registry();
    let r1 = scan_with_registry(&bytes, &reg, &o).unwrap();
    let r2 = scan(&bytes, &o).unwrap();
    assert_eq!(encode_report(&r1), encode_report(&r2));
}

#[test]
fn checks_keep_declaration_order() {
    let mut records = head();
    records.push(record(3, b"mystery.one"));
    records.push(record(3, b"host.fs"));
    records.push(record(3, b"mystery.two"));
    let report = scan(&archive(&records), &opts(true, true)).unwrap();
    // import findings in declaration order, then the export finding
    assert_eq!(report.findings.len(), 4);
    assert_eq!(report.findings[0].message, b"mystery.one".to_vec());
    assert_eq!(report.findings[1].message, b"host.fs".to_vec());
    assert_eq!(report.findings[2].message, b"mystery.two".to_vec());
    assert_eq!(report.findings[3].category, Category::MissingContractExport);
    assert_eq!(report.findings[0].location, Some(3));
    assert_eq!(report.findings[1].location, Some(4));
    assert_eq!(report.findings[2].location, Some(5));
}

#[test]
fn category_codes_are_stable() {
    assert_eq!(Category::UnknownImport.code(), "unknown-import");
    assert_eq!(Category::DangerousImport.code(), "dangerous-import");
    assert_eq!(Category::DuplicateImport.code(), "duplicate-import");
    assert_eq!(Category::MissingContractExport.code(), "missing-contract-export");
    assert_eq!(Category::DuplicateExport.code(), "duplicate-export");
    assert_eq!(Category::ConflictingExport.code(), "conflicting-export");
}
