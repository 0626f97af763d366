//! The in-memory view of a loaded VTX package.

use vstd::prelude::*;

verus! {

/// The archive size safeguard: anything larger is rejected outright.
pub const MAX_ARCHIVE_BYTES: usize = 16777216;

/// A declared import: a namespace path plus the one-based ordinal of the
/// manifest record that declared it.
#[derive(Debug)]
pub struct ImportDecl {
    pub namespace: Vec<u8>,
    pub line: u32,
}

#[verifier::ext_equal]
pub struct ImportView {
    pub namespace: Seq<u8>,
    pub line: u32,
}

impl View for ImportDecl {
    type V = ImportView;

    open spec fn view(&self) -> ImportView {
        ImportView { namespace: self.namespace@, line: self.line }
    }
}

/// A declared contract export: a symbol name, its signature text, and the
/// one-based ordinal of the manifest record that declared it.
#[derive(Debug)]
pub struct ExportDecl {
    pub name: Vec<u8>,
    pub signature: Vec<u8>,
    pub line: u32,
}

#[verifier::ext_equal]
pub struct ExportView {
    pub name: Seq<u8>,
    pub signature: Seq<u8>,
    pub line: u32,
}

impl View for ExportDecl {
    type V = ExportView;

    open spec fn view(&self) -> ExportView {
        ExportView { name: self.name@, signature: self.signature@, line: self.line }
    }
}

/// An immutable, in-memory view of a loaded archive: the manifest fields
/// plus the raw member listing.  Owned by one scan invocation.
#[derive(Debug)]
pub struct Package {
    pub name: Vec<u8>,
    pub version: Vec<u8>,
    pub imports: Vec<ImportDecl>,
    pub exports: Vec<ExportDecl>,
    pub members: Vec<Vec<u8>>,
}

#[verifier::ext_equal]
pub struct PackageView {
    pub name: Seq<u8>,
    pub version: Seq<u8>,
    pub imports: Seq<ImportView>,
    pub exports: Seq<ExportView>,
    pub members: Seq<Seq<u8>>,
}

pub open spec fn import_views(s: Seq<ImportDecl>) -> Seq<ImportView> {
    Seq::new(s.len(), |i: int| s[i]@)
}

pub open spec fn export_views(s: Seq<ExportDecl>) -> Seq<ExportView> {
    Seq::new(s.len(), |i: int| s[i]@)
}

pub open spec fn member_views(s: Seq<Vec<u8>>) -> Seq<Seq<u8>> {
    Seq::new(s.len(), |i: int| s[i]@)
}

impl View for Package {
    type V = PackageView;

    open spec fn view(&self) -> PackageView {
        PackageView {
            name: self.name@,
            version: self.version@,
            imports: import_views(self.imports@),
            exports: export_views(self.exports@),
            members: member_views(self.members@),
        }
    }
}

impl PackageView {
    /// Every field of a loaded package is bounded by the archive size
    /// safeguard, so every derived quantity fits the report encoding.
    pub open spec fn wf(self) -> bool {
        &&& self.name.len() <= MAX_ARCHIVE_BYTES
        &&& self.version.len() <= MAX_ARCHIVE_BYTES
        &&& self.imports.len() <= MAX_ARCHIVE_BYTES
        &&& self.exports.len() <= MAX_ARCHIVE_BYTES
        &&& self.members.len() <= MAX_ARCHIVE_BYTES
        &&& forall|i: int|
            0 <= i < self.imports.len() ==> (#[trigger] self.imports[i]).namespace.len()
                <= MAX_ARCHIVE_BYTES
        &&& forall|i: int|
            0 <= i < self.exports.len() ==> (#[trigger] self.exports[i]).name.len()
                <= MAX_ARCHIVE_BYTES && self.exports[i].signature.len() <= MAX_ARCHIVE_BYTES
        &&& forall|i: int|
            0 <= i < self.members.len() ==> (#[trigger] self.members[i]).len()
                <= MAX_ARCHIVE_BYTES
    }
}

} // verus!
