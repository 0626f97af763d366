//! The registry of known import namespaces.
//!
//! The registry is read-only configuration data: a list of namespaces the
//! host recognizes, each either safe or flagged as inherently dangerous
//! with a severity of at least `High`.  Lookup finds the first entry whose
//! namespace matches.

use vstd::prelude::*;

use crate::bytes::bytes_of;
use crate::bytes::bytes_eq;
use crate::severity::Severity;
use crate::severity::sev_ge;

verus! {

/// One registry entry.  `danger` is `None` for a safe namespace and
/// `Some(severity)` for an inherently dangerous one.
#[derive(Debug)]
pub struct RegistryEntry {
    pub namespace: Vec<u8>,
    pub danger: Option<Severity>,
}

#[verifier::ext_equal]
pub struct RegistryEntryView {
    pub namespace: Seq<u8>,
    pub danger: Option<Severity>,
}

impl View for RegistryEntry {
    type V = RegistryEntryView;

    open spec fn view(&self) -> RegistryEntryView {
        RegistryEntryView { namespace: self.namespace@, danger: self.danger }
    }
}

pub open spec fn entry_views(s: Seq<RegistryEntry>) -> Seq<RegistryEntryView> {
    Seq::new(s.len(), |i: int| s[i]@)
}

/// The known-namespace table a scan consults.
#[derive(Debug)]
pub struct Registry {
    pub entries: Vec<RegistryEntry>,
}

#[verifier::ext_equal]
pub struct RegistryView {
    pub entries: Seq<RegistryEntryView>,
}

impl View for Registry {
    type V = RegistryView;

    open spec fn view(&self) -> RegistryView {
        RegistryView { entries: entry_views(self.entries@) }
    }
}

impl RegistryView {
    /// A dangerous namespace is never flagged below `High`.
    pub open spec fn wf(self) -> bool {
        forall|i: int|
            0 <= i < self.entries.len() ==> match (#[trigger] self.entries[i]).danger {
                Some(s) => sev_ge(s, Severity::High),
                None => true,
            }
    }
}

/// The first entry whose namespace is `ns`, searched from index `j` on:
/// `None` when no entry matches, `Some(danger)` otherwise.
pub open spec fn lookup_from(entries: Seq<RegistryEntryView>, ns: Seq<u8>, j: int) -> Option<
    Option<Severity>,
>
    decreases entries.len() - j,
{
    if j >= entries.len() {
        None
    } else if entries[j].namespace == ns {
        Some(entries[j].danger)
    } else {
        lookup_from(entries, ns, j + 1)
    }
}

/// Registry lookup: the first matching entry's classification.
pub open spec fn reg_lookup(reg: RegistryView, ns: Seq<u8>) -> Option<Option<Severity>> {
    lookup_from(reg.entries, ns, 0)
}

impl Registry {
    /// Look a namespace up: `None` when unknown, `Some(None)` when known
    /// and safe, `Some(Some(severity))` when known and dangerous.
    pub fn lookup(&self, ns: &Vec<u8>) -> (r: Option<Option<Severity>>)
        ensures
            r == reg_lookup(self@, ns@),
    {
        let mut j: usize = 0;
        while j < self.entries.len()
            invariant
                0 <= j <= self.entries@.len(),
                reg_lookup(self@, ns@) == lookup_from(entry_views(self.entries@), ns@, j as int),
            decreases self.entries@.len() - j,
        {
            if bytes_eq(&self.entries[j].namespace, ns) {
                return Some(self.entries[j].danger);
            }
            j = j + 1;
        }
        None
    }
}

/// The model of the default registry table.
pub open spec fn default_registry_view() -> RegistryView {
    RegistryView {
        entries: seq![
            // host.core
            RegistryEntryView {
                namespace: seq![104u8, 111u8, 115u8, 116u8, 46u8, 99u8, 111u8, 114u8, 101u8],
                danger: None,
            },
            // host.ui
            RegistryEntryView {
                namespace: seq![104u8, 111u8, 115u8, 116u8, 46u8, 117u8, 105u8],
                danger: None,
            },
            // host.log
            RegistryEntryView {
                namespace: seq![104u8, 111u8, 115u8, 116u8, 46u8, 108u8, 111u8, 103u8],
                danger: None,
            },
            // host.net
            RegistryEntryView {
                namespace: seq![104u8, 111u8, 115u8, 116u8, 46u8, 110u8, 101u8, 116u8],
                danger: Some(Severity::High),
            },
            // host.fs
            RegistryEntryView {
                namespace: seq![104u8, 111u8, 115u8, 116u8, 46u8, 102u8, 115u8],
                danger: Some(Severity::High),
            },
            // host.process
            RegistryEntryView {
                namespace: seq![
                    104u8,
                    111u8,
                    115u8,
                    116u8,
                    46u8,
                    112u8,
                    114u8,
                    111u8,
                    99u8,
                    101u8,
                    115u8,
                    115u8,
                ],
                danger: Some(Severity::Critical),
            },
        ],
    }
}

/// Build the default registry: `host.core`, `host.ui` and `host.log` are
/// known and safe; `host.net` and `host.fs` are dangerous at `High`;
/// `host.process` is dangerous at `Critical`.
pub fn default_registry() -> (r: Registry)
    ensures
        r@ == default_registry_view(),
        r@.wf(),
{
    let mut entries: Vec<RegistryEntry> = Vec::new();
    entries.push(
        RegistryEntry {
            namespace: bytes_of([104, 111, 115, 116, 46, 99, 111, 114, 101]),
            danger: None,
        },
    );
    entries.push(
        RegistryEntry { namespace: bytes_of([104, 111, 115, 116, 46, 117, 105]), danger: None },
    );
    entries.push(
        RegistryEntry {
            namespace: bytes_of([104, 111, 115, 116, 46, 108, 111, 103]),
            danger: None,
        },
    );
    entries.push(
        RegistryEntry {
            namespace: bytes_of([104, 111, 115, 116, 46, 110, 101, 116]),
            danger: Some(Severity::High),
        },
    );
    entries.push(
        RegistryEntry {
            namespace: bytes_of([104, 111, 115, 116, 46, 102, 115]),
            danger: Some(Severity::High),
        },
    );
    entries.push(
        RegistryEntry {
            namespace: bytes_of([104, 111, 115, 116, 46, 112, 114, 111, 99, 101, 115, 115]),
            danger: Some(Severity::Critical),
        },
    );
    let r = Registry { entries };
    proof {
        assert(r@.entries =~~= default_registry_view().entries);
        assert(r@ =~= default_registry_view());
    }
    r
}

} // verus!
