//! Resolver bookkeeping shared across phases: why a reference stayed
//! unresolved, and resolver-internal module indices.

use vstd::prelude::*;

use crate::mib::types::{UnresolvedKind, UnresolvedRef};

verus! {

/// Reason an imported or referenced symbol could not be resolved.
#[derive(Debug, Clone, Copy, PartialEq, Eq, Structural)]
pub enum UnresolvedReason {
    /// The source module was not found in the loaded module set.
    ModuleNotFound,
    /// The source module exists but does not export the requested symbol.
    SymbolNotExported,
    /// A type reference could not be resolved.
    TypeNotFound,
    /// A dependency cycle prevented resolution.
    DependencyCycle,
    /// An OID component's named parent could not be found.
    ComponentNotFound,
    /// A TRAP-TYPE's ENTERPRISE reference could not be resolved.
    EnterpriseNotFound,
    /// Incrementing a generic TRAP-TYPE number would overflow its OID arc.
    TrapNumberOverflow,
    /// An AUGMENTS target row object could not be found.
    AugmentsTargetNotFound,
    /// An INDEX object reference could not be resolved.
    IndexObjectNotFound,
    /// A generic object reference could not be resolved.
    ObjectNotFound,
}

impl UnresolvedReason {
    /// The public-facing reason text.
    pub open spec fn spec_text(self) -> &'static str {
        match self {
            UnresolvedReason::ModuleNotFound => "module_not_found",
            UnresolvedReason::SymbolNotExported => "symbol_not_exported",
            UnresolvedReason::TypeNotFound => "unknown_type",
            UnresolvedReason::DependencyCycle => "dependency_cycle",
            UnresolvedReason::ComponentNotFound => "unknown_parent",
            UnresolvedReason::EnterpriseNotFound => "unknown_parent",
            UnresolvedReason::TrapNumberOverflow => "trap_number_overflow",
            UnresolvedReason::AugmentsTargetNotFound => "unknown_parent",
            UnresolvedReason::IndexObjectNotFound => "unknown_index_object",
            UnresolvedReason::ObjectNotFound => "unknown_object",
        }
    }

    /// Convert to the public-facing reason string used in [`UnresolvedRef`].
    pub fn as_str(self) -> (s: &'static str)
        ensures
            s == self.spec_text(),
    {
        match self {
            UnresolvedReason::ModuleNotFound => "module_not_found",
            UnresolvedReason::SymbolNotExported => "symbol_not_exported",
            UnresolvedReason::TypeNotFound => "unknown_type",
            UnresolvedReason::DependencyCycle => "dependency_cycle",
            UnresolvedReason::ComponentNotFound => "unknown_parent",
            UnresolvedReason::EnterpriseNotFound => "unknown_parent",
            UnresolvedReason::TrapNumberOverflow => "trap_number_overflow",
            UnresolvedReason::AugmentsTargetNotFound => "unknown_parent",
            UnresolvedReason::IndexObjectNotFound => "unknown_index_object",
            UnresolvedReason::ObjectNotFound => "unknown_object",
        }
    }
}

/// Resolver-internal module identifier: an index into the resolver's list
/// of parsed modules.
#[derive(Clone, Copy, Debug, PartialEq, Eq, Structural, Hash)]
pub struct IrModuleId(pub u32);

impl IrModuleId {
    /// Return the index into the modules list.
    pub fn index(self) -> (r: usize)
        ensures
            r == self.0,
    {
        self.0 as usize
    }
}

/// An unresolved reference recorded during resolution, before conversion
/// to the public [`UnresolvedRef`] type.
#[derive(Debug, Clone)]
pub struct UnresolvedTracking {
    /// Category of the unresolved reference.
    pub kind: UnresolvedKind,
    /// Name of the symbol that could not be resolved.
    pub symbol: String,
    /// Module where the unresolved reference originated.
    pub module: String,
    /// Why the reference could not be resolved.
    pub reason: UnresolvedReason,
}

/// The public form of a pending reference: same kind, symbol and module,
/// with the reason as text.
pub open spec fn public_form(u: UnresolvedTracking, r: UnresolvedRef) -> bool {
    &&& r.kind == u.kind
    &&& r.symbol@ == u.symbol@
    &&& r.module@ == u.module@
    &&& r.reason@ == u.reason.spec_text()@
}

/// Convert pending references, in order, to their public form.
pub fn finalize_unresolved(pending: Vec<UnresolvedTracking>) -> (r: Vec<UnresolvedRef>)
    ensures
        r@.len() == pending@.len(),
        forall|i: int| 0 <= i < r@.len() ==> public_form(pending@[i], #[trigger] r@[i]),
{
    let mut out: Vec<UnresolvedRef> = Vec::new();
    let mut i: usize = 0;
    while i < pending.len()
        invariant
            0 <= i <= pending@.len(),
            out@.len() == i,
            forall|k: int| 0 <= k < i ==> public_form(pending@[k], #[trigger] out@[k]),
        decreases pending@.len() - i,
    {
        let u = &pending[i];
        out.push(
            UnresolvedRef {
                kind: u.kind,
                symbol: u.symbol.clone(),
                module: u.module.clone(),
                reason: String::from_str(u.reason.as_str()),
            },
        );
        i = i + 1;
    }
    out
}

} // verus!
