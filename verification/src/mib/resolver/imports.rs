//! Import resolution rules: SMI macro names that IMPORTS clauses may list,
//! and compatibility aliases for foundation module names.

use vstd::prelude::*;

use crate::text::str_equal;

verus! {

/// The SMI macro names: syntactic constructs that appear in IMPORTS
/// clauses but name no definition.
pub open spec fn spec_is_macro_symbol(name: Seq<char>) -> bool {
    name == "MODULE-IDENTITY"@ || name == "OBJECT-TYPE"@ || name == "NOTIFICATION-TYPE"@ || name
        == "TEXTUAL-CONVENTION"@ || name == "OBJECT-GROUP"@ || name == "NOTIFICATION-GROUP"@
        || name == "MODULE-COMPLIANCE"@ || name == "AGENT-CAPABILITIES"@ || name == "TRAP-TYPE"@
        || name == "OBJECT-IDENTITY"@
}

/// Return whether the imported name is an SMI macro.
pub fn is_macro_symbol(name: &str) -> (r: bool)
    ensures
        r == spec_is_macro_symbol(name@),
{
    str_equal(name, "MODULE-IDENTITY") || str_equal(name, "OBJECT-TYPE") || str_equal(
        name,
        "NOTIFICATION-TYPE",
    ) || str_equal(name, "TEXTUAL-CONVENTION") || str_equal(name, "OBJECT-GROUP") || str_equal(
        name,
        "NOTIFICATION-GROUP",
    ) || str_equal(name, "MODULE-COMPLIANCE") || str_equal(name, "AGENT-CAPABILITIES")
        || str_equal(name, "TRAP-TYPE") || str_equal(name, "OBJECT-IDENTITY")
}

/// The module an outdated module name in an IMPORTS clause stands for.
pub open spec fn spec_base_module_import_alias(name: Seq<char>) -> Option<Seq<char>> {
    if name == "SNMPv2-SMI-v1"@ {
        Some("SNMPv2-SMI"@)
    } else if name == "SNMPv2-TC-v1"@ {
        Some("SNMPv2-TC"@)
    } else if name == "RFC1315-MIB"@ {
        Some("FRAME-RELAY-DTE-MIB"@)
    } else if name == "RFC-1213"@ {
        Some("RFC1213-MIB"@)
    } else {
        None
    }
}

/// Return the module an outdated module name stands for.
pub fn base_module_import_alias(name: &str) -> (r: Option<&'static str>)
    ensures
        match r {
            Some(m) => spec_base_module_import_alias(name@) == Some(m@),
            None => spec_base_module_import_alias(name@) is None,
        },
{
    if str_equal(name, "SNMPv2-SMI-v1") {
        Some("SNMPv2-SMI")
    } else if str_equal(name, "SNMPv2-TC-v1") {
        Some("SNMPv2-TC")
    } else if str_equal(name, "RFC1315-MIB") {
        Some("FRAME-RELAY-DTE-MIB")
    } else if str_equal(name, "RFC-1213") {
        Some("RFC1213-MIB")
    } else {
        None
    }
}

} // verus!
