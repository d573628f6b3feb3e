//! Lexical analysis of SMI source text.
//!
//! Splits a document's bytes into [`Token`]s. Comments are kept as tokens so
//! that callers can decide whether to skip them. The body of an `EXPORTS`
//! clause is consumed up to its terminating semicolon, and the body of a
//! `MACRO` definition is consumed up to its standalone `END`, which is
//! emitted as the only token of the body.

use vstd::prelude::*;

use crate::source::{SourceDocument, SourceId, SourceRange};
use crate::text::bytes_equal;
use vstd::string::StringSliceAdditionalSpecFns;
use vstd::utf8::{decode_utf8, encode_utf8};
use crate::types::{spec_default_severity, DiagCode, Diagnostic, DiagnosticConfig};

verus! {

/// The kind of a lexical token.
#[derive(Clone, Copy, Debug, PartialEq, Eq, Structural, Hash)]
pub enum TokenKind {
    Eof,
    Comment,
    UppercaseIdent,
    LowercaseIdent,
    ForbiddenKeyword,
    Number,
    NegativeNumber,
    QuotedString,
    HexString,
    BinString,
    LBrace,
    RBrace,
    LParen,
    RParen,
    LBracket,
    RBracket,
    Comma,
    Semicolon,
    Dot,
    DotDot,
    Pipe,
    ColonColonEqual,
    KwDefinitions,
    KwBegin,
    KwEnd,
    KwImports,
    KwExports,
    KwFrom,
    KwMacro,
    KwObject,
    KwIdentifier,
    KwObjectType,
    KwModuleIdentity,
    KwObjectIdentity,
    KwNotificationType,
    KwTrapType,
    KwTextualConvention,
    KwObjectGroup,
    KwNotificationGroup,
    KwModuleCompliance,
    KwAgentCapabilities,
    KwSyntax,
    KwWriteSyntax,
    KwUnits,
    KwMaxAccess,
    KwAccess,
    KwMinAccess,
    KwStatus,
    KwDescription,
    KwReference,
    KwIndex,
    KwAugments,
    KwDefval,
    KwImplied,
    KwLastUpdated,
    KwOrganization,
    KwContactInfo,
    KwRevision,
    KwObjects,
    KwNotifications,
    KwEnterprise,
    KwVariables,
    KwDisplayHint,
    KwModule,
    KwMandatoryGroups,
    KwGroup,
    KwProductRelease,
    KwSupports,
    KwIncludes,
    KwVariation,
    KwCreationRequires,
    KwInteger,
    KwBits,
    KwOctet,
    KwString,
    KwSequence,
    KwOf,
    KwChoice,
    KwSize,
    KwApplication,
    KwUniversal,
    KwImplicit,
    KwCounter32,
    KwCounter64,
    KwGauge32,
    KwUnsigned32,
    KwTimeTicks,
    KwIpAddress,
    KwOpaque,
    KwCounter,
    KwGauge,
    KwNetworkAddress,
    KwReadOnly,
    KwReadWrite,
    KwReadCreate,
    KwNotAccessible,
    KwAccessibleForNotify,
    KwWriteOnly,
    KwNotImplemented,
    KwCurrent,
    KwDeprecated,
    KwObsolete,
    KwMandatory,
    KwOptional,
}

/// The keyword, if any, that a word spells.
#[verifier::opaque]
pub open spec fn spec_keyword(text: Seq<u8>) -> Option<TokenKind> {
    if text == "DEFINITIONS".spec_bytes() {
        Some(TokenKind::KwDefinitions)
    } else if text == "BEGIN".spec_bytes() {
        Some(TokenKind::KwBegin)
    } else if text == "END".spec_bytes() {
        Some(TokenKind::KwEnd)
    } else if text == "IMPORTS".spec_bytes() {
        Some(TokenKind::KwImports)
    } else if text == "EXPORTS".spec_bytes() {
        Some(TokenKind::KwExports)
    } else if text == "FROM".spec_bytes() {
        Some(TokenKind::KwFrom)
    } else if text == "MACRO".spec_bytes() {
        Some(TokenKind::KwMacro)
    } else if text == "OBJECT".spec_bytes() {
        Some(TokenKind::KwObject)
    } else if text == "IDENTIFIER".spec_bytes() {
        Some(TokenKind::KwIdentifier)
    } else if text == "OBJECT-TYPE".spec_bytes() {
        Some(TokenKind::KwObjectType)
    } else if text == "MODULE-IDENTITY".spec_bytes() {
        Some(TokenKind::KwModuleIdentity)
    } else if text == "OBJECT-IDENTITY".spec_bytes() {
        Some(TokenKind::KwObjectIdentity)
    } else if text == "NOTIFICATION-TYPE".spec_bytes() {
        Some(TokenKind::KwNotificationType)
    } else if text == "TRAP-TYPE".spec_bytes() {
        Some(TokenKind::KwTrapType)
    } else if text == "TEXTUAL-CONVENTION".spec_bytes() {
        Some(TokenKind::KwTextualConvention)
    } else if text == "OBJECT-GROUP".spec_bytes() {
        Some(TokenKind::KwObjectGroup)
    } else if text == "NOTIFICATION-GROUP".spec_bytes() {
        Some(TokenKind::KwNotificationGroup)
    } else if text == "MODULE-COMPLIANCE".spec_bytes() {
        Some(TokenKind::KwModuleCompliance)
    } else if text == "AGENT-CAPABILITIES".spec_bytes() {
        Some(TokenKind::KwAgentCapabilities)
    } else if text == "SYNTAX".spec_bytes() {
        Some(TokenKind::KwSyntax)
    } else if text == "WRITE-SYNTAX".spec_bytes() {
        Some(TokenKind::KwWriteSyntax)
    } else if text == "UNITS".spec_bytes() {
        Some(TokenKind::KwUnits)
    } else if text == "MAX-ACCESS".spec_bytes() {
        Some(TokenKind::KwMaxAccess)
    } else if text == "ACCESS".spec_bytes() {
        Some(TokenKind::KwAccess)
    } else if text == "MIN-ACCESS".spec_bytes() {
        Some(TokenKind::KwMinAccess)
    } else if text == "STATUS".spec_bytes() {
        Some(TokenKind::KwStatus)
    } else if text == "DESCRIPTION".spec_bytes() {
        Some(TokenKind::KwDescription)
    } else if text == "REFERENCE".spec_bytes() {
        Some(TokenKind::KwReference)
    } else if text == "INDEX".spec_bytes() {
        Some(TokenKind::KwIndex)
    } else if text == "AUGMENTS".spec_bytes() {
        Some(TokenKind::KwAugments)
    } else if text == "DEFVAL".spec_bytes() {
        Some(TokenKind::KwDefval)
    } else if text == "IMPLIED".spec_bytes() {
        Some(TokenKind::KwImplied)
    } else if text == "LAST-UPDATED".spec_bytes() {
        Some(TokenKind::KwLastUpdated)
    } else if text == "ORGANIZATION".spec_bytes() {
        Some(TokenKind::KwOrganization)
    } else if text == "CONTACT-INFO".spec_bytes() {
        Some(TokenKind::KwContactInfo)
    } else if text == "REVISION".spec_bytes() {
        Some(TokenKind::KwRevision)
    } else if text == "OBJECTS".spec_bytes() {
        Some(TokenKind::KwObjects)
    } else if text == "NOTIFICATIONS".spec_bytes() {
        Some(TokenKind::KwNotifications)
    } else if text == "ENTERPRISE".spec_bytes() {
        Some(TokenKind::KwEnterprise)
    } else if text == "VARIABLES".spec_bytes() {
        Some(TokenKind::KwVariables)
    } else if text == "DISPLAY-HINT".spec_bytes() {
        Some(TokenKind::KwDisplayHint)
    } else if text == "MODULE".spec_bytes() {
        Some(TokenKind::KwModule)
    } else if text == "MANDATORY-GROUPS".spec_bytes() {
        Some(TokenKind::KwMandatoryGroups)
    } else if text == "GROUP".spec_bytes() {
        Some(TokenKind::KwGroup)
    } else if text == "PRODUCT-RELEASE".spec_bytes() {
        Some(TokenKind::KwProductRelease)
    } else if text == "SUPPORTS".spec_bytes() {
        Some(TokenKind::KwSupports)
    } else if text == "INCLUDES".spec_bytes() {
        Some(TokenKind::KwIncludes)
    } else if text == "VARIATION".spec_bytes() {
        Some(TokenKind::KwVariation)
    } else if text == "CREATION-REQUIRES".spec_bytes() {
        Some(TokenKind::KwCreationRequires)
    } else if text == "INTEGER".spec_bytes() {
        Some(TokenKind::KwInteger)
    } else if text == "BITS".spec_bytes() {
        Some(TokenKind::KwBits)
    } else if text == "OCTET".spec_bytes() {
        Some(TokenKind::KwOctet)
    } else if text == "STRING".spec_bytes() {
        Some(TokenKind::KwString)
    } else if text == "SEQUENCE".spec_bytes() {
        Some(TokenKind::KwSequence)
    } else if text == "OF".spec_bytes() {
        Some(TokenKind::KwOf)
    } else if text == "CHOICE".spec_bytes() {
        Some(TokenKind::KwChoice)
    } else if text == "SIZE".spec_bytes() {
        Some(TokenKind::KwSize)
    } else if text == "APPLICATION".spec_bytes() {
        Some(TokenKind::KwApplication)
    } else if text == "UNIVERSAL".spec_bytes() {
        Some(TokenKind::KwUniversal)
    } else if text == "IMPLICIT".spec_bytes() {
        Some(TokenKind::KwImplicit)
    } else if text == "Counter32".spec_bytes() {
        Some(TokenKind::KwCounter32)
    } else if text == "Counter64".spec_bytes() {
        Some(TokenKind::KwCounter64)
    } else if text == "Gauge32".spec_bytes() {
        Some(TokenKind::KwGauge32)
    } else if text == "Unsigned32".spec_bytes() {
        Some(TokenKind::KwUnsigned32)
    } else if text == "TimeTicks".spec_bytes() {
        Some(TokenKind::KwTimeTicks)
    } else if text == "IpAddress".spec_bytes() {
        Some(TokenKind::KwIpAddress)
    } else if text == "Opaque".spec_bytes() {
        Some(TokenKind::KwOpaque)
    } else if text == "Counter".spec_bytes() {
        Some(TokenKind::KwCounter)
    } else if text == "Gauge".spec_bytes() {
        Some(TokenKind::KwGauge)
    } else if text == "NetworkAddress".spec_bytes() {
        Some(TokenKind::KwNetworkAddress)
    } else if text == "read-only".spec_bytes() {
        Some(TokenKind::KwReadOnly)
    } else if text == "read-write".spec_bytes() {
        Some(TokenKind::KwReadWrite)
    } else if text == "read-create".spec_bytes() {
        Some(TokenKind::KwReadCreate)
    } else if text == "not-accessible".spec_bytes() {
        Some(TokenKind::KwNotAccessible)
    } else if text == "accessible-for-notify".spec_bytes() {
        Some(TokenKind::KwAccessibleForNotify)
    } else if text == "write-only".spec_bytes() {
        Some(TokenKind::KwWriteOnly)
    } else if text == "not-implemented".spec_bytes() {
        Some(TokenKind::KwNotImplemented)
    } else if text == "current".spec_bytes() {
        Some(TokenKind::KwCurrent)
    } else if text == "deprecated".spec_bytes() {
        Some(TokenKind::KwDeprecated)
    } else if text == "obsolete".spec_bytes() {
        Some(TokenKind::KwObsolete)
    } else if text == "mandatory".spec_bytes() {
        Some(TokenKind::KwMandatory)
    } else if text == "optional".spec_bytes() {
        Some(TokenKind::KwOptional)
    } else if text == "ABSENT".spec_bytes() {
        Some(TokenKind::ForbiddenKeyword)
    } else if text == "ANY".spec_bytes() {
        Some(TokenKind::ForbiddenKeyword)
    } else if text == "BOOLEAN".spec_bytes() {
        Some(TokenKind::ForbiddenKeyword)
    } else if text == "BY".spec_bytes() {
        Some(TokenKind::ForbiddenKeyword)
    } else if text == "CLASS".spec_bytes() {
        Some(TokenKind::ForbiddenKeyword)
    } else if text == "COMPONENT".spec_bytes() {
        Some(TokenKind::ForbiddenKeyword)
    } else if text == "COMPONENTS".spec_bytes() {
        Some(TokenKind::ForbiddenKeyword)
    } else if text == "DEFAULT".spec_bytes() {
        Some(TokenKind::ForbiddenKeyword)
    } else if text == "DEFINED".spec_bytes() {
        Some(TokenKind::ForbiddenKeyword)
    } else if text == "ENUMERATED".spec_bytes() {
        Some(TokenKind::ForbiddenKeyword)
    } else if text == "EXPLICIT".spec_bytes() {
        Some(TokenKind::ForbiddenKeyword)
    } else if text == "EXTERNAL".spec_bytes() {
        Some(TokenKind::ForbiddenKeyword)
    } else if text == "FALSE".spec_bytes() {
        Some(TokenKind::ForbiddenKeyword)
    } else if text == "MAX".spec_bytes() {
        Some(TokenKind::ForbiddenKeyword)
    } else if text == "MIN".spec_bytes() {
        Some(TokenKind::ForbiddenKeyword)
    } else if text == "MINUS-INFINITY".spec_bytes() {
        Some(TokenKind::ForbiddenKeyword)
    } else if text == "NULL".spec_bytes() {
        Some(TokenKind::ForbiddenKeyword)
    } else if text == "OPTIONAL".spec_bytes() {
        Some(TokenKind::ForbiddenKeyword)
    } else if text == "PLUS-INFINITY".spec_bytes() {
        Some(TokenKind::ForbiddenKeyword)
    } else if text == "PRESENT".spec_bytes() {
        Some(TokenKind::ForbiddenKeyword)
    } else if text == "PRIVATE".spec_bytes() {
        Some(TokenKind::ForbiddenKeyword)
    } else if text == "REAL".spec_bytes() {
        Some(TokenKind::ForbiddenKeyword)
    } else if text == "SET".spec_bytes() {
        Some(TokenKind::ForbiddenKeyword)
    } else if text == "TAGS".spec_bytes() {
        Some(TokenKind::ForbiddenKeyword)
    } else if text == "TRUE".spec_bytes() {
        Some(TokenKind::ForbiddenKeyword)
    } else if text == "WITH".spec_bytes() {
        Some(TokenKind::ForbiddenKeyword)
    } else {
        None
    }
}

/// Return the keyword, if any, that a word spells.
pub fn lookup_keyword(text: &[u8]) -> (r: Option<TokenKind>)
    ensures
        r == spec_keyword(text@),
{
    reveal(spec_keyword);
    if bytes_equal(text, "DEFINITIONS".as_bytes()) {
        return Some(TokenKind::KwDefinitions);
    }
    if bytes_equal(text, "BEGIN".as_bytes()) {
        return Some(TokenKind::KwBegin);
    }
    if bytes_equal(text, "END".as_bytes()) {
        return Some(TokenKind::KwEnd);
    }
    if bytes_equal(text, "IMPORTS".as_bytes()) {
        return Some(TokenKind::KwImports);
    }
    if bytes_equal(text, "EXPORTS".as_bytes()) {
        return Some(TokenKind::KwExports);
    }
    if bytes_equal(text, "FROM".as_bytes()) {
        return Some(TokenKind::KwFrom);
    }
    if bytes_equal(text, "MACRO".as_bytes()) {
        return Some(TokenKind::KwMacro);
    }
    if bytes_equal(text, "OBJECT".as_bytes()) {
        return Some(TokenKind::KwObject);
    }
    if bytes_equal(text, "IDENTIFIER".as_bytes()) {
        return Some(TokenKind::KwIdentifier);
    }
    if bytes_equal(text, "OBJECT-TYPE".as_bytes()) {
        return Some(TokenKind::KwObjectType);
    }
    if bytes_equal(text, "MODULE-IDENTITY".as_bytes()) {
        return Some(TokenKind::KwModuleIdentity);
    }
    if bytes_equal(text, "OBJECT-IDENTITY".as_bytes()) {
        return Some(TokenKind::KwObjectIdentity);
    }
    if bytes_equal(text, "NOTIFICATION-TYPE".as_bytes()) {
        return Some(TokenKind::KwNotificationType);
    }
    if bytes_equal(text, "TRAP-TYPE".as_bytes()) {
        return Some(TokenKind::KwTrapType);
    }
    if bytes_equal(text, "TEXTUAL-CONVENTION".as_bytes()) {
        return Some(TokenKind::KwTextualConvention);
    }
    if bytes_equal(text, "OBJECT-GROUP".as_bytes()) {
        return Some(TokenKind::KwObjectGroup);
    }
    if bytes_equal(text, "NOTIFICATION-GROUP".as_bytes()) {
        return Some(TokenKind::KwNotificationGroup);
    }
    if bytes_equal(text, "MODULE-COMPLIANCE".as_bytes()) {
        return Some(TokenKind::KwModuleCompliance);
    }
    if bytes_equal(text, "AGENT-CAPABILITIES".as_bytes()) {
        return Some(TokenKind::KwAgentCapabilities);
    }
    if bytes_equal(text, "SYNTAX".as_bytes()) {
        return Some(TokenKind::KwSyntax);
    }
    if bytes_equal(text, "WRITE-SYNTAX".as_bytes()) {
        return Some(TokenKind::KwWriteSyntax);
    }
    if bytes_equal(text, "UNITS".as_bytes()) {
        return Some(TokenKind::KwUnits);
    }
    if bytes_equal(text, "MAX-ACCESS".as_bytes()) {
        return Some(TokenKind::KwMaxAccess);
    }
    if bytes_equal(text, "ACCESS".as_bytes()) {
        return Some(TokenKind::KwAccess);
    }
    if bytes_equal(text, "MIN-ACCESS".as_bytes()) {
        return Some(TokenKind::KwMinAccess);
    }
    if bytes_equal(text, "STATUS".as_bytes()) {
        return Some(TokenKind::KwStatus);
    }
    if bytes_equal(text, "DESCRIPTION".as_bytes()) {
        return Some(TokenKind::KwDescription);
    }
    if bytes_equal(text, "REFERENCE".as_bytes()) {
        return Some(TokenKind::KwReference);
    }
    if bytes_equal(text, "INDEX".as_bytes()) {
        return Some(TokenKind::KwIndex);
    }
    if bytes_equal(text, "AUGMENTS".as_bytes()) {
        return Some(TokenKind::KwAugments);
    }
    if bytes_equal(text, "DEFVAL".as_bytes()) {
        return Some(TokenKind::KwDefval);
    }
    if bytes_equal(text, "IMPLIED".as_bytes()) {
        return Some(TokenKind::KwImplied);
    }
    if bytes_equal(text, "LAST-UPDATED".as_bytes()) {
        return Some(TokenKind::KwLastUpdated);
    }
    if bytes_equal(text, "ORGANIZATION".as_bytes()) {
        return Some(TokenKind::KwOrganization);
    }
    if bytes_equal(text, "CONTACT-INFO".as_bytes()) {
        return Some(TokenKind::KwContactInfo);
    }
    if bytes_equal(text, "REVISION".as_bytes()) {
        return Some(TokenKind::KwRevision);
    }
    if bytes_equal(text, "OBJECTS".as_bytes()) {
        return Some(TokenKind::KwObjects);
    }
    if bytes_equal(text, "NOTIFICATIONS".as_bytes()) {
        return Some(TokenKind::KwNotifications);
    }
    if bytes_equal(text, "ENTERPRISE".as_bytes()) {
        return Some(TokenKind::KwEnterprise);
    }
    if bytes_equal(text, "VARIABLES".as_bytes()) {
        return Some(TokenKind::KwVariables);
    }
    if bytes_equal(text, "DISPLAY-HINT".as_bytes()) {
        return Some(TokenKind::KwDisplayHint);
    }
    if bytes_equal(text, "MODULE".as_bytes()) {
        return Some(TokenKind::KwModule);
    }
    if bytes_equal(text, "MANDATORY-GROUPS".as_bytes()) {
        return Some(TokenKind::KwMandatoryGroups);
    }
    if bytes_equal(text, "GROUP".as_bytes()) {
        return Some(TokenKind::KwGroup);
    }
    if bytes_equal(text, "PRODUCT-RELEASE".as_bytes()) {
        return Some(TokenKind::KwProductRelease);
    }
    if bytes_equal(text, "SUPPORTS".as_bytes()) {
        return Some(TokenKind::KwSupports);
    }
    if bytes_equal(text, "INCLUDES".as_bytes()) {
        return Some(TokenKind::KwIncludes);
    }
    if bytes_equal(text, "VARIATION".as_bytes()) {
        return Some(TokenKind::KwVariation);
    }
    if bytes_equal(text, "CREATION-REQUIRES".as_bytes()) {
        return Some(TokenKind::KwCreationRequires);
    }
    if bytes_equal(text, "INTEGER".as_bytes()) {
        return Some(TokenKind::KwInteger);
    }
    if bytes_equal(text, "BITS".as_bytes()) {
        return Some(TokenKind::KwBits);
    }
    if bytes_equal(text, "OCTET".as_bytes()) {
        return Some(TokenKind::KwOctet);
    }
    if bytes_equal(text, "STRING".as_bytes()) {
        return Some(TokenKind::KwString);
    }
    if bytes_equal(text, "SEQUENCE".as_bytes()) {
        return Some(TokenKind::KwSequence);
    }
    if bytes_equal(text, "OF".as_bytes()) {
        return Some(TokenKind::KwOf);
    }
    if bytes_equal(text, "CHOICE".as_bytes()) {
        return Some(TokenKind::KwChoice);
    }
    if bytes_equal(text, "SIZE".as_bytes()) {
        return Some(TokenKind::KwSize);
    }
    if bytes_equal(text, "APPLICATION".as_bytes()) {
        return Some(TokenKind::KwApplication);
    }
    if bytes_equal(text, "UNIVERSAL".as_bytes()) {
        return Some(TokenKind::KwUniversal);
    }
    if bytes_equal(text, "IMPLICIT".as_bytes()) {
        return Some(TokenKind::KwImplicit);
    }
    if bytes_equal(text, "Counter32".as_bytes()) {
        return Some(TokenKind::KwCounter32);
    }
    if bytes_equal(text, "Counter64".as_bytes()) {
        return Some(TokenKind::KwCounter64);
    }
    if bytes_equal(text, "Gauge32".as_bytes()) {
        return Some(TokenKind::KwGauge32);
    }
    if bytes_equal(text, "Unsigned32".as_bytes()) {
        return Some(TokenKind::KwUnsigned32);
    }
    if bytes_equal(text, "TimeTicks".as_bytes()) {
        return Some(TokenKind::KwTimeTicks);
    }
    if bytes_equal(text, "IpAddress".as_bytes()) {
        return Some(TokenKind::KwIpAddress);
    }
    if bytes_equal(text, "Opaque".as_bytes()) {
        return Some(TokenKind::KwOpaque);
    }
    if bytes_equal(text, "Counter".as_bytes()) {
        return Some(TokenKind::KwCounter);
    }
    if bytes_equal(text, "Gauge".as_bytes()) {
        return Some(TokenKind::KwGauge);
    }
    if bytes_equal(text, "NetworkAddress".as_bytes()) {
        return Some(TokenKind::KwNetworkAddress);
    }
    if bytes_equal(text, "read-only".as_bytes()) {
        return Some(TokenKind::KwReadOnly);
    }
    if bytes_equal(text, "read-write".as_bytes()) {
        return Some(TokenKind::KwReadWrite);
    }
    if bytes_equal(text, "read-create".as_bytes()) {
        return Some(TokenKind::KwReadCreate);
    }
    if bytes_equal(text, "not-accessible".as_bytes()) {
        return Some(TokenKind::KwNotAccessible);
    }
    if bytes_equal(text, "accessible-for-notify".as_bytes()) {
        return Some(TokenKind::KwAccessibleForNotify);
    }
    if bytes_equal(text, "write-only".as_bytes()) {
        return Some(TokenKind::KwWriteOnly);
    }
    if bytes_equal(text, "not-implemented".as_bytes()) {
        return Some(TokenKind::KwNotImplemented);
    }
    if bytes_equal(text, "current".as_bytes()) {
        return Some(TokenKind::KwCurrent);
    }
    if bytes_equal(text, "deprecated".as_bytes()) {
        return Some(TokenKind::KwDeprecated);
    }
    if bytes_equal(text, "obsolete".as_bytes()) {
        return Some(TokenKind::KwObsolete);
    }
    if bytes_equal(text, "mandatory".as_bytes()) {
        return Some(TokenKind::KwMandatory);
    }
    if bytes_equal(text, "optional".as_bytes()) {
        return Some(TokenKind::KwOptional);
    }
    if bytes_equal(text, "ABSENT".as_bytes()) {
        return Some(TokenKind::ForbiddenKeyword);
    }
    if bytes_equal(text, "ANY".as_bytes()) {
        return Some(TokenKind::ForbiddenKeyword);
    }
    if bytes_equal(text, "BOOLEAN".as_bytes()) {
        return Some(TokenKind::ForbiddenKeyword);
    }
    if bytes_equal(text, "BY".as_bytes()) {
        return Some(TokenKind::ForbiddenKeyword);
    }
    if bytes_equal(text, "CLASS".as_bytes()) {
        return Some(TokenKind::ForbiddenKeyword);
    }
    if bytes_equal(text, "COMPONENT".as_bytes()) {
        return Some(TokenKind::ForbiddenKeyword);
    }
    if bytes_equal(text, "COMPONENTS".as_bytes()) {
        return Some(TokenKind::ForbiddenKeyword);
    }
    if bytes_equal(text, "DEFAULT".as_bytes()) {
        return Some(TokenKind::ForbiddenKeyword);
    }
    if bytes_equal(text, "DEFINED".as_bytes()) {
        return Some(TokenKind::ForbiddenKeyword);
    }
    if bytes_equal(text, "ENUMERATED".as_bytes()) {
        return Some(TokenKind::ForbiddenKeyword);
    }
    if bytes_equal(text, "EXPLICIT".as_bytes()) {
        return Some(TokenKind::ForbiddenKeyword);
    }
    if bytes_equal(text, "EXTERNAL".as_bytes()) {
        return Some(TokenKind::ForbiddenKeyword);
    }
    if bytes_equal(text, "FALSE".as_bytes()) {
        return Some(TokenKind::ForbiddenKeyword);
    }
    if bytes_equal(text, "MAX".as_bytes()) {
        return Some(TokenKind::ForbiddenKeyword);
    }
    if bytes_equal(text, "MIN".as_bytes()) {
        return Some(TokenKind::ForbiddenKeyword);
    }
    if bytes_equal(text, "MINUS-INFINITY".as_bytes()) {
        return Some(TokenKind::ForbiddenKeyword);
    }
    if bytes_equal(text, "NULL".as_bytes()) {
        return Some(TokenKind::ForbiddenKeyword);
    }
    if bytes_equal(text, "OPTIONAL".as_bytes()) {
        return Some(TokenKind::ForbiddenKeyword);
    }
    if bytes_equal(text, "PLUS-INFINITY".as_bytes()) {
        return Some(TokenKind::ForbiddenKeyword);
    }
    if bytes_equal(text, "PRESENT".as_bytes()) {
        return Some(TokenKind::ForbiddenKeyword);
    }
    if bytes_equal(text, "PRIVATE".as_bytes()) {
        return Some(TokenKind::ForbiddenKeyword);
    }
    if bytes_equal(text, "REAL".as_bytes()) {
        return Some(TokenKind::ForbiddenKeyword);
    }
    if bytes_equal(text, "SET".as_bytes()) {
        return Some(TokenKind::ForbiddenKeyword);
    }
    if bytes_equal(text, "TAGS".as_bytes()) {
        return Some(TokenKind::ForbiddenKeyword);
    }
    if bytes_equal(text, "TRUE".as_bytes()) {
        return Some(TokenKind::ForbiddenKeyword);
    }
    if bytes_equal(text, "WITH".as_bytes()) {
        return Some(TokenKind::ForbiddenKeyword);
    }
    None
}

impl TokenKind {
    /// The name of a kind, as messages show it.
    pub open spec fn spec_display_name(self) -> &'static str {
        match self {
            TokenKind::Eof => "end of input",
            TokenKind::Comment => "comment",
            TokenKind::UppercaseIdent => "uppercase identifier",
            TokenKind::LowercaseIdent => "lowercase identifier",
            TokenKind::ForbiddenKeyword => "reserved keyword",
            TokenKind::Number => "number",
            TokenKind::NegativeNumber => "negative number",
            TokenKind::QuotedString => "quoted string",
            TokenKind::HexString => "hex string",
            TokenKind::BinString => "binary string",
            TokenKind::LBrace => "'{'",
            TokenKind::RBrace => "'}'",
            TokenKind::LParen => "'('",
            TokenKind::RParen => "')'",
            TokenKind::LBracket => "'['",
            TokenKind::RBracket => "']'",
            TokenKind::Comma => "','",
            TokenKind::Semicolon => "';'",
            TokenKind::Dot => "'.'",
            TokenKind::DotDot => "'..'",
            TokenKind::Pipe => "'|'",
            TokenKind::ColonColonEqual => "'::='",
            TokenKind::KwDefinitions => "DEFINITIONS",
            TokenKind::KwBegin => "BEGIN",
            TokenKind::KwEnd => "END",
            TokenKind::KwImports => "IMPORTS",
            TokenKind::KwExports => "EXPORTS",
            TokenKind::KwFrom => "FROM",
            TokenKind::KwMacro => "MACRO",
            TokenKind::KwObject => "OBJECT",
            TokenKind::KwIdentifier => "IDENTIFIER",
            TokenKind::KwObjectType => "OBJECT-TYPE",
            TokenKind::KwModuleIdentity => "MODULE-IDENTITY",
            TokenKind::KwObjectIdentity => "OBJECT-IDENTITY",
            TokenKind::KwNotificationType => "NOTIFICATION-TYPE",
            TokenKind::KwTrapType => "TRAP-TYPE",
            TokenKind::KwTextualConvention => "TEXTUAL-CONVENTION",
            TokenKind::KwObjectGroup => "OBJECT-GROUP",
            TokenKind::KwNotificationGroup => "NOTIFICATION-GROUP",
            TokenKind::KwModuleCompliance => "MODULE-COMPLIANCE",
            TokenKind::KwAgentCapabilities => "AGENT-CAPABILITIES",
            TokenKind::KwSyntax => "SYNTAX",
            TokenKind::KwWriteSyntax => "WRITE-SYNTAX",
            TokenKind::KwUnits => "UNITS",
            TokenKind::KwMaxAccess => "MAX-ACCESS",
            TokenKind::KwAccess => "ACCESS",
            TokenKind::KwMinAccess => "MIN-ACCESS",
            TokenKind::KwStatus => "STATUS",
            TokenKind::KwDescription => "DESCRIPTION",
            TokenKind::KwReference => "REFERENCE",
            TokenKind::KwIndex => "INDEX",
            TokenKind::KwAugments => "AUGMENTS",
            TokenKind::KwDefval => "DEFVAL",
            TokenKind::KwImplied => "IMPLIED",
            TokenKind::KwLastUpdated => "LAST-UPDATED",
            TokenKind::KwOrganization => "ORGANIZATION",
            TokenKind::KwContactInfo => "CONTACT-INFO",
            TokenKind::KwRevision => "REVISION",
            TokenKind::KwObjects => "OBJECTS",
            TokenKind::KwNotifications => "NOTIFICATIONS",
            TokenKind::KwEnterprise => "ENTERPRISE",
            TokenKind::KwVariables => "VARIABLES",
            TokenKind::KwDisplayHint => "DISPLAY-HINT",
            TokenKind::KwModule => "MODULE",
            TokenKind::KwMandatoryGroups => "MANDATORY-GROUPS",
            TokenKind::KwGroup => "GROUP",
            TokenKind::KwProductRelease => "PRODUCT-RELEASE",
            TokenKind::KwSupports => "SUPPORTS",
            TokenKind::KwIncludes => "INCLUDES",
            TokenKind::KwVariation => "VARIATION",
            TokenKind::KwCreationRequires => "CREATION-REQUIRES",
            TokenKind::KwInteger => "INTEGER",
            TokenKind::KwBits => "BITS",
            TokenKind::KwOctet => "OCTET",
            TokenKind::KwString => "STRING",
            TokenKind::KwSequence => "SEQUENCE",
            TokenKind::KwOf => "OF",
            TokenKind::KwChoice => "CHOICE",
            TokenKind::KwSize => "SIZE",
            TokenKind::KwApplication => "APPLICATION",
            TokenKind::KwUniversal => "UNIVERSAL",
            TokenKind::KwImplicit => "IMPLICIT",
            TokenKind::KwCounter32 => "Counter32",
            TokenKind::KwCounter64 => "Counter64",
            TokenKind::KwGauge32 => "Gauge32",
            TokenKind::KwUnsigned32 => "Unsigned32",
            TokenKind::KwTimeTicks => "TimeTicks",
            TokenKind::KwIpAddress => "IpAddress",
            TokenKind::KwOpaque => "Opaque",
            TokenKind::KwCounter => "Counter",
            TokenKind::KwGauge => "Gauge",
            TokenKind::KwNetworkAddress => "NetworkAddress",
            TokenKind::KwReadOnly => "read-only",
            TokenKind::KwReadWrite => "read-write",
            TokenKind::KwReadCreate => "read-create",
            TokenKind::KwNotAccessible => "not-accessible",
            TokenKind::KwAccessibleForNotify => "accessible-for-notify",
            TokenKind::KwWriteOnly => "write-only",
            TokenKind::KwNotImplemented => "not-implemented",
            TokenKind::KwCurrent => "current",
            TokenKind::KwDeprecated => "deprecated",
            TokenKind::KwObsolete => "obsolete",
            TokenKind::KwMandatory => "mandatory",
            TokenKind::KwOptional => "optional",
        }
    }

    /// Return a human-readable name for this kind, used in messages.
    pub fn display_name(self) -> (s: &'static str)
        ensures
            s == self.spec_display_name(),
    {
        match self {
            TokenKind::Eof => "end of input",
            TokenKind::Comment => "comment",
            TokenKind::UppercaseIdent => "uppercase identifier",
            TokenKind::LowercaseIdent => "lowercase identifier",
            TokenKind::ForbiddenKeyword => "reserved keyword",
            TokenKind::Number => "number",
            TokenKind::NegativeNumber => "negative number",
            TokenKind::QuotedString => "quoted string",
            TokenKind::HexString => "hex string",
            TokenKind::BinString => "binary string",
            TokenKind::LBrace => "'{'",
            TokenKind::RBrace => "'}'",
            TokenKind::LParen => "'('",
            TokenKind::RParen => "')'",
            TokenKind::LBracket => "'['",
            TokenKind::RBracket => "']'",
            TokenKind::Comma => "','",
            TokenKind::Semicolon => "';'",
            TokenKind::Dot => "'.'",
            TokenKind::DotDot => "'..'",
            TokenKind::Pipe => "'|'",
            TokenKind::ColonColonEqual => "'::='",
            TokenKind::KwDefinitions => "DEFINITIONS",
            TokenKind::KwBegin => "BEGIN",
            TokenKind::KwEnd => "END",
            TokenKind::KwImports => "IMPORTS",
            TokenKind::KwExports => "EXPORTS",
            TokenKind::KwFrom => "FROM",
            TokenKind::KwMacro => "MACRO",
            TokenKind::KwObject => "OBJECT",
            TokenKind::KwIdentifier => "IDENTIFIER",
            TokenKind::KwObjectType => "OBJECT-TYPE",
            TokenKind::KwModuleIdentity => "MODULE-IDENTITY",
            TokenKind::KwObjectIdentity => "OBJECT-IDENTITY",
            TokenKind::KwNotificationType => "NOTIFICATION-TYPE",
            TokenKind::KwTrapType => "TRAP-TYPE",
            TokenKind::KwTextualConvention => "TEXTUAL-CONVENTION",
            TokenKind::KwObjectGroup => "OBJECT-GROUP",
            TokenKind::KwNotificationGroup => "NOTIFICATION-GROUP",
            TokenKind::KwModuleCompliance => "MODULE-COMPLIANCE",
            TokenKind::KwAgentCapabilities => "AGENT-CAPABILITIES",
            TokenKind::KwSyntax => "SYNTAX",
            TokenKind::KwWriteSyntax => "WRITE-SYNTAX",
            TokenKind::KwUnits => "UNITS",
            TokenKind::KwMaxAccess => "MAX-ACCESS",
            TokenKind::KwAccess => "ACCESS",
            TokenKind::KwMinAccess => "MIN-ACCESS",
            TokenKind::KwStatus => "STATUS",
            TokenKind::KwDescription => "DESCRIPTION",
            TokenKind::KwReference => "REFERENCE",
            TokenKind::KwIndex => "INDEX",
            TokenKind::KwAugments => "AUGMENTS",
            TokenKind::KwDefval => "DEFVAL",
            TokenKind::KwImplied => "IMPLIED",
            TokenKind::KwLastUpdated => "LAST-UPDATED",
            TokenKind::KwOrganization => "ORGANIZATION",
            TokenKind::KwContactInfo => "CONTACT-INFO",
            TokenKind::KwRevision => "REVISION",
            TokenKind::KwObjects => "OBJECTS",
            TokenKind::KwNotifications => "NOTIFICATIONS",
            TokenKind::KwEnterprise => "ENTERPRISE",
            TokenKind::KwVariables => "VARIABLES",
            TokenKind::KwDisplayHint => "DISPLAY-HINT",
            TokenKind::KwModule => "MODULE",
            TokenKind::KwMandatoryGroups => "MANDATORY-GROUPS",
            TokenKind::KwGroup => "GROUP",
            TokenKind::KwProductRelease => "PRODUCT-RELEASE",
            TokenKind::KwSupports => "SUPPORTS",
            TokenKind::KwIncludes => "INCLUDES",
            TokenKind::KwVariation => "VARIATION",
            TokenKind::KwCreationRequires => "CREATION-REQUIRES",
            TokenKind::KwInteger => "INTEGER",
            TokenKind::KwBits => "BITS",
            TokenKind::KwOctet => "OCTET",
            TokenKind::KwString => "STRING",
            TokenKind::KwSequence => "SEQUENCE",
            TokenKind::KwOf => "OF",
            TokenKind::KwChoice => "CHOICE",
            TokenKind::KwSize => "SIZE",
            TokenKind::KwApplication => "APPLICATION",
            TokenKind::KwUniversal => "UNIVERSAL",
            TokenKind::KwImplicit => "IMPLICIT",
            TokenKind::KwCounter32 => "Counter32",
            TokenKind::KwCounter64 => "Counter64",
            TokenKind::KwGauge32 => "Gauge32",
            TokenKind::KwUnsigned32 => "Unsigned32",
            TokenKind::KwTimeTicks => "TimeTicks",
            TokenKind::KwIpAddress => "IpAddress",
            TokenKind::KwOpaque => "Opaque",
            TokenKind::KwCounter => "Counter",
            TokenKind::KwGauge => "Gauge",
            TokenKind::KwNetworkAddress => "NetworkAddress",
            TokenKind::KwReadOnly => "read-only",
            TokenKind::KwReadWrite => "read-write",
            TokenKind::KwReadCreate => "read-create",
            TokenKind::KwNotAccessible => "not-accessible",
            TokenKind::KwAccessibleForNotify => "accessible-for-notify",
            TokenKind::KwWriteOnly => "write-only",
            TokenKind::KwNotImplemented => "not-implemented",
            TokenKind::KwCurrent => "current",
            TokenKind::KwDeprecated => "deprecated",
            TokenKind::KwObsolete => "obsolete",
            TokenKind::KwMandatory => "mandatory",
            TokenKind::KwOptional => "optional",
        }
    }
}

impl TokenKind {
    /// Whether this kind is an identifier (either case).
    pub open spec fn spec_is_identifier(self) -> bool {
        self == TokenKind::UppercaseIdent || self == TokenKind::LowercaseIdent
    }

    /// Return whether this kind is an identifier (either case).
    pub fn is_identifier(self) -> (r: bool)
        ensures
            r == self.spec_is_identifier(),
    {
        matches!(self, TokenKind::UppercaseIdent | TokenKind::LowercaseIdent)
    }

    /// Whether this kind is one of the SMI macro keywords that start a definition.
    pub open spec fn spec_is_macro_keyword(self) -> bool {
        matches!(
            self,
            TokenKind::KwObjectType | TokenKind::KwModuleIdentity | TokenKind::KwObjectIdentity
                | TokenKind::KwNotificationType | TokenKind::KwTrapType
                | TokenKind::KwTextualConvention | TokenKind::KwObjectGroup
                | TokenKind::KwNotificationGroup | TokenKind::KwModuleCompliance
                | TokenKind::KwAgentCapabilities
        )
    }

    /// Return whether this kind is one of the SMI macro keywords.
    pub fn is_macro_keyword(self) -> (r: bool)
        ensures
            r == self.spec_is_macro_keyword(),
    {
        matches!(
            self,
            TokenKind::KwObjectType | TokenKind::KwModuleIdentity | TokenKind::KwObjectIdentity
                | TokenKind::KwNotificationType | TokenKind::KwTrapType
                | TokenKind::KwTextualConvention | TokenKind::KwObjectGroup
                | TokenKind::KwNotificationGroup | TokenKind::KwModuleCompliance
                | TokenKind::KwAgentCapabilities
        )
    }

    /// Whether this kind names a built-in type.
    pub open spec fn spec_is_type_keyword(self) -> bool {
        matches!(
            self,
            TokenKind::KwInteger | TokenKind::KwBits | TokenKind::KwOctet | TokenKind::KwCounter32
                | TokenKind::KwCounter64 | TokenKind::KwGauge32 | TokenKind::KwUnsigned32
                | TokenKind::KwTimeTicks | TokenKind::KwIpAddress | TokenKind::KwOpaque
                | TokenKind::KwCounter | TokenKind::KwGauge | TokenKind::KwNetworkAddress
        )
    }

    /// Return whether this kind names a built-in type.
    pub fn is_type_keyword(self) -> (r: bool)
        ensures
            r == self.spec_is_type_keyword(),
    {
        matches!(
            self,
            TokenKind::KwInteger | TokenKind::KwBits | TokenKind::KwOctet | TokenKind::KwCounter32
                | TokenKind::KwCounter64 | TokenKind::KwGauge32 | TokenKind::KwUnsigned32
                | TokenKind::KwTimeTicks | TokenKind::KwIpAddress | TokenKind::KwOpaque
                | TokenKind::KwCounter | TokenKind::KwGauge | TokenKind::KwNetworkAddress
        )
    }

    /// Whether this kind is a (non-reserved) keyword.
    pub open spec fn spec_is_keyword(self) -> bool {
        !matches!(
            self,
            TokenKind::Eof | TokenKind::Comment | TokenKind::UppercaseIdent
                | TokenKind::LowercaseIdent | TokenKind::ForbiddenKeyword | TokenKind::Number
                | TokenKind::NegativeNumber | TokenKind::QuotedString | TokenKind::HexString
                | TokenKind::BinString | TokenKind::LBrace | TokenKind::RBrace | TokenKind::LParen
                | TokenKind::RParen | TokenKind::LBracket | TokenKind::RBracket | TokenKind::Comma
                | TokenKind::Semicolon | TokenKind::Dot | TokenKind::DotDot | TokenKind::Pipe
                | TokenKind::ColonColonEqual
        )
    }

    /// Return whether this kind is a (non-reserved) keyword.
    pub fn is_keyword(self) -> (r: bool)
        ensures
            r == self.spec_is_keyword(),
    {
        !matches!(
            self,
            TokenKind::Eof | TokenKind::Comment | TokenKind::UppercaseIdent
                | TokenKind::LowercaseIdent | TokenKind::ForbiddenKeyword | TokenKind::Number
                | TokenKind::NegativeNumber | TokenKind::QuotedString | TokenKind::HexString
                | TokenKind::BinString | TokenKind::LBrace | TokenKind::RBrace | TokenKind::LParen
                | TokenKind::RParen | TokenKind::LBracket | TokenKind::RBracket | TokenKind::Comma
                | TokenKind::Semicolon | TokenKind::Dot | TokenKind::DotDot | TokenKind::Pipe
                | TokenKind::ColonColonEqual
        )
    }
}

/// A token: its kind and the bytes it covers.
#[derive(Clone, Copy, Debug, PartialEq, Eq, Structural)]
pub struct Token {
    pub kind: TokenKind,
    pub span: SourceRange,
}

// ---- Character classes ----

pub open spec fn is_space(b: u8) -> bool {
    b == 0x20 || b == 0x09 || b == 0x0a || b == 0x0d || b == 0x0c || b == 0x0b
}

pub open spec fn is_digit(b: u8) -> bool {
    0x30 <= b <= 0x39
}

pub open spec fn is_upper(b: u8) -> bool {
    0x41 <= b <= 0x5a
}

pub open spec fn is_lower(b: u8) -> bool {
    0x61 <= b <= 0x7a
}

pub open spec fn is_letter(b: u8) -> bool {
    is_upper(b) || is_lower(b)
}

/// Bytes that may continue a word: letters, digits, hyphens and underscores.
pub open spec fn is_word_byte(b: u8) -> bool {
    is_letter(b) || is_digit(b) || b == 0x2d || b == 0x5f
}

/// `bytes[i..i+2]` is the comment marker `--`.
pub open spec fn double_hyphen_at(bytes: Seq<u8>, i: int) -> bool {
    0 <= i && i + 1 < bytes.len() && bytes[i] == 0x2d && bytes[i + 1] == 0x2d
}

/// The token kind of a word: its keyword, or an identifier by the case of
/// its first letter.
pub open spec fn classify_word(text: Seq<u8>) -> TokenKind {
    match spec_keyword(text) {
        Some(k) => k,
        None => if text.len() > 0 && is_upper(text[0]) {
            TokenKind::UppercaseIdent
        } else {
            TokenKind::LowercaseIdent
        },
    }
}

/// `bytes[start..end]` is a maximal word: it starts with a letter, continues
/// with word bytes, contains no `--`, and is not followed by a further word
/// byte that could extend it.
pub open spec fn is_word(bytes: Seq<u8>, start: int, end: int) -> bool {
    &&& 0 <= start < end <= bytes.len()
    &&& is_letter(bytes[start])
    &&& forall|i: int| start <= i < end ==> #[trigger] is_word_byte(bytes[i])
    &&& forall|i: int| start <= i < end ==> !double_hyphen_at(bytes, i) || i + 1 >= end
    &&& end == bytes.len() || !is_word_byte(bytes[end]) || double_hyphen_at(bytes, end - 1)
        || double_hyphen_at(bytes, end)
}

/// `bytes[start..end]` is a maximal run of digits.
pub open spec fn is_digit_run(bytes: Seq<u8>, start: int, end: int) -> bool {
    &&& 0 <= start < end <= bytes.len()
    &&& forall|i: int| start <= i < end ==> #[trigger] is_digit(bytes[i])
    &&& end == bytes.len() || !is_digit(bytes[end])
}

/// What the bytes a token covers look like, by its kind.
pub open spec fn token_shape(bytes: Seq<u8>, t: Token) -> bool {
    let s = t.span.start as int;
    let e = t.span.end as int;
    &&& s <= e <= bytes.len()
    &&& match t.kind {
        TokenKind::Eof => s == bytes.len() && e == bytes.len(),
        TokenKind::Comment => double_hyphen_at(bytes, s) && e >= s + 2,
        TokenKind::Number => is_digit_run(bytes, s, e),
        TokenKind::NegativeNumber => bytes[s] == 0x2d && is_digit_run(bytes, s + 1, e),
        TokenKind::QuotedString => e > s && bytes[s] == 0x22,
        TokenKind::HexString => e >= s + 3 && bytes[s] == 0x27 && bytes[e - 2] == 0x27 && (
        bytes[e - 1] == 0x48 || bytes[e - 1] == 0x68),
        TokenKind::BinString => e >= s + 3 && bytes[s] == 0x27 && bytes[e - 2] == 0x27 && (
        bytes[e - 1] == 0x42 || bytes[e - 1] == 0x62),
        TokenKind::LBrace => e == s + 1 && bytes[s] == 0x7b,
        TokenKind::RBrace => e == s + 1 && bytes[s] == 0x7d,
        TokenKind::LParen => e == s + 1 && bytes[s] == 0x28,
        TokenKind::RParen => e == s + 1 && bytes[s] == 0x29,
        TokenKind::LBracket => e == s + 1 && bytes[s] == 0x5b,
        TokenKind::RBracket => e == s + 1 && bytes[s] == 0x5d,
        TokenKind::Comma => e == s + 1 && bytes[s] == 0x2c,
        TokenKind::Semicolon => e == s + 1 && bytes[s] == 0x3b,
        TokenKind::Pipe => e == s + 1 && bytes[s] == 0x7c,
        TokenKind::Dot => e == s + 1 && bytes[s] == 0x2e,
        TokenKind::DotDot => e == s + 2 && bytes[s] == 0x2e && bytes[s + 1] == 0x2e,
        TokenKind::ColonColonEqual => e == s + 3 && bytes[s] == 0x3a && bytes[s + 1] == 0x3a
            && bytes[s + 2] == 0x3d,
        _ => is_word(bytes, s, e) && t.kind == classify_word(bytes.subrange(s, e)),
    }
}

/// A well-formed token stream for `bytes` of document `source`: tokens are in
/// order and do not overlap, each has the shape its kind demands, and the
/// stream ends with the one end-of-input token.
pub open spec fn token_stream(bytes: Seq<u8>, source: SourceId, tokens: Seq<Token>) -> bool {
    &&& tokens.len() > 0
    &&& tokens.last().kind == TokenKind::Eof
    &&& forall|i: int| 0 <= i < tokens.len() - 1 ==> (#[trigger] tokens[i]).kind != TokenKind::Eof
    &&& forall|i: int| 0 <= i < tokens.len() ==> token_shape(bytes, #[trigger] tokens[i])
    &&& forall|i: int| 0 <= i < tokens.len() ==> (#[trigger] tokens[i]).span.source == source
    &&& forall|i: int, j: int|
        0 <= i < j < tokens.len() ==> (#[trigger] tokens[i]).span.end <= (
        #[trigger] tokens[j]).span.start
}

/// Every diagnostic names a range of the document that starts before its
/// end.
pub open spec fn diagnostics_in_document(
    bytes: Seq<u8>,
    source: SourceId,
    diags: Seq<Diagnostic>,
) -> bool {
    forall|i: int|
        0 <= i < diags.len() ==> match (#[trigger] diags[i]).range {
            Some(r) => r.source == source && r.start <= r.end <= bytes.len() && r.start < bytes.len(),
            None => false,
        }
}

/// Diagnostics are listed in order of their start offsets.
pub open spec fn diagnostics_ordered(diags: Seq<Diagnostic>) -> bool {
    forall|i: int, j: int|
        0 <= i < j < diags.len() ==> match ((#[trigger] diags[i]).range, (#[trigger] diags[j]).range) {
            (Some(a), Some(b)) => a.start <= b.start,
            _ => true,
        }
}

// ---- The token language ----

/// Where the run of whitespace starting at `i` ends.
pub open spec fn ws_end_from(bytes: Seq<u8>, i: int) -> int
    decreases bytes.len() - i,
{
    if 0 <= i < bytes.len() && is_space(bytes[i]) {
        ws_end_from(bytes, i + 1)
    } else {
        i
    }
}

/// Where a comment whose body starts at `i` ends: after the first `--`, or
/// at the first line break, or at the end of input.
pub open spec fn comment_end_from(bytes: Seq<u8>, i: int) -> int
    decreases bytes.len() - i,
{
    if i < 0 || i >= bytes.len() {
        bytes.len() as int
    } else if bytes[i] == 0x0a || bytes[i] == 0x0d {
        i
    } else if double_hyphen_at(bytes, i) {
        i + 2
    } else {
        comment_end_from(bytes, i + 1)
    }
}

/// Where a word continued at `i` ends: at a byte that cannot continue a
/// word, at a `--`, or at a hyphen following a hyphen.
pub open spec fn word_end_from(bytes: Seq<u8>, i: int) -> int
    decreases bytes.len() - i,
{
    if i < 1 || i >= bytes.len() {
        bytes.len() as int
    } else if !is_word_byte(bytes[i]) {
        i
    } else if double_hyphen_at(bytes, i) {
        i
    } else if bytes[i] == 0x2d && bytes[i - 1] == 0x2d {
        i
    } else {
        word_end_from(bytes, i + 1)
    }
}

/// Where the run of digits continued at `i` ends.
pub open spec fn digits_end_from(bytes: Seq<u8>, i: int) -> int
    decreases bytes.len() - i,
{
    if 0 <= i < bytes.len() && is_digit(bytes[i]) {
        digits_end_from(bytes, i + 1)
    } else {
        i
    }
}

/// Where a literal whose body starts at `i` ends: after the first `quote`
/// (and then `true`), or at the end of input (and then `false`).
pub open spec fn delimited_end_from(bytes: Seq<u8>, i: int, quote: u8) -> (int, bool)
    decreases bytes.len() - i,
{
    if i < 0 || i >= bytes.len() {
        (bytes.len() as int, false)
    } else if bytes[i] == quote {
        (i + 1, true)
    } else {
        delimited_end_from(bytes, i + 1, quote)
    }
}

/// A comment body never ends before it starts or past the input.
pub proof fn lemma_comment_end_bounds(bytes: Seq<u8>, i: int)
    requires
        0 <= i <= bytes.len(),
    ensures
        i <= comment_end_from(bytes, i) <= bytes.len(),
    decreases bytes.len() - i,
{
    if i < bytes.len() && !(bytes[i] == 0x0a || bytes[i] == 0x0d) && !double_hyphen_at(bytes, i) {
        lemma_comment_end_bounds(bytes, i + 1);
    }
}

/// A word never ends before the position it is continued at or past the input.
pub proof fn lemma_word_end_bounds(bytes: Seq<u8>, i: int)
    requires
        1 <= i <= bytes.len(),
    ensures
        i <= word_end_from(bytes, i) <= bytes.len(),
    decreases bytes.len() - i,
{
    if i < bytes.len() && is_word_byte(bytes[i]) && !double_hyphen_at(bytes, i) && !(bytes[i]
        == 0x2d && bytes[i - 1] == 0x2d) {
        lemma_word_end_bounds(bytes, i + 1);
    }
}

/// A digit run never ends before it starts or past the input.
pub proof fn lemma_digits_end_bounds(bytes: Seq<u8>, i: int)
    requires
        0 <= i <= bytes.len(),
    ensures
        i <= digits_end_from(bytes, i) <= bytes.len(),
    decreases bytes.len() - i,
{
    if i < bytes.len() && is_digit(bytes[i]) {
        lemma_digits_end_bounds(bytes, i + 1);
    }
}

/// A delimited literal ends inside the input, after its closing delimiter
/// when it has one and at the end of input when it has none.
pub proof fn lemma_delimited_end_bounds(bytes: Seq<u8>, i: int, quote: u8)
    requires
        0 <= i <= bytes.len(),
    ensures
        i <= delimited_end_from(bytes, i, quote).0 <= bytes.len(),
        delimited_end_from(bytes, i, quote).1 ==> delimited_end_from(bytes, i, quote).0 >= i + 1
            && bytes[delimited_end_from(bytes, i, quote).0 - 1] == quote,
        !delimited_end_from(bytes, i, quote).1 ==> delimited_end_from(bytes, i, quote).0
            == bytes.len(),
    decreases bytes.len() - i,
{
    if i < bytes.len() && bytes[i] != quote {
        lemma_delimited_end_bounds(bytes, i + 1, quote);
    }
}

/// Where an EXPORTS body starting at `i` ends: at its semicolon (comments
/// skipped), or at the end of input.
pub open spec fn exports_end_from(bytes: Seq<u8>, i: int) -> int
    decreases bytes.len() - i,
{
    if i < 0 || i >= bytes.len() {
        if i < 0 {
            bytes.len() as int
        } else {
            i
        }
    } else if bytes[i] == 0x3b {
        i
    } else if double_hyphen_at(bytes, i) {
        proof {
            lemma_comment_end_bounds(bytes, i + 2);
        }
        exports_end_from(bytes, comment_end_from(bytes, i + 2))
    } else {
        exports_end_from(bytes, i + 1)
    }
}

/// Where a MACRO body starting at `i` ends, and the range of its standalone
/// `END` word when there is one (strings and comments skipped).
pub open spec fn macro_end_from(bytes: Seq<u8>, i: int) -> (int, Option<(int, int)>)
    decreases bytes.len() - i,
{
    if i < 0 || i >= bytes.len() {
        (if i < 0 {
            bytes.len() as int
        } else {
            i
        }, None)
    } else if bytes[i] == 0x22 {
        proof {
            lemma_delimited_end_bounds(bytes, i + 1, 0x22);
        }
        macro_end_from(bytes, delimited_end_from(bytes, i + 1, 0x22).0)
    } else if double_hyphen_at(bytes, i) {
        proof {
            lemma_comment_end_bounds(bytes, i + 2);
        }
        macro_end_from(bytes, comment_end_from(bytes, i + 2))
    } else if is_letter(bytes[i]) {
        proof {
            lemma_word_end_bounds(bytes, i + 1);
        }
        let e = word_end_from(bytes, i + 1);
        if bytes.subrange(i, e) == "END".spec_bytes() {
            (e, Some((i, e)))
        } else {
            macro_end_from(bytes, e)
        }
    } else {
        macro_end_from(bytes, i + 1)
    }
}

/// An EXPORTS body never ends before it starts or past the input.
pub proof fn lemma_exports_end_bounds(bytes: Seq<u8>, i: int)
    requires
        0 <= i <= bytes.len(),
    ensures
        i <= exports_end_from(bytes, i) <= bytes.len(),
    decreases bytes.len() - i,
{
    if i < bytes.len() && bytes[i] != 0x3b {
        if double_hyphen_at(bytes, i) {
            lemma_comment_end_bounds(bytes, i + 2);
            lemma_exports_end_bounds(bytes, comment_end_from(bytes, i + 2));
        } else {
            lemma_exports_end_bounds(bytes, i + 1);
        }
    }
}

/// A MACRO body never ends before it starts or past the input.
pub proof fn lemma_macro_end_bounds(bytes: Seq<u8>, i: int)
    requires
        0 <= i <= bytes.len(),
    ensures
        i <= macro_end_from(bytes, i).0 <= bytes.len(),
    decreases bytes.len() - i,
{
    if i < bytes.len() {
        if bytes[i] == 0x22 {
            lemma_delimited_end_bounds(bytes, i + 1, 0x22);
            lemma_macro_end_bounds(bytes, delimited_end_from(bytes, i + 1, 0x22).0);
        } else if double_hyphen_at(bytes, i) {
            lemma_comment_end_bounds(bytes, i + 2);
            lemma_macro_end_bounds(bytes, comment_end_from(bytes, i + 2));
        } else if is_letter(bytes[i]) {
            lemma_word_end_bounds(bytes, i + 1);
            let e = word_end_from(bytes, i + 1);
            if bytes.subrange(i, e) != "END".spec_bytes() {
                lemma_macro_end_bounds(bytes, e);
            }
        } else {
            lemma_macro_end_bounds(bytes, i + 1);
        }
    }
}

/// A token of `kind` over `start..end` of document `source`.
pub open spec fn token_at(source: SourceId, kind: TokenKind, start: int, end: int) -> Token {
    Token { kind, span: SourceRange { source, start: start as usize, end: end as usize } }
}

/// The end-of-input token of a document of `len` bytes.
pub open spec fn eof_token(source: SourceId, len: int) -> Token {
    token_at(source, TokenKind::Eof, len, len)
}

/// Lexical diagnostics carry their code's default severity and name no
/// module.
pub open spec fn plain_lexical(ds: Seq<Diagnostic>) -> bool {
    forall|i: int|
        0 <= i < ds.len() ==> (#[trigger] ds[i]).severity == spec_default_severity(ds[i].code)
            && ds[i].module is None
}

/// What a diagnostic reports: its code and range.
pub open spec fn diag_key(d: Diagnostic) -> (DiagCode, Option<SourceRange>) {
    (d.code, d.range)
}

/// The reports of a list of diagnostics.
pub open spec fn diag_keys(ds: Seq<Diagnostic>) -> Seq<(DiagCode, Option<SourceRange>)> {
    ds.map_values(|d: Diagnostic| diag_key(d))
}

/// A report of `code` over `start..end`, if the configuration collects it.
pub open spec fn kept(
    config: DiagnosticConfig,
    code: DiagCode,
    source: SourceId,
    start: int,
    end: int,
) -> Seq<(DiagCode, Option<SourceRange>)> {
    if config.spec_should_collect(code) {
        seq![(code, Some(SourceRange { source, start: start as usize, end: end as usize }))]
    } else {
        Seq::empty()
    }
}

/// The kind of a one-byte punctuation token.
pub open spec fn punct_kind(b: u8) -> Option<TokenKind> {
    if b == 0x7b {
        Some(TokenKind::LBrace)
    } else if b == 0x7d {
        Some(TokenKind::RBrace)
    } else if b == 0x28 {
        Some(TokenKind::LParen)
    } else if b == 0x29 {
        Some(TokenKind::RParen)
    } else if b == 0x5b {
        Some(TokenKind::LBracket)
    } else if b == 0x5d {
        Some(TokenKind::RBracket)
    } else if b == 0x2c {
        Some(TokenKind::Comma)
    } else if b == 0x3b {
        Some(TokenKind::Semicolon)
    } else if b == 0x7c {
        Some(TokenKind::Pipe)
    } else if b == 0x2e {
        Some(TokenKind::Dot)
    } else {
        None
    }
}

/// The tokens of a word starting at `q`, together with where lexing
/// continues: an EXPORTS keyword swallows its body, and a MACRO
/// keyword its body up to the standalone `END`, which is kept as a token.
pub open spec fn lex_word_at(bytes: Seq<u8>, source: SourceId, q: int) -> (Seq<Token>, int) {
    let e = word_end_from(bytes, q + 1);
    let k = classify_word(bytes.subrange(q, e));
    let t = token_at(source, k, q, e);
    if k == TokenKind::KwExports {
        (seq![t], exports_end_from(bytes, e))
    } else if k == TokenKind::KwMacro {
        let (stop, w) = macro_end_from(bytes, e);
        match w {
            Some((ws, we)) => (
                seq![t, token_at(source, classify_word(bytes.subrange(ws, we)), ws, we)],
                stop,
            ),
            None => (seq![t], stop),
        }
    } else {
        (seq![t], e)
    }
}

/// The tokens of a quoted, hex or binary string at `q`, and where lexing
/// continues. A quote-delimited literal without an `H` or `B` suffix yields
/// no token.
pub open spec fn lex_quoted_at(bytes: Seq<u8>, source: SourceId, q: int) -> (Seq<Token>, int) {
    if bytes[q] == 0x22 {
        let (e, _) = delimited_end_from(bytes, q + 1, 0x22);
        (seq![token_at(source, TokenKind::QuotedString, q, e)], e)
    } else {
        let (e, term) = delimited_end_from(bytes, q + 1, 0x27);
        if term && e < bytes.len() && (bytes[e] == 0x48 || bytes[e] == 0x68) {
            (seq![token_at(source, TokenKind::HexString, q, e + 1)], e + 1)
        } else if term && e < bytes.len() && (bytes[e] == 0x42 || bytes[e] == 0x62) {
            (seq![token_at(source, TokenKind::BinString, q, e + 1)], e + 1)
        } else {
            (Seq::empty(), e)
        }
    }
}

/// The reports of a quoted, hex or binary string at `q`: an unterminated
/// literal, or a quote-delimited one without an `H` or `B` suffix.
pub open spec fn quoted_reports_at(
    bytes: Seq<u8>,
    source: SourceId,
    config: DiagnosticConfig,
    q: int,
) -> Seq<(DiagCode, Option<SourceRange>)> {
    if bytes[q] == 0x22 {
        let (e, term) = delimited_end_from(bytes, q + 1, 0x22);
        if term {
            Seq::empty()
        } else {
            kept(config, DiagCode::UnterminatedString, source, q, e)
        }
    } else {
        let (e, term) = delimited_end_from(bytes, q + 1, 0x27);
        if term && e < bytes.len() && (bytes[e] == 0x48 || bytes[e] == 0x68 || bytes[e] == 0x42
            || bytes[e] == 0x62) {
            Seq::empty()
        } else if term {
            kept(config, DiagCode::InvalidStringLiteral, source, q, e)
        } else {
            kept(config, DiagCode::UnterminatedString, source, q, e)
        }
    }
}

/// The tokens of a number, punctuation or stray byte at `q`, and where
/// lexing continues. A stray byte yields no token.
pub open spec fn lex_other_at(bytes: Seq<u8>, source: SourceId, q: int) -> (Seq<Token>, int) {
    let len = bytes.len();
    let b = bytes[q];
    if is_digit(b) {
        let e = digits_end_from(bytes, q + 1);
        (seq![token_at(source, TokenKind::Number, q, e)], e)
    } else if b == 0x2d && q + 1 < len && is_digit(bytes[q + 1]) {
        let e = digits_end_from(bytes, q + 2);
        (seq![token_at(source, TokenKind::NegativeNumber, q, e)], e)
    } else if b == 0x3a && len - q > 2 && bytes[q + 1] == 0x3a && bytes[q + 2] == 0x3d {
        (seq![token_at(source, TokenKind::ColonColonEqual, q, q + 3)], q + 3)
    } else if b == 0x2e && q + 1 < len && bytes[q + 1] == 0x2e {
        (seq![token_at(source, TokenKind::DotDot, q, q + 2)], q + 2)
    } else {
        match punct_kind(b) {
            Some(k) => (seq![token_at(source, k, q, q + 1)], q + 1),
            None => (Seq::empty(), q + 1),
        }
    }
}

/// The reports of a number, punctuation or stray byte at `q`: a number
/// with a leading zero, or a byte that starts no token.
pub open spec fn other_reports_at(
    bytes: Seq<u8>,
    source: SourceId,
    config: DiagnosticConfig,
    q: int,
) -> Seq<(DiagCode, Option<SourceRange>)> {
    let len = bytes.len();
    let b = bytes[q];
    if is_digit(b) {
        let e = digits_end_from(bytes, q + 1);
        if b == 0x30 && e - q > 1 {
            kept(config, DiagCode::NumberLeadingZero, source, q, e)
        } else {
            Seq::empty()
        }
    } else if b == 0x2d && q + 1 < len && is_digit(bytes[q + 1]) {
        Seq::empty()
    } else if b == 0x3a && len - q > 2 && bytes[q + 1] == 0x3a && bytes[q + 2] == 0x3d {
        Seq::empty()
    } else if b == 0x2e && q + 1 < len && bytes[q + 1] == 0x2e {
        Seq::empty()
    } else if punct_kind(b) is Some {
        Seq::empty()
    } else {
        kept(config, DiagCode::UnexpectedCharacter, source, q, q + 1)
    }
}

/// The tokens of what starts at the non-space byte `q`, and where lexing
/// continues.
pub open spec fn lex_at(bytes: Seq<u8>, source: SourceId, q: int) -> (Seq<Token>, int) {
    if double_hyphen_at(bytes, q) {
        let e = comment_end_from(bytes, q + 2);
        (seq![token_at(source, TokenKind::Comment, q, e)], e)
    } else if is_letter(bytes[q]) {
        lex_word_at(bytes, source, q)
    } else if bytes[q] == 0x22 || bytes[q] == 0x27 {
        lex_quoted_at(bytes, source, q)
    } else {
        lex_other_at(bytes, source, q)
    }
}

/// The reports of what starts at the non-space byte `q`.
pub open spec fn reports_at(bytes: Seq<u8>, source: SourceId, config: DiagnosticConfig, q: int) -> Seq<
    (DiagCode, Option<SourceRange>),
> {
    if double_hyphen_at(bytes, q) || is_letter(bytes[q]) {
        Seq::empty()
    } else if bytes[q] == 0x22 || bytes[q] == 0x27 {
        quoted_reports_at(bytes, source, config, q)
    } else {
        other_reports_at(bytes, source, config, q)
    }
}

/// Every lexing step consumes at least one byte and stays inside the input.
pub proof fn lemma_lex_at_advances(bytes: Seq<u8>, source: SourceId, q: int)
    requires
        0 <= q < bytes.len(),
    ensures
        q < lex_at(bytes, source, q).1 <= bytes.len(),
{
    if double_hyphen_at(bytes, q) {
        lemma_comment_end_bounds(bytes, q + 2);
    } else if is_letter(bytes[q]) {
        lemma_word_end_bounds(bytes, q + 1);
        let e = word_end_from(bytes, q + 1);
        lemma_exports_end_bounds(bytes, e);
        lemma_macro_end_bounds(bytes, e);
    } else if bytes[q] == 0x22 || bytes[q] == 0x27 {
        lemma_delimited_end_bounds(bytes, q + 1, bytes[q]);
    } else {
        if q + 1 <= bytes.len() {
            lemma_digits_end_bounds(bytes, q + 1);
        }
        if q + 2 <= bytes.len() {
            lemma_digits_end_bounds(bytes, q + 2);
        }
    }
}

/// A whitespace run never ends before it starts or past the input.
pub proof fn lemma_ws_end_bounds(bytes: Seq<u8>, i: int)
    requires
        0 <= i <= bytes.len(),
    ensures
        i <= ws_end_from(bytes, i) <= bytes.len(),
    decreases bytes.len() - i,
{
    if i < bytes.len() && is_space(bytes[i]) {
        lemma_ws_end_bounds(bytes, i + 1);
    }
}

/// The tokens (comments included, end of input excluded) of the text from
/// `p` on. They do not depend on any diagnostic configuration.
pub open spec fn lex_tokens_from(bytes: Seq<u8>, source: SourceId, p: int) -> Seq<Token>
    decreases bytes.len() - p,
{
    if p < 0 || p >= bytes.len() || ws_end_from(bytes, p) >= bytes.len() {
        Seq::empty()
    } else {
        proof {
            lemma_ws_end_bounds(bytes, p);
            lemma_lex_at_advances(bytes, source, ws_end_from(bytes, p));
        }
        let step = lex_at(bytes, source, ws_end_from(bytes, p));
        step.0 + lex_tokens_from(bytes, source, step.1)
    }
}

/// The reports the configuration collects from the text from `p` on, in
/// order.
pub open spec fn lex_reports_from(bytes: Seq<u8>, source: SourceId, config: DiagnosticConfig, p: int) -> Seq<
    (DiagCode, Option<SourceRange>),
>
    decreases bytes.len() - p,
{
    if p < 0 || p >= bytes.len() || ws_end_from(bytes, p) >= bytes.len() {
        Seq::empty()
    } else {
        proof {
            lemma_ws_end_bounds(bytes, p);
            lemma_lex_at_advances(bytes, source, ws_end_from(bytes, p));
        }
        let q = ws_end_from(bytes, p);
        reports_at(bytes, source, config, q) + lex_reports_from(bytes, source, config, lex_at(bytes, source, q).1)
    }
}

/// The tokens of a document: what its text lexes to, then the end-of-input
/// token.
pub open spec fn lexed_tokens(bytes: Seq<u8>, source: SourceId) -> Seq<Token> {
    lex_tokens_from(bytes, source, 0).push(eof_token(source, bytes.len() as int))
}

// ---- Scanners: each returns the end of what it recognized ----

/// Return the first position at or after `pos` that is not whitespace.
fn skip_whitespace(bytes: &[u8], pos: usize) -> (r: usize)
    requires
        pos <= bytes@.len(),
    ensures
        pos <= r <= bytes@.len(),
        forall|i: int| pos <= i < r ==> is_space(#[trigger] bytes@[i]),
        r == bytes@.len() || !is_space(bytes@[r as int]),
        r == ws_end_from(bytes@, pos as int),
{
    let _len = bytes.len();
    let mut i = pos;
    while i < bytes.len() && (bytes[i] == 0x20 || bytes[i] == 0x09 || bytes[i] == 0x0a || bytes[i]
        == 0x0d || bytes[i] == 0x0c || bytes[i] == 0x0b)
        invariant
            pos <= i <= bytes@.len(),
            forall|k: int| pos <= k < i ==> is_space(#[trigger] bytes@[k]),
            ws_end_from(bytes@, i as int) == ws_end_from(bytes@, pos as int),
        decreases bytes@.len() - i,
    {
        i = i + 1;
    }
    i
}

/// Return the end of the comment starting at `pos`: after its closing `--`,
/// or at the end of its line.
fn scan_comment(bytes: &[u8], pos: usize) -> (r: usize)
    requires
        double_hyphen_at(bytes@, pos as int),
    ensures
        pos + 2 <= r <= bytes@.len(),
        r == comment_end_from(bytes@, pos + 2),
{
    let _len = bytes.len();
    let mut i = pos + 2;
    while i < bytes.len()
        invariant
            pos + 2 <= i <= bytes@.len(),
            comment_end_from(bytes@, i as int) == comment_end_from(bytes@, pos + 2),
        decreases bytes@.len() - i,
    {
        let b = bytes[i];
        if b == 0x0a || b == 0x0d {
            return i;
        }
        if b == 0x2d && i + 1 < bytes.len() && bytes[i + 1] == 0x2d {
            return i + 2;
        }
        i = i + 1;
    }
    i
}

/// Return the end of the word starting at `pos`.
fn scan_word(bytes: &[u8], pos: usize) -> (r: usize)
    requires
        pos < bytes@.len(),
        is_letter(bytes@[pos as int]),
    ensures
        is_word(bytes@, pos as int, r as int),
        r == word_end_from(bytes@, pos + 1),
{
    let _len = bytes.len();
    let mut i = pos + 1;
    while i < bytes.len()
        invariant
            pos + 1 <= i <= bytes@.len(),
            word_end_from(bytes@, i as int) == word_end_from(bytes@, pos + 1),
            is_letter(bytes@[pos as int]),
            forall|k: int| pos <= k < i ==> #[trigger] is_word_byte(bytes@[k]),
            forall|k: int| pos <= k < i ==> !double_hyphen_at(bytes@, k) || k + 1 >= i,
        decreases bytes@.len() - i,
    {
        let b = bytes[i];
        let word_byte = (0x41 <= b && b <= 0x5a) || (0x61 <= b && b <= 0x7a) || (0x30 <= b && b
            <= 0x39) || b == 0x2d || b == 0x5f;
        if !word_byte {
            return i;
        }
        if b == 0x2d && i + 1 < bytes.len() && bytes[i + 1] == 0x2d {
            return i;
        }
        if b == 0x2d && bytes[i - 1] == 0x2d {
            return i;
        }
        i = i + 1;
    }
    i
}

/// Return the end of the run of digits starting at `pos`.
fn scan_digits(bytes: &[u8], pos: usize) -> (r: usize)
    requires
        pos < bytes@.len(),
        is_digit(bytes@[pos as int]),
    ensures
        is_digit_run(bytes@, pos as int, r as int),
        r == digits_end_from(bytes@, pos + 1),
{
    let _len = bytes.len();
    let mut i = pos + 1;
    while i < bytes.len() && 0x30 <= bytes[i] && bytes[i] <= 0x39
        invariant
            pos + 1 <= i <= bytes@.len(),
            digits_end_from(bytes@, i as int) == digits_end_from(bytes@, pos + 1),
            forall|k: int| pos <= k < i ==> #[trigger] is_digit(bytes@[k]),
        decreases bytes@.len() - i,
    {
        i = i + 1;
    }
    i
}

/// Return the end of the literal delimited by `quote` that starts at `pos`
/// and whether its closing delimiter was found.
fn scan_delimited(bytes: &[u8], pos: usize, quote: u8) -> (r: (usize, bool))
    requires
        pos < bytes@.len(),
    ensures
        pos + 1 <= r.0 <= bytes@.len(),
        r.1 ==> r.0 >= pos + 2 && bytes@[r.0 - 1] == quote,
        !r.1 ==> r.0 == bytes@.len(),
        r.0 == delimited_end_from(bytes@, pos + 1, quote).0,
        r.1 == delimited_end_from(bytes@, pos + 1, quote).1,
{
    let _len = bytes.len();
    let mut i = pos + 1;
    while i < bytes.len()
        invariant
            pos + 1 <= i <= bytes@.len(),
            delimited_end_from(bytes@, i as int, quote) == delimited_end_from(bytes@, pos + 1, quote),
        decreases bytes@.len() - i,
    {
        if bytes[i] == quote {
            return (i + 1, true);
        }
        i = i + 1;
    }
    (i, false)
}

/// Return the position of the semicolon ending an EXPORTS body that starts
/// at `pos`, skipping comments, or the end of input.
fn scan_exports_body(bytes: &[u8], pos: usize) -> (r: usize)
    requires
        pos <= bytes@.len(),
    ensures
        pos <= r <= bytes@.len(),
        r < bytes@.len() ==> bytes@[r as int] == 0x3b,
        r == exports_end_from(bytes@, pos as int),
{
    let _len = bytes.len();
    let mut i = pos;
    while i < bytes.len()
        invariant
            pos <= i <= bytes@.len(),
            exports_end_from(bytes@, i as int) == exports_end_from(bytes@, pos as int),
        decreases bytes@.len() - i,
    {
        let b = bytes[i];
        if b == 0x3b {
            return i;
        }
        if b == 0x2d && i + 1 < bytes.len() && bytes[i + 1] == 0x2d {
            i = scan_comment(bytes, i);
        } else {
            i = i + 1;
        }
    }
    i
}

/// Scan a MACRO body starting at `pos` for its standalone `END`, skipping
/// quoted strings and comments. Returns where scanning stopped and the range
/// of the `END` word when found.
fn scan_macro_body(bytes: &[u8], pos: usize) -> (r: (usize, Option<(usize, usize)>))
    requires
        pos <= bytes@.len(),
    ensures
        pos <= r.0 <= bytes@.len(),
        r.1 matches Some((s, e)) ==> pos <= s && e == r.0 && is_word(bytes@, s as int, e as int)
            && bytes@.subrange(s as int, e as int) == "END".spec_bytes(),
        r.1 is None ==> r.0 == bytes@.len(),
        r.0 == macro_end_from(bytes@, pos as int).0,
        r.1 matches Some((s, e)) ==> macro_end_from(bytes@, pos as int).1 == Some((s as int, e as int)),
        r.1 is None ==> macro_end_from(bytes@, pos as int).1 is None,
{
    let _len = bytes.len();
    let mut i = pos;
    while i < bytes.len()
        invariant
            pos <= i <= bytes@.len(),
            macro_end_from(bytes@, i as int) == macro_end_from(bytes@, pos as int),
        decreases bytes@.len() - i,
    {
        let b = bytes[i];
        if b == 0x22 {
            let (end, _) = scan_delimited(bytes, i, 0x22);
            i = end;
        } else if b == 0x2d && i + 1 < bytes.len() && bytes[i + 1] == 0x2d {
            i = scan_comment(bytes, i);
        } else if (0x41 <= b && b <= 0x5a) || (0x61 <= b && b <= 0x7a) {
            let end = scan_word(bytes, i);
            if bytes_equal(&bytes[i..end], "END".as_bytes()) {
                return (end, Some((i, end)));
            }
            i = end;
        } else {
            i = i + 1;
        }
    }
    (i, None)
}

/// Return the kind of a word.
fn word_kind(text: &[u8]) -> (k: TokenKind)
    requires
        text@.len() > 0,
    ensures
        k == classify_word(text@),
{
    match lookup_keyword(text) {
        Some(k) => k,
        None => {
            if 0x41 <= text[0] && text[0] <= 0x5a {
                TokenKind::UppercaseIdent
            } else {
                TokenKind::LowercaseIdent
            }
        },
    }
}

/// The tokens so far are well formed, ordered, and end at or before `pos`.
#[verifier::opaque]
pub open spec fn tokens_before(
    bytes: Seq<u8>,
    source: SourceId,
    tokens: Seq<Token>,
    pos: int,
) -> bool {
    &&& forall|i: int| 0 <= i < tokens.len() ==> (#[trigger] tokens[i]).kind != TokenKind::Eof
    &&& forall|i: int| 0 <= i < tokens.len() ==> token_shape(bytes, #[trigger] tokens[i])
    &&& forall|i: int| 0 <= i < tokens.len() ==> (#[trigger] tokens[i]).span.source == source
    &&& forall|i: int| 0 <= i < tokens.len() ==> (#[trigger] tokens[i]).span.end <= pos
    &&& forall|i: int, j: int|
        0 <= i < j < tokens.len() ==> (#[trigger] tokens[i]).span.end <= (
        #[trigger] tokens[j]).span.start
}

/// The diagnostics so far lie in the document, are ordered, and start at or before `pos`.
#[verifier::opaque]
pub open spec fn diagnostics_before(
    bytes: Seq<u8>,
    source: SourceId,
    diags: Seq<Diagnostic>,
    pos: int,
) -> bool {
    &&& diagnostics_in_document(bytes, source, diags)
    &&& diagnostics_ordered(diags)
    &&& forall|i: int|
        0 <= i < diags.len() ==> ((#[trigger] diags[i]).range matches Some(r) && r.start <= pos)
}

/// Append a token that starts at or after `pos`.
fn push_token(
    tokens: &mut Vec<Token>,
    bytes: &[u8],
    source: SourceId,
    pos: usize,
    kind: TokenKind,
    start: usize,
    end: usize,
)
    requires
        tokens_before(bytes@, source, old(tokens)@, pos as int),
        pos <= start,
        kind != TokenKind::Eof,
        token_shape(bytes@, Token { kind, span: SourceRange { source, start, end } }),
    ensures
        tokens_before(bytes@, source, final(tokens)@, end as int),
        final(tokens)@ == old(tokens)@.push(Token { kind, span: SourceRange { source, start, end } }),
{
    reveal(tokens_before);
    let t = Token { kind, span: SourceRange { source, start, end } };
    tokens.push(t);
    assert forall|i: int, j: int| 0 <= i < j < tokens@.len() implies (
    #[trigger] tokens@[i]).span.end <= (#[trigger] tokens@[j]).span.start by {
        if j == tokens@.len() - 1 {
            assert(tokens@[i] == old(tokens)@[i]);
        } else {
            assert(tokens@[i] == old(tokens)@[i]);
            assert(tokens@[j] == old(tokens)@[j]);
        }
    }
    assert forall|i: int| 0 <= i < tokens@.len() implies (#[trigger] tokens@[i]).span.end
        <= end by {
        if i < tokens@.len() - 1 {
            assert(tokens@[i] == old(tokens)@[i]);
        }
    }
    assert forall|i: int| 0 <= i < tokens@.len() implies token_shape(bytes@, #[trigger] tokens@[i]) && tokens@[i].span.source == source && tokens@[i].kind != TokenKind::Eof by {
        if i < tokens@.len() - 1 {
            assert(tokens@[i] == old(tokens)@[i]);
        }
    }
}

/// Append a diagnostic for `start..end`, if the configuration collects its code.
fn push_diagnostic(
    diags: &mut Vec<Diagnostic>,
    config: &DiagnosticConfig,
    bytes: &[u8],
    source: SourceId,
    pos: usize,
    code: DiagCode,
    start: usize,
    end: usize,
    message: &str,
)
    requires
        diagnostics_before(bytes@, source, old(diags)@, pos as int),
        pos <= start <= end <= bytes@.len(),
        start < bytes@.len(),
    ensures
        diagnostics_before(bytes@, source, final(diags)@, start as int),
        config.spec_should_collect(code) ==> final(diags)@.len() == old(diags)@.len() + 1
            && final(diags)@.last().code == code && final(diags)@.last().range == Some(
            SourceRange { source, start, end },
        ),
        !config.spec_should_collect(code) ==> final(diags)@ == old(diags)@,
        final(diags)@.subrange(0, old(diags)@.len() as int) == old(diags)@,
        diag_keys(final(diags)@) == diag_keys(old(diags)@) + kept(*config, code, source, start as int, end as int),
        plain_lexical(old(diags)@) ==> plain_lexical(final(diags)@),
{
    reveal(diagnostics_before);
    if config.should_collect(code) {
        let d = Diagnostic {
            severity: config.effective_severity(code),
            code,
            message: String::from_str(message),
            module: None,
            range: Some(SourceRange { source, start, end }),
        };
        diags.push(d);
        assert forall|i: int, j: int| 0 <= i < j < diags@.len() implies match (
        (#[trigger] diags@[i]).range, (#[trigger] diags@[j]).range) {
            (Some(a), Some(b)) => a.start <= b.start,
            _ => true,
        } by {
            assert(diags@[i] == old(diags)@[i]);
            if j < diags@.len() - 1 {
                assert(diags@[j] == old(diags)@[j]);
            }
        }
        assert forall|i: int| 0 <= i < diags@.len() implies match (#[trigger] diags@[i]).range {
            Some(r) => r.source == source && r.start <= r.end <= bytes@.len() && r.start <= start,
            None => false,
        } by {
            if i < diags@.len() - 1 {
                assert(diags@[i] == old(diags)@[i]);
            }
        }
    }
    assert(diags@.subrange(0, old(diags)@.len() as int) =~= old(diags)@);
    assert(diag_keys(diags@) =~= diag_keys(old(diags)@) + kept(*config, code, source, start as int, end as int));
    proof {
        if plain_lexical(old(diags)@) {
            assert forall|i: int| 0 <= i < diags@.len() implies (#[trigger] diags@[i]).severity
                == spec_default_severity(diags@[i].code) && diags@[i].module is None by {
                if i < old(diags)@.len() {
                    assert(diags@[i] == old(diags)@[i]);
                }
            }
        }
    }
}

/// A lexer over one source document.
pub struct Lexer<'a> {
    bytes: &'a [u8],
    source: SourceId,
    config: &'a DiagnosticConfig,
}

impl<'a> Lexer<'a> {
    /// The bytes being lexed.
    pub closed spec fn spec_bytes(&self) -> Seq<u8> {
        self.bytes@
    }

    /// The document being lexed.
    pub closed spec fn spec_source(&self) -> SourceId {
        self.source
    }

    /// The configuration deciding which diagnostics are collected.
    pub closed spec fn spec_config(&self) -> DiagnosticConfig {
        *self.config
    }

    /// Create a lexer over a document's bytes.
    pub fn new(document: &'a SourceDocument, config: &'a DiagnosticConfig) -> (l: Lexer<'a>)
        ensures
            l.spec_bytes() == document.spec_bytes(),
            l.spec_source() == document.spec_id(),
            l.spec_config() == *config,
    {
        Lexer { bytes: document.bytes(), source: document.id(), config }
    }

    /// Split the document into tokens (comments included) and collect the
    /// lexical diagnostics that the configuration admits.
    pub fn tokenize(&self) -> (r: (Vec<Token>, Vec<Diagnostic>))
        ensures
            token_stream(self.spec_bytes(), self.spec_source(), r.0@),
            diagnostics_in_document(self.spec_bytes(), self.spec_source(), r.1@),
            diagnostics_ordered(r.1@),
            r.0@ == lexed_tokens(self.spec_bytes(), self.spec_source()),
            diag_keys(r.1@) == lex_reports_from(self.spec_bytes(), self.spec_source(), self.spec_config(), 0),
            plain_lexical(r.1@),
    {
        tokenize_bytes(self.bytes, self.source, self.config)
    }
}

/// Facts about the tokens and diagnostics so far carry over to any later position.
proof fn lemma_before_mono(
    bytes: Seq<u8>,
    source: SourceId,
    tokens: Seq<Token>,
    diags: Seq<Diagnostic>,
    p: int,
    q: int,
)
    requires
        tokens_before(bytes, source, tokens, p),
        diagnostics_before(bytes, source, diags, p),
        p <= q,
    ensures
        tokens_before(bytes, source, tokens, q),
        diagnostics_before(bytes, source, diags, q),
{
    reveal(tokens_before);
    reveal(diagnostics_before);
    assert forall|i: int| 0 <= i < diags.len() implies ((#[trigger] diags[i]).range matches Some(
        r,
    ) && r.start <= q) by {
        assert(diags[i].range matches Some(r) && r.start <= p);
    }
}

/// Facts about the tokens so far carry over to any later position.
proof fn lemma_tokens_mono(bytes: Seq<u8>, source: SourceId, tokens: Seq<Token>, p: int, q: int)
    requires
        tokens_before(bytes, source, tokens, p),
        p <= q,
    ensures
        tokens_before(bytes, source, tokens, q),
{
    reveal(tokens_before);
}

/// A word is always classified as a keyword, a reserved word or an identifier.
proof fn lemma_word_kind_not_eof(text: Seq<u8>)
    ensures
        classify_word(text) != TokenKind::Eof,
        classify_word(text).spec_is_keyword() || classify_word(text) == TokenKind::ForbiddenKeyword
            || classify_word(text).spec_is_identifier(),
{
    reveal(spec_keyword);
}

/// Facts about the diagnostics so far carry over to any later position.
proof fn lemma_diags_mono(bytes: Seq<u8>, source: SourceId, diags: Seq<Diagnostic>, p: int, q: int)
    requires
        diagnostics_before(bytes, source, diags, p),
        p <= q,
    ensures
        diagnostics_before(bytes, source, diags, q),
{
    reveal(diagnostics_before);
    assert forall|i: int| 0 <= i < diags.len() implies ((#[trigger] diags[i]).range matches Some(
        r,
    ) && r.start <= q) by {
        assert(diags[i].range matches Some(r) && r.start <= p);
    }
}

/// Close the stream with the end-of-input token.
fn push_eof(tokens: &mut Vec<Token>, bytes: &[u8], source: SourceId)
    requires
        tokens_before(bytes@, source, old(tokens)@, bytes@.len() as int),
    ensures
        token_stream(bytes@, source, final(tokens)@),
        final(tokens)@ == old(tokens)@.push(eof_token(source, bytes@.len() as int)),
{
    reveal(tokens_before);
    let len = bytes.len();
    let t = Token { kind: TokenKind::Eof, span: SourceRange { source, start: len, end: len } };
    tokens.push(t);
    assert forall|i: int, j: int| 0 <= i < j < tokens@.len() implies (
    #[trigger] tokens@[i]).span.end <= (#[trigger] tokens@[j]).span.start by {
        assert(tokens@[i] == old(tokens)@[i]);
        if j < tokens@.len() - 1 {
            assert(tokens@[j] == old(tokens)@[j]);
        }
    }
    assert forall|i: int| 0 <= i < tokens@.len() implies token_shape(bytes@, #[trigger] tokens@[i])
        && tokens@[i].span.source == source by {
        if i < tokens@.len() - 1 {
            assert(tokens@[i] == old(tokens)@[i]);
        }
    }
    assert forall|i: int| 0 <= i < tokens@.len() - 1 implies (#[trigger] tokens@[i]).kind
        != TokenKind::Eof by {
        assert(tokens@[i] == old(tokens)@[i]);
    }
}

/// Lex a word (keyword or identifier) at `pos`, consuming an EXPORTS body or
/// MACRO body that it introduces.
fn lex_word(
    bytes: &[u8],
    source: SourceId,
    tokens: &mut Vec<Token>,
    diags: &Vec<Diagnostic>,
    pos: usize,
) -> (r: usize)
    requires
        pos < bytes@.len(),
        is_letter(bytes@[pos as int]),
        tokens_before(bytes@, source, old(tokens)@, pos as int),
        diagnostics_before(bytes@, source, diags@, pos as int),
    ensures
        pos < r <= bytes@.len(),
        tokens_before(bytes@, source, final(tokens)@, r as int),
        diagnostics_before(bytes@, source, diags@, r as int),
        final(tokens)@ == old(tokens)@ + lex_word_at(bytes@, source, pos as int).0,
        r == lex_word_at(bytes@, source, pos as int).1,
{
    let end = scan_word(bytes, pos);
    let text = &bytes[pos..end];
    let kind = word_kind(text);
    proof {
        lemma_word_kind_not_eof(bytes@.subrange(pos as int, end as int));
    }
    assert(bytes@.subrange(pos as int, end as int) == text@);
    assert(kind == classify_word(bytes@.subrange(pos as int, end as int)));
    let ghost first = token_at(source, kind, pos as int, end as int);
    assert(lex_word_at(bytes@, source, pos as int).0[0] == first);
    push_token(tokens, bytes, source, pos, kind, pos, end);
    proof {
        lemma_diags_mono(bytes@, source, diags@, pos as int, end as int);
        assert(tokens@ =~= old(tokens)@ + seq![first]);
    }
    if kind == TokenKind::KwExports {
        let stop = scan_exports_body(bytes, end);
        proof {
            lemma_before_mono(bytes@, source, tokens@, diags@, end as int, stop as int);
        }
        stop
    } else if kind == TokenKind::KwMacro {
        let (stop, end_word) = scan_macro_body(bytes, end);
        assert(stop == macro_end_from(bytes@, end as int).0);
        match end_word {
            Some((ws, we)) => {
                let end_kind = word_kind(&bytes[ws..we]);
                proof {
                    lemma_word_kind_not_eof(bytes@.subrange(ws as int, we as int));
                }
                let ghost mid = tokens@;
                push_token(tokens, bytes, source, end, end_kind, ws, we);
                proof {
                    lemma_diags_mono(bytes@, source, diags@, end as int, stop as int);
                    assert(tokens@ =~= old(tokens)@ + seq![
                        first,
                        token_at(source, end_kind, ws as int, we as int),
                    ]);
                }
            },
            None => {
                proof {
                    lemma_before_mono(bytes@, source, tokens@, diags@, end as int, stop as int);
                }
            },
        }
        stop
    } else {
        assert(lex_word_at(bytes@, source, pos as int).0 =~= seq![first]);
        end
    }
}

/// Lex a quoted string, or a hex or binary string, at `pos`.
fn lex_quoted(
    bytes: &[u8],
    source: SourceId,
    config: &DiagnosticConfig,
    tokens: &mut Vec<Token>,
    diags: &mut Vec<Diagnostic>,
    pos: usize,
) -> (r: usize)
    requires
        pos < bytes@.len(),
        bytes@[pos as int] == 0x22 || bytes@[pos as int] == 0x27,
        tokens_before(bytes@, source, old(tokens)@, pos as int),
        diagnostics_before(bytes@, source, old(diags)@, pos as int),
    ensures
        pos < r <= bytes@.len(),
        tokens_before(bytes@, source, final(tokens)@, r as int),
        diagnostics_before(bytes@, source, final(diags)@, r as int),
        final(tokens)@ == old(tokens)@ + lex_quoted_at(bytes@, source, pos as int).0,
        diag_keys(final(diags)@) == diag_keys(old(diags)@) + quoted_reports_at(bytes@, source, *config, pos as int),
        r == lex_quoted_at(bytes@, source, pos as int).1,
        plain_lexical(old(diags)@) ==> plain_lexical(final(diags)@),
{
    let len = bytes.len();
    let start = pos;
    if bytes[pos] == 0x22 {
        let (end, terminated) = scan_delimited(bytes, pos, 0x22);
        if !terminated {
            push_diagnostic(
                diags,
                config,
                bytes,
                source,
                pos,
                DiagCode::UnterminatedString,
                start,
                end,
                "unterminated quoted string",
            );
        }
        proof {
            lemma_tokens_mono(bytes@, source, tokens@, start as int, pos as int);
        }
        push_token(tokens, bytes, source, pos, TokenKind::QuotedString, start, end);
        proof {
            lemma_diags_mono(bytes@, source, diags@, start as int, end as int);
        }
        return end;
    }
    let (end, terminated) = scan_delimited(bytes, pos, 0x27);
    if terminated && end < len && (bytes[end] == 0x48 || bytes[end] == 0x68) {
        push_token(tokens, bytes, source, pos, TokenKind::HexString, start, end + 1);
        proof {
            lemma_diags_mono(bytes@, source, diags@, start as int, end + 1);
        }
        end + 1
    } else if terminated && end < len && (bytes[end] == 0x42 || bytes[end] == 0x62) {
        push_token(tokens, bytes, source, pos, TokenKind::BinString, start, end + 1);
        proof {
            lemma_diags_mono(bytes@, source, diags@, start as int, end + 1);
        }
        end + 1
    } else {
        if !terminated {
            push_diagnostic(
                diags,
                config,
                bytes,
                source,
                pos,
                DiagCode::UnterminatedString,
                start,
                end,
                "unterminated hex or binary string",
            );
        } else {
            push_diagnostic(
                diags,
                config,
                bytes,
                source,
                pos,
                DiagCode::InvalidStringLiteral,
                start,
                end,
                "quoted literal lacks an H or B suffix",
            );
        }
        proof {
            lemma_tokens_mono(bytes@, source, tokens@, start as int, end as int);
            lemma_diags_mono(bytes@, source, diags@, start as int, end as int);
        }
        end
    }
}

/// Lex a number, negative number, punctuation, or an unexpected byte at `pos`.
fn lex_other(
    bytes: &[u8],
    source: SourceId,
    config: &DiagnosticConfig,
    tokens: &mut Vec<Token>,
    diags: &mut Vec<Diagnostic>,
    pos: usize,
) -> (r: usize)
    requires
        pos < bytes@.len(),
        tokens_before(bytes@, source, old(tokens)@, pos as int),
        diagnostics_before(bytes@, source, old(diags)@, pos as int),
    ensures
        pos < r <= bytes@.len(),
        tokens_before(bytes@, source, final(tokens)@, r as int),
        diagnostics_before(bytes@, source, final(diags)@, r as int),
        final(tokens)@ == old(tokens)@ + lex_other_at(bytes@, source, pos as int).0,
        diag_keys(final(diags)@) == diag_keys(old(diags)@) + other_reports_at(bytes@, source, *config, pos as int),
        r == lex_other_at(bytes@, source, pos as int).1,
        plain_lexical(old(diags)@) ==> plain_lexical(final(diags)@),
{
    let len = bytes.len();
    let b = bytes[pos];
    let start = pos;
    if 0x30 <= b && b <= 0x39 {
        let end = scan_digits(bytes, pos);
        if b == 0x30 && end - start > 1 {
            push_diagnostic(
                diags,
                config,
                bytes,
                source,
                pos,
                DiagCode::NumberLeadingZero,
                start,
                end,
                "number has a leading zero",
            );
        }
        proof {
            lemma_tokens_mono(bytes@, source, tokens@, start as int, start as int);
        }
        push_token(tokens, bytes, source, pos, TokenKind::Number, start, end);
        proof {
            lemma_diags_mono(bytes@, source, diags@, start as int, end as int);
        }
        end
    } else if b == 0x2d && pos + 1 < len && 0x30 <= bytes[pos + 1] && bytes[pos + 1] <= 0x39 {
        let end = scan_digits(bytes, pos + 1);
        push_token(tokens, bytes, source, pos, TokenKind::NegativeNumber, start, end);
        proof {
            lemma_diags_mono(bytes@, source, diags@, start as int, end as int);
        }
        end
    } else if b == 0x3a && len - pos > 2 && bytes[pos + 1] == 0x3a && bytes[pos + 2] == 0x3d {
        push_token(tokens, bytes, source, pos, TokenKind::ColonColonEqual, start, start + 3);
        proof {
            lemma_diags_mono(bytes@, source, diags@, start as int, start + 3);
        }
        start + 3
    } else if b == 0x2e && pos + 1 < len && bytes[pos + 1] == 0x2e {
        push_token(tokens, bytes, source, pos, TokenKind::DotDot, start, start + 2);
        proof {
            lemma_diags_mono(bytes@, source, diags@, start as int, start + 2);
        }
        start + 2
    } else {
        let kind = match b {
            0x7b => Some(TokenKind::LBrace),
            0x7d => Some(TokenKind::RBrace),
            0x28 => Some(TokenKind::LParen),
            0x29 => Some(TokenKind::RParen),
            0x5b => Some(TokenKind::LBracket),
            0x5d => Some(TokenKind::RBracket),
            0x2c => Some(TokenKind::Comma),
            0x3b => Some(TokenKind::Semicolon),
            0x7c => Some(TokenKind::Pipe),
            0x2e => Some(TokenKind::Dot),
            _ => None,
        };
        match kind {
            Some(k) => {
                push_token(tokens, bytes, source, pos, k, start, start + 1);
                proof {
                    lemma_diags_mono(bytes@, source, diags@, start as int, start + 1);
                }
            },
            None => {
                push_diagnostic(
                    diags,
                    config,
                    bytes,
                    source,
                    pos,
                    DiagCode::UnexpectedCharacter,
                    start,
                    start + 1,
                    "unexpected character",
                );
                proof {
                    lemma_tokens_mono(bytes@, source, tokens@, start as int, start + 1);
                    lemma_diags_mono(bytes@, source, diags@, start as int, start + 1);
                }
            },
        }
        start + 1
    }
}

/// Split `bytes` into tokens and collect lexical diagnostics.
pub fn tokenize_bytes(bytes: &[u8], source: SourceId, config: &DiagnosticConfig) -> (r: (
    Vec<Token>,
    Vec<Diagnostic>,
))
    ensures
        token_stream(bytes@, source, r.0@),
        diagnostics_in_document(bytes@, source, r.1@),
        diagnostics_ordered(r.1@),
        r.0@ == lexed_tokens(bytes@, source),
        diag_keys(r.1@) == lex_reports_from(bytes@, source, *config, 0),
        plain_lexical(r.1@),
{
    let mut tokens: Vec<Token> = Vec::new();
    let mut diags: Vec<Diagnostic> = Vec::new();
    let mut pos: usize = 0;
    let len = bytes.len();
    let ghost whole_tokens = lex_tokens_from(bytes@, source, 0);
    let ghost whole_reports = lex_reports_from(bytes@, source, *config, 0);
    proof {
        reveal(tokens_before);
        reveal(diagnostics_before);
        assert(tokens@ + whole_tokens =~= whole_tokens);
        assert(diag_keys(diags@) + whole_reports =~= whole_reports);
    }
    while pos < len
        invariant
            len == bytes@.len(),
            pos <= len,
            tokens_before(bytes@, source, tokens@, pos as int),
            diagnostics_before(bytes@, source, diags@, pos as int),
            whole_tokens == lex_tokens_from(bytes@, source, 0),
            whole_reports == lex_reports_from(bytes@, source, *config, 0),
            tokens@ + lex_tokens_from(bytes@, source, pos as int) == whole_tokens,
            diag_keys(diags@) + lex_reports_from(bytes@, source, *config, pos as int) == whole_reports,
            plain_lexical(diags@),
        decreases len - pos,
    {
        let ghost before_tokens = tokens@;
        let ghost before_diags = diag_keys(diags@);
        let ghost rest_tokens = lex_tokens_from(bytes@, source, pos as int);
        let ghost rest_reports = lex_reports_from(bytes@, source, *config, pos as int);
        let next = skip_whitespace(bytes, pos);
        proof {
            lemma_before_mono(bytes@, source, tokens@, diags@, pos as int, next as int);
        }
        if next >= len {
            pos = next;
            proof {
                assert(rest_tokens =~= Seq::<Token>::empty());
                assert(lex_tokens_from(bytes@, source, pos as int) =~= Seq::<Token>::empty());
                assert(tokens@ + lex_tokens_from(bytes@, source, pos as int) =~= tokens@ + rest_tokens);
                assert(diag_keys(diags@) + lex_reports_from(bytes@, source, *config, pos as int)
                    =~= diag_keys(diags@) + rest_reports);
            }
        } else {
            let ghost step = lex_at(bytes@, source, next as int);
            let ghost step_reports = reports_at(bytes@, source, *config, next as int);
            proof {
                assert(rest_tokens == step.0 + lex_tokens_from(bytes@, source, step.1));
                assert(rest_reports == step_reports + lex_reports_from(bytes@, source, *config, step.1));
            }
            let b = bytes[next];
            if b == 0x2d && next + 1 < len && bytes[next + 1] == 0x2d {
                let end = scan_comment(bytes, next);
                push_token(&mut tokens, bytes, source, next, TokenKind::Comment, next, end);
                proof {
                    lemma_diags_mono(bytes@, source, diags@, next as int, end as int);
                    assert(tokens@ =~= before_tokens + step.0);
                    assert(diag_keys(diags@) =~= before_diags + step_reports);
                }
                pos = end;
            } else if (0x41 <= b && b <= 0x5a) || (0x61 <= b && b <= 0x7a) {
                pos = lex_word(bytes, source, &mut tokens, &diags, next);
                proof {
                    assert(diag_keys(diags@) =~= before_diags + step_reports);
                }
            } else if b == 0x22 || b == 0x27 {
                pos = lex_quoted(bytes, source, config, &mut tokens, &mut diags, next);
            } else {
                pos = lex_other(bytes, source, config, &mut tokens, &mut diags, next);
            }
            proof {
                assert(tokens@ + lex_tokens_from(bytes@, source, pos as int) =~= before_tokens + rest_tokens);
                assert(diag_keys(diags@) + lex_reports_from(bytes@, source, *config, pos as int)
                    =~= before_diags + rest_reports);
            }
        }
    }
    proof {
        assert(lex_tokens_from(bytes@, source, pos as int) =~= Seq::<Token>::empty());
        assert(lex_reports_from(bytes@, source, *config, pos as int) =~= Seq::empty());
        assert(tokens@ =~= whole_tokens);
        assert(diag_keys(diags@) =~= whole_reports);
    }
    push_eof(&mut tokens, bytes, source);
    proof {
        reveal(diagnostics_before);
    }
    (tokens, diags)
}

#[verifier::rlimit(100)]
#[verifier::spinoff_prover]
proof fn lemma_keyword_spellings_0(k: TokenKind)
    requires
        k == TokenKind::KwDefinitions || k == TokenKind::KwBegin || k == TokenKind::KwEnd || k == TokenKind::KwImports || k == TokenKind::KwExports || k == TokenKind::KwFrom || k == TokenKind::KwMacro || k == TokenKind::KwObject,
    ensures
        spec_keyword(k.spec_display_name().spec_bytes()) == Some(k),
{
    reveal(spec_keyword);
    reveal_strlit("DEFINITIONS");
    reveal_strlit("BEGIN");
    reveal_strlit("END");
    reveal_strlit("IMPORTS");
    reveal_strlit("EXPORTS");
    reveal_strlit("FROM");
    reveal_strlit("MACRO");
    reveal_strlit("OBJECT");
    reveal_strlit("IDENTIFIER");
    reveal_strlit("OBJECT-TYPE");
    reveal_strlit("MODULE-IDENTITY");
    reveal_strlit("OBJECT-IDENTITY");
    reveal_strlit("NOTIFICATION-TYPE");
    reveal_strlit("TRAP-TYPE");
    reveal_strlit("TEXTUAL-CONVENTION");
    reveal_strlit("OBJECT-GROUP");
    reveal_strlit("NOTIFICATION-GROUP");
    reveal_strlit("MODULE-COMPLIANCE");
    reveal_strlit("AGENT-CAPABILITIES");
    reveal_strlit("SYNTAX");
    reveal_strlit("WRITE-SYNTAX");
    reveal_strlit("UNITS");
    reveal_strlit("MAX-ACCESS");
    reveal_strlit("ACCESS");
    reveal_strlit("MIN-ACCESS");
    reveal_strlit("STATUS");
    reveal_strlit("DESCRIPTION");
    reveal_strlit("REFERENCE");
    reveal_strlit("INDEX");
    reveal_strlit("AUGMENTS");
    reveal_strlit("DEFVAL");
    reveal_strlit("IMPLIED");
    reveal_strlit("LAST-UPDATED");
    reveal_strlit("ORGANIZATION");
    reveal_strlit("CONTACT-INFO");
    reveal_strlit("REVISION");
    reveal_strlit("OBJECTS");
    reveal_strlit("NOTIFICATIONS");
    reveal_strlit("ENTERPRISE");
    reveal_strlit("VARIABLES");
    reveal_strlit("DISPLAY-HINT");
    reveal_strlit("MODULE");
    reveal_strlit("MANDATORY-GROUPS");
    reveal_strlit("GROUP");
    reveal_strlit("PRODUCT-RELEASE");
    reveal_strlit("SUPPORTS");
    reveal_strlit("INCLUDES");
    reveal_strlit("VARIATION");
    reveal_strlit("CREATION-REQUIRES");
    reveal_strlit("INTEGER");
    reveal_strlit("BITS");
    reveal_strlit("OCTET");
    reveal_strlit("STRING");
    reveal_strlit("SEQUENCE");
    reveal_strlit("OF");
    reveal_strlit("CHOICE");
    reveal_strlit("SIZE");
    reveal_strlit("APPLICATION");
    reveal_strlit("UNIVERSAL");
    reveal_strlit("IMPLICIT");
    reveal_strlit("Counter32");
    reveal_strlit("Counter64");
    reveal_strlit("Gauge32");
    reveal_strlit("Unsigned32");
    reveal_strlit("TimeTicks");
    reveal_strlit("IpAddress");
    reveal_strlit("Opaque");
    reveal_strlit("Counter");
    reveal_strlit("Gauge");
    reveal_strlit("NetworkAddress");
    reveal_strlit("read-only");
    reveal_strlit("read-write");
    reveal_strlit("read-create");
    reveal_strlit("not-accessible");
    reveal_strlit("accessible-for-notify");
    reveal_strlit("write-only");
    reveal_strlit("not-implemented");
    reveal_strlit("current");
    reveal_strlit("deprecated");
    reveal_strlit("obsolete");
    reveal_strlit("mandatory");
    reveal_strlit("optional");
    reveal_strlit("ABSENT");
    reveal_strlit("ANY");
    reveal_strlit("BOOLEAN");
    reveal_strlit("BY");
    reveal_strlit("CLASS");
    reveal_strlit("COMPONENT");
    reveal_strlit("COMPONENTS");
    reveal_strlit("DEFAULT");
    reveal_strlit("DEFINED");
    reveal_strlit("ENUMERATED");
    reveal_strlit("EXPLICIT");
    reveal_strlit("EXTERNAL");
    reveal_strlit("FALSE");
    reveal_strlit("MAX");
    reveal_strlit("MIN");
    reveal_strlit("MINUS-INFINITY");
    reveal_strlit("NULL");
    reveal_strlit("OPTIONAL");
    reveal_strlit("PLUS-INFINITY");
    reveal_strlit("PRESENT");
    reveal_strlit("PRIVATE");
    reveal_strlit("REAL");
    reveal_strlit("SET");
    reveal_strlit("TAGS");
    reveal_strlit("TRUE");
    reveal_strlit("WITH");
    assert forall|w: Seq<char>| decode_utf8(#[trigger] encode_utf8(w)) == w by {
        vstd::utf8::encode_utf8_decode_utf8(w);
    }
    match k {
        TokenKind::KwDefinitions => {
            assert("DEFINITIONS"@.len() == 11);
            assert("DEFINITIONS"@[0] == 'D');
            assert("DEFINITIONS"@[1] == 'E');
            assert("DEFINITIONS"@[2] == 'F');
            assert("DEFINITIONS"@[3] == 'I');
            assert("DEFINITIONS"@[4] == 'N');
            assert("DEFINITIONS"@[5] == 'I');
            assert("DEFINITIONS"@[6] == 'T');
            assert("DEFINITIONS"@[7] == 'I');
            assert("DEFINITIONS"@[8] == 'O');
            assert("DEFINITIONS"@[9] == 'N');
            assert("DEFINITIONS"@[10] == 'S');
            assert(spec_keyword("DEFINITIONS".spec_bytes()) == Some(TokenKind::KwDefinitions));
        },
        TokenKind::KwBegin => {
            assert("BEGIN"@.len() == 5);
            assert("BEGIN"@[0] == 'B');
            assert("BEGIN"@[1] == 'E');
            assert("BEGIN"@[2] == 'G');
            assert("BEGIN"@[3] == 'I');
            assert("BEGIN"@[4] == 'N');
            assert(spec_keyword("BEGIN".spec_bytes()) == Some(TokenKind::KwBegin));
        },
        TokenKind::KwEnd => {
            assert("END"@.len() == 3);
            assert("END"@[0] == 'E');
            assert("END"@[1] == 'N');
            assert("END"@[2] == 'D');
            assert(spec_keyword("END".spec_bytes()) == Some(TokenKind::KwEnd));
        },
        TokenKind::KwImports => {
            assert("IMPORTS"@.len() == 7);
            assert("IMPORTS"@[0] == 'I');
            assert("IMPORTS"@[1] == 'M');
            assert("IMPORTS"@[2] == 'P');
            assert("IMPORTS"@[3] == 'O');
            assert("IMPORTS"@[4] == 'R');
            assert("IMPORTS"@[5] == 'T');
            assert("IMPORTS"@[6] == 'S');
            assert(spec_keyword("IMPORTS".spec_bytes()) == Some(TokenKind::KwImports));
        },
        TokenKind::KwExports => {
            assert("EXPORTS"@.len() == 7);
            assert("EXPORTS"@[0] == 'E');
            assert("EXPORTS"@[1] == 'X');
            assert("EXPORTS"@[2] == 'P');
            assert("EXPORTS"@[3] == 'O');
            assert("EXPORTS"@[4] == 'R');
            assert("EXPORTS"@[5] == 'T');
            assert("EXPORTS"@[6] == 'S');
            assert(spec_keyword("EXPORTS".spec_bytes()) == Some(TokenKind::KwExports));
        },
        TokenKind::KwFrom => {
            assert("FROM"@.len() == 4);
            assert("FROM"@[0] == 'F');
            assert("FROM"@[1] == 'R');
            assert("FROM"@[2] == 'O');
            assert("FROM"@[3] == 'M');
            assert(spec_keyword("FROM".spec_bytes()) == Some(TokenKind::KwFrom));
        },
        TokenKind::KwMacro => {
            assert("MACRO"@.len() == 5);
            assert("MACRO"@[0] == 'M');
            assert("MACRO"@[1] == 'A');
            assert("MACRO"@[2] == 'C');
            assert("MACRO"@[3] == 'R');
            assert("MACRO"@[4] == 'O');
            assert(spec_keyword("MACRO".spec_bytes()) == Some(TokenKind::KwMacro));
        },
        TokenKind::KwObject => {
            assert("OBJECT"@.len() == 6);
            assert("OBJECT"@[0] == 'O');
            assert("OBJECT"@[1] == 'B');
            assert("OBJECT"@[2] == 'J');
            assert("OBJECT"@[3] == 'E');
            assert("OBJECT"@[4] == 'C');
            assert("OBJECT"@[5] == 'T');
            assert(spec_keyword("OBJECT".spec_bytes()) == Some(TokenKind::KwObject));
        },
        _ => {},
    }
}

#[verifier::rlimit(100)]
#[verifier::spinoff_prover]
proof fn lemma_keyword_spellings_1(k: TokenKind)
    requires
        k == TokenKind::KwIdentifier || k == TokenKind::KwObjectType || k == TokenKind::KwModuleIdentity || k == TokenKind::KwObjectIdentity || k == TokenKind::KwNotificationType || k == TokenKind::KwTrapType || k == TokenKind::KwTextualConvention || k == TokenKind::KwObjectGroup,
    ensures
        spec_keyword(k.spec_display_name().spec_bytes()) == Some(k),
{
    reveal(spec_keyword);
    reveal_strlit("DEFINITIONS");
    reveal_strlit("BEGIN");
    reveal_strlit("END");
    reveal_strlit("IMPORTS");
    reveal_strlit("EXPORTS");
    reveal_strlit("FROM");
    reveal_strlit("MACRO");
    reveal_strlit("OBJECT");
    reveal_strlit("IDENTIFIER");
    reveal_strlit("OBJECT-TYPE");
    reveal_strlit("MODULE-IDENTITY");
    reveal_strlit("OBJECT-IDENTITY");
    reveal_strlit("NOTIFICATION-TYPE");
    reveal_strlit("TRAP-TYPE");
    reveal_strlit("TEXTUAL-CONVENTION");
    reveal_strlit("OBJECT-GROUP");
    reveal_strlit("NOTIFICATION-GROUP");
    reveal_strlit("MODULE-COMPLIANCE");
    reveal_strlit("AGENT-CAPABILITIES");
    reveal_strlit("SYNTAX");
    reveal_strlit("WRITE-SYNTAX");
    reveal_strlit("UNITS");
    reveal_strlit("MAX-ACCESS");
    reveal_strlit("ACCESS");
    reveal_strlit("MIN-ACCESS");
    reveal_strlit("STATUS");
    reveal_strlit("DESCRIPTION");
    reveal_strlit("REFERENCE");
    reveal_strlit("INDEX");
    reveal_strlit("AUGMENTS");
    reveal_strlit("DEFVAL");
    reveal_strlit("IMPLIED");
    reveal_strlit("LAST-UPDATED");
    reveal_strlit("ORGANIZATION");
    reveal_strlit("CONTACT-INFO");
    reveal_strlit("REVISION");
    reveal_strlit("OBJECTS");
    reveal_strlit("NOTIFICATIONS");
    reveal_strlit("ENTERPRISE");
    reveal_strlit("VARIABLES");
    reveal_strlit("DISPLAY-HINT");
    reveal_strlit("MODULE");
    reveal_strlit("MANDATORY-GROUPS");
    reveal_strlit("GROUP");
    reveal_strlit("PRODUCT-RELEASE");
    reveal_strlit("SUPPORTS");
    reveal_strlit("INCLUDES");
    reveal_strlit("VARIATION");
    reveal_strlit("CREATION-REQUIRES");
    reveal_strlit("INTEGER");
    reveal_strlit("BITS");
    reveal_strlit("OCTET");
    reveal_strlit("STRING");
    reveal_strlit("SEQUENCE");
    reveal_strlit("OF");
    reveal_strlit("CHOICE");
    reveal_strlit("SIZE");
    reveal_strlit("APPLICATION");
    reveal_strlit("UNIVERSAL");
    reveal_strlit("IMPLICIT");
    reveal_strlit("Counter32");
    reveal_strlit("Counter64");
    reveal_strlit("Gauge32");
    reveal_strlit("Unsigned32");
    reveal_strlit("TimeTicks");
    reveal_strlit("IpAddress");
    reveal_strlit("Opaque");
    reveal_strlit("Counter");
    reveal_strlit("Gauge");
    reveal_strlit("NetworkAddress");
    reveal_strlit("read-only");
    reveal_strlit("read-write");
    reveal_strlit("read-create");
    reveal_strlit("not-accessible");
    reveal_strlit("accessible-for-notify");
    reveal_strlit("write-only");
    reveal_strlit("not-implemented");
    reveal_strlit("current");
    reveal_strlit("deprecated");
    reveal_strlit("obsolete");
    reveal_strlit("mandatory");
    reveal_strlit("optional");
    reveal_strlit("ABSENT");
    reveal_strlit("ANY");
    reveal_strlit("BOOLEAN");
    reveal_strlit("BY");
    reveal_strlit("CLASS");
    reveal_strlit("COMPONENT");
    reveal_strlit("COMPONENTS");
    reveal_strlit("DEFAULT");
    reveal_strlit("DEFINED");
    reveal_strlit("ENUMERATED");
    reveal_strlit("EXPLICIT");
    reveal_strlit("EXTERNAL");
    reveal_strlit("FALSE");
    reveal_strlit("MAX");
    reveal_strlit("MIN");
    reveal_strlit("MINUS-INFINITY");
    reveal_strlit("NULL");
    reveal_strlit("OPTIONAL");
    reveal_strlit("PLUS-INFINITY");
    reveal_strlit("PRESENT");
    reveal_strlit("PRIVATE");
    reveal_strlit("REAL");
    reveal_strlit("SET");
    reveal_strlit("TAGS");
    reveal_strlit("TRUE");
    reveal_strlit("WITH");
    assert forall|w: Seq<char>| decode_utf8(#[trigger] encode_utf8(w)) == w by {
        vstd::utf8::encode_utf8_decode_utf8(w);
    }
    match k {
        TokenKind::KwIdentifier => {
            assert("IDENTIFIER"@.len() == 10);
            assert("IDENTIFIER"@[0] == 'I');
            assert("IDENTIFIER"@[1] == 'D');
            assert("IDENTIFIER"@[2] == 'E');
            assert("IDENTIFIER"@[3] == 'N');
            assert("IDENTIFIER"@[4] == 'T');
            assert("IDENTIFIER"@[5] == 'I');
            assert("IDENTIFIER"@[6] == 'F');
            assert("IDENTIFIER"@[7] == 'I');
            assert("IDENTIFIER"@[8] == 'E');
            assert("IDENTIFIER"@[9] == 'R');
            assert(spec_keyword("IDENTIFIER".spec_bytes()) == Some(TokenKind::KwIdentifier));
        },
        TokenKind::KwObjectType => {
            assert("OBJECT-TYPE"@.len() == 11);
            assert("OBJECT-TYPE"@[0] == 'O');
            assert("OBJECT-TYPE"@[1] == 'B');
            assert("OBJECT-TYPE"@[2] == 'J');
            assert("OBJECT-TYPE"@[3] == 'E');
            assert("OBJECT-TYPE"@[4] == 'C');
            assert("OBJECT-TYPE"@[5] == 'T');
            assert("OBJECT-TYPE"@[6] == '-');
            assert("OBJECT-TYPE"@[7] == 'T');
            assert("OBJECT-TYPE"@[8] == 'Y');
            assert("OBJECT-TYPE"@[9] == 'P');
            assert("OBJECT-TYPE"@[10] == 'E');
            assert(spec_keyword("OBJECT-TYPE".spec_bytes()) == Some(TokenKind::KwObjectType));
        },
        TokenKind::KwModuleIdentity => {
            assert("MODULE-IDENTITY"@.len() == 15);
            assert("MODULE-IDENTITY"@[0] == 'M');
            assert("MODULE-IDENTITY"@[1] == 'O');
            assert("MODULE-IDENTITY"@[2] == 'D');
            assert("MODULE-IDENTITY"@[3] == 'U');
            assert("MODULE-IDENTITY"@[4] == 'L');
            assert("MODULE-IDENTITY"@[5] == 'E');
            assert("MODULE-IDENTITY"@[6] == '-');
            assert("MODULE-IDENTITY"@[7] == 'I');
            assert("MODULE-IDENTITY"@[8] == 'D');
            assert("MODULE-IDENTITY"@[9] == 'E');
            assert("MODULE-IDENTITY"@[10] == 'N');
            assert("MODULE-IDENTITY"@[11] == 'T');
            assert("MODULE-IDENTITY"@[12] == 'I');
            assert("MODULE-IDENTITY"@[13] == 'T');
            assert("MODULE-IDENTITY"@[14] == 'Y');
            assert(spec_keyword("MODULE-IDENTITY".spec_bytes()) == Some(TokenKind::KwModuleIdentity));
        },
        TokenKind::KwObjectIdentity => {
            assert("OBJECT-IDENTITY"@.len() == 15);
            assert("OBJECT-IDENTITY"@[0] == 'O');
            assert("OBJECT-IDENTITY"@[1] == 'B');
            assert("OBJECT-IDENTITY"@[2] == 'J');
            assert("OBJECT-IDENTITY"@[3] == 'E');
            assert("OBJECT-IDENTITY"@[4] == 'C');
            assert("OBJECT-IDENTITY"@[5] == 'T');
            assert("OBJECT-IDENTITY"@[6] == '-');
            assert("OBJECT-IDENTITY"@[7] == 'I');
            assert("OBJECT-IDENTITY"@[8] == 'D');
            assert("OBJECT-IDENTITY"@[9] == 'E');
            assert("OBJECT-IDENTITY"@[10] == 'N');
            assert("OBJECT-IDENTITY"@[11] == 'T');
            assert("OBJECT-IDENTITY"@[12] == 'I');
            assert("OBJECT-IDENTITY"@[13] == 'T');
            assert("OBJECT-IDENTITY"@[14] == 'Y');
            assert(spec_keyword("OBJECT-IDENTITY".spec_bytes()) == Some(TokenKind::KwObjectIdentity));
        },
        TokenKind::KwNotificationType => {
            assert("NOTIFICATION-TYPE"@.len() == 17);
            assert("NOTIFICATION-TYPE"@[0] == 'N');
            assert("NOTIFICATION-TYPE"@[1] == 'O');
            assert("NOTIFICATION-TYPE"@[2] == 'T');
            assert("NOTIFICATION-TYPE"@[3] == 'I');
            assert("NOTIFICATION-TYPE"@[4] == 'F');
            assert("NOTIFICATION-TYPE"@[5] == 'I');
            assert("NOTIFICATION-TYPE"@[6] == 'C');
            assert("NOTIFICATION-TYPE"@[7] == 'A');
            assert("NOTIFICATION-TYPE"@[8] == 'T');
            assert("NOTIFICATION-TYPE"@[9] == 'I');
            assert("NOTIFICATION-TYPE"@[10] == 'O');
            assert("NOTIFICATION-TYPE"@[11] == 'N');
            assert("NOTIFICATION-TYPE"@[12] == '-');
            assert("NOTIFICATION-TYPE"@[13] == 'T');
            assert("NOTIFICATION-TYPE"@[14] == 'Y');
            assert("NOTIFICATION-TYPE"@[15] == 'P');
            assert("NOTIFICATION-TYPE"@[16] == 'E');
            assert(spec_keyword("NOTIFICATION-TYPE".spec_bytes()) == Some(TokenKind::KwNotificationType));
        },
        TokenKind::KwTrapType => {
            assert("TRAP-TYPE"@.len() == 9);
            assert("TRAP-TYPE"@[0] == 'T');
            assert("TRAP-TYPE"@[1] == 'R');
            assert("TRAP-TYPE"@[2] == 'A');
            assert("TRAP-TYPE"@[3] == 'P');
            assert("TRAP-TYPE"@[4] == '-');
            assert("TRAP-TYPE"@[5] == 'T');
            assert("TRAP-TYPE"@[6] == 'Y');
            assert("TRAP-TYPE"@[7] == 'P');
            assert("TRAP-TYPE"@[8] == 'E');
            assert(spec_keyword("TRAP-TYPE".spec_bytes()) == Some(TokenKind::KwTrapType));
        },
        TokenKind::KwTextualConvention => {
            assert("TEXTUAL-CONVENTION"@.len() == 18);
            assert("TEXTUAL-CONVENTION"@[0] == 'T');
            assert("TEXTUAL-CONVENTION"@[1] == 'E');
            assert("TEXTUAL-CONVENTION"@[2] == 'X');
            assert("TEXTUAL-CONVENTION"@[3] == 'T');
            assert("TEXTUAL-CONVENTION"@[4] == 'U');
            assert("TEXTUAL-CONVENTION"@[5] == 'A');
            assert("TEXTUAL-CONVENTION"@[6] == 'L');
            assert("TEXTUAL-CONVENTION"@[7] == '-');
            assert("TEXTUAL-CONVENTION"@[8] == 'C');
            assert("TEXTUAL-CONVENTION"@[9] == 'O');
            assert("TEXTUAL-CONVENTION"@[10] == 'N');
            assert("TEXTUAL-CONVENTION"@[11] == 'V');
            assert("TEXTUAL-CONVENTION"@[12] == 'E');
            assert("TEXTUAL-CONVENTION"@[13] == 'N');
            assert("TEXTUAL-CONVENTION"@[14] == 'T');
            assert("TEXTUAL-CONVENTION"@[15] == 'I');
            assert("TEXTUAL-CONVENTION"@[16] == 'O');
            assert("TEXTUAL-CONVENTION"@[17] == 'N');
            assert(spec_keyword("TEXTUAL-CONVENTION".spec_bytes()) == Some(TokenKind::KwTextualConvention));
        },
        TokenKind::KwObjectGroup => {
            assert("OBJECT-GROUP"@.len() == 12);
            assert("OBJECT-GROUP"@[0] == 'O');
            assert("OBJECT-GROUP"@[1] == 'B');
            assert("OBJECT-GROUP"@[2] == 'J');
            assert("OBJECT-GROUP"@[3] == 'E');
            assert("OBJECT-GROUP"@[4] == 'C');
            assert("OBJECT-GROUP"@[5] == 'T');
            assert("OBJECT-GROUP"@[6] == '-');
            assert("OBJECT-GROUP"@[7] == 'G');
            assert("OBJECT-GROUP"@[8] == 'R');
            assert("OBJECT-GROUP"@[9] == 'O');
            assert("OBJECT-GROUP"@[10] == 'U');
            assert("OBJECT-GROUP"@[11] == 'P');
            assert(spec_keyword("OBJECT-GROUP".spec_bytes()) == Some(TokenKind::KwObjectGroup));
        },
        _ => {},
    }
}

#[verifier::rlimit(100)]
#[verifier::spinoff_prover]
proof fn lemma_keyword_spellings_2(k: TokenKind)
    requires
        k == TokenKind::KwNotificationGroup || k == TokenKind::KwModuleCompliance || k == TokenKind::KwAgentCapabilities || k == TokenKind::KwSyntax || k == TokenKind::KwWriteSyntax || k == TokenKind::KwUnits || k == TokenKind::KwMaxAccess || k == TokenKind::KwAccess,
    ensures
        spec_keyword(k.spec_display_name().spec_bytes()) == Some(k),
{
    reveal(spec_keyword);
    reveal_strlit("DEFINITIONS");
    reveal_strlit("BEGIN");
    reveal_strlit("END");
    reveal_strlit("IMPORTS");
    reveal_strlit("EXPORTS");
    reveal_strlit("FROM");
    reveal_strlit("MACRO");
    reveal_strlit("OBJECT");
    reveal_strlit("IDENTIFIER");
    reveal_strlit("OBJECT-TYPE");
    reveal_strlit("MODULE-IDENTITY");
    reveal_strlit("OBJECT-IDENTITY");
    reveal_strlit("NOTIFICATION-TYPE");
    reveal_strlit("TRAP-TYPE");
    reveal_strlit("TEXTUAL-CONVENTION");
    reveal_strlit("OBJECT-GROUP");
    reveal_strlit("NOTIFICATION-GROUP");
    reveal_strlit("MODULE-COMPLIANCE");
    reveal_strlit("AGENT-CAPABILITIES");
    reveal_strlit("SYNTAX");
    reveal_strlit("WRITE-SYNTAX");
    reveal_strlit("UNITS");
    reveal_strlit("MAX-ACCESS");
    reveal_strlit("ACCESS");
    reveal_strlit("MIN-ACCESS");
    reveal_strlit("STATUS");
    reveal_strlit("DESCRIPTION");
    reveal_strlit("REFERENCE");
    reveal_strlit("INDEX");
    reveal_strlit("AUGMENTS");
    reveal_strlit("DEFVAL");
    reveal_strlit("IMPLIED");
    reveal_strlit("LAST-UPDATED");
    reveal_strlit("ORGANIZATION");
    reveal_strlit("CONTACT-INFO");
    reveal_strlit("REVISION");
    reveal_strlit("OBJECTS");
    reveal_strlit("NOTIFICATIONS");
    reveal_strlit("ENTERPRISE");
    reveal_strlit("VARIABLES");
    reveal_strlit("DISPLAY-HINT");
    reveal_strlit("MODULE");
    reveal_strlit("MANDATORY-GROUPS");
    reveal_strlit("GROUP");
    reveal_strlit("PRODUCT-RELEASE");
    reveal_strlit("SUPPORTS");
    reveal_strlit("INCLUDES");
    reveal_strlit("VARIATION");
    reveal_strlit("CREATION-REQUIRES");
    reveal_strlit("INTEGER");
    reveal_strlit("BITS");
    reveal_strlit("OCTET");
    reveal_strlit("STRING");
    reveal_strlit("SEQUENCE");
    reveal_strlit("OF");
    reveal_strlit("CHOICE");
    reveal_strlit("SIZE");
    reveal_strlit("APPLICATION");
    reveal_strlit("UNIVERSAL");
    reveal_strlit("IMPLICIT");
    reveal_strlit("Counter32");
    reveal_strlit("Counter64");
    reveal_strlit("Gauge32");
    reveal_strlit("Unsigned32");
    reveal_strlit("TimeTicks");
    reveal_strlit("IpAddress");
    reveal_strlit("Opaque");
    reveal_strlit("Counter");
    reveal_strlit("Gauge");
    reveal_strlit("NetworkAddress");
    reveal_strlit("read-only");
    reveal_strlit("read-write");
    reveal_strlit("read-create");
    reveal_strlit("not-accessible");
    reveal_strlit("accessible-for-notify");
    reveal_strlit("write-only");
    reveal_strlit("not-implemented");
    reveal_strlit("current");
    reveal_strlit("deprecated");
    reveal_strlit("obsolete");
    reveal_strlit("mandatory");
    reveal_strlit("optional");
    reveal_strlit("ABSENT");
    reveal_strlit("ANY");
    reveal_strlit("BOOLEAN");
    reveal_strlit("BY");
    reveal_strlit("CLASS");
    reveal_strlit("COMPONENT");
    reveal_strlit("COMPONENTS");
    reveal_strlit("DEFAULT");
    reveal_strlit("DEFINED");
    reveal_strlit("ENUMERATED");
    reveal_strlit("EXPLICIT");
    reveal_strlit("EXTERNAL");
    reveal_strlit("FALSE");
    reveal_strlit("MAX");
    reveal_strlit("MIN");
    reveal_strlit("MINUS-INFINITY");
    reveal_strlit("NULL");
    reveal_strlit("OPTIONAL");
    reveal_strlit("PLUS-INFINITY");
    reveal_strlit("PRESENT");
    reveal_strlit("PRIVATE");
    reveal_strlit("REAL");
    reveal_strlit("SET");
    reveal_strlit("TAGS");
    reveal_strlit("TRUE");
    reveal_strlit("WITH");
    assert forall|w: Seq<char>| decode_utf8(#[trigger] encode_utf8(w)) == w by {
        vstd::utf8::encode_utf8_decode_utf8(w);
    }
    match k {
        TokenKind::KwNotificationGroup => {
            assert("NOTIFICATION-GROUP"@.len() == 18);
            assert("NOTIFICATION-GROUP"@[0] == 'N');
            assert("NOTIFICATION-GROUP"@[1] == 'O');
            assert("NOTIFICATION-GROUP"@[2] == 'T');
            assert("NOTIFICATION-GROUP"@[3] == 'I');
            assert("NOTIFICATION-GROUP"@[4] == 'F');
            assert("NOTIFICATION-GROUP"@[5] == 'I');
            assert("NOTIFICATION-GROUP"@[6] == 'C');
            assert("NOTIFICATION-GROUP"@[7] == 'A');
            assert("NOTIFICATION-GROUP"@[8] == 'T');
            assert("NOTIFICATION-GROUP"@[9] == 'I');
            assert("NOTIFICATION-GROUP"@[10] == 'O');
            assert("NOTIFICATION-GROUP"@[11] == 'N');
            assert("NOTIFICATION-GROUP"@[12] == '-');
            assert("NOTIFICATION-GROUP"@[13] == 'G');
            assert("NOTIFICATION-GROUP"@[14] == 'R');
            assert("NOTIFICATION-GROUP"@[15] == 'O');
            assert("NOTIFICATION-GROUP"@[16] == 'U');
            assert("NOTIFICATION-GROUP"@[17] == 'P');
            assert(spec_keyword("NOTIFICATION-GROUP".spec_bytes()) == Some(TokenKind::KwNotificationGroup));
        },
        TokenKind::KwModuleCompliance => {
            assert("MODULE-COMPLIANCE"@.len() == 17);
            assert("MODULE-COMPLIANCE"@[0] == 'M');
            assert("MODULE-COMPLIANCE"@[1] == 'O');
            assert("MODULE-COMPLIANCE"@[2] == 'D');
            assert("MODULE-COMPLIANCE"@[3] == 'U');
            assert("MODULE-COMPLIANCE"@[4] == 'L');
            assert("MODULE-COMPLIANCE"@[5] == 'E');
            assert("MODULE-COMPLIANCE"@[6] == '-');
            assert("MODULE-COMPLIANCE"@[7] == 'C');
            assert("MODULE-COMPLIANCE"@[8] == 'O');
            assert("MODULE-COMPLIANCE"@[9] == 'M');
            assert("MODULE-COMPLIANCE"@[10] == 'P');
            assert("MODULE-COMPLIANCE"@[11] == 'L');
            assert("MODULE-COMPLIANCE"@[12] == 'I');
            assert("MODULE-COMPLIANCE"@[13] == 'A');
            assert("MODULE-COMPLIANCE"@[14] == 'N');
            assert("MODULE-COMPLIANCE"@[15] == 'C');
            assert("MODULE-COMPLIANCE"@[16] == 'E');
            assert(spec_keyword("MODULE-COMPLIANCE".spec_bytes()) == Some(TokenKind::KwModuleCompliance));
        },
        TokenKind::KwAgentCapabilities => {
            assert("AGENT-CAPABILITIES"@.len() == 18);
            assert("AGENT-CAPABILITIES"@[0] == 'A');
            assert("AGENT-CAPABILITIES"@[1] == 'G');
            assert("AGENT-CAPABILITIES"@[2] == 'E');
            assert("AGENT-CAPABILITIES"@[3] == 'N');
            assert("AGENT-CAPABILITIES"@[4] == 'T');
            assert("AGENT-CAPABILITIES"@[5] == '-');
            assert("AGENT-CAPABILITIES"@[6] == 'C');
            assert("AGENT-CAPABILITIES"@[7] == 'A');
            assert("AGENT-CAPABILITIES"@[8] == 'P');
            assert("AGENT-CAPABILITIES"@[9] == 'A');
            assert("AGENT-CAPABILITIES"@[10] == 'B');
            assert("AGENT-CAPABILITIES"@[11] == 'I');
            assert("AGENT-CAPABILITIES"@[12] == 'L');
            assert("AGENT-CAPABILITIES"@[13] == 'I');
            assert("AGENT-CAPABILITIES"@[14] == 'T');
            assert("AGENT-CAPABILITIES"@[15] == 'I');
            assert("AGENT-CAPABILITIES"@[16] == 'E');
            assert("AGENT-CAPABILITIES"@[17] == 'S');
            assert(spec_keyword("AGENT-CAPABILITIES".spec_bytes()) == Some(TokenKind::KwAgentCapabilities));
        },
        TokenKind::KwSyntax => {
            assert("SYNTAX"@.len() == 6);
            assert("SYNTAX"@[0] == 'S');
            assert("SYNTAX"@[1] == 'Y');
            assert("SYNTAX"@[2] == 'N');
            assert("SYNTAX"@[3] == 'T');
            assert("SYNTAX"@[4] == 'A');
            assert("SYNTAX"@[5] == 'X');
            assert(spec_keyword("SYNTAX".spec_bytes()) == Some(TokenKind::KwSyntax));
        },
        TokenKind::KwWriteSyntax => {
            assert("WRITE-SYNTAX"@.len() == 12);
            assert("WRITE-SYNTAX"@[0] == 'W');
            assert("WRITE-SYNTAX"@[1] == 'R');
            assert("WRITE-SYNTAX"@[2] == 'I');
            assert("WRITE-SYNTAX"@[3] == 'T');
            assert("WRITE-SYNTAX"@[4] == 'E');
            assert("WRITE-SYNTAX"@[5] == '-');
            assert("WRITE-SYNTAX"@[6] == 'S');
            assert("WRITE-SYNTAX"@[7] == 'Y');
            assert("WRITE-SYNTAX"@[8] == 'N');
            assert("WRITE-SYNTAX"@[9] == 'T');
            assert("WRITE-SYNTAX"@[10] == 'A');
            assert("WRITE-SYNTAX"@[11] == 'X');
            assert(spec_keyword("WRITE-SYNTAX".spec_bytes()) == Some(TokenKind::KwWriteSyntax));
        },
        TokenKind::KwUnits => {
            assert("UNITS"@.len() == 5);
            assert("UNITS"@[0] == 'U');
            assert("UNITS"@[1] == 'N');
            assert("UNITS"@[2] == 'I');
            assert("UNITS"@[3] == 'T');
            assert("UNITS"@[4] == 'S');
            assert(spec_keyword("UNITS".spec_bytes()) == Some(TokenKind::KwUnits));
        },
        TokenKind::KwMaxAccess => {
            assert("MAX-ACCESS"@.len() == 10);
            assert("MAX-ACCESS"@[0] == 'M');
            assert("MAX-ACCESS"@[1] == 'A');
            assert("MAX-ACCESS"@[2] == 'X');
            assert("MAX-ACCESS"@[3] == '-');
            assert("MAX-ACCESS"@[4] == 'A');
            assert("MAX-ACCESS"@[5] == 'C');
            assert("MAX-ACCESS"@[6] == 'C');
            assert("MAX-ACCESS"@[7] == 'E');
            assert("MAX-ACCESS"@[8] == 'S');
            assert("MAX-ACCESS"@[9] == 'S');
            assert(spec_keyword("MAX-ACCESS".spec_bytes()) == Some(TokenKind::KwMaxAccess));
        },
        TokenKind::KwAccess => {
            assert("ACCESS"@.len() == 6);
            assert("ACCESS"@[0] == 'A');
            assert("ACCESS"@[1] == 'C');
            assert("ACCESS"@[2] == 'C');
            assert("ACCESS"@[3] == 'E');
            assert("ACCESS"@[4] == 'S');
            assert("ACCESS"@[5] == 'S');
            assert(spec_keyword("ACCESS".spec_bytes()) == Some(TokenKind::KwAccess));
        },
        _ => {},
    }
}

#[verifier::rlimit(100)]
#[verifier::spinoff_prover]
proof fn lemma_keyword_spellings_3(k: TokenKind)
    requires
        k == TokenKind::KwMinAccess || k == TokenKind::KwStatus || k == TokenKind::KwDescription || k == TokenKind::KwReference || k == TokenKind::KwIndex || k == TokenKind::KwAugments || k == TokenKind::KwDefval || k == TokenKind::KwImplied,
    ensures
        spec_keyword(k.spec_display_name().spec_bytes()) == Some(k),
{
    reveal(spec_keyword);
    reveal_strlit("DEFINITIONS");
    reveal_strlit("BEGIN");
    reveal_strlit("END");
    reveal_strlit("IMPORTS");
    reveal_strlit("EXPORTS");
    reveal_strlit("FROM");
    reveal_strlit("MACRO");
    reveal_strlit("OBJECT");
    reveal_strlit("IDENTIFIER");
    reveal_strlit("OBJECT-TYPE");
    reveal_strlit("MODULE-IDENTITY");
    reveal_strlit("OBJECT-IDENTITY");
    reveal_strlit("NOTIFICATION-TYPE");
    reveal_strlit("TRAP-TYPE");
    reveal_strlit("TEXTUAL-CONVENTION");
    reveal_strlit("OBJECT-GROUP");
    reveal_strlit("NOTIFICATION-GROUP");
    reveal_strlit("MODULE-COMPLIANCE");
    reveal_strlit("AGENT-CAPABILITIES");
    reveal_strlit("SYNTAX");
    reveal_strlit("WRITE-SYNTAX");
    reveal_strlit("UNITS");
    reveal_strlit("MAX-ACCESS");
    reveal_strlit("ACCESS");
    reveal_strlit("MIN-ACCESS");
    reveal_strlit("STATUS");
    reveal_strlit("DESCRIPTION");
    reveal_strlit("REFERENCE");
    reveal_strlit("INDEX");
    reveal_strlit("AUGMENTS");
    reveal_strlit("DEFVAL");
    reveal_strlit("IMPLIED");
    reveal_strlit("LAST-UPDATED");
    reveal_strlit("ORGANIZATION");
    reveal_strlit("CONTACT-INFO");
    reveal_strlit("REVISION");
    reveal_strlit("OBJECTS");
    reveal_strlit("NOTIFICATIONS");
    reveal_strlit("ENTERPRISE");
    reveal_strlit("VARIABLES");
    reveal_strlit("DISPLAY-HINT");
    reveal_strlit("MODULE");
    reveal_strlit("MANDATORY-GROUPS");
    reveal_strlit("GROUP");
    reveal_strlit("PRODUCT-RELEASE");
    reveal_strlit("SUPPORTS");
    reveal_strlit("INCLUDES");
    reveal_strlit("VARIATION");
    reveal_strlit("CREATION-REQUIRES");
    reveal_strlit("INTEGER");
    reveal_strlit("BITS");
    reveal_strlit("OCTET");
    reveal_strlit("STRING");
    reveal_strlit("SEQUENCE");
    reveal_strlit("OF");
    reveal_strlit("CHOICE");
    reveal_strlit("SIZE");
    reveal_strlit("APPLICATION");
    reveal_strlit("UNIVERSAL");
    reveal_strlit("IMPLICIT");
    reveal_strlit("Counter32");
    reveal_strlit("Counter64");
    reveal_strlit("Gauge32");
    reveal_strlit("Unsigned32");
    reveal_strlit("TimeTicks");
    reveal_strlit("IpAddress");
    reveal_strlit("Opaque");
    reveal_strlit("Counter");
    reveal_strlit("Gauge");
    reveal_strlit("NetworkAddress");
    reveal_strlit("read-only");
    reveal_strlit("read-write");
    reveal_strlit("read-create");
    reveal_strlit("not-accessible");
    reveal_strlit("accessible-for-notify");
    reveal_strlit("write-only");
    reveal_strlit("not-implemented");
    reveal_strlit("current");
    reveal_strlit("deprecated");
    reveal_strlit("obsolete");
    reveal_strlit("mandatory");
    reveal_strlit("optional");
    reveal_strlit("ABSENT");
    reveal_strlit("ANY");
    reveal_strlit("BOOLEAN");
    reveal_strlit("BY");
    reveal_strlit("CLASS");
    reveal_strlit("COMPONENT");
    reveal_strlit("COMPONENTS");
    reveal_strlit("DEFAULT");
    reveal_strlit("DEFINED");
    reveal_strlit("ENUMERATED");
    reveal_strlit("EXPLICIT");
    reveal_strlit("EXTERNAL");
    reveal_strlit("FALSE");
    reveal_strlit("MAX");
    reveal_strlit("MIN");
    reveal_strlit("MINUS-INFINITY");
    reveal_strlit("NULL");
    reveal_strlit("OPTIONAL");
    reveal_strlit("PLUS-INFINITY");
    reveal_strlit("PRESENT");
    reveal_strlit("PRIVATE");
    reveal_strlit("REAL");
    reveal_strlit("SET");
    reveal_strlit("TAGS");
    reveal_strlit("TRUE");
    reveal_strlit("WITH");
    assert forall|w: Seq<char>| decode_utf8(#[trigger] encode_utf8(w)) == w by {
        vstd::utf8::encode_utf8_decode_utf8(w);
    }
    match k {
        TokenKind::KwMinAccess => {
            assert("MIN-ACCESS"@.len() == 10);
            assert("MIN-ACCESS"@[0] == 'M');
            assert("MIN-ACCESS"@[1] == 'I');
            assert("MIN-ACCESS"@[2] == 'N');
            assert("MIN-ACCESS"@[3] == '-');
            assert("MIN-ACCESS"@[4] == 'A');
            assert("MIN-ACCESS"@[5] == 'C');
            assert("MIN-ACCESS"@[6] == 'C');
            assert("MIN-ACCESS"@[7] == 'E');
            assert("MIN-ACCESS"@[8] == 'S');
            assert("MIN-ACCESS"@[9] == 'S');
            assert(spec_keyword("MIN-ACCESS".spec_bytes()) == Some(TokenKind::KwMinAccess));
        },
        TokenKind::KwStatus => {
            assert("STATUS"@.len() == 6);
            assert("STATUS"@[0] == 'S');
            assert("STATUS"@[1] == 'T');
            assert("STATUS"@[2] == 'A');
            assert("STATUS"@[3] == 'T');
            assert("STATUS"@[4] == 'U');
            assert("STATUS"@[5] == 'S');
            assert(spec_keyword("STATUS".spec_bytes()) == Some(TokenKind::KwStatus));
        },
        TokenKind::KwDescription => {
            assert("DESCRIPTION"@.len() == 11);
            assert("DESCRIPTION"@[0] == 'D');
            assert("DESCRIPTION"@[1] == 'E');
            assert("DESCRIPTION"@[2] == 'S');
            assert("DESCRIPTION"@[3] == 'C');
            assert("DESCRIPTION"@[4] == 'R');
            assert("DESCRIPTION"@[5] == 'I');
            assert("DESCRIPTION"@[6] == 'P');
            assert("DESCRIPTION"@[7] == 'T');
            assert("DESCRIPTION"@[8] == 'I');
            assert("DESCRIPTION"@[9] == 'O');
            assert("DESCRIPTION"@[10] == 'N');
            assert(spec_keyword("DESCRIPTION".spec_bytes()) == Some(TokenKind::KwDescription));
        },
        TokenKind::KwReference => {
            assert("REFERENCE"@.len() == 9);
            assert("REFERENCE"@[0] == 'R');
            assert("REFERENCE"@[1] == 'E');
            assert("REFERENCE"@[2] == 'F');
            assert("REFERENCE"@[3] == 'E');
            assert("REFERENCE"@[4] == 'R');
            assert("REFERENCE"@[5] == 'E');
            assert("REFERENCE"@[6] == 'N');
            assert("REFERENCE"@[7] == 'C');
            assert("REFERENCE"@[8] == 'E');
            assert(spec_keyword("REFERENCE".spec_bytes()) == Some(TokenKind::KwReference));
        },
        TokenKind::KwIndex => {
            assert("INDEX"@.len() == 5);
            assert("INDEX"@[0] == 'I');
            assert("INDEX"@[1] == 'N');
            assert("INDEX"@[2] == 'D');
            assert("INDEX"@[3] == 'E');
            assert("INDEX"@[4] == 'X');
            assert(spec_keyword("INDEX".spec_bytes()) == Some(TokenKind::KwIndex));
        },
        TokenKind::KwAugments => {
            assert("AUGMENTS"@.len() == 8);
            assert("AUGMENTS"@[0] == 'A');
            assert("AUGMENTS"@[1] == 'U');
            assert("AUGMENTS"@[2] == 'G');
            assert("AUGMENTS"@[3] == 'M');
            assert("AUGMENTS"@[4] == 'E');
            assert("AUGMENTS"@[5] == 'N');
            assert("AUGMENTS"@[6] == 'T');
            assert("AUGMENTS"@[7] == 'S');
            assert(spec_keyword("AUGMENTS".spec_bytes()) == Some(TokenKind::KwAugments));
        },
        TokenKind::KwDefval => {
            assert("DEFVAL"@.len() == 6);
            assert("DEFVAL"@[0] == 'D');
            assert("DEFVAL"@[1] == 'E');
            assert("DEFVAL"@[2] == 'F');
            assert("DEFVAL"@[3] == 'V');
            assert("DEFVAL"@[4] == 'A');
            assert("DEFVAL"@[5] == 'L');
            assert(spec_keyword("DEFVAL".spec_bytes()) == Some(TokenKind::KwDefval));
        },
        TokenKind::KwImplied => {
            assert("IMPLIED"@.len() == 7);
            assert("IMPLIED"@[0] == 'I');
            assert("IMPLIED"@[1] == 'M');
            assert("IMPLIED"@[2] == 'P');
            assert("IMPLIED"@[3] == 'L');
            assert("IMPLIED"@[4] == 'I');
            assert("IMPLIED"@[5] == 'E');
            assert("IMPLIED"@[6] == 'D');
            assert(spec_keyword("IMPLIED".spec_bytes()) == Some(TokenKind::KwImplied));
        },
        _ => {},
    }
}

#[verifier::rlimit(100)]
#[verifier::spinoff_prover]
proof fn lemma_keyword_spellings_4(k: TokenKind)
    requires
        k == TokenKind::KwLastUpdated || k == TokenKind::KwOrganization || k == TokenKind::KwContactInfo || k == TokenKind::KwRevision || k == TokenKind::KwObjects || k == TokenKind::KwNotifications || k == TokenKind::KwEnterprise || k == TokenKind::KwVariables,
    ensures
        spec_keyword(k.spec_display_name().spec_bytes()) == Some(k),
{
    reveal(spec_keyword);
    reveal_strlit("DEFINITIONS");
    reveal_strlit("BEGIN");
    reveal_strlit("END");
    reveal_strlit("IMPORTS");
    reveal_strlit("EXPORTS");
    reveal_strlit("FROM");
    reveal_strlit("MACRO");
    reveal_strlit("OBJECT");
    reveal_strlit("IDENTIFIER");
    reveal_strlit("OBJECT-TYPE");
    reveal_strlit("MODULE-IDENTITY");
    reveal_strlit("OBJECT-IDENTITY");
    reveal_strlit("NOTIFICATION-TYPE");
    reveal_strlit("TRAP-TYPE");
    reveal_strlit("TEXTUAL-CONVENTION");
    reveal_strlit("OBJECT-GROUP");
    reveal_strlit("NOTIFICATION-GROUP");
    reveal_strlit("MODULE-COMPLIANCE");
    reveal_strlit("AGENT-CAPABILITIES");
    reveal_strlit("SYNTAX");
    reveal_strlit("WRITE-SYNTAX");
    reveal_strlit("UNITS");
    reveal_strlit("MAX-ACCESS");
    reveal_strlit("ACCESS");
    reveal_strlit("MIN-ACCESS");
    reveal_strlit("STATUS");
    reveal_strlit("DESCRIPTION");
    reveal_strlit("REFERENCE");
    reveal_strlit("INDEX");
    reveal_strlit("AUGMENTS");
    reveal_strlit("DEFVAL");
    reveal_strlit("IMPLIED");
    reveal_strlit("LAST-UPDATED");
    reveal_strlit("ORGANIZATION");
    reveal_strlit("CONTACT-INFO");
    reveal_strlit("REVISION");
    reveal_strlit("OBJECTS");
    reveal_strlit("NOTIFICATIONS");
    reveal_strlit("ENTERPRISE");
    reveal_strlit("VARIABLES");
    reveal_strlit("DISPLAY-HINT");
    reveal_strlit("MODULE");
    reveal_strlit("MANDATORY-GROUPS");
    reveal_strlit("GROUP");
    reveal_strlit("PRODUCT-RELEASE");
    reveal_strlit("SUPPORTS");
    reveal_strlit("INCLUDES");
    reveal_strlit("VARIATION");
    reveal_strlit("CREATION-REQUIRES");
    reveal_strlit("INTEGER");
    reveal_strlit("BITS");
    reveal_strlit("OCTET");
    reveal_strlit("STRING");
    reveal_strlit("SEQUENCE");
    reveal_strlit("OF");
    reveal_strlit("CHOICE");
    reveal_strlit("SIZE");
    reveal_strlit("APPLICATION");
    reveal_strlit("UNIVERSAL");
    reveal_strlit("IMPLICIT");
    reveal_strlit("Counter32");
    reveal_strlit("Counter64");
    reveal_strlit("Gauge32");
    reveal_strlit("Unsigned32");
    reveal_strlit("TimeTicks");
    reveal_strlit("IpAddress");
    reveal_strlit("Opaque");
    reveal_strlit("Counter");
    reveal_strlit("Gauge");
    reveal_strlit("NetworkAddress");
    reveal_strlit("read-only");
    reveal_strlit("read-write");
    reveal_strlit("read-create");
    reveal_strlit("not-accessible");
    reveal_strlit("accessible-for-notify");
    reveal_strlit("write-only");
    reveal_strlit("not-implemented");
    reveal_strlit("current");
    reveal_strlit("deprecated");
    reveal_strlit("obsolete");
    reveal_strlit("mandatory");
    reveal_strlit("optional");
    reveal_strlit("ABSENT");
    reveal_strlit("ANY");
    reveal_strlit("BOOLEAN");
    reveal_strlit("BY");
    reveal_strlit("CLASS");
    reveal_strlit("COMPONENT");
    reveal_strlit("COMPONENTS");
    reveal_strlit("DEFAULT");
    reveal_strlit("DEFINED");
    reveal_strlit("ENUMERATED");
    reveal_strlit("EXPLICIT");
    reveal_strlit("EXTERNAL");
    reveal_strlit("FALSE");
    reveal_strlit("MAX");
    reveal_strlit("MIN");
    reveal_strlit("MINUS-INFINITY");
    reveal_strlit("NULL");
    reveal_strlit("OPTIONAL");
    reveal_strlit("PLUS-INFINITY");
    reveal_strlit("PRESENT");
    reveal_strlit("PRIVATE");
    reveal_strlit("REAL");
    reveal_strlit("SET");
    reveal_strlit("TAGS");
    reveal_strlit("TRUE");
    reveal_strlit("WITH");
    assert forall|w: Seq<char>| decode_utf8(#[trigger] encode_utf8(w)) == w by {
        vstd::utf8::encode_utf8_decode_utf8(w);
    }
    match k {
        TokenKind::KwLastUpdated => {
            assert("LAST-UPDATED"@.len() == 12);
            assert("LAST-UPDATED"@[0] == 'L');
            assert("LAST-UPDATED"@[1] == 'A');
            assert("LAST-UPDATED"@[2] == 'S');
            assert("LAST-UPDATED"@[3] == 'T');
            assert("LAST-UPDATED"@[4] == '-');
            assert("LAST-UPDATED"@[5] == 'U');
            assert("LAST-UPDATED"@[6] == 'P');
            assert("LAST-UPDATED"@[7] == 'D');
            assert("LAST-UPDATED"@[8] == 'A');
            assert("LAST-UPDATED"@[9] == 'T');
            assert("LAST-UPDATED"@[10] == 'E');
            assert("LAST-UPDATED"@[11] == 'D');
            assert(spec_keyword("LAST-UPDATED".spec_bytes()) == Some(TokenKind::KwLastUpdated));
        },
        TokenKind::KwOrganization => {
            assert("ORGANIZATION"@.len() == 12);
            assert("ORGANIZATION"@[0] == 'O');
            assert("ORGANIZATION"@[1] == 'R');
            assert("ORGANIZATION"@[2] == 'G');
            assert("ORGANIZATION"@[3] == 'A');
            assert("ORGANIZATION"@[4] == 'N');
            assert("ORGANIZATION"@[5] == 'I');
            assert("ORGANIZATION"@[6] == 'Z');
            assert("ORGANIZATION"@[7] == 'A');
            assert("ORGANIZATION"@[8] == 'T');
            assert("ORGANIZATION"@[9] == 'I');
            assert("ORGANIZATION"@[10] == 'O');
            assert("ORGANIZATION"@[11] == 'N');
            assert(spec_keyword("ORGANIZATION".spec_bytes()) == Some(TokenKind::KwOrganization));
        },
        TokenKind::KwContactInfo => {
            assert("CONTACT-INFO"@.len() == 12);
            assert("CONTACT-INFO"@[0] == 'C');
            assert("CONTACT-INFO"@[1] == 'O');
            assert("CONTACT-INFO"@[2] == 'N');
            assert("CONTACT-INFO"@[3] == 'T');
            assert("CONTACT-INFO"@[4] == 'A');
            assert("CONTACT-INFO"@[5] == 'C');
            assert("CONTACT-INFO"@[6] == 'T');
            assert("CONTACT-INFO"@[7] == '-');
            assert("CONTACT-INFO"@[8] == 'I');
            assert("CONTACT-INFO"@[9] == 'N');
            assert("CONTACT-INFO"@[10] == 'F');
            assert("CONTACT-INFO"@[11] == 'O');
            assert(spec_keyword("CONTACT-INFO".spec_bytes()) == Some(TokenKind::KwContactInfo));
        },
        TokenKind::KwRevision => {
            assert("REVISION"@.len() == 8);
            assert("REVISION"@[0] == 'R');
            assert("REVISION"@[1] == 'E');
            assert("REVISION"@[2] == 'V');
            assert("REVISION"@[3] == 'I');
            assert("REVISION"@[4] == 'S');
            assert("REVISION"@[5] == 'I');
            assert("REVISION"@[6] == 'O');
            assert("REVISION"@[7] == 'N');
            assert(spec_keyword("REVISION".spec_bytes()) == Some(TokenKind::KwRevision));
        },
        TokenKind::KwObjects => {
            assert("OBJECTS"@.len() == 7);
            assert("OBJECTS"@[0] == 'O');
            assert("OBJECTS"@[1] == 'B');
            assert("OBJECTS"@[2] == 'J');
            assert("OBJECTS"@[3] == 'E');
            assert("OBJECTS"@[4] == 'C');
            assert("OBJECTS"@[5] == 'T');
            assert("OBJECTS"@[6] == 'S');
            assert(spec_keyword("OBJECTS".spec_bytes()) == Some(TokenKind::KwObjects));
        },
        TokenKind::KwNotifications => {
            assert("NOTIFICATIONS"@.len() == 13);
            assert("NOTIFICATIONS"@[0] == 'N');
            assert("NOTIFICATIONS"@[1] == 'O');
            assert("NOTIFICATIONS"@[2] == 'T');
            assert("NOTIFICATIONS"@[3] == 'I');
            assert("NOTIFICATIONS"@[4] == 'F');
            assert("NOTIFICATIONS"@[5] == 'I');
            assert("NOTIFICATIONS"@[6] == 'C');
            assert("NOTIFICATIONS"@[7] == 'A');
            assert("NOTIFICATIONS"@[8] == 'T');
            assert("NOTIFICATIONS"@[9] == 'I');
            assert("NOTIFICATIONS"@[10] == 'O');
            assert("NOTIFICATIONS"@[11] == 'N');
            assert("NOTIFICATIONS"@[12] == 'S');
            assert(spec_keyword("NOTIFICATIONS".spec_bytes()) == Some(TokenKind::KwNotifications));
        },
        TokenKind::KwEnterprise => {
            assert("ENTERPRISE"@.len() == 10);
            assert("ENTERPRISE"@[0] == 'E');
            assert("ENTERPRISE"@[1] == 'N');
            assert("ENTERPRISE"@[2] == 'T');
            assert("ENTERPRISE"@[3] == 'E');
            assert("ENTERPRISE"@[4] == 'R');
            assert("ENTERPRISE"@[5] == 'P');
            assert("ENTERPRISE"@[6] == 'R');
            assert("ENTERPRISE"@[7] == 'I');
            assert("ENTERPRISE"@[8] == 'S');
            assert("ENTERPRISE"@[9] == 'E');
            assert(spec_keyword("ENTERPRISE".spec_bytes()) == Some(TokenKind::KwEnterprise));
        },
        TokenKind::KwVariables => {
            assert("VARIABLES"@.len() == 9);
            assert("VARIABLES"@[0] == 'V');
            assert("VARIABLES"@[1] == 'A');
            assert("VARIABLES"@[2] == 'R');
            assert("VARIABLES"@[3] == 'I');
            assert("VARIABLES"@[4] == 'A');
            assert("VARIABLES"@[5] == 'B');
            assert("VARIABLES"@[6] == 'L');
            assert("VARIABLES"@[7] == 'E');
            assert("VARIABLES"@[8] == 'S');
            assert(spec_keyword("VARIABLES".spec_bytes()) == Some(TokenKind::KwVariables));
        },
        _ => {},
    }
}

#[verifier::rlimit(100)]
#[verifier::spinoff_prover]
proof fn lemma_keyword_spellings_5(k: TokenKind)
    requires
        k == TokenKind::KwDisplayHint || k == TokenKind::KwModule || k == TokenKind::KwMandatoryGroups || k == TokenKind::KwGroup || k == TokenKind::KwProductRelease || k == TokenKind::KwSupports || k == TokenKind::KwIncludes || k == TokenKind::KwVariation,
    ensures
        spec_keyword(k.spec_display_name().spec_bytes()) == Some(k),
{
    reveal(spec_keyword);
    reveal_strlit("DEFINITIONS");
    reveal_strlit("BEGIN");
    reveal_strlit("END");
    reveal_strlit("IMPORTS");
    reveal_strlit("EXPORTS");
    reveal_strlit("FROM");
    reveal_strlit("MACRO");
    reveal_strlit("OBJECT");
    reveal_strlit("IDENTIFIER");
    reveal_strlit("OBJECT-TYPE");
    reveal_strlit("MODULE-IDENTITY");
    reveal_strlit("OBJECT-IDENTITY");
    reveal_strlit("NOTIFICATION-TYPE");
    reveal_strlit("TRAP-TYPE");
    reveal_strlit("TEXTUAL-CONVENTION");
    reveal_strlit("OBJECT-GROUP");
    reveal_strlit("NOTIFICATION-GROUP");
    reveal_strlit("MODULE-COMPLIANCE");
    reveal_strlit("AGENT-CAPABILITIES");
    reveal_strlit("SYNTAX");
    reveal_strlit("WRITE-SYNTAX");
    reveal_strlit("UNITS");
    reveal_strlit("MAX-ACCESS");
    reveal_strlit("ACCESS");
    reveal_strlit("MIN-ACCESS");
    reveal_strlit("STATUS");
    reveal_strlit("DESCRIPTION");
    reveal_strlit("REFERENCE");
    reveal_strlit("INDEX");
    reveal_strlit("AUGMENTS");
    reveal_strlit("DEFVAL");
    reveal_strlit("IMPLIED");
    reveal_strlit("LAST-UPDATED");
    reveal_strlit("ORGANIZATION");
    reveal_strlit("CONTACT-INFO");
    reveal_strlit("REVISION");
    reveal_strlit("OBJECTS");
    reveal_strlit("NOTIFICATIONS");
    reveal_strlit("ENTERPRISE");
    reveal_strlit("VARIABLES");
    reveal_strlit("DISPLAY-HINT");
    reveal_strlit("MODULE");
    reveal_strlit("MANDATORY-GROUPS");
    reveal_strlit("GROUP");
    reveal_strlit("PRODUCT-RELEASE");
    reveal_strlit("SUPPORTS");
    reveal_strlit("INCLUDES");
    reveal_strlit("VARIATION");
    reveal_strlit("CREATION-REQUIRES");
    reveal_strlit("INTEGER");
    reveal_strlit("BITS");
    reveal_strlit("OCTET");
    reveal_strlit("STRING");
    reveal_strlit("SEQUENCE");
    reveal_strlit("OF");
    reveal_strlit("CHOICE");
    reveal_strlit("SIZE");
    reveal_strlit("APPLICATION");
    reveal_strlit("UNIVERSAL");
    reveal_strlit("IMPLICIT");
    reveal_strlit("Counter32");
    reveal_strlit("Counter64");
    reveal_strlit("Gauge32");
    reveal_strlit("Unsigned32");
    reveal_strlit("TimeTicks");
    reveal_strlit("IpAddress");
    reveal_strlit("Opaque");
    reveal_strlit("Counter");
    reveal_strlit("Gauge");
    reveal_strlit("NetworkAddress");
    reveal_strlit("read-only");
    reveal_strlit("read-write");
    reveal_strlit("read-create");
    reveal_strlit("not-accessible");
    reveal_strlit("accessible-for-notify");
    reveal_strlit("write-only");
    reveal_strlit("not-implemented");
    reveal_strlit("current");
    reveal_strlit("deprecated");
    reveal_strlit("obsolete");
    reveal_strlit("mandatory");
    reveal_strlit("optional");
    reveal_strlit("ABSENT");
    reveal_strlit("ANY");
    reveal_strlit("BOOLEAN");
    reveal_strlit("BY");
    reveal_strlit("CLASS");
    reveal_strlit("COMPONENT");
    reveal_strlit("COMPONENTS");
    reveal_strlit("DEFAULT");
    reveal_strlit("DEFINED");
    reveal_strlit("ENUMERATED");
    reveal_strlit("EXPLICIT");
    reveal_strlit("EXTERNAL");
    reveal_strlit("FALSE");
    reveal_strlit("MAX");
    reveal_strlit("MIN");
    reveal_strlit("MINUS-INFINITY");
    reveal_strlit("NULL");
    reveal_strlit("OPTIONAL");
    reveal_strlit("PLUS-INFINITY");
    reveal_strlit("PRESENT");
    reveal_strlit("PRIVATE");
    reveal_strlit("REAL");
    reveal_strlit("SET");
    reveal_strlit("TAGS");
    reveal_strlit("TRUE");
    reveal_strlit("WITH");
    assert forall|w: Seq<char>| decode_utf8(#[trigger] encode_utf8(w)) == w by {
        vstd::utf8::encode_utf8_decode_utf8(w);
    }
    match k {
        TokenKind::KwDisplayHint => {
            assert("DISPLAY-HINT"@.len() == 12);
            assert("DISPLAY-HINT"@[0] == 'D');
            assert("DISPLAY-HINT"@[1] == 'I');
            assert("DISPLAY-HINT"@[2] == 'S');
            assert("DISPLAY-HINT"@[3] == 'P');
            assert("DISPLAY-HINT"@[4] == 'L');
            assert("DISPLAY-HINT"@[5] == 'A');
            assert("DISPLAY-HINT"@[6] == 'Y');
            assert("DISPLAY-HINT"@[7] == '-');
            assert("DISPLAY-HINT"@[8] == 'H');
            assert("DISPLAY-HINT"@[9] == 'I');
            assert("DISPLAY-HINT"@[10] == 'N');
            assert("DISPLAY-HINT"@[11] == 'T');
            assert(spec_keyword("DISPLAY-HINT".spec_bytes()) == Some(TokenKind::KwDisplayHint));
        },
        TokenKind::KwModule => {
            assert("MODULE"@.len() == 6);
            assert("MODULE"@[0] == 'M');
            assert("MODULE"@[1] == 'O');
            assert("MODULE"@[2] == 'D');
            assert("MODULE"@[3] == 'U');
            assert("MODULE"@[4] == 'L');
            assert("MODULE"@[5] == 'E');
            assert(spec_keyword("MODULE".spec_bytes()) == Some(TokenKind::KwModule));
        },
        TokenKind::KwMandatoryGroups => {
            assert("MANDATORY-GROUPS"@.len() == 16);
            assert("MANDATORY-GROUPS"@[0] == 'M');
            assert("MANDATORY-GROUPS"@[1] == 'A');
            assert("MANDATORY-GROUPS"@[2] == 'N');
            assert("MANDATORY-GROUPS"@[3] == 'D');
            assert("MANDATORY-GROUPS"@[4] == 'A');
            assert("MANDATORY-GROUPS"@[5] == 'T');
            assert("MANDATORY-GROUPS"@[6] == 'O');
            assert("MANDATORY-GROUPS"@[7] == 'R');
            assert("MANDATORY-GROUPS"@[8] == 'Y');
            assert("MANDATORY-GROUPS"@[9] == '-');
            assert("MANDATORY-GROUPS"@[10] == 'G');
            assert("MANDATORY-GROUPS"@[11] == 'R');
            assert("MANDATORY-GROUPS"@[12] == 'O');
            assert("MANDATORY-GROUPS"@[13] == 'U');
            assert("MANDATORY-GROUPS"@[14] == 'P');
            assert("MANDATORY-GROUPS"@[15] == 'S');
            assert(spec_keyword("MANDATORY-GROUPS".spec_bytes()) == Some(TokenKind::KwMandatoryGroups));
        },
        TokenKind::KwGroup => {
            assert("GROUP"@.len() == 5);
            assert("GROUP"@[0] == 'G');
            assert("GROUP"@[1] == 'R');
            assert("GROUP"@[2] == 'O');
            assert("GROUP"@[3] == 'U');
            assert("GROUP"@[4] == 'P');
            assert(spec_keyword("GROUP".spec_bytes()) == Some(TokenKind::KwGroup));
        },
        TokenKind::KwProductRelease => {
            assert("PRODUCT-RELEASE"@.len() == 15);
            assert("PRODUCT-RELEASE"@[0] == 'P');
            assert("PRODUCT-RELEASE"@[1] == 'R');
            assert("PRODUCT-RELEASE"@[2] == 'O');
            assert("PRODUCT-RELEASE"@[3] == 'D');
            assert("PRODUCT-RELEASE"@[4] == 'U');
            assert("PRODUCT-RELEASE"@[5] == 'C');
            assert("PRODUCT-RELEASE"@[6] == 'T');
            assert("PRODUCT-RELEASE"@[7] == '-');
            assert("PRODUCT-RELEASE"@[8] == 'R');
            assert("PRODUCT-RELEASE"@[9] == 'E');
            assert("PRODUCT-RELEASE"@[10] == 'L');
            assert("PRODUCT-RELEASE"@[11] == 'E');
            assert("PRODUCT-RELEASE"@[12] == 'A');
            assert("PRODUCT-RELEASE"@[13] == 'S');
            assert("PRODUCT-RELEASE"@[14] == 'E');
            assert(spec_keyword("PRODUCT-RELEASE".spec_bytes()) == Some(TokenKind::KwProductRelease));
        },
        TokenKind::KwSupports => {
            assert("SUPPORTS"@.len() == 8);
            assert("SUPPORTS"@[0] == 'S');
            assert("SUPPORTS"@[1] == 'U');
            assert("SUPPORTS"@[2] == 'P');
            assert("SUPPORTS"@[3] == 'P');
            assert("SUPPORTS"@[4] == 'O');
            assert("SUPPORTS"@[5] == 'R');
            assert("SUPPORTS"@[6] == 'T');
            assert("SUPPORTS"@[7] == 'S');
            assert(spec_keyword("SUPPORTS".spec_bytes()) == Some(TokenKind::KwSupports));
        },
        TokenKind::KwIncludes => {
            assert("INCLUDES"@.len() == 8);
            assert("INCLUDES"@[0] == 'I');
            assert("INCLUDES"@[1] == 'N');
            assert("INCLUDES"@[2] == 'C');
            assert("INCLUDES"@[3] == 'L');
            assert("INCLUDES"@[4] == 'U');
            assert("INCLUDES"@[5] == 'D');
            assert("INCLUDES"@[6] == 'E');
            assert("INCLUDES"@[7] == 'S');
            assert(spec_keyword("INCLUDES".spec_bytes()) == Some(TokenKind::KwIncludes));
        },
        TokenKind::KwVariation => {
            assert("VARIATION"@.len() == 9);
            assert("VARIATION"@[0] == 'V');
            assert("VARIATION"@[1] == 'A');
            assert("VARIATION"@[2] == 'R');
            assert("VARIATION"@[3] == 'I');
            assert("VARIATION"@[4] == 'A');
            assert("VARIATION"@[5] == 'T');
            assert("VARIATION"@[6] == 'I');
            assert("VARIATION"@[7] == 'O');
            assert("VARIATION"@[8] == 'N');
            assert(spec_keyword("VARIATION".spec_bytes()) == Some(TokenKind::KwVariation));
        },
        _ => {},
    }
}

#[verifier::rlimit(100)]
#[verifier::spinoff_prover]
proof fn lemma_keyword_spellings_6(k: TokenKind)
    requires
        k == TokenKind::KwCreationRequires || k == TokenKind::KwInteger || k == TokenKind::KwBits || k == TokenKind::KwOctet || k == TokenKind::KwString || k == TokenKind::KwSequence || k == TokenKind::KwOf || k == TokenKind::KwChoice,
    ensures
        spec_keyword(k.spec_display_name().spec_bytes()) == Some(k),
{
    reveal(spec_keyword);
    reveal_strlit("DEFINITIONS");
    reveal_strlit("BEGIN");
    reveal_strlit("END");
    reveal_strlit("IMPORTS");
    reveal_strlit("EXPORTS");
    reveal_strlit("FROM");
    reveal_strlit("MACRO");
    reveal_strlit("OBJECT");
    reveal_strlit("IDENTIFIER");
    reveal_strlit("OBJECT-TYPE");
    reveal_strlit("MODULE-IDENTITY");
    reveal_strlit("OBJECT-IDENTITY");
    reveal_strlit("NOTIFICATION-TYPE");
    reveal_strlit("TRAP-TYPE");
    reveal_strlit("TEXTUAL-CONVENTION");
    reveal_strlit("OBJECT-GROUP");
    reveal_strlit("NOTIFICATION-GROUP");
    reveal_strlit("MODULE-COMPLIANCE");
    reveal_strlit("AGENT-CAPABILITIES");
    reveal_strlit("SYNTAX");
    reveal_strlit("WRITE-SYNTAX");
    reveal_strlit("UNITS");
    reveal_strlit("MAX-ACCESS");
    reveal_strlit("ACCESS");
    reveal_strlit("MIN-ACCESS");
    reveal_strlit("STATUS");
    reveal_strlit("DESCRIPTION");
    reveal_strlit("REFERENCE");
    reveal_strlit("INDEX");
    reveal_strlit("AUGMENTS");
    reveal_strlit("DEFVAL");
    reveal_strlit("IMPLIED");
    reveal_strlit("LAST-UPDATED");
    reveal_strlit("ORGANIZATION");
    reveal_strlit("CONTACT-INFO");
    reveal_strlit("REVISION");
    reveal_strlit("OBJECTS");
    reveal_strlit("NOTIFICATIONS");
    reveal_strlit("ENTERPRISE");
    reveal_strlit("VARIABLES");
    reveal_strlit("DISPLAY-HINT");
    reveal_strlit("MODULE");
    reveal_strlit("MANDATORY-GROUPS");
    reveal_strlit("GROUP");
    reveal_strlit("PRODUCT-RELEASE");
    reveal_strlit("SUPPORTS");
    reveal_strlit("INCLUDES");
    reveal_strlit("VARIATION");
    reveal_strlit("CREATION-REQUIRES");
    reveal_strlit("INTEGER");
    reveal_strlit("BITS");
    reveal_strlit("OCTET");
    reveal_strlit("STRING");
    reveal_strlit("SEQUENCE");
    reveal_strlit("OF");
    reveal_strlit("CHOICE");
    reveal_strlit("SIZE");
    reveal_strlit("APPLICATION");
    reveal_strlit("UNIVERSAL");
    reveal_strlit("IMPLICIT");
    reveal_strlit("Counter32");
    reveal_strlit("Counter64");
    reveal_strlit("Gauge32");
    reveal_strlit("Unsigned32");
    reveal_strlit("TimeTicks");
    reveal_strlit("IpAddress");
    reveal_strlit("Opaque");
    reveal_strlit("Counter");
    reveal_strlit("Gauge");
    reveal_strlit("NetworkAddress");
    reveal_strlit("read-only");
    reveal_strlit("read-write");
    reveal_strlit("read-create");
    reveal_strlit("not-accessible");
    reveal_strlit("accessible-for-notify");
    reveal_strlit("write-only");
    reveal_strlit("not-implemented");
    reveal_strlit("current");
    reveal_strlit("deprecated");
    reveal_strlit("obsolete");
    reveal_strlit("mandatory");
    reveal_strlit("optional");
    reveal_strlit("ABSENT");
    reveal_strlit("ANY");
    reveal_strlit("BOOLEAN");
    reveal_strlit("BY");
    reveal_strlit("CLASS");
    reveal_strlit("COMPONENT");
    reveal_strlit("COMPONENTS");
    reveal_strlit("DEFAULT");
    reveal_strlit("DEFINED");
    reveal_strlit("ENUMERATED");
    reveal_strlit("EXPLICIT");
    reveal_strlit("EXTERNAL");
    reveal_strlit("FALSE");
    reveal_strlit("MAX");
    reveal_strlit("MIN");
    reveal_strlit("MINUS-INFINITY");
    reveal_strlit("NULL");
    reveal_strlit("OPTIONAL");
    reveal_strlit("PLUS-INFINITY");
    reveal_strlit("PRESENT");
    reveal_strlit("PRIVATE");
    reveal_strlit("REAL");
    reveal_strlit("SET");
    reveal_strlit("TAGS");
    reveal_strlit("TRUE");
    reveal_strlit("WITH");
    assert forall|w: Seq<char>| decode_utf8(#[trigger] encode_utf8(w)) == w by {
        vstd::utf8::encode_utf8_decode_utf8(w);
    }
    match k {
        TokenKind::KwCreationRequires => {
            assert("CREATION-REQUIRES"@.len() == 17);
            assert("CREATION-REQUIRES"@[0] == 'C');
            assert("CREATION-REQUIRES"@[1] == 'R');
            assert("CREATION-REQUIRES"@[2] == 'E');
            assert("CREATION-REQUIRES"@[3] == 'A');
            assert("CREATION-REQUIRES"@[4] == 'T');
            assert("CREATION-REQUIRES"@[5] == 'I');
            assert("CREATION-REQUIRES"@[6] == 'O');
            assert("CREATION-REQUIRES"@[7] == 'N');
            assert("CREATION-REQUIRES"@[8] == '-');
            assert("CREATION-REQUIRES"@[9] == 'R');
            assert("CREATION-REQUIRES"@[10] == 'E');
            assert("CREATION-REQUIRES"@[11] == 'Q');
            assert("CREATION-REQUIRES"@[12] == 'U');
            assert("CREATION-REQUIRES"@[13] == 'I');
            assert("CREATION-REQUIRES"@[14] == 'R');
            assert("CREATION-REQUIRES"@[15] == 'E');
            assert("CREATION-REQUIRES"@[16] == 'S');
            assert(spec_keyword("CREATION-REQUIRES".spec_bytes()) == Some(TokenKind::KwCreationRequires));
        },
        TokenKind::KwInteger => {
            assert("INTEGER"@.len() == 7);
            assert("INTEGER"@[0] == 'I');
            assert("INTEGER"@[1] == 'N');
            assert("INTEGER"@[2] == 'T');
            assert("INTEGER"@[3] == 'E');
            assert("INTEGER"@[4] == 'G');
            assert("INTEGER"@[5] == 'E');
            assert("INTEGER"@[6] == 'R');
            assert(spec_keyword("INTEGER".spec_bytes()) == Some(TokenKind::KwInteger));
        },
        TokenKind::KwBits => {
            assert("BITS"@.len() == 4);
            assert("BITS"@[0] == 'B');
            assert("BITS"@[1] == 'I');
            assert("BITS"@[2] == 'T');
            assert("BITS"@[3] == 'S');
            assert(spec_keyword("BITS".spec_bytes()) == Some(TokenKind::KwBits));
        },
        TokenKind::KwOctet => {
            assert("OCTET"@.len() == 5);
            assert("OCTET"@[0] == 'O');
            assert("OCTET"@[1] == 'C');
            assert("OCTET"@[2] == 'T');
            assert("OCTET"@[3] == 'E');
            assert("OCTET"@[4] == 'T');
            assert(spec_keyword("OCTET".spec_bytes()) == Some(TokenKind::KwOctet));
        },
        TokenKind::KwString => {
            assert("STRING"@.len() == 6);
            assert("STRING"@[0] == 'S');
            assert("STRING"@[1] == 'T');
            assert("STRING"@[2] == 'R');
            assert("STRING"@[3] == 'I');
            assert("STRING"@[4] == 'N');
            assert("STRING"@[5] == 'G');
            assert(spec_keyword("STRING".spec_bytes()) == Some(TokenKind::KwString));
        },
        TokenKind::KwSequence => {
            assert("SEQUENCE"@.len() == 8);
            assert("SEQUENCE"@[0] == 'S');
            assert("SEQUENCE"@[1] == 'E');
            assert("SEQUENCE"@[2] == 'Q');
            assert("SEQUENCE"@[3] == 'U');
            assert("SEQUENCE"@[4] == 'E');
            assert("SEQUENCE"@[5] == 'N');
            assert("SEQUENCE"@[6] == 'C');
            assert("SEQUENCE"@[7] == 'E');
            assert(spec_keyword("SEQUENCE".spec_bytes()) == Some(TokenKind::KwSequence));
        },
        TokenKind::KwOf => {
            assert("OF"@.len() == 2);
            assert("OF"@[0] == 'O');
            assert("OF"@[1] == 'F');
            assert(spec_keyword("OF".spec_bytes()) == Some(TokenKind::KwOf));
        },
        TokenKind::KwChoice => {
            assert("CHOICE"@.len() == 6);
            assert("CHOICE"@[0] == 'C');
            assert("CHOICE"@[1] == 'H');
            assert("CHOICE"@[2] == 'O');
            assert("CHOICE"@[3] == 'I');
            assert("CHOICE"@[4] == 'C');
            assert("CHOICE"@[5] == 'E');
            assert(spec_keyword("CHOICE".spec_bytes()) == Some(TokenKind::KwChoice));
        },
        _ => {},
    }
}

#[verifier::rlimit(100)]
#[verifier::spinoff_prover]
proof fn lemma_keyword_spellings_7(k: TokenKind)
    requires
        k == TokenKind::KwSize || k == TokenKind::KwApplication || k == TokenKind::KwUniversal || k == TokenKind::KwImplicit || k == TokenKind::KwCounter32 || k == TokenKind::KwCounter64 || k == TokenKind::KwGauge32 || k == TokenKind::KwUnsigned32,
    ensures
        spec_keyword(k.spec_display_name().spec_bytes()) == Some(k),
{
    reveal(spec_keyword);
    reveal_strlit("DEFINITIONS");
    reveal_strlit("BEGIN");
    reveal_strlit("END");
    reveal_strlit("IMPORTS");
    reveal_strlit("EXPORTS");
    reveal_strlit("FROM");
    reveal_strlit("MACRO");
    reveal_strlit("OBJECT");
    reveal_strlit("IDENTIFIER");
    reveal_strlit("OBJECT-TYPE");
    reveal_strlit("MODULE-IDENTITY");
    reveal_strlit("OBJECT-IDENTITY");
    reveal_strlit("NOTIFICATION-TYPE");
    reveal_strlit("TRAP-TYPE");
    reveal_strlit("TEXTUAL-CONVENTION");
    reveal_strlit("OBJECT-GROUP");
    reveal_strlit("NOTIFICATION-GROUP");
    reveal_strlit("MODULE-COMPLIANCE");
    reveal_strlit("AGENT-CAPABILITIES");
    reveal_strlit("SYNTAX");
    reveal_strlit("WRITE-SYNTAX");
    reveal_strlit("UNITS");
    reveal_strlit("MAX-ACCESS");
    reveal_strlit("ACCESS");
    reveal_strlit("MIN-ACCESS");
    reveal_strlit("STATUS");
    reveal_strlit("DESCRIPTION");
    reveal_strlit("REFERENCE");
    reveal_strlit("INDEX");
    reveal_strlit("AUGMENTS");
    reveal_strlit("DEFVAL");
    reveal_strlit("IMPLIED");
    reveal_strlit("LAST-UPDATED");
    reveal_strlit("ORGANIZATION");
    reveal_strlit("CONTACT-INFO");
    reveal_strlit("REVISION");
    reveal_strlit("OBJECTS");
    reveal_strlit("NOTIFICATIONS");
    reveal_strlit("ENTERPRISE");
    reveal_strlit("VARIABLES");
    reveal_strlit("DISPLAY-HINT");
    reveal_strlit("MODULE");
    reveal_strlit("MANDATORY-GROUPS");
    reveal_strlit("GROUP");
    reveal_strlit("PRODUCT-RELEASE");
    reveal_strlit("SUPPORTS");
    reveal_strlit("INCLUDES");
    reveal_strlit("VARIATION");
    reveal_strlit("CREATION-REQUIRES");
    reveal_strlit("INTEGER");
    reveal_strlit("BITS");
    reveal_strlit("OCTET");
    reveal_strlit("STRING");
    reveal_strlit("SEQUENCE");
    reveal_strlit("OF");
    reveal_strlit("CHOICE");
    reveal_strlit("SIZE");
    reveal_strlit("APPLICATION");
    reveal_strlit("UNIVERSAL");
    reveal_strlit("IMPLICIT");
    reveal_strlit("Counter32");
    reveal_strlit("Counter64");
    reveal_strlit("Gauge32");
    reveal_strlit("Unsigned32");
    reveal_strlit("TimeTicks");
    reveal_strlit("IpAddress");
    reveal_strlit("Opaque");
    reveal_strlit("Counter");
    reveal_strlit("Gauge");
    reveal_strlit("NetworkAddress");
    reveal_strlit("read-only");
    reveal_strlit("read-write");
    reveal_strlit("read-create");
    reveal_strlit("not-accessible");
    reveal_strlit("accessible-for-notify");
    reveal_strlit("write-only");
    reveal_strlit("not-implemented");
    reveal_strlit("current");
    reveal_strlit("deprecated");
    reveal_strlit("obsolete");
    reveal_strlit("mandatory");
    reveal_strlit("optional");
    reveal_strlit("ABSENT");
    reveal_strlit("ANY");
    reveal_strlit("BOOLEAN");
    reveal_strlit("BY");
    reveal_strlit("CLASS");
    reveal_strlit("COMPONENT");
    reveal_strlit("COMPONENTS");
    reveal_strlit("DEFAULT");
    reveal_strlit("DEFINED");
    reveal_strlit("ENUMERATED");
    reveal_strlit("EXPLICIT");
    reveal_strlit("EXTERNAL");
    reveal_strlit("FALSE");
    reveal_strlit("MAX");
    reveal_strlit("MIN");
    reveal_strlit("MINUS-INFINITY");
    reveal_strlit("NULL");
    reveal_strlit("OPTIONAL");
    reveal_strlit("PLUS-INFINITY");
    reveal_strlit("PRESENT");
    reveal_strlit("PRIVATE");
    reveal_strlit("REAL");
    reveal_strlit("SET");
    reveal_strlit("TAGS");
    reveal_strlit("TRUE");
    reveal_strlit("WITH");
    assert forall|w: Seq<char>| decode_utf8(#[trigger] encode_utf8(w)) == w by {
        vstd::utf8::encode_utf8_decode_utf8(w);
    }
    match k {
        TokenKind::KwSize => {
            assert("SIZE"@.len() == 4);
            assert("SIZE"@[0] == 'S');
            assert("SIZE"@[1] == 'I');
            assert("SIZE"@[2] == 'Z');
            assert("SIZE"@[3] == 'E');
            assert(spec_keyword("SIZE".spec_bytes()) == Some(TokenKind::KwSize));
        },
        TokenKind::KwApplication => {
            assert("APPLICATION"@.len() == 11);
            assert("APPLICATION"@[0] == 'A');
            assert("APPLICATION"@[1] == 'P');
            assert("APPLICATION"@[2] == 'P');
            assert("APPLICATION"@[3] == 'L');
            assert("APPLICATION"@[4] == 'I');
            assert("APPLICATION"@[5] == 'C');
            assert("APPLICATION"@[6] == 'A');
            assert("APPLICATION"@[7] == 'T');
            assert("APPLICATION"@[8] == 'I');
            assert("APPLICATION"@[9] == 'O');
            assert("APPLICATION"@[10] == 'N');
            assert(spec_keyword("APPLICATION".spec_bytes()) == Some(TokenKind::KwApplication));
        },
        TokenKind::KwUniversal => {
            assert("UNIVERSAL"@.len() == 9);
            assert("UNIVERSAL"@[0] == 'U');
            assert("UNIVERSAL"@[1] == 'N');
            assert("UNIVERSAL"@[2] == 'I');
            assert("UNIVERSAL"@[3] == 'V');
            assert("UNIVERSAL"@[4] == 'E');
            assert("UNIVERSAL"@[5] == 'R');
            assert("UNIVERSAL"@[6] == 'S');
            assert("UNIVERSAL"@[7] == 'A');
            assert("UNIVERSAL"@[8] == 'L');
            assert(spec_keyword("UNIVERSAL".spec_bytes()) == Some(TokenKind::KwUniversal));
        },
        TokenKind::KwImplicit => {
            assert("IMPLICIT"@.len() == 8);
            assert("IMPLICIT"@[0] == 'I');
            assert("IMPLICIT"@[1] == 'M');
            assert("IMPLICIT"@[2] == 'P');
            assert("IMPLICIT"@[3] == 'L');
            assert("IMPLICIT"@[4] == 'I');
            assert("IMPLICIT"@[5] == 'C');
            assert("IMPLICIT"@[6] == 'I');
            assert("IMPLICIT"@[7] == 'T');
            assert(spec_keyword("IMPLICIT".spec_bytes()) == Some(TokenKind::KwImplicit));
        },
        TokenKind::KwCounter32 => {
            assert("Counter32"@.len() == 9);
            assert("Counter32"@[0] == 'C');
            assert("Counter32"@[1] == 'o');
            assert("Counter32"@[2] == 'u');
            assert("Counter32"@[3] == 'n');
            assert("Counter32"@[4] == 't');
            assert("Counter32"@[5] == 'e');
            assert("Counter32"@[6] == 'r');
            assert("Counter32"@[7] == '3');
            assert("Counter32"@[8] == '2');
            assert(spec_keyword("Counter32".spec_bytes()) == Some(TokenKind::KwCounter32));
        },
        TokenKind::KwCounter64 => {
            assert("Counter64"@.len() == 9);
            assert("Counter64"@[0] == 'C');
            assert("Counter64"@[1] == 'o');
            assert("Counter64"@[2] == 'u');
            assert("Counter64"@[3] == 'n');
            assert("Counter64"@[4] == 't');
            assert("Counter64"@[5] == 'e');
            assert("Counter64"@[6] == 'r');
            assert("Counter64"@[7] == '6');
            assert("Counter64"@[8] == '4');
            assert(spec_keyword("Counter64".spec_bytes()) == Some(TokenKind::KwCounter64));
        },
        TokenKind::KwGauge32 => {
            assert("Gauge32"@.len() == 7);
            assert("Gauge32"@[0] == 'G');
            assert("Gauge32"@[1] == 'a');
            assert("Gauge32"@[2] == 'u');
            assert("Gauge32"@[3] == 'g');
            assert("Gauge32"@[4] == 'e');
            assert("Gauge32"@[5] == '3');
            assert("Gauge32"@[6] == '2');
            assert(spec_keyword("Gauge32".spec_bytes()) == Some(TokenKind::KwGauge32));
        },
        TokenKind::KwUnsigned32 => {
            assert("Unsigned32"@.len() == 10);
            assert("Unsigned32"@[0] == 'U');
            assert("Unsigned32"@[1] == 'n');
            assert("Unsigned32"@[2] == 's');
            assert("Unsigned32"@[3] == 'i');
            assert("Unsigned32"@[4] == 'g');
            assert("Unsigned32"@[5] == 'n');
            assert("Unsigned32"@[6] == 'e');
            assert("Unsigned32"@[7] == 'd');
            assert("Unsigned32"@[8] == '3');
            assert("Unsigned32"@[9] == '2');
            assert(spec_keyword("Unsigned32".spec_bytes()) == Some(TokenKind::KwUnsigned32));
        },
        _ => {},
    }
}

#[verifier::rlimit(100)]
#[verifier::spinoff_prover]
proof fn lemma_keyword_spellings_8(k: TokenKind)
    requires
        k == TokenKind::KwTimeTicks || k == TokenKind::KwIpAddress || k == TokenKind::KwOpaque || k == TokenKind::KwCounter || k == TokenKind::KwGauge || k == TokenKind::KwNetworkAddress || k == TokenKind::KwReadOnly || k == TokenKind::KwReadWrite,
    ensures
        spec_keyword(k.spec_display_name().spec_bytes()) == Some(k),
{
    reveal(spec_keyword);
    reveal_strlit("DEFINITIONS");
    reveal_strlit("BEGIN");
    reveal_strlit("END");
    reveal_strlit("IMPORTS");
    reveal_strlit("EXPORTS");
    reveal_strlit("FROM");
    reveal_strlit("MACRO");
    reveal_strlit("OBJECT");
    reveal_strlit("IDENTIFIER");
    reveal_strlit("OBJECT-TYPE");
    reveal_strlit("MODULE-IDENTITY");
    reveal_strlit("OBJECT-IDENTITY");
    reveal_strlit("NOTIFICATION-TYPE");
    reveal_strlit("TRAP-TYPE");
    reveal_strlit("TEXTUAL-CONVENTION");
    reveal_strlit("OBJECT-GROUP");
    reveal_strlit("NOTIFICATION-GROUP");
    reveal_strlit("MODULE-COMPLIANCE");
    reveal_strlit("AGENT-CAPABILITIES");
    reveal_strlit("SYNTAX");
    reveal_strlit("WRITE-SYNTAX");
    reveal_strlit("UNITS");
    reveal_strlit("MAX-ACCESS");
    reveal_strlit("ACCESS");
    reveal_strlit("MIN-ACCESS");
    reveal_strlit("STATUS");
    reveal_strlit("DESCRIPTION");
    reveal_strlit("REFERENCE");
    reveal_strlit("INDEX");
    reveal_strlit("AUGMENTS");
    reveal_strlit("DEFVAL");
    reveal_strlit("IMPLIED");
    reveal_strlit("LAST-UPDATED");
    reveal_strlit("ORGANIZATION");
    reveal_strlit("CONTACT-INFO");
    reveal_strlit("REVISION");
    reveal_strlit("OBJECTS");
    reveal_strlit("NOTIFICATIONS");
    reveal_strlit("ENTERPRISE");
    reveal_strlit("VARIABLES");
    reveal_strlit("DISPLAY-HINT");
    reveal_strlit("MODULE");
    reveal_strlit("MANDATORY-GROUPS");
    reveal_strlit("GROUP");
    reveal_strlit("PRODUCT-RELEASE");
    reveal_strlit("SUPPORTS");
    reveal_strlit("INCLUDES");
    reveal_strlit("VARIATION");
    reveal_strlit("CREATION-REQUIRES");
    reveal_strlit("INTEGER");
    reveal_strlit("BITS");
    reveal_strlit("OCTET");
    reveal_strlit("STRING");
    reveal_strlit("SEQUENCE");
    reveal_strlit("OF");
    reveal_strlit("CHOICE");
    reveal_strlit("SIZE");
    reveal_strlit("APPLICATION");
    reveal_strlit("UNIVERSAL");
    reveal_strlit("IMPLICIT");
    reveal_strlit("Counter32");
    reveal_strlit("Counter64");
    reveal_strlit("Gauge32");
    reveal_strlit("Unsigned32");
    reveal_strlit("TimeTicks");
    reveal_strlit("IpAddress");
    reveal_strlit("Opaque");
    reveal_strlit("Counter");
    reveal_strlit("Gauge");
    reveal_strlit("NetworkAddress");
    reveal_strlit("read-only");
    reveal_strlit("read-write");
    reveal_strlit("read-create");
    reveal_strlit("not-accessible");
    reveal_strlit("accessible-for-notify");
    reveal_strlit("write-only");
    reveal_strlit("not-implemented");
    reveal_strlit("current");
    reveal_strlit("deprecated");
    reveal_strlit("obsolete");
    reveal_strlit("mandatory");
    reveal_strlit("optional");
    reveal_strlit("ABSENT");
    reveal_strlit("ANY");
    reveal_strlit("BOOLEAN");
    reveal_strlit("BY");
    reveal_strlit("CLASS");
    reveal_strlit("COMPONENT");
    reveal_strlit("COMPONENTS");
    reveal_strlit("DEFAULT");
    reveal_strlit("DEFINED");
    reveal_strlit("ENUMERATED");
    reveal_strlit("EXPLICIT");
    reveal_strlit("EXTERNAL");
    reveal_strlit("FALSE");
    reveal_strlit("MAX");
    reveal_strlit("MIN");
    reveal_strlit("MINUS-INFINITY");
    reveal_strlit("NULL");
    reveal_strlit("OPTIONAL");
    reveal_strlit("PLUS-INFINITY");
    reveal_strlit("PRESENT");
    reveal_strlit("PRIVATE");
    reveal_strlit("REAL");
    reveal_strlit("SET");
    reveal_strlit("TAGS");
    reveal_strlit("TRUE");
    reveal_strlit("WITH");
    assert forall|w: Seq<char>| decode_utf8(#[trigger] encode_utf8(w)) == w by {
        vstd::utf8::encode_utf8_decode_utf8(w);
    }
    match k {
        TokenKind::KwTimeTicks => {
            assert("TimeTicks"@.len() == 9);
            assert("TimeTicks"@[0] == 'T');
            assert("TimeTicks"@[1] == 'i');
            assert("TimeTicks"@[2] == 'm');
            assert("TimeTicks"@[3] == 'e');
            assert("TimeTicks"@[4] == 'T');
            assert("TimeTicks"@[5] == 'i');
            assert("TimeTicks"@[6] == 'c');
            assert("TimeTicks"@[7] == 'k');
            assert("TimeTicks"@[8] == 's');
            assert(spec_keyword("TimeTicks".spec_bytes()) == Some(TokenKind::KwTimeTicks));
        },
        TokenKind::KwIpAddress => {
            assert("IpAddress"@.len() == 9);
            assert("IpAddress"@[0] == 'I');
            assert("IpAddress"@[1] == 'p');
            assert("IpAddress"@[2] == 'A');
            assert("IpAddress"@[3] == 'd');
            assert("IpAddress"@[4] == 'd');
            assert("IpAddress"@[5] == 'r');
            assert("IpAddress"@[6] == 'e');
            assert("IpAddress"@[7] == 's');
            assert("IpAddress"@[8] == 's');
            assert(spec_keyword("IpAddress".spec_bytes()) == Some(TokenKind::KwIpAddress));
        },
        TokenKind::KwOpaque => {
            assert("Opaque"@.len() == 6);
            assert("Opaque"@[0] == 'O');
            assert("Opaque"@[1] == 'p');
            assert("Opaque"@[2] == 'a');
            assert("Opaque"@[3] == 'q');
            assert("Opaque"@[4] == 'u');
            assert("Opaque"@[5] == 'e');
            assert(spec_keyword("Opaque".spec_bytes()) == Some(TokenKind::KwOpaque));
        },
        TokenKind::KwCounter => {
            assert("Counter"@.len() == 7);
            assert("Counter"@[0] == 'C');
            assert("Counter"@[1] == 'o');
            assert("Counter"@[2] == 'u');
            assert("Counter"@[3] == 'n');
            assert("Counter"@[4] == 't');
            assert("Counter"@[5] == 'e');
            assert("Counter"@[6] == 'r');
            assert(spec_keyword("Counter".spec_bytes()) == Some(TokenKind::KwCounter));
        },
        TokenKind::KwGauge => {
            assert("Gauge"@.len() == 5);
            assert("Gauge"@[0] == 'G');
            assert("Gauge"@[1] == 'a');
            assert("Gauge"@[2] == 'u');
            assert("Gauge"@[3] == 'g');
            assert("Gauge"@[4] == 'e');
            assert(spec_keyword("Gauge".spec_bytes()) == Some(TokenKind::KwGauge));
        },
        TokenKind::KwNetworkAddress => {
            assert("NetworkAddress"@.len() == 14);
            assert("NetworkAddress"@[0] == 'N');
            assert("NetworkAddress"@[1] == 'e');
            assert("NetworkAddress"@[2] == 't');
            assert("NetworkAddress"@[3] == 'w');
            assert("NetworkAddress"@[4] == 'o');
            assert("NetworkAddress"@[5] == 'r');
            assert("NetworkAddress"@[6] == 'k');
            assert("NetworkAddress"@[7] == 'A');
            assert("NetworkAddress"@[8] == 'd');
            assert("NetworkAddress"@[9] == 'd');
            assert("NetworkAddress"@[10] == 'r');
            assert("NetworkAddress"@[11] == 'e');
            assert("NetworkAddress"@[12] == 's');
            assert("NetworkAddress"@[13] == 's');
            assert(spec_keyword("NetworkAddress".spec_bytes()) == Some(TokenKind::KwNetworkAddress));
        },
        TokenKind::KwReadOnly => {
            assert("read-only"@.len() == 9);
            assert("read-only"@[0] == 'r');
            assert("read-only"@[1] == 'e');
            assert("read-only"@[2] == 'a');
            assert("read-only"@[3] == 'd');
            assert("read-only"@[4] == '-');
            assert("read-only"@[5] == 'o');
            assert("read-only"@[6] == 'n');
            assert("read-only"@[7] == 'l');
            assert("read-only"@[8] == 'y');
            assert(spec_keyword("read-only".spec_bytes()) == Some(TokenKind::KwReadOnly));
        },
        TokenKind::KwReadWrite => {
            assert("read-write"@.len() == 10);
            assert("read-write"@[0] == 'r');
            assert("read-write"@[1] == 'e');
            assert("read-write"@[2] == 'a');
            assert("read-write"@[3] == 'd');
            assert("read-write"@[4] == '-');
            assert("read-write"@[5] == 'w');
            assert("read-write"@[6] == 'r');
            assert("read-write"@[7] == 'i');
            assert("read-write"@[8] == 't');
            assert("read-write"@[9] == 'e');
            assert(spec_keyword("read-write".spec_bytes()) == Some(TokenKind::KwReadWrite));
        },
        _ => {},
    }
}

#[verifier::rlimit(100)]
#[verifier::spinoff_prover]
proof fn lemma_keyword_spellings_9(k: TokenKind)
    requires
        k == TokenKind::KwReadCreate || k == TokenKind::KwNotAccessible || k == TokenKind::KwAccessibleForNotify || k == TokenKind::KwWriteOnly || k == TokenKind::KwNotImplemented || k == TokenKind::KwCurrent || k == TokenKind::KwDeprecated || k == TokenKind::KwObsolete,
    ensures
        spec_keyword(k.spec_display_name().spec_bytes()) == Some(k),
{
    reveal(spec_keyword);
    reveal_strlit("DEFINITIONS");
    reveal_strlit("BEGIN");
    reveal_strlit("END");
    reveal_strlit("IMPORTS");
    reveal_strlit("EXPORTS");
    reveal_strlit("FROM");
    reveal_strlit("MACRO");
    reveal_strlit("OBJECT");
    reveal_strlit("IDENTIFIER");
    reveal_strlit("OBJECT-TYPE");
    reveal_strlit("MODULE-IDENTITY");
    reveal_strlit("OBJECT-IDENTITY");
    reveal_strlit("NOTIFICATION-TYPE");
    reveal_strlit("TRAP-TYPE");
    reveal_strlit("TEXTUAL-CONVENTION");
    reveal_strlit("OBJECT-GROUP");
    reveal_strlit("NOTIFICATION-GROUP");
    reveal_strlit("MODULE-COMPLIANCE");
    reveal_strlit("AGENT-CAPABILITIES");
    reveal_strlit("SYNTAX");
    reveal_strlit("WRITE-SYNTAX");
    reveal_strlit("UNITS");
    reveal_strlit("MAX-ACCESS");
    reveal_strlit("ACCESS");
    reveal_strlit("MIN-ACCESS");
    reveal_strlit("STATUS");
    reveal_strlit("DESCRIPTION");
    reveal_strlit("REFERENCE");
    reveal_strlit("INDEX");
    reveal_strlit("AUGMENTS");
    reveal_strlit("DEFVAL");
    reveal_strlit("IMPLIED");
    reveal_strlit("LAST-UPDATED");
    reveal_strlit("ORGANIZATION");
    reveal_strlit("CONTACT-INFO");
    reveal_strlit("REVISION");
    reveal_strlit("OBJECTS");
    reveal_strlit("NOTIFICATIONS");
    reveal_strlit("ENTERPRISE");
    reveal_strlit("VARIABLES");
    reveal_strlit("DISPLAY-HINT");
    reveal_strlit("MODULE");
    reveal_strlit("MANDATORY-GROUPS");
    reveal_strlit("GROUP");
    reveal_strlit("PRODUCT-RELEASE");
    reveal_strlit("SUPPORTS");
    reveal_strlit("INCLUDES");
    reveal_strlit("VARIATION");
    reveal_strlit("CREATION-REQUIRES");
    reveal_strlit("INTEGER");
    reveal_strlit("BITS");
    reveal_strlit("OCTET");
    reveal_strlit("STRING");
    reveal_strlit("SEQUENCE");
    reveal_strlit("OF");
    reveal_strlit("CHOICE");
    reveal_strlit("SIZE");
    reveal_strlit("APPLICATION");
    reveal_strlit("UNIVERSAL");
    reveal_strlit("IMPLICIT");
    reveal_strlit("Counter32");
    reveal_strlit("Counter64");
    reveal_strlit("Gauge32");
    reveal_strlit("Unsigned32");
    reveal_strlit("TimeTicks");
    reveal_strlit("IpAddress");
    reveal_strlit("Opaque");
    reveal_strlit("Counter");
    reveal_strlit("Gauge");
    reveal_strlit("NetworkAddress");
    reveal_strlit("read-only");
    reveal_strlit("read-write");
    reveal_strlit("read-create");
    reveal_strlit("not-accessible");
    reveal_strlit("accessible-for-notify");
    reveal_strlit("write-only");
    reveal_strlit("not-implemented");
    reveal_strlit("current");
    reveal_strlit("deprecated");
    reveal_strlit("obsolete");
    reveal_strlit("mandatory");
    reveal_strlit("optional");
    reveal_strlit("ABSENT");
    reveal_strlit("ANY");
    reveal_strlit("BOOLEAN");
    reveal_strlit("BY");
    reveal_strlit("CLASS");
    reveal_strlit("COMPONENT");
    reveal_strlit("COMPONENTS");
    reveal_strlit("DEFAULT");
    reveal_strlit("DEFINED");
    reveal_strlit("ENUMERATED");
    reveal_strlit("EXPLICIT");
    reveal_strlit("EXTERNAL");
    reveal_strlit("FALSE");
    reveal_strlit("MAX");
    reveal_strlit("MIN");
    reveal_strlit("MINUS-INFINITY");
    reveal_strlit("NULL");
    reveal_strlit("OPTIONAL");
    reveal_strlit("PLUS-INFINITY");
    reveal_strlit("PRESENT");
    reveal_strlit("PRIVATE");
    reveal_strlit("REAL");
    reveal_strlit("SET");
    reveal_strlit("TAGS");
    reveal_strlit("TRUE");
    reveal_strlit("WITH");
    assert forall|w: Seq<char>| decode_utf8(#[trigger] encode_utf8(w)) == w by {
        vstd::utf8::encode_utf8_decode_utf8(w);
    }
    match k {
        TokenKind::KwReadCreate => {
            assert("read-create"@.len() == 11);
            assert("read-create"@[0] == 'r');
            assert("read-create"@[1] == 'e');
            assert("read-create"@[2] == 'a');
            assert("read-create"@[3] == 'd');
            assert("read-create"@[4] == '-');
            assert("read-create"@[5] == 'c');
            assert("read-create"@[6] == 'r');
            assert("read-create"@[7] == 'e');
            assert("read-create"@[8] == 'a');
            assert("read-create"@[9] == 't');
            assert("read-create"@[10] == 'e');
            assert(spec_keyword("read-create".spec_bytes()) == Some(TokenKind::KwReadCreate));
        },
        TokenKind::KwNotAccessible => {
            assert("not-accessible"@.len() == 14);
            assert("not-accessible"@[0] == 'n');
            assert("not-accessible"@[1] == 'o');
            assert("not-accessible"@[2] == 't');
            assert("not-accessible"@[3] == '-');
            assert("not-accessible"@[4] == 'a');
            assert("not-accessible"@[5] == 'c');
            assert("not-accessible"@[6] == 'c');
            assert("not-accessible"@[7] == 'e');
            assert("not-accessible"@[8] == 's');
            assert("not-accessible"@[9] == 's');
            assert("not-accessible"@[10] == 'i');
            assert("not-accessible"@[11] == 'b');
            assert("not-accessible"@[12] == 'l');
            assert("not-accessible"@[13] == 'e');
            assert(spec_keyword("not-accessible".spec_bytes()) == Some(TokenKind::KwNotAccessible));
        },
        TokenKind::KwAccessibleForNotify => {
            assert("accessible-for-notify"@.len() == 21);
            assert("accessible-for-notify"@[0] == 'a');
            assert("accessible-for-notify"@[1] == 'c');
            assert("accessible-for-notify"@[2] == 'c');
            assert("accessible-for-notify"@[3] == 'e');
            assert("accessible-for-notify"@[4] == 's');
            assert("accessible-for-notify"@[5] == 's');
            assert("accessible-for-notify"@[6] == 'i');
            assert("accessible-for-notify"@[7] == 'b');
            assert("accessible-for-notify"@[8] == 'l');
            assert("accessible-for-notify"@[9] == 'e');
            assert("accessible-for-notify"@[10] == '-');
            assert("accessible-for-notify"@[11] == 'f');
            assert("accessible-for-notify"@[12] == 'o');
            assert("accessible-for-notify"@[13] == 'r');
            assert("accessible-for-notify"@[14] == '-');
            assert("accessible-for-notify"@[15] == 'n');
            assert("accessible-for-notify"@[16] == 'o');
            assert("accessible-for-notify"@[17] == 't');
            assert("accessible-for-notify"@[18] == 'i');
            assert("accessible-for-notify"@[19] == 'f');
            assert("accessible-for-notify"@[20] == 'y');
            assert(spec_keyword("accessible-for-notify".spec_bytes()) == Some(TokenKind::KwAccessibleForNotify));
        },
        TokenKind::KwWriteOnly => {
            assert("write-only"@.len() == 10);
            assert("write-only"@[0] == 'w');
            assert("write-only"@[1] == 'r');
            assert("write-only"@[2] == 'i');
            assert("write-only"@[3] == 't');
            assert("write-only"@[4] == 'e');
            assert("write-only"@[5] == '-');
            assert("write-only"@[6] == 'o');
            assert("write-only"@[7] == 'n');
            assert("write-only"@[8] == 'l');
            assert("write-only"@[9] == 'y');
            assert(spec_keyword("write-only".spec_bytes()) == Some(TokenKind::KwWriteOnly));
        },
        TokenKind::KwNotImplemented => {
            assert("not-implemented"@.len() == 15);
            assert("not-implemented"@[0] == 'n');
            assert("not-implemented"@[1] == 'o');
            assert("not-implemented"@[2] == 't');
            assert("not-implemented"@[3] == '-');
            assert("not-implemented"@[4] == 'i');
            assert("not-implemented"@[5] == 'm');
            assert("not-implemented"@[6] == 'p');
            assert("not-implemented"@[7] == 'l');
            assert("not-implemented"@[8] == 'e');
            assert("not-implemented"@[9] == 'm');
            assert("not-implemented"@[10] == 'e');
            assert("not-implemented"@[11] == 'n');
            assert("not-implemented"@[12] == 't');
            assert("not-implemented"@[13] == 'e');
            assert("not-implemented"@[14] == 'd');
            assert(spec_keyword("not-implemented".spec_bytes()) == Some(TokenKind::KwNotImplemented));
        },
        TokenKind::KwCurrent => {
            assert("current"@.len() == 7);
            assert("current"@[0] == 'c');
            assert("current"@[1] == 'u');
            assert("current"@[2] == 'r');
            assert("current"@[3] == 'r');
            assert("current"@[4] == 'e');
            assert("current"@[5] == 'n');
            assert("current"@[6] == 't');
            assert(spec_keyword("current".spec_bytes()) == Some(TokenKind::KwCurrent));
        },
        TokenKind::KwDeprecated => {
            assert("deprecated"@.len() == 10);
            assert("deprecated"@[0] == 'd');
            assert("deprecated"@[1] == 'e');
            assert("deprecated"@[2] == 'p');
            assert("deprecated"@[3] == 'r');
            assert("deprecated"@[4] == 'e');
            assert("deprecated"@[5] == 'c');
            assert("deprecated"@[6] == 'a');
            assert("deprecated"@[7] == 't');
            assert("deprecated"@[8] == 'e');
            assert("deprecated"@[9] == 'd');
            assert(spec_keyword("deprecated".spec_bytes()) == Some(TokenKind::KwDeprecated));
        },
        TokenKind::KwObsolete => {
            assert("obsolete"@.len() == 8);
            assert("obsolete"@[0] == 'o');
            assert("obsolete"@[1] == 'b');
            assert("obsolete"@[2] == 's');
            assert("obsolete"@[3] == 'o');
            assert("obsolete"@[4] == 'l');
            assert("obsolete"@[5] == 'e');
            assert("obsolete"@[6] == 't');
            assert("obsolete"@[7] == 'e');
            assert(spec_keyword("obsolete".spec_bytes()) == Some(TokenKind::KwObsolete));
        },
        _ => {},
    }
}

#[verifier::rlimit(100)]
#[verifier::spinoff_prover]
proof fn lemma_keyword_spellings_10(k: TokenKind)
    requires
        k == TokenKind::KwMandatory || k == TokenKind::KwOptional,
    ensures
        spec_keyword(k.spec_display_name().spec_bytes()) == Some(k),
{
    reveal(spec_keyword);
    reveal_strlit("DEFINITIONS");
    reveal_strlit("BEGIN");
    reveal_strlit("END");
    reveal_strlit("IMPORTS");
    reveal_strlit("EXPORTS");
    reveal_strlit("FROM");
    reveal_strlit("MACRO");
    reveal_strlit("OBJECT");
    reveal_strlit("IDENTIFIER");
    reveal_strlit("OBJECT-TYPE");
    reveal_strlit("MODULE-IDENTITY");
    reveal_strlit("OBJECT-IDENTITY");
    reveal_strlit("NOTIFICATION-TYPE");
    reveal_strlit("TRAP-TYPE");
    reveal_strlit("TEXTUAL-CONVENTION");
    reveal_strlit("OBJECT-GROUP");
    reveal_strlit("NOTIFICATION-GROUP");
    reveal_strlit("MODULE-COMPLIANCE");
    reveal_strlit("AGENT-CAPABILITIES");
    reveal_strlit("SYNTAX");
    reveal_strlit("WRITE-SYNTAX");
    reveal_strlit("UNITS");
    reveal_strlit("MAX-ACCESS");
    reveal_strlit("ACCESS");
    reveal_strlit("MIN-ACCESS");
    reveal_strlit("STATUS");
    reveal_strlit("DESCRIPTION");
    reveal_strlit("REFERENCE");
    reveal_strlit("INDEX");
    reveal_strlit("AUGMENTS");
    reveal_strlit("DEFVAL");
    reveal_strlit("IMPLIED");
    reveal_strlit("LAST-UPDATED");
    reveal_strlit("ORGANIZATION");
    reveal_strlit("CONTACT-INFO");
    reveal_strlit("REVISION");
    reveal_strlit("OBJECTS");
    reveal_strlit("NOTIFICATIONS");
    reveal_strlit("ENTERPRISE");
    reveal_strlit("VARIABLES");
    reveal_strlit("DISPLAY-HINT");
    reveal_strlit("MODULE");
    reveal_strlit("MANDATORY-GROUPS");
    reveal_strlit("GROUP");
    reveal_strlit("PRODUCT-RELEASE");
    reveal_strlit("SUPPORTS");
    reveal_strlit("INCLUDES");
    reveal_strlit("VARIATION");
    reveal_strlit("CREATION-REQUIRES");
    reveal_strlit("INTEGER");
    reveal_strlit("BITS");
    reveal_strlit("OCTET");
    reveal_strlit("STRING");
    reveal_strlit("SEQUENCE");
    reveal_strlit("OF");
    reveal_strlit("CHOICE");
    reveal_strlit("SIZE");
    reveal_strlit("APPLICATION");
    reveal_strlit("UNIVERSAL");
    reveal_strlit("IMPLICIT");
    reveal_strlit("Counter32");
    reveal_strlit("Counter64");
    reveal_strlit("Gauge32");
    reveal_strlit("Unsigned32");
    reveal_strlit("TimeTicks");
    reveal_strlit("IpAddress");
    reveal_strlit("Opaque");
    reveal_strlit("Counter");
    reveal_strlit("Gauge");
    reveal_strlit("NetworkAddress");
    reveal_strlit("read-only");
    reveal_strlit("read-write");
    reveal_strlit("read-create");
    reveal_strlit("not-accessible");
    reveal_strlit("accessible-for-notify");
    reveal_strlit("write-only");
    reveal_strlit("not-implemented");
    reveal_strlit("current");
    reveal_strlit("deprecated");
    reveal_strlit("obsolete");
    reveal_strlit("mandatory");
    reveal_strlit("optional");
    reveal_strlit("ABSENT");
    reveal_strlit("ANY");
    reveal_strlit("BOOLEAN");
    reveal_strlit("BY");
    reveal_strlit("CLASS");
    reveal_strlit("COMPONENT");
    reveal_strlit("COMPONENTS");
    reveal_strlit("DEFAULT");
    reveal_strlit("DEFINED");
    reveal_strlit("ENUMERATED");
    reveal_strlit("EXPLICIT");
    reveal_strlit("EXTERNAL");
    reveal_strlit("FALSE");
    reveal_strlit("MAX");
    reveal_strlit("MIN");
    reveal_strlit("MINUS-INFINITY");
    reveal_strlit("NULL");
    reveal_strlit("OPTIONAL");
    reveal_strlit("PLUS-INFINITY");
    reveal_strlit("PRESENT");
    reveal_strlit("PRIVATE");
    reveal_strlit("REAL");
    reveal_strlit("SET");
    reveal_strlit("TAGS");
    reveal_strlit("TRUE");
    reveal_strlit("WITH");
    assert forall|w: Seq<char>| decode_utf8(#[trigger] encode_utf8(w)) == w by {
        vstd::utf8::encode_utf8_decode_utf8(w);
    }
    match k {
        TokenKind::KwMandatory => {
            assert("mandatory"@.len() == 9);
            assert("mandatory"@[0] == 'm');
            assert("mandatory"@[1] == 'a');
            assert("mandatory"@[2] == 'n');
            assert("mandatory"@[3] == 'd');
            assert("mandatory"@[4] == 'a');
            assert("mandatory"@[5] == 't');
            assert("mandatory"@[6] == 'o');
            assert("mandatory"@[7] == 'r');
            assert("mandatory"@[8] == 'y');
            assert(spec_keyword("mandatory".spec_bytes()) == Some(TokenKind::KwMandatory));
        },
        TokenKind::KwOptional => {
            assert("optional"@.len() == 8);
            assert("optional"@[0] == 'o');
            assert("optional"@[1] == 'p');
            assert("optional"@[2] == 't');
            assert("optional"@[3] == 'i');
            assert("optional"@[4] == 'o');
            assert("optional"@[5] == 'n');
            assert("optional"@[6] == 'a');
            assert("optional"@[7] == 'l');
            assert(spec_keyword("optional".spec_bytes()) == Some(TokenKind::KwOptional));
        },
        _ => {},
    }
}

/// Every keyword kind is what the lexer reads its own spelling as: the word
/// a keyword kind is written as (its display name) looks up to that kind.
pub proof fn lemma_keyword_spelling_round_trip(k: TokenKind)
    requires
        k.spec_is_keyword(),
    ensures
        spec_keyword(k.spec_display_name().spec_bytes()) == Some(k),
{
    if k == TokenKind::KwDefinitions || k == TokenKind::KwBegin || k == TokenKind::KwEnd || k == TokenKind::KwImports || k == TokenKind::KwExports || k == TokenKind::KwFrom || k == TokenKind::KwMacro || k == TokenKind::KwObject {
        lemma_keyword_spellings_0(k);
    }
    if k == TokenKind::KwIdentifier || k == TokenKind::KwObjectType || k == TokenKind::KwModuleIdentity || k == TokenKind::KwObjectIdentity || k == TokenKind::KwNotificationType || k == TokenKind::KwTrapType || k == TokenKind::KwTextualConvention || k == TokenKind::KwObjectGroup {
        lemma_keyword_spellings_1(k);
    }
    if k == TokenKind::KwNotificationGroup || k == TokenKind::KwModuleCompliance || k == TokenKind::KwAgentCapabilities || k == TokenKind::KwSyntax || k == TokenKind::KwWriteSyntax || k == TokenKind::KwUnits || k == TokenKind::KwMaxAccess || k == TokenKind::KwAccess {
        lemma_keyword_spellings_2(k);
    }
    if k == TokenKind::KwMinAccess || k == TokenKind::KwStatus || k == TokenKind::KwDescription || k == TokenKind::KwReference || k == TokenKind::KwIndex || k == TokenKind::KwAugments || k == TokenKind::KwDefval || k == TokenKind::KwImplied {
        lemma_keyword_spellings_3(k);
    }
    if k == TokenKind::KwLastUpdated || k == TokenKind::KwOrganization || k == TokenKind::KwContactInfo || k == TokenKind::KwRevision || k == TokenKind::KwObjects || k == TokenKind::KwNotifications || k == TokenKind::KwEnterprise || k == TokenKind::KwVariables {
        lemma_keyword_spellings_4(k);
    }
    if k == TokenKind::KwDisplayHint || k == TokenKind::KwModule || k == TokenKind::KwMandatoryGroups || k == TokenKind::KwGroup || k == TokenKind::KwProductRelease || k == TokenKind::KwSupports || k == TokenKind::KwIncludes || k == TokenKind::KwVariation {
        lemma_keyword_spellings_5(k);
    }
    if k == TokenKind::KwCreationRequires || k == TokenKind::KwInteger || k == TokenKind::KwBits || k == TokenKind::KwOctet || k == TokenKind::KwString || k == TokenKind::KwSequence || k == TokenKind::KwOf || k == TokenKind::KwChoice {
        lemma_keyword_spellings_6(k);
    }
    if k == TokenKind::KwSize || k == TokenKind::KwApplication || k == TokenKind::KwUniversal || k == TokenKind::KwImplicit || k == TokenKind::KwCounter32 || k == TokenKind::KwCounter64 || k == TokenKind::KwGauge32 || k == TokenKind::KwUnsigned32 {
        lemma_keyword_spellings_7(k);
    }
    if k == TokenKind::KwTimeTicks || k == TokenKind::KwIpAddress || k == TokenKind::KwOpaque || k == TokenKind::KwCounter || k == TokenKind::KwGauge || k == TokenKind::KwNetworkAddress || k == TokenKind::KwReadOnly || k == TokenKind::KwReadWrite {
        lemma_keyword_spellings_8(k);
    }
    if k == TokenKind::KwReadCreate || k == TokenKind::KwNotAccessible || k == TokenKind::KwAccessibleForNotify || k == TokenKind::KwWriteOnly || k == TokenKind::KwNotImplemented || k == TokenKind::KwCurrent || k == TokenKind::KwDeprecated || k == TokenKind::KwObsolete {
        lemma_keyword_spellings_9(k);
    }
    if k == TokenKind::KwMandatory || k == TokenKind::KwOptional {
        lemma_keyword_spellings_10(k);
    }
}

} // verus!
