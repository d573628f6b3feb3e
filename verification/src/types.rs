//! Shared vocabulary types: statuses, access levels, base types, diagnostics
//! and the configuration that decides which diagnostics are collected.

use vstd::prelude::*;

use crate::source::SourceRange;

verus! {

/// Definition status from a STATUS clause.
#[derive(Clone, Copy, Debug, PartialEq, Eq, Structural, Hash)]
pub enum Status {
    Current,
    Deprecated,
    Obsolete,
    Mandatory,
    Optional,
}

impl Status {
    /// The SMI keyword that writes this status.
    pub open spec fn spec_keyword_text(self) -> &'static str {
        match self {
            Status::Current => "current",
            Status::Deprecated => "deprecated",
            Status::Obsolete => "obsolete",
            Status::Mandatory => "mandatory",
            Status::Optional => "optional",
        }
    }

    /// Return the SMI keyword that writes this status.
    pub fn as_str(self) -> (s: &'static str)
        ensures
            s == self.spec_keyword_text(),
    {
        match self {
            Status::Current => "current",
            Status::Deprecated => "deprecated",
            Status::Obsolete => "obsolete",
            Status::Mandatory => "mandatory",
            Status::Optional => "optional",
        }
    }
}

impl Default for Status {
    fn default() -> (s: Status)
        ensures
            s == Status::Current,
    {
        Status::Current
    }
}

/// Access level from an ACCESS, MAX-ACCESS or MIN-ACCESS clause.
#[derive(Clone, Copy, Debug, PartialEq, Eq, Structural, Hash)]
pub enum Access {
    ReadOnly,
    ReadWrite,
    ReadCreate,
    NotAccessible,
    AccessibleForNotify,
    WriteOnly,
    NotImplemented,
}

impl Access {
    /// The SMI keyword that writes this access value.
    pub open spec fn spec_keyword_text(self) -> &'static str {
        match self {
            Access::ReadOnly => "read-only",
            Access::ReadWrite => "read-write",
            Access::ReadCreate => "read-create",
            Access::NotAccessible => "not-accessible",
            Access::AccessibleForNotify => "accessible-for-notify",
            Access::WriteOnly => "write-only",
            Access::NotImplemented => "not-implemented",
        }
    }

    /// Return the SMI keyword that writes this access value.
    pub fn as_str(self) -> (s: &'static str)
        ensures
            s == self.spec_keyword_text(),
    {
        match self {
            Access::ReadOnly => "read-only",
            Access::ReadWrite => "read-write",
            Access::ReadCreate => "read-create",
            Access::NotAccessible => "not-accessible",
            Access::AccessibleForNotify => "accessible-for-notify",
            Access::WriteOnly => "write-only",
            Access::NotImplemented => "not-implemented",
        }
    }
}

/// Which keyword introduced an access clause.
#[derive(Clone, Copy, Debug, PartialEq, Eq, Structural, Hash)]
pub enum AccessKeyword {
    Access,
    MaxAccess,
    MinAccess,
}

impl AccessKeyword {
    /// The SMI keyword that introduces an access clause of this kind.
    pub open spec fn spec_keyword_text(self) -> &'static str {
        match self {
            AccessKeyword::Access => "ACCESS",
            AccessKeyword::MaxAccess => "MAX-ACCESS",
            AccessKeyword::MinAccess => "MIN-ACCESS",
        }
    }

    /// Return the SMI keyword that introduces an access clause of this kind.
    pub fn as_str(self) -> (s: &'static str)
        ensures
            s == self.spec_keyword_text(),
    {
        match self {
            AccessKeyword::Access => "ACCESS",
            AccessKeyword::MaxAccess => "MAX-ACCESS",
            AccessKeyword::MinAccess => "MIN-ACCESS",
        }
    }
}

/// SMI language of a module.
#[derive(Clone, Copy, Debug, PartialEq, Eq, Structural, Hash)]
pub enum Language {
    Unknown,
    SMIv1,
    SMIv2,
    SPPI,
}

/// The primitive SMI type that a type ultimately refines.
#[derive(Clone, Copy, Debug, PartialEq, Eq, Structural, Hash)]
pub enum BaseType {
    Unknown,
    Integer32,
    Unsigned32,
    Counter32,
    Counter64,
    Gauge32,
    TimeTicks,
    IpAddress,
    OctetString,
    ObjectIdentifier,
    Bits,
    Opaque,
    Sequence,
}

/// How an index component is encoded in an instance OID.
#[derive(Clone, Copy, Debug, PartialEq, Eq, Structural, Hash)]
pub enum IndexEncoding {
    Unknown,
    Integer,
    FixedString,
    LengthPrefixed,
    Implied,
    IpAddress,
}

/// The resolver domain in which a name is looked up.
#[derive(Clone, Copy, Debug, PartialEq, Eq, Structural, Hash)]
pub enum ResolutionDomain {
    Type,
    Oid,
    Object,
    GroupMember,
    Index,
    NotificationObject,
    Conformance,
}

/// How liberally the resolver falls back when a name is not in scope.
#[derive(Clone, Copy, Debug, PartialEq, Eq, Structural, Hash)]
pub enum ResolverStrictness {
    /// Only scoped definitions and imports.
    Strict,
    /// Also the SMI foundation modules.
    Normal,
    /// Also any loaded module.
    Permissive,
}

impl ResolverStrictness {
    /// Whether foundation-module fallbacks apply.
    pub fn allow_constrained_fallbacks(self) -> (r: bool)
        ensures
            r == (self != ResolverStrictness::Strict),
    {
        !matches!(self, ResolverStrictness::Strict)
    }

    /// Whether global fallbacks apply.
    pub fn allow_global_fallbacks(self) -> (r: bool)
        ensures
            r == (self == ResolverStrictness::Permissive),
    {
        matches!(self, ResolverStrictness::Permissive)
    }
}

/// A byte span inside a module's source.
#[derive(Clone, Copy, Debug, PartialEq, Eq, Structural, Hash)]
pub struct Span {
    pub start: u32,
    pub end: u32,
}

impl Span {
    /// The span of definitions that have no source text.
    pub fn synthetic() -> (s: Span)
        ensures
            s.start == 0 && s.end == 0,
    {
        Span { start: 0, end: 0 }
    }

    /// Create a span.
    pub fn new(start: u32, end: u32) -> (s: Span)
        ensures
            s.start == start && s.end == end,
    {
        Span { start, end }
    }
}

/// Severity of a diagnostic, from most to least serious.
#[derive(Clone, Copy, Debug, PartialEq, Eq, Structural, Hash)]
pub enum Severity {
    Fatal,
    Severe,
    Error,
    Minor,
    Style,
    Warning,
    Info,
}

/// Numeric rank of a severity: smaller is more serious.
pub open spec fn severity_rank(s: Severity) -> int {
    match s {
        Severity::Fatal => 0,
        Severity::Severe => 1,
        Severity::Error => 2,
        Severity::Minor => 3,
        Severity::Style => 4,
        Severity::Warning => 5,
        Severity::Info => 6,
    }
}

/// Return the rank of a severity (see [`severity_rank`]).
pub fn severity_level(s: Severity) -> (r: u8)
    ensures
        r == severity_rank(s),
{
    match s {
        Severity::Fatal => 0,
        Severity::Severe => 1,
        Severity::Error => 2,
        Severity::Minor => 3,
        Severity::Style => 4,
        Severity::Warning => 5,
        Severity::Info => 6,
    }
}

/// Identifies the rule that produced a diagnostic.
#[derive(Clone, Copy, Debug, PartialEq, Eq, Structural, Hash)]
pub enum DiagCode {
    ParseError,
    IdentifierUnderscore,
    IdentifierHyphenEnd,
    IdentifierLength64,
    IdentifierLength32,
    BadIdentifierCase,
    KeywordReserved,
    InvalidU32,
    InvalidI64,
    UnknownRangeValue,
    InvalidHexRange,
    MissingComma,
    NumberLeadingZero,
    UnexpectedCharacter,
    UnterminatedString,
    InvalidStringLiteral,
}

/// The built-in severity of each diagnostic code.
pub open spec fn spec_default_severity(code: DiagCode) -> Severity {
    match code {
        DiagCode::ParseError => Severity::Severe,
        DiagCode::UnterminatedString => Severity::Severe,
        DiagCode::UnexpectedCharacter => Severity::Error,
        DiagCode::InvalidStringLiteral => Severity::Error,
        DiagCode::InvalidU32 => Severity::Error,
        DiagCode::InvalidI64 => Severity::Error,
        DiagCode::UnknownRangeValue => Severity::Error,
        DiagCode::InvalidHexRange => Severity::Error,
        DiagCode::KeywordReserved => Severity::Error,
        DiagCode::MissingComma => Severity::Minor,
        DiagCode::BadIdentifierCase => Severity::Minor,
        DiagCode::IdentifierLength64 => Severity::Minor,
        DiagCode::IdentifierUnderscore => Severity::Style,
        DiagCode::IdentifierHyphenEnd => Severity::Style,
        DiagCode::NumberLeadingZero => Severity::Style,
        DiagCode::IdentifierLength32 => Severity::Warning,
    }
}

impl DiagCode {
    /// Return the built-in severity of this code.
    pub fn default_severity(self) -> (s: Severity)
        ensures
            s == spec_default_severity(self),
    {
        match self {
            DiagCode::ParseError => Severity::Severe,
            DiagCode::UnterminatedString => Severity::Severe,
            DiagCode::UnexpectedCharacter => Severity::Error,
            DiagCode::InvalidStringLiteral => Severity::Error,
            DiagCode::InvalidU32 => Severity::Error,
            DiagCode::InvalidI64 => Severity::Error,
            DiagCode::UnknownRangeValue => Severity::Error,
            DiagCode::InvalidHexRange => Severity::Error,
            DiagCode::KeywordReserved => Severity::Error,
            DiagCode::MissingComma => Severity::Minor,
            DiagCode::BadIdentifierCase => Severity::Minor,
            DiagCode::IdentifierLength64 => Severity::Minor,
            DiagCode::IdentifierUnderscore => Severity::Style,
            DiagCode::IdentifierHyphenEnd => Severity::Style,
            DiagCode::NumberLeadingZero => Severity::Style,
            DiagCode::IdentifierLength32 => Severity::Warning,
        }
    }

    /// The stable textual name of this code, as used in ignore lists.
    pub open spec fn spec_name(self) -> &'static str {
        match self {
            DiagCode::ParseError => "parse-error",
            DiagCode::IdentifierUnderscore => "identifier-underscore",
            DiagCode::IdentifierHyphenEnd => "identifier-hyphen-end",
            DiagCode::IdentifierLength64 => "identifier-length-64",
            DiagCode::IdentifierLength32 => "identifier-length-32",
            DiagCode::BadIdentifierCase => "bad-identifier-case",
            DiagCode::KeywordReserved => "keyword-reserved",
            DiagCode::InvalidU32 => "invalid-u32",
            DiagCode::InvalidI64 => "invalid-i64",
            DiagCode::UnknownRangeValue => "unknown-range-value",
            DiagCode::InvalidHexRange => "invalid-hex-range",
            DiagCode::MissingComma => "missing-comma",
            DiagCode::NumberLeadingZero => "number-leading-zero",
            DiagCode::UnexpectedCharacter => "unexpected-character",
            DiagCode::UnterminatedString => "unterminated-string",
            DiagCode::InvalidStringLiteral => "invalid-string-literal",
        }
    }

    /// Return the stable textual name of this code, as used in ignore lists.
    pub fn as_str(self) -> (s: &'static str)
        ensures
            s == self.spec_name(),
    {
        match self {
            DiagCode::ParseError => "parse-error",
            DiagCode::IdentifierUnderscore => "identifier-underscore",
            DiagCode::IdentifierHyphenEnd => "identifier-hyphen-end",
            DiagCode::IdentifierLength64 => "identifier-length-64",
            DiagCode::IdentifierLength32 => "identifier-length-32",
            DiagCode::BadIdentifierCase => "bad-identifier-case",
            DiagCode::KeywordReserved => "keyword-reserved",
            DiagCode::InvalidU32 => "invalid-u32",
            DiagCode::InvalidI64 => "invalid-i64",
            DiagCode::UnknownRangeValue => "unknown-range-value",
            DiagCode::InvalidHexRange => "invalid-hex-range",
            DiagCode::MissingComma => "missing-comma",
            DiagCode::NumberLeadingZero => "number-leading-zero",
            DiagCode::UnexpectedCharacter => "unexpected-character",
            DiagCode::UnterminatedString => "unterminated-string",
            DiagCode::InvalidStringLiteral => "invalid-string-literal",
        }
    }
}

/// A diagnostic reported while lexing, parsing or resolving.
#[derive(Clone, Debug)]
pub struct Diagnostic {
    pub severity: Severity,
    pub code: DiagCode,
    pub message: String,
    pub module: Option<String>,
    pub range: Option<SourceRange>,
}

/// How much is reported.
#[derive(Clone, Copy, Debug, PartialEq, Eq, Structural, Hash)]
pub enum ReportingLevel {
    /// Nothing is collected.
    Silent,
    /// Only fatal, severe and error diagnostics.
    Quiet,
    /// Everything down to minor problems.
    Default,
    /// Everything.
    Verbose,
}

/// The most lenient severity rank collected at a reporting level, or -1 for none.
pub open spec fn reporting_threshold(level: ReportingLevel) -> int {
    match level {
        ReportingLevel::Silent => -1,
        ReportingLevel::Quiet => 2,
        ReportingLevel::Default => 3,
        ReportingLevel::Verbose => 6,
    }
}

/// Decides which diagnostics are collected.
#[derive(Clone, Debug)]
pub struct DiagnosticConfig {
    pub reporting: ReportingLevel,
    /// Textual codes (see [`DiagCode::as_str`]) that are never collected.
    pub ignore: Vec<String>,
}

/// Whether a code's textual name is in an ignore list.
pub open spec fn spec_is_ignored(ignore: Seq<Seq<char>>, name: Seq<char>) -> bool {
    exists|i: int| 0 <= i < ignore.len() && ignore[i] == name
}

/// The names of an ignore list.
pub open spec fn ignore_names(ignore: Seq<String>) -> Seq<Seq<char>> {
    ignore.map_values(|s: String| s@)
}

impl DiagnosticConfig {
    /// Collect nothing.
    pub fn silent() -> (c: DiagnosticConfig)
        ensures
            c.reporting == ReportingLevel::Silent,
            c.ignore@.len() == 0,
    {
        DiagnosticConfig { reporting: ReportingLevel::Silent, ignore: Vec::new() }
    }

    /// Collect everything.
    pub fn verbose() -> (c: DiagnosticConfig)
        ensures
            c.reporting == ReportingLevel::Verbose,
            c.ignore@.len() == 0,
    {
        DiagnosticConfig { reporting: ReportingLevel::Verbose, ignore: Vec::new() }
    }

    /// Collect only fatal, severe and error diagnostics.
    pub fn quiet() -> (c: DiagnosticConfig)
        ensures
            c.reporting == ReportingLevel::Quiet,
            c.ignore@.len() == 0,
    {
        DiagnosticConfig { reporting: ReportingLevel::Quiet, ignore: Vec::new() }
    }

    /// Whether the given code's name is in the ignore list.
    pub open spec fn spec_ignores(&self, code: DiagCode) -> bool {
        spec_is_ignored(ignore_names(self.ignore@), code.spec_name()@)
    }

    /// Whether diagnostics with this code are collected.
    pub open spec fn spec_should_collect(&self, code: DiagCode) -> bool {
        &&& !self.spec_ignores(code)
        &&& severity_rank(spec_default_severity(code)) <= reporting_threshold(self.reporting)
    }

    /// Return whether diagnostics with this code are collected.
    pub fn should_collect(&self, code: DiagCode) -> (r: bool)
        ensures
            r == self.spec_should_collect(code),
    {
        let rank = severity_level(code.default_severity());
        let admitted = match self.reporting {
            ReportingLevel::Silent => false,
            ReportingLevel::Quiet => rank <= 2,
            ReportingLevel::Default => rank <= 3,
            ReportingLevel::Verbose => true,
        };
        if !admitted {
            return false;
        }
        let name = code.as_str();
        let mut i: usize = 0;
        while i < self.ignore.len()
            invariant
                0 <= i <= self.ignore@.len(),
                forall|j: int| 0 <= j < i ==> self.ignore@[j]@ != name@,
                name == code.spec_name(),
            decreases self.ignore@.len() - i,
        {
            if crate::text::str_equal(self.ignore[i].as_str(), name) {
                assert(ignore_names(self.ignore@)[i as int] == name@);
                assert(ignore_names(self.ignore@).len() == self.ignore@.len());
                return false;
            }
            i = i + 1;
        }
        assert forall|j: int| 0 <= j < ignore_names(self.ignore@).len() implies ignore_names(
            self.ignore@,
        )[j] != name@ by {
            assert(ignore_names(self.ignore@)[j] == self.ignore@[j]@);
        }
        true
    }

    /// Return the severity assigned to diagnostics with this code.
    pub fn effective_severity(&self, code: DiagCode) -> (s: Severity)
        ensures
            s == spec_default_severity(code),
    {
        code.default_severity()
    }
}

impl Default for DiagnosticConfig {
    fn default() -> (c: DiagnosticConfig)
        ensures
            c.reporting == ReportingLevel::Default,
            c.ignore@.len() == 0,
    {
        DiagnosticConfig { reporting: ReportingLevel::Default, ignore: Vec::new() }
    }
}

} // verus!
