//! Syntax tree of a parsed MIB module.
//!
//! Every node carries the [`SourceRange`] of the text it was parsed from.

use vstd::prelude::*;

use crate::source::SourceRange;
use crate::types::{Access, AccessKeyword, Diagnostic, Status};

verus! {

/// An identifier and where it was written.
#[derive(Clone, Debug, PartialEq, Eq)]
pub struct Ident {
    pub name: String,
    pub span: SourceRange,
}

/// The contents of a quoted string (without the quotes) and where it was written.
#[derive(Clone, Debug, PartialEq, Eq)]
pub struct QuotedString {
    pub value: String,
    pub span: SourceRange,
}

/// One parsed module: its header name, imports, definitions and diagnostics.
#[derive(Debug)]
pub struct Module {
    /// `None` when the module header could not be parsed.
    pub name: Option<Ident>,
    pub imports: Vec<ImportClause>,
    pub body: Vec<Definition>,
    pub span: SourceRange,
    pub diagnostics: Vec<Diagnostic>,
}

/// `symbols FROM module` inside an IMPORTS clause.
#[derive(Clone, Debug)]
pub struct ImportClause {
    pub symbols: Vec<Ident>,
    pub from_module: Ident,
    pub span: SourceRange,
}

/// A top-level definition inside a module body.
#[derive(Debug)]
pub enum Definition {
    ObjectType(Box<ObjectTypeDef>),
    ModuleIdentity(ModuleIdentityDef),
    ObjectIdentity(ObjectIdentityDef),
    NotificationType(NotificationTypeDef),
    TrapType(TrapTypeDef),
    TextualConvention(TextualConventionDef),
    TypeAssignment(TypeAssignmentDef),
    ValueAssignment(ValueAssignmentDef),
    ObjectGroup(ObjectGroupDef),
    NotificationGroup(NotificationGroupDef),
    ModuleCompliance(ModuleComplianceDef),
    AgentCapabilities(AgentCapabilitiesDef),
    MacroDefinition(MacroDefinitionDef),
}

/// An OBJECT-TYPE definition.
#[derive(Debug)]
pub struct ObjectTypeDef {
    pub name: Ident,
    pub syntax: Option<SyntaxClause>,
    pub units: Option<QuotedString>,
    pub access: Option<AccessClause>,
    pub status: Option<StatusClause>,
    pub description: Option<QuotedString>,
    pub reference: Option<QuotedString>,
    pub index: Option<IndexClause>,
    pub augments: Option<AugmentsClause>,
    pub defval: Option<DefValClause>,
    pub oid: OidAssignment,
    pub span: SourceRange,
}

/// A MODULE-IDENTITY definition.
#[derive(Clone, Debug)]
pub struct ModuleIdentityDef {
    pub name: Ident,
    pub last_updated: QuotedString,
    pub organization: QuotedString,
    pub contact_info: QuotedString,
    pub description: QuotedString,
    pub revisions: Vec<RevisionClause>,
    pub oid: OidAssignment,
    pub span: SourceRange,
}

/// A REVISION clause of a MODULE-IDENTITY.
#[derive(Clone, Debug)]
pub struct RevisionClause {
    pub date: QuotedString,
    pub description: QuotedString,
    pub span: SourceRange,
}

/// An OBJECT-IDENTITY definition.
#[derive(Clone, Debug)]
pub struct ObjectIdentityDef {
    pub name: Ident,
    pub status: StatusClause,
    pub description: QuotedString,
    pub reference: Option<QuotedString>,
    pub oid: OidAssignment,
    pub span: SourceRange,
}

/// A NOTIFICATION-TYPE definition.
#[derive(Clone, Debug)]
pub struct NotificationTypeDef {
    pub name: Ident,
    pub objects: Vec<Ident>,
    pub status: StatusClause,
    pub description: QuotedString,
    pub reference: Option<QuotedString>,
    pub oid: OidAssignment,
    pub span: SourceRange,
}

/// An SMIv1 TRAP-TYPE definition.
#[derive(Clone, Debug)]
pub struct TrapTypeDef {
    pub name: Ident,
    pub enterprise: Ident,
    pub variables: Vec<Ident>,
    pub description: Option<QuotedString>,
    pub reference: Option<QuotedString>,
    pub trap_number: u32,
    pub span: SourceRange,
}

/// A TEXTUAL-CONVENTION definition.
#[derive(Debug)]
pub struct TextualConventionDef {
    pub name: Ident,
    pub display_hint: Option<QuotedString>,
    pub status: StatusClause,
    pub description: QuotedString,
    pub reference: Option<QuotedString>,
    pub syntax: SyntaxClause,
    pub span: SourceRange,
}

/// A type assignment `Name ::= syntax`.
#[derive(Debug)]
pub struct TypeAssignmentDef {
    pub name: Ident,
    pub syntax: TypeSyntax,
    pub span: SourceRange,
}

/// A value assignment `name OBJECT IDENTIFIER ::= { ... }`.
#[derive(Clone, Debug)]
pub struct ValueAssignmentDef {
    pub name: Ident,
    pub oid: OidAssignment,
    pub span: SourceRange,
}

/// An OBJECT-GROUP definition.
#[derive(Clone, Debug)]
pub struct ObjectGroupDef {
    pub name: Ident,
    pub objects: Vec<Ident>,
    pub status: StatusClause,
    pub description: QuotedString,
    pub reference: Option<QuotedString>,
    pub oid: OidAssignment,
    pub span: SourceRange,
}

/// A NOTIFICATION-GROUP definition.
#[derive(Clone, Debug)]
pub struct NotificationGroupDef {
    pub name: Ident,
    pub notifications: Vec<Ident>,
    pub status: StatusClause,
    pub description: QuotedString,
    pub reference: Option<QuotedString>,
    pub oid: OidAssignment,
    pub span: SourceRange,
}

/// A MODULE-COMPLIANCE definition.
#[derive(Debug)]
pub struct ModuleComplianceDef {
    pub name: Ident,
    pub status: StatusClause,
    pub description: QuotedString,
    pub reference: Option<QuotedString>,
    pub modules: Vec<ComplianceModule>,
    pub oid: OidAssignment,
    pub span: SourceRange,
}

/// A MODULE clause of a MODULE-COMPLIANCE.
#[derive(Debug)]
pub struct ComplianceModule {
    pub module_name: Option<Ident>,
    pub module_oid: Option<OidAssignment>,
    pub mandatory_groups: Vec<Ident>,
    pub compliances: Vec<Compliance>,
    pub span: SourceRange,
}

/// A GROUP or OBJECT refinement inside a compliance MODULE clause.
#[derive(Debug)]
pub enum Compliance {
    Group(ComplianceGroup),
    Object(Box<ComplianceObject>),
}

/// A GROUP refinement.
#[derive(Clone, Debug)]
pub struct ComplianceGroup {
    pub group: Ident,
    pub description: QuotedString,
    pub span: SourceRange,
}

/// An OBJECT refinement.
#[derive(Debug)]
pub struct ComplianceObject {
    pub object: Ident,
    pub syntax: Option<SyntaxClause>,
    pub write_syntax: Option<SyntaxClause>,
    pub min_access: Option<AccessClause>,
    pub description: QuotedString,
    pub span: SourceRange,
}

/// An AGENT-CAPABILITIES definition.
#[derive(Debug)]
pub struct AgentCapabilitiesDef {
    pub name: Ident,
    pub product_release: QuotedString,
    pub status: StatusClause,
    pub description: QuotedString,
    pub reference: Option<QuotedString>,
    pub supports: Vec<SupportsModule>,
    pub oid: OidAssignment,
    pub span: SourceRange,
}

/// A SUPPORTS clause of an AGENT-CAPABILITIES.
#[derive(Debug)]
pub struct SupportsModule {
    pub module_name: Ident,
    pub module_oid: Option<OidAssignment>,
    pub includes: Vec<Ident>,
    pub variations: Vec<Variation>,
    pub span: SourceRange,
}

/// A VARIATION clause of a SUPPORTS clause.
#[derive(Debug)]
pub struct Variation {
    pub name: Ident,
    pub syntax: Option<SyntaxClause>,
    pub write_syntax: Option<SyntaxClause>,
    pub access: Option<AccessClause>,
    pub creation_requires: Vec<Ident>,
    pub defval: Option<DefValClause>,
    pub description: QuotedString,
    pub span: SourceRange,
}

/// A MACRO definition, whose body is not interpreted.
#[derive(Clone, Debug)]
pub struct MacroDefinitionDef {
    pub name: Ident,
    pub span: SourceRange,
}

/// A SYNTAX clause.
#[derive(Debug)]
pub struct SyntaxClause {
    pub syntax: TypeSyntax,
    pub span: SourceRange,
}

/// An ACCESS, MAX-ACCESS or MIN-ACCESS clause.
#[derive(Clone, Debug)]
pub struct AccessClause {
    pub keyword: AccessKeyword,
    pub value: Access,
    pub span: SourceRange,
}

/// A STATUS clause.
#[derive(Clone, Debug)]
pub struct StatusClause {
    pub value: Status,
    pub span: SourceRange,
}

/// An INDEX clause.
#[derive(Clone, Debug)]
pub struct IndexClause {
    pub items: Vec<IndexItem>,
    pub span: SourceRange,
}

/// One INDEX component.
#[derive(Clone, Debug)]
pub struct IndexItem {
    pub implied: bool,
    pub object: Ident,
    pub span: SourceRange,
}

/// An AUGMENTS clause.
#[derive(Clone, Debug)]
pub struct AugmentsClause {
    pub target: Ident,
    pub span: SourceRange,
}

/// A DEFVAL clause.
#[derive(Clone, Debug)]
pub struct DefValClause {
    pub value: DefVal,
    pub span: SourceRange,
}

/// The value inside a DEFVAL clause, as written.
#[derive(Clone, Debug)]
pub enum DefVal {
    Integer(i64),
    Unsigned(u64),
    String(QuotedString),
    HexString { content: String, span: SourceRange },
    BinaryString { content: String, span: SourceRange },
    Identifier(Ident),
    Bits { labels: Vec<Ident>, span: SourceRange },
    ObjectIdentifier { components: Vec<OidComponent>, span: SourceRange },
    Unparsed { span: SourceRange },
}

/// The `{ ... }` OID value of a definition.
#[derive(Clone, Debug)]
pub struct OidAssignment {
    pub components: Vec<OidComponent>,
    pub span: SourceRange,
}

/// One component of an OID value.
#[derive(Clone, Debug)]
pub enum OidComponent {
    Name(Ident),
    Number { value: u32, span: SourceRange },
    NamedNumber { name: Ident, num: u32, span: SourceRange },
    QualifiedName { module_name: Ident, name: Ident, span: SourceRange },
    QualifiedNamedNumber { module_name: Ident, name: Ident, num: u32, span: SourceRange },
}

/// A type as written in a SYNTAX clause or type assignment.
#[derive(Debug)]
pub enum TypeSyntax {
    TypeRef(Ident),
    IntegerEnum { base: Option<Ident>, named_numbers: Vec<NamedNumber>, span: SourceRange },
    Bits { named_bits: Vec<NamedNumber>, span: SourceRange },
    OctetString { span: SourceRange },
    ObjectIdentifier { span: SourceRange },
    SequenceOf { entry_type: Ident, span: SourceRange },
    Sequence { fields: Vec<SequenceField>, span: SourceRange },
    Choice { alternatives: Vec<SequenceField>, span: SourceRange },
    Constrained { base: Box<TypeSyntax>, constraint: Constraint, span: SourceRange },
    Tagged { underlying: Box<TypeSyntax>, span: SourceRange },
}

impl TypeSyntax {
    /// The source range of this syntax.
    pub open spec fn spec_span(&self) -> SourceRange {
        match self {
            TypeSyntax::TypeRef(ident) => ident.span,
            TypeSyntax::IntegerEnum { span, .. } => *span,
            TypeSyntax::Bits { span, .. } => *span,
            TypeSyntax::OctetString { span } => *span,
            TypeSyntax::ObjectIdentifier { span } => *span,
            TypeSyntax::SequenceOf { span, .. } => *span,
            TypeSyntax::Sequence { span, .. } => *span,
            TypeSyntax::Choice { span, .. } => *span,
            TypeSyntax::Constrained { span, .. } => *span,
            TypeSyntax::Tagged { span, .. } => *span,
        }
    }

    /// Return the source range of this syntax.
    pub fn span(&self) -> (r: SourceRange)
        ensures
            r == self.spec_span(),
    {
        match self {
            TypeSyntax::TypeRef(ident) => ident.span,
            TypeSyntax::IntegerEnum { span, .. } => *span,
            TypeSyntax::Bits { span, .. } => *span,
            TypeSyntax::OctetString { span } => *span,
            TypeSyntax::ObjectIdentifier { span } => *span,
            TypeSyntax::SequenceOf { span, .. } => *span,
            TypeSyntax::Sequence { span, .. } => *span,
            TypeSyntax::Choice { span, .. } => *span,
            TypeSyntax::Constrained { span, .. } => *span,
            TypeSyntax::Tagged { span, .. } => *span,
        }
    }
}

/// A label with its number, in an enumeration or BITS list.
#[derive(Clone, Debug)]
pub struct NamedNumber {
    pub name: Ident,
    pub value: i64,
    pub span: SourceRange,
}

/// A named field of a SEQUENCE or alternative of a CHOICE.
#[derive(Debug)]
pub struct SequenceField {
    pub name: Ident,
    pub syntax: TypeSyntax,
    pub span: SourceRange,
}

/// A SIZE or value-range constraint.
#[derive(Clone, Debug)]
pub enum Constraint {
    Size { ranges: Vec<Range>, span: SourceRange },
    Range { ranges: Vec<Range>, span: SourceRange },
}

impl Constraint {
    /// The source range of this constraint.
    pub open spec fn spec_span(&self) -> SourceRange {
        match self {
            Constraint::Size { span, .. } => *span,
            Constraint::Range { span, .. } => *span,
        }
    }

    /// Return the source range of this constraint.
    pub fn span(&self) -> (r: SourceRange)
        ensures
            r == self.spec_span(),
    {
        match self {
            Constraint::Size { span, .. } => *span,
            Constraint::Range { span, .. } => *span,
        }
    }
}

/// One `min..max` (or single value) item of a constraint.
#[derive(Clone, Debug)]
pub struct Range {
    pub min: RangeValue,
    pub max: Option<RangeValue>,
    pub span: SourceRange,
}

/// An endpoint of a constraint range as written.
#[derive(Clone, Debug, PartialEq, Eq)]
pub enum RangeValue {
    Signed(i64),
    Unsigned(u64),
    Named(Ident),
    /// Text that could not be read as a number, kept as written.
    Raw(String),
}

} // verus!
