//! Recursive descent parser for SMI MIB modules.
//!
//! Parses SMIv1 and SMIv2 syntax (plus common vendor deviations) into
//! [`Module`] nodes. Works over the document's comment-free token stream with
//! arbitrary lookahead, and recovers from errors by scanning to the next
//! definition boundary.

use vstd::prelude::*;
use vstd::string::StringSliceAdditionalSpecFns;
use vstd::utf8::valid_utf8;

use crate::ast::{
    AccessClause, AgentCapabilitiesDef, AugmentsClause, Compliance, ComplianceGroup, ComplianceModule, ComplianceObject, Constraint, DefVal, DefValClause, Definition, Ident, ImportClause, IndexClause, IndexItem, MacroDefinitionDef, Module, ModuleComplianceDef, ModuleIdentityDef, NamedNumber, NotificationGroupDef, NotificationTypeDef, ObjectGroupDef, ObjectIdentityDef, ObjectTypeDef, OidAssignment, OidComponent, QuotedString, Range, RangeValue, RevisionClause, SequenceField, StatusClause, SupportsModule, SyntaxClause, TextualConventionDef, TrapTypeDef, TypeAssignmentDef, TypeSyntax, ValueAssignmentDef, Variation,
};
use crate::lexer::{diag_keys, eof_token, lex_reports_from, lex_tokens_from, token_shape, tokenize_bytes, token_stream, lemma_keyword_spelling_round_trip, spec_keyword, Token, TokenKind};
use crate::num::{parse_dec_i64, parse_dec_u64, parse_hex_u64, parse_i64_spec};
use crate::source::{SourceDocument, SourceId, SourceRange};
use crate::text::{ascii_chars, bytes_equal, lemma_ascii_decode, string_from_bytes_lossy, text_of};
use crate::types::{
    Access, AccessKeyword, DiagCode, Diagnostic, DiagnosticConfig, Status,
};

verus! {

/// The smallest range covering `first` and `last`.
fn cover(first: SourceRange, last: SourceRange) -> (r: SourceRange)
    ensures
        r == SourceRange::spec_cover(first, last),
{
    SourceRange::cover(first, last)
}

/// The status value that a status keyword stands for.
pub open spec fn status_of_kind(k: TokenKind) -> Option<Status> {
    match k {
        TokenKind::KwCurrent => Some(Status::Current),
        TokenKind::KwDeprecated => Some(Status::Deprecated),
        TokenKind::KwObsolete => Some(Status::Obsolete),
        TokenKind::KwMandatory => Some(Status::Mandatory),
        TokenKind::KwOptional => Some(Status::Optional),
        _ => None,
    }
}

/// The access value that an access keyword stands for.
pub open spec fn access_of_kind(k: TokenKind) -> Option<Access> {
    match k {
        TokenKind::KwReadOnly => Some(Access::ReadOnly),
        TokenKind::KwReadWrite => Some(Access::ReadWrite),
        TokenKind::KwReadCreate => Some(Access::ReadCreate),
        TokenKind::KwNotAccessible => Some(Access::NotAccessible),
        TokenKind::KwAccessibleForNotify => Some(Access::AccessibleForNotify),
        TokenKind::KwWriteOnly => Some(Access::WriteOnly),
        TokenKind::KwNotImplemented => Some(Access::NotImplemented),
        _ => None,
    }
}

/// The access keyword that an access clause keyword stands for.
pub open spec fn access_keyword_of_kind(k: TokenKind) -> Option<AccessKeyword> {
    match k {
        TokenKind::KwMaxAccess => Some(AccessKeyword::MaxAccess),
        TokenKind::KwAccess => Some(AccessKeyword::Access),
        TokenKind::KwMinAccess => Some(AccessKeyword::MinAccess),
        _ => None,
    }
}

/// The diagnostic names the module `name`.
pub open spec fn names_module(d: Diagnostic, name: Seq<char>) -> bool {
    match d.module {
        Some(n) => n@ == name,
        None => false,
    }
}

/// Every diagnostic of a named module names that module.
pub open spec fn diagnostics_name_module(m: Module) -> bool {
    match m.name {
        Some(id) => forall|i: int|
            0 <= i < m.diagnostics@.len() ==> names_module(#[trigger] m.diagnostics@[i], id.name@),
        None => true,
    }
}

/// The diagnostic names a range that starts before offset `end`.
pub open spec fn starts_before(d: Diagnostic, end: int) -> bool {
    match d.range {
        Some(rg) => rg.start < end,
        None => false,
    }
}

/// The codes of a list of diagnostics.
pub open spec fn codes_of(ds: Seq<Diagnostic>) -> Seq<DiagCode> {
    ds.map_values(|d: Diagnostic| d.code)
}

/// The code reported when `cond` holds, if the configuration collects it.
pub open spec fn emitted(cfg: DiagnosticConfig, code: DiagCode, cond: bool) -> Seq<DiagCode> {
    if cond && cfg.spec_should_collect(code) {
        seq![code]
    } else {
        Seq::empty()
    }
}

/// The codes reported for an identifier's bytes, in order: an underscore
/// in it, a trailing hyphen, and a length over 64 or else over 32 bytes.
pub open spec fn identifier_findings(cfg: DiagnosticConfig, name: Seq<u8>) -> Seq<DiagCode> {
    emitted(cfg, DiagCode::IdentifierUnderscore, name.contains(0x5fu8)) + emitted(
        cfg,
        DiagCode::IdentifierHyphenEnd,
        name.len() > 0 && name.last() == 0x2d,
    ) + if name.len() > 64 {
        emitted(cfg, DiagCode::IdentifierLength64, true)
    } else {
        emitted(cfg, DiagCode::IdentifierLength32, name.len() > 32)
    }
}

/// One more conditional report keeps the earlier list and extends the codes.
proof fn lemma_emitted_step(
    d0: Seq<Diagnostic>,
    d1: Seq<Diagnostic>,
    d2: Seq<Diagnostic>,
    cfg: DiagnosticConfig,
    code: DiagCode,
    cond: bool,
    span: SourceRange,
)
    requires
        d0.len() <= d1.len(),
        d1.subrange(0, d0.len() as int) == d0,
        forall|i: int| d0.len() <= i < d1.len() ==> (#[trigger] d1[i]).range == Some(span),
        cond && cfg.spec_should_collect(code) ==> d2.len() == d1.len() + 1 && d2.drop_last() == d1
            && d2.last().code == code && d2.last().range == Some(span),
        !(cond && cfg.spec_should_collect(code)) ==> d2 == d1,
    ensures
        d2.subrange(0, d0.len() as int) == d0,
        codes_of(d2.subrange(d0.len() as int, d2.len() as int)) == codes_of(
            d1.subrange(d0.len() as int, d1.len() as int),
        ) + emitted(cfg, code, cond),
        forall|i: int| d0.len() <= i < d2.len() ==> (#[trigger] d2[i]).range == Some(span),
{
    if cond && cfg.spec_should_collect(code) {
        assert(d2.subrange(0, d0.len() as int) =~= d1.subrange(0, d0.len() as int));
        assert(codes_of(d2.subrange(d0.len() as int, d2.len() as int)) =~= codes_of(
            d1.subrange(d0.len() as int, d1.len() as int),
        ) + emitted(cfg, code, cond));
        assert forall|i: int| d0.len() <= i < d2.len() implies (#[trigger] d2[i]).range == Some(span) by {
            if i < d1.len() {
                assert(d2[i] == d1[i]);
            }
        }
    } else {
        assert(codes_of(d2.subrange(d0.len() as int, d2.len() as int)) =~= codes_of(
            d1.subrange(d0.len() as int, d1.len() as int),
        ) + emitted(cfg, code, cond));
    }
}

/// The tokens of a sequence that are not comments, in order.
pub open spec fn code_only(ts: Seq<Token>) -> Seq<Token> {
    ts.filter(|t: Token| t.kind != TokenKind::Comment)
}

/// The tokens a parser reads from a document: everything it lexes to but
/// comments, then the end-of-input token.
pub open spec fn code_tokens(bytes: Seq<u8>, source: SourceId) -> Seq<Token> {
    code_only(lex_tokens_from(bytes, source, 0)).push(eof_token(source, bytes.len() as int))
}

/// Appending a token appends it to the code tokens unless it is a comment.
proof fn lemma_code_only_push(ts: Seq<Token>, t: Token)
    ensures
        code_only(ts.push(t)) == if t.kind != TokenKind::Comment {
            code_only(ts).push(t)
        } else {
            code_only(ts)
        },
{
    reveal(Seq::filter);
    assert(ts.push(t).drop_last() =~= ts);
}

/// A token kind that can be imported: an identifier, or a macro or type
/// keyword.
pub open spec fn importable(k: TokenKind) -> bool {
    k.spec_is_macro_keyword() || k.spec_is_type_keyword() || k.spec_is_identifier()
}

/// The symbol list of an import clause from position `p`: the positions of
/// the symbols (each optionally followed by a comma), the position where the
/// list stops (FROM, `;`, END or the end of input), and whether it stopped
/// there rather than at a token that cannot be imported.
pub open spec fn import_symbols(ts: Seq<Token>, p: int) -> (Seq<int>, int, bool)
    decreases ts.len() - p,
{
    if p < 0 || p >= ts.len() {
        (Seq::empty(), p, false)
    } else {
        let k = ts[p].kind;
        if k == TokenKind::KwFrom || k == TokenKind::Semicolon || k == TokenKind::KwEnd || k
            == TokenKind::Eof {
            (Seq::empty(), p, true)
        } else if importable(k) {
            let q = if p + 1 < ts.len() && ts[p + 1].kind == TokenKind::Comma {
                p + 2
            } else {
                p + 1
            };
            let rest = import_symbols(ts, q);
            (seq![p] + rest.0, rest.1, rest.2)
        } else {
            (Seq::empty(), p, false)
        }
    }
}

/// A symbol list stops at or after where it starts.
pub proof fn lemma_import_symbols_bounds(ts: Seq<Token>, p: int)
    requires
        0 <= p,
    ensures
        import_symbols(ts, p).1 >= p,
    decreases ts.len() - p,
{
    if 0 <= p < ts.len() {
        let k = ts[p].kind;
        if !(k == TokenKind::KwFrom || k == TokenKind::Semicolon || k == TokenKind::KwEnd || k
            == TokenKind::Eof) && importable(k) {
            let q = if p + 1 < ts.len() && ts[p + 1].kind == TokenKind::Comma {
                p + 2
            } else {
                p + 1
            };
            lemma_import_symbols_bounds(ts, q);
        }
    }
}

/// The import clauses from position `p` up to `;`, END or the end of input,
/// and the position where reading stopped. Each clause is its symbol
/// positions, the position of its source module and its first position.
/// `None` when a clause lacks FROM and an uppercase module name after its
/// symbols; reading then stops at the offending token.
pub open spec fn import_clauses(ts: Seq<Token>, p: int) -> (Option<Seq<(Seq<int>, int, int)>>, int)
    decreases ts.len() - p,
{
    if p < 0 || p >= ts.len() {
        (None, p)
    } else {
        let k = ts[p].kind;
        if k == TokenKind::Semicolon || k == TokenKind::KwEnd || k == TokenKind::Eof {
            (Some(Seq::empty()), p)
        } else {
            let syms = import_symbols(ts, p);
            let stop = syms.1;
            if !syms.2 || ts[stop].kind != TokenKind::KwFrom {
                (None, stop)
            } else if stop + 1 >= ts.len() || ts[stop + 1].kind != TokenKind::UppercaseIdent {
                (None, stop + 1)
            } else {
                proof {
                    lemma_import_symbols_bounds(ts, p);
                }
                let rest = import_clauses(ts, stop + 2);
                match rest.0 {
                    Some(cs) => (Some(seq![(syms.0, stop + 1, p)] + cs), rest.1),
                    None => (None, rest.1),
                }
            }
        }
    }
}

/// An identifier read from token `i`: its range is the token's and its name
/// is the token's text.
pub open spec fn ident_of(bytes: Seq<u8>, ts: Seq<Token>, id: Ident, i: int) -> bool {
    &&& id.span == ts[i].span
    &&& id.name@ == ascii_chars(bytes.subrange(ts[i].span.start as int, ts[i].span.end as int))
}

/// An import clause as read from the tokens: its symbols, its source module
/// and its range, from its first token through the module name.
pub open spec fn clause_of(bytes: Seq<u8>, ts: Seq<Token>, c: ImportClause, spec: (Seq<int>, int, int)) -> bool {
    &&& c.symbols@.len() == spec.0.len()
    &&& forall|s: int| 0 <= s < spec.0.len() ==> ident_of(bytes, ts, #[trigger] c.symbols@[s], spec.0[s])
    &&& ident_of(bytes, ts, c.from_module, spec.1)
    &&& c.span == SourceRange::spec_cover(ts[spec.2].span, ts[spec.1].span)
}

/// Import clauses as read from the tokens, one for one.
pub open spec fn clauses_of(bytes: Seq<u8>, ts: Seq<Token>, cs: Seq<ImportClause>, specs: Seq<(Seq<int>, int, int)>) -> bool {
    &&& cs.len() == specs.len()
    &&& forall|c: int| 0 <= c < cs.len() ==> clause_of(bytes, ts, #[trigger] cs[c], specs[c])
}

/// The kind of the token at `i`; past the end, that of the last token (the
/// end of input).
pub open spec fn kind_at(ts: Seq<Token>, i: int) -> TokenKind {
    if 0 <= i < ts.len() {
        ts[i].kind
    } else {
        ts.last().kind
    }
}

/// The bytes token `i` covers.
pub open spec fn token_text(bytes: Seq<u8>, ts: Seq<Token>, i: int) -> Seq<u8> {
    bytes.subrange(ts[i].span.start as int, ts[i].span.end as int)
}

/// A token that can name something: an identifier, or a reserved word used
/// as one.
pub open spec fn name_kind(k: TokenKind) -> bool {
    k.spec_is_identifier() || k == TokenKind::ForbiddenKeyword
}

/// A label of an enumeration item or a named bit: an identifier or a keyword.
pub open spec fn label_kind(k: TokenKind) -> bool {
    k.spec_is_identifier() || k.spec_is_keyword()
}

/// Identifiers read from the tokens at the given positions, one for one.
pub open spec fn idents_at(bytes: Seq<u8>, ts: Seq<Token>, ids: Seq<Ident>, at: Seq<int>) -> bool {
    &&& ids.len() == at.len()
    &&& forall|k: int| 0 <= k < at.len() ==> ident_of(bytes, ts, #[trigger] ids[k], at[k])
}

/// A comma-separated list of names from `p` up to `}` or the end of input:
/// the positions of the names, where the list stops, and whether it stopped
/// there rather than at a token that cannot be a name.
pub open spec fn name_list(ts: Seq<Token>, p: int) -> (Seq<int>, int, bool)
    decreases ts.len() - p,
{
    if p < 0 || p >= ts.len() {
        (Seq::empty(), p, true)
    } else {
        let k = ts[p].kind;
        if k == TokenKind::RBrace || k == TokenKind::Eof {
            (Seq::empty(), p, true)
        } else if name_kind(k) {
            if kind_at(ts, p + 1) == TokenKind::Comma {
                let rest = name_list(ts, p + 2);
                (seq![p] + rest.0, rest.1, rest.2)
            } else {
                (seq![p], p + 1, true)
            }
        } else {
            (Seq::empty(), p, false)
        }
    }
}

/// Whether the tokens at `p` start a definition: a name followed by a macro
/// keyword, by `::=` or by OBJECT IDENTIFIER, or a type name followed by
/// TEXTUAL-CONVENTION or MACRO.
pub open spec fn starts_definition(ts: Seq<Token>, p: int) -> bool {
    let c = kind_at(ts, p);
    let n = kind_at(ts, p + 1);
    ||| c.spec_is_identifier() && n.spec_is_macro_keyword()
    ||| c.spec_is_identifier() && n == TokenKind::ColonColonEqual
    ||| c == TokenKind::UppercaseIdent && n == TokenKind::KwTextualConvention
    ||| c == TokenKind::UppercaseIdent && n == TokenKind::KwMacro
    ||| c.spec_is_identifier() && n == TokenKind::KwObject && kind_at(ts, p + 2)
        == TokenKind::KwIdentifier
}

/// Where skipping ahead from `p` after an error stops: at the first token
/// that starts a definition, at END, or at the end of input.
pub open spec fn recovery_stop(ts: Seq<Token>, p: int) -> int
    decreases ts.len() - p,
{
    if p < 0 || p >= ts.len() - 1 || ts[p].kind == TokenKind::Eof || ts[p].kind == TokenKind::KwEnd
        || starts_definition(ts, p) {
        p
    } else {
        recovery_stop(ts, p + 1)
    }
}

/// Whether `label(number)` sits at `p`, the number being a decimal that
/// fits 64 signed bits.
pub open spec fn named_number_at(bytes: Seq<u8>, ts: Seq<Token>, p: int) -> bool {
    &&& label_kind(kind_at(ts, p))
    &&& kind_at(ts, p + 1) == TokenKind::LParen
    &&& (kind_at(ts, p + 2) == TokenKind::Number || kind_at(ts, p + 2) == TokenKind::NegativeNumber)
    &&& parse_i64_spec(token_text(bytes, ts, p + 2)) is Some
    &&& kind_at(ts, p + 3) == TokenKind::RParen
}

/// `label(number)` items from `p` up to `}` or the end of input, the commas
/// between them optional: the positions of the labels, where the list stops,
/// and whether every item was well formed.
pub open spec fn named_number_items(bytes: Seq<u8>, ts: Seq<Token>, p: int) -> (Seq<int>, int, bool)
    decreases ts.len() - p,
{
    if p < 0 || p >= ts.len() {
        (Seq::empty(), p, true)
    } else if ts[p].kind == TokenKind::RBrace || ts[p].kind == TokenKind::Eof {
        (Seq::empty(), p, true)
    } else if named_number_at(bytes, ts, p) {
        let q = if kind_at(ts, p + 4) == TokenKind::Comma {
            p + 5
        } else {
            p + 4
        };
        let rest = named_number_items(bytes, ts, q);
        (seq![p] + rest.0, rest.1, rest.2)
    } else {
        (Seq::empty(), p, false)
    }
}

/// A named number read from the item at `i`: its label, its value and its
/// range from the label through the closing parenthesis.
pub open spec fn named_number_of(bytes: Seq<u8>, ts: Seq<Token>, nn: NamedNumber, i: int) -> bool {
    &&& ident_of(bytes, ts, nn.name, i)
    &&& parse_i64_spec(token_text(bytes, ts, i + 2)) == Some(nn.value)
    &&& nn.span == SourceRange::spec_cover(ts[i].span, ts[i + 3].span)
}

/// Named numbers read from the items at the given positions, one for one.
pub open spec fn named_numbers_at(bytes: Seq<u8>, ts: Seq<Token>, nns: Seq<NamedNumber>, at: Seq<int>) -> bool {
    &&& nns.len() == at.len()
    &&& forall|k: int| 0 <= k < at.len() ==> named_number_of(bytes, ts, #[trigger] nns[k], at[k])
}

/// What reading `label(number)` items from `p` gives: success exactly when
/// every item is well formed, then the items and the position where the list
/// stops.
#[verifier::opaque]
pub open spec fn named_numbers_read(
    bytes: Seq<u8>,
    ts: Seq<Token>,
    p: int,
    r: Result<Vec<NamedNumber>, Diagnostic>,
    end: int,
) -> bool {
    let l = named_number_items(bytes, ts, p);
    &&& (r is Ok <==> l.2)
    &&& (r is Ok ==> end == l.1)
    &&& (r matches Ok(v) ==> named_numbers_at(bytes, ts, v@, l.0))
}

/// What reading `{ label(number), ... }` from `p` gives: success exactly when
/// the braces hold well-formed items, then the items and the position after
/// the closing brace.
#[verifier::opaque]
pub open spec fn braced_named_numbers_read(
    bytes: Seq<u8>,
    ts: Seq<Token>,
    p: int,
    r: Result<Vec<NamedNumber>, Diagnostic>,
    end: int,
) -> bool {
    let l = named_number_items(bytes, ts, p + 1);
    &&& (r is Ok <==> (ts[p].kind == TokenKind::LBrace && l.2 && kind_at(ts, l.1) == TokenKind::RBrace))
    &&& (r is Ok ==> end == l.1 + 1)
    &&& (r matches Ok(v) ==> named_numbers_at(bytes, ts, v@, l.0))
}

/// A token that can bound a range: a number, a hex string or a name.
pub open spec fn range_value_kind(k: TokenKind) -> bool {
    k == TokenKind::Number || k == TokenKind::NegativeNumber || k == TokenKind::HexString || k
        == TokenKind::UppercaseIdent || k == TokenKind::ForbiddenKeyword
}

/// Ranges `a` or `a..b` separated by `|` from `p`: for each its first
/// position and whether it has an upper bound, where the list stops, and
/// whether every bound is a range value.
pub open spec fn range_items(ts: Seq<Token>, p: int) -> (Seq<(int, bool)>, int, bool)
    decreases ts.len() - p,
{
    if p < 0 || p >= ts.len() || !range_value_kind(ts[p].kind) {
        (Seq::empty(), p, false)
    } else {
        let has_max = kind_at(ts, p + 1) == TokenKind::DotDot;
        if has_max && !range_value_kind(kind_at(ts, p + 2)) {
            (Seq::empty(), p + 2, false)
        } else {
            let e = if has_max {
                p + 3
            } else {
                p + 1
            };
            if kind_at(ts, e) == TokenKind::Pipe {
                let rest = range_items(ts, e + 1);
                (seq![(p, has_max)] + rest.0, rest.1, rest.2)
            } else {
                (seq![(p, has_max)], e, true)
            }
        }
    }
}

/// Ranges read from the items given, one for one: each has an upper bound
/// exactly when its item does, and covers its tokens.
pub open spec fn ranges_at(ts: Seq<Token>, rs: Seq<Range>, items: Seq<(int, bool)>) -> bool {
    &&& rs.len() == items.len()
    &&& forall|k: int| 0 <= k < items.len() ==> {
        &&& (#[trigger] rs[k]).max is Some <==> items[k].1
        &&& rs[k].span == SourceRange::spec_cover(
            ts[items[k].0].span,
            ts[if items[k].1 { items[k].0 + 2 } else { items[k].0 }].span,
        )
    }
}

/// What reading `(SIZE (ranges))` or `(ranges)` from `p` gives: success
/// exactly when the parentheses hold well-formed ranges, then the ranges and
/// the position after the last closing parenthesis.
#[verifier::opaque]
pub open spec fn constraint_read(ts: Seq<Token>, p: int, r: Result<Constraint, Diagnostic>, end: int) -> bool {
    let sized = kind_at(ts, p + 1) == TokenKind::KwSize;
    let l = if sized {
        range_items(ts, p + 3)
    } else {
        range_items(ts, p + 1)
    };
    &&& (r is Ok <==> (ts[p].kind == TokenKind::LParen && (sized ==> kind_at(ts, p + 2)
        == TokenKind::LParen) && l.2 && kind_at(ts, l.1) == TokenKind::RParen && (sized ==> kind_at(
        ts,
        l.1 + 1,
    ) == TokenKind::RParen)))
    &&& (r is Ok ==> end == if sized {
        l.1 + 2
    } else {
        l.1 + 1
    })
    &&& (r matches Ok(Constraint::Size { ranges, .. }) ==> ranges_at(ts, ranges@, l.0))
    &&& (r matches Ok(Constraint::Range { ranges, .. }) ==> ranges_at(ts, ranges@, l.0))
}

/// Whether the decimal text fits 32 unsigned bits.
pub open spec fn fits_u32(t: Seq<u8>) -> bool {
    t.len() > 0 && crate::num::all_dec_digits(t) && crate::num::dec_value(t) <= u32::MAX
}

/// An OID component written as the single token at `i`: a number that fits
/// 32 bits, or a name followed by neither `(` nor `.`.
pub open spec fn plain_oid_component(bytes: Seq<u8>, ts: Seq<Token>, i: int) -> bool {
    ||| ts[i].kind == TokenKind::Number && fits_u32(token_text(bytes, ts, i))
    ||| ts[i].kind.spec_is_identifier() && kind_at(ts, i + 1) != TokenKind::LParen && kind_at(
        ts,
        i + 1,
    ) != TokenKind::Dot
}

/// The end of the run of single-token OID components from `i`.
pub open spec fn plain_oid_end(bytes: Seq<u8>, ts: Seq<Token>, i: int) -> int
    decreases ts.len() - i,
{
    if 0 <= i < ts.len() && plain_oid_component(bytes, ts, i) {
        plain_oid_end(bytes, ts, i + 1)
    } else {
        i
    }
}

/// A run of single-token OID components ends at or after where it starts.
proof fn lemma_plain_oid_end_bound(bytes: Seq<u8>, ts: Seq<Token>, i: int)
    ensures
        plain_oid_end(bytes, ts, i) >= i,
    decreases ts.len() - i,
{
    if 0 <= i < ts.len() && plain_oid_component(bytes, ts, i) {
        lemma_plain_oid_end_bound(bytes, ts, i + 1);
    }
}

/// An OID component read from the single token at `i`.
pub open spec fn oid_component_of(bytes: Seq<u8>, ts: Seq<Token>, c: OidComponent, i: int) -> bool {
    match c {
        OidComponent::Number { value, span } => ts[i].kind == TokenKind::Number && span == ts[i].span
            && value == crate::num::dec_value(token_text(bytes, ts, i)),
        OidComponent::Name(id) => ts[i].kind.spec_is_identifier() && ident_of(bytes, ts, id, i),
        _ => false,
    }
}

/// The components from index `from` on are read from the tokens from `first`
/// on, one token each.
pub open spec fn oid_components_from(bytes: Seq<u8>, ts: Seq<Token>, cs: Seq<OidComponent>, from: int, first: int) -> bool {
    forall|k: int| from <= k < cs.len() ==> oid_component_of(bytes, ts, #[trigger] cs[k], first + (k - from))
}

/// A token that can start an OID component: a number or an identifier.
pub open spec fn oid_start_kind(k: TokenKind) -> bool {
    k == TokenKind::Number || k.spec_is_identifier()
}

/// Further BITS labels from `p`: `, label` repeated, stopping at a token
/// other than a comma, or after a comma followed by `}` or the end of input.
/// The positions of the labels, where the list stops, and whether every
/// comma was followed by a label or the end of the list.
pub open spec fn bits_labels(ts: Seq<Token>, p: int) -> (Seq<int>, int, bool)
    decreases ts.len() - p,
{
    if p < 0 || p >= ts.len() || ts[p].kind != TokenKind::Comma {
        (Seq::empty(), p, true)
    } else if kind_at(ts, p + 1) == TokenKind::RBrace || kind_at(ts, p + 1) == TokenKind::Eof {
        (Seq::empty(), p + 1, true)
    } else if label_kind(kind_at(ts, p + 1)) {
        let rest = bits_labels(ts, p + 2);
        (seq![p + 1] + rest.0, rest.1, rest.2)
    } else {
        (Seq::empty(), p + 1, false)
    }
}

/// A built-in type named by a single keyword.
pub open spec fn one_word_type_kind(k: TokenKind) -> bool {
    k.spec_is_type_keyword() && k != TokenKind::KwOctet
}

/// A token that can start a type.
pub open spec fn type_start_kind(k: TokenKind) -> bool {
    k.spec_is_identifier() || k.spec_is_type_keyword() || k == TokenKind::KwObject || k
        == TokenKind::KwSequence || k == TokenKind::KwChoice || k == TokenKind::ForbiddenKeyword
        || k == TokenKind::LBracket
}

/// Where a type with no constraint, enumeration, fields or tag ends when it
/// starts at `p`: a type name, a one-word built-in type, OBJECT IDENTIFIER
/// or OCTET STRING, followed by neither `(` nor `{`.
pub open spec fn plain_type_end(ts: Seq<Token>, p: int) -> Option<int> {
    let k = kind_at(ts, p);
    let e = if (k == TokenKind::KwObject && kind_at(ts, p + 1) == TokenKind::KwIdentifier) || (k
        == TokenKind::KwOctet && kind_at(ts, p + 1) == TokenKind::KwString) {
        p + 2
    } else if k.spec_is_identifier() || one_word_type_kind(k) {
        p + 1
    } else {
        p
    };
    if e > p && kind_at(ts, e) != TokenKind::LParen && kind_at(ts, e) != TokenKind::LBrace {
        Some(e)
    } else {
        None
    }
}

/// A type read from a plain type at `p`: a reference to the named type, or
/// the built-in type the keywords name.
pub open spec fn plain_type_of(bytes: Seq<u8>, ts: Seq<Token>, t: TypeSyntax, p: int) -> bool {
    let k = kind_at(ts, p);
    if k == TokenKind::KwObject {
        t is ObjectIdentifier
    } else if k == TokenKind::KwOctet {
        t is OctetString
    } else if k.spec_is_identifier() {
        t matches TypeSyntax::TypeRef(id) && ident_of(bytes, ts, id, p)
    } else {
        t is TypeRef
    }
}

/// Where the words of a type that takes no braces end when it starts at
/// `p`: a type name or a one-word built-in type, OBJECT IDENTIFIER or OCTET
/// STRING.
pub open spec fn type_words_end(ts: Seq<Token>, p: int) -> Option<int> {
    let k = kind_at(ts, p);
    if (k == TokenKind::KwObject && kind_at(ts, p + 1) == TokenKind::KwIdentifier) || (k
        == TokenKind::KwOctet && kind_at(ts, p + 1) == TokenKind::KwString) {
        Some(p + 2)
    } else if k.spec_is_identifier() || one_word_type_kind(k) {
        Some(p + 1)
    } else {
        None
    }
}

/// The constraint of a constrained type, or the error.
pub open spec fn constraint_part(r: Result<TypeSyntax, Diagnostic>) -> Result<Constraint, Diagnostic> {
    match r {
        Ok(TypeSyntax::Constrained { constraint, .. }) => Ok(constraint),
        Ok(_) => Err(vstd::pervasive::arbitrary()),
        Err(e) => Err(e),
    }
}

/// The named numbers of an enumeration or BITS type, or the error.
pub open spec fn numbered_part(r: Result<TypeSyntax, Diagnostic>) -> Result<Vec<NamedNumber>, Diagnostic> {
    match r {
        Ok(TypeSyntax::IntegerEnum { named_numbers, .. }) => Ok(named_numbers),
        Ok(TypeSyntax::Bits { named_bits, .. }) => Ok(named_bits),
        Ok(_) => Err(vstd::pervasive::arbitrary()),
        Err(e) => Err(e),
    }
}

/// Whether `{ label(number), ... }` at `p` is well formed and followed by
/// `(`.
pub open spec fn braces_then_constraint(bytes: Seq<u8>, ts: Seq<Token>, p: int) -> bool {
    let l = named_number_items(bytes, ts, p + 1);
    kind_at(ts, p) == TokenKind::LBrace && l.2 && kind_at(ts, l.1) == TokenKind::RBrace && kind_at(
        ts,
        l.1 + 1,
    ) == TokenKind::LParen
}

/// What reading a type from `p` gives: an error on a token that cannot start
/// a type; the plain type when one is written there; for a type followed by
/// `(`, that type constrained by the ranges read from the parentheses; for
/// INTEGER, BITS or a type name followed by `{`, the named numbers read from
/// the braces (unless a constraint follows them); and for `SEQUENCE OF
/// name`, that entry type.
#[verifier::opaque]
pub open spec fn type_read(bytes: Seq<u8>, ts: Seq<Token>, p: int, r: Result<TypeSyntax, Diagnostic>, end: int) -> bool {
    let k = kind_at(ts, p);
    &&& !type_start_kind(k) ==> r is Err
    &&& match plain_type_end(ts, p) {
        Some(e) => end == e && (r matches Ok(t) && plain_type_of(bytes, ts, t, p)),
        None => true,
    }
    &&& match type_words_end(ts, p) {
        Some(e) => kind_at(ts, e) == TokenKind::LParen ==> constraint_read(ts, e, constraint_part(r), end)
            && (r matches Ok(t) ==> (t matches TypeSyntax::Constrained { base, .. } && plain_type_of(
            bytes,
            ts,
            *base,
            p,
        ))),
        None => true,
    }
    &&& ((k == TokenKind::KwInteger || k == TokenKind::KwBits || k.spec_is_identifier()) && kind_at(
        ts,
        p + 1,
    ) == TokenKind::LBrace && !braces_then_constraint(bytes, ts, p + 1)) ==> braced_named_numbers_read(
        bytes,
        ts,
        p + 1,
        numbered_part(r),
        end,
    )
    &&& (k == TokenKind::KwSequence && kind_at(ts, p + 1) == TokenKind::KwOf && name_kind(
        kind_at(ts, p + 2),
    ) && kind_at(ts, p + 3) != TokenKind::LParen) ==> (end == p + 3 && (
    r matches Ok(TypeSyntax::SequenceOf { entry_type, .. }) && ident_of(bytes, ts, entry_type, p + 2)))
}

/// The type a SYNTAX clause holds, or its error.
pub open spec fn syntax_of(r: Result<SyntaxClause, Diagnostic>) -> Result<TypeSyntax, Diagnostic> {
    match r {
        Ok(c) => Ok(c.syntax),
        Err(e) => Err(e),
    }
}

/// Where a compliance module's clauses continue after MODULE and its
/// optional name.
pub open spec fn module_clause_rest(ts: Seq<Token>, p: int) -> int {
    if kind_at(ts, p + 1) == TokenKind::UppercaseIdent {
        p + 2
    } else {
        p + 1
    }
}

/// MODULE and an optional name, followed by none of an OID,
/// MANDATORY-GROUPS, GROUP or OBJECT.
pub open spec fn bare_compliance_module(ts: Seq<Token>, p: int) -> bool {
    let kq = kind_at(ts, module_clause_rest(ts, p));
    &&& ts[p].kind == TokenKind::KwModule
    &&& kq != TokenKind::LBrace && kq != TokenKind::KwMandatoryGroups
    &&& kq != TokenKind::KwGroup && kq != TokenKind::KwObject
}

/// MODULE, an optional name and MANDATORY-GROUPS with a well-formed list,
/// followed by neither GROUP nor OBJECT.
pub open spec fn grouped_compliance_module(ts: Seq<Token>, p: int) -> bool {
    let q = module_clause_rest(ts, p);
    let l = name_list(ts, q + 2);
    &&& ts[p].kind == TokenKind::KwModule
    &&& kind_at(ts, q) == TokenKind::KwMandatoryGroups && kind_at(ts, q + 1) == TokenKind::LBrace
    &&& l.2 && kind_at(ts, l.1) == TokenKind::RBrace
    &&& kind_at(ts, l.1 + 1) != TokenKind::KwGroup && kind_at(ts, l.1 + 1) != TokenKind::KwObject
}

/// SUPPORTS, a module name and INCLUDES with a well-formed list, followed
/// by no VARIATION.
pub open spec fn plain_supports(ts: Seq<Token>, p: int) -> bool {
    let l = name_list(ts, p + 4);
    &&& ts[p].kind == TokenKind::KwSupports && name_kind(kind_at(ts, p + 1))
    &&& kind_at(ts, p + 2) == TokenKind::KwIncludes && kind_at(ts, p + 3) == TokenKind::LBrace
    &&& l.2 && kind_at(ts, l.1) == TokenKind::RBrace && kind_at(ts, l.1 + 1) != TokenKind::KwVariation
}

/// What reading the fields of a SEQUENCE or CHOICE from `p` gives: nothing,
/// with the parser unchanged, at `}` or the end of input; an error on a
/// token that cannot name a field; otherwise a stop at `}` or the end of
/// input, the first field named by the first token.
#[verifier::opaque]
pub open spec fn fields_read(
    bytes: Seq<u8>,
    ts: Seq<Token>,
    p: int,
    r: Result<Vec<SequenceField>, Diagnostic>,
    end: int,
    unchanged: bool,
) -> bool {
    let k = ts[p].kind;
    &&& (k == TokenKind::RBrace || k == TokenKind::Eof) ==> (unchanged && (r matches Ok(fs)
        && fs@.len() == 0))
    &&& !(k == TokenKind::RBrace || k == TokenKind::Eof || name_kind(k)) ==> r is Err
    &&& (r is Ok ==> (kind_at(ts, end) == TokenKind::RBrace || kind_at(ts, end) == TokenKind::Eof))
    &&& (r matches Ok(fs) ==> (fs@.len() > 0 ==> ident_of(bytes, ts, fs@[0].name, p)))
}

/// An index object: a type name or a built-in type.
pub open spec fn index_object_kind(k: TokenKind) -> bool {
    k.spec_is_identifier() || k.spec_is_type_keyword()
}

/// INDEX items from `p` up to `}` or the end of input: for each, whether it
/// is IMPLIED and the position of its object; where the list stops; and
/// whether every item names an object.
pub open spec fn index_items(ts: Seq<Token>, p: int) -> (Seq<(bool, int)>, int, bool)
    decreases ts.len() - p,
{
    if p < 0 || p >= ts.len() || ts[p].kind == TokenKind::RBrace || ts[p].kind == TokenKind::Eof {
        (Seq::empty(), p, true)
    } else {
        let implied = ts[p].kind == TokenKind::KwImplied;
        let o = if implied {
            p + 1
        } else {
            p
        };
        if !index_object_kind(kind_at(ts, o)) {
            (Seq::empty(), o, false)
        } else {
            let e = if kind_at(ts, o) == TokenKind::KwOctet && kind_at(ts, o + 1) == TokenKind::KwString {
                o + 2
            } else {
                o + 1
            };
            if kind_at(ts, e) == TokenKind::Comma {
                let rest = index_items(ts, e + 1);
                (seq![(implied, o)] + rest.0, rest.1, rest.2)
            } else {
                (seq![(implied, o)], e, true)
            }
        }
    }
}

/// Index items read from the given items, one for one.
pub open spec fn index_items_at(ts: Seq<Token>, items: Seq<IndexItem>, at: Seq<(bool, int)>) -> bool {
    &&& items.len() == at.len()
    &&& forall|k: int|
        0 <= k < at.len() ==> (#[trigger] items[k]).implied == at[k].0 && items[k].object.span.start
            == ts[at[k].1].span.start
}

/// A DEFVAL value written as one token: a number, a string or a name.
pub open spec fn simple_defval_kind(k: TokenKind) -> bool {
    k == TokenKind::Number || k == TokenKind::QuotedString || k == TokenKind::HexString || k
        == TokenKind::BinString || k.spec_is_identifier()
}

/// Whether a definition starts at `p`, by the first two tokens (three for
/// OBJECT IDENTIFIER value assignments).
pub open spec fn dispatches(ts: Seq<Token>, p: int) -> bool {
    let f = kind_at(ts, p);
    let s = kind_at(ts, p + 1);
    ||| s == TokenKind::KwObject && f.spec_is_identifier() && kind_at(ts, p + 2) == TokenKind::KwIdentifier
    ||| f.spec_is_identifier() && s.spec_is_macro_keyword() && s != TokenKind::KwTextualConvention
    ||| s == TokenKind::KwTextualConvention && f == TokenKind::UppercaseIdent
    ||| s == TokenKind::ColonColonEqual && (f.spec_is_identifier() || f.spec_is_type_keyword())
    ||| s == TokenKind::KwMacro && (f == TokenKind::UppercaseIdent || f.spec_is_macro_keyword())
}

/// The kind of definition that the first tokens at `p` call for.
pub open spec fn dispatched_as(ts: Seq<Token>, p: int, d: Definition) -> bool {
    let f = kind_at(ts, p);
    let s = kind_at(ts, p + 1);
    if s == TokenKind::KwObject && f.spec_is_identifier() && kind_at(ts, p + 2) == TokenKind::KwIdentifier {
        d is ValueAssignment
    } else if f.spec_is_identifier() && s == TokenKind::KwObjectType {
        d is ObjectType
    } else if f.spec_is_identifier() && s == TokenKind::KwModuleIdentity {
        d is ModuleIdentity
    } else if f.spec_is_identifier() && s == TokenKind::KwObjectIdentity {
        d is ObjectIdentity
    } else if f.spec_is_identifier() && s == TokenKind::KwNotificationType {
        d is NotificationType
    } else if f.spec_is_identifier() && s == TokenKind::KwTrapType {
        d is TrapType
    } else if f.spec_is_identifier() && s == TokenKind::KwObjectGroup {
        d is ObjectGroup
    } else if f.spec_is_identifier() && s == TokenKind::KwNotificationGroup {
        d is NotificationGroup
    } else if f.spec_is_identifier() && s == TokenKind::KwModuleCompliance {
        d is ModuleCompliance
    } else if f.spec_is_identifier() && s == TokenKind::KwAgentCapabilities {
        d is AgentCapabilities
    } else if s == TokenKind::KwTextualConvention && f == TokenKind::UppercaseIdent {
        d is TextualConvention
    } else if s == TokenKind::ColonColonEqual && (f.spec_is_identifier() || f.spec_is_type_keyword()) {
        if kind_at(ts, p + 2) == TokenKind::KwTextualConvention {
            d is TextualConvention
        } else {
            d is TypeAssignment
        }
    } else if s == TokenKind::KwMacro && (f == TokenKind::UppercaseIdent || f.spec_is_macro_keyword()) {
        d is MacroDefinition
    } else {
        false
    }
}

/// Every lexical diagnostic starts inside the document.
#[verifier::opaque]
spec fn lexer_reports_in_document(bytes: Seq<u8>, diags: Seq<Diagnostic>) -> bool {
    &&& forall|i: int| 0 <= i < diags.len() ==> starts_before(#[trigger] diags[i], bytes.len() as int)
    &&& crate::lexer::diagnostics_ordered(diags)
}

/// A module carries `part` first: the code and range of its first
/// diagnostics are those of `part`.
pub open spec fn starts_with_reports(m: Module, part: Seq<(DiagCode, Option<SourceRange>)>) -> bool {
    &&& part.len() <= m.diagnostics@.len()
    &&& diag_keys(m.diagnostics@).subrange(0, part.len() as int) == part
}

/// A report belongs to module `k` of `modules`: it has a range, which
/// starts after the module before `k` ends, and before module `k` ends
/// unless `k` is the last module.
pub open spec fn report_placed(modules: Seq<Module>, k: int, r: (DiagCode, Option<SourceRange>)) -> bool {
    &&& r.1 is Some
    &&& k > 0 ==> r.1.unwrap().start >= modules[k - 1].span.end
    &&& k < modules.len() - 1 ==> r.1.unwrap().start < modules[k].span.end
}

/// The lexical reports of a document are handed out to its modules in
/// order: each module carries its share first, the shares, taken in
/// module order, are exactly the reports, and each report goes to the
/// module whose stretch of text holds where it starts.
pub open spec fn reports_placed(modules: Seq<Module>, reports: Seq<(DiagCode, Option<SourceRange>)>) -> bool {
    exists|parts: Seq<Seq<(DiagCode, Option<SourceRange>)>>|
        #![trigger parts.flatten()]
        parts.len() == modules.len() && parts.flatten() == reports && (forall|k: int|
            0 <= k < modules.len() ==> starts_with_reports(#[trigger] modules[k], parts[k])) && (
        forall|k: int, i: int|
            0 <= k < parts.len() && 0 <= i < parts[k].len() ==> report_placed(
                modules,
                k,
                #[trigger] parts[k][i],
            ))
}

/// Handing the next module the reports from `c_before` to `c_after` keeps
/// every report with the module whose text holds it, given that the
/// previous last module's share starts before it ends and the reports not
/// yet handed out start after it.
proof fn lemma_reports_placed_push(
    before: Seq<Module>,
    m: Module,
    before_parts: Seq<Seq<(DiagCode, Option<SourceRange>)>>,
    lex: Seq<Diagnostic>,
    c_before: int,
    c_after: int,
)
    requires
        0 <= c_before <= c_after <= lex.len(),
        forall|i: int| 0 <= i < lex.len() ==> (#[trigger] lex[i]).range is Some,
        before_parts.len() == before.len(),
        forall|k: int, i: int|
            0 <= k < before_parts.len() && 0 <= i < before_parts[k].len() ==> report_placed(
                before,
                k,
                #[trigger] before_parts[k][i],
            ),
        before.len() > 0 ==> forall|i: int|
            0 <= i < before_parts.last().len() ==> (#[trigger] before_parts.last()[i]).1.unwrap().start
                < before.last().span.end,
        before.len() > 0 ==> forall|i: int|
            c_before <= i < lex.len() ==> (#[trigger] lex[i]).range.unwrap().start
                >= before.last().span.end,
    ensures
        ({
            let parts = before_parts.push(diag_keys(lex.subrange(c_before, c_after)));
            forall|k: int, i: int|
                0 <= k < parts.len() && 0 <= i < parts[k].len() ==> report_placed(
                    before.push(m),
                    k,
                    #[trigger] parts[k][i],
                )
        }),
{
    let part = diag_keys(lex.subrange(c_before, c_after));
    let parts = before_parts.push(part);
    let modules = before.push(m);
    let n = before.len() as int;
    assert forall|k: int, i: int|
        0 <= k < parts.len() && 0 <= i < parts[k].len() implies report_placed(
            modules,
            k,
            #[trigger] parts[k][i],
        ) by {
        if k == n {
            assert(parts[k] == part);
            assert(part[i] == crate::lexer::diag_key(lex[c_before + i]));
            assert(lex[c_before + i].range is Some);
            if k > 0 {
                assert(modules[k - 1] == before.last());
            }
        } else {
            assert(parts[k] == before_parts[k]);
            assert(modules[k] == before[k]);
            if k > 0 {
                assert(modules[k - 1] == before[k - 1]);
            }
            if k == n - 1 {
                assert(before_parts.last() == before_parts[k]);
            }
        }
    }
}

/// Where skipping brace-delimited content from `p` stops, with `depth`
/// braces open: after the brace that closes them all when `consume_close`,
/// else on it; or at the end of input.
pub open spec fn skip_braces_from(ts: Seq<Token>, p: int, depth: int, consume_close: bool) -> int
    decreases ts.len() - p,
{
    if depth <= 0 || p < 0 || p + 1 >= ts.len() {
        p
    } else if ts[p].kind == TokenKind::LBrace {
        skip_braces_from(ts, p + 1, depth + 1, consume_close)
    } else if ts[p].kind == TokenKind::RBrace {
        if depth - 1 > 0 || consume_close {
            skip_braces_from(ts, p + 1, depth - 1, consume_close)
        } else {
            p
        }
    } else {
        skip_braces_from(ts, p + 1, depth, consume_close)
    }
}

/// Where the module header whose name is the token at `p` ends, just after
/// its BEGIN: `NAME [{ obsolete OID }] DEFINITIONS ::= BEGIN`, the name an
/// identifier or a reserved word. `None` when no header starts at `p`.
pub open spec fn header_end(ts: Seq<Token>, p: int) -> Option<int> {
    if !(0 <= p < ts.len() && (ts[p].kind.spec_is_identifier() || ts[p].kind
        == TokenKind::ForbiddenKeyword)) {
        None
    } else {
        let q = if p + 1 < ts.len() && ts[p + 1].kind == TokenKind::LBrace {
            skip_braces_from(ts, p + 2, 1, true)
        } else {
            p + 1
        };
        if 0 <= q && q + 2 < ts.len() && ts[q].kind == TokenKind::KwDefinitions && ts[q + 1].kind
            == TokenKind::ColonColonEqual && ts[q + 2].kind == TokenKind::KwBegin {
            Some(q + 3)
        } else {
            None
        }
    }
}

/// What reading an IMPORTS list whose clauses start at `p` gives: the
/// clauses as read from the tokens when they are well formed (reading
/// then goes past the closing `;` if there is one), or an error where a
/// clause breaks off.
#[verifier::opaque]
pub open spec fn imports_read(
    bytes: Seq<u8>,
    ts: Seq<Token>,
    p: int,
    r: Result<Vec<ImportClause>, Diagnostic>,
    q: int,
) -> bool {
    let read = import_clauses(ts, p);
    &&& (r is Ok <==> read.0 is Some)
    &&& r matches Ok(cs) ==> clauses_of(bytes, ts, cs@, read.0->0) && q == if ts[read.1].kind
        == TokenKind::Semicolon {
        read.1 + 1
    } else {
        read.1
    }
    &&& r is Err ==> q == read.1
}

/// The imports of a module whose header ends at `p`: the clauses of its
/// IMPORTS list as read from the tokens, or none when the module has no
/// IMPORTS list or the list breaks off.
#[verifier::opaque]
pub open spec fn module_imports_read(bytes: Seq<u8>, ts: Seq<Token>, p: int, imports: Seq<ImportClause>) -> bool {
    if 0 <= p < ts.len() && ts[p].kind == TokenKind::KwImports {
        match import_clauses(ts, p + 1).0 {
            Some(specs) => clauses_of(bytes, ts, imports, specs),
            None => imports.len() == 0,
        }
    } else {
        imports.len() == 0
    }
}

/// A module read from the tokens at `p`: it is named exactly when a module
/// header starts there, by the token at `p`, and then its imports are read from the tokens
/// after the header; when END follows the header directly, the module has
/// no definitions and ends with that END; when plain definitions and then
/// END follow the header and its imports, the module's definitions are
/// exactly those, in order, and it ends with that END; and each of its
/// definitions is of the kind that the tokens where it starts call for.
#[verifier::opaque]
pub open spec fn read_from_header(bytes: Seq<u8>, ts: Seq<Token>, p: int, m: Module) -> bool {
    &&& (m.name is Some <==> header_end(ts, p) is Some)
    &&& m.name matches Some(id) ==> id.span == ts[p].span
    &&& header_end(ts, p) matches Some(e) ==> module_imports_read(bytes, ts, e, m.imports@)
    &&& header_end(ts, p) matches Some(e) ==> (kind_at(ts, e) == TokenKind::KwEnd ==> m.body@.len() == 0
        && m.span.end == ts[e].span.end)
    &&& header_end(ts, p) matches Some(e) ==> match plain_run(bytes, ts, body_start(ts, e)) {
        Some(run) => plain_body_of(bytes, ts, run.0, m.body@) && m.span.end == ts[run.1].span.end,
        None => true,
    }
    &&& definitions_dispatched(ts, p, m.body@)
}

/// The span of the name a definition defines.
pub open spec fn definition_name_span(d: Definition) -> SourceRange {
    match d {
        Definition::ObjectType(x) => x.name.span,
        Definition::ModuleIdentity(x) => x.name.span,
        Definition::ObjectIdentity(x) => x.name.span,
        Definition::NotificationType(x) => x.name.span,
        Definition::TrapType(x) => x.name.span,
        Definition::TextualConvention(x) => x.name.span,
        Definition::TypeAssignment(x) => x.name.span,
        Definition::ValueAssignment(x) => x.name.span,
        Definition::ObjectGroup(x) => x.name.span,
        Definition::NotificationGroup(x) => x.name.span,
        Definition::ModuleCompliance(x) => x.name.span,
        Definition::AgentCapabilities(x) => x.name.span,
        Definition::MacroDefinition(x) => x.name.span,
    }
}

/// The definition `d` is of the kind that the tokens at some position from
/// `first` on call for, and its name is the token there.
pub open spec fn dispatched_from(ts: Seq<Token>, first: int, d: Definition) -> bool {
    exists|q: int|
        #![trigger dispatched_as(ts, q, d)]
        first <= q < ts.len() && dispatched_as(ts, q, d) && definition_name_span(d) == ts[q].span
}

/// Each definition of `body` is of the kind that the tokens where it starts
/// call for, at a position from `first` on.
#[verifier::opaque]
pub open spec fn definitions_dispatched(ts: Seq<Token>, first: int, body: Seq<Definition>) -> bool {
    forall|k: int| 0 <= k < body.len() ==> dispatched_from(ts, first, #[trigger] body[k])
}

/// A definition read at `q` can be added to a body read from `first` on.
proof fn lemma_dispatched_push(ts: Seq<Token>, first: int, body: Seq<Definition>, d: Definition, q: int)
    requires
        definitions_dispatched(ts, first, body),
        first <= q < ts.len(),
        dispatched_as(ts, q, d),
        definition_name_span(d) == ts[q].span,
    ensures
        definitions_dispatched(ts, first, body.push(d)),
{
    reveal(definitions_dispatched);
    assert(dispatched_from(ts, first, d));
    assert forall|k: int| 0 <= k < body.push(d).len() implies dispatched_from(
        ts,
        first,
        #[trigger] body.push(d)[k],
    ) by {
        if k < body.len() {
            assert(body.push(d)[k] == body[k]);
        } else {
            assert(body.push(d)[k] == d);
        }
    }
}

/// Where a plain definition that starts at `q` ends: a type assignment of
/// a plain type, or an OBJECT IDENTIFIER value assignment whose OID is
/// written with single-token components.
pub open spec fn plain_definition_end(bytes: Seq<u8>, ts: Seq<Token>, q: int) -> Option<int> {
    let f = kind_at(ts, q);
    let s = kind_at(ts, q + 1);
    let j = plain_oid_end(bytes, ts, q + 5);
    if f.spec_is_identifier() && s == TokenKind::KwObject && kind_at(ts, q + 2) == TokenKind::KwIdentifier
        && kind_at(ts, q + 3) == TokenKind::ColonColonEqual && kind_at(ts, q + 4) == TokenKind::LBrace
        && kind_at(ts, j) == TokenKind::RBrace {
        Some(j + 1)
    } else if (f.spec_is_identifier() || f.spec_is_type_keyword()) && s == TokenKind::ColonColonEqual {
        plain_type_end(ts, q + 2)
    } else {
        None
    }
}

/// A definition read from the plain definition at `q`: the type assignment
/// or value assignment named by the token at `q`, with its type or its OID
/// components as written.
pub open spec fn plain_definition_of(bytes: Seq<u8>, ts: Seq<Token>, q: int, d: Definition) -> bool {
    let f = kind_at(ts, q);
    let s = kind_at(ts, q + 1);
    if f.spec_is_identifier() && s == TokenKind::KwObject {
        let j = plain_oid_end(bytes, ts, q + 5);
        d matches Definition::ValueAssignment(v) && v.name.span == ts[q].span && v.oid.components@.len()
            == j - (q + 5) && oid_components_from(bytes, ts, v.oid.components@, 0, q + 5)
    } else {
        d matches Definition::TypeAssignment(t) && t.name.span == ts[q].span && plain_type_of(
            bytes,
            ts,
            t.syntax,
            q + 2,
        )
    }
}

/// A module body of plain definitions from `q` up to END: the positions
/// where the definitions start and the position of END; none when anything
/// else comes first.
pub open spec fn plain_run(bytes: Seq<u8>, ts: Seq<Token>, q: int) -> Option<(Seq<int>, int)>
    decreases ts.len() - q,
{
    if q < 0 || q >= ts.len() {
        None
    } else if ts[q].kind == TokenKind::KwEnd {
        Some((Seq::empty(), q))
    } else {
        match plain_definition_end(bytes, ts, q) {
            Some(e) => if q < e <= ts.len() {
                match plain_run(bytes, ts, e) {
                    Some(rest) => Some((seq![q] + rest.0, rest.1)),
                    None => None,
                }
            } else {
                None
            },
            None => None,
        }
    }
}

/// Where a module's definitions start, given the position `h` just after
/// its header: after the IMPORTS list (and its `;`) when there is one.
pub open spec fn body_start(ts: Seq<Token>, h: int) -> int {
    if kind_at(ts, h) == TokenKind::KwImports {
        let read = import_clauses(ts, h + 1);
        if read.0 is Some && kind_at(ts, read.1) == TokenKind::Semicolon {
            read.1 + 1
        } else {
            read.1
        }
    } else {
        h
    }
}

/// A body read from a run of plain definitions: one definition per
/// position, in order.
pub open spec fn plain_body_of(bytes: Seq<u8>, ts: Seq<Token>, qs: Seq<int>, body: Seq<Definition>) -> bool {
    &&& body.len() == qs.len()
    &&& forall|k: int| 0 <= k < qs.len() ==> plain_definition_of(bytes, ts, qs[k], #[trigger] body[k])
}

/// A module that ends with an END token.
pub open spec fn closed_by_end(ts: Seq<Token>, m: Module) -> bool {
    exists|j: int| 0 <= j < ts.len() && (#[trigger] ts[j]).kind == TokenKind::KwEnd && ts[j].span.end == m.span.end
}

/// Each token ends before any later token starts.
#[verifier::opaque]
spec fn tokens_disjoint(tokens: Seq<Token>) -> bool {
    forall|i: int, j: int|
        0 <= i < j < tokens.len() ==> (#[trigger] tokens[i]).span.end <= (
        #[trigger] tokens[j]).span.start
}

/// `last` is the range of the last consumed token: the one just before
/// position `p`, the end-of-input token once it has been consumed, or an
/// empty range at offset 0 before anything was consumed.
#[verifier::opaque]
spec fn last_span_placed(tokens: Seq<Token>, p: int, last: SourceRange) -> bool {
    ||| (last == tokens[p].span && tokens[p].kind == TokenKind::Eof)
    ||| (p > 0 && last == tokens[p - 1].span)
    ||| (p == 0 && last.start == 0 && last.end == 0)
}

/// Which group macro a group definition uses.
#[derive(Clone, Copy, Debug, PartialEq, Eq, Structural)]
pub enum GroupKind {
    Object,
    Notification,
}

/// Recursive descent parser for SMI MIB modules.
///
/// Consumes the comment-free token stream of one document and produces
/// [`Module`] syntax trees with collected diagnostics. Handles both SMIv1
/// and SMIv2 syntax, plus common vendor deviations.
pub struct Parser<'src, 'cfg> {
    document: &'src SourceDocument,
    tokens: Vec<Token>,
    pos: usize,
    last_span: SourceRange,
    lexer_diagnostics: Vec<Diagnostic>,
    lexer_diagnostic_cursor: usize,
    diagnostics: Vec<Diagnostic>,
    diag_config: &'cfg DiagnosticConfig,
}

impl<'src, 'cfg> Parser<'src, 'cfg> {
    /// A range lies inside the parsed document.
    pub closed spec fn span_ok(&self, r: SourceRange) -> bool {
        &&& r.source == self.document.spec_id()
        &&& r.start <= r.end <= self.document.spec_bytes().len()
    }

    /// The parser's internal consistency: a nonempty, ordered token stream
    /// ending in its only end-of-input token, a position inside it, and
    /// ranges inside the document.
    pub closed spec fn wf(&self) -> bool {
        let n = self.tokens@.len();
        &&& n > 0
        &&& self.pos < n
        &&& self.tokens@[n - 1].kind == TokenKind::Eof
        &&& forall|i: int| 0 <= i < n - 1 ==> (#[trigger] self.tokens@[i]).kind != TokenKind::Eof
        &&& forall|i: int| 0 <= i < n ==> self.span_ok(#[trigger] self.tokens@[i].span)
        &&& forall|i: int| 0 <= i < n ==> token_shape(self.document.spec_bytes(), #[trigger] self.tokens@[i])
        &&& forall|i: int, j: int|
            0 <= i <= j < n ==> (#[trigger] self.tokens@[i]).span.start <= (
            #[trigger] self.tokens@[j]).span.start
        &&& tokens_disjoint(self.tokens@)
        &&& self.span_ok(self.last_span)
        &&& last_span_placed(self.tokens@, self.pos as int, self.last_span)
        &&& lexer_reports_in_document(self.document.spec_bytes(), self.lexer_diagnostics@)
        &&& self.lexer_diagnostic_cursor <= self.lexer_diagnostics@.len()
    }

    /// The parser reads the same document, tokens and configuration as `other`.
    pub closed spec fn same_input(&self, other: &Self) -> bool {
        &&& self.document == other.document
        &&& self.tokens@ == other.tokens@
        &&& self.diag_config == other.diag_config
        &&& self.lexer_diagnostics@ == other.lexer_diagnostics@
    }

    /// The tokens being parsed.
    pub closed spec fn spec_tokens(&self) -> Seq<Token> {
        self.tokens@
    }

    /// The current position in the token stream.
    pub closed spec fn spec_pos(&self) -> int {
        self.pos as int
    }

    /// The number of tokens left to read, the end-of-input token included.
    pub closed spec fn remaining(&self) -> int {
        self.tokens@.len() - self.pos
    }

    /// The token at the current position.
    pub closed spec fn spec_peek(&self) -> Token {
        self.tokens@[self.pos as int]
    }

    /// The token `n` places ahead, or the end-of-input token past the end.
    pub closed spec fn spec_peek_nth(&self, n: int) -> Token {
        if self.pos + n < self.tokens@.len() {
            self.tokens@[self.pos + n]
        } else {
            self.tokens@.last()
        }
    }

    /// `self` has read the same input as `old` and has not moved backwards,
    /// and has handed no lexical diagnostic to a module.
    pub open spec fn progressed(&self, old: &Self) -> bool {
        &&& self.wf()
        &&& self.same_input(old)
        &&& self.spec_pos() >= old.spec_pos()
        &&& self.spec_cursor() == old.spec_cursor()
    }

    /// `self` has read the same input as `old`, has not moved backwards and
    /// has handed out lexical diagnostics in order.
    pub open spec fn advanced(&self, old: &Self) -> bool {
        &&& self.wf()
        &&& self.same_input(old)
        &&& self.spec_pos() >= old.spec_pos()
        &&& self.spec_cursor() >= old.spec_cursor()
    }

    /// How many lexical diagnostics have been handed to modules.
    pub closed spec fn spec_cursor(&self) -> int {
        self.lexer_diagnostic_cursor as int
    }

    /// The lexical diagnostics of the document, in order.
    pub closed spec fn spec_lexer_diagnostics(&self) -> Seq<Diagnostic> {
        self.lexer_diagnostics@
    }

    /// The diagnostics recorded so far.
    pub closed spec fn spec_diagnostics(&self) -> Seq<Diagnostic> {
        self.diagnostics@
    }

    /// The configuration deciding which diagnostics are collected.
    pub closed spec fn spec_config(&self) -> DiagnosticConfig {
        *self.diag_config
    }

    /// The parsed document.
    pub closed spec fn spec_document(&self) -> SourceDocument {
        *self.document
    }

    /// A range lies inside the parsed document, spelled out.
    pub proof fn lemma_span_ok(&self, r: SourceRange)
        ensures
            self.span_ok(r) <==> (r.source == self.spec_document().spec_id() && r.start <= r.end
                <= self.spec_document().spec_bytes().len()),
    {
    }

    /// The parsed document's bytes.
    pub closed spec fn spec_doc_bytes(&self) -> Seq<u8> {
        self.document.spec_bytes()
    }

    /// The bytes a range covers.
    pub closed spec fn spec_text_bytes(&self, r: SourceRange) -> Seq<u8> {
        self.document.spec_bytes().subrange(r.start as int, r.end as int)
    }

    /// Create a new parser over a retained source document.
    ///
    /// Lexes the whole document and keeps its non-comment tokens.
    pub fn new(document: &'src SourceDocument, diag_config: &'cfg DiagnosticConfig) -> (p: Self)
        ensures
            p.wf(),
            p.spec_pos() == 0,
            p.spec_diagnostics().len() == 0,
            p.spec_doc_bytes() == document.spec_bytes(),
            p.spec_document() == *document,
            p.spec_config() == *diag_config,
            p.spec_tokens() == code_tokens(document.spec_bytes(), document.spec_id()),
            p.spec_cursor() == 0,
            diag_keys(p.spec_lexer_diagnostics()) == lex_reports_from(
                document.spec_bytes(),
                document.spec_id(),
                *diag_config,
                0,
            ),
    {
        let bytes = document.bytes();
        let (all_tokens, lexer_diagnostics) = tokenize_bytes(bytes, document.id(), diag_config);
        proof {
            let lexed = lex_tokens_from(bytes@, document.spec_id(), 0);
            let eof = eof_token(document.spec_id(), bytes@.len() as int);
            lemma_code_only_push(lexed, eof);
        }
        let ghost src = document.spec_id();
        let mut tokens: Vec<Token> = Vec::new();
        let mut i: usize = 0;
        let n = all_tokens.len();
        while i < n
            invariant
                n == all_tokens@.len(),
                token_stream(bytes@, src, all_tokens@),
                bytes@ == document.spec_bytes(),
                0 <= i <= n,
                tokens@ == code_only(all_tokens@.subrange(0, i as int)),
                i < n ==> forall|k: int|
                    0 <= k < tokens@.len() ==> (#[trigger] tokens@[k]).kind != TokenKind::Eof,
                i == n ==> tokens@.len() > 0 && tokens@.last().kind == TokenKind::Eof,
                forall|k: int|
                    0 <= k < tokens@.len() - 1 ==> (#[trigger] tokens@[k]).kind != TokenKind::Eof,
                forall|k: int| 0 <= k < tokens@.len() ==> (#[trigger] tokens@[k]).span.source == src
                    && tokens@[k].span.start <= tokens@[k].span.end <= bytes@.len(),
                forall|k: int| 0 <= k < tokens@.len() ==> token_shape(bytes@, #[trigger] tokens@[k]),
                forall|k: int, l: int|
                    0 <= k <= l < tokens@.len() ==> (#[trigger] tokens@[k]).span.start <= (
                    #[trigger] tokens@[l]).span.start,
                i < n ==> forall|k: int|
                    0 <= k < tokens@.len() ==> (#[trigger] tokens@[k]).span.start
                        <= all_tokens@[i as int].span.start,
                forall|k: int, l: int|
                    0 <= k < l < tokens@.len() ==> (#[trigger] tokens@[k]).span.end <= (
                    #[trigger] tokens@[l]).span.start,
                i < n ==> forall|k: int|
                    0 <= k < tokens@.len() ==> (#[trigger] tokens@[k]).span.end
                        <= all_tokens@[i as int].span.start,
            decreases n - i,
        {
            let t = all_tokens[i];
            proof {
                assert(all_tokens@.subrange(0, i + 1) =~= all_tokens@.subrange(0, i as int).push(t));
                lemma_code_only_push(all_tokens@.subrange(0, i as int), t);
                assert(crate::lexer::token_shape(bytes@, all_tokens@[i as int]));
                assert(all_tokens@[i as int].span.source == src);
                if i + 1 < n {
                    assert(all_tokens@[i as int].span.end <= all_tokens@[i + 1].span.start);
                    assert(all_tokens@[i as int].kind != TokenKind::Eof);
                }
            }
            if t.kind != TokenKind::Comment {
                let ghost before = tokens@;
                tokens.push(t);
                proof {
                    assert forall|k: int, l: int|
                        0 <= k <= l < tokens@.len() implies (#[trigger] tokens@[k]).span.start <= (
                        #[trigger] tokens@[l]).span.start by {
                        if l == tokens@.len() - 1 {
                            if k < l {
                                assert(tokens@[k] == before[k]);
                            }
                        } else {
                            assert(tokens@[k] == before[k]);
                            assert(tokens@[l] == before[l]);
                        }
                    }
                    assert forall|k: int| 0 <= k < tokens@.len() implies (#[trigger] tokens@[k]).span.source == src
                        && tokens@[k].span.start <= tokens@[k].span.end <= bytes@.len()
                        && token_shape(bytes@, tokens@[k]) by {
                        if k < tokens@.len() - 1 {
                            assert(tokens@[k] == before[k]);
                        }
                    }
                    assert forall|k: int| 0 <= k < tokens@.len() - 1 implies (#[trigger] tokens@[k]).kind
                        != TokenKind::Eof by {
                        assert(tokens@[k] == before[k]);
                    }
                    if i + 1 < n {
                        assert forall|k: int| 0 <= k < tokens@.len() implies (#[trigger] tokens@[k]).kind
                            != TokenKind::Eof by {
                            if k < tokens@.len() - 1 {
                                assert(tokens@[k] == before[k]);
                            }
                        }
                    }
                    if i + 1 < n {
                        assert forall|k: int| 0 <= k < tokens@.len() implies (#[trigger] tokens@[k]).span.start
                            <= all_tokens@[i + 1].span.start by {
                            if k < tokens@.len() - 1 {
                                assert(tokens@[k] == before[k]);
                            }
                        }
                        assert forall|k: int| 0 <= k < tokens@.len() implies (#[trigger] tokens@[k]).span.end
                            <= all_tokens@[i + 1].span.start by {
                            if k < tokens@.len() - 1 {
                                assert(tokens@[k] == before[k]);
                            }
                        }
                    }
                    assert forall|k: int, l: int|
                        0 <= k < l < tokens@.len() implies (#[trigger] tokens@[k]).span.end <= (
                        #[trigger] tokens@[l]).span.start by {
                        assert(tokens@[k] == before[k]);
                        if l < tokens@.len() - 1 {
                            assert(tokens@[l] == before[l]);
                        }
                    }
                }
            } else {
                proof {
                    if i + 1 < n {
                        assert forall|k: int| 0 <= k < tokens@.len() implies (#[trigger] tokens@[k]).span.start
                            <= all_tokens@[i + 1].span.start by {}
                        assert forall|k: int| 0 <= k < tokens@.len() implies (#[trigger] tokens@[k]).span.end
                            <= all_tokens@[i + 1].span.start by {}
                    } else {
                        assert(all_tokens@[i as int].kind == TokenKind::Eof);
                    }
                }
            }
            i = i + 1;
        }
        let last_span = SourceRange::new(document.id(), 0, 0);
        proof {
            reveal(lexer_reports_in_document);
            assert forall|i: int| 0 <= i < lexer_diagnostics@.len() implies starts_before(
                #[trigger] lexer_diagnostics@[i],
                bytes@.len() as int,
            ) by {
                assert(lexer_diagnostics@[i].range is Some);
            }
            assert(all_tokens@.subrange(0, n as int) =~= all_tokens@);
            reveal(tokens_disjoint);
            reveal(last_span_placed);
        }
        Parser {
            document,
            tokens,
            pos: 0,
            last_span,
            lexer_diagnostics,
            lexer_diagnostic_cursor: 0,
            diagnostics: Vec::new(),
            diag_config,
        }
    }

    // ---- Core control flow ----

    /// The last consumed token ends before the current one starts and starts
    /// no earlier than any token before the current position.
    proof fn lemma_last_span_before_current(&self)
        requires
            self.wf(),
        ensures
            self.last_span.end <= self.spec_peek().span.start,
            forall|p: int| 0 <= p < self.pos ==> (#[trigger] self.tokens@[p]).span.start <= self.last_span.start,
            forall|p: int| 0 <= p < self.pos ==> (#[trigger] self.tokens@[p]).span.end <= self.spec_peek().span.start,
    {
        reveal(tokens_disjoint);
        reveal(last_span_placed);
        let p = self.pos as int;
        assert(token_shape(self.document.spec_bytes(), self.tokens@[p]));
        if p > 0 {
            assert(token_shape(self.document.spec_bytes(), self.tokens@[p - 1]));
        }
    }

    /// No two tokens before the end-of-input token start at the same offset.
    proof fn lemma_start_unique(&self, i: int, j: int)
        requires
            self.wf(),
            0 <= i < self.tokens@.len() - 1,
            0 <= j < self.tokens@.len() - 1,
            self.tokens@[i].span.start == self.tokens@[j].span.start,
        ensures
            i == j,
    {
        reveal(tokens_disjoint);
        assert(token_shape(self.document.spec_bytes(), self.tokens@[i]));
        assert(token_shape(self.document.spec_bytes(), self.tokens@[j]));
    }

    /// Before a token other than the end of input, the last consumed token
    /// is the one just before it, and no earlier token ends after it.
    proof fn lemma_last_span_is_previous(&self)
        requires
            self.wf(),
            self.pos > 0,
            self.spec_peek().kind != TokenKind::Eof,
        ensures
            self.last_span == self.tokens@[self.pos - 1].span,
            forall|p: int| 0 <= p < self.pos ==> (#[trigger] self.tokens@[p]).span.end <= self.last_span.end,
    {
        reveal(last_span_placed);
        reveal(tokens_disjoint);
        assert forall|p: int| 0 <= p < self.pos implies (#[trigger] self.tokens@[p]).span.end
            <= self.last_span.end by {
            if p < self.pos - 1 {
                assert(token_shape(self.document.spec_bytes(), self.tokens@[self.pos - 1]));
            }
        }
    }

    /// Every token before the end-of-input token starts before the end of
    /// the document.
    proof fn lemma_starts_before_end(&self, i: int)
        requires
            self.wf(),
            0 <= i < self.tokens@.len() - 1,
        ensures
            self.tokens@[i].span.start < self.tokens@.last().span.start,
    {
        reveal(tokens_disjoint);
        assert(token_shape(self.document.spec_bytes(), self.tokens@[i]));
        assert(token_shape(self.document.spec_bytes(), self.tokens@.last()));
    }

    /// The text of a word token (identifier, keyword or reserved word) is
    /// ASCII.
    proof fn lemma_word_text(&self, i: int)
        requires
            self.wf(),
            0 <= i < self.tokens@.len(),
            self.tokens@[i].kind.spec_is_identifier() || self.tokens@[i].kind == TokenKind::ForbiddenKeyword
                || self.tokens@[i].kind.spec_is_keyword(),
        ensures
            valid_utf8(self.spec_text_bytes(self.tokens@[i].span)),
            text_of(self.spec_text_bytes(self.tokens@[i].span)) == ascii_chars(
                self.spec_text_bytes(self.tokens@[i].span),
            ),
    {
        let bytes = self.document.spec_bytes();
        let t = self.tokens@[i];
        assert(token_shape(bytes, t));
        let w = self.spec_text_bytes(t.span);
        assert forall|k: int| 0 <= k < w.len() implies w[k] < 0x80 by {
            assert(crate::lexer::is_word_byte(bytes[t.span.start + k]));
        }
        lemma_ascii_decode(w);
    }

    fn peek(&self) -> (t: Token)
        requires
            self.wf(),
        ensures
            t == self.spec_peek(),
            self.span_ok(t.span),
    {
        self.tokens[self.pos]
    }

    fn peek_nth(&self, n: usize) -> (t: Token)
        requires
            self.wf(),
        ensures
            t == self.spec_peek_nth(n as int),
            self.span_ok(t.span),
    {
        let len = self.tokens.len();
        if n < len - self.pos {
            self.tokens[self.pos + n]
        } else {
            self.tokens[len - 1]
        }
    }

    /// Consume the current token. At the end of input the position stays on
    /// the end-of-input token.
    fn advance(&mut self) -> (t: Token)
        requires
            old(self).wf(),
        ensures
            final(self).wf(),
            final(self).same_input(old(self)),
            t == old(self).spec_peek(),
            t.kind != TokenKind::Eof ==> final(self).spec_pos() == old(self).spec_pos() + 1,
            t.kind == TokenKind::Eof ==> final(self).spec_pos() == old(self).spec_pos(),
            final(self).last_span == t.span,
            final(self).diagnostics@ == old(self).diagnostics@,
            final(self).lexer_diagnostic_cursor == old(self).lexer_diagnostic_cursor,
    {
        proof {
            reveal(last_span_placed);
        }
        let tok = self.tokens[self.pos];
        if self.pos < self.tokens.len() - 1 {
            self.pos = self.pos + 1;
        }
        self.last_span = tok.span;
        tok
    }

    fn check(&self, kind: TokenKind) -> (r: bool)
        requires
            self.wf(),
        ensures
            r == (self.spec_peek().kind == kind),
    {
        self.tokens[self.pos].kind == kind
    }

    fn expect(&mut self, kind: TokenKind) -> (r: Result<Token, Diagnostic>)
        requires
            old(self).wf(),
        ensures
            final(self).progressed(old(self)),
            r is Ok <==> old(self).spec_peek().kind == kind,
            r matches Ok(t) ==> t == old(self).spec_peek() && final(self).last_span == t.span
                && (kind != TokenKind::Eof ==> final(self).spec_pos() == old(self).spec_pos() + 1),
            r is Err ==> *final(self) == *old(self),
            final(self).diagnostics@ == old(self).diagnostics@,
    {
        if self.check(kind) {
            Ok(self.advance())
        } else {
            let message = crate::text::concat3("expected ", kind.display_name(), "");
            Err(self.make_error(message))
        }
    }

    fn current_span(&self) -> (r: SourceRange)
        requires
            self.wf(),
        ensures
            r == self.spec_peek().span,
            self.span_ok(r),
    {
        self.tokens[self.pos].span
    }

    /// The range from the start of the token at `start_pos` up to the start
    /// of the current token.
    fn range_to_current_start(&self, start_pos: usize) -> (r: SourceRange)
        requires
            self.wf(),
            start_pos <= self.pos,
        ensures
            self.span_ok(r),
            r.start == self.tokens@[start_pos as int].span.start,
            r.end == self.spec_peek().span.start,
    {
        let start = self.tokens[start_pos].span;
        let current = self.tokens[self.pos].span;
        SourceRange::new(self.document.id(), start.start, current.start)
    }

    fn is_eof(&self) -> (r: bool)
        requires
            self.wf(),
        ensures
            r == (self.spec_peek().kind == TokenKind::Eof),
            r == (self.spec_pos() == self.tokens@.len() - 1),
    {
        self.tokens[self.pos].kind == TokenKind::Eof
    }

    /// The text a range covers, decoded as UTF-8 with replacement.
    fn text(&self, span: SourceRange) -> (r: String)
        requires
            self.wf(),
            self.span_ok(span),
        ensures
            valid_utf8(self.spec_text_bytes(span)) ==> r@ == text_of(self.spec_text_bytes(span)),
    {
        let bytes = self.document.slice(span);
        match bytes {
            Some(b) => string_from_bytes_lossy(b),
            None => String::new(),
        }
    }

    /// The bytes a range covers.
    fn text_bytes(&self, span: SourceRange) -> (r: &'src [u8])
        requires
            self.wf(),
            self.span_ok(span),
        ensures
            r@ == self.spec_text_bytes(span),
    {
        match self.document.slice(span) {
            Some(b) => b,
            None => &[],
        }
    }

    fn make_error(&self, message: String) -> (d: Diagnostic)
        requires
            self.wf(),
        ensures
            d.code == DiagCode::ParseError,
            d.range == Some(self.spec_peek().span),
    {
        Diagnostic {
            severity: self.diag_config.effective_severity(DiagCode::ParseError),
            code: DiagCode::ParseError,
            message,
            module: None,
            range: Some(self.current_span()),
        }
    }

    fn record_parse_error(&mut self, diag: Diagnostic)
        requires
            old(self).wf(),
        ensures
            final(self).wf(),
            final(self).same_input(old(self)),
            final(self).pos == old(self).pos,
            final(self).last_span == old(self).last_span,
            final(self).lexer_diagnostic_cursor == old(self).lexer_diagnostic_cursor,
            old(self).diag_config.spec_should_collect(diag.code) ==> final(self).diagnostics@
                == old(self).diagnostics@.push(
                Diagnostic {
                    severity: crate::types::spec_default_severity(diag.code),
                    code: diag.code,
                    message: diag.message,
                    module: diag.module,
                    range: diag.range,
                },
            ),
            !old(self).diag_config.spec_should_collect(diag.code) ==> final(self).diagnostics@
                == old(self).diagnostics@,
    {
        if !self.diag_config.should_collect(diag.code) {
            return;
        }
        let severity = self.diag_config.effective_severity(diag.code);
        let d = Diagnostic {
            severity,
            code: diag.code,
            message: diag.message,
            module: diag.module,
            range: diag.range,
        };
        self.diagnostics.push(d);
    }

    fn emit_diagnostic(&mut self, code: DiagCode, span: SourceRange, message: String)
        requires
            old(self).wf(),
        ensures
            final(self).wf(),
            final(self).same_input(old(self)),
            final(self).pos == old(self).pos,
            final(self).last_span == old(self).last_span,
            final(self).lexer_diagnostic_cursor == old(self).lexer_diagnostic_cursor,
            old(self).diag_config.spec_should_collect(code) ==> final(self).diagnostics@.len()
                == old(self).diagnostics@.len() + 1 && final(self).diagnostics@.last().code == code
                && final(self).diagnostics@.last().range == Some(span)
                && final(self).diagnostics@.drop_last() == old(self).diagnostics@,
            !old(self).diag_config.spec_should_collect(code) ==> final(self).diagnostics@
                == old(self).diagnostics@,
    {
        if !self.diag_config.should_collect(code) {
            return;
        }
        let d = Diagnostic {
            severity: self.diag_config.effective_severity(code),
            code,
            message,
            module: None,
            range: Some(span),
        };
        self.diagnostics.push(d);
        assert(self.diagnostics@.drop_last() =~= old(self).diagnostics@);
    }

    // ---- Helper methods ----

    fn make_ident(&self, token: Token) -> (id: Ident)
        requires
            self.wf(),
            self.span_ok(token.span),
        ensures
            id.span == token.span,
            valid_utf8(self.spec_text_bytes(token.span)) ==> id.name@ == text_of(
                self.spec_text_bytes(token.span),
            ),
    {
        Ident { name: self.text(token.span), span: token.span }
    }

    fn make_ident_with_validation(&mut self, token: Token) -> (id: Ident)
        requires
            old(self).wf(),
            old(self).span_ok(token.span),
        ensures
            final(self).wf(),
            final(self).same_input(old(self)),
            final(self).pos == old(self).pos,
            final(self).last_span == old(self).last_span,
            final(self).lexer_diagnostic_cursor == old(self).lexer_diagnostic_cursor,
            id.span == token.span,
            valid_utf8(old(self).spec_text_bytes(token.span)) ==> id.name@ == text_of(
                old(self).spec_text_bytes(token.span),
            ),
    {
        let name = self.text(token.span);
        let bytes = self.text_bytes(token.span);
        self.validate_identifier(bytes, token.span);
        Ident { name, span: token.span }
    }

    /// Report identifier conventions that `name` breaks: underscores, a
    /// trailing hyphen, and lengths over 64 (or else over 32) bytes.
    fn validate_identifier(&mut self, name: &[u8], span: SourceRange)
        requires
            old(self).wf(),
        ensures
            final(self).wf(),
            final(self).same_input(old(self)),
            final(self).pos == old(self).pos,
            final(self).last_span == old(self).last_span,
            final(self).lexer_diagnostic_cursor == old(self).lexer_diagnostic_cursor,
            final(self).diagnostics@.subrange(0, old(self).diagnostics@.len() as int)
                == old(self).diagnostics@,
            codes_of(final(self).diagnostics@.subrange(
                old(self).diagnostics@.len() as int,
                final(self).diagnostics@.len() as int,
            )) == identifier_findings(*old(self).diag_config, name@),
            forall|i: int|
                old(self).diagnostics@.len() <= i < final(self).diagnostics@.len()
                    ==> (#[trigger] final(self).diagnostics@[i]).range == Some(span),
    {
        let ghost d0 = self.diagnostics@;
        let ghost cfg = *self.diag_config;
        let mut has_underscore = false;
        let mut i: usize = 0;
        while i < name.len()
            invariant
                0 <= i <= name@.len(),
                has_underscore == exists|j: int| 0 <= j < i && name@[j] == 0x5fu8,
            decreases name@.len() - i,
        {
            if name[i] == 0x5f {
                has_underscore = true;
            }
            i = i + 1;
        }
        assert(has_underscore == name@.contains(0x5fu8));
        if has_underscore {
            self.emit_diagnostic(
                DiagCode::IdentifierUnderscore,
                span,
                String::from_str("identifier contains underscore (RFC violation)"),
            );
        }
        proof {
            assert(d0.subrange(0, d0.len() as int) =~= d0);
            lemma_emitted_step(d0, d0, self.diagnostics@, cfg, DiagCode::IdentifierUnderscore,
                has_underscore, span);
        }
        let ghost d1 = self.diagnostics@;
        let hyphen_end = name.len() > 0 && name[name.len() - 1] == 0x2d;
        if hyphen_end {
            self.emit_diagnostic(
                DiagCode::IdentifierHyphenEnd,
                span,
                String::from_str("identifier ends with hyphen"),
            );
        }
        proof {
            lemma_emitted_step(d0, d1, self.diagnostics@, cfg, DiagCode::IdentifierHyphenEnd,
                hyphen_end, span);
        }
        let ghost d2 = self.diagnostics@;
        if name.len() > 64 {
            self.emit_diagnostic(
                DiagCode::IdentifierLength64,
                span,
                String::from_str("identifier exceeds 64 character limit"),
            );
        } else if name.len() > 32 {
            self.emit_diagnostic(
                DiagCode::IdentifierLength32,
                span,
                String::from_str("identifier exceeds 32 character recommendation"),
            );
        }
        proof {
            lemma_emitted_step(d0, d2, self.diagnostics@, cfg, if name@.len() > 64 {
                DiagCode::IdentifierLength64
            } else {
                DiagCode::IdentifierLength32
            }, name@.len() > 32, span);
            assert(identifier_findings(cfg, name@) =~= emitted(cfg, DiagCode::IdentifierUnderscore,
                name@.contains(0x5fu8)) + emitted(cfg, DiagCode::IdentifierHyphenEnd, hyphen_end)
                + emitted(cfg, if name@.len() > 64 {
                DiagCode::IdentifierLength64
            } else {
                DiagCode::IdentifierLength32
            }, name@.len() > 32));
        }
    }

    fn validate_value_reference(&mut self, name: &[u8], span: SourceRange)
        requires
            old(self).wf(),
        ensures
            final(self).wf(),
            final(self).same_input(old(self)),
            final(self).pos == old(self).pos,
            final(self).last_span == old(self).last_span,
            final(self).lexer_diagnostic_cursor == old(self).lexer_diagnostic_cursor,
            (name@.len() > 0 && crate::lexer::is_upper(name@[0])
                && old(self).diag_config.spec_should_collect(DiagCode::BadIdentifierCase))
                ==> final(self).diagnostics@.len() == old(self).diagnostics@.len() + 1
                && final(self).diagnostics@.last().code == DiagCode::BadIdentifierCase,
            !(name@.len() > 0 && crate::lexer::is_upper(name@[0])
                && old(self).diag_config.spec_should_collect(DiagCode::BadIdentifierCase))
                ==> final(self).diagnostics@ == old(self).diagnostics@,
    {
        if name.len() > 0 && 0x41 <= name[0] && name[0] <= 0x5a {
            self.emit_diagnostic(
                DiagCode::BadIdentifierCase,
                span,
                String::from_str("value reference should start with a lowercase letter"),
            );
        }
    }

    fn expect_identifier(&mut self) -> (r: Result<Token, Diagnostic>)
        requires
            old(self).wf(),
        ensures
            final(self).progressed(old(self)),
            r is Ok <==> (old(self).spec_peek().kind.spec_is_identifier() || old(self).spec_peek().kind
                == TokenKind::ForbiddenKeyword),
            r matches Ok(t) ==> t == old(self).spec_peek() && final(self).spec_pos()
                == old(self).spec_pos() + 1 && final(self).last_span == t.span,
            r is Err ==> *final(self) == *old(self),
    {
        if self.peek().kind.is_identifier() {
            return Ok(self.advance());
        }
        if self.check(TokenKind::ForbiddenKeyword) {
            let token = self.advance();
            self.emit_diagnostic(
                DiagCode::KeywordReserved,
                token.span,
                String::from_str("identifier is a reserved ASN.1 keyword"),
            );
            return Ok(token);
        }
        Err(self.make_error(String::from_str("expected identifier")))
    }

    fn expect_index_object(&mut self) -> (r: Result<Token, Diagnostic>)
        requires
            old(self).wf(),
        ensures
            final(self).progressed(old(self)),
            r is Ok <==> (old(self).spec_peek().kind.spec_is_identifier()
                || old(self).spec_peek().kind.spec_is_type_keyword()),
            r matches Ok(t) ==> t == old(self).spec_peek() && final(self).spec_pos()
                == old(self).spec_pos() + 1 && final(self).last_span == t.span,
            r is Err ==> *final(self) == *old(self),
    {
        if self.peek().kind.is_identifier() || self.peek().kind.is_type_keyword() {
            return Ok(self.advance());
        }
        Err(self.make_error(String::from_str("expected index object")))
    }

    fn expect_enum_label(&mut self) -> (r: Result<Token, Diagnostic>)
        requires
            old(self).wf(),
        ensures
            final(self).progressed(old(self)),
            r is Ok <==> (old(self).spec_peek().kind.spec_is_identifier()
                || old(self).spec_peek().kind.spec_is_keyword()),
            r matches Ok(t) ==> t == old(self).spec_peek() && final(self).spec_pos()
                == old(self).spec_pos() + 1 && final(self).last_span == t.span,
            r is Err ==> *final(self) == *old(self),
    {
        if self.peek().kind.is_identifier() || self.peek().kind.is_keyword() {
            return Ok(self.advance());
        }
        Err(self.make_error(String::from_str("expected enum label")))
    }

    fn parse_identifier_as_ident(&mut self) -> (r: Result<Ident, Diagnostic>)
        requires
            old(self).wf(),
        ensures
            final(self).progressed(old(self)),
            r is Ok <==> (old(self).spec_peek().kind.spec_is_identifier() || old(self).spec_peek().kind
                == TokenKind::ForbiddenKeyword),
            r matches Ok(id) ==> id.span == old(self).spec_peek().span && final(self).spec_pos()
                == old(self).spec_pos() + 1,
            r matches Ok(id) ==> ident_of(
                old(self).spec_doc_bytes(),
                old(self).spec_tokens(),
                id,
                old(self).spec_pos(),
            ),
            r is Err ==> *final(self) == *old(self),
    {
        let ghost p = self.spec_pos();
        let token = self.expect_identifier()?;
        proof {
            self.lemma_word_text(p);
        }
        Ok(self.make_ident(token))
    }

    /// Parse a quoted string token; its value is the text between the quotes
    /// (to the end of input when the closing quote is missing).
    fn parse_quoted_string(&mut self) -> (r: Result<QuotedString, Diagnostic>)
        requires
            old(self).wf(),
        ensures
            final(self).progressed(old(self)),
            r is Ok <==> old(self).spec_peek().kind == TokenKind::QuotedString,
            r matches Ok(q) ==> q.span == old(self).spec_peek().span && final(self).spec_pos()
                == old(self).spec_pos() + 1 && final(self).last_span == q.span,
            r is Err ==> *final(self) == *old(self),
    {
        if !self.check(TokenKind::QuotedString) {
            return Err(self.make_error(String::from_str("expected quoted string")));
        }
        let token = self.advance();
        let full = self.text_bytes(token.span);
        let value = if full.len() >= 2 && full[full.len() - 1] == 0x22 {
            string_from_bytes_lossy(&full[1..full.len() - 1])
        } else if full.len() >= 1 {
            string_from_bytes_lossy(&full[1..full.len()])
        } else {
            String::new()
        };
        Ok(QuotedString { value, span: token.span })
    }

    fn parse_optional_reference(&mut self) -> (r: Result<Option<QuotedString>, Diagnostic>)
        requires
            old(self).wf(),
        ensures
            final(self).progressed(old(self)),
            old(self).spec_peek().kind != TokenKind::KwReference ==> r == Ok::<
                Option<QuotedString>,
                Diagnostic,
            >(None) && *final(self) == *old(self),
            old(self).spec_peek().kind == TokenKind::KwReference ==> final(self).spec_pos()
                > old(self).spec_pos(),
    {
        if !self.check(TokenKind::KwReference) {
            return Ok(None);
        }
        self.advance();
        Ok(Some(self.parse_quoted_string()?))
    }

    /// Read a decimal number token as a `u32`, reporting an error when it
    /// does not fit.
    fn parse_u32(&mut self, span: SourceRange) -> (r: Result<u32, Diagnostic>)
        requires
            old(self).wf(),
            old(self).span_ok(span),
        ensures
            final(self).wf(),
            final(self).same_input(old(self)),
            final(self).pos == old(self).pos,
            final(self).last_span == old(self).last_span,
            final(self).lexer_diagnostic_cursor == old(self).lexer_diagnostic_cursor,
            ({
                let t = old(self).spec_text_bytes(span);
                r is Ok <==> (t.len() > 0 && crate::num::all_dec_digits(t) && crate::num::dec_value(t)
                    <= u32::MAX)
            }),
            r matches Ok(v) ==> v == crate::num::dec_value(old(self).spec_text_bytes(span)),
    {
        let text = self.text_bytes(span);
        match parse_dec_u64(text) {
            Some(v) if v <= 4294967295 => Ok(v as u32),
            _ => {
                self.emit_diagnostic(
                    DiagCode::InvalidU32,
                    span,
                    String::from_str("invalid number (not a valid u32)"),
                );
                Err(self.make_error(String::from_str("invalid number (not a valid u32)")))
            },
        }
    }

    /// Read a (possibly negative) decimal number token as an `i64`,
    /// reporting an error when it does not fit.
    fn parse_i64(&mut self, span: SourceRange) -> (r: Result<i64, Diagnostic>)
        requires
            old(self).wf(),
            old(self).span_ok(span),
        ensures
            final(self).wf(),
            final(self).same_input(old(self)),
            final(self).pos == old(self).pos,
            final(self).last_span == old(self).last_span,
            final(self).lexer_diagnostic_cursor == old(self).lexer_diagnostic_cursor,
            r matches Ok(v) ==> Some(v) == parse_i64_spec(old(self).spec_text_bytes(span)),
            r is Err ==> parse_i64_spec(old(self).spec_text_bytes(span)) is None,
    {
        let text = self.text_bytes(span);
        match parse_dec_i64(text) {
            Some(v) => Ok(v),
            None => {
                self.emit_diagnostic(
                    DiagCode::InvalidI64,
                    span,
                    String::from_str("invalid number (not a valid i64)"),
                );
                Err(self.make_error(String::from_str("invalid number (not a valid i64)")))
            },
        }
    }

    /// Skip to the brace that closes an already-consumed `{`, consuming the
    /// closing brace when asked to.
    fn skip_braced_content(&mut self, consume_close: bool)
        requires
            old(self).wf(),
        ensures
            final(self).progressed(old(self)),
            final(self).diagnostics@ == old(self).diagnostics@,
            final(self).lexer_diagnostic_cursor == old(self).lexer_diagnostic_cursor,
            final(self).spec_pos() == skip_braces_from(old(self).spec_tokens(), old(self).spec_pos(), 1, consume_close),
    {
        let ghost ts = self.tokens@;
        let ghost start = self.spec_pos();
        let mut depth: usize = 1;
        while depth > 0 && !self.is_eof()
            invariant
                self.progressed(old(self)),
                self.diagnostics@ == old(self).diagnostics@,
                self.lexer_diagnostic_cursor == old(self).lexer_diagnostic_cursor,
                ts == self.tokens@,
                start == old(self).spec_pos(),
                depth <= self.spec_pos() - start + 1,
                skip_braces_from(ts, self.spec_pos(), depth as int, consume_close) == skip_braces_from(
                    ts,
                    start,
                    1,
                    consume_close,
                ),
            ensures
                depth == 0 || self.spec_pos() + 1 >= ts.len(),
            decreases self.remaining(),
        {
            match self.peek().kind {
                TokenKind::LBrace => {
                    let n = self.tokens.len();
                    assert(depth + 1 <= n);
                    depth = depth + 1;
                    self.advance();
                },
                TokenKind::RBrace => {
                    depth = depth - 1;
                    if depth > 0 || consume_close {
                        self.advance();
                    } else {
                        break;
                    }
                },
                _ => {
                    self.advance();
                },
            }
        }
        assert(skip_braces_from(ts, self.spec_pos(), depth as int, consume_close) == self.spec_pos());
    }

    /// Hand the lexical diagnostics that start before `ownership_end`, and
    /// all parse diagnostics recorded since the last module, to the module
    /// being finished, naming the module in each.
    fn collect_module_diagnostics(
        &mut self,
        ownership_end: usize,
        module_name: Option<&String>,
    ) -> (r: Vec<Diagnostic>)
        requires
            old(self).wf(),
        ensures
            final(self).wf(),
            final(self).same_input(old(self)),
            final(self).pos == old(self).pos,
            final(self).last_span == old(self).last_span,
            final(self).diagnostics@.len() == 0,
            final(self).lexer_diagnostic_cursor >= old(self).lexer_diagnostic_cursor,
            r@.len() == (final(self).lexer_diagnostic_cursor - old(self).lexer_diagnostic_cursor)
                + old(self).diagnostics@.len(),
            forall|i: int|
                0 <= i < r@.len() ==> (#[trigger] r@[i]).code == if i < final(self).lexer_diagnostic_cursor - old(self).lexer_diagnostic_cursor {
                    old(self).lexer_diagnostics@[old(self).lexer_diagnostic_cursor + i].code
                } else {
                    old(self).diagnostics@[i - (final(self).lexer_diagnostic_cursor - old(self).lexer_diagnostic_cursor)].code
                },
            forall|i: int|
                old(self).lexer_diagnostic_cursor <= i < final(self).lexer_diagnostic_cursor
                    ==> starts_before(#[trigger] old(self).lexer_diagnostics@[i], ownership_end as int),
            module_name matches Some(n) ==> forall|i: int|
                0 <= i < r@.len() ==> (#[trigger] r@[i]).module == Some(*n),
            diag_keys(r@).subrange(0, final(self).lexer_diagnostic_cursor - old(self).lexer_diagnostic_cursor)
                == diag_keys(
                old(self).lexer_diagnostics@.subrange(
                    old(self).lexer_diagnostic_cursor as int,
                    final(self).lexer_diagnostic_cursor as int,
                ),
            ),
            final(self).lexer_diagnostic_cursor == old(self).lexer_diagnostics@.len() || !starts_before(
                old(self).lexer_diagnostics@[final(self).lexer_diagnostic_cursor as int],
                ownership_end as int,
            ),
    {
        let start = self.lexer_diagnostic_cursor;
        let mut end = start;
        while end < self.lexer_diagnostics.len()
            invariant
                self.wf(),
                start == self.lexer_diagnostic_cursor,
                start <= end <= self.lexer_diagnostics@.len(),
                forall|i: int|
                    start <= i < end ==> starts_before(#[trigger] self.lexer_diagnostics@[i], ownership_end as int),
            ensures
                end == self.lexer_diagnostics@.len() || !starts_before(
                    self.lexer_diagnostics@[end as int],
                    ownership_end as int,
                ),
            decreases self.lexer_diagnostics@.len() - end,
        {
            let owned = match self.lexer_diagnostics[end].range {
                Some(rg) => rg.start < ownership_end,
                None => false,
            };
            if !owned {
                break;
            }
            end = end + 1;
        }
        let mut combined: Vec<Diagnostic> = Vec::new();
        let mut i = start;
        while i < end
            invariant
                self.wf(),
                start == self.lexer_diagnostic_cursor,
                start <= i <= end <= self.lexer_diagnostics@.len(),
                combined@.len() == i - start,
                forall|k: int|
                    0 <= k < combined@.len() ==> (#[trigger] combined@[k]).code
                        == self.lexer_diagnostics@[start + k].code && combined@[k].range
                        == self.lexer_diagnostics@[start + k].range,
                module_name matches Some(n) ==> forall|k: int|
                    0 <= k < combined@.len() ==> (#[trigger] combined@[k]).module == Some(*n),
            decreases end - i,
        {
            let d = &self.lexer_diagnostics[i];
            combined.push(relabel_diagnostic(d, module_name));
            i = i + 1;
        }
        let ghost lexer_part = combined@;
        let mut j: usize = 0;
        while j < self.diagnostics.len()
            invariant
                self.wf(),
                self.diagnostics@ == old(self).diagnostics@,
                0 <= j <= self.diagnostics@.len(),
                combined@.len() == lexer_part.len() + j,
                combined@.subrange(0, lexer_part.len() as int) == lexer_part,
                forall|k: int|
                    0 <= k < j ==> (#[trigger] combined@[lexer_part.len() + k]).code
                        == self.diagnostics@[k].code,
                module_name matches Some(n) ==> forall|k: int|
                    0 <= k < combined@.len() ==> (#[trigger] combined@[k]).module == Some(*n),
            decreases self.diagnostics@.len() - j,
        {
            let d = &self.diagnostics[j];
            combined.push(relabel_diagnostic(d, module_name));
            proof {
                assert(combined@.subrange(0, lexer_part.len() as int) =~= lexer_part);
            }
            j = j + 1;
        }
        self.lexer_diagnostic_cursor = end;
        self.diagnostics = Vec::new();
        proof {
            assert(diag_keys(combined@).subrange(0, end - start) =~= diag_keys(
                old(self).lexer_diagnostics@.subrange(start as int, end as int),
            )) by {
                assert forall|k: int| 0 <= k < end - start implies #[trigger] diag_keys(
                    combined@,
                )[k] == diag_keys(old(self).lexer_diagnostics@.subrange(start as int, end as int))[k] by {
                    assert(combined@[k] == lexer_part[k]);
                }
            }
            assert forall|k: int| 0 <= k < combined@.len() implies (#[trigger] combined@[k]).code
                == if k < end - start {
                old(self).lexer_diagnostics@[start + k].code
            } else {
                old(self).diagnostics@[k - (end - start)].code
            } by {
                if k < end - start {
                    assert(combined@[k] == lexer_part[k]);
                } else {
                    assert(combined@[lexer_part.len() + (k - (end - start))].code == old(self).diagnostics@[k - (end - start)].code);
                }
            }
        }
        combined
    }

    // ---- List helpers ----

    /// Parse names separated by commas up to `}` or the end of input.
    fn parse_identifier_list(&mut self) -> (r: Result<Vec<Ident>, Diagnostic>)
        requires
            old(self).wf(),
        ensures
            final(self).progressed(old(self)),
            ({
                let l = name_list(old(self).spec_tokens(), old(self).spec_pos());
                &&& final(self).spec_pos() == l.1
                &&& (r is Ok <==> l.2)
                &&& (r matches Ok(ids) ==> idents_at(
                    old(self).spec_doc_bytes(),
                    old(self).spec_tokens(),
                    ids@,
                    l.0,
                ))
            }),
    {
        let ghost ts = self.tokens@;
        let ghost bytes = self.document.spec_bytes();
        let ghost start = self.spec_pos();
        let ghost mut at: Seq<int> = Seq::empty();
        let mut idents: Vec<Ident> = Vec::new();
        proof {
            assert(at + name_list(ts, start).0 =~= name_list(ts, start).0);
        }
        loop
            invariant_except_break
                name_list(ts, start).0 == at + name_list(ts, self.spec_pos()).0,
                name_list(ts, start).1 == name_list(ts, self.spec_pos()).1,
                name_list(ts, start).2 == name_list(ts, self.spec_pos()).2,
            invariant
                self.progressed(old(self)),
                ts == old(self).tokens@,
                bytes == old(self).document.spec_bytes(),
                start == old(self).spec_pos(),
                idents_at(bytes, ts, idents@, at),
            ensures
                self.progressed(old(self)),
                idents_at(bytes, ts, idents@, at),
                at == name_list(ts, start).0,
                self.spec_pos() == name_list(ts, start).1,
                name_list(ts, start).2,
            decreases self.remaining(),
        {
            let ghost q = self.spec_pos();
            if self.check(TokenKind::RBrace) || self.is_eof() {
                proof {
                    assert(at + Seq::<int>::empty() =~= at);
                }
                break;
            }
            let token = self.expect_identifier()?;
            proof {
                self.lemma_word_text(q);
            }
            let ghost before = idents@;
            idents.push(self.make_ident(token));
            proof {
                let old_at = at;
                at = at.push(q);
                assert(old_at + seq![q] =~= at);
                assert forall|k: int| 0 <= k < at.len() implies ident_of(bytes, ts, #[trigger] idents@[k], at[k]) by {
                    if k < before.len() {
                        assert(idents@[k] == before[k]);
                    }
                }
            }
            if !self.check(TokenKind::Comma) {
                break;
            }
            self.advance();
            proof {
                assert(at.drop_last() + (seq![q] + name_list(ts, self.spec_pos()).0) =~= at + name_list(ts, self.spec_pos()).0);
            }
        }
        Ok(idents)
    }

    /// Parse `{ name, ... }`.
    fn parse_braced_identifier_list(&mut self) -> (r: Result<Vec<Ident>, Diagnostic>)
        requires
            old(self).wf(),
        ensures
            final(self).progressed(old(self)),
            r is Ok ==> final(self).spec_pos() > old(self).spec_pos(),
            old(self).spec_peek().kind != TokenKind::LBrace ==> r is Err,
            ({
                let ts = old(self).spec_tokens();
                let p = old(self).spec_pos();
                let l = name_list(ts, p + 1);
                &&& (r is Ok <==> (ts[p].kind == TokenKind::LBrace && l.2 && kind_at(ts, l.1)
                    == TokenKind::RBrace))
                &&& (r is Ok ==> final(self).spec_pos() == l.1 + 1)
                &&& (r matches Ok(ids) ==> idents_at(old(self).spec_doc_bytes(), ts, ids@, l.0))
            }),
    {
        self.expect(TokenKind::LBrace)?;
        let idents = self.parse_identifier_list()?;
        self.expect(TokenKind::RBrace)?;
        Ok(idents)
    }

    // ---- Error recovery ----

    /// Skip tokens until something that starts a definition, `END`, or the
    /// end of input.
    fn recover_to_definition(&mut self)
        requires
            old(self).wf(),
        ensures
            final(self).progressed(old(self)),
            final(self).diagnostics@ == old(self).diagnostics@,
            final(self).lexer_diagnostic_cursor == old(self).lexer_diagnostic_cursor,
            final(self).spec_pos() == recovery_stop(old(self).spec_tokens(), old(self).spec_pos()),
    {
        let ghost ts = self.tokens@;
        while !self.is_eof() && !self.check(TokenKind::KwEnd)
            invariant
                self.progressed(old(self)),
                self.diagnostics@ == old(self).diagnostics@,
                self.lexer_diagnostic_cursor == old(self).lexer_diagnostic_cursor,
                ts == self.tokens@,
                recovery_stop(ts, self.spec_pos()) == recovery_stop(ts, old(self).spec_pos()),
            ensures
                self.progressed(old(self)),
                self.diagnostics@ == old(self).diagnostics@,
                self.lexer_diagnostic_cursor == old(self).lexer_diagnostic_cursor,
                self.spec_pos() == recovery_stop(ts, old(self).spec_pos()),
            decreases self.remaining(),
        {
            let current = self.peek().kind;
            let next = self.peek_nth(1).kind;
            if (current.is_identifier() && next.is_macro_keyword()) || (current.is_identifier()
                && next == TokenKind::ColonColonEqual) || (current == TokenKind::UppercaseIdent && next
                == TokenKind::KwTextualConvention) || (current == TokenKind::UppercaseIdent && next
                == TokenKind::KwMacro) || (current.is_identifier() && next == TokenKind::KwObject
                && self.peek_nth(2).kind == TokenKind::KwIdentifier) {
                break;
            }
            self.advance();
        }
    }

    // ---- Module parsing ----

    /// Parse all MIB modules in the source.
    ///
    /// A single source file may contain multiple modules (e.g. concatenated
    /// RFC MIB files). Each returned [`Module`] carries its own diagnostics.
    /// Parsing stops early if a module header cannot be parsed.
    #[verifier::rlimit(80)]
    pub fn parse_modules(&mut self) -> (modules: Vec<Module>)
        requires
            old(self).wf(),
        ensures
            final(self).advanced(old(self)),
            modules@[0].span.start == old(self).spec_peek().span.start,
            forall|k: int| 0 <= k < modules@.len() - 1 ==> adjacent(
                old(self).spec_tokens(),
                #[trigger] modules@[k],
                modules@[k + 1],
            ),
            reports_placed(
                modules@,
                diag_keys(
                    old(self).spec_lexer_diagnostics().subrange(
                        old(self).spec_cursor(),
                        old(self).spec_lexer_diagnostics().len() as int,
                    ),
                ),
            ),
            modules@.len() >= 1,
            forall|k: int| 0 <= k < modules@.len() - 1 ==> (#[trigger] modules@[k]).name is Some,
            forall|k: int| 0 <= k < modules@.len() ==> final(self).span_ok((#[trigger] modules@[k]).span),
            forall|k: int| 0 <= k < modules@.len() ==> diagnostics_name_module(#[trigger] modules@[k]),
            old(self).spec_peek().kind == TokenKind::Eof ==> modules@.len() == 1 && modules@[0].name is None,
            modules_in_order(modules@),
            forall|k: int| 0 <= k < modules@.len() ==> name_at_module_start(
                old(self).spec_doc_bytes(),
                #[trigger] modules@[k],
            ),
            forall|k: int, j: int|
                0 <= k < modules@.len() && 0 <= j < old(self).spec_tokens().len()
                    && old(self).spec_tokens()[j].span.start == modules@[k].span.start
                    ==> #[trigger] read_from_header(old(self).spec_doc_bytes(), old(self).spec_tokens(), j, modules@[k]),
            forall|k: int| 0 <= k < modules@.len() - 1 ==> closed_by_end(old(self).spec_tokens(), #[trigger] modules@[k]),
            modules@.last().name is Some ==> final(self).spec_peek().kind == TokenKind::Eof,
            forall|k: int| 0 < k < modules@.len() ==> (#[trigger] modules@[k]).span.start
                < old(self).spec_tokens().last().span.start,
    {
        let mut modules: Vec<Module> = Vec::new();
        let ghost lex = old(self).lexer_diagnostics@;
        let ghost c0 = old(self).lexer_diagnostic_cursor as int;
        let ghost mut parts: Seq<Seq<(DiagCode, Option<SourceRange>)>> = Seq::empty();
        proof {
            assert(diag_keys(lex.subrange(c0, c0)) =~= Seq::<(DiagCode, Option<SourceRange>)>::empty());
        }
        while !self.is_eof()
            invariant
                self.advanced(old(self)),
                lex == self.lexer_diagnostics@,
                c0 == old(self).lexer_diagnostic_cursor,
                parts.len() == modules@.len(),
                parts.flatten() == diag_keys(lex.subrange(c0, self.lexer_diagnostic_cursor as int)),
                forall|k: int| 0 <= k < modules@.len() ==> starts_with_reports(#[trigger] modules@[k], parts[k]),
                modules@.len() > 0 && self.spec_peek().kind == TokenKind::Eof ==> self.lexer_diagnostic_cursor
                    == lex.len(),
                modules@.len() > 0 ==> modules@[0].span.start == old(self).spec_peek().span.start,
                forall|k: int| 0 <= k < modules@.len() - 1 ==> adjacent(
                    old(self).spec_tokens(),
                    #[trigger] modules@[k],
                    modules@[k + 1],
                ),
                modules@.len() > 0 && self.spec_peek().kind != TokenKind::Eof ==> self.spec_pos() > 0
                    && modules@.last().span.end == self.tokens@[self.spec_pos() - 1].span.end,
                modules@.len() == 0 ==> self.spec_pos() == old(self).spec_pos(),
                forall|k: int| 0 <= k < modules@.len() ==> (#[trigger] modules@[k]).name is Some,
                forall|k: int| 0 <= k < modules@.len() ==> self.span_ok((#[trigger] modules@[k]).span),
                forall|k: int| 0 <= k < modules@.len() ==> diagnostics_name_module(#[trigger] modules@[k]),
                modules@.len() > 0 ==> old(self).spec_peek().kind != TokenKind::Eof,
                modules_in_order(modules@),
                forall|k: int| 0 <= k < modules@.len() ==> (#[trigger] modules@[k]).span.end
                    <= self.spec_peek().span.start,
                forall|k: int| 0 <= k < modules@.len() ==> name_at_module_start(
                    old(self).spec_doc_bytes(),
                    #[trigger] modules@[k],
                ),
                forall|k: int, j: int|
                    0 <= k < modules@.len() && 0 <= j < old(self).spec_tokens().len()
                        && old(self).spec_tokens()[j].span.start == modules@[k].span.start
                        ==> #[trigger] read_from_header(old(self).spec_doc_bytes(), old(self).spec_tokens(), j, modules@[k]),
                forall|k: int| 0 <= k < modules@.len() - 1 ==> closed_by_end(old(self).spec_tokens(), #[trigger] modules@[k]),
                modules@.len() > 0 && self.spec_peek().kind != TokenKind::Eof ==> closed_by_end(
                    old(self).spec_tokens(),
                    modules@.last(),
                ),
                forall|k: int| 0 <= k < modules@.len() ==> (#[trigger] modules@[k]).span.start
                    < old(self).spec_tokens().last().span.start,
                forall|k: int, i: int|
                    0 <= k < parts.len() && 0 <= i < parts[k].len() ==> report_placed(
                        modules@,
                        k,
                        #[trigger] parts[k][i],
                    ),
                modules@.len() > 0 && self.spec_peek().kind != TokenKind::Eof ==> forall|i: int|
                    0 <= i < parts.last().len() ==> (#[trigger] parts.last()[i]).1.unwrap().start
                        < modules@.last().span.end,
                modules@.len() > 0 && self.spec_peek().kind != TokenKind::Eof ==> forall|i: int|
                    self.lexer_diagnostic_cursor <= i < lex.len() ==> (#[trigger] lex[i]).range.unwrap().start
                        >= modules@.last().span.end,
            decreases self.remaining(),
        {
            let ghost before = modules@;
            let ghost parts_head = parts;
            let ghost p_before = self.spec_pos();
            let ghost c_before = self.lexer_diagnostic_cursor as int;
            let module = self.parse_one_module();
            proof {
                assert(self.tokens@[p_before].span.start <= self.tokens@[self.pos as int].span.start);
            }
            let failed = module.name.is_none();
            modules.push(module);
            proof {
                self.lemma_starts_before_end(p_before);
                assert(modules@.last().span.start < old(self).spec_tokens().last().span.start);
                if !failed && self.spec_peek().kind != TokenKind::Eof {
                    let j = self.spec_pos() - 1;
                    assert(self.tokens@[j].kind == TokenKind::KwEnd);
                    assert(closed_by_end(old(self).spec_tokens(), modules@.last()));
                }
                assert forall|k: int| 0 <= k < modules@.len() - 1 implies closed_by_end(
                    old(self).spec_tokens(),
                    #[trigger] modules@[k],
                ) by {
                    assert(modules@[k] == before[k]);
                }
                assert forall|k: int| 0 <= k < modules@.len() implies (#[trigger] modules@[k]).span.start
                    < old(self).spec_tokens().last().span.start by {
                    if k < modules@.len() - 1 {
                        assert(modules@[k] == before[k]);
                    }
                }
            }
            proof {
                assert forall|k: int| 0 <= k < modules@.len() - 1 implies adjacent(
                    old(self).spec_tokens(),
                    #[trigger] modules@[k],
                    modules@[k + 1],
                ) by {
                    assert(modules@[k] == before[k]);
                    if k == modules@.len() - 2 {
                        assert(before.last() == modules@[k]);
                        assert(adjacent(old(self).spec_tokens(), modules@[k], modules@[k + 1])) by {
                            reveal(adjacent);
                            assert(self.tokens@[p_before].span.start == modules@[k + 1].span.start);
                        }
                    } else {
                        assert(modules@[k + 1] == before[k + 1]);
                    }
                }
                let part = diag_keys(lex.subrange(c_before, self.lexer_diagnostic_cursor as int));
                let before_parts = parts;
                parts = parts.push(part);
                before_parts.lemma_flatten_push(part);
                assert(diag_keys(lex.subrange(c0, c_before)) + part =~= diag_keys(
                    lex.subrange(c0, self.lexer_diagnostic_cursor as int),
                ));
                assert forall|k: int| 0 <= k < modules@.len() implies starts_with_reports(
                    #[trigger] modules@[k],
                    parts[k],
                ) by {
                    if k < modules@.len() - 1 {
                        assert(modules@[k] == before[k]);
                    }
                }
                assert forall|k: int, j: int|
                    0 <= k < modules@.len() && 0 <= j < old(self).spec_tokens().len()
                        && old(self).spec_tokens()[j].span.start == modules@[k].span.start
                        implies #[trigger] read_from_header(old(self).spec_doc_bytes(), old(self).spec_tokens(), j, modules@[k]) by {
                    if k < modules@.len() - 1 {
                        assert(modules@[k] == before[k]);
                    } else if j == self.tokens@.len() - 1 {
                        self.lemma_starts_before_end(p_before);
                    } else {
                        self.lemma_start_unique(j, p_before);
                    }
                }
                assert forall|k: int| 0 <= k < modules@.len() implies name_at_module_start(
                    old(self).spec_doc_bytes(),
                    #[trigger] modules@[k],
                ) by {
                    if k < modules@.len() - 1 {
                        assert(modules@[k] == before[k]);
                    }
                }
            }
            proof {
                reveal(lexer_reports_in_document);
                assert forall|i: int| 0 <= i < lex.len() implies (#[trigger] lex[i]).range is Some by {
                    assert(starts_before(lex[i], self.document.spec_bytes().len() as int));
                }
                lemma_reports_placed_push(
                    before,
                    modules@.last(),
                    parts_head,
                    lex,
                    c_before,
                    self.lexer_diagnostic_cursor as int,
                );
                assert(before.push(modules@.last()) =~= modules@);
                if !failed && self.spec_peek().kind != TokenKind::Eof {
                    let c = self.lexer_diagnostic_cursor as int;
                    assert forall|i: int| 0 <= i < parts.last().len() implies (
                    #[trigger] parts.last()[i]).1.unwrap().start < modules@.last().span.end by {
                        assert(lex.subrange(c_before, c)[i] == lex[c_before + i]);
                        assert(parts.last()[i] == crate::lexer::diag_key(lex[c_before + i]));
                        assert(starts_before(lex[c_before + i], modules@.last().span.end as int));
                    }
                    assert forall|i: int| c <= i < lex.len() implies (#[trigger] lex[i]).range.unwrap().start
                        >= modules@.last().span.end by {
                        assert(!starts_before(lex[c], modules@.last().span.end as int));
                        assert(lex[c].range is Some);
                        if i > c {
                            assert(crate::lexer::diagnostics_ordered(lex));
                            assert(lex[c].range.unwrap().start <= lex[i].range.unwrap().start);
                        }
                    }
                }
            }
            if failed {
                proof {
                    assert forall|k: int| 0 <= k < modules@.len() - 1 implies (#[trigger] modules@[k]).name is Some by {
                        assert(modules@[k] == before[k]);
                    }
                    assert forall|k: int| 0 <= k < modules@.len() implies self.span_ok((#[trigger] modules@[k]).span)
                        && diagnostics_name_module(modules@[k]) by {
                        if k < modules@.len() - 1 {
                            assert(modules@[k] == before[k]);
                        }
                    }
                    lemma_push_in_order(before, modules@);
                    assert(parts.len() == modules@.len() && parts.flatten() == diag_keys(
                        lex.subrange(c0, lex.len() as int),
                    ) && forall|k: int|
                        0 <= k < modules@.len() ==> starts_with_reports(#[trigger] modules@[k], parts[k]));
                }
                return modules;
            }
            proof {
                assert forall|k: int| 0 <= k < modules@.len() implies (#[trigger] modules@[k]).name is Some
                    && self.span_ok(modules@[k].span) && diagnostics_name_module(modules@[k])
                    && modules@[k].span.end <= self.spec_peek().span.start by {
                    if k < modules@.len() - 1 {
                        assert(modules@[k] == before[k]);
                    }
                }
                lemma_push_in_order(before, modules@);
            }
        }
        if modules.len() == 0 {
            let ghost c_before = self.lexer_diagnostic_cursor as int;
            let module = self.parse_one_module();
            modules.push(module);
            proof {
                let part = diag_keys(lex.subrange(c_before, self.lexer_diagnostic_cursor as int));
                let before_parts = parts;
                parts = parts.push(part);
                before_parts.lemma_flatten_push(part);
                assert(diag_keys(lex.subrange(c0, c_before)) + part =~= diag_keys(
                    lex.subrange(c0, self.lexer_diagnostic_cursor as int),
                ));
                assert(modules@[0] == module);
                reveal(lexer_reports_in_document);
                assert forall|k: int, i: int|
                    0 <= k < parts.len() && 0 <= i < parts[k].len() implies report_placed(
                        modules@,
                        k,
                        #[trigger] parts[k][i],
                    ) by {
                    assert(k == 0);
                    assert(parts[0] == part);
                    assert(lex.subrange(c_before, self.lexer_diagnostic_cursor as int)[i] == lex[c_before + i]);
                    assert(part[i] == crate::lexer::diag_key(lex[c_before + i]));
                    assert(starts_before(lex[c_before + i], self.document.spec_bytes().len() as int));
                }
                assert forall|k: int, j: int|
                    0 <= k < modules@.len() && 0 <= j < old(self).spec_tokens().len()
                        && old(self).spec_tokens()[j].span.start == modules@[k].span.start
                        implies #[trigger] read_from_header(old(self).spec_doc_bytes(), old(self).spec_tokens(), j, modules@[k]) by {
                    if j < self.tokens@.len() - 1 {
                        self.lemma_starts_before_end(j);
                    }
                }
            }
        }
        proof {
            assert(parts.len() == modules@.len() && parts.flatten() == diag_keys(
                lex.subrange(c0, lex.len() as int),
            ) && forall|k: int|
                0 <= k < modules@.len() ==> starts_with_reports(#[trigger] modules@[k], parts[k]));
        }
        modules
    }

    /// Parse one module: header, imports, definitions up to END. When the
    /// header cannot be parsed the module has no name and collects every
    /// remaining lexical diagnostic.
    #[verifier::rlimit(100)]
    fn parse_one_module(&mut self) -> (m: Module)
        requires
            old(self).wf(),
        ensures
            final(self).advanced(old(self)),
            starts_with_reports(
                m,
                diag_keys(
                    old(self).spec_lexer_diagnostics().subrange(
                        old(self).spec_cursor(),
                        final(self).spec_cursor(),
                    ),
                ),
            ),
            m.name is None || final(self).spec_peek().kind == TokenKind::Eof ==> final(self).spec_cursor()
                == final(self).spec_lexer_diagnostics().len(),
            m.name is Some ==> final(self).spec_pos() > old(self).spec_pos(),
            final(self).span_ok(m.span),
            diagnostics_name_module(m),
            old(self).spec_peek().kind == TokenKind::Eof ==> m.name is None,
            m.span.start == old(self).spec_peek().span.start,
            m.name is Some ==> m.span.end <= final(self).spec_peek().span.start,
            m.name matches Some(id) ==> id.span == old(self).spec_peek().span && id.span.end <= m.span.end
                && id.name@ == ascii_chars(old(self).spec_text_bytes(id.span)),
            read_from_header(old(self).spec_doc_bytes(), old(self).spec_tokens(), old(self).spec_pos(), m),
            m.name is Some && final(self).spec_peek().kind != TokenKind::Eof ==> m.span.end
                == final(self).spec_tokens()[final(self).spec_pos() - 1].span.end,
            m.name is Some && final(self).spec_peek().kind != TokenKind::Eof ==> final(self).spec_tokens()[
                final(self).spec_pos() - 1].kind == TokenKind::KwEnd,
            m.name is Some && final(self).spec_peek().kind != TokenKind::Eof ==> forall|i: int|
                old(self).spec_cursor() <= i < final(self).spec_cursor() ==> starts_before(
                    #[trigger] final(self).spec_lexer_diagnostics()[i],
                    m.span.end as int,
                ),
            m.name is Some && final(self).spec_peek().kind != TokenKind::Eof ==> (final(self).spec_cursor()
                == final(self).spec_lexer_diagnostics().len() || !starts_before(
                final(self).spec_lexer_diagnostics()[final(self).spec_cursor()],
                m.span.end as int,
            )),
    {
        proof {
            reveal(read_from_header);
        }
        self.diagnostics = Vec::new();
        let ghost first = self.spec_pos();
        let start = self.current_span();
        let name = match self.parse_module_header() {
            Ok(name) => name,
            Err(diag) => {
                self.record_parse_error(diag);
                let end = self.current_span();
                assert(self.tokens@[first].span.start <= self.tokens@[self.pos as int].span.start);
                let span = cover(start, end);
                let eof_end = self.document.bytes().len();
                let diagnostics = self.collect_module_diagnostics(eof_end, None);
                proof {
                    reveal(lexer_reports_in_document);
                    reveal(definitions_dispatched);
                    if self.lexer_diagnostic_cursor < self.lexer_diagnostics@.len() {
                        assert(starts_before(
                            self.lexer_diagnostics@[self.lexer_diagnostic_cursor as int],
                            eof_end as int,
                        ));
                    }
                }
                return Module {
                    name: None,
                    imports: Vec::new(),
                    body: Vec::new(),
                    span,
                    diagnostics,
                };
            },
        };
        let module_name = name.name.clone();
        let mut imports: Vec<ImportClause> = Vec::new();
        let ghost after_header = self.spec_pos();
        if self.check(TokenKind::KwImports) {
            let ghost before_imports = *self;
            match self.parse_imports() {
                Ok(imp) => {
                    imports = imp;
                },
                Err(diag) => {
                    self.record_parse_error(diag);
                },
            }
            proof {
                reveal(imports_read);
                reveal(module_imports_read);
                assert(module_imports_read(
                    before_imports.spec_doc_bytes(),
                    before_imports.spec_tokens(),
                    after_header,
                    imports@,
                ));
                assert(self.spec_pos() == body_start(self.tokens@, after_header));
            }
        } else {
            proof {
                reveal(module_imports_read);
                assert(self.spec_pos() == body_start(self.tokens@, after_header));
            }
        }
        let mut body: Vec<Definition> = Vec::new();
        let ghost ts = self.tokens@;
        let ghost short = kind_at(ts, after_header) == TokenKind::KwEnd;
        let ghost bytes = self.document.spec_bytes();
        let ghost run = plain_run(bytes, ts, body_start(ts, after_header));
        let ghost mut done: Seq<int> = Seq::empty();
        proof {
            if run is Some {
                assert(done + (run->0).0 =~= (run->0).0);
            }
        }
        proof {
            reveal(definitions_dispatched);
        }
        while !self.check(TokenKind::KwEnd) && !self.is_eof()
            invariant
                self.progressed(old(self)),
                self.spec_pos() > old(self).spec_pos(),
                ts == old(self).tokens@,
                first == old(self).spec_pos(),
                short == (kind_at(ts, after_header) == TokenKind::KwEnd),
                short ==> self.spec_pos() == after_header && body@.len() == 0,
                definitions_dispatched(ts, first, body@),
                bytes == old(self).document.spec_bytes(),
                run == plain_run(bytes, ts, body_start(ts, after_header)),
                run is Some ==> (plain_run(bytes, ts, self.spec_pos()) is Some && (run->0).0 == done + (
                plain_run(bytes, ts, self.spec_pos())->0).0 && (run->0).1 == (plain_run(
                    bytes,
                    ts,
                    self.spec_pos(),
                )->0).1 && plain_body_of(bytes, ts, done, body@)),
            ensures
                self.progressed(old(self)),
                self.spec_pos() > old(self).spec_pos(),
                short ==> self.spec_pos() == after_header && body@.len() == 0,
                definitions_dispatched(ts, first, body@),
                run is Some ==> (done == (run->0).0 && self.spec_pos() == (run->0).1 && plain_body_of(
                    bytes,
                    ts,
                    done,
                    body@,
                )),
                self.spec_peek().kind == TokenKind::KwEnd || self.spec_peek().kind == TokenKind::Eof,
            decreases self.remaining(),
        {
            let ghost iter_pos = self.spec_pos();
            proof {
                if run is Some {
                    assert(plain_definition_end(bytes, ts, iter_pos) is Some);
                }
            }
            // The lexer consumes each EXPORTS body, leaving the keyword and
            // optional semicolon. Skip consecutive clauses here.
            while self.check(TokenKind::KwExports)
                invariant
                    self.progressed(old(self)),
                    self.spec_pos() > old(self).spec_pos(),
                    self.spec_pos() >= iter_pos,
                    ts == old(self).tokens@,
                    run is Some ==> self.spec_pos() == iter_pos && kind_at(ts, iter_pos)
                        != TokenKind::KwExports,
                decreases self.remaining(),
            {
                self.advance();
                if self.check(TokenKind::Semicolon) {
                    self.advance();
                }
            }
            if self.check(TokenKind::KwEnd) || self.is_eof() {
                break;
            }
            let pos_before = self.pos;
            match self.parse_definition() {
                Ok(def) => {
                    let ghost before = body@;
                    body.push(def);
                    proof {
                        assert(body@ == before.push(body@.last()));
                        lemma_dispatched_push(ts, first, before, body@.last(), pos_before as int);
                        if run is Some {
                            let q = pos_before as int;
                            let old_done = done;
                            done = done.push(q);
                            assert forall|k: int| 0 <= k < done.len() implies plain_definition_of(
                                bytes,
                                ts,
                                done[k],
                                #[trigger] body@[k],
                            ) by {
                                if k < old_done.len() {
                                    assert(body@[k] == before[k]);
                                }
                            }
                            assert(old_done + (seq![q] + (plain_run(bytes, ts, self.spec_pos())->0).0)
                                =~= done + (plain_run(bytes, ts, self.spec_pos())->0).0);
                        }
                    }
                },
                Err(diag) => {
                    self.record_parse_error(diag);
                    self.recover_to_definition();
                    if self.pos == pos_before {
                        self.advance();
                    }
                },
            }
        }
        if self.check(TokenKind::KwEnd) {
            self.advance();
            proof {
                if short || run is Some {
                    reveal(tokens_disjoint);
                    let e = self.spec_pos() - 1;
                    assert(self.tokens@[first].span.end <= self.tokens@[e].span.start);
                    assert(token_shape(self.document.spec_bytes(), self.tokens@[e]));
                }
            }
        } else {
            let err = self.make_error(String::from_str("expected END"));
            self.record_parse_error(err);
        }
        proof {
            self.lemma_last_span_before_current();
            assert(self.tokens@[first].span.end <= self.tokens@[self.pos as int].span.start);
            assert(self.tokens@[first].span.start <= self.last_span.start);
            if self.tokens@[self.pos as int].kind != TokenKind::Eof {
                self.lemma_last_span_is_previous();
                assert(self.tokens@[first].span.end <= self.last_span.end);
            }
        }
        let span = cover(start, self.last_span);
        let ownership_end = if self.is_eof() {
            self.document.bytes().len()
        } else {
            self.last_span.end
        };
        let ghost at_end = self.spec_peek().kind == TokenKind::Eof;
        proof {
            if !at_end {
                assert(span.end == ownership_end);
            }
        }
        let diagnostics = self.collect_module_diagnostics(ownership_end, Some(&module_name));
        proof {
            reveal(lexer_reports_in_document);
            if at_end && self.lexer_diagnostic_cursor < self.lexer_diagnostics@.len() {
                assert(starts_before(
                    self.lexer_diagnostics@[self.lexer_diagnostic_cursor as int],
                    ownership_end as int,
                ));
            }
        }
        let m = Module { name: Some(name), imports, body, span, diagnostics };
        proof {
            assert forall|i: int| 0 <= i < m.diagnostics@.len() implies names_module(
                #[trigger] m.diagnostics@[i],
                m.name->0.name@,
            ) by {}
        }
        m
    }

    /// Parse `NAME [{ obsolete OID }] DEFINITIONS ::= BEGIN`.
    fn parse_module_header(&mut self) -> (r: Result<Ident, Diagnostic>)
        requires
            old(self).wf(),
        ensures
            final(self).progressed(old(self)),
            r is Ok ==> final(self).spec_pos() > old(self).spec_pos(),
            r matches Ok(id) ==> id.span == old(self).spec_peek().span && id.name@ == ascii_chars(
                old(self).spec_text_bytes(id.span),
            ),
            r is Ok ==> (old(self).spec_peek().kind.spec_is_identifier() || old(self).spec_peek().kind
                == TokenKind::ForbiddenKeyword),
            r is Ok <==> header_end(old(self).spec_tokens(), old(self).spec_pos()) is Some,
            r is Ok ==> final(self).spec_pos() == header_end(old(self).spec_tokens(), old(self).spec_pos())->0,
    {
        let name_token = self.expect_identifier()?;
        proof {
            old(self).lemma_word_text(old(self).spec_pos());
        }
        let name = self.make_ident_with_validation(name_token);
        // Skip obsolete module OID before DEFINITIONS
        if self.check(TokenKind::LBrace) {
            self.advance();
            self.skip_braced_content(true);
        }
        self.expect(TokenKind::KwDefinitions)?;
        self.expect(TokenKind::ColonColonEqual)?;
        self.expect(TokenKind::KwBegin)?;
        Ok(name)
    }

    // ---- Import parsing ----

    fn parse_imports(&mut self) -> (r: Result<Vec<ImportClause>, Diagnostic>)
        requires
            old(self).wf(),
            old(self).spec_peek().kind == TokenKind::KwImports,
        ensures
            final(self).progressed(old(self)),
            imports_read(
                old(self).spec_doc_bytes(),
                old(self).spec_tokens(),
                old(self).spec_pos() + 1,
                r,
                final(self).spec_pos(),
            ),
    {
        proof {
            reveal(imports_read);
        }
        let ghost ts = self.tokens@;
        let ghost bytes = self.document.spec_bytes();
        self.expect(TokenKind::KwImports)?;
        let ghost first = self.spec_pos();
        let ghost mut done: Seq<(Seq<int>, int, int)> = Seq::empty();
        let mut clauses: Vec<ImportClause> = Vec::new();
        proof {
            assert(done + Seq::<(Seq<int>, int, int)>::empty() =~= done);
            match import_clauses(ts, first).0 {
                Some(cs) => {
                    assert(done + cs =~= cs);
                },
                None => {},
            }
        }
        while !self.check(TokenKind::Semicolon) && !self.check(TokenKind::KwEnd) && !self.is_eof()
            invariant
                self.progressed(old(self)),
                ts == old(self).tokens@,
                bytes == old(self).document.spec_bytes(),
                first == old(self).spec_pos() + 1,
                clauses_of(bytes, ts, clauses@, done),
                import_clauses(ts, first).1 == import_clauses(ts, self.spec_pos()).1,
                import_clauses(ts, first).0 == match import_clauses(ts, self.spec_pos()).0 {
                    Some(cs) => Some(done + cs),
                    None => None,
                },
            decreases self.remaining(),
        {
            let ghost iter_pos = self.spec_pos();
            let start = self.current_span();
            let mut symbols: Vec<Ident> = Vec::new();
            let ghost mut syms: Seq<int> = Seq::empty();
            proof {
                assert(syms + import_symbols(ts, iter_pos).0 =~= import_symbols(ts, iter_pos).0);
            }
            // Collect symbols until FROM
            loop
                invariant
                    self.progressed(old(self)),
                    self.spec_pos() >= iter_pos,
                    ts == old(self).tokens@,
                    bytes == old(self).document.spec_bytes(),
                    first == old(self).spec_pos() + 1,
                    0 <= iter_pos < ts.len(),
                    ts[iter_pos].kind != TokenKind::Semicolon && ts[iter_pos].kind != TokenKind::KwEnd
                        && ts[iter_pos].kind != TokenKind::Eof,
                    clauses_of(bytes, ts, clauses@, done),
                    import_clauses(ts, first).1 == import_clauses(ts, iter_pos).1,
                    import_clauses(ts, first).0 == match import_clauses(ts, iter_pos).0 {
                        Some(cs) => Some(done + cs),
                        None => None,
                    },
                    start == ts[iter_pos].span,
                    symbols@.len() == syms.len(),
                    forall|k: int| 0 <= k < syms.len() ==> ident_of(bytes, ts, #[trigger] symbols@[k], syms[k]),
                    import_symbols(ts, iter_pos).0 == syms + import_symbols(ts, self.spec_pos()).0,
                    import_symbols(ts, iter_pos).1 == import_symbols(ts, self.spec_pos()).1,
                    import_symbols(ts, iter_pos).2 == import_symbols(ts, self.spec_pos()).2,
                ensures
                    ts[self.spec_pos()].kind == TokenKind::KwFrom || ts[self.spec_pos()].kind
                        == TokenKind::Semicolon || ts[self.spec_pos()].kind == TokenKind::KwEnd
                        || ts[self.spec_pos()].kind == TokenKind::Eof,
                decreases self.remaining(),
            {
                let ghost at = self.spec_pos();
                let kind = self.peek().kind;
                if kind == TokenKind::KwFrom || kind == TokenKind::Semicolon || kind == TokenKind::KwEnd
                    || kind == TokenKind::Eof {
                    break;
                }
                if kind.is_macro_keyword() || kind.is_type_keyword() || kind.is_identifier() {
                    let token = self.advance();
                    proof {
                        self.lemma_word_text(at);
                    }
                    let ident = self.make_ident(token);
                    symbols.push(ident);
                    proof {
                        syms = syms.push(at);
                    }
                } else {
                    proof {
                        reveal(imports_read);
                        assert(import_clauses(ts, iter_pos).1 == at);
                        assert(import_clauses(ts, iter_pos).0 is None);
                    }
                    return Err(self.make_error(String::from_str("expected symbol or FROM")));
                }
                if self.check(TokenKind::Comma) {
                    self.advance();
                }
                proof {
                    assert(import_symbols(ts, at).0 == seq![at] + import_symbols(ts, self.spec_pos()).0);
                    assert(syms + import_symbols(ts, self.spec_pos()).0 =~= syms.drop_last() + (seq![at]
                        + import_symbols(ts, self.spec_pos()).0));
                }
            }
            let ghost stop = self.spec_pos();
            proof {
                reveal(imports_read);
                assert(import_symbols(ts, iter_pos).1 == stop);
                assert(import_symbols(ts, iter_pos).2);
            }
            match self.expect(TokenKind::KwFrom) {
                Ok(_) => {},
                Err(e) => {
                    proof {
                        assert(import_clauses(ts, iter_pos).1 == stop);
                        assert(import_clauses(ts, iter_pos).0 is None);
                    }
                    return Err(e);
                },
            }
            let module_token = match self.expect(TokenKind::UppercaseIdent) {
                Ok(t) => t,
                Err(e) => {
                    proof {
                        assert(import_clauses(ts, iter_pos).1 == stop + 1);
                        assert(import_clauses(ts, iter_pos).0 is None);
                    }
                    return Err(e);
                },
            };
            proof {
                self.lemma_word_text(stop + 1);
            }
            let from_module = self.make_ident(module_token);
            let span = cover(start, self.last_span);
            let ghost before_clauses = clauses@;
            clauses.push(ImportClause { symbols, from_module, span });
            proof {
                let spec = (syms, stop + 1, iter_pos);
                lemma_import_symbols_bounds(ts, iter_pos);
                assert(import_clauses(ts, iter_pos).0 == match import_clauses(ts, stop + 2).0 {
                    Some(cs) => Some(seq![spec] + cs),
                    None => None,
                });
                match import_clauses(ts, stop + 2).0 {
                    Some(cs) => {
                        assert(done.push(spec) + cs =~= done + (seq![spec] + cs));
                    },
                    None => {},
                }
                assert forall|c: int| 0 <= c < clauses@.len() implies clause_of(
                    bytes,
                    ts,
                    #[trigger] clauses@[c],
                    done.push(spec)[c],
                ) by {
                    if c < before_clauses.len() {
                        assert(clauses@[c] == before_clauses[c]);
                    }
                }
                done = done.push(spec);
            }
        }
        if self.check(TokenKind::Semicolon) {
            self.advance();
        } else {
            let err = self.make_error(String::from_str("unexpected end of imports"));
            self.record_parse_error(err);
        }
        proof {
            assert(done + Seq::<(Seq<int>, int, int)>::empty() =~= done);
        }
        Ok(clauses)
    }

    // ---- Definition dispatch ----

    /// Parse one definition, chosen by its first tokens.
    #[verifier::rlimit(40)]
    fn parse_definition(&mut self) -> (r: Result<Definition, Diagnostic>)
        requires
            old(self).wf(),
        ensures
            final(self).progressed(old(self)),
            r is Ok ==> final(self).spec_pos() > old(self).spec_pos(),
            ({
                let ts = old(self).spec_tokens();
                let p = old(self).spec_pos();
                let bytes = old(self).spec_doc_bytes();
                let f = kind_at(ts, p);
                let s = kind_at(ts, p + 1);
                let j = plain_oid_end(bytes, ts, p + 5);
                &&& !dispatches(ts, p) ==> r is Err
                &&& (r matches Ok(d) ==> dispatched_as(ts, p, d))
                &&& (r matches Ok(d) ==> definition_name_span(d) == ts[p].span)
                &&& (f.spec_is_identifier() && s == TokenKind::KwObject && kind_at(ts, p + 2)
                    == TokenKind::KwIdentifier && kind_at(ts, p + 3) == TokenKind::ColonColonEqual
                    && kind_at(ts, p + 4) == TokenKind::LBrace && kind_at(ts, j) == TokenKind::RBrace)
                    ==> (final(self).spec_pos() == j + 1 && (r matches Ok(Definition::ValueAssignment(v))
                    && v.name.span == ts[p].span && v.oid.components@.len() == j - (p + 5)
                    && oid_components_from(bytes, ts, v.oid.components@, 0, p + 5)))
                &&& ((f.spec_is_identifier() || f.spec_is_type_keyword()) && s == TokenKind::ColonColonEqual)
                    ==> match plain_type_end(ts, p + 2) {
                    Some(e) => final(self).spec_pos() == e && (r matches Ok(Definition::TypeAssignment(t))
                        && t.name.span == ts[p].span && plain_type_of(bytes, ts, t.syntax, p + 2)),
                    None => true,
                }
            }),
    {
        let first = self.peek().kind;
        let second = self.peek_nth(1).kind;
        if second == TokenKind::KwObject && first.is_identifier() && self.peek_nth(2).kind
            == TokenKind::KwIdentifier {
            return self.parse_value_assignment();
        }
        if first.is_identifier() {
            match second {
                TokenKind::KwObjectType => return self.parse_object_type(),
                TokenKind::KwModuleIdentity => return self.parse_module_identity(),
                TokenKind::KwObjectIdentity => return self.parse_object_identity(),
                TokenKind::KwNotificationType => return self.parse_notification_type(),
                TokenKind::KwTrapType => return self.parse_trap_type(),
                TokenKind::KwObjectGroup => return self.parse_object_group(),
                TokenKind::KwNotificationGroup => return self.parse_notification_group(),
                TokenKind::KwModuleCompliance => return self.parse_module_compliance(),
                TokenKind::KwAgentCapabilities => return self.parse_agent_capabilities(),
                _ => {},
            }
        }
        if second == TokenKind::KwTextualConvention && first == TokenKind::UppercaseIdent {
            return self.parse_textual_convention();
        }
        // Type assignment or assignment-style TC: TypeName ::= ...
        // Type keywords (IpAddress, Counter32, etc.) can appear on the left in
        // base module definitions like SNMPv2-SMI.
        if second == TokenKind::ColonColonEqual && (first == TokenKind::UppercaseIdent || first
            == TokenKind::LowercaseIdent || first.is_type_keyword()) {
            if self.peek_nth(2).kind == TokenKind::KwTextualConvention {
                return self.parse_textual_convention_with_assignment();
            }
            if first == TokenKind::LowercaseIdent {
                let span = self.current_span();
                self.emit_diagnostic(
                    DiagCode::BadIdentifierCase,
                    span,
                    String::from_str("type assignment should start with an uppercase letter"),
                );
            }
            return self.parse_type_assignment();
        }
        // MACRO definition (name can be a macro keyword like OBJECT-TYPE)
        if second == TokenKind::KwMacro && (first == TokenKind::UppercaseIdent
            || first.is_macro_keyword()) {
            return self.parse_macro_definition();
        }
        let message = crate::text::concat3("unexpected token: ", first.display_name(), "");
        Err(self.make_error(message))
    }

    // ---- Definition parsers ----

    /// Consume the name token that starts a definition and validate it;
    /// value references (lowercase by convention) are checked for case too.
    fn parse_definition_name(&mut self, value_reference: bool) -> (id: Ident)
        requires
            old(self).wf(),
            old(self).spec_peek().kind != TokenKind::Eof,
        ensures
            final(self).progressed(old(self)),
            final(self).spec_pos() == old(self).spec_pos() + 1,
            id.span == old(self).spec_peek().span,
    {
        let name_token = self.advance();
        let name = self.make_ident_with_validation(name_token);
        if value_reference {
            let bytes = self.text_bytes(name_token.span);
            self.validate_value_reference(bytes, name_token.span);
        }
        name
    }

    #[verifier::rlimit(60)]
    fn parse_object_type(&mut self) -> (r: Result<Definition, Diagnostic>)
        requires
            old(self).wf(),
            old(self).spec_peek().kind != TokenKind::Eof,
        ensures
            final(self).progressed(old(self)),
            final(self).spec_pos() > old(self).spec_pos(),
            r matches Ok(d) ==> d is ObjectType && definition_name_span(d) == old(self).spec_peek().span,
    {
        let start = self.current_span();
        let name = self.parse_definition_name(true);
        self.expect(TokenKind::KwObjectType)?;
        // SYNTAX (required)
        self.expect(TokenKind::KwSyntax)?;
        let syntax = self.parse_syntax_clause()?;
        // UNITS (optional)
        let units = if self.check(TokenKind::KwUnits) {
            self.advance();
            Some(self.parse_quoted_string()?)
        } else {
            None
        };
        // ACCESS / MAX-ACCESS / MIN-ACCESS (required)
        let access = self.parse_access_clause()?;
        // STATUS
        let status = if self.check(TokenKind::KwStatus) {
            Some(self.parse_status_clause()?)
        } else {
            None
        };
        // DESCRIPTION (optional)
        let description = if self.check(TokenKind::KwDescription) {
            self.advance();
            Some(self.parse_quoted_string()?)
        } else {
            None
        };
        // REFERENCE (optional)
        let reference = self.parse_optional_reference()?;
        // INDEX or AUGMENTS (optional)
        let (index, augments) = self.parse_index_or_augments()?;
        // DEFVAL (optional)
        let defval = if self.check(TokenKind::KwDefval) {
            Some(self.parse_defval_clause()?)
        } else {
            None
        };
        // ::= { oid }
        self.expect(TokenKind::ColonColonEqual)?;
        let oid = self.parse_oid_assignment()?;
        let span = cover(start, oid.span);
        Ok(
            Definition::ObjectType(
                Box::new(
                    ObjectTypeDef {
                        name,
                        syntax: Some(syntax),
                        units,
                        access: Some(access),
                        status,
                        description,
                        reference,
                        index,
                        augments,
                        defval,
                        oid,
                        span,
                    },
                ),
            ),
        )
    }

    #[verifier::rlimit(60)]
    fn parse_module_identity(&mut self) -> (r: Result<Definition, Diagnostic>)
        requires
            old(self).wf(),
            old(self).spec_peek().kind != TokenKind::Eof,
        ensures
            final(self).progressed(old(self)),
            final(self).spec_pos() > old(self).spec_pos(),
            r matches Ok(d) ==> d is ModuleIdentity && definition_name_span(d) == old(self).spec_peek().span,
    {
        let start = self.current_span();
        let name = self.parse_definition_name(true);
        self.expect(TokenKind::KwModuleIdentity)?;
        self.expect(TokenKind::KwLastUpdated)?;
        let last_updated = self.parse_quoted_string()?;
        self.expect(TokenKind::KwOrganization)?;
        let organization = self.parse_quoted_string()?;
        self.expect(TokenKind::KwContactInfo)?;
        let contact_info = self.parse_quoted_string()?;
        self.expect(TokenKind::KwDescription)?;
        let description = self.parse_quoted_string()?;
        // REVISION clauses (0+)
        let mut revisions: Vec<RevisionClause> = Vec::new();
        while self.check(TokenKind::KwRevision)
            invariant
                self.progressed(old(self)),
                self.spec_pos() > old(self).spec_pos(),
            decreases self.remaining(),
        {
            let rev_start = self.current_span();
            self.advance();
            let date = self.parse_quoted_string()?;
            self.expect(TokenKind::KwDescription)?;
            let rev_desc = self.parse_quoted_string()?;
            let rev_span = cover(rev_start, rev_desc.span);
            revisions.push(RevisionClause { date, description: rev_desc, span: rev_span });
        }
        self.expect(TokenKind::ColonColonEqual)?;
        let oid = self.parse_oid_assignment()?;
        let span = cover(start, oid.span);
        Ok(
            Definition::ModuleIdentity(
                ModuleIdentityDef {
                    name,
                    last_updated,
                    organization,
                    contact_info,
                    description,
                    revisions,
                    oid,
                    span,
                },
            ),
        )
    }

    #[verifier::rlimit(60)]
    fn parse_object_identity(&mut self) -> (r: Result<Definition, Diagnostic>)
        requires
            old(self).wf(),
            old(self).spec_peek().kind != TokenKind::Eof,
        ensures
            final(self).progressed(old(self)),
            final(self).spec_pos() > old(self).spec_pos(),
            r matches Ok(d) ==> d is ObjectIdentity && definition_name_span(d) == old(self).spec_peek().span,
    {
        let start = self.current_span();
        let name = self.parse_definition_name(true);
        self.expect(TokenKind::KwObjectIdentity)?;
        let status = self.parse_status_clause()?;
        self.expect(TokenKind::KwDescription)?;
        let description = self.parse_quoted_string()?;
        let reference = self.parse_optional_reference()?;
        self.expect(TokenKind::ColonColonEqual)?;
        let oid = self.parse_oid_assignment()?;
        let span = cover(start, oid.span);
        Ok(
            Definition::ObjectIdentity(
                ObjectIdentityDef { name, status, description, reference, oid, span },
            ),
        )
    }

    #[verifier::rlimit(60)]
    fn parse_notification_type(&mut self) -> (r: Result<Definition, Diagnostic>)
        requires
            old(self).wf(),
            old(self).spec_peek().kind != TokenKind::Eof,
        ensures
            final(self).progressed(old(self)),
            final(self).spec_pos() > old(self).spec_pos(),
            r matches Ok(d) ==> d is NotificationType && definition_name_span(d) == old(self).spec_peek().span,
    {
        let start = self.current_span();
        let name = self.parse_definition_name(true);
        self.expect(TokenKind::KwNotificationType)?;
        let objects = if self.check(TokenKind::KwObjects) {
            self.advance();
            self.parse_braced_identifier_list()?
        } else {
            Vec::new()
        };
        let status = self.parse_status_clause()?;
        self.expect(TokenKind::KwDescription)?;
        let description = self.parse_quoted_string()?;
        let reference = self.parse_optional_reference()?;
        self.expect(TokenKind::ColonColonEqual)?;
        let oid = self.parse_oid_assignment()?;
        let span = cover(start, oid.span);
        Ok(
            Definition::NotificationType(
                NotificationTypeDef { name, objects, status, description, reference, oid, span },
            ),
        )
    }

    #[verifier::rlimit(60)]
    fn parse_trap_type(&mut self) -> (r: Result<Definition, Diagnostic>)
        requires
            old(self).wf(),
            old(self).spec_peek().kind != TokenKind::Eof,
        ensures
            final(self).progressed(old(self)),
            final(self).spec_pos() > old(self).spec_pos(),
            r matches Ok(d) ==> d is TrapType && definition_name_span(d) == old(self).spec_peek().span,
    {
        let start = self.current_span();
        let name = self.parse_definition_name(false);
        self.expect(TokenKind::KwTrapType)?;
        self.expect(TokenKind::KwEnterprise)?;
        let enterprise_token = self.expect_identifier()?;
        let enterprise = self.make_ident(enterprise_token);
        let variables = if self.check(TokenKind::KwVariables) {
            self.advance();
            self.parse_braced_identifier_list()?
        } else {
            Vec::new()
        };
        let description = if self.check(TokenKind::KwDescription) {
            self.advance();
            Some(self.parse_quoted_string()?)
        } else {
            None
        };
        let reference = self.parse_optional_reference()?;
        self.expect(TokenKind::ColonColonEqual)?;
        let num_token = self.expect(TokenKind::Number)?;
        let trap_number = self.parse_u32(num_token.span)?;
        let span = cover(start, self.last_span);
        Ok(
            Definition::TrapType(
                TrapTypeDef {
                    name,
                    enterprise,
                    variables,
                    description,
                    reference,
                    trap_number,
                    span,
                },
            ),
        )
    }

    #[verifier::rlimit(60)]
    fn parse_textual_convention(&mut self) -> (r: Result<Definition, Diagnostic>)
        requires
            old(self).wf(),
            old(self).spec_peek().kind != TokenKind::Eof,
        ensures
            final(self).progressed(old(self)),
            final(self).spec_pos() > old(self).spec_pos(),
            r matches Ok(d) ==> d is TextualConvention && definition_name_span(d) == old(self).spec_peek().span,
    {
        let start = self.current_span();
        let name = self.parse_definition_name(false);
        self.expect(TokenKind::KwTextualConvention)?;
        let body = self.parse_textual_convention_body()?;
        let span = cover(start, body.4.span);
        Ok(
            Definition::TextualConvention(
                TextualConventionDef {
                    name,
                    display_hint: body.0,
                    status: body.1,
                    description: body.2,
                    reference: body.3,
                    syntax: body.4,
                    span,
                },
            ),
        )
    }

    #[verifier::rlimit(60)]
    fn parse_textual_convention_with_assignment(&mut self) -> (r: Result<Definition, Diagnostic>)
        requires
            old(self).wf(),
            old(self).spec_peek().kind != TokenKind::Eof,
        ensures
            final(self).progressed(old(self)),
            final(self).spec_pos() > old(self).spec_pos(),
            r matches Ok(d) ==> d is TextualConvention && definition_name_span(d) == old(self).spec_peek().span,
    {
        let start = self.current_span();
        let name = self.parse_definition_name(false);
        self.expect(TokenKind::ColonColonEqual)?;
        self.expect(TokenKind::KwTextualConvention)?;
        let body = self.parse_textual_convention_body()?;
        let span = cover(start, body.4.span);
        Ok(
            Definition::TextualConvention(
                TextualConventionDef {
                    name,
                    display_hint: body.0,
                    status: body.1,
                    description: body.2,
                    reference: body.3,
                    syntax: body.4,
                    span,
                },
            ),
        )
    }

    #[verifier::rlimit(60)]
    fn parse_textual_convention_body(&mut self) -> (r: Result<
        (Option<QuotedString>, StatusClause, QuotedString, Option<QuotedString>, SyntaxClause),
        Diagnostic,
    >)
        requires
            old(self).wf(),
        ensures
            final(self).progressed(old(self)),
            ({
                let ts = old(self).spec_tokens();
                let p = old(self).spec_pos();
                let bytes = old(self).spec_doc_bytes();
                let k = ts[p].kind;
                let q = if k == TokenKind::KwDisplayHint {
                    p + 2
                } else {
                    p
                };
                &&& (k != TokenKind::KwDisplayHint && k != TokenKind::KwStatus) ==> r is Err
                &&& (r matches Ok(b) ==> (b.0 is Some <==> k == TokenKind::KwDisplayHint))
                &&& ((k == TokenKind::KwDisplayHint ==> kind_at(ts, p + 1) == TokenKind::QuotedString)
                    && kind_at(ts, q) == TokenKind::KwStatus && status_of_kind(kind_at(ts, q + 1)) is Some
                    && kind_at(ts, q + 2) == TokenKind::KwDescription && kind_at(ts, q + 3)
                    == TokenKind::QuotedString && kind_at(ts, q + 4) == TokenKind::KwSyntax
                    && plain_type_end(ts, q + 5) is Some) ==> (plain_type_end(ts, q + 5) == Some(
                    final(self).spec_pos(),
                ) && (r matches Ok(b) && Some(b.1.value) == status_of_kind(kind_at(ts, q + 1))
                    && b.2.span == ts[q + 3].span && b.3 is None && plain_type_of(
                    bytes,
                    ts,
                    b.4.syntax,
                    q + 5,
                )))
            }),
    {
        proof {
            reveal(type_read);
        }
        let display_hint = if self.check(TokenKind::KwDisplayHint) {
            self.advance();
            Some(self.parse_quoted_string()?)
        } else {
            None
        };
        let status = self.parse_status_clause()?;
        self.expect(TokenKind::KwDescription)?;
        let description = self.parse_quoted_string()?;
        let reference = self.parse_optional_reference()?;
        self.expect(TokenKind::KwSyntax)?;
        let syntax = self.parse_syntax_clause()?;
        Ok((display_hint, status, description, reference, syntax))
    }

    #[verifier::rlimit(60)]
    fn parse_type_assignment(&mut self) -> (r: Result<Definition, Diagnostic>)
        requires
            old(self).wf(),
            old(self).spec_peek().kind != TokenKind::Eof,
        ensures
            final(self).progressed(old(self)),
            final(self).spec_pos() > old(self).spec_pos(),
            r matches Ok(d) ==> d is TypeAssignment && definition_name_span(d) == old(self).spec_peek().span,
            ({
                let ts = old(self).spec_tokens();
                let p = old(self).spec_pos();
                kind_at(ts, p + 1) == TokenKind::ColonColonEqual ==> match plain_type_end(ts, p + 2) {
                    Some(e) => final(self).spec_pos() == e && (r matches Ok(Definition::TypeAssignment(t))
                        && t.name.span == ts[p].span && plain_type_of(
                        old(self).spec_doc_bytes(),
                        ts,
                        t.syntax,
                        p + 2,
                    )),
                    None => true,
                }
            }),
    {
        proof {
            reveal(type_read);
        }
        let start = self.current_span();
        let name = self.parse_definition_name(false);
        self.expect(TokenKind::ColonColonEqual)?;
        let syntax = self.parse_type_syntax()?;
        let span = cover(start, syntax.span());
        Ok(Definition::TypeAssignment(TypeAssignmentDef { name, syntax, span }))
    }

    #[verifier::rlimit(60)]
    fn parse_value_assignment(&mut self) -> (r: Result<Definition, Diagnostic>)
        requires
            old(self).wf(),
            old(self).spec_peek().kind != TokenKind::Eof,
        ensures
            final(self).progressed(old(self)),
            final(self).spec_pos() > old(self).spec_pos(),
            r matches Ok(d) ==> d is ValueAssignment && definition_name_span(d) == old(self).spec_peek().span,
            ({
                let ts = old(self).spec_tokens();
                let p = old(self).spec_pos();
                let bytes = old(self).spec_doc_bytes();
                let j = plain_oid_end(bytes, ts, p + 5);
                (kind_at(ts, p + 1) == TokenKind::KwObject && kind_at(ts, p + 2) == TokenKind::KwIdentifier
                    && kind_at(ts, p + 3) == TokenKind::ColonColonEqual && kind_at(ts, p + 4)
                    == TokenKind::LBrace && kind_at(ts, j) == TokenKind::RBrace) ==> (final(self).spec_pos()
                    == j + 1 && (r matches Ok(Definition::ValueAssignment(v)) && v.name.span == ts[p].span
                    && v.oid.components@.len() == j - (p + 5) && oid_components_from(
                    bytes,
                    ts,
                    v.oid.components@,
                    0,
                    p + 5,
                )))
            }),
    {
        let start = self.current_span();
        let name = self.parse_definition_name(true);
        self.expect(TokenKind::KwObject)?;
        self.expect(TokenKind::KwIdentifier)?;
        self.expect(TokenKind::ColonColonEqual)?;
        let oid = self.parse_oid_assignment()?;
        let span = cover(start, oid.span);
        Ok(Definition::ValueAssignment(ValueAssignmentDef { name, oid, span }))
    }

    /// Parse an OBJECT-GROUP definition.
    #[verifier::rlimit(60)]
    fn parse_object_group(&mut self) -> (r: Result<Definition, Diagnostic>)
        requires
            old(self).wf(),
            old(self).spec_peek().kind != TokenKind::Eof,
        ensures
            final(self).progressed(old(self)),
            final(self).spec_pos() > old(self).spec_pos(),
            r matches Ok(d) ==> d is ObjectGroup && definition_name_span(d) == old(self).spec_peek().span,
    {
        self.parse_group_def(GroupKind::Object)
    }

    /// Parse a NOTIFICATION-GROUP definition.
    #[verifier::rlimit(60)]
    fn parse_notification_group(&mut self) -> (r: Result<Definition, Diagnostic>)
        requires
            old(self).wf(),
            old(self).spec_peek().kind != TokenKind::Eof,
        ensures
            final(self).progressed(old(self)),
            final(self).spec_pos() > old(self).spec_pos(),
            r matches Ok(d) ==> d is NotificationGroup && definition_name_span(d) == old(self).spec_peek().span,
    {
        self.parse_group_def(GroupKind::Notification)
    }

    /// Parse an OBJECT-GROUP or NOTIFICATION-GROUP definition.
    #[verifier::rlimit(60)]
    fn parse_group_def(&mut self, kind: GroupKind) -> (r: Result<Definition, Diagnostic>)
        requires
            old(self).wf(),
            old(self).spec_peek().kind != TokenKind::Eof,
        ensures
            final(self).progressed(old(self)),
            final(self).spec_pos() > old(self).spec_pos(),
            r matches Ok(d) ==> match kind {
                GroupKind::Object => d is ObjectGroup,
                GroupKind::Notification => d is NotificationGroup,
            },
            r matches Ok(d) ==> definition_name_span(d) == old(self).spec_peek().span,
    {
        let (macro_kw, members_kw) = match kind {
            GroupKind::Object => (TokenKind::KwObjectGroup, TokenKind::KwObjects),
            GroupKind::Notification => (TokenKind::KwNotificationGroup, TokenKind::KwNotifications),
        };
        let start = self.current_span();
        let name = self.parse_definition_name(true);
        self.expect(macro_kw)?;
        self.expect(members_kw)?;
        let members = self.parse_braced_identifier_list()?;
        let status = self.parse_status_clause()?;
        self.expect(TokenKind::KwDescription)?;
        let description = self.parse_quoted_string()?;
        let reference = self.parse_optional_reference()?;
        self.expect(TokenKind::ColonColonEqual)?;
        let oid = self.parse_oid_assignment()?;
        let span = cover(start, oid.span);
        match kind {
            GroupKind::Object => Ok(
                Definition::ObjectGroup(
                    ObjectGroupDef {
                        name,
                        objects: members,
                        status,
                        description,
                        reference,
                        oid,
                        span,
                    },
                ),
            ),
            GroupKind::Notification => Ok(
                Definition::NotificationGroup(
                    NotificationGroupDef {
                        name,
                        notifications: members,
                        status,
                        description,
                        reference,
                        oid,
                        span,
                    },
                ),
            ),
        }
    }

    #[verifier::rlimit(60)]
    fn parse_module_compliance(&mut self) -> (r: Result<Definition, Diagnostic>)
        requires
            old(self).wf(),
            old(self).spec_peek().kind != TokenKind::Eof,
        ensures
            final(self).progressed(old(self)),
            final(self).spec_pos() > old(self).spec_pos(),
            r matches Ok(d) ==> d is ModuleCompliance && definition_name_span(d) == old(self).spec_peek().span,
    {
        let start = self.current_span();
        let name = self.parse_definition_name(true);
        self.expect(TokenKind::KwModuleCompliance)?;
        let status = self.parse_status_clause()?;
        self.expect(TokenKind::KwDescription)?;
        let description = self.parse_quoted_string()?;
        let reference = self.parse_optional_reference()?;
        let mut modules: Vec<ComplianceModule> = Vec::new();
        while self.check(TokenKind::KwModule)
            invariant
                self.progressed(old(self)),
                self.spec_pos() > old(self).spec_pos(),
            decreases self.remaining(),
        {
            modules.push(self.parse_compliance_module()?);
        }
        self.expect(TokenKind::ColonColonEqual)?;
        let oid = self.parse_oid_assignment()?;
        let span = cover(start, oid.span);
        Ok(
            Definition::ModuleCompliance(
                ModuleComplianceDef { name, status, description, reference, modules, oid, span },
            ),
        )
    }

    /// Parse `MODULE [name] [oid] [MANDATORY-GROUPS { ... }]` and the GROUP
    /// and OBJECT clauses after it.
    #[verifier::rlimit(80)]
    fn parse_compliance_module(&mut self) -> (r: Result<ComplianceModule, Diagnostic>)
        requires
            old(self).wf(),
        ensures
            final(self).progressed(old(self)),
            r is Ok ==> final(self).spec_pos() > old(self).spec_pos(),
            ({
                let ts = old(self).spec_tokens();
                let p = old(self).spec_pos();
                let bytes = old(self).spec_doc_bytes();
                let named = kind_at(ts, p + 1) == TokenKind::UppercaseIdent;
                let l = name_list(ts, module_clause_rest(ts, p) + 2);
                &&& ts[p].kind != TokenKind::KwModule ==> r is Err
                &&& (r matches Ok(m) ==> (m.module_name is Some <==> named))
                &&& (r matches Ok(m) ==> (m.module_name matches Some(n) ==> ident_of(bytes, ts, n, p + 1)))
                &&& bare_compliance_module(ts, p) ==> (final(self).spec_pos() == module_clause_rest(ts, p)
                    && (r matches Ok(m) && m.module_oid is None && m.mandatory_groups@.len() == 0
                    && m.compliances@.len() == 0))
                &&& grouped_compliance_module(ts, p) ==> (final(self).spec_pos() == l.1 + 1 && (
                r matches Ok(m) && m.module_oid is None && idents_at(bytes, ts, m.mandatory_groups@, l.0)
                    && m.compliances@.len() == 0))
            }),
    {
        let ghost ts = self.tokens@;
        let ghost p = self.spec_pos();
        let start = self.current_span();
        self.expect(TokenKind::KwModule)?;
        let module_name = if self.check(TokenKind::UppercaseIdent) {
            let token = self.advance();
            proof {
                self.lemma_word_text(p + 1);
            }
            Some(self.make_ident(token))
        } else {
            None
        };
        let module_oid = if self.check(TokenKind::LBrace) {
            Some(self.parse_oid_assignment()?)
        } else {
            None
        };
        let mandatory_groups = if self.check(TokenKind::KwMandatoryGroups) {
            self.advance();
            self.parse_braced_identifier_list()?
        } else {
            Vec::new()
        };
        let mut compliances: Vec<Compliance> = Vec::new();
        let ghost entry = self.spec_pos();
        let ghost quiet = bare_compliance_module(ts, p) || grouped_compliance_module(ts, p);
        proof {
            if bare_compliance_module(ts, p) {
                assert(entry == module_clause_rest(ts, p));
            }
            if grouped_compliance_module(ts, p) {
                assert(entry == name_list(ts, module_clause_rest(ts, p) + 2).1 + 1);
            }
        }
        while self.check(TokenKind::KwGroup) || self.check(TokenKind::KwObject)
            invariant
                self.progressed(old(self)),
                self.spec_pos() > old(self).spec_pos(),
                ts == old(self).tokens@,
                p == old(self).spec_pos(),
                quiet == (bare_compliance_module(ts, p) || grouped_compliance_module(ts, p)),
                quiet ==> (self.spec_pos() == entry && compliances@.len() == 0 && kind_at(ts, entry)
                    != TokenKind::KwGroup && kind_at(ts, entry) != TokenKind::KwObject),
            decreases self.remaining(),
        {
            if self.check(TokenKind::KwGroup) {
                compliances.push(Compliance::Group(self.parse_compliance_group()?));
            } else {
                compliances.push(Compliance::Object(Box::new(self.parse_compliance_object()?)));
            }
        }
        let span = cover(start, self.last_span);
        Ok(ComplianceModule { module_name, module_oid, mandatory_groups, compliances, span })
    }

    /// Parse `GROUP name DESCRIPTION "text"`.
    fn parse_compliance_group(&mut self) -> (r: Result<ComplianceGroup, Diagnostic>)
        requires
            old(self).wf(),
        ensures
            final(self).progressed(old(self)),
            r is Ok ==> final(self).spec_pos() > old(self).spec_pos(),
            ({
                let ts = old(self).spec_tokens();
                let p = old(self).spec_pos();
                &&& (r is Ok <==> (ts[p].kind == TokenKind::KwGroup && name_kind(kind_at(ts, p + 1))
                    && kind_at(ts, p + 2) == TokenKind::KwDescription && kind_at(ts, p + 3)
                    == TokenKind::QuotedString))
                &&& (r matches Ok(g) ==> ident_of(old(self).spec_doc_bytes(), ts, g.group, p + 1)
                    && g.description.span == ts[p + 3].span && g.span == SourceRange::spec_cover(
                    ts[p].span,
                    ts[p + 3].span,
                ) && final(self).spec_pos() == p + 4)
            }),
    {
        let start = self.current_span();
        self.expect(TokenKind::KwGroup)?;
        let group = self.parse_identifier_as_ident()?;
        self.expect(TokenKind::KwDescription)?;
        let description = self.parse_quoted_string()?;
        let span = cover(start, description.span);
        Ok(ComplianceGroup { group, description, span })
    }

    /// Parse `OBJECT name [SYNTAX type] [WRITE-SYNTAX type] [MIN-ACCESS value]
    /// DESCRIPTION "text"`.
    #[verifier::rlimit(60)]
    fn parse_compliance_object(&mut self) -> (r: Result<ComplianceObject, Diagnostic>)
        requires
            old(self).wf(),
        ensures
            final(self).progressed(old(self)),
            r is Ok ==> final(self).spec_pos() > old(self).spec_pos(),
            ({
                let ts = old(self).spec_tokens();
                let p = old(self).spec_pos();
                let bytes = old(self).spec_doc_bytes();
                let head = ts[p].kind == TokenKind::KwObject && name_kind(kind_at(ts, p + 1));
                &&& !head ==> r is Err
                &&& (r matches Ok(o) ==> ident_of(bytes, ts, o.object, p + 1))
                &&& (head && kind_at(ts, p + 2) == TokenKind::KwDescription && kind_at(ts, p + 3)
                    == TokenKind::QuotedString) ==> (final(self).spec_pos() == p + 4 && (r matches Ok(o)
                    && o.syntax is None && o.write_syntax is None && o.min_access is None
                    && o.description.span == ts[p + 3].span))
                &&& (head && kind_at(ts, p + 2) == TokenKind::KwMinAccess && access_of_kind(
                    kind_at(ts, p + 3),
                ) is Some && kind_at(ts, p + 4) == TokenKind::KwDescription && kind_at(ts, p + 5)
                    == TokenKind::QuotedString) ==> (final(self).spec_pos() == p + 6 && (r matches Ok(o)
                    && o.syntax is None && o.write_syntax is None && (o.min_access matches Some(a)
                    && Some(a.value) == access_of_kind(kind_at(ts, p + 3))) && o.description.span
                    == ts[p + 5].span))
                &&& (head && kind_at(ts, p + 2) == TokenKind::KwSyntax) ==> match plain_type_end(
                    ts,
                    p + 3,
                ) {
                    Some(e) => (kind_at(ts, e) == TokenKind::KwDescription && kind_at(ts, e + 1)
                        == TokenKind::QuotedString) ==> (final(self).spec_pos() == e + 2 && (
                    r matches Ok(o) && o.write_syntax is None && o.min_access is None && (
                    o.syntax matches Some(s) && plain_type_of(bytes, ts, s.syntax, p + 3)))),
                    None => true,
                }
            }),
    {
        let start = self.current_span();
        self.expect(TokenKind::KwObject)?;
        let object = self.parse_identifier_as_ident()?;
        let (syntax, write_syntax) = self.parse_optional_syntax_clauses()?;
        let min_access = if self.check(TokenKind::KwMinAccess) {
            Some(self.parse_access_clause()?)
        } else {
            None
        };
        self.expect(TokenKind::KwDescription)?;
        let description = self.parse_quoted_string()?;
        let span = cover(start, description.span);
        Ok(ComplianceObject { object, syntax, write_syntax, min_access, description, span })
    }

    fn parse_optional_syntax_clauses(&mut self) -> (r: Result<
        (Option<SyntaxClause>, Option<SyntaxClause>),
        Diagnostic,
    >)
        requires
            old(self).wf(),
        ensures
            final(self).progressed(old(self)),
            ({
                let ts = old(self).spec_tokens();
                let p = old(self).spec_pos();
                let bytes = old(self).spec_doc_bytes();
                let k = ts[p].kind;
                &&& (k != TokenKind::KwSyntax && k != TokenKind::KwWriteSyntax) ==> (*final(self)
                    == *old(self) && r == Ok::<
                    (Option<SyntaxClause>, Option<SyntaxClause>),
                    Diagnostic,
                >((None, None)))
                &&& (r matches Ok(c) ==> (c.0 is Some <==> k == TokenKind::KwSyntax))
                &&& k == TokenKind::KwSyntax ==> match plain_type_end(ts, p + 1) {
                    Some(e) => kind_at(ts, e) != TokenKind::KwWriteSyntax ==> (final(self).spec_pos()
                        == e && (r matches Ok(c) && c.1 is None && (c.0 matches Some(s)
                        && plain_type_of(bytes, ts, s.syntax, p + 1)))),
                    None => true,
                }
                &&& k == TokenKind::KwWriteSyntax ==> match plain_type_end(ts, p + 1) {
                    Some(e) => final(self).spec_pos() == e && (r matches Ok(c) && c.0 is None && (
                    c.1 matches Some(w) && plain_type_of(bytes, ts, w.syntax, p + 1))),
                    None => true,
                }
            }),
    {
        proof {
            reveal(type_read);
        }
        let syntax = if self.check(TokenKind::KwSyntax) {
            self.advance();
            Some(self.parse_syntax_clause()?)
        } else {
            None
        };
        let write_syntax = if self.check(TokenKind::KwWriteSyntax) {
            self.advance();
            Some(self.parse_syntax_clause()?)
        } else {
            None
        };
        Ok((syntax, write_syntax))
    }

    #[verifier::rlimit(60)]
    fn parse_agent_capabilities(&mut self) -> (r: Result<Definition, Diagnostic>)
        requires
            old(self).wf(),
            old(self).spec_peek().kind != TokenKind::Eof,
        ensures
            final(self).progressed(old(self)),
            final(self).spec_pos() > old(self).spec_pos(),
            r matches Ok(d) ==> d is AgentCapabilities && definition_name_span(d) == old(self).spec_peek().span,
    {
        let start = self.current_span();
        let name = self.parse_definition_name(true);
        self.expect(TokenKind::KwAgentCapabilities)?;
        self.expect(TokenKind::KwProductRelease)?;
        let product_release = self.parse_quoted_string()?;
        let status = self.parse_status_clause()?;
        self.expect(TokenKind::KwDescription)?;
        let description = self.parse_quoted_string()?;
        let reference = self.parse_optional_reference()?;
        let mut supports: Vec<SupportsModule> = Vec::new();
        while self.check(TokenKind::KwSupports)
            invariant
                self.progressed(old(self)),
                self.spec_pos() > old(self).spec_pos(),
            decreases self.remaining(),
        {
            supports.push(self.parse_supports_module()?);
        }
        self.expect(TokenKind::ColonColonEqual)?;
        let oid = self.parse_oid_assignment()?;
        let span = cover(start, oid.span);
        Ok(
            Definition::AgentCapabilities(
                AgentCapabilitiesDef {
                    name,
                    product_release,
                    status,
                    description,
                    reference,
                    supports,
                    oid,
                    span,
                },
            ),
        )
    }

    /// Parse `SUPPORTS module [oid] INCLUDES { ... }` and its VARIATION
    /// clauses.
    fn parse_supports_module(&mut self) -> (r: Result<SupportsModule, Diagnostic>)
        requires
            old(self).wf(),
        ensures
            final(self).progressed(old(self)),
            r is Ok ==> final(self).spec_pos() > old(self).spec_pos(),
            ({
                let ts = old(self).spec_tokens();
                let p = old(self).spec_pos();
                let bytes = old(self).spec_doc_bytes();
                let l = name_list(ts, p + 4);
                &&& (ts[p].kind != TokenKind::KwSupports || !name_kind(kind_at(ts, p + 1))) ==> r is Err
                &&& (r matches Ok(s) ==> ident_of(bytes, ts, s.module_name, p + 1))
                &&& plain_supports(ts, p) ==> (final(self).spec_pos() == l.1 + 1 && (r matches Ok(s)
                    && s.module_oid is None && idents_at(bytes, ts, s.includes@, l.0)
                    && s.variations@.len() == 0))
            }),
    {
        let ghost ts = self.tokens@;
        let ghost p = self.spec_pos();
        let start = self.current_span();
        self.expect(TokenKind::KwSupports)?;
        let module_name = self.parse_identifier_as_ident()?;
        let module_oid = if self.check(TokenKind::LBrace) {
            Some(self.parse_oid_assignment()?)
        } else {
            None
        };
        self.expect(TokenKind::KwIncludes)?;
        let includes = self.parse_braced_identifier_list()?;
        let mut variations: Vec<Variation> = Vec::new();
        let ghost entry = self.spec_pos();
        let ghost quiet = plain_supports(ts, p);
        proof {
            if quiet {
                assert(entry == name_list(ts, p + 4).1 + 1);
            }
        }
        while self.check(TokenKind::KwVariation)
            invariant
                self.progressed(old(self)),
                self.spec_pos() > old(self).spec_pos(),
                ts == old(self).tokens@,
                p == old(self).spec_pos(),
                quiet == plain_supports(ts, p),
                quiet ==> (self.spec_pos() == entry && variations@.len() == 0 && kind_at(ts, entry)
                    != TokenKind::KwVariation),
            decreases self.remaining(),
        {
            variations.push(self.parse_variation_clause()?);
        }
        let span = cover(start, self.last_span);
        Ok(SupportsModule { module_name, module_oid, includes, variations, span })
    }

    /// Parse `VARIATION name [SYNTAX type] [WRITE-SYNTAX type] [ACCESS value]
    /// [CREATION-REQUIRES { ... }] [DEFVAL { ... }] DESCRIPTION "text"`.
    #[verifier::rlimit(80)]
    fn parse_variation_clause(&mut self) -> (r: Result<Variation, Diagnostic>)
        requires
            old(self).wf(),
        ensures
            final(self).progressed(old(self)),
            r is Ok ==> final(self).spec_pos() > old(self).spec_pos(),
            ({
                let ts = old(self).spec_tokens();
                let p = old(self).spec_pos();
                let bytes = old(self).spec_doc_bytes();
                let head = ts[p].kind == TokenKind::KwVariation && name_kind(kind_at(ts, p + 1));
                &&& !head ==> r is Err
                &&& (r matches Ok(v) ==> ident_of(bytes, ts, v.name, p + 1))
                &&& (head && kind_at(ts, p + 2) == TokenKind::KwDescription && kind_at(ts, p + 3)
                    == TokenKind::QuotedString) ==> (final(self).spec_pos() == p + 4 && (r matches Ok(v)
                    && v.syntax is None && v.write_syntax is None && v.access is None
                    && v.creation_requires@.len() == 0 && v.defval is None && v.description.span
                    == ts[p + 3].span))
                &&& (head && kind_at(ts, p + 2) == TokenKind::KwAccess && access_of_kind(
                    kind_at(ts, p + 3),
                ) is Some && kind_at(ts, p + 4) == TokenKind::KwDescription && kind_at(ts, p + 5)
                    == TokenKind::QuotedString) ==> (final(self).spec_pos() == p + 6 && (r matches Ok(v)
                    && v.syntax is None && v.write_syntax is None && (v.access matches Some(a)
                    && Some(a.value) == access_of_kind(kind_at(ts, p + 3)))
                    && v.creation_requires@.len() == 0 && v.defval is None && v.description.span
                    == ts[p + 5].span))
            }),
    {
        let start = self.current_span();
        self.expect(TokenKind::KwVariation)?;
        let name = self.parse_identifier_as_ident()?;
        let (syntax, write_syntax) = self.parse_optional_syntax_clauses()?;
        let access = if self.check(TokenKind::KwAccess) {
            Some(self.parse_access_clause()?)
        } else {
            None
        };
        let creation_requires = if self.check(TokenKind::KwCreationRequires) {
            self.advance();
            self.parse_braced_identifier_list()?
        } else {
            Vec::new()
        };
        let defval = if self.check(TokenKind::KwDefval) {
            Some(self.parse_defval_clause()?)
        } else {
            None
        };
        self.expect(TokenKind::KwDescription)?;
        let description = self.parse_quoted_string()?;
        let span = cover(start, description.span);
        Ok(
            Variation {
                name,
                syntax,
                write_syntax,
                access,
                creation_requires,
                defval,
                description,
                span,
            },
        )
    }

    /// Parse `NAME MACRO [END]`; the lexer has already consumed the body up
    /// to its standalone END.
    #[verifier::rlimit(60)]
    fn parse_macro_definition(&mut self) -> (r: Result<Definition, Diagnostic>)
        requires
            old(self).wf(),
            old(self).spec_peek().kind != TokenKind::Eof,
        ensures
            final(self).progressed(old(self)),
            final(self).spec_pos() > old(self).spec_pos(),
            r matches Ok(d) ==> d is MacroDefinition && definition_name_span(d) == old(self).spec_peek().span,
    {
        let start = self.current_span();
        let name_token = self.advance();
        let name = self.make_ident(name_token);
        self.expect(TokenKind::KwMacro)?;
        if self.check(TokenKind::KwEnd) {
            self.advance();
        }
        let span = cover(start, self.last_span);
        Ok(Definition::MacroDefinition(MacroDefinitionDef { name, span }))
    }

    // ---- Clause parsers ----

    /// Parse `MAX-ACCESS | ACCESS | MIN-ACCESS value`.
    fn parse_access_clause(&mut self) -> (r: Result<AccessClause, Diagnostic>)
        requires
            old(self).wf(),
        ensures
            final(self).progressed(old(self)),
            r is Ok <==> (access_keyword_of_kind(old(self).spec_peek().kind) is Some
                && access_of_kind(old(self).spec_peek_nth(1).kind) is Some),
            r matches Ok(c) ==> Some(c.keyword) == access_keyword_of_kind(old(self).spec_peek().kind)
                && Some(c.value) == access_of_kind(old(self).spec_peek_nth(1).kind)
                && final(self).spec_pos() == old(self).spec_pos() + 2,
    {
        let start = self.current_span();
        let keyword = if self.check(TokenKind::KwMaxAccess) {
            self.advance();
            AccessKeyword::MaxAccess
        } else if self.check(TokenKind::KwAccess) {
            self.advance();
            AccessKeyword::Access
        } else if self.check(TokenKind::KwMinAccess) {
            self.advance();
            AccessKeyword::MinAccess
        } else {
            return Err(
                self.make_error(String::from_str("expected MAX-ACCESS, MIN-ACCESS, or ACCESS")),
            );
        };
        let value = match self.peek().kind {
            TokenKind::KwReadOnly => Access::ReadOnly,
            TokenKind::KwReadWrite => Access::ReadWrite,
            TokenKind::KwReadCreate => Access::ReadCreate,
            TokenKind::KwNotAccessible => Access::NotAccessible,
            TokenKind::KwAccessibleForNotify => Access::AccessibleForNotify,
            TokenKind::KwWriteOnly => Access::WriteOnly,
            TokenKind::KwNotImplemented => Access::NotImplemented,
            _ => return Err(self.make_error(String::from_str("expected access value"))),
        };
        self.advance();
        let span = cover(start, self.last_span);
        Ok(AccessClause { keyword, value, span })
    }

    /// Parse `STATUS value`.
    fn parse_status_clause(&mut self) -> (r: Result<StatusClause, Diagnostic>)
        requires
            old(self).wf(),
        ensures
            final(self).progressed(old(self)),
            r is Ok <==> (old(self).spec_peek().kind == TokenKind::KwStatus && status_of_kind(
                old(self).spec_peek_nth(1).kind,
            ) is Some),
            r matches Ok(c) ==> Some(c.value) == status_of_kind(old(self).spec_peek_nth(1).kind)
                && final(self).spec_pos() == old(self).spec_pos() + 2,
    {
        let start = self.current_span();
        self.expect(TokenKind::KwStatus)?;
        let value = match self.peek().kind {
            TokenKind::KwCurrent => Status::Current,
            TokenKind::KwDeprecated => Status::Deprecated,
            TokenKind::KwObsolete => Status::Obsolete,
            TokenKind::KwMandatory => Status::Mandatory,
            TokenKind::KwOptional => Status::Optional,
            _ => return Err(self.make_error(String::from_str("expected status value"))),
        };
        self.advance();
        let span = cover(start, self.last_span);
        Ok(StatusClause { value, span })
    }

    #[verifier::rlimit(60)]
    fn parse_index_or_augments(&mut self) -> (r: Result<
        (Option<IndexClause>, Option<AugmentsClause>),
        Diagnostic,
    >)
        requires
            old(self).wf(),
        ensures
            final(self).progressed(old(self)),
            old(self).spec_peek().kind != TokenKind::KwIndex && old(self).spec_peek().kind
                != TokenKind::KwAugments ==> *final(self) == *old(self) && r matches Ok((None, None)),
            ({
                let ts = old(self).spec_tokens();
                let p = old(self).spec_pos();
                let bytes = old(self).spec_doc_bytes();
                let k = ts[p].kind;
                let l = index_items(ts, p + 2);
                &&& k == TokenKind::KwIndex ==> (r is Ok <==> (kind_at(ts, p + 1) == TokenKind::LBrace
                    && l.2 && kind_at(ts, l.1) == TokenKind::RBrace))
                &&& k == TokenKind::KwIndex ==> (r is Ok ==> final(self).spec_pos() == l.1 + 1 && (
                r matches Ok((Some(ic), None)) && index_items_at(ts, ic.items@, l.0)))
                &&& k == TokenKind::KwAugments ==> (r is Ok <==> (kind_at(ts, p + 1) == TokenKind::LBrace
                    && name_kind(kind_at(ts, p + 2)) && kind_at(ts, p + 3) == TokenKind::RBrace))
                &&& k == TokenKind::KwAugments ==> (r is Ok ==> final(self).spec_pos() == p + 4 && (
                r matches Ok((None, Some(a))) && ident_of(bytes, ts, a.target, p + 2)))
            }),
    {
        let ghost ts = self.tokens@;
        let ghost p = self.spec_pos();
        if self.check(TokenKind::KwIndex) {
            let start = self.current_span();
            self.advance();
            self.expect(TokenKind::LBrace)?;
            let ghost first = self.spec_pos();
            let ghost mut at: Seq<(bool, int)> = Seq::empty();
            let mut items: Vec<IndexItem> = Vec::new();
            proof {
                assert(at + index_items(ts, first).0 =~= index_items(ts, first).0);
            }
            loop
                invariant_except_break
                    index_items(ts, first).0 == at + index_items(ts, self.spec_pos()).0,
                    index_items(ts, first).1 == index_items(ts, self.spec_pos()).1,
                    index_items(ts, first).2 == index_items(ts, self.spec_pos()).2,
                invariant
                    self.progressed(old(self)),
                    old(self).spec_peek().kind == TokenKind::KwIndex,
                    ts == old(self).tokens@,
                    p == old(self).spec_pos(),
                    first == p + 2,
                    index_items_at(ts, items@, at),
                ensures
                    self.progressed(old(self)),
                    index_items_at(ts, items@, at),
                    at == index_items(ts, first).0,
                    self.spec_pos() == index_items(ts, first).1,
                    index_items(ts, first).2,
                decreases self.remaining(),
            {
                let ghost q = self.spec_pos();
                if self.check(TokenKind::RBrace) || self.is_eof() {
                    proof {
                        assert(at + Seq::<(bool, int)>::empty() =~= at);
                    }
                    break;
                }
                let item_start = self.current_span();
                let implied = if self.check(TokenKind::KwImplied) {
                    self.advance();
                    true
                } else {
                    false
                };
                let ghost o = self.spec_pos();
                let obj_token = match self.expect_index_object() {
                    Ok(t) => t,
                    Err(e) => {
                        proof {
                            assert(kind_at(ts, o) == ts[o].kind);
                            assert(!index_items(ts, q).2);
                        }
                        return Err(e);
                    },
                };
                // Special case: merge OCTET STRING into a single identifier
                let object = if obj_token.kind == TokenKind::KwOctet && self.check(
                    TokenKind::KwString,
                ) {
                    let string_token = self.advance();
                    proof {
                        assert(ts[o].span.start <= ts[o + 1].span.start);
                    }
                    Ident {
                        name: String::from_str("OCTET STRING"),
                        span: cover(obj_token.span, string_token.span),
                    }
                } else {
                    self.make_ident(obj_token)
                };
                let item_span = cover(item_start, self.last_span);
                let ghost before = items@;
                items.push(IndexItem { implied, object, span: item_span });
                proof {
                    at = at.push((implied, o));
                    assert forall|k: int| 0 <= k < at.len() implies (#[trigger] items@[k]).implied
                        == at[k].0 && items@[k].object.span.start == ts[at[k].1].span.start by {
                        if k < before.len() {
                            assert(items@[k] == before[k]);
                        }
                    }
                }
                if self.check(TokenKind::Comma) {
                    self.advance();
                } else {
                    proof {
                        assert(at.drop_last() + seq![(implied, o)] =~= at);
                    }
                    break;
                }
                proof {
                    assert(at.drop_last() + (seq![(implied, o)] + index_items(ts, self.spec_pos()).0) =~= at
                        + index_items(ts, self.spec_pos()).0);
                }
            }
            self.expect(TokenKind::RBrace)?;
            let span = cover(start, self.last_span);
            return Ok((Some(IndexClause { items, span }), None));
        }
        if self.check(TokenKind::KwAugments) {
            let start = self.current_span();
            self.advance();
            self.expect(TokenKind::LBrace)?;
            let target_token = self.expect_identifier()?;
            proof {
                self.lemma_word_text(p + 2);
            }
            let target = self.make_ident(target_token);
            self.expect(TokenKind::RBrace)?;
            let span = cover(start, self.last_span);
            return Ok((None, Some(AugmentsClause { target, span })));
        }
        Ok((None, None))
    }

    /// Parse `DEFVAL { value }`.
    fn parse_defval_clause(&mut self) -> (r: Result<DefValClause, Diagnostic>)
        requires
            old(self).wf(),
        ensures
            final(self).progressed(old(self)),
            r is Ok ==> final(self).spec_pos() > old(self).spec_pos(),
            ({
                let ts = old(self).spec_tokens();
                let p = old(self).spec_pos();
                let v = kind_at(ts, p + 2);
                &&& (ts[p].kind != TokenKind::KwDefval || kind_at(ts, p + 1) != TokenKind::LBrace)
                    ==> r is Err
                &&& (ts[p].kind == TokenKind::KwDefval && kind_at(ts, p + 1) == TokenKind::LBrace
                    && simple_defval_kind(v) && kind_at(ts, p + 3) == TokenKind::RBrace) ==> (r is Ok
                    && final(self).spec_pos() == p + 4)
                &&& (r matches Ok(c) ==> (v == TokenKind::QuotedString ==> c.value matches DefVal::String(_)))
                &&& (r matches Ok(c) ==> (v == TokenKind::HexString ==> c.value matches DefVal::HexString { .. }))
                &&& (r matches Ok(c) ==> (v == TokenKind::BinString ==> c.value matches DefVal::BinaryString { .. }))
                &&& (r matches Ok(c) ==> (v.spec_is_identifier() ==> c.value matches DefVal::Identifier(_)))
            }),
    {
        let start = self.current_span();
        self.expect(TokenKind::KwDefval)?;
        self.expect(TokenKind::LBrace)?;
        let value = self.parse_defval()?;
        self.expect(TokenKind::RBrace)?;
        let span = cover(start, self.last_span);
        Ok(DefValClause { value, span })
    }

    /// Parse the value inside `DEFVAL { ... }`.
    fn parse_defval(&mut self) -> (r: Result<DefVal, Diagnostic>)
        requires
            old(self).wf(),
        ensures
            final(self).progressed(old(self)),
            old(self).spec_peek().kind == TokenKind::Number ==> r is Ok,
            old(self).spec_peek().kind == TokenKind::QuotedString ==> r matches Ok(DefVal::String(_)),
            old(self).spec_peek().kind == TokenKind::HexString ==> r matches Ok(DefVal::HexString { .. }),
            old(self).spec_peek().kind == TokenKind::BinString ==> r matches Ok(DefVal::BinaryString { .. }),
            old(self).spec_peek().kind.spec_is_identifier() ==> r matches Ok(DefVal::Identifier(_)),
            simple_defval_kind(old(self).spec_peek().kind) ==> final(self).spec_pos() == old(self).spec_pos() + 1,
    {
        match self.peek().kind {
            TokenKind::Number => {
                let token = self.advance();
                let text = self.text_bytes(token.span);
                // Try i64 first, then u64
                match parse_dec_i64(text) {
                    Some(v) => Ok(DefVal::Integer(v)),
                    None => match parse_dec_u64(text) {
                        Some(v) => Ok(DefVal::Unsigned(v)),
                        None => {
                            self.emit_diagnostic(
                                DiagCode::InvalidI64,
                                token.span,
                                String::from_str("invalid DEFVAL number"),
                            );
                            Ok(DefVal::Integer(0))
                        },
                    },
                }
            },
            TokenKind::NegativeNumber => {
                let token = self.advance();
                let v = self.parse_i64(token.span)?;
                Ok(DefVal::Integer(v))
            },
            TokenKind::QuotedString => {
                let qs = self.parse_quoted_string()?;
                Ok(DefVal::String(qs))
            },
            TokenKind::HexString => {
                let token = self.advance();
                let full = self.text_bytes(token.span);
                let content = string_from_bytes_lossy(strip_literal_bytes(full));
                Ok(DefVal::HexString { content, span: token.span })
            },
            TokenKind::BinString => {
                let token = self.advance();
                let full = self.text_bytes(token.span);
                let content = string_from_bytes_lossy(strip_literal_bytes(full));
                Ok(DefVal::BinaryString { content, span: token.span })
            },
            TokenKind::LowercaseIdent | TokenKind::UppercaseIdent => {
                let token = self.advance();
                Ok(DefVal::Identifier(self.make_ident(token)))
            },
            TokenKind::LBrace => {
                self.advance();
                self.parse_defval_braced_content()
            },
            kind => {
                if kind.is_keyword() {
                    // Enum labels can be keywords
                    let token = self.advance();
                    Ok(DefVal::Identifier(self.make_ident(token)))
                } else {
                    let start = self.current_span();
                    Ok(DefVal::Unparsed { span: cover(start, self.current_span()) })
                }
            },
        }
    }

    /// Parse the content of a braced DEFVAL value after its `{`: BITS labels,
    /// or an OID value.
    fn parse_defval_braced_content(&mut self) -> (r: Result<DefVal, Diagnostic>)
        requires
            old(self).wf(),
        ensures
            final(self).progressed(old(self)),
            ({
                let ts = old(self).spec_tokens();
                let p = old(self).spec_pos();
                let bytes = old(self).spec_doc_bytes();
                let k = ts[p].kind;
                let j = plain_oid_end(bytes, ts, p);
                &&& k == TokenKind::RBrace ==> (final(self).spec_pos() == p + 1
                    && (r matches Ok(DefVal::Bits { labels, .. }) && labels@.len() == 0))
                &&& k == TokenKind::Number ==> (r matches Ok(d) ==> d is ObjectIdentifier)
                &&& (k == TokenKind::Number && kind_at(ts, j) == TokenKind::RBrace) ==> (
                final(self).spec_pos() == j + 1 && (r matches Ok(DefVal::ObjectIdentifier { components, .. })
                    && components@.len() == j - p && oid_components_from(bytes, ts, components@, 0, p)))
                &&& (label_kind(k) && (kind_at(ts, p + 1) == TokenKind::Comma || kind_at(ts, p + 1)
                    == TokenKind::RBrace)) ==> (r matches Ok(d) ==> d matches DefVal::Bits { labels, .. }
                    && labels@.len() >= 1 && ident_of(bytes, ts, labels@[0], p))
                &&& (label_kind(k) && kind_at(ts, p + 1) == TokenKind::RBrace) ==> (final(self).spec_pos()
                    == p + 2 && (r matches Ok(DefVal::Bits { labels, .. }) && labels@.len() == 1
                    && ident_of(bytes, ts, labels@[0], p)))
                &&& (label_kind(k) && kind_at(ts, p + 1) != TokenKind::Comma && kind_at(ts, p + 1)
                    != TokenKind::RBrace) ==> (r matches Ok(d) ==> d is ObjectIdentifier)
                &&& !(k == TokenKind::RBrace || k == TokenKind::Number || label_kind(k)) ==> (
                r matches Ok(DefVal::Unparsed { .. }) && final(self).spec_pos() == skip_braces_from(
                    ts,
                    p,
                    1,
                    true,
                ))
            }),
    {
        let ghost p = self.spec_pos();
        let start_pos = self.pos;
        let start = self.current_span();
        // Empty braces: BITS {}
        if self.check(TokenKind::RBrace) {
            let span = cover(start, self.current_span());
            self.advance();
            return Ok(DefVal::Bits { labels: Vec::new(), span });
        }
        let kind = self.peek().kind;
        if kind == TokenKind::Number {
            // OID numeric: { 1 3 6 1 }
            let result = self.parse_defval_oid_components(start_pos)?;
            self.expect(TokenKind::RBrace)?;
            return Ok(result);
        }
        if kind.is_identifier() || kind.is_keyword() {
            let first_token = self.advance();
            proof {
                self.lemma_word_text(p);
            }
            let first_ident = self.make_ident(first_token);
            // If next is comma or RBrace, this is BITS labels
            if self.check(TokenKind::Comma) || self.check(TokenKind::RBrace) {
                let result = self.parse_defval_bits_labels(start_pos, first_ident)?;
                self.expect(TokenKind::RBrace)?;
                return Ok(result);
            }
            // Otherwise this is an OID starting with a name
            let result = self.parse_defval_oid_with_first_ident(start_pos, first_ident)?;
            self.expect(TokenKind::RBrace)?;
            return Ok(result);
        }
        // Unknown content - skip
        self.skip_braced_content(true);
        Ok(DefVal::Unparsed { span: cover(start, self.current_span()) })
    }

    fn parse_defval_bits_labels(&mut self, start_pos: usize, first: Ident) -> (r: Result<
        DefVal,
        Diagnostic,
    >)
        requires
            old(self).wf(),
            start_pos <= old(self).spec_pos(),
        ensures
            final(self).progressed(old(self)),
            r matches Ok(DefVal::Bits { labels, .. }) ==> labels@.len() >= 1 && labels@[0] == first,
            ({
                let ts = old(self).spec_tokens();
                let l = bits_labels(ts, old(self).spec_pos());
                &&& (r is Ok <==> l.2)
                &&& (r is Ok ==> final(self).spec_pos() == l.1)
                &&& (r matches Ok(d) ==> d matches DefVal::Bits { labels, span } && labels@.len() >= 1
                    && idents_at(old(self).spec_doc_bytes(), ts, labels@.drop_first(), l.0)
                    && span.start == ts[start_pos as int].span.start && span.end == ts[l.1].span.start)
            }),
    {
        let ghost ts = self.tokens@;
        let ghost bytes = self.document.spec_bytes();
        let ghost start = self.spec_pos();
        let ghost mut at: Seq<int> = Seq::empty();
        let mut labels: Vec<Ident> = Vec::new();
        labels.push(first);
        proof {
            assert(at + bits_labels(ts, start).0 =~= bits_labels(ts, start).0);
            assert(labels@.drop_first() =~= Seq::<Ident>::empty());
        }
        loop
            invariant_except_break
                bits_labels(ts, start).0 == at + bits_labels(ts, self.spec_pos()).0,
                bits_labels(ts, start).1 == bits_labels(ts, self.spec_pos()).1,
                bits_labels(ts, start).2 == bits_labels(ts, self.spec_pos()).2,
            invariant
                self.progressed(old(self)),
                start_pos <= self.spec_pos(),
                labels@.len() >= 1 && labels@[0] == first,
                ts == old(self).tokens@,
                bytes == old(self).document.spec_bytes(),
                start == old(self).spec_pos(),
                idents_at(bytes, ts, labels@.drop_first(), at),
            ensures
                self.progressed(old(self)),
                start_pos <= self.spec_pos(),
                labels@.len() >= 1 && labels@[0] == first,
                idents_at(bytes, ts, labels@.drop_first(), at),
                at == bits_labels(ts, start).0,
                self.spec_pos() == bits_labels(ts, start).1,
                bits_labels(ts, start).2,
            decreases self.remaining(),
        {
            let ghost q = self.spec_pos();
            if !self.check(TokenKind::Comma) {
                proof {
                    assert(at + Seq::<int>::empty() =~= at);
                }
                break;
            }
            self.advance();
            if self.check(TokenKind::RBrace) || self.is_eof() {
                proof {
                    assert(at + Seq::<int>::empty() =~= at);
                }
                break;
            }
            let token = self.expect_enum_label()?;
            proof {
                self.lemma_word_text(q + 1);
            }
            let ghost before = labels@;
            labels.push(self.make_ident(token));
            proof {
                let old_at = at;
                at = at.push(q + 1);
                assert(labels@.drop_first() =~= before.drop_first().push(labels@.last()));
                assert forall|k: int| 0 <= k < at.len() implies ident_of(
                    bytes,
                    ts,
                    #[trigger] labels@.drop_first()[k],
                    at[k],
                ) by {
                    if k < at.len() - 1 {
                        assert(labels@.drop_first()[k] == before.drop_first()[k]);
                    }
                }
                assert(old_at + (seq![q + 1] + bits_labels(ts, self.spec_pos()).0) =~= at
                    + bits_labels(ts, self.spec_pos()).0);
            }
        }

        let span = self.range_to_current_start(start_pos);
        Ok(DefVal::Bits { labels, span })
    }

    fn parse_defval_oid_with_first_ident(&mut self, start_pos: usize, first: Ident) -> (r: Result<
        DefVal,
        Diagnostic,
    >)
        requires
            old(self).wf(),
            start_pos <= old(self).spec_pos(),
            old(self).span_ok(first.span),
        ensures
            final(self).progressed(old(self)),
            ({
                let ts = old(self).spec_tokens();
                let p = old(self).spec_pos();
                let bytes = old(self).spec_doc_bytes();
                let j = plain_oid_end(bytes, ts, p);
                &&& kind_at(ts, p) != TokenKind::LParen ==> (r matches Ok(d) ==> d matches DefVal::ObjectIdentifier { components, .. }
                    && components@.len() >= 1 && components@[0] == OidComponent::Name(first))
                &&& (kind_at(ts, p) != TokenKind::LParen && !oid_start_kind(kind_at(ts, j))) ==> (
                final(self).spec_pos() == j && (r matches Ok(DefVal::ObjectIdentifier { components, .. })
                    && components@.len() == 1 + (j - p) && oid_components_from(bytes, ts, components@, 1, p)))
                &&& (kind_at(ts, p) == TokenKind::LParen && kind_at(ts, p + 1) != TokenKind::Number)
                    ==> r is Err
                &&& kind_at(ts, p) == TokenKind::LParen ==> (r matches Ok(d) ==> d matches DefVal::ObjectIdentifier { components, .. }
                    && components@.len() >= 1 && (components@[0] matches OidComponent::NamedNumber { name, .. }
                    && name == first))
            }),
    {
        // The first component might be name(number)
        let first_component = if self.check(TokenKind::LParen) {
            self.advance();
            let num_token = self.expect(TokenKind::Number)?;
            let num = self.parse_u32(num_token.span)?;
            self.expect(TokenKind::RParen)?;
            let span = cover(first.span, self.last_span);
            OidComponent::NamedNumber { span, name: first, num }
        } else {
            OidComponent::Name(first)
        };
        let ghost fc = first_component;
        let mut components: Vec<OidComponent> = Vec::new();
        components.push(first_component);
        self.collect_defval_oid_components(&mut components)?;
        proof {
            assert(components@[0] == fc) by {
                assert(components@.subrange(0, 1)[0] == components@[0]);
            }
        }
        let span = self.range_to_current_start(start_pos);
        Ok(DefVal::ObjectIdentifier { span, components })
    }

    /// Parse the components of a numeric OID default value up to its closing
    /// brace, which is left in place.
    fn parse_defval_oid_components(&mut self, start_pos: usize) -> (r: Result<DefVal, Diagnostic>)
        requires
            old(self).wf(),
            start_pos <= old(self).spec_pos(),
        ensures
            final(self).progressed(old(self)),
            r matches Ok(d) ==> d is ObjectIdentifier,
            ({
                let ts = old(self).spec_tokens();
                let p = old(self).spec_pos();
                let bytes = old(self).spec_doc_bytes();
                let j = plain_oid_end(bytes, ts, p);
                !oid_start_kind(kind_at(ts, j)) ==> (final(self).spec_pos() == j
                    && (r matches Ok(DefVal::ObjectIdentifier { components, span })
                    && components@.len() == j - p && oid_components_from(bytes, ts, components@, 0, p)
                    && span.start == ts[start_pos as int].span.start && span.end == ts[j].span.start))
            }),
    {
        let mut components: Vec<OidComponent> = Vec::new();
        self.collect_defval_oid_components(&mut components)?;
        let span = self.range_to_current_start(start_pos);
        Ok(DefVal::ObjectIdentifier { components, span })
    }

    /// Append OID components (numbers and names) up to the first token that
    /// cannot start one.
    fn collect_defval_oid_components(&mut self, components: &mut Vec<OidComponent>) -> (r: Result<
        (),
        Diagnostic,
    >)
        requires
            old(self).wf(),
        ensures
            final(self).progressed(old(self)),
            final(components)@.len() >= old(components)@.len(),
            final(components)@.subrange(0, old(components)@.len() as int) == old(components)@,
            r is Ok ==> !oid_start_kind(kind_at(old(self).spec_tokens(), final(self).spec_pos())),
            ({
                let ts = old(self).spec_tokens();
                let p = old(self).spec_pos();
                let bytes = old(self).spec_doc_bytes();
                let j = plain_oid_end(bytes, ts, p);
                !oid_start_kind(kind_at(ts, j)) ==> (r is Ok && final(self).spec_pos() == j
                    && final(components)@.len() == old(components)@.len() + (j - p)
                    && oid_components_from(
                    bytes,
                    ts,
                    final(components)@,
                    old(components)@.len() as int,
                    p,
                ))
            }),
    {
        let ghost ts = self.tokens@;
        let ghost bytes = self.document.spec_bytes();
        let ghost p = self.spec_pos();
        let ghost j = plain_oid_end(bytes, ts, p);
        let ghost clean = !oid_start_kind(kind_at(ts, j));
        let ghost n0 = components@.len() as int;
        proof {
            lemma_plain_oid_end_bound(bytes, ts, p);
        }
        loop
            invariant
                self.progressed(old(self)),
                ts == old(self).tokens@,
                bytes == old(self).document.spec_bytes(),
                p == old(self).spec_pos(),
                j == plain_oid_end(bytes, ts, p),
                clean == !oid_start_kind(kind_at(ts, j)),
                n0 == old(components)@.len(),
                components@.len() >= n0,
                components@.subrange(0, n0) == old(components)@,
                clean ==> (self.spec_pos() <= j && plain_oid_end(bytes, ts, self.spec_pos()) == j
                    && components@.len() == n0 + (self.spec_pos() - p) && oid_components_from(
                    bytes,
                    ts,
                    components@,
                    n0,
                    p,
                )),
            ensures
                self.progressed(old(self)),
                components@.len() >= n0,
                components@.subrange(0, n0) == old(components)@,
                !oid_start_kind(kind_at(ts, self.spec_pos())),
                clean ==> (self.spec_pos() == j && components@.len() == n0 + (j - p)
                    && oid_components_from(bytes, ts, components@, n0, p)),
            decreases self.remaining(),
        {
            let ghost q = self.spec_pos();
            let kind = self.peek().kind;
            if !(kind == TokenKind::Number || kind == TokenKind::LowercaseIdent || kind
                == TokenKind::UppercaseIdent) {
                proof {
                    if clean && q < j {
                        assert(plain_oid_component(bytes, ts, q));
                    }
                }
                break;
            }
            let comp = self.parse_oid_component()?;
            let ghost before = components@;
            components.push(comp);
            proof {
                assert(components@.subrange(0, n0) =~= before.subrange(0, n0));
                if clean {
                    assert(q != j);
                    assert(plain_oid_component(bytes, ts, q));
                    assert forall|k: int| n0 <= k < components@.len() implies oid_component_of(
                        bytes,
                        ts,
                        #[trigger] components@[k],
                        p + (k - n0),
                    ) by {
                        if k < before.len() {
                            assert(components@[k] == before[k]);
                        }
                    }
                }
            }
        }
        Ok(())
    }

    // ---- Type syntax parsing ----

    fn parse_syntax_clause(&mut self) -> (r: Result<SyntaxClause, Diagnostic>)
        requires
            old(self).wf(),
        ensures
            final(self).progressed(old(self)),
            r is Ok ==> final(self).spec_pos() > old(self).spec_pos(),
            type_read(
                old(self).spec_doc_bytes(),
                old(self).spec_tokens(),
                old(self).spec_pos(),
                syntax_of(r),
                final(self).spec_pos(),
            ),
    {
        let start = self.current_span();
        let syntax = self.parse_type_syntax()?;
        let span = cover(start, syntax.span());
        Ok(SyntaxClause { syntax, span })
    }

    /// Parse INTEGER or BITS, with the named numbers in braces after it when
    /// there are any.
    fn parse_numbered_type(&mut self) -> (r: Result<TypeSyntax, Diagnostic>)
        requires
            old(self).wf(),
            old(self).spec_peek().kind == TokenKind::KwInteger || old(self).spec_peek().kind
                == TokenKind::KwBits,
        ensures
            final(self).progressed(old(self)),
            final(self).spec_pos() > old(self).spec_pos(),
            r matches Ok(t) ==> final(self).span_ok(t.spec_span()),
            r matches Ok(t) ==> !(t is Constrained),
            ({
                let ts = old(self).spec_tokens();
                let p = old(self).spec_pos();
                let bytes = old(self).spec_doc_bytes();
                &&& kind_at(ts, p + 1) != TokenKind::LBrace ==> final(self).spec_pos() == p + 1 && (
                r matches Ok(t) && t is TypeRef)
                &&& kind_at(ts, p + 1) == TokenKind::LBrace ==> braced_named_numbers_read(
                    bytes,
                    ts,
                    p + 1,
                    numbered_part(r),
                    final(self).spec_pos(),
                )
                &&& (kind_at(ts, p + 1) == TokenKind::LBrace && r is Ok && kind_at(
                    ts,
                    final(self).spec_pos(),
                ) == TokenKind::LParen) ==> braces_then_constraint(bytes, ts, p + 1)
            }),
    {
        let ghost p = self.spec_pos();
        let ghost ts = self.tokens@;
        let ghost bytes = self.document.spec_bytes();
        let start = self.current_span();
        let is_integer = self.check(TokenKind::KwInteger);
        self.advance();
        if !self.check(TokenKind::LBrace) {
            let name = if is_integer {
                String::from_str("INTEGER")
            } else {
                String::from_str("BITS")
            };
            return Ok(TypeSyntax::TypeRef(Ident { name, span: cover(start, self.last_span) }));
        }
        if is_integer {
            // INTEGER { enum-values }
            let named_numbers = self.parse_named_numbers()?;
            proof {
                if kind_at(ts, self.spec_pos()) == TokenKind::LParen {
                    assert(braces_then_constraint(bytes, ts, p + 1)) by {
                        reveal(braced_named_numbers_read);
                    }
                }
            }
            let span = cover(start, self.last_span);
            return Ok(TypeSyntax::IntegerEnum { base: None, named_numbers, span });
        }
        proof {
            reveal(braced_named_numbers_read);
            reveal(named_numbers_read);
        }
        self.expect(TokenKind::LBrace)?;
        let named_bits = self.parse_named_number_list()?;
        self.expect(TokenKind::RBrace)?;
        let span = cover(start, self.last_span);
        Ok(TypeSyntax::Bits { named_bits, span })
    }

    /// Parse `SEQUENCE OF Entry`, `SEQUENCE { fields }` or
    /// `CHOICE { alternatives }`.
    fn parse_structured_type(&mut self) -> (r: Result<TypeSyntax, Diagnostic>)
        requires
            old(self).wf(),
            old(self).spec_peek().kind == TokenKind::KwSequence || old(self).spec_peek().kind
                == TokenKind::KwChoice,
        ensures
            final(self).progressed(old(self)),
            final(self).spec_pos() > old(self).spec_pos(),
            r matches Ok(t) ==> final(self).span_ok(t.spec_span()),
            r matches Ok(t) ==> !(t is Constrained),
            ({
                let ts = old(self).spec_tokens();
                let p = old(self).spec_pos();
                (kind_at(ts, p) == TokenKind::KwSequence && kind_at(ts, p + 1) == TokenKind::KwOf
                    && name_kind(kind_at(ts, p + 2))) ==> final(self).spec_pos() == p + 3 && (
                r matches Ok(TypeSyntax::SequenceOf { entry_type, .. }) && ident_of(
                    old(self).spec_doc_bytes(),
                    ts,
                    entry_type,
                    p + 2,
                ))
            }),
        decreases old(self).remaining(), 0int,
    {
        let ghost p = self.spec_pos();
        let start = self.current_span();
        if self.check(TokenKind::KwChoice) {
            self.advance();
            self.expect(TokenKind::LBrace)?;
            let alternatives = self.parse_sequence_fields()?;
            self.expect(TokenKind::RBrace)?;
            return Ok(TypeSyntax::Choice { alternatives, span: cover(start, self.last_span) });
        }
        self.advance();
        if self.check(TokenKind::KwOf) {
            // SEQUENCE OF EntryType
            self.advance();
            let entry_token = self.expect_identifier()?;
            proof {
                self.lemma_word_text(p + 2);
            }
            let entry_type = self.make_ident(entry_token);
            Ok(TypeSyntax::SequenceOf { entry_type, span: cover(start, self.last_span) })
        } else {
            // SEQUENCE { fields }
            self.expect(TokenKind::LBrace)?;
            let fields = self.parse_sequence_fields()?;
            self.expect(TokenKind::RBrace)?;
            Ok(TypeSyntax::Sequence { fields, span: cover(start, self.last_span) })
        }
    }

    /// Parse `[APPLICATION n] IMPLICIT Type`, each part but the brackets and
    /// the type optional.
    fn parse_tagged_type(&mut self) -> (r: Result<TypeSyntax, Diagnostic>)
        requires
            old(self).wf(),
            old(self).spec_peek().kind == TokenKind::LBracket,
        ensures
            final(self).progressed(old(self)),
            final(self).spec_pos() > old(self).spec_pos(),
            r matches Ok(t) ==> final(self).span_ok(t.spec_span()),
        decreases old(self).remaining(), 0int,
    {
        let start = self.current_span();
        self.advance();
        if self.check(TokenKind::KwApplication) || self.check(TokenKind::KwUniversal) {
            self.advance();
        }
        if self.check(TokenKind::Number) {
            self.advance();
        }
        self.expect(TokenKind::RBracket)?;
        if self.check(TokenKind::KwImplicit) {
            self.advance();
        }
        let underlying = self.parse_type_syntax()?;
        let span = cover(start, underlying.span());
        Ok(TypeSyntax::Tagged { underlying: Box::new(underlying), span })
    }

    /// Parse a type: a built-in type, a named type with an optional
    /// constraint or enumeration, a SEQUENCE, CHOICE, or a tagged type.
    #[verifier::rlimit(100)]
    fn parse_type_syntax(&mut self) -> (r: Result<TypeSyntax, Diagnostic>)
        requires
            old(self).wf(),
        ensures
            final(self).progressed(old(self)),
            r is Ok ==> final(self).spec_pos() > old(self).spec_pos(),
            r matches Ok(t) ==> final(self).span_ok(t.spec_span()),
            type_read(
                old(self).spec_doc_bytes(),
                old(self).spec_tokens(),
                old(self).spec_pos(),
                r,
                final(self).spec_pos(),
            ),
        decreases old(self).remaining(), 1int,
    {
        proof {
            reveal(type_read);
        }
        let ghost p = self.spec_pos();
        let start = self.current_span();
        let base = match self.peek().kind {
            TokenKind::KwInteger | TokenKind::KwBits => self.parse_numbered_type()?,
            TokenKind::KwOctet => {
                self.advance();
                self.expect(TokenKind::KwString)?;
                if self.check(TokenKind::LParen) {
                    let octet_span = cover(start, self.last_span);
                    let constraint = self.parse_constraint()?;
                    let span = cover(start, constraint.span());
                    TypeSyntax::Constrained {
                        base: Box::new(TypeSyntax::OctetString { span: octet_span }),
                        constraint,
                        span,
                    }
                } else {
                    TypeSyntax::OctetString { span: cover(start, self.last_span) }
                }
            },
            TokenKind::KwObject => {
                self.advance();
                self.expect(TokenKind::KwIdentifier)?;
                TypeSyntax::ObjectIdentifier { span: cover(start, self.last_span) }
            },
            TokenKind::KwSequence | TokenKind::KwChoice => self.parse_structured_type()?,
            // Application type keywords
            TokenKind::KwCounter32 | TokenKind::KwCounter64 | TokenKind::KwGauge32
            | TokenKind::KwUnsigned32 | TokenKind::KwTimeTicks | TokenKind::KwIpAddress
            | TokenKind::KwOpaque | TokenKind::KwCounter | TokenKind::KwGauge
            | TokenKind::KwNetworkAddress => {
                let token = self.advance();
                TypeSyntax::TypeRef(self.make_ident(token))
            },
            // NULL occurs as an unsupported alternative in the legacy
            // SimpleSyntax CHOICE of the SMIv1 foundation modules. Keep it as
            // an opaque type reference without admitting other reserved words.
            TokenKind::ForbiddenKeyword => {
                let span = self.current_span();
                if !bytes_equal(self.text_bytes(span), "NULL".as_bytes()) {
                    return Err(self.make_error(String::from_str("expected type syntax")));
                }
                let token = self.advance();
                TypeSyntax::TypeRef(self.make_ident(token))
            },
            // Named type reference (identifier)
            TokenKind::UppercaseIdent | TokenKind::LowercaseIdent => {
                let token = self.advance();
                proof {
                    self.lemma_word_text(p);
                }
                let ident = self.make_ident(token);
                if token.kind == TokenKind::LowercaseIdent {
                    self.emit_diagnostic(
                        DiagCode::BadIdentifierCase,
                        token.span,
                        String::from_str("type reference should start with an uppercase letter"),
                    );
                }
                if self.check(TokenKind::LParen) {
                    // Type with constraint
                    let constraint = self.parse_constraint()?;
                    let span = cover(start, constraint.span());
                    TypeSyntax::Constrained {
                        base: Box::new(TypeSyntax::TypeRef(ident)),
                        constraint,
                        span,
                    }
                } else if self.check(TokenKind::LBrace) {
                    // Restricted integer enum: TypeName { val1(1), val2(2) }
                    let named_numbers = self.parse_named_numbers()?;
                    proof {
                        if kind_at(self.tokens@, self.spec_pos()) == TokenKind::LParen {
                            assert(braces_then_constraint(self.document.spec_bytes(), self.tokens@, p + 1)) by {
                                reveal(braced_named_numbers_read);
                            }
                        }
                    }
                    let span = cover(start, self.last_span);
                    TypeSyntax::IntegerEnum { base: Some(ident), named_numbers, span }
                } else {
                    TypeSyntax::TypeRef(ident)
                }
            },
            // Tagged type: [APPLICATION n] IMPLICIT Type
            TokenKind::LBracket => self.parse_tagged_type()?,
            _ => {
                return Err(self.make_error(String::from_str("expected type syntax")));
            },
        };
        // Post-processing: a trailing constraint on a non-constrained base
        let is_constrained = match &base {
            TypeSyntax::Constrained { .. } => true,
            _ => false,
        };
        if self.check(TokenKind::LParen) && !is_constrained {
            let constraint = self.parse_constraint()?;
            let span = cover(start, constraint.span());
            return Ok(TypeSyntax::Constrained { base: Box::new(base), constraint, span });
        }
        Ok(base)
    }

    // ---- Constraint parsing ----

    /// Parse `(SIZE (ranges))` or `(ranges)`.
    #[verifier::rlimit(60)]
    fn parse_constraint(&mut self) -> (r: Result<Constraint, Diagnostic>)
        requires
            old(self).wf(),
        ensures
            final(self).progressed(old(self)),
            r is Ok ==> final(self).spec_pos() > old(self).spec_pos(),
            r matches Ok(c) ==> final(self).span_ok(c.spec_span()),
            r matches Ok(Constraint::Size { .. }) ==> old(self).spec_peek_nth(1).kind
                == TokenKind::KwSize,
            r matches Ok(Constraint::Range { .. }) ==> old(self).spec_peek_nth(1).kind
                != TokenKind::KwSize,
            constraint_read(old(self).spec_tokens(), old(self).spec_pos(), r, final(self).spec_pos()),
    {
        proof {
            reveal(constraint_read);
        }
        let start = self.current_span();
        self.expect(TokenKind::LParen)?;
        if self.check(TokenKind::KwSize) {
            self.advance();
            self.expect(TokenKind::LParen)?;
            let ranges = self.parse_range_list()?;
            self.expect(TokenKind::RParen)?;
            self.expect(TokenKind::RParen)?;
            let span = cover(start, self.last_span);
            Ok(Constraint::Size { ranges, span })
        } else {
            let ranges = self.parse_range_list()?;
            self.expect(TokenKind::RParen)?;
            let span = cover(start, self.last_span);
            Ok(Constraint::Range { ranges, span })
        }
    }

    /// Parse `range (| range)*`.
    #[verifier::rlimit(60)]
    fn parse_range_list(&mut self) -> (r: Result<Vec<Range>, Diagnostic>)
        requires
            old(self).wf(),
        ensures
            final(self).progressed(old(self)),
            r matches Ok(v) ==> v@.len() >= 1,
            ({
                let l = range_items(old(self).spec_tokens(), old(self).spec_pos());
                &&& (r is Ok <==> l.2)
                &&& (r is Ok ==> final(self).spec_pos() == l.1)
                &&& (r matches Ok(v) ==> ranges_at(old(self).spec_tokens(), v@, l.0))
            }),
    {
        let ghost ts = self.tokens@;
        let ghost start = self.spec_pos();
        let ghost mut at: Seq<(int, bool)> = Seq::empty();
        let mut ranges: Vec<Range> = Vec::new();
        proof {
            assert(at + range_items(ts, start).0 =~= range_items(ts, start).0);
        }
        loop
            invariant_except_break
                range_items(ts, start).0 == at + range_items(ts, self.spec_pos()).0,
                range_items(ts, start).1 == range_items(ts, self.spec_pos()).1,
                range_items(ts, start).2 == range_items(ts, self.spec_pos()).2,
            invariant
                self.progressed(old(self)),
                ts == old(self).tokens@,
                start == old(self).spec_pos(),
                ranges_at(ts, ranges@, at),
            ensures
                self.progressed(old(self)),
                ranges@.len() >= 1,
                ranges_at(ts, ranges@, at),
                at == range_items(ts, start).0,
                self.spec_pos() == range_items(ts, start).1,
                range_items(ts, start).2,
            decreases self.remaining(),
        {
            let ghost q = self.spec_pos();
            let range_start = self.current_span();
            let min = self.parse_range_value()?;
            let max = if self.check(TokenKind::DotDot) {
                self.advance();
                Some(self.parse_range_value()?)
            } else {
                None
            };
            let ghost has_max = max is Some;
            let range_span = cover(range_start, self.last_span);
            let ghost before = ranges@;
            ranges.push(Range { min, max, span: range_span });
            proof {
                let old_at = at;
                at = at.push((q, has_max));
                assert forall|k: int| 0 <= k < at.len() implies {
                    &&& (#[trigger] ranges@[k]).max is Some <==> at[k].1
                    &&& ranges@[k].span == SourceRange::spec_cover(
                        ts[at[k].0].span,
                        ts[if at[k].1 { at[k].0 + 2 } else { at[k].0 }].span,
                    )
                } by {
                    if k < before.len() {
                        assert(ranges@[k] == before[k]);
                    }
                }
            }
            if self.check(TokenKind::Pipe) {
                self.advance();
            } else {
                proof {
                    assert(at.drop_last() + seq![(q, has_max)] =~= at);
                }
                break;
            }
            proof {
                assert(at.drop_last() + (seq![(q, has_max)] + range_items(ts, self.spec_pos()).0) =~= at
                    + range_items(ts, self.spec_pos()).0);
            }
        }
        Ok(ranges)
    }

    /// Parse one range endpoint: a number, a hex string, or a name. Numbers
    /// that do not fit keep their source text.
    fn parse_range_value(&mut self) -> (r: Result<RangeValue, Diagnostic>)
        requires
            old(self).wf(),
        ensures
            final(self).progressed(old(self)),
            r is Ok ==> final(self).spec_pos() == old(self).spec_pos() + 1,
            r is Ok ==> final(self).last_span == old(self).spec_peek().span,
            r is Ok <==> (old(self).spec_peek().kind == TokenKind::Number
                || old(self).spec_peek().kind == TokenKind::NegativeNumber
                || old(self).spec_peek().kind == TokenKind::HexString
                || old(self).spec_peek().kind == TokenKind::UppercaseIdent
                || old(self).spec_peek().kind == TokenKind::ForbiddenKeyword),
            ({
                let t = old(self).spec_text_bytes(old(self).spec_peek().span);
                old(self).spec_peek().kind == TokenKind::Number ==> match r {
                    Ok(RangeValue::Unsigned(v)) => crate::num::dec_value(t) <= u64::MAX && v
                        == crate::num::dec_value(t),
                    Ok(RangeValue::Raw(_)) => crate::num::dec_value(t) > u64::MAX,
                    _ => false,
                }
            }),
    {
        match self.peek().kind {
            TokenKind::Number => {
                let token = self.advance();
                let text = self.text_bytes(token.span);
                proof {
                    assert(crate::num::all_dec_digits(text@)) by {
                        assert(self.tokens@[old(self).pos as int] == token);
                        assert(token_shape(self.document.spec_bytes(), token));
                        assert forall|k: int| 0 <= k < text@.len() implies #[trigger] crate::num::is_dec_digit(text@[k]) by {
                            assert(text@[k] == self.document.spec_bytes()[token.span.start + k]);
                            assert(crate::lexer::is_digit(self.document.spec_bytes()[token.span.start + k]));
                        }
                    }
                }
                match parse_dec_u64(text) {
                    Some(v) => Ok(RangeValue::Unsigned(v)),
                    None => {
                        self.emit_diagnostic(
                            DiagCode::UnknownRangeValue,
                            token.span,
                            String::from_str("range value is outside the supported integer range"),
                        );
                        Ok(RangeValue::Raw(string_from_bytes_lossy(text)))
                    },
                }
            },
            TokenKind::NegativeNumber => {
                let token = self.advance();
                let text = self.text_bytes(token.span);
                match parse_dec_i64(text) {
                    Some(v) => Ok(RangeValue::Signed(v)),
                    None => {
                        self.emit_diagnostic(
                            DiagCode::UnknownRangeValue,
                            token.span,
                            String::from_str("range value is outside the supported integer range"),
                        );
                        Ok(RangeValue::Raw(string_from_bytes_lossy(text)))
                    },
                }
            },
            TokenKind::HexString => {
                let token = self.advance();
                let full = self.text_bytes(token.span);
                let hex_part = strip_literal_bytes(full);
                let normalized = remove_whitespace(hex_part);
                match parse_hex_u64(normalized.as_slice()) {
                    Some(v) => Ok(RangeValue::Unsigned(v)),
                    None => {
                        self.emit_diagnostic(
                            DiagCode::InvalidHexRange,
                            token.span,
                            String::from_str("invalid hex range value"),
                        );
                        Ok(RangeValue::Raw(string_from_bytes_lossy(full)))
                    },
                }
            },
            TokenKind::UppercaseIdent | TokenKind::ForbiddenKeyword => {
                let token = self.advance();
                Ok(RangeValue::Named(self.make_ident(token)))
            },
            _ => Err(self.make_error(String::from_str("expected range value"))),
        }
    }

    // ---- Named numbers and sequence fields ----

    fn parse_named_numbers(&mut self) -> (r: Result<Vec<NamedNumber>, Diagnostic>)
        requires
            old(self).wf(),
        ensures
            final(self).progressed(old(self)),
            r is Ok ==> final(self).spec_pos() > old(self).spec_pos(),
            braced_named_numbers_read(
                old(self).spec_doc_bytes(),
                old(self).spec_tokens(),
                old(self).spec_pos(),
                r,
                final(self).spec_pos(),
            ),
    {
        proof {
            reveal(braced_named_numbers_read);
            reveal(named_numbers_read);
        }
        self.expect(TokenKind::LBrace)?;
        let list = self.parse_named_number_list()?;
        self.expect(TokenKind::RBrace)?;
        Ok(list)
    }

    /// Parse `label(number)` items separated by commas, tolerating (and
    /// reporting) a missing comma between items.
    #[verifier::rlimit(100)]
    fn parse_named_number_list(&mut self) -> (r: Result<Vec<NamedNumber>, Diagnostic>)
        requires
            old(self).wf(),
        ensures
            final(self).progressed(old(self)),
            named_numbers_read(
                old(self).spec_doc_bytes(),
                old(self).spec_tokens(),
                old(self).spec_pos(),
                r,
                final(self).spec_pos(),
            ),
    {
        proof {
            reveal(named_numbers_read);
        }
        let ghost ts = self.tokens@;
        let ghost bytes = self.document.spec_bytes();
        let ghost start = self.spec_pos();
        let ghost mut at: Seq<int> = Seq::empty();
        let mut items: Vec<NamedNumber> = Vec::new();
        proof {
            assert(at + named_number_items(bytes, ts, start).0 =~= named_number_items(bytes, ts, start).0);
        }
        loop
            invariant_except_break
                named_number_items(bytes, ts, start).0 == at + named_number_items(bytes, ts, self.spec_pos()).0,
                named_number_items(bytes, ts, start).1 == named_number_items(bytes, ts, self.spec_pos()).1,
                named_number_items(bytes, ts, start).2 == named_number_items(bytes, ts, self.spec_pos()).2,
            invariant
                self.progressed(old(self)),
                ts == old(self).tokens@,
                bytes == old(self).document.spec_bytes(),
                start == old(self).spec_pos(),
                named_numbers_at(bytes, ts, items@, at),
            ensures
                self.progressed(old(self)),
                named_numbers_at(bytes, ts, items@, at),
                at == named_number_items(bytes, ts, start).0,
                self.spec_pos() == named_number_items(bytes, ts, start).1,
                named_number_items(bytes, ts, start).2,
            decreases self.remaining(),
        {
            let ghost q = self.spec_pos();
            if self.check(TokenKind::RBrace) || self.is_eof() {
                proof {
                    assert(at + Seq::<int>::empty() =~= at);
                }
                break;
            }
            let nn_start = self.current_span();
            let label_token = match self.expect_enum_label() {
                Ok(t) => t,
                Err(e) => {
                    proof {
                        assert(kind_at(ts, q) == ts[q].kind);
                        assert(!named_number_at(bytes, ts, q));
                        assert(!named_number_items(bytes, ts, q).2);
                        reveal(named_numbers_read);
                    }
                    return Err(e);
                },
            };
            let label = self.make_ident(label_token);
            if let Err(e) = self.expect(TokenKind::LParen) {
                proof {
                    assert(kind_at(ts, q + 1) == ts[q + 1].kind);
                    assert(!named_number_at(bytes, ts, q));
                    assert(!named_number_items(bytes, ts, q).2);
                    reveal(named_numbers_read);
                }
                return Err(e);
            }
            let num_token = if self.check(TokenKind::NegativeNumber) {
                self.advance()
            } else {
                match self.expect(TokenKind::Number) {
                    Ok(t) => t,
                    Err(e) => {
                        proof {
                            assert(kind_at(ts, q + 2) == ts[q + 2].kind);
                            assert(!named_number_at(bytes, ts, q));
                            assert(!named_number_items(bytes, ts, q).2);
                            reveal(named_numbers_read);
                        }
                        return Err(e);
                    },
                }
            };
            let value = match self.parse_i64(num_token.span) {
                Ok(v) => v,
                Err(e) => {
                    proof {
                        assert(token_text(bytes, ts, q + 2) == self.spec_text_bytes(num_token.span));
                        assert(!named_number_at(bytes, ts, q));
                        assert(!named_number_items(bytes, ts, q).2);
                        reveal(named_numbers_read);
                    }
                    return Err(e);
                },
            };
            if let Err(e) = self.expect(TokenKind::RParen) {
                proof {
                    assert(kind_at(ts, q + 3) == ts[q + 3].kind);
                    assert(!named_number_at(bytes, ts, q));
                    assert(!named_number_items(bytes, ts, q).2);
                    reveal(named_numbers_read);
                }
                return Err(e);
            }
            let nn_span = cover(nn_start, self.last_span);
            let ghost before = items@;
            items.push(NamedNumber { name: label, value, span: nn_span });
            proof {
                self.lemma_word_text(q);
                assert(named_number_at(bytes, ts, q));
                let old_at = at;
                at = at.push(q);
                assert forall|k: int| 0 <= k < at.len() implies named_number_of(bytes, ts, #[trigger] items@[k], at[k]) by {
                    if k < before.len() {
                        assert(items@[k] == before[k]);
                    }
                }
            }
            if self.check(TokenKind::Comma) {
                self.advance();
            } else if !self.check(TokenKind::RBrace) && !self.is_eof() {
                // Recovery: missing comma before another named number.
                let span = self.current_span();
                self.emit_diagnostic(
                    DiagCode::MissingComma,
                    span,
                    String::from_str("missing comma in named number list"),
                );
            }
            proof {
                assert(at.drop_last() + (seq![q] + named_number_items(bytes, ts, self.spec_pos()).0) =~= at
                    + named_number_items(bytes, ts, self.spec_pos()).0);
            }
        }
        Ok(items)
    }

    /// Parse `name Type` fields of a SEQUENCE or CHOICE, tolerating missing commas.
    fn parse_sequence_fields(&mut self) -> (r: Result<Vec<SequenceField>, Diagnostic>)
        requires
            old(self).wf(),
        ensures
            final(self).progressed(old(self)),
            fields_read(
                old(self).spec_doc_bytes(),
                old(self).spec_tokens(),
                old(self).spec_pos(),
                r,
                final(self).spec_pos(),
                *final(self) == *old(self),
            ),
        decreases old(self).remaining(), 0int,
    {
        proof {
            reveal(fields_read);
        }
        let ghost ts = self.tokens@;
        let ghost bytes = self.document.spec_bytes();
        let ghost p = self.spec_pos();
        let ghost k = ts[p].kind;
        let mut fields: Vec<SequenceField> = Vec::new();
        while !self.check(TokenKind::RBrace) && !self.is_eof()
            invariant
                self.progressed(old(self)),
                ts == old(self).tokens@,
                bytes == old(self).document.spec_bytes(),
                p == old(self).spec_pos(),
                k == ts[p].kind,
                (k == TokenKind::RBrace || k == TokenKind::Eof) ==> *self == *old(self),
                (k == TokenKind::RBrace || k == TokenKind::Eof) ==> fields@.len() == 0,
                fields@.len() > 0 ==> name_kind(k),
                fields@.len() == 0 ==> self.spec_pos() == p,
                fields@.len() > 0 ==> ident_of(bytes, ts, fields@[0].name, p),
            decreases self.remaining(),
        {
            let ghost q = self.spec_pos();
            let field_start = self.current_span();
            let name_token = match self.expect_identifier() {
                Ok(t) => t,
                Err(e) => {
                    proof {
                        reveal(fields_read);
                    }
                    return Err(e);
                },
            };
            proof {
                self.lemma_word_text(q);
            }
            let name = self.make_ident(name_token);
            let syntax = match self.parse_type_syntax() {
                Ok(t) => t,
                Err(e) => {
                    proof {
                        reveal(fields_read);
                    }
                    return Err(e);
                },
            };
            let field_span = cover(field_start, syntax.span());
            let ghost before = fields@;
            fields.push(SequenceField { name, syntax, span: field_span });
            proof {
                if before.len() > 0 {
                    assert(fields@[0] == before[0]);
                }
            }
            if self.check(TokenKind::Comma) {
                self.advance();
            }
        }
        Ok(fields)
    }

    // ---- OID assignment parsing ----

    /// Parse `{ component* }`.
    fn parse_oid_assignment(&mut self) -> (r: Result<OidAssignment, Diagnostic>)
        requires
            old(self).wf(),
        ensures
            final(self).progressed(old(self)),
            r is Ok ==> final(self).spec_pos() > old(self).spec_pos(),
            r matches Ok(o) ==> final(self).span_ok(o.span),
            ({
                let ts = old(self).spec_tokens();
                let p = old(self).spec_pos();
                let bytes = old(self).spec_doc_bytes();
                let j = plain_oid_end(bytes, ts, p + 1);
                &&& ts[p].kind != TokenKind::LBrace ==> r is Err
                &&& (ts[p].kind == TokenKind::LBrace && kind_at(ts, j) == TokenKind::RBrace) ==> (
                final(self).spec_pos() == j + 1 && (r matches Ok(o) && o.components@.len() == j - (p
                    + 1) && oid_components_from(bytes, ts, o.components@, 0, p + 1) && o.span
                    == SourceRange::spec_cover(ts[p].span, ts[j].span)))
            }),
    {
        let ghost ts = self.tokens@;
        let ghost bytes = self.document.spec_bytes();
        let ghost p = self.spec_pos();
        let start = self.current_span();
        self.expect(TokenKind::LBrace)?;
        let ghost j = plain_oid_end(bytes, ts, p + 1);
        let ghost clean = kind_at(ts, j) == TokenKind::RBrace;
        proof {
            lemma_plain_oid_end_bound(bytes, ts, p + 1);
        }
        let mut components: Vec<OidComponent> = Vec::new();
        while !self.check(TokenKind::RBrace) && !self.is_eof()
            invariant
                self.progressed(old(self)),
                self.spec_pos() > old(self).spec_pos(),
                ts == old(self).tokens@,
                bytes == old(self).document.spec_bytes(),
                p == old(self).spec_pos(),
                j == plain_oid_end(bytes, ts, p + 1),
                clean == (kind_at(ts, j) == TokenKind::RBrace),
                clean ==> (self.spec_pos() <= j && plain_oid_end(bytes, ts, self.spec_pos()) == j
                    && components@.len() == self.spec_pos() - (p + 1) && oid_components_from(
                    bytes,
                    ts,
                    components@,
                    0,
                    p + 1,
                )),
            decreases self.remaining(),
        {
            let ghost q = self.spec_pos();
            let comp = self.parse_oid_component()?;
            let ghost before = components@;
            components.push(comp);
            proof {
                if clean {
                    assert(q != j);
                    assert(plain_oid_component(bytes, ts, q));
                    assert forall|k: int| 0 <= k < components@.len() implies oid_component_of(
                        bytes,
                        ts,
                        #[trigger] components@[k],
                        p + 1 + (k - 0),
                    ) by {
                        if k < before.len() {
                            assert(components@[k] == before[k]);
                        }
                    }
                }
            }
        }
        proof {
            if clean {
                let q = self.spec_pos();
                if q < j {
                    assert(plain_oid_component(bytes, ts, q));
                }
                assert(q == j);
            }
        }
        self.expect(TokenKind::RBrace)?;
        let span = cover(start, self.last_span);
        Ok(OidAssignment { components, span })
    }

    /// Parse one OID component: `number`, `name`, `name(number)`,
    /// `Module.name` or `Module.name(number)`.
    fn parse_oid_component(&mut self) -> (r: Result<OidComponent, Diagnostic>)
        requires
            old(self).wf(),
        ensures
            final(self).progressed(old(self)),
            r is Ok ==> final(self).spec_pos() > old(self).spec_pos(),
            old(self).spec_peek().kind != TokenKind::Number && !old(self).spec_peek().kind.spec_is_identifier()
                ==> r is Err,
            r matches Ok(OidComponent::Number { .. }) ==> old(self).spec_peek().kind == TokenKind::Number,
            r matches Ok(OidComponent::Name(id)) ==> old(self).spec_peek().kind.spec_is_identifier()
                && id.span == old(self).spec_peek().span,
            ({
                let ts = old(self).spec_tokens();
                let p = old(self).spec_pos();
                let bytes = old(self).spec_doc_bytes();
                &&& ts[p].kind == TokenKind::Number ==> (r is Ok <==> fits_u32(token_text(bytes, ts, p)))
                &&& (r matches Ok(OidComponent::Number { value, span }) ==> value == crate::num::dec_value(
                    token_text(bytes, ts, p),
                ) && span == ts[p].span)
                &&& (plain_oid_component(bytes, ts, p) ==> final(self).spec_pos() == p + 1 && (
                r matches Ok(c) && oid_component_of(bytes, ts, c, p)))
            }),
    {
        let ghost p = self.spec_pos();
        match self.peek().kind {
            TokenKind::Number => {
                let token = self.advance();
                let value = self.parse_u32(token.span)?;
                Ok(OidComponent::Number { value, span: token.span })
            },
            TokenKind::LowercaseIdent | TokenKind::UppercaseIdent => {
                let token = self.advance();
                proof {
                    self.lemma_word_text(p);
                }
                let ident = self.make_ident(token);
                // Qualified name: Module.name
                if self.check(TokenKind::Dot) && token.kind == TokenKind::UppercaseIdent {
                    let next = self.peek_nth(1).kind;
                    if next == TokenKind::LowercaseIdent || next == TokenKind::UppercaseIdent {
                        self.advance();
                        let name_token = self.advance();
                        let name_ident = self.make_ident(name_token);
                        // Qualified named number: Module.name(number)
                        if self.check(TokenKind::LParen) {
                            self.advance();
                            let num_token = self.expect(TokenKind::Number)?;
                            let num = self.parse_u32(num_token.span)?;
                            self.expect(TokenKind::RParen)?;
                            let span = cover(ident.span, self.last_span);
                            return Ok(
                                OidComponent::QualifiedNamedNumber {
                                    module_name: ident,
                                    name: name_ident,
                                    num,
                                    span,
                                },
                            );
                        }
                        let span = cover(ident.span, name_ident.span);
                        return Ok(
                            OidComponent::QualifiedName { module_name: ident, name: name_ident, span },
                        );
                    }
                }
                // Named number: name(number)
                if self.check(TokenKind::LParen) {
                    self.advance();
                    let num_token = self.expect(TokenKind::Number)?;
                    let num = self.parse_u32(num_token.span)?;
                    self.expect(TokenKind::RParen)?;
                    let span = cover(ident.span, self.last_span);
                    return Ok(OidComponent::NamedNumber { name: ident, num, span });
                }
                Ok(OidComponent::Name(ident))
            },
            _ => Err(self.make_error(String::from_str("expected OID component"))),
        }
    }
}

/// Copy a diagnostic, naming `module` in it when given.
fn relabel_diagnostic(d: &Diagnostic, module: Option<&String>) -> (r: Diagnostic)
    ensures
        r.code == d.code,
        r.severity == d.severity,
        r.range == d.range,
        module matches Some(n) ==> r.module == Some(*n),
        module is None ==> r.module == d.module,
{
    let new_module = match module {
        Some(n) => Some(n.clone()),
        None => match &d.module {
            Some(m) => Some(m.clone()),
            None => None,
        },
    };
    Diagnostic {
        severity: d.severity,
        code: d.code,
        message: d.message.clone(),
        module: new_module,
        range: d.range,
    }
}

/// The content of a hex or binary string literal: without a leading quote,
/// and cut at the last quote.
pub open spec fn spec_strip_literal(s: Seq<u8>) -> Seq<u8> {
    let t = if s.len() > 0 && s[0] == 0x27 {
        s.drop_first()
    } else {
        s
    };
    if t.contains(0x27u8) {
        t.subrange(0, last_index_of(t, 0x27u8))
    } else {
        t
    }
}

/// The position of the last occurrence of `b` in `s` (which contains it).
pub open spec fn last_index_of(s: Seq<u8>, b: u8) -> int
    decreases s.len(),
{
    if s.len() == 0 {
        0
    } else if s.last() == b {
        s.len() - 1
    } else {
        last_index_of(s.drop_last(), b)
    }
}

/// Strip the quotes of a hex or binary string literal: `'content'H` becomes `content`.
fn strip_literal_bytes(s: &[u8]) -> (r: &[u8])
    ensures
        r@ == spec_strip_literal(s@),
{
    let t: &[u8] = if s.len() > 0 && s[0] == 0x27 {
        &s[1..s.len()]
    } else {
        s
    };
    assert(t@ == if s@.len() > 0 && s@[0] == 0x27 { s@.drop_first() } else { s@ });
    assert(t@.subrange(0, t@.len() as int) =~= t@);
    let mut i = t.len();
    while i > 0
        invariant
            i <= t@.len(),
            t@ == if s@.len() > 0 && s@[0] == 0x27 { s@.drop_first() } else { s@ },
            forall|k: int| i <= k < t@.len() ==> t@[k] != 0x27u8,
            last_index_of(t@, 0x27u8) == last_index_of(t@.subrange(0, i as int), 0x27u8),
        decreases i,
    {
        if t[i - 1] == 0x27 {
            proof {
                assert(t@.contains(0x27u8));
                assert(t@.subrange(0, i as int).last() == 0x27u8);
            }
            return &t[0..i - 1];
        }
        proof {
            assert(t@.subrange(0, i as int).drop_last() =~= t@.subrange(0, i - 1));
        }
        i = i - 1;
    }
    proof {
        assert(!t@.contains(0x27u8));
    }
    t
}

/// Strips surrounding quote characters from hex/binary string literals.
///
/// Input: `'content'H` or `'content'B`, output: `content`.
pub fn strip_string_literal(s: &str) -> (r: String)
    ensures
        valid_utf8(spec_strip_literal(s.spec_bytes())) ==> r@ == text_of(
            spec_strip_literal(s.spec_bytes()),
        ),
{
    string_from_bytes_lossy(strip_literal_bytes(s.as_bytes()))
}

/// Remove the whitespace bytes (space, tab, newline, carriage return).
fn remove_whitespace(s: &[u8]) -> (r: Vec<u8>)
    ensures
        r@ == s@.filter(|b: u8| !(b == 0x20 || b == 0x09 || b == 0x0a || b == 0x0d)),
{
    let mut out: Vec<u8> = Vec::new();
    let mut i: usize = 0;
    while i < s.len()
        invariant
            0 <= i <= s@.len(),
            out@ == s@.subrange(0, i as int).filter(
                |b: u8| !(b == 0x20 || b == 0x09 || b == 0x0a || b == 0x0d),
            ),
        decreases s@.len() - i,
    {
        let b = s[i];
        proof {
            reveal(Seq::filter);
            assert(s@.subrange(0, i as int + 1).drop_last() =~= s@.subrange(0, i as int));
        }
        if !(b == 0x20 || b == 0x09 || b == 0x0a || b == 0x0d) {
            out.push(b);
        }
        i = i + 1;
    }
    assert(s@.subrange(0, s@.len() as int) =~= s@);
    out
}

/// Modules follow one another through the document: each one ends before
/// the next one starts.
pub open spec fn modules_in_order(modules: Seq<Module>) -> bool {
    forall|i: int, j: int|
        0 <= i < j < modules.len() ==> (#[trigger] modules[i]).span.end <= (
        #[trigger] modules[j]).span.start
}

/// A named module's name starts where the module starts, ends inside it,
/// and is the text it covers. (Which token it covers is stated by
/// `read_from_header`: the token the module starts at.)
pub open spec fn name_at_module_start(bytes: Seq<u8>, m: Module) -> bool {
    m.name matches Some(id) ==> {
        &&& id.span.start == m.span.start
        &&& id.span.end <= m.span.end
        &&& id.name@ == ascii_chars(bytes.subrange(id.span.start as int, id.span.end as int))
    }
}

/// Module `b` follows module `a` directly: `b` starts at a token whose
/// predecessor ends where `a` ends, so no token lies between them.
#[verifier::opaque]
pub open spec fn adjacent(ts: Seq<Token>, a: Module, b: Module) -> bool {
    exists|j: int| 0 < j < ts.len() && (#[trigger] ts[j]).span.start == b.span.start && ts[j - 1].span.end == a.span.end
}

/// Appending a module that starts after every earlier one ends keeps the
/// modules in order.
proof fn lemma_push_in_order(before: Seq<Module>, after: Seq<Module>)
    requires
        modules_in_order(before),
        after.len() == before.len() + 1,
        forall|k: int| 0 <= k < before.len() ==> after[k] == before[k],
        forall|k: int| 0 <= k < before.len() ==> (#[trigger] before[k]).span.end
            <= after[before.len() as int].span.start,
    ensures
        modules_in_order(after),
{
    assert forall|i: int, j: int| 0 <= i < j < after.len() implies (#[trigger] after[i]).span.end <= (
    #[trigger] after[j]).span.start by {
        assert(after[i] == before[i]);
        if j < before.len() {
            assert(after[j] == before[j]);
        }
    }
}

/// Parse source bytes into [`Module`] nodes.
///
/// This is the main entry point for parsing. A single source file may
/// contain multiple concatenated MIB modules (common in RFC files).
/// Each returned [`Module`] carries its own diagnostics.
pub fn parse(document: &SourceDocument, diag_config: &DiagnosticConfig) -> (modules: Vec<Module>)
    ensures
        modules@.len() >= 1,
        modules@[0].span.start == code_tokens(document.spec_bytes(), document.spec_id())[0].span.start,
        forall|k: int| 0 <= k < modules@.len() - 1 ==> adjacent(
            code_tokens(document.spec_bytes(), document.spec_id()),
            #[trigger] modules@[k],
            modules@[k + 1],
        ),
        forall|k: int| 0 <= k < modules@.len() ==> diagnostics_name_module(#[trigger] modules@[k]),
        forall|k: int| 0 <= k < modules@.len() - 1 ==> (#[trigger] modules@[k]).name is Some,
        forall|k: int|
            0 <= k < modules@.len() ==> (#[trigger] modules@[k]).span.source == document.spec_id()
                && modules@[k].span.start <= modules@[k].span.end <= document.spec_bytes().len(),
        modules_in_order(modules@),
        forall|k: int| 0 <= k < modules@.len() ==> name_at_module_start(
            document.spec_bytes(),
            #[trigger] modules@[k],
        ),
        reports_placed(
            modules@,
            lex_reports_from(document.spec_bytes(), document.spec_id(), *diag_config, 0),
        ),
        forall|k: int, j: int|
            0 <= k < modules@.len() && 0 <= j < code_tokens(document.spec_bytes(), document.spec_id()).len()
                && code_tokens(document.spec_bytes(), document.spec_id())[j].span.start
                == modules@[k].span.start ==> #[trigger] read_from_header(
                document.spec_bytes(),
                code_tokens(document.spec_bytes(), document.spec_id()),
                j,
                modules@[k],
            ),        forall|k: int| 0 <= k < modules@.len() - 1 ==> closed_by_end(
            code_tokens(document.spec_bytes(), document.spec_id()),
            #[trigger] modules@[k],
        ),
        forall|k: int| 0 < k < modules@.len() ==> (#[trigger] modules@[k]).span.start
            < code_tokens(document.spec_bytes(), document.spec_id()).last().span.start,
{
    let mut parser = Parser::new(document, diag_config);
    let ghost fresh = parser;
    let modules = parser.parse_modules();
    proof {
        let lex = fresh.spec_lexer_diagnostics();
        assert(lex.subrange(0, lex.len() as int) =~= lex);
    }
    proof {
        assert forall|k: int| 0 <= k < modules@.len() implies (#[trigger] modules@[k]).span.source
            == document.spec_id() && modules@[k].span.start <= modules@[k].span.end
            <= document.spec_bytes().len() by {
            parser.lemma_span_ok(modules@[k].span);
        }
    }
    modules
}

/// The access value of a clause is the one its keyword token spells: each
/// access keyword gives the value written as that keyword, so distinct
/// keywords give distinct values.
pub proof fn lemma_access_value_is_spelled_by_keyword(k1: TokenKind, k2: TokenKind)
    ensures
        access_of_kind(k1) matches Some(a) ==> a.spec_keyword_text() == k1.spec_display_name(),
        access_of_kind(k1) is Some && access_of_kind(k1) == access_of_kind(k2) ==> k1 == k2,
{
}

/// Every access value round-trips through the lexer and the parser: the word
/// that writes it lexes to a keyword whose access value it is.
pub proof fn lemma_access_word_round_trip(a: Access)
    ensures
        spec_keyword(a.spec_keyword_text().spec_bytes()) matches Some(k) && access_of_kind(k) == Some(a),
{
    let k = match a {
        Access::ReadOnly => TokenKind::KwReadOnly,
        Access::ReadWrite => TokenKind::KwReadWrite,
        Access::ReadCreate => TokenKind::KwReadCreate,
        Access::NotAccessible => TokenKind::KwNotAccessible,
        Access::AccessibleForNotify => TokenKind::KwAccessibleForNotify,
        Access::WriteOnly => TokenKind::KwWriteOnly,
        Access::NotImplemented => TokenKind::KwNotImplemented,
    };
    lemma_keyword_spelling_round_trip(k);
    assert(k.spec_display_name() == a.spec_keyword_text());
}

/// The status of a clause is the one its keyword token spells: each status
/// keyword gives the status written as that keyword, so distinct keywords
/// give distinct statuses.
pub proof fn lemma_status_value_is_spelled_by_keyword(k1: TokenKind, k2: TokenKind)
    ensures
        status_of_kind(k1) matches Some(v) ==> v.spec_keyword_text() == k1.spec_display_name(),
        status_of_kind(k1) is Some && status_of_kind(k1) == status_of_kind(k2) ==> k1 == k2,
{
}

/// The kind of an access clause is the one its keyword token spells: each
/// of ACCESS, MAX-ACCESS and MIN-ACCESS gives the kind written as that
/// keyword, so distinct keywords give distinct kinds.
pub proof fn lemma_access_keyword_is_spelled_by_keyword(k1: TokenKind, k2: TokenKind)
    ensures
        access_keyword_of_kind(k1) matches Some(v) ==> v.spec_keyword_text() == k1.spec_display_name(),
        access_keyword_of_kind(k1) is Some && access_keyword_of_kind(k1) == access_keyword_of_kind(k2)
            ==> k1 == k2,
{
}

/// Every status round-trips through the lexer and the parser: the word that
/// writes it lexes to a keyword whose status it is.
pub proof fn lemma_status_word_round_trip(v: Status)
    ensures
        spec_keyword(v.spec_keyword_text().spec_bytes()) matches Some(k) && status_of_kind(k) == Some(v),
{
    let k = match v {
        Status::Current => TokenKind::KwCurrent,
        Status::Deprecated => TokenKind::KwDeprecated,
        Status::Obsolete => TokenKind::KwObsolete,
        Status::Mandatory => TokenKind::KwMandatory,
        Status::Optional => TokenKind::KwOptional,
    };
    lemma_keyword_spelling_round_trip(k);
    assert(k.spec_display_name() == v.spec_keyword_text());
}

} // verus!
