use mib_rs::lexer::{tokenize_bytes, Token, TokenKind};
use mib_rs::source::SourceId;
use mib_rs::types::{DiagCode, DiagnosticConfig};

fn lex(input: &str, config: &DiagnosticConfig) -> (Vec<Token>, Vec<mib_rs::types::Diagnostic>) {
    tokenize_bytes(input.as_bytes(), SourceId(0), config)
}

fn kinds_and_ranges(tokens: &[Token]) -> Vec<(TokenKind, std::ops::Range<usize>)> {
    tokens.iter().map(|t| (t.kind, t.span.byte_range())).collect()
}

#[test]
fn comment_marker_ends_a_word() {
    let (tokens, diags) = lex("ab--c", &DiagnosticConfig::verbose());
    assert_eq!(
        kinds_and_ranges(&tokens),
        vec![
            (TokenKind::LowercaseIdent, 0..2),
            (TokenKind::Comment, 2..5),
            (TokenKind::Eof, 5..5),
        ]
    );
    assert!(diags.is_empty());
}

#[test]
fn comment_closes_at_second_marker_or_line_end() {
    let (tokens, _) = lex("-- a -- B\n-- c\nx", &DiagnosticConfig::verbose());
    assert_eq!(
        kinds_and_ranges(&tokens),
        vec![
            (TokenKind::Comment, 0..7),
            (TokenKind::UppercaseIdent, 8..9),
            (TokenKind::Comment, 10..14),
            (TokenKind::LowercaseIdent, 15..16),
            (TokenKind::Eof, 16..16),
        ]
    );
}

#[test]
fn numbers_punctuation_and_leading_zero() {
    let (tokens, diags) = lex("x ::= { 012 -3 .. 4 }", &DiagnosticConfig::verbose());
    assert_eq!(
        kinds_and_ranges(&tokens),
        vec![
            (TokenKind::LowercaseIdent, 0..1),
            (TokenKind::ColonColonEqual, 2..5),
            (TokenKind::LBrace, 6..7),
            (TokenKind::Number, 8..11),
            (TokenKind::NegativeNumber, 12..14),
            (TokenKind::DotDot, 15..17),
            (TokenKind::Number, 18..19),
            (TokenKind::RBrace, 20..21),
            (TokenKind::Eof, 21..21),
        ]
    );
    assert_eq!(diags.len(), 1);
    assert_eq!(diags[0].code, DiagCode::NumberLeadingZero);
    assert_eq!(diags[0].range.unwrap().byte_range(), 8..11);
}

#[test]
fn quoted_literals_and_their_errors() {
    let (tokens, diags) = lex("'0F'H 'x' '01'b \"open", &DiagnosticConfig::verbose());
    assert_eq!(
        kinds_and_ranges(&tokens),
        vec![
            (TokenKind::HexString, 0..5),
            (TokenKind::BinString, 10..15),
            (TokenKind::QuotedString, 16..21),
            (TokenKind::Eof, 21..21),
        ]
    );
    let reports: Vec<_> = diags.iter().map(|d| (d.code, d.range.unwrap().byte_range())).collect();
    assert_eq!(
        reports,
        vec![
            (DiagCode::InvalidStringLiteral, 6..9),
            (DiagCode::UnterminatedString, 16..21),
        ]
    );
}

#[test]
fn exports_body_is_skipped_up_to_its_semicolon() {
    let (tokens, _) = lex("EXPORTS a, b; END", &DiagnosticConfig::verbose());
    assert_eq!(
        kinds_and_ranges(&tokens),
        vec![
            (TokenKind::KwExports, 0..7),
            (TokenKind::Semicolon, 12..13),
            (TokenKind::KwEnd, 14..17),
            (TokenKind::Eof, 17..17),
        ]
    );
}

#[test]
fn unexpected_byte_is_reported_not_tokenized() {
    let (tokens, diags) = lex("a @ b", &DiagnosticConfig::verbose());
    assert_eq!(
        kinds_and_ranges(&tokens),
        vec![
            (TokenKind::LowercaseIdent, 0..1),
            (TokenKind::LowercaseIdent, 4..5),
            (TokenKind::Eof, 5..5),
        ]
    );
    assert_eq!(diags.len(), 1);
    assert_eq!(diags[0].code, DiagCode::UnexpectedCharacter);
    assert_eq!(diags[0].range.unwrap().byte_range(), 2..3);
}

#[test]
fn configuration_changes_reports_not_tokens() {
    let input = "x ::= 012 @";
    let (loud, loud_diags) = lex(input, &DiagnosticConfig::verbose());
    let (quiet, quiet_diags) = lex(input, &DiagnosticConfig::silent());
    assert_eq!(kinds_and_ranges(&loud), kinds_and_ranges(&quiet));
    assert_eq!(loud_diags.len(), 2);
    assert!(quiet_diags.is_empty());
}
