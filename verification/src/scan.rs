//! Heuristic scanning of raw MIB file bytes.
//!
//! Provides fast, pre-parse detection of module names and content checks
//! used by the loading pipeline to filter and index MIB files without
//! invoking the full parser.

use vstd::prelude::*;
use vstd::string::StringSliceAdditionalSpecFns;

use crate::lexer::{
    is_upper, is_word, lexed_tokens, token_shape, tokenize_bytes, Token, TokenKind,
};
use crate::source::SourceId;
use crate::text::{all_ascii, ascii_chars, string_from_ascii};
use crate::types::DiagnosticConfig;

verus! {

/// The index of the first token at or after `i` that is not a comment.
pub open spec fn next_code(ts: Seq<Token>, i: int) -> int
    decreases ts.len() - i,
{
    if 0 <= i < ts.len() && ts[i].kind == TokenKind::Comment {
        next_code(ts, i + 1)
    } else {
        i
    }
}

/// Skipping comments never moves backwards or past the end.
pub proof fn lemma_next_code_bounds(ts: Seq<Token>, i: int)
    requires
        0 <= i,
    ensures
        i <= next_code(ts, i),
        i <= ts.len() ==> next_code(ts, i) <= ts.len(),
    decreases ts.len() - i,
{
    if 0 <= i < ts.len() && ts[i].kind == TokenKind::Comment {
        lemma_next_code_bounds(ts, i + 1);
    }
}

/// Return the index of the first non-comment token at or after `i`.
fn next_scan_token(tokens: &Vec<Token>, i: usize) -> (r: usize)
    requires
        i <= tokens@.len(),
    ensures
        i <= r <= tokens@.len(),
        r == next_code(tokens@, i as int),
{
    let mut j = i;
    while j < tokens.len() && tokens[j].kind == TokenKind::Comment
        invariant
            i <= j <= tokens@.len(),
            next_code(tokens@, j as int) == next_code(tokens@, i as int),
        decreases tokens@.len() - j,
    {
        j = j + 1;
    }
    j
}

/// Where a brace group closes, scanning from `j` with `depth` braces open:
/// just after the `}` that closes the outermost one, or `None` when the
/// input ends first.
pub open spec fn brace_close(ts: Seq<Token>, j: int, depth: int) -> Option<int>
    decreases ts.len() - j,
{
    if j < 0 || j >= ts.len() {
        None
    } else if ts[j].kind == TokenKind::LBrace {
        brace_close(ts, j + 1, depth + 1)
    } else if ts[j].kind == TokenKind::RBrace {
        if depth <= 0 {
            None
        } else if depth == 1 {
            Some(j + 1)
        } else {
            brace_close(ts, j + 1, depth - 1)
        }
    } else if ts[j].kind == TokenKind::Eof {
        None
    } else {
        brace_close(ts, j + 1, depth)
    }
}

/// A brace group closes after where its scan starts.
pub proof fn lemma_brace_close_after(ts: Seq<Token>, j: int, depth: int)
    ensures
        brace_close(ts, j, depth) matches Some(a) ==> j < a <= ts.len(),
    decreases ts.len() - j,
{
    if 0 <= j < ts.len() {
        lemma_brace_close_after(ts, j + 1, depth + 1);
        lemma_brace_close_after(ts, j + 1, depth - 1);
        lemma_brace_close_after(ts, j + 1, depth);
    }
}

/// The position of the `BEGIN` of a module header `NAME [{ ... }]
/// DEFINITIONS ::= BEGIN` whose name is the token at `i`, comments skipped;
/// `None` when no such header starts there. The name is an uppercase-initial
/// identifier or reserved word.
pub open spec fn header_begin(bytes: Seq<u8>, ts: Seq<Token>, i: int) -> Option<int> {
    if !(ts[i].kind == TokenKind::UppercaseIdent || ts[i].kind == TokenKind::ForbiddenKeyword) {
        None
    } else {
        let j0 = next_code(ts, i + 1);
        let after_oid = if j0 < ts.len() && ts[j0].kind == TokenKind::LBrace {
            match brace_close(ts, j0, 0) {
                Some(a) => Some(next_code(ts, a)),
                None => None,
            }
        } else {
            Some(j0)
        };
        match after_oid {
            None => None,
            Some(j) => if j >= ts.len() || ts[j].kind != TokenKind::KwDefinitions {
                None
            } else {
                let j2 = next_code(ts, j + 1);
                if j2 >= ts.len() || ts[j2].kind != TokenKind::ColonColonEqual {
                    None
                } else {
                    let j3 = next_code(ts, j2 + 1);
                    if j3 >= ts.len() || ts[j3].kind != TokenKind::KwBegin {
                        None
                    } else if !is_upper(bytes[ts[i].span.start as int]) {
                        None
                    } else {
                        Some(j3)
                    }
                }
            },
        }
    }
}

/// A header's `BEGIN` comes after its name and inside the token list.
pub proof fn lemma_header_begin_after(bytes: Seq<u8>, ts: Seq<Token>, i: int)
    requires
        0 <= i < ts.len(),
    ensures
        header_begin(bytes, ts, i) matches Some(b) ==> i < b < ts.len(),
{
    lemma_next_code_bounds(ts, i + 1);
    let j0 = next_code(ts, i + 1);
    if j0 < ts.len() && ts[j0].kind == TokenKind::LBrace {
        lemma_brace_close_after(ts, j0, 0);
        if let Some(a) = brace_close(ts, j0, 0) {
            lemma_next_code_bounds(ts, a);
        }
    }
    if let Some(_) = header_begin(bytes, ts, i) {
        let j = if j0 < ts.len() && ts[j0].kind == TokenKind::LBrace {
            next_code(ts, brace_close(ts, j0, 0)->0)
        } else {
            j0
        };
        lemma_next_code_bounds(ts, j + 1);
        lemma_next_code_bounds(ts, next_code(ts, j + 1) + 1);
    }
}

/// The module names that scanning reports from token `i` on, given whether
/// a module body is open and whether a MACRO's `END` is still due: a name
/// for each module header met outside a module body, until the first token
/// outside a body that does not open one.
pub open spec fn scan_from(bytes: Seq<u8>, ts: Seq<Token>, i: int, in_module: bool, pending: bool) -> Seq<Seq<char>>
    decreases ts.len() - i,
{
    if i < 0 || i >= ts.len() || ts[i].kind == TokenKind::Eof {
        Seq::empty()
    } else if in_module {
        proof {
            lemma_next_code_bounds(ts, i + 1);
        }
        let n = next_code(ts, i + 1);
        if ts[i].kind == TokenKind::KwMacro {
            scan_from(bytes, ts, n, true, true)
        } else if ts[i].kind == TokenKind::KwEnd {
            if pending {
                scan_from(bytes, ts, n, true, false)
            } else {
                scan_from(bytes, ts, n, false, false)
            }
        } else {
            scan_from(bytes, ts, n, true, pending)
        }
    } else {
        match header_begin(bytes, ts, i) {
            Some(b) => {
                proof {
                    lemma_header_begin_after(bytes, ts, i);
                    lemma_next_code_bounds(ts, b + 1);
                }
                seq![ascii_chars(bytes.subrange(ts[i].span.start as int, ts[i].span.end as int))]
                    + scan_from(bytes, ts, next_code(ts, b + 1), true, false)
            },
            None => Seq::empty(),
        }
    }
}

/// The module names scanning `content` reports, in order.
pub open spec fn scanned_names(content: Seq<u8>) -> Seq<Seq<char>> {
    let ts = lexed_tokens(content, SourceId(0));
    scan_from(content, ts, next_code(ts, 0), false, false)
}

/// Every name is the text of an uppercase identifier or reserved word of the
/// token list.
pub open spec fn names_are_word_texts(bytes: Seq<u8>, ts: Seq<Token>, names: Seq<Seq<char>>) -> bool {
    forall|k: int|
        0 <= k < names.len() ==> exists|j: int|
            0 <= j < ts.len() && (ts[j].kind == TokenKind::UppercaseIdent || ts[j].kind
                == TokenKind::ForbiddenKeyword) && #[trigger] names[k] == ascii_chars(
                bytes.subrange(ts[j].span.start as int, ts[j].span.end as int),
            )
}

/// Every name a scan reports is the text of an uppercase identifier or
/// reserved word of the token list; comments, quoted strings and other
/// tokens never advertise a module.
pub proof fn lemma_scan_names_are_word_texts(
    bytes: Seq<u8>,
    ts: Seq<Token>,
    i: int,
    in_module: bool,
    pending: bool,
)
    ensures
        names_are_word_texts(bytes, ts, scan_from(bytes, ts, i, in_module, pending)),
    decreases ts.len() - i,
{
    let all = scan_from(bytes, ts, i, in_module, pending);
    if i < 0 || i >= ts.len() || ts[i].kind == TokenKind::Eof {
        assert(all.len() == 0);
    } else {
        lemma_next_code_bounds(ts, i + 1);
        let n = next_code(ts, i + 1);
        if in_module {
            let flags: (bool, bool) = if ts[i].kind == TokenKind::KwMacro {
                (true, true)
            } else if ts[i].kind == TokenKind::KwEnd {
                if pending {
                    (true, false)
                } else {
                    (false, false)
                }
            } else {
                (true, pending)
            };
            lemma_scan_names_are_word_texts(bytes, ts, n, flags.0, flags.1);
            assert(all == scan_from(bytes, ts, n, flags.0, flags.1));
        } else {
            match header_begin(bytes, ts, i) {
                Some(b) => {
                    lemma_header_begin_after(bytes, ts, i);
                    lemma_next_code_bounds(ts, b + 1);
                    let rest = scan_from(bytes, ts, next_code(ts, b + 1), true, false);
                    lemma_scan_names_are_word_texts(bytes, ts, next_code(ts, b + 1), true, false);
                    let first = ascii_chars(bytes.subrange(ts[i].span.start as int, ts[i].span.end as int));
                    assert(all == seq![first] + rest);
                    assert forall|k: int| 0 <= k < all.len() implies exists|j: int|
                        0 <= j < ts.len() && (ts[j].kind == TokenKind::UppercaseIdent || ts[j].kind
                            == TokenKind::ForbiddenKeyword) && #[trigger] all[k] == ascii_chars(
                            bytes.subrange(ts[j].span.start as int, ts[j].span.end as int),
                        ) by {
                        if k == 0 {
                            assert(all[0] == first);
                        } else {
                            assert(all[k] == rest[k - 1]);
                        }
                    }
                },
                None => {
                    assert(all.len() == 0);
                },
            }
        }
    }
}

/// The names a scan of `content` reports are texts of uppercase identifiers
/// or reserved words of the content.
pub proof fn lemma_scanned_names_are_word_texts(content: Seq<u8>)
    ensures
        names_are_word_texts(content, lexed_tokens(content, SourceId(0)), scanned_names(content)),
{
    let ts = lexed_tokens(content, SourceId(0));
    lemma_scan_names_are_word_texts(content, ts, next_code(ts, 0), false, false);
}

/// The texts of a list of names.
pub open spec fn name_texts(names: Seq<String>) -> Seq<Seq<char>> {
    names.map_values(|n: String| n@)
}

/// Bytes of a word are ASCII.
proof fn lemma_word_ascii(content: Seq<u8>, s: int, e: int)
    requires
        is_word(content, s, e),
    ensures
        all_ascii(content.subrange(s, e)),
{
    assert forall|i: int| 0 <= i < content.subrange(s, e).len() implies content.subrange(
        s,
        e,
    )[i] < 0x80 by {
        assert(crate::lexer::is_word_byte(content[s + i]));
    }
}

/// Return the position of the `BEGIN` of the module header whose name is
/// the token at `i`, if one starts there.
fn header_at(content: &[u8], tokens: &Vec<Token>, i: usize) -> (r: Option<usize>)
    requires
        i < tokens@.len(),
        forall|k: int| 0 <= k < tokens@.len() ==> token_shape(content@, #[trigger] tokens@[k]),
    ensures
        r matches Some(b) ==> header_begin(content@, tokens@, i as int) == Some(b as int),
        r is None ==> header_begin(content@, tokens@, i as int) is None,
{
    let ghost ts = tokens@;
    let n = tokens.len();
    let token = tokens[i];
    if !(token.kind == TokenKind::UppercaseIdent || token.kind == TokenKind::ForbiddenKeyword) {
        return None;
    }
    let mut j = next_scan_token(tokens, i + 1);
    let ghost j0 = j as int;
    // Some old ASN.1 modules include an obsolete module OID between
    // the module name and DEFINITIONS.
    if j < tokens.len() && tokens[j].kind == TokenKind::LBrace {
        let mut depth: usize = 0;
        let mut closed = false;
        while j < tokens.len()
            invariant_except_break
                !closed,
                brace_close(ts, j as int, depth as int) == brace_close(ts, j0, 0),
            invariant
                ts == tokens@,
                0 <= j0 <= j <= ts.len(),
                depth <= j - j0,
            ensures
                closed ==> brace_close(ts, j0, 0) == Some(j as int),
                !closed ==> brace_close(ts, j0, 0) is None,
            decreases ts.len() - j,
        {
            let k = tokens[j].kind;
            if k == TokenKind::LBrace {
                depth = depth + 1;
            } else if k == TokenKind::RBrace {
                if depth == 0 {
                    break;
                }
                depth = depth - 1;
                if depth == 0 {
                    j = j + 1;
                    closed = true;
                    break;
                }
            } else if k == TokenKind::Eof {
                break;
            }
            j = j + 1;
        }
        if !closed {
            return None;
        }
        j = next_scan_token(tokens, j);
    }
    if j >= tokens.len() || tokens[j].kind != TokenKind::KwDefinitions {
        return None;
    }
    j = next_scan_token(tokens, j + 1);
    if j >= tokens.len() || tokens[j].kind != TokenKind::ColonColonEqual {
        return None;
    }
    j = next_scan_token(tokens, j + 1);
    if j >= tokens.len() || tokens[j].kind != TokenKind::KwBegin {
        return None;
    }
    let s = token.span.start;
    proof {
        assert(token_shape(content@, ts[i as int]));
    }
    if !(0x41 <= content[s] && content[s] <= 0x5a) {
        return None;
    }
    Some(j)
}

/// Scans raw MIB file bytes for module names.
///
/// Finds token sequences forming `NAME DEFINITIONS ::= BEGIN` module headers
/// without performing a full parse. Comments and quoted strings cannot
/// advertise modules. Module names must start with an uppercase letter per
/// ASN.1 conventions; reserved uppercase keywords are retained as candidates
/// because the parser accepts them with a configurable diagnostic. Obsolete
/// module OIDs between the name and `DEFINITIONS` are accepted.
///
/// Returns an empty `Vec` if no module headers are found. A single MIB
/// file may contain multiple modules, in which case all names are returned
/// in the order they appear.
pub fn scan_module_names(content: &[u8]) -> (names: Vec<String>)
    ensures
        name_texts(names@) == scanned_names(content@),
{
    let config = DiagnosticConfig::silent();
    let (tokens, _) = tokenize_bytes(content, SourceId(0), &config);
    let ghost ts = tokens@;
    let mut names: Vec<String> = Vec::new();
    let mut i = next_scan_token(&tokens, 0);
    let mut in_module = false;
    let mut macro_end_pending = false;
    let ghost total = scan_from(content@, ts, i as int, false, false);
    proof {
        assert(name_texts(names@) + total =~= total);
    }
    while i < tokens.len()
        invariant
            ts == tokens@,
            forall|k: int| 0 <= k < ts.len() ==> token_shape(content@, #[trigger] ts[k]),
            i <= ts.len(),
            !in_module ==> !macro_end_pending,
            name_texts(names@) + scan_from(content@, ts, i as int, in_module, macro_end_pending) == total,
        ensures
            name_texts(names@) == total,
        decreases ts.len() - i,
    {
        let ghost before = name_texts(names@);
        let token = tokens[i];
        if token.kind == TokenKind::Eof {
            proof {
                assert(name_texts(names@) =~= name_texts(names@) + Seq::<Seq<char>>::empty());
            }
            break;
        }
        if in_module {
            if token.kind == TokenKind::KwMacro {
                macro_end_pending = true;
            } else if token.kind == TokenKind::KwEnd {
                if macro_end_pending {
                    macro_end_pending = false;
                } else {
                    in_module = false;
                }
            }
            i = next_scan_token(&tokens, i + 1);
            continue;
        }
        // The parser only begins a module at the first significant token or
        // directly after the preceding module's END. If a header cannot be
        // parsed there, parsing stops and later header-shaped text is not
        // loadable either.
        let ghost at = i as int;
        let begin = match header_at(content, &tokens, i) {
            Some(b) => b,
            None => {
                proof {
                    assert(name_texts(names@) =~= name_texts(names@) + Seq::<Seq<char>>::empty());
                }
                break;
            },
        };
        let s = token.span.start;
        let e = token.span.end;
        proof {
            assert(token_shape(content@, ts[i as int]));
            lemma_word_ascii(content@, s as int, e as int);
            lemma_header_begin_after(content@, ts, at);
        }
        let text = &content[s..e];
        assert(text@ == content@.subrange(s as int, e as int));
        let name = string_from_ascii(text);
        let ghost old_names = names@;
        names.push(name);
        proof {
            assert(name_texts(names@) =~= name_texts(old_names).push(name@));
        }
        in_module = true;
        i = next_scan_token(&tokens, begin + 1);
        proof {
            assert(name_texts(names@) + scan_from(content@, ts, i as int, in_module, macro_end_pending)
                =~= before + scan_from(content@, ts, at, false, false));
        }
    }
    proof {
        assert(total == scanned_names(content@));
    }
    names
}

/// The first-byte signature checks of [`looks_like_mib_content`].
pub open spec fn occurs_at(haystack: Seq<u8>, needle: Seq<u8>, i: int) -> bool {
    0 <= i && i + needle.len() <= haystack.len() && haystack.subrange(i, i + needle.len())
        == needle
}

/// `needle` occurs somewhere in `haystack`.
pub open spec fn occurs_in(haystack: Seq<u8>, needle: Seq<u8>) -> bool {
    exists|i: int| occurs_at(haystack, needle, i)
}

/// Find the first occurrence of needle in haystack.
fn find_bytes(haystack: &[u8], needle: &[u8]) -> (r: Option<usize>)
    requires
        needle@.len() > 0,
    ensures
        r matches Some(i) ==> occurs_at(haystack@, needle@, i as int) && forall|k: int|
            0 <= k < i ==> !occurs_at(haystack@, needle@, k),
        r is None ==> !occurs_in(haystack@, needle@),
{
    if needle.len() > haystack.len() {
        assert forall|k: int| !occurs_at(haystack@, needle@, k) by {}
        return None;
    }
    let last = haystack.len() - needle.len();
    let mut i: usize = 0;
    while i <= last
        invariant
            last == haystack@.len() - needle@.len(),
            needle@.len() <= haystack@.len(),
            needle@.len() > 0,
            haystack@.len() <= usize::MAX,
            0 <= i <= last + 1,
            forall|k: int| 0 <= k < i ==> !occurs_at(haystack@, needle@, k),
        decreases last + 1 - i,
    {
        let mut j: usize = 0;
        let mut matched = true;
        while j < needle.len()
            invariant
                i <= last,
                needle@.len() <= haystack@.len(),
                haystack@.len() <= usize::MAX,
                last == haystack@.len() - needle@.len(),
                0 <= j <= needle@.len(),
                matched ==> forall|m: int| 0 <= m < j ==> haystack@[i + m] == needle@[m],
                !matched ==> !occurs_at(haystack@, needle@, i as int),
            decreases needle@.len() - j,
        {
            if haystack[i + j] != needle[j] {
                matched = false;
                assert(haystack@.subrange(i as int, i + needle@.len())[j as int] != needle@[j as int]);
                j = needle.len();
            } else {
                j = j + 1;
            }
        }
        if matched {
            assert(haystack@.subrange(i as int, i + needle@.len()) =~= needle@);
            return Some(i);
        }
        i = i + 1;
    }
    assert forall|k: int| !occurs_at(haystack@, needle@, k) by {
        if 0 <= k < i {
        }
    }
    None
}

/// The prefix of `content` that is probed: at most 128 KiB.
pub open spec fn probe_of(content: Seq<u8>) -> Seq<u8> {
    content.subrange(0, if content.len() < 131072 { content.len() as int } else { 131072 })
}

/// Heuristic check for whether content looks like a MIB file.
///
/// Returns `false` for empty input, binary content (contains null bytes),
/// or content missing the `DEFINITIONS` and `::=` signatures. Only the
/// first 128 KB is probed.
pub fn looks_like_mib_content(content: &[u8]) -> (r: bool)
    ensures
        r == (content@.len() > 0 && !probe_of(content@).contains(0u8) && occurs_in(
            probe_of(content@),
            "DEFINITIONS".spec_bytes(),
        ) && occurs_in(probe_of(content@), "::=".spec_bytes())),
{
    if content.len() == 0 {
        return false;
    }
    let probe_len = if content.len() < 131072 { content.len() } else { 131072 };
    let probe = &content[0..probe_len];
    assert(probe@ == probe_of(content@));
    let mut i: usize = 0;
    while i < probe.len()
        invariant
            0 <= i <= probe@.len(),
            probe@ == probe_of(content@),
            forall|k: int| 0 <= k < i ==> probe@[k] != 0u8,
        decreases probe@.len() - i,
    {
        if probe[i] == 0 {
            assert(probe@ == probe_of(content@));
            assert(probe_of(content@)[i as int] == 0u8);
            return false;
        }
        i = i + 1;
    }
    assert(probe@ == probe_of(content@));
    let definitions = "DEFINITIONS".as_bytes();
    let assign = "::=".as_bytes();
    proof {
        reveal_strlit("DEFINITIONS");
        reveal_strlit("::=");
        vstd::string::is_ascii_spec_bytes("DEFINITIONS");
        vstd::string::is_ascii_spec_bytes("::=");
    }
    find_bytes(probe, definitions).is_some() && find_bytes(probe, assign).is_some()
}

} // verus!
