//! System MIB path lists for net-snmp and libsmi.
//!
//! Reads the path-list syntax of net-snmp (`mibdirs` directives and the
//! `MIBDIRS` variable) and libsmi (`path` directives and the `SMIPATH`
//! variable) and combines path lists the way those tools do. The file and
//! environment reads around it are done by the caller.

use vstd::prelude::*;
use vstd::string::*;

use crate::text::{replace_all, replace_str, str_equal};

verus! {

/// How a directive's paths combine with the current list.
#[derive(Clone, Copy, Debug, PartialEq, Eq, Structural)]
pub enum PathOp {
    /// The paths replace the list.
    Replace,
    /// The paths go after the list.
    Append,
    /// The paths go before the list.
    Prepend,
}

/// A Unicode white-space character (the `White_Space` property that
/// `char::is_whitespace` tests).
pub open spec fn is_ws(c: char) -> bool {
    ||| c == '\t'
    ||| c == '\n'
    ||| c == '\u{b}'
    ||| c == '\u{c}'
    ||| c == '\r'
    ||| c == ' '
    ||| c == '\u{85}'
    ||| c == '\u{a0}'
    ||| c == '\u{1680}'
    ||| ('\u{2000}' <= c && c <= '\u{200a}')
    ||| c == '\u{2028}'
    ||| c == '\u{2029}'
    ||| c == '\u{202f}'
    ||| c == '\u{205f}'
    ||| c == '\u{3000}'
}

fn char_is_ws(c: char) -> (r: bool)
    ensures
        r == is_ws(c),
{
    c == '\t' || c == '\n' || c == '\u{b}' || c == '\u{c}' || c == '\r' || c == ' ' || c
        == '\u{85}' || c == '\u{a0}' || c == '\u{1680}' || ('\u{2000}' <= c && c <= '\u{200a}')
        || c == '\u{2028}' || c == '\u{2029}' || c == '\u{202f}' || c == '\u{205f}' || c
        == '\u{3000}'
}

/// The first position at or after `i` that is not white space.
pub open spec fn skip_ws(s: Seq<char>, i: int) -> int
    decreases s.len() - i,
{
    if 0 <= i < s.len() && is_ws(s[i]) {
        skip_ws(s, i + 1)
    } else {
        i
    }
}

/// The first position at or after `i` that is white space (or the end).
pub open spec fn token_end(s: Seq<char>, i: int) -> int
    decreases s.len() - i,
{
    if 0 <= i < s.len() && !is_ws(s[i]) {
        token_end(s, i + 1)
    } else {
        i
    }
}

fn skip_ws_from(s: &str, n: usize, i: usize) -> (r: usize)
    requires
        n == s@.len(),
        i <= n,
    ensures
        r == skip_ws(s@, i as int),
        i <= r <= n,
        r < n ==> !is_ws(s@[r as int]),
{
    let mut j = i;
    while j < n && char_is_ws(s.get_char(j))
        invariant
            n == s@.len(),
            i <= j <= n,
            skip_ws(s@, j as int) == skip_ws(s@, i as int),
        decreases n - j,
    {
        j = j + 1;
    }
    j
}

fn token_end_from(s: &str, n: usize, i: usize) -> (r: usize)
    requires
        n == s@.len(),
        i <= n,
    ensures
        r == token_end(s@, i as int),
        i <= r <= n,
        i < n && !is_ws(s@[i as int]) ==> r > i,
{
    let mut j = i;
    while j < n && !char_is_ws(s.get_char(j))
        invariant
            n == s@.len(),
            i <= j <= n,
            token_end(s@, j as int) == token_end(s@, i as int),
        decreases n - j,
    {
        j = j + 1;
    }
    j
}

/// The first two white-space separated words of a line that is neither
/// blank nor a `#` comment: `(directive, value)`; `None` for a blank or
/// comment line, and `Some((directive, None))` when no second word exists.
pub open spec fn line_words(s: Seq<char>) -> Option<(Seq<char>, Option<Seq<char>>)> {
    let s1 = skip_ws(s, 0);
    if s1 >= s.len() || s[s1] == '#' {
        None
    } else {
        let e1 = token_end(s, s1);
        let s2 = skip_ws(s, e1);
        Some(
            (
                s.subrange(s1, e1),
                if s2 >= s.len() {
                    None
                } else {
                    Some(s.subrange(s2, token_end(s, s2)))
                },
            ),
        )
    }
}

/// Split a line into its directive and first value word.
fn line_words_of(line: &str) -> (r: Option<(&str, Option<&str>)>)
    ensures
        match line_words(line@) {
            None => r is None,
            Some((d, v)) => r matches Some((rd, rv)) && rd@ == d && rd@.len() > 0 && match v {
                None => rv is None,
                Some(vv) => rv matches Some(x) && x@ == vv,
            },
        },
{
    let n = line.unicode_len();
    let s1 = skip_ws_from(line, n, 0);
    if s1 >= n || line.get_char(s1) == '#' {
        return None;
    }
    let e1 = token_end_from(line, n, s1);
    let directive = line.substring_char(s1, e1);
    let s2 = skip_ws_from(line, n, e1);
    if s2 >= n {
        return Some((directive, None));
    }
    let e2 = token_end_from(line, n, s2);
    Some((directive, Some(line.substring_char(s2, e2))))
}

/// The position of the last `c` in `s`, or -1.
pub open spec fn last_index(s: Seq<char>, c: char) -> int
    decreases s.len(),
{
    if s.len() == 0 {
        -1
    } else if s.last() == c {
        s.len() - 1
    } else {
        last_index(s.drop_last(), c)
    }
}

/// The non-empty pieces of `s` between `:` separators, in order.
pub open spec fn split_nonempty(s: Seq<char>) -> Seq<Seq<char>>
    decreases s.len(),
{
    let i = last_index(s, ':');
    let tail = s.subrange(i + 1, s.len() as int);
    let tail_piece = if tail.len() > 0 {
        seq![tail]
    } else {
        Seq::empty()
    };
    if i < 0 {
        tail_piece
    } else {
        proof {
            lemma_last_index_bounds(s, ':');
        }
        split_nonempty(s.subrange(0, i)) + tail_piece
    }
}

/// The texts of a list of strings.
pub open spec fn views_of(v: Seq<String>) -> Seq<Seq<char>> {
    v.map_values(|s: String| s@)
}

/// `last_index` names a position of `c` with no `c` after it, or -1.
pub proof fn lemma_last_index_bounds(s: Seq<char>, c: char)
    ensures
        -1 <= last_index(s, c) < s.len(),
        last_index(s, c) >= 0 ==> s[last_index(s, c)] == c,
        forall|k: int| last_index(s, c) < k < s.len() ==> s[k] != c,
    decreases s.len(),
{
    if s.len() > 0 && s.last() != c {
        lemma_last_index_bounds(s.drop_last(), c);
        assert forall|k: int| last_index(s, c) < k < s.len() implies s[k] != c by {
            if k < s.len() - 1 {
                assert(s.drop_last()[k] == s[k]);
            }
        }
    }
}

proof fn lemma_last_index_of_prefix(s: Seq<char>, c: char, start: int, i: int)
    requires
        0 <= start <= i <= s.len(),
        start == 0 || s[start - 1] == c,
        forall|k: int| start <= k < i ==> s[k] != c,
    ensures
        last_index(s.subrange(0, i), c) == start - 1,
    decreases i - start,
{
    let t = s.subrange(0, i);
    if i > start {
        assert(t.drop_last() =~= s.subrange(0, i - 1));
        lemma_last_index_of_prefix(s, c, start, i - 1);
    } else if start > 0 {
        assert(t.last() == c);
    } else {
        assert(t.len() == 0);
    }
}

/// Split a path list on the `:` separator, dropping empty entries.
pub fn split_paths(s: &str) -> (r: Vec<String>)
    ensures
        views_of(r@) == split_nonempty(s@),
{
    let n = s.unicode_len();
    let mut out: Vec<String> = Vec::new();
    let mut start: usize = 0;
    let mut i: usize = 0;
    while i < n
        invariant
            n == s@.len(),
            0 <= start <= i <= n,
            start == 0 || s@[start - 1] == ':',
            forall|k: int| start <= k < i ==> s@[k] != ':',
            start == 0 ==> views_of(out@) == Seq::<Seq<char>>::empty(),
            start > 0 ==> views_of(out@) == split_nonempty(s@.subrange(0, start - 1)),
        decreases n - i,
    {
        if s.get_char(i) == ':' {
            proof {
                lemma_last_index_of_prefix(s@, ':', start as int, i as int);
                let t = s@.subrange(0, i as int);
                assert(t.subrange(start - 1 + 1, t.len() as int) =~= s@.subrange(
                    start as int,
                    i as int,
                ));
                if start > 0 {
                    assert(t.subrange(0, start - 1) =~= s@.subrange(0, start - 1));
                }
            }
            if start < i {
                let piece = s.substring_char(start, i);
                let ghost before = out@;
                out.push(String::from_str(piece));
                proof {
                    assert(views_of(out@) =~= views_of(before) + seq![s@.subrange(start as int, i as int)]);
                }
            } else {
                proof {
                    assert(views_of(out@) =~= views_of(out@) + Seq::<Seq<char>>::empty());
                }
            }
            start = i + 1;
        }
        i = i + 1;
    }
    proof {
        lemma_last_index_of_prefix(s@, ':', start as int, n as int);
        assert(s@.subrange(0, n as int) =~= s@);
        assert(s@.subrange(start - 1 + 1, s@.len() as int) =~= s@.subrange(start as int, n as int));
        if start > 0 {
            assert(s@.subrange(0, start - 1) =~= s@.subrange(0, start - 1));
        }
    }
    if start < n {
        let piece = s.substring_char(start, n);
        let ghost before = out@;
        out.push(String::from_str(piece));
        proof {
            assert(views_of(out@) =~= views_of(before) + seq![s@.subrange(start as int, n as int)]);
        }
    } else {
        proof {
            assert(views_of(out@) =~= views_of(out@) + Seq::<Seq<char>>::empty());
        }
    }
    out
}

/// `s` without its first character when that is `c`.
pub open spec fn strip_first(s: Seq<char>, c: char) -> Option<Seq<char>> {
    if s.len() > 0 && s[0] == c {
        Some(s.drop_first())
    } else {
        None
    }
}

fn strip_first_char<'a>(s: &'a str, c: char) -> (r: Option<&'a str>)
    ensures
        match strip_first(s@, c) {
            Some(t) => r matches Some(x) && x@ == t,
            None => r is None,
        },
{
    let n = s.unicode_len();
    if n > 0 && s.get_char(0) == c {
        Some(s.substring_char(1, n))
    } else {
        None
    }
}

/// A net-snmp path value: `+paths` appends, `-paths` prepends, anything
/// else replaces.
pub open spec fn netsnmp_value(v: Seq<char>) -> (PathOp, Seq<Seq<char>>) {
    match strip_first(v, '+') {
        Some(rest) => (PathOp::Append, split_nonempty(rest)),
        None => match strip_first(v, '-') {
            Some(rest) => (PathOp::Prepend, split_nonempty(rest)),
            None => (PathOp::Replace, split_nonempty(v)),
        },
    }
}

fn parse_netsnmp_value(value: &str) -> (r: (PathOp, Vec<String>))
    ensures
        r.0 == netsnmp_value(value@).0,
        views_of(r.1@) == netsnmp_value(value@).1,
{
    if let Some(rest) = strip_first_char(value, '+') {
        (PathOp::Append, split_paths(rest))
    } else if let Some(rest) = strip_first_char(value, '-') {
        (PathOp::Prepend, split_paths(rest))
    } else {
        (PathOp::Replace, split_paths(value))
    }
}

/// What a net-snmp config line contributes: a `mibdirs` directive with a
/// value (whose `+`/`-` prefix selects append/prepend), or `+mibdirs` /
/// `-mibdirs`; nothing for blank, comment or other lines.
pub open spec fn spec_netsnmp_line(line: Seq<char>) -> Option<(PathOp, Seq<Seq<char>>)> {
    match line_words(line) {
        Some((directive, Some(value))) => if directive == "mibdirs"@ {
            Some(netsnmp_value(value))
        } else if directive == "+mibdirs"@ {
            Some((PathOp::Append, split_nonempty(value)))
        } else if directive == "-mibdirs"@ {
            Some((PathOp::Prepend, split_nonempty(value)))
        } else {
            None
        },
        _ => None,
    }
}

/// Parse one line of a net-snmp configuration file.
pub fn parse_netsnmp_line(line: &str) -> (r: Option<(PathOp, Vec<String>)>)
    ensures
        match spec_netsnmp_line(line@) {
            Some((op, dirs)) => r matches Some((rop, rdirs)) && rop == op && views_of(rdirs@) == dirs,
            None => r is None,
        },
{
    let (directive, value) = match line_words_of(line) {
        Some((d, Some(v))) => (d, v),
        _ => return None,
    };
    if str_equal(directive, "mibdirs") {
        Some(parse_netsnmp_value(value))
    } else if str_equal(directive, "+mibdirs") {
        Some((PathOp::Append, split_paths(value)))
    } else if str_equal(directive, "-mibdirs") {
        Some((PathOp::Prepend, split_paths(value)))
    } else {
        None
    }
}

/// A libsmi path value: a leading separator appends, a trailing one
/// prepends, neither replaces.
pub open spec fn colon_semantic(v: Seq<char>) -> (PathOp, Seq<Seq<char>>) {
    if v.len() > 0 && v[0] == ':' {
        (PathOp::Append, split_nonempty(v.drop_first()))
    } else if v.len() > 0 && v.last() == ':' {
        (PathOp::Prepend, split_nonempty(v.drop_last()))
    } else {
        (PathOp::Replace, split_nonempty(v))
    }
}

/// Interpret the leading/trailing path-separator semantics used by libsmi.
pub fn parse_colon_semantic(value: &str) -> (r: (PathOp, Vec<String>))
    ensures
        r.0 == colon_semantic(value@).0,
        views_of(r.1@) == colon_semantic(value@).1,
{
    let n = value.unicode_len();
    if n > 0 && value.get_char(0) == ':' {
        (PathOp::Append, split_paths(value.substring_char(1, n)))
    } else if n > 0 && value.get_char(n - 1) == ':' {
        (PathOp::Prepend, split_paths(value.substring_char(0, n - 1)))
    } else {
        (PathOp::Replace, split_paths(value))
    }
}

/// What a libsmi config line contributes: a `path` directive with a value;
/// nothing for blank, comment, tagged (`tool:`) or other lines.
pub open spec fn spec_libsmi_line(line: Seq<char>) -> Option<(PathOp, Seq<Seq<char>>)> {
    match line_words(line) {
        Some((directive, value)) => if directive.last() == ':' || directive != "path"@ {
            None
        } else {
            match value {
                Some(v) => Some(colon_semantic(v)),
                None => None,
            }
        },
        None => None,
    }
}

/// Parse one line of a libsmi configuration file.
pub fn parse_libsmi_line(line: &str) -> (r: Option<(PathOp, Vec<String>)>)
    ensures
        match spec_libsmi_line(line@) {
            Some((op, dirs)) => r matches Some((rop, rdirs)) && rop == op && views_of(rdirs@) == dirs,
            None => r is None,
        },
{
    let (directive, value) = match line_words_of(line) {
        Some(words) => words,
        None => return None,
    };
    let n = directive.unicode_len();
    if directive.get_char(n - 1) == ':' {
        return None;
    }
    if !str_equal(directive, "path") {
        return None;
    }
    match value {
        Some(v) => Some(parse_colon_semantic(v)),
        None => None,
    }
}

/// Combine a path list with a directive's paths.
pub open spec fn spec_apply_op<T>(op: PathOp, dirs: Seq<T>, current: Seq<T>) -> Seq<T> {
    match op {
        PathOp::Append => current + dirs,
        PathOp::Prepend => dirs + current,
        PathOp::Replace => dirs,
    }
}

/// Combine the current path list with a directive's paths.
pub fn apply_op(op: PathOp, dirs: Vec<String>, current: Vec<String>) -> (r: Vec<String>)
    ensures
        r@ == spec_apply_op(op, dirs@, current@),
{
    match op {
        PathOp::Append => {
            let mut current = current;
            let mut dirs = dirs;
            current.append(&mut dirs);
            current
        },
        PathOp::Prepend => {
            let mut dirs = dirs;
            let mut current = current;
            dirs.append(&mut current);
            dirs
        },
        PathOp::Replace => dirs,
    }
}

/// Replace every literal `$HOME` in the paths by the home directory, as
/// net-snmp does; no other expansion happens. Without a home directory
/// the paths are unchanged.
pub fn expand_netsnmp_home(paths: Vec<String>, home: Option<&str>) -> (r: Vec<String>)
    ensures
        home is None ==> r@ == paths@,
        home matches Some(h) ==> r@.len() == paths@.len() && forall|k: int|
            0 <= k < r@.len() ==> (#[trigger] r@[k])@ == replace_all(paths@[k]@, "$HOME"@, h@),
{
    let h = match home {
        None => return paths,
        Some(h) => h,
    };
    let mut out: Vec<String> = Vec::new();
    let mut i: usize = 0;
    while i < paths.len()
        invariant
            0 <= i <= paths@.len(),
            out@.len() == i,
            forall|k: int| 0 <= k < i ==> (#[trigger] out@[k])@ == replace_all(paths@[k]@, "$HOME"@, h@),
        decreases paths@.len() - i,
    {
        out.push(replace_str(paths[i].as_str(), "$HOME", h));
        i = i + 1;
    }
    out
}

/// Apply a `MIBDIRS` value to the current net-snmp path list: its
/// `+`/`-` prefix selects append/prepend, and `$HOME` is expanded.
pub fn apply_netsnmp_env(value: &str, current: Vec<String>, home: Option<&str>) -> (r: Vec<String>)
    ensures
        ({
            let (op, dirs) = netsnmp_value(value@);
            let expanded = match home {
                Some(h) => dirs.map_values(|d: Seq<char>| replace_all(d, "$HOME"@, h@)),
                None => dirs,
            };
            views_of(r@) == spec_apply_op(op, expanded, views_of(current@))
        }),
{
    let (op, dirs) = parse_netsnmp_value(value);
    let expanded = expand_netsnmp_home(dirs, home);
    let r = apply_op(op, expanded, current);
    proof {
        let (sop, sdirs) = netsnmp_value(value@);
        let ex = match home {
            Some(h) => sdirs.map_values(|d: Seq<char>| replace_all(d, "$HOME"@, h@)),
            None => sdirs,
        };
        assert(views_of(expanded@) =~= ex);
        assert(views_of(r@) =~= spec_apply_op(op, views_of(expanded@), views_of(current@)));
    }
    r
}

/// Apply an `SMIPATH` value to the current libsmi path list.
pub fn apply_libsmi_env(value: &str, current: Vec<String>) -> (r: Vec<String>)
    ensures
        views_of(r@) == spec_apply_op(
            colon_semantic(value@).0,
            colon_semantic(value@).1,
            views_of(current@),
        ),
{
    let (op, dirs) = parse_colon_semantic(value);
    let r = apply_op(op, dirs, current);
    assert(views_of(r@) =~= spec_apply_op(op, views_of(dirs@), views_of(current@)));
    r
}

/// The first occurrence of each text, in order of first occurrence.
pub open spec fn spec_dedup(items: Seq<Seq<char>>) -> Seq<Seq<char>>
    decreases items.len(),
{
    if items.len() == 0 {
        items
    } else {
        let d = spec_dedup(items.drop_last());
        if d.contains(items.last()) {
            d
        } else {
            d.push(items.last())
        }
    }
}

proof fn lemma_dedup_contains(items: Seq<Seq<char>>)
    ensures
        forall|x: Seq<char>| spec_dedup(items).contains(x) <==> items.contains(x),
        forall|i: int, j: int|
            0 <= i < j < spec_dedup(items).len() ==> spec_dedup(items)[i] != spec_dedup(items)[j],
    decreases items.len(),
{
    if items.len() > 0 {
        let p = items.drop_last();
        lemma_dedup_contains(p);
        assert forall|x: Seq<char>| spec_dedup(items).contains(x) <==> items.contains(x) by {
            if items.contains(x) && x != items.last() {
                let k = choose|k: int| 0 <= k < items.len() && items[k] == x;
                assert(p[k] == x);
            }
            if p.contains(x) {
                let k = choose|k: int| 0 <= k < p.len() && p[k] == x;
                assert(items[k] == x);
            }
            if !spec_dedup(p).contains(items.last()) {
                if spec_dedup(items).contains(x) {
                    let k = choose|k: int| 0 <= k < spec_dedup(items).len() && spec_dedup(items)[k] == x;
                    if k < spec_dedup(p).len() {
                        assert(spec_dedup(p)[k] == x);
                    }
                }
                if spec_dedup(p).contains(x) {
                    let k = choose|k: int| 0 <= k < spec_dedup(p).len() && spec_dedup(p)[k] == x;
                    assert(spec_dedup(items)[k] == x);
                }
                assert(spec_dedup(items)[spec_dedup(p).len() as int] == items.last());
            }
        }
    }
}

/// Remove repeated paths, keeping the first occurrence of each in order.
pub fn dedup(items: Vec<String>) -> (r: Vec<String>)
    ensures
        views_of(r@) == spec_dedup(views_of(items@)),
{
    let mut out: Vec<String> = Vec::new();
    let mut i: usize = 0;
    while i < items.len()
        invariant
            0 <= i <= items@.len(),
            views_of(out@) == spec_dedup(views_of(items@).subrange(0, i as int)),
        decreases items@.len() - i,
    {
        let ghost prefix = views_of(items@).subrange(0, i as int);
        let ghost next = views_of(items@).subrange(0, i + 1);
        assert(next.drop_last() =~= prefix);
        assert(next.last() == items@[i as int]@);
        let mut seen = false;
        let mut j: usize = 0;
        while j < out.len()
            invariant
                0 <= j <= out@.len(),
                i < items@.len(),
                seen == exists|k: int| 0 <= k < j && out@[k]@ == items@[i as int]@,
            decreases out@.len() - j,
        {
            if str_equal(out[j].as_str(), items[i].as_str()) {
                seen = true;
            }
            j = j + 1;
        }
        proof {
            assert(seen == views_of(out@).contains(items@[i as int]@)) by {
                if seen {
                    let k = choose|k: int| 0 <= k < out@.len() && out@[k]@ == items@[i as int]@;
                    assert(views_of(out@)[k] == items@[i as int]@);
                }
                if views_of(out@).contains(items@[i as int]@) {
                    let k = choose|k: int| 0 <= k < views_of(out@).len() && views_of(out@)[k]
                        == items@[i as int]@;
                    assert(out@[k]@ == items@[i as int]@);
                }
            }
        }
        if !seen {
            let ghost before = out@;
            out.push(items[i].clone());
            assert(views_of(out@) =~= views_of(before).push(items@[i as int]@));
        }
        i = i + 1;
    }
    assert(views_of(items@).subrange(0, items@.len() as int) =~= views_of(items@));
    out
}

/// Removing repeated paths keeps exactly the paths that occur, each once.
pub proof fn lemma_dedup_keeps_each_path_once(items: Seq<Seq<char>>)
    ensures
        forall|x: Seq<char>| spec_dedup(items).contains(x) <==> items.contains(x),
        forall|i: int, j: int|
            0 <= i < j < spec_dedup(items).len() ==> spec_dedup(items)[i] != spec_dedup(items)[j],
{
    lemma_dedup_contains(items);
}

} // verus!
