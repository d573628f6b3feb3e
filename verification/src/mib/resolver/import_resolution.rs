//! Import resolution for one module: each IMPORTS group is matched against
//! the loaded modules of that name, directly, through a compatibility alias
//! of the module name, through modules that forward the symbol, or symbol by
//! symbol; what none of these finds is reported unresolved.

use vstd::prelude::*;
use vstd::string::*;
use vstd::utf8::*;

use crate::ast::{Definition, ImportClause, Ident, Module};
use crate::text::{
    ascii_chars, bytes_lex_less, lemma_lex_irreflexive, lemma_lex_total, lemma_lex_transitive, lex_less,
    str_equal,
};
use crate::types::ResolverStrictness;

use super::context::UnresolvedReason;
use super::imports::{
    base_module_import_alias, is_macro_symbol, spec_base_module_import_alias, spec_is_macro_symbol,
};
use super::util::{normalize_timestamp, spec_normalize_timestamp};

verus! {

/// One entry of an IMPORTS clause: a symbol and the module it comes from.
pub struct ImportDecl {
    /// The imported symbol.
    pub symbol: String,
    /// The module named after FROM.
    pub module: String,
}

/// What import resolution reads of a loaded module.
pub struct ImportingModule {
    /// The module name.
    pub name: String,
    /// Its IMPORTS entries, in source order.
    pub imports: Vec<ImportDecl>,
    /// The names it defines.
    pub definitions: Vec<String>,
    /// The LAST-UPDATED text of its MODULE-IDENTITY (empty when absent).
    pub last_updated: String,
}

/// How an imported symbol was resolved.
#[derive(Debug, Clone, Copy, PartialEq, Eq, Structural)]
pub enum ImportResolutionMode {
    /// Found in a module of the named source.
    Direct,
    /// Found in the module that an outdated source name stands for.
    Alias,
    /// Found by following the named source's own imports.
    Forwarded,
    /// Resolved on its own, apart from the rest of its import group.
    Partial,
}

/// An imported symbol and the loaded module that defines it.
pub struct ResolvedImport {
    /// The imported symbol.
    pub symbol: String,
    /// Index of the defining module.
    pub source: usize,
    /// How it was found.
    pub mode: ImportResolutionMode,
    /// The modules visited from the import's source to the definer.
    pub path: Vec<usize>,
}

/// An imported symbol that could not be resolved.
pub struct UnresolvedImport {
    /// The imported symbol.
    pub symbol: String,
    /// The module it was to come from.
    pub from_module: String,
    /// Why it stayed unresolved.
    pub reason: UnresolvedReason,
}

/// A symbol imported a second time from another module; the later import
/// is ignored.
pub struct DuplicateImport {
    /// The symbol.
    pub symbol: String,
    /// The module of the import that is kept.
    pub first_module: String,
    /// The module of the ignored import.
    pub second_module: String,
}

/// The symbols of a vector of strings.
pub open spec fn texts(v: Seq<String>) -> Seq<Seq<char>> {
    v.map_values(|s: String| s@)
}

/// The module defines `symbol`.
pub open spec fn defines(m: ImportingModule, symbol: Seq<char>) -> bool {
    exists|i: int| 0 <= i < m.definitions@.len() && #[trigger] m.definitions@[i]@ == symbol
}

/// The module defines every one of `symbols`.
pub open spec fn defines_all(m: ImportingModule, symbols: Seq<Seq<char>>) -> bool {
    forall|t: int| 0 <= t < symbols.len() ==> defines(m, #[trigger] symbols[t])
}

/// The source that the first IMPORTS entry for `symbol` names.
pub open spec fn first_import_from(imps: Seq<ImportDecl>, symbol: Seq<char>) -> Option<Seq<char>>
    decreases imps.len(),
{
    if imps.len() == 0 {
        None
    } else if imps[0].symbol@ == symbol {
        Some(imps[0].module@)
    } else {
        first_import_from(imps.drop_first(), symbol)
    }
}


/// The key by which module versions are preferred: the normalized
/// LAST-UPDATED text, as bytes.
pub open spec fn stamp_key(m: ImportingModule) -> Seq<u8> {
    encode_utf8(ascii_chars(spec_normalize_timestamp(encode_utf8(m.last_updated@))))
}

/// `c` lists, in increasing order, exactly the modules named `name`.
pub open spec fn is_candidate_list(ms: Seq<ImportingModule>, name: Seq<char>, c: Seq<usize>) -> bool {
    &&& forall|k: int| 0 <= k < c.len() ==> (#[trigger] c[k] as int) < ms.len() && ms[c[k] as int].name@ == name
    &&& forall|k: int, l: int| 0 <= k < l < c.len() ==> #[trigger] c[k] < #[trigger] c[l]
    &&& forall|i: int| 0 <= i < ms.len() && #[trigger] ms[i].name@ == name ==> c.contains(i as usize)
}

/// `c[k]` is the candidate that a whole import group resolves to: it
/// defines every symbol, no other such candidate has a newer LAST-UPDATED,
/// and every earlier such candidate an older one.
pub open spec fn best_full_candidate(
    ms: Seq<ImportingModule>,
    c: Seq<usize>,
    symbols: Seq<Seq<char>>,
    k: int,
) -> bool {
    &&& 0 <= k < c.len()
    &&& defines_all(ms[c[k] as int], symbols)
    &&& forall|l: int|
        0 <= l < c.len() && defines_all(ms[#[trigger] c[l] as int], symbols) ==> !lex_less(
            stamp_key(ms[c[k] as int]),
            stamp_key(ms[c[l] as int]),
        )
    &&& forall|l: int|
        0 <= l < k && defines_all(ms[#[trigger] c[l] as int], symbols) ==> lex_less(
            stamp_key(ms[c[l] as int]),
            stamp_key(ms[c[k] as int]),
        )
}

/// `path` leads from its first module to a module defining `symbol`: each
/// module on it imports the symbol (by its first IMPORTS entry for it) from
/// the name of the next.
pub open spec fn forwards(ms: Seq<ImportingModule>, symbol: Seq<char>, path: Seq<usize>) -> bool {
    &&& path.len() > 0
    &&& forall|k: int| 0 <= k < path.len() ==> (#[trigger] path[k] as int) < ms.len()
    &&& defines(ms[path.last() as int], symbol)
    &&& forall|k: int|
        0 <= k < path.len() - 1 ==> first_import_from(ms[#[trigger] path[k] as int].imports@, symbol)
            == Some(ms[path[k + 1] as int].name@)
}



/// Return whether module `a` has an older normalized LAST-UPDATED than `b`.
fn stamp_less(a: &ImportingModule, b: &ImportingModule) -> (r: bool)
    ensures
        r == lex_less(stamp_key(*a), stamp_key(*b)),
{
    let ka = normalize_timestamp(a.last_updated.as_str());
    let kb = normalize_timestamp(b.last_updated.as_str());
    bytes_lex_less(ka.as_str().as_bytes(), kb.as_str().as_bytes())
}

/// Return whether the module defines `symbol`.
pub fn module_defines(m: &ImportingModule, symbol: &str) -> (r: bool)
    ensures
        r == defines(*m, symbol@),
{
    let mut i: usize = 0;
    while i < m.definitions.len()
        invariant
            0 <= i <= m.definitions@.len(),
            forall|j: int| 0 <= j < i ==> #[trigger] m.definitions@[j]@ != symbol@,
        decreases m.definitions@.len() - i,
    {
        if str_equal(m.definitions[i].as_str(), symbol) {
            return true;
        }
        i = i + 1;
    }
    false
}

/// Return whether the module defines every one of `symbols`.
fn module_defines_all(m: &ImportingModule, symbols: &Vec<String>) -> (r: bool)
    ensures
        r == defines_all(*m, texts(symbols@)),
{
    let mut i: usize = 0;
    while i < symbols.len()
        invariant
            0 <= i <= symbols@.len(),
            forall|t: int| 0 <= t < i ==> defines(*m, #[trigger] texts(symbols@)[t]),
        decreases symbols@.len() - i,
    {
        if !module_defines(m, symbols[i].as_str()) {
            assert(!defines(*m, texts(symbols@)[i as int]));
            return false;
        }
        i = i + 1;
    }
    true
}

/// Return the source module that the module's first IMPORTS entry for
/// `symbol` names.
fn import_source_of<'a>(imports: &'a Vec<ImportDecl>, symbol: &str) -> (r: Option<&'a String>)
    ensures
        match r {
            Some(s) => first_import_from(imports@, symbol@) == Some(s@),
            None => first_import_from(imports@, symbol@) is None,
        },
{
    let mut i: usize = 0;
    assert(imports@.skip(0) =~= imports@);
    while i < imports.len()
        invariant
            0 <= i <= imports@.len(),
            first_import_from(imports@, symbol@) == first_import_from(
                imports@.skip(i as int),
                symbol@,
            ),
        decreases imports@.len() - i,
    {
        proof {
            assert(imports@.skip(i as int).drop_first() =~= imports@.skip(i + 1));
        }
        if str_equal(imports[i].symbol.as_str(), symbol) {
            return Some(&imports[i].module);
        }
        i = i + 1;
    }
    None
}

/// Return, in order, the indices of the loaded modules named `name`.
pub fn modules_named(ms: &Vec<ImportingModule>, name: &str) -> (c: Vec<usize>)
    ensures
        is_candidate_list(ms@, name@, c@),
{
    let mut c: Vec<usize> = Vec::new();
    let mut i: usize = 0;
    while i < ms.len()
        invariant
            0 <= i <= ms@.len(),
            forall|k: int| 0 <= k < c@.len() ==> (#[trigger] c@[k] as int) < i && ms@[c@[k] as int].name@ == name@,
            forall|k: int, l: int| 0 <= k < l < c@.len() ==> #[trigger] c@[k] < #[trigger] c@[l],
            forall|j: int| 0 <= j < i && #[trigger] ms@[j].name@ == name@ ==> c@.contains(j as usize),
        decreases ms@.len() - i,
    {
        if str_equal(ms[i].name.as_str(), name) {
            let ghost old_c = c@;
            c.push(i);
            proof {
                assert forall|j: int| 0 <= j <= i && #[trigger] ms@[j].name@ == name@ implies c@.contains(j as usize) by {
                    if j < i {
                        assert(old_c.contains(j as usize));
                        let w = choose|w: int| 0 <= w < old_c.len() && old_c[w] == j as usize;
                        assert(c@[w] == j as usize);
                    } else {
                        assert(c@[c@.len() - 1] == j as usize);
                    }
                }
            }
        }
        i = i + 1;
    }
    c
}

/// Return the candidate that a whole import group resolves to, if one
/// defines every symbol.
pub fn select_full_candidate(
    ms: &Vec<ImportingModule>,
    candidates: &Vec<usize>,
    symbols: &Vec<String>,
) -> (r: Option<usize>)
    requires
        forall|k: int| 0 <= k < candidates@.len() ==> (#[trigger] candidates@[k] as int) < ms@.len(),
    ensures
        match r {
            Some(j) => exists|k: int|
                best_full_candidate(ms@, candidates@, texts(symbols@), k) && #[trigger] candidates@[k]
                    == j,
            None => forall|k: int|
                0 <= k < candidates@.len() ==> !defines_all(
                    ms@[#[trigger] candidates@[k] as int],
                    texts(symbols@),
                ),
        },
{
    let ghost syms = texts(symbols@);
    let ghost c = candidates@;
    let mut best: Option<usize> = None;
    let mut i: usize = 0;
    while i < candidates.len()
        invariant
            syms == texts(symbols@),
            c == candidates@,
            forall|k: int| 0 <= k < c.len() ==> (#[trigger] c[k] as int) < ms@.len(),
            0 <= i <= c.len(),
            match best {
                None => forall|l: int| 0 <= l < i ==> !defines_all(ms@[#[trigger] c[l] as int], syms),
                Some(b) => {
                    &&& b < i
                    &&& defines_all(ms@[c[b as int] as int], syms)
                    &&& forall|l: int|
                        0 <= l < i && defines_all(ms@[#[trigger] c[l] as int], syms) ==> !lex_less(
                            stamp_key(ms@[c[b as int] as int]),
                            stamp_key(ms@[c[l] as int]),
                        )
                    &&& forall|l: int|
                        0 <= l < b && defines_all(ms@[#[trigger] c[l] as int], syms) ==> lex_less(
                            stamp_key(ms@[c[l] as int]),
                            stamp_key(ms@[c[b as int] as int]),
                        )
                },
            },
        decreases c.len() - i,
    {
        let cand = candidates[i];
        if module_defines_all(&ms[cand], symbols) {
            match best {
                None => {
                    best = Some(i);
                    proof {
                        lemma_lex_irreflexive(stamp_key(ms@[cand as int]));
                    }
                },
                Some(b) => {
                    if stamp_less(&ms[candidates[b]], &ms[cand]) {
                        proof {
                            let kb = stamp_key(ms@[c[b as int] as int]);
                            let kc = stamp_key(ms@[cand as int]);
                            lemma_lex_irreflexive(kc);
                            assert forall|l: int|
                                0 <= l < i + 1 && defines_all(ms@[#[trigger] c[l] as int], syms) implies !lex_less(
                                kc,
                                stamp_key(ms@[c[l] as int]),
                            ) by {
                                if l < i {
                                    let kl = stamp_key(ms@[c[l] as int]);
                                    if kl != kb {
                                        lemma_lex_total(kb, kl);
                                        if lex_less(kc, kl) {
                                            lemma_lex_transitive(kb, kc, kl);
                                        }
                                    } else if lex_less(kc, kl) {
                                        lemma_lex_transitive(kb, kc, kl);
                                        lemma_lex_irreflexive(kb);
                                    }
                                }
                            }
                            assert forall|l: int|
                                0 <= l < i && defines_all(ms@[#[trigger] c[l] as int], syms) implies lex_less(
                                stamp_key(ms@[c[l] as int]),
                                kc,
                            ) by {
                                let kl = stamp_key(ms@[c[l] as int]);
                                if l < b {
                                    lemma_lex_transitive(kl, kb, kc);
                                } else if kl == kb {
                                } else {
                                    lemma_lex_total(kb, kl);
                                    lemma_lex_transitive(kl, kb, kc);
                                }
                            }
                        }
                        best = Some(i);
                    }
                },
            }
        }
        i = i + 1;
    }
    match best {
        None => None,
        Some(b) => {
            assert(best_full_candidate(ms@, c, syms, b as int));
            Some(candidates[b])
        },
    }
}

/// The number of unset flags.
pub open spec fn count_free(s: Seq<bool>) -> nat
    decreases s.len(),
{
    if s.len() == 0 {
        0
    } else {
        (if s[0] {
            0nat
        } else {
            1nat
        }) + count_free(s.drop_first())
    }
}

proof fn lemma_count_free_update(s: Seq<bool>, i: int)
    requires
        0 <= i < s.len(),
        !s[i],
    ensures
        count_free(s.update(i, true)) + 1 == count_free(s),
    decreases s.len(),
{
    if i == 0 {
        assert(s.update(0, true).drop_first() =~= s.drop_first());
    } else {
        assert(s.update(i, true).drop_first() =~= s.drop_first().update(i - 1, true));
        lemma_count_free_update(s.drop_first(), i - 1);
    }
}

/// Return the candidates newest LAST-UPDATED first, keeping the given
/// order among equal ones.
fn order_by_stamp(ms: &Vec<ImportingModule>, c: &Vec<usize>) -> (o: Vec<usize>)
    requires
        forall|k: int| 0 <= k < c@.len() ==> (#[trigger] c@[k] as int) < ms@.len(),
    ensures
        o@.len() == c@.len(),
        forall|k: int| 0 <= k < o@.len() ==> c@.contains(#[trigger] o@[k]),
{
    let mut o: Vec<usize> = Vec::new();
    let mut i: usize = 0;
    while i < c.len()
        invariant
            0 <= i <= c@.len(),
            forall|k: int| 0 <= k < c@.len() ==> (#[trigger] c@[k] as int) < ms@.len(),
            o@.len() == i,
            forall|k: int| 0 <= k < o@.len() ==> c@.contains(#[trigger] o@[k]),
        decreases c@.len() - i,
    {
        let x = c[i];
        let mut j: usize = 0;
        while j < o.len() && !stamp_less(&ms[o[j]], &ms[x])
            invariant
                0 <= j <= o@.len(),
                x < ms@.len(),
                forall|k: int| 0 <= k < o@.len() ==> c@.contains(#[trigger] o@[k]),
                forall|k: int| 0 <= k < c@.len() ==> (#[trigger] c@[k] as int) < ms@.len(),
            decreases o@.len() - j,
        {
            proof {
                let w = choose|w: int| 0 <= w < c@.len() && c@[w] == o@[j as int];
                assert(c@[w] < ms@.len());
            }
            j = j + 1;
        }
        let ghost old_o = o@;
        o.insert(j, x);
        proof {
            assert(c@[i as int] == x);
            assert forall|k: int| 0 <= k < o@.len() implies c@.contains(#[trigger] o@[k]) by {
                if k < j {
                    assert(o@[k] == old_o[k]);
                } else if k == j {
                    assert(c@[i as int] == o@[k]);
                } else {
                    assert(o@[k] == old_o[k - 1]);
                }
            }
        }
        i = i + 1;
    }
    o
}

/// Follow `symbol` from `candidate` through the modules it imports it from,
/// newest version first, until a module defines it; `active` marks the
/// modules on the way, where a cycle ends the search.
fn explore(
    ms: &Vec<ImportingModule>,
    candidate: usize,
    symbol: &str,
    active: &mut Vec<bool>,
) -> (r: Option<(usize, Vec<usize>)>)
    requires
        candidate < ms@.len(),
        old(active)@.len() == ms@.len(),
    ensures
        final(active)@ == old(active)@,
        defines(ms@[candidate as int], symbol@) ==> r is Some,
        match r {
            Some((s, p)) => p@[0] == candidate && p@.last() == s && forwards(ms@, symbol@, p@),
            None => true,
        },
    decreases count_free(old(active)@),
{
    if module_defines(&ms[candidate], symbol) {
        let mut p: Vec<usize> = Vec::new();
        p.push(candidate);
        return Some((candidate, p));
    }
    if active[candidate] {
        return None;
    }
    let ghost before = active@;
    active.set(candidate, true);
    proof {
        lemma_count_free_update(before, candidate as int);
    }
    let mut result: Option<(usize, Vec<usize>)> = None;
    match import_source_of(&ms[candidate].imports, symbol) {
        Some(src) => {
            let cands = modules_named(ms, src.as_str());
            let ordered = order_by_stamp(ms, &cands);
            let mut k: usize = 0;
            while k < ordered.len() && result.is_none()
                invariant
                    candidate < ms@.len(),
                    active@ == before.update(candidate as int, true),
                    count_free(active@) < count_free(before),
                    before == old(active)@,
                    before.len() == ms@.len(),
                    is_candidate_list(ms@, src@, cands@),
                    forall|q: int| 0 <= q < ordered@.len() ==> cands@.contains(#[trigger] ordered@[q]),
                    first_import_from(ms@[candidate as int].imports@, symbol@) == Some(src@),
                    match result {
                        Some((s, p)) => p@[0] == candidate && p@.last() == s && forwards(
                            ms@,
                            symbol@,
                            p@,
                        ),
                        None => true,
                    },
                decreases ordered@.len() - k,
            {
                let next = ordered[k];
                proof {
                    assert(cands@.contains(ordered@[k as int]));
                    let w = choose|w: int| 0 <= w < cands@.len() && cands@[w] == next;
                    assert(cands@[w] < ms@.len());
                    assert(ms@[next as int].name@ == src@);
                }
                match explore(ms, next, symbol, active) {
                    Some((s, p)) => {
                        let ghost pv = p@;
                        let mut full: Vec<usize> = Vec::new();
                        full.push(candidate);
                        let mut rest = p;
                        full.append(&mut rest);
                        proof {
                            assert(full@ =~= seq![candidate] + pv);
                            assert forall|q: int| 0 <= q < full@.len() implies (#[trigger] full@[q] as int)
                                < ms@.len() by {
                                if q > 0 {
                                    assert(full@[q] == pv[q - 1]);
                                }
                            }
                            assert forall|q: int| 0 <= q < full@.len() - 1 implies first_import_from(
                                ms@[#[trigger] full@[q] as int].imports@,
                                symbol@,
                            ) == Some(ms@[full@[q + 1] as int].name@) by {
                                if q > 0 {
                                    assert(full@[q] == pv[q - 1]);
                                    assert(full@[q + 1] == pv[q]);
                                    assert(first_import_from(ms@[pv[q - 1] as int].imports@, symbol@)
                                        == Some(ms@[pv[q] as int].name@));
                                } else {
                                    assert(full@[1] == pv[0]);
                                }
                            }
                            assert(full@.last() == pv.last());
                        }
                        result = Some((s, full));
                    },
                    None => {},
                }
                k = k + 1;
            }
        },
        None => {},
    }
    active.set(candidate, false);
    proof {
        assert(active@ =~= before);
    }
    result
}

/// Follow `symbol` from `candidate` with a fresh record of visited modules.
fn traverse(ms: &Vec<ImportingModule>, candidate: usize, symbol: &str) -> (r: Option<(usize, Vec<usize>)>)
    requires
        candidate < ms@.len(),
    ensures
        defines(ms@[candidate as int], symbol@) ==> r is Some,
        match r {
            Some((s, p)) => p@[0] == candidate && p@.last() == s && forwards(ms@, symbol@, p@),
            None => true,
        },
{
    let mut active: Vec<bool> = Vec::new();
    let mut i: usize = 0;
    while i < ms.len()
        invariant
            0 <= i <= ms@.len(),
            active@.len() == i,
        decreases ms@.len() - i,
    {
        active.push(false);
        i = i + 1;
    }
    explore(ms, candidate, symbol, &mut active)
}

/// Some resolved import is for `symbol`.
pub open spec fn resolved_has(res: Seq<ResolvedImport>, symbol: Seq<char>) -> bool {
    exists|i: int| 0 <= i < res.len() && #[trigger] res[i].symbol@ == symbol
}

/// Some unresolved import is for `symbol`.
pub open spec fn unresolved_has(unres: Seq<UnresolvedImport>, symbol: Seq<char>) -> bool {
    exists|i: int| 0 <= i < unres.len() && #[trigger] unres[i].symbol@ == symbol
}

/// `symbol` has an outcome: resolved or reported.
pub open spec fn covered(res: Seq<ResolvedImport>, unres: Seq<UnresolvedImport>, symbol: Seq<char>) -> bool {
    resolved_has(res, symbol) || unresolved_has(unres, symbol)
}

/// Some loaded module is named `name`.
pub open spec fn has_module_named(ms: Seq<ImportingModule>, name: Seq<char>) -> bool {
    exists|j: int| 0 <= j < ms.len() && #[trigger] ms[j].name@ == name
}

/// Some loaded module named `name` defines `symbol` itself.
pub open spec fn has_definer_named(ms: Seq<ImportingModule>, name: Seq<char>, symbol: Seq<char>) -> bool {
    exists|j: int| 0 <= j < ms.len() && #[trigger] ms[j].name@ == name && defines(ms[j], symbol)
}

/// Some loaded module named `name` defines every one of `symbols`.
pub open spec fn has_full_module(ms: Seq<ImportingModule>, name: Seq<char>, symbols: Seq<Seq<char>>) -> bool {
    exists|j: int| 0 <= j < ms.len() && #[trigger] ms[j].name@ == name && defines_all(ms[j], symbols)
}

/// A resolved import names a loaded module that defines the symbol, and
/// the path by which it was reached ends there.
pub open spec fn resolved_sound(ms: Seq<ImportingModule>, r: ResolvedImport) -> bool {
    &&& (r.source as int) < ms.len()
    &&& r.path@.last() == r.source
    &&& forwards(ms, r.symbol@, r.path@)
}

/// `source` is the version of the modules named `name` that a whole group
/// of `symbols` resolves to.
pub open spec fn selected_version(
    ms: Seq<ImportingModule>,
    name: Seq<char>,
    symbols: Seq<Seq<char>>,
    source: usize,
) -> bool {
    exists|c: Seq<usize>, k: int|
        is_candidate_list(ms, name, c) && best_full_candidate(ms, c, symbols, k) && #[trigger] c[k]
            == source
}

/// What each mode says of a resolved import of the group from `from`.
pub open spec fn mode_holds(
    ms: Seq<ImportingModule>,
    from: Seq<char>,
    symbols: Seq<Seq<char>>,
    strictness: ResolverStrictness,
    r: ResolvedImport,
) -> bool {
    match r.mode {
        ImportResolutionMode::Direct => {
            &&& r.path@ == seq![r.source]
            &&& ms[r.source as int].name@ == from
            &&& selected_version(ms, from, symbols, r.source)
        },
        ImportResolutionMode::Alias => {
            &&& strictness != ResolverStrictness::Strict
            &&& r.path@ == seq![r.source]
            &&& !has_full_module(ms, from, symbols)
            &&& spec_base_module_import_alias(from) == Some(ms[r.source as int].name@)
            &&& selected_version(ms, ms[r.source as int].name@, symbols, r.source)
        },
        ImportResolutionMode::Forwarded | ImportResolutionMode::Partial => {
            &&& !has_full_module(ms, from, symbols)
            &&& ms[r.path@[0] as int].name@ == from
        },
    }
}

/// The outcome for one import group: `symbols` imported from `from`.
pub open spec fn group_resolved(
    ms: Seq<ImportingModule>,
    from: Seq<char>,
    symbols: Seq<Seq<char>>,
    strictness: ResolverStrictness,
    res: Seq<ResolvedImport>,
    unres: Seq<UnresolvedImport>,
) -> bool {
    &&& forall|i: int|
        0 <= i < res.len() ==> resolved_sound(ms, #[trigger] res[i]) && symbols.contains(res[i].symbol@)
            && mode_holds(ms, from, symbols, strictness, res[i])
    &&& forall|i: int|
        0 <= i < unres.len() ==> (#[trigger] unres[i]).from_module@ == from && symbols.contains(
            unres[i].symbol@,
        ) && match unres[i].reason {
            UnresolvedReason::ModuleNotFound => !has_module_named(ms, from),
            UnresolvedReason::SymbolNotExported => has_module_named(ms, from) && !has_definer_named(
                ms,
                from,
                unres[i].symbol@,
            ),
            _ => false,
        }
    &&& forall|t: int| 0 <= t < symbols.len() ==> covered(res, unres, #[trigger] symbols[t])
    &&& has_full_module(ms, from, symbols) ==> unres.len() == 0
    &&& alias_answers(ms, from, symbols, strictness) ==> unres.len() == 0 && res.len() == symbols.len()
        && forall|i: int| 0 <= i < res.len() ==> (#[trigger] res[i]).mode == ImportResolutionMode::Alias
}

/// The group from `from` is answered through the compatibility alias: the
/// resolution is not strict, no module named `from` defines the whole group,
/// and the module `from` stands for does.
pub open spec fn alias_answers(
    ms: Seq<ImportingModule>,
    from: Seq<char>,
    symbols: Seq<Seq<char>>,
    strictness: ResolverStrictness,
) -> bool {
    &&& strictness != ResolverStrictness::Strict
    &&& !has_full_module(ms, from, symbols)
    &&& spec_base_module_import_alias(from) matches Some(alias)
    &&& has_full_module(ms, alias, symbols)
}

/// Resolve every symbol of the group to `source`, each with the path
/// `[source]`.
fn resolve_all_to(
    ms: &Vec<ImportingModule>,
    symbols: &Vec<String>,
    source: usize,
    mode: ImportResolutionMode,
) -> (r: Vec<ResolvedImport>)
    requires
        source < ms@.len(),
        defines_all(ms@[source as int], texts(symbols@)),
    ensures
        r@.len() == symbols@.len(),
        forall|i: int|
            0 <= i < r@.len() ==> (#[trigger] r@[i]).symbol@ == symbols@[i]@ && r@[i].source == source
                && r@[i].mode == mode && r@[i].path@ == seq![source] && resolved_sound(ms@, r@[i]),
{
    let mut r: Vec<ResolvedImport> = Vec::new();
    let mut i: usize = 0;
    while i < symbols.len()
        invariant
            0 <= i <= symbols@.len(),
            source < ms@.len(),
            defines_all(ms@[source as int], texts(symbols@)),
            r@.len() == i,
            forall|k: int|
                0 <= k < i ==> (#[trigger] r@[k]).symbol@ == symbols@[k]@ && r@[k].source == source
                    && r@[k].mode == mode && r@[k].path@ == seq![source] && resolved_sound(ms@, r@[k]),
        decreases symbols@.len() - i,
    {
        let mut path: Vec<usize> = Vec::new();
        path.push(source);
        assert(defines(ms@[source as int], texts(symbols@)[i as int]));
        let entry = ResolvedImport { symbol: symbols[i].clone(), source, mode, path };
        assert(entry.path@ =~= seq![source]);
        r.push(entry);
        i = i + 1;
    }
    r
}

/// Report every symbol of the group unresolved, for one reason.
fn unresolve_all(symbols: &Vec<String>, from: &str, reason: UnresolvedReason) -> (r: Vec<UnresolvedImport>)
    ensures
        r@.len() == symbols@.len(),
        forall|i: int|
            0 <= i < r@.len() ==> (#[trigger] r@[i]).symbol@ == symbols@[i]@ && r@[i].from_module@
                == from@ && r@[i].reason == reason,
{
    let mut r: Vec<UnresolvedImport> = Vec::new();
    let mut i: usize = 0;
    while i < symbols.len()
        invariant
            0 <= i <= symbols@.len(),
            r@.len() == i,
            forall|k: int|
                0 <= k < i ==> (#[trigger] r@[k]).symbol@ == symbols@[k]@ && r@[k].from_module@ == from@
                    && r@[k].reason == reason,
        decreases symbols@.len() - i,
    {
        r.push(
            UnresolvedImport {
                symbol: symbols[i].clone(),
                from_module: String::from_str(from),
                reason,
            },
        );
        i = i + 1;
    }
    r
}

/// Resolve the whole group through one candidate that forwards every
/// symbol, trying the candidates in order.
fn try_import_forwarding(
    ms: &Vec<ImportingModule>,
    candidates: &Vec<usize>,
    symbols: &Vec<String>,
    Ghost(from): Ghost<Seq<char>>,
) -> (r: Option<Vec<ResolvedImport>>)
    requires
        is_candidate_list(ms@, from, candidates@),
    ensures
        match r {
            Some(v) => v@.len() == symbols@.len() && forall|i: int|
                0 <= i < v@.len() ==> (#[trigger] v@[i]).symbol@ == symbols@[i]@ && resolved_sound(ms@, v@[i])
                    && v@[i].mode == ImportResolutionMode::Forwarded && ms@[v@[i].path@[0] as int].name@
                    == from,
            None => true,
        },
{
    let mut c: usize = 0;
    while c < candidates.len()
        invariant
            0 <= c <= candidates@.len(),
            is_candidate_list(ms@, from, candidates@),
        decreases candidates@.len() - c,
    {
        let cand = candidates[c];
        assert(cand < ms@.len() && ms@[cand as int].name@ == from);
        let mut forwarded: Vec<ResolvedImport> = Vec::new();
        let mut ok = true;
        let mut t: usize = 0;
        while t < symbols.len() && ok
            invariant
                0 <= t <= symbols@.len(),
                cand < ms@.len(),
                ms@[cand as int].name@ == from,
                ok ==> forwarded@.len() == t,
                forall|i: int|
                    0 <= i < forwarded@.len() ==> (#[trigger] forwarded@[i]).symbol@ == symbols@[i]@
                        && resolved_sound(ms@, forwarded@[i]) && forwarded@[i].mode
                        == ImportResolutionMode::Forwarded && forwarded@[i].path@[0] == cand,
            decreases symbols@.len() - t,
        {
            match traverse(ms, cand, symbols[t].as_str()) {
                Some((s, p)) => {
                    forwarded.push(
                        ResolvedImport {
                            symbol: symbols[t].clone(),
                            source: s,
                            mode: ImportResolutionMode::Forwarded,
                            path: p,
                        },
                    );
                },
                None => {
                    ok = false;
                },
            }
            t = t + 1;
        }
        if ok {
            return Some(forwarded);
        }
        c = c + 1;
    }
    None
}

/// Resolve `symbol` through the first candidate, in order, from which it
/// can be followed to a definition.
fn resolve_imported_symbol(
    ms: &Vec<ImportingModule>,
    candidates: &Vec<usize>,
    symbol: &str,
    Ghost(from): Ghost<Seq<char>>,
) -> (r: Option<(usize, Vec<usize>)>)
    requires
        is_candidate_list(ms@, from, candidates@),
    ensures
        match r {
            Some((s, p)) => p@.last() == s && forwards(ms@, symbol@, p@) && ms@[p@[0] as int].name@ == from,
            None => !has_definer_named(ms@, from, symbol@),
        },
{
    let n_modules = ms.len();
    let mut c: usize = 0;
    while c < candidates.len()
        invariant
            0 <= c <= candidates@.len(),
            n_modules == ms@.len(),
            is_candidate_list(ms@, from, candidates@),
            forall|k: int| 0 <= k < c ==> !defines(ms@[#[trigger] candidates@[k] as int], symbol@),
        decreases candidates@.len() - c,
    {
        let cand = candidates[c];
        assert(cand < ms@.len() && ms@[cand as int].name@ == from);
        match traverse(ms, cand, symbol) {
            Some(found) => {
                return Some(found);
            },
            None => {},
        }
        c = c + 1;
    }
    assert(!has_definer_named(ms@, from, symbol@)) by {
        if has_definer_named(ms@, from, symbol@) {
            let j = choose|j: int| 0 <= j < ms@.len() && #[trigger] ms@[j].name@ == from && defines(ms@[j], symbol@);
            assert(j < n_modules);
            assert(candidates@.contains(j as usize));
            let k = choose|k: int| 0 <= k < candidates@.len() && candidates@[k] == j as usize;
            assert(!defines(ms@[candidates@[k] as int], symbol@));
        }
    }
    None
}

/// Resolve the group's symbols one by one; those that no candidate leads
/// to are reported as not exported.
fn try_partial_resolution(
    ms: &Vec<ImportingModule>,
    from: &str,
    candidates: &Vec<usize>,
    symbols: &Vec<String>,
) -> (r: (Vec<ResolvedImport>, Vec<UnresolvedImport>))
    requires
        is_candidate_list(ms@, from@, candidates@),
        candidates@.len() > 0,
    ensures
        forall|i: int|
            0 <= i < r.0@.len() ==> resolved_sound(ms@, #[trigger] r.0@[i]) && texts(symbols@).contains(
                r.0@[i].symbol@,
            ) && r.0@[i].mode == ImportResolutionMode::Partial && ms@[r.0@[i].path@[0] as int].name@
                == from@,
        forall|i: int|
            0 <= i < r.1@.len() ==> (#[trigger] r.1@[i]).from_module@ == from@ && texts(
                symbols@,
            ).contains(r.1@[i].symbol@) && r.1@[i].reason == UnresolvedReason::SymbolNotExported
                && !has_definer_named(ms@, from@, r.1@[i].symbol@),
        forall|t: int| 0 <= t < symbols@.len() ==> covered(r.0@, r.1@, (#[trigger] symbols@[t])@),
{
    let ghost syms = texts(symbols@);
    let mut res: Vec<ResolvedImport> = Vec::new();
    let mut unres: Vec<UnresolvedImport> = Vec::new();
    let mut t: usize = 0;
    while t < symbols.len()
        invariant
            0 <= t <= symbols@.len(),
            syms == texts(symbols@),
            is_candidate_list(ms@, from@, candidates@),
            forall|i: int|
                0 <= i < res@.len() ==> resolved_sound(ms@, #[trigger] res@[i]) && syms.contains(
                    res@[i].symbol@,
                ) && res@[i].mode == ImportResolutionMode::Partial && ms@[res@[i].path@[0] as int].name@
                    == from@,
            forall|i: int|
                0 <= i < unres@.len() ==> (#[trigger] unres@[i]).from_module@ == from@ && syms.contains(
                    unres@[i].symbol@,
                ) && unres@[i].reason == UnresolvedReason::SymbolNotExported && !has_definer_named(
                    ms@,
                    from@,
                    unres@[i].symbol@,
                ),
            forall|q: int| 0 <= q < t ==> covered(res@, unres@, (#[trigger] symbols@[q])@),
        decreases symbols@.len() - t,
    {
        assert(syms[t as int] == symbols@[t as int]@);
        let ghost old_res = res@;
        let ghost old_unres = unres@;
        match resolve_imported_symbol(ms, candidates, symbols[t].as_str(), Ghost(from@)) {
            Some((s, p)) => {
                res.push(
                    ResolvedImport {
                        symbol: symbols[t].clone(),
                        source: s,
                        mode: ImportResolutionMode::Partial,
                        path: p,
                    },
                );
                proof {
                    assert(res@[res@.len() - 1].symbol@ == symbols@[t as int]@);
                    assert forall|q: int| 0 <= q < t + 1 implies covered(res@, unres@, (#[trigger] symbols@[q])@) by {
                        if q < t {
                            if resolved_has(old_res, symbols@[q]@) {
                                let i = choose|i: int| 0 <= i < old_res.len() && #[trigger] old_res[i].symbol@ == symbols@[q]@;
                                assert(res@[i] == old_res[i]);
                            }
                        } else {
                            assert(res@[res@.len() - 1].symbol@ == symbols@[q]@);
                        }
                    }
                }
            },
            None => {
                unres.push(
                    UnresolvedImport {
                        symbol: symbols[t].clone(),
                        from_module: String::from_str(from),
                        reason: UnresolvedReason::SymbolNotExported,
                    },
                );
                proof {
                    assert(unres@[unres@.len() - 1].symbol@ == symbols@[t as int]@);
                    assert forall|q: int| 0 <= q < t + 1 implies covered(res@, unres@, (#[trigger] symbols@[q])@) by {
                        if q < t {
                            if unresolved_has(old_unres, symbols@[q]@) {
                                let i = choose|i: int| 0 <= i < old_unres.len() && #[trigger] old_unres[i].symbol@ == symbols@[q]@;
                                assert(unres@[i] == old_unres[i]);
                            }
                        } else {
                            assert(unres@[unres@.len() - 1].symbol@ == symbols@[q]@);
                        }
                    }
                }
            },
        }
        t = t + 1;
    }
    (res, unres)
}

/// Resolve one import group: `symbols` imported from `from`.
pub fn resolve_import_group(
    ms: &Vec<ImportingModule>,
    from: &str,
    symbols: &Vec<String>,
    strictness: ResolverStrictness,
) -> (r: (Vec<ResolvedImport>, Vec<UnresolvedImport>))
    ensures
        group_resolved(ms@, from@, texts(symbols@), strictness, r.0@, r.1@),
{
    let ghost syms = texts(symbols@);
    let n_modules = ms.len();
    let candidates = modules_named(ms, from);
    match select_full_candidate(ms, &candidates, symbols) {
        Some(src) => {
            let res = resolve_all_to(ms, symbols, src, ImportResolutionMode::Direct);
            let unres: Vec<UnresolvedImport> = Vec::new();
            proof {
                let k = choose|k: int|
                    best_full_candidate(ms@, candidates@, syms, k) && #[trigger] candidates@[k] == src;
                assert(selected_version(ms@, from@, syms, src));
                assert(ms@[src as int].name@ == from@);
                assert(has_full_module(ms@, from@, syms));
                assert forall|i: int| 0 <= i < res@.len() implies resolved_sound(ms@, #[trigger] res@[i])
                    && syms.contains(res@[i].symbol@) && mode_holds(ms@, from@, syms, strictness, res@[i]) by {
                    assert(syms[i] == res@[i].symbol@);
                }
                assert forall|t: int| 0 <= t < syms.len() implies covered(res@, unres@, #[trigger] syms[t]) by {
                    assert(res@[t].symbol@ == syms[t]);
                }
            }
            return (res, unres);
        },
        None => {},
    }
    assert(!has_full_module(ms@, from@, syms)) by {
        if has_full_module(ms@, from@, syms) {
            let j = choose|j: int| 0 <= j < ms@.len() && #[trigger] ms@[j].name@ == from@ && defines_all(ms@[j], syms);
            assert(j < n_modules);
            assert(candidates@.contains(j as usize));
            let k = choose|k: int| 0 <= k < candidates@.len() && candidates@[k] == j as usize;
            assert(!defines_all(ms@[candidates@[k] as int], syms));
        }
    }
    if strictness.allow_constrained_fallbacks() {
        match base_module_import_alias(from) {
            Some(alias) => {
                let alias_candidates = modules_named(ms, alias);
                let chosen = select_full_candidate(ms, &alias_candidates, symbols);
                assert(chosen is None ==> !has_full_module(ms@, alias@, syms)) by {
                    if chosen is None && has_full_module(ms@, alias@, syms) {
                        let j = choose|j: int| 0 <= j < ms@.len() && #[trigger] ms@[j].name@ == alias@ && defines_all(ms@[j], syms);
                        assert(j < n_modules);
                        assert(alias_candidates@.contains(j as usize));
                        let k = choose|k: int| 0 <= k < alias_candidates@.len() && alias_candidates@[k] == j as usize;
                        assert(!defines_all(ms@[alias_candidates@[k] as int], syms));
                    }
                }
                match chosen {
                    Some(src) => {
                        let res = resolve_all_to(ms, symbols, src, ImportResolutionMode::Alias);
                        let unres: Vec<UnresolvedImport> = Vec::new();
                        proof {
                            let k = choose|k: int|
                                best_full_candidate(ms@, alias_candidates@, syms, k) && #[trigger] alias_candidates@[k]
                                    == src;
                            assert(ms@[src as int].name@ == alias@);
                            assert(selected_version(ms@, alias@, syms, src));
                            assert forall|i: int| 0 <= i < res@.len() implies resolved_sound(ms@, #[trigger] res@[i])
                                && syms.contains(res@[i].symbol@) && mode_holds(ms@, from@, syms, strictness, res@[i]) by {
                                assert(syms[i] == res@[i].symbol@);
                            }
                            assert forall|t: int| 0 <= t < syms.len() implies covered(res@, unres@, #[trigger] syms[t]) by {
                                assert(res@[t].symbol@ == syms[t]);
                            }
                        }
                        return (res, unres);
                    },
                    None => {},
                }
            },
            None => {},
        }
    }
    assert(!alias_answers(ms@, from@, syms, strictness));
    match try_import_forwarding(ms, &candidates, symbols, Ghost(from@)) {
        Some(res) => {
            let unres: Vec<UnresolvedImport> = Vec::new();
            proof {
                assert forall|i: int| 0 <= i < res@.len() implies resolved_sound(ms@, #[trigger] res@[i])
                    && syms.contains(res@[i].symbol@) && mode_holds(ms@, from@, syms, strictness, res@[i]) by {
                    assert(syms[i] == res@[i].symbol@);
                }
                assert forall|t: int| 0 <= t < syms.len() implies covered(res@, unres@, #[trigger] syms[t]) by {
                    assert(res@[t].symbol@ == syms[t]);
                }
            }
            return (res, unres);
        },
        None => {},
    }
    if candidates.len() > 0 {
        let (res, unres) = try_partial_resolution(ms, from, &candidates, symbols);
        proof {
            assert(ms@[candidates@[0] as int].name@ == from@);
            assert(has_module_named(ms@, from@));
            assert forall|t: int| 0 <= t < syms.len() implies covered(res@, unres@, #[trigger] syms[t]) by {
                assert(syms[t] == symbols@[t]@);
            }
            assert forall|i: int| 0 <= i < res@.len() implies mode_holds(ms@, from@, syms, strictness, #[trigger] res@[i]) by {
            }
            assert forall|i: int| 0 <= i < unres@.len() implies match (#[trigger] unres@[i]).reason {
                UnresolvedReason::ModuleNotFound => !has_module_named(ms@, from@),
                UnresolvedReason::SymbolNotExported => has_module_named(ms@, from@) && !has_definer_named(
                    ms@,
                    from@,
                    unres@[i].symbol@,
                ),
                _ => false,
            } by {
            }
        }
        return (res, unres);
    }
    let res: Vec<ResolvedImport> = Vec::new();
    let unres = unresolve_all(symbols, from, UnresolvedReason::ModuleNotFound);
    proof {
        if has_module_named(ms@, from@) {
            let j = choose|j: int| 0 <= j < ms@.len() && #[trigger] ms@[j].name@ == from@;
            assert(j < n_modules);
            assert(candidates@.contains(j as usize));
        }
        assert forall|i: int| 0 <= i < unres@.len() implies syms.contains((#[trigger] unres@[i]).symbol@) by {
            assert(syms[i] == unres@[i].symbol@);
        }
        assert forall|t: int| 0 <= t < syms.len() implies covered(res@, unres@, #[trigger] syms[t]) by {
            assert(unres@[t].symbol@ == syms[t]);
        }
    }
    (res, unres)
}

/// The outcome of resolving one module's IMPORTS.
pub struct ModuleImportResolution {
    /// Imports resolved to a defining module.
    pub resolved: Vec<ResolvedImport>,
    /// Imports that could not be resolved.
    pub unresolved: Vec<UnresolvedImport>,
    /// Later imports of an already imported symbol from another module.
    pub duplicates: Vec<DuplicateImport>,
}

/// No earlier IMPORTS entry names the same symbol as entry `i`.
pub open spec fn first_occurrence(imps: Seq<ImportDecl>, i: int) -> bool {
    forall|j: int| 0 <= j < i ==> (#[trigger] imps[j]).symbol@ != imps[i].symbol@
}

/// What a resolved import of the module with IMPORTS `imps` says: it is
/// sound, not an SMI macro, and agrees with the source its first entry names.
pub open spec fn resolved_in_module(
    ms: Seq<ImportingModule>,
    imps: Seq<ImportDecl>,
    strictness: ResolverStrictness,
    r: ResolvedImport,
) -> bool {
    &&& resolved_sound(ms, r)
    &&& !spec_is_macro_symbol(r.symbol@)
    &&& match first_import_from(imps, r.symbol@) {
        Some(from) => match r.mode {
            ImportResolutionMode::Direct => r.path@ == seq![r.source] && ms[r.source as int].name@
                == from,
            ImportResolutionMode::Alias => strictness != ResolverStrictness::Strict && r.path@ == seq![
                r.source,
            ] && spec_base_module_import_alias(from) == Some(ms[r.source as int].name@),
            _ => ms[r.path@[0] as int].name@ == from,
        },
        None => false,
    }
}

/// What an unresolved import of the module with IMPORTS `imps` says.
pub open spec fn unresolved_in_module(
    ms: Seq<ImportingModule>,
    imps: Seq<ImportDecl>,
    u: UnresolvedImport,
) -> bool {
    &&& !spec_is_macro_symbol(u.symbol@)
    &&& first_import_from(imps, u.symbol@) == Some(u.from_module@)
    &&& match u.reason {
        UnresolvedReason::ModuleNotFound => !has_module_named(ms, u.from_module@),
        UnresolvedReason::SymbolNotExported => has_module_named(ms, u.from_module@) && !has_definer_named(
            ms,
            u.from_module@,
            u.symbol@,
        ),
        _ => false,
    }
}

/// `d` records IMPORTS entry `i` as a duplicate.
pub open spec fn records_duplicate(imps: Seq<ImportDecl>, i: int, d: DuplicateImport) -> bool {
    &&& d.symbol@ == imps[i].symbol@
    &&& d.second_module@ == imps[i].module@
    &&& first_import_from(imps, imps[i].symbol@) == Some(d.first_module@)
    &&& d.first_module@ != d.second_module@
}

/// `d` records some IMPORTS entry as a duplicate.
pub open spec fn is_duplicate_of_some(imps: Seq<ImportDecl>, d: DuplicateImport) -> bool {
    exists|i: int| 0 <= i < imps.len() && records_duplicate(imps, i, d)
}

/// Some entry of `dups` records IMPORTS entry `i` as a duplicate.
pub open spec fn duplicate_listed(imps: Seq<ImportDecl>, dups: Seq<DuplicateImport>, i: int) -> bool {
    exists|k: int| 0 <= k < dups.len() && records_duplicate(imps, i, #[trigger] dups[k])
}

proof fn lemma_first_import_from(imps: Seq<ImportDecl>, i: int)
    requires
        0 <= i < imps.len(),
    ensures
        first_import_from(imps, imps[i].symbol@) is Some,
        first_occurrence(imps, i) ==> first_import_from(imps, imps[i].symbol@) == Some(imps[i].module@),
    decreases i,
{
    if i > 0 && imps[0].symbol@ != imps[i].symbol@ {
        lemma_first_import_from(imps.drop_first(), i - 1);
        assert(imps.drop_first()[i - 1] == imps[i]);
        if first_occurrence(imps, i) {
            assert forall|j: int| 0 <= j < i - 1 implies (#[trigger] imps.drop_first()[j]).symbol@
                != imps.drop_first()[i - 1].symbol@ by {
                assert(imps.drop_first()[j] == imps[j + 1]);
            }
        }
    } else if i > 0 {
        assert(imps[0].symbol@ == imps[i].symbol@);
    }
}

proof fn lemma_has_first(imps: Seq<ImportDecl>, i: int)
    requires
        0 <= i < imps.len(),
    ensures
        exists|j: int| 0 <= j <= i && first_occurrence(imps, j) && (#[trigger] imps[j]).symbol@ == imps[i].symbol@,
    decreases i,
{
    if !first_occurrence(imps, i) {
        let k = choose|k: int| 0 <= k < i && (#[trigger] imps[k]).symbol@ == imps[i].symbol@;
        lemma_has_first(imps, k);
    } else {
        assert(first_occurrence(imps, i) && imps[i].symbol@ == imps[i].symbol@);
    }
}

proof fn lemma_covered_append(
    r1: Seq<ResolvedImport>,
    u1: Seq<UnresolvedImport>,
    r2: Seq<ResolvedImport>,
    u2: Seq<UnresolvedImport>,
    symbol: Seq<char>,
)
    requires
        covered(r1, u1, symbol) || covered(r2, u2, symbol),
    ensures
        covered(r1 + r2, u1 + u2, symbol),
{
    if resolved_has(r1, symbol) {
        let i = choose|i: int| 0 <= i < r1.len() && #[trigger] r1[i].symbol@ == symbol;
        assert((r1 + r2)[i] == r1[i]);
    } else if unresolved_has(u1, symbol) {
        let i = choose|i: int| 0 <= i < u1.len() && #[trigger] u1[i].symbol@ == symbol;
        assert((u1 + u2)[i] == u1[i]);
    } else if resolved_has(r2, symbol) {
        let i = choose|i: int| 0 <= i < r2.len() && #[trigger] r2[i].symbol@ == symbol;
        assert((r1 + r2)[r1.len() + i] == r2[i]);
    } else {
        let i = choose|i: int| 0 <= i < u2.len() && #[trigger] u2[i].symbol@ == symbol;
        assert((u1 + u2)[u1.len() + i] == u2[i]);
    }
}

/// Return whether IMPORTS entry `i` is the first for its symbol.
fn is_first_occurrence(imps: &Vec<ImportDecl>, i: usize) -> (r: bool)
    requires
        i < imps@.len(),
    ensures
        r == first_occurrence(imps@, i as int),
{
    let mut j: usize = 0;
    while j < i
        invariant
            0 <= j <= i < imps@.len(),
            forall|k: int| 0 <= k < j ==> (#[trigger] imps@[k]).symbol@ != imps@[i as int].symbol@,
        decreases i - j,
    {
        if str_equal(imps[j].symbol.as_str(), imps[i].symbol.as_str()) {
            return false;
        }
        j = j + 1;
    }
    true
}

/// Return the IMPORTS entries that come first for their symbol, and the
/// later ones that name another module than the first.
fn first_imports(imps: &Vec<ImportDecl>) -> (r: (Vec<usize>, Vec<DuplicateImport>))
    ensures
        forall|k: int|
            0 <= k < r.0@.len() ==> (#[trigger] r.0@[k] as int) < imps@.len() && first_occurrence(
                imps@,
                r.0@[k] as int,
            ),
        forall|i: int| 0 <= i < imps@.len() && first_occurrence(imps@, i) ==> r.0@.contains(i as usize),
        forall|k: int| 0 <= k < r.1@.len() ==> is_duplicate_of_some(imps@, #[trigger] r.1@[k]),
        forall|i: int|
            0 <= i < imps@.len() && first_import_from(imps@, (#[trigger] imps@[i]).symbol@) != Some(
                imps@[i].module@,
            ) ==> duplicate_listed(imps@, r.1@, i),
{
    let mut firsts: Vec<usize> = Vec::new();
    let mut dups: Vec<DuplicateImport> = Vec::new();
    let mut i: usize = 0;
    while i < imps.len()
        invariant
            0 <= i <= imps@.len(),
            forall|k: int|
                0 <= k < firsts@.len() ==> (#[trigger] firsts@[k] as int) < imps@.len() && first_occurrence(
                    imps@,
                    firsts@[k] as int,
                ),
            forall|j: int| 0 <= j < i && first_occurrence(imps@, j) ==> firsts@.contains(j as usize),
            forall|k: int| 0 <= k < dups@.len() ==> is_duplicate_of_some(imps@, #[trigger] dups@[k]),
            forall|j: int|
                0 <= j < i && first_import_from(imps@, (#[trigger] imps@[j]).symbol@) != Some(
                    imps@[j].module@,
                ) ==> duplicate_listed(imps@, dups@, j),
        decreases imps@.len() - i,
    {
        proof {
            lemma_first_import_from(imps@, i as int);
        }
        let ghost old_firsts = firsts@;
        let ghost old_dups = dups@;
        match import_source_of(imps, imps[i].symbol.as_str()) {
            Some(first_module) => {
                if str_equal(first_module.as_str(), imps[i].module.as_str()) {
                    if is_first_occurrence(imps, i) {
                        firsts.push(i);
                    }
                } else {
                    let d = DuplicateImport {
                        symbol: imps[i].symbol.clone(),
                        first_module: first_module.clone(),
                        second_module: imps[i].module.clone(),
                    };
                    assert(records_duplicate(imps@, i as int, d));
                    dups.push(d);
                }
            },
            None => {},
        }
        proof {
            assert forall|j: int| 0 <= j < i + 1 && first_occurrence(imps@, j) implies firsts@.contains(
                j as usize,
            ) by {
                if j < i {
                    let w = choose|w: int| 0 <= w < old_firsts.len() && old_firsts[w] == j as usize;
                    assert(firsts@[w] == j as usize);
                } else {
                    assert(firsts@[firsts@.len() - 1] == j as usize);
                }
            }
            assert forall|k: int| 0 <= k < dups@.len() implies is_duplicate_of_some(imps@, #[trigger] dups@[k]) by {
                if k < old_dups.len() {
                    assert(dups@[k] == old_dups[k]);
                } else {
                    assert(records_duplicate(imps@, i as int, dups@[k]));
                }
            }
            assert forall|j: int|
                0 <= j < i + 1 && first_import_from(imps@, (#[trigger] imps@[j]).symbol@) != Some(
                    imps@[j].module@,
                ) implies duplicate_listed(imps@, dups@, j) by {
                if j < i {
                    let k = choose|k: int| 0 <= k < old_dups.len() && records_duplicate(imps@, j, #[trigger] old_dups[k]);
                    assert(dups@[k] == old_dups[k]);
                } else {
                    assert(records_duplicate(imps@, j, dups@[dups@.len() - 1]));
                }
            }
        }
        i = i + 1;
    }
    (firsts, dups)
}

/// `symbol` is the symbol of a first IMPORTS entry from `module`, and no
/// SMI macro.
pub open spec fn in_group(imps: Seq<ImportDecl>, firsts: Seq<usize>, module: Seq<char>, symbol: Seq<char>) -> bool {
    exists|q: int|
        0 <= q < firsts.len() && (#[trigger] imps[firsts[q] as int]).symbol@ == symbol
            && imps[firsts[q] as int].module@ == module && !spec_is_macro_symbol(symbol)
}

/// Every non-macro symbol first imported from `module` has an outcome.
pub open spec fn module_done(
    imps: Seq<ImportDecl>,
    firsts: Seq<usize>,
    res: Seq<ResolvedImport>,
    unres: Seq<UnresolvedImport>,
    module: Seq<char>,
) -> bool {
    forall|q: int|
        0 <= q < firsts.len() && (#[trigger] imps[firsts[q] as int]).module@ == module
            && !spec_is_macro_symbol(imps[firsts[q] as int].symbol@) ==> covered(
            res,
            unres,
            imps[firsts[q] as int].symbol@,
        )
}

/// The facts about the first IMPORTS entries that the phases rely on.
pub open spec fn firsts_valid(imps: Seq<ImportDecl>, firsts: Seq<usize>) -> bool {
    &&& forall|k: int|
        0 <= k < firsts.len() ==> (#[trigger] firsts[k] as int) < imps.len() && first_occurrence(
            imps,
            firsts[k] as int,
        )
    &&& forall|i: int| 0 <= i < imps.len() && first_occurrence(imps, i) ==> firsts.contains(i as usize)
}

proof fn lemma_module_done_append(
    imps: Seq<ImportDecl>,
    firsts: Seq<usize>,
    r1: Seq<ResolvedImport>,
    u1: Seq<UnresolvedImport>,
    r2: Seq<ResolvedImport>,
    u2: Seq<UnresolvedImport>,
    module: Seq<char>,
)
    requires
        module_done(imps, firsts, r1, u1, module),
    ensures
        module_done(imps, firsts, r1 + r2, u1 + u2, module),
{
    assert forall|q: int|
        0 <= q < firsts.len() && (#[trigger] imps[firsts[q] as int]).module@ == module
            && !spec_is_macro_symbol(imps[firsts[q] as int].symbol@) implies covered(
        r1 + r2,
        u1 + u2,
        imps[firsts[q] as int].symbol@,
    ) by {
        lemma_covered_append(r1, u1, r2, u2, imps[firsts[q] as int].symbol@);
    }
}

proof fn lemma_lift_resolved(
    ms: Seq<ImportingModule>,
    imps: Seq<ImportDecl>,
    firsts: Seq<usize>,
    module: Seq<char>,
    group: Seq<Seq<char>>,
    strictness: ResolverStrictness,
    r: ResolvedImport,
)
    requires
        firsts_valid(imps, firsts),
        forall|t: int| 0 <= t < group.len() ==> in_group(imps, firsts, module, #[trigger] group[t]),
        resolved_sound(ms, r),
        group.contains(r.symbol@),
        mode_holds(ms, module, group, strictness, r),
    ensures
        resolved_in_module(ms, imps, strictness, r),
{
    let t = choose|t: int| 0 <= t < group.len() && group[t] == r.symbol@;
    assert(in_group(imps, firsts, module, group[t]));
    let q = choose|q: int|
        0 <= q < firsts.len() && (#[trigger] imps[firsts[q] as int]).symbol@ == group[t]
            && imps[firsts[q] as int].module@ == module && !spec_is_macro_symbol(group[t]);
    lemma_first_import_from(imps, firsts[q] as int);
}

proof fn lemma_lift_unresolved(
    ms: Seq<ImportingModule>,
    imps: Seq<ImportDecl>,
    firsts: Seq<usize>,
    module: Seq<char>,
    group: Seq<Seq<char>>,
    u: UnresolvedImport,
)
    requires
        firsts_valid(imps, firsts),
        forall|t: int| 0 <= t < group.len() ==> in_group(imps, firsts, module, #[trigger] group[t]),
        group.contains(u.symbol@),
        u.from_module@ == module,
        match u.reason {
            UnresolvedReason::ModuleNotFound => !has_module_named(ms, module),
            UnresolvedReason::SymbolNotExported => has_module_named(ms, module) && !has_definer_named(
                ms,
                module,
                u.symbol@,
            ),
            _ => false,
        },
    ensures
        unresolved_in_module(ms, imps, u),
{
    let t = choose|t: int| 0 <= t < group.len() && group[t] == u.symbol@;
    assert(in_group(imps, firsts, module, group[t]));
    let q = choose|q: int|
        0 <= q < firsts.len() && (#[trigger] imps[firsts[q] as int]).symbol@ == group[t]
            && imps[firsts[q] as int].module@ == module && !spec_is_macro_symbol(group[t]);
    lemma_first_import_from(imps, firsts[q] as int);
}

/// Return, in order, the non-macro symbols of the first IMPORTS entries
/// from `module`.
fn group_symbols(imps: &Vec<ImportDecl>, firsts: &Vec<usize>, module: &str) -> (g: Vec<String>)
    requires
        forall|k: int| 0 <= k < firsts@.len() ==> (#[trigger] firsts@[k] as int) < imps@.len(),
    ensures
        forall|t: int| 0 <= t < g@.len() ==> in_group(imps@, firsts@, module@, #[trigger] texts(g@)[t]),
        forall|q: int|
            0 <= q < firsts@.len() && (#[trigger] imps@[firsts@[q] as int]).module@ == module@
                && !spec_is_macro_symbol(imps@[firsts@[q] as int].symbol@) ==> texts(g@).contains(
                imps@[firsts@[q] as int].symbol@,
            ),
{
    let mut g: Vec<String> = Vec::new();
    let mut q: usize = 0;
    while q < firsts.len()
        invariant
            0 <= q <= firsts@.len(),
            forall|k: int| 0 <= k < firsts@.len() ==> (#[trigger] firsts@[k] as int) < imps@.len(),
            forall|t: int| 0 <= t < g@.len() ==> in_group(imps@, firsts@, module@, #[trigger] texts(g@)[t]),
            forall|w: int|
                0 <= w < q && (#[trigger] imps@[firsts@[w] as int]).module@ == module@
                    && !spec_is_macro_symbol(imps@[firsts@[w] as int].symbol@) ==> texts(g@).contains(
                    imps@[firsts@[w] as int].symbol@,
                ),
        decreases firsts@.len() - q,
    {
        let f = firsts[q];
        let ghost old_g = g@;
        if str_equal(imps[f].module.as_str(), module) && !is_macro_symbol(imps[f].symbol.as_str()) {
            g.push(imps[f].symbol.clone());
            proof {
                assert(texts(g@)[g@.len() - 1] == imps@[f as int].symbol@);
                assert forall|t: int| 0 <= t < g@.len() implies in_group(
                    imps@,
                    firsts@,
                    module@,
                    #[trigger] texts(g@)[t],
                ) by {
                    if t < old_g.len() {
                        assert(texts(g@)[t] == texts(old_g)[t]);
                    } else {
                        assert(imps@[firsts@[q as int] as int].symbol@ == texts(g@)[t]);
                    }
                }
                assert forall|w: int|
                    0 <= w < q + 1 && (#[trigger] imps@[firsts@[w] as int]).module@ == module@
                        && !spec_is_macro_symbol(imps@[firsts@[w] as int].symbol@) implies texts(g@).contains(
                    imps@[firsts@[w] as int].symbol@,
                ) by {
                    if w < q {
                        let x = choose|x: int| 0 <= x < texts(old_g).len() && texts(old_g)[x] == imps@[firsts@[w] as int].symbol@;
                        assert(texts(g@)[x] == texts(old_g)[x]);
                    } else {
                        assert(texts(g@)[g@.len() - 1] == imps@[firsts@[w] as int].symbol@);
                    }
                }
            }
        }
        q = q + 1;
    }
    g
}

/// Resolve the IMPORTS of module `idx`: group the entries by source module
/// in order of first appearance (a symbol imported twice keeps its first
/// source; a second import from another module is a duplicate), skip SMI
/// macro names, and resolve each group.
pub fn resolve_imports_for_module(
    ms: &Vec<ImportingModule>,
    idx: usize,
    strictness: ResolverStrictness,
) -> (r: ModuleImportResolution)
    requires
        idx < ms@.len(),
    ensures
        forall|i: int|
            0 <= i < r.resolved@.len() ==> resolved_in_module(
                ms@,
                ms@[idx as int].imports@,
                strictness,
                #[trigger] r.resolved@[i],
            ),
        forall|i: int|
            0 <= i < r.unresolved@.len() ==> unresolved_in_module(
                ms@,
                ms@[idx as int].imports@,
                #[trigger] r.unresolved@[i],
            ),
        forall|i: int|
            0 <= i < ms@[idx as int].imports@.len() && !spec_is_macro_symbol(
                (#[trigger] ms@[idx as int].imports@[i]).symbol@,
            ) ==> covered(r.resolved@, r.unresolved@, ms@[idx as int].imports@[i].symbol@),
        forall|k: int|
            0 <= k < r.duplicates@.len() ==> is_duplicate_of_some(
                ms@[idx as int].imports@,
                #[trigger] r.duplicates@[k],
            ),
        forall|i: int|
            0 <= i < ms@[idx as int].imports@.len() && first_import_from(
                ms@[idx as int].imports@,
                (#[trigger] ms@[idx as int].imports@[i]).symbol@,
            ) != Some(ms@[idx as int].imports@[i].module@) ==> duplicate_listed(
                ms@[idx as int].imports@,
                r.duplicates@,
                i,
            ),
{
    let imps = &ms[idx].imports;
    let n_imps = imps.len();
    let (firsts, duplicates) = first_imports(imps);
    let mut resolved: Vec<ResolvedImport> = Vec::new();
    let mut unresolved: Vec<UnresolvedImport> = Vec::new();
    let mut p: usize = 0;
    while p < firsts.len()
        invariant
            0 <= p <= firsts@.len(),
            imps@ == ms@[idx as int].imports@,
            firsts_valid(imps@, firsts@),
            forall|i: int|
                0 <= i < resolved@.len() ==> resolved_in_module(ms@, imps@, strictness, #[trigger] resolved@[i]),
            forall|i: int| 0 <= i < unresolved@.len() ==> unresolved_in_module(ms@, imps@, #[trigger] unresolved@[i]),
            forall|q: int|
                0 <= q < p ==> module_done(
                    imps@,
                    firsts@,
                    resolved@,
                    unresolved@,
                    (#[trigger] imps@[firsts@[q] as int]).module@,
                ),
        decreases firsts@.len() - p,
    {
        let f = firsts[p];
        let module = &imps[f].module;
        let mut seen = false;
        let mut q: usize = 0;
        while q < p && !seen
            invariant
                0 <= q <= p < firsts@.len(),
                firsts_valid(imps@, firsts@),
                seen ==> exists|w: int| 0 <= w < p && (#[trigger] imps@[firsts@[w] as int]).module@ == module@,
            decreases p - q,
        {
            if str_equal(imps[firsts[q]].module.as_str(), module.as_str()) {
                seen = true;
                assert(imps@[firsts@[q as int] as int].module@ == module@);
            }
            q = q + 1;
        }
        if seen {
            proof {
                let w = choose|w: int| 0 <= w < p && (#[trigger] imps@[firsts@[w] as int]).module@ == module@;
                assert(module_done(imps@, firsts@, resolved@, unresolved@, imps@[firsts@[w] as int].module@));
            }
        } else {
            let group = group_symbols(imps, &firsts, module.as_str());
            let ghost syms = texts(group@);
            if group.len() > 0 {
                let (mut res, mut unres) = resolve_import_group(ms, module.as_str(), &group, strictness);
                let ghost r1 = resolved@;
                let ghost u1 = unresolved@;
                let ghost r2 = res@;
                let ghost u2 = unres@;
                proof {
                    assert forall|i: int| 0 <= i < r2.len() implies resolved_in_module(
                        ms@,
                        imps@,
                        strictness,
                        #[trigger] r2[i],
                    ) by {
                        lemma_lift_resolved(ms@, imps@, firsts@, module@, syms, strictness, r2[i]);
                    }
                    assert forall|i: int| 0 <= i < u2.len() implies unresolved_in_module(
                        ms@,
                        imps@,
                        #[trigger] u2[i],
                    ) by {
                        lemma_lift_unresolved(ms@, imps@, firsts@, module@, syms, u2[i]);
                    }
                    assert forall|q: int| 0 <= q < p implies module_done(
                        imps@,
                        firsts@,
                        r1 + r2,
                        u1 + u2,
                        (#[trigger] imps@[firsts@[q] as int]).module@,
                    ) by {
                        lemma_module_done_append(imps@, firsts@, r1, u1, r2, u2, imps@[firsts@[q] as int].module@);
                    }
                    assert forall|w: int|
                        0 <= w < firsts@.len() && (#[trigger] imps@[firsts@[w] as int]).module@ == module@
                            && !spec_is_macro_symbol(imps@[firsts@[w] as int].symbol@) implies covered(
                        r1 + r2,
                        u1 + u2,
                        imps@[firsts@[w] as int].symbol@,
                    ) by {
                        let x = choose|x: int| 0 <= x < syms.len() && syms[x] == imps@[firsts@[w] as int].symbol@;
                        assert(covered(r2, u2, syms[x]));
                        lemma_covered_append(r1, u1, r2, u2, syms[x]);
                    }
                    assert(module_done(imps@, firsts@, r1 + r2, u1 + u2, module@));
                }
                resolved.append(&mut res);
                unresolved.append(&mut unres);
                proof {
                    assert(resolved@ == r1 + r2);
                    assert(unresolved@ == u1 + u2);
                    assert forall|i: int|
                        0 <= i < resolved@.len() implies resolved_in_module(
                        ms@,
                        imps@,
                        strictness,
                        #[trigger] resolved@[i],
                    ) by {
                        if i >= r1.len() {
                            assert(resolved@[i] == r2[i - r1.len()]);
                        }
                    }
                    assert forall|i: int|
                        0 <= i < unresolved@.len() implies unresolved_in_module(
                        ms@,
                        imps@,
                        #[trigger] unresolved@[i],
                    ) by {
                        if i >= u1.len() {
                            assert(unresolved@[i] == u2[i - u1.len()]);
                        }
                    }
                }
            } else {
                proof {
                    assert forall|w: int|
                        0 <= w < firsts@.len() && (#[trigger] imps@[firsts@[w] as int]).module@ == module@
                            && !spec_is_macro_symbol(imps@[firsts@[w] as int].symbol@) implies covered(
                        resolved@,
                        unresolved@,
                        imps@[firsts@[w] as int].symbol@,
                    ) by {
                        assert(syms.contains(imps@[firsts@[w] as int].symbol@));
                    }
                }
            }
        }
        p = p + 1;
    }
    proof {
        assert forall|i: int|
            0 <= i < imps@.len() && !spec_is_macro_symbol((#[trigger] imps@[i]).symbol@) implies covered(
            resolved@,
            unresolved@,
            imps@[i].symbol@,
        ) by {
            lemma_has_first(imps@, i);
            let j = choose|j: int| 0 <= j <= i && first_occurrence(imps@, j) && (#[trigger] imps@[j]).symbol@ == imps@[i].symbol@;
            assert(j < n_imps);
            assert(firsts@.contains(j as usize));
            let q = choose|q: int| 0 <= q < firsts@.len() && firsts@[q] == j as usize;
            assert(module_done(imps@, firsts@, resolved@, unresolved@, imps@[firsts@[q] as int].module@));
            assert(imps@[firsts@[q] as int].symbol@ == imps@[i].symbol@);
            assert(covered(resolved@, unresolved@, imps@[firsts@[q] as int].symbol@));
        }
    }
    ModuleImportResolution { resolved, unresolved, duplicates }
}

/// The name a body definition defines; a MACRO definition defines none.
pub open spec fn defined_name(d: Definition) -> Option<Seq<char>> {
    match d {
        Definition::ObjectType(x) => Some(x.name.name@),
        Definition::ModuleIdentity(x) => Some(x.name.name@),
        Definition::ObjectIdentity(x) => Some(x.name.name@),
        Definition::NotificationType(x) => Some(x.name.name@),
        Definition::TrapType(x) => Some(x.name.name@),
        Definition::TextualConvention(x) => Some(x.name.name@),
        Definition::TypeAssignment(x) => Some(x.name.name@),
        Definition::ValueAssignment(x) => Some(x.name.name@),
        Definition::ObjectGroup(x) => Some(x.name.name@),
        Definition::NotificationGroup(x) => Some(x.name.name@),
        Definition::ModuleCompliance(x) => Some(x.name.name@),
        Definition::AgentCapabilities(x) => Some(x.name.name@),
        Definition::MacroDefinition(_) => None,
    }
}

/// The names the definitions of a body define, in order.
pub open spec fn body_names(body: Seq<Definition>) -> Seq<Seq<char>>
    decreases body.len(),
{
    if body.len() == 0 {
        seq![]
    } else {
        let prev = body_names(body.drop_last());
        match defined_name(body.last()) {
            Some(n) => prev.push(n),
            None => prev,
        }
    }
}

/// The LAST-UPDATED text of the first MODULE-IDENTITY of a body, empty
/// when there is none.
pub open spec fn identity_stamp(body: Seq<Definition>) -> Seq<char>
    decreases body.len(),
{
    if body.len() == 0 {
        seq![]
    } else {
        match body[0] {
            Definition::ModuleIdentity(x) => x.last_updated.value@,
            _ => identity_stamp(body.drop_first()),
        }
    }
}

/// The (symbol, source module) pairs of one IMPORTS clause.
pub open spec fn clause_pairs(c: ImportClause) -> Seq<(Seq<char>, Seq<char>)> {
    c.symbols@.map_values(|s: Ident| (s.name@, c.from_module.name@))
}

/// The (symbol, source module) pairs of IMPORTS clauses, in order.
pub open spec fn clauses_pairs(cs: Seq<ImportClause>) -> Seq<(Seq<char>, Seq<char>)>
    decreases cs.len(),
{
    if cs.len() == 0 {
        seq![]
    } else {
        clauses_pairs(cs.drop_last()) + clause_pairs(cs.last())
    }
}

/// The (symbol, source module) pairs of IMPORTS entries.
pub open spec fn decl_pairs(d: Seq<ImportDecl>) -> Seq<(Seq<char>, Seq<char>)> {
    d.map_values(|x: ImportDecl| (x.symbol@, x.module@))
}

/// Return the name a body definition defines, if any.
pub fn definition_name(d: &Definition) -> (r: Option<&String>)
    ensures
        match r {
            Some(s) => defined_name(*d) == Some(s@),
            None => defined_name(*d) is None,
        },
{
    match d {
        Definition::ObjectType(x) => Some(&x.name.name),
        Definition::ModuleIdentity(x) => Some(&x.name.name),
        Definition::ObjectIdentity(x) => Some(&x.name.name),
        Definition::NotificationType(x) => Some(&x.name.name),
        Definition::TrapType(x) => Some(&x.name.name),
        Definition::TextualConvention(x) => Some(&x.name.name),
        Definition::TypeAssignment(x) => Some(&x.name.name),
        Definition::ValueAssignment(x) => Some(&x.name.name),
        Definition::ObjectGroup(x) => Some(&x.name.name),
        Definition::NotificationGroup(x) => Some(&x.name.name),
        Definition::ModuleCompliance(x) => Some(&x.name.name),
        Definition::AgentCapabilities(x) => Some(&x.name.name),
        Definition::MacroDefinition(_) => None,
    }
}

/// Describe a parsed module as import resolution reads it: its name, its
/// IMPORTS one symbol per entry, the names its body defines, and the
/// LAST-UPDATED of its MODULE-IDENTITY.
pub fn importing_module_of(m: &Module) -> (r: ImportingModule)
    ensures
        r.name@ == match m.name {
            Some(id) => id.name@,
            None => Seq::<char>::empty(),
        },
        decl_pairs(r.imports@) == clauses_pairs(m.imports@),
        texts(r.definitions@) == body_names(m.body@),
        r.last_updated@ == identity_stamp(m.body@),
{
    let name = match &m.name {
        Some(id) => id.name.clone(),
        None => String::new(),
    };
    let mut imports: Vec<ImportDecl> = Vec::new();
    let mut i: usize = 0;
    assert(m.imports@.take(0) =~= Seq::<ImportClause>::empty());
    while i < m.imports.len()
        invariant
            0 <= i <= m.imports@.len(),
            decl_pairs(imports@) == clauses_pairs(m.imports@.take(i as int)),
        decreases m.imports@.len() - i,
    {
        let c = &m.imports[i];
        let ghost base = decl_pairs(imports@);
        let mut j: usize = 0;
        assert(decl_pairs(imports@) =~= base + clause_pairs(*c).take(0));
        while j < c.symbols.len()
            invariant
                0 <= j <= c.symbols@.len(),
                decl_pairs(imports@) == base + clause_pairs(*c).take(j as int),
            decreases c.symbols@.len() - j,
        {
            let ghost before = imports@;
            let d = ImportDecl { symbol: c.symbols[j].name.clone(), module: c.from_module.name.clone() };
            assert((d.symbol@, d.module@) == clause_pairs(*c)[j as int]);
            imports.push(d);
            assert(decl_pairs(imports@) =~= decl_pairs(before).push((d.symbol@, d.module@)));
            assert(clause_pairs(*c).take(j + 1) =~= clause_pairs(*c).take(j as int).push(clause_pairs(*c)[j as int]));
            assert(decl_pairs(imports@) =~= base + clause_pairs(*c).take(j + 1));
            j = j + 1;
        }
        proof {
            assert(clause_pairs(*c).take(j as int) =~= clause_pairs(*c));
            assert(m.imports@.take(i + 1).drop_last() =~= m.imports@.take(i as int));
            assert(m.imports@.take(i + 1).last() == *c);
        }
        i = i + 1;
    }
    assert(m.imports@.take(i as int) =~= m.imports@);
    let mut definitions: Vec<String> = Vec::new();
    let mut k: usize = 0;
    assert(m.body@.take(0) =~= Seq::<Definition>::empty());
    assert(texts(definitions@) =~= Seq::<Seq<char>>::empty());
    while k < m.body.len()
        invariant
            0 <= k <= m.body@.len(),
            texts(definitions@) == body_names(m.body@.take(k as int)),
        decreases m.body@.len() - k,
    {
        proof {
            assert(m.body@.take(k + 1).drop_last() =~= m.body@.take(k as int));
            assert(m.body@.take(k + 1).last() == m.body@[k as int]);
        }
        match definition_name(&m.body[k]) {
            Some(n) => {
                definitions.push(n.clone());
                assert(texts(definitions@) =~= body_names(m.body@.take(k + 1)));
            },
            None => {},
        }
        k = k + 1;
    }
    assert(m.body@.take(k as int) =~= m.body@);
    let mut last_updated = String::new();
    let mut found = false;
    let mut b: usize = 0;
    assert(m.body@.skip(0) =~= m.body@);
    while b < m.body.len() && !found
        invariant
            0 <= b <= m.body@.len(),
            found ==> last_updated@ == identity_stamp(m.body@),
            !found ==> identity_stamp(m.body@) == identity_stamp(m.body@.skip(b as int)) && last_updated@
                == Seq::<char>::empty(),
        decreases m.body@.len() - b,
    {
        proof {
            assert(m.body@.skip(b as int).drop_first() =~= m.body@.skip(b + 1));
            assert(m.body@.skip(b as int)[0] == m.body@[b as int]);
        }
        match &m.body[b] {
            Definition::ModuleIdentity(x) => {
                last_updated = x.last_updated.value.clone();
                found = true;
            },
            _ => {},
        }
        b = b + 1;
    }
    if !found {
        assert(m.body@.skip(b as int) =~= Seq::<Definition>::empty());
    }
    ImportingModule { name, imports, definitions, last_updated }
}

/// What resolving the IMPORTS `imps` of a module gives: every resolved
/// import is sound and agrees with its declared source, every unresolved
/// one carries its reason, every non-macro import has an outcome, and the
/// duplicates are exactly the later imports of a symbol from another module.
pub open spec fn module_imports_resolved(
    ms: Seq<ImportingModule>,
    imps: Seq<ImportDecl>,
    strictness: ResolverStrictness,
    r: ModuleImportResolution,
) -> bool {
    &&& forall|i: int|
        0 <= i < r.resolved@.len() ==> resolved_in_module(ms, imps, strictness, #[trigger] r.resolved@[i])
    &&& forall|i: int| 0 <= i < r.unresolved@.len() ==> unresolved_in_module(ms, imps, #[trigger] r.unresolved@[i])
    &&& forall|i: int|
        0 <= i < imps.len() && !spec_is_macro_symbol((#[trigger] imps[i]).symbol@) ==> covered(
            r.resolved@,
            r.unresolved@,
            imps[i].symbol@,
        )
    &&& forall|k: int| 0 <= k < r.duplicates@.len() ==> is_duplicate_of_some(imps, #[trigger] r.duplicates@[k])
    &&& forall|i: int|
        0 <= i < imps.len() && first_import_from(imps, (#[trigger] imps[i]).symbol@) != Some(imps[i].module@)
            ==> duplicate_listed(imps, r.duplicates@, i)
}

/// Resolve the IMPORTS of every loaded module, in order.
pub fn resolve_imports(ms: &Vec<ImportingModule>, strictness: ResolverStrictness) -> (r: Vec<ModuleImportResolution>)
    ensures
        r@.len() == ms@.len(),
        forall|i: int|
            0 <= i < r@.len() ==> module_imports_resolved(ms@, ms@[i].imports@, strictness, #[trigger] r@[i]),
{
    let mut out: Vec<ModuleImportResolution> = Vec::new();
    let mut i: usize = 0;
    while i < ms.len()
        invariant
            0 <= i <= ms@.len(),
            out@.len() == i,
            forall|k: int|
                0 <= k < i ==> module_imports_resolved(ms@, ms@[k].imports@, strictness, #[trigger] out@[k]),
        decreases ms@.len() - i,
    {
        let one = resolve_imports_for_module(ms, i, strictness);
        assert(module_imports_resolved(ms@, ms@[i as int].imports@, strictness, one));
        out.push(one);
        i = i + 1;
    }
    out
}

/// Import resolution leaves no import without an answer: every imported
/// symbol that is not an SMI macro name either resolves to a loaded module
/// that defines it itself (multi-hop forwarding is already collapsed onto the
/// definer), or is reported unresolved because its source module is missing
/// or does not export it.
pub proof fn lemma_every_import_answered(
    ms: Seq<ImportingModule>,
    imps: Seq<ImportDecl>,
    strictness: ResolverStrictness,
    r: ModuleImportResolution,
    i: int,
)
    requires
        module_imports_resolved(ms, imps, strictness, r),
        0 <= i < imps.len(),
        !spec_is_macro_symbol(imps[i].symbol@),
    ensures
        (exists|k: int|
            0 <= k < r.resolved@.len() && (#[trigger] r.resolved@[k]).symbol@ == imps[i].symbol@
                && (r.resolved@[k].source as int) < ms.len() && defines(
                ms[r.resolved@[k].source as int],
                imps[i].symbol@,
            )) || (exists|k: int|
            0 <= k < r.unresolved@.len() && (#[trigger] r.unresolved@[k]).symbol@ == imps[i].symbol@
                && (r.unresolved@[k].reason == UnresolvedReason::ModuleNotFound
                || r.unresolved@[k].reason == UnresolvedReason::SymbolNotExported)),
{
    assert(covered(r.resolved@, r.unresolved@, imps[i].symbol@));
    if resolved_has(r.resolved@, imps[i].symbol@) {
        let k = choose|k: int| 0 <= k < r.resolved@.len() && #[trigger] r.resolved@[k].symbol@ == imps[i].symbol@;
        assert(resolved_in_module(ms, imps, strictness, r.resolved@[k]));
    } else {
        let k = choose|k: int| 0 <= k < r.unresolved@.len() && #[trigger] r.unresolved@[k].symbol@ == imps[i].symbol@;
        assert(unresolved_in_module(ms, imps, r.unresolved@[k]));
    }
}

/// The defining module of the first resolved import of `name`.
pub open spec fn first_resolved_source(res: Seq<ResolvedImport>, name: Seq<char>) -> Option<usize>
    decreases res.len(),
{
    if res.len() == 0 {
        None
    } else if res[0].symbol@ == name {
        Some(res[0].source)
    } else {
        first_resolved_source(res.drop_first(), name)
    }
}

/// Where `name` is found from module `idx`: the module itself when it
/// defines the name (`false`: no import used), else the module one resolved
/// import leads to, when that module defines it (`true`: an import used).
pub open spec fn scope_definer(
    ms: Seq<ImportingModule>,
    r: ModuleImportResolution,
    idx: int,
    name: Seq<char>,
) -> Option<(usize, bool)> {
    if defines(ms[idx], name) {
        Some((idx as usize, false))
    } else {
        match first_resolved_source(r.resolved@, name) {
            Some(s) => if (s as int) < ms.len() && defines(ms[s as int], name) {
                Some((s, true))
            } else {
                None
            },
            None => None,
        }
    }
}

/// Look `name` up in the scope of module `idx`: its own definitions first,
/// then the single hop of its resolved imports.
pub fn lookup_definer_for_module(
    ms: &Vec<ImportingModule>,
    r: &ModuleImportResolution,
    idx: usize,
    name: &str,
) -> (found: Option<(usize, bool)>)
    requires
        idx < ms@.len(),
    ensures
        found == scope_definer(ms@, *r, idx as int, name@),
{
    if module_defines(&ms[idx], name) {
        return Some((idx, false));
    }
    let mut i: usize = 0;
    assert(r.resolved@.skip(0) =~= r.resolved@);
    while i < r.resolved.len()
        invariant
            idx < ms@.len(),
            !defines(ms@[idx as int], name@),
            0 <= i <= r.resolved@.len(),
            first_resolved_source(r.resolved@, name@) == first_resolved_source(
                r.resolved@.skip(i as int),
                name@,
            ),
        decreases r.resolved@.len() - i,
    {
        proof {
            assert(r.resolved@.skip(i as int).drop_first() =~= r.resolved@.skip(i + 1));
            assert(r.resolved@.skip(i as int)[0] == r.resolved@[i as int]);
        }
        if str_equal(r.resolved[i].symbol.as_str(), name) {
            let s = r.resolved[i].source;
            if s < ms.len() && module_defines(&ms[s], name) {
                return Some((s, true));
            }
            return None;
        }
        i = i + 1;
    }
    None
}

/// An import group from the outdated `-v1` name of SNMPv2-SMI or SNMPv2-TC
/// is answered by that module: under non-strict resolution, when no module
/// of the `-v1` name defines the whole group but a module of the current
/// name does, every symbol resolves in Alias mode to a module of the current
/// name.
pub proof fn lemma_v1_import_resolves_to_current_module(
    ms: Seq<ImportingModule>,
    base: Seq<char>,
    symbols: Seq<Seq<char>>,
    strictness: ResolverStrictness,
    res: Seq<ResolvedImport>,
    unres: Seq<UnresolvedImport>,
)
    requires
        base == "SNMPv2-SMI"@ || base == "SNMPv2-TC"@,
        group_resolved(ms, base + "-v1"@, symbols, strictness, res, unres),
        strictness != ResolverStrictness::Strict,
        !has_full_module(ms, base + "-v1"@, symbols),
        has_full_module(ms, base, symbols),
    ensures
        unres.len() == 0,
        res.len() == symbols.len(),
        forall|i: int|
            0 <= i < res.len() ==> (#[trigger] res[i]).mode == ImportResolutionMode::Alias
                && ms[res[i].source as int].name@ == base,
{
    reveal_strlit("SNMPv2-SMI");
    reveal_strlit("SNMPv2-TC");
    reveal_strlit("-v1");
    reveal_strlit("SNMPv2-SMI-v1");
    reveal_strlit("SNMPv2-TC-v1");
    reveal_strlit("RFC1315-MIB");
    reveal_strlit("RFC-1213");
    reveal_strlit("FRAME-RELAY-DTE-MIB");
    reveal_strlit("RFC1213-MIB");
    assert("SNMPv2-TC-v1"@.len() == 12);
    assert("SNMPv2-TC-v1"@[7] == 'T');
    assert("SNMPv2-SMI-v1"@[7] == 'S');
    assert("RFC1315-MIB"@[0] == 'R');
    assert("RFC-1213"@[0] == 'R');
    if base == "SNMPv2-SMI"@ {
        assert(base + "-v1"@ =~= "SNMPv2-SMI-v1"@);
        assert(spec_base_module_import_alias(base + "-v1"@) == Some(base));
    } else {
        assert(base + "-v1"@ =~= "SNMPv2-TC-v1"@);
        assert("SNMPv2-TC-v1"@ != "SNMPv2-SMI-v1"@);
        assert(spec_base_module_import_alias(base + "-v1"@) == Some(base));
    }
    assert(alias_answers(ms, base + "-v1"@, symbols, strictness));
    assert forall|i: int| 0 <= i < res.len() implies (#[trigger] res[i]).mode == ImportResolutionMode::Alias
        && ms[res[i].source as int].name@ == base by {
        assert(mode_holds(ms, base + "-v1"@, symbols, strictness, res[i]));
    }
}

} // verus!
