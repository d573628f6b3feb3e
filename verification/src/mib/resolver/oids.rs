//! OID resolution rules: the well-known roots, and which module's
//! definition wins when several modules register the same OID.

use vstd::prelude::*;
use vstd::string::StringSliceAdditionalSpecFns;

use crate::mib::resolver::util::{language_rank, normalize_timestamp, spec_normalize_timestamp};
use crate::text::{ascii_chars, str_equal};
use crate::types::Language;

verus! {

/// The names of the OID roots.
pub open spec fn spec_is_well_known_root(name: Seq<char>) -> bool {
    name == "iso"@ || name == "ccitt"@ || name == "joint-iso-ccitt"@
}

/// Return whether the name is an OID root.
pub fn is_well_known_root(name: &str) -> (r: bool)
    ensures
        r == spec_is_well_known_root(name@),
{
    str_equal(name, "iso") || str_equal(name, "ccitt") || str_equal(name, "joint-iso-ccitt")
}

/// The arc of an OID root.
pub open spec fn spec_well_known_root_arc(name: Seq<char>) -> Option<u32> {
    if name == "ccitt"@ {
        Some(0u32)
    } else if name == "iso"@ {
        Some(1u32)
    } else if name == "joint-iso-ccitt"@ {
        Some(2u32)
    } else {
        None
    }
}

/// Return the arc of an OID root.
pub fn well_known_root_arc(name: &str) -> (r: Option<u32>)
    ensures
        r == spec_well_known_root_arc(name@),
{
    if str_equal(name, "ccitt") {
        Some(0)
    } else if str_equal(name, "iso") {
        Some(1)
    } else if str_equal(name, "joint-iso-ccitt") {
        Some(2)
    } else {
        None
    }
}

/// `a` sorts strictly before `b` byte by byte (a proper prefix sorts first).
pub open spec fn lex_less(a: Seq<u8>, b: Seq<u8>) -> bool
    decreases a.len(),
{
    if b.len() == 0 {
        false
    } else if a.len() == 0 {
        true
    } else if a[0] != b[0] {
        a[0] < b[0]
    } else {
        lex_less(a.drop_first(), b.drop_first())
    }
}

/// Of two different byte strings exactly one sorts first.
pub proof fn lemma_lex_less_trichotomy(a: Seq<u8>, b: Seq<u8>)
    ensures
        a != b ==> (lex_less(a, b) != lex_less(b, a)),
        !(lex_less(a, b) && lex_less(b, a)),
        !lex_less(a, a),
    decreases a.len(),
{
    if a.len() > 0 && b.len() > 0 {
        lemma_lex_less_trichotomy(a.drop_first(), b.drop_first());
        if a[0] == b[0] && a != b {
            assert(a.drop_first() != b.drop_first()) by {
                if a.drop_first() =~= b.drop_first() {
                    assert forall|k: int| 0 <= k < a.len() implies a[k] == b[k] by {
                        if k > 0 {
                            assert(a[k] == a.drop_first()[k - 1]);
                            assert(b[k] == b.drop_first()[k - 1]);
                        }
                    }
                    assert(a =~= b);
                }
            }
        }
    } else if a.len() > 0 {
        lemma_lex_less_trichotomy(a.drop_first(), a.drop_first());
    } else if b.len() > 0 {
        assert(a =~= Seq::<u8>::empty());
    } else {
        assert(a =~= b);
    }
}

/// Return whether `a` sorts strictly before `b` byte by byte.
pub fn bytes_less(a: &[u8], b: &[u8]) -> (r: bool)
    ensures
        r == lex_less(a@, b@),
{
    let mut i: usize = 0;
    assert(a@.subrange(0, a@.len() as int) =~= a@);
    assert(b@.subrange(0, b@.len() as int) =~= b@);
    while i < a.len() && i < b.len()
        invariant
            0 <= i <= a@.len(),
            i <= b@.len(),
            forall|k: int| 0 <= k < i ==> a@[k] == b@[k],
            lex_less(a@, b@) == lex_less(a@.subrange(i as int, a@.len() as int), b@.subrange(
                i as int,
                b@.len() as int,
            )),
        decreases a@.len() - i,
    {
        if a[i] != b[i] {
            return a[i] < b[i];
        }
        proof {
            let sa = a@.subrange(i as int, a@.len() as int);
            let sb = b@.subrange(i as int, b@.len() as int);
            assert(sa.drop_first() =~= a@.subrange(i + 1, a@.len() as int));
            assert(sb.drop_first() =~= b@.subrange(i + 1, b@.len() as int));
        }
        i = i + 1;
    }
    i < b.len()
}

/// What decides which of two modules' definitions of an OID is kept: being
/// a foundation module, the SMI language, `LAST-UPDATED`, and the name.
pub struct ModuleRank<'a> {
    /// The module is one of the SMI foundation modules.
    pub is_base: bool,
    /// The module's SMI language.
    pub language: Language,
    /// The module's `LAST-UPDATED` value.
    pub last_updated: &'a str,
    /// The module's name.
    pub name: &'a str,
}

/// The preference rank of a language.
pub open spec fn spec_language_rank(l: Language) -> int {
    match l {
        Language::SMIv2 => 2,
        Language::SMIv1 => 1,
        Language::SPPI => 1,
        Language::Unknown => 0,
    }
}

/// The new module wins over the current one: foundation modules win; then
/// the higher language rank; then the later normalized `LAST-UPDATED`;
/// then the name that sorts first.
pub open spec fn spec_prefers(new: ModuleRank, current: ModuleRank) -> bool {
    let new_ts = spec_normalize_timestamp(new.last_updated.spec_bytes());
    let cur_ts = spec_normalize_timestamp(current.last_updated.spec_bytes());
    if new.is_base != current.is_base {
        new.is_base
    } else if spec_language_rank(new.language) != spec_language_rank(current.language) {
        spec_language_rank(new.language) > spec_language_rank(current.language)
    } else if new_ts != cur_ts {
        lex_less(cur_ts, new_ts)
    } else {
        lex_less(new.name.spec_bytes(), current.name.spec_bytes())
    }
}

/// Return whether a new module's definition should replace the current
/// one's; with no current definition the new one is always taken.
pub fn should_prefer_module(current: Option<&ModuleRank>, new: &ModuleRank) -> (r: bool)
    ensures
        match current {
            None => r,
            Some(c) => r == spec_prefers(*new, *c),
        },
{
    let current = match current {
        None => return true,
        Some(c) => c,
    };
    if new.is_base != current.is_base {
        return new.is_base;
    }
    let new_rank = language_rank(new.language);
    let current_rank = language_rank(current.language);
    if new_rank != current_rank {
        return new_rank > current_rank;
    }
    let new_ts = normalize_timestamp(new.last_updated);
    let current_ts = normalize_timestamp(current.last_updated);
    let new_ts_bytes = new_ts.as_str().as_bytes();
    let current_ts_bytes = current_ts.as_str().as_bytes();
    proof {
        crate::mib::resolver::util::lemma_normalized_timestamp_is_ascii(new.last_updated.spec_bytes());
        crate::mib::resolver::util::lemma_normalized_timestamp_is_ascii(
            current.last_updated.spec_bytes(),
        );
        lemma_ascii_text_bytes(spec_normalize_timestamp(new.last_updated.spec_bytes()));
        lemma_ascii_text_bytes(spec_normalize_timestamp(current.last_updated.spec_bytes()));
    }
    if !crate::text::bytes_equal(new_ts_bytes, current_ts_bytes) {
        return bytes_less(current_ts_bytes, new_ts_bytes);
    }
    bytes_less(new.name.as_bytes(), current.name.as_bytes())
}

/// A string made of ASCII characters encodes to those bytes.
proof fn lemma_ascii_text_bytes(b: Seq<u8>)
    requires
        crate::text::all_ascii(b),
    ensures
        vstd::utf8::encode_utf8(ascii_chars(b)) == b,
{
    crate::text::lemma_ascii_decode(b);
    vstd::utf8::decode_utf8_encode_utf8(b);
}

/// Of two modules with different names, exactly one is preferred over the
/// other, so the kept definition does not depend on the order in which
/// the modules are seen.
pub proof fn lemma_preference_is_decisive(a: ModuleRank, b: ModuleRank)
    requires
        a.name.spec_bytes() != b.name.spec_bytes(),
    ensures
        spec_prefers(a, b) != spec_prefers(b, a),
{
    lemma_lex_less_trichotomy(a.name.spec_bytes(), b.name.spec_bytes());
    lemma_lex_less_trichotomy(
        spec_normalize_timestamp(a.last_updated.spec_bytes()),
        spec_normalize_timestamp(b.last_updated.spec_bytes()),
    );
}

} // verus!
