//! Source documents, byte ranges inside them, and source candidates.
//!
//! A [`SourceDocument`] holds the immutable bytes of one MIB file together
//! with its origin and display label. Tokens, AST nodes and diagnostics refer
//! to text through [`SourceRange`]s, which name the document they belong to.

use std::sync::Arc;

use vstd::prelude::*;
use vstd::string::StringSliceAdditionalSpecFns;
use vstd::utf8::encode_utf8;

use crate::text::{
    ascii_chars, bytes_lex_less, bytes_to_vec, concat3, dec_bytes, decimal_string, lemma_lex_irreflexive,
    lemma_lex_total, lemma_lex_transitive, lex_less, str_equal,
};

verus! {

/// Identifies one document inside a [`SourceSet`].
#[derive(Clone, Copy, Debug, PartialEq, Eq, Structural, Hash)]
pub struct SourceId(pub u32);

/// A half-open byte range `start..end` inside one source document.
#[derive(Clone, Copy, Debug, PartialEq, Eq, Structural, Hash)]
pub struct SourceRange {
    pub source: SourceId,
    pub start: usize,
    pub end: usize,
}

impl SourceRange {
    /// Create a range.
    pub fn new(source: SourceId, start: usize, end: usize) -> (r: SourceRange)
        ensures
            r.source == source && r.start == start && r.end == end,
    {
        SourceRange { source, start, end }
    }

    /// Return the document this range belongs to.
    pub fn source(&self) -> (s: SourceId)
        ensures
            s == self.source,
    {
        self.source
    }

    /// Return the first byte offset.
    pub fn start(&self) -> (s: usize)
        ensures
            s == self.start,
    {
        self.start
    }

    /// Return the offset one past the last byte.
    pub fn end(&self) -> (e: usize)
        ensures
            e == self.end,
    {
        self.end
    }

    /// Return the byte range as a standard range.
    pub fn byte_range(&self) -> (r: std::ops::Range<usize>)
        ensures
            r.start == self.start && r.end == self.end,
    {
        self.start..self.end
    }

    /// The smallest range covering both `first` and `last`.
    pub open spec fn spec_cover(first: SourceRange, last: SourceRange) -> SourceRange {
        SourceRange {
            source: first.source,
            start: if first.start <= last.start { first.start } else { last.start },
            end: if first.end >= last.end { first.end } else { last.end },
        }
    }

    /// Return the smallest range covering both `first` and `last`.
    pub fn cover(first: SourceRange, last: SourceRange) -> (r: SourceRange)
        ensures
            r == Self::spec_cover(first, last),
    {
        let start = if first.start <= last.start { first.start } else { last.start };
        let end = if first.end >= last.end { first.end } else { last.end };
        SourceRange { source: first.source, start, end }
    }
}

/// Where a source document came from.
#[derive(Clone, Debug, PartialEq, Eq, Hash)]
pub enum SourceOrigin {
    /// A file on disk.
    File(String),
    /// An in-memory buffer with a name.
    Memory(String),
    /// An SMI foundation module built into the library.
    Embedded(String),
    /// A caller-defined origin.
    Custom { kind: String, id: String },
}

impl SourceOrigin {
    /// A file origin.
    pub fn file(path: String) -> (o: SourceOrigin)
        ensures
            o == SourceOrigin::File(path),
    {
        SourceOrigin::File(path)
    }

    /// An in-memory origin.
    pub fn memory(name: &str) -> (o: SourceOrigin)
        ensures
            o matches SourceOrigin::Memory(n) && n@ == name@,
    {
        SourceOrigin::Memory(String::from_str(name))
    }

    /// An embedded foundation-module origin.
    pub fn embedded(name: &str) -> (o: SourceOrigin)
        ensures
            o matches SourceOrigin::Embedded(n) && n@ == name@,
    {
        SourceOrigin::Embedded(String::from_str(name))
    }

    /// A caller-defined origin.
    pub fn custom(kind: &str, id: &str) -> (o: SourceOrigin)
        ensures
            o matches SourceOrigin::Custom { kind: k, id: i } && k@ == kind@ && i@ == id@,
    {
        SourceOrigin::Custom { kind: String::from_str(kind), id: String::from_str(id) }
    }
}

/// The immutable bytes of one source together with its identity and label.
#[derive(Clone, Debug)]
pub struct SourceDocument {
    id: SourceId,
    origin: SourceOrigin,
    label: String,
    bytes: Vec<u8>,
}

impl SourceDocument {
    /// Return the document's identity.
    pub fn id(&self) -> (i: SourceId)
        ensures
            i == self.spec_id(),
    {
        self.id
    }

    /// The document's bytes.
    pub closed spec fn spec_bytes(&self) -> Seq<u8> {
        self.bytes@
    }

    /// The document's identity.
    pub closed spec fn spec_id(&self) -> SourceId {
        self.id
    }

    /// The document's display label.
    pub closed spec fn spec_label(&self) -> Seq<char> {
        self.label@
    }

    /// Where the document came from.
    pub closed spec fn spec_origin(&self) -> SourceOrigin {
        self.origin
    }

    /// Return the document's bytes.
    pub fn bytes(&self) -> (b: &[u8])
        ensures
            b@ == self.spec_bytes(),
    {
        self.bytes.as_slice()
    }

    /// Return the document's origin.
    pub fn origin(&self) -> (o: &SourceOrigin)
        ensures
            *o == self.spec_origin(),
    {
        &self.origin
    }

    /// Return the document's display label.
    pub fn label(&self) -> (l: &str)
        ensures
            l@ == self.spec_label(),
    {
        self.label.as_str()
    }

    /// Return the empty range at `offset`, if the offset lies in the document.
    pub fn empty_range(&self, offset: usize) -> (r: Option<SourceRange>)
        ensures
            offset <= self.spec_bytes().len() <==> r.is_some(),
            r matches Some(range) ==> range.source == self.spec_id() && range.start == offset
                && range.end == offset,
    {
        if offset <= self.bytes.len() {
            Some(SourceRange { source: self.id, start: offset, end: offset })
        } else {
            None
        }
    }

    /// Return the range `start..end`, if it is ordered and lies in the document.
    pub fn range(&self, start: usize, end: usize) -> (r: Option<SourceRange>)
        ensures
            (start <= end && end <= self.spec_bytes().len()) <==> r.is_some(),
            r matches Some(range) ==> range.source == self.spec_id() && range.start == start
                && range.end == end,
    {
        if start <= end && end <= self.bytes.len() {
            Some(SourceRange { source: self.id, start, end })
        } else {
            None
        }
    }

    /// Return the bytes a range covers, if it belongs to this document.
    pub fn slice(&self, range: SourceRange) -> (r: Option<&[u8]>)
        ensures
            (range.source == self.spec_id() && range.start <= range.end && range.end
                <= self.spec_bytes().len()) <==> r.is_some(),
            r matches Some(s) ==> s@ == self.spec_bytes().subrange(
                range.start as int,
                range.end as int,
            ),
    {
        if range.source == self.id && range.start <= range.end && range.end <= self.bytes.len() {
            Some(&self.bytes.as_slice()[range.start..range.end])
        } else {
            None
        }
    }
}

/// An ordered collection of documents; each gets the next [`SourceId`].
#[derive(Clone, Debug)]
pub struct SourceSet {
    documents: Vec<SourceDocument>,
}

impl SourceSet {
    /// The documents held, in insertion order.
    pub closed spec fn spec_documents(&self) -> Seq<SourceDocument> {
        self.documents@
    }

    /// Every document's identity is its position.
    pub closed spec fn wf(&self) -> bool {
        forall|i: int|
            0 <= i < self.documents@.len() ==> (#[trigger] self.documents@[i]).id.0 == i
    }

    /// Create an empty set.
    pub fn new() -> (s: SourceSet)
        ensures
            s.wf(),
            s.spec_documents().len() == 0,
    {
        SourceSet { documents: Vec::new() }
    }

    /// Add a document and return its identity; `None` when the set is full.
    pub fn insert(&mut self, origin: SourceOrigin, label: &str, bytes: &[u8]) -> (r: Option<
        SourceId,
    >)
        requires
            old(self).wf(),
        ensures
            final(self).wf(),
            old(self).spec_documents().len() < u32::MAX <==> r.is_some(),
            r matches Some(id) ==> {
                &&& id.0 == old(self).spec_documents().len()
                &&& final(self).spec_documents().len() == old(self).spec_documents().len() + 1
                &&& final(self).spec_documents().last().spec_bytes() == bytes@
                &&& final(self).spec_documents().last().spec_id() == id
                &&& final(self).spec_documents().last().spec_origin() == origin
                &&& final(self).spec_documents().last().spec_label() == label@
                &&& final(self).spec_documents().subrange(
                    0,
                    old(self).spec_documents().len() as int,
                ) == old(self).spec_documents()
            },
            r is None ==> final(self).spec_documents() == old(self).spec_documents(),
    {
        if self.documents.len() >= u32::MAX as usize {
            return None;
        }
        let id = SourceId(self.documents.len() as u32);
        let doc = SourceDocument {
            id,
            origin,
            label: String::from_str(label),
            bytes: bytes_to_vec(bytes),
        };
        self.documents.push(doc);
        assert(self.documents@.subrange(0, self.documents@.len() - 1) =~= old(
            self,
        ).documents@);
        Some(id)
    }

    /// Return the document with this identity.
    pub fn get(&self, id: SourceId) -> (r: Option<&SourceDocument>)
        requires
            self.wf(),
        ensures
            (id.0 < self.spec_documents().len()) <==> r.is_some(),
            r matches Some(d) ==> *d == self.spec_documents()[id.0 as int] && d.spec_id() == id,
    {
        if (id.0 as usize) < self.documents.len() {
            let d = &self.documents[id.0 as usize];
            Some(d)
        } else {
            None
        }
    }
}

/// An identity text scoped to a chain position: the position, the byte
/// length of the identity, and the identity, joined by `:`.
pub open spec fn scoped_text(id: Seq<char>, scope: nat) -> Seq<char> {
    ascii_chars(dec_bytes(scope)) + seq![':'] + ascii_chars(dec_bytes(encode_utf8(id).len()))
        + seq![':'] + id
}

/// Identifies one physical candidate within a source provider.
#[derive(Clone, Debug, Eq, Hash, Ord, PartialEq, PartialOrd)]
pub struct CandidateId(String);

impl CandidateId {
    /// The identity text.
    pub closed spec fn spec_text(&self) -> Seq<char> {
        self.0@
    }

    /// Create a provider-scoped candidate identity.
    pub fn new(identity: &str) -> (c: CandidateId)
        ensures
            c.spec_text() == identity@,
    {
        CandidateId(String::from_str(identity))
    }

    /// Return the provider-local identity text.
    pub fn as_str(&self) -> (s: &str)
        ensures
            s@ == self.spec_text(),
    {
        self.0.as_str()
    }

    /// The identity made unique across the sources of a chain: the source's
    /// position, the byte length of the identity, and the identity, joined
    /// by `:`.
    pub fn scoped(&self, scope: usize) -> (c: CandidateId)
        ensures
            c.spec_text() == scoped_text(self.spec_text(), scope as nat),
    {
        let scope_text = decimal_string(scope as u64);
        let id_str = self.0.as_str();
        let id_len = id_str.as_bytes().len();
        let len_text = decimal_string(id_len as u64);
        let sep = String::from_str(":");
        proof {
            reveal_strlit(":");
        }
        let head = concat3(scope_text.as_str(), sep.as_str(), len_text.as_str());
        let text = concat3(head.as_str(), sep.as_str(), self.0.as_str());
        proof {
            assert(sep@ =~= seq![':']);
            assert(id_len == encode_utf8(self.0@).len());
            assert(text@ =~= scoped_text(self.spec_text(), scope as nat));
        }
        CandidateId(text)
    }
}

impl From<&str> for CandidateId {
    fn from(identity: &str) -> (c: CandidateId)
        ensures
            c.spec_text() == identity@,
    {
        CandidateId::new(identity)
    }
}

/// The conversion from text gives the identity that text names; it is
/// stated on `from` itself rather than as one fixed value of the type.
impl vstd::std_specs::convert::FromSpecImpl<&str> for CandidateId {
    open spec fn obeys_from_spec() -> bool {
        false
    }

    open spec fn from_spec(v: &str) -> CandidateId {
        choose|c: CandidateId| c.spec_text() == v@
    }
}

impl From<String> for CandidateId {
    fn from(identity: String) -> (c: CandidateId)
        ensures
            c.spec_text() == identity@,
    {
        CandidateId::new(identity.as_str())
    }
}

/// The conversion from an owned string gives the identity that text names;
/// it is stated on `from` itself rather than as one fixed value of the type.
impl vstd::std_specs::convert::FromSpecImpl<String> for CandidateId {
    open spec fn obeys_from_spec() -> bool {
        false
    }

    open spec fn from_spec(v: String) -> CandidateId {
        choose|c: CandidateId| c.spec_text() == v@
    }
}

/// A physical source document advertised as a candidate for a module name.
///
/// Its identity, origin, display label and immutable bytes are independent.
#[derive(Clone, Debug)]
pub struct SourceCandidate {
    identity: CandidateId,
    origin: SourceOrigin,
    label: String,
    bytes: Arc<[u8]>,
}

impl SourceCandidate {
    /// The candidate's identity.
    pub closed spec fn spec_identity(&self) -> CandidateId {
        self.identity
    }

    /// The candidate's origin.
    pub closed spec fn spec_origin(&self) -> SourceOrigin {
        self.origin
    }

    /// The candidate's label.
    pub closed spec fn spec_label(&self) -> Seq<char> {
        self.label@
    }

    /// The candidate's shared byte allocation.
    pub closed spec fn spec_shared(&self) -> Arc<[u8]> {
        self.bytes
    }

    /// Create a source candidate.
    pub fn new(identity: CandidateId, origin: SourceOrigin, label: &str, bytes: Arc<[u8]>) -> (c:
        SourceCandidate)
        ensures
            c.spec_identity() == identity,
            c.spec_origin() == origin,
            c.spec_label() == label@,
            c.spec_shared() == bytes,
    {
        SourceCandidate { identity, origin, label: String::from_str(label), bytes }
    }

    /// Return this candidate's stable identity within its provider.
    pub fn identity(&self) -> (i: &CandidateId)
        ensures
            *i == self.spec_identity(),
    {
        &self.identity
    }

    /// Return the physical origin of the document.
    pub fn origin(&self) -> (o: &SourceOrigin)
        ensures
            *o == self.spec_origin(),
    {
        &self.origin
    }

    /// Return the label used to identify the document to users.
    pub fn label(&self) -> (l: &str)
        ensures
            l@ == self.spec_label(),
    {
        self.label.as_str()
    }

    /// Return the shared allocation containing the immutable source bytes.
    pub fn shared_bytes(&self) -> (b: &Arc<[u8]>)
        ensures
            *b == self.spec_shared(),
    {
        &self.bytes
    }

    /// Return the immutable source bytes.
    pub fn bytes(&self) -> (b: &[u8])
        ensures
            b@ == (*self.spec_shared())@,
    {
        &*self.bytes
    }

    /// The same candidate with its identity scoped to a chain position.
    pub fn with_scoped_identity(self, scope: usize) -> (c: SourceCandidate)
        ensures
            c.spec_identity().spec_text() == scoped_text(self.spec_identity().spec_text(), scope as nat),
            c.spec_origin() == self.spec_origin(),
            c.spec_label() == self.spec_label(),
            c.spec_shared() == self.spec_shared(),
    {
        let identity = self.identity.scoped(scope);
        SourceCandidate { identity, origin: self.origin, label: self.label, bytes: self.bytes }
    }
}

/// The lower-case form of a text, as `str::to_lowercase` computes it.
pub uninterp spec fn lowercase(s: Seq<char>) -> Seq<char>;

/// Lower-case a text.
///
/// Calls `str::to_lowercase`. Trusted claim: the result depends on the text
/// alone and is named by `lowercase`; nothing more is stated of it.
#[verifier::external_body]
fn to_lowercase(s: &str) -> (r: String)
    ensures
        r@ == lowercase(s@),
{
    s.to_lowercase()
}

/// A file name that is one path component on every platform: no `/`,
/// `\` or `:` in it.
pub open spec fn plain_file_name(name: Seq<char>) -> bool {
    !name.contains('/') && !name.contains('\\') && !name.contains(':')
}

/// The position of the last `.` of `name` before position `n`, if any.
pub open spec fn last_dot_before(name: Seq<char>, n: int) -> Option<int>
    decreases n,
{
    if n <= 0 {
        None
    } else if name[n - 1] == '.' {
        Some(n - 1)
    } else {
        last_dot_before(name, n - 1)
    }
}

/// The extension of a plain file name: the text after its last `.`, when
/// that `.` is not its first character; none for `..`.
pub open spec fn name_extension(name: Seq<char>) -> Option<Seq<char>> {
    if name == seq!['.', '.'] {
        None
    } else {
        match last_dot_before(name, name.len() as int) {
            Some(i) => if i > 0 {
                Some(name.subrange(i + 1, name.len() as int))
            } else {
                None
            },
            None => None,
        }
    }
}

/// Return the extension of a path.
///
/// Calls `std::path::Path::extension` and converts the result to a
/// `String`. Trusted claim: for a plain file name (one component on every
/// platform) the result is the text after the last `.`, when that `.` is
/// not the first character, and none for `..`, as std documents it. For a
/// path with separators the result depends on the platform's separators
/// and nothing is stated.
#[verifier::external_body]
fn extension_of(path: &str) -> (r: Option<String>)
    ensures
        plain_file_name(path@) ==> match r {
            Some(e) => name_extension(path@) == Some(e@),
            None => name_extension(path@) is None,
        },
{
    match std::path::Path::new(path).extension() {
        Some(e) => Some(e.to_string_lossy().into_owned()),
        None => None,
    }
}

/// An extension as configured: lower-cased, with a leading `.` added to a
/// non-empty extension that lacks one.
pub open spec fn normalized_extension(ext: Seq<char>) -> Seq<char> {
    let l = lowercase(ext);
    if l.len() > 0 && l[0] != '.' {
        seq!['.'] + l
    } else {
        l
    }
}

/// The extension a file is matched by: `.` and its lower-cased extension,
/// or the empty text when it has none.
pub open spec fn file_extension_key(path: Seq<char>) -> Seq<char> {
    match name_extension(path) {
        Some(e) => seq!['.'] + lowercase(e),
        None => Seq::empty(),
    }
}

/// The extensions recognized as MIB files by default. The empty extension
/// matches files with no extension (e.g. `IF-MIB`).
pub open spec fn default_extensions() -> Seq<Seq<char>> {
    seq![""@, ".mib"@, ".smi"@, ".txt"@, ".my"@]
}

/// Which file extensions directory sources recognize as MIB files.
#[derive(Clone, Debug)]
pub struct SourceConfig {
    extensions: Vec<String>,
}

/// The texts of a list of strings.
pub open spec fn texts(v: Seq<String>) -> Seq<Seq<char>> {
    v.map_values(|s: String| s@)
}

impl SourceConfig {
    /// The recognized extensions.
    pub closed spec fn spec_extensions(&self) -> Seq<Seq<char>> {
        texts(self.extensions@)
    }

    /// Return the recognized extensions.
    pub fn extensions(&self) -> (r: &[String])
        ensures
            texts(r@) == self.spec_extensions(),
    {
        self.extensions.as_slice()
    }

    /// Override the default file extensions used to match MIB files.
    ///
    /// Extensions are normalized to lowercase with a leading dot.
    /// An empty string (`""`) matches files with no extension (e.g. `IF-MIB`).
    pub fn with_extensions(self, exts: &[&str]) -> (c: SourceConfig)
        ensures
            c.spec_extensions() == exts@.map_values(|e: &str| normalized_extension(e@)),
    {
        let mut out: Vec<String> = Vec::new();
        let mut i: usize = 0;
        while i < exts.len()
            invariant
                0 <= i <= exts@.len(),
                texts(out@) == exts@.subrange(0, i as int).map_values(
                    |e: &str| normalized_extension(e@),
                ),
            decreases exts@.len() - i,
        {
            let lower = to_lowercase(exts[i]);
            let n = lower.as_str().unicode_len();
            let normalized = if n > 0 && lower.as_str().get_char(0) != '.' {
                let dot = String::from_str(".");
                proof {
                    reveal_strlit(".");
                    assert(dot@ =~= seq!['.']);
                }
                dot.concat(lower.as_str())
            } else {
                lower
            };
            assert(normalized@ == normalized_extension(exts@[i as int]@));
            let ghost before = out@;
            out.push(normalized);
            proof {
                assert(texts(out@) =~= texts(before).push(normalized_extension(exts@[i as int]@)));
                assert(exts@.subrange(0, i + 1).map_values(|e: &str| normalized_extension(e@))
                    =~= exts@.subrange(0, i as int).map_values(|e: &str| normalized_extension(e@)).push(
                    normalized_extension(exts@[i as int]@),
                ));
            }
            i = i + 1;
        }
        proof {
            assert(exts@.subrange(0, exts@.len() as int) =~= exts@);
        }
        SourceConfig { extensions: out }
    }
}

impl Default for SourceConfig {
    fn default() -> (c: SourceConfig)
        ensures
            c.spec_extensions() == default_extensions(),
    {
        let mut extensions: Vec<String> = Vec::new();
        extensions.push(String::from_str(""));
        extensions.push(String::from_str(".mib"));
        extensions.push(String::from_str(".smi"));
        extensions.push(String::from_str(".txt"));
        extensions.push(String::from_str(".my"));
        let c = SourceConfig { extensions };
        assert(c.spec_extensions() =~= default_extensions());
        c
    }
}

/// Return whether the file named `path` has one of the given extensions:
/// `.` and its lower-cased extension, or the empty extension when it has
/// none. For a path with separators the extension is read by the
/// platform's rules, which nothing here states.
pub fn has_valid_extension(path: &str, ext_set: &[String]) -> (r: bool)
    ensures
        plain_file_name(path@) ==> r == texts(ext_set@).contains(file_extension_key(path@)),
{
    let key = match extension_of(path) {
        Some(e) => {
            let lower = to_lowercase(e.as_str());
            let dot = String::from_str(".");
            proof {
                reveal_strlit(".");
                assert(dot@ =~= seq!['.']);
            }
            dot.concat(lower.as_str())
        },
        None => {
            proof {
                reveal_strlit("");
            }
            String::from_str("")
        },
    };
    assert(plain_file_name(path@) ==> key@ == file_extension_key(path@));
    let mut i: usize = 0;
    while i < ext_set.len()
        invariant
            0 <= i <= ext_set@.len(),
            plain_file_name(path@) ==> key@ == file_extension_key(path@),
            forall|k: int| 0 <= k < i ==> ext_set@[k]@ != key@,
        decreases ext_set@.len() - i,
    {
        if str_equal(ext_set[i].as_str(), key.as_str()) {
            proof {
                assert(texts(ext_set@)[i as int] == key@);
            }
            return true;
        }
        i = i + 1;
    }
    proof {
        if texts(ext_set@).contains(key@) {
            let k = choose|k: int| 0 <= k < texts(ext_set@).len() && texts(ext_set@)[k] == key@;
            assert(ext_set@[k]@ == key@);
        }
    }
    false
}

/// The label of an in-memory module: `<memory:NAME>`.
pub fn memory_label(name: &str) -> (r: String)
    ensures
        r@ == "<memory:"@ + name@ + ">"@,
{
    concat3("<memory:", name, ">")
}

/// Names in strictly increasing byte order (the order of `String`
/// comparison); such names are distinct.
pub open spec fn strictly_sorted(names: Seq<String>) -> bool {
    forall|i: int, j: int|
        #![trigger names[i], names[j]]
        0 <= i < j < names.len() ==> lex_less(encode_utf8(names[i]@), encode_utf8(names[j]@))
}

/// The map that inserting `(name, bytes)` pairs in order builds: a later
/// entry for a name replaces an earlier one.
pub open spec fn entries_map(entries: Seq<(String, Vec<u8>)>) -> Map<Seq<char>, Seq<u8>>
    decreases entries.len(),
{
    if entries.len() == 0 {
        Map::empty()
    } else {
        entries_map(entries.drop_last()).insert(entries.last().0@, entries.last().1@)
    }
}

/// Strictly sorted names are distinct.
pub proof fn lemma_sorted_names_distinct(names: Seq<String>, i: int, j: int)
    requires
        strictly_sorted(names),
        0 <= i < names.len(),
        0 <= j < names.len(),
        names[i]@ == names[j]@,
    ensures
        i == j,
{
    lemma_lex_irreflexive(encode_utf8(names[i]@));
    if i < j {
        assert(lex_less(encode_utf8(names[i]@), encode_utf8(names[j]@)));
    } else if j < i {
        assert(lex_less(encode_utf8(names[j]@), encode_utf8(names[i]@)));
    }
}

/// MIB modules held in memory, keyed by module name.
pub struct MemorySource {
    names: Vec<String>,
    contents: Vec<Vec<u8>>,
}

impl MemorySource {
    /// Names and contents line up, and the names are strictly sorted.
    pub closed spec fn wf(&self) -> bool {
        &&& self.names@.len() == self.contents@.len()
        &&& strictly_sorted(self.names@)
    }

    /// The position at which `name` is held.
    closed spec fn slot(&self, name: Seq<char>) -> int {
        choose|i: int| 0 <= i < self.names@.len() && self.names@[i]@ == name
    }

    /// The name is held.
    closed spec fn holds(&self, name: Seq<char>) -> bool {
        exists|i: int| 0 <= i < self.names@.len() && #[trigger] self.names@[i]@ == name
    }

    proof fn lemma_slot(&self, i: int)
        requires
            self.wf(),
            0 <= i < self.names@.len(),
        ensures
            self.holds(self.names@[i]@),
            self.slot(self.names@[i]@) == i,
    {
        let k = self.names@[i]@;
        assert(self.names@[i]@ == k);
        let s = self.slot(k);
        lemma_sorted_names_distinct(self.names@, s, i);
    }

    /// Return an empty source.
    fn empty() -> (s: MemorySource)
        ensures
            s.wf(),
            s@ == Map::<Seq<char>, Seq<u8>>::empty(),
    {
        let s = MemorySource { names: Vec::new(), contents: Vec::new() };
        assert(s@ =~= Map::<Seq<char>, Seq<u8>>::empty());
        s
    }

    /// Hold `bytes` under `name`, replacing what was held under it.
    fn insert(&mut self, name: String, bytes: Vec<u8>)
        requires
            old(self).wf(),
        ensures
            final(self).wf(),
            final(self)@ == old(self)@.insert(name@, bytes@),
    {
        let ghost old_self = *self;
        let ghost key = encode_utf8(name@);
        let mut j: usize = 0;
        while j < self.names.len() && bytes_lex_less(self.names[j].as_str().as_bytes(), name.as_str().as_bytes())
            invariant
                *self == old_self,
                old_self.wf(),
                key == encode_utf8(name@),
                0 <= j <= self.names@.len(),
                forall|k: int| 0 <= k < j ==> lex_less(encode_utf8((#[trigger] self.names@[k])@), key),
            decreases self.names@.len() - j,
        {
            j = j + 1;
        }
        if j < self.names.len() && str_equal(self.names[j].as_str(), name.as_str()) {
            self.contents.set(j, bytes);
            proof {
                assert(self.names@ == old_self.names@);
                assert forall|k: Seq<char>| #[trigger] self@.contains_key(k) == old_self@.insert(name@, bytes@).contains_key(k) by {
                    if k == name@ {
                        old_self.lemma_slot(j as int);
                    }
                }
                assert forall|k: Seq<char>| #[trigger] self@.contains_key(k) implies self@[k] == old_self@.insert(name@, bytes@)[k] by {
                    let i = choose|i: int| 0 <= i < self.names@.len() && #[trigger] self.names@[i]@ == k;
                    self.lemma_slot(i);
                    old_self.lemma_slot(i);
                    if k == name@ {
                        lemma_sorted_names_distinct(self.names@, i, j as int);
                    } else {
                        assert(i != j);
                    }
                }
                assert(self@ =~= old_self@.insert(name@, bytes@));
            }
        } else {
            proof {
                if j < old_self.names@.len() {
                    let nj = encode_utf8(old_self.names@[j as int]@);
                    if nj == key {
                        vstd::utf8::encode_utf8_decode_utf8(old_self.names@[j as int]@);
                        vstd::utf8::encode_utf8_decode_utf8(name@);
                    }
                    lemma_lex_total(nj, key);
                    assert(lex_less(key, nj));
                }
            }
            let ghost name_view = name@;
            self.names.insert(j, name);
            self.contents.insert(j, bytes);
            proof {
                let on = old_self.names@;
                let nn = self.names@;
                assert(nn == on.insert(j as int, nn[j as int]));
                assert(nn[j as int]@ == name_view);
                assert forall|a: int, b: int|
                    #![trigger nn[a], nn[b]]
                    0 <= a < b < nn.len() implies lex_less(encode_utf8(nn[a]@), encode_utf8(nn[b]@)) by {
                    if b < j {
                        assert(nn[a] == on[a] && nn[b] == on[b]);
                    } else if b == j {
                        assert(nn[a] == on[a]);
                    } else if a > j {
                        assert(nn[a] == on[a - 1] && nn[b] == on[b - 1]);
                    } else if a == j {
                        assert(nn[b] == on[b - 1]);
                        if b - 1 > j {
                            assert(lex_less(encode_utf8(on[j as int]@), encode_utf8(on[b - 1]@)));
                            lemma_lex_transitive(key, encode_utf8(on[j as int]@), encode_utf8(on[b - 1]@));
                        }
                    } else {
                        assert(nn[a] == on[a] && nn[b] == on[b - 1]);
                        if b - 1 > j {
                            assert(lex_less(encode_utf8(on[j as int]@), encode_utf8(on[b - 1]@)));
                            lemma_lex_transitive(key, encode_utf8(on[j as int]@), encode_utf8(on[b - 1]@));
                        }
                        lemma_lex_transitive(encode_utf8(on[a]@), key, encode_utf8(on[b - 1]@));
                    }
                }
                assert(self.wf());
                let target = old_self@.insert(name_view, bytes@);
                assert forall|k: Seq<char>| #[trigger] self@.contains_key(k) == target.contains_key(k) by {
                    if self.holds(k) {
                        let i = choose|i: int| 0 <= i < nn.len() && #[trigger] nn[i]@ == k;
                        if i < j {
                            assert(on[i]@ == k);
                        } else if i > j {
                            assert(on[i - 1]@ == k);
                        }
                    }
                    if old_self.holds(k) {
                        let i = choose|i: int| 0 <= i < on.len() && #[trigger] on[i]@ == k;
                        if i < j {
                            assert(nn[i]@ == k);
                        } else {
                            assert(nn[i + 1]@ == k);
                        }
                    }
                    if k == name_view {
                        assert(nn[j as int]@ == k);
                    }
                }
                assert forall|k: Seq<char>| #[trigger] self@.contains_key(k) implies self@[k] == target[k] by {
                    let i = choose|i: int| 0 <= i < nn.len() && #[trigger] nn[i]@ == k;
                    self.lemma_slot(i);
                    if i == j {
                    } else if i < j {
                        old_self.lemma_slot(i);
                        assert(on[i]@ == k);
                        if k == name_view {
                            lemma_sorted_names_distinct(nn, i, j as int);
                        }
                    } else {
                        old_self.lemma_slot(i - 1);
                        assert(on[i - 1]@ == k);
                        if k == name_view {
                            lemma_sorted_names_distinct(nn, i, j as int);
                        }
                    }
                }
                assert(self@ =~= target);
            }
        }
    }

    /// Return the bytes held under `name`.
    pub fn find(&self, name: &str) -> (r: Option<&[u8]>)
        requires
            self.wf(),
        ensures
            match r {
                Some(b) => self@.contains_key(name@) && self@[name@] == b@,
                None => !self@.contains_key(name@),
            },
    {
        let mut i: usize = 0;
        while i < self.names.len()
            invariant
                self.wf(),
                0 <= i <= self.names@.len(),
                forall|k: int| 0 <= k < i ==> (#[trigger] self.names@[k])@ != name@,
            decreases self.names@.len() - i,
        {
            if str_equal(self.names[i].as_str(), name) {
                proof {
                    self.lemma_slot(i as int);
                }
                return Some(self.contents[i].as_slice());
            }
            i = i + 1;
        }
        None
    }

    /// Return the names of the modules held, in sorted order.
    pub fn list_modules(&self) -> (r: Vec<String>)
        requires
            self.wf(),
        ensures
            strictly_sorted(r@),
            forall|k: Seq<char>|
                self@.contains_key(k) <==> exists|i: int| 0 <= i < r@.len() && #[trigger] r@[i]@ == k,
    {
        let mut r: Vec<String> = Vec::new();
        let mut i: usize = 0;
        while i < self.names.len()
            invariant
                self.wf(),
                0 <= i <= self.names@.len(),
                r@.len() == i,
                forall|k: int| 0 <= k < i ==> (#[trigger] r@[k])@ == self.names@[k]@,
            decreases self.names@.len() - i,
        {
            r.push(self.names[i].clone());
            i = i + 1;
        }
        proof {
            assert forall|a: int, b: int|
                #![trigger r@[a], r@[b]]
                0 <= a < b < r@.len() implies lex_less(encode_utf8(r@[a]@), encode_utf8(r@[b]@)) by {
                assert(lex_less(encode_utf8(self.names@[a]@), encode_utf8(self.names@[b]@)));
            }
            assert forall|k: Seq<char>|
                self@.contains_key(k) <==> exists|i: int| 0 <= i < r@.len() && #[trigger] r@[i]@ == k by {
                if self.holds(k) {
                    let i = choose|i: int| 0 <= i < self.names@.len() && #[trigger] self.names@[i]@ == k;
                    assert(r@[i]@ == k);
                }
                if exists|i: int| 0 <= i < r@.len() && #[trigger] r@[i]@ == k {
                    let i = choose|i: int| 0 <= i < r@.len() && #[trigger] r@[i]@ == k;
                    assert(self.names@[i]@ == k);
                }
            }
        }
        r
    }
}

impl View for MemorySource {
    type V = Map<Seq<char>, Seq<u8>>;

    /// The module name to bytes map.
    closed spec fn view(&self) -> Map<Seq<char>, Seq<u8>> {
        Map::new(|k: Seq<char>| self.holds(k), |k: Seq<char>| self.contents@[self.slot(k)]@)
    }
}

/// Build a source of in-memory modules from `(name, bytes)` pairs; a later
/// pair for a name replaces an earlier one.
pub fn memory_modules(modules: Vec<(String, Vec<u8>)>) -> (s: MemorySource)
    ensures
        s.wf(),
        s@ == entries_map(modules@),
{
    let ghost all = modules@;
    let total = modules.len();
    let mut rest = modules;
    let mut s = MemorySource::empty();
    let mut n: usize = 0;
    assert(all.take(0) =~= Seq::<(String, Vec<u8>)>::empty());
    assert(all.skip(0) =~= all);
    while rest.len() > 0
        invariant
            s.wf(),
            0 <= n <= all.len(),
            all.len() == total,
            rest@ == all.skip(n as int),
            s@ == entries_map(all.take(n as int)),
        decreases rest@.len(),
    {
        let (name, bytes) = rest.remove(0);
        proof {
            assert(all.skip(n as int)[0] == all[n as int]);
            assert(all.skip(n as int).remove(0) =~= all.skip(n + 1));
            assert(all.take(n + 1).drop_last() =~= all.take(n as int));
            assert(all.take(n + 1).last() == all[n as int]);
        }
        s.insert(name, bytes);
        n = n + 1;
    }
    assert(all.take(n as int) =~= all);
    s
}

/// Build a source holding a single in-memory module.
pub fn memory(name: String, bytes: Vec<u8>) -> (s: MemorySource)
    ensures
        s.wf(),
        s@ == Map::<Seq<char>, Seq<u8>>::empty().insert(name@, bytes@),
{
    let mut s = MemorySource::empty();
    s.insert(name, bytes);
    s
}

/// The candidate for an in-memory module: identity and origin from its
/// name, label `<memory:NAME>`, and the shared bytes.
pub fn memory_candidate(name: &str, bytes: Arc<[u8]>) -> (c: SourceCandidate)
    ensures
        c.spec_identity().spec_text() == name@,
        c.spec_origin() matches SourceOrigin::Memory(n) && n@ == name@,
        c.spec_label() == "<memory:"@ + name@ + ">"@,
        c.spec_shared() == bytes,
{
    let label = memory_label(name);
    SourceCandidate::new(CandidateId::new(name), SourceOrigin::memory(name), label.as_str(), bytes)
}

/// Of several in-memory entries for one name, the last one is what the
/// source holds under it.
pub proof fn lemma_last_entry_wins(entries: Seq<(String, Vec<u8>)>, i: int)
    requires
        0 <= i < entries.len(),
        forall|j: int| i < j < entries.len() ==> (#[trigger] entries[j]).0@ != entries[i].0@,
    ensures
        entries_map(entries).contains_key(entries[i].0@),
        entries_map(entries)[entries[i].0@] == entries[i].1@,
    decreases entries.len(),
{
    if i < entries.len() - 1 {
        let rest = entries.drop_last();
        assert forall|j: int| i < j < rest.len() implies (#[trigger] rest[j]).0@ != rest[i].0@ by {
            assert(rest[j] == entries[j]);
        }
        lemma_last_entry_wins(rest, i);
        assert(entries.last() == entries[entries.len() - 1]);
    }
}

/// What a chain of providers does with the answer of the provider at a
/// position: stop with the candidate it found, or ask the next one.
pub enum ChainStep {
    /// The chain's answer, scoped to the provider's position.
    Found(SourceCandidate),
    /// Ask the next provider.
    Next,
}

/// Decide on the answer of the provider at `index` of a chain.
pub fn chain_step(index: usize, found: Option<SourceCandidate>) -> (r: ChainStep)
    ensures
        match found {
            Some(c) => r matches ChainStep::Found(d) && d.spec_identity().spec_text() == scoped_text(
                c.spec_identity().spec_text(),
                index as nat,
            ) && d.spec_origin() == c.spec_origin() && d.spec_label() == c.spec_label()
                && d.spec_shared() == c.spec_shared(),
            None => r is Next,
        },
{
    match found {
        Some(c) => ChainStep::Found(c.with_scoped_identity(index)),
        None => ChainStep::Next,
    }
}

/// The module names of several providers, one list after another.
pub open spec fn joined_names(lists: Seq<Vec<String>>) -> Seq<Seq<char>>
    decreases lists.len(),
{
    if lists.len() == 0 {
        seq![]
    } else {
        joined_names(lists.drop_last()) + crate::searchpath::views_of(lists.last()@)
    }
}

/// The module names a chain of providers lists: each provider's names in
/// order, keeping the first occurrence of a name.
pub fn chain_modules(lists: Vec<Vec<String>>) -> (r: Vec<String>)
    ensures
        crate::searchpath::views_of(r@) == crate::searchpath::spec_dedup(joined_names(lists@)),
{
    let mut all: Vec<String> = Vec::new();
    let mut i: usize = 0;
    assert(lists@.take(0) =~= Seq::<Vec<String>>::empty());
    assert(crate::searchpath::views_of(all@) =~= Seq::<Seq<char>>::empty());
    while i < lists.len()
        invariant
            0 <= i <= lists@.len(),
            crate::searchpath::views_of(all@) == joined_names(lists@.take(i as int)),
        decreases lists@.len() - i,
    {
        let list = &lists[i];
        let ghost base = crate::searchpath::views_of(all@);
        let mut j: usize = 0;
        assert(crate::searchpath::views_of(list@).take(0) =~= Seq::<Seq<char>>::empty());
        assert(base + crate::searchpath::views_of(list@).take(0) =~= base);
        while j < list.len()
            invariant
                0 <= j <= list@.len(),
                crate::searchpath::views_of(all@) == base + crate::searchpath::views_of(list@).take(j as int),
            decreases list@.len() - j,
        {
            let ghost before = all@;
            all.push(list[j].clone());
            assert(crate::searchpath::views_of(all@) =~= crate::searchpath::views_of(before).push(list@[j as int]@));
            assert(crate::searchpath::views_of(list@).take(j + 1) =~= crate::searchpath::views_of(list@).take(j as int).push(list@[j as int]@));
            assert(crate::searchpath::views_of(all@) =~= base + crate::searchpath::views_of(list@).take(j + 1));
            j = j + 1;
        }
        proof {
            assert(crate::searchpath::views_of(list@).take(j as int) =~= crate::searchpath::views_of(list@));
            assert(lists@.take(i + 1).drop_last() =~= lists@.take(i as int));
            assert(lists@.take(i + 1).last() == *list);
        }
        i = i + 1;
    }
    assert(lists@.take(i as int) =~= lists@);
    crate::searchpath::dedup(all)
}

} // verus!
