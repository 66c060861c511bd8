//! The index of cached server artifacts: which build of which release is on disk.

use vstd::prelude::*;
use vstd::string::*;
use std::path::PathBuf;
use crate::config::{
    chars_of, format_minecraft, lemma_minecraft_round_trip, parse_minecraft, MinecraftVersion,
    ServerVersion,
};
use crate::document::{
    as_integer, ascending, document_of, field, get_field, integer_value, lemma_ascending_place,
    lemma_text_order, new_table, no_entries, node, read_document, table_insert, table_keys,
    table_value, text_before, write_document, written, Node,
};
use crate::errors::{ErrorKind, Field};
use crate::paths::{join, joined};
use crate::text::texts_of;

verus! {

/// Names one cached artifact: a server kind and a Minecraft release.
#[derive(Debug, PartialEq, Eq, Hash, Clone)]
pub struct CachedJarMetaKey {
    pub version: MinecraftVersion,
    pub kind: String,
}

/// A cache key as a mathematical value.
pub struct KeyView {
    pub kind: Seq<char>,
    pub version: MinecraftVersion,
}

impl View for CachedJarMetaKey {
    type V = KeyView;

    open spec fn view(&self) -> KeyView {
        KeyView { kind: self.kind@, version: self.version }
    }
}

impl CachedJarMetaKey {
    /// Whether two keys name the same artifact.
    pub fn same_as(&self, other: &CachedJarMetaKey) -> (r: bool)
        ensures
            r == (self@ == other@),
    {
        self.version == other.version && self.kind == other.kind
    }

    /// A second key for the same artifact.
    pub fn duplicate(&self) -> (r: CachedJarMetaKey)
        ensures
            r@ == self@,
    {
        CachedJarMetaKey { version: self.version, kind: self.kind.clone() }
    }
}

/// A cached server artifact: the release and the build that its file holds,
/// and where the file is.
#[derive(Debug)]
pub struct CachedJar {
    pub version: ServerVersion,
    pub path: PathBuf,
}

/// The metadata index: for each key, the build number of the cached file.
/// No key occurs twice. The entries are kept in a list, not in a hash map:
/// a key is a structure with a text in it, and vstd gives hash maps a model
/// only for keys whose hashing it knows.
#[derive(Debug)]
pub struct CacheMeta {
    jars: Vec<(CachedJarMetaKey, u32)>,
}

/// The keys of a list of entries are pairwise different.
pub open spec fn distinct_keys(entries: Seq<(CachedJarMetaKey, u32)>) -> bool {
    forall|i: int, j: int|
        0 <= i < j < entries.len() ==> (#[trigger] entries[i]).0@ != (#[trigger] entries[j]).0@
}

/// Some entry of the list has the key `k`.
pub open spec fn has_key(entries: Seq<(CachedJarMetaKey, u32)>, k: KeyView) -> bool {
    exists|i: int| 0 <= i < entries.len() && (#[trigger] entries[i]).0@ == k
}

/// The map that a list of entries stands for.
pub open spec fn entries_map(entries: Seq<(CachedJarMetaKey, u32)>) -> Map<KeyView, u32> {
    Map::new(
        |k: KeyView| has_key(entries, k),
        |k: KeyView| entries[choose|i: int| 0 <= i < entries.len() && (#[trigger] entries[i]).0@ == k].1,
    )
}

/// The build that an index holds for a key, if it holds one.
pub open spec fn cached_patch(index: Map<KeyView, u32>, key: KeyView) -> Option<u32> {
    if index.contains_key(key) {
        Some(index[key])
    } else {
        None
    }
}

proof fn lemma_entry_in_map(entries: Seq<(CachedJarMetaKey, u32)>, i: int)
    requires
        distinct_keys(entries),
        0 <= i < entries.len(),
    ensures
        entries_map(entries).contains_key(entries[i].0@),
        entries_map(entries)[entries[i].0@] == entries[i].1,
{
    let k = entries[i].0@;
    assert(has_key(entries, k));
    let j = choose|j: int| 0 <= j < entries.len() && (#[trigger] entries[j]).0@ == k;
    assert(j == i);
}

proof fn lemma_entries_count(entries: Seq<(CachedJarMetaKey, u32)>)
    requires
        distinct_keys(entries),
    ensures
        entries_map(entries).dom().finite(),
        entries_map(entries).dom().len() == entries.len(),
    decreases entries.len(),
{
    if entries.len() == 0 {
        assert(entries_map(entries).dom() =~= Set::<KeyView>::empty());
    } else {
        let front = entries.drop_last();
        let last = entries.last();
        assert forall|i: int, j: int| 0 <= i < j < front.len() implies (#[trigger] front[i]).0@ != (
        #[trigger] front[j]).0@ by {
            assert(front[i] == entries[i] && front[j] == entries[j]);
        }
        lemma_entries_count(front);
        assert(!has_key(front, last.0@)) by {
            if has_key(front, last.0@) {
                let i = choose|i: int| 0 <= i < front.len() && (#[trigger] front[i]).0@ == last.0@;
                assert(front[i] == entries[i]);
                assert(entries[entries.len() - 1] == last);
            }
        }
        assert(entries_map(entries).dom() =~= entries_map(front).dom().insert(last.0@)) by {
            assert forall|k: KeyView| has_key(entries, k) <==> (has_key(front, k) || k == last.0@) by {
                if has_key(entries, k) {
                    let i = choose|i: int| 0 <= i < entries.len() && (#[trigger] entries[i]).0@ == k;
                    if i < front.len() {
                        assert(front[i] == entries[i]);
                    }
                }
                if has_key(front, k) {
                    let i = choose|i: int| 0 <= i < front.len() && (#[trigger] front[i]).0@ == k;
                    assert(front[i] == entries[i]);
                }
                if k == last.0@ {
                    assert(entries[entries.len() - 1].0@ == k);
                }
            }
        }
    }
}

/// A list that differs from a list with different keys at the place `p`
/// alone, where it holds a key that the first list has at that place or
/// nowhere, has different keys too, and stands for the map of the first list
/// with the entry of that place put in.
proof fn lemma_entry_put(before: Seq<(CachedJarMetaKey, u32)>, after: Seq<(CachedJarMetaKey, u32)>, p: int)
    requires
        distinct_keys(before),
        0 <= p < after.len(),
        forall|j: int|
            0 <= j < after.len() && j != p ==> j < before.len() && (#[trigger] after[j]).0@
                == before[j].0@ && after[j].1 == before[j].1,
        before.len() <= after.len(),
        p < before.len() ==> before[p].0@ == after[p].0@,
        p >= before.len() ==> !has_key(before, after[p].0@),
    ensures
        distinct_keys(after),
        entries_map(after) == entries_map(before).insert(after[p].0@, after[p].1),
{
    let k = after[p].0@;
    assert forall|a: int, b: int| 0 <= a < b < after.len() implies (#[trigger] after[a]).0@ != (
    #[trigger] after[b]).0@ by {
        let other = if a == p { b } else { a };
        assert(after[other].0@ == before[other].0@);
        if a != p && b != p {
            assert(after[b].0@ == before[b].0@);
        } else if p >= before.len() {
            if before[other].0@ == k {
                assert(has_key(before, k));
            }
        }
    }
    assert forall|q: KeyView| has_key(after, q) <==> (has_key(before, q) || q == k) by {
        if has_key(after, q) {
            let j = choose|j: int| 0 <= j < after.len() && (#[trigger] after[j]).0@ == q;
            if j != p {
                assert(before[j].0@ == q);
            }
        }
        if has_key(before, q) {
            let j = choose|j: int| 0 <= j < before.len() && (#[trigger] before[j]).0@ == q;
            assert(after[j].0@ == q);
        }
        if q == k {
            assert(after[p].0@ == q);
        }
    }
    assert forall|q: KeyView| has_key(after, q) implies #[trigger] entries_map(after)[q]
        == entries_map(before).insert(k, after[p].1)[q] by {
        let j = choose|j: int| 0 <= j < after.len() && (#[trigger] after[j]).0@ == q;
        lemma_entry_in_map(after, j);
        if j != p {
            lemma_entry_in_map(before, j);
        }
    }
    assert(entries_map(after) =~= entries_map(before).insert(k, after[p].1));
}

impl View for CacheMeta {
    type V = Map<KeyView, u32>;

    closed spec fn view(&self) -> Map<KeyView, u32> {
        entries_map(self.jars@)
    }
}

impl CacheMeta {
    #[verifier::type_invariant]
    spec fn well_formed(&self) -> bool {
        distinct_keys(self.jars@)
    }

    /// An index without entries.
    pub fn new() -> (r: CacheMeta)
        ensures
            r@ == Map::<KeyView, u32>::empty(),
    {
        let r = CacheMeta { jars: Vec::new() };
        assert(r@ =~= Map::<KeyView, u32>::empty());
        r
    }

    /// Where the entry for `key` stands, if there is one.
    fn position(&self, key: &CachedJarMetaKey) -> (r: Option<usize>)
        ensures
            match r {
                Some(i) => i < self.jars@.len() && self.jars@[i as int].0@ == key@,
                None => !has_key(self.jars@, key@),
            },
    {
        let mut i: usize = 0;
        while i < self.jars.len()
            invariant
                i <= self.jars@.len(),
                forall|j: int| 0 <= j < i ==> (#[trigger] self.jars@[j]).0@ != key@,
            decreases self.jars@.len() - i,
        {
            if self.jars[i].0.same_as(key) {
                return Some(i);
            }
            i += 1;
        }
        None
    }

    /// The build cached for `key`, if one is.
    pub fn get(&self, key: &CachedJarMetaKey) -> (r: Option<u32>)
        ensures
            r == cached_patch(self@, key@),
    {
        proof {
            use_type_invariant(self);
        }
        match self.position(key) {
            Some(i) => {
                proof {
                    lemma_entry_in_map(self.jars@, i as int);
                }
                Some(self.jars[i].1)
            },
            None => None,
        }
    }

    /// Records `build` for `key`: a new entry, or the new build of the entry
    /// that the key has.
    pub fn insert(&mut self, key: CachedJarMetaKey, build: u32)
        ensures
            final(self)@ == old(self)@.insert(key@, build),
    {
        proof {
            use_type_invariant(&*self);
        }
        let ghost before = self.jars@;
        let ghost k = key@;
        let found = self.position(&key);
        let mut jars: Vec<(CachedJarMetaKey, u32)> = Vec::new();
        std::mem::swap(&mut self.jars, &mut jars);
        match found {
            Some(i) => {
                jars.set(i, (key, build));
                proof {
                    lemma_entry_put(before, jars@, i as int);
                }
            },
            None => {
                jars.push((key, build));
                proof {
                    lemma_entry_put(before, jars@, before.len() as int);
                }
            },
        }
        self.jars = jars;
    }

    /// Removes every entry.
    pub fn clear(&mut self)
        ensures
            final(self)@ == Map::<KeyView, u32>::empty(),
    {
        self.jars = Vec::new();
        assert(self@ =~= Map::<KeyView, u32>::empty());
    }

    /// The number of entries.
    pub fn len(&self) -> (r: usize)
        ensures
            self@.dom().finite(),
            r == self@.len(),
    {
        proof {
            use_type_invariant(self);
            lemma_entries_count(self.jars@);
        }
        self.jars.len()
    }
}

impl CacheMeta {
    /// The entries, each key with its build, in the order in which the keys
    /// were first recorded.
    pub fn entries(&self) -> (r: Vec<(CachedJarMetaKey, u32)>)
        ensures
            distinct_keys(r@),
            entries_map(r@) == self@,
    {
        proof {
            use_type_invariant(self);
        }
        let mut r: Vec<(CachedJarMetaKey, u32)> = Vec::new();
        let mut i: usize = 0;
        while i < self.jars.len()
            invariant
                i <= self.jars@.len(),
                r@.len() == i,
                forall|j: int| 0 <= j < i ==> (#[trigger] r@[j]).0@ == self.jars@[j].0@ && r@[j].1 == self.jars@[j].1,
            decreases self.jars@.len() - i,
        {
            r.push((self.jars[i].0.duplicate(), self.jars[i].1));
            i += 1;
        }
        proof {
            lemma_same_entries(r@, self.jars@);
        }
        r
    }
}

/// Two lists with the same keys and builds at the same places stand for the
/// same map.
proof fn lemma_same_entries(a: Seq<(CachedJarMetaKey, u32)>, b: Seq<(CachedJarMetaKey, u32)>)
    requires
        a.len() == b.len(),
        forall|j: int| 0 <= j < a.len() ==> (#[trigger] a[j]).0@ == b[j].0@ && a[j].1 == b[j].1,
        distinct_keys(b),
    ensures
        distinct_keys(a),
        entries_map(a) == entries_map(b),
{
    assert forall|i: int, j: int| 0 <= i < j < a.len() implies (#[trigger] a[i]).0@ != (#[trigger] a[j]).0@ by {
        assert(b[i].0@ != b[j].0@);
    }
    assert forall|q: KeyView| has_key(a, q) <==> has_key(b, q) by {
        if has_key(a, q) {
            let j = choose|j: int| 0 <= j < a.len() && (#[trigger] a[j]).0@ == q;
            assert(b[j].0@ == q);
        }
        if has_key(b, q) {
            let j = choose|j: int| 0 <= j < b.len() && (#[trigger] b[j]).0@ == q;
            assert(a[j].0@ == q);
        }
    }
    assert forall|q: KeyView| has_key(a, q) implies #[trigger] entries_map(a)[q] == entries_map(b)[q] by {
        let j = choose|j: int| 0 <= j < a.len() && (#[trigger] a[j]).0@ == q;
        lemma_entry_in_map(a, j);
        assert(b[j].0@ == q);
        lemma_entry_in_map(b, j);
    }
    assert(entries_map(a) =~= entries_map(b));
}

// ---------------------------------------------------------------------------
// Operations on the index
// ---------------------------------------------------------------------------

/// The build cached for `key`, if the index has an entry for it.
pub fn get_cached_patch(meta: &CacheMeta, key: &CachedJarMetaKey) -> (r: Option<u32>)
    ensures
        r == cached_patch(meta@, key@),
{
    meta.get(key)
}

/// The cached artifact for `key`: present where the index has an entry for
/// the key and its file is on disk. The build is the one that the index
/// holds; the file is the key's file below `cache_dir`.
pub fn get_cached(meta: &CacheMeta, key: &CachedJarMetaKey, cache_dir: &PathBuf, file_present: bool) -> (r:
    Option<CachedJar>)
    ensures
        r is Some <==> (meta@.contains_key(key@) && file_present),
        r is Some ==> r->0.version.minecraft == key.version && r->0.version.patch == Some(
            meta@[key@],
        ) && r->0.path == joined(*cache_dir, file_name_of(key@)),
{
    match meta.get(key) {
        Some(patch) => {
            if file_present {
                Some(
                    CachedJar {
                        version: ServerVersion { minecraft: key.version, patch: Some(patch) },
                        path: key.path(cache_dir),
                    },
                )
            } else {
                None
            }
        },
        None => None,
    }
}

/// Records that the file of the artifact of `kind` for `version` now holds
/// the build `patch`: the entry of that key is created, or its build replaced.
/// No other entry changes. To be called once the file is complete.
pub fn cache_jar(
    meta: &mut CacheMeta,
    version: MinecraftVersion,
    patch: u32,
    kind: String,
    cache_dir: &PathBuf,
) -> (r: CachedJar)
    ensures
        final(meta)@ == old(meta)@.insert(KeyView { kind: kind@, version }, patch),
        r.version.minecraft == version,
        r.version.patch == Some(patch),
        r.path == joined(*cache_dir, file_name_of(KeyView { kind: kind@, version })),
{
    let key = CachedJarMetaKey { version, kind };
    let path = key.path(cache_dir);
    meta.insert(key, patch);
    CachedJar { version: ServerVersion { minecraft: version, patch: Some(patch) }, path }
}

/// Forgets every entry. Files are not touched.
pub fn erase_cache(meta: &mut CacheMeta)
    ensures
        final(meta)@ == Map::<KeyView, u32>::empty(),
{
    meta.clear();
}

/// Whether the cached build of `key` is known to be the newest: there is an
/// entry, the registry answered, and the cached build is not below the build
/// that it reported. A failed registry call never counts as up to date.
pub fn is_latest(meta: &CacheMeta, key: &CachedJarMetaKey, latest: &Result<u32, ErrorKind>) -> (r: bool)
    ensures
        r == up_to_date(cached_patch(meta@, key@), *latest),
{
    match meta.get(key) {
        Some(cached) => match latest {
            Ok(newest) => cached >= *newest,
            Err(_) => false,
        },
        None => false,
    }
}

/// A cached build is up to date against what the registry answered.
pub open spec fn up_to_date(cached: Option<u32>, latest: Result<u32, ErrorKind>) -> bool {
    cached is Some && latest is Ok && cached->0 >= latest->Ok_0
}

// ---------------------------------------------------------------------------
// Laws of the index
// ---------------------------------------------------------------------------

/// After a build was recorded for a key, that build is found under the key.
pub proof fn lemma_cached_after_cache(index: Map<KeyView, u32>, key: KeyView, build: u32)
    ensures
        cached_patch(index.insert(key, build), key) == Some(build),
{
}

/// Recording a second build for a key replaces the first: the index is as if
/// only the second had been recorded, and holds one entry for the key.
pub proof fn lemma_cache_overwrites(index: Map<KeyView, u32>, key: KeyView, first: u32, second: u32)
    requires
        index.dom().finite(),
    ensures
        index.insert(key, first).insert(key, second) == index.insert(key, second),
        cached_patch(index.insert(key, first).insert(key, second), key) == Some(second),
        index.insert(key, first).insert(key, second).len() == index.insert(key, first).len(),
        index.insert(key, first).len() == index.remove(key).len() + 1,
{
    assert(index.insert(key, first).insert(key, second) =~= index.insert(key, second));
    assert(index.insert(key, first).dom() =~= index.insert(key, second).dom());
    assert(index.insert(key, first).dom() =~= index.remove(key).dom().insert(key));
}

/// Recording a build for one key leaves what is cached for every other key.
pub proof fn lemma_cache_keeps_others(index: Map<KeyView, u32>, key: KeyView, build: u32, other: KeyView)
    requires
        other != key,
    ensures
        cached_patch(index.insert(key, build), other) == cached_patch(index, other),
{
}

/// Without an entry nothing is up to date; with one, exactly when the cached
/// build is at least the build that the registry reports.
pub proof fn lemma_is_latest(cached: Option<u32>, newest: u32)
    ensures
        !up_to_date(None, Ok(newest)),
        cached is Some ==> (up_to_date(cached, Ok(newest)) <==> cached->0 >= newest),
        forall|e: ErrorKind| !up_to_date(cached, Err(e)),
{
}

// ---------------------------------------------------------------------------
// Keys as text
// ---------------------------------------------------------------------------

/// The text of a key in the metadata document: `KIND@VERSION`.
pub open spec fn key_text(key: KeyView) -> Seq<char> {
    key.kind + "@"@ + format_minecraft(key.version)
}

/// The name of the file that holds the artifact of a key: `KIND-VERSION.jar`.
pub open spec fn file_name_of(key: KeyView) -> Seq<char> {
    key.kind + "-"@ + format_minecraft(key.version) + ".jar"@
}

/// The number of characters in front of the first `@` of a text.
pub open spec fn kind_len(s: Seq<char>) -> nat
    decreases s.len(),
{
    if s.len() == 0 || s[0] == '@' {
        0
    } else {
        1 + kind_len(s.skip(1))
    }
}

/// The key that a text denotes: the kind is what stands in front of the
/// first `@`, the release is read from what follows it. A text without `@`
/// denotes no key.
pub open spec fn parse_key(s: Seq<char>) -> Result<KeyView, ErrorKind> {
    if kind_len(s) >= s.len() {
        Err(ErrorKind::CacheKey)
    } else {
        match parse_minecraft(s.skip(kind_len(s) as int + 1)) {
            Ok(version) => Ok(KeyView { kind: s.take(kind_len(s) as int), version }),
            Err(e) => Err(e),
        }
    }
}

proof fn lemma_kind_len_step(s: Seq<char>, i: int)
    requires
        0 <= i < s.len(),
        s[i] != '@',
    ensures
        kind_len(s.skip(i)) == 1 + kind_len(s.skip(i + 1)),
{
    assert(s.skip(i).skip(1) =~= s.skip(i + 1));
}

proof fn lemma_kind_len_concat(kind: Seq<char>, rest: Seq<char>)
    requires
        !kind.contains('@'),
    ensures
        kind_len(kind + "@"@ + rest) == kind.len(),
    decreases kind.len(),
{
    reveal_strlit("@");
    let whole = kind + "@"@ + rest;
    if kind.len() > 0 {
        assert(kind[0] != '@') by {
            if kind[0] == '@' {
                assert(kind.contains('@'));
            }
        }
        assert(!kind.skip(1).contains('@')) by {
            if kind.skip(1).contains('@') {
                let i = choose|i: int| 0 <= i < kind.skip(1).len() && kind.skip(1)[i] == '@';
                assert(kind[i + 1] == '@');
            }
        }
        lemma_kind_len_concat(kind.skip(1), rest);
        assert(whole.skip(1) =~= kind.skip(1) + "@"@ + rest);
        assert(whole[0] == kind[0]);
    } else {
        assert(whole[0] == '@');
    }
}

/// A key whose kind holds no `@` is read back from its text.
pub proof fn lemma_key_round_trip(key: KeyView)
    requires
        !key.kind.contains('@'),
    ensures
        parse_key(key_text(key)) == Ok::<KeyView, ErrorKind>(key),
{
    reveal_strlit("@");
    let rest = format_minecraft(key.version);
    let whole = key_text(key);
    lemma_kind_len_concat(key.kind, rest);
    lemma_minecraft_round_trip(key.version);
    assert(whole.skip(key.kind.len() as int + 1) =~= rest);
    assert(whole.take(key.kind.len() as int) =~= key.kind);
}

impl CachedJarMetaKey {
    /// The text of the key in the metadata document.
    pub fn to_string(&self) -> (r: String)
        ensures
            r@ == key_text(self@),
    {
        let mut r = self.kind.clone();
        r.append("@");
        let v = self.version.to_string();
        r.append(v.as_str());
        r
    }

    /// The key that a text of the metadata document denotes.
    pub fn parse(text: &str) -> (r: Result<CachedJarMetaKey, ErrorKind>)
        ensures
            match r {
                Ok(key) => parse_key(text@) == Ok::<KeyView, ErrorKind>(key@),
                Err(e) => parse_key(text@) == Err::<KeyView, ErrorKind>(e),
            },
    {
        let chars = chars_of(text);
        let ghost s = chars@;
        let mut at: usize = 0;
        proof {
            assert(s.skip(0) =~= s);
        }
        while at < chars.len() && chars[at] != '@'
            invariant
                s == chars@,
                at <= chars.len(),
                kind_len(s) == at + kind_len(s.skip(at as int)),
            decreases chars.len() - at,
        {
            proof {
                lemma_kind_len_step(s, at as int);
            }
            at += 1;
        }
        proof {
            if at < chars.len() {
                assert(s.skip(at as int)[0] == s[at as int]);
            }
            assert(kind_len(s.skip(at as int)) == 0);
        }
        if at >= chars.len() {
            return Err(ErrorKind::CacheKey);
        }
        let kind = text.substring_char(0, at);
        let rest = text.substring_char(at + 1, chars.len());
        proof {
            assert(s.subrange(0, at as int) =~= s.take(at as int));
            assert(s.subrange(at as int + 1, s.len() as int) =~= s.skip(at as int + 1));
        }
        match MinecraftVersion::parse(rest) {
            Ok(version) => Ok(CachedJarMetaKey { version, kind: String::from_str(kind) }),
            Err(e) => Err(e),
        }
    }

    /// The name of the file that holds the artifact.
    pub fn file_name(&self) -> (r: String)
        ensures
            r@ == file_name_of(self@),
    {
        let mut r = self.kind.clone();
        r.append("-");
        let v = self.version.to_string();
        r.append(v.as_str());
        r.append(".jar");
        r
    }

    /// The file that holds the artifact, below the cache directory: the one
    /// named by `file_name`.
    pub fn path(&self, cache_dir: &PathBuf) -> (r: PathBuf)
        ensures
            r == joined(*cache_dir, file_name_of(self@)),
    {
        let name = self.file_name();
        join(cache_dir, name.as_str())
    }
}

// ---------------------------------------------------------------------------
// The metadata document
// ---------------------------------------------------------------------------

/// What one entry of the table `jars` of a metadata document denotes: the
/// key that its text names, with the build that its value holds. The value
/// must be an integer of 32 bits without sign.
pub open spec fn entry_of(key: Seq<char>, value: Node) -> Result<(KeyView, u32), ErrorKind> {
    match parse_key(key) {
        Err(e) => Err(e),
        Ok(k) => match value {
            Node::Integer(n) => if 0 <= n <= u32::MAX {
                Ok((k, n as u32))
            } else {
                Err(ErrorKind::BuildNumber)
            },
            _ => Err(ErrorKind::BuildNumber),
        },
    }
}

/// The entry under the text `t` denotes the key `k`.
pub open spec fn denotes(jars: Map<Seq<char>, Node>, t: Seq<char>, k: KeyView) -> bool {
    jars.contains_key(t) && entry_of(t, jars[t]) is Ok && entry_of(t, jars[t])->Ok_0.0 == k
}

/// No entry whose text comes behind `t` denotes the key `k`.
pub open spec fn last_for(jars: Map<Seq<char>, Node>, t: Seq<char>, k: KeyView) -> bool {
    forall|u: Seq<char>| text_before(t, u) ==> !#[trigger] denotes(jars, u, k)
}

/// Every entry whose text comes before `t` is right.
pub open spec fn first_wrong(jars: Map<Seq<char>, Node>, t: Seq<char>) -> bool {
    forall|u: Seq<char>| #[trigger] jars.contains_key(u) && text_before(u, t) ==> entry_of(u, jars[u]) is Ok
}

/// The index `index` is what the table `jars` describes: every entry of the
/// table denotes a key of the index, and every key of the index has its
/// build from the entry that denotes it. Where several entries denote one
/// key, it is the last of them in the order of their texts.
pub open spec fn reads_as(jars: Map<Seq<char>, Node>, index: Map<KeyView, u32>) -> bool {
    &&& forall|t: Seq<char>| #[trigger]
        jars.contains_key(t) ==> entry_of(t, jars[t]) is Ok && index.contains_key(
            entry_of(t, jars[t])->Ok_0.0,
        )
    &&& forall|k: KeyView| #[trigger]
        index.contains_key(k) ==> exists|t: Seq<char>| #[trigger]
            jars.contains_key(t) && entry_of(t, jars[t]) == Ok::<(KeyView, u32), ErrorKind>(
                (k, index[k]),
            ) && last_for(jars, t, k)
}

/// The first wrong entry of the table `jars`, in the order of the texts, is
/// wrong in the way that `e` says.
pub open spec fn fails_with(jars: Map<Seq<char>, Node>, e: ErrorKind) -> bool {
    exists|t: Seq<char>| #[trigger]
        jars.contains_key(t) && entry_of(t, jars[t]) == Err::<(KeyView, u32), ErrorKind>(e)
            && first_wrong(jars, t)
}

/// Reading the index from `document` ends with `outcome`: the document must
/// hold a table `jars`; the index is what that table describes; an error is
/// what is wrong with the first wrong entry.
pub open spec fn index_read(document: Node, outcome: Result<Map<KeyView, u32>, ErrorKind>) -> bool {
    match field(document, "jars"@) {
        Some(Node::Table(jars)) => match outcome {
            Ok(index) => reads_as(jars, index),
            Err(e) => fails_with(jars, e),
        },
        _ => outcome == Err::<Map<KeyView, u32>, ErrorKind>(ErrorKind::Field(Field::Jars)),
    }
}

/// The outcome of reading an index, with the index as a mathematical value.
pub open spec fn outcome_view(r: Result<CacheMeta, ErrorKind>) -> Result<Map<KeyView, u32>, ErrorKind> {
    match r {
        Ok(meta) => Ok(meta@),
        Err(e) => Err(e),
    }
}

/// The entries of the table `jars` that describes a list of index entries.
pub open spec fn document_entries(listing: Seq<(CachedJarMetaKey, u32)>) -> Map<Seq<char>, Node>
    decreases listing.len(),
{
    if listing.len() == 0 {
        no_entries()
    } else {
        document_entries(listing.drop_last()).insert(
            key_text(listing.last().0@),
            Node::Integer(listing.last().1 as i64),
        )
    }
}

/// The metadata document that describes a list of index entries.
pub open spec fn index_document(listing: Seq<(CachedJarMetaKey, u32)>) -> Node {
    Node::Table(no_entries().insert("jars"@, Node::Table(document_entries(listing))))
}

/// The list holds the entries of the index, each key once.
pub open spec fn lists(listing: Seq<(CachedJarMetaKey, u32)>, index: Map<KeyView, u32>) -> bool {
    distinct_keys(listing) && entries_map(listing) == index
}

/// What the entry with key number `j` of a table denotes.
spec fn entry_at(jars: Map<Seq<char>, Node>, keys: Seq<String>, j: int) -> Result<(KeyView, u32), ErrorKind> {
    entry_of(keys[j]@, jars[keys[j]@])
}

/// None of the entries with key numbers between `j` and `i` denotes `k`.
spec fn none_between(jars: Map<Seq<char>, Node>, keys: Seq<String>, j: int, i: int, k: KeyView) -> bool {
    forall|x: int|
        j < x < i ==> !((#[trigger] entry_at(jars, keys, x)) is Ok && entry_at(jars, keys, x)->Ok_0.0
            == k)
}

/// The place of a key text of the table in the list of its keys.
proof fn lemma_key_place(jars: Map<Seq<char>, Node>, keys: Seq<String>, u: Seq<char>) -> (x: int)
    requires
        forall|key: Seq<char>| #[trigger] texts_of(keys).contains(key) <==> jars.contains_key(key),
        jars.contains_key(u),
    ensures
        0 <= x < keys.len(),
        keys[x]@ == u,
{
    assert(texts_of(keys).contains(u));
    let x = choose|x: int| 0 <= x < texts_of(keys).len() && texts_of(keys)[x] == u;
    x
}

impl CacheMeta {
    /// Reads the index from a metadata document that was parsed already.
    pub fn from_document(document: &toml::Value) -> (r: Result<CacheMeta, ErrorKind>)
        ensures
            index_read(node(*document), outcome_view(r)),
    {
        let table = match get_field(document, "jars") {
            Some(table) => table,
            None => {
                return Err(ErrorKind::Field(Field::Jars));
            },
        };
        let keys = match table_keys(table) {
            Some(keys) => keys,
            None => {
                return Err(ErrorKind::Field(Field::Jars));
            },
        };
        let ghost jars = node(*table)->Table_0;
        let ghost texts = texts_of(keys@);
        assert(field(node(*document), "jars"@) == Some(Node::Table(jars)));
        assert forall|j: int| 0 <= j < keys@.len() implies jars.contains_key(#[trigger] keys@[j]@) by {
            assert(texts[j] == keys@[j]@);
            assert(texts.contains(keys@[j]@));
        }
        let mut meta = CacheMeta::new();
        let mut i: usize = 0;
        while i < keys.len()
            invariant
                i <= keys@.len(),
                texts == texts_of(keys@),
                ascending(texts),
                node(*table) == Node::Table(jars),
                field(node(*document), "jars"@) == Some(Node::Table(jars)),
                forall|key: Seq<char>| #[trigger] texts.contains(key) <==> jars.contains_key(key),
                forall|j: int| 0 <= j < keys@.len() ==> jars.contains_key(#[trigger] keys@[j]@),
                forall|j: int|
                    0 <= j < i ==> (#[trigger] entry_at(jars, keys@, j)) is Ok && meta@.contains_key(
                        entry_at(jars, keys@, j)->Ok_0.0,
                    ),
                forall|k: KeyView| #[trigger]
                    meta@.contains_key(k) ==> exists|j: int|
                        0 <= j < i && #[trigger] entry_at(jars, keys@, j) == Ok::<
                            (KeyView, u32),
                            ErrorKind,
                        >((k, meta@[k])) && none_between(jars, keys@, j, i as int, k),
            decreases keys@.len() - i,
        {
            let ghost before = meta@;
            let ghost text = keys@[i as int]@;
            assert(jars.contains_key(text));
            proof {
                assert forall|u: Seq<char>| #[trigger]
                    jars.contains_key(u) && text_before(u, text) implies entry_of(u, jars[u]) is Ok by {
                    let x = lemma_key_place(jars, keys@, u);
                    assert(texts[x] == u && texts[i as int] == text);
                    lemma_ascending_place(texts, x, i as int);
                    assert(entry_at(jars, keys@, x) is Ok);
                }
                assert(first_wrong(jars, text));
            }
            let key = match CachedJarMetaKey::parse(keys[i].as_str()) {
                Ok(key) => key,
                Err(e) => {
                    assert(entry_of(text, jars[text]) == Err::<(KeyView, u32), ErrorKind>(e));
                    return Err(e);
                },
            };
            let number = match get_field(table, keys[i].as_str()) {
                Some(value) => as_integer(value),
                None => None,
            };
            let build: u32 = match number {
                Some(n) if 0 <= n && n <= 0xffff_ffff => n as u32,
                _ => {
                    assert(entry_of(text, jars[text]) == Err::<(KeyView, u32), ErrorKind>(
                        ErrorKind::BuildNumber,
                    ));
                    return Err(ErrorKind::BuildNumber);
                },
            };
            let ghost kv = key@;
            assert(entry_at(jars, keys@, i as int) == Ok::<(KeyView, u32), ErrorKind>((kv, build)));
            meta.insert(key, build);
            proof {
                assert forall|k: KeyView| #[trigger] meta@.contains_key(k) implies exists|j: int|
                    0 <= j < i + 1 && #[trigger] entry_at(jars, keys@, j) == Ok::<
                        (KeyView, u32),
                        ErrorKind,
                    >((k, meta@[k])) && none_between(jars, keys@, j, i + 1, k) by {
                    if k == kv {
                        assert(entry_at(jars, keys@, i as int) == Ok::<(KeyView, u32), ErrorKind>(
                            (k, meta@[k]),
                        ));
                        assert(none_between(jars, keys@, i as int, i + 1, k));
                    } else {
                        assert(before.contains_key(k));
                        let j = choose|j: int|
                            0 <= j < i && #[trigger] entry_at(jars, keys@, j) == Ok::<
                                (KeyView, u32),
                                ErrorKind,
                            >((k, before[k])) && none_between(jars, keys@, j, i as int, k);
                        assert(entry_at(jars, keys@, j) == Ok::<(KeyView, u32), ErrorKind>(
                            (k, meta@[k]),
                        ));
                        assert(none_between(jars, keys@, j, i + 1, k));
                    }
                }
            }
            i += 1;
        }
        proof {
            assert forall|t: Seq<char>| #[trigger] jars.contains_key(t) implies entry_of(
                t,
                jars[t],
            ) is Ok && meta@.contains_key(entry_of(t, jars[t])->Ok_0.0) by {
                let j = lemma_key_place(jars, keys@, t);
                assert(entry_at(jars, keys@, j) is Ok);
            }
            assert forall|k: KeyView| #[trigger] meta@.contains_key(k) implies exists|t: Seq<char>| #[trigger]
                jars.contains_key(t) && entry_of(t, jars[t]) == Ok::<(KeyView, u32), ErrorKind>(
                    (k, meta@[k]),
                ) && last_for(jars, t, k) by {
                let j = choose|j: int|
                    0 <= j < i && #[trigger] entry_at(jars, keys@, j) == Ok::<
                        (KeyView, u32),
                        ErrorKind,
                    >((k, meta@[k])) && none_between(jars, keys@, j, i as int, k);
                let t = keys@[j]@;
                assert(jars.contains_key(t));
                assert forall|u: Seq<char>| text_before(t, u) implies !#[trigger] denotes(jars, u, k) by {
                    if denotes(jars, u, k) {
                        let x = lemma_key_place(jars, keys@, u);
                        assert(texts[x] == u && texts[j] == t);
                        lemma_ascending_place(texts, j, x);
                        assert(entry_at(jars, keys@, x) is Ok);
                    }
                }
            }
        }
        Ok(meta)
    }

    /// The metadata document that describes the index.
    pub fn to_document(&self) -> (r: toml::Value)
        ensures
            exists|listing: Seq<(CachedJarMetaKey, u32)>|
                lists(listing, self@) && node(r) == #[trigger] index_document(listing),
    {
        let entries = self.entries();
        let mut jars = new_table();
        let mut i: usize = 0;
        proof {
            assert(entries@.take(0) =~= Seq::<(CachedJarMetaKey, u32)>::empty());
        }
        while i < entries.len()
            invariant
                i <= entries@.len(),
                crate::document::entries_of(jars) == document_entries(entries@.take(i as int)),
            decreases entries@.len() - i,
        {
            proof {
                assert(entries@.take(i + 1).drop_last() =~= entries@.take(i as int));
                assert(entries@.take(i + 1).last() == entries@[i as int]);
            }
            table_insert(&mut jars, entries[i].0.to_string(), integer_value(entries[i].1 as i64));
            i += 1;
        }
        proof {
            assert(entries@.take(entries@.len() as int) =~= entries@);
        }
        let mut root = new_table();
        table_insert(&mut root, String::from_str("jars"), table_value(jars));
        let r = table_value(root);
        assert(lists(entries@, self@) && node(r) == index_document(entries@));
        r
    }
}

/// Reads the index from the text of the metadata document, or from its
/// absence: where there is no document the cache is empty.
pub fn read_cache_meta(text: Option<&str>) -> (r: Result<CacheMeta, ErrorKind>)
    ensures
        match text {
            None => r is Ok && r->Ok_0@ == Map::<KeyView, u32>::empty(),
            Some(t) => match document_of(t@) {
                None => outcome_view(r) == Err::<Map<KeyView, u32>, ErrorKind>(ErrorKind::Syntax),
                Some(document) => index_read(document, outcome_view(r)),
            },
        },
{
    match text {
        None => Ok(CacheMeta::new()),
        Some(t) => match read_document(t) {
            Ok(document) => CacheMeta::from_document(&document),
            Err(e) => Err(e),
        },
    }
}

/// The text of the metadata document that describes the index. The whole
/// document is written anew each time.
pub fn write_cache_meta(meta: &CacheMeta) -> (r: Result<String, ErrorKind>)
    ensures
        match r {
            Ok(text) => exists|listing: Seq<(CachedJarMetaKey, u32)>|
                lists(listing, meta@) && written(#[trigger] index_document(listing)) == Some(text@),
            Err(e) => e == ErrorKind::Encode && exists|listing: Seq<(CachedJarMetaKey, u32)>|
                lists(listing, meta@) && written(#[trigger] index_document(listing)) is None,
        },
{
    let document = meta.to_document();
    match write_document(&document) {
        Ok(text) => Ok(text),
        Err(_) => Err(ErrorKind::Encode),
    }
}

/// No kind of the list holds an `@`.
pub open spec fn plain_kinds(listing: Seq<(CachedJarMetaKey, u32)>) -> bool {
    forall|i: int| 0 <= i < listing.len() ==> !(#[trigger] listing[i]).0@.kind.contains('@')
}

proof fn lemma_document_entries(listing: Seq<(CachedJarMetaKey, u32)>)
    requires
        distinct_keys(listing),
        plain_kinds(listing),
    ensures
        forall|t: Seq<char>| #[trigger]
            document_entries(listing).contains_key(t) <==> exists|i: int|
                0 <= i < listing.len() && key_text((#[trigger] listing[i]).0@) == t,
        forall|i: int|
            0 <= i < listing.len() ==> document_entries(listing)[key_text(
                (#[trigger] listing[i]).0@,
            )] == Node::Integer(listing[i].1 as i64),
    decreases listing.len(),
{
    if listing.len() > 0 {
        let front = listing.drop_last();
        let last = listing.last();
        assert(last == listing[listing.len() - 1]);
        assert forall|i: int| 0 <= i < front.len() implies #[trigger] front[i] == listing[i] by {}
        assert(distinct_keys(front)) by {
            assert forall|i: int, j: int| 0 <= i < j < front.len() implies (#[trigger] front[i]).0@
                != (#[trigger] front[j]).0@ by {
                assert(front[i] == listing[i] && front[j] == listing[j]);
            }
        }
        assert(plain_kinds(front)) by {
            assert forall|i: int| 0 <= i < front.len() implies !(#[trigger] front[i]).0@.kind.contains(
                '@',
            ) by {
                assert(front[i] == listing[i]);
            }
        }
        lemma_document_entries(front);
        lemma_key_round_trip(last.0@);
        assert forall|t: Seq<char>| #[trigger]
            document_entries(listing).contains_key(t) <==> exists|i: int|
                0 <= i < listing.len() && key_text((#[trigger] listing[i]).0@) == t by {
            if document_entries(listing).contains_key(t) {
                if t != key_text(last.0@) {
                    assert(document_entries(front).contains_key(t));
                    let i = choose|i: int|
                        0 <= i < front.len() && key_text((#[trigger] front[i]).0@) == t;
                    assert(front[i] == listing[i]);
                }
            }
            if exists|i: int| 0 <= i < listing.len() && key_text((#[trigger] listing[i]).0@) == t {
                let i = choose|i: int|
                    0 <= i < listing.len() && key_text((#[trigger] listing[i]).0@) == t;
                if i < front.len() {
                    assert(front[i] == listing[i]);
                    assert(document_entries(front).contains_key(t));
                }
            }
        }
        assert forall|i: int| 0 <= i < listing.len() implies document_entries(listing)[key_text(
            (#[trigger] listing[i]).0@,
        )] == Node::Integer(listing[i].1 as i64) by {
            if i < front.len() {
                assert(front[i] == listing[i]);
                lemma_key_round_trip(listing[i].0@);
                assert(listing[i].0@ != last.0@);
                assert(key_text(listing[i].0@) != key_text(last.0@));
            }
        }
    }
}

/// The document that describes a list of entries with different keys, none
/// of whose kinds holds an `@`, reads back as the index of those entries.
pub proof fn lemma_index_round_trip(listing: Seq<(CachedJarMetaKey, u32)>)
    requires
        distinct_keys(listing),
        plain_kinds(listing),
    ensures
        index_read(
            index_document(listing),
            Ok::<Map<KeyView, u32>, ErrorKind>(entries_map(listing)),
        ),
{
    reveal_strlit("jars");
    let jars = document_entries(listing);
    let index = entries_map(listing);
    lemma_document_entries(listing);
    assert(field(index_document(listing), "jars"@) == Some(Node::Table(jars)));
    assert forall|t: Seq<char>| #[trigger] jars.contains_key(t) implies entry_of(t, jars[t]) is Ok
        && index.contains_key(entry_of(t, jars[t])->Ok_0.0) by {
        let i = choose|i: int| 0 <= i < listing.len() && key_text((#[trigger] listing[i]).0@) == t;
        lemma_key_round_trip(listing[i].0@);
        lemma_entry_in_map(listing, i);
    }
    assert forall|k: KeyView| #[trigger] index.contains_key(k) implies exists|t: Seq<char>| #[trigger]
        jars.contains_key(t) && entry_of(t, jars[t]) == Ok::<(KeyView, u32), ErrorKind>(
            (k, index[k]),
        ) && last_for(jars, t, k) by {
        let i = choose|i: int| 0 <= i < listing.len() && (#[trigger] listing[i]).0@ == k;
        lemma_key_round_trip(listing[i].0@);
        lemma_entry_in_map(listing, i);
        let t = key_text(listing[i].0@);
        assert(jars.contains_key(t));
        assert forall|u: Seq<char>| text_before(t, u) implies !#[trigger] denotes(jars, u, k) by {
            if denotes(jars, u, k) {
                let x = choose|x: int|
                    0 <= x < listing.len() && key_text((#[trigger] listing[x]).0@) == u;
                lemma_key_round_trip(listing[x].0@);
                assert(listing[x].0@ == k);
                assert(x == i);
                lemma_text_order(t, u);
            }
        }
    }
}

} // verus!
