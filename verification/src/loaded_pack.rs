//! Looking up the files and resource UIDs of a loaded pack.
use vstd::prelude::*;
use indexmap::IndexMap;
use crate::engine_build::EngineBuild;
use crate::pack::{Pack, PackedFile, file_entries};
use crate::uid_cache::UIDCache;
use crate::util::{str_chars, string_from_chars};

verus! {

/// The `res://` prefix of resource paths.
pub open spec fn res_prefix() -> Seq<char> {
    seq!['r', 'e', 's', ':', '/', '/']
}

/// The key a resource path has in the packs of a build: the path itself where the build writes
/// prefixless paths, else the path after `res://`.
pub open spec fn pack_path(path: Seq<char>, prefixless: bool) -> Seq<char> {
    if prefixless { path } else { res_prefix() + path }
}

/// Some entry of `es` has the key `key`.
pub open spec fn has_key(es: Seq<(Seq<char>, PackedFile)>, key: Seq<char>) -> bool {
    exists|i: int| 0 <= i < es.len() && (#[trigger] es[i]).0 == key
}

/// The UID of the first entry of `es` whose path is `path`.
pub open spec fn first_uid(es: Seq<(u64, Seq<char>)>, path: Seq<char>) -> Option<u64>
    decreases es.len(),
{
    if es.len() == 0 {
        None
    } else if es[0].1 == path {
        Some(es[0].0)
    } else {
        first_uid(es.skip(1), path)
    }
}

/// Calls `IndexMap::get`: the file stored under `path`, if there is one.
#[verifier::external_body]
fn find_file<'a>(m: &'a IndexMap<String, PackedFile>, path: &String) -> (r: Option<&'a PackedFile>)
    ensures
        r is None <==> !has_key(file_entries(*m), path@),
        r matches Some(f) ==> exists|i: int| 0 <= i < file_entries(*m).len()
            && (#[trigger] file_entries(*m)[i]).0 == path@ && file_entries(*m)[i].1 == *f,
{
    m.get(path)
}

/// The characters of `s` appended to `v`.
fn push_all(v: &mut Vec<char>, s: &str)
    ensures
        final(v)@ == old(v)@ + s@,
{
    let cs = str_chars(s);
    let mut k: usize = 0;
    while k < cs.len()
        invariant
            k <= cs@.len(),
            cs@ == s@,
            v@ == old(v)@ + cs@.take(k as int),
        decreases cs@.len() - k,
    {
        v.push(cs[k]);
        k = k + 1;
        assert(cs@.take(k as int) =~= cs@.take(k - 1).push(cs@[k - 1]));
    }
    assert(cs@.take(k as int) =~= cs@);
}

/// `res://` followed by `path`.
fn res_path(path: &str) -> (r: String)
    ensures
        r@ == res_prefix() + path@,
{
    let mut v: Vec<char> = Vec::new();
    v.push('r');
    v.push('e');
    v.push('s');
    v.push(':');
    v.push('/');
    v.push('/');
    push_all(&mut v, path);
    assert(v@ =~= res_prefix() + path@);
    string_from_chars(v.as_slice())
}

/// The key `path` has in the packs of `build` (see `pack_path`).
pub fn format_pack_path(path: &str, build: &EngineBuild) -> (r: String)
    ensures
        r@ == pack_path(path@, build.has_prefixless_pck_paths),
{
    if build.has_prefixless_pck_paths {
        let cs = str_chars(path);
        string_from_chars(cs.as_slice())
    } else {
        res_path(path)
    }
}

/// The contents of the file at `path` (a path below `res://`), cut from `mapping`, the bytes of
/// the pack file. `None` when the pack has no such file, or when the file's range does not lie
/// within `mapping`.
pub fn get_file(pack: &Pack, mapping: &[u8], build: &EngineBuild, path: &str) -> (r: Option<Vec<u8>>)
    ensures
        ({
            let es = file_entries(pack.files);
            let key = pack_path(path@, build.has_prefixless_pck_paths);
            &&& !has_key(es, key) ==> r is None
            &&& (has_key(es, key) && forall|i: int| 0 <= i < es.len() && (#[trigger] es[i]).0 == key
                ==> es[i].1.offset + es[i].1.size <= mapping@.len()) ==> r is Some
            &&& r matches Some(bytes) ==> exists|i: int| 0 <= i < es.len() && (#[trigger] es[i]).0 == key
                && es[i].1.offset + es[i].1.size <= mapping@.len()
                && bytes@ == mapping@.subrange(es[i].1.offset as int, es[i].1.offset + es[i].1.size)
        }),
{
    let key = format_pack_path(path, build);
    let entry = match find_file(&pack.files, &key) {
        Some(e) => e,
        None => {
            return None;
        },
    };
    if entry.offset > mapping.len() as u64 || entry.size > mapping.len() as u64 - entry.offset {
        return None;
    }
    let start = entry.offset as usize;
    let end = start + entry.size as usize;
    let bytes = vstd::slice::slice_subrange(mapping, start, end);
    Some(vstd::slice::slice_to_vec(bytes))
}

/// A pack opened for reading: its directory, the engine build it was made for and its UID cache.
/// The bytes of the pack file stay with the caller.
pub struct LoadedPack {
    pack: Pack,
    build: EngineBuild,
    uid_cache: UIDCache,
}

impl LoadedPack {
    /// A loaded pack from its parts; the caller reads the UID cache out of the pack.
    pub fn new(pack: Pack, build: EngineBuild, uid_cache: UIDCache) -> (r: Self)
        ensures
            r.files() == file_entries(pack.files),
            r.prefixless() == build.has_prefixless_pck_paths,
            r.uids() == uid_cache@,
    {
        LoadedPack { pack, build, uid_cache }
    }

    /// The files of the pack.
    pub closed spec fn files(&self) -> Seq<(Seq<char>, PackedFile)> {
        file_entries(self.pack.files)
    }

    /// Whether the pack's paths lack the `res://` prefix.
    pub closed spec fn prefixless(&self) -> bool {
        self.build.has_prefixless_pck_paths
    }

    /// The (UID, path) entries of the UID cache.
    pub closed spec fn uids(&self) -> Seq<(u64, Seq<char>)> {
        self.uid_cache@
    }

    /// Whether the pack holds a file at `path` (a path below `res://`).
    pub fn file_exists(&self, path: &str) -> (r: bool)
        ensures
            r == has_key(self.files(), pack_path(path@, self.prefixless())),
    {
        let key = format_pack_path(path, &self.build);
        find_file(&self.pack.files, &key).is_some()
    }

    /// The directory entry of the file at `path` (a path below `res://`).
    pub fn get_file_info(&self, path: &str) -> (r: Option<&PackedFile>)
        ensures
            r is None <==> !has_key(self.files(), pack_path(path@, self.prefixless())),
            r matches Some(f) ==> exists|i: int| 0 <= i < self.files().len()
                && (#[trigger] self.files()[i]).0 == pack_path(path@, self.prefixless()) && self.files()[i].1 == *f,
    {
        let key = format_pack_path(path, &self.build);
        find_file(&self.pack.files, &key)
    }

    /// The contents of the file at `path`, cut from `mapping`, the bytes of the pack file
    /// (see the free function `get_file`).
    pub fn get_file(&self, mapping: &[u8], path: &str) -> (r: Option<Vec<u8>>)
        ensures
            ({
                let es = self.files();
                let key = pack_path(path@, self.prefixless());
                &&& !has_key(es, key) ==> r is None
                &&& (has_key(es, key) && forall|i: int| 0 <= i < es.len() && (#[trigger] es[i]).0 == key
                    ==> es[i].1.offset + es[i].1.size <= mapping@.len()) ==> r is Some
                &&& r matches Some(bytes) ==> exists|i: int| 0 <= i < es.len() && (#[trigger] es[i]).0 == key
                    && es[i].1.offset + es[i].1.size <= mapping@.len()
                    && bytes@ == mapping@.subrange(es[i].1.offset as int, es[i].1.offset + es[i].1.size)
            }),
    {
        get_file(&self.pack, mapping, &self.build, path)
    }

    /// The UID of the resource at `path` (a path below `res://`): that of the first cache entry
    /// for `res://` and `path`.
    pub fn get_uid(&self, path: &str) -> (r: Option<u64>)
        ensures
            r == first_uid(self.uids(), res_prefix() + path@),
    {
        let key = res_path(path);
        let entries = &self.uid_cache.0;
        let ghost es = self.uids();
        let mut i: usize = 0;
        assert(es.skip(0) =~= es);
        while i < entries.len()
            invariant
                i <= entries@.len(),
                es == self.uids(),
                key@ == res_prefix() + path@,
                es.len() == entries@.len(),
                forall|k: int| 0 <= k < entries@.len() ==> (#[trigger] es[k]) == (entries@[k].0.0, entries@[k].1@),
                first_uid(es, key@) == first_uid(es.skip(i as int), key@),
            decreases entries@.len() - i,
        {
            let e = &entries[i];
            assert(es.skip(i as int)[0] == es[i as int]);
            if e.1 == key {
                assert(es[i as int].1 == key@);
                assert(es.skip(i as int).len() > 0);
                assert(first_uid(es.skip(i as int), key@) == Some(es[i as int].0));
                return Some(e.0.0);
            }
            assert(es.skip(i as int).skip(1) =~= es.skip(i + 1));
            i = i + 1;
        }
        None
    }
}

} // verus!
