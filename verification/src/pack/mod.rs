//! The Godot PCK (pack) file format.
use vstd::prelude::*;
use vstd::bytes::{u32_from_le_bytes, u64_from_le_bytes};
use vstd::slice::slice_subrange;
use vstd::utf8::*;
use vstd::string::StringSliceAdditionalSpecFns;
use indexmap::IndexMap;
use crate::Error;
use crate::marshalling::{u32_of_le, u64_of_le};

pub mod builder;

pub use self::builder::PackBuilder;

verus! {

broadcast use {encode_utf8_valid_utf8, encode_utf8_decode_utf8};

/// Directory flag: the directory is encrypted.
pub const PACK_DIR_ENCRYPTED: u32 = 1;
/// Directory flag: file offsets are relative to the file base.
pub const PACK_REL_FILEBASE: u32 = 2;
/// Directory flag: sparse bundle.
pub const PACK_SPARSE_BUNDLE: u32 = 4;
/// File flag: the file is encrypted.
pub const PACK_FILE_ENCRYPTED: u32 = 1;
/// File flag: the entry removes a file.
pub const PACK_FILE_REMOVAL: u32 = 2;
/// File flag: the entry is a delta to apply to a file.
pub const PACK_FILE_DELTA: u32 = 4;
/// The usual pack magic, `GDPC` in little-endian byte order.
pub const PACK_HEADER_MAGIC: u32 = 0x43504447;

/// Settings for reading packs of engine builds that changed the format, independent of the engine
/// version (which is only known once the pack is read).
#[derive(Debug, Default, Clone)]
pub struct PackConfig {
    /// The magic constant at the start of pack files, when it is not the usual one.
    pck_header_magic: Option<String>,
}

impl PackConfig {
    /// Settings with the given header magic (the usual one when `None`).
    pub fn new(pck_header_magic: Option<String>) -> (r: PackConfig)
        ensures
            r.magic() == pck_header_magic,
    {
        PackConfig { pck_header_magic }
    }

    /// The configured header magic text.
    pub closed spec fn magic(&self) -> Option<String> {
        self.pck_header_magic
    }

    /// The configured header magic text.
    pub fn pck_header_magic(&self) -> (r: &Option<String>)
        ensures
            *r == self.magic(),
    {
        &self.pck_header_magic
    }

    /// The magic constant: the first four bytes of the configured text, read little-endian, or
    /// `GDPC` when none is configured.
    pub fn header_magic(&self) -> (r: u32)
        requires
            self.magic() matches Some(s) ==> encode_utf8(s@).len() >= 4,
        ensures
            r == match self.magic() {
                Some(s) => u32_of_le(encode_utf8(s@).subrange(0, 4)),
                None => PACK_HEADER_MAGIC,
            },
    {
        match &self.pck_header_magic {
            Some(s) => {
                let bytes = s.as_str().as_bytes();
                u32_from_le_bytes(slice_subrange(bytes, 0, 4))
            },
            None => PACK_HEADER_MAGIC,
        }
    }
}

/// Versions of the pack format.
#[derive(Debug, Copy, Clone, Eq, PartialEq, Structural)]
#[non_exhaustive]
pub enum PackFormat {
    V2,
    V3,
    V4,
}

/// A file stored in a pack.
#[derive(Debug, Clone, Copy)]
pub struct PackedFile {
    /// Whether this file is encrypted.
    pub encrypted: bool,
    /// Offset of the contents within the pack, with the file base added.
    pub offset: u64,
    /// Size of the contents in bytes.
    pub size: u64,
    /// Hash of the contents (Godot uses MD5).
    pub hash: [u8; 16],
}

#[verifier::external_type_specification]
#[verifier::external_body]
#[verifier::reject_recursive_types(K)]
#[verifier::reject_recursive_types(V)]
#[verifier::reject_recursive_types(S)]
pub struct ExIndexMap<K, V, S>(IndexMap<K, V, S>);

/// The entries of a pack's file map, in insertion order: (path, file).
pub uninterp spec fn file_entries(m: IndexMap<String, PackedFile>) -> Seq<(Seq<char>, PackedFile)>;

/// The entries of a pack's delta map, in insertion order: (hash, deltas in order).
pub uninterp spec fn delta_entries(m: IndexMap<[u8; 16], Vec<PackedFile>>) -> Seq<([u8; 16], Seq<PackedFile>)>;

/// `s` after inserting `v` under `k` the way `IndexMap::insert` does: an existing entry with key
/// `k` keeps its place and takes the new value, else the entry is added last.
pub open spec fn insert_entry<K, V>(s: Seq<(K, V)>, k: K, v: V) -> Seq<(K, V)> {
    if exists|i: int| 0 <= i < s.len() && (#[trigger] s[i]).0 == k {
        let i = choose|i: int| 0 <= i < s.len() && (#[trigger] s[i]).0 == k;
        s.update(i, (k, v))
    } else {
        s.push((k, v))
    }
}

/// `s` after appending `f` to the list under key `k`, creating the entry last when there is none.
pub open spec fn append_entry<K, V>(s: Seq<(K, Seq<V>)>, k: K, f: V) -> Seq<(K, Seq<V>)> {
    if exists|i: int| 0 <= i < s.len() && (#[trigger] s[i]).0 == k {
        let i = choose|i: int| 0 <= i < s.len() && (#[trigger] s[i]).0 == k;
        s.update(i, (k, s[i].1.push(f)))
    } else {
        s.push((k, seq![f]))
    }
}

/// Calls `IndexMap::new`: an empty map.
#[verifier::external_body]
pub(crate) fn new_file_map() -> (r: IndexMap<String, PackedFile>)
    ensures
        file_entries(r) == Seq::<(Seq<char>, PackedFile)>::empty(),
{
    IndexMap::new()
}

/// Calls `IndexMap::new`: an empty map.
#[verifier::external_body]
fn new_delta_map() -> (r: IndexMap<[u8; 16], Vec<PackedFile>>)
    ensures
        delta_entries(r) == Seq::<([u8; 16], Seq<PackedFile>)>::empty(),
{
    IndexMap::new()
}

/// Calls `IndexMap::insert`: an entry with an equal path keeps its place and takes the new file;
/// otherwise the entry is added last.
#[verifier::external_body]
fn insert_file(m: &mut IndexMap<String, PackedFile>, path: String, file: PackedFile)
    ensures
        file_entries(*final(m)) == insert_entry(file_entries(*old(m)), path@, file),
{
    m.insert(path, file);
}

/// Calls `IndexMap::entry(..).or_default().push(..)`: appends `file` to the list under `hash`,
/// adding an empty list last when there is none.
#[verifier::external_body]
fn push_delta(m: &mut IndexMap<[u8; 16], Vec<PackedFile>>, hash: [u8; 16], file: PackedFile)
    ensures
        delta_entries(*final(m)) == append_entry(delta_entries(*old(m)), hash, file),
{
    m.entry(hash).or_default().push(file);
}

/// A pack file's header and directory.
#[derive(Debug)]
pub struct Pack {
    /// The version of the pack format.
    pub format: PackFormat,
    /// The engine version; it has to match the engine for the pack to load.
    pub engine_version: (u32, u32, u32),
    /// A salt used for pack encryption.
    pub salt: Option<[u8; 32]>,
    /// The offset of the files, relative to the header.
    pub file_base: u64,
    /// The files of the pack, by path.
    pub files: IndexMap<String, PackedFile>,
    /// Deltas to apply to files of the pack, by the hash of the file.
    pub deltas: IndexMap<[u8; 16], Vec<PackedFile>>,
}

/// The little-endian `u32` at `pos`, if the data holds one there.
pub open spec fn u32_at(data: Seq<u8>, pos: int) -> Option<u32> {
    if 0 <= pos && pos + 4 <= data.len() { Some(u32_of_le(data.subrange(pos, pos + 4))) } else { None }
}

/// The little-endian `u64` at `pos`, if the data holds one there.
pub open spec fn u64_at(data: Seq<u8>, pos: int) -> Option<u64> {
    if 0 <= pos && pos + 8 <= data.len() { Some(u64_of_le(data.subrange(pos, pos + 8))) } else { None }
}

/// Reads the little-endian `u32` at `pos`.
fn read_u32(data: &[u8], pos: usize) -> (r: Option<u32>)
    ensures
        r == u32_at(data@, pos as int),
{
    if pos <= data.len() && data.len() - pos >= 4 {
        Some(u32_from_le_bytes(slice_subrange(data, pos, pos + 4)))
    } else {
        None
    }
}

/// Reads the little-endian `u64` at `pos`.
fn read_u64(data: &[u8], pos: usize) -> (r: Option<u64>)
    ensures
        r == u64_at(data@, pos as int),
{
    if pos <= data.len() && data.len() - pos >= 8 {
        Some(u64_from_le_bytes(slice_subrange(data, pos, pos + 8)))
    } else {
        None
    }
}

/// The array holding the sixteen bytes `b`.
pub open spec fn hash_of(b: Seq<u8>) -> [u8; 16] {
    choose|a: [u8; 16]| a@ == b
}

/// `s` without the `'\0'` characters at its end.
pub open spec fn trim_nul(s: Seq<char>) -> Seq<char>
    decreases s.len(),
{
    if s.len() > 0 && s.last() == '\0' { trim_nul(s.drop_last()) } else { s }
}

/// Outcome of reading a pack directory.
pub enum DirRead {
    /// The files and deltas read.
    Read(Seq<(Seq<char>, PackedFile)>, Seq<([u8; 16], Seq<PackedFile>)>),
    /// The data ended inside an entry.
    TooShort,
    /// A path is not UTF-8, an entry removes a file (which reading does not support), or a file
    /// offset overflows with the file base added.
    BadData,
}

/// Reads `n` directory entries at `pos`, adding them to `files` and `deltas`. An entry is a `u32`
/// path length, the UTF-8 path (trailing `'\0'` removed), the `u64` offset and size, the 16-byte
/// hash and `u32` flags; delta entries go to `deltas` by hash, the others to `files` by path.
pub open spec fn read_dir(
    data: Seq<u8>,
    pos: int,
    n: nat,
    file_base: u64,
    files: Seq<(Seq<char>, PackedFile)>,
    deltas: Seq<([u8; 16], Seq<PackedFile>)>,
) -> DirRead
    decreases n,
{
    if n == 0 {
        DirRead::Read(files, deltas)
    } else if u32_at(data, pos) is None {
        DirRead::TooShort
    } else {
        let p = pos + 4;
        let len = u32_at(data, pos)->0 as int;
        if p + len > data.len() {
            DirRead::TooShort
        } else if !valid_utf8(data.subrange(p, p + len)) {
            DirRead::BadData
        } else {
            let path = trim_nul(decode_utf8(data.subrange(p, p + len)));
            let q = p + len;
            if q + 36 > data.len() {
                DirRead::TooShort
            } else {
                let offset = u64_at(data, q)->0;
                let size = u64_at(data, q + 8)->0;
                let hash = hash_of(data.subrange(q + 16, q + 32));
                let flags = u32_at(data, q + 32)->0;
                if flags & PACK_FILE_REMOVAL != 0 || file_base + offset > u64::MAX {
                    DirRead::BadData
                } else {
                    let file = PackedFile {
                        encrypted: flags & PACK_FILE_ENCRYPTED != 0,
                        offset: (file_base + offset) as u64,
                        size,
                        hash,
                    };
                    if flags & PACK_FILE_DELTA != 0 {
                        read_dir(data, q + 36, (n - 1) as nat, file_base, files, append_entry(deltas, hash, file))
                    } else {
                        read_dir(data, q + 36, (n - 1) as nat, file_base, insert_entry(files, path, file), deltas)
                    }
                }
            }
        }
    }
}

/// Removes the `'\0'` characters at the end of `s`.
fn trim_nul_end(s: &str) -> (r: String)
    ensures
        r@ == trim_nul(s@),
{
    let mut cs = crate::util::str_chars(s);
    while cs.len() > 0 && cs[cs.len() - 1] == '\0'
        invariant
            trim_nul(cs@) == trim_nul(s@),
        decreases cs@.len(),
    {
        cs.pop();
    }
    crate::util::string_from_chars(cs.as_slice())
}

/// Reads `count` directory entries starting at `pos` (see `read_dir`).
fn read_directory(data: &[u8], start: usize, count: u32, file_base: u64)
    -> (r: Result<(IndexMap<String, PackedFile>, IndexMap<[u8; 16], Vec<PackedFile>>), Error>)
    requires
        start <= data@.len(),
    ensures
        match read_dir(data@, start as int, count as nat, file_base, Seq::empty(), Seq::empty()) {
            DirRead::Read(fs, ds) => r matches Ok(v) && file_entries(v.0) == fs && delta_entries(v.1) == ds,
            DirRead::TooShort => r == Err::<(IndexMap<String, PackedFile>, IndexMap<[u8; 16], Vec<PackedFile>>), Error>(Error::TooShort),
            DirRead::BadData => r == Err::<(IndexMap<String, PackedFile>, IndexMap<[u8; 16], Vec<PackedFile>>), Error>(Error::BadData),
        },
{
    let mut files = new_file_map();
    let mut deltas = new_delta_map();
    let mut pos = start;
    let mut i: u32 = 0;
    while i < count
        invariant
            i <= count,
            pos <= data@.len(),
            read_dir(data@, start as int, count as nat, file_base, Seq::empty(), Seq::empty())
                == read_dir(data@, pos as int, (count - i) as nat, file_base, file_entries(files), delta_entries(deltas)),
        decreases count - i,
    {
        let len = match read_u32(data, pos) {
            Some(l) => l as usize,
            None => {
                return Err(Error::TooShort);
            },
        };
        assert(pos + 4 <= data.len());
        let p = pos + 4;
        if len > data.len() - p {
            return Err(Error::TooShort);
        }
        let path_bytes = slice_subrange(data, p, p + len);
        let text = match crate::uid_cache::str_from_utf8(path_bytes) {
            Some(t) => t,
            None => {
                return Err(Error::BadData);
            },
        };
        let path = trim_nul_end(text);
        let q = p + len;
        if data.len() - q < 36 {
            return Err(Error::TooShort);
        }
        let offset = match read_u64(data, q) {
            Some(v) => v,
            None => {
                return Err(Error::TooShort);
            },
        };
        let size = match read_u64(data, q + 8) {
            Some(v) => v,
            None => {
                return Err(Error::TooShort);
            },
        };
        let h = q + 16;
        let hash: [u8; 16] = [
            data[h], data[h + 1], data[h + 2], data[h + 3], data[h + 4], data[h + 5], data[h + 6],
            data[h + 7], data[h + 8], data[h + 9], data[h + 10], data[h + 11], data[h + 12],
            data[h + 13], data[h + 14], data[h + 15],
        ];
        proof {
            assert(hash@ =~= data@.subrange(h as int, h + 16));
            assert(hash_of(data@.subrange(h as int, h + 16)) =~= hash);
        }
        let flags = match read_u32(data, q + 32) {
            Some(v) => v,
            None => {
                return Err(Error::TooShort);
            },
        };
        if flags & PACK_FILE_REMOVAL != 0 {
            return Err(Error::BadData);
        }
        let absolute = match file_base.checked_add(offset) {
            Some(v) => v,
            None => {
                return Err(Error::BadData);
            },
        };
        let file = PackedFile { encrypted: flags & PACK_FILE_ENCRYPTED != 0, offset: absolute, size, hash };
        if flags & PACK_FILE_DELTA != 0 {
            push_delta(&mut deltas, hash, file);
        } else {
            insert_file(&mut files, path, file);
        }
        pos = q + 36;
        i = i + 1;
    }
    Ok((files, deltas))
}

/// The array holding the thirty-two bytes `b`.
pub open spec fn salt_of(b: Seq<u8>) -> [u8; 32] {
    choose|a: [u8; 32]| a@ == b
}

/// The magic constant `config` asks for.
pub open spec fn config_magic(config: PackConfig) -> u32 {
    match config.magic() {
        Some(s) => u32_of_le(encode_utf8(s@).subrange(0, 4)),
        None => PACK_HEADER_MAGIC,
    }
}

/// What a pack header holds, or why it cannot be read.
pub enum HeaderRead {
    /// Format, engine version, salt, file base, directory position and file count.
    Read(PackFormat, (u32, u32, u32), Option<[u8; 32]>, u64, int, u32),
    TooShort,
    BadData,
    UnknownVersion(u32),
}

/// Reads the header of a pack at the start of `data`: magic, format, engine version, flags and
/// file base; for formats 3 and 4 the directory offset (and, for format 4 with a sparse
/// encrypted directory, the salt), for format 2 the directory after 64 reserved bytes; then the
/// file count. An encrypted directory cannot be read.
pub open spec fn read_header(data: Seq<u8>, magic: u32, header_pos: u64) -> HeaderRead {
    if u32_at(data, 0) is None {
        HeaderRead::TooShort
    } else if u32_at(data, 0)->0 != magic {
        HeaderRead::BadData
    } else if u32_at(data, 4) is None || u32_at(data, 8) is None || u32_at(data, 12) is None
        || u32_at(data, 16) is None {
        HeaderRead::TooShort
    } else {
        let f = u32_at(data, 4)->0;
        let version = (u32_at(data, 8)->0, u32_at(data, 12)->0, u32_at(data, 16)->0);
        if f != 2 && f != 3 && f != 4 {
            HeaderRead::UnknownVersion(f)
        } else if u32_at(data, 20) is None || u64_at(data, 24) is None {
            HeaderRead::TooShort
        } else {
            let format = if f == 2 { PackFormat::V2 } else if f == 3 { PackFormat::V3 } else { PackFormat::V4 };
            let flags = u32_at(data, 20)->0;
            let encrypted = flags & PACK_DIR_ENCRYPTED != 0;
            let sparse = flags & PACK_SPARSE_BUNDLE != 0;
            let relative = f != 2 || flags & PACK_REL_FILEBASE != 0;
            let raw_base = u64_at(data, 24)->0;
            let file_base = if relative { (raw_base + header_pos) as u64 } else { raw_base };
            if relative && raw_base + header_pos > u64::MAX {
                HeaderRead::BadData
            } else if f != 2 && u64_at(data, 32) is None {
                HeaderRead::TooShort
            } else if f == 4 && sparse && encrypted && data.len() < 72 {
                HeaderRead::TooShort
            } else {
                let salt = if f == 4 && sparse && encrypted { Some(salt_of(data.subrange(40, 72))) } else { None };
                let dir: int = if f == 2 { 96 } else { u64_at(data, 32)->0 as int };
                if u32_at(data, dir) is None {
                    HeaderRead::TooShort
                } else if encrypted {
                    HeaderRead::BadData
                } else {
                    HeaderRead::Read(format, version, salt, file_base, dir + 4, u32_at(data, dir)->0)
                }
            }
        }
    }
}

impl Pack {
    /// Reads a pack from the bytes of a pack file. Fails with `TooShort` when the data ends
    /// early, `BadData` on a wrong magic, a path that is not UTF-8, an encrypted directory, an
    /// entry that removes a file or a file offset that overflows, and `UnknownVersion` on an
    /// unknown format. `header_pos` is where the header stands in its file: formats 3 and 4, and
    /// format 2 packs flagged with a relative file base, add it to the file base (a sum that
    /// overflows is `BadData`).
    pub fn parse(data: &[u8], config: &PackConfig, header_pos: u64) -> (r: Result<Pack, Error>)
        requires
            config.magic() matches Some(s) ==> encode_utf8(s@).len() >= 4,
        ensures
            match read_header(data@, config_magic(*config), header_pos) {
                HeaderRead::Read(format, version, salt, file_base, dir, count) =>
                    match read_dir(data@, dir, count as nat, file_base, Seq::empty(), Seq::empty()) {
                        DirRead::Read(fs, ds) => r matches Ok(p) && p.format == format && p.engine_version == version
                            && p.salt == salt && p.file_base == file_base && file_entries(p.files) == fs
                            && delta_entries(p.deltas) == ds,
                        DirRead::TooShort => r is Err && r->Err_0 == Error::TooShort,
                        DirRead::BadData => r is Err && r->Err_0 == Error::BadData,
                    },
                HeaderRead::TooShort => r is Err && r->Err_0 == Error::TooShort,
                HeaderRead::BadData => r is Err && r->Err_0 == Error::BadData,
                HeaderRead::UnknownVersion(v) => r is Err && r->Err_0 == Error::UnknownVersion(v),
            },
    {
        let magic = match read_u32(data, 0) {
            Some(v) => v,
            None => {
                return Err(Error::TooShort);
            },
        };
        if magic != config.header_magic() {
            return Err(Error::BadData);
        }
        let (format_id, major, minor, patch) = match (read_u32(data, 4), read_u32(data, 8), read_u32(data, 12), read_u32(data, 16)) {
            (Some(f), Some(a), Some(b), Some(c)) => (f, a, b, c),
            _ => {
                return Err(Error::TooShort);
            },
        };
        let format = if format_id == 2 {
            PackFormat::V2
        } else if format_id == 3 {
            PackFormat::V3
        } else if format_id == 4 {
            PackFormat::V4
        } else {
            return Err(Error::UnknownVersion(format_id));
        };
        let (pack_flags, raw_base) = match (read_u32(data, 20), read_u64(data, 24)) {
            (Some(f), Some(b)) => (f, b),
            _ => {
                return Err(Error::TooShort);
            },
        };
        let relative = format_id != 2 || pack_flags & PACK_REL_FILEBASE != 0;
        let file_base = if relative {
            match raw_base.checked_add(header_pos) {
                Some(b) => b,
                None => {
                    return Err(Error::BadData);
                },
            }
        } else {
            raw_base
        };
        let enc_directory = pack_flags & PACK_DIR_ENCRYPTED != 0;
        let sparse_bundle = pack_flags & PACK_SPARSE_BUNDLE != 0;
        let mut salt: Option<[u8; 32]> = None;
        let dir: usize = if format_id == 2 {
            96
        } else {
            let dir_offset = match read_u64(data, 32) {
                Some(v) => v,
                None => {
                    return Err(Error::TooShort);
                },
            };
            if format_id == 4 && sparse_bundle && enc_directory {
                if data.len() < 72 {
                    return Err(Error::TooShort);
                }
                let s: [u8; 32] = [
                    data[40], data[41], data[42], data[43], data[44], data[45], data[46], data[47],
                    data[48], data[49], data[50], data[51], data[52], data[53], data[54], data[55],
                    data[56], data[57], data[58], data[59], data[60], data[61], data[62], data[63],
                    data[64], data[65], data[66], data[67], data[68], data[69], data[70], data[71],
                ];
                proof {
                    assert(s@ =~= data@.subrange(40, 72));
                    assert(salt_of(data@.subrange(40, 72)) =~= s);
                }
                salt = Some(s);
            }
            if dir_offset > data.len() as u64 {
                return Err(Error::TooShort);
            }
            dir_offset as usize
        };
        let file_count = match read_u32(data, dir) {
            Some(v) => v,
            None => {
                return Err(Error::TooShort);
            },
        };
        if enc_directory {
            return Err(Error::BadData);
        }
        let (files, deltas) = match read_directory(data, dir + 4, file_count, file_base) {
            Ok(v) => v,
            Err(e) => {
                return Err(e);
            },
        };
        Ok(Pack {
            format,
            engine_version: (major, minor, patch),
            salt,
            file_base,
            files,
            deltas,
        })
    }
}

} // verus!
