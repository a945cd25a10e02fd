//! Writing pack headers and directories.
use vstd::prelude::*;
use vstd::utf8::*;
use vstd::string::StringSliceAdditionalSpecFns;
use indexmap::IndexMap;
use crate::WritableMarshalBuffer;
use crate::marshalling::{le_bytes_u32, le_bytes_u64, lemma_u32_roundtrip, lemma_u64_roundtrip};
use crate::pack::{PackConfig, PackFormat, PackedFile, file_entries, config_magic, new_file_map, DirRead, HeaderRead, read_header,
    PACK_DIR_ENCRYPTED, PACK_SPARSE_BUNDLE,
    read_dir, insert_entry, trim_nul, hash_of, u32_at, u64_at, PACK_FILE_REMOVAL, PACK_FILE_DELTA, PACK_FILE_ENCRYPTED};

verus! {

broadcast use {encode_utf8_valid_utf8, encode_utf8_decode_utf8};

/// Calls `IndexMap::iter` and copies out the entries in order. The map holds each path once.
#[verifier::external_body]
fn file_list(m: &IndexMap<String, PackedFile>) -> (r: Vec<(String, PackedFile)>)
    ensures
        r@.len() == file_entries(*m).len(),
        forall|i: int| 0 <= i < r@.len() ==> (#[trigger] r@[i]).0@ == file_entries(*m)[i].0
            && r@[i].1 == file_entries(*m)[i].1,
        forall|i: int, j: int| 0 <= i < j < r@.len() ==> (#[trigger] r@[i]).0@ != (#[trigger] r@[j]).0@,
{
    m.iter().map(|(k, v)| (k.clone(), *v)).collect()
}

/// The format number a pack header holds.
pub open spec fn format_number(f: PackFormat) -> u32 {
    match f {
        PackFormat::V2 => 2,
        PackFormat::V3 => 3,
        PackFormat::V4 => 4,
    }
}

/// The directory entry of a file: path length and UTF-8 path, offset, size, hash, and no flags.
pub open spec fn dir_entry_bytes(path: Seq<char>, f: PackedFile) -> Seq<u8> {
    le_bytes_u32(encode_utf8(path).len() as u32) + encode_utf8(path) + le_bytes_u64(f.offset)
        + le_bytes_u64(f.size) + f.hash@ + le_bytes_u32(0)
}

/// The directory entries of `es`, in order.
pub open spec fn dir_entries_bytes(es: Seq<(Seq<char>, PackedFile)>) -> Seq<u8>
    decreases es.len(),
{
    if es.len() == 0 {
        Seq::empty()
    } else {
        dir_entries_bytes(es.drop_last()) + dir_entry_bytes(es.last().0, es.last().1)
    }
}

/// The directory: the file count, then the entries.
pub open spec fn directory_bytes(es: Seq<(Seq<char>, PackedFile)>) -> Seq<u8> {
    le_bytes_u32(es.len() as u32) + dir_entries_bytes(es)
}

/// Length of the header: 40 bytes, or 96 for format 2 (which reserves 64 bytes).
pub open spec fn header_len(f: PackFormat) -> nat {
    if f == PackFormat::V2 { 96 } else { 40 }
}

/// The file base a written pack records: files follow the directory, and for format 2 the base
/// is absolute, so the position of the header in the file is added.
pub open spec fn written_file_base(f: PackFormat, es: Seq<(Seq<char>, PackedFile)>, header_pos: u64) -> int {
    header_len(f) + directory_bytes(es).len() + if f == PackFormat::V2 { header_pos as int } else { 0 }
}

/// The bytes `PackBuilder::encode` writes: magic, format, engine version, no flags, file base,
/// then the directory offset (40) or, for format 2, 64 reserved bytes; then the directory.
pub open spec fn pack_bytes(
    magic: u32,
    f: PackFormat,
    version: (u32, u32, u32),
    es: Seq<(Seq<char>, PackedFile)>,
    header_pos: u64,
) -> Seq<u8> {
    le_bytes_u32(magic) + le_bytes_u32(format_number(f)) + le_bytes_u32(version.0) + le_bytes_u32(version.1)
        + le_bytes_u32(version.2) + le_bytes_u32(0) + le_bytes_u64(written_file_base(f, es, header_pos) as u64)
        + (if f == PackFormat::V2 { Seq::new(64, |i: int| 0u8) } else { le_bytes_u64(40) })
        + directory_bytes(es)
}

/// Builds the header and directory of a pack file.
#[derive(Debug)]
pub struct PackBuilder {
    format: PackFormat,
    engine_version: (u32, u32, u32),
    /// The files of the pack, by path.
    pub files: IndexMap<String, PackedFile>,
}

impl PackBuilder {
    /// A builder with no files.
    pub fn new(format: PackFormat, engine_version: (u32, u32, u32)) -> (r: PackBuilder)
        ensures
            r.format() == format,
            r.engine_version() == engine_version,
            r.entries() == Seq::<(Seq<char>, PackedFile)>::empty(),
    {
        PackBuilder { format, engine_version, files: new_file_map() }
    }

    /// The files to write, in order.
    pub closed spec fn entries(&self) -> Seq<(Seq<char>, PackedFile)> {
        file_entries(self.files)
    }

    /// The pack format to write.
    pub closed spec fn format(&self) -> PackFormat {
        self.format
    }

    /// The engine version to write.
    pub closed spec fn engine_version(&self) -> (u32, u32, u32) {
        self.engine_version
    }

    /// Encodes the directory of this pack.
    fn encode_directory(&self) -> (r: Vec<u8>)
        requires
            file_entries(self.files).len() <= u32::MAX,
            forall|i: int| 0 <= i < file_entries(self.files).len() ==>
                encode_utf8((#[trigger] file_entries(self.files)[i]).0).len() <= u32::MAX,
        ensures
            r@ == directory_bytes(file_entries(self.files)),
            forall|i: int, j: int| 0 <= i < j < file_entries(self.files).len()
                ==> (#[trigger] file_entries(self.files)[i]).0 != (#[trigger] file_entries(self.files)[j]).0,
    {
        let files = file_list(&self.files);
        let ghost es = file_entries(self.files);
        proof {
            assert forall|i: int, j: int| 0 <= i < j < es.len() implies (#[trigger] es[i]).0 != (#[trigger] es[j]).0 by {
                assert(files@[i].0@ == es[i].0);
                assert(files@[j].0@ == es[j].0);
            }
        }
        let mut directory = WritableMarshalBuffer::new(false);
        directory.encode_uint32(files.len() as u32);
        let mut i: usize = 0;
        proof {
            assert(es.take(0) =~= Seq::<(Seq<char>, PackedFile)>::empty());
            assert(directory@ =~= le_bytes_u32(es.len() as u32) + dir_entries_bytes(es.take(0)));
        }
        while i < files.len()
            invariant
                i <= files@.len(),
                files@.len() == es.len(),
                es == file_entries(self.files),
                forall|k: int| 0 <= k < files@.len() ==> (#[trigger] files@[k]).0@ == es[k].0 && files@[k].1 == es[k].1,
                forall|k: int| 0 <= k < es.len() ==> encode_utf8((#[trigger] es[k]).0).len() <= u32::MAX,
                directory@ == le_bytes_u32(es.len() as u32) + dir_entries_bytes(es.take(i as int)),
            decreases files@.len() - i,
        {
            let (path, file) = &files[i];
            let bytes = path.as_str().as_bytes();
            assert(bytes@ == encode_utf8(es[i as int].0));
            directory.encode_uint32(bytes.len() as u32);
            directory.extend_from_slice(bytes);
            directory.encode_uint64(file.offset);
            directory.encode_uint64(file.size);
            directory.extend_from_slice(file.hash.as_slice());
            directory.encode_uint32(0);
            proof {
                assert(es.take(i + 1).drop_last() =~= es.take(i as int));
                assert(es.take(i + 1).last() == es[i as int]);
                assert(directory@ =~= le_bytes_u32(es.len() as u32) + dir_entries_bytes(es.take(i + 1)));
            }
            i = i + 1;
        }
        assert(es.take(i as int) =~= es);
        directory.into_inner()
    }

    /// Encodes the header and directory of this pack. The files are meant to follow directly
    /// after the directory; `header_pos_within_file` is the position of the header in the file,
    /// which format 2 packs add to their (absolute) file base.
    pub fn encode(&self, config: &PackConfig, header_pos_within_file: u64) -> (r: Vec<u8>)
        requires
            config.magic() matches Some(s) ==> encode_utf8(s@).len() >= 4,
            self.entries().len() <= u32::MAX,
            forall|i: int| 0 <= i < self.entries().len() ==>
                encode_utf8((#[trigger] self.entries()[i]).0).len() <= u32::MAX,
            written_file_base(self.format(), self.entries(), header_pos_within_file) <= u64::MAX,
        ensures
            r@ == pack_bytes(config_magic(*config), self.format(), self.engine_version(),
                self.entries(), header_pos_within_file),
            forall|i: int, j: int| 0 <= i < j < self.entries().len()
                ==> (#[trigger] self.entries()[i]).0 != (#[trigger] self.entries()[j]).0,
    {
        let directory = self.encode_directory();
        let mut header = WritableMarshalBuffer::new(false);
        header.encode_uint32(config.header_magic());
        let format_id: u32 = match self.format {
            PackFormat::V2 => 2,
            PackFormat::V3 => 3,
            PackFormat::V4 => 4,
        };
        header.encode_uint32(format_id);
        header.encode_uint32(self.engine_version.0);
        header.encode_uint32(self.engine_version.1);
        header.encode_uint32(self.engine_version.2);
        header.encode_uint32(0);
        let header_len: u64 = if format_id == 2 { 96 } else { 40 };
        let mut file_base: u64 = header_len + directory.len() as u64;
        if format_id == 2 {
            file_base = file_base + header_pos_within_file;
        }
        header.encode_uint64(file_base);
        if format_id == 2 {
            let reserved: [u8; 64] = [0u8; 64];
            header.extend_from_slice(reserved.as_slice());
            proof {
                assert(reserved@ =~= Seq::new(64, |i: int| 0u8));
            }
        } else {
            header.encode_uint64(40);
        }
        header.extend_from_slice(directory.as_slice());
        header.into_inner()
    }
}

/// The entries `Pack::parse` reads back from a directory written for `es` with file base `fb`:
/// same paths and sizes and hashes, offsets with the file base added, none encrypted.
pub open spec fn parsed_entries(es: Seq<(Seq<char>, PackedFile)>, fb: u64) -> Seq<(Seq<char>, PackedFile)> {
    es.map_values(|e: (Seq<char>, PackedFile)| (e.0, PackedFile {
        encrypted: false,
        offset: (fb + e.1.offset) as u64,
        size: e.1.size,
        hash: e.1.hash,
    }))
}

/// The conditions under which a written directory reads back: the count and every path length
/// fit a `u32`, no path ends with `'\0'` (reading trims those), paths are distinct, and every
/// offset plus the file base fits a `u64`.
pub open spec fn round_trips(es: Seq<(Seq<char>, PackedFile)>, fb: int) -> bool {
    &&& es.len() <= u32::MAX
    &&& forall|i: int| 0 <= i < es.len() ==> encode_utf8((#[trigger] es[i]).0).len() <= u32::MAX
    &&& forall|i: int| 0 <= i < es.len() ==> (#[trigger] es[i]).0.len() == 0 || es[i].0.last() != '\0'
    &&& forall|i: int, j: int| 0 <= i < j < es.len() ==> (#[trigger] es[i]).0 != (#[trigger] es[j]).0
    &&& forall|i: int| 0 <= i < es.len() ==> fb + (#[trigger] es[i]).1.offset <= u64::MAX
}

/// The entries written one after the other, starting with the first.
proof fn lemma_dir_entries_front(es: Seq<(Seq<char>, PackedFile)>)
    requires
        es.len() > 0,
    ensures
        dir_entries_bytes(es) == dir_entry_bytes(es[0].0, es[0].1) + dir_entries_bytes(es.skip(1)),
    decreases es.len(),
{
    if es.len() == 1 {
        assert(es.drop_last() =~= Seq::<(Seq<char>, PackedFile)>::empty());
        assert(es.skip(1) =~= Seq::<(Seq<char>, PackedFile)>::empty());
        assert(dir_entries_bytes(es.drop_last()) == Seq::<u8>::empty());
        assert(dir_entries_bytes(es.skip(1)) == Seq::<u8>::empty());
        assert(es.last() == es[0]);
        let a = dir_entry_bytes(es[0].0, es[0].1);
        assert(Seq::<u8>::empty() + a =~= a);
        assert(a + Seq::<u8>::empty() =~= a);
    } else {
        lemma_dir_entries_front(es.drop_last());
        assert(es.drop_last().skip(1) =~= es.skip(1).drop_last());
        assert(es.skip(1).last() == es.last());
        assert(es.drop_last()[0] == es[0]);
        let a = dir_entry_bytes(es[0].0, es[0].1);
        let m = dir_entries_bytes(es.drop_last().skip(1));
        let z = dir_entry_bytes(es.last().0, es.last().1);
        assert(a + m + z =~= a + (m + z));
    }
}

/// Length of a directory entry.
proof fn lemma_dir_entry_len(path: Seq<char>, f: PackedFile)
    ensures
        dir_entry_bytes(path, f).len() == 40 + encode_utf8(path).len(),
{
    lemma_u32_roundtrip(encode_utf8(path).len() as u32);
    lemma_u32_roundtrip(0);
    lemma_u64_roundtrip(f.offset);
    lemma_u64_roundtrip(f.size);
}

/// A path that does not end with `'\0'` is its own trim.
proof fn lemma_trim_nul_keeps(s: Seq<char>)
    requires
        s.len() == 0 || s.last() != '\0',
    ensures
        trim_nul(s) == s,
{
}

/// Splitting a run of bytes found at `pos` into its two parts.
proof fn lemma_split_at(data: Seq<u8>, pos: int, a: Seq<u8>, b: Seq<u8>)
    requires
        0 <= pos,
        pos + a.len() + b.len() <= data.len(),
        data.subrange(pos, pos + a.len() + b.len()) == a + b,
    ensures
        data.subrange(pos, pos + a.len()) == a,
        data.subrange(pos + a.len(), pos + a.len() + b.len()) == b,
{
    let w = data.subrange(pos, pos + a.len() + b.len());
    assert(data.subrange(pos, pos + a.len()) =~= w.subrange(0, a.len() as int));
    assert(w.subrange(0, a.len() as int) =~= a);
    assert(data.subrange(pos + a.len(), pos + a.len() + b.len()) =~= w.subrange(a.len() as int, (a.len() + b.len()) as int));
    assert(w.subrange(a.len() as int, (a.len() + b.len()) as int) =~= b);
}

/// The fields of a directory entry found at `pos`.
proof fn lemma_entry_fields(data: Seq<u8>, pos: int, path: Seq<char>, f: PackedFile)
    requires
        0 <= pos,
        encode_utf8(path).len() <= u32::MAX,
        pos + dir_entry_bytes(path, f).len() <= data.len(),
        data.subrange(pos, pos + dir_entry_bytes(path, f).len()) == dir_entry_bytes(path, f),
    ensures
        ({
            let len = encode_utf8(path).len() as int;
            let q = pos + 4 + len;
            &&& dir_entry_bytes(path, f).len() == 40 + len
            &&& u32_at(data, pos) == Some(len as u32)
            &&& data.subrange(pos + 4, q) == encode_utf8(path)
            &&& u64_at(data, q) == Some(f.offset)
            &&& u64_at(data, q + 8) == Some(f.size)
            &&& hash_of(data.subrange(q + 16, q + 32)) == f.hash
            &&& u32_at(data, q + 32) == Some(0u32)
        }),
{
    let bytes = encode_utf8(path);
    let len = bytes.len() as int;
    lemma_dir_entry_len(path, f);
    lemma_u32_roundtrip(len as u32);
    lemma_u32_roundtrip(0);
    lemma_u64_roundtrip(f.offset);
    lemma_u64_roundtrip(f.size);
    let entry = dir_entry_bytes(path, f);
    let w = data.subrange(pos, pos + entry.len());
    let q = pos + 4 + len;
    assert(entry =~= le_bytes_u32(len as u32) + bytes + le_bytes_u64(f.offset) + le_bytes_u64(f.size)
        + f.hash@ + le_bytes_u32(0));
    assert(data.subrange(pos, pos + 4) =~= w.subrange(0, 4));
    assert(w.subrange(0, 4) =~= le_bytes_u32(len as u32));
    assert(data.subrange(pos + 4, q) =~= w.subrange(4, 4 + len));
    assert(w.subrange(4, 4 + len) =~= bytes);
    assert(data.subrange(q, q + 8) =~= w.subrange(4 + len, 12 + len));
    assert(w.subrange(4 + len, 12 + len) =~= le_bytes_u64(f.offset));
    assert(data.subrange(q + 8, q + 16) =~= w.subrange(12 + len, 20 + len));
    assert(w.subrange(12 + len, 20 + len) =~= le_bytes_u64(f.size));
    assert(data.subrange(q + 16, q + 32) =~= w.subrange(20 + len, 36 + len));
    assert(w.subrange(20 + len, 36 + len) =~= f.hash@);
    assert(data.subrange(q + 32, q + 36) =~= w.subrange(36 + len, 40 + len));
    assert(w.subrange(36 + len, 40 + len) =~= le_bytes_u32(0));
    assert(hash_of(f.hash@) =~= f.hash);
}

/// What holds of all entries holds of all but the first.
proof fn lemma_round_trips_tail(es: Seq<(Seq<char>, PackedFile)>, fb: int)
    requires
        es.len() > 0,
        round_trips(es, fb),
    ensures
        round_trips(es.skip(1), fb),
{
    let es2 = es.skip(1);
    assert forall|i: int| 0 <= i < es2.len() implies encode_utf8((#[trigger] es2[i]).0).len() <= u32::MAX by {
        assert(es2[i] == es[i + 1]);
    }
    assert forall|i: int| 0 <= i < es2.len() implies (#[trigger] es2[i]).0.len() == 0 || es2[i].0.last() != '\0' by {
        assert(es2[i] == es[i + 1]);
    }
    assert forall|i: int, j: int| 0 <= i < j < es2.len() implies (#[trigger] es2[i]).0 != (#[trigger] es2[j]).0 by {
        assert(es2[i] == es[i + 1]);
        assert(es2[j] == es[j + 1]);
    }
    assert forall|i: int| 0 <= i < es2.len() implies fb + (#[trigger] es2[i]).1.offset <= u64::MAX by {
        assert(es2[i] == es[i + 1]);
    }
}

/// Reading a directory written for `es` adds the parsed entries after `files`.
proof fn lemma_read_written_dir(
    data: Seq<u8>,
    pos: int,
    es: Seq<(Seq<char>, PackedFile)>,
    fb: u64,
    files: Seq<(Seq<char>, PackedFile)>,
    deltas: Seq<([u8; 16], Seq<PackedFile>)>,
)
    requires
        0 <= pos,
        pos + dir_entries_bytes(es).len() <= data.len(),
        data.subrange(pos, pos + dir_entries_bytes(es).len()) == dir_entries_bytes(es),
        round_trips(es, fb as int),
        forall|i: int, j: int| 0 <= i < es.len() && 0 <= j < files.len() ==> (#[trigger] es[i]).0 != (#[trigger] files[j]).0,
    ensures
        read_dir(data, pos, es.len(), fb, files, deltas) == DirRead::Read(files + parsed_entries(es, fb), deltas),
    decreases es.len(),
{
    if es.len() == 0 {
        assert(files + parsed_entries(es, fb) =~= files);
    } else {
        let path = es[0].0;
        let f = es[0].1;
        let bytes = encode_utf8(path);
        let len = bytes.len() as int;
        let entry = dir_entry_bytes(path, f);
        let rest = dir_entries_bytes(es.skip(1));
        lemma_dir_entries_front(es);
        lemma_split_at(data, pos, entry, rest);
        lemma_entry_fields(data, pos, path, f);
        let q = pos + 4 + len;
        lemma_trim_nul_keeps(path);
        assert(0u32 & PACK_FILE_REMOVAL == 0) by (bit_vector);
        assert(0u32 & PACK_FILE_DELTA == 0) by (bit_vector);
        assert(0u32 & PACK_FILE_ENCRYPTED == 0) by (bit_vector);
        let file = PackedFile { encrypted: false, offset: (fb + f.offset) as u64, size: f.size, hash: f.hash };
        assert(!(exists|i: int| 0 <= i < files.len() && (#[trigger] files[i]).0 == path)) by {
            if exists|i: int| 0 <= i < files.len() && (#[trigger] files[i]).0 == path {
                let i = choose|i: int| 0 <= i < files.len() && (#[trigger] files[i]).0 == path;
                assert(es[0].0 != files[i].0);
            }
        }
        assert(insert_entry(files, path, file) == files.push((path, file)));
        let es2 = es.skip(1);
        let files2 = files.push((path, file));
        lemma_round_trips_tail(es, fb as int);
        assert forall|i: int, j: int| 0 <= i < es2.len() && 0 <= j < files2.len() implies (#[trigger] es2[i]).0 != (#[trigger] files2[j]).0 by {
            assert(es2[i] == es[i + 1]);
            if j < files.len() {
                assert(files2[j] == files[j]);
            } else {
                assert(files2[j] == (path, file));
                assert(es[i + 1].0 != es[0].0);
            }
        }
        assert(read_dir(data, pos, es.len(), fb, files, deltas)
            == read_dir(data, q + 36, es2.len(), fb, files2, deltas));
        lemma_read_written_dir(data, q + 36, es2, fb, files2, deltas);
        assert(files2 + parsed_entries(es2, fb) =~= files + parsed_entries(es, fb));
    }
}

/// The header fields of a written pack, where `Pack::parse` reads them.
proof fn lemma_written_header(
    magic: u32,
    f: PackFormat,
    version: (u32, u32, u32),
    es: Seq<(Seq<char>, PackedFile)>,
    header_pos: u64,
)
    requires
        written_file_base(f, es, header_pos) <= u64::MAX,
    ensures
        ({
            let data = pack_bytes(magic, f, version, es, header_pos);
            let dir = header_len(f) as int;
            &&& u32_at(data, 0) == Some(magic)
            &&& u32_at(data, 4) == Some(format_number(f))
            &&& u32_at(data, 8) == Some(version.0)
            &&& u32_at(data, 12) == Some(version.1)
            &&& u32_at(data, 16) == Some(version.2)
            &&& u32_at(data, 20) == Some(0u32)
            &&& u64_at(data, 24) == Some(written_file_base(f, es, header_pos) as u64)
            &&& (f != PackFormat::V2 ==> u64_at(data, 32) == Some(40u64))
            &&& data.len() == dir + directory_bytes(es).len()
            &&& data.subrange(dir, data.len() as int) == directory_bytes(es)
        }),
{
    let fb = written_file_base(f, es, header_pos) as u64;
    let m = le_bytes_u32(magic);
    let fm = le_bytes_u32(format_number(f));
    let a = le_bytes_u32(version.0);
    let b = le_bytes_u32(version.1);
    let c = le_bytes_u32(version.2);
    let z = le_bytes_u32(0);
    let base = le_bytes_u64(fb);
    let mid: Seq<u8> = if f == PackFormat::V2 { Seq::new(64, |i: int| 0u8) } else { le_bytes_u64(40) };
    let d = directory_bytes(es);
    lemma_u32_roundtrip(magic);
    lemma_u32_roundtrip(format_number(f));
    lemma_u32_roundtrip(version.0);
    lemma_u32_roundtrip(version.1);
    lemma_u32_roundtrip(version.2);
    lemma_u32_roundtrip(0);
    lemma_u64_roundtrip(fb);
    lemma_u64_roundtrip(40);
    let h = m + fm + a + b + c + z + base + mid;
    let data = pack_bytes(magic, f, version, es, header_pos);
    assert(data == h + d);
    assert(h.len() == header_len(f));
    assert(data.subrange(0, 4) =~= m);
    assert(data.subrange(4, 8) =~= fm);
    assert(data.subrange(8, 12) =~= a);
    assert(data.subrange(12, 16) =~= b);
    assert(data.subrange(16, 20) =~= c);
    assert(data.subrange(20, 24) =~= z);
    assert(data.subrange(24, 32) =~= base);
    if f != PackFormat::V2 {
        assert(data.subrange(32, 40) =~= le_bytes_u64(40));
    }
    assert(data.subrange(header_len(f) as int, data.len() as int) =~= d);
}

/// A pack that `PackBuilder::encode` wrote reads back: its header gives the format, the engine
/// version, no salt, the file base written and the file count, and its directory gives the files
/// in order, each with the file base added to its offset and none encrypted. This holds where
/// the entries `round_trips` allows (fitting lengths, no path ending in `'\0'`, distinct paths,
/// offsets that fit with the file base added).
pub proof fn law_pack_encode_parse(
    magic: u32,
    f: PackFormat,
    version: (u32, u32, u32),
    es: Seq<(Seq<char>, PackedFile)>,
    header_pos: u64,
)
    requires
        written_file_base(f, es, header_pos) <= u64::MAX,
        round_trips(es, written_file_base(f, es, header_pos)),
    ensures
        ({
            let data = pack_bytes(magic, f, version, es, header_pos);
            let fb = written_file_base(f, es, header_pos) as u64;
            let dir = header_len(f) as int;
            &&& read_header(data, magic, 0) == HeaderRead::Read(f, version, None, fb, dir + 4, es.len() as u32)
            &&& read_dir(data, dir + 4, es.len(), fb, Seq::empty(), Seq::empty())
                == DirRead::Read(parsed_entries(es, fb), Seq::empty())
        }),
{
    let data = pack_bytes(magic, f, version, es, header_pos);
    let fb = written_file_base(f, es, header_pos) as u64;
    let dir = header_len(f) as int;
    lemma_written_header(magic, f, version, es, header_pos);
    let n = le_bytes_u32(es.len() as u32);
    let e = dir_entries_bytes(es);
    lemma_u32_roundtrip(es.len() as u32);
    lemma_split_at(data, dir, n, e);
    assert(u32_at(data, dir) == Some(es.len() as u32));
    assert(0u32 & PACK_DIR_ENCRYPTED == 0) by (bit_vector);
    assert(0u32 & PACK_SPARSE_BUNDLE == 0) by (bit_vector);
    assert(read_header(data, magic, 0) == HeaderRead::Read(f, version, None, fb, dir + 4, es.len() as u32));
    lemma_read_written_dir(data, dir + 4, es, fb, Seq::empty(), Seq::empty());
    assert(Seq::<(Seq<char>, PackedFile)>::empty() + parsed_entries(es, fb) =~= parsed_entries(es, fb));
}

} // verus!
