//! The UID cache (`.godot/uid_cache.bin`), mapping resource UIDs to paths.
use vstd::prelude::*;
use vstd::utf8::*;
use vstd::string::StringSliceAdditionalSpecFns;
use crate::Error;
use crate::marshalling::{ReadableMarshalBuffer, WritableMarshalBuffer, le_bytes_u32, le_bytes_u64, u32_of_le, u64_of_le, lemma_u32_roundtrip, lemma_u64_roundtrip};

verus! {

broadcast use {encode_utf8_valid_utf8, encode_utf8_decode_utf8};

/// A resource UID.
#[derive(Debug, Clone, Copy, PartialEq, Eq, Hash, Structural)]
pub struct UID(pub u64);

/// The UID cache: a list of (UID, resource path) entries.
#[derive(Debug, Default)]
pub struct UIDCache(pub Vec<(UID, String)>);

/// The abstract contents of a cache entry list.
pub open spec fn entries_view(v: Seq<(UID, String)>) -> Seq<(u64, Seq<char>)> {
    v.map_values(|e: (UID, String)| (e.0.0, e.1@))
}

impl View for UIDCache {
    type V = Seq<(u64, Seq<char>)>;

    open spec fn view(&self) -> Seq<(u64, Seq<char>)> {
        entries_view(self.0@)
    }
}

/// Outcome of decoding a UID cache from bytes.
pub enum UidDecode {
    /// The entries read and the number of bytes consumed.
    Decoded(Seq<(u64, Seq<char>)>, nat),
    /// The data ended before a count, UID or length field, or before the end of a path.
    TooShort,
    /// A path is not valid UTF-8.
    BadData,
}

/// Prepends decoded entries and a byte count to a later outcome.
pub open spec fn prepend_decoded(es: Seq<(u64, Seq<char>)>, c: nat, r: UidDecode) -> UidDecode {
    match r {
        UidDecode::Decoded(es2, c2) => UidDecode::Decoded(es + es2, c + c2),
        other => other,
    }
}

/// Decodes `n` entries from `rest`: each is a `u64` UID, a `u32` byte length and that many bytes
/// of UTF-8 path.
pub open spec fn uid_entries(rest: Seq<u8>, n: nat) -> UidDecode
    decreases n,
{
    if n == 0 {
        UidDecode::Decoded(Seq::empty(), 0)
    } else if rest.len() < 12 {
        UidDecode::TooShort
    } else {
        let uid = u64_of_le(rest.subrange(0, 8));
        let len = u32_of_le(rest.subrange(8, 12)) as int;
        if 12 + len > rest.len() {
            UidDecode::TooShort
        } else {
            let b = rest.subrange(12, 12 + len);
            if !valid_utf8(b) {
                UidDecode::BadData
            } else {
                prepend_decoded(
                    seq![(uid, decode_utf8(b))],
                    (12 + len) as nat,
                    uid_entries(rest.skip(12 + len), (n - 1) as nat),
                )
            }
        }
    }
}

/// Decodes a UID cache: a `u32` entry count followed by the entries.
pub open spec fn spec_uid_decode(rest: Seq<u8>) -> UidDecode {
    if rest.len() < 4 {
        UidDecode::TooShort
    } else {
        prepend_decoded(Seq::empty(), 4, uid_entries(rest.skip(4), u32_of_le(rest.take(4)) as nat))
    }
}

/// The bytes of one entry.
pub open spec fn entry_bytes(e: (u64, Seq<char>)) -> Seq<u8> {
    le_bytes_u64(e.0) + le_bytes_u32(encode_utf8(e.1).len() as u32) + encode_utf8(e.1)
}

/// The bytes of a list of entries.
pub open spec fn entries_bytes(es: Seq<(u64, Seq<char>)>) -> Seq<u8>
    decreases es.len(),
{
    if es.len() == 0 {
        Seq::empty()
    } else {
        entry_bytes(es[0]) + entries_bytes(es.drop_first())
    }
}

/// The bytes `UIDCache::encode` writes for a list of entries.
pub open spec fn spec_uid_encode(es: Seq<(u64, Seq<char>)>) -> Seq<u8> {
    le_bytes_u32(es.len() as u32) + entries_bytes(es)
}

/// Entries whose count and path lengths fit the `u32` fields of the format.
pub open spec fn encodable(es: Seq<(u64, Seq<char>)>) -> bool {
    &&& es.len() <= u32::MAX
    &&& forall|i: int| 0 <= i < es.len() ==> #[trigger] encode_utf8(es[i].1).len() <= u32::MAX
}

/// Appending one entry to a list appends its bytes.
proof fn lemma_entries_bytes_push(es: Seq<(u64, Seq<char>)>, e: (u64, Seq<char>))
    ensures
        entries_bytes(es.push(e)) == entries_bytes(es) + entry_bytes(e),
    decreases es.len(),
{
    if es.len() == 0 {
        assert(es.push(e).drop_first() =~= Seq::<(u64, Seq<char>)>::empty());
        assert(entries_bytes(Seq::<(u64, Seq<char>)>::empty()) =~= Seq::<u8>::empty());
        assert(entries_bytes(es) =~= Seq::<u8>::empty());
        assert(entries_bytes(es.push(e)) =~= entry_bytes(e));
    } else {
        assert(es.push(e).drop_first() =~= es.drop_first().push(e));
        lemma_entries_bytes_push(es.drop_first(), e);
        assert(es.push(e)[0] == es[0]);
        assert(entries_bytes(es.push(e)) =~= entry_bytes(es[0]) + (entries_bytes(es.drop_first()) + entry_bytes(e)));
    }
}

/// Encoded entries decode back to the same entries, whatever bytes follow them.
proof fn lemma_entries_roundtrip(es: Seq<(u64, Seq<char>)>, t: Seq<u8>)
    requires
        encodable(es),
    ensures
        uid_entries(entries_bytes(es) + t, es.len()) == UidDecode::Decoded(es, entries_bytes(es).len()),
    decreases es.len(),
{
    if es.len() > 0 {
        let e = es[0];
        let pb = encode_utf8(e.1);
        let rest = es.drop_first();
        assert(encodable(rest)) by {
            assert forall|i: int| 0 <= i < rest.len() implies #[trigger] encode_utf8(rest[i].1).len() <= u32::MAX by {
                assert(rest[i] == es[i + 1]);
            }
        }
        assert(pb.len() <= u32::MAX) by { assert(encode_utf8(es[0].1).len() <= u32::MAX); }
        lemma_entries_roundtrip(rest, t);
        lemma_u64_roundtrip(e.0);
        lemma_u32_roundtrip(pb.len() as u32);
        let bytes = entries_bytes(es) + t;
        assert(bytes =~= le_bytes_u64(e.0) + le_bytes_u32(pb.len() as u32) + pb + (entries_bytes(rest) + t));
        assert(bytes.subrange(0, 8) =~= le_bytes_u64(e.0));
        assert(bytes.subrange(8, 12) =~= le_bytes_u32(pb.len() as u32));
        let len = pb.len() as int;
        assert(bytes.subrange(12, 12 + len) =~= pb);
        assert(bytes.skip(12 + len) =~= entries_bytes(rest) + t);
        assert(seq![(e.0, e.1)] + rest =~= es);
    } else {
        assert(es =~= Seq::<(u64, Seq<char>)>::empty());
    }
}

/// Decoding what `encode` writes gives back the same entries and consumes exactly the encoded
/// bytes, whatever follows them (for entry counts and path lengths that fit in `u32`).
pub proof fn law_uid_cache_roundtrip(es: Seq<(u64, Seq<char>)>, t: Seq<u8>)
    requires
        encodable(es),
    ensures
        spec_uid_decode(spec_uid_encode(es) + t) == UidDecode::Decoded(es, spec_uid_encode(es).len()),
{
    lemma_u32_roundtrip(es.len() as u32);
    lemma_entries_roundtrip(es, t);
    let bytes = spec_uid_encode(es) + t;
    assert(bytes.take(4) =~= le_bytes_u32(es.len() as u32));
    assert(bytes.skip(4) =~= entries_bytes(es) + t);
    assert(Seq::<(u64, Seq<char>)>::empty() + es =~= es);
}

/// Calls `std::str::from_utf8`. Trusted: it succeeds exactly on valid UTF-8, and the text then
/// has exactly those bytes.
#[verifier::external_body]
pub(crate) fn str_from_utf8(bytes: &[u8]) -> (r: Option<&str>)
    ensures
        r is Some <==> valid_utf8(bytes@),
        r matches Some(s) ==> s.spec_bytes() == bytes@,
{
    std::str::from_utf8(bytes).ok()
}

/// Unfolding one step of `uid_entries`.
proof fn lemma_uid_entries_step(rest: Seq<u8>, n: nat)
    requires
        n > 0,
        rest.len() >= 12,
        12 + u32_of_le(rest.subrange(8, 12)) <= rest.len(),
        valid_utf8(rest.subrange(12, 12 + u32_of_le(rest.subrange(8, 12)) as int)),
    ensures
        ({
            let len = u32_of_le(rest.subrange(8, 12)) as int;
            uid_entries(rest, n) == prepend_decoded(
                seq![(u64_of_le(rest.subrange(0, 8)), decode_utf8(rest.subrange(12, 12 + len)))],
                (12 + len) as nat,
                uid_entries(rest.skip(12 + len), (n - 1) as nat),
            )
        }),
{
}

/// Prepending twice is prepending the concatenation.
proof fn lemma_prepend_assoc(a: Seq<(u64, Seq<char>)>, ca: nat, b: Seq<(u64, Seq<char>)>, cb: nat, r: UidDecode)
    ensures
        prepend_decoded(a, ca, prepend_decoded(b, cb, r)) == prepend_decoded(a + b, ca + cb, r),
{
    match r {
        UidDecode::Decoded(es, c) => {
            assert(a + (b + es) =~= (a + b) + es);
        },
        _ => {},
    }
}

impl UIDCache {
    /// Decodes a UID cache from `buffer`, starting at its current offset.
    pub fn decode(buffer: &mut ReadableMarshalBuffer) -> (r: Result<UIDCache, Error>)
        ensures
            final(buffer).data() == old(buffer).data(),
            final(buffer).marked() == old(buffer).marked(),
            final(buffer).marking_disabled() == old(buffer).marking_disabled(),
            match spec_uid_decode(old(buffer).rest()) {
                UidDecode::Decoded(es, c) => r matches Ok(cache) && cache@ == es
                    && final(buffer).pos() == old(buffer).pos() + c,
                UidDecode::TooShort => r == Err::<UIDCache, Error>(Error::TooShort)
                    && (!old(buffer).marking_disabled() ==> final(buffer).pos() == old(buffer).marked()),
                UidDecode::BadData => r == Err::<UIDCache, Error>(Error::BadData),
            },
    {
        let ghost data = buffer.data();
        let ghost start: int = buffer.pos() as int;
        let _rem = buffer.remaining();
        assert(start <= data.len());
        assert(old(buffer).rest() == data.subrange(start, data.len() as int));
        let ghost b0 = *buffer;
        let rc = buffer.decode_uint32();
        assert(b0.pos() == start);
        assert(rc is Ok <==> b0.pos() + 4 <= b0.data().len());
        let count = match rc {
            Ok(c) => c,
            Err(e) => {
                return Err(e);
            }
        };
        assert(start + 4 <= data.len());
        let ghost all = data.subrange(start, data.len() as int);
        proof {
            assert(data.subrange(start, start + 4) =~= all.take(4));
        }
        let mut entries: Vec<(UID, String)> = Vec::new();
        let mut i: u32 = 0;
        let ghost mut consumed: nat = 0;
        proof {
            assert(all.skip(4) =~= data.subrange(start + 4, data.len() as int));
            assert(entries_view(entries@) =~= Seq::<(u64, Seq<char>)>::empty());
            assert(Seq::<(u64, Seq<char>)>::empty() + Seq::<(u64, Seq<char>)>::empty() =~= Seq::<(u64, Seq<char>)>::empty());
        }
        while i < count
            invariant
                0 <= i <= count,
                count == u32_of_le(all.take(4)),
                all == data.subrange(start, data.len() as int),
                buffer.data() == data,
                data == old(buffer).data(),
                start == old(buffer).pos(),
                start + 4 <= data.len(),
                buffer.marked() == old(buffer).marked(),
                buffer.marking_disabled() == old(buffer).marking_disabled(),
                buffer.pos() == start + 4 + consumed,
                buffer.pos() <= data.len(),
                spec_uid_decode(all) == prepend_decoded(entries_view(entries@), 4 + consumed,
                    uid_entries(buffer.rest(), (count - i) as nat)),
            decreases count - i,
        {
            let ghost rest = buffer.rest();
            let ghost before: int = buffer.pos() as int;
            let uid = match buffer.decode_uint64() {
                Ok(u) => u,
                Err(e) => {
                    proof {
                        assert(rest.len() < 12);
                        assert(uid_entries(rest, (count - i) as nat) == UidDecode::TooShort);
                    }
                    return Err(e);
                }
            };
            let path_len_raw = match buffer.decode_uint32() {
                Ok(u) => u,
                Err(e) => {
                    proof {
                        assert(rest.len() < 12);
                        assert(uid_entries(rest, (count - i) as nat) == UidDecode::TooShort);
                    }
                    return Err(e);
                }
            };
            let path_len = path_len_raw as usize;
            proof {
                assert(rest.subrange(0, 8) =~= data.subrange(before, before + 8));
                assert(rest.subrange(8, 12) =~= data.subrange(before + 8, before + 12));
            }
            match buffer.ensure_remaining(path_len) {
                Ok(()) => {},
                Err(e) => {
                    proof {
                        assert(uid_entries(rest, (count - i) as nat) == UidDecode::TooShort);
                    }
                    return Err(e);
                },
            }
            let tail = buffer.buffer();
            let bytes = vstd::slice::slice_subrange(tail, 0, path_len);
            proof {
                assert(bytes@ =~= rest.subrange(12, 12 + path_len as int));
            }
            let path = match str_from_utf8(bytes) {
                Some(p) => p.to_owned(),
                None => {
                    proof {
                        assert(uid_entries(rest, (count - i) as nat) == UidDecode::BadData);
                    }
                    return Err(Error::BadData);
                }
            };
            proof {
                decode_utf8_encode_utf8(bytes@);
                assert(path@ == decode_utf8(bytes@));
            }
            buffer.advance(path_len);
            let ghost old_entries = entries_view(entries@);
            entries.push((UID(uid), path));
            proof {
                let len = path_len as int;
                lemma_uid_entries_step(rest, (count - i) as nat);
                assert(buffer.rest() =~= rest.skip(12 + len));
                assert(entries_view(entries@) =~= old_entries + seq![(uid, decode_utf8(bytes@))]);
                lemma_prepend_assoc(old_entries, 4 + consumed, seq![(uid, decode_utf8(bytes@))],
                    (12 + len) as nat, uid_entries(rest.skip(12 + len), (count - i - 1) as nat));
                consumed = consumed + (12 + len) as nat;
            }
            i = i + 1;
        }
        proof {
            assert(uid_entries(buffer.rest(), 0) == UidDecode::Decoded(Seq::empty(), 0));
            assert(entries_view(entries@) + Seq::<(u64, Seq<char>)>::empty() =~= entries_view(entries@));
        }
        Ok(UIDCache(entries))
    }

    /// Appends the encoding of this cache to `buffer`. Counts and path lengths are written as
    /// `u32` (truncated like an `as` cast).
    pub fn encode(&self, buffer: &mut WritableMarshalBuffer)
        ensures
            encodable(self@) ==> final(buffer)@ == old(buffer)@ + spec_uid_encode(self@),
            final(buffer).reals_64() == old(buffer).reals_64(),
    {
        buffer.encode_uint32(self.0.len() as u32);
        let ghost start = buffer@;
        let mut i: usize = 0;
        proof {
            assert(self@.take(0) =~= Seq::<(u64, Seq<char>)>::empty());
            assert(start =~= old(buffer)@ + le_bytes_u32(self.0@.len() as u32) + entries_bytes(self@.take(0)));
        }
        while i < self.0.len()
            invariant
                i <= self.0@.len(),
                self@.len() == self.0@.len(),
                encodable(self@) ==> buffer@ == old(buffer)@ + le_bytes_u32(self.0@.len() as u32)
                    + entries_bytes(self@.take(i as int)),
                buffer.reals_64() == old(buffer).reals_64(),
            decreases self.0@.len() - i,
        {
            let ghost before = buffer@;
            let entry = &self.0[i];
            buffer.encode_uint64(entry.0.0);
            let bytes = entry.1.as_str().as_bytes();
            buffer.encode_uint32(bytes.len() as u32);
            buffer.extend_from_slice(bytes);
            proof {
                let e = self@[i as int];
                assert(e == (entry.0.0, entry.1@));
                assert(self@.take(i + 1) =~= self@.take(i as int).push(e));
                lemma_entries_bytes_push(self@.take(i as int), e);
                if encodable(self@) {
                    assert(buffer@ =~= before + entry_bytes(e));
                }
            }
            i = i + 1;
        }
        proof {
            assert(self@.take(i as int) =~= self@);
        }
    }

    /// Appends the entries of `other` to this cache.
    pub fn merge(&mut self, other: &UIDCache)
        ensures
            final(self)@ == old(self)@ + other@,
    {
        let mut i: usize = 0;
        while i < other.0.len()
            invariant
                i <= other.0@.len(),
                self@ == old(self)@ + other@.take(i as int),
                other@.len() == other.0@.len(),
            decreases other.0@.len() - i,
        {
            let e = &other.0[i];
            let ghost prev = self.0@;
            let item = (e.0, e.1.clone());
            self.0.push(item);
            proof {
                assert(self.0@ == prev.push(item));
                assert(entries_view(prev.push(item)) =~= entries_view(prev).push((e.0.0, e.1@)));
                assert(other@[i as int] == (e.0.0, e.1@));
                assert(other@.take(i + 1) =~= other@.take(i as int).push(other@[i as int]));
                assert(self@ =~= old(self)@ + other@.take(i + 1));
            }
            i = i + 1;
        }
        proof {
            assert(other@.take(i as int) =~= other@);
        }
    }

    /// Decodes a cache from `buffer` and appends its entries to this one.
    pub fn merge_decode(&mut self, buffer: &mut ReadableMarshalBuffer) -> (r: Result<(), Error>)
        ensures
            final(buffer).data() == old(buffer).data(),
            match spec_uid_decode(old(buffer).rest()) {
                UidDecode::Decoded(es, c) => r is Ok && final(self)@ == old(self)@ + es
                    && final(buffer).pos() == old(buffer).pos() + c,
                UidDecode::TooShort => r == Err::<(), Error>(Error::TooShort) && final(self)@ == old(self)@,
                UidDecode::BadData => r == Err::<(), Error>(Error::BadData) && final(self)@ == old(self)@,
            },
    {
        let other = UIDCache::decode(buffer)?;
        self.merge(&other);
        Ok(())
    }
}

} // verus!
