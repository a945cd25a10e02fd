//! Godot binary marshalling buffers.
use vstd::prelude::*;
use vstd::bytes::*;
use vstd::slice::slice_subrange;
use crate::Error;

verus! {

/// The little-endian encoding of a `u32`, as Godot writes it.
pub open spec fn le_bytes_u32(v: u32) -> Seq<u8> {
    spec_u32_to_le_bytes(v)
}

/// The little-endian encoding of a `u64`, as Godot writes it.
pub open spec fn le_bytes_u64(v: u64) -> Seq<u8> {
    spec_u64_to_le_bytes(v)
}

/// The `u32` that four little-endian bytes encode.
pub open spec fn u32_of_le(s: Seq<u8>) -> u32 {
    spec_u32_from_le_bytes(s)
}

/// The `u64` that eight little-endian bytes encode.
pub open spec fn u64_of_le(s: Seq<u8>) -> u64 {
    spec_u64_from_le_bytes(s)
}

/// Buffer for reading Godot's marshalled types.
///
/// Keeps a current read offset and a marked offset; when a read runs out of data the current
/// offset is reset to the mark (unless marking is disabled).
#[derive(Debug)]
pub struct ReadableMarshalBuffer<'buf> {
    buffer: &'buf [u8],
    disable_marking: bool,
    offset: usize,
    marked_offset: usize,
}

impl<'buf> ReadableMarshalBuffer<'buf> {
    #[verifier::type_invariant]
    spec fn inv(self) -> bool {
        &&& self.offset <= self.buffer@.len()
        &&& self.marked_offset <= self.buffer@.len()
    }

    /// The full contents of the buffer.
    pub closed spec fn data(&self) -> Seq<u8> {
        self.buffer@
    }

    /// The current read offset.
    pub closed spec fn pos(&self) -> nat {
        self.offset as nat
    }

    /// The marked offset.
    pub closed spec fn marked(&self) -> nat {
        self.marked_offset as nat
    }

    /// Whether marking is disabled.
    pub closed spec fn marking_disabled(&self) -> bool {
        self.disable_marking
    }

    /// The bytes after the current offset.
    pub open spec fn rest(&self) -> Seq<u8> {
        self.data().subrange(self.pos() as int, self.data().len() as int)
    }

    /// Offset after a failed read: the mark, or unchanged when marking is disabled.
    pub open spec fn pos_after_reset(&self) -> nat {
        if self.marking_disabled() { self.pos() } else { self.marked() }
    }

    /// Creates a new buffer over `buffer`, with both offsets at zero.
    pub fn new(buffer: &'buf [u8], disable_marking: bool) -> (r: Self)
        ensures
            r.data() == buffer@,
            r.pos() == 0,
            r.marked() == 0,
            r.marking_disabled() == disable_marking,
    {
        ReadableMarshalBuffer { buffer, disable_marking, offset: 0, marked_offset: 0 }
    }

    /// Number of bytes left after the current offset.
    pub fn remaining(&self) -> (r: usize)
        ensures
            r == self.data().len() - self.pos(),
    {
        proof { use_type_invariant(self); }
        self.buffer.len() - self.offset
    }

    /// The current read offset.
    pub fn offset(&self) -> (r: usize)
        ensures
            r == self.pos(),
    {
        self.offset
    }

    /// The contents of the buffer after the current offset.
    pub fn buffer(&self) -> (r: &[u8])
        ensures
            r@ == self.rest(),
    {
        proof { use_type_invariant(self); }
        slice_subrange(self.buffer, self.offset, self.buffer.len())
    }

    /// The full contents of the buffer.
    pub fn full_buffer(&self) -> (r: &'buf [u8])
        ensures
            r@ == self.data(),
    {
        self.buffer
    }

    /// Ensures at least `minimum` bytes remain; otherwise resets to the mark and fails.
    pub fn ensure_remaining(&mut self, minimum: usize) -> (r: Result<(), Error>)
        ensures
            final(self).data() == old(self).data(),
            final(self).marked() == old(self).marked(),
            final(self).marking_disabled() == old(self).marking_disabled(),
            old(self).pos() <= old(self).data().len(),
            r is Ok <==> minimum <= old(self).data().len() - old(self).pos(),
            r is Ok ==> final(self).pos() == old(self).pos(),
            r is Err ==> r == Err::<(), Error>(Error::TooShort) && final(self).pos() == old(self).pos_after_reset(),
    {
        proof { use_type_invariant(&*self); }
        if minimum > self.remaining() {
            self.reset_to_mark();
            Err(Error::TooShort)
        } else {
            Ok(())
        }
    }

    /// Moves the current offset forward by `length` bytes, leaving the mark unchanged.
    pub fn advance(&mut self, length: usize)
        requires
            old(self).pos() + length <= old(self).data().len(),
        ensures
            final(self).data() == old(self).data(),
            final(self).pos() == old(self).pos() + length,
            final(self).marked() == old(self).marked(),
            final(self).marking_disabled() == old(self).marking_disabled(),
    {
        proof { use_type_invariant(&*self); }
        let _len = self.buffer.len();
        self.offset = self.offset + length;
    }

    /// Sets the mark to the current offset (unless marking is disabled).
    pub fn mark(&mut self)
        ensures
            final(self).data() == old(self).data(),
            final(self).pos() == old(self).pos(),
            final(self).marked() == if old(self).marking_disabled() { old(self).marked() } else { old(self).pos() },
            final(self).marking_disabled() == old(self).marking_disabled(),
    {
        proof { use_type_invariant(&*self); }
        if !self.disable_marking {
            self.marked_offset = self.offset;
        }
    }

    /// Resets the current offset to the mark (unless marking is disabled).
    pub fn reset_to_mark(&mut self)
        ensures
            final(self).data() == old(self).data(),
            final(self).pos() == old(self).pos_after_reset(),
            final(self).marked() == old(self).marked(),
            final(self).marking_disabled() == old(self).marking_disabled(),
    {
        proof { use_type_invariant(&*self); }
        if !self.disable_marking {
            self.offset = self.marked_offset;
        }
    }

    /// Reads a little-endian `u32`.
    pub fn decode_uint32(&mut self) -> (r: Result<u32, Error>)
        ensures
            final(self).data() == old(self).data(),
            final(self).marked() == old(self).marked(),
            final(self).marking_disabled() == old(self).marking_disabled(),
            old(self).pos() <= old(self).data().len(),
            r is Ok <==> old(self).pos() + 4 <= old(self).data().len(),
            r is Ok ==> final(self).pos() == old(self).pos() + 4
                && r->Ok_0 == u32_of_le(old(self).data().subrange(old(self).pos() as int, old(self).pos() + 4int)),
            r is Err ==> r == Err::<u32, Error>(Error::TooShort) && final(self).pos() == old(self).pos_after_reset(),
    {
        proof { use_type_invariant(&*self); }
        self.ensure_remaining(4)?;
        proof { use_type_invariant(&*self); }
        let _len = self.buffer.len();
        let bytes = slice_subrange(self.buffer, self.offset, self.offset + 4);
        let v = u32_from_le_bytes(bytes);
        self.offset = self.offset + 4;
        Ok(v)
    }

    /// Reads a little-endian `u64`.
    pub fn decode_uint64(&mut self) -> (r: Result<u64, Error>)
        ensures
            final(self).data() == old(self).data(),
            final(self).marked() == old(self).marked(),
            final(self).marking_disabled() == old(self).marking_disabled(),
            old(self).pos() <= old(self).data().len(),
            r is Ok <==> old(self).pos() + 8 <= old(self).data().len(),
            r is Ok ==> final(self).pos() == old(self).pos() + 8
                && r->Ok_0 == u64_of_le(old(self).data().subrange(old(self).pos() as int, old(self).pos() + 8int)),
            r is Err ==> r == Err::<u64, Error>(Error::TooShort) && final(self).pos() == old(self).pos_after_reset(),
    {
        proof { use_type_invariant(&*self); }
        self.ensure_remaining(8)?;
        proof { use_type_invariant(&*self); }
        let _len = self.buffer.len();
        let bytes = slice_subrange(self.buffer, self.offset, self.offset + 8);
        let v = u64_from_le_bytes(bytes);
        self.offset = self.offset + 8;
        Ok(v)
    }

    /// Reads `length` raw bytes.
    pub fn decode_slice(&mut self, length: usize) -> (r: Result<&'buf [u8], Error>)
        ensures
            final(self).data() == old(self).data(),
            final(self).marked() == old(self).marked(),
            final(self).marking_disabled() == old(self).marking_disabled(),
            r is Ok <==> old(self).pos() + length <= old(self).data().len(),
            r is Ok ==> final(self).pos() == old(self).pos() + length
                && r->Ok_0@ == old(self).data().subrange(old(self).pos() as int, old(self).pos() + length as int),
            r is Err ==> r == Err::<&'buf [u8], Error>(Error::TooShort) && final(self).pos() == old(self).pos_after_reset(),
    {
        proof { use_type_invariant(&*self); }
        self.ensure_remaining(length)?;
        proof { use_type_invariant(&*self); }
        let _len = self.buffer.len();
        let buf = slice_subrange(self.buffer, self.offset, self.offset + length);
        self.offset = self.offset + length;
        Ok(buf)
    }
}

/// Appends every byte of `src` to `dst`, keeping the bytes already there.
pub(crate) fn push_bytes(dst: &mut Vec<u8>, src: &[u8])
    ensures
        final(dst)@ == old(dst)@ + src@,
{
    let mut i: usize = 0;
    while i < src.len()
        invariant
            i <= src@.len(),
            dst@ == old(dst)@ + src@.subrange(0, i as int),
        decreases src@.len() - i,
    {
        dst.push(src[i]);
        i = i + 1;
        assert(src@.subrange(0, i as int) == src@.subrange(0, i - 1) + seq![src@[i - 1]]);
    }
    assert(src@.subrange(0, src@.len() as int) == src@);
}

/// Buffer for writing Godot's marshalled types.
#[derive(Debug)]
pub struct WritableMarshalBuffer {
    buffer: Vec<u8>,
    write_reals_as_64_bit: bool,
}

impl View for WritableMarshalBuffer {
    type V = Seq<u8>;

    closed spec fn view(&self) -> Seq<u8> {
        self.buffer@
    }
}

impl WritableMarshalBuffer {
    /// Whether `real_t` values are written as 64-bit doubles.
    pub closed spec fn reals_64(&self) -> bool {
        self.write_reals_as_64_bit
    }

    /// Creates an empty buffer.
    pub fn new(write_reals_as_64_bit: bool) -> (r: Self)
        ensures
            r@ == Seq::<u8>::empty(),
            r.reals_64() == write_reals_as_64_bit,
    {
        WritableMarshalBuffer { buffer: Vec::new(), write_reals_as_64_bit }
    }

    /// Creates an empty buffer with the same `write_reals_as_64_bit` flag as `other`.
    pub fn new_from(other: &WritableMarshalBuffer) -> (r: Self)
        ensures
            r@ == Seq::<u8>::empty(),
            r.reals_64() == other.reals_64(),
    {
        Self::new(other.write_reals_as_64_bit)
    }

    /// Number of bytes written so far.
    pub fn len(&self) -> (r: usize)
        ensures
            r == self@.len(),
    {
        self.buffer.len()
    }

    /// Whether nothing has been written.
    pub fn is_empty(&self) -> (r: bool)
        ensures
            r == (self@.len() == 0),
    {
        self.buffer.len() == 0
    }

    /// Whether `real_t` values are written as 64-bit doubles.
    pub fn write_reals_as_64_bit(&self) -> (r: bool)
        ensures
            r == self.reals_64(),
    {
        self.write_reals_as_64_bit
    }

    /// The underlying byte vector, for direct writes.
    pub fn buffer(&mut self) -> (r: &mut Vec<u8>)
        ensures
            r@ == old(self)@,
            final(self)@ == final(r)@,
            final(self).reals_64() == old(self).reals_64(),
    {
        &mut self.buffer
    }

    /// Appends raw bytes.
    pub fn extend_from_slice(&mut self, bytes: &[u8])
        ensures
            final(self)@ == old(self)@ + bytes@,
            final(self).reals_64() == old(self).reals_64(),
    {
        push_bytes(&mut self.buffer, bytes);
    }

    /// Consumes the buffer and returns its bytes.
    pub fn into_inner(self) -> (r: Vec<u8>)
        ensures
            r@ == self@,
    {
        self.buffer
    }

    /// Appends one byte.
    pub fn push(&mut self, v: u8)
        ensures
            final(self)@ == old(self)@.push(v),
            final(self).reals_64() == old(self).reals_64(),
    {
        self.buffer.push(v)
    }

    /// Appends a little-endian `u32`.
    pub fn encode_uint32(&mut self, v: u32)
        ensures
            final(self)@ == old(self)@ + le_bytes_u32(v),
            final(self).reals_64() == old(self).reals_64(),
    {
        let bytes = u32_to_le_bytes(v);
        push_bytes(&mut self.buffer, bytes.as_slice());
    }

    /// Appends a little-endian `u64`.
    pub fn encode_uint64(&mut self, v: u64)
        ensures
            final(self)@ == old(self)@ + le_bytes_u64(v),
            final(self).reals_64() == old(self).reals_64(),
    {
        let bytes = u64_to_le_bytes(v);
        push_bytes(&mut self.buffer, bytes.as_slice());
    }
}

/// Encoding a `u32` gives four bytes that decode back to it.
pub proof fn lemma_u32_roundtrip(v: u32)
    ensures
        le_bytes_u32(v).len() == 4,
        u32_of_le(le_bytes_u32(v)) == v,
{
    lemma_auto_spec_u32_to_from_le_bytes();
    assert(spec_u32_to_le_bytes(v).len() == 4);
}

/// Encoding a `u64` gives eight bytes that decode back to it.
pub proof fn lemma_u64_roundtrip(v: u64)
    ensures
        le_bytes_u64(v).len() == 8,
        u64_of_le(le_bytes_u64(v)) == v,
{
    lemma_auto_spec_u64_to_from_le_bytes();
    assert(spec_u64_to_le_bytes(v).len() == 8);
}

/// A `u32` written into a buffer is read back by `decode_uint32` at the offset where it was written.
pub proof fn law_uint32_write_read(before: Seq<u8>, v: u32, after: Seq<u8>)
    ensures
        ({
            let data = before + le_bytes_u32(v) + after;
            &&& before.len() + 4 <= data.len()
            &&& u32_of_le(data.subrange(before.len() as int, before.len() + 4int)) == v
        }),
{
    lemma_u32_roundtrip(v);
    let data = before + le_bytes_u32(v) + after;
    assert(data.subrange(before.len() as int, before.len() + 4int) =~= le_bytes_u32(v));
}

/// A `u64` written into a buffer is read back by `decode_uint64` at the offset where it was written.
pub proof fn law_uint64_write_read(before: Seq<u8>, v: u64, after: Seq<u8>)
    ensures
        ({
            let data = before + le_bytes_u64(v) + after;
            &&& before.len() + 8 <= data.len()
            &&& u64_of_le(data.subrange(before.len() as int, before.len() + 8int)) == v
        }),
{
    lemma_u64_roundtrip(v);
    let data = before + le_bytes_u64(v) + after;
    assert(data.subrange(before.len() as int, before.len() + 8int) =~= le_bytes_u64(v));
}

} // verus!
