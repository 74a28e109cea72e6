//! Fast binary writer and reader.
//!
//! The writer serializes values into a fixed-capacity byte region and never
//! grows it: exhausting the capacity is a hard error surfaced to the caller.
//! The reader decodes values from a byte slice, advancing a cursor; it never
//! reads past what each value statically requires.
//!
//! All integers use fixed-width big-endian encodings. Bounded byte blobs are
//! encoded as a two-byte length prefix followed by at most the declared
//! maximum number of bytes; longer source data is silently truncated, a
//! deliberate availability-over-fidelity policy of this wire format.
use vstd::prelude::*;

verus! {

/// Error raised by the writer: the fixed region cannot hold the value.
#[derive(Clone, Copy, Debug, PartialEq, Eq, Structural)]
pub enum EncodeError {
    NotEnoughCapacity,
}

/// Errors raised by the reader and the packet envelope.
#[derive(Clone, Copy, Debug, PartialEq, Eq, Structural)]
pub enum DecodeError {
    /// Fewer bytes remain than the value statically requires.
    InsufficientData,
    /// A length prefix claims more bytes than remain, or more than the
    /// type's declared maximum.
    MalformedLength,
    /// The packet identifier is not bound to any known payload type.
    UnknownPacket,
}

// ---------------------------------------------------------------------------
// Wire encodings of the primitive values, as mathematical byte sequences.
// ---------------------------------------------------------------------------

pub open spec fn wire_u8(v: u8) -> Seq<u8> {
    seq![v]
}

pub open spec fn hi_byte(v: u16) -> u8 {
    (v / 256) as u8
}

pub open spec fn lo_byte(v: u16) -> u8 {
    (v % 256) as u8
}

pub open spec fn wire_u16(v: u16) -> Seq<u8> {
    seq![hi_byte(v), lo_byte(v)]
}

pub open spec fn u16_from_bytes(hi: u8, lo: u8) -> u16 {
    (256 * (hi as int) + (lo as int)) as u16
}

pub open spec fn hi_half(v: u32) -> u16 {
    (v / 65536) as u16
}

pub open spec fn lo_half(v: u32) -> u16 {
    (v % 65536) as u16
}

pub open spec fn wire_u32(v: u32) -> Seq<u8> {
    wire_u16(hi_half(v)) + wire_u16(lo_half(v))
}

pub open spec fn u32_from_halves(hi: u16, lo: u16) -> u32 {
    (65536 * (hi as int) + (lo as int)) as u32
}

/// The unsigned two's-complement image of a signed 32-bit value.
pub open spec fn u32_of_i32(v: i32) -> u32 {
    if v >= 0 {
        v as u32
    } else {
        (v + 0x1_0000_0000) as u32
    }
}

/// Inverse of `u32_of_i32`.
pub open spec fn i32_of_u32(v: u32) -> i32 {
    if v <= 0x7fff_ffff {
        v as i32
    } else {
        (v - 0x1_0000_0000) as i32
    }
}

pub open spec fn wire_i32(v: i32) -> Seq<u8> {
    wire_u32(u32_of_i32(v))
}

pub open spec fn wire_bool(v: bool) -> Seq<u8> {
    seq![if v { 1u8 } else { 0u8 }]
}

/// Length actually stored for a blob of length `len` under maximum `max`.
pub open spec fn trunc_len(len: int, max: int) -> int {
    if len <= max {
        len
    } else {
        max
    }
}

/// Wire form of a bounded byte blob: length prefix, then the (possibly
/// truncated) data. Meaningful for `0 <= max <= 0xffff`.
pub open spec fn wire_bytes(data: Seq<u8>, max: int) -> Seq<u8> {
    let n = trunc_len(data.len() as int, max);
    wire_u16(n as u16) + data.take(n)
}

// ---------------------------------------------------------------------------
// The decoders as mathematical functions of the remaining bytes. Each
// returns the value and the number of bytes consumed, or the exact error.
// ---------------------------------------------------------------------------

pub open spec fn dec_u8(b: Seq<u8>) -> Result<(u8, int), DecodeError> {
    if b.len() >= 1 {
        Ok((b[0], 1int))
    } else {
        Err(DecodeError::InsufficientData)
    }
}

pub open spec fn dec_u16(b: Seq<u8>) -> Result<(u16, int), DecodeError> {
    if b.len() >= 2 {
        Ok((u16_from_bytes(b[0], b[1]), 2int))
    } else {
        Err(DecodeError::InsufficientData)
    }
}

pub open spec fn dec_u32(b: Seq<u8>) -> Result<(u32, int), DecodeError> {
    if b.len() >= 4 {
        Ok((u32_from_halves(u16_from_bytes(b[0], b[1]), u16_from_bytes(b[2], b[3])), 4int))
    } else {
        Err(DecodeError::InsufficientData)
    }
}

pub open spec fn dec_i32(b: Seq<u8>) -> Result<(i32, int), DecodeError> {
    match dec_u32(b) {
        Ok((v, n)) => Ok((i32_of_u32(v), n)),
        Err(e) => Err(e),
    }
}

pub open spec fn dec_bool(b: Seq<u8>) -> Result<(bool, int), DecodeError> {
    if b.len() >= 1 {
        Ok((b[0] != 0, 1int))
    } else {
        Err(DecodeError::InsufficientData)
    }
}

pub open spec fn dec_bytes(b: Seq<u8>, max: int) -> Result<(Seq<u8>, int), DecodeError> {
    match dec_u16(b) {
        Ok((n, _)) => if n > max {
            Err(DecodeError::MalformedLength)
        } else if b.len() < 2 + n {
            Err(DecodeError::MalformedLength)
        } else {
            Ok((b.subrange(2, 2 + n as int), 2 + n as int))
        },
        Err(e) => Err(e),
    }
}

// ---------------------------------------------------------------------------
// The writer.
// ---------------------------------------------------------------------------

/// A binary writer over a fixed-capacity byte region. The capacity is set
/// at construction and never changes; every write either appends the
/// value's full encoding or fails without touching the region.
pub struct FastByteBuffer {
    data: Vec<u8>,
    cap: usize,
}

impl FastByteBuffer {
    /// The written bytes never exceed the region's capacity.
    pub open spec fn wf(&self) -> bool {
        self.written().len() <= self.capacity()
    }

    /// The prefix of the region written so far.
    pub closed spec fn written(&self) -> Seq<u8> {
        self.data@
    }

    pub closed spec fn capacity(&self) -> int {
        self.cap as int
    }

    pub open spec fn spec_remaining(&self) -> int {
        self.capacity() - self.written().len()
    }

    /// Binds a fresh writer to a region of the given capacity; the cursor
    /// starts at zero.
    pub fn new(capacity: usize) -> (b: FastByteBuffer)
        ensures
            b.wf(),
            b.capacity() == capacity,
            b.written() == Seq::<u8>::empty(),
    {
        FastByteBuffer { data: Vec::new(), cap: capacity }
    }

    pub fn len(&self) -> (n: usize)
        ensures
            n == self.written().len(),
    {
        self.data.len()
    }

    pub fn remaining(&self) -> (n: usize)
        requires
            self.wf(),
        ensures
            n == self.spec_remaining(),
    {
        self.cap - self.data.len()
    }

    pub fn write_u8(&mut self, v: u8) -> (r: Result<(), EncodeError>)
        requires
            old(self).wf(),
        ensures
            final(self).wf(),
            final(self).capacity() == old(self).capacity(),
            r is Ok <==> old(self).written().len() + 1 <= old(self).capacity(),
            r is Ok ==> final(self).written() == old(self).written() + wire_u8(v),
            r is Err ==> *final(self) == *old(self),
    {
        if self.cap - self.data.len() < 1 {
            return Err(EncodeError::NotEnoughCapacity);
        }
        self.data.push(v);
        proof {
            assert(self.written() =~= old(self).written() + wire_u8(v));
        }
        Ok(())
    }

    pub fn write_u16(&mut self, v: u16) -> (r: Result<(), EncodeError>)
        requires
            old(self).wf(),
        ensures
            final(self).wf(),
            final(self).capacity() == old(self).capacity(),
            r is Ok <==> old(self).written().len() + 2 <= old(self).capacity(),
            r is Ok ==> final(self).written() == old(self).written() + wire_u16(v),
            r is Err ==> *final(self) == *old(self),
    {
        if self.cap - self.data.len() < 2 {
            return Err(EncodeError::NotEnoughCapacity);
        }
        self.data.push((v / 256) as u8);
        self.data.push((v % 256) as u8);
        proof {
            assert(self.written() =~= old(self).written() + wire_u16(v));
        }
        Ok(())
    }

    pub fn write_u32(&mut self, v: u32) -> (r: Result<(), EncodeError>)
        requires
            old(self).wf(),
        ensures
            final(self).wf(),
            final(self).capacity() == old(self).capacity(),
            r is Ok <==> old(self).written().len() + 4 <= old(self).capacity(),
            r is Ok ==> final(self).written() == old(self).written() + wire_u32(v),
            r is Err ==> *final(self) == *old(self),
    {
        if self.cap - self.data.len() < 4 {
            return Err(EncodeError::NotEnoughCapacity);
        }
        let hi: u16 = (v / 65536) as u16;
        let lo: u16 = (v % 65536) as u16;
        self.data.push((hi / 256) as u8);
        self.data.push((hi % 256) as u8);
        self.data.push((lo / 256) as u8);
        self.data.push((lo % 256) as u8);
        proof {
            assert(self.written() =~= old(self).written() + wire_u32(v));
        }
        Ok(())
    }

    pub fn write_i32(&mut self, v: i32) -> (r: Result<(), EncodeError>)
        requires
            old(self).wf(),
        ensures
            final(self).wf(),
            final(self).capacity() == old(self).capacity(),
            r is Ok <==> old(self).written().len() + 4 <= old(self).capacity(),
            r is Ok ==> final(self).written() == old(self).written() + wire_i32(v),
            r is Err ==> *final(self) == *old(self),
    {
        let u: u32 = if v >= 0 {
            v as u32
        } else {
            ((v as i64) + 0x1_0000_0000i64) as u32
        };
        self.write_u32(u)
    }

    pub fn write_bool(&mut self, v: bool) -> (r: Result<(), EncodeError>)
        requires
            old(self).wf(),
        ensures
            final(self).wf(),
            final(self).capacity() == old(self).capacity(),
            r is Ok <==> old(self).written().len() + 1 <= old(self).capacity(),
            r is Ok ==> final(self).written() == old(self).written() + wire_bool(v),
            r is Err ==> *final(self) == *old(self),
    {
        self.write_u8(if v { 1 } else { 0 })
    }

    /// Appends the bytes as they stand, without a length prefix.
    pub fn write_raw(&mut self, bytes: &[u8]) -> (r: Result<(), EncodeError>)
        requires
            old(self).wf(),
        ensures
            final(self).wf(),
            final(self).capacity() == old(self).capacity(),
            r is Ok <==> old(self).written().len() + bytes@.len() <= old(self).capacity(),
            r is Ok ==> final(self).written() == old(self).written() + bytes@,
            r is Err ==> *final(self) == *old(self),
    {
        let n = bytes.len();
        if self.cap - self.data.len() < n {
            return Err(EncodeError::NotEnoughCapacity);
        }
        let mut i: usize = 0;
        while i < n
            invariant
                i <= n,
                n == bytes@.len(),
                self.cap == old(self).cap,
                old(self).data@.len() + n <= self.cap,
                self.data@ == old(self).data@ + bytes@.take(i as int),
                self.data@.len() <= self.cap,
            decreases n - i,
        {
            self.data.push(*vstd::slice::slice_index_get(bytes, i));
            proof {
                assert(self.data@ =~= old(self).data@ + bytes@.take(i as int + 1));
            }
            i += 1;
        }
        proof {
            assert(bytes@.take(n as int) =~= bytes@);
        }
        Ok(())
    }

    /// Writes a bounded byte blob: a two-byte length prefix, then at most
    /// `max` bytes of `data`. Longer source data is silently truncated to
    /// `max` bytes; that policy favors availability over fidelity and is
    /// part of the wire contract.
    pub fn write_bytes(&mut self, data: &[u8], max: usize) -> (r: Result<(), EncodeError>)
        requires
            old(self).wf(),
            max <= 0xffff,
        ensures
            final(self).wf(),
            final(self).capacity() == old(self).capacity(),
            r is Ok <==> old(self).written().len() + wire_bytes(data@, max as int).len()
                <= old(self).capacity(),
            r is Ok ==> final(self).written() == old(self).written() + wire_bytes(
                data@,
                max as int,
            ),
            r is Err ==> *final(self) == *old(self),
    {
        let n = if data.len() <= max {
            data.len()
        } else {
            max
        };
        proof {
            assert(wire_bytes(data@, max as int).len() == 2 + n);
        }
        if self.cap - self.data.len() < 2 {
            return Err(EncodeError::NotEnoughCapacity);
        }
        if (self.cap - self.data.len()) - 2 < n {
            return Err(EncodeError::NotEnoughCapacity);
        }
        let prefix_result = self.write_u16(n as u16);
        proof {
            assert(prefix_result is Ok);
        }
        let body = vstd::slice::slice_subrange(data, 0, n);
        let body_result = self.write_raw(body);
        proof {
            assert(body_result is Ok);
            assert(body@ =~= data@.take(n as int));
            assert(self.written() =~= old(self).written() + wire_bytes(data@, max as int));
        }
        Ok(())
    }

    /// The written prefix of the region, as a read-only view.
    pub fn as_bytes(&self) -> (r: &[u8])
        ensures
            r@ == self.written(),
    {
        self.data.as_slice()
    }
}

// ---------------------------------------------------------------------------
// The reader.
// ---------------------------------------------------------------------------

/// A binary reader over a byte slice, advancing a cursor. A failed read
/// leaves the cursor where it stood; no partial value is ever surfaced.
pub struct ByteReader<'a> {
    data: &'a [u8],
    pos: usize,
}

impl<'a> ByteReader<'a> {
    pub open spec fn wf(&self) -> bool {
        0 <= self.spec_pos() <= self.all_bytes().len()
    }

    pub closed spec fn all_bytes(&self) -> Seq<u8> {
        self.data@
    }

    /// The bytes not yet consumed.
    pub open spec fn remaining(&self) -> Seq<u8> {
        self.all_bytes().skip(self.spec_pos())
    }

    pub closed spec fn spec_pos(&self) -> int {
        self.pos as int
    }

    /// The cursor's position, for saving before a composite decode.
    pub fn pos(&self) -> (p: usize)
        ensures
            p == self.spec_pos(),
            self.remaining() == self.all_bytes().skip(p as int),
    {
        self.pos
    }

    /// Moves the cursor back to a previously saved position, so that a
    /// failed composite decode leaves no partial consumption behind.
    pub fn seek(&mut self, p: usize)
        requires
            p <= old(self).all_bytes().len(),
        ensures
            final(self).wf(),
            final(self).all_bytes() == old(self).all_bytes(),
            final(self).spec_pos() == p,
            final(self).remaining() == final(self).all_bytes().skip(p as int),
    {
        self.pos = p;
    }

    /// Binds a reader to the slice; the cursor starts at zero.
    pub fn from_bytes(data: &'a [u8]) -> (r: ByteReader<'a>)
        ensures
            r.wf(),
            r.all_bytes() == data@,
            r.remaining() == data@,
    {
        let r = ByteReader { data, pos: 0 };
        proof {
            assert(r.remaining() =~= data@);
        }
        r
    }

    pub fn read_u8(&mut self) -> (r: Result<u8, DecodeError>)
        requires
            old(self).wf(),
        ensures
            final(self).wf(),
            final(self).all_bytes() == old(self).all_bytes(),
            match dec_u8(old(self).remaining()) {
                Ok(vn) => r == Ok::<u8, DecodeError>(vn.0) && final(self).remaining()
                    == old(self).remaining().skip(vn.1),
                Err(e) => r == Err::<u8, DecodeError>(e) && *final(self) == *old(self),
            },
    {
        if self.data.len() - self.pos < 1 {
            return Err(DecodeError::InsufficientData);
        }
        let v = *vstd::slice::slice_index_get(self.data, self.pos);
        self.pos = self.pos + 1;
        proof {
            assert(v == old(self).remaining()[0]);
            assert(self.remaining() =~= old(self).remaining().skip(1));
        }
        Ok(v)
    }

    pub fn read_u16(&mut self) -> (r: Result<u16, DecodeError>)
        requires
            old(self).wf(),
        ensures
            final(self).wf(),
            final(self).all_bytes() == old(self).all_bytes(),
            match dec_u16(old(self).remaining()) {
                Ok(vn) => r == Ok::<u16, DecodeError>(vn.0) && final(self).remaining()
                    == old(self).remaining().skip(vn.1),
                Err(e) => r == Err::<u16, DecodeError>(e) && *final(self) == *old(self),
            },
    {
        if self.data.len() - self.pos < 2 {
            return Err(DecodeError::InsufficientData);
        }
        let b0 = *vstd::slice::slice_index_get(self.data, self.pos);
        let b1 = *vstd::slice::slice_index_get(self.data, self.pos + 1);
        self.pos = self.pos + 2;
        let v: u16 = (b0 as u16) * 256 + (b1 as u16);
        proof {
            assert(b0 == old(self).remaining()[0]);
            assert(b1 == old(self).remaining()[1]);
            assert(self.remaining() =~= old(self).remaining().skip(2));
        }
        Ok(v)
    }

    pub fn read_u32(&mut self) -> (r: Result<u32, DecodeError>)
        requires
            old(self).wf(),
        ensures
            final(self).wf(),
            final(self).all_bytes() == old(self).all_bytes(),
            match dec_u32(old(self).remaining()) {
                Ok(vn) => r == Ok::<u32, DecodeError>(vn.0) && final(self).remaining()
                    == old(self).remaining().skip(vn.1),
                Err(e) => r == Err::<u32, DecodeError>(e) && *final(self) == *old(self),
            },
    {
        if self.data.len() - self.pos < 4 {
            return Err(DecodeError::InsufficientData);
        }
        let b0 = *vstd::slice::slice_index_get(self.data, self.pos);
        let b1 = *vstd::slice::slice_index_get(self.data, self.pos + 1);
        let b2 = *vstd::slice::slice_index_get(self.data, self.pos + 2);
        let b3 = *vstd::slice::slice_index_get(self.data, self.pos + 3);
        self.pos = self.pos + 4;
        let hi: u16 = (b0 as u16) * 256 + (b1 as u16);
        let lo: u16 = (b2 as u16) * 256 + (b3 as u16);
        let v: u32 = (hi as u32) * 65536 + (lo as u32);
        proof {
            assert(b0 == old(self).remaining()[0]);
            assert(b1 == old(self).remaining()[1]);
            assert(b2 == old(self).remaining()[2]);
            assert(b3 == old(self).remaining()[3]);
            assert(self.remaining() =~= old(self).remaining().skip(4));
        }
        Ok(v)
    }

    pub fn read_i32(&mut self) -> (r: Result<i32, DecodeError>)
        requires
            old(self).wf(),
        ensures
            final(self).wf(),
            final(self).all_bytes() == old(self).all_bytes(),
            match dec_i32(old(self).remaining()) {
                Ok(vn) => r == Ok::<i32, DecodeError>(vn.0) && final(self).remaining()
                    == old(self).remaining().skip(vn.1),
                Err(e) => r == Err::<i32, DecodeError>(e) && *final(self) == *old(self),
            },
    {
        let u = match self.read_u32() {
            Ok(u) => u,
            Err(e) => {
                return Err(e);
            },
        };
        let v: i32 = if u <= 0x7fff_ffff {
            u as i32
        } else {
            ((u as i64) - 0x1_0000_0000i64) as i32
        };
        Ok(v)
    }

    pub fn read_bool(&mut self) -> (r: Result<bool, DecodeError>)
        requires
            old(self).wf(),
        ensures
            final(self).wf(),
            final(self).all_bytes() == old(self).all_bytes(),
            match dec_bool(old(self).remaining()) {
                Ok(vn) => r == Ok::<bool, DecodeError>(vn.0) && final(self).remaining()
                    == old(self).remaining().skip(vn.1),
                Err(e) => r == Err::<bool, DecodeError>(e) && *final(self) == *old(self),
            },
    {
        let b = match self.read_u8() {
            Ok(b) => b,
            Err(e) => {
                return Err(e);
            },
        };
        Ok(b != 0)
    }

    /// Reads a bounded byte blob: a two-byte length prefix, then that many
    /// bytes. A prefix claiming more than `max` bytes, or more than remain,
    /// is rejected as malformed without moving the cursor: the reader never
    /// honors an over-claiming prefix.
    pub fn read_bytes(&mut self, max: usize) -> (r: Result<Vec<u8>, DecodeError>)
        requires
            old(self).wf(),
            max <= 0xffff,
        ensures
            final(self).wf(),
            final(self).all_bytes() == old(self).all_bytes(),
            match dec_bytes(old(self).remaining(), max as int) {
                Ok(vn) => r is Ok && r.unwrap()@ == vn.0 && final(self).remaining()
                    == old(self).remaining().skip(vn.1),
                Err(e) => r == Err::<Vec<u8>, DecodeError>(e) && *final(self) == *old(self),
            },
    {
        if self.data.len() - self.pos < 2 {
            return Err(DecodeError::InsufficientData);
        }
        let b0 = *vstd::slice::slice_index_get(self.data, self.pos);
        let b1 = *vstd::slice::slice_index_get(self.data, self.pos + 1);
        let n: usize = (b0 as usize) * 256 + (b1 as usize);
        proof {
            assert(b0 == old(self).remaining()[0]);
            assert(b1 == old(self).remaining()[1]);
        }
        if n > max {
            return Err(DecodeError::MalformedLength);
        }
        if (self.data.len() - self.pos) - 2 < n {
            return Err(DecodeError::MalformedLength);
        }
        let body = vstd::slice::slice_subrange(self.data, self.pos + 2, self.pos + 2 + n);
        let out = vstd::slice::slice_to_vec(body);
        self.pos = self.pos + 2 + n;
        proof {
            assert(out@ =~= old(self).remaining().subrange(2, 2 + n as int));
            assert(self.remaining() =~= old(self).remaining().skip(2 + n as int));
        }
        Ok(out)
    }
}

// ---------------------------------------------------------------------------
// Round-trip laws of the primitive encodings: decoding the wire form of a
// value, followed by any residue, yields exactly that value and consumes
// exactly its wire length.
// ---------------------------------------------------------------------------

pub proof fn lemma_dec_wire_u8(v: u8, rest: Seq<u8>)
    ensures
        dec_u8(wire_u8(v) + rest) == Ok::<(u8, int), DecodeError>((v, 1int)),
{
    assert((wire_u8(v) + rest)[0] == v);
}

pub proof fn lemma_dec_wire_u16(v: u16, rest: Seq<u8>)
    ensures
        dec_u16(wire_u16(v) + rest) == Ok::<(u16, int), DecodeError>((v, 2int)),
{
    let b = wire_u16(v) + rest;
    assert(b[0] == hi_byte(v));
    assert(b[1] == lo_byte(v));
    assert(v as int == 256 * (v as int / 256) + (v as int % 256));
    assert(u16_from_bytes(hi_byte(v), lo_byte(v)) == v);
}

pub proof fn lemma_dec_wire_u32(v: u32, rest: Seq<u8>)
    ensures
        dec_u32(wire_u32(v) + rest) == Ok::<(u32, int), DecodeError>((v, 4int)),
{
    let b = wire_u32(v) + rest;
    let hi = hi_half(v);
    let lo = lo_half(v);
    assert(b[0] == hi_byte(hi));
    assert(b[1] == lo_byte(hi));
    assert(b[2] == hi_byte(lo));
    assert(b[3] == lo_byte(lo));
    assert(hi as int == 256 * (hi as int / 256) + (hi as int % 256));
    assert(lo as int == 256 * (lo as int / 256) + (lo as int % 256));
    assert(u16_from_bytes(hi_byte(hi), lo_byte(hi)) == hi);
    assert(u16_from_bytes(hi_byte(lo), lo_byte(lo)) == lo);
    assert(v as int == 65536 * (v as int / 65536) + (v as int % 65536));
    assert(u32_from_halves(hi, lo) == v);
}

pub proof fn lemma_i32_of_u32_of_i32(v: i32)
    ensures
        i32_of_u32(u32_of_i32(v)) == v,
{
}

pub proof fn lemma_dec_wire_i32(v: i32, rest: Seq<u8>)
    ensures
        dec_i32(wire_i32(v) + rest) == Ok::<(i32, int), DecodeError>((v, 4int)),
{
    lemma_dec_wire_u32(u32_of_i32(v), rest);
    lemma_i32_of_u32_of_i32(v);
}

pub proof fn lemma_dec_wire_bool(v: bool, rest: Seq<u8>)
    ensures
        dec_bool(wire_bool(v) + rest) == Ok::<(bool, int), DecodeError>((v, 1int)),
{
    assert((wire_bool(v) + rest)[0] == (if v { 1u8 } else { 0u8 }));
}

/// Decoding a bounded blob's wire form yields the data truncated to the
/// declared maximum.
pub proof fn lemma_dec_wire_bytes(data: Seq<u8>, max: int, rest: Seq<u8>)
    requires
        0 <= max <= 0xffff,
    ensures
        dec_bytes(wire_bytes(data, max) + rest, max) == Ok::<(Seq<u8>, int), DecodeError>(
            (data.take(trunc_len(data.len() as int, max)), 2 + trunc_len(data.len() as int, max)),
        ),
{
    let n = trunc_len(data.len() as int, max);
    let b = wire_bytes(data, max) + rest;
    lemma_dec_wire_u16(n as u16, data.take(n) + rest);
    assert(wire_bytes(data, max) + rest =~= wire_u16(n as u16) + (data.take(n) + rest));
    assert(dec_u16(b) == Ok::<(u16, int), DecodeError>((n as u16, 2int)));
    assert(b.len() >= 2 + n);
    assert(b.subrange(2, 2 + n) =~= data.take(n));
}


/// Concatenation of byte sequences is associative.
pub proof fn lemma_concat_assoc(a: Seq<u8>, b: Seq<u8>, c: Seq<u8>)
    ensures
        (a + b) + c == a + (b + c),
{
    assert((a + b) + c =~= a + (b + c));
}

/// Skipping a leading piece of a concatenation leaves the tail.
pub proof fn lemma_skip_concat(a: Seq<u8>, t: Seq<u8>)
    ensures
        (a + t).skip(a.len() as int) == t,
{
    assert((a + t).skip(a.len() as int) =~= t);
}

} // verus!
