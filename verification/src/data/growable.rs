//! A general-purpose growable encoder for cold paths: wraps an outside
//! growable byte buffer and appends whole value encodings to it. Clearly
//! slower than the fixed-capacity writer (it may reallocate), it never runs
//! out of capacity; the hot path stays on `FastByteBuffer`.
use vstd::prelude::*;

use crate::data::buffers::FastByteBuffer;
use crate::data::value::Encodable;

verus! {

#[verifier::external_type_specification]
#[verifier::external_body]
pub struct ExByteBuffer(bytebuffer::ByteBuffer);

/// The bytes an outside growable buffer holds.
pub uninterp spec fn growable_bytes(b: bytebuffer::ByteBuffer) -> Seq<u8>;

/// Whether the buffer's write cursor sits at the end of its data, on a
/// whole-byte boundary — the state in which a write appends.
pub uninterp spec fn growable_ready(b: bytebuffer::ByteBuffer) -> bool;

/// Relies on bytebuffer::ByteBuffer::new: a fresh buffer holds no data and
/// its write cursor sits at zero, on a whole-byte boundary.
#[verifier::external_body]
fn bb_new() -> (b: bytebuffer::ByteBuffer)
    ensures
        growable_bytes(b) == Seq::<u8>::empty(),
        growable_ready(b),
{
    bytebuffer::ByteBuffer::new()
}

/// Relies on bytebuffer::ByteBuffer::write_bytes: with the write cursor at
/// the end of the data on a whole-byte boundary, it grows the buffer as
/// needed, appends the bytes, and advances the cursor to the new end.
#[verifier::external_body]
fn bb_write_bytes(b: &mut bytebuffer::ByteBuffer, bytes: &[u8])
    requires
        growable_ready(*old(b)),
    ensures
        growable_bytes(*final(b)) == growable_bytes(*old(b)) + bytes@,
        growable_ready(*final(b)),
{
    b.write_bytes(bytes)
}

/// Relies on bytebuffer::ByteBuffer::as_bytes: it returns the buffer's
/// whole data, read-only.
#[verifier::external_body]
fn bb_as_bytes(b: &bytebuffer::ByteBuffer) -> (r: &[u8])
    ensures
        r@ == growable_bytes(*b),
{
    b.as_bytes()
}

/// A growable encoder around an outside byte buffer, for cold paths.
pub struct GrowableByteBuffer {
    inner: bytebuffer::ByteBuffer,
}

impl GrowableByteBuffer {
    /// The bytes written so far.
    pub closed spec fn bytes(&self) -> Seq<u8> {
        growable_bytes(self.inner)
    }

    /// The buffer accepts appends (every operation here keeps it so).
    pub closed spec fn wf(&self) -> bool {
        growable_ready(self.inner)
    }

    /// An empty growable encoder.
    pub fn new() -> (b: GrowableByteBuffer)
        ensures
            b.wf(),
            b.bytes() == Seq::<u8>::empty(),
    {
        GrowableByteBuffer { inner: bb_new() }
    }

    /// Appends a value's whole encoding; the buffer grows as needed, so
    /// this never fails.
    pub fn write_value<T: Encodable>(&mut self, v: &T)
        requires
            old(self).wf(),
        ensures
            final(self).wf(),
            final(self).bytes() == old(self).bytes() + v.wire(),
    {
        let n = v.encoded_len();
        let mut tmp = FastByteBuffer::new(n);
        let r = tmp.write_value(v);
        proof {
            assert(r is Ok);
        }
        bb_write_bytes(&mut self.inner, tmp.as_bytes());
    }

    /// The bytes written so far, as a read-only view.
    pub fn as_bytes(&self) -> (r: &[u8])
        ensures
            r@ == self.bytes(),
    {
        bb_as_bytes(&self.inner)
    }
}

} // verus!
