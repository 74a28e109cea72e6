//! The encodable/decodable value model: the capability contract that every
//! wire-visible type implements.
//!
//! A type's wire form is a deterministic byte sequence; composite types
//! encode their fields in a fixed declared order with no tags, so the order
//! is the schema. Decoding is purely a function of the bytes consumed, which
//! makes it composable for nested types.
use vstd::prelude::*;

use crate::data::buffers::ByteReader;
use crate::data::buffers::DecodeError;
use crate::data::buffers::EncodeError;
use crate::data::buffers::FastByteBuffer;

verus! {

/// A value with a deterministic binary wire representation.
pub trait Encodable: Sized {
    /// The exact byte sequence this value encodes to.
    spec fn wire(&self) -> Seq<u8>;

    /// The exact number of bytes this value encodes to.
    fn encoded_len(&self) -> (n: usize)
        ensures
            n as int == self.wire().len(),
    ;

    /// Appends this value's encoding at the writer's cursor. Succeeds if
    /// and only if the remaining capacity can hold the whole encoding; on
    /// failure the region is left untouched.
    fn encode_to(&self, buf: &mut FastByteBuffer) -> (r: Result<(), EncodeError>)
        requires
            old(buf).wf(),
        ensures
            final(buf).wf(),
            final(buf).capacity() == old(buf).capacity(),
            r is Ok <==> old(buf).written().len() + self.wire().len() <= old(buf).capacity(),
            r is Ok ==> final(buf).written() == old(buf).written() + self.wire(),
            r is Err ==> final(buf).written() == old(buf).written(),
    ;
}

/// A value that can be decoded back from its wire representation.
pub trait Decodable: View + Sized {
    /// What decoding yields, as a function of the remaining bytes alone:
    /// the decoded value's abstract view and the number of bytes consumed,
    /// or the exact error.
    spec fn dec(b: Seq<u8>) -> Result<(Self::V, int), DecodeError>;

    /// Decodes one value at the reader's cursor, consuming exactly the
    /// value's wire length. A failed decode leaves the cursor where it
    /// stood and surfaces no partial value.
    fn decode_from(reader: &mut ByteReader<'_>) -> (res: Result<Self, DecodeError>)
        requires
            old(reader).wf(),
        ensures
            final(reader).wf(),
            final(reader).all_bytes() == old(reader).all_bytes(),
            match Self::dec(old(reader).remaining()) {
                Ok(vn) => res is Ok && res->Ok_0@ == vn.0 && final(reader).remaining()
                    == old(reader).remaining().skip(vn.1),
                Err(e) => res is Err && res->Err_0 == e && final(reader).remaining()
                    == old(reader).remaining(),
            },
    ;
}

impl FastByteBuffer {
    /// Appends a value's encoding, exactly as `Encodable::encode_to`.
    pub fn write_value<T: Encodable>(&mut self, v: &T) -> (r: Result<(), EncodeError>)
        requires
            old(self).wf(),
        ensures
            final(self).wf(),
            final(self).capacity() == old(self).capacity(),
            r is Ok <==> old(self).written().len() + v.wire().len() <= old(self).capacity(),
            r is Ok ==> final(self).written() == old(self).written() + v.wire(),
            r is Err ==> final(self).written() == old(self).written(),
    {
        v.encode_to(self)
    }
}

impl<'a> ByteReader<'a> {
    /// Decodes one value of the declared type, exactly as
    /// `Decodable::decode_from`.
    pub fn read_value<T: Decodable>(&mut self) -> (res: Result<T, DecodeError>)
        requires
            old(self).wf(),
        ensures
            final(self).wf(),
            final(self).all_bytes() == old(self).all_bytes(),
            match T::dec(old(self).remaining()) {
                Ok(vn) => res is Ok && res->Ok_0@ == vn.0 && final(self).remaining()
                    == old(self).remaining().skip(vn.1),
                Err(e) => res is Err && res->Err_0 == e && final(self).remaining()
                    == old(self).remaining(),
            },
    {
        T::decode_from(self)
    }
}

} // verus!
