//! The packet envelope layer: binds each payload type to a stable numeric
//! identifier and a confidentiality flag, and dispatches raw bytes to a
//! typed payload by that identifier.
//!
//! A packet on the wire is the identifier as a fixed-width field followed
//! by the payload encoding, so a receiver can branch before decoding the
//! body. An identifier not bound to any payload type is a recoverable
//! error: the packet is dropped, the connection continues.
use vstd::prelude::*;

use crate::data::buffers::ByteReader;
use crate::data::buffers::DecodeError;
use crate::data::buffers::EncodeError;
use crate::data::buffers::FastByteBuffer;
use crate::data::buffers::dec_i32;
use crate::data::buffers::dec_u16;
use crate::data::buffers::lemma_concat_assoc;
use crate::data::buffers::lemma_dec_wire_i32;
use crate::data::buffers::lemma_dec_wire_u16;
use crate::data::buffers::lemma_skip_concat;
use crate::data::buffers::wire_i32;
use crate::data::buffers::wire_u16;
use crate::data::types::FastEncodedAudioFrame;
use crate::data::types::FastString;
use crate::data::types::MAX_MESSAGE_SIZE;
use crate::data::types::PlayerData;
use crate::data::types::lemma_round_trip_audio_frame;
use crate::data::types::lemma_round_trip_fast_string;
use crate::data::types::lemma_round_trip_player_data;
use crate::data::value::Decodable;
use crate::data::value::Encodable;

verus! {

pub const REQUEST_PLAYER_PROFILES_PACKET_ID: u16 = 12000;

pub const LEVEL_JOIN_PACKET_ID: u16 = 12001;

pub const LEVEL_LEAVE_PACKET_ID: u16 = 12002;

pub const PLAYER_DATA_PACKET_ID: u16 = 12003;

pub const VOICE_PACKET_ID: u16 = 12010;

pub const CHAT_MESSAGE_PACKET_ID: u16 = 12011;

/// The identifier and confidentiality flag bound to a payload type.
/// Identifiers are globally unique across the protocol and stable across
/// versions; the flag is advisory metadata for the transport layer, the
/// envelope itself performs no cryptography.
#[derive(Clone, Copy, Debug, PartialEq, Eq, Structural)]
pub struct PacketDescriptor {
    pub id: u16,
    pub requires_confidentiality: bool,
}

/// A payload type bound to a packet descriptor.
pub trait Packet: Encodable + Decodable {
    spec fn spec_packet_id() -> u16;

    spec fn spec_encrypted() -> bool;

    fn packet_id() -> (id: u16)
        ensures
            id == Self::spec_packet_id(),
    ;

    fn encrypted() -> (e: bool)
        ensures
            e == Self::spec_encrypted(),
    ;
}

/// The descriptor bound to a payload type.
pub fn descriptor_of<P: Packet>() -> (d: PacketDescriptor)
    ensures
        d.id == P::spec_packet_id(),
        d.requires_confidentiality == P::spec_encrypted(),
{
    PacketDescriptor { id: P::packet_id(), requires_confidentiality: P::encrypted() }
}

// ---------------------------------------------------------------------------
// The client-to-server packet set.
// ---------------------------------------------------------------------------

/// Asks the server for the profiles of players on the current level; zero
/// requests everyone.
#[derive(Clone, Copy, Debug, PartialEq, Eq, Structural)]
pub struct RequestPlayerProfilesPacket {
    pub requested: i32,
}

/// Announces that the sender joins the given level.
#[derive(Clone, Copy, Debug, PartialEq, Eq, Structural)]
pub struct LevelJoinPacket {
    pub level_id: i32,
}

/// Announces that the sender leaves its level; carries no payload.
#[derive(Clone, Copy, Debug, PartialEq, Eq, Structural)]
pub struct LevelLeavePacket;

/// Carries the sender's current gameplay state.
#[derive(Clone, Copy, Debug, PartialEq, Eq, Structural)]
pub struct PlayerDataPacket {
    pub data: PlayerData,
}

/// Carries one encoded voice frame.
#[derive(Clone, Debug)]
pub struct VoicePacket {
    pub data: FastEncodedAudioFrame,
}

/// Carries one bounded-length text message.
#[derive(Clone, Debug)]
pub struct ChatMessagePacket {
    pub message: FastString<MAX_MESSAGE_SIZE>,
}

impl View for RequestPlayerProfilesPacket {
    type V = RequestPlayerProfilesPacket;

    open spec fn view(&self) -> RequestPlayerProfilesPacket {
        *self
    }
}

impl View for LevelJoinPacket {
    type V = LevelJoinPacket;

    open spec fn view(&self) -> LevelJoinPacket {
        *self
    }
}

impl View for LevelLeavePacket {
    type V = LevelLeavePacket;

    open spec fn view(&self) -> LevelLeavePacket {
        *self
    }
}

impl View for PlayerDataPacket {
    type V = PlayerDataPacket;

    open spec fn view(&self) -> PlayerDataPacket {
        *self
    }
}

impl View for VoicePacket {
    type V = Seq<u8>;

    open spec fn view(&self) -> Seq<u8> {
        self.data@
    }
}

impl View for ChatMessagePacket {
    type V = Seq<u8>;

    open spec fn view(&self) -> Seq<u8> {
        self.message@
    }
}

impl Encodable for RequestPlayerProfilesPacket {
    open spec fn wire(&self) -> Seq<u8> {
        wire_i32(self.requested)
    }

    fn encoded_len(&self) -> (n: usize) {
        4
    }

    fn encode_to(&self, buf: &mut FastByteBuffer) -> (r: Result<(), EncodeError>) {
        buf.write_i32(self.requested)
    }
}

impl Decodable for RequestPlayerProfilesPacket {
    open spec fn dec(b: Seq<u8>) -> Result<(RequestPlayerProfilesPacket, int), DecodeError> {
        match dec_i32(b) {
            Ok((v, n)) => Ok((RequestPlayerProfilesPacket { requested: v }, n)),
            Err(e) => Err(e),
        }
    }

    fn decode_from(reader: &mut ByteReader<'_>) -> (res: Result<
        RequestPlayerProfilesPacket,
        DecodeError,
    >) {
        match reader.read_i32() {
            Ok(v) => Ok(RequestPlayerProfilesPacket { requested: v }),
            Err(e) => Err(e),
        }
    }
}

impl Packet for RequestPlayerProfilesPacket {
    open spec fn spec_packet_id() -> u16 {
        REQUEST_PLAYER_PROFILES_PACKET_ID
    }

    open spec fn spec_encrypted() -> bool {
        false
    }

    fn packet_id() -> (id: u16) {
        REQUEST_PLAYER_PROFILES_PACKET_ID
    }

    fn encrypted() -> (e: bool) {
        false
    }
}

impl Encodable for LevelJoinPacket {
    open spec fn wire(&self) -> Seq<u8> {
        wire_i32(self.level_id)
    }

    fn encoded_len(&self) -> (n: usize) {
        4
    }

    fn encode_to(&self, buf: &mut FastByteBuffer) -> (r: Result<(), EncodeError>) {
        buf.write_i32(self.level_id)
    }
}

impl Decodable for LevelJoinPacket {
    open spec fn dec(b: Seq<u8>) -> Result<(LevelJoinPacket, int), DecodeError> {
        match dec_i32(b) {
            Ok((v, n)) => Ok((LevelJoinPacket { level_id: v }, n)),
            Err(e) => Err(e),
        }
    }

    fn decode_from(reader: &mut ByteReader<'_>) -> (res: Result<LevelJoinPacket, DecodeError>) {
        match reader.read_i32() {
            Ok(v) => Ok(LevelJoinPacket { level_id: v }),
            Err(e) => Err(e),
        }
    }
}

impl Packet for LevelJoinPacket {
    open spec fn spec_packet_id() -> u16 {
        LEVEL_JOIN_PACKET_ID
    }

    open spec fn spec_encrypted() -> bool {
        false
    }

    fn packet_id() -> (id: u16) {
        LEVEL_JOIN_PACKET_ID
    }

    fn encrypted() -> (e: bool) {
        false
    }
}

impl Encodable for LevelLeavePacket {
    open spec fn wire(&self) -> Seq<u8> {
        Seq::<u8>::empty()
    }

    fn encoded_len(&self) -> (n: usize) {
        0
    }

    fn encode_to(&self, buf: &mut FastByteBuffer) -> (r: Result<(), EncodeError>) {
        proof {
            assert(buf.written() =~= old(buf).written() + self.wire());
        }
        Ok(())
    }
}

impl Decodable for LevelLeavePacket {
    open spec fn dec(b: Seq<u8>) -> Result<(LevelLeavePacket, int), DecodeError> {
        Ok((LevelLeavePacket, 0int))
    }

    fn decode_from(reader: &mut ByteReader<'_>) -> (res: Result<LevelLeavePacket, DecodeError>) {
        proof {
            assert(reader.remaining() =~= old(reader).remaining().skip(0));
        }
        Ok(LevelLeavePacket)
    }
}

impl Packet for LevelLeavePacket {
    open spec fn spec_packet_id() -> u16 {
        LEVEL_LEAVE_PACKET_ID
    }

    open spec fn spec_encrypted() -> bool {
        false
    }

    fn packet_id() -> (id: u16) {
        LEVEL_LEAVE_PACKET_ID
    }

    fn encrypted() -> (e: bool) {
        false
    }
}

impl Encodable for PlayerDataPacket {
    open spec fn wire(&self) -> Seq<u8> {
        self.data.wire()
    }

    fn encoded_len(&self) -> (n: usize) {
        self.data.encoded_len()
    }

    fn encode_to(&self, buf: &mut FastByteBuffer) -> (r: Result<(), EncodeError>) {
        self.data.encode_to(buf)
    }
}

impl Decodable for PlayerDataPacket {
    open spec fn dec(b: Seq<u8>) -> Result<(PlayerDataPacket, int), DecodeError> {
        match PlayerData::dec(b) {
            Ok((v, n)) => Ok((PlayerDataPacket { data: v }, n)),
            Err(e) => Err(e),
        }
    }

    fn decode_from(reader: &mut ByteReader<'_>) -> (res: Result<PlayerDataPacket, DecodeError>) {
        match PlayerData::decode_from(reader) {
            Ok(v) => Ok(PlayerDataPacket { data: v }),
            Err(e) => Err(e),
        }
    }
}

impl Packet for PlayerDataPacket {
    open spec fn spec_packet_id() -> u16 {
        PLAYER_DATA_PACKET_ID
    }

    open spec fn spec_encrypted() -> bool {
        false
    }

    fn packet_id() -> (id: u16) {
        PLAYER_DATA_PACKET_ID
    }

    fn encrypted() -> (e: bool) {
        false
    }
}

impl Encodable for VoicePacket {
    open spec fn wire(&self) -> Seq<u8> {
        self.data.wire()
    }

    fn encoded_len(&self) -> (n: usize) {
        self.data.encoded_len()
    }

    fn encode_to(&self, buf: &mut FastByteBuffer) -> (r: Result<(), EncodeError>) {
        self.data.encode_to(buf)
    }
}

impl Decodable for VoicePacket {
    open spec fn dec(b: Seq<u8>) -> Result<(Seq<u8>, int), DecodeError> {
        FastEncodedAudioFrame::dec(b)
    }

    fn decode_from(reader: &mut ByteReader<'_>) -> (res: Result<VoicePacket, DecodeError>) {
        match FastEncodedAudioFrame::decode_from(reader) {
            Ok(v) => Ok(VoicePacket { data: v }),
            Err(e) => Err(e),
        }
    }
}

impl Packet for VoicePacket {
    open spec fn spec_packet_id() -> u16 {
        VOICE_PACKET_ID
    }

    open spec fn spec_encrypted() -> bool {
        true
    }

    fn packet_id() -> (id: u16) {
        VOICE_PACKET_ID
    }

    fn encrypted() -> (e: bool) {
        true
    }
}

impl Encodable for ChatMessagePacket {
    open spec fn wire(&self) -> Seq<u8> {
        self.message.wire()
    }

    fn encoded_len(&self) -> (n: usize) {
        self.message.encoded_len()
    }

    fn encode_to(&self, buf: &mut FastByteBuffer) -> (r: Result<(), EncodeError>) {
        self.message.encode_to(buf)
    }
}

impl Decodable for ChatMessagePacket {
    open spec fn dec(b: Seq<u8>) -> Result<(Seq<u8>, int), DecodeError> {
        FastString::<MAX_MESSAGE_SIZE>::dec(b)
    }

    fn decode_from(reader: &mut ByteReader<'_>) -> (res: Result<ChatMessagePacket, DecodeError>) {
        match FastString::<MAX_MESSAGE_SIZE>::decode_from(reader) {
            Ok(v) => Ok(ChatMessagePacket { message: v }),
            Err(e) => Err(e),
        }
    }
}

impl Packet for ChatMessagePacket {
    open spec fn spec_packet_id() -> u16 {
        CHAT_MESSAGE_PACKET_ID
    }

    open spec fn spec_encrypted() -> bool {
        true
    }

    fn packet_id() -> (id: u16) {
        CHAT_MESSAGE_PACKET_ID
    }

    fn encrypted() -> (e: bool) {
        true
    }
}

/// Identifiers are unique across the protocol: no two payload types share
/// one, so identifier-based dispatch is unambiguous. A collision here would
/// be a programming error; this law makes it unreachable.
pub proof fn lemma_packet_ids_distinct()
    ensures
        RequestPlayerProfilesPacket::spec_packet_id() != LevelJoinPacket::spec_packet_id(),
        RequestPlayerProfilesPacket::spec_packet_id() != LevelLeavePacket::spec_packet_id(),
        RequestPlayerProfilesPacket::spec_packet_id() != PlayerDataPacket::spec_packet_id(),
        RequestPlayerProfilesPacket::spec_packet_id() != VoicePacket::spec_packet_id(),
        RequestPlayerProfilesPacket::spec_packet_id() != ChatMessagePacket::spec_packet_id(),
        LevelJoinPacket::spec_packet_id() != LevelLeavePacket::spec_packet_id(),
        LevelJoinPacket::spec_packet_id() != PlayerDataPacket::spec_packet_id(),
        LevelJoinPacket::spec_packet_id() != VoicePacket::spec_packet_id(),
        LevelJoinPacket::spec_packet_id() != ChatMessagePacket::spec_packet_id(),
        LevelLeavePacket::spec_packet_id() != PlayerDataPacket::spec_packet_id(),
        LevelLeavePacket::spec_packet_id() != VoicePacket::spec_packet_id(),
        LevelLeavePacket::spec_packet_id() != ChatMessagePacket::spec_packet_id(),
        PlayerDataPacket::spec_packet_id() != VoicePacket::spec_packet_id(),
        PlayerDataPacket::spec_packet_id() != ChatMessagePacket::spec_packet_id(),
        VoicePacket::spec_packet_id() != ChatMessagePacket::spec_packet_id(),
{
}

// ---------------------------------------------------------------------------
// The envelope: identifier first, payload second.
// ---------------------------------------------------------------------------

/// Any client-to-server packet, as one dispatchable value.
#[derive(Clone, Debug)]
pub enum ClientPacket {
    RequestPlayerProfiles(RequestPlayerProfilesPacket),
    LevelJoin(LevelJoinPacket),
    LevelLeave(LevelLeavePacket),
    PlayerData(PlayerDataPacket),
    Voice(VoicePacket),
    ChatMessage(ChatMessagePacket),
}

/// The abstract value of a `ClientPacket`: bounded blobs as plain byte
/// sequences.
pub enum ClientPacketView {
    RequestPlayerProfiles(RequestPlayerProfilesPacket),
    LevelJoin(LevelJoinPacket),
    LevelLeave(LevelLeavePacket),
    PlayerData(PlayerDataPacket),
    Voice(Seq<u8>),
    ChatMessage(Seq<u8>),
}

impl View for ClientPacket {
    type V = ClientPacketView;

    open spec fn view(&self) -> ClientPacketView {
        match self {
            ClientPacket::RequestPlayerProfiles(p) => ClientPacketView::RequestPlayerProfiles(*p),
            ClientPacket::LevelJoin(p) => ClientPacketView::LevelJoin(*p),
            ClientPacket::LevelLeave(p) => ClientPacketView::LevelLeave(*p),
            ClientPacket::PlayerData(p) => ClientPacketView::PlayerData(*p),
            ClientPacket::Voice(p) => ClientPacketView::Voice(p.data@),
            ClientPacket::ChatMessage(p) => ClientPacketView::ChatMessage(p.message@),
        }
    }
}

impl ClientPacket {
    /// The identifier written before this packet's payload.
    pub open spec fn spec_id(&self) -> u16 {
        match self {
            ClientPacket::RequestPlayerProfiles(_) => REQUEST_PLAYER_PROFILES_PACKET_ID,
            ClientPacket::LevelJoin(_) => LEVEL_JOIN_PACKET_ID,
            ClientPacket::LevelLeave(_) => LEVEL_LEAVE_PACKET_ID,
            ClientPacket::PlayerData(_) => PLAYER_DATA_PACKET_ID,
            ClientPacket::Voice(_) => VOICE_PACKET_ID,
            ClientPacket::ChatMessage(_) => CHAT_MESSAGE_PACKET_ID,
        }
    }

    /// The payload bytes of this packet, without the identifier.
    pub open spec fn payload_wire(&self) -> Seq<u8> {
        match self {
            ClientPacket::RequestPlayerProfiles(p) => p.wire(),
            ClientPacket::LevelJoin(p) => p.wire(),
            ClientPacket::LevelLeave(p) => p.wire(),
            ClientPacket::PlayerData(p) => p.wire(),
            ClientPacket::Voice(p) => p.wire(),
            ClientPacket::ChatMessage(p) => p.wire(),
        }
    }

    /// The full wire form: identifier, then payload.
    pub open spec fn spec_wire(&self) -> Seq<u8> {
        wire_u16(self.spec_id()) + self.payload_wire()
    }

    /// The view after encoding and decoding once: bounded blobs cut to
    /// their declared maxima.
    pub open spec fn spec_truncated(&self) -> ClientPacketView {
        match self {
            ClientPacket::RequestPlayerProfiles(p) => ClientPacketView::RequestPlayerProfiles(*p),
            ClientPacket::LevelJoin(p) => ClientPacketView::LevelJoin(*p),
            ClientPacket::LevelLeave(p) => ClientPacketView::LevelLeave(*p),
            ClientPacket::PlayerData(p) => ClientPacketView::PlayerData(*p),
            ClientPacket::Voice(p) => ClientPacketView::Voice(p.data.spec_truncated()),
            ClientPacket::ChatMessage(p) => ClientPacketView::ChatMessage(
                p.message.spec_truncated(),
            ),
        }
    }
}

/// An identifier some payload type is registered for.
pub open spec fn known_packet_id(id: u16) -> bool {
    ||| id == REQUEST_PLAYER_PROFILES_PACKET_ID
    ||| id == LEVEL_JOIN_PACKET_ID
    ||| id == LEVEL_LEAVE_PACKET_ID
    ||| id == PLAYER_DATA_PACKET_ID
    ||| id == VOICE_PACKET_ID
    ||| id == CHAT_MESSAGE_PACKET_ID
}

/// What envelope decoding yields, as a function of the bytes alone: the
/// identifier selects the payload decoder; an unregistered identifier is
/// the recoverable unknown-packet error.
pub open spec fn dec_client_packet(b: Seq<u8>) -> Result<(ClientPacketView, int), DecodeError> {
    match dec_u16(b) {
        Err(e) => Err(e),
        Ok((id, _)) => if id == REQUEST_PLAYER_PROFILES_PACKET_ID {
            match RequestPlayerProfilesPacket::dec(b.skip(2)) {
                Err(e) => Err(e),
                Ok((v, n)) => Ok((ClientPacketView::RequestPlayerProfiles(v), 2 + n)),
            }
        } else if id == LEVEL_JOIN_PACKET_ID {
            match LevelJoinPacket::dec(b.skip(2)) {
                Err(e) => Err(e),
                Ok((v, n)) => Ok((ClientPacketView::LevelJoin(v), 2 + n)),
            }
        } else if id == LEVEL_LEAVE_PACKET_ID {
            match LevelLeavePacket::dec(b.skip(2)) {
                Err(e) => Err(e),
                Ok((v, n)) => Ok((ClientPacketView::LevelLeave(v), 2 + n)),
            }
        } else if id == PLAYER_DATA_PACKET_ID {
            match PlayerDataPacket::dec(b.skip(2)) {
                Err(e) => Err(e),
                Ok((v, n)) => Ok((ClientPacketView::PlayerData(v), 2 + n)),
            }
        } else if id == VOICE_PACKET_ID {
            match VoicePacket::dec(b.skip(2)) {
                Err(e) => Err(e),
                Ok((v, n)) => Ok((ClientPacketView::Voice(v), 2 + n)),
            }
        } else if id == CHAT_MESSAGE_PACKET_ID {
            match ChatMessagePacket::dec(b.skip(2)) {
                Err(e) => Err(e),
                Ok((v, n)) => Ok((ClientPacketView::ChatMessage(v), 2 + n)),
            }
        } else {
            Err(DecodeError::UnknownPacket)
        },
    }
}

/// Writes one packet for the wire: the payload type's identifier, then the
/// payload. Succeeds if and only if the remaining capacity holds both; on
/// failure the region is left untouched.
pub fn encode_packet<P: Packet>(p: &P, buf: &mut FastByteBuffer) -> (r: Result<(), EncodeError>)
    requires
        old(buf).wf(),
    ensures
        final(buf).wf(),
        final(buf).capacity() == old(buf).capacity(),
        r is Ok <==> old(buf).written().len() + 2 + p.wire().len() <= old(buf).capacity(),
        r is Ok ==> final(buf).written() == old(buf).written() + wire_u16(P::spec_packet_id())
            + p.wire(),
        r is Err ==> final(buf).written() == old(buf).written(),
{
    let n = p.encoded_len();
    if buf.remaining() < 2 {
        return Err(EncodeError::NotEnoughCapacity);
    }
    if buf.remaining() - 2 < n {
        return Err(EncodeError::NotEnoughCapacity);
    }
    let r1 = buf.write_u16(P::packet_id());
    let r2 = p.encode_to(buf);
    proof {
        assert(r1 is Ok && r2 is Ok);
    }
    Ok(())
}

/// Writes one dispatchable packet for the wire, as `encode_packet` does
/// for its payload type.
pub fn encode_client_packet(p: &ClientPacket, buf: &mut FastByteBuffer) -> (r: Result<
    (),
    EncodeError,
>)
    requires
        old(buf).wf(),
    ensures
        final(buf).wf(),
        final(buf).capacity() == old(buf).capacity(),
        r is Ok <==> old(buf).written().len() + p.spec_wire().len() <= old(buf).capacity(),
        r is Ok ==> final(buf).written() == old(buf).written() + p.spec_wire(),
        r is Err ==> final(buf).written() == old(buf).written(),
{
    match p {
        ClientPacket::RequestPlayerProfiles(q) => encode_packet(q, buf),
        ClientPacket::LevelJoin(q) => encode_packet(q, buf),
        ClientPacket::LevelLeave(q) => encode_packet(q, buf),
        ClientPacket::PlayerData(q) => encode_packet(q, buf),
        ClientPacket::Voice(q) => encode_packet(q, buf),
        ClientPacket::ChatMessage(q) => encode_packet(q, buf),
    }
}

/// Reads one packet: the identifier first, then the payload decoder it
/// selects. An unregistered identifier yields the recoverable
/// unknown-packet error; any failure leaves the cursor where it stood.
pub fn decode_client_packet(reader: &mut ByteReader<'_>) -> (res: Result<ClientPacket, DecodeError>)
    requires
        old(reader).wf(),
    ensures
        final(reader).wf(),
        final(reader).all_bytes() == old(reader).all_bytes(),
        match dec_client_packet(old(reader).remaining()) {
            Ok(vn) => res is Ok && res->Ok_0@ == vn.0 && final(reader).remaining()
                == old(reader).remaining().skip(vn.1),
            Err(e) => res is Err && res->Err_0 == e && final(reader).remaining()
                == old(reader).remaining(),
        },
{
    let start = reader.pos();
    let id = match reader.read_u16() {
        Ok(v) => v,
        Err(e) => {
            return Err(e);
        },
    };
    if id == REQUEST_PLAYER_PROFILES_PACKET_ID {
        match RequestPlayerProfilesPacket::decode_from(reader) {
            Ok(v) => Ok(ClientPacket::RequestPlayerProfiles(v)),
            Err(e) => {
                reader.seek(start);
                return Err(e);
            },
        }
    } else if id == LEVEL_JOIN_PACKET_ID {
        match LevelJoinPacket::decode_from(reader) {
            Ok(v) => Ok(ClientPacket::LevelJoin(v)),
            Err(e) => {
                reader.seek(start);
                return Err(e);
            },
        }
    } else if id == LEVEL_LEAVE_PACKET_ID {
        match LevelLeavePacket::decode_from(reader) {
            Ok(v) => Ok(ClientPacket::LevelLeave(v)),
            Err(e) => {
                reader.seek(start);
                return Err(e);
            },
        }
    } else if id == PLAYER_DATA_PACKET_ID {
        match PlayerDataPacket::decode_from(reader) {
            Ok(v) => Ok(ClientPacket::PlayerData(v)),
            Err(e) => {
                reader.seek(start);
                return Err(e);
            },
        }
    } else if id == VOICE_PACKET_ID {
        match VoicePacket::decode_from(reader) {
            Ok(v) => Ok(ClientPacket::Voice(v)),
            Err(e) => {
                reader.seek(start);
                return Err(e);
            },
        }
    } else if id == CHAT_MESSAGE_PACKET_ID {
        match ChatMessagePacket::decode_from(reader) {
            Ok(v) => Ok(ClientPacket::ChatMessage(v)),
            Err(e) => {
                reader.seek(start);
                return Err(e);
            },
        }
    } else {
        reader.seek(start);
        Err(DecodeError::UnknownPacket)
    }
}

/// Identifier dispatch round trip: decoding an encoded packet through the
/// envelope yields a payload of the same concrete type, equal up to the
/// truncation of bounded blobs to their declared maxima.
pub proof fn lemma_round_trip_client_packet(p: ClientPacket, rest: Seq<u8>)
    ensures
        dec_client_packet(p.spec_wire() + rest) == Ok::<(ClientPacketView, int), DecodeError>(
            (p.spec_truncated(), p.spec_wire().len() as int),
        ),
{
    let w1 = wire_u16(p.spec_id());
    let w2 = p.payload_wire();
    let t1 = w2 + rest;
    lemma_concat_assoc(w1, w2, rest);
    let b = p.spec_wire() + rest;
    assert(b == w1 + t1);
    lemma_dec_wire_u16(p.spec_id(), t1);
    lemma_skip_concat(w1, t1);
    assert(b.skip(2) == t1);
    match p {
        ClientPacket::RequestPlayerProfiles(q) => {
            lemma_dec_wire_i32(q.requested, rest);
        },
        ClientPacket::LevelJoin(q) => {
            lemma_dec_wire_i32(q.level_id, rest);
        },
        ClientPacket::LevelLeave(_) => {
        },
        ClientPacket::PlayerData(q) => {
            lemma_round_trip_player_data(q.data, rest);
        },
        ClientPacket::Voice(q) => {
            lemma_round_trip_audio_frame(q.data, rest);
        },
        ClientPacket::ChatMessage(q) => {
            lemma_round_trip_fast_string::<MAX_MESSAGE_SIZE>(q.message, rest);
        },
    }
}

/// An unregistered identifier decodes to the unknown-packet error, never a
/// crash: the envelope drops the packet and the connection continues.
pub proof fn lemma_unknown_id_rejected(b: Seq<u8>)
    requires
        b.len() >= 2,
        !known_packet_id(dec_u16(b)->Ok_0.0),
    ensures
        dec_client_packet(b) == Err::<(ClientPacketView, int), DecodeError>(
            DecodeError::UnknownPacket,
        ),
{
}

} // verus!
