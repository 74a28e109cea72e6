//! The concrete wire-visible value types: fixed-size records (colors, icon
//! sets, gameplay state) and bounded-variable values (strings, audio
//! frames), each an instance of the encodable/decodable value model.
use vstd::prelude::*;

use crate::data::buffers::ByteReader;
use crate::data::buffers::DecodeError;
use crate::data::buffers::EncodeError;
use crate::data::buffers::FastByteBuffer;
use crate::data::buffers::dec_bool;
use crate::data::buffers::dec_u8;
use crate::data::buffers::lemma_dec_wire_u8;
use crate::data::buffers::dec_bytes;
use crate::data::buffers::dec_i32;
use crate::data::buffers::dec_u16;
use crate::data::buffers::trunc_len;
use crate::data::buffers::wire_bool;
use crate::data::buffers::wire_bytes;
use crate::data::buffers::wire_i32;
use crate::data::buffers::wire_u16;
use crate::data::buffers::wire_u8;
use crate::data::buffers::lemma_dec_wire_bool;
use crate::data::buffers::lemma_dec_wire_bytes;
use crate::data::buffers::lemma_dec_wire_i32;
use crate::data::buffers::lemma_dec_wire_u16;
use crate::data::buffers::lemma_concat_assoc;
use crate::data::buffers::lemma_skip_concat;
use crate::data::value::Decodable;
use crate::data::value::Encodable;

verus! {

/// Maximum stored length, in bytes, of a player name.
pub const MAX_NAME_SIZE: usize = 32;

/// Maximum stored length, in bytes, of a chat message.
pub const MAX_MESSAGE_SIZE: usize = 256;

/// Maximum stored length, in bytes, of an encoded audio frame.
pub const MAX_AUDIO_FRAME_SIZE: usize = 2800;

pub const COLOR3B_ENCODED_SIZE: usize = 3;

pub const PLAYER_ICON_DATA_ENCODED_SIZE: usize = 14;

pub const SPECIAL_USER_DATA_ENCODED_SIZE: usize = 3;

pub const PLAYER_DATA_ENCODED_SIZE: usize = 6;

/// Maximum encoded size of a full account-data record: the identifier, the
/// length-prefixed name at its longest, the icon set, and the presence flag
/// plus name color.
pub const PLAYER_ACCOUNT_DATA_ENCODED_SIZE: usize = 4 + 2 + 32 + 14 + 1 + 3;

// ---------------------------------------------------------------------------
// Color3B
// ---------------------------------------------------------------------------

/// An RGB color, one byte per channel.
#[derive(Clone, Copy, Debug, PartialEq, Eq, Structural)]
pub struct Color3B {
    pub r: u8,
    pub g: u8,
    pub b: u8,
}

impl View for Color3B {
    type V = Color3B;

    open spec fn view(&self) -> Color3B {
        *self
    }
}

impl Encodable for Color3B {
    open spec fn wire(&self) -> Seq<u8> {
        wire_u8(self.r) + wire_u8(self.g) + wire_u8(self.b)
    }

    fn encoded_len(&self) -> (n: usize)
        ensures
            n as int == self.wire().len(),
    {
        COLOR3B_ENCODED_SIZE
    }

    fn encode_to(&self, buf: &mut FastByteBuffer) -> (r: Result<(), EncodeError>) {
        if buf.remaining() < COLOR3B_ENCODED_SIZE {
            return Err(EncodeError::NotEnoughCapacity);
        }
        let r1 = buf.write_u8(self.r);
        let r2 = buf.write_u8(self.g);
        let r3 = buf.write_u8(self.b);
        proof {
            assert(r1 is Ok && r2 is Ok && r3 is Ok);
            assert(buf.written() =~= old(buf).written() + self.wire());
        }
        Ok(())
    }
}

impl Decodable for Color3B {
    open spec fn dec(b: Seq<u8>) -> Result<(Color3B, int), DecodeError> {
        if b.len() >= 3 {
            Ok((Color3B { r: b[0], g: b[1], b: b[2] }, 3int))
        } else {
            Err(DecodeError::InsufficientData)
        }
    }

    fn decode_from(reader: &mut ByteReader<'_>) -> (res: Result<Color3B, DecodeError>) {
        let start = reader.pos();
        let r = match reader.read_u8() {
            Ok(v) => v,
            Err(e) => {
                return Err(e);
            },
        };
        let g = match reader.read_u8() {
            Ok(v) => v,
            Err(e) => {
                reader.seek(start);
                return Err(e);
            },
        };
        let b = match reader.read_u8() {
            Ok(v) => v,
            Err(e) => {
                reader.seek(start);
                return Err(e);
            },
        };
        proof {
            assert(reader.remaining() =~= old(reader).remaining().skip(3));
        }
        Ok(Color3B { r, g, b })
    }
}

/// Round trip: decoding a color's wire form yields that color exactly.
pub proof fn lemma_round_trip_color3b(v: Color3B, rest: Seq<u8>)
    ensures
        Color3B::dec(v.wire() + rest) == Ok::<(Color3B, int), DecodeError>((v, 3int)),
{
    let b = v.wire() + rest;
    assert(b[0] == v.r);
    assert(b[1] == v.g);
    assert(b[2] == v.b);
}


// ---------------------------------------------------------------------------
// Primitive instances of the value model.
// ---------------------------------------------------------------------------

impl Encodable for u16 {
    open spec fn wire(&self) -> Seq<u8> {
        wire_u16(*self)
    }

    fn encoded_len(&self) -> (n: usize) {
        2
    }

    fn encode_to(&self, buf: &mut FastByteBuffer) -> (r: Result<(), EncodeError>) {
        buf.write_u16(*self)
    }
}

impl Decodable for u16 {
    open spec fn dec(b: Seq<u8>) -> Result<(u16, int), DecodeError> {
        dec_u16(b)
    }

    fn decode_from(reader: &mut ByteReader<'_>) -> (res: Result<u16, DecodeError>) {
        reader.read_u16()
    }
}

impl Encodable for i32 {
    open spec fn wire(&self) -> Seq<u8> {
        wire_i32(*self)
    }

    fn encoded_len(&self) -> (n: usize) {
        4
    }

    fn encode_to(&self, buf: &mut FastByteBuffer) -> (r: Result<(), EncodeError>) {
        buf.write_i32(*self)
    }
}

impl Decodable for i32 {
    open spec fn dec(b: Seq<u8>) -> Result<(i32, int), DecodeError> {
        dec_i32(b)
    }

    fn decode_from(reader: &mut ByteReader<'_>) -> (res: Result<i32, DecodeError>) {
        reader.read_i32()
    }
}

impl Encodable for bool {
    open spec fn wire(&self) -> Seq<u8> {
        wire_bool(*self)
    }

    fn encoded_len(&self) -> (n: usize) {
        1
    }

    fn encode_to(&self, buf: &mut FastByteBuffer) -> (r: Result<(), EncodeError>) {
        buf.write_bool(*self)
    }
}

impl Decodable for bool {
    open spec fn dec(b: Seq<u8>) -> Result<(bool, int), DecodeError> {
        dec_bool(b)
    }

    fn decode_from(reader: &mut ByteReader<'_>) -> (res: Result<bool, DecodeError>) {
        reader.read_bool()
    }
}

// ---------------------------------------------------------------------------
// PlayerIconData
// ---------------------------------------------------------------------------

/// The icon selection a player presents: one identifier per game mode and
/// the two color slots.
#[derive(Clone, Copy, Debug, PartialEq, Eq, Structural)]
pub struct PlayerIconData {
    pub cube: i32,
    pub ship: i32,
    pub ball: i32,
    pub color1: u8,
    pub color2: u8,
}

impl View for PlayerIconData {
    type V = PlayerIconData;

    open spec fn view(&self) -> PlayerIconData {
        *self
    }
}

impl Default for PlayerIconData {
    /// The neutral icon set: the first icon of every mode and the default
    /// color pair.
    fn default() -> (d: Self)
        ensures
            d == (PlayerIconData { cube: 1, ship: 1, ball: 1, color1: 1, color2: 3 }),
    {
        PlayerIconData { cube: 1, ship: 1, ball: 1, color1: 1, color2: 3 }
    }
}

impl Encodable for PlayerIconData {
    open spec fn wire(&self) -> Seq<u8> {
        wire_i32(self.cube) + wire_i32(self.ship) + wire_i32(self.ball) + wire_u8(self.color1)
            + wire_u8(self.color2)
    }

    fn encoded_len(&self) -> (n: usize) {
        PLAYER_ICON_DATA_ENCODED_SIZE
    }

    fn encode_to(&self, buf: &mut FastByteBuffer) -> (r: Result<(), EncodeError>) {
        if buf.remaining() < PLAYER_ICON_DATA_ENCODED_SIZE {
            return Err(EncodeError::NotEnoughCapacity);
        }
        let r1 = buf.write_i32(self.cube);
        let r2 = buf.write_i32(self.ship);
        let r3 = buf.write_i32(self.ball);
        let r4 = buf.write_u8(self.color1);
        let r5 = buf.write_u8(self.color2);
        proof {
            assert(r1 is Ok && r2 is Ok && r3 is Ok && r4 is Ok && r5 is Ok);
            assert(buf.written() =~= old(buf).written() + self.wire());
        }
        Ok(())
    }
}

impl Decodable for PlayerIconData {
    open spec fn dec(b: Seq<u8>) -> Result<(PlayerIconData, int), DecodeError> {
        match dec_i32(b) {
            Err(e) => Err(e),
            Ok((cube, _)) => match dec_i32(b.skip(4)) {
                Err(e) => Err(e),
                Ok((ship, _)) => match dec_i32(b.skip(4).skip(4)) {
                    Err(e) => Err(e),
                    Ok((ball, _)) => match dec_u8(b.skip(4).skip(4).skip(4)) {
                        Err(e) => Err(e),
                        Ok((color1, _)) => match dec_u8(b.skip(4).skip(4).skip(4).skip(1)) {
                            Err(e) => Err(e),
                            Ok((color2, _)) => Ok(
                                (PlayerIconData { cube, ship, ball, color1, color2 }, 14int),
                            ),
                        },
                    },
                },
            },
        }
    }

    fn decode_from(reader: &mut ByteReader<'_>) -> (res: Result<PlayerIconData, DecodeError>) {
        let start = reader.pos();
        let cube = match reader.read_i32() {
            Ok(v) => v,
            Err(e) => {
                reader.seek(start);
                return Err(e);
            },
        };
        let ship = match reader.read_i32() {
            Ok(v) => v,
            Err(e) => {
                reader.seek(start);
                return Err(e);
            },
        };
        let ball = match reader.read_i32() {
            Ok(v) => v,
            Err(e) => {
                reader.seek(start);
                return Err(e);
            },
        };
        let color1 = match reader.read_u8() {
            Ok(v) => v,
            Err(e) => {
                reader.seek(start);
                return Err(e);
            },
        };
        let color2 = match reader.read_u8() {
            Ok(v) => v,
            Err(e) => {
                reader.seek(start);
                return Err(e);
            },
        };
        proof {
            assert(reader.remaining() =~= old(reader).remaining().skip(14));
        }
        Ok(PlayerIconData { cube, ship, ball, color1, color2 })
    }
}

/// Round trip: decoding an icon set's wire form yields that set exactly.
#[verifier::rlimit(100)]
pub proof fn lemma_round_trip_icons(v: PlayerIconData, rest: Seq<u8>)
    ensures
        PlayerIconData::dec(v.wire() + rest) == Ok::<(PlayerIconData, int), DecodeError>(
            (v, 14int),
        ),
{
    let w1 = wire_i32(v.cube);
    let w2 = wire_i32(v.ship);
    let w3 = wire_i32(v.ball);
    let w4 = wire_u8(v.color1);
    let w5 = wire_u8(v.color2);
    let t4 = w5 + rest;
    let t3 = w4 + t4;
    let t2 = w3 + t3;
    let t1 = w2 + t2;
    lemma_concat_assoc(w1 + w2 + w3 + w4, w5, rest);
    lemma_concat_assoc(w1 + w2 + w3, w4, t4);
    lemma_concat_assoc(w1 + w2, w3, t3);
    lemma_concat_assoc(w1, w2, t2);
    let b = v.wire() + rest;
    assert(b == w1 + t1);
    lemma_dec_wire_i32(v.cube, t1);
    lemma_skip_concat(w1, t1);
    assert(b.skip(4) == t1);
    lemma_dec_wire_i32(v.ship, t2);
    lemma_skip_concat(w2, t2);
    assert(b.skip(4).skip(4) == t2);
    lemma_dec_wire_i32(v.ball, t3);
    lemma_skip_concat(w3, t3);
    assert(b.skip(4).skip(4).skip(4) == t3);
    lemma_dec_wire_u8(v.color1, t4);
    lemma_skip_concat(w4, t4);
    assert(b.skip(4).skip(4).skip(4).skip(1) == t4);
    lemma_dec_wire_u8(v.color2, rest);
}


// ---------------------------------------------------------------------------
// SpecialUserData
// ---------------------------------------------------------------------------

/// Extra presentation data granted to special users: the name color.
#[derive(Clone, Copy, Debug, PartialEq, Eq, Structural)]
pub struct SpecialUserData {
    pub name_color: Color3B,
}

impl View for SpecialUserData {
    type V = SpecialUserData;

    open spec fn view(&self) -> SpecialUserData {
        *self
    }
}

impl Encodable for SpecialUserData {
    open spec fn wire(&self) -> Seq<u8> {
        self.name_color.wire()
    }

    fn encoded_len(&self) -> (n: usize) {
        SPECIAL_USER_DATA_ENCODED_SIZE
    }

    fn encode_to(&self, buf: &mut FastByteBuffer) -> (r: Result<(), EncodeError>) {
        self.name_color.encode_to(buf)
    }
}

impl Decodable for SpecialUserData {
    open spec fn dec(b: Seq<u8>) -> Result<(SpecialUserData, int), DecodeError> {
        match Color3B::dec(b) {
            Ok((c, n)) => Ok((SpecialUserData { name_color: c }, n)),
            Err(e) => Err(e),
        }
    }

    fn decode_from(reader: &mut ByteReader<'_>) -> (res: Result<SpecialUserData, DecodeError>) {
        match Color3B::decode_from(reader) {
            Ok(c) => Ok(SpecialUserData { name_color: c }),
            Err(e) => Err(e),
        }
    }
}

/// Round trip: decoding a special-user record's wire form yields it exactly.
pub proof fn lemma_round_trip_special(v: SpecialUserData, rest: Seq<u8>)
    ensures
        SpecialUserData::dec(v.wire() + rest) == Ok::<(SpecialUserData, int), DecodeError>(
            (v, 3int),
        ),
{
    lemma_round_trip_color3b(v.name_color, rest);
}

// ---------------------------------------------------------------------------
// PlayerData
// ---------------------------------------------------------------------------

/// The mutable gameplay state tracked for a player while in a level.
#[derive(Clone, Copy, Debug, PartialEq, Eq, Structural)]
pub struct PlayerData {
    pub percentage: u16,
    pub attempts: i32,
}

impl View for PlayerData {
    type V = PlayerData;

    open spec fn view(&self) -> PlayerData {
        *self
    }
}

impl Default for PlayerData {
    /// A fresh record: no progress, no attempts.
    fn default() -> (d: Self)
        ensures
            d == (PlayerData { percentage: 0, attempts: 0 }),
    {
        PlayerData { percentage: 0, attempts: 0 }
    }
}

impl Encodable for PlayerData {
    open spec fn wire(&self) -> Seq<u8> {
        wire_u16(self.percentage) + wire_i32(self.attempts)
    }

    fn encoded_len(&self) -> (n: usize) {
        PLAYER_DATA_ENCODED_SIZE
    }

    fn encode_to(&self, buf: &mut FastByteBuffer) -> (r: Result<(), EncodeError>) {
        if buf.remaining() < PLAYER_DATA_ENCODED_SIZE {
            return Err(EncodeError::NotEnoughCapacity);
        }
        let r1 = buf.write_u16(self.percentage);
        let r2 = buf.write_i32(self.attempts);
        proof {
            assert(r1 is Ok && r2 is Ok);
            assert(buf.written() =~= old(buf).written() + self.wire());
        }
        Ok(())
    }
}

impl Decodable for PlayerData {
    open spec fn dec(b: Seq<u8>) -> Result<(PlayerData, int), DecodeError> {
        match dec_u16(b) {
            Err(e) => Err(e),
            Ok((percentage, _)) => match dec_i32(b.skip(2)) {
                Err(e) => Err(e),
                Ok((attempts, _)) => Ok((PlayerData { percentage, attempts }, 6int)),
            },
        }
    }

    fn decode_from(reader: &mut ByteReader<'_>) -> (res: Result<PlayerData, DecodeError>) {
        let start = reader.pos();
        let percentage = match reader.read_u16() {
            Ok(v) => v,
            Err(e) => {
                reader.seek(start);
                return Err(e);
            },
        };
        let attempts = match reader.read_i32() {
            Ok(v) => v,
            Err(e) => {
                reader.seek(start);
                return Err(e);
            },
        };
        proof {
            assert(reader.remaining() =~= old(reader).remaining().skip(6));
        }
        Ok(PlayerData { percentage, attempts })
    }
}

/// Round trip: decoding a gameplay record's wire form yields it exactly.
pub proof fn lemma_round_trip_player_data(v: PlayerData, rest: Seq<u8>)
    ensures
        PlayerData::dec(v.wire() + rest) == Ok::<(PlayerData, int), DecodeError>((v, 6int)),
{
    let w1 = wire_u16(v.percentage);
    let w2 = wire_i32(v.attempts);
    let t1 = w2 + rest;
    lemma_concat_assoc(w1, w2, rest);
    let b = v.wire() + rest;
    assert(b == w1 + t1);
    lemma_dec_wire_u16(v.percentage, t1);
    lemma_skip_concat(w1, t1);
    assert(b.skip(2) == t1);
    lemma_dec_wire_i32(v.attempts, rest);
}

// ---------------------------------------------------------------------------
// FastString
// ---------------------------------------------------------------------------

/// A byte string with a declared maximum encoded length. The value itself
/// may hold more bytes than the maximum; encoding silently truncates to the
/// maximum, the deliberate availability-over-fidelity policy of this wire
/// format.
#[derive(Clone, Debug)]
pub struct FastString<const N: usize> {
    pub data: Vec<u8>,
}

impl<const N: usize> FastString<N> {
    /// The declared maximum, capped at what a two-byte length prefix can
    /// express.
    pub open spec fn spec_max() -> int {
        if N as int <= 0xffff {
            N as int
        } else {
            0xffff
        }
    }

    pub fn max_len() -> (m: usize)
        ensures
            m as int == Self::spec_max(),
            m <= 0xffff,
    {
        if N <= 0xffff {
            N
        } else {
            0xffff
        }
    }

    /// Copies the whole slice in, without truncation.
    pub fn from_slice(s: &[u8]) -> (r: Self)
        ensures
            r@ == s@,
    {
        FastString { data: vstd::slice::slice_to_vec(s) }
    }

    pub fn len(&self) -> (n: usize)
        ensures
            n == self@.len(),
    {
        self.data.len()
    }

    /// The held bytes, copied out.
    pub fn to_vec(&self) -> (v: Vec<u8>)
        ensures
            v@ == self@,
    {
        vstd::slice::slice_to_vec(self.data.as_slice())
    }

    /// The view after encoding and decoding once: the held bytes, cut to
    /// the declared maximum.
    pub open spec fn spec_truncated(&self) -> Seq<u8> {
        self@.take(trunc_len(self@.len() as int, Self::spec_max()))
    }
}

impl<const N: usize> View for FastString<N> {
    type V = Seq<u8>;

    open spec fn view(&self) -> Seq<u8> {
        self.data@
    }
}

impl<const N: usize> Encodable for FastString<N> {
    open spec fn wire(&self) -> Seq<u8> {
        wire_bytes(self.data@, Self::spec_max())
    }

    fn encoded_len(&self) -> (n: usize) {
        let m = Self::max_len();
        let l = self.data.len();
        let k = if l <= m {
            l
        } else {
            m
        };
        2 + k
    }

    fn encode_to(&self, buf: &mut FastByteBuffer) -> (r: Result<(), EncodeError>) {
        let m = Self::max_len();
        buf.write_bytes(self.data.as_slice(), m)
    }
}

impl<const N: usize> Decodable for FastString<N> {
    open spec fn dec(b: Seq<u8>) -> Result<(Seq<u8>, int), DecodeError> {
        dec_bytes(b, Self::spec_max())
    }

    fn decode_from(reader: &mut ByteReader<'_>) -> (res: Result<FastString<N>, DecodeError>) {
        let m = Self::max_len();
        match reader.read_bytes(m) {
            Ok(v) => Ok(FastString { data: v }),
            Err(e) => Err(e),
        }
    }
}

/// Round trip: decoding a bounded string's wire form yields its bytes,
/// truncated to the declared maximum when the source was longer.
pub proof fn lemma_round_trip_fast_string<const N: usize>(v: FastString<N>, rest: Seq<u8>)
    ensures
        FastString::<N>::dec(v.wire() + rest) == Ok::<(Seq<u8>, int), DecodeError>(
            (v.spec_truncated(), 2 + v.spec_truncated().len() as int),
        ),
{
    lemma_dec_wire_bytes(v.data@, FastString::<N>::spec_max(), rest);
}

// ---------------------------------------------------------------------------
// FastEncodedAudioFrame
// ---------------------------------------------------------------------------

/// One compressed audio frame, as an opaque bounded byte blob.
#[derive(Clone, Debug)]
pub struct FastEncodedAudioFrame {
    pub data: Vec<u8>,
}

impl FastEncodedAudioFrame {
    /// The view after encoding and decoding once: the held bytes, cut to
    /// the declared maximum.
    pub open spec fn spec_truncated(&self) -> Seq<u8> {
        self@.take(trunc_len(self@.len() as int, MAX_AUDIO_FRAME_SIZE as int))
    }
}

impl View for FastEncodedAudioFrame {
    type V = Seq<u8>;

    open spec fn view(&self) -> Seq<u8> {
        self.data@
    }
}

impl Encodable for FastEncodedAudioFrame {
    open spec fn wire(&self) -> Seq<u8> {
        wire_bytes(self.data@, MAX_AUDIO_FRAME_SIZE as int)
    }

    fn encoded_len(&self) -> (n: usize) {
        let l = self.data.len();
        let k = if l <= MAX_AUDIO_FRAME_SIZE {
            l
        } else {
            MAX_AUDIO_FRAME_SIZE
        };
        2 + k
    }

    fn encode_to(&self, buf: &mut FastByteBuffer) -> (r: Result<(), EncodeError>) {
        buf.write_bytes(self.data.as_slice(), MAX_AUDIO_FRAME_SIZE)
    }
}

impl Decodable for FastEncodedAudioFrame {
    open spec fn dec(b: Seq<u8>) -> Result<(Seq<u8>, int), DecodeError> {
        dec_bytes(b, MAX_AUDIO_FRAME_SIZE as int)
    }

    fn decode_from(reader: &mut ByteReader<'_>) -> (res: Result<FastEncodedAudioFrame,
        DecodeError>) {
        match reader.read_bytes(MAX_AUDIO_FRAME_SIZE) {
            Ok(v) => Ok(FastEncodedAudioFrame { data: v }),
            Err(e) => Err(e),
        }
    }
}

/// Round trip: decoding an audio frame's wire form yields its bytes,
/// truncated to the declared maximum when the source was longer.
pub proof fn lemma_round_trip_audio_frame(v: FastEncodedAudioFrame, rest: Seq<u8>)
    ensures
        FastEncodedAudioFrame::dec(v.wire() + rest) == Ok::<(Seq<u8>, int), DecodeError>(
            (v.spec_truncated(), 2 + v.spec_truncated().len() as int),
        ),
{
    lemma_dec_wire_bytes(v.data@, MAX_AUDIO_FRAME_SIZE as int, rest);
}


// ---------------------------------------------------------------------------
// PlayerAccountData
// ---------------------------------------------------------------------------

/// The full account-facing record for one player: stable identity, display
/// name, icon set, and optional special presentation data.
#[derive(Clone, Debug)]
pub struct PlayerAccountData {
    pub account_id: i32,
    pub name: FastString<MAX_NAME_SIZE>,
    pub icons: PlayerIconData,
    pub special_user_data: Option<SpecialUserData>,
}

/// The abstract value of a `PlayerAccountData`: the name as a plain byte
/// sequence.
pub struct PlayerAccountDataView {
    pub account_id: i32,
    pub name: Seq<u8>,
    pub icons: PlayerIconData,
    pub special_user_data: Option<SpecialUserData>,
}

impl View for PlayerAccountData {
    type V = PlayerAccountDataView;

    open spec fn view(&self) -> PlayerAccountDataView {
        PlayerAccountDataView {
            account_id: self.account_id,
            name: self.name@,
            icons: self.icons,
            special_user_data: self.special_user_data,
        }
    }
}

impl PlayerAccountData {
    /// The view after encoding and decoding once: the name cut to its
    /// declared maximum, everything else unchanged.
    pub open spec fn spec_truncated(&self) -> PlayerAccountDataView {
        PlayerAccountDataView {
            account_id: self.account_id,
            name: self.name.spec_truncated(),
            icons: self.icons,
            special_user_data: self.special_user_data,
        }
    }
}

impl Encodable for PlayerAccountData {
    open spec fn wire(&self) -> Seq<u8> {
        wire_i32(self.account_id) + self.name.wire() + self.icons.wire() + (
        match self.special_user_data {
            Some(s) => wire_bool(true) + s.wire(),
            None => wire_bool(false),
        })
    }

    fn encoded_len(&self) -> (n: usize) {
        let nl = self.name.encoded_len();
        proof {
            assert(self.name.wire().len() <= 34);
        }
        let tail: usize = match self.special_user_data {
            Some(_) => 4,
            None => 1,
        };
        4 + nl + PLAYER_ICON_DATA_ENCODED_SIZE + tail
    }

    fn encode_to(&self, buf: &mut FastByteBuffer) -> (r: Result<(), EncodeError>) {
        let n = self.encoded_len();
        if buf.remaining() < n {
            return Err(EncodeError::NotEnoughCapacity);
        }
        let r1 = buf.write_i32(self.account_id);
        let r2 = self.name.encode_to(buf);
        let r3 = self.icons.encode_to(buf);
        match self.special_user_data {
            Some(s) => {
                let r4 = buf.write_bool(true);
                let r5 = s.encode_to(buf);
                proof {
                    assert(r1 is Ok && r2 is Ok && r3 is Ok && r4 is Ok && r5 is Ok);
                    assert(buf.written() =~= old(buf).written() + self.wire());
                }
            },
            None => {
                let r4 = buf.write_bool(false);
                proof {
                    assert(r1 is Ok && r2 is Ok && r3 is Ok && r4 is Ok);
                    assert(buf.written() =~= old(buf).written() + self.wire());
                }
            },
        }
        Ok(())
    }
}

impl Decodable for PlayerAccountData {
    open spec fn dec(b: Seq<u8>) -> Result<(PlayerAccountDataView, int), DecodeError> {
        match dec_i32(b) {
            Err(e) => Err(e),
            Ok((account_id, _)) => match FastString::<MAX_NAME_SIZE>::dec(b.skip(4)) {
                Err(e) => Err(e),
                Ok((name, n2)) => match PlayerIconData::dec(b.skip(4).skip(n2)) {
                    Err(e) => Err(e),
                    Ok((icons, _)) => match dec_bool(b.skip(4).skip(n2).skip(14)) {
                        Err(e) => Err(e),
                        Ok((present, _)) => if present {
                            match SpecialUserData::dec(b.skip(4).skip(n2).skip(14).skip(1)) {
                                Err(e) => Err(e),
                                Ok((sud, _)) => Ok(
                                    (
                                        PlayerAccountDataView {
                                            account_id,
                                            name,
                                            icons,
                                            special_user_data: Some(sud),
                                        },
                                        4 + n2 + 14 + 1 + 3,
                                    ),
                                ),
                            }
                        } else {
                            Ok(
                                (
                                    PlayerAccountDataView {
                                        account_id,
                                        name,
                                        icons,
                                        special_user_data: None,
                                    },
                                    4 + n2 + 14 + 1,
                                ),
                            )
                        },
                    },
                },
            },
        }
    }

    fn decode_from(reader: &mut ByteReader<'_>) -> (res: Result<PlayerAccountData, DecodeError>) {
        let start = reader.pos();
        let account_id = match reader.read_i32() {
            Ok(v) => v,
            Err(e) => {
                reader.seek(start);
                return Err(e);
            },
        };
        let name = match FastString::<MAX_NAME_SIZE>::decode_from(reader) {
            Ok(v) => v,
            Err(e) => {
                reader.seek(start);
                return Err(e);
            },
        };
        let icons = match PlayerIconData::decode_from(reader) {
            Ok(v) => v,
            Err(e) => {
                reader.seek(start);
                return Err(e);
            },
        };
        let present = match reader.read_bool() {
            Ok(v) => v,
            Err(e) => {
                reader.seek(start);
                return Err(e);
            },
        };
        let special_user_data = if present {
            match SpecialUserData::decode_from(reader) {
                Ok(v) => Some(v),
                Err(e) => {
                    reader.seek(start);
                    return Err(e);
                },
            }
        } else {
            None
        };
        proof {
            let b = old(reader).remaining();
            let n2 = FastString::<MAX_NAME_SIZE>::dec(b.skip(4))->Ok_0.1;
            if present {
                assert(reader.remaining() =~= b.skip(4 + n2 + 14 + 1 + 3));
            } else {
                assert(reader.remaining() =~= b.skip(4 + n2 + 14 + 1));
            }
        }
        Ok(PlayerAccountData { account_id, name, icons, special_user_data })
    }
}

/// The tail of an account record's wire form: the optional special-user
/// part.
pub open spec fn special_wire(o: Option<SpecialUserData>) -> Seq<u8> {
    match o {
        Some(s) => wire_bool(true) + s.wire(),
        None => wire_bool(false),
    }
}

/// The shape of an account record's wire form: the field encodings in
/// order, with the cursor positions after each.
proof fn lemma_account_data_shape(v: PlayerAccountData, rest: Seq<u8>)
    ensures
        v.wire() + rest == wire_i32(v.account_id) + (v.name.wire() + (v.icons.wire()
            + (special_wire(v.special_user_data) + rest))),
        (v.wire() + rest).skip(4) == v.name.wire() + (v.icons.wire() + (special_wire(
            v.special_user_data,
        ) + rest)),
        v.name.wire().len() == 2 + v.name.spec_truncated().len() as int,
        (v.wire() + rest).skip(4).skip(2 + v.name.spec_truncated().len() as int) == v.icons.wire()
            + (special_wire(v.special_user_data) + rest),
        (v.wire() + rest).skip(4).skip(2 + v.name.spec_truncated().len() as int).skip(14)
            == special_wire(v.special_user_data) + rest,
        v.wire().len() == 4 + (2 + v.name.spec_truncated().len() as int) + 14 + special_wire(
            v.special_user_data,
        ).len(),
{
    let w1 = wire_i32(v.account_id);
    let w2 = v.name.wire();
    let w3 = v.icons.wire();
    let w4 = special_wire(v.special_user_data);
    let t3 = w4 + rest;
    let t2 = w3 + t3;
    let t1 = w2 + t2;
    lemma_concat_assoc(w1 + w2 + w3, w4, rest);
    lemma_concat_assoc(w1 + w2, w3, t3);
    lemma_concat_assoc(w1, w2, t2);
    let b = v.wire() + rest;
    assert(b == w1 + t1);
    lemma_skip_concat(w1, t1);
    assert(w2.len() == 2 + v.name.spec_truncated().len() as int);
    lemma_skip_concat(w2, t2);
    lemma_skip_concat(w3, t3);
}

/// Decoding the first three fields of an account record's wire form yields
/// those fields and leaves the optional tail.
proof fn lemma_account_data_prefix(v: PlayerAccountData, rest: Seq<u8>)
    ensures
        dec_i32(v.wire() + rest) == Ok::<(i32, int), DecodeError>((v.account_id, 4int)),
        FastString::<MAX_NAME_SIZE>::dec((v.wire() + rest).skip(4)) == Ok::<
            (Seq<u8>, int),
            DecodeError,
        >((v.name.spec_truncated(), 2 + v.name.spec_truncated().len() as int)),
        PlayerIconData::dec(
            (v.wire() + rest).skip(4).skip(2 + v.name.spec_truncated().len() as int),
        ) == Ok::<(PlayerIconData, int), DecodeError>((v.icons, 14int)),
        (v.wire() + rest).skip(4).skip(2 + v.name.spec_truncated().len() as int).skip(14)
            == special_wire(v.special_user_data) + rest,
        v.wire().len() == 4 + (2 + v.name.spec_truncated().len() as int) + 14 + special_wire(
            v.special_user_data,
        ).len(),
{
    lemma_account_data_shape(v, rest);
    lemma_dec_wire_i32(v.account_id, v.name.wire() + (v.icons.wire() + (special_wire(
        v.special_user_data,
    ) + rest)));
    lemma_round_trip_fast_string::<MAX_NAME_SIZE>(v.name, v.icons.wire() + (special_wire(
        v.special_user_data,
    ) + rest));
    lemma_round_trip_icons(v.icons, special_wire(v.special_user_data) + rest);
}

/// Round trip for the full account record: decoding its wire form yields
/// the record with the name truncated to its declared maximum.
#[verifier::rlimit(100)]
pub proof fn lemma_round_trip_player_account_data(v: PlayerAccountData, rest: Seq<u8>)
    ensures
        PlayerAccountData::dec(v.wire() + rest) == Ok::<(PlayerAccountDataView, int), DecodeError>(
            (v.spec_truncated(), v.wire().len() as int),
        ),
{
    lemma_account_data_prefix(v, rest);
    let b = v.wire() + rest;
    let n2 = 2 + v.name.spec_truncated().len() as int;
    let t3 = b.skip(4).skip(n2).skip(14);
    match v.special_user_data {
        Some(s) => {
            let t4 = s.wire() + rest;
            lemma_concat_assoc(wire_bool(true), s.wire(), rest);
            assert(t3 == wire_bool(true) + t4);
            lemma_dec_wire_bool(true, t4);
            lemma_skip_concat(wire_bool(true), t4);
            assert(t3.skip(1) == t4);
            lemma_round_trip_special(s, rest);
        },
        None => {
            assert(t3 == wire_bool(false) + rest);
            lemma_dec_wire_bool(false, rest);
        },
    }
}

} // verus!
