//! The wire-data layer: the fast binary writer and reader, the encodable
//! value model, the concrete value types, and the packet envelope.
pub mod buffers;
pub mod value;
pub mod types;
pub mod packets;
pub mod growable;

pub use buffers::ByteReader;
pub use buffers::DecodeError;
pub use buffers::EncodeError;
pub use buffers::FastByteBuffer;
pub use growable::GrowableByteBuffer;
pub use packets::ChatMessagePacket;
pub use packets::ClientPacket;
pub use packets::ClientPacketView;
pub use packets::LevelJoinPacket;
pub use packets::LevelLeavePacket;
pub use packets::Packet;
pub use packets::PacketDescriptor;
pub use packets::PlayerDataPacket;
pub use packets::RequestPlayerProfilesPacket;
pub use packets::VoicePacket;
pub use types::Color3B;
pub use types::FastEncodedAudioFrame;
pub use types::FastString;
pub use types::MAX_AUDIO_FRAME_SIZE;
pub use types::MAX_MESSAGE_SIZE;
pub use types::MAX_NAME_SIZE;
pub use types::PLAYER_ACCOUNT_DATA_ENCODED_SIZE;
pub use types::PlayerAccountData;
pub use types::PlayerData;
pub use types::PlayerIconData;
pub use types::SpecialUserData;
pub use value::Decodable;
pub use value::Encodable;
