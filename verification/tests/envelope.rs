use globed_game_server::data::ByteReader;
use globed_game_server::data::ChatMessagePacket;
use globed_game_server::data::ClientPacket;
use globed_game_server::data::DecodeError;
use globed_game_server::data::FastByteBuffer;
use globed_game_server::data::FastEncodedAudioFrame;
use globed_game_server::data::FastString;
use globed_game_server::data::LevelJoinPacket;
use globed_game_server::data::LevelLeavePacket;
use globed_game_server::data::PacketDescriptor;
use globed_game_server::data::PlayerData;
use globed_game_server::data::PlayerDataPacket;
use globed_game_server::data::RequestPlayerProfilesPacket;
use globed_game_server::data::VoicePacket;
use globed_game_server::data::packets::descriptor_of;
use globed_game_server::data::packets::decode_client_packet;
use globed_game_server::data::packets::encode_packet;

#[test]
fn identifier_precedes_payload() {
    let mut buf = FastByteBuffer::new(16);
    let p = LevelJoinPacket { level_id: 1 };
    assert!(encode_packet(&p, &mut buf).is_ok());
    // 12001 is 0x2EE1 big-endian, then the payload.
    assert_eq!(buf.as_bytes(), &[0x2e, 0xe1, 0x00, 0x00, 0x00, 0x01]);
}

#[test]
fn descriptors_carry_id_and_confidentiality() {
    assert_eq!(
        descriptor_of::<RequestPlayerProfilesPacket>(),
        PacketDescriptor { id: 12000, requires_confidentiality: false }
    );
    assert_eq!(
        descriptor_of::<LevelJoinPacket>(),
        PacketDescriptor { id: 12001, requires_confidentiality: false }
    );
    assert_eq!(
        descriptor_of::<LevelLeavePacket>(),
        PacketDescriptor { id: 12002, requires_confidentiality: false }
    );
    assert_eq!(
        descriptor_of::<PlayerDataPacket>(),
        PacketDescriptor { id: 12003, requires_confidentiality: false }
    );
    assert_eq!(
        descriptor_of::<VoicePacket>(),
        PacketDescriptor { id: 12010, requires_confidentiality: true }
    );
    assert_eq!(
        descriptor_of::<ChatMessagePacket>(),
        PacketDescriptor { id: 12011, requires_confidentiality: true }
    );
}

#[test]
fn dispatch_round_trip_request_player_profiles() {
    let mut buf = FastByteBuffer::new(16);
    let p = RequestPlayerProfilesPacket { requested: 0 };
    assert!(encode_packet(&p, &mut buf).is_ok());
    let mut reader = ByteReader::from_bytes(buf.as_bytes());
    match decode_client_packet(&mut reader).unwrap() {
        ClientPacket::RequestPlayerProfiles(q) => assert_eq!(q.requested, 0),
        _ => panic!("decoded the wrong payload type"),
    }
}

#[test]
fn dispatch_round_trip_level_join_and_leave() {
    let mut buf = FastByteBuffer::new(16);
    assert!(encode_packet(&LevelJoinPacket { level_id: 9999 }, &mut buf).is_ok());
    assert!(encode_packet(&LevelLeavePacket, &mut buf).is_ok());
    let mut reader = ByteReader::from_bytes(buf.as_bytes());
    match decode_client_packet(&mut reader).unwrap() {
        ClientPacket::LevelJoin(q) => assert_eq!(q.level_id, 9999),
        _ => panic!("decoded the wrong payload type"),
    }
    match decode_client_packet(&mut reader).unwrap() {
        ClientPacket::LevelLeave(_) => {}
        _ => panic!("decoded the wrong payload type"),
    }
}

#[test]
fn dispatch_round_trip_player_data() {
    let mut buf = FastByteBuffer::new(16);
    let p = PlayerDataPacket { data: PlayerData { percentage: 55, attempts: 3 } };
    assert!(encode_packet(&p, &mut buf).is_ok());
    let mut reader = ByteReader::from_bytes(buf.as_bytes());
    match decode_client_packet(&mut reader).unwrap() {
        ClientPacket::PlayerData(q) => {
            assert_eq!(q.data.percentage, 55);
            assert_eq!(q.data.attempts, 3);
        }
        _ => panic!("decoded the wrong payload type"),
    }
}

#[test]
fn dispatch_round_trip_voice() {
    let frame: Vec<u8> = (0..2048u32).map(|i| (i % 239) as u8).collect();
    let mut buf = FastByteBuffer::new(4096);
    let p = VoicePacket { data: FastEncodedAudioFrame { data: frame.clone() } };
    assert!(encode_packet(&p, &mut buf).is_ok());
    let mut reader = ByteReader::from_bytes(buf.as_bytes());
    match decode_client_packet(&mut reader).unwrap() {
        ClientPacket::Voice(q) => assert_eq!(q.data.data, frame),
        _ => panic!("decoded the wrong payload type"),
    }
}

#[test]
fn dispatch_round_trip_chat_message() {
    let mut buf = FastByteBuffer::new(512);
    let p = ChatMessagePacket { message: FastString::from_slice(b"hello level") };
    assert!(encode_packet(&p, &mut buf).is_ok());
    let mut reader = ByteReader::from_bytes(buf.as_bytes());
    match decode_client_packet(&mut reader).unwrap() {
        ClientPacket::ChatMessage(q) => {
            assert_eq!(q.message.to_vec(), b"hello level".to_vec())
        }
        _ => panic!("decoded the wrong payload type"),
    }
}

#[test]
fn unknown_identifier_is_a_recoverable_error() {
    let bytes = [0x00u8, 0x01, 0xaa, 0xbb];
    let mut reader = ByteReader::from_bytes(&bytes);
    assert!(matches!(
        decode_client_packet(&mut reader),
        Err(DecodeError::UnknownPacket)
    ));
    // The cursor did not move; the connection can keep reading.
    assert_eq!(reader.read_value::<u16>().unwrap(), 0x0001);
}

#[test]
fn envelope_too_short_for_identifier() {
    let bytes = [0x2eu8];
    let mut reader = ByteReader::from_bytes(&bytes);
    assert!(matches!(
        decode_client_packet(&mut reader),
        Err(DecodeError::InsufficientData)
    ));
}
