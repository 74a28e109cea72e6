use globed_game_server::data::ByteReader;
use globed_game_server::data::DecodeError;
use globed_game_server::data::EncodeError;
use globed_game_server::data::FastByteBuffer;
use globed_game_server::data::GrowableByteBuffer;
use globed_game_server::data::Color3B;
use globed_game_server::data::Decodable;
use globed_game_server::data::Encodable;
use globed_game_server::data::FastEncodedAudioFrame;
use globed_game_server::data::FastString;
use globed_game_server::data::MAX_AUDIO_FRAME_SIZE;
use globed_game_server::data::MAX_NAME_SIZE;
use globed_game_server::data::PLAYER_ACCOUNT_DATA_ENCODED_SIZE;
use globed_game_server::data::PlayerAccountData;
use globed_game_server::data::PlayerData;
use globed_game_server::data::PlayerIconData;
use globed_game_server::data::SpecialUserData;

#[test]
fn primitive_encodings_are_big_endian() {
    let mut buf = FastByteBuffer::new(16);
    assert!(buf.write_u16(0x1234).is_ok());
    assert!(buf.write_i32(-1).is_ok());
    assert!(buf.write_i32(1).is_ok());
    assert_eq!(
        buf.as_bytes(),
        &[0x12, 0x34, 0xff, 0xff, 0xff, 0xff, 0x00, 0x00, 0x00, 0x01]
    );
}

#[test]
fn primitive_round_trip() {
    let mut buf = FastByteBuffer::new(64);
    assert!(buf.write_value(&234_234_234i32).is_ok());
    assert!(buf.write_value(&(-77i32)).is_ok());
    assert!(buf.write_value(&0xBEEFu16).is_ok());
    assert!(buf.write_value(&true).is_ok());
    assert!(buf.write_value(&false).is_ok());
    let mut reader = ByteReader::from_bytes(buf.as_bytes());
    assert_eq!(reader.read_value::<i32>().unwrap(), 234_234_234);
    assert_eq!(reader.read_value::<i32>().unwrap(), -77);
    assert_eq!(reader.read_value::<u16>().unwrap(), 0xBEEF);
    assert!(reader.read_value::<bool>().unwrap());
    assert!(!reader.read_value::<bool>().unwrap());
}

#[test]
fn capacity_exact_fit_succeeds_and_one_less_fails() {
    // PlayerData encodes to exactly 6 bytes.
    let data = PlayerData { percentage: 100, attempts: 7 };
    assert_eq!(data.encoded_len(), 6);

    let mut exact = FastByteBuffer::new(6);
    assert!(exact.write_value(&data).is_ok());
    assert_eq!(exact.as_bytes().len(), 6);

    let mut short = FastByteBuffer::new(5);
    assert_eq!(
        short.write_value(&data),
        Err(EncodeError::NotEnoughCapacity)
    );
    // No partial mutation is visible beyond the error.
    assert_eq!(short.as_bytes(), &[] as &[u8]);
    // The region is still fully usable after the failure.
    assert!(short.write_u16(1).is_ok());
    assert_eq!(short.as_bytes(), &[0x00, 0x01]);
}

#[test]
fn capacity_many_fixed_values_fill_exactly() {
    let mut buf = FastByteBuffer::new(40);
    for i in 0..10 {
        assert!(buf.write_i32(i).is_ok());
    }
    assert_eq!(buf.as_bytes().len(), 40);
    assert_eq!(buf.write_u8(0), Err(EncodeError::NotEnoughCapacity));
}

#[test]
fn short_buffer_gives_insufficient_data_not_partial_value() {
    let bytes = [0x01u8, 0x02];
    let mut reader = ByteReader::from_bytes(&bytes);
    assert_eq!(reader.read_value::<i32>(), Err(DecodeError::InsufficientData));
    // The cursor did not move: the two bytes still read as one u16.
    assert_eq!(reader.read_value::<u16>().unwrap(), 0x0102);
}

#[test]
fn bounded_string_round_trip_and_truncation() {
    let short = FastString::<{ MAX_NAME_SIZE }>::from_slice(b"hit his is my name");
    let mut buf = FastByteBuffer::new(64);
    assert!(buf.write_value(&short).is_ok());
    let mut reader = ByteReader::from_bytes(buf.as_bytes());
    let back = reader.read_value::<FastString<MAX_NAME_SIZE>>().unwrap();
    assert_eq!(back.to_vec(), b"hit his is my name".to_vec());

    // Longer than the maximum: encoding truncates, a documented policy.
    let long = FastString::<4>::from_slice(b"abcdef");
    let mut buf2 = FastByteBuffer::new(16);
    assert!(buf2.write_value(&long).is_ok());
    assert_eq!(buf2.as_bytes(), &[0x00, 0x04, b'a', b'b', b'c', b'd']);
    let mut reader2 = ByteReader::from_bytes(buf2.as_bytes());
    let back2 = reader2.read_value::<FastString<4>>().unwrap();
    assert_eq!(back2.to_vec(), b"abcd".to_vec());
}

#[test]
fn over_claiming_length_prefix_is_malformed() {
    // Prefix claims 16 bytes but only 2 remain.
    let bytes = [0x00u8, 0x10, b'a', b'b'];
    let mut reader = ByteReader::from_bytes(&bytes);
    assert!(matches!(
        reader.read_value::<FastString<64>>(),
        Err(DecodeError::MalformedLength)
    ));
    // Prefix claims more than the type's declared maximum.
    let bytes2 = [0x00u8, 0x06, b'a', b'b', b'c', b'd', b'e', b'f'];
    let mut reader2 = ByteReader::from_bytes(&bytes2);
    assert!(matches!(
        reader2.read_value::<FastString<4>>(),
        Err(DecodeError::MalformedLength)
    ));
}

#[test]
fn audio_frame_round_trip() {
    let data: Vec<u8> = (0..2048u32).map(|i| (i % 251) as u8).collect();
    let frame = FastEncodedAudioFrame { data: data.clone() };
    assert!(frame.encoded_len() <= 2 + MAX_AUDIO_FRAME_SIZE);
    let mut buf = FastByteBuffer::new(3000);
    assert!(buf.write_value(&frame).is_ok());
    let mut reader = ByteReader::from_bytes(buf.as_bytes());
    let back = reader.read_value::<FastEncodedAudioFrame>().unwrap();
    assert_eq!(back.data, data);
}

#[test]
fn player_account_data_round_trip_with_and_without_special() {
    let with = PlayerAccountData {
        account_id: 234_234_234,
        name: FastString::from_slice(b"hit his is my name"),
        icons: PlayerIconData::default(),
        special_user_data: Some(SpecialUserData {
            name_color: Color3B { r: 10, g: 100, b: 200 },
        }),
    };
    assert!(with.encoded_len() <= PLAYER_ACCOUNT_DATA_ENCODED_SIZE);
    let mut buf = FastByteBuffer::new(PLAYER_ACCOUNT_DATA_ENCODED_SIZE);
    assert!(buf.write_value(&with).is_ok());
    let mut reader = ByteReader::from_bytes(buf.as_bytes());
    let back = reader.read_value::<PlayerAccountData>().unwrap();
    assert_eq!(back.account_id, 234_234_234);
    assert_eq!(back.name.to_vec(), b"hit his is my name".to_vec());
    assert_eq!(back.icons, PlayerIconData::default());
    assert_eq!(
        back.special_user_data,
        Some(SpecialUserData { name_color: Color3B { r: 10, g: 100, b: 200 } })
    );

    let without = PlayerAccountData {
        account_id: -5,
        name: FastString::from_slice(b""),
        icons: PlayerIconData { cube: 2, ship: 3, ball: 4, color1: 5, color2: 6 },
        special_user_data: None,
    };
    let mut buf2 = FastByteBuffer::new(64);
    assert!(buf2.write_value(&without).is_ok());
    let mut reader2 = ByteReader::from_bytes(buf2.as_bytes());
    let back2 = reader2.read_value::<PlayerAccountData>().unwrap();
    assert_eq!(back2.account_id, -5);
    assert_eq!(back2.name.to_vec(), Vec::<u8>::new());
    assert_eq!(back2.icons.ship, 3);
    assert_eq!(back2.special_user_data, None);
}

#[test]
fn many_account_records_fit_a_sized_region() {
    // The hot-path pattern: a region sized from the maximum encoded size
    // holds a full batch of records.
    let data = PlayerAccountData {
        account_id: 234_234_234,
        name: FastString::from_slice(b"hit his is my name"),
        icons: PlayerIconData::default(),
        special_user_data: Some(SpecialUserData {
            name_color: Color3B { r: 10, g: 100, b: 200 },
        }),
    };
    let mut buf = FastByteBuffer::new(PLAYER_ACCOUNT_DATA_ENCODED_SIZE * 64);
    for _ in 0..64 {
        assert!(buf.write_value(&data).is_ok());
    }
    let mut reader = ByteReader::from_bytes(buf.as_bytes());
    for _ in 0..64 {
        let back = reader.read_value::<PlayerAccountData>().unwrap();
        assert_eq!(back.account_id, data.account_id);
    }
}

#[test]
fn growable_buffer_matches_fixed_writer() {
    let data = PlayerData { percentage: 1, attempts: 2 };
    let mut slow = GrowableByteBuffer::new();
    slow.write_value(&data);
    slow.write_value(&0x0403i32);
    assert_eq!(
        slow.as_bytes(),
        &[0x00, 0x01, 0x00, 0x00, 0x00, 0x02, 0x00, 0x00, 0x04, 0x03]
    );

    let mut fast = FastByteBuffer::new(16);
    assert!(fast.write_value(&data).is_ok());
    assert!(fast.write_value(&0x0403i32).is_ok());
    assert_eq!(slow.as_bytes(), fast.as_bytes());
}
