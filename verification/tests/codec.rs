use esda_controller::esda_interface::{DecodeError, ESDAMessage, ESDAMessageID, MESSAGE_SIZE};

const ALL_TOPICS: [(ESDAMessageID, u32); 11] = [
    (ESDAMessageID::SetTargetVelLeft, 1),
    (ESDAMessageID::SetTargetVelRight, 2),
    (ESDAMessageID::CurrentVelLeft, 3),
    (ESDAMessageID::CurrentVelRight, 4),
    (ESDAMessageID::CurrentDSPLeft, 5),
    (ESDAMessageID::CurrentDSPRight, 6),
    (ESDAMessageID::SteerAmount, 7),
    (ESDAMessageID::ESTOP, 8),
    (ESDAMessageID::SetAutonomousMode, 9),
    (ESDAMessageID::MCUState, 16),
    (ESDAMessageID::MCUErrorState, 17),
];

#[test]
fn message_size_is_eight() {
    assert_eq!(MESSAGE_SIZE, 8);
}

#[test]
fn topic_numbers_are_wire_stable() {
    for (id, n) in ALL_TOPICS {
        assert_eq!(id.wire_value(), n);
        assert_eq!(ESDAMessageID::from_wire_value(n), Some(id));
    }
}

#[test]
fn numbers_outside_the_set_are_no_topic() {
    for n in [0u32, 10, 11, 12, 13, 14, 15, 18, 255, 256, 0x0100_0000, u32::MAX] {
        assert_eq!(ESDAMessageID::from_wire_value(n), None);
    }
    let known = (0u32..=1000).filter(|n| ESDAMessageID::from_wire_value(*n).is_some()).count();
    assert_eq!(known, 11);
}

#[test]
fn little_endian_frame_layout() {
    let m = ESDAMessage { id: ESDAMessageID::SteerAmount, data: 1.5f32.to_bits() };
    assert_eq!(m.to_le_bytes(), [7, 0, 0, 0, 0x00, 0x00, 0xC0, 0x3F]);
    let m = ESDAMessage { id: ESDAMessageID::MCUErrorState, data: 0x0102_0304 };
    assert_eq!(m.to_le_bytes(), [17, 0, 0, 0, 4, 3, 2, 1]);
}

#[test]
fn big_endian_frame_layout() {
    let m = ESDAMessage { id: ESDAMessageID::SteerAmount, data: 1.5f32.to_bits() };
    assert_eq!(m.to_be_bytes(), [0, 0, 0, 7, 0x3F, 0xC0, 0x00, 0x00]);
    let m = ESDAMessage { id: ESDAMessageID::MCUErrorState, data: 0x0102_0304 };
    assert_eq!(m.to_be_bytes(), [0, 0, 0, 17, 1, 2, 3, 4]);
}

#[test]
fn frames_agree_with_the_standard_byte_orders() {
    for (id, n) in ALL_TOPICS {
        for value in [0.0f32, -0.0, 1.0, 912.980_4, -1670.0, f32::MAX, f32::MIN_POSITIVE, f32::INFINITY] {
            let m = ESDAMessage { id, data: value.to_bits() };
            let mut le = [0u8; 8];
            le[..4].copy_from_slice(&n.to_le_bytes());
            le[4..].copy_from_slice(&value.to_le_bytes());
            assert_eq!(m.to_le_bytes(), le);
            let mut be = [0u8; 8];
            be[..4].copy_from_slice(&n.to_be_bytes());
            be[4..].copy_from_slice(&value.to_be_bytes());
            assert_eq!(m.to_be_bytes(), be);
        }
    }
}

#[test]
fn decode_little_endian() {
    let r = ESDAMessage::from_le_bytes(&[8, 0, 0, 0, 0x00, 0x00, 0x80, 0x3F]);
    assert_eq!(r, Ok(ESDAMessage { id: ESDAMessageID::ESTOP, data: 0x3F80_0000 }));
    assert_eq!(f32::from_bits(r.unwrap().data), 1.0);
}

#[test]
fn decode_big_endian() {
    let r = ESDAMessage::from_be_bytes(&[0, 0, 0, 16, 0x3F, 0x80, 0x00, 0x00]);
    assert_eq!(r, Ok(ESDAMessage { id: ESDAMessageID::MCUState, data: 0x3F80_0000 }));
}

#[test]
fn byte_order_matters() {
    let frame = [8, 0, 0, 0, 0, 0, 0x80, 0x3F];
    assert!(ESDAMessage::from_le_bytes(&frame).is_ok());
    assert_eq!(ESDAMessage::from_be_bytes(&frame), Err(DecodeError::UnknownTopic));
}

#[test]
fn wrong_length_is_rejected() {
    for len in [0usize, 1, 4, 7, 9, 16, 24] {
        let bytes = vec![1u8; len];
        assert_eq!(ESDAMessage::from_le_bytes(&bytes), Err(DecodeError::WrongLength));
        assert_eq!(ESDAMessage::from_be_bytes(&bytes), Err(DecodeError::WrongLength));
    }
}

#[test]
fn wrong_length_comes_before_unknown_topic() {
    assert_eq!(ESDAMessage::from_le_bytes(&[0, 0, 0, 0, 0, 0, 0]), Err(DecodeError::WrongLength));
    assert_eq!(ESDAMessage::from_be_bytes(&[0; 9]), Err(DecodeError::WrongLength));
}

#[test]
fn unknown_topic_is_rejected() {
    for n in [0u32, 10, 15, 18, 0x0000_0100, 0x0100_0000, 0x0700_0000, u32::MAX] {
        let mut le = [0u8; 8];
        le[..4].copy_from_slice(&n.to_le_bytes());
        assert_eq!(ESDAMessage::from_le_bytes(&le), Err(DecodeError::UnknownTopic));
        let mut be = [0u8; 8];
        be[..4].copy_from_slice(&n.to_be_bytes());
        assert_eq!(ESDAMessage::from_be_bytes(&be), Err(DecodeError::UnknownTopic));
    }
}

#[test]
fn high_topic_bytes_are_read() {
    // The fourth byte of the topic counts: 7 + 2^24 is no topic.
    assert_eq!(
        ESDAMessage::from_le_bytes(&[7, 0, 0, 1, 0, 0, 0, 0]),
        Err(DecodeError::UnknownTopic)
    );
    // The eighth byte of the frame is part of the value.
    let r = ESDAMessage::from_le_bytes(&[7, 0, 0, 0, 1, 2, 3, 4]).unwrap();
    assert_eq!(r.data, 0x0403_0201);
}

#[test]
fn decode_of_encode_is_identity() {
    for (id, _) in ALL_TOPICS {
        for data in [0u32, 1, 0x3F80_0000, 0x4464_3EBF, 0x7FC0_0000, 0xFFFF_FFFF, 0x8000_0000] {
            let m = ESDAMessage { id, data };
            assert_eq!(ESDAMessage::from_le_bytes(&m.to_le_bytes()), Ok(m));
            assert_eq!(ESDAMessage::from_be_bytes(&m.to_be_bytes()), Ok(m));
        }
    }
}

#[test]
fn encode_of_decode_is_identity_on_valid_frames() {
    let frames: [[u8; 8]; 3] = [
        [1, 0, 0, 0, 0xDE, 0xAD, 0xBE, 0xEF],
        [17, 0, 0, 0, 0, 0, 0, 0],
        [9, 0, 0, 0, 0xFF, 0xFF, 0xFF, 0xFF],
    ];
    for f in frames {
        let m = ESDAMessage::from_le_bytes(&f).unwrap();
        assert_eq!(m.to_le_bytes(), f);
        assert_eq!(ESDAMessage::from_le_bytes(&m.to_le_bytes()), Ok(m));
        let mut b = f;
        b[..4].reverse();
        let m = ESDAMessage::from_be_bytes(&b).unwrap();
        assert_eq!(m.to_be_bytes(), b);
        assert_eq!(ESDAMessage::from_be_bytes(&m.to_be_bytes()), Ok(m));
    }
}
