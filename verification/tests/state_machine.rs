use pandora::error::ProtocolError;
use pandora::packet_manager::PacketManager;
use pandora::packets::{handle_chat, handle_pong, HandshakePacket, PlayerJoinPacket};
use pandora::play::WorldData;
use pandora::state::{
    dispatch, next_state_of, ConnectionState, PacketKind, CHAT_MESSAGE_PACKET, HANDSHAKE_PACKET,
    PONG_PACKET,
};

fn handshake_payload(next_state: i32) -> PacketManager {
    let mut p = PacketManager::empty();
    p.write_var_int_checked(754);
    p.write_string("localhost");
    p.write_unsigned_short(25565);
    p.write_var_int_checked(next_state);
    p
}

#[test]
fn the_table_binds_types_by_state() {
    assert_eq!(dispatch(ConnectionState::Unknown, 0x00), PacketKind::Handshake);
    assert_eq!(dispatch(ConnectionState::Handshake, 0x00), PacketKind::Handshake);
    assert_eq!(dispatch(ConnectionState::Status, 0x00), PacketKind::StatusRequest);
    assert_eq!(dispatch(ConnectionState::Status, 0x01), PacketKind::Ping);
    assert_eq!(dispatch(ConnectionState::Login, 0x00), PacketKind::LoginStart);
    assert_eq!(dispatch(ConnectionState::Play, CHAT_MESSAGE_PACKET), PacketKind::ChatMessage);
}

#[test]
fn what_is_not_in_the_table_is_unknown() {
    assert_eq!(dispatch(ConnectionState::Unknown, 0x01), PacketKind::Unknown);
    assert_eq!(dispatch(ConnectionState::Handshake, 0x7f), PacketKind::Unknown);
    assert_eq!(dispatch(ConnectionState::Status, 0x02), PacketKind::Unknown);
    assert_eq!(dispatch(ConnectionState::Login, 0x01), PacketKind::Unknown);
    assert_eq!(dispatch(ConnectionState::Play, 0x00), PacketKind::Unknown);
    assert_eq!(dispatch(ConnectionState::Play, PONG_PACKET), PacketKind::Unknown);
    assert_eq!(dispatch(ConnectionState::Status, -1), PacketKind::Unknown);
    assert_eq!(HANDSHAKE_PACKET, 0);
}

#[test]
fn only_one_and_two_are_states_to_ask_for() {
    assert_eq!(next_state_of(1), Ok(ConnectionState::Status));
    assert_eq!(next_state_of(2), Ok(ConnectionState::Login));
    for other in [0, 3, 4, -1, 255, i32::MAX, i32::MIN] {
        assert_eq!(next_state_of(other), Err(ProtocolError::IllegalStateTransition));
    }
}

#[test]
fn handshake_with_next_state_one_leads_to_status() {
    let mut state = ConnectionState::Unknown;
    let mut packet = handshake_payload(1);
    assert_eq!(HandshakePacket::new().handle(&mut packet, &mut state), Ok(()));
    assert_eq!(state, ConnectionState::Status);
    assert_eq!(packet.len(), 0);
}

#[test]
fn handshake_with_next_state_two_leads_to_login() {
    let mut state = ConnectionState::Unknown;
    let mut packet = handshake_payload(2);
    assert_eq!(HandshakePacket::new().handle(&mut packet, &mut state), Ok(()));
    assert_eq!(state, ConnectionState::Login);
}

#[test]
fn handshake_with_any_other_next_state_is_illegal() {
    for next in [0, 3, 4, 100, -1] {
        let mut state = ConnectionState::Unknown;
        let mut packet = handshake_payload(next);
        assert_eq!(
            HandshakePacket::new().handle(&mut packet, &mut state),
            Err(ProtocolError::IllegalStateTransition)
        );
        assert_eq!(state, ConnectionState::Unknown);
    }
}

#[test]
fn a_handshake_cut_short_underflows_and_takes_nothing() {
    let whole = handshake_payload(1).to_vec();
    for cut in 0..whole.len() {
        let mut state = ConnectionState::Handshake;
        let mut packet = PacketManager::from_bytes(&whole[..cut]);
        assert_eq!(
            HandshakePacket::new().handle(&mut packet, &mut state),
            Err(ProtocolError::BufferUnderflow),
            "cut at {}",
            cut
        );
        assert_eq!(state, ConnectionState::Handshake);
        assert_eq!(packet.to_vec(), whole[..cut].to_vec());
    }
}

#[test]
fn pong_echoes_the_eight_bytes() {
    let mut packet = PacketManager::from_bytes(&[0x11, 0x22, 0x33, 0x44, 0x55, 0x66, 0x77, 0x88]);
    assert_eq!(
        handle_pong(&mut packet),
        Ok(vec![9, 0x01, 0x11, 0x22, 0x33, 0x44, 0x55, 0x66, 0x77, 0x88])
    );
    let mut high = PacketManager::from_bytes(&[0xff, 0xfe, 0xfd, 0xfc, 0xfb, 0xfa, 0xf9, 0xf8]);
    assert_eq!(
        handle_pong(&mut high),
        Ok(vec![9, 0x01, 0xff, 0xfe, 0xfd, 0xfc, 0xfb, 0xfa, 0xf9, 0xf8])
    );
}

#[test]
fn a_ping_of_seven_bytes_underflows() {
    let mut packet = PacketManager::from_bytes(&[1, 2, 3, 4, 5, 6, 7]);
    assert_eq!(handle_pong(&mut packet), Err(ProtocolError::BufferUnderflow));
    assert_eq!(packet.len(), 7);
}

#[test]
fn chat_is_read_and_not_answered() {
    let mut packet = PacketManager::empty();
    packet.write_string("hello");
    assert_eq!(handle_chat(&mut packet), Ok("hello".to_string()));
    let mut bad = PacketManager::from_bytes(&[3, b'a']);
    assert_eq!(handle_chat(&mut bad), Err(ProtocolError::BufferUnderflow));
}

#[test]
fn login_start_answers_and_enters_play() {
    let world = WorldData { dimension_codec: vec![0x0a, 0x00, 0x00, 0x00], chunks: vec![] };
    let mut packet = PacketManager::empty();
    packet.write_string("Steve");
    let mut state = ConnectionState::Login;
    let frames = PlayerJoinPacket::new()
        .handle(&mut packet, 0x550e8400_e29b_41d4_a716_446655440000, &world, &mut state)
        .unwrap();
    assert_eq!(state, ConnectionState::Play);
    assert_eq!(frames.len(), 3);
    assert_eq!(
        frames[0],
        vec![
            23, 0x02, 0x55, 0x0e, 0x84, 0x00, 0xe2, 0x9b, 0x41, 0xd4, 0xa7, 0x16, 0x44, 0x66,
            0x55, 0x44, 0x00, 0x00, 5, b'S', b't', b'e', b'v', b'e'
        ]
    );
    assert_eq!(frames[1][1], 0x24);
    assert_eq!(frames[2][1], 0x34);
}

#[test]
fn login_start_without_a_name_fails_and_stays() {
    let world = WorldData { dimension_codec: vec![], chunks: vec![] };
    let mut packet = PacketManager::from_bytes(&[5, b'S']);
    let mut state = ConnectionState::Login;
    assert_eq!(
        PlayerJoinPacket::new().handle(&mut packet, 1, &world, &mut state),
        Err(ProtocolError::BufferUnderflow)
    );
    assert_eq!(state, ConnectionState::Login);
}

#[test]
fn errors_say_whether_they_end_the_connection() {
    assert!(!ProtocolError::Incomplete.is_fatal());
    assert!(!ProtocolError::UnknownPacketType.is_fatal());
    for e in [
        ProtocolError::MalformedVarInt,
        ProtocolError::FrameTooLarge,
        ProtocolError::InvalidEncoding,
        ProtocolError::BufferUnderflow,
        ProtocolError::IllegalStateTransition,
        ProtocolError::TransportError,
    ] {
        assert!(e.is_fatal());
    }
    assert_eq!(ProtocolError::BufferUnderflow.message(), "buffer underflow");
    assert_eq!(ProtocolError::Incomplete.message(), "more bytes are needed");
}
