use pandora::chunk::{chunk_coordinates, Chunk, CHUNK_RADIUS};
use pandora::codec::{Decode, Encode};
use pandora::config::Config;
use pandora::context::ServerContext;
use pandora::error::ProtocolError;
use pandora::packet_manager::PacketManager;
use pandora::play::{
    join_game_frame, keep_alive_frame, login_success_frame, play_entry_frames,
    player_position_frame, WorldData, DEFAULT_SESSION_UUID, SPAWN_HEIGHT_BITS,
};
use pandora::status::{status_frame, status_json, PROTOCOL_VERSION};
use pandora::structs::{ClientHandshakeRequest, HandshakePacket};
use pandora::text::{hex_value_of, parse_uuid, signed_decimal, to_hex};
use pandora::varint::VarInt;

fn blob(header_a: i32, header_b: i32, body: &[u8]) -> Vec<u8> {
    let mut p = PacketManager::empty();
    p.write_var_int_checked(header_a);
    p.write_var_int_checked(header_b);
    p.write_int(12);
    p.write_int(34);
    p.write_bytes(body);
    p.to_vec()
}

#[test]
fn chunk_new_keeps_its_parts() {
    let c = Chunk::new(3, -4, vec![1, 2, 3]);
    assert_eq!(c.x, 3);
    assert_eq!(c.z, -4);
    assert_eq!(c.data, vec![1, 2, 3]);
}

#[test]
fn chunk_frame_replaces_the_header_with_the_coordinates() {
    let c = Chunk::new(1, -1, blob(5, 1000, &[0xde, 0xad]));
    assert_eq!(
        c.frame(),
        Ok(vec![11, 0x20, 0, 0, 0, 1, 0xff, 0xff, 0xff, 0xff, 0xde, 0xad])
    );
    let empty = Chunk::new(0, 0, blob(0, 0, &[]));
    assert_eq!(empty.frame(), Ok(vec![9, 0x20, 0, 0, 0, 0, 0, 0, 0, 0]));
}

#[test]
fn a_chunk_blob_too_short_for_its_header_underflows() {
    let whole = blob(5, 1000, &[]);
    for cut in 0..whole.len() {
        let c = Chunk::new(0, 0, whole[..cut].to_vec());
        assert_eq!(c.frame(), Err(ProtocolError::BufferUnderflow), "cut at {}", cut);
    }
    let bad = Chunk::new(0, 0, vec![0x80, 0x80, 0x80, 0x80, 0x80, 0x00]);
    assert_eq!(bad.frame(), Err(ProtocolError::MalformedVarInt));
}

#[test]
fn join_game_frame_layout() {
    let frame = join_game_frame(&[0xc0, 0xde]).unwrap();
    let name = b"minecraft:overworld";
    let mut expected: Vec<u8> = vec![0, 0, 0, 0, 1, 1, 0xff, 3, 19];
    expected.extend(name);
    expected.extend([0xc0, 0xde]);
    expected.push(19);
    expected.extend(name);
    expected.extend([0, 0, 0, 0, 0, 0, 0, 1]);
    expected.extend([0, 0, 0, 0, 0, 0, 0, 10]);
    expected.extend([0, 0, 0, 0, 0, 0, 0, 10]);
    expected.extend([0, 1, 0, 1]);
    assert_eq!(frame[0] as usize, expected.len() + 1);
    assert_eq!(frame[1], 0x24);
    assert_eq!(&frame[2..], &expected[..]);
}

#[test]
fn position_frame_layout() {
    let frame = player_position_frame(
        1.0f64.to_bits(),
        SPAWN_HEIGHT_BITS,
        (-2.5f64).to_bits(),
        90.0f32.to_bits(),
        0.0f32.to_bits(),
        1,
        300,
    );
    assert_eq!(
        frame,
        vec![
            36, 0x34, 0x3f, 0xf0, 0, 0, 0, 0, 0, 0, 0x40, 0x50, 0, 0, 0, 0, 0, 0, 0xc0, 0x04, 0,
            0, 0, 0, 0, 0, 0x42, 0xb4, 0, 0, 0, 0, 0, 0, 1, 0xac, 0x02
        ]
    );
    assert_eq!(f64::from_bits(SPAWN_HEIGHT_BITS), 64.0);
}

#[test]
fn keep_alive_frame_layout() {
    assert_eq!(keep_alive_frame(0), vec![9, 0x1f, 0, 0, 0, 0, 0, 0, 0, 0]);
    assert_eq!(
        keep_alive_frame(-2),
        vec![9, 0x1f, 0xff, 0xff, 0xff, 0xff, 0xff, 0xff, 0xff, 0xfe]
    );
}

#[test]
fn login_success_frame_layout() {
    assert_eq!(
        login_success_frame(DEFAULT_SESSION_UUID, "Steve"),
        Ok(vec![
            23, 0x02, 0x55, 0x0e, 0x84, 0x00, 0xe2, 0x9b, 0x41, 0xd4, 0xa7, 0x16, 0x44, 0x66,
            0x55, 0x44, 0x00, 0x00, 5, b'S', b't', b'e', b'v', b'e'
        ])
    );
    assert_eq!(
        login_success_frame(u128::MAX, ""),
        Ok(vec![
            18, 0x02, 0xff, 0xff, 0xff, 0xff, 0xff, 0xff, 0xff, 0xff, 0xff, 0xff, 0xff, 0xff,
            0xff, 0xff, 0xff, 0xff, 0
        ])
    );
}

#[test]
fn play_entry_frames_come_in_order() {
    let world = WorldData {
        dimension_codec: vec![1, 2, 3],
        chunks: vec![Chunk::new(0, 0, blob(1, 2, &[7])), Chunk::new(5, 6, blob(1, 2, &[8]))],
    };
    let frames = play_entry_frames(&world).unwrap();
    assert_eq!(frames.len(), 4);
    assert_eq!(frames[0], join_game_frame(&[1, 2, 3]).unwrap());
    assert_eq!(frames[1], vec![10, 0x20, 0, 0, 0, 0, 0, 0, 0, 0, 7]);
    assert_eq!(frames[2], vec![10, 0x20, 0, 0, 0, 5, 0, 0, 0, 6, 8]);
    assert_eq!(frames[3], player_position_frame(0, SPAWN_HEIGHT_BITS, 0, 0, 0, 0, 0));
}

#[test]
fn play_entry_fails_with_the_first_bad_chunk() {
    let world = WorldData {
        dimension_codec: vec![],
        chunks: vec![
            Chunk::new(0, 0, blob(1, 2, &[7])),
            Chunk::new(0, 1, vec![0x80, 0x80, 0x80, 0x80, 0x80, 0x00]),
            Chunk::new(0, 2, vec![]),
        ],
    };
    assert_eq!(play_entry_frames(&world), Err(ProtocolError::MalformedVarInt));
    let empty = WorldData { dimension_codec: vec![], chunks: vec![] };
    assert_eq!(play_entry_frames(&empty).unwrap().len(), 2);
}

#[test]
fn status_json_has_the_exact_shape() {
    assert_eq!(
        status_json(100, 0, "\"A Minecraft server\""),
        "{\"version\":{\"name\":\"1.16.5\",\"protocol\":754},\"players\":{\"max\":100,\"online\":0},\"description\":{\"text\":\"A Minecraft server\"}}"
    );
    assert_eq!(
        status_json(0, 4294967295, "\"\""),
        "{\"version\":{\"name\":\"1.16.5\",\"protocol\":754},\"players\":{\"max\":0,\"online\":4294967295},\"description\":{\"text\":\"\"}}"
    );
    assert_eq!(PROTOCOL_VERSION, 754);
}

#[test]
fn status_frame_is_a_string_field_in_a_frame() {
    let json = status_json(9, 10, "\"x\"");
    let frame = status_frame(9, 10, "\"x\"").unwrap();
    let mut expected = PacketManager::empty();
    expected.write_string(&json);
    assert_eq!(frame, expected.build_packet(0x00).to_vec());
}

#[test]
fn the_context_quotes_the_description() {
    let config = Config {
        host: "0.0.0.0".to_string(),
        port: 1,
        max_players: 5,
        motd: "line\nbreak \\ \"q\" é".to_string(),
    };
    let world = WorldData { dimension_codec: vec![9], chunks: vec![] };
    let ctx = ServerContext::new(&config, 2, world);
    assert_eq!(ctx.max_players, 5);
    assert_eq!(ctx.online, 2);
    assert_eq!(ctx.description, "\"line\\nbreak \\\\ \\\"q\\\" é\"");
    assert_eq!(ctx.world.dimension_codec, vec![9]);
    let json = status_json(ctx.max_players, ctx.online, &ctx.description);
    let value: serde_json::Value = serde_json::from_str(&json).unwrap();
    assert_eq!(value["description"]["text"].as_str(), Some("line\nbreak \\ \"q\" é"));
}

#[test]
fn handshake_packet_decodes_its_fields_in_order() {
    let mut p = PacketManager::empty();
    p.write_var_int_checked(754);
    p.write_string("localhost");
    p.write_unsigned_short(25565);
    p.write_var_int_checked(1);
    p.write_unsigned_byte(0xee);
    let h = HandshakePacket::decode(&mut p).unwrap();
    assert_eq!(h.protocol_version, VarInt::new(754));
    assert_eq!(h.server_address, "localhost");
    assert_eq!(h.server_port, 25565);
    assert_eq!(h.next_state, VarInt::new(1));
    assert_eq!(p.to_vec(), vec![0xee]);
}

#[test]
fn handshake_packet_decode_takes_nothing_when_it_fails() {
    let mut p = PacketManager::from_bytes(&[0xf2, 0x05, 0x02, 0xc3, 0x28, 0x63, 0xdd, 0x01]);
    assert_eq!(HandshakePacket::decode(&mut p).unwrap_err(), ProtocolError::InvalidEncoding);
    assert_eq!(p.len(), 8);
}

#[test]
fn client_handshake_request_encodes_as_a_frame() {
    let request = ClientHandshakeRequest { packet_id: VarInt::new(0), res_json: "{}".to_string() };
    assert_eq!(request.encode(), Ok(vec![4, 0x00, 2, b'{', b'}']));
    let other = ClientHandshakeRequest { packet_id: VarInt::new(300), res_json: String::new() };
    assert_eq!(other.encode(), Ok(vec![3, 0xac, 0x02, 0]));
}

#[test]
fn field_types_decode_from_a_packet() {
    let mut p = PacketManager::from_bytes(&[
        1, 0xab, 0x63, 0xdd, 0xff, 0xfe, 0x01, 0x02, 0x03, 0x04, 0xff, 0xff, 0xff, 0xff, 0, 0, 0,
        0, 0, 0, 0, 9, 2, b'h', b'i', 0xac, 0x02,
    ]);
    assert_eq!(bool::decode(&mut p), Ok(true));
    assert_eq!(u8::decode(&mut p), Ok(0xab));
    assert_eq!(u16::decode(&mut p), Ok(25565));
    assert_eq!(i16::decode(&mut p), Ok(-2));
    assert_eq!(u32::decode(&mut p), Ok(0x01020304));
    assert_eq!(i32::decode(&mut p), Ok(-1));
    assert_eq!(i64::decode(&mut p), Ok(9));
    assert_eq!(String::decode(&mut p), Ok("hi".to_string()));
    assert_eq!(VarInt::decode(&mut p), Ok(VarInt::new(300)));
    assert_eq!(u8::decode(&mut p), Err(ProtocolError::BufferUnderflow));
    assert_eq!(VarInt::decode(&mut p), Err(ProtocolError::BufferUnderflow));
}

#[test]
fn field_types_encode_to_a_packet() {
    let mut p = PacketManager::empty();
    true.encode(&mut p);
    0xabu8.encode(&mut p);
    25565u16.encode(&mut p);
    0x01020304u32.encode(&mut p);
    (-1i32).encode(&mut p);
    9i64.encode(&mut p);
    "hi".to_string().encode(&mut p);
    VarInt::new(300).encode(&mut p);
    assert_eq!(
        p.to_vec(),
        vec![
            1, 0xab, 0x63, 0xdd, 0x01, 0x02, 0x03, 0x04, 0xff, 0xff, 0xff, 0xff, 0, 0, 0, 0, 0,
            0, 0, 9, 2, b'h', b'i', 0xac, 0x02
        ]
    );
}

#[test]
fn hex_helpers() {
    assert_eq!(to_hex(&[]), "");
    assert_eq!(to_hex(&[0x00, 0x0f, 0xa0, 0xff]), "000fa0ff");
    assert_eq!(hex_value_of(b'0'), Some(0));
    assert_eq!(hex_value_of(b'9'), Some(9));
    assert_eq!(hex_value_of(b'a'), Some(10));
    assert_eq!(hex_value_of(b'F'), Some(15));
    assert_eq!(hex_value_of(b'g'), None);
    assert_eq!(hex_value_of(b'/'), None);
    assert_eq!(hex_value_of(b':'), None);
    assert_eq!(hex_value_of(b'@'), None);
    assert_eq!(hex_value_of(b'G'), None);
    assert_eq!(hex_value_of(b'`'), None);
    assert_eq!(parse_uuid("--00000000000000000000000000000001--"), Some(vec![0, 0, 0, 0, 0, 0, 0, 0, 0, 0, 0, 0, 0, 0, 0, 1]));
    assert_eq!(parse_uuid("0000000000000000000000000000001"), None);
}

#[test]
fn chunk_coordinates_cover_the_square_row_by_row() {
    assert_eq!(chunk_coordinates(0), vec![(0, 0)]);
    assert_eq!(
        chunk_coordinates(1),
        vec![(-1, -1), (-1, 0), (-1, 1), (0, -1), (0, 0), (0, 1), (1, -1), (1, 0), (1, 1)]
    );
    assert_eq!(chunk_coordinates(2).len(), 25);
    assert_eq!(chunk_coordinates(255).len(), 511 * 511);
    assert_eq!(chunk_coordinates(255)[0], (-255, -255));
    assert_eq!(chunk_coordinates(255)[511 * 511 - 1], (255, 255));
    assert_eq!(chunk_coordinates(CHUNK_RADIUS), vec![(0, 0)]);
}

#[test]
fn signed_decimal_text() {
    assert_eq!(signed_decimal(0), "0");
    assert_eq!(signed_decimal(10), "10");
    assert_eq!(signed_decimal(-10), "-10");
    assert_eq!(signed_decimal(1000000007), "1000000007");
}

#[test]
fn lists_decode_with_a_count_in_front() {
    let mut p = PacketManager::from_bytes(&[0, 3, 10, 20, 30, 0xee]);
    assert_eq!(Vec::<u8>::decode(&mut p), Ok(vec![10, 20, 30]));
    assert_eq!(p.to_vec(), vec![0xee]);

    let mut ints = PacketManager::from_bytes(&[0, 2, 0, 0, 0, 1, 0xff, 0xff, 0xff, 0xff]);
    assert_eq!(Vec::<i32>::decode(&mut ints), Ok(vec![1, -1]));

    let mut texts = PacketManager::from_bytes(&[0, 2, 2, b'h', b'i', 0]);
    assert_eq!(Vec::<String>::decode(&mut texts), Ok(vec!["hi".to_string(), String::new()]));

    let mut nested = PacketManager::from_bytes(&[0, 2, 0, 1, 7, 0, 0]);
    assert_eq!(Vec::<Vec<u8>>::decode(&mut nested), Ok(vec![vec![7], vec![]]));

    let mut empty = PacketManager::from_bytes(&[0, 0]);
    assert_eq!(Vec::<i64>::decode(&mut empty), Ok(vec![]));
}

#[test]
fn a_list_cut_short_takes_nothing() {
    let mut p = PacketManager::from_bytes(&[0, 3, 10, 20]);
    assert_eq!(Vec::<u8>::decode(&mut p), Err(ProtocolError::BufferUnderflow));
    assert_eq!(p.len(), 4);
    let mut q = PacketManager::from_bytes(&[0]);
    assert_eq!(Vec::<u8>::decode(&mut q), Err(ProtocolError::BufferUnderflow));
    let mut bad = PacketManager::from_bytes(&[0, 2, 1, b'a', 1, 0xff]);
    assert_eq!(Vec::<String>::decode(&mut bad), Err(ProtocolError::InvalidEncoding));
    assert_eq!(bad.len(), 6);
}

#[test]
fn the_context_of_a_plain_description() {
    let config = Config {
        host: "0.0.0.0".to_string(),
        port: 1,
        max_players: 8,
        motd: String::new(),
    };
    let world = WorldData { dimension_codec: vec![], chunks: vec![] };
    let ctx = ServerContext::new(&config, 3, world);
    assert_eq!(ctx.description, "\"\"");
    let control = Config {
        host: String::new(),
        port: 0,
        max_players: 0,
        motd: "\u{1}\t/ ünï \u{1F600}".to_string(),
    };
    let other = ServerContext::new(&control, 0, WorldData { dimension_codec: vec![], chunks: vec![] });
    assert_eq!(other.description, "\"\\u0001\\t/ ünï \u{1F600}\"");
}
