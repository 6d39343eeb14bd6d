use bytes::BytesMut;
use pandora::error::ProtocolError;
use pandora::packet_manager::PacketManager;
use pandora::varint::VarInt;

fn over(bytes: &[u8]) -> PacketManager {
    PacketManager::new(BytesMut::from(bytes), 0)
}

#[test]
fn new_keeps_buffer_and_offset() {
    let p = PacketManager::new(BytesMut::from(&[1u8, 2, 3][..]), 7);
    assert_eq!(&p.get_buffer()[..], &[1, 2, 3]);
    assert_eq!(p.get_offset(), 7);
    assert_eq!(p.len(), 3);
}

#[test]
fn ensure_available_bytes_compares_with_what_is_left() {
    let p = over(&[1, 2, 3]);
    assert!(p.ensure_available_bytes(0));
    assert!(p.ensure_available_bytes(3));
    assert!(!p.ensure_available_bytes(4));
}

#[test]
fn read_boolean_is_nonzero() {
    let mut p = over(&[0x00, 0x01, 0x7f, 0xff]);
    assert_eq!(p.read_boolean(), Ok(false));
    assert_eq!(p.read_boolean(), Ok(true));
    assert_eq!(p.read_boolean(), Ok(true));
    assert_eq!(p.read_boolean(), Ok(true));
    assert_eq!(p.read_boolean(), Err(ProtocolError::BufferUnderflow));
}

#[test]
fn read_bytes_signed_and_unsigned() {
    let mut p = over(&[0xff, 0xff, 0x80, 0x7f]);
    assert_eq!(p.read_byte(), Ok(-1));
    assert_eq!(p.read_unsigned_byte(), Ok(255));
    assert_eq!(p.read_byte(), Ok(-128));
    assert_eq!(p.read_byte(), Ok(127));
    assert_eq!(p.read_byte(), Err(ProtocolError::BufferUnderflow));
    assert_eq!(p.read_unsigned_byte(), Err(ProtocolError::BufferUnderflow));
}

#[test]
fn read_short_is_big_endian() {
    let mut p = over(&[0x01, 0x02, 0xff, 0xfe, 0x63, 0xdd, 0x80, 0x00]);
    assert_eq!(p.read_short(), Ok(0x0102));
    assert_eq!(p.read_short(), Ok(-2));
    assert_eq!(p.read_unsigned_short(), Ok(25565));
    assert_eq!(p.read_unsigned_short(), Ok(0x8000));
    assert_eq!(p.len(), 0);
}

#[test]
fn read_int_and_long_are_big_endian() {
    let mut p = over(&[
        0x01, 0x02, 0x03, 0x04, 0xff, 0xff, 0xff, 0xfe, 0x11, 0x22, 0x33, 0x44, 0x55, 0x66, 0x77,
        0x88, 0x80, 0, 0, 0, 0, 0, 0, 0,
    ]);
    assert_eq!(p.read_int(), Ok(0x01020304));
    assert_eq!(p.read_int(), Ok(-2));
    assert_eq!(p.read_long(), Ok(0x1122334455667788));
    assert_eq!(p.read_long(), Ok(i64::MIN));
}

#[test]
fn fixed_width_reads_underflow_without_taking_anything() {
    let mut p = over(&[0x01]);
    assert_eq!(p.read_short(), Err(ProtocolError::BufferUnderflow));
    assert_eq!(p.read_unsigned_short(), Err(ProtocolError::BufferUnderflow));
    assert_eq!(p.read_int(), Err(ProtocolError::BufferUnderflow));
    assert_eq!(p.read_long(), Err(ProtocolError::BufferUnderflow));
    assert_eq!(p.read_float_bits(), Err(ProtocolError::BufferUnderflow));
    assert_eq!(p.read_double_bits(), Err(ProtocolError::BufferUnderflow));
    assert_eq!(p.read_uuid(), Err(ProtocolError::BufferUnderflow));
    assert_eq!(p.to_vec(), vec![0x01]);
    assert_eq!(p.read_unsigned_byte(), Ok(1));
}

#[test]
fn a_seven_byte_long_is_an_underflow() {
    let mut p = over(&[1, 2, 3, 4, 5, 6, 7]);
    assert_eq!(p.read_long(), Err(ProtocolError::BufferUnderflow));
    assert_eq!(p.len(), 7);
}

#[test]
fn float_bits_travel_unchanged() {
    let mut p = PacketManager::empty();
    p.write_float_bits(1.5f32.to_bits());
    p.write_double_bits(64.0f64.to_bits());
    p.write_float_bits(f32::NAN.to_bits());
    assert_eq!(
        p.to_vec(),
        vec![0x3f, 0xc0, 0, 0, 0x40, 0x50, 0, 0, 0, 0, 0, 0, 0x7f, 0xc0, 0, 0]
    );
    assert_eq!(f32::from_bits(p.read_float_bits().unwrap()), 1.5);
    assert_eq!(f64::from_bits(p.read_double_bits().unwrap()), 64.0);
    assert_eq!(p.read_float_bits(), Ok(f32::NAN.to_bits()));
}

#[test]
fn writes_append_in_order() {
    let mut p = PacketManager::empty();
    p.write_boolean(true);
    p.write_boolean(false);
    p.write_byte(-1);
    p.write_unsigned_byte(0xab);
    p.write_short(-2);
    p.write_unsigned_short(25565);
    p.write_int(0x01020304);
    p.write_long(0x1122334455667788);
    assert_eq!(
        p.to_vec(),
        vec![
            0x01, 0x00, 0xff, 0xab, 0xff, 0xfe, 0x63, 0xdd, 0x01, 0x02, 0x03, 0x04, 0x11, 0x22,
            0x33, 0x44, 0x55, 0x66, 0x77, 0x88
        ]
    );
    assert_eq!(p.get_offset(), 0);
}

#[test]
fn negative_numbers_are_written_as_their_bit_patterns() {
    let mut p = PacketManager::empty();
    p.write_int(-1);
    p.write_long(i64::MIN);
    p.write_short(i16::MIN);
    p.write_byte(i8::MIN);
    assert_eq!(
        p.to_vec(),
        vec![0xff, 0xff, 0xff, 0xff, 0x80, 0, 0, 0, 0, 0, 0, 0, 0x80, 0x00, 0x80]
    );
}

#[test]
fn what_is_written_is_read_back() {
    let mut p = PacketManager::empty();
    p.write_boolean(true);
    p.write_byte(-100);
    p.write_unsigned_byte(200);
    p.write_short(-12345);
    p.write_unsigned_short(54321);
    p.write_int(-123456789);
    p.write_long(-1234567890123456789);
    p.write_var_int_checked(300);
    p.write_var_int(&VarInt::new(-7));
    p.write_var_long(-9);
    p.write_string("héllo, wörld");
    assert_eq!(p.read_boolean(), Ok(true));
    assert_eq!(p.read_byte(), Ok(-100));
    assert_eq!(p.read_unsigned_byte(), Ok(200));
    assert_eq!(p.read_short(), Ok(-12345));
    assert_eq!(p.read_unsigned_short(), Ok(54321));
    assert_eq!(p.read_int(), Ok(-123456789));
    assert_eq!(p.read_long(), Ok(-1234567890123456789));
    assert_eq!(p.read_var_int(), Ok(VarInt::new(300)));
    assert_eq!(p.read_var_int_checked(), Some(-7));
    assert_eq!(p.read_var_long(), Ok(-9));
    assert_eq!(p.read_string(), Ok("héllo, wörld".to_string()));
    assert_eq!(p.len(), 0);
}

#[test]
fn read_var_int_takes_only_its_own_bytes() {
    let mut p = over(&[0xdd, 0xc7, 0x01, 0x05]);
    let v = p.read_var_int().unwrap();
    assert_eq!(v.to_i32(), 25565);
    assert_eq!(v.length(), 3);
    assert_eq!(p.to_vec(), vec![0x05]);
}

#[test]
fn read_var_int_in_a_packet_underflows_or_is_malformed() {
    let mut p = over(&[0x80, 0x80]);
    assert_eq!(p.read_var_int(), Err(ProtocolError::BufferUnderflow));
    assert_eq!(p.read_var_int_checked(), None);
    assert_eq!(p.len(), 2);
    let mut q = over(&[0xff, 0xff, 0xff, 0xff, 0xff, 0x01]);
    assert_eq!(q.read_var_int(), Err(ProtocolError::MalformedVarInt));
    assert_eq!(q.read_var_int_checked(), None);
    assert_eq!(q.len(), 6);
    let mut e = over(&[]);
    assert_eq!(e.read_var_int(), Err(ProtocolError::BufferUnderflow));
}

#[test]
fn read_var_long_limits() {
    let mut p = over(&[0xff, 0xff, 0xff, 0xff, 0xff, 0xff, 0xff, 0xff, 0xff, 0x01]);
    assert_eq!(p.read_var_long(), Ok(-1));
    let mut q = over(&[0x80; 10]);
    assert_eq!(q.read_var_long(), Err(ProtocolError::MalformedVarInt));
    let mut r = over(&[0x80; 3]);
    assert_eq!(r.read_var_long(), Err(ProtocolError::BufferUnderflow));
    assert_eq!(r.len(), 3);
}

#[test]
fn write_string_is_length_then_utf8() {
    let mut p = PacketManager::empty();
    p.write_string("localhost");
    assert_eq!(p.to_vec(), vec![9, b'l', b'o', b'c', b'a', b'l', b'h', b'o', b's', b't']);
    let mut q = PacketManager::empty();
    q.write_string("");
    assert_eq!(q.to_vec(), vec![0]);
    let mut r = PacketManager::empty();
    r.write_string("é");
    assert_eq!(r.to_vec(), vec![2, 0xc3, 0xa9]);
}

#[test]
fn long_strings_get_a_two_byte_length() {
    let text = "x".repeat(200);
    let mut p = PacketManager::empty();
    p.write_string(&text);
    let bytes = p.to_vec();
    assert_eq!(&bytes[..2], &[0xc8, 0x01]);
    assert_eq!(bytes.len(), 202);
    assert_eq!(p.read_string(), Ok(text));
}

#[test]
fn try_write_string_writes_what_fits() {
    let mut p = PacketManager::empty();
    assert_eq!(p.try_write_string("Steve"), Ok(()));
    assert_eq!(p.to_vec(), vec![5, b'S', b't', b'e', b'v', b'e']);
}

#[test]
fn read_string_rejects_invalid_utf8() {
    let mut p = over(&[2, 0xc3, 0x28, 0x01]);
    assert_eq!(p.read_string(), Err(ProtocolError::InvalidEncoding));
    assert_eq!(p.len(), 4);
    let mut q = over(&[1, 0xff]);
    assert_eq!(q.read_string(), Err(ProtocolError::InvalidEncoding));
}

#[test]
fn read_string_underflows_when_the_text_is_cut_short() {
    let mut p = over(&[5, b'a', b'b']);
    assert_eq!(p.read_string(), Err(ProtocolError::BufferUnderflow));
    assert_eq!(p.len(), 3);
    let mut q = over(&[]);
    assert_eq!(q.read_string(), Err(ProtocolError::BufferUnderflow));
}

#[test]
fn read_string_with_a_negative_length_underflows() {
    let mut p = over(&[0xff, 0xff, 0xff, 0xff, 0x0f, b'a']);
    assert_eq!(p.read_string(), Err(ProtocolError::BufferUnderflow));
    assert_eq!(p.len(), 6);
}

#[test]
fn read_string_with_a_malformed_length() {
    let mut p = over(&[0x80, 0x80, 0x80, 0x80, 0x80, 0x00]);
    assert_eq!(p.read_string(), Err(ProtocolError::MalformedVarInt));
}

#[test]
fn read_string_leaves_what_follows() {
    let mut p = over(&[3, b'a', b'b', b'c', 0x63, 0xdd]);
    assert_eq!(p.read_string(), Ok("abc".to_string()));
    assert_eq!(p.read_unsigned_short(), Ok(25565));
}

#[test]
fn uuid_is_written_as_sixteen_bytes() {
    let mut p = PacketManager::empty();
    assert_eq!(p.write_uuid("550e8400-e29b-41d4-a716-446655440000"), Ok(()));
    assert_eq!(
        p.to_vec(),
        vec![
            0x55, 0x0e, 0x84, 0x00, 0xe2, 0x9b, 0x41, 0xd4, 0xa7, 0x16, 0x44, 0x66, 0x55, 0x44,
            0x00, 0x00
        ]
    );
}

#[test]
fn uuid_is_read_as_thirty_two_lowercase_digits() {
    let mut p = PacketManager::empty();
    p.write_uuid("550E8400E29B41D4A716446655440000").unwrap();
    p.write_unsigned_byte(9);
    assert_eq!(p.read_uuid(), Ok("550e8400e29b41d4a716446655440000".to_string()));
    assert_eq!(p.to_vec(), vec![9]);
}

#[test]
fn uuid_halves_are_big_endian_longs() {
    let mut p = PacketManager::empty();
    p.write_long(0x0123456789abcdef);
    p.write_long(-1);
    assert_eq!(p.read_uuid(), Ok("0123456789abcdefffffffffffffffff".to_string()));
    let mut q = PacketManager::empty();
    q.write_uuid("0123456789abcdef-fedcba9876543210").unwrap();
    assert_eq!(q.read_long(), Ok(0x0123456789abcdef));
    assert_eq!(q.read_long(), Ok(0xfedcba9876543210u64 as i64));
}

#[test]
fn write_uuid_refuses_what_is_no_uuid() {
    let bad = [
        "",
        "550e8400-e29b-41d4-a716-44665544000",
        "550e8400-e29b-41d4-a716-4466554400000",
        "550e8400-e29b-41d4-a716-44665544000g",
        "+50e8400-e29b-41d4-a716-446655440000",
        "550e8400 e29b 41d4 a716 446655440000",
        "ééééééééééééééééé",
    ];
    for text in bad {
        let mut p = PacketManager::empty();
        p.write_unsigned_byte(1);
        assert_eq!(p.write_uuid(text), Err(ProtocolError::InvalidEncoding), "{}", text);
        assert_eq!(p.to_vec(), vec![1]);
    }
}

#[test]
fn add_offset_returns_new_or_old_position() {
    let mut p = PacketManager::new(BytesMut::new(), 10);
    assert_eq!(p.add_offset(5, true), 15);
    assert_eq!(p.get_offset(), 15);
    assert_eq!(p.add_offset(5, false), 15);
    assert_eq!(p.get_offset(), 20);
    assert_eq!(p.len(), 0);
}

#[test]
fn append_and_extend_move_the_position() {
    let mut p = PacketManager::empty();
    p.append(&BytesMut::from(&[1u8, 2, 3][..]));
    assert_eq!(p.get_offset(), 3);
    p.extend_from_slice(&[4, 5]);
    assert_eq!(p.get_offset(), 5);
    p.write_bytes(&[6]);
    assert_eq!(p.get_offset(), 5);
    assert_eq!(p.to_vec(), vec![1, 2, 3, 4, 5, 6]);
    assert_eq!(p.as_slice(), &[1, 2, 3, 4, 5, 6]);
}

#[test]
fn advance_drops_bytes_from_the_front() {
    let mut p = over(&[1, 2, 3, 4]);
    p.advance(3);
    assert_eq!(p.to_vec(), vec![4]);
    p.advance(0);
    assert_eq!(p.len(), 1);
}

#[test]
fn build_packet_prefixes_length_and_type() {
    let mut p = PacketManager::empty();
    p.write_long(0x1122334455667788);
    let frame = p.build_packet(0x01);
    assert_eq!(&frame[..], &[9, 0x01, 0x11, 0x22, 0x33, 0x44, 0x55, 0x66, 0x77, 0x88]);
    assert_eq!(p.build_frame(0x01), frame.to_vec());
    assert_eq!(p.try_build_packet(0x01), Ok(frame.to_vec()));
}

#[test]
fn build_packet_leaves_the_buffer_alone() {
    let mut p = PacketManager::new(BytesMut::from(&[7u8, 8, 9][..]), 4);
    let first = p.build_packet(0x24);
    let second = p.build_packet(0x24);
    assert_eq!(first, second);
    assert_eq!(p.to_vec(), vec![7, 8, 9]);
    assert_eq!(p.get_offset(), 4);
}

#[test]
fn build_packet_of_an_empty_payload() {
    let mut p = PacketManager::empty();
    assert_eq!(&p.build_packet(0x00)[..], &[1, 0]);
    assert_eq!(&p.build_packet(300)[..], &[2, 0xac, 0x02]);
}

#[test]
fn build_packet_counts_the_type_in_the_length() {
    let mut p = PacketManager::empty();
    p.write_bytes(&[0u8; 126]);
    let short = p.build_packet(0x01);
    assert_eq!(&short[..2], &[127, 0x01]);
    assert_eq!(short.len(), 128);
    p.write_unsigned_byte(0);
    let long = p.build_packet(0x01);
    assert_eq!(&long[..3], &[0x80, 0x01, 0x01]);
    assert_eq!(long.len(), 130);
}

#[test]
fn build_packet_covers_only_what_is_left_to_read() {
    let mut p = over(&[1, 2, 3]);
    p.read_unsigned_byte().unwrap();
    assert_eq!(&p.build_packet(5)[..], &[3, 5, 2, 3]);
}
