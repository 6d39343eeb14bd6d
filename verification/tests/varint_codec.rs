use pandora::error::ProtocolError;
use pandora::varint::{decode, decode_long, encode, encode_long, VarInt};

#[test]
fn encode_small_values_take_one_byte() {
    assert_eq!(encode(0), vec![0x00]);
    assert_eq!(encode(1), vec![0x01]);
    assert_eq!(encode(127), vec![0x7f]);
}

#[test]
fn encode_known_vectors() {
    assert_eq!(encode(128), vec![0x80, 0x01]);
    assert_eq!(encode(255), vec![0xff, 0x01]);
    assert_eq!(encode(25565), vec![0xdd, 0xc7, 0x01]);
    assert_eq!(encode(2097151), vec![0xff, 0xff, 0x7f]);
    assert_eq!(encode(2147483647), vec![0xff, 0xff, 0xff, 0xff, 0x07]);
    assert_eq!(encode(-1), vec![0xff, 0xff, 0xff, 0xff, 0x0f]);
    assert_eq!(encode(-2147483648), vec![0x80, 0x80, 0x80, 0x80, 0x08]);
}

#[test]
fn length_class_boundaries_are_exact() {
    let cases: [(i32, usize); 10] = [
        (0, 1),
        (127, 1),
        (128, 2),
        (16383, 2),
        (16384, 3),
        (2097151, 3),
        (2097152, 4),
        (268435455, 4),
        (268435456, 5),
        (i32::MAX, 5),
    ];
    for (value, len) in cases {
        assert_eq!(encode(value).len(), len, "value {}", value);
        assert_eq!(VarInt::new(value).length(), len, "value {}", value);
    }
    assert_eq!(VarInt::new(-1).length(), 5);
    assert_eq!(VarInt::new(i32::MIN).length(), 5);
}

#[test]
fn decode_reads_back_what_encode_wrote() {
    let values: [i32; 14] = [
        0, 1, 2, 127, 128, 255, 300, 16383, 16384, 2097151, 2097152, i32::MAX, -1, i32::MIN,
    ];
    for v in values {
        let bytes = encode(v);
        let got = decode(&bytes).unwrap();
        assert_eq!(got.to_i32(), v);
        assert_eq!(got.length(), bytes.len());
        assert_eq!(got, VarInt::new(v));
    }
}

#[test]
fn decode_ignores_what_follows() {
    let got = decode(&[0xdd, 0xc7, 0x01, 0xaa, 0xbb]).unwrap();
    assert_eq!(got.to_i32(), 25565);
    assert_eq!(got.length(), 3);
}

#[test]
fn decode_of_partial_input_is_incomplete() {
    assert_eq!(decode(&[]), Err(ProtocolError::Incomplete));
    assert_eq!(decode(&[0x80]), Err(ProtocolError::Incomplete));
    assert_eq!(decode(&[0xff, 0xff, 0xff, 0xff]), Err(ProtocolError::Incomplete));
}

#[test]
fn decode_of_six_groups_is_malformed() {
    assert_eq!(
        decode(&[0x80, 0x80, 0x80, 0x80, 0x80, 0x01]),
        Err(ProtocolError::MalformedVarInt)
    );
    assert_eq!(decode(&[0xff, 0xff, 0xff, 0xff, 0xff]), Err(ProtocolError::MalformedVarInt));
}

#[test]
fn decode_accepts_an_overlong_encoding_and_reports_its_length() {
    let got = decode(&[0x80, 0x00]).unwrap();
    assert_eq!(got.to_i32(), 0);
    assert_eq!(got.length(), 2);
}

#[test]
fn varlong_round_trip() {
    let values: [i64; 8] = [0, 127, 128, 2147483647, 9223372036854775807, -1, i64::MIN, 1 << 35];
    for v in values {
        let bytes = encode_long(v);
        assert_eq!(decode_long(&bytes), Ok((v, bytes.len())));
    }
    assert_eq!(encode_long(-1).len(), 10);
    assert_eq!(
        encode_long(9223372036854775807),
        vec![0xff, 0xff, 0xff, 0xff, 0xff, 0xff, 0xff, 0xff, 0x7f]
    );
}

#[test]
fn varlong_of_eleven_groups_is_malformed() {
    assert_eq!(decode_long(&[0x80; 11]), Err(ProtocolError::MalformedVarInt));
    assert_eq!(decode_long(&[0x80; 9]), Err(ProtocolError::Incomplete));
}

#[test]
fn to_be_bytes_spells_the_bit_pattern() {
    assert_eq!(VarInt::new(0x01020304).to_be_bytes(), [0x04, 0x03, 0x02, 0x01, 0x01]);
    assert_eq!(VarInt::new(-1).to_be_bytes(), [0xff, 0xff, 0xff, 0xff, 0xff]);
    assert_eq!(VarInt::new(0).to_be_bytes(), [0, 0, 0, 0, 0]);
}

#[test]
fn conversions_keep_the_value() {
    let v: VarInt = VarInt::from(300);
    assert_eq!(v, VarInt::new(300));
    assert_eq!(v.length(), 2);
    let back: i32 = i32::from(v);
    assert_eq!(back, 300);
    let into: VarInt = (-5).into();
    assert_eq!(into.to_i32(), -5);
    assert_eq!(into.length(), 5);
}

#[test]
fn default_is_zero_in_one_byte() {
    let v = VarInt::default();
    assert_eq!(v.to_i32(), 0);
    assert_eq!(v.length(), 1);
}

#[test]
fn to_string_is_decimal() {
    assert_eq!(VarInt::new(0).to_string(), "0");
    assert_eq!(VarInt::new(754).to_string(), "754");
    assert_eq!(VarInt::new(-1).to_string(), "-1");
    assert_eq!(VarInt::new(i32::MAX).to_string(), "2147483647");
    assert_eq!(VarInt::new(i32::MIN).to_string(), "-2147483648");
}

#[test]
fn varints_are_ordered_by_value_first() {
    assert!(VarInt::new(1) < VarInt::new(2));
    assert!(VarInt::new(-1) < VarInt::new(0));
    assert_eq!(VarInt { value: 5, len: 1 }, VarInt::new(5));
}
