use mc_proxy::mc_types::{
    append_bytes, convert_bool, frame_missing, convert_byte_array, convert_i16, convert_i32, convert_i64,
    convert_i8, convert_string, convert_u16, convert_u32, convert_u64, convert_u8, convert_uuid,
    convert_var, convert_var_int, convert_var_long, get_bool, get_byte_array, get_i16, get_i32,
    get_i64, get_i8, get_string, get_u16, get_u32, get_u64, get_u8, get_uuid, get_var,
    get_var_int, get_var_long, read_data, read_frame_id, try_get_bool, try_get_i64, try_get_u16,
    try_get_uuid, write_data, PacketError, VarIntError, VERSION_NAME, VERSION_PROTOCOL,
};

fn var_int_bytes(value: i32) -> Vec<u8> {
    convert_var_int(value)
}

#[test]
fn version_constants() {
    assert_eq!(VERSION_NAME, "1.19.4");
    assert_eq!(VERSION_PROTOCOL, 762);
}

#[test]
fn var_int_known_encodings() {
    assert_eq!(var_int_bytes(0), vec![0x00]);
    assert_eq!(var_int_bytes(1), vec![0x01]);
    assert_eq!(var_int_bytes(2), vec![0x02]);
    assert_eq!(var_int_bytes(127), vec![0x7F]);
    assert_eq!(var_int_bytes(128), vec![0x80, 0x01]);
    assert_eq!(var_int_bytes(255), vec![0xFF, 0x01]);
    assert_eq!(var_int_bytes(25565), vec![0xDD, 0xC7, 0x01]);
    assert_eq!(var_int_bytes(2097151), vec![0xFF, 0xFF, 0x7F]);
    assert_eq!(var_int_bytes(2147483647), vec![0xFF, 0xFF, 0xFF, 0xFF, 0x07]);
    assert_eq!(var_int_bytes(-1), vec![0xFF, 0xFF, 0xFF, 0xFF, 0x0F]);
    assert_eq!(var_int_bytes(-2147483648), vec![0x80, 0x80, 0x80, 0x80, 0x08]);
}

#[test]
fn var_int_known_decodings() {
    let cases: Vec<(Vec<u8>, i32)> = vec![
        (vec![0x00], 0),
        (vec![0x01], 1),
        (vec![0x7F], 127),
        (vec![0x80, 0x01], 128),
        (vec![0xFF, 0x01], 255),
        (vec![0xDD, 0xC7, 0x01], 25565),
        (vec![0xFF, 0xFF, 0xFF, 0xFF, 0x07], 2147483647),
        (vec![0xFF, 0xFF, 0xFF, 0xFF, 0x0F], -1),
        (vec![0x80, 0x80, 0x80, 0x80, 0x08], -2147483648),
    ];
    for (bytes, expected) in cases {
        let mut data = bytes.clone();
        assert_eq!(get_var_int(&mut data), Ok(expected));
        assert!(data.is_empty());
    }
}

#[test]
fn var_int_round_trip_values() {
    for value in [0, 1, -1, 127, 128, 300, 16383, 16384, 762, i32::MAX, i32::MIN, -762] {
        let mut data = convert_var_int(value);
        data.push(0xAB);
        assert_eq!(get_var_int(&mut data), Ok(value));
        assert_eq!(data, vec![0xAB]);
    }
}

#[test]
fn var_int_six_bytes_with_continuation_is_too_large() {
    let mut data: Vec<u8> = vec![0x80, 0x80, 0x80, 0x80, 0x80, 0x01];
    assert_eq!(get_var_int(&mut data), Err(VarIntError::ValueTooLarge));
    assert_eq!(data, vec![0x01]);
    let mut data: Vec<u8> = vec![0xFF, 0xFF, 0xFF, 0xFF, 0xFF, 0x7F];
    assert_eq!(get_var_int(&mut data), Err(VarIntError::ValueTooLarge));
}

#[test]
fn var_int_ran_out_of_bytes() {
    let mut data: Vec<u8> = vec![];
    assert_eq!(get_var_int(&mut data), Err(VarIntError::RanOutOfBytes));
    let mut data: Vec<u8> = vec![0x80];
    assert_eq!(get_var_int(&mut data), Err(VarIntError::RanOutOfBytes));
    assert!(data.is_empty());
    let mut data: Vec<u8> = vec![0xFF, 0xFF, 0xFF, 0xFF];
    assert_eq!(get_var_int(&mut data), Err(VarIntError::RanOutOfBytes));
}

#[test]
fn var_int_ignores_high_bits_of_fifth_byte() {
    let mut data: Vec<u8> = vec![0xFF, 0xFF, 0xFF, 0xFF, 0x7F];
    assert_eq!(get_var_int(&mut data), Ok(-1));
}

#[test]
fn var_long_known_encodings() {
    assert_eq!(convert_var_long(0), vec![0x00]);
    assert_eq!(convert_var_long(127), vec![0x7F]);
    assert_eq!(convert_var_long(128), vec![0x80, 0x01]);
    assert_eq!(convert_var_long(2147483647), vec![0xFF, 0xFF, 0xFF, 0xFF, 0x07]);
    assert_eq!(
        convert_var_long(9223372036854775807),
        vec![0xFF, 0xFF, 0xFF, 0xFF, 0xFF, 0xFF, 0xFF, 0xFF, 0x7F]
    );
    assert_eq!(
        convert_var_long(-1),
        vec![0xFF, 0xFF, 0xFF, 0xFF, 0xFF, 0xFF, 0xFF, 0xFF, 0xFF, 0x01]
    );
    assert_eq!(
        convert_var_long(-2147483648),
        vec![0x80, 0x80, 0x80, 0x80, 0xF8, 0xFF, 0xFF, 0xFF, 0xFF, 0x01]
    );
    assert_eq!(
        convert_var_long(i64::MIN),
        vec![0x80, 0x80, 0x80, 0x80, 0x80, 0x80, 0x80, 0x80, 0x80, 0x01]
    );
}

#[test]
fn var_long_round_trip_values() {
    for value in [0i64, 1, -1, 127, 128, i64::MAX, i64::MIN, 1 << 35, -(1 << 40), 0x1122334455667788] {
        let mut data = convert_var_long(value);
        data.push(0x55);
        assert_eq!(get_var_long(&mut data), Ok(value));
        assert_eq!(data, vec![0x55]);
    }
}

#[test]
fn var_long_errors() {
    let mut data: Vec<u8> = vec![0x80; 11];
    assert_eq!(get_var_long(&mut data), Err(VarIntError::ValueTooLarge));
    assert_eq!(data.len(), 1);
    let mut data: Vec<u8> = vec![0x80; 9];
    assert_eq!(get_var_long(&mut data), Err(VarIntError::RanOutOfBytes));
    assert!(data.is_empty());
}

#[test]
fn get_var_by_size() {
    let mut data: Vec<u8> = vec![0xFF, 0xFF, 0xFF, 0xFF, 0x0F, 0x01];
    assert_eq!(get_var(&mut data, 32), Ok(0xFFFF_FFFF));
    assert_eq!(data, vec![0x01]);
    let mut data: Vec<u8> = vec![0xFF, 0xFF, 0xFF, 0xFF, 0xFF, 0xFF, 0xFF, 0xFF, 0xFF, 0x01];
    assert_eq!(get_var(&mut data, 64), Ok(u64::MAX));
    let mut data: Vec<u8> = vec![0xFF, 0xFF, 0xFF, 0xFF, 0xFF, 0xFF, 0xFF, 0xFF, 0xFF, 0x7F];
    assert_eq!(get_var(&mut data, 64), Ok(u64::MAX));
    assert_eq!(convert_var(u64::MAX).len(), 10);
    assert_eq!(convert_var(300), vec![0xAC, 0x02]);
}

#[test]
fn bool_round_trip() {
    assert_eq!(convert_bool(true), vec![1]);
    assert_eq!(convert_bool(false), vec![0]);
    for value in [true, false] {
        let mut data = convert_bool(value);
        data.push(9);
        assert_eq!(get_bool(&mut data), value);
        assert_eq!(data, vec![9]);
    }
    let mut data: Vec<u8> = vec![7];
    assert!(get_bool(&mut data));
}

#[test]
fn u8_and_i8_round_trip() {
    for value in [0u8, 1, 127, 128, 255] {
        let mut data = convert_u8(value);
        assert_eq!(data, vec![value]);
        assert_eq!(get_u8(&mut data), value);
        assert!(data.is_empty());
    }
    assert_eq!(convert_i8(-1), vec![0xFF]);
    assert_eq!(convert_i8(-128), vec![0x80]);
    for value in [0i8, 1, -1, 127, -128] {
        let mut data = convert_i8(value);
        assert_eq!(get_i8(&mut data), value);
    }
}

#[test]
fn u16_and_i16_are_big_endian() {
    assert_eq!(convert_u16(25565), vec![0x63, 0xDD]);
    assert_eq!(convert_u16(0), vec![0, 0]);
    assert_eq!(convert_u16(0xFFFF), vec![0xFF, 0xFF]);
    assert_eq!(convert_i16(-2), vec![0xFF, 0xFE]);
    for value in [0u16, 1, 255, 256, 25565, u16::MAX] {
        let mut data = convert_u16(value);
        data.push(3);
        assert_eq!(get_u16(&mut data), value);
        assert_eq!(data, vec![3]);
    }
    for value in [0i16, 1, -1, i16::MAX, i16::MIN] {
        let mut data = convert_i16(value);
        assert_eq!(get_i16(&mut data), value);
    }
}

#[test]
fn u32_and_i32_are_big_endian() {
    assert_eq!(convert_u32(0x12345678), vec![0x12, 0x34, 0x56, 0x78]);
    assert_eq!(convert_u32(0xFF000000), vec![0xFF, 0, 0, 0]);
    assert_eq!(convert_i32(-1), vec![0xFF, 0xFF, 0xFF, 0xFF]);
    for value in [0u32, 1, 0xFF, 0xFF00, 0xFF0000, 0xFF000000, 0xDEADBEEF, u32::MAX] {
        let mut data = convert_u32(value);
        data.push(3);
        assert_eq!(get_u32(&mut data), value);
        assert_eq!(data, vec![3]);
    }
    for value in [0i32, 1, -1, i32::MAX, i32::MIN, 762] {
        let mut data = convert_i32(value);
        assert_eq!(get_i32(&mut data), value);
    }
}

#[test]
fn u64_and_i64_are_big_endian() {
    assert_eq!(
        convert_u64(0x1122334455667788),
        vec![0x11, 0x22, 0x33, 0x44, 0x55, 0x66, 0x77, 0x88]
    );
    assert_eq!(convert_i64(-1), vec![0xFF; 8]);
    for value in [0u64, 1, 0x1122334455667788, u64::MAX, 1 << 63] {
        let mut data = convert_u64(value);
        data.push(3);
        assert_eq!(get_u64(&mut data), value);
        assert_eq!(data, vec![3]);
    }
    for value in [0i64, 1, -1, i64::MAX, i64::MIN, 0x1122334455667788] {
        let mut data = convert_i64(value);
        assert_eq!(get_i64(&mut data), value);
    }
}

#[test]
fn uuid_is_sixteen_bytes_big_endian() {
    let value: u128 = 0x0102030405060708090A0B0C0D0E0F10;
    assert_eq!(
        convert_uuid(value),
        vec![1, 2, 3, 4, 5, 6, 7, 8, 9, 10, 11, 12, 13, 14, 15, 16]
    );
    assert_eq!(convert_uuid(1).len(), 16);
    for value in [0u128, 1, value, u128::MAX, 1 << 127] {
        let mut data = convert_uuid(value);
        data.push(3);
        assert_eq!(get_uuid(&mut data), value);
        assert_eq!(data, vec![3]);
    }
}

#[test]
fn string_known_encoding() {
    assert_eq!(convert_string("abc"), vec![3, b'a', b'b', b'c']);
    assert_eq!(convert_string(""), vec![0]);
    assert_eq!(convert_string("\u{a7}"), vec![2, 0xC2, 0xA7]);
    let long = "x".repeat(200);
    let data = convert_string(&long);
    assert_eq!(data[0], 0xC8);
    assert_eq!(data[1], 0x01);
    assert_eq!(data.len(), 202);
}

#[test]
fn string_round_trip() {
    for text in ["", "a", "alice", "h\u{e9}llo \u{1F600}", "localhost"] {
        let mut data = convert_string(text);
        data.push(0x42);
        assert_eq!(get_string(&mut data), Ok(text.to_string()));
        assert_eq!(data, vec![0x42]);
    }
}

#[test]
fn string_decoding_replaces_invalid_utf8() {
    let mut data: Vec<u8> = vec![3, b'a', 0xFF, b'b'];
    assert_eq!(get_string(&mut data), Ok("a\u{FFFD}b".to_string()));
    assert!(data.is_empty());
}

#[test]
fn string_errors() {
    let mut data: Vec<u8> = vec![5, b'a', b'b'];
    assert_eq!(get_string(&mut data), Err(VarIntError::RanOutOfBytes));
    assert_eq!(data, vec![b'a', b'b']);
    let mut data: Vec<u8> = vec![];
    assert_eq!(get_string(&mut data), Err(VarIntError::RanOutOfBytes));
    let mut data: Vec<u8> = vec![0xFF, 0xFF, 0xFF, 0xFF, 0x0F, 1, 2];
    assert_eq!(get_string(&mut data), Err(VarIntError::RanOutOfBytes));
    assert_eq!(data, vec![1, 2]);
    let mut data: Vec<u8> = vec![0x80, 0x80, 0x80, 0x80, 0x80, 0x80];
    assert_eq!(get_string(&mut data), Err(VarIntError::ValueTooLarge));
}

#[test]
fn byte_array_round_trip() {
    assert_eq!(convert_byte_array(&vec![9, 8, 7]), vec![3, 9, 8, 7]);
    assert_eq!(convert_byte_array(&vec![]), vec![0]);
    let payload: Vec<u8> = (0..=255).collect();
    let mut data = convert_byte_array(&payload);
    data.push(1);
    assert_eq!(get_byte_array(&mut data), Ok(payload));
    assert_eq!(data, vec![1]);
    let mut data: Vec<u8> = vec![2, 1];
    assert_eq!(get_byte_array(&mut data), Err(VarIntError::RanOutOfBytes));
}

#[test]
fn append_bytes_appends() {
    let mut data: Vec<u8> = vec![1];
    append_bytes(&mut data, &[2, 3]);
    assert_eq!(data, vec![1, 2, 3]);
    append_bytes(&mut data, &[]);
    assert_eq!(data, vec![1, 2, 3]);
}

#[test]
fn checked_readers_refuse_short_input() {
    let mut data: Vec<u8> = vec![];
    assert_eq!(try_get_bool(&mut data), Err(VarIntError::RanOutOfBytes));
    let mut data: Vec<u8> = vec![1];
    assert_eq!(try_get_u16(&mut data), Err(VarIntError::RanOutOfBytes));
    assert_eq!(data, vec![1]);
    let mut data: Vec<u8> = vec![1; 7];
    assert_eq!(try_get_i64(&mut data), Err(VarIntError::RanOutOfBytes));
    assert_eq!(data.len(), 7);
    let mut data: Vec<u8> = vec![1; 15];
    assert_eq!(try_get_uuid(&mut data), Err(VarIntError::RanOutOfBytes));
    let mut data: Vec<u8> = vec![1, 0x63, 0xDD];
    assert_eq!(try_get_bool(&mut data), Ok(true));
    assert_eq!(try_get_u16(&mut data), Ok(25565));
    let mut data: Vec<u8> = vec![0xFF; 8];
    assert_eq!(try_get_i64(&mut data), Ok(-1));
    let mut data: Vec<u8> = vec![0; 16];
    assert_eq!(try_get_uuid(&mut data), Ok(0));
}

#[test]
fn frame_layout() {
    let mut stream: Vec<u8> = vec![];
    let mut payload: Vec<u8> = vec![0x00, 0x01, 0x02];
    write_data(&mut stream, &mut payload);
    assert!(payload.is_empty());
    assert_eq!(stream, vec![3, 0, 1, 2]);
    let mut empty: Vec<u8> = vec![];
    write_data(&mut stream, &mut empty);
    assert_eq!(stream, vec![3, 0, 1, 2, 0]);
}

#[test]
fn frames_are_read_in_the_order_written() {
    let payloads: Vec<Vec<u8>> = vec![
        vec![1, 2, 3],
        vec![],
        vec![0x80; 200],
        vec![0xFF],
        (0..=255).collect(),
    ];
    let mut stream: Vec<u8> = vec![];
    for payload in &payloads {
        let mut copy = payload.clone();
        write_data(&mut stream, &mut copy);
    }
    stream.push(0x99);
    for payload in &payloads {
        assert_eq!(read_data(&mut stream), Ok(payload.clone()));
    }
    assert_eq!(stream, vec![0x99]);
}

#[test]
fn truncated_frame_is_an_error() {
    let mut stream: Vec<u8> = vec![4, 1, 2];
    assert_eq!(read_data(&mut stream), Err(VarIntError::RanOutOfBytes));
    assert_eq!(stream, vec![1, 2]);
    let mut stream: Vec<u8> = vec![];
    assert_eq!(read_data(&mut stream), Err(VarIntError::RanOutOfBytes));
}

#[test]
fn frame_id_is_split_from_body() {
    let mut stream: Vec<u8> = vec![3, 1, 7, 8, 1, 0];
    assert_eq!(read_frame_id(&mut stream), Ok((1, vec![7, 8])));
    assert_eq!(read_frame_id(&mut stream), Ok((0, vec![])));
    assert!(stream.is_empty());
    let mut stream: Vec<u8> = vec![0, 1, 5];
    assert_eq!(read_frame_id(&mut stream), Err(VarIntError::RanOutOfBytes));
    assert_eq!(stream, vec![1, 5]);
}

#[test]
fn error_messages() {
    assert_eq!(PacketError::InvalidPacketId.message(), "Invalid packet id");
    assert_eq!(VarIntError::ValueTooLarge.message(), "VarInt value is too large");
    assert_eq!(
        VarIntError::RanOutOfBytes.message(),
        "Ran out of bytes while reading VarInt"
    );
}

#[test]
fn receiver_is_told_what_to_read_next() {
    assert_eq!(frame_missing(&vec![]), Ok(1));
    assert_eq!(frame_missing(&vec![0x80]), Ok(1));
    assert_eq!(frame_missing(&vec![0x80, 0x80, 0x80, 0x80]), Ok(1));
    assert_eq!(
        frame_missing(&vec![0x80, 0x80, 0x80, 0x80, 0x80]),
        Err(VarIntError::ValueTooLarge)
    );
    assert_eq!(frame_missing(&vec![0]), Ok(0));
    assert_eq!(frame_missing(&vec![3]), Ok(3));
    assert_eq!(frame_missing(&vec![3, 1]), Ok(2));
    assert_eq!(frame_missing(&vec![3, 1, 2, 3]), Ok(0));
    assert_eq!(frame_missing(&vec![3, 1, 2, 3, 4]), Ok(0));
    assert_eq!(frame_missing(&vec![0xAC, 0x02]), Ok(300));
    assert_eq!(
        frame_missing(&vec![0xFF, 0xFF, 0xFF, 0xFF, 0x0F]),
        Err(VarIntError::RanOutOfBytes)
    );
    let mut stream: Vec<u8> = vec![];
    let mut payload: Vec<u8> = vec![7; 300];
    write_data(&mut stream, &mut payload);
    let mut received: Vec<u8> = vec![];
    let mut reads = 0;
    loop {
        let missing = frame_missing(&received).unwrap();
        if missing == 0 {
            break;
        }
        let taken: Vec<u8> = stream.drain(..missing).collect();
        received.extend_from_slice(&taken);
        reads += 1;
    }
    assert_eq!(reads, 3);
    assert!(stream.is_empty());
    assert_eq!(read_data(&mut received), Ok(vec![7; 300]));
}
