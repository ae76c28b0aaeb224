use ultracam::protocol::{
    pack_actor, pack_bool, pack_float, pack_int, pack_keyframe, pack_response, pack_set_time,
    pack_vector3f, parse_bool_str, parse_time_str, word_of,
};

fn word(data: &[u8], at: usize) -> u32 {
    u32::from_le_bytes(data[at..at + 4].try_into().unwrap())
}

#[test]
fn test_pack_response() {
    let data = pack_response(50);
    assert_eq!(data, 50u32.to_le_bytes().to_vec());
}

#[test]
fn test_pack_bool() {
    let data = pack_bool(32, 1);
    assert_eq!(data.len(), 8);
    assert_eq!(u32::from_le_bytes(data[0..4].try_into().unwrap()), 32);
    assert_eq!(u32::from_le_bytes(data[4..8].try_into().unwrap()), 1);
}

#[test]
fn test_pack_float() {
    // A float travels as its bit pattern in a little-endian word.
    let data = pack_float(40, 60.0f32.to_bits());
    assert_eq!(data.len(), 8);
    assert_eq!(u32::from_le_bytes(data[0..4].try_into().unwrap()), 40);
    assert_eq!(f32::from_le_bytes(data[4..8].try_into().unwrap()), 60.0);
}

#[test]
fn test_pack_set_time() {
    let data = pack_set_time(12, 30);
    assert_eq!(data.len(), 16);
    assert_eq!(u32::from_le_bytes(data[0..4].try_into().unwrap()), 20);
    assert_eq!(u32::from_le_bytes(data[4..8].try_into().unwrap()), 0);
    assert_eq!(u32::from_le_bytes(data[8..12].try_into().unwrap()), 12);
    assert_eq!(u32::from_le_bytes(data[12..16].try_into().unwrap()), 30);
}

#[test]
fn test_parse_time_str() {
    assert_eq!(parse_time_str("day"), (12, 0));
    assert_eq!(parse_time_str("night"), (24, 0));
    assert_eq!(parse_time_str("14:30"), (14, 30));
    assert_eq!(parse_time_str("8"), (8, 0));
}

#[test]
fn test_parse_bool_str() {
    assert_eq!(parse_bool_str("true"), 1);
    assert_eq!(parse_bool_str("on"), 1);
    assert_eq!(parse_bool_str("false"), 0);
    assert_eq!(parse_bool_str("off"), 0);
    assert_eq!(parse_bool_str(""), 2);
}

#[test]
fn test_pack_actor() {
    let data = pack_actor(1, 5, "Enemy_Bokoblin_Junior");
    // packet(4) + amount(4) + name(21) + null(4) = 33
    assert_eq!(data.len(), 33);
    assert_eq!(u32::from_le_bytes(data[0..4].try_into().unwrap()), 1);
    assert_eq!(u32::from_le_bytes(data[4..8].try_into().unwrap()), 5);
    assert_eq!(&data[8..29], b"Enemy_Bokoblin_Junior");
}

#[test]
fn words_are_little_endian() {
    assert_eq!(pack_response(0x0403_0201), vec![1, 2, 3, 4]);
    assert_eq!(pack_int(0xdead_beef, 7), vec![0xef, 0xbe, 0xad, 0xde, 7, 0, 0, 0]);
}

#[test]
fn packet_roundtrip_reads_words_back() {
    for v in [0u32, 1, 255, 256, 65535, 65536, 0x1234_5678, u32::MAX] {
        assert_eq!(word(&pack_response(v), 0), v);
    }
}

#[test]
fn bool_and_case_insensitive_answers() {
    assert_eq!(parse_bool_str("TRUE"), 1);
    assert_eq!(parse_bool_str("On"), 1);
    assert_eq!(parse_bool_str("OFF"), 0);
    assert_eq!(parse_bool_str("yes"), 2);
    assert_eq!(parse_bool_str(" true"), 2);
}

#[test]
fn named_times_and_fallbacks() {
    assert_eq!(parse_time_str("Dawn"), (8, 0));
    assert_eq!(parse_time_str("DUSK"), (20, 0));
    assert_eq!(parse_time_str(""), (0, 0));
    assert_eq!(parse_time_str("x:15"), (0, 15));
    assert_eq!(parse_time_str("9:x"), (9, 0));
    assert_eq!(parse_time_str("+7:05:59"), (7, 5));
    assert_eq!(parse_time_str("-1:3"), (0, 3));
    assert_eq!(parse_time_str("4294967296:1"), (0, 1));
    assert_eq!(parse_time_str(" 8:30"), (0, 30));
}

#[test]
fn vector_packet_layout() {
    let data = pack_vector3f(44, 1.0f32.to_bits(), 2.5f32.to_bits(), (-3.0f32).to_bits());
    assert_eq!(data.len(), 20);
    assert_eq!(word(&data, 0), 44);
    assert_eq!(word(&data, 4), 0);
    assert_eq!(f32::from_le_bytes(data[8..12].try_into().unwrap()), 1.0);
    assert_eq!(f32::from_le_bytes(data[12..16].try_into().unwrap()), 2.5);
    assert_eq!(f32::from_le_bytes(data[16..20].try_into().unwrap()), -3.0);
    let neg = pack_vector3f(-1, 0, 0, 0);
    assert_eq!(&neg[0..4], &[0xff, 0xff, 0xff, 0xff]);
    assert_eq!(word_of(-2), 0xffff_fffe);
}

#[test]
fn keyframe_packet_layout() {
    let f = |x: f32| x.to_bits();
    let data = pack_keyframe(
        3,
        [f(1.0), f(2.0), f(3.0)],
        [f(0.0), f(0.0), f(1.0)],
        [f(0.0), f(1.0), f(0.0)],
        f(50.0),
        f(2.0),
    );
    assert_eq!(data.len(), 52);
    assert_eq!(word(&data, 0), 61);
    assert_eq!(word(&data, 4), 3);
    assert_eq!(f32::from_le_bytes(data[8..12].try_into().unwrap()), 1.0);
    assert_eq!(f32::from_le_bytes(data[44..48].try_into().unwrap()), 50.0);
    assert_eq!(f32::from_le_bytes(data[48..52].try_into().unwrap()), 2.0);
}

#[test]
fn actor_name_bytes_are_utf8() {
    let data = pack_actor(1, 2, "é");
    assert_eq!(data.len(), 14);
    assert_eq!(&data[8..10], "é".as_bytes());
    assert_eq!(&data[10..14], &[0, 0, 0, 0]);
}
