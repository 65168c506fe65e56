//! The framed codec from the outside: round trips, exact wire bytes,
//! and each way a decode can fail.
use rust_15_async_chat::async_chat_msg::AsyncChatMsg;
use rust_15_async_chat::codec::{decode_frame, encode_frame, DecodingError};
use rust_15_async_chat::{deserialize_msg, serialize_msg, u32_from_be_bytes, u32_to_be_bytes};

#[test]
fn message_serialize_is_ok() {
    // prepare
    let msg = AsyncChatMsg::Text("martin".into(), "hello".into());
    // act
    let serialized = serialize_msg(&msg);
    // assert
    assert!(serialized.is_ok());
}

#[test]
fn message_deserialize_is_ok() {
    // prepare
    let msg = AsyncChatMsg::Text("martin".into(), "hello".into());
    // act
    let serialized = serialize_msg(&msg).unwrap();
    let deserialized = deserialize_msg(serialized);
    // assert
    assert!(deserialized.is_ok());
    assert_eq!(deserialized.unwrap().get_text(), msg.get_text());
}

#[test]
fn u32_big_endian_round_trip() {
    assert_eq!(u32_to_be_bytes(0x0102_0304), vec![1u8, 2, 3, 4]);
    assert_eq!(u32_from_be_bytes(1, 2, 3, 4), 0x0102_0304);
    assert_eq!(u32_to_be_bytes(0), vec![0u8, 0, 0, 0]);
    assert_eq!(u32_from_be_bytes(0xff, 0xff, 0xff, 0xff), u32::MAX);
}

#[test]
fn text_encodes_to_exact_bytes() {
    let msg = AsyncChatMsg::Text("a".into(), "b".into());
    let bytes = serialize_msg(&msg).unwrap();
    assert_eq!(bytes, vec![0u8, 0, 0, 0, 1, b'a', 0, 0, 0, 1, b'b']);
}

#[test]
fn text_round_trip_keeps_fields() {
    let msg = AsyncChatMsg::Text("martin".into(), "hello there".into());
    let bytes = serialize_msg(&msg).unwrap();
    match deserialize_msg(bytes).unwrap() {
        AsyncChatMsg::Text(from, body) => {
            assert_eq!(from, "martin");
            assert_eq!(body, "hello there");
        }
        _ => panic!("wrong variant"),
    }
}

#[test]
fn file_round_trip_keeps_payload() {
    let msg = AsyncChatMsg::File("martin".into(), "notes.txt".into(), vec![0, 1, 2, 254, 255]);
    let bytes = serialize_msg(&msg).unwrap();
    match deserialize_msg(bytes).unwrap() {
        AsyncChatMsg::File(from, name, data) => {
            assert_eq!(from, "martin");
            assert_eq!(name, "notes.txt");
            assert_eq!(data, vec![0, 1, 2, 254, 255]);
        }
        _ => panic!("wrong variant"),
    }
}

#[test]
fn image_round_trip_keeps_payload() {
    let msg = AsyncChatMsg::Image("eva".into(), "pic.png".into(), vec![137, 80, 78, 71]);
    let bytes = serialize_msg(&msg).unwrap();
    match deserialize_msg(bytes).unwrap() {
        AsyncChatMsg::Image(from, name, data) => {
            assert_eq!(from, "eva");
            assert_eq!(name, "pic.png");
            assert_eq!(data, vec![137, 80, 78, 71]);
        }
        _ => panic!("wrong variant"),
    }
}

#[test]
fn login_round_trip_keeps_fields() {
    let msg = AsyncChatMsg::Login("martin".into(), "password".into());
    let bytes = serialize_msg(&msg).unwrap();
    match deserialize_msg(bytes).unwrap() {
        AsyncChatMsg::Login(login, password) => {
            assert_eq!(login, "martin");
            assert_eq!(password, "password");
        }
        _ => panic!("wrong variant"),
    }
}

#[test]
fn round_trip_keeps_every_unicode_character() {
    let msg = AsyncChatMsg::Text("møller".into(), "čau — 你好 🙂".into());
    let bytes = serialize_msg(&msg).unwrap();
    match deserialize_msg(bytes).unwrap() {
        AsyncChatMsg::Text(from, body) => {
            assert_eq!(from, "møller");
            assert_eq!(body, "čau — 你好 🙂");
        }
        _ => panic!("wrong variant"),
    }
}

#[test]
fn empty_input_is_truncated() {
    assert_eq!(deserialize_msg(vec![]).unwrap_err(), DecodingError::Truncated);
}

#[test]
fn unknown_tag_is_refused() {
    assert_eq!(deserialize_msg(vec![9]).unwrap_err(), DecodingError::UnknownTag);
}

#[test]
fn cut_payload_is_truncated() {
    let msg = AsyncChatMsg::Text("martin".into(), "hello".into());
    let mut bytes = serialize_msg(&msg).unwrap();
    bytes.truncate(bytes.len() - 2);
    assert_eq!(deserialize_msg(bytes).unwrap_err(), DecodingError::Truncated);
}

#[test]
fn malformed_utf8_is_refused() {
    // tag Text, first field of one byte that is no UTF-8
    let bytes = vec![0u8, 0, 0, 0, 1, 0xff, 0, 0, 0, 0];
    assert_eq!(deserialize_msg(bytes).unwrap_err(), DecodingError::InvalidUtf8);
}

#[test]
fn trailing_bytes_are_refused() {
    let msg = AsyncChatMsg::Text("a".into(), "b".into());
    let mut bytes = serialize_msg(&msg).unwrap();
    bytes.push(0);
    assert_eq!(deserialize_msg(bytes).unwrap_err(), DecodingError::TrailingBytes);
}

#[test]
fn frame_carries_length_then_payload() {
    let msg = AsyncChatMsg::Text("a".into(), "b".into());
    let payload = serialize_msg(&msg).unwrap();
    let frame = encode_frame(&msg).unwrap();
    assert_eq!(frame[0..4], u32_to_be_bytes(payload.len() as u32)[..]);
    assert_eq!(frame[4..], payload[..]);
}

#[test]
fn whole_frame_decodes_back() {
    let msg = AsyncChatMsg::Text("martin".into(), "hello".into());
    let frame = encode_frame(&msg).unwrap();
    let total = frame.len();
    let (decoded, used) = decode_frame(&frame).unwrap();
    assert_eq!(used, total);
    assert_eq!(decoded.get_text(), "hello");
}

#[test]
fn frame_with_more_behind_it_decodes_the_first() {
    let msg = AsyncChatMsg::Text("martin".into(), "hello".into());
    let mut buf = encode_frame(&msg).unwrap();
    let first = buf.len();
    buf.extend_from_slice(&encode_frame(&msg).unwrap());
    let (_, used) = decode_frame(&buf).unwrap();
    assert_eq!(used, first);
}

#[test]
fn truncated_frame_never_decodes() {
    // a frame cut anywhere is refused as incomplete, never read as a message
    let msg = AsyncChatMsg::Text("martin".into(), "hello".into());
    let frame = encode_frame(&msg).unwrap();
    for cut in 0..frame.len() {
        let part = frame[0..cut].to_vec();
        assert_eq!(decode_frame(&part).unwrap_err(), DecodingError::Truncated);
    }
}
