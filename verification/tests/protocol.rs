use stp_home::codec::{decode_frame, decode_payload, encode_frame, u32_from_be_bytes, u32_to_be_bytes};
use stp_home::error::{ConnectError, RecvError};
use stp_home::handshake::{
    client_handshake, client_hello, handshake_failure_message, is_client_hello, is_server_reply,
    server_handshake, server_reply,
};

#[test]
fn frame_round_trip_plain_text() {
    let frame = encode_frame("room list");
    assert_eq!(&[0, 0, 0, 9], &frame[..4]);
    assert_eq!(Ok("room list".to_string()), decode_frame(&frame));
}

#[test]
fn frame_round_trip_empty_string() {
    let frame = encode_frame("");
    assert_eq!(vec![0, 0, 0, 0], frame);
    assert_eq!(Ok(String::new()), decode_frame(&frame));
}

#[test]
fn frame_round_trip_multibyte_utf8() {
    let text = "комната///δ///\u{1F600}";
    let frame = encode_frame(text);
    assert_eq!(Ok(text.to_string()), decode_frame(&frame));
}

#[test]
fn frame_length_prefix_counts_bytes_not_chars() {
    let frame = encode_frame("δ");
    assert_eq!(vec![0, 0, 0, 2, 0xCE, 0xB4], frame);
}

#[test]
fn short_frame_reads_as_connection_closed() {
    assert_eq!(Err(RecvError::ConnectionClosed), decode_frame(&[0, 0]));
    assert_eq!(Err(RecvError::ConnectionClosed), decode_frame(&[0, 0, 0, 5, 1, 2]));
}

#[test]
fn invalid_utf8_payload_is_an_encoding_error() {
    assert_eq!(Err(RecvError::BadEncoding), decode_frame(&[0, 0, 0, 1, 0xFF]));
    assert_eq!(Err(RecvError::BadEncoding), decode_payload(vec![0xC3, 0x28]));
}

#[test]
fn be32_round_trip() {
    let bytes = u32_to_be_bytes(0x0102_03FF);
    assert_eq!(vec![1, 2, 3, 0xFF], bytes);
    assert_eq!(0x0102_03FF, u32_from_be_bytes(&bytes));
}

#[test]
fn handshake_tokens_are_the_ascii_words() {
    assert_eq!(b"clnt".to_vec(), client_hello());
    assert_eq!(b"serv".to_vec(), server_reply());
}

#[test]
fn conforming_handshake_succeeds_on_both_sides() {
    let hello = client_hello();
    let reply = server_handshake(&hello).unwrap();
    assert!(client_handshake(&reply).is_ok());
}

#[test]
fn wrong_token_fails_the_handshake() {
    assert!(!is_client_hello(b"serv"));
    assert!(!is_server_reply(b"clnt"));
    let verdict = server_handshake(b"nope");
    match verdict {
        Err(ConnectError::BadHandshake(msg)) => {
            assert_eq!("received: [110, 111, 112, 101]", msg);
        },
        _ => panic!("a wrong token must fail the server handshake"),
    }
    let verdict = client_handshake(b"CLNT");
    assert!(verdict.is_err());
}

#[test]
fn handshake_failure_message_names_the_bytes() {
    assert_eq!("received: [0, 7, 42, 255]", handshake_failure_message(&[0, 7, 42, 255]));
}
