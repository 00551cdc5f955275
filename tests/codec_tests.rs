use switch_embassy::{decode, encode, DecodeError, Message, PortCard, PortStatus, State, Timer};

fn card(port: usize, state: State, duration: Option<Timer>) -> PortCard {
    PortCard { port, state, duration }
}

#[test]
fn set_port_encoding() {
    let m = Message::SetPort(card(3, State::On, None));
    assert_eq!(encode(&m), vec![0, 3, 0, 0]);
}

#[test]
fn query_and_reply_encoding() {
    assert_eq!(encode(&Message::GetPortStatus(PortStatus::Query(Some(3)))), vec![1, 0, 1, 3]);
    assert_eq!(encode(&Message::GetPortStatus(PortStatus::Query(None))), vec![1, 0, 0]);
    assert_eq!(
        encode(&Message::GetPortStatus(PortStatus::Reply(card(3, State::Off, Some(Timer { seconds: 10 }))))),
        vec![1, 1, 3, 1, 1, 10]
    );
}

#[test]
fn multi_byte_numbers() {
    let m = Message::SetPort(card(300, State::Off, Some(Timer { seconds: u32::MAX })));
    let bytes = encode(&m);
    assert_eq!(bytes, vec![0, 0xAC, 0x02, 1, 1, 0xFF, 0xFF, 0xFF, 0xFF, 0x0F]);
    assert_eq!(decode(&bytes), Ok(m));
}

#[test]
fn switch_update_encoding() {
    let m = Message::SwitchUpdate(vec![card(0, State::On, None), card(1, State::Off, None)]);
    assert_eq!(encode(&m), vec![2, 2, 0, 0, 0, 1, 1, 0]);
}

#[test]
fn round_trip_of_every_kind() {
    let messages = vec![
        Message::SetPort(card(0, State::On, None)),
        Message::SetPort(card(usize::MAX, State::Off, Some(Timer { seconds: 0 }))),
        Message::GetPortStatus(PortStatus::Query(None)),
        Message::GetPortStatus(PortStatus::Query(Some(127))),
        Message::GetPortStatus(PortStatus::Query(Some(128))),
        Message::GetPortStatus(PortStatus::Reply(card(5, State::On, Some(Timer { seconds: 3600 })))),
        Message::SwitchUpdate(vec![]),
        Message::SwitchUpdate((0..6).map(|i| card(i, State::On, None)).collect()),
    ];
    for m in messages {
        assert_eq!(decode(&encode(&m)), Ok(m));
    }
}

#[test]
fn trailing_bytes_are_ignored() {
    let mut buf = [0u8; 1024];
    buf[..4].copy_from_slice(&[0, 3, 0, 0]);
    assert_eq!(decode(&buf), Ok(Message::SetPort(card(3, State::On, None))));
}

#[test]
fn empty_buffer_is_refused() {
    assert_eq!(decode(&[]), Err(DecodeError));
}

#[test]
fn unknown_tag_is_refused() {
    assert_eq!(decode(&[3, 0, 0, 0]), Err(DecodeError));
    assert_eq!(decode(&[0xFF; 16]), Err(DecodeError));
}

#[test]
fn bad_fields_are_refused() {
    // state byte out of range
    assert_eq!(decode(&[0, 3, 2, 0]), Err(DecodeError));
    // duration presence byte out of range
    assert_eq!(decode(&[0, 3, 0, 2]), Err(DecodeError));
    // status kind out of range
    assert_eq!(decode(&[1, 2, 3]), Err(DecodeError));
    // truncated card
    assert_eq!(decode(&[0, 3, 0]), Err(DecodeError));
    // update announcing more cards than it holds
    assert_eq!(decode(&[2, 3, 0, 0, 0]), Err(DecodeError));
}

#[test]
fn overlong_or_oversized_numbers_are_refused() {
    // a number with a needless zero group
    assert_eq!(decode(&[0, 0x83, 0x00, 0, 0]), Err(DecodeError));
    // seconds beyond u32
    assert_eq!(decode(&[0, 3, 0, 1, 0x80, 0x80, 0x80, 0x80, 0x10]), Err(DecodeError));
    // an unterminated number
    assert_eq!(decode(&[0, 0x80, 0x80]), Err(DecodeError));
    // a port index beyond any usize
    let mut b = vec![0u8];
    b.extend_from_slice(&[0xFF; 10]);
    b.extend_from_slice(&[0x01, 0, 0]);
    assert_eq!(decode(&b), Err(DecodeError));
}

#[test]
fn foreign_text_is_refused() {
    assert_eq!(decode(b"GET / HTTP/1.1\r\n\r\n"), Err(DecodeError));
}
