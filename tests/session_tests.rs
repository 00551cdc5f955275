use switch_embassy::{
    decode, encode, keepalive_step, session_step, KeepaliveEvent, KeepaliveState, Level, Message, PinWrite,
    PortCard, PortStatus, SessionEvent, SessionState, State, Switch, Timer, HEARTBEAT_SECS, IDLE_TIMEOUT_SECS,
};

fn card(port: usize, state: State, duration: Option<Timer>) -> PortCard {
    PortCard { port, state, duration }
}

fn frame(m: Message) -> SessionEvent {
    SessionEvent::Received(encode(&m))
}

fn serving(switch: &mut Switch) -> SessionState {
    let step = session_step(SessionState::Listening, switch, SessionEvent::Accepted);
    assert_eq!(step.state, SessionState::Serving);
    step.state
}

#[test]
fn end_to_end_set_then_query_port_three() {
    let mut sw = Switch::new(6);
    let state = serving(&mut sw);
    let step = session_step(state, &mut sw, frame(Message::SetPort(card(3, State::On, None))));
    assert_eq!(step.state, SessionState::Serving);
    assert_eq!(step.writes, vec![PinWrite { index: 3, level: Level::Low }]);
    assert_eq!(step.reply, None);
    let step = session_step(step.state, &mut sw, frame(Message::GetPortStatus(PortStatus::Query(Some(3)))));
    assert_eq!(step.state, SessionState::Serving);
    assert!(step.writes.is_empty());
    let reply = step.reply.unwrap();
    assert_eq!(decode(&reply), Ok(Message::GetPortStatus(PortStatus::Reply(card(3, State::On, None)))));
}

#[test]
fn idle_timeout_closes_and_keeps_state() {
    assert_eq!(IDLE_TIMEOUT_SECS, 10);
    let mut sw = Switch::new(6);
    let state = serving(&mut sw);
    session_step(state, &mut sw, frame(Message::SetPort(card(1, State::On, None))));
    let step = session_step(SessionState::Serving, &mut sw, SessionEvent::TimedOut);
    assert_eq!(step.state, SessionState::Listening);
    assert!(step.writes.is_empty());
    assert_eq!(step.reply, None);
    assert_eq!(sw.get_port(1), Ok(card(1, State::On, None)));
    assert_eq!(serving(&mut sw), SessionState::Serving);
}

#[test]
fn malformed_frame_closes_only_that_connection() {
    let mut sw = Switch::new(6);
    let state = serving(&mut sw);
    session_step(state, &mut sw, frame(Message::SetPort(card(2, State::On, None))));
    let step = session_step(SessionState::Serving, &mut sw, SessionEvent::Received(vec![9, 9, 9]));
    assert_eq!(step.state, SessionState::Listening);
    assert!(step.writes.is_empty());
    let state = serving(&mut sw);
    let step = session_step(state, &mut sw, frame(Message::GetPortStatus(PortStatus::Query(Some(2)))));
    assert_eq!(step.state, SessionState::Serving);
    assert_eq!(
        decode(&step.reply.unwrap()),
        Ok(Message::GetPortStatus(PortStatus::Reply(card(2, State::On, None))))
    );
}

#[test]
fn peer_close_read_and_write_errors_end_the_connection() {
    let mut sw = Switch::new(2);
    for event in [SessionEvent::Received(vec![]), SessionEvent::ReadFailed, SessionEvent::WriteFailed] {
        let step = session_step(SessionState::Serving, &mut sw, event);
        assert_eq!(step.state, SessionState::Listening);
    }
}

#[test]
fn accept_failure_keeps_listening() {
    let mut sw = Switch::new(2);
    let step = session_step(SessionState::Listening, &mut sw, SessionEvent::AcceptFailed);
    assert_eq!(step.state, SessionState::Listening);
}

#[test]
fn unknown_port_keeps_the_connection_without_reply() {
    let mut sw = Switch::new(6);
    let step = session_step(SessionState::Serving, &mut sw, frame(Message::SetPort(card(6, State::On, None))));
    assert_eq!(step.state, SessionState::Serving);
    assert!(step.writes.is_empty());
    let step = session_step(SessionState::Serving, &mut sw, frame(Message::GetPortStatus(PortStatus::Query(Some(6)))));
    assert_eq!(step.state, SessionState::Serving);
    assert_eq!(step.reply, None);
    let step = session_step(SessionState::Serving, &mut sw, frame(Message::GetPortStatus(PortStatus::Query(None))));
    assert_eq!(step.state, SessionState::Serving);
    assert_eq!(step.reply, None);
}

#[test]
fn update_over_tcp_sets_every_port() {
    let mut sw = Switch::new(2);
    let m = Message::SwitchUpdate(vec![card(0, State::On, None), card(1, State::On, None)]);
    let step = session_step(SessionState::Serving, &mut sw, frame(m));
    assert_eq!(
        step.writes,
        vec![PinWrite { index: 0, level: Level::Low }, PinWrite { index: 1, level: Level::Low }]
    );
}

#[test]
fn heartbeat_pings_only_when_no_message_came() {
    assert_eq!(HEARTBEAT_SECS, 2);
    let mut sw = Switch::new(6);
    let step = keepalive_step(KeepaliveState::Waiting, &mut sw, KeepaliveEvent::DeadlineElapsed);
    assert!(step.ping);
    assert_eq!(step.state, KeepaliveState::Waiting);
    let payload = encode(&Message::SetPort(card(0, State::On, None)));
    let step = keepalive_step(KeepaliveState::Waiting, &mut sw, KeepaliveEvent::Published(payload));
    assert!(!step.ping);
    assert_eq!(step.writes, vec![PinWrite { index: 0, level: Level::Low }]);
    let mut pings = 0;
    let windows = vec![
        KeepaliveEvent::DeadlineElapsed,
        KeepaliveEvent::Published(vec![0xEE]),
        KeepaliveEvent::DeadlineElapsed,
        KeepaliveEvent::DeadlineElapsed,
    ];
    let mut state = KeepaliveState::Waiting;
    for w in windows {
        let step = keepalive_step(state, &mut sw, w);
        state = step.state;
        if step.ping {
            pings += 1;
        }
    }
    assert_eq!(pings, 3);
    assert_eq!(state, KeepaliveState::Waiting);
}

#[test]
fn bad_payload_keeps_the_broker_session() {
    let mut sw = Switch::new(2);
    let step = keepalive_step(KeepaliveState::Waiting, &mut sw, KeepaliveEvent::Published(vec![7, 7]));
    assert_eq!(step.state, KeepaliveState::Waiting);
    assert!(step.writes.is_empty());
    assert!(!step.ping);
    let step = keepalive_step(KeepaliveState::Waiting, &mut sw, KeepaliveEvent::PingFailed);
    assert_eq!(step.state, KeepaliveState::Waiting);
}

#[test]
fn bulk_update_over_mqtt() {
    let mut sw = Switch::new(2);
    let payload = encode(&Message::SwitchUpdate(vec![card(0, State::Off, None), card(1, State::On, None)]));
    let step = keepalive_step(KeepaliveState::Waiting, &mut sw, KeepaliveEvent::Published(payload));
    assert_eq!(
        step.writes,
        vec![PinWrite { index: 0, level: Level::High }, PinWrite { index: 1, level: Level::Low }]
    );
    assert_eq!(sw.get_port(1), Ok(card(1, State::On, None)));
}

#[test]
fn broker_setup_failures_stop_the_session() {
    let mut sw = Switch::new(1);
    let step = keepalive_step(KeepaliveState::Connecting, &mut sw, KeepaliveEvent::ConnectFailed);
    assert_eq!(step.state, KeepaliveState::Stopped);
    let step = keepalive_step(KeepaliveState::Connecting, &mut sw, KeepaliveEvent::Connected);
    assert_eq!(step.state, KeepaliveState::Subscribing);
    let step = keepalive_step(KeepaliveState::Subscribing, &mut sw, KeepaliveEvent::Subscribed);
    assert_eq!(step.state, KeepaliveState::Waiting);
    let step = keepalive_step(KeepaliveState::Subscribing, &mut sw, KeepaliveEvent::SubscribeFailed);
    assert_eq!(step.state, KeepaliveState::Stopped);
}
