use switch_embassy::{pin_level, Level, PinWrite, PortCard, PortNotFound, State, Switch, Timer, PORT_CAPACITY};

fn card(port: usize, state: State, duration: Option<Timer>) -> PortCard {
    PortCard { port, state, duration }
}

#[test]
fn new_switch_is_all_off() {
    let s = Switch::new(6);
    assert_eq!(s.len(), 6);
    for i in 0..6 {
        assert_eq!(s.get_port(i), Ok(card(i, State::Off, None)));
    }
}

#[test]
fn new_switch_at_capacity() {
    let s = Switch::new(PORT_CAPACITY);
    assert_eq!(s.len(), PORT_CAPACITY);
    assert_eq!(s.get_port(PORT_CAPACITY), Err(PortNotFound { port: PORT_CAPACITY }));
}

#[test]
fn empty_switch_has_no_ports() {
    let mut s = Switch::new(0);
    assert_eq!(s.len(), 0);
    assert!(s.apply().is_empty());
    assert_eq!(s.get_port(0), Err(PortNotFound { port: 0 }));
    assert_eq!(s.set_port(card(0, State::On, None)), Err(PortNotFound { port: 0 }));
}

#[test]
fn polarity_is_active_low() {
    assert_eq!(pin_level(State::On), Level::Low);
    assert_eq!(pin_level(State::Off), Level::High);
}

#[test]
fn set_then_get_returns_the_card() {
    let mut s = Switch::new(6);
    let c = card(4, State::On, Some(Timer { seconds: 30 }));
    assert_eq!(s.set_port(c), Ok(PinWrite { index: 4, level: Level::Low }));
    assert_eq!(s.get_port(4), Ok(c));
    assert_eq!(s.get_port(3), Ok(card(3, State::Off, None)));
}

#[test]
fn set_port_back_off_writes_high() {
    let mut s = Switch::new(2);
    s.set_port(card(1, State::On, None)).unwrap();
    assert_eq!(s.set_port(card(1, State::Off, None)), Ok(PinWrite { index: 1, level: Level::High }));
    assert_eq!(s.get_port(1), Ok(card(1, State::Off, None)));
}

#[test]
fn out_of_range_index_changes_nothing() {
    let mut s = Switch::new(6);
    s.set_port(card(2, State::On, None)).unwrap();
    let before = s.apply();
    assert_eq!(s.set_port(card(6, State::On, None)), Err(PortNotFound { port: 6 }));
    assert_eq!(s.set_port(card(usize::MAX, State::On, None)), Err(PortNotFound { port: usize::MAX }));
    assert_eq!(s.get_port(6), Err(PortNotFound { port: 6 }));
    assert_eq!(s.apply(), before);
}

#[test]
fn apply_writes_every_port_in_order() {
    let mut s = Switch::new(3);
    s.set_port(card(0, State::On, None)).unwrap();
    let writes = s.apply();
    assert_eq!(
        writes,
        vec![
            PinWrite { index: 0, level: Level::Low },
            PinWrite { index: 1, level: Level::High },
            PinWrite { index: 2, level: Level::High },
        ]
    );
}

#[test]
fn apply_twice_gives_the_same_writes() {
    let mut s = Switch::new(6);
    s.set_port(card(1, State::On, None)).unwrap();
    s.set_port(card(5, State::On, None)).unwrap();
    let first = s.apply();
    let second = s.apply();
    assert_eq!(first, second);
    assert_eq!(first.len(), 6);
}

#[test]
fn set_all_replaces_every_port() {
    let mut s = Switch::new(3);
    let cards = vec![
        card(0, State::On, None),
        card(1, State::Off, Some(Timer { seconds: 5 })),
        card(2, State::On, None),
    ];
    let writes = s.set_all(&cards).unwrap();
    assert_eq!(
        writes,
        vec![
            PinWrite { index: 0, level: Level::Low },
            PinWrite { index: 1, level: Level::High },
            PinWrite { index: 2, level: Level::Low },
        ]
    );
    assert_eq!(s.get_port(1), Ok(card(1, State::Off, Some(Timer { seconds: 5 }))));
    assert_eq!(s.get_port(2), Ok(card(2, State::On, None)));
}

#[test]
fn set_all_goes_by_position() {
    let mut s = Switch::new(2);
    let cards = vec![card(9, State::On, None), card(7, State::Off, None)];
    s.set_all(&cards).unwrap();
    assert_eq!(s.get_port(0), Ok(card(0, State::On, None)));
    assert_eq!(s.get_port(1), Ok(card(1, State::Off, None)));
}

#[test]
fn set_all_with_wrong_count_changes_nothing() {
    let mut s = Switch::new(3);
    assert_eq!(s.set_all(&[card(0, State::On, None)]), Err(()));
    assert_eq!(s.set_all(&[]), Err(()));
    for i in 0..3 {
        assert_eq!(s.get_port(i), Ok(card(i, State::Off, None)));
    }
}
