use fleet_radio::relays::{
    RelayIdx, RelayState, Relays, COMMS_TIMEOUT, MIN_TOGGLE_DELTA, TICKS_PER_SECOND,
};

const T0: u32 = 10 * TICKS_PER_SECOND;

#[test]
fn anti_flap() {
    let mut r = Relays::from_pins(0);
    assert!(r.set_relay(RelayIdx::Relay0, RelayState::On, T0).is_ok());
    assert_eq!(r.current_state(T0).relays[0].enabled, RelayState::On);
    let t2 = T0 + 2 * TICKS_PER_SECOND;
    assert!(r.set_relay(RelayIdx::Relay0, RelayState::Off, t2).is_err());
    assert_eq!(r.current_state(t2).relays[0].enabled, RelayState::On);
    let t31 = T0 + 3 * TICKS_PER_SECOND + TICKS_PER_SECOND / 10;
    assert!(r.set_relay(RelayIdx::Relay0, RelayState::Off, t31).is_ok());
    assert_eq!(r.current_state(t31).relays[0].enabled, RelayState::Off);
}

#[test]
fn toggle_delta_is_exclusive() {
    let mut r = Relays::from_pins(0);
    assert!(r.set_relay(RelayIdx::Relay1, RelayState::On, MIN_TOGGLE_DELTA).is_err());
    assert!(r.set_relay(RelayIdx::Relay1, RelayState::On, MIN_TOGGLE_DELTA + 1).is_ok());
}

#[test]
fn dead_man() {
    let mut r = Relays::from_pins(0);
    for idx in [RelayIdx::Relay0, RelayIdx::Relay1, RelayIdx::Relay2, RelayIdx::Relay3] {
        assert!(r.set_relay(idx, RelayState::On, T0).is_ok());
    }
    r.check_timeout(T0 + 299 * TICKS_PER_SECOND);
    for s in r.current_state(T0 + 299 * TICKS_PER_SECOND).relays.iter() {
        assert_eq!(s.enabled, RelayState::On);
    }
    let t = T0 + 301 * TICKS_PER_SECOND;
    r.check_timeout(t);
    for s in r.current_state(t).relays.iter() {
        assert_eq!(s.enabled, RelayState::Off);
        assert_eq!(s.seconds_in_state, 0);
    }
}

#[test]
fn dead_man_boundary() {
    let mut r = Relays::from_pins(0);
    assert!(r.set_relay(RelayIdx::Relay2, RelayState::On, T0).is_ok());
    r.check_timeout(T0 + COMMS_TIMEOUT - 1);
    assert_eq!(r.current_state(T0 + COMMS_TIMEOUT - 1).relays[2].enabled, RelayState::On);
    r.check_timeout(T0 + COMMS_TIMEOUT);
    assert_eq!(r.current_state(T0 + COMMS_TIMEOUT).relays[2].enabled, RelayState::Off);
}

#[test]
fn same_state_restarts_toggle_tick() {
    let mut r = Relays::from_pins(0);
    assert!(r.set_relay(RelayIdx::Relay3, RelayState::On, T0).is_ok());
    let t1 = T0 + 10 * TICKS_PER_SECOND;
    assert!(r.set_relay(RelayIdx::Relay3, RelayState::On, t1).is_ok());
    assert_eq!(r.current_state(t1).relays[3].seconds_in_state, 0);
    // The repeated command counts as a setting: switching off right after is refused.
    assert!(r.set_relay(RelayIdx::Relay3, RelayState::Off, t1 + TICKS_PER_SECOND).is_err());
    assert_eq!(r.current_state(t1 + TICKS_PER_SECOND).relays[3].enabled, RelayState::On);
}

#[test]
fn seconds_in_state() {
    let mut r = Relays::from_pins(0);
    assert!(r.set_relay(RelayIdx::Relay1, RelayState::On, T0).is_ok());
    let s = r.current_state(T0 + 7 * TICKS_PER_SECOND + 5);
    assert_eq!(s.relays[1].seconds_in_state, 7);
    assert_eq!(s.relays[0].seconds_in_state, 17);
}

#[test]
fn relay_index_conversions() {
    assert_eq!(usize::from(RelayIdx::Relay2), 2);
    let i: usize = RelayIdx::Relay3.into();
    assert_eq!(i, 3);
    assert_eq!(RelayIdx::try_from(1), Ok(RelayIdx::Relay1));
    assert_eq!(RelayIdx::try_from(4), Err(()));
    assert_eq!(RelayState::from(true), RelayState::On);
    assert_eq!(RelayState::from(false), RelayState::Off);
}
