use fleet_radio::arbiter::Topq;
use fleet_radio::icd::RelayCommand;
use fleet_radio::keys::FleetKey;
use fleet_radio::lilbuf::LilBuf;
use fleet_radio::plant::Plant;
use fleet_radio::relays::{RelayIdx, RelayState};
use fleet_radio::rest::{index, parse_setting, plant_override, OverrideError};
use fleet_radio::timer::{RollingRtcTimer, RollingTimer};
use fleet_radio::Error;

#[test]
fn topic_matching() {
    assert!(fleet_radio::topic::matches("a/b/c", "a/b/c"));
    assert!(!fleet_radio::topic::matches("a/b/c", "a/b"));
    assert!(!fleet_radio::topic::matches("a/b", "a/b/c"));
    assert!(fleet_radio::topic::matches("a/+/c", "a/x/c"));
    assert!(!fleet_radio::topic::matches("a/+/c", "a/x/d"));
    assert!(fleet_radio::topic::matches("a/#", "a/b/c/d"));
    assert!(fleet_radio::topic::matches("#", "anything/at/all"));
    assert!(!fleet_radio::topic::matches("+", "a/b"));
    assert!(fleet_radio::topic::matches("lights/plants/living-room/set", "lights/plants/living-room/set"));
    assert!(!fleet_radio::topic::matches("", "a"));
    assert!(!fleet_radio::topic::matches("a", ""));
    assert!(fleet_radio::topic::matches("a/", "a/"));
    assert!(!fleet_radio::topic::matches("a/", "a"));
}

#[test]
fn topq_highest_priority_wins() {
    let mut q = Topq::new();
    q.insert(true, 0, 15, 100);
    assert_eq!(q.get_data(100), Some(true));
    q.insert(false, 1, 5, 101);
    assert_eq!(q.get_data(102), Some(false));
    // The override expires after its window; the schedule shows through.
    assert_eq!(q.get_data(107), Some(true));
    // Everything expired.
    assert_eq!(q.get_data(200), None);
}

#[test]
fn topq_refresh_extends() {
    let mut q = Topq::new();
    q.insert(true, 1, 10, 0);
    q.insert(true, 1, 10, 8);
    assert_eq!(q.get_data(15), Some(true));
    assert_eq!(q.get_data(19), None);
}

#[test]
fn topq_newest_of_equal_priority_first() {
    let mut q = Topq::new();
    q.insert(true, 1, 100, 0);
    q.insert(false, 1, 100, 1);
    assert_eq!(q.get_data(2), Some(false));
}

#[test]
fn topq_drops_lowest_when_full() {
    let mut q = Topq::new();
    q.insert(true, 4, 100, 0);
    q.insert(true, 3, 100, 0);
    q.insert(true, 2, 100, 0);
    q.insert(false, 1, 100, 0);
    // Ranks last in a full queue: left out.
    q.insert(true, 0, 100, 0);
    q.prune(50);
    assert_eq!(q.get_data(50), Some(true));
}

#[test]
fn topq_prune_drops_expired() {
    let mut q = Topq::new();
    q.insert(false, 3, 5, 0);
    q.insert(true, 1, 50, 0);
    q.prune(10);
    assert_eq!(q.get_data(10), Some(true));
}

#[test]
fn plant_schedule_and_override() {
    let mut p = Plant::new(8 * 3600, 20 * 3600);
    let cmds = p.poll(1000, 9 * 3600).unwrap().unwrap();
    assert_eq!(cmds.len(), 4);
    for (i, c) in cmds.iter().enumerate() {
        assert_eq!(usize::from(c.relay), i);
        assert_eq!(c.state, RelayState::On);
    }
    // Too soon to transmit again.
    assert!(p.poll(1001, 9 * 3600).unwrap().is_none());
    assert!(p.force(2, false, 60, 1002).is_ok());
    assert!(p.force(4, false, 60, 1002).is_err());
    let cmds = p.poll(1004, 9 * 3600).unwrap().unwrap();
    assert_eq!(cmds[2], RelayCommand { relay: RelayIdx::Relay2, state: RelayState::Off });
    assert_eq!(cmds[1].state, RelayState::On);
    // Outside the scheduled hours.
    let cmds = p.poll(2000, 22 * 3600).unwrap().unwrap();
    assert_eq!(cmds[0].state, RelayState::Off);
}

#[test]
fn rest_override() {
    assert_eq!(index(), "Hello, world!");
    assert_eq!(parse_setting("on"), Some(true));
    assert_eq!(parse_setting("off"), Some(false));
    assert_eq!(parse_setting("of"), None);
    assert_eq!(parse_setting("onn"), None);
    let mut p = Plant::new(0, 10);
    assert_eq!(plant_override(&mut p, 1, 0, "on", 10, 0), Err(OverrideError::BadShelf));
    assert_eq!(plant_override(&mut p, 0, 0, "maybe", 10, 0), Err(OverrideError::BadSetting));
    assert_eq!(plant_override(&mut p, 0, 9, "on", 10, 0), Err(OverrideError::BadRelay));
    assert_eq!(plant_override(&mut p, 0, 3, "on", 10, 0), Ok(true));
    let cmds = p.poll(5, 86_000).unwrap().unwrap();
    assert_eq!(cmds[3].state, RelayState::On);
    assert_eq!(cmds[0].state, RelayState::Off);
}

#[test]
fn lilbuf_capacity() {
    let mut b = LilBuf::new(4);
    assert!(b.is_empty());
    assert!(b.extend_from_slice(&[1, 2, 3]).is_ok());
    assert!(matches!(b.extend_from_slice(&[4, 5]), Err(Error::BufferTooSmol)));
    assert_eq!(b.as_ref(), &[1, 2, 3]);
    assert!(b.extend_from_slice(&[4]).is_ok());
    assert_eq!(b.len(), 4);
    b.truncate(10);
    assert_eq!(b.len(), 4);
    b.truncate(1);
    assert_eq!(b.as_ref(), &[1]);
    let mut big = LilBuf::new(300);
    assert!(big.extend_from_slice(&[0; 255]).is_ok());
    assert!(big.extend_from_slice(&[0]).is_err());
}

#[test]
fn rtc_timer_rolls_over() {
    let mut t = RollingRtcTimer::new();
    assert_eq!(t.get_current_tick(), 0);
    t.tick();
    t.tick();
    assert_eq!(t.current_tick(), 2);
}

#[test]
fn fleet_key_bytes() {
    let k = FleetKey::new([7; 32]);
    assert_eq!(k.key(), &[7; 32]);
}

struct TestClock {
    now: std::rc::Rc<std::cell::Cell<u64>>,
}

impl topq::Timer for TestClock {
    type Time = u64;
    const TICKS_PER_SECOND: u32 = 1;

    fn now(&self) -> u64 {
        self.now.get()
    }

    fn wrapping_add(time: &u64, offset: &u64) -> u64 {
        time.wrapping_add(*offset)
    }
}

/// The `topq` crate replaces an entry of equal priority whatever its value;
/// this queue keeps both values and lets the older one show again once the
/// newer one expires.
#[test]
fn topq_crate_keys_by_priority_alone() {
    let clock = std::rc::Rc::new(std::cell::Cell::new(0u64));
    let mut theirs: topq::Topq<bool, u8, TestClock, topq::consts::U4> =
        topq::Topq::new(TestClock { now: clock.clone() });
    theirs.insert(true, 1, 100);
    clock.set(1);
    theirs.insert(false, 1, 5);
    clock.set(10);
    assert_eq!(theirs.get_data(), None);

    let mut ours = Topq::new();
    ours.insert(true, 1, 100, 0);
    ours.insert(false, 1, 5, 1);
    assert_eq!(ours.get_data(3), Some(false));
    assert_eq!(ours.get_data(10), Some(true));
}

#[test]
fn topq_zero_length_window_expires() {
    let mut q = Topq::new();
    q.insert(true, 1, 0, 50);
    assert_eq!(q.get_data(50), Some(true));
    assert_eq!(q.get_data(51), None);
}
