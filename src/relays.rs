use vstd::prelude::*;

verus! {

/// Rate of the rolling tick counter.
pub const TICKS_PER_SECOND: u32 = 32768;

/// Least time between two switchings of one relay.
pub const MIN_TOGGLE_DELTA: u32 = 3 * TICKS_PER_SECOND;

/// Silence after which every relay is switched off.
pub const COMMS_TIMEOUT: u32 = 5 * 60 * TICKS_PER_SECOND;

/// Whether a relay is switched on.
#[derive(Debug, Clone, Copy, PartialEq, Eq, Structural)]
pub enum RelayState {
    Off,
    On,
}

impl From<bool> for RelayState {
    fn from(other: bool) -> (r: RelayState)
        ensures
            r == (if other { RelayState::On } else { RelayState::Off }),
    {
        if other {
            RelayState::On
        } else {
            RelayState::Off
        }
    }
}

impl vstd::std_specs::convert::FromSpecImpl<bool> for RelayState {
    open spec fn obeys_from_spec() -> bool {
        true
    }

    open spec fn from_spec(v: bool) -> RelayState {
        if v {
            RelayState::On
        } else {
            RelayState::Off
        }
    }
}

/// One of the four relays of a shelf.
#[derive(Debug, Clone, Copy, PartialEq, Eq, Structural)]
pub enum RelayIdx {
    Relay0,
    Relay1,
    Relay2,
    Relay3,
}

/// Position of a relay in the bank.
pub open spec fn relay_index(r: RelayIdx) -> int {
    match r {
        RelayIdx::Relay0 => 0,
        RelayIdx::Relay1 => 1,
        RelayIdx::Relay2 => 2,
        RelayIdx::Relay3 => 3,
    }
}

impl From<RelayIdx> for usize {
    fn from(other: RelayIdx) -> (r: usize)
        ensures
            r == relay_index(other),
    {
        match other {
            RelayIdx::Relay0 => 0,
            RelayIdx::Relay1 => 1,
            RelayIdx::Relay2 => 2,
            RelayIdx::Relay3 => 3,
        }
    }
}

impl vstd::std_specs::convert::FromSpecImpl<RelayIdx> for usize {
    open spec fn obeys_from_spec() -> bool {
        true
    }

    open spec fn from_spec(v: RelayIdx) -> usize {
        relay_index(v) as usize
    }
}

impl RelayIdx {
    /// The relay at position `other`, if there is one.
    pub fn try_from(other: usize) -> (r: Result<RelayIdx, ()>)
        ensures
            other < 4 ==> (r matches Ok(i) && relay_index(i) == other),
            other >= 4 ==> r is Err,
    {
        match other {
            0 => Ok(RelayIdx::Relay0),
            1 => Ok(RelayIdx::Relay1),
            2 => Ok(RelayIdx::Relay2),
            3 => Ok(RelayIdx::Relay3),
            _ => Err(()),
        }
    }
}

/// What one relay reports: its state and how long it has been in it.
#[derive(Debug, Clone, Copy, PartialEq, Eq, Structural)]
pub struct RelayStatus {
    pub enabled: RelayState,
    pub seconds_in_state: u32,
}

/// What a shelf reports: the status of each of its relays.
#[derive(Debug, Clone, Copy)]
pub struct ShelfStatus {
    pub relays: [RelayStatus; 4],
}

/// A relay output and the tick it was last set at. The output is active
/// low: a low pin means the relay is on.
pub struct Relay {
    is_low: bool,
    last_toggle_tick: u32,
}

impl Relay {
    /// A relay driven off (pin high) at tick `now`.
    fn from_pin(now: u32) -> (r: Relay)
        ensures
            !r.is_low,
            r.last_toggle_tick == now,
    {
        Relay { is_low: false, last_toggle_tick: now }
    }
}

/// The state of a bank of four relays as plain values.
pub struct BankView {
    /// Which relays are on.
    pub on: Seq<bool>,
    /// The tick each relay was last set at.
    pub toggled: Seq<u32>,
    /// The tick of the last relay command.
    pub last_message: u32,
}

/// A command to set relay `i` on or off at tick `now`: refused when the relay
/// was last set `MIN_TOGGLE_DELTA` ticks ago or less; else the relay takes
/// that state, counts as set at `now`, and the command counts as a message.
pub open spec fn bank_set_relay(v: BankView, i: int, on: bool, now: u32) -> (BankView, bool) {
    if now.wrapping_sub(v.toggled[i]) <= MIN_TOGGLE_DELTA {
        (v, false)
    } else {
        (BankView { on: v.on.update(i, on), toggled: v.toggled.update(i, now), last_message: now }, true)
    }
}

/// The dead-man check at tick `now`: after `COMMS_TIMEOUT` ticks without a
/// command, every relay is switched off and counts as switched now.
pub open spec fn bank_check_timeout(v: BankView, now: u32) -> BankView {
    if now.wrapping_sub(v.last_message) >= COMMS_TIMEOUT {
        BankView {
            on: Seq::new(4, |i: int| false),
            toggled: Seq::new(4, |i: int| now),
            last_message: v.last_message,
        }
    } else {
        v
    }
}

/// The status of relay `i` at tick `now`.
pub open spec fn bank_relay_status(v: BankView, i: int, now: u32) -> RelayStatus {
    RelayStatus {
        enabled: if v.on[i] { RelayState::On } else { RelayState::Off },
        seconds_in_state: (now.wrapping_sub(v.toggled[i]) / TICKS_PER_SECOND) as u32,
    }
}

/// Four relays with anti-flap and dead-man protection.
pub struct Relays {
    relays: [Relay; 4],
    last_message_tick: u32,
}

impl View for Relays {
    type V = BankView;

    closed spec fn view(&self) -> BankView {
        BankView {
            on: Seq::new(4, |i: int| self.relays@[i].is_low),
            toggled: Seq::new(4, |i: int| self.relays@[i].last_toggle_tick),
            last_message: self.last_message_tick,
        }
    }
}

impl Relays {
    /// A bank always has four relays.
    pub proof fn lemma_bank_len(&self)
        ensures
            self@.on.len() == 4,
            self@.toggled.len() == 4,
    {
    }

    /// A bank with every relay off, as if switched and commanded at `now`.
    pub fn from_pins(now: u32) -> (r: Relays)
        ensures
            r@.on == Seq::new(4, |i: int| false),
            r@.toggled == Seq::new(4, |i: int| now),
            r@.last_message == now,
    {
        let r = Relays {
            relays: [Relay::from_pin(now), Relay::from_pin(now), Relay::from_pin(now), Relay::from_pin(now)],
            last_message_tick: now,
        };
        assert(r@.on =~= Seq::new(4, |i: int| false));
        assert(r@.toggled =~= Seq::new(4, |i: int| now));
        r
    }

    /// Sets a relay at tick `now`, unless it was set too recently.
    pub fn set_relay(&mut self, relay: RelayIdx, state: RelayState, now: u32) -> (r: Result<(), ()>)
        ensures
            final(self)@ == bank_set_relay(old(self)@, relay_index(relay), state == RelayState::On, now).0,
            final(self)@.on.len() == 4 && final(self)@.toggled.len() == 4,
            r is Ok ==> final(self)@.on[relay_index(relay)] == (state == RelayState::On)
                && final(self)@.toggled[relay_index(relay)] == now && final(self)@.last_message == now,
            r is Ok == bank_set_relay(old(self)@, relay_index(relay), state == RelayState::On, now).1,
    {
        let i: usize = relay.into();
        let cur = &self.relays[i];
        let delta = now.wrapping_sub(cur.last_toggle_tick);
        if delta <= MIN_TOGGLE_DELTA {
            return Err(());
        }
        let want_low = state == RelayState::On;
        let ghost v = self@;
        self.relays[i] = Relay { is_low: want_low, last_toggle_tick: now };
        self.last_message_tick = now;
        proof {
            let (w, ok) = bank_set_relay(v, i as int, want_low, now);
            assert(self@.on =~= w.on);
            assert(self@.toggled =~= w.toggled);
        }
        Ok(())
    }

    /// Switches every relay off once `COMMS_TIMEOUT` ticks have passed
    /// without a command.
    pub fn check_timeout(&mut self, now: u32)
        ensures
            final(self)@ == bank_check_timeout(old(self)@, now),
            now.wrapping_sub(old(self)@.last_message) >= COMMS_TIMEOUT ==> final(self)@.on == Seq::new(
                4,
                |i: int| false,
            ),
    {
        let delta = now.wrapping_sub(self.last_message_tick);
        if delta >= COMMS_TIMEOUT {
            let ghost lm = self.last_message_tick;
            self.relays = [Relay::from_pin(now), Relay::from_pin(now), Relay::from_pin(now), Relay::from_pin(now)];
            assert(self@.on =~= Seq::new(4, |i: int| false));
            assert(self@.toggled =~= Seq::new(4, |i: int| now));
        }
    }

    /// The status of the relay at position `idx` at tick `now`.
    fn relay_status(&self, idx: usize, now: u32) -> (r: RelayStatus)
        requires
            idx < 4,
        ensures
            r == bank_relay_status(self@, idx as int, now),
    {
        let relay = &self.relays[idx];
        let enabled = if relay.is_low {
            RelayState::On
        } else {
            RelayState::Off
        };
        let delta = now.wrapping_sub(relay.last_toggle_tick);
        RelayStatus { enabled, seconds_in_state: delta / TICKS_PER_SECOND }
    }

    /// The status of every relay at tick `now`.
    pub fn current_state(&self, now: u32) -> (r: ShelfStatus)
        ensures
            forall|i: int| 0 <= i < 4 ==> #[trigger] r.relays@[i] == bank_relay_status(self@, i, now),
    {
        let r = ShelfStatus {
            relays: [
                self.relay_status(0, now),
                self.relay_status(1, now),
                self.relay_status(2, now),
                self.relay_status(3, now),
            ],
        };
        r
    }
}

/// Once a command has set a relay on, a command to switch it off
/// `MIN_TOGGLE_DELTA` ticks later or sooner is refused and the relay stays on.
pub proof fn lemma_anti_flap(v: BankView, i: int, t0: u32, t1: u32)
    requires
        0 <= i < 4,
        v.on.len() == 4,
        v.toggled.len() == 4,
        bank_set_relay(v, i, true, t0).1,
        t1.wrapping_sub(t0) <= MIN_TOGGLE_DELTA,
    ensures
        bank_set_relay(v, i, true, t0).0.on[i],
        !bank_set_relay(bank_set_relay(v, i, true, t0).0, i, false, t1).1,
        bank_set_relay(bank_set_relay(v, i, true, t0).0, i, false, t1).0 == bank_set_relay(
            v,
            i,
            true,
            t0,
        ).0,
{
}

} // verus!
