use vstd::prelude::*;

use crate::arbiter::{first_valid, keep_valid, topq_insert, Topq, TopqItem};
use crate::icd::RelayCommand;
use crate::relays::{RelayIdx, RelayState, relay_index};

verus! {

/// Number of relays on a shelf.
pub const SHELF_RELAYS: usize = 4;

/// Seconds a scheduled setting stays valid after each poll.
pub const SCHEDULE_HOLD_SECS: u64 = 15;

/// Least seconds between two transmissions of the relay settings.
pub const TX_INTERVAL_SECS: u64 = 3;

/// Who asked for a relay setting; an override beats the schedule.
#[derive(Debug, Clone, Copy, PartialEq, Eq, Structural)]
pub enum RelayPriority {
    Scheduled,
    Override,
}

/// The queue priority of a relay priority.
pub open spec fn prio_value(p: RelayPriority) -> u8 {
    match p {
        RelayPriority::Scheduled => 0,
        RelayPriority::Override => 1,
    }
}

impl RelayPriority {
    /// The queue priority of this relay priority.
    pub fn value(self) -> (r: u8)
        ensures
            r == prio_value(self),
    {
        match self {
            RelayPriority::Scheduled => 0,
            RelayPriority::Override => 1,
        }
    }
}

/// Whether the lights are scheduled on at `time_of_day` (seconds since midnight).
pub open spec fn scheduled_on(start_time: u32, end_time: u32, time_of_day: u32) -> bool {
    start_time <= time_of_day && time_of_day <= end_time
}

/// The gateway's view of one plant shelf: a timed priority queue per relay
/// that merges the daily schedule with manual overrides.
pub struct Plant {
    start_time: u32,
    end_time: u32,
    state: Vec<Topq>,
    last_tx: Option<u64>,
}

/// Index of a relay as a shelf position.
fn relay_at(idx: usize) -> (r: RelayIdx)
    requires
        idx < SHELF_RELAYS,
    ensures
        relay_index(r) == idx,
{
    if idx == 0 {
        RelayIdx::Relay0
    } else if idx == 1 {
        RelayIdx::Relay1
    } else if idx == 2 {
        RelayIdx::Relay2
    } else {
        RelayIdx::Relay3
    }
}

impl Plant {
    pub closed spec fn spec_queues(&self) -> Seq<Seq<TopqItem>> {
        Seq::new(self.state@.len(), |i: int| self.state@[i]@)
    }

    pub closed spec fn spec_start_time(&self) -> u32 {
        self.start_time
    }

    pub closed spec fn spec_end_time(&self) -> u32 {
        self.end_time
    }

    pub closed spec fn spec_last_tx(&self) -> Option<u64> {
        self.last_tx
    }

    pub closed spec fn wf(&self) -> bool {
        &&& self.state@.len() == SHELF_RELAYS
        &&& forall|i: int| 0 <= i < SHELF_RELAYS ==> (#[trigger] self.state@[i]).wf()
    }

    /// A well-formed shelf has one queue per relay.
    pub proof fn lemma_queue_count(&self)
        requires
            self.wf(),
        ensures
            self.spec_queues().len() == SHELF_RELAYS,
    {
    }

    /// A shelf scheduled on from `start_time` to `end_time` (seconds since
    /// midnight), with no setting yet.
    pub fn new(start_time: u32, end_time: u32) -> (r: Plant)
        ensures
            r.wf(),
            r.spec_start_time() == start_time,
            r.spec_end_time() == end_time,
            r.spec_last_tx() is None,
            r.spec_queues().len() == SHELF_RELAYS,
            forall|i: int| 0 <= i < SHELF_RELAYS ==> #[trigger] r.spec_queues()[i] == Seq::<TopqItem>::empty(),
    {
        let mut state: Vec<Topq> = Vec::new();
        let mut i: usize = 0;
        while i < SHELF_RELAYS
            invariant
                i <= SHELF_RELAYS,
                state@.len() == i,
                forall|k: int| 0 <= k < i ==> (#[trigger] state@[k]).wf() && state@[k]@ == Seq::<TopqItem>::empty(),
            decreases SHELF_RELAYS - i,
        {
            state.push(Topq::new());
            i = i + 1;
        }
        Plant { start_time, end_time, state, last_tx: None }
    }

    /// Inserts into the queue of relay `idx`.
    fn insert_at(&mut self, idx: usize, item: bool, prio: u8, valid_for: u64, now: u64)
        requires
            old(self).wf(),
            idx < SHELF_RELAYS,
        ensures
            final(self).wf(),
            final(self).spec_start_time() == old(self).spec_start_time(),
            final(self).spec_end_time() == old(self).spec_end_time(),
            final(self).spec_last_tx() == old(self).spec_last_tx(),
            final(self).spec_queues() == old(self).spec_queues().update(
                idx as int,
                topq_insert(
                    keep_valid(old(self).spec_queues()[idx as int], now),
                    TopqItem { item, prio, start_time: now, expiry_time: now.wrapping_add(valid_for) },
                ),
            ),
    {
        let ghost before = self.state@;
        let mut q = self.state.remove(idx);
        q.insert(item, prio, valid_for, now);
        self.state.insert(idx, q);
        assert(self.spec_queues() =~= old(self).spec_queues().update(
            idx as int,
            topq_insert(
                keep_valid(old(self).spec_queues()[idx as int], now),
                TopqItem { item, prio, start_time: now, expiry_time: now.wrapping_add(valid_for) },
            ),
        ));
        assert forall|i: int| 0 <= i < SHELF_RELAYS implies (#[trigger] self.state@[i]).wf() by {
            if i != idx {
                assert(self.state@[i] == before[i]);
            }
        }
    }

    /// Forces relay `idx` to `setting` for `duration_sec` seconds from `now`,
    /// over the schedule. There is no relay past the fourth.
    pub fn force(&mut self, idx: usize, setting: bool, duration_sec: u64, now: u64) -> (r: Result<(), ()>)
        requires
            old(self).wf(),
        ensures
            final(self).wf(),
            final(self).spec_queues().len() == SHELF_RELAYS,
            final(self).spec_start_time() == old(self).spec_start_time(),
            final(self).spec_end_time() == old(self).spec_end_time(),
            idx >= SHELF_RELAYS ==> r is Err && *final(self) == *old(self),
            idx < SHELF_RELAYS ==> r is Ok && final(self).spec_queues() == old(self).spec_queues().update(
                idx as int,
                topq_insert(
                    keep_valid(old(self).spec_queues()[idx as int], now),
                    TopqItem {
                        item: setting,
                        prio: prio_value(RelayPriority::Override),
                        start_time: now,
                        expiry_time: now.wrapping_add(duration_sec),
                    },
                ),
            ),
            final(self).spec_last_tx() == old(self).spec_last_tx(),
    {
        if idx >= SHELF_RELAYS {
            return Err(());
        }
        self.insert_at(idx, setting, RelayPriority::Override.value(), duration_sec, now);
        Ok(())
    }

    /// One poll at `now` (seconds) and `time_of_day` (seconds since
    /// midnight): every relay gets the schedule's setting for the next
    /// `SCHEDULE_HOLD_SECS` seconds, and the winning settings are read back.
    /// They are handed out for transmission on the first poll and then at
    /// most every `TX_INTERVAL_SECS` seconds. A relay with no valid setting
    /// is an error.
    pub fn poll(&mut self, now: u64, time_of_day: u32) -> (r: Result<Option<Vec<RelayCommand>>, ()>)
        requires
            old(self).wf(),
        ensures
            final(self).wf(),
            final(self).spec_queues().len() == SHELF_RELAYS,
            final(self).spec_start_time() == old(self).spec_start_time(),
            final(self).spec_end_time() == old(self).spec_end_time(),
            forall|i: int| 0 <= i < SHELF_RELAYS ==> #[trigger] final(self).spec_queues()[i] == topq_insert(
                keep_valid(old(self).spec_queues()[i], now),
                TopqItem {
                    item: scheduled_on(old(self).spec_start_time(), old(self).spec_end_time(), time_of_day),
                    prio: prio_value(RelayPriority::Scheduled),
                    start_time: now,
                    expiry_time: now.wrapping_add(SCHEDULE_HOLD_SECS),
                },
            ),
            (exists|i: int| 0 <= i < SHELF_RELAYS && first_valid(#[trigger] final(self).spec_queues()[i], now) is None)
                <==> r is Err,
            r is Err ==> final(self).spec_last_tx() == old(self).spec_last_tx(),
            r matches Ok(out) ==> ({
                let due = match old(self).spec_last_tx() {
                    None => true,
                    Some(t) => now.wrapping_sub(t) >= TX_INTERVAL_SECS,
                };
                &&& due ==> final(self).spec_last_tx() == Some(now)
                &&& !due ==> final(self).spec_last_tx() == old(self).spec_last_tx() && out is None
                &&& due ==> (out matches Some(cmds) && cmds@.len() == SHELF_RELAYS && forall|i: int|
                    0 <= i < SHELF_RELAYS ==> relay_index(#[trigger] cmds@[i].relay) == i
                        && cmds@[i].state == (if first_valid(final(self).spec_queues()[i], now)->Some_0.item {
                        RelayState::On
                    } else {
                        RelayState::Off
                    }))
            }),
    {
        let be_on = self.start_time <= time_of_day && time_of_day <= self.end_time;
        let prio = RelayPriority::Scheduled.value();
        let mut i: usize = 0;
        while i < SHELF_RELAYS
            invariant
                i <= SHELF_RELAYS,
                self.wf(),
                self.start_time == old(self).start_time,
                self.end_time == old(self).end_time,
                self.last_tx == old(self).last_tx,
                be_on == scheduled_on(old(self).spec_start_time(), old(self).spec_end_time(), time_of_day),
                prio == prio_value(RelayPriority::Scheduled),
                forall|k: int| 0 <= k < i ==> #[trigger] self.spec_queues()[k] == topq_insert(
                    keep_valid(old(self).spec_queues()[k], now),
                    TopqItem { item: be_on, prio, start_time: now, expiry_time: now.wrapping_add(SCHEDULE_HOLD_SECS) },
                ),
                forall|k: int| i <= k < SHELF_RELAYS ==> #[trigger] self.spec_queues()[k] == old(self).spec_queues()[k],
            decreases SHELF_RELAYS - i,
        {
            self.insert_at(i, be_on, prio, SCHEDULE_HOLD_SECS, now);
            i = i + 1;
        }
        let ghost mid = self.spec_queues();
        let mut result: Vec<bool> = Vec::new();
        let mut j: usize = 0;
        while j < SHELF_RELAYS
            invariant
                j <= SHELF_RELAYS,
                self.wf(),
                self.spec_queues() == mid,
                be_on == scheduled_on(old(self).spec_start_time(), old(self).spec_end_time(), time_of_day),
                prio == prio_value(RelayPriority::Scheduled),
                self.start_time == old(self).start_time,
                self.end_time == old(self).end_time,
                self.last_tx == old(self).last_tx,
                forall|k: int| 0 <= k < SHELF_RELAYS ==> #[trigger] mid[k] == topq_insert(
                    keep_valid(old(self).spec_queues()[k], now),
                    TopqItem { item: be_on, prio, start_time: now, expiry_time: now.wrapping_add(SCHEDULE_HOLD_SECS) },
                ),
                result@.len() == j,
                forall|k: int| 0 <= k < j ==> (first_valid(#[trigger] self.spec_queues()[k], now) matches Some(e) && e.item == result@[k]),
            decreases SHELF_RELAYS - j,
        {
            assert(self.spec_queues()[j as int] == self.state@[j as int]@);
            match self.state[j].get_data(now) {
                Some(v) => result.push(v),
                None => {
                    assert(first_valid(self.spec_queues()[j as int], now) is None);
                    return Err(());
                },
            }
            j = j + 1;
        }
        let due = match self.last_tx {
            None => true,
            Some(t) => now.wrapping_sub(t) >= TX_INTERVAL_SECS,
        };
        if !due {
            return Ok(None);
        }
        self.last_tx = Some(now);
        let mut cmds: Vec<RelayCommand> = Vec::new();
        let mut k: usize = 0;
        while k < SHELF_RELAYS
            invariant
                k <= SHELF_RELAYS,
                result@.len() == SHELF_RELAYS,
                cmds@.len() == k,
                forall|m: int| 0 <= m < k ==> relay_index(#[trigger] cmds@[m].relay) == m && cmds@[m].state == (
                    if result@[m] { RelayState::On } else { RelayState::Off }),
            decreases SHELF_RELAYS - k,
        {
            let state = RelayState::from(result[k]);
            cmds.push(RelayCommand { relay: relay_at(k), state });
            k = k + 1;
        }
        Ok(Some(cmds))
    }
}

} // verus!
