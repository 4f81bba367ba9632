use vstd::prelude::*;

use crate::plant::Plant;

verus! {

/// Why a manual override was refused.
#[derive(Debug, Clone, Copy, PartialEq, Eq, Structural)]
pub enum OverrideError {
    /// Only shelf zero exists.
    BadShelf,
    /// The setting is neither `on` nor `off`.
    BadSetting,
    /// There is no such relay on the shelf.
    BadRelay,
}

/// The greeting of the REST root.
pub fn index() -> (r: &'static str)
    ensures
        r@ == "Hello, world!"@,
{
    "Hello, world!"
}

/// The relay setting a path segment names: `on` or `off`.
pub open spec fn setting_of(s: Seq<char>) -> Option<bool> {
    if s == seq!['o', 'n'] {
        Some(true)
    } else if s == seq!['o', 'f', 'f'] {
        Some(false)
    } else {
        None
    }
}

/// Reads an `on` or `off` setting.
pub fn parse_setting(setting: &str) -> (r: Option<bool>)
    ensures
        r == setting_of(setting@),
{
    let n = setting.unicode_len();
    if n == 2 && setting.get_char(0) == 'o' && setting.get_char(1) == 'n' {
        assert(setting@ =~= seq!['o', 'n']);
        return Some(true);
    }
    if n == 3 && setting.get_char(0) == 'o' && setting.get_char(1) == 'f' && setting.get_char(2) == 'f' {
        assert(setting@ =~= seq!['o', 'f', 'f']);
        return Some(false);
    }
    proof {
        if setting@ =~= seq!['o', 'n'] {
            assert(setting@[0] == 'o' && setting@[1] == 'n');
        }
        if setting@ =~= seq!['o', 'f', 'f'] {
            assert(setting@[0] == 'o' && setting@[1] == 'f' && setting@[2] == 'f');
        }
    }
    None
}

/// Handles a request to force `relay` of `shelf` to `setting` for
/// `time_sec` seconds from `now`; on success gives the forced value.
pub fn plant_override(
    plant: &mut Plant,
    shelf: usize,
    relay: usize,
    setting: &str,
    time_sec: u64,
    now: u64,
) -> (r: Result<bool, OverrideError>)
    requires
        old(plant).wf(),
    ensures
        final(plant).wf(),
        final(plant).spec_queues().len() == crate::plant::SHELF_RELAYS,
        shelf != 0 ==> r == Err::<bool, OverrideError>(OverrideError::BadShelf) && *final(plant) == *old(plant),
        shelf == 0 && setting_of(setting@) is None ==> r == Err::<bool, OverrideError>(OverrideError::BadSetting)
            && *final(plant) == *old(plant),
        shelf == 0 && setting_of(setting@) is Some && relay >= 4 ==> r == Err::<bool, OverrideError>(
            OverrideError::BadRelay,
        ) && *final(plant) == *old(plant),
        shelf == 0 && setting_of(setting@) is Some && relay < 4 ==> r == Ok::<bool, OverrideError>(
            setting_of(setting@)->Some_0,
        ) && final(plant).spec_queues() == old(plant).spec_queues().update(
            relay as int,
            crate::arbiter::topq_insert(
                crate::arbiter::keep_valid(old(plant).spec_queues()[relay as int], now),
                crate::arbiter::TopqItem {
                    item: setting_of(setting@)->Some_0,
                    prio: crate::plant::prio_value(crate::plant::RelayPriority::Override),
                    start_time: now,
                    expiry_time: now.wrapping_add(time_sec),
                },
            ),
        ),
{
    proof {
        plant.lemma_queue_count();
    }
    if shelf != 0 {
        return Err(OverrideError::BadShelf);
    }
    let stg = match parse_setting(setting) {
        Some(v) => v,
        None => {
            return Err(OverrideError::BadSetting);
        },
    };
    match plant.force(relay, stg, time_sec, now) {
        Ok(()) => Ok(stg),
        Err(()) => Err(OverrideError::BadRelay),
    }
}

} // verus!
