//! Turns successive device-state snapshots into lifecycle events.
use vstd::prelude::*;
use crate::events::UPSEvent;
use crate::models::{DevicePowerState, DeviceState};

verus! {

/// A flag went up: it is set now and was not known to be set before
pub open spec fn rises(prev: Option<bool>, cur: bool) -> bool {
    cur && prev != Some(true)
}

/// A flag went down: it was set before and is not now
pub open spec fn falls(prev: Option<bool>, cur: bool) -> bool {
    !cur && prev == Some(true)
}

pub open spec fn one_if(b: bool, e: UPSEvent) -> Seq<UPSEvent> {
    if b { seq![e] } else { seq![] }
}

pub open spec fn prev_flag(prev: Option<DeviceState>, f: spec_fn(DeviceState) -> bool) -> Option<bool> {
    match prev {
        Some(p) => Some(f(p)),
        None => None,
    }
}

pub open spec fn on_battery(s: DeviceState) -> bool {
    s.device_power_state == DevicePowerState::Battery
}

/// The events that a new snapshot gives after `prev` (None: no snapshot yet),
/// in the order self test, low battery, power source, fault
pub open spec fn events_for(prev: Option<DeviceState>, cur: DeviceState) -> Seq<UPSEvent> {
    let test = prev_flag(prev, |s: DeviceState| s.battery_self_test);
    let low = prev_flag(prev, |s: DeviceState| s.battery_low);
    let bat = prev_flag(prev, |s: DeviceState| on_battery(s));
    let fault = prev_flag(prev, |s: DeviceState| s.fault_mode);
    one_if(rises(test, cur.battery_self_test), UPSEvent::BatteryTestStart)
        + one_if(falls(test, cur.battery_self_test), UPSEvent::BatteryTestEnd)
        + one_if(rises(low, cur.battery_low), UPSEvent::LowBatteryModeStart)
        + one_if(falls(low, cur.battery_low), UPSEvent::LowBatteryModeEnd)
        + one_if(rises(bat, on_battery(cur)), UPSEvent::ACFailure)
        + one_if(falls(bat, on_battery(cur)), UPSEvent::ACRecovery)
        + one_if(rises(fault, cur.fault_mode), UPSEvent::UPSFault)
}

/// Number of occurrences of `e` in `s`
pub open spec fn count_of(s: Seq<UPSEvent>, e: UPSEvent) -> nat
    decreases s.len(),
{
    if s.len() == 0 {
        0
    } else {
        count_of(s.drop_last(), e) + if s.last() == e { 1nat } else { 0nat }
    }
}

fn push_if(out: &mut Vec<UPSEvent>, b: bool, e: UPSEvent)
    ensures
        final(out)@ == old(out)@ + one_if(b, e),
{
    if b {
        out.push(e);
    }
    assert(final(out)@ =~= old(out)@ + one_if(b, e));
}

/// Events that the change from `last` to `current` gives
pub fn derive_events(last: Option<DeviceState>, current: &DeviceState) -> (r: Vec<UPSEvent>)
    ensures
        r@ == events_for(last, *current),
{
    let (test, low, bat, fault) = match last {
        Some(p) => (
            Some(p.battery_self_test),
            Some(p.battery_low),
            Some(p.device_power_state == DevicePowerState::Battery),
            Some(p.fault_mode),
        ),
        None => (None, None, None, None),
    };
    let cur_bat = current.device_power_state == DevicePowerState::Battery;
    let mut out: Vec<UPSEvent> = Vec::new();
    push_if(&mut out, current.battery_self_test && test != Some(true), UPSEvent::BatteryTestStart);
    push_if(&mut out, !current.battery_self_test && test == Some(true), UPSEvent::BatteryTestEnd);
    push_if(&mut out, current.battery_low && low != Some(true), UPSEvent::LowBatteryModeStart);
    push_if(&mut out, !current.battery_low && low == Some(true), UPSEvent::LowBatteryModeEnd);
    push_if(&mut out, cur_bat && bat != Some(true), UPSEvent::ACFailure);
    push_if(&mut out, !cur_bat && bat == Some(true), UPSEvent::ACRecovery);
    push_if(&mut out, current.fault_mode && fault != Some(true), UPSEvent::UPSFault);
    assert(out@ =~= events_for(last, *current));
    out
}

/// Keeps the last snapshot seen and derives events from each new one
pub struct UPSWatcher {
    pub last_device_state: Option<DeviceState>,
}

impl UPSWatcher {
    pub fn new() -> (r: UPSWatcher)
        ensures
            r.last_device_state is None,
    {
        UPSWatcher { last_device_state: None }
    }

    /// Handles the outcome of one poll: a snapshot gives its events and
    /// becomes the last one; a failed poll (None) gives nothing and keeps the
    /// last snapshot
    pub fn process_device_state(&mut self, polled: Option<DeviceState>) -> (r: Vec<UPSEvent>)
        ensures
            match polled {
                Some(s) => r@ == events_for(old(self).last_device_state, s)
                    && final(self).last_device_state == Some(s),
                None => r@.len() == 0 && final(self).last_device_state == old(self).last_device_state,
            },
    {
        match polled {
            Some(s) => {
                let events = derive_events(self.last_device_state, &s);
                self.last_device_state = Some(s);
                events
            },
            None => Vec::new(),
        }
    }
}

pub proof fn lemma_count_concat(a: Seq<UPSEvent>, b: Seq<UPSEvent>, e: UPSEvent)
    ensures
        count_of(a + b, e) == count_of(a, e) + count_of(b, e),
    decreases b.len(),
{
    if b.len() > 0 {
        assert((a + b).drop_last() =~= a + b.drop_last());
        lemma_count_concat(a, b.drop_last(), e);
    } else {
        assert(a + b =~= a);
    }
}

proof fn lemma_count_one_if(b: bool, x: UPSEvent, e: UPSEvent)
    ensures
        count_of(one_if(b, x), e) == if b && x == e { 1nat } else { 0nat },
{
    if b {
        let s = seq![x];
        assert(s.drop_last() =~= Seq::<UPSEvent>::empty());
        assert(count_of(s.drop_last(), e) == 0);
        assert(s.last() == x);
        assert(count_of(s, e) == count_of(s.drop_last(), e) + if s.last() == e { 1nat } else { 0nat });
    } else {
        assert(one_if(b, x).len() == 0);
    }
}

proof fn lemma_count_events(prev: Option<DeviceState>, cur: DeviceState, e: UPSEvent)
    ensures
        count_of(events_for(prev, cur), e) == (
            (if rises(prev_flag(prev, |s: DeviceState| s.battery_self_test), cur.battery_self_test) && e == UPSEvent::BatteryTestStart { 1nat } else { 0nat })
            + (if falls(prev_flag(prev, |s: DeviceState| s.battery_self_test), cur.battery_self_test) && e == UPSEvent::BatteryTestEnd { 1nat } else { 0nat })
            + (if rises(prev_flag(prev, |s: DeviceState| s.battery_low), cur.battery_low) && e == UPSEvent::LowBatteryModeStart { 1nat } else { 0nat })
            + (if falls(prev_flag(prev, |s: DeviceState| s.battery_low), cur.battery_low) && e == UPSEvent::LowBatteryModeEnd { 1nat } else { 0nat })
            + (if rises(prev_flag(prev, |s: DeviceState| on_battery(s)), on_battery(cur)) && e == UPSEvent::ACFailure { 1nat } else { 0nat })
            + (if falls(prev_flag(prev, |s: DeviceState| on_battery(s)), on_battery(cur)) && e == UPSEvent::ACRecovery { 1nat } else { 0nat })
            + (if rises(prev_flag(prev, |s: DeviceState| s.fault_mode), cur.fault_mode) && e == UPSEvent::UPSFault { 1nat } else { 0nat })
        ),
{
    let test = prev_flag(prev, |s: DeviceState| s.battery_self_test);
    let low = prev_flag(prev, |s: DeviceState| s.battery_low);
    let bat = prev_flag(prev, |s: DeviceState| on_battery(s));
    let fault = prev_flag(prev, |s: DeviceState| s.fault_mode);
    let s1 = one_if(rises(test, cur.battery_self_test), UPSEvent::BatteryTestStart);
    let s2 = one_if(falls(test, cur.battery_self_test), UPSEvent::BatteryTestEnd);
    let s3 = one_if(rises(low, cur.battery_low), UPSEvent::LowBatteryModeStart);
    let s4 = one_if(falls(low, cur.battery_low), UPSEvent::LowBatteryModeEnd);
    let s5 = one_if(rises(bat, on_battery(cur)), UPSEvent::ACFailure);
    let s6 = one_if(falls(bat, on_battery(cur)), UPSEvent::ACRecovery);
    let s7 = one_if(rises(fault, cur.fault_mode), UPSEvent::UPSFault);
    lemma_count_concat(s1, s2, e);
    lemma_count_concat(s1 + s2, s3, e);
    lemma_count_concat(s1 + s2 + s3, s4, e);
    lemma_count_concat(s1 + s2 + s3 + s4, s5, e);
    lemma_count_concat(s1 + s2 + s3 + s4 + s5, s6, e);
    lemma_count_concat(s1 + s2 + s3 + s4 + s5 + s6, s7, e);
    lemma_count_one_if(rises(test, cur.battery_self_test), UPSEvent::BatteryTestStart, e);
    lemma_count_one_if(falls(test, cur.battery_self_test), UPSEvent::BatteryTestEnd, e);
    lemma_count_one_if(rises(low, cur.battery_low), UPSEvent::LowBatteryModeStart, e);
    lemma_count_one_if(falls(low, cur.battery_low), UPSEvent::LowBatteryModeEnd, e);
    lemma_count_one_if(rises(bat, on_battery(cur)), UPSEvent::ACFailure, e);
    lemma_count_one_if(falls(bat, on_battery(cur)), UPSEvent::ACRecovery, e);
    lemma_count_one_if(rises(fault, cur.fault_mode), UPSEvent::UPSFault, e);
}

/// The first snapshot that shows low battery gives `LowBatteryModeStart`
/// exactly once.
pub proof fn lemma_first_low_battery_emits_once(cur: DeviceState)
    requires
        cur.battery_low,
    ensures
        count_of(events_for(None, cur), UPSEvent::LowBatteryModeStart) == 1,
{
    lemma_count_events(None, cur, UPSEvent::LowBatteryModeStart);
}

/// The first snapshot that shows the UPS on battery gives `ACFailure`
/// exactly once.
pub proof fn lemma_first_on_battery_emits_ac_failure_once(cur: DeviceState)
    requires
        cur.device_power_state == DevicePowerState::Battery,
    ensures
        count_of(events_for(None, cur), UPSEvent::ACFailure) == 1,
{
    lemma_count_events(None, cur, UPSEvent::ACFailure);
}

} // verus!
