//! Short-lived cache of device responses, keyed by command.
use vstd::prelude::*;
use std::collections::HashMap;
use crate::commands::ExecuteResponse;
use crate::models::{DeviceBattery, DeviceState};

verus! {

broadcast use vstd::std_specs::hash::group_hash_axioms;

/// A decoded device response
#[derive(Debug, Clone, Copy, PartialEq, Eq, Structural)]
pub enum CommandResponse {
    Battery(DeviceBattery),
    State(DeviceState),
    Execute(ExecuteResponse),
    /// The command answers with nothing to decode
    Done,
}

/// A cached response and the instant (milliseconds on a monotonic clock)
/// at which it stops being valid
#[derive(Debug, Clone, Copy, PartialEq, Eq, Structural)]
pub struct CachedValue {
    pub value: CommandResponse,
    pub expires_at: u64,
}

/// How long a response stays cached, in milliseconds
pub const CACHE_TIME: u64 = 1000;

pub open spec fn expiry_after(now: u64) -> u64 {
    if now + CACHE_TIME > u64::MAX { u64::MAX } else { (now + CACHE_TIME) as u64 }
}

/// An entry is live while its expiry is still ahead of `now`
pub open spec fn live(v: CachedValue, now: u64) -> bool {
    v.expires_at > now
}

/// Cache of device responses, owned by the worker that talks to the device
pub struct ResponseCache {
    cache: HashMap<u64, CachedValue>,
}

impl ResponseCache {
    pub closed spec fn view(&self) -> Map<u64, CachedValue> {
        self.cache@
    }

    pub fn new() -> (r: ResponseCache)
        ensures
            r@ == Map::<u64, CachedValue>::empty(),
    {
        ResponseCache { cache: HashMap::new() }
    }

    /// The live response cached under `cache_key`; an expired entry is
    /// dropped
    pub fn get(&mut self, cache_key: Option<u64>, now: u64) -> (r: Option<CommandResponse>)
        ensures
            match cache_key {
                Some(k) => if old(self)@.contains_key(k) && live(old(self)@[k], now) {
                    r == Some(old(self)@[k].value) && final(self)@ == old(self)@
                } else {
                    r is None && final(self)@ == old(self)@.remove(k)
                },
                None => r is None && final(self)@ == old(self)@,
            },
            r is Some ==> cache_key is Some && old(self)@[cache_key->Some_0].expires_at >= now,
    {
        let k = match cache_key {
            Some(k) => k,
            None => return None,
        };
        let found = match self.cache.get(&k) {
            Some(v) => *v,
            None => {
                assert(old(self)@.remove(k) =~= old(self)@);
                return None;
            },
        };
        if found.expires_at <= now {
            self.remove(k);
            return None;
        }
        Some(found.value)
    }

    /// Caches `value` under `cache_key` for `CACHE_TIME` from `now`
    pub fn insert(&mut self, cache_key: u64, value: CommandResponse, now: u64)
        ensures
            final(self)@ == old(self)@.insert(cache_key, CachedValue { value, expires_at: expiry_after(now) }),
    {
        let expires_at = now.saturating_add(CACHE_TIME);
        self.cache.insert(cache_key, CachedValue { value, expires_at });
    }

    /// Drops what is cached under `cache_key`
    pub fn remove(&mut self, cache_key: u64)
        ensures
            final(self)@ == old(self)@.remove(cache_key),
    {
        self.cache.remove(&cache_key);
    }
}

/// The live response cached under `cache_key`, leaving the cache as it is
pub fn get_cached_response(cache_key: Option<u64>, cache: &ResponseCache, now: u64) -> (r: Option<CommandResponse>)
    ensures
        r == (match cache_key {
            Some(k) => if cache@.contains_key(k) && live(cache@[k], now) {
                Some(cache@[k].value)
            } else {
                None
            },
            None => None,
        }),
{
    let k = match cache_key {
        Some(k) => k,
        None => return None,
    };
    match cache.cache.get(&k) {
        Some(v) => if v.expires_at <= now {
            None
        } else {
            Some(v.value)
        },
        None => None,
    }
}

} // verus!
