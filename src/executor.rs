//! Decisions of the worker that owns the device: answering from the cache,
//! one round trip at a time, decoding, caching and invalidation, and
//! reopening the device after a disconnect.
use vstd::prelude::*;
use crate::cache::{expiry_after, live, CachedValue, CommandResponse, ResponseCache};
use crate::commands::{
    battery_response, cache_key_of, command_text, execute_response, invalidate_spec,
    parse_device_battery, parse_device_state, parse_execute_response, state_response,
    DeviceCommand, ParseError,
};

verus! {

/// How a device round trip ended, as the worker's I/O side reports it
#[derive(Debug, Clone, PartialEq, Eq)]
pub enum DeviceOutcome {
    /// The response text, up to the carriage return
    Response(String),
    /// The device is gone; the handle has to be reopened
    Disconnected,
    /// Another read or write failure
    Failed,
}

/// Why a command failed
#[derive(Debug, Clone, Copy, PartialEq, Eq, Structural)]
pub enum CommandError {
    /// The device could not be written or read
    Transport,
    /// The response did not parse
    Protocol(ParseError),
}

/// What the worker does next with a command
#[derive(Debug, Clone, PartialEq, Eq)]
pub enum WorkerStep {
    /// Answer with a cached response; the device is not touched
    Cached(CommandResponse),
    /// Write this request text and read the response
    RoundTrip(String),
}

/// What the worker does once a round trip has ended
#[derive(Debug, Clone, Copy, PartialEq, Eq)]
pub enum Completion {
    /// Reply to the caller
    Reply(Result<CommandResponse, CommandError>),
    /// Reopen the device, then run the same command again
    Reconnect,
}

/// The response that a command's text decodes to
pub open spec fn decode_spec(c: DeviceCommand, text: Seq<char>) -> Result<CommandResponse, CommandError> {
    match c {
        DeviceCommand::QueryDeviceBattery => match battery_response(text) {
            Ok(b) => Ok(CommandResponse::Battery(b)),
            Err(e) => Err(CommandError::Protocol(e)),
        },
        DeviceCommand::QueryDeviceState => match state_response(text) {
            Ok(s) => Ok(CommandResponse::State(s)),
            Err(e) => Err(CommandError::Protocol(e)),
        },
        DeviceCommand::CancelBatteryTest => match execute_response(text) {
            Ok(x) => Ok(CommandResponse::Execute(x)),
            Err(e) => Err(CommandError::Protocol(e)),
        },
        _ => Ok(CommandResponse::Done),
    }
}

/// The cache after a round trip of `c` that gave `result`: a successful
/// response of a cached command is stored, then stale keys are dropped
pub open spec fn cache_after(
    c: DeviceCommand,
    m: Map<u64, CachedValue>,
    result: Result<CommandResponse, CommandError>,
    now: u64,
) -> Map<u64, CachedValue> {
    let stored = match (cache_key_of(c), result) {
        (Some(k), Ok(v)) => m.insert(k, CachedValue { value: v, expires_at: expiry_after(now) }),
        _ => m,
    };
    invalidate_spec(c, stored)
}

/// Decodes the response text of a command
pub fn decode_response(c: DeviceCommand, text: &str) -> (r: Result<CommandResponse, CommandError>)
    ensures
        r == decode_spec(c, text@),
{
    match c {
        DeviceCommand::QueryDeviceBattery => match parse_device_battery(text) {
            Ok(b) => Ok(CommandResponse::Battery(b)),
            Err(e) => Err(CommandError::Protocol(e)),
        },
        DeviceCommand::QueryDeviceState => match parse_device_state(text) {
            Ok(s) => Ok(CommandResponse::State(s)),
            Err(e) => Err(CommandError::Protocol(e)),
        },
        DeviceCommand::CancelBatteryTest => match parse_execute_response(text) {
            Ok(x) => Ok(CommandResponse::Execute(x)),
            Err(e) => Err(CommandError::Protocol(e)),
        },
        _ => Ok(CommandResponse::Done),
    }
}

/// The worker's state: its response cache and the command whose round trip
/// is under way, if any
pub struct CommandWorker {
    pub cache: ResponseCache,
    pub in_flight: Option<DeviceCommand>,
}

/// Number of round trips under way
pub open spec fn in_flight_count(w: &CommandWorker) -> nat {
    if w.in_flight is Some { 1 } else { 0 }
}

impl CommandWorker {
    pub fn new() -> (r: CommandWorker)
        ensures
            r.cache@ == Map::<u64, CachedValue>::empty(),
            r.in_flight is None,
    {
        CommandWorker { cache: ResponseCache::new(), in_flight: None }
    }

    /// Takes the next command. A live cached response answers it at once;
    /// otherwise its round trip starts. Only an idle worker takes a command.
    pub fn begin(&mut self, command: DeviceCommand, now: u64) -> (r: WorkerStep)
        requires
            old(self).in_flight is None,
        ensures
            match cache_key_of(command) {
                Some(k) if old(self).cache@.contains_key(k) && live(old(self).cache@[k], now) => {
                    &&& r == WorkerStep::Cached(old(self).cache@[k].value)
                    &&& old(self).cache@[k].expires_at >= now
                    &&& final(self).cache@ == old(self).cache@
                    &&& final(self).in_flight is None
                },
                _ => {
                    &&& r matches WorkerStep::RoundTrip(t) && t@ == command_text(command)
                    &&& final(self).in_flight == Some(command)
                    &&& final(self).cache@ == match cache_key_of(command) {
                        Some(k) => old(self).cache@.remove(k),
                        None => old(self).cache@,
                    }
                },
            },
    {
        let key = command.cache_key();
        match self.cache.get(key, now) {
            Some(v) => WorkerStep::Cached(v),
            None => {
                self.in_flight = Some(command);
                WorkerStep::RoundTrip(command.get_command())
            },
        }
    }

    /// Ends the round trip under way. A disconnect keeps the command for a
    /// second round trip on a reopened device; any other outcome is decoded,
    /// cached and replied, and the stale keys are dropped.
    pub fn complete(&mut self, outcome: &DeviceOutcome, now: u64) -> (r: Completion)
        requires
            old(self).in_flight is Some,
        ensures
            match outcome {
                DeviceOutcome::Disconnected => {
                    &&& r == Completion::Reconnect
                    &&& final(self).in_flight == old(self).in_flight
                    &&& final(self).cache@ == old(self).cache@
                },
                DeviceOutcome::Failed => {
                    &&& r == Completion::Reply(Err(CommandError::Transport))
                    &&& final(self).in_flight is None
                    &&& final(self).cache@ == cache_after(old(self).in_flight->Some_0, old(self).cache@, Err(CommandError::Transport), now)
                },
                DeviceOutcome::Response(text) => {
                    let res = decode_spec(old(self).in_flight->Some_0, text@);
                    &&& r == Completion::Reply(res)
                    &&& final(self).in_flight is None
                    &&& final(self).cache@ == cache_after(old(self).in_flight->Some_0, old(self).cache@, res, now)
                },
            },
    {
        let command = match self.in_flight {
            Some(c) => c,
            None => return Completion::Reconnect,
        };
        let result = match outcome {
            DeviceOutcome::Disconnected => return Completion::Reconnect,
            DeviceOutcome::Failed => Err(CommandError::Transport),
            DeviceOutcome::Response(text) => decode_response(command, text.as_str()),
        };
        match (command.cache_key(), result) {
            (Some(k), Ok(v)) => self.cache.insert(k, v, now),
            _ => {},
        }
        command.invalidate_cache(&mut self.cache);
        self.in_flight = None;
        Completion::Reply(result)
    }
}

/// A worker never has more than one round trip under way.
pub proof fn lemma_one_round_trip(w: &CommandWorker)
    ensures
        in_flight_count(w) <= 1,
{
}

/// Running a command that caches nothing a second time leaves the cache as
/// the first run left it.
pub proof fn lemma_invalidation_idempotent(
    c: DeviceCommand,
    m: Map<u64, CachedValue>,
    first: Result<CommandResponse, CommandError>,
    second: Result<CommandResponse, CommandError>,
    t1: u64,
    t2: u64,
)
    requires
        cache_key_of(c) is None,
    ensures
        cache_after(c, cache_after(c, m, first, t1), second, t2) == cache_after(c, m, first, t1),
{
    match crate::commands::invalidated_key(c) {
        Some(k) => {
            assert(m.remove(k).remove(k) =~= m.remove(k));
        },
        None => {},
    }
}

/// Attempts to open the device before the worker gives up
pub const MAX_OPEN_ATTEMPTS: u32 = 5;
/// Pause between attempts to open the device, in milliseconds
pub const OPEN_RETRY_PAUSE: u64 = 5000;

/// After `failures` failed attempts to open the device: the pause before
/// the next attempt, or None to give up
pub fn reopen_pause(failures: u32) -> (r: Option<u64>)
    ensures
        r == if failures < MAX_OPEN_ATTEMPTS { Some(OPEN_RETRY_PAUSE) } else { None::<u64> },
{
    if failures < MAX_OPEN_ATTEMPTS {
        Some(OPEN_RETRY_PAUSE)
    } else {
        None
    }
}

} // verus!
