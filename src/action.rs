//! Actions of a pipeline and the rules of their delay, retry and repeat.
//! Durations are counted in milliseconds.
use vstd::prelude::*;
use std::collections::HashMap;
use crate::commands::ScheduleUPSShutdown;
use crate::events::{event_name, UPSEvent};
use crate::placeholders::{replace_event_placeholders, with_placeholders};

verus! {

/// Delay before an action runs: it runs once `duration` has elapsed or the
/// battery capacity drops below `below_capacity`, whichever comes first
#[derive(Debug, Clone, Copy, PartialEq, Eq, Structural)]
pub struct ActionDelay {
    pub duration: Option<u64>,
    pub below_capacity: Option<u8>,
}

/// How an action repeats after the ordered pass of its pipeline
#[derive(Debug, Clone, Copy, PartialEq, Eq, Structural)]
pub struct ActionRepeat {
    /// Repeat after this long
    pub interval: Option<u64>,
    /// Repeat once the capacity has dropped by this much
    pub capacity_decrease: Option<u8>,
    /// Largest number of repeated runs
    pub limit: Option<u8>,
}

/// How the wait between retries is chosen
#[derive(Debug, Clone, Copy, PartialEq, Eq, Structural)]
pub enum ActionRetryDelay {
    /// The same wait each time
    Fixed { delay: u64 },
    /// `initial`, then each wait `increment` longer than the last
    LinearBackoff { initial: u64, increment: u64 },
    /// `initial`, then each wait `exponent` times the last
    ExponentialBackoff { initial: u64, exponent: u8 },
}

/// How a failed action is retried
#[derive(Debug, Clone, Copy, PartialEq, Eq, Structural)]
pub struct ActionRetry {
    pub delay: ActionRetryDelay,
    /// Number of retries after the first run
    pub max_attempts: u8,
}

pub open spec fn sat_add(a: u64, b: u64) -> u64 {
    if a + b > u64::MAX { u64::MAX } else { (a + b) as u64 }
}

pub open spec fn sat_mul(a: u64, b: u64) -> u64 {
    if a * b > u64::MAX { u64::MAX } else { (a * b) as u64 }
}

/// `a * b`, or `u64::MAX` where the product does not fit
pub fn saturating_mul(a: u64, b: u64) -> (r: u64)
    ensures
        r == sat_mul(a, b),
{
    if b == 0 {
        return 0;
    }
    if a > u64::MAX / b {
        proof {
            assert(a * b > u64::MAX) by (nonlinear_arith)
                requires a > u64::MAX / b, b > 0;
        }
        u64::MAX
    } else {
        proof {
            assert(a * b <= u64::MAX) by (nonlinear_arith)
                requires a <= u64::MAX / b, b > 0;
        }
        a * b
    }
}

/// The wait before the next retry, given the wait before the previous one
pub open spec fn next_wait(mode: ActionRetryDelay, last: Option<u64>) -> u64 {
    match mode {
        ActionRetryDelay::Fixed { delay } => delay,
        ActionRetryDelay::LinearBackoff { initial, increment } => match last {
            Some(l) => sat_add(l, increment),
            None => initial,
        },
        ActionRetryDelay::ExponentialBackoff { initial, exponent } => match last {
            Some(l) => sat_mul(l, exponent as u64),
            None => initial,
        },
    }
}

/// The wait before retry number `k` (from 0)
pub open spec fn wait_at(mode: ActionRetryDelay, k: nat) -> u64
    decreases k,
{
    if k == 0 {
        next_wait(mode, None)
    } else {
        next_wait(mode, Some(wait_at(mode, (k - 1) as nat)))
    }
}

impl ActionRetryDelay {
    /// The wait before the next retry, given the wait before the previous one
    pub fn next_delay(&self, last: Option<u64>) -> (r: u64)
        ensures
            r == next_wait(*self, last),
    {
        match *self {
            ActionRetryDelay::Fixed { delay } => delay,
            ActionRetryDelay::LinearBackoff { initial, increment } => match last {
                Some(l) => l.saturating_add(increment),
                None => initial,
            },
            ActionRetryDelay::ExponentialBackoff { initial, exponent } => match last {
                Some(l) => saturating_mul(l, exponent as u64),
                None => initial,
            },
        }
    }
}

/// Progress of the retries of one action run
#[derive(Debug, Clone, Copy, PartialEq, Eq, Structural)]
pub struct RetryState {
    /// Retries made so far
    pub attempt: u32,
    /// Wait before the last retry
    pub last_delay: Option<u64>,
}

impl RetryState {
    pub fn new() -> (r: RetryState)
        ensures
            r.attempt == 0,
            r.last_delay is None,
    {
        RetryState { attempt: 0, last_delay: None }
    }

    /// After a failed run: the wait before the next retry, or None when the
    /// action has failed for good (no retry configured, or `max_attempts`
    /// retries made, so `max_attempts + 1` runs in all)
    pub fn after_failure(&mut self, retry: Option<ActionRetry>) -> (r: Option<u64>)
        requires
            old(self).attempt <= 255,
        ensures
            match retry {
                Some(rt) if old(self).attempt < rt.max_attempts => {
                    &&& r == Some(next_wait(rt.delay, old(self).last_delay))
                    &&& final(self).attempt == old(self).attempt + 1
                    &&& final(self).last_delay == r
                },
                _ => r is None && *final(self) == *old(self),
            },
    {
        match retry {
            Some(rt) => {
                if self.attempt >= rt.max_attempts as u32 {
                    return None;
                }
                let wait = rt.delay.next_delay(self.last_delay);
                self.attempt = self.attempt + 1;
                self.last_delay = Some(wait);
                Some(wait)
            },
            None => None,
        }
    }
}

/// The waits between the runs of an action that fails every time
pub fn retry_schedule(retry: Option<ActionRetry>) -> (r: Vec<u64>)
    ensures
        match retry {
            Some(rt) => r@.len() == rt.max_attempts as nat
                && forall|k: int| 0 <= k < r@.len() ==> r@[k] == wait_at(rt.delay, k as nat),
            None => r@.len() == 0,
        },
{
    let mut out: Vec<u64> = Vec::new();
    let mut state = RetryState::new();
    loop
        invariant
            state.attempt <= 255,
            out@.len() == state.attempt,
            match retry {
                Some(rt) => state.attempt <= rt.max_attempts
                    && forall|k: int| 0 <= k < out@.len() ==> out@[k] == wait_at(rt.delay, k as nat),
                None => state.attempt == 0,
            },
            state.attempt == 0 ==> state.last_delay is None,
            state.attempt > 0 ==> retry is Some && state.last_delay == Some(out@[out@.len() - 1]),
        decreases 256 - state.attempt,
    {
        let ghost before = state;
        match state.after_failure(retry) {
            Some(w) => {
                proof {
                    let rt = retry->Some_0;
                    if before.attempt > 0 {
                        assert(wait_at(rt.delay, before.attempt as nat) == next_wait(rt.delay, Some(wait_at(rt.delay, (before.attempt - 1) as nat))));
                    }
                }
                out.push(w);
            },
            None => {
                return out;
            },
        }
    }
}

/// Whether an action's delay is over: `elapsed` since it was scheduled, and
/// the last capacity read (None: none read yet)
pub open spec fn delay_over(d: ActionDelay, elapsed: u64, capacity: Option<u8>) -> bool {
    match (d.duration, d.below_capacity) {
        (None, None) => true,
        _ => (d.duration matches Some(t) && elapsed >= t)
            || (d.below_capacity matches Some(c) && capacity matches Some(cap) && cap < c),
    }
}

impl ActionDelay {
    /// Whether the delay is over
    pub fn is_over(&self, elapsed: u64, capacity: Option<u8>) -> (r: bool)
        ensures
            r == delay_over(*self, elapsed, capacity),
    {
        if self.duration.is_none() && self.below_capacity.is_none() {
            return true;
        }
        let timed = match self.duration {
            Some(t) => elapsed >= t,
            None => false,
        };
        let drained = match (self.below_capacity, capacity) {
            (Some(c), Some(cap)) => cap < c,
            _ => false,
        };
        timed || drained
    }

    /// Whether the battery capacity has to be polled while waiting
    pub fn polls_capacity(&self) -> (r: bool)
        ensures
            r == self.below_capacity is Some,
    {
        self.below_capacity.is_some()
    }
}

/// Highest and lowest battery capacity seen while waiting to repeat
#[derive(Debug, Clone, Copy, PartialEq, Eq, Structural)]
pub struct CapacityWindow {
    pub highest: Option<u8>,
    pub lowest: Option<u8>,
}

pub open spec fn max_u8(a: u8, b: u8) -> u8 {
    if a > b { a } else { b }
}

pub open spec fn min_u8(a: u8, b: u8) -> u8 {
    if a < b { a } else { b }
}

impl CapacityWindow {
    pub fn new() -> (r: CapacityWindow)
        ensures
            r.highest is None && r.lowest is None,
    {
        CapacityWindow { highest: None, lowest: None }
    }

    /// The window is empty or holds a highest no lower than its lowest
    pub open spec fn wf(&self) -> bool {
        match (self.highest, self.lowest) {
            (Some(h), Some(l)) => l <= h,
            (None, None) => true,
            _ => false,
        }
    }

    /// Takes one capacity reading and returns by how much the capacity has
    /// dropped: highest minus lowest seen
    pub fn observe(&mut self, capacity: u8) -> (r: u8)
        requires
            old(self).wf(),
        ensures
            final(self).wf(),
            final(self).highest == Some(match old(self).highest {
                Some(h) => max_u8(h, capacity),
                None => capacity,
            }),
            final(self).lowest == Some(match old(self).lowest {
                Some(l) => min_u8(l, capacity),
                None => capacity,
            }),
            r == final(self).highest->Some_0 - final(self).lowest->Some_0,
    {
        let highest = match self.highest {
            Some(h) => if capacity > h { capacity } else { h },
            None => capacity,
        };
        let lowest = match self.lowest {
            Some(l) => if capacity < l { capacity } else { l },
            None => capacity,
        };
        self.highest = Some(highest);
        self.lowest = Some(lowest);
        highest - lowest
    }
}

/// Whether the wait before a repeat is over, `elapsed` since it began and
/// `dropped` being the capacity drop seen so far (None: no reading yet).
/// Without an interval and a capacity drop there is nothing to wait for and
/// no repeat.
pub open spec fn repeat_wait_over(rp: ActionRepeat, elapsed: u64, dropped: Option<u8>) -> bool {
    (rp.interval matches Some(t) && elapsed >= t)
        || (rp.capacity_decrease matches Some(k) && dropped matches Some(d) && d >= k)
}

/// Whether another repeated run may start after `executions` repeated runs.
/// The first one runs unless the limit is 0; later ones need something to
/// wait for (an interval or a capacity drop) and stay within the limit.
pub open spec fn may_repeat(rp: ActionRepeat, executions: nat) -> bool {
    &&& (executions == 0 || rp.interval is Some || rp.capacity_decrease is Some)
    &&& match rp.limit {
        Some(l) => executions < l,
        None => true,
    }
}

impl ActionRepeat {
    /// Whether the wait before the next repeated run is over
    pub fn wait_over(&self, elapsed: u64, dropped: Option<u8>) -> (r: bool)
        ensures
            r == repeat_wait_over(*self, elapsed, dropped),
    {
        let timed = match self.interval {
            Some(t) => elapsed >= t,
            None => false,
        };
        let drained = match (self.capacity_decrease, dropped) {
            (Some(k), Some(d)) => d >= k,
            _ => false,
        };
        timed || drained
    }

    /// Whether another repeated run may start after `executions` of them; a
    /// limit of 0 allows none
    pub fn can_repeat(&self, executions: u32) -> (r: bool)
        ensures
            r == may_repeat(*self, executions as nat),
    {
        if executions > 0 && self.interval.is_none() && self.capacity_decrease.is_none() {
            return false;
        }
        match self.limit {
            Some(l) => executions < l as u32,
            None => true,
        }
    }
}

pub open spec fn power(b: nat, e: nat) -> nat
    decreases e,
{
    if e == 0 { 1 } else { b * power(b, (e - 1) as nat) }
}

/// Exponential backoff saturates: the wait before retry `k` is
/// `initial * exponent^k`, or `u64::MAX` once that no longer fits; it never
/// wraps around.
pub proof fn lemma_exponential_saturates(initial: u64, exponent: u8, k: nat)
    requires
        exponent >= 1,
    ensures
        wait_at(ActionRetryDelay::ExponentialBackoff { initial, exponent }, k) as int
            == if initial * power(exponent as nat, k) > u64::MAX {
                u64::MAX as int
            } else {
                initial * power(exponent as nat, k)
            },
    decreases k,
{
    let mode = ActionRetryDelay::ExponentialBackoff { initial, exponent };
    let e = exponent as nat;
    if k == 0 {
        assert(power(e, 0) == 1);
    } else {
        let km = (k - 1) as nat;
        lemma_exponential_saturates(initial, exponent, km);
        let prev = initial * power(e, km);
        let w = wait_at(mode, km);
        assert(power(e, k) == e * power(e, km));
        assert(initial * power(e, k) == prev * e) by (nonlinear_arith)
            requires power(e, k) == e * power(e, km), prev == initial * power(e, km);
        if prev > u64::MAX {
            assert(w == u64::MAX);
            assert(prev * e >= prev) by (nonlinear_arith)
                requires e >= 1, prev >= 0;
            assert((w as nat) * e >= w) by (nonlinear_arith)
                requires e >= 1;
        } else {
            assert(w as int == prev);
        }
    }
}

/// Shuts the host down
#[derive(Debug, Clone, PartialEq, Eq)]
pub struct ShutdownAction {
    /// Message to show, with event placeholders
    pub message: Option<String>,
    /// Time before the shutdown, in milliseconds
    pub timeout: Option<u64>,
    /// Whether to force running applications to close
    pub force_close_apps: bool,
}

/// Shuts the UPS itself down
#[derive(Debug, Clone, Copy, PartialEq, Eq, Structural)]
pub struct UPSShutdownAction {
    /// Delay before the UPS shuts down, in tenths of a minute
    pub delay_tenths: u32,
}

/// Runs a program
#[derive(Debug, Clone, PartialEq, Eq)]
pub struct ExecutableAction {
    /// Program to run
    pub exe: String,
    /// Its arguments, with event placeholders
    pub args: Vec<String>,
    /// Longest wait for the program, in milliseconds; reaching it is no failure
    pub timeout: Option<u64>,
}

/// Body of an HTTP request
#[derive(Debug, Clone, PartialEq, Eq)]
pub struct HttpRequestActionBody {
    /// Payload, with event placeholders
    pub payload: String,
    /// Value of the content type header
    pub content_type: String,
}

/// Sends an HTTP request; a status outside 2xx is a failure
#[derive(Debug, Clone, PartialEq, Eq)]
pub struct HttpRequestAction {
    pub url: String,
    pub method: String,
    pub headers: HashMap<String, String>,
    pub body: Option<HttpRequestActionBody>,
    /// Request timeout, in milliseconds
    pub timeout: Option<u64>,
}

/// What an action does
#[derive(Debug, Clone, PartialEq, Eq)]
pub enum ActionType {
    /// Desktop notification
    Notification,
    /// Popup dialog
    Popup,
    /// Put the host to sleep
    Sleep,
    /// Shut the host down
    Shutdown(ShutdownAction),
    /// Shut the UPS down
    USPShutdown(UPSShutdownAction),
    /// Run a program
    Executable(ExecutableAction),
    /// Send an HTTP request
    HttpRequest(HttpRequestAction),
}

/// One step of a pipeline
#[derive(Debug, Clone, PartialEq, Eq)]
pub struct Action {
    pub ty: ActionType,
    pub delay: Option<ActionDelay>,
    /// Repeats run after the ordered pass, out of order
    pub repeat: Option<ActionRepeat>,
    pub retry: Option<ActionRetry>,
}

/// Actions run in order on an event
#[derive(Debug, Clone, PartialEq, Eq)]
pub struct ActionPipeline {
    pub actions: Vec<Action>,
}

/// Message of a host shutdown: the configured one with its placeholders
/// replaced, or one naming the event
pub open spec fn shutdown_message_spec(e: UPSEvent, message: Option<String>) -> Seq<char> {
    match message {
        Some(m) => with_placeholders(e, m@),
        None => "Shutdown triggered by "@ + event_name(e) + " pipeline"@,
    }
}

impl ShutdownAction {
    /// The message shown with the shutdown
    pub fn message_for(&self, event: UPSEvent) -> (r: String)
        ensures
            r@ == shutdown_message_spec(event, self.message),
    {
        match &self.message {
            Some(m) => replace_event_placeholders(event, m.as_str()),
            None => {
                let mut out = String::from_str("Shutdown triggered by ");
                out.append(event.name());
                out.append(" pipeline");
                out
            },
        }
    }

    /// The shutdown timeout in whole seconds (0 without one)
    pub fn timeout_secs(&self) -> (r: u32)
        ensures
            r == match self.timeout {
                Some(t) => if t / 1000 > u32::MAX { u32::MAX } else { (t / 1000) as u32 },
                None => 0,
            },
    {
        match self.timeout {
            Some(t) => {
                let secs = t / 1000;
                if secs > u32::MAX as u64 { u32::MAX } else { secs as u32 }
            },
            None => 0,
        }
    }
}

impl UPSShutdownAction {
    /// The command that shuts the UPS down; it turns back on a minute later
    pub fn command(&self) -> (r: ScheduleUPSShutdown)
        ensures
            r == (ScheduleUPSShutdown { delay_tenths: self.delay_tenths, reboot_delay_minutes: 1 }),
    {
        ScheduleUPSShutdown { delay_tenths: self.delay_tenths, reboot_delay_minutes: 1 }
    }
}

impl ExecutableAction {
    /// The arguments with their placeholders replaced
    pub fn arguments_for(&self, event: UPSEvent) -> (r: Vec<String>)
        ensures
            r@.len() == self.args@.len(),
            forall|i: int| 0 <= i < r@.len() ==> #[trigger] r@[i]@ == with_placeholders(event, self.args@[i]@),
    {
        let mut out: Vec<String> = Vec::new();
        let mut i: usize = 0;
        while i < self.args.len()
            invariant
                i <= self.args.len(),
                out@.len() == i,
                forall|j: int| 0 <= j < i ==> #[trigger] out@[j]@ == with_placeholders(event, self.args@[j]@),
            decreases self.args.len() - i,
        {
            out.push(replace_event_placeholders(event, self.args[i].as_str()));
            i += 1;
        }
        out
    }
}

impl HttpRequestAction {
    /// The request body with its placeholders replaced
    pub fn payload_for(&self, event: UPSEvent) -> (r: Option<String>)
        ensures
            match self.body {
                Some(b) => r matches Some(p) && p@ == with_placeholders(event, b.payload@),
                None => r is None,
            },
    {
        match &self.body {
            Some(b) => Some(replace_event_placeholders(event, b.payload.as_str())),
            None => None,
        }
    }
}

/// Indices of the actions that have a repeat, in order
pub open spec fn repeat_indices(actions: Seq<Action>) -> Seq<usize>
    decreases actions.len(),
{
    if actions.len() == 0 {
        Seq::empty()
    } else {
        let r = repeat_indices(actions.drop_last());
        if actions.last().repeat is Some { r.push((actions.len() - 1) as usize) } else { r }
    }
}

impl ActionPipeline {
    /// Indices of the actions that repeat once the ordered pass is over
    pub fn repeated_actions(&self) -> (r: Vec<usize>)
        ensures
            r@ == repeat_indices(self.actions@),
    {
        let mut out: Vec<usize> = Vec::new();
        let mut i: usize = 0;
        while i < self.actions.len()
            invariant
                i <= self.actions.len(),
                out@ == repeat_indices(self.actions@.take(i as int)),
            decreases self.actions.len() - i,
        {
            proof {
                assert(self.actions@.take(i + 1).drop_last() =~= self.actions@.take(i as int));
            }
            if self.actions[i].repeat.is_some() {
                out.push(i);
            }
            i += 1;
        }
        assert(self.actions@.take(self.actions.len() as int) =~= self.actions@);
        out
    }
}

/// Shortest configurable duration, in milliseconds: durations are whole
/// seconds and never zero
pub const MIN_DURATION: u64 = 1000;

pub open spec fn duration_ok(t: Option<u64>) -> bool {
    t matches Some(x) ==> x >= MIN_DURATION
}

/// Whether a delay is well formed: a duration of at least a second and a
/// capacity threshold within 1..=100
pub open spec fn delay_valid(d: ActionDelay) -> bool {
    duration_ok(d.duration) && (d.below_capacity matches Some(c) ==> 1 <= c <= 100)
}

/// Whether a repeat is well formed: an interval of at least a second and a
/// capacity drop within 1..=100
pub open spec fn repeat_valid(r: ActionRepeat) -> bool {
    duration_ok(r.interval) && (r.capacity_decrease matches Some(c) ==> 1 <= c <= 100)
}

/// Whether a retry is well formed: at least one retry; fixed delays,
/// increments and initial exponential waits of at least a second; an
/// exponent within 2..=10
pub open spec fn retry_valid(r: ActionRetry) -> bool {
    &&& r.max_attempts >= 1
    &&& match r.delay {
        ActionRetryDelay::Fixed { delay } => delay >= MIN_DURATION,
        ActionRetryDelay::LinearBackoff { initial, increment } => increment >= MIN_DURATION,
        ActionRetryDelay::ExponentialBackoff { initial, exponent } => initial >= MIN_DURATION && 2 <= exponent <= 10,
    }
}

/// Whether the settings of an action's kind are well formed: non-empty
/// messages, programs and arguments, timeouts of at least a second
pub open spec fn type_valid(t: ActionType) -> bool {
    match t {
        ActionType::Shutdown(s) => (s.message matches Some(m) ==> m@.len() >= 1) && duration_ok(s.timeout),
        ActionType::Executable(e) => e.exe@.len() >= 1 && duration_ok(e.timeout)
            && forall|i: int| 0 <= i < e.args@.len() ==> (#[trigger] e.args@[i])@.len() >= 1,
        ActionType::HttpRequest(h) => duration_ok(h.timeout),
        _ => true,
    }
}

pub open spec fn action_valid(a: Action) -> bool {
    &&& type_valid(a.ty)
    &&& (a.delay matches Some(d) ==> delay_valid(d))
    &&& (a.repeat matches Some(r) ==> repeat_valid(r))
    &&& (a.retry matches Some(r) ==> retry_valid(r))
}

fn duration_is_ok(t: Option<u64>) -> (r: bool)
    ensures
        r == duration_ok(t),
{
    match t {
        Some(x) => x >= MIN_DURATION,
        None => true,
    }
}

impl ActionDelay {
    pub fn is_valid(&self) -> (r: bool)
        ensures
            r == delay_valid(*self),
    {
        let c = match self.below_capacity {
            Some(c) => 1 <= c && c <= 100,
            None => true,
        };
        duration_is_ok(self.duration) && c
    }
}

impl ActionRepeat {
    pub fn is_valid(&self) -> (r: bool)
        ensures
            r == repeat_valid(*self),
    {
        let c = match self.capacity_decrease {
            Some(c) => 1 <= c && c <= 100,
            None => true,
        };
        duration_is_ok(self.interval) && c
    }
}

impl ActionRetry {
    pub fn is_valid(&self) -> (r: bool)
        ensures
            r == retry_valid(*self),
    {
        self.max_attempts >= 1 && match self.delay {
            ActionRetryDelay::Fixed { delay } => delay >= MIN_DURATION,
            ActionRetryDelay::LinearBackoff { initial, increment } => increment >= MIN_DURATION,
            ActionRetryDelay::ExponentialBackoff { initial, exponent } => initial >= MIN_DURATION && 2 <= exponent && exponent <= 10,
        }
    }
}

impl ActionType {
    pub fn is_valid(&self) -> (r: bool)
        ensures
            r == type_valid(*self),
    {
        match self {
            ActionType::Shutdown(s) => {
                let message = match &s.message {
                    Some(m) => m.as_str().unicode_len() >= 1,
                    None => true,
                };
                message && duration_is_ok(s.timeout)
            },
            ActionType::Executable(e) => {
                if e.exe.as_str().unicode_len() < 1 || !duration_is_ok(e.timeout) {
                    return false;
                }
                let mut i: usize = 0;
                while i < e.args.len()
                    invariant
                        *self == ActionType::Executable(*e),
                        e.exe@.len() >= 1,
                        duration_ok(e.timeout),
                        i <= e.args@.len(),
                        forall|j: int| 0 <= j < i ==> (#[trigger] e.args@[j])@.len() >= 1,
                    decreases e.args.len() - i,
                {
                    if e.args[i].as_str().unicode_len() < 1 {
                        assert(!((e.args@[i as int])@.len() >= 1));
                        return false;
                    }
                    i += 1;
                }
                true
            },
            ActionType::HttpRequest(h) => duration_is_ok(h.timeout),
            _ => true,
        }
    }
}

impl Action {
    pub fn is_valid(&self) -> (r: bool)
        ensures
            r == action_valid(*self),
    {
        let d = match self.delay {
            Some(d) => d.is_valid(),
            None => true,
        };
        let rp = match self.repeat {
            Some(x) => x.is_valid(),
            None => true,
        };
        let rt = match self.retry {
            Some(x) => x.is_valid(),
            None => true,
        };
        self.ty.is_valid() && d && rp && rt
    }
}

impl ActionPipeline {
    /// Whether every action is well formed
    pub fn is_valid(&self) -> (r: bool)
        ensures
            r == forall|i: int| 0 <= i < self.actions@.len() ==> action_valid(#[trigger] self.actions@[i]),
    {
        let mut i: usize = 0;
        while i < self.actions.len()
            invariant
                i <= self.actions@.len(),
                forall|j: int| 0 <= j < i ==> action_valid(#[trigger] self.actions@[j]),
            decreases self.actions.len() - i,
        {
            if !self.actions[i].is_valid() {
                return false;
            }
            i += 1;
        }
        true
    }
}

/// Progress of the ordered pass of a pipeline: actions run one after the
/// other, and the first that fails for good ends the pass
#[derive(Debug, Clone, Copy, PartialEq, Eq, Structural)]
pub struct PipelinePass {
    /// Index of the next action
    pub next: usize,
    /// Whether an action has failed for good
    pub failed: bool,
}

impl PipelinePass {
    pub fn new() -> (r: PipelinePass)
        ensures
            r.next == 0 && !r.failed,
    {
        PipelinePass { next: 0, failed: false }
    }

    /// The action to run next out of `count`, or None once the pass is over
    pub fn next_action(&self, count: usize) -> (r: Option<usize>)
        ensures
            r == if !self.failed && self.next < count { Some(self.next) } else { None::<usize> },
    {
        if !self.failed && self.next < count {
            Some(self.next)
        } else {
            None
        }
    }

    /// Records how the current action ended
    pub fn record(&mut self, succeeded: bool)
        requires
            !old(self).failed,
            old(self).next < usize::MAX,
        ensures
            final(self).failed == !succeeded,
            final(self).next == if succeeded { old(self).next + 1 } else { old(self).next as int },
    {
        if succeeded {
            self.next = self.next + 1;
        } else {
            self.failed = true;
        }
    }

    /// Whether all `count` actions ran and none failed; only then do the
    /// repeats start and the pipeline count as executed
    pub fn completed(&self, count: usize) -> (r: bool)
        ensures
            r == (!self.failed && self.next >= count),
    {
        !self.failed && self.next >= count
    }
}

} // verus!
