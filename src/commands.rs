//! Parsers for the device's responses.
use vstd::prelude::*;
use crate::models::{DeviceBattery, DeviceLineType, DevicePowerState, DeviceState};
use crate::cache::ResponseCache;
use crate::text::{
    digits_of, push_digits, push_padded, push_tenths, tenths_text, zero_padded, lemma_digits_of,
    lemma_parse_tenths_text, lemma_split_concat, lemma_split_single,
    parse_decimal_tenths, parse_nat, parse_tenths, parse_uint, split_fields, split_on,
    to_chars, views,
};

verus! {

/// Why a device response was rejected
#[derive(Debug, Clone, Copy, PartialEq, Eq, Structural)]
pub enum ParseError {
    /// The response does not start with `(`
    MissingPrefix,
    /// The response has fewer fields than the command answers with
    MissingField,
    /// A numeric field is malformed or out of range
    InvalidNumber,
    /// The status field is not eight `0` / `1` characters
    InvalidStatus,
}

/// Outcome of a command that the device acknowledges
#[derive(Debug, Clone, Copy, PartialEq, Eq, Structural)]
pub enum ExecuteResponse {
    Success,
    Failure,
}

/// The body of a response after its leading `(`
pub open spec fn response_body(msg: Seq<char>) -> Option<Seq<char>> {
    if msg.len() > 0 && msg[0] == '(' {
        Some(msg.skip(1))
    } else {
        None
    }
}

pub open spec fn fields_of(body: Seq<char>) -> Seq<Seq<char>> {
    split_on(body, ' ')
}

pub open spec fn nat_field(f: Seq<char>, max: nat) -> Option<nat> {
    match parse_nat(f) {
        Some(n) => if n <= max { Some(n) } else { None },
        None => None,
    }
}

pub open spec fn tenths_field(f: Seq<char>) -> Option<nat> {
    match parse_tenths(f) {
        Some(n) => if n <= u32::MAX { Some(n) } else { None },
        None => None,
    }
}

/// The battery that a `QI` response reports: capacity and remaining time
/// are its first two fields
pub open spec fn battery_response(msg: Seq<char>) -> Result<DeviceBattery, ParseError> {
    match response_body(msg) {
        None => Err(ParseError::MissingPrefix),
        Some(body) => {
            let f = fields_of(body);
            if f.len() < 2 {
                Err(ParseError::MissingField)
            } else {
                match (nat_field(f[0], 255), nat_field(f[1], u32::MAX as nat)) {
                    (Some(c), Some(t)) => Ok(DeviceBattery { capacity: c as u8, remaining_time: t as u32 }),
                    _ => Err(ParseError::InvalidNumber),
                }
            }
        },
    }
}

pub open spec fn is_bit(c: char) -> bool {
    c == '0' || c == '1'
}

pub open spec fn valid_status(s: Seq<char>) -> bool {
    s.len() == 8 && forall|i: int| 0 <= i < 8 ==> is_bit(#[trigger] s[i])
}

/// The state that the numbers and the status bits of a `QS` response stand for
pub open spec fn state_from(
    vin: nat,
    vout: nat,
    load: nat,
    freq: nat,
    vbat: nat,
    status: Seq<char>,
) -> DeviceState {
    DeviceState {
        input_voltage: vin as u32,
        output_voltage: vout as u32,
        output_load_percent: load as u8,
        output_frequency: freq as u32,
        battery_voltage: vbat as u32,
        device_power_state: if status[0] == '1' {
            DevicePowerState::Battery
        } else {
            DevicePowerState::Utility
        },
        battery_low: status[1] == '1',
        fault_mode: status[3] == '1',
        device_line_type: if status[4] == '1' {
            DeviceLineType::LineInteractive
        } else {
            DeviceLineType::OnLine
        },
        battery_self_test: status[5] == '1',
        buzzer_control: status[7] == '1',
    }
}

/// The state that a `QS` response reports. Its fields are: input voltage,
/// a second voltage (not kept), output voltage, load, frequency, battery
/// voltage, temperature (not kept) and eight status bits.
pub open spec fn state_response(msg: Seq<char>) -> Result<DeviceState, ParseError> {
    match response_body(msg) {
        None => Err(ParseError::MissingPrefix),
        Some(body) => {
            let f = fields_of(body);
            if f.len() < 8 {
                Err(ParseError::MissingField)
            } else {
                match (
                    tenths_field(f[0]),
                    tenths_field(f[2]),
                    nat_field(f[3], 255),
                    tenths_field(f[4]),
                    tenths_field(f[5]),
                ) {
                    (Some(vin), Some(vout), Some(load), Some(freq), Some(vbat)) => {
                        if valid_status(f[7]) {
                            Ok(state_from(vin, vout, load, freq, vbat, f[7]))
                        } else {
                            Err(ParseError::InvalidStatus)
                        }
                    },
                    _ => Err(ParseError::InvalidNumber),
                }
            }
        },
    }
}

/// The outcome that an acknowledged command's response reports
pub open spec fn execute_response(msg: Seq<char>) -> Result<ExecuteResponse, ParseError> {
    match response_body(msg) {
        None => Err(ParseError::MissingPrefix),
        Some(body) => if body == seq!['A', 'C', 'K'] {
            Ok(ExecuteResponse::Success)
        } else {
            Ok(ExecuteResponse::Failure)
        },
    }
}

/// The characters after the first
fn after_first(s: &Vec<char>) -> (r: Vec<char>)
    requires
        s.len() > 0,
    ensures
        r@ == s@.skip(1),
{
    let mut r: Vec<char> = Vec::new();
    let mut i: usize = 1;
    while i < s.len()
        invariant
            1 <= i <= s.len(),
            r@ == s@.subrange(1, i as int),
        decreases s.len() - i,
    {
        r.push(s[i]);
        i += 1;
        assert(r@ =~= s@.subrange(1, i as int));
    }
    assert(r@ =~= s@.skip(1));
    r
}

/// Splits a response into its fields, after the leading `(`
fn response_fields(msg: &str) -> (r: Option<Vec<Vec<char>>>)
    ensures
        r matches Some(f) ==> response_body(msg@) matches Some(b) && views(f@) == fields_of(b),
        r is None ==> response_body(msg@) is None,
{
    let chars = to_chars(msg);
    if chars.len() == 0 || chars[0] != '(' {
        return None;
    }
    let body = after_first(&chars);
    Some(split_fields(&body, ' '))
}

/// Parses a `QI` response
pub fn parse_device_battery(msg: &str) -> (r: Result<DeviceBattery, ParseError>)
    ensures
        r == battery_response(msg@),
{
    let fields = match response_fields(msg) {
        Some(f) => f,
        None => return Err(ParseError::MissingPrefix),
    };
    if fields.len() < 2 {
        return Err(ParseError::MissingField);
    }
    assert(fields@[0]@ == views(fields@)[0]);
    assert(fields@[1]@ == views(fields@)[1]);
    let capacity = parse_uint(&fields[0], 255);
    let remaining = parse_uint(&fields[1], u32::MAX as u64);
    match (capacity, remaining) {
        (Some(c), Some(t)) => Ok(DeviceBattery { capacity: c as u8, remaining_time: t as u32 }),
        _ => Err(ParseError::InvalidNumber),
    }
}

/// Checks that a status field is eight `0` / `1` characters
fn status_is_valid(s: &Vec<char>) -> (r: bool)
    ensures
        r == valid_status(s@),
{
    if s.len() != 8 {
        return false;
    }
    let mut i: usize = 0;
    while i < 8
        invariant
            s.len() == 8,
            i <= 8,
            forall|j: int| 0 <= j < i ==> is_bit(#[trigger] s@[j]),
        decreases 8 - i,
    {
        if s[i] != '0' && s[i] != '1' {
            return false;
        }
        i += 1;
    }
    true
}

/// Parses a `QS` response
pub fn parse_device_state(msg: &str) -> (r: Result<DeviceState, ParseError>)
    ensures
        r == state_response(msg@),
{
    let fields = match response_fields(msg) {
        Some(f) => f,
        None => return Err(ParseError::MissingPrefix),
    };
    if fields.len() < 8 {
        return Err(ParseError::MissingField);
    }
    assert(forall|i: int| 0 <= i < fields@.len() ==> #[trigger] fields@[i]@ == views(fields@)[i]);
    let vin = parse_decimal_tenths(&fields[0]);
    let vout = parse_decimal_tenths(&fields[2]);
    let load = parse_uint(&fields[3], 255);
    let freq = parse_decimal_tenths(&fields[4]);
    let vbat = parse_decimal_tenths(&fields[5]);
    match (vin, vout, load, freq, vbat) {
        (Some(vin), Some(vout), Some(load), Some(freq), Some(vbat)) => {
            let status = &fields[7];
            if !status_is_valid(status) {
                return Err(ParseError::InvalidStatus);
            }
            Ok(DeviceState {
                input_voltage: vin,
                output_voltage: vout,
                output_load_percent: load as u8,
                output_frequency: freq,
                battery_voltage: vbat,
                device_power_state: if status[0] == '1' {
                    DevicePowerState::Battery
                } else {
                    DevicePowerState::Utility
                },
                battery_low: status[1] == '1',
                fault_mode: status[3] == '1',
                device_line_type: if status[4] == '1' {
                    DeviceLineType::LineInteractive
                } else {
                    DeviceLineType::OnLine
                },
                battery_self_test: status[5] == '1',
                buzzer_control: status[7] == '1',
            })
        },
        _ => Err(ParseError::InvalidNumber),
    }
}

/// Parses the response of a command that the device acknowledges
pub fn parse_execute_response(msg: &str) -> (r: Result<ExecuteResponse, ParseError>)
    ensures
        r == execute_response(msg@),
{
    let chars = to_chars(msg);
    if chars.len() == 0 || chars[0] != '(' {
        return Err(ParseError::MissingPrefix);
    }
    let body = after_first(&chars);
    if body.len() == 3 && body[0] == 'A' && body[1] == 'C' && body[2] == 'K' {
        assert(body@ =~= seq!['A', 'C', 'K']);
        Ok(ExecuteResponse::Success)
    } else {
        Ok(ExecuteResponse::Failure)
    }
}

impl DeviceBattery {
    /// Parses a `QI` response
    pub fn from_device_response(msg: &str) -> (r: Result<DeviceBattery, ParseError>)
        ensures
            r == battery_response(msg@),
    {
        parse_device_battery(msg)
    }
}

impl DeviceState {
    /// Parses a `QS` response
    pub fn from_device_response(msg: &str) -> (r: Result<DeviceState, ParseError>)
        ensures
            r == state_response(msg@),
    {
        parse_device_state(msg)
    }
}

impl ExecuteResponse {
    /// Parses the response of a command that the device acknowledges
    pub fn from_device_response(msg: &str) -> (r: Result<ExecuteResponse, ParseError>)
        ensures
            r == execute_response(msg@),
    {
        parse_execute_response(msg)
    }
}

/// Cache key of battery queries
pub const BATTERY_CACHE_KEY: u64 = 0;
/// Cache key of state queries
pub const STATE_CACHE_KEY: u64 = 1;
/// Largest delay the shutdown command can carry, in tenths of a minute
pub const MAX_SHUTDOWN_DELAY_TENTHS: u32 = 99990;
/// Largest reboot delay the shutdown command can carry, in minutes
pub const MAX_REBOOT_DELAY_MINUTES: u32 = 9999;

/// Query of the battery (`QI`)
#[derive(Debug, Clone, Copy, PartialEq, Eq, Structural)]
pub struct QueryDeviceBattery;

/// Query of the device state (`QS`)
#[derive(Debug, Clone, Copy, PartialEq, Eq, Structural)]
pub struct QueryDeviceState;

/// Cancels a running battery test (`CT`)
#[derive(Debug, Clone, Copy, PartialEq, Eq, Structural)]
pub struct CancelBatteryTest;

/// Starts a 10 s battery test (`T`)
#[derive(Debug, Clone, Copy, PartialEq, Eq, Structural)]
pub struct BatteryTest;

/// Toggles the buzzer (`Q`)
#[derive(Debug, Clone, Copy, PartialEq, Eq, Structural)]
pub struct ToggleBuzzer;

/// Shuts the UPS down after a delay and turns it back on after another
#[derive(Debug, Clone, Copy, PartialEq, Eq, Structural)]
pub struct ScheduleUPSShutdown {
    /// Delay before shutting down, in tenths of a minute
    pub delay_tenths: u32,
    /// Delay before turning back on, in minutes
    pub reboot_delay_minutes: u32,
}

/// A command for the device, as the executor carries it
#[derive(Debug, Clone, Copy, PartialEq, Eq, Structural)]
pub enum DeviceCommand {
    QueryDeviceBattery,
    QueryDeviceState,
    CancelBatteryTest,
    BatteryTest,
    ToggleBuzzer,
    ScheduleUPSShutdown(ScheduleUPSShutdown),
}

pub open spec fn min_nat(a: nat, b: nat) -> nat {
    if a < b { a } else { b }
}

/// A delay in tenths of a minute as the shutdown command writes it: whole
/// minutes without a decimal, others with one
pub open spec fn delay_text(t: nat) -> Seq<char> {
    if t % 10 == 0 { digits_of(t / 10) } else { tenths_text(t) }
}

/// `S<delay>R<reboot>`, both capped to 9999 minutes, the reboot delay on
/// four digits
pub open spec fn shutdown_text(c: ScheduleUPSShutdown) -> Seq<char> {
    seq!['S'] + delay_text(min_nat(c.delay_tenths as nat, MAX_SHUTDOWN_DELAY_TENTHS as nat))
        + seq!['R'] + zero_padded(digits_of(min_nat(c.reboot_delay_minutes as nat, MAX_REBOOT_DELAY_MINUTES as nat)), 4)
}

/// The request text of a command, without framing
pub open spec fn command_text(c: DeviceCommand) -> Seq<char> {
    match c {
        DeviceCommand::QueryDeviceBattery => seq!['Q', 'I'],
        DeviceCommand::QueryDeviceState => seq!['Q', 'S'],
        DeviceCommand::CancelBatteryTest => seq!['C', 'T'],
        DeviceCommand::BatteryTest => seq!['T'],
        DeviceCommand::ToggleBuzzer => seq!['Q'],
        DeviceCommand::ScheduleUPSShutdown(s) => shutdown_text(s),
    }
}

/// Key under which a command's response is cached, if it is
pub open spec fn cache_key_of(c: DeviceCommand) -> Option<u64> {
    match c {
        DeviceCommand::QueryDeviceBattery => Some(BATTERY_CACHE_KEY),
        DeviceCommand::QueryDeviceState => Some(STATE_CACHE_KEY),
        _ => None,
    }
}

/// Key whose cached response a command makes stale, if any
pub open spec fn invalidated_key(c: DeviceCommand) -> Option<u64> {
    match c {
        DeviceCommand::CancelBatteryTest | DeviceCommand::BatteryTest | DeviceCommand::ToggleBuzzer => Some(STATE_CACHE_KEY),
        _ => None,
    }
}

pub open spec fn invalidate_spec(c: DeviceCommand, m: Map<u64, crate::cache::CachedValue>) -> Map<u64, crate::cache::CachedValue> {
    match invalidated_key(c) {
        Some(k) => m.remove(k),
        None => m,
    }
}

fn literal(s: &str) -> (r: String)
    ensures
        r@ == s@,
{
    String::from_str(s)
}

impl ScheduleUPSShutdown {
    /// The request text, `S<delay>R<reboot>`
    pub fn get_command(&self) -> (r: String)
        ensures
            r@ == shutdown_text(*self),
    {
        let delay = if self.delay_tenths < MAX_SHUTDOWN_DELAY_TENTHS { self.delay_tenths } else { MAX_SHUTDOWN_DELAY_TENTHS };
        let reboot = if self.reboot_delay_minutes < MAX_REBOOT_DELAY_MINUTES {
            self.reboot_delay_minutes
        } else {
            MAX_REBOOT_DELAY_MINUTES
        };
        let mut out = literal("S");
        proof {
            reveal_strlit("S");
            reveal_strlit("R");
        }
        if delay % 10 == 0 {
            push_digits(&mut out, (delay / 10) as u64);
        } else {
            push_tenths(&mut out, delay as u64);
        }
        out.append("R");
        push_padded(&mut out, reboot as u64, 4);
        assert(out@ =~= shutdown_text(*self));
        out
    }
}

impl DeviceCommand {
    /// The request text, without framing
    pub fn get_command(&self) -> (r: String)
        ensures
            r@ == command_text(*self),
    {
        proof {
            reveal_strlit("QI");
            reveal_strlit("QS");
            reveal_strlit("CT");
            reveal_strlit("T");
            reveal_strlit("Q");
        }
        let r = match self {
            DeviceCommand::QueryDeviceBattery => literal("QI"),
            DeviceCommand::QueryDeviceState => literal("QS"),
            DeviceCommand::CancelBatteryTest => literal("CT"),
            DeviceCommand::BatteryTest => literal("T"),
            DeviceCommand::ToggleBuzzer => literal("Q"),
            DeviceCommand::ScheduleUPSShutdown(s) => s.get_command(),
        };
        assert(r@ =~= command_text(*self));
        r
    }

    /// Key under which the response is cached, if it is
    pub fn cache_key(&self) -> (r: Option<u64>)
        ensures
            r == cache_key_of(*self),
    {
        match self {
            DeviceCommand::QueryDeviceBattery => Some(BATTERY_CACHE_KEY),
            DeviceCommand::QueryDeviceState => Some(STATE_CACHE_KEY),
            _ => None,
        }
    }

    /// Drops the cached responses that this command makes stale
    pub fn invalidate_cache(&self, cache: &mut ResponseCache)
        ensures
            final(cache)@ == invalidate_spec(*self, old(cache)@),
    {
        match self {
            DeviceCommand::CancelBatteryTest | DeviceCommand::BatteryTest | DeviceCommand::ToggleBuzzer => {
                cache.remove(STATE_CACHE_KEY);
            },
            _ => {},
        }
    }
}

pub open spec fn bit_char(b: bool) -> char {
    if b { '1' } else { '0' }
}

/// The eight status bits of a state, reserved bits written as `0`
pub open spec fn status_text(s: DeviceState) -> Seq<char> {
    seq![
        bit_char(s.device_power_state == DevicePowerState::Battery),
        bit_char(s.battery_low),
        '0',
        bit_char(s.fault_mode),
        bit_char(s.device_line_type == DeviceLineType::LineInteractive),
        bit_char(s.battery_self_test),
        '0',
        bit_char(s.buzzer_control),
    ]
}

pub open spec fn space() -> Seq<char> {
    seq![' ']
}

/// Canonical `QI` response for a battery: capacity and remaining time
pub open spec fn battery_text(b: DeviceBattery) -> Seq<char> {
    seq!['('] + digits_of(b.capacity as nat) + space() + digits_of(b.remaining_time as nat)
}

/// `a`, a space, then `rest`
pub open spec fn then_field(a: Seq<char>, rest: Seq<char>) -> Seq<char> {
    a + space() + rest
}

/// Canonical `QS` response for a state; the second voltage repeats the
/// input voltage and the temperature is unknown (`--.-`)
pub open spec fn state_text(s: DeviceState) -> Seq<char> {
    seq!['('] + then_field(tenths_text(s.input_voltage as nat),
        then_field(tenths_text(s.input_voltage as nat),
        then_field(tenths_text(s.output_voltage as nat),
        then_field(digits_of(s.output_load_percent as nat),
        then_field(tenths_text(s.output_frequency as nat),
        then_field(tenths_text(s.battery_voltage as nat),
        then_field(seq!['-', '-', '.', '-'], status_text(s))))))))
}

fn joined(a: String, rest: &String) -> (r: String)
    ensures
        r@ == then_field(a@, rest@),
{
    let mut out = a;
    push_space(&mut out);
    out.append(rest.as_str());
    assert(out@ =~= then_field(a@, rest@));
    out
}

fn tenths_string(t: u32) -> (r: String)
    ensures
        r@ == tenths_text(t as nat),
{
    let mut out = String::new();
    push_tenths(&mut out, t as u64);
    assert(out@ =~= tenths_text(t as nat));
    out
}

fn push_bit(out: &mut String, b: bool)
    ensures
        final(out)@ == old(out)@.push(bit_char(b)),
{
    proof {
        reveal_strlit("0");
        reveal_strlit("1");
    }
    if b {
        out.append("1");
    } else {
        out.append("0");
    }
    assert(final(out)@ =~= old(out)@.push(bit_char(b)));
}

fn push_space(out: &mut String)
    ensures
        final(out)@ == old(out)@ + space(),
{
    proof {
        reveal_strlit(" ");
    }
    out.append(" ");
    assert(final(out)@ =~= old(out)@ + space());
}

impl DeviceBattery {
    /// Writes the battery as a canonical `QI` response
    pub fn to_device_response(&self) -> (r: String)
        ensures
            r@ == battery_text(*self),
    {
        proof {
            reveal_strlit("(");
        }
        let mut out = literal("(");
        push_digits(&mut out, self.capacity as u64);
        push_space(&mut out);
        push_digits(&mut out, self.remaining_time as u64);
        assert(out@ =~= battery_text(*self));
        out
    }
}

impl DeviceState {
    /// Writes the state as a canonical `QS` response
    pub fn to_device_response(&self) -> (r: String)
        ensures
            r@ == state_text(*self),
    {
        proof {
            reveal_strlit("(");
            reveal_strlit("--.-");
        }
        let mut status = String::new();
        push_bit(&mut status, self.device_power_state == DevicePowerState::Battery);
        push_bit(&mut status, self.battery_low);
        push_bit(&mut status, false);
        push_bit(&mut status, self.fault_mode);
        push_bit(&mut status, self.device_line_type == DeviceLineType::LineInteractive);
        push_bit(&mut status, self.battery_self_test);
        push_bit(&mut status, false);
        push_bit(&mut status, self.buzzer_control);
        assert(status@ =~= status_text(*self));
        let r6 = joined(literal("--.-"), &status);
        assert(r6@ =~= then_field(seq!['-', '-', '.', '-'], status_text(*self)));
        let r5 = joined(tenths_string(self.battery_voltage), &r6);
        let r4 = joined(tenths_string(self.output_frequency), &r5);
        let mut load = String::new();
        push_digits(&mut load, self.output_load_percent as u64);
        assert(load@ =~= digits_of(self.output_load_percent as nat));
        let r3 = joined(load, &r4);
        let r2 = joined(tenths_string(self.output_voltage), &r3);
        let r1 = joined(tenths_string(self.input_voltage), &r2);
        let r0 = joined(tenths_string(self.input_voltage), &r1);
        let mut out = literal("(");
        out.append(r0.as_str());
        assert(out@ =~= state_text(*self));
        out
    }
}

proof fn lemma_split_cons(a: Seq<char>, rest: Seq<char>)
    requires
        !a.contains(' '),
    ensures
        split_on(a + space() + rest, ' ') == seq![a] + split_on(rest, ' '),
{
    lemma_split_concat(a, rest, ' ');
    lemma_split_single(a, ' ');
}

proof fn lemma_no_space(s: Seq<char>)
    requires
        forall|i: int| 0 <= i < s.len() ==> #[trigger] s[i] != ' ',
    ensures
        !s.contains(' '),
{
}

/// Parsing the canonical `QI` response of a battery gives that battery back.
pub proof fn lemma_battery_round_trip(b: DeviceBattery)
    ensures
        battery_response(battery_text(b)) == Ok::<DeviceBattery, ParseError>(b),
{
    let c = digits_of(b.capacity as nat);
    let t = digits_of(b.remaining_time as nat);
    lemma_digits_of(b.capacity as nat);
    lemma_digits_of(b.remaining_time as nat);
    let msg = battery_text(b);
    assert(msg.skip(1) =~= c + space() + t);
    lemma_split_cons(c, t);
    lemma_split_single(t, ' ');
    let f = fields_of(msg.skip(1));
    assert(f =~= seq![c, t]);
    assert(f[0] == c && f[1] == t);
}

proof fn lemma_state_fields(s: DeviceState)
    ensures
        response_body(state_text(s)) == Some(state_text(s).skip(1)),
        fields_of(state_text(s).skip(1)) == seq![
            tenths_text(s.input_voltage as nat),
            tenths_text(s.input_voltage as nat),
            tenths_text(s.output_voltage as nat),
            digits_of(s.output_load_percent as nat),
            tenths_text(s.output_frequency as nat),
            tenths_text(s.battery_voltage as nat),
            seq!['-', '-', '.', '-'],
            status_text(s),
        ],
{
    let t0 = tenths_text(s.input_voltage as nat);
    let t2 = tenths_text(s.output_voltage as nat);
    let d3 = digits_of(s.output_load_percent as nat);
    let t4 = tenths_text(s.output_frequency as nat);
    let t5 = tenths_text(s.battery_voltage as nat);
    let x = seq!['-', '-', '.', '-'];
    let st = status_text(s);
    lemma_parse_tenths_text(s.input_voltage as nat);
    lemma_parse_tenths_text(s.output_voltage as nat);
    lemma_parse_tenths_text(s.output_frequency as nat);
    lemma_parse_tenths_text(s.battery_voltage as nat);
    lemma_digits_of(s.output_load_percent as nat);
    lemma_no_space(x);
    lemma_no_space(st);
    let msg = state_text(s);
    let r6 = then_field(x, st);
    let r5 = then_field(t5, r6);
    let r4 = then_field(t4, r5);
    let r3 = then_field(d3, r4);
    let r2 = then_field(t2, r3);
    let r1 = then_field(t0, r2);
    let r0 = then_field(t0, r1);
    assert(msg.skip(1) =~= r0);
    lemma_split_single(st, ' ');
    lemma_split_cons(x, st);
    lemma_split_cons(t5, r6);
    lemma_split_cons(t4, r5);
    lemma_split_cons(d3, r4);
    lemma_split_cons(t2, r3);
    lemma_split_cons(t0, r2);
    lemma_split_cons(t0, r1);
    assert(fields_of(msg.skip(1)) =~= seq![t0, t0, t2, d3, t4, t5, x, st]);
}

/// Parsing the canonical `QS` response of a state gives that state back.
pub proof fn lemma_state_round_trip(s: DeviceState)
    ensures
        state_response(state_text(s)) == Ok::<DeviceState, ParseError>(s),
{
    lemma_state_fields(s);
    lemma_parse_tenths_text(s.input_voltage as nat);
    lemma_parse_tenths_text(s.output_voltage as nat);
    lemma_parse_tenths_text(s.output_frequency as nat);
    lemma_parse_tenths_text(s.battery_voltage as nat);
    crate::text::lemma_parse_digits(s.output_load_percent as nat);
    let st = status_text(s);
    let f = fields_of(state_text(s).skip(1));
    assert(f[7] == st);
    assert(valid_status(st));
    assert(state_from(
        s.input_voltage as nat,
        s.output_voltage as nat,
        s.output_load_percent as nat,
        s.output_frequency as nat,
        s.battery_voltage as nat,
        st,
    ) == s);
}

impl QueryDeviceBattery {
    /// The command as the executor carries it
    pub fn command(&self) -> (r: DeviceCommand)
        ensures
            r == DeviceCommand::QueryDeviceBattery,
    {
        DeviceCommand::QueryDeviceBattery
    }
}

impl QueryDeviceState {
    /// The command as the executor carries it
    pub fn command(&self) -> (r: DeviceCommand)
        ensures
            r == DeviceCommand::QueryDeviceState,
    {
        DeviceCommand::QueryDeviceState
    }
}

impl CancelBatteryTest {
    /// The command as the executor carries it
    pub fn command(&self) -> (r: DeviceCommand)
        ensures
            r == DeviceCommand::CancelBatteryTest,
    {
        DeviceCommand::CancelBatteryTest
    }
}

impl BatteryTest {
    /// The command as the executor carries it
    pub fn command(&self) -> (r: DeviceCommand)
        ensures
            r == DeviceCommand::BatteryTest,
    {
        DeviceCommand::BatteryTest
    }
}

impl ToggleBuzzer {
    /// The command as the executor carries it
    pub fn command(&self) -> (r: DeviceCommand)
        ensures
            r == DeviceCommand::ToggleBuzzer,
    {
        DeviceCommand::ToggleBuzzer
    }
}

impl ScheduleUPSShutdown {
    /// The command as the executor carries it
    pub fn command(&self) -> (r: DeviceCommand)
        ensures
            r == DeviceCommand::ScheduleUPSShutdown(*self),
    {
        DeviceCommand::ScheduleUPSShutdown(*self)
    }
}

} // verus!
