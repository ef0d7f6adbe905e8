use oguard::cache::{get_cached_response, CommandResponse, ResponseCache};
use oguard::commands::{
    parse_device_battery, parse_device_state, parse_execute_response, BatteryTest, DeviceCommand,
    ExecuteResponse, ParseError, QueryDeviceState, ScheduleUPSShutdown,
};
use oguard::device::{frame_command, is_disconnect_message, ResponseReader};
use oguard::executor::{
    decode_response, reopen_pause, CommandError, CommandWorker, Completion, DeviceOutcome,
    WorkerStep,
};
use oguard::models::{DeviceBattery, DeviceLineType, DevicePowerState, DeviceState, WorkMode};

const QS_SAMPLE: &str = "(237.1 237.1 237.1 008 50.1 27.1 --.- 00001001";

fn sample_state() -> DeviceState {
    parse_device_state(QS_SAMPLE).unwrap()
}

#[test]
fn qi_happy_path() {
    let b = parse_device_battery("(100 02832 50.0 000.5 175 290 0 0000020000112000").unwrap();
    assert_eq!(b, DeviceBattery { capacity: 100, remaining_time: 2832 });
}

#[test]
fn qs_happy_path() {
    let s = sample_state();
    assert_eq!(
        s,
        DeviceState {
            input_voltage: 2371,
            output_voltage: 2371,
            output_load_percent: 8,
            output_frequency: 501,
            battery_voltage: 271,
            device_power_state: DevicePowerState::Utility,
            battery_low: false,
            fault_mode: false,
            device_line_type: DeviceLineType::LineInteractive,
            battery_self_test: false,
            buzzer_control: true,
        }
    );
}

#[test]
fn parse_errors_by_kind() {
    assert_eq!(parse_device_battery("100 02832"), Err(ParseError::MissingPrefix));
    assert_eq!(parse_device_battery("(100"), Err(ParseError::MissingField));
    assert_eq!(parse_device_battery("(256 10"), Err(ParseError::InvalidNumber));
    assert_eq!(parse_device_battery("(1 4294967296"), Err(ParseError::InvalidNumber));
    assert_eq!(parse_device_state("(237.1 237.1 237.1 008 50.1 27.1 --.-"), Err(ParseError::MissingField));
    assert_eq!(
        parse_device_state("(237.1 237.1 237.1 008 50.1 27.1 --.- 0000100"),
        Err(ParseError::InvalidStatus)
    );
    assert_eq!(
        parse_device_state("(237.1 237.1 237.1 008 50.1 27.1 --.- 0000100x"),
        Err(ParseError::InvalidStatus)
    );
    assert_eq!(
        parse_device_state("(237.1 237.1 237.1 008 50.12 27.1 --.- 00001001"),
        Err(ParseError::InvalidNumber)
    );
    assert_eq!(parse_execute_response("ACK"), Err(ParseError::MissingPrefix));
}

#[test]
fn numbers_accept_plus_and_whole_values() {
    let b = parse_device_battery("(+7 0").unwrap();
    assert_eq!(b, DeviceBattery { capacity: 7, remaining_time: 0 });
    let s = parse_device_state("(230 1 12.5 255 50 24 x 11111111").unwrap();
    assert_eq!(s.input_voltage, 2300);
    assert_eq!(s.output_voltage, 125);
    assert_eq!(s.output_load_percent, 255);
    assert_eq!(s.device_power_state, DevicePowerState::Battery);
    assert!(s.battery_low && s.fault_mode && s.battery_self_test && s.buzzer_control);
}

#[test]
fn execute_response_ack() {
    assert_eq!(parse_execute_response("(ACK"), Ok(ExecuteResponse::Success));
    assert_eq!(parse_execute_response("(NAK"), Ok(ExecuteResponse::Failure));
    assert_eq!(parse_execute_response("(ACKX"), Ok(ExecuteResponse::Failure));
}

#[test]
fn battery_round_trip() {
    let b = DeviceBattery { capacity: 57, remaining_time: 123456 };
    let text = b.to_device_response();
    assert_eq!(text, "(57 123456");
    assert_eq!(parse_device_battery(&text), Ok(b));
}

#[test]
fn state_round_trip() {
    let s = sample_state();
    let text = s.to_device_response();
    assert_eq!(text, "(237.1 237.1 237.1 8 50.1 27.1 --.- 00001001");
    assert_eq!(parse_device_state(&text), Ok(s));
}

#[test]
fn work_modes() {
    let s = sample_state();
    assert_eq!(s.get_work_mode(), WorkMode::Line);
    let mut t = s;
    t.battery_self_test = true;
    assert_eq!(t.get_work_mode(), WorkMode::BatteryTest);
    t.device_power_state = DevicePowerState::Battery;
    assert_eq!(t.get_work_mode(), WorkMode::Battery);
    assert!(t.get_work_mode().is_battery());
    t.output_voltage = 199;
    assert_eq!(t.get_work_mode(), WorkMode::Standby);
    t.fault_mode = true;
    assert_eq!(t.get_work_mode(), WorkMode::Fault);
}

#[test]
fn shutdown_command_is_capped() {
    let c = ScheduleUPSShutdown { delay_tenths: 123450, reboot_delay_minutes: 99999 };
    assert_eq!(c.get_command(), "S9999R9999");
}

#[test]
fn shutdown_command_formats() {
    let c = ScheduleUPSShutdown { delay_tenths: 15, reboot_delay_minutes: 1 };
    assert_eq!(c.get_command(), "S1.5R0001");
    let c = ScheduleUPSShutdown { delay_tenths: 20, reboot_delay_minutes: 120 };
    assert_eq!(c.command().get_command(), "S2R0120");
}

#[test]
fn command_texts_and_keys() {
    assert_eq!(DeviceCommand::QueryDeviceBattery.get_command(), "QI");
    assert_eq!(QueryDeviceState.command().get_command(), "QS");
    assert_eq!(DeviceCommand::CancelBatteryTest.get_command(), "CT");
    assert_eq!(BatteryTest.command().get_command(), "T");
    assert_eq!(DeviceCommand::ToggleBuzzer.get_command(), "Q");
    assert_eq!(DeviceCommand::QueryDeviceBattery.cache_key(), Some(0));
    assert_eq!(DeviceCommand::QueryDeviceState.cache_key(), Some(1));
    assert_eq!(DeviceCommand::BatteryTest.cache_key(), None);
}

#[test]
fn cache_expires() {
    let mut cache = ResponseCache::new();
    let v = CommandResponse::Execute(ExecuteResponse::Success);
    cache.insert(3, v, 5000);
    assert_eq!(get_cached_response(Some(3), &cache, 5999), Some(v));
    assert_eq!(cache.get(Some(3), 5999), Some(v));
    assert_eq!(cache.get(Some(3), 6000), None);
    assert_eq!(get_cached_response(Some(3), &cache, 5000), None);
    assert_eq!(cache.get(None, 0), None);
    cache.insert(4, v, 0);
    cache.remove(4);
    assert_eq!(cache.get(Some(4), 0), None);
}

#[test]
fn cache_hit_skips_round_trip() {
    let mut w = CommandWorker::new();
    let first = w.begin(DeviceCommand::QueryDeviceState, 0);
    assert_eq!(first, WorkerStep::RoundTrip("QS".to_string()));
    let reply = w.complete(&DeviceOutcome::Response(QS_SAMPLE.to_string()), 0);
    let expected = CommandResponse::State(sample_state());
    assert_eq!(reply, Completion::Reply(Ok(expected)));
    let second = w.begin(DeviceCommand::QueryDeviceState, 100);
    assert_eq!(second, WorkerStep::Cached(expected));
    assert!(w.in_flight.is_none());
    let test = w.begin(DeviceCommand::BatteryTest, 150);
    assert_eq!(test, WorkerStep::RoundTrip("T".to_string()));
    assert_eq!(w.complete(&DeviceOutcome::Response(String::new()), 150), Completion::Reply(Ok(CommandResponse::Done)));
    let third = w.begin(DeviceCommand::QueryDeviceState, 200);
    assert_eq!(third, WorkerStep::RoundTrip("QS".to_string()));
}

#[test]
fn mutating_command_twice_invalidates_once() {
    let mut w = CommandWorker::new();
    w.begin(DeviceCommand::QueryDeviceState, 0);
    w.complete(&DeviceOutcome::Response(QS_SAMPLE.to_string()), 0);
    for t in [10u64, 20u64] {
        w.begin(DeviceCommand::ToggleBuzzer, t);
        w.complete(&DeviceOutcome::Response(String::new()), t);
        assert_eq!(get_cached_response(Some(1), &w.cache, t), None);
    }
}

#[test]
fn disconnect_keeps_command_for_reconnect() {
    let mut w = CommandWorker::new();
    w.begin(DeviceCommand::QueryDeviceBattery, 0);
    assert_eq!(w.complete(&DeviceOutcome::Disconnected, 0), Completion::Reconnect);
    assert_eq!(w.in_flight, Some(DeviceCommand::QueryDeviceBattery));
    assert_eq!(
        w.complete(&DeviceOutcome::Failed, 0),
        Completion::Reply(Err(CommandError::Transport))
    );
    assert!(w.in_flight.is_none());
    assert_eq!(reopen_pause(0), Some(5000));
    assert_eq!(reopen_pause(4), Some(5000));
    assert_eq!(reopen_pause(5), None);
}

#[test]
fn decode_by_command() {
    assert_eq!(
        decode_response(DeviceCommand::CancelBatteryTest, "(ACK"),
        Ok(CommandResponse::Execute(ExecuteResponse::Success))
    );
    assert_eq!(
        decode_response(DeviceCommand::QueryDeviceBattery, "(x"),
        Err(CommandError::Protocol(ParseError::MissingField))
    );
}

#[test]
fn frames_and_reads() {
    assert_eq!(frame_command("QS"), vec![0u8, b'Q', b'S', 13]);
    let mut r = ResponseReader::new();
    r.absorb(b"(10", 3);
    assert!(!r.done);
    r.absorb(b"0 5\rjunk", 8);
    assert!(r.done);
    let text: String = r.text.iter().collect();
    assert_eq!(text, "(100 5");
    let mut t = ResponseReader::new();
    t.absorb(b"ab", 0);
    assert!(t.done && t.text.is_empty());
}

#[test]
fn disconnect_messages() {
    assert!(is_disconnect_message("hidapi error: The device is not connected."));
    assert!(is_disconnect_message("The device is not connected"));
    assert!(!is_disconnect_message("The device is not"));
    assert!(!is_disconnect_message("timeout"));
}
