use oguard::action::{
    retry_schedule, ActionDelay, ActionPipeline, ActionRepeat, ActionRetry, ActionRetryDelay,
    Action, ActionType, CapacityWindow, PipelinePass, ExecutableAction, RetryState, ShutdownAction,
    UPSShutdownAction,
};
use oguard::events::UPSEvent;
use oguard::models::{DeviceLineType, DevicePowerState, DeviceState};
use oguard::placeholders::replace_event_placeholders;
use oguard::runner::{CancellableEventPipeline, EventPipelineRunner, PipelineEntry};
use oguard::watcher::{derive_events, UPSWatcher};

fn state(power: DevicePowerState, low: bool, test: bool, fault: bool) -> DeviceState {
    DeviceState {
        input_voltage: 2300,
        output_voltage: 2300,
        output_load_percent: 10,
        output_frequency: 500,
        battery_voltage: 270,
        device_power_state: power,
        battery_low: low,
        fault_mode: fault,
        device_line_type: DeviceLineType::OnLine,
        battery_self_test: test,
        buzzer_control: false,
    }
}

#[test]
fn first_low_battery_snapshot_emits_once() {
    let events = derive_events(None, &state(DevicePowerState::Utility, true, false, false));
    assert_eq!(events, vec![UPSEvent::LowBatteryModeStart]);
}

#[test]
fn first_battery_snapshot_emits_ac_failure_once() {
    let events = derive_events(None, &state(DevicePowerState::Battery, false, false, false));
    assert_eq!(events, vec![UPSEvent::ACFailure]);
}

#[test]
fn transitions_give_events_in_order() {
    let mut w = UPSWatcher::new();
    assert!(w.process_device_state(Some(state(DevicePowerState::Utility, false, false, false))).is_empty());
    let e = w.process_device_state(Some(state(DevicePowerState::Battery, true, true, true)));
    assert_eq!(
        e,
        vec![
            UPSEvent::BatteryTestStart,
            UPSEvent::LowBatteryModeStart,
            UPSEvent::ACFailure,
            UPSEvent::UPSFault
        ]
    );
    assert!(w.process_device_state(None).is_empty());
    assert!(w.process_device_state(Some(state(DevicePowerState::Battery, true, true, true))).is_empty());
    let e = w.process_device_state(Some(state(DevicePowerState::Utility, false, false, false)));
    assert_eq!(
        e,
        vec![UPSEvent::BatteryTestEnd, UPSEvent::LowBatteryModeEnd, UPSEvent::ACRecovery]
    );
}

#[test]
fn cancels_table() {
    assert_eq!(UPSEvent::ACFailure.cancels(), vec![UPSEvent::ACRecovery]);
    assert_eq!(UPSEvent::ACRecovery.cancels(), vec![UPSEvent::ACFailure]);
    assert!(UPSEvent::UPSFault.cancels().is_empty());
    assert!(UPSEvent::BatteryTestEnd.cancels_event(UPSEvent::BatteryTestStart));
    assert!(!UPSEvent::BatteryTestEnd.cancels_event(UPSEvent::BatteryTestEnd));
}

#[test]
fn cancellation_aborts_superseded_pipeline() {
    let mut runner = EventPipelineRunner::new();
    let on_failure = PipelineEntry { id: 1, event: UPSEvent::ACFailure };
    let on_recovery = PipelineEntry { id: 2, event: UPSEvent::ACRecovery };
    let plan = runner.handle_event(UPSEvent::ACFailure, &vec![], &vec![on_failure]);
    assert!(plan.aborted.is_empty());
    assert_eq!(plan.spawned, vec![1]);
    let found = vec![CancellableEventPipeline { id: 1, event: UPSEvent::ACFailure, cancellable: true }];
    let plan = runner.handle_event(UPSEvent::ACRecovery, &found, &vec![on_recovery]);
    assert_eq!(plan.aborted, vec![1]);
    assert_eq!(plan.spawned, vec![2]);
    assert!(!runner.is_running_task(1));
    assert!(runner.is_running_task(2));
    runner.finish_pipeline(2);
    assert!(!runner.is_running_task(2));
}

#[test]
fn non_cancellable_pipeline_keeps_running() {
    let mut runner = EventPipelineRunner::new();
    runner.handle_event(UPSEvent::ACFailure, &vec![], &vec![PipelineEntry { id: 1, event: UPSEvent::ACFailure }]);
    let found = vec![CancellableEventPipeline { id: 1, event: UPSEvent::ACFailure, cancellable: false }];
    let plan = runner.handle_event(UPSEvent::ACRecovery, &found, &vec![]);
    assert!(plan.aborted.is_empty());
    assert!(runner.is_running_task(1));
}

#[test]
fn single_flight_per_pipeline() {
    let mut runner = EventPipelineRunner::new();
    let p = vec![PipelineEntry { id: 7, event: UPSEvent::ACFailure }];
    let first = runner.handle_event(UPSEvent::ACFailure, &vec![], &p);
    let second = runner.handle_event(UPSEvent::ACFailure, &vec![], &p);
    assert_eq!(first.spawned, vec![7]);
    assert!(second.spawned.is_empty());
    assert!(!runner.start_pipeline(7));
}

#[test]
fn repeated_cancelling_event_is_idempotent() {
    let mut runner = EventPipelineRunner::new();
    runner.handle_event(UPSEvent::ACFailure, &vec![], &vec![PipelineEntry { id: 1, event: UPSEvent::ACFailure }]);
    let found = vec![CancellableEventPipeline { id: 1, event: UPSEvent::ACFailure, cancellable: true }];
    let en = vec![PipelineEntry { id: 2, event: UPSEvent::ACRecovery }];
    let a = runner.handle_event(UPSEvent::ACRecovery, &found, &en);
    let b = runner.handle_event(UPSEvent::ACRecovery, &found, &en);
    assert_eq!(a.aborted, vec![1]);
    assert!(b.aborted.is_empty());
    assert!(b.spawned.is_empty());
}

#[test]
fn linear_backoff_retry_schedule() {
    let retry = ActionRetry {
        delay: ActionRetryDelay::LinearBackoff { initial: 1000, increment: 1000 },
        max_attempts: 3,
    };
    assert_eq!(retry_schedule(Some(retry)), vec![1000, 2000, 3000]);
    let mut st = RetryState::new();
    let mut runs = 1;
    let mut waits = Vec::new();
    while let Some(w) = st.after_failure(Some(retry)) {
        waits.push(w);
        runs += 1;
    }
    assert_eq!(waits, vec![1000, 2000, 3000]);
    assert_eq!(runs, 4);
    assert!(retry_schedule(None).is_empty());
}

#[test]
fn fixed_and_exponential_schedules() {
    let fixed = ActionRetry { delay: ActionRetryDelay::Fixed { delay: 500 }, max_attempts: 2 };
    assert_eq!(retry_schedule(Some(fixed)), vec![500, 500]);
    let exp = ActionRetry {
        delay: ActionRetryDelay::ExponentialBackoff { initial: 5, exponent: 2 },
        max_attempts: 4,
    };
    assert_eq!(retry_schedule(Some(exp)), vec![5, 10, 20, 40]);
}

#[test]
fn exponential_backoff_saturates() {
    let mode = ActionRetryDelay::ExponentialBackoff { initial: 1, exponent: 10 };
    assert_eq!(mode.next_delay(Some(u64::MAX / 2 + 1)), u64::MAX);
    assert_eq!(mode.next_delay(Some(u64::MAX)), u64::MAX);
    let linear = ActionRetryDelay::LinearBackoff { initial: 1, increment: 10 };
    assert_eq!(linear.next_delay(Some(u64::MAX - 3)), u64::MAX);
    let big = ActionRetry {
        delay: ActionRetryDelay::ExponentialBackoff { initial: u64::MAX / 4, exponent: 10 },
        max_attempts: 3,
    };
    assert_eq!(retry_schedule(Some(big)), vec![u64::MAX / 4, u64::MAX, u64::MAX]);
}

#[test]
fn delay_gating() {
    let none = ActionDelay { duration: None, below_capacity: None };
    assert!(none.is_over(0, None));
    let timed = ActionDelay { duration: Some(60_000), below_capacity: None };
    assert!(!timed.is_over(59_999, Some(1)));
    assert!(timed.is_over(60_000, None));
    let both = ActionDelay { duration: Some(60_000), below_capacity: Some(50) };
    assert!(both.is_over(10, Some(49)));
    assert!(!both.is_over(10, Some(50)));
    assert!(both.polls_capacity());
}

#[test]
fn repeat_rules() {
    let r = ActionRepeat { interval: None, capacity_decrease: Some(5), limit: Some(2) };
    let mut w = CapacityWindow::new();
    assert_eq!(w.observe(80), 0);
    assert_eq!(w.observe(82), 2);
    assert_eq!(w.observe(77), 5);
    assert!(!r.wait_over(0, Some(4)));
    assert!(r.wait_over(0, Some(5)));
    assert!(r.can_repeat(0) && r.can_repeat(1) && !r.can_repeat(2));
    let zero = ActionRepeat { interval: Some(1000), capacity_decrease: None, limit: Some(0) };
    assert!(!zero.can_repeat(0));
    let nothing = ActionRepeat { interval: None, capacity_decrease: None, limit: None };
    assert!(nothing.can_repeat(0));
    assert!(!nothing.can_repeat(1));
    assert!(!nothing.wait_over(u64::MAX, Some(100)));
}

#[test]
fn validation_rules() {
    assert!(!ActionDelay { duration: Some(0), below_capacity: None }.is_valid());
    assert!(!ActionDelay { duration: None, below_capacity: Some(101) }.is_valid());
    assert!(ActionRepeat { interval: Some(1000), capacity_decrease: Some(100), limit: Some(0) }.is_valid());
    assert!(!ActionRepeat { interval: Some(999), capacity_decrease: None, limit: None }.is_valid());
    let exe = Action {
        ty: ActionType::Executable(ExecutableAction { exe: "run".to_string(), args: vec![String::new()], timeout: None }),
        delay: None,
        repeat: None,
        retry: None,
    };
    assert!(!exe.is_valid());
    let pipeline = ActionPipeline {
        actions: vec![Action { ty: ActionType::Sleep, delay: None, repeat: None, retry: None }, exe],
    };
    assert!(!pipeline.is_valid());
    let bad = ActionRetry { delay: ActionRetryDelay::ExponentialBackoff { initial: 1, exponent: 11 }, max_attempts: 1 };
    assert!(!bad.is_valid());
    let zero = ActionRetry { delay: ActionRetryDelay::Fixed { delay: 1 }, max_attempts: 0 };
    assert!(!zero.is_valid());
}

#[test]
fn placeholders_are_replaced() {
    let s = replace_event_placeholders(
        UPSEvent::ACFailure,
        "{OGUARD_EVENT}: {OGUARD_EVENT_NAME} / {OGUARD_EVENT_DESCRIPTION} {OGUARD",
    );
    assert_eq!(s, "ACFailure: event.ACFailure.label / event.ACFailure.description {OGUARD");
    assert_eq!(UPSEvent::UPSFault.label_key(), "event.UPSFault.label");
}

#[test]
fn action_helpers() {
    let sd = ShutdownAction { message: None, timeout: Some(90_500), force_close_apps: true };
    assert_eq!(sd.message_for(UPSEvent::ACFailure), "Shutdown triggered by ACFailure pipeline");
    assert_eq!(sd.timeout_secs(), 90);
    let sd = ShutdownAction { message: Some("bye {OGUARD_EVENT}".to_string()), timeout: None, force_close_apps: false };
    assert_eq!(sd.message_for(UPSEvent::ACRecovery), "bye ACRecovery");
    assert_eq!(sd.timeout_secs(), 0);
    let ups = UPSShutdownAction { delay_tenths: 5 };
    assert_eq!(ups.command().get_command(), "S0.5R0001");
    let exe = ExecutableAction {
        exe: "run".to_string(),
        args: vec!["--event={OGUARD_EVENT}".to_string(), "x".to_string()],
        timeout: None,
    };
    assert_eq!(exe.arguments_for(UPSEvent::BatteryTestStart), vec!["--event=BatteryTestStart".to_string(), "x".to_string()]);
    let pipeline = ActionPipeline {
        actions: vec![
            Action { ty: ActionType::Notification, delay: None, repeat: None, retry: None },
            Action {
                ty: ActionType::Popup,
                delay: None,
                repeat: Some(ActionRepeat { interval: Some(1), capacity_decrease: None, limit: None }),
                retry: None,
            },
        ],
    };
    assert_eq!(pipeline.repeated_actions(), vec![1]);
}

#[test]
fn pass_stops_at_first_failure() {
    let mut pass = PipelinePass::new();
    assert_eq!(pass.next_action(3), Some(0));
    pass.record(true);
    assert_eq!(pass.next_action(3), Some(1));
    pass.record(false);
    assert_eq!(pass.next_action(3), None);
    assert!(!pass.completed(3));
    let mut ok = PipelinePass::new();
    ok.record(true);
    assert_eq!(ok.next_action(1), None);
    assert!(ok.completed(1));
}
