//! Values reported by the device.
use vstd::prelude::*;

verus! {

/// Current source of power for the UPS
#[derive(Debug, Clone, Copy, PartialEq, Eq, Structural)]
pub enum DevicePowerState {
    /// Powered from the socket, battery unused
    Utility,
    /// No power from the socket, battery in use
    Battery,
}

/// UPS device line type
#[derive(Debug, Clone, Copy, PartialEq, Eq, Structural)]
pub enum DeviceLineType {
    /// Device is line interactive
    LineInteractive,
    /// Device is on-line
    OnLine,
}

/// Possible current states of the UPS
#[derive(Debug, Clone, Copy, PartialEq, Eq, Structural)]
pub enum WorkMode {
    /// Output below 20 V
    Standby,
    /// Running from utility line power
    Line,
    /// Battery self test in progress
    BatteryTest,
    /// Running from battery
    Battery,
    /// The UPS reports a fault
    Fault,
}

impl WorkMode {
    pub fn is_battery(&self) -> (r: bool)
        ensures
            r == (*self == WorkMode::Battery),
    {
        match self {
            WorkMode::Battery => true,
            _ => false,
        }
    }
}

/// Response to a battery query
#[derive(Debug, Clone, Copy, PartialEq, Eq, Structural)]
pub struct DeviceBattery {
    /// Capacity of the battery as a percentage
    pub capacity: u8,
    /// Remaining battery time in seconds
    pub remaining_time: u32,
}

/// Output voltage (in tenths of a volt) below which the UPS is in standby
pub const STANDBY_OUTPUT_TENTHS: u32 = 200;

/// Snapshot of the device state. Voltages and the frequency are fixed-point
/// numbers counted in tenths (237.1 V is 2371).
#[derive(Debug, Clone, Copy, PartialEq, Eq, Structural)]
pub struct DeviceState {
    /// Voltage into the UPS, in tenths of a volt
    pub input_voltage: u32,
    /// Voltage out of the UPS, in tenths of a volt
    pub output_voltage: u32,
    /// Load of the UPS as a percentage
    pub output_load_percent: u8,
    /// Output frequency, in tenths of a hertz
    pub output_frequency: u32,
    /// Battery voltage, in tenths of a volt
    pub battery_voltage: u32,
    /// Current source of power
    pub device_power_state: DevicePowerState,
    /// Low battery flag
    pub battery_low: bool,
    /// Fault flag
    pub fault_mode: bool,
    /// Device line type
    pub device_line_type: DeviceLineType,
    /// Battery self test in progress
    pub battery_self_test: bool,
    /// Buzzer enabled
    pub buzzer_control: bool,
}

/// The work mode that a snapshot stands for
pub open spec fn work_mode_of(s: DeviceState) -> WorkMode {
    if s.fault_mode {
        WorkMode::Fault
    } else if s.output_voltage < STANDBY_OUTPUT_TENTHS {
        WorkMode::Standby
    } else if s.device_power_state == DevicePowerState::Battery {
        WorkMode::Battery
    } else if s.battery_self_test {
        WorkMode::BatteryTest
    } else {
        WorkMode::Line
    }
}

impl DeviceState {
    /// The "work mode", a summary of the current state of the device
    pub fn get_work_mode(&self) -> (r: WorkMode)
        ensures
            r == work_mode_of(*self),
    {
        if self.fault_mode {
            return WorkMode::Fault;
        }
        if self.output_voltage < STANDBY_OUTPUT_TENTHS {
            return WorkMode::Standby;
        }
        match (self.device_power_state, self.battery_self_test) {
            (DevicePowerState::Utility, true) => WorkMode::BatteryTest,
            (DevicePowerState::Utility, false) => WorkMode::Line,
            (DevicePowerState::Battery, _) => WorkMode::Battery,
        }
    }
}

} // verus!
