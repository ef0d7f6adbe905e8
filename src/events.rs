//! Lifecycle events of the UPS and the relation of which event cancels which.
use vstd::prelude::*;

verus! {

/// Events derived from changes of the device state
#[derive(Debug, Clone, Copy, PartialEq, Eq, Structural)]
pub enum UPSEvent {
    /// AC power has been lost
    ACFailure,
    /// AC power has been recovered
    ACRecovery,
    /// The UPS has encountered a fault
    UPSFault,
    /// The UPS has entered low battery mode
    LowBatteryModeStart,
    /// The UPS has left low battery mode
    LowBatteryModeEnd,
    /// A battery test has started
    BatteryTestStart,
    /// A battery test has ended
    BatteryTestEnd,
}

/// The events whose cancellable pipelines an event aborts
pub open spec fn cancels_of(e: UPSEvent) -> Seq<UPSEvent> {
    match e {
        UPSEvent::ACFailure => seq![UPSEvent::ACRecovery],
        UPSEvent::ACRecovery => seq![UPSEvent::ACFailure],
        UPSEvent::UPSFault => seq![],
        UPSEvent::LowBatteryModeStart => seq![UPSEvent::LowBatteryModeEnd],
        UPSEvent::LowBatteryModeEnd => seq![UPSEvent::LowBatteryModeStart],
        UPSEvent::BatteryTestStart => seq![UPSEvent::BatteryTestEnd],
        UPSEvent::BatteryTestEnd => seq![UPSEvent::BatteryTestStart],
    }
}

/// Canonical name of an event
pub open spec fn event_name(e: UPSEvent) -> Seq<char> {
    match e {
        UPSEvent::ACFailure => "ACFailure"@,
        UPSEvent::ACRecovery => "ACRecovery"@,
        UPSEvent::UPSFault => "UPSFault"@,
        UPSEvent::LowBatteryModeStart => "LowBatteryModeStart"@,
        UPSEvent::LowBatteryModeEnd => "LowBatteryModeEnd"@,
        UPSEvent::BatteryTestStart => "BatteryTestStart"@,
        UPSEvent::BatteryTestEnd => "BatteryTestEnd"@,
    }
}

impl UPSEvent {
    /// The events that this event cancels
    pub fn cancels(&self) -> (r: Vec<UPSEvent>)
        ensures
            r@ == cancels_of(*self),
    {
        match self {
            UPSEvent::ACFailure => vec![UPSEvent::ACRecovery],
            UPSEvent::ACRecovery => vec![UPSEvent::ACFailure],
            UPSEvent::UPSFault => vec![],
            UPSEvent::LowBatteryModeStart => vec![UPSEvent::LowBatteryModeEnd],
            UPSEvent::LowBatteryModeEnd => vec![UPSEvent::LowBatteryModeStart],
            UPSEvent::BatteryTestStart => vec![UPSEvent::BatteryTestEnd],
            UPSEvent::BatteryTestEnd => vec![UPSEvent::BatteryTestStart],
        }
    }

    /// Canonical name of the event
    pub fn name(&self) -> (r: &'static str)
        ensures
            r@ == event_name(*self),
    {
        match self {
            UPSEvent::ACFailure => "ACFailure",
            UPSEvent::ACRecovery => "ACRecovery",
            UPSEvent::UPSFault => "UPSFault",
            UPSEvent::LowBatteryModeStart => "LowBatteryModeStart",
            UPSEvent::LowBatteryModeEnd => "LowBatteryModeEnd",
            UPSEvent::BatteryTestStart => "BatteryTestStart",
            UPSEvent::BatteryTestEnd => "BatteryTestEnd",
        }
    }

    /// Whether the event reports a failure (shown with a negative icon)
    pub fn is_negative(&self) -> (r: bool)
        ensures
            r == (*self == UPSEvent::ACFailure || *self == UPSEvent::UPSFault),
    {
        match self {
            UPSEvent::ACFailure | UPSEvent::UPSFault => true,
            _ => false,
        }
    }
}

} // verus!
