//! System events that prompt a proactive message to the user.
use vstd::prelude::*;
use vstd::string::StringExecFns;
use crate::text::{decimal, decimal_string};

verus! {

/// Something the system noticed.
#[derive(Debug, Clone)]
pub enum SystemEvent {
    BatteryLow(u8),
    NetworkChanged(String),
    TimeTrigger(String),
}

/// The message shown to the user for an event.
pub open spec fn event_message(event: SystemEvent) -> Seq<char> {
    match event {
        SystemEvent::BatteryLow(pct) => "Heads up! Your battery is getting low ("@ + decimal(
            pct as nat,
        ) + "%). Should I turn on power saver?"@,
        SystemEvent::NetworkChanged(net) => "I noticed you're now connected to "@ + net@
            + ". Need any help with your network settings?"@,
        SystemEvent::TimeTrigger(msg) => msg@,
    }
}

/// The proactive message for an event.
pub fn proactive_message(event: &SystemEvent) -> (r: String)
    ensures
        r@ == event_message(*event),
{
    match event {
        SystemEvent::BatteryLow(pct) => String::from_str("Heads up! Your battery is getting low (")
            .concat(decimal_string(*pct as u64).as_str()).concat(
            "%). Should I turn on power saver?",
        ),
        SystemEvent::NetworkChanged(net) => String::from_str("I noticed you're now connected to ")
            .concat(net.as_str()).concat(". Need any help with your network settings?"),
        SystemEvent::TimeTrigger(msg) => msg.clone(),
    }
}

/// The battery level below which the user is warned, in percent.
pub const BATTERY_LOW_PERCENT: u8 = 15;

/// The event for a battery reading of `percent`: a warning when the level has
/// just dropped below 15% (it was not low at the previous reading).
pub fn battery_event(percent: u8, was_low: bool) -> (r: Option<SystemEvent>)
    ensures
        r is Some <==> (percent < 15 && !was_low),
        r matches Some(SystemEvent::BatteryLow(p)) ==> p == percent,
        r is Some ==> r->0 is BatteryLow,
{
    if percent < BATTERY_LOW_PERCENT && !was_low {
        Some(SystemEvent::BatteryLow(percent))
    } else {
        None
    }
}

} // verus!
