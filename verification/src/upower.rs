//! UPower battery readings.
//!
//! UPower aggregates every power supply into a synthetic *display device*. Its
//! presence, charge state and percentage normalize into a [`Battery`].

use crate::widget::{Battery, BatteryState};
use vstd::prelude::*;

verus! {

/// The state a raw UPower value stands for.
pub open spec fn state_of(raw: u32) -> BatteryState {
    if raw == 1 || raw == 5 {
        BatteryState::Charging
    } else if raw == 2 || raw == 3 || raw == 6 {
        BatteryState::Discharging
    } else if raw == 4 {
        BatteryState::Full
    } else {
        BatteryState::Unknown
    }
}

/// Map a raw UPower `State` enum value to a normalized [`BatteryState`].
///
/// UPower distinguishes more states than the bar needs to show; they collapse
/// onto the four the user actually reads. The values follow UPower's `Device`
/// state enum: `1` Charging, `2` Discharging, `3` Empty, `4` Fully charged,
/// `5` Pending charge, `6` Pending discharge, `0`/anything else Unknown.
pub fn upower_state(raw: u32) -> (state: BatteryState)
    ensures
        state == state_of(raw),
{
    match raw {
        // Charging, or queued to start charging.
        1 | 5 => BatteryState::Charging,
        // On battery: actively discharging, drained, or queued to discharge.
        2 | 3 | 6 => BatteryState::Discharging,
        // Topped off.
        4 => BatteryState::Full,
        // Unknown (0) or any value a future UPower might add.
        _ => BatteryState::Unknown,
    }
}

/// Normalize the device readings into a battery snapshot; `percent` is the
/// reported percentage rounded to a whole number.
///
/// Returns `None` when no battery is present, so the widget shows nothing rather
/// than a meaningless `0%`. Otherwise the raw state is mapped with
/// [`upower_state`] and the percentage is clamped by [`Battery::new`].
pub fn battery_from_upower(raw_state: u32, percent: u8, is_present: bool) -> (battery: Option<
    Battery,
>)
    ensures
        battery is Some <==> is_present,
        is_present ==> battery->0@ == crate::widget::battery_of(state_of(raw_state), percent),
{
    if !is_present {
        return None;
    }
    Some(Battery::new(upower_state(raw_state), percent))
}

/// Follows the display device of UPower.
pub struct UPowerProducer;

impl UPowerProducer {
    /// Create a UPower battery producer.
    pub fn new() -> (producer: Self)
        ensures
            producer == UPowerProducer,
    {
        UPowerProducer
    }

    /// What the producer is called in logs.
    pub fn name(&self) -> (name: String)
        ensures
            name@ == "upower-battery"@,
    {
        "upower-battery".to_owned()
    }
}

impl Default for UPowerProducer {
    fn default() -> (producer: Self)
        ensures
            producer == UPowerProducer,
    {
        UPowerProducer::new()
    }
}

/// A battery that takes or awaits charge is charging, one that gives, awaits giving or has
/// none left is discharging, and one that is charged is full.
pub proof fn lemma_each_state_is_what_it_does(raw: u32, state: BatteryState)
    requires
        call_ensures(upower_state, (raw,), state),
    ensures
        state == BatteryState::Charging <==> raw == 1 || raw == 5,
        state == BatteryState::Discharging <==> raw == 2 || raw == 3 || raw == 6,
        state == BatteryState::Full <==> raw == 4,
{
}

/// A reading is of a battery exactly when one is present, and tells its state and charge.
pub proof fn lemma_a_present_battery_is_read(
    raw: u32,
    percent: u8,
    present: bool,
    battery: Option<Battery>,
    state: BatteryState,
)
    requires
        call_ensures(battery_from_upower, (raw, percent, present), battery),
        call_ensures(upower_state, (raw,), state),
    ensures
        battery is Some <==> present,
        battery is Some ==> battery->0@.0 == state,
        battery is Some && percent <= 100 ==> battery->0@.1 == percent,
        battery is Some && percent > 100 ==> battery->0@.1 == 100,
{
}

} // verus!
