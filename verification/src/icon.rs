//! What the tray icon looks like.

use vstd::prelude::*;

use crate::clock::Moment;
use crate::model::Reading;
use crate::notify::{alert_due, is_low, Alerts};

verus! {

/// The color of the icon.
#[derive(Clone, Copy, Debug, PartialEq, Eq, Structural)]
pub enum IconColor {
    /// Healthy.
    Green,
    /// Low.
    Orange,
    /// Critical: at or below the alert threshold.
    Red,
    /// Charging.
    Blue,
}

/// The highest percentage that is orange: twenty points above the threshold,
/// but never below 35.
pub open spec fn orange_up_to(threshold: u8) -> int {
    if threshold + 20 >= 35 {
        threshold + 20
    } else {
        35
    }
}

/// The color for a battery level.
pub open spec fn color_of(percent: u8, charging: bool, threshold: u8) -> IconColor {
    if charging {
        IconColor::Blue
    } else if percent <= threshold {
        IconColor::Red
    } else if percent <= orange_up_to(threshold) {
        IconColor::Orange
    } else {
        IconColor::Green
    }
}

/// The color for a battery level.
pub fn battery_color(percent: u8, charging: bool, threshold: u8) -> (color: IconColor)
    ensures
        color == color_of(percent, charging, threshold),
{
    let above: u16 = threshold as u16 + 20;
    let orange: u16 = if above >= 35 { above } else { 35 };
    if charging {
        IconColor::Blue
    } else if percent <= threshold {
        IconColor::Red
    } else if percent as u16 <= orange {
        IconColor::Orange
    } else {
        IconColor::Green
    }
}

/// What the icon shows.
#[derive(Clone, Copy, Debug, PartialEq, Eq, Structural)]
pub enum Image {
    /// No device to speak for.
    Neutral,
    /// A battery, filled to a percentage.
    Glyph { percent: u8, color: IconColor },
    /// The percentage as a number.
    Number { percent: u8, color: IconColor },
}

/// The icon is red exactly for the readings that an alert is shown for: with
/// alerts enabled and no cooldown running, the icon of a device is red if and
/// only if an alert about it is due.
pub proof fn red_means_alert(alerts: Alerts, reading: Reading, now: Moment)
    requires
        alerts.enabled,
        !alerts.last_sent.contains_key(reading.device_key),
    ensures
        color_of(reading.battery_percent, reading.is_charging, alerts.threshold) == IconColor::Red
            <==> alert_due(alerts, reading, now),
        is_low(alerts.threshold, reading) <==> alert_due(alerts, reading, now),
{
}

/// Below a charging icon's blue, a fuller battery is never shown in a more
/// alarming color.
pub proof fn colors_follow_the_level(low: u8, high: u8, threshold: u8)
    requires
        low <= high,
    ensures
        color_of(high, false, threshold) == IconColor::Red ==> color_of(low, false, threshold)
            == IconColor::Red,
        color_of(low, false, threshold) == IconColor::Green ==> color_of(high, false, threshold)
            == IconColor::Green,
{
}

/// The color of the icon, in full: blue on the charger, and else red up to the
/// threshold, orange up to twenty points above it or to 35 percent, whichever is
/// more, and green above.
pub proof fn colors_have_their_ranges(percent: u8, charging: bool, threshold: u8)
    ensures
        ({
            let color = color_of(percent, charging, threshold);
            let low = percent <= threshold;
            let middling = percent <= threshold + 20 || percent <= 35;
            &&& color == IconColor::Blue <==> charging
            &&& color == IconColor::Red <==> !charging && low
            &&& color == IconColor::Orange <==> !charging && !low && middling
            &&& color == IconColor::Green <==> !charging && !low && !middling
        }),
{
}

} // verus!
