//! Low-battery alerts: when one is due, and what it says.

use vstd::prelude::*;
use vstd::string::*;

use crate::clock::{Moment, Span, NANOS_PER_SECOND};
use crate::i18n::{shown, Language, Text};
use crate::model::{BatteryState, Reading};
use crate::text::{decimal, decimal_reads_back, parsed_number, push_decimal};
use crate::textmap::TextMap;

verus! {

/// The shortest cooldown between two alerts for one device, in seconds.
///
/// Zero would not mean "do not repeat" but no cooldown at all. The configuration
/// file is edited by hand and may say zero, which would alert on every battery
/// event for as long as the device stays below the threshold.
pub const MIN_COOLDOWN_SECONDS: u64 = 60;

/// The cooldown, in seconds, that a number of minutes stands for.
pub open spec fn cooldown_seconds(minutes: u64) -> nat {
    let wanted = if minutes * 60 <= u64::MAX {
        (minutes * 60) as nat
    } else {
        u64::MAX as nat
    };
    if wanted >= MIN_COOLDOWN_SECONDS {
        wanted
    } else {
        MIN_COOLDOWN_SECONDS as nat
    }
}

/// The cooldown that a number of minutes stands for.
pub fn cooldown_from_minutes(minutes: u64) -> (cooldown: Span)
    ensures
        cooldown.nanos == cooldown_seconds(minutes) * NANOS_PER_SECOND,
{
    let wanted: u64 = if minutes <= u64::MAX / 60 { minutes * 60 } else { u64::MAX };
    Span::from_secs(
        if wanted >= MIN_COOLDOWN_SECONDS {
            wanted
        } else {
            MIN_COOLDOWN_SECONDS
        },
    )
}

/// Decides when to alert.
pub struct Notifier {
    pub language: Language,
    pub enabled: bool,
    pub threshold: u8,
    pub cooldown: Span,
    /// When each device was last alerted about, by device key.
    pub last_sent: TextMap<Moment>,
}

/// A [`Notifier`] with its stamps seen as a map.
#[verifier::ext_equal]
pub struct Alerts {
    pub language: Language,
    pub enabled: bool,
    pub threshold: u8,
    pub cooldown: Span,
    pub last_sent: Map<Seq<char>, Moment>,
}

impl View for Notifier {
    type V = Alerts;

    open spec fn view(&self) -> Alerts {
        Alerts {
            language: self.language,
            enabled: self.enabled,
            threshold: self.threshold,
            cooldown: self.cooldown,
            last_sent: self.last_sent@,
        }
    }
}

/// A notification: its title and the line below it.
#[derive(Debug)]
pub struct Toast {
    pub title: String,
    pub body: String,
}

/// Whether a reading is one to be alerted about at all.
pub open spec fn is_low(threshold: u8, reading: Reading) -> bool {
    !reading.is_charging && reading.battery_percent <= threshold
}

/// Whether the device of a reading is in its cooldown at `now`.
pub open spec fn cooling_down(alerts: Alerts, reading: Reading, now: Moment) -> bool {
    alerts.last_sent.contains_key(reading.device_key) && now.past(
        alerts.last_sent[reading.device_key],
    ).nanos < alerts.cooldown.nanos
}

/// Whether an alert about a reading is due at `now`.
pub open spec fn alert_due(alerts: Alerts, reading: Reading, now: Moment) -> bool {
    alerts.enabled && is_low(alerts.threshold, reading) && !cooling_down(alerts, reading, now)
}

/// What a reading does to the stamps: charging, or being back above the
/// threshold, ends the low-battery episode of a device, so that its next dip is
/// not silenced by the alert for this one.
pub open spec fn alerts_after_reading(alerts: Alerts, reading: Reading) -> Alerts {
    if is_low(alerts.threshold, reading) {
        alerts
    } else {
        Alerts { last_sent: alerts.last_sent.remove(reading.device_key), ..alerts }
    }
}

/// What an alert that was shown does to the stamps.
pub open spec fn alerts_after_toast(alerts: Alerts, device_key: Seq<char>, now: Moment) -> Alerts {
    Alerts { last_sent: alerts.last_sent.insert(device_key, now), ..alerts }
}

/// The title of an alert.
pub open spec fn alert_title(reading: Reading) -> Seq<char> {
    reading.display_name + ": "@ + decimal(reading.battery_percent as nat) + "%"@
}

/// The title of an alert about a device.
pub fn low_battery_title(state: &BatteryState) -> (title: String)
    ensures
        title@ == alert_title(state@),
{
    let mut title = state.display_name.clone();
    title.append(": ");
    push_decimal(&mut title, state.battery_percent as u64);
    title.append("%");
    title
}

impl Notifier {
    pub fn new(language: Language, enabled: bool, threshold: u8, cooldown_minutes: u64) -> (notifier:
        Self)
        ensures
            notifier@.language == language,
            notifier@.enabled == enabled,
            notifier@.threshold == threshold,
            notifier@.cooldown.nanos == cooldown_seconds(cooldown_minutes) * NANOS_PER_SECOND,
            notifier@.last_sent == Map::<Seq<char>, Moment>::empty(),
    {
        Notifier {
            language,
            enabled,
            threshold,
            cooldown: cooldown_from_minutes(cooldown_minutes),
            last_sent: TextMap::new(),
        }
    }

    pub fn set_language(&mut self, language: Language)
        ensures
            final(self)@ == (Alerts { language, ..old(self)@ }),
    {
        self.language = language;
    }

    pub fn set_enabled(&mut self, enabled: bool)
        ensures
            final(self)@ == (Alerts { enabled, ..old(self)@ }),
    {
        self.enabled = enabled;
    }

    pub fn set_threshold(&mut self, threshold: u8)
        ensures
            final(self)@ == (Alerts { threshold, ..old(self)@ }),
    {
        self.threshold = threshold;
    }

    pub fn set_cooldown(&mut self, cooldown_minutes: u64)
        ensures
            final(self)@ == (Alerts { cooldown: final(self)@.cooldown, ..old(self)@ }),
            final(self)@.cooldown.nanos == cooldown_seconds(cooldown_minutes) * NANOS_PER_SECOND,
    {
        self.cooldown = cooldown_from_minutes(cooldown_minutes);
    }

    /// Whether an alert about a reading is due at `now`.
    pub fn should_notify(&self, state: &BatteryState, now: Moment) -> (due: bool)
        ensures
            due == alert_due(self@, state@, now),
    {
        if !self.enabled || state.is_charging || state.battery_percent > self.threshold {
            return false;
        }
        match self.last_sent.get(state.device_key.as_str()) {
            Some(last) => now.since(*last).nanos >= self.cooldown.nanos,
            None => true,
        }
    }

    /// Takes note of a fresh reading at `now`, and returns the alert to show, if
    /// one is due. How that went is to be told with [`Notifier::record_toast`].
    pub fn maybe_notify_low_battery(&mut self, state: &BatteryState, now: Moment) -> (toast: Option<
        Toast,
    >)
        ensures
            final(self)@ == alerts_after_reading(old(self)@, state@),
            toast is Some <==> alert_due(old(self)@, state@, now),
            toast matches Some(t) ==> t.title@ == alert_title(state@) && t.body@ == shown(
                old(self)@.language,
                Text::LowBattery,
            ),
    {
        if state.is_charging || state.battery_percent > self.threshold {
            self.last_sent.remove(state.device_key.as_str());
            return None;
        }
        if !self.should_notify(state, now) {
            return None;
        }
        Some(
            Toast {
                title: low_battery_title(state),
                body: self.language.text(Text::LowBattery).to_string(),
            },
        )
    }

    /// Takes note of an alert about a device: one that was shown at `now` starts
    /// the cooldown of the device. Returns whether it was shown.
    pub fn record_toast(&mut self, device_key: &str, now: Moment, was_shown: bool) -> (sent: bool)
        ensures
            sent == was_shown,
            final(self)@ == (if was_shown {
                alerts_after_toast(old(self)@, device_key@, now)
            } else {
                old(self)@
            }),
    {
        if was_shown {
            self.last_sent.insert(device_key.to_string(), now);
        }
        was_shown
    }
}

/// No cooldown is shorter than the floor, and none above it is changed as long
/// as it can be counted in seconds.
pub proof fn cooldowns_have_a_floor(minutes: u64)
    ensures
        cooldown_seconds(minutes) >= MIN_COOLDOWN_SECONDS,
        1 <= minutes <= u64::MAX / 60 ==> cooldown_seconds(minutes) == minutes * 60,
{
}

/// A device that was alerted about stays quiet until its cooldown has passed,
/// and may be alerted about from then on.
pub proof fn alerts_wait_out_the_cooldown(
    alerts: Alerts,
    reading: Reading,
    sent: Moment,
    now: Moment,
)
    requires
        alerts.enabled,
        is_low(alerts.threshold, reading),
    ensures
        alert_due(alerts_after_toast(alerts, reading.device_key, sent), reading, now)
            <==> now.past(sent).nanos >= alerts.cooldown.nanos,
{
}

/// An alert about one device does not silence another.
pub proof fn cooldowns_are_per_device(
    alerts: Alerts,
    device_key: Seq<char>,
    sent: Moment,
    other: Reading,
    now: Moment,
)
    requires
        other.device_key != device_key,
    ensures
        alert_due(alerts_after_toast(alerts, device_key, sent), other, now) == alert_due(
            alerts,
            other,
            now,
        ),
{
}

/// A reading that is charging or above the threshold ends the episode: the next
/// low reading of that device is alerted about at once, however recent the last
/// alert. Other devices are not affected.
pub proof fn recharging_rearms(
    alerts: Alerts,
    recovered: Reading,
    low: Reading,
    other: Reading,
    now: Moment,
)
    requires
        !is_low(alerts.threshold, recovered),
        low.device_key == recovered.device_key,
        is_low(alerts.threshold, low),
        other.device_key != recovered.device_key,
    ensures
        alert_due(alerts_after_reading(alerts, recovered), low, now) == alerts.enabled,
        alert_due(alerts_after_reading(alerts, recovered), other, now) == alert_due(
            alerts,
            other,
            now,
        ),
{
}

/// Nothing is alerted about while alerts are disabled, nor about a device that
/// is charging or above the threshold.
pub proof fn alerts_are_for_low_batteries(alerts: Alerts, reading: Reading, now: Moment)
    ensures
        alert_due(alerts, reading, now) ==> alerts.enabled && !reading.is_charging
            && reading.battery_percent <= alerts.threshold,
{
}

/// An alert is due exactly for a low battery that is not charging, while alerts
/// are enabled, and once the cooldown has passed since the last alert about the
/// device, if there was one.
pub proof fn alerts_are_due_exactly(alerts: Alerts, reading: Reading, now: Moment)
    requires
        alerts.cooldown.nanos > 0,
    ensures
        alert_due(alerts, reading, now) <==> {
            &&& alerts.enabled
            &&& !reading.is_charging
            &&& reading.battery_percent <= alerts.threshold
            &&& alerts.last_sent.contains_key(reading.device_key) ==> now.nanos
                >= alerts.last_sent[reading.device_key].nanos + alerts.cooldown.nanos
        },
{
}

/// A low reading leaves every stamp as it was. A reading that is charging or above
/// the threshold takes away the stamp of its own device and no other. No reading
/// changes a setting.
pub proof fn readings_end_only_their_own_episode(alerts: Alerts, reading: Reading, key: Seq<char>)
    ensures
        ({
            let after = alerts_after_reading(alerts, reading);
            let low = !reading.is_charging && reading.battery_percent <= alerts.threshold;
            &&& after.last_sent.contains_key(key) <==> alerts.last_sent.contains_key(key) && (low
                || key != reading.device_key)
            &&& after.last_sent.contains_key(key) ==> after.last_sent[key] == alerts.last_sent[key]
            &&& low ==> after == alerts
            &&& after.language == alerts.language
            &&& after.enabled == alerts.enabled
            &&& after.threshold == alerts.threshold
            &&& after.cooldown == alerts.cooldown
        }),
{
}

/// An alert that was shown is stamped with its time, under its device alone.
pub proof fn shown_alerts_are_stamped(
    alerts: Alerts,
    device_key: Seq<char>,
    sent: Moment,
    key: Seq<char>,
)
    ensures
        ({
            let after = alerts_after_toast(alerts, device_key, sent);
            &&& after.last_sent.contains_key(device_key) && after.last_sent[device_key] == sent
            &&& key != device_key ==> after.last_sent.contains_key(key)
                == alerts.last_sent.contains_key(key)
            &&& key != device_key && alerts.last_sent.contains_key(key) ==> after.last_sent[key]
                == alerts.last_sent[key]
            &&& after.language == alerts.language
            &&& after.enabled == alerts.enabled
            &&& after.threshold == alerts.threshold
            &&& after.cooldown == alerts.cooldown
        }),
{
}

/// What a number of readings do to the stamps.
pub open spec fn alerts_after_readings(alerts: Alerts, list: Seq<Reading>) -> Alerts
    decreases list.len(),
{
    if list.len() == 0 {
        alerts
    } else {
        alerts_after_reading(alerts_after_readings(alerts, list.drop_last()), list.last())
    }
}

/// Over any number of readings after an alert that was shown, none of which shows
/// the device charging or above the threshold, the device is not alerted about
/// before the cooldown has passed since that alert, and may be from then on.
/// Readings of other devices make no difference.
pub proof fn one_alert_in_a_cooldown(
    alerts: Alerts,
    sent: Moment,
    list: Seq<Reading>,
    reading: Reading,
    now: Moment,
)
    requires
        alerts.enabled,
        alerts.cooldown.nanos > 0,
        !reading.is_charging && reading.battery_percent <= alerts.threshold,
        forall|i: int|
            0 <= i < list.len() && (#[trigger] list[i]).device_key == reading.device_key
                ==> !list[i].is_charging && list[i].battery_percent <= alerts.threshold,
    ensures
        alert_due(
            alerts_after_readings(alerts_after_toast(alerts, reading.device_key, sent), list),
            reading,
            now,
        ) <==> now.nanos >= sent.nanos + alerts.cooldown.nanos,
{
    stamps_outlast_low_readings(alerts, reading.device_key, sent, list);
}

proof fn stamps_outlast_low_readings(
    alerts: Alerts,
    key: Seq<char>,
    sent: Moment,
    list: Seq<Reading>,
)
    requires
        forall|i: int|
            0 <= i < list.len() && (#[trigger] list[i]).device_key == key
                ==> !list[i].is_charging && list[i].battery_percent <= alerts.threshold,
    ensures
        ({
            let after = alerts_after_readings(alerts_after_toast(alerts, key, sent), list);
            &&& after.last_sent.contains_key(key) && after.last_sent[key] == sent
            &&& after.enabled == alerts.enabled
            &&& after.threshold == alerts.threshold
            &&& after.cooldown == alerts.cooldown
        }),
    decreases list.len(),
{
    if list.len() > 0 {
        let head = list.drop_last();
        assert forall|i: int| 0 <= i < head.len() && (#[trigger] head[i]).device_key
            == key implies !head[i].is_charging && head[i].battery_percent
            <= alerts.threshold by {
            assert(head[i] == list[i]);
        }
        stamps_outlast_low_readings(alerts, key, sent, head);
        assert(list.last() == list[list.len() - 1]);
    }
}

/// A device that has recovered is alerted about at its next low reading, whatever
/// came before.
pub proof fn a_recovered_device_is_alerted_about_anew(
    alerts: Alerts,
    recovered: Reading,
    list: Seq<Reading>,
    low: Reading,
    now: Moment,
)
    requires
        alerts.enabled,
        alerts.cooldown.nanos > 0,
        recovered.is_charging || recovered.battery_percent > alerts.threshold,
        low.device_key == recovered.device_key,
        !low.is_charging && low.battery_percent <= alerts.threshold,
    ensures
        alert_due(
            alerts_after_readings(alerts_after_reading(alerts, recovered), list),
            low,
            now,
        ),
    decreases list.len(),
{
    no_stamp_appears(alerts_after_reading(alerts, recovered), low.device_key, list);
}

proof fn no_stamp_appears(alerts: Alerts, key: Seq<char>, list: Seq<Reading>)
    requires
        !alerts.last_sent.contains_key(key),
    ensures
        ({
            let after = alerts_after_readings(alerts, list);
            &&& !after.last_sent.contains_key(key)
            &&& after.enabled == alerts.enabled
            &&& after.threshold == alerts.threshold
            &&& after.cooldown == alerts.cooldown
        }),
    decreases list.len(),
{
    if list.len() > 0 {
        no_stamp_appears(alerts, key, list.drop_last());
    }
}

/// Cooldowns are counted in minutes: none, or none worth the name, is a minute,
/// and what is too long to be counted in seconds is as long as can be.
pub proof fn cooldowns_are_minutes(minutes: u64)
    ensures
        minutes == 0 ==> cooldown_seconds(minutes) == 60,
        1 <= minutes && minutes * 60 <= u64::MAX ==> cooldown_seconds(minutes) == minutes * 60,
        minutes * 60 > u64::MAX ==> cooldown_seconds(minutes) == u64::MAX,
{
}

/// The title of an alert is the name of the device and, behind a colon, its level.
pub proof fn titles_tell_name_and_level(reading: Reading)
    ensures
        ({
            let title = alert_title(reading);
            let n = reading.display_name.len() as int;
            &&& title.len() >= n + 4
            &&& title.take(n) == reading.display_name
            &&& title[n] == ':' && title[n + 1] == ' '
            &&& title.last() == '%'
            &&& parsed_number(title.subrange(n + 2, title.len() - 1), 255) == Some(
                reading.battery_percent as nat,
            )
        }),
{
    reveal_strlit(": ");
    reveal_strlit("%");
    let level = decimal(reading.battery_percent as nat);
    decimal_reads_back(reading.battery_percent as nat);
    let title = alert_title(reading);
    let n = reading.display_name.len() as int;
    assert(title.take(n) == reading.display_name);
    assert(title.subrange(n + 2, title.len() - 1) == level);
}

} // verus!
