//! When an alert is due.

use logitray::clock::{Moment, Span};
use logitray::i18n::Language;
use logitray::model::BatteryState;
use logitray::notify::{low_battery_title, Notifier};

fn make_state(percent: u8, charging: bool) -> BatteryState {
    BatteryState {
        device_key: "test".to_string(),
        display_name: "MX Master 3".to_string(),
        pid: 0xC52B,
        device_index: 1,
        battery_percent: percent,
        is_charging: charging,
    }
}

fn start() -> Moment {
    Moment { nanos: 1_000_000_000_000 }
}

fn after(moment: Moment, secs: u64) -> Moment {
    moment.plus(Span::from_secs(secs))
}

#[test]
fn low_battery_ignored_while_charging() {
    let mut notifier = Notifier::new(Language::English, true, 15, 120);
    assert!(notifier
        .maybe_notify_low_battery(&make_state(10, true), start())
        .is_none());
}

#[test]
fn above_threshold_ignored() {
    let mut notifier = Notifier::new(Language::English, true, 15, 120);
    assert!(notifier
        .maybe_notify_low_battery(&make_state(50, false), start())
        .is_none());
}

#[test]
fn disabled_suppresses_notifications() {
    let notifier = Notifier::new(Language::English, false, 15, 120);
    assert!(!notifier.should_notify(&make_state(10, false), start()));
}

/// The cooldown is there to stop nagging inside one low-battery episode, and does
/// not span a recharge.
#[test]
fn recharging_re_arms_the_warning() {
    let mut notifier = Notifier::new(Language::English, true, 15, 120);
    let now = start();
    let low = make_state(12, false);

    // An alert has just been shown.
    notifier.last_sent.insert(low.device_key.clone(), now);
    assert!(!notifier.should_notify(&low, now));

    // Plugged in, then back above the threshold: the episode is over.
    assert!(notifier
        .maybe_notify_low_battery(&make_state(30, true), now)
        .is_none());
    assert!(notifier
        .maybe_notify_low_battery(&make_state(80, false), now)
        .is_none());

    // The next dip is a new episode, well inside the 120 minute cooldown.
    assert!(notifier.should_notify(&low, after(now, 60)));
}

/// A cooldown of zero has to mean the shortest cooldown there is, not none.
#[test]
fn a_zero_cooldown_still_suppresses_repeats() {
    let mut notifier = Notifier::new(Language::English, true, 15, 0);
    let state = make_state(10, false);
    let now = start();

    assert!(notifier.should_notify(&state, now));
    notifier.last_sent.insert(state.device_key.clone(), now);

    assert!(!notifier.should_notify(&state, after(now, 30)));
    assert!(notifier.should_notify(&state, after(now, 61)));
}

/// The presets of the menu start at 30 minutes, so that the floor must not disturb
/// them.
#[test]
fn a_normal_cooldown_is_left_alone() {
    let notifier = Notifier::new(Language::English, true, 15, 30);
    assert_eq!(notifier.cooldown, Span::from_secs(30 * 60));
}

#[test]
fn cooldown_suppresses_repeat() {
    let mut notifier = Notifier::new(Language::English, true, 15, 120);
    let state = make_state(10, false);
    let now = start();
    assert!(notifier.should_notify(&state, now));
    notifier.last_sent.insert(state.device_key.clone(), now);
    assert!(!notifier.should_notify(&state, after(now, 30)));
    assert!(notifier.should_notify(&state, after(now.plus(notifier.cooldown), 1)));
}

#[test]
fn title_format() {
    assert_eq!(
        low_battery_title(&make_state(12, false)),
        "MX Master 3: 12%"
    );
}

#[test]
fn an_alert_says_what_is_low() {
    let mut notifier = Notifier::new(Language::SimplifiedChinese, true, 15, 120);
    let toast = notifier
        .maybe_notify_low_battery(&make_state(15, false), start())
        .unwrap();
    assert_eq!(toast.title, "MX Master 3: 15%");
    assert_eq!(toast.body, "电量低，请及时连接充电器");
}

#[test]
fn only_an_alert_that_was_shown_starts_the_cooldown() {
    let mut notifier = Notifier::new(Language::English, true, 15, 30);
    let state = make_state(10, false);
    let now = start();
    assert!(!notifier.record_toast("test", now, false));
    assert!(notifier.should_notify(&state, now));
    assert!(notifier.record_toast("test", now, true));
    assert!(!notifier.should_notify(&state, after(now, 30 * 60 - 1)));
    assert!(notifier.should_notify(&state, after(now, 30 * 60)));
    // Another device is not affected.
    let other = BatteryState {
        device_key: "other".to_string(),
        ..make_state(10, false)
    };
    assert!(notifier.should_notify(&other, now));
}

#[test]
fn settings_take_effect_at_once() {
    let mut notifier = Notifier::new(Language::English, true, 15, 120);
    notifier.set_threshold(20);
    assert!(notifier.should_notify(&make_state(20, false), start()));
    notifier.set_enabled(false);
    assert!(!notifier.should_notify(&make_state(20, false), start()));
    notifier.set_cooldown(u64::MAX);
    assert_eq!(notifier.cooldown, Span::from_secs(u64::MAX));
    notifier.set_language(Language::SimplifiedChinese);
    assert_eq!(notifier.language, Language::SimplifiedChinese);
}
