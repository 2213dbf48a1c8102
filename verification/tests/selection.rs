//! Which device is chosen, which one the icon speaks for, and what it says.

use logitray::config::AUTO_SUBJECT_ID;
use logitray::cut::utf16_len;
use logitray::i18n::Language;
use logitray::label::{battery_label, tooltip_text, TOOLTIP_BUDGET};
use logitray::model::BatteryState;
use logitray::subject::{pick_subject, SubjectTracker};
use logitray::textmap::TextMap;
use logitray::tray::{adopt_initial_device, forget_receiver};

fn mk(id: &str) -> BatteryState {
    BatteryState {
        device_key: id.to_string(),
        display_name: "Mouse".to_string(),
        pid: 0xC52B,
        device_index: 1,
        battery_percent: 80,
        is_charging: false,
    }
}

#[test]
fn adopts_a_device_only_when_nothing_is_chosen_yet() {
    let devices = vec![mk("a"), mk("b")];
    let mut selected = String::new();
    assert!(adopt_initial_device(&mut selected, &devices));
    assert_eq!(selected, "a");
}

#[test]
fn no_change_when_selected_present() {
    let devices = vec![mk("a"), mk("b")];
    let mut selected = "b".to_string();
    assert!(!adopt_initial_device(&mut selected, &devices));
    assert_eq!(selected, "b");
}

#[test]
fn absent_selection_survives_other_devices_being_present() {
    let devices = vec![mk("a"), mk("b")];
    let mut selected = "missing".to_string();
    assert!(!adopt_initial_device(&mut selected, &devices));
    assert_eq!(selected, "missing");
}

#[test]
fn selection_survives_all_devices_disappearing() {
    let mut selected = "a".to_string();
    assert!(!adopt_initial_device(&mut selected, &[]));
    assert_eq!(selected, "a");
}

#[test]
fn nothing_to_adopt_when_there_are_no_devices() {
    let mut selected = String::new();
    assert!(!adopt_initial_device(&mut selected, &[]));
    assert_eq!(selected, "");
}

/// A fresh configuration already reads "lowest", so that adoption must leave it
/// alone.
#[test]
fn auto_is_not_replaced_by_the_first_device_seen() {
    let mut selected = AUTO_SUBJECT_ID.to_string();
    assert!(!adopt_initial_device(&mut selected, &[mk("a")]));
    assert_eq!(selected, AUTO_SUBJECT_ID);
}

fn at(id: &str, percent: u8) -> BatteryState {
    BatteryState {
        battery_percent: percent,
        ..mk(id)
    }
}

fn charging_at(id: &str, percent: u8) -> BatteryState {
    BatteryState {
        is_charging: true,
        ..at(id, percent)
    }
}

/// The default threshold.
const THRESHOLD: u8 = 15;

fn subject_key(devices: &[BatteryState], selected: &str, current: Option<&str>) -> Option<String> {
    pick_subject(devices, selected, current, THRESHOLD).map(|device| device.device_key.clone())
}

#[test]
fn a_pinned_device_is_followed_whatever_its_battery() {
    let devices = vec![at("a", 90), at("b", 5)];
    assert_eq!(subject_key(&devices, "a", None).as_deref(), Some("a"));
    // Absent means no subject at all, and no silent fall back to another device.
    assert_eq!(subject_key(&devices, "missing", None), None);
}

#[test]
fn auto_follows_the_lowest_battery() {
    let devices = vec![at("a", 90), at("b", 42), at("c", 12)];
    assert_eq!(
        subject_key(&devices, AUTO_SUBJECT_ID, None).as_deref(),
        Some("c")
    );
    assert_eq!(subject_key(&[], AUTO_SUBJECT_ID, None), None);
}

/// A mouse resting on its cable must not hide a keyboard that is running out.
#[test]
fn auto_skips_charging_devices() {
    let devices = vec![charging_at("a", 5), at("b", 20)];
    assert_eq!(
        subject_key(&devices, AUTO_SUBJECT_ID, None).as_deref(),
        Some("b")
    );
}

#[test]
fn auto_falls_back_to_the_lowest_when_everything_is_charging() {
    let devices = vec![charging_at("a", 60), charging_at("b", 30)];
    assert_eq!(
        subject_key(&devices, AUTO_SUBJECT_ID, None).as_deref(),
        Some("b")
    );
}

/// The margin is 5 points, so that 40 against 36 holds and 40 against 35 gives way.
#[test]
fn auto_switches_only_once_a_candidate_is_clearly_lower() {
    let held = vec![at("a", 40), at("b", 36)];
    assert_eq!(
        subject_key(&held, AUTO_SUBJECT_ID, Some("a")).as_deref(),
        Some("a")
    );
    let switched = vec![at("a", 40), at("b", 35)];
    assert_eq!(
        subject_key(&switched, AUTO_SUBJECT_ID, Some("a")).as_deref(),
        Some("b")
    );
}

/// Devices report coarse levels, so that exact ties are common.
#[test]
fn auto_keeps_the_incumbent_on_a_tie() {
    let devices = vec![at("a", 30), at("b", 30)];
    assert_eq!(
        subject_key(&devices, AUTO_SUBJECT_ID, Some("b")).as_deref(),
        Some("b")
    );
    // With no incumbent the order of the list decides, so that the pick is
    // repeatable.
    assert_eq!(
        subject_key(&devices, AUTO_SUBJECT_ID, None).as_deref(),
        Some("a")
    );
}

#[test]
fn auto_replaces_a_subject_that_charges_or_disappears() {
    let charging = vec![charging_at("a", 10), at("b", 80)];
    assert_eq!(
        subject_key(&charging, AUTO_SUBJECT_ID, Some("a")).as_deref(),
        Some("b")
    );
    let gone = vec![at("b", 80)];
    assert_eq!(
        subject_key(&gone, AUTO_SUBJECT_ID, Some("a")).as_deref(),
        Some("b")
    );
}

#[test]
fn auto_hands_over_at_once_when_a_candidate_crosses_the_threshold() {
    // 18 against 14 is inside the margin, but only 14 is below the threshold.
    let crossed = vec![at("a", 18), at("b", 14)];
    assert_eq!(
        subject_key(&crossed, AUTO_SUBJECT_ID, Some("a")).as_deref(),
        Some("b")
    );

    // Both below the threshold: the margin applies again.
    let both_low = vec![at("a", 14), at("b", 12)];
    assert_eq!(
        subject_key(&both_low, AUTO_SUBJECT_ID, Some("a")).as_deref(),
        Some("a")
    );

    // Both above it: the margin still holds the icon still.
    let both_fine = vec![at("a", 40), at("b", 37)];
    assert_eq!(
        subject_key(&both_fine, AUTO_SUBJECT_ID, Some("a")).as_deref(),
        Some("a")
    );
}

#[test]
fn a_charging_device_below_the_threshold_does_not_take_the_icon() {
    let devices = vec![at("a", 18), charging_at("b", 5)];
    assert_eq!(
        subject_key(&devices, AUTO_SUBJECT_ID, Some("a")).as_deref(),
        Some("a")
    );
}

#[test]
fn the_tracker_carries_the_subject_across_passes() {
    let mut subject = SubjectTracker::default();
    let key = |picked: Option<&BatteryState>| picked.map(|d| d.device_key.clone());

    let first = vec![at("a", 40), at("b", 80)];
    assert_eq!(
        key(subject.pick(&first, AUTO_SUBJECT_ID, THRESHOLD)).as_deref(),
        Some("a")
    );
    // b drops below a without clearing the margin, so that the icon holds still.
    let second = vec![at("a", 40), at("b", 38)];
    assert_eq!(
        key(subject.pick(&second, AUTO_SUBJECT_ID, THRESHOLD)).as_deref(),
        Some("a")
    );
    let third = vec![at("a", 40), at("b", 34)];
    assert_eq!(
        key(subject.pick(&third, AUTO_SUBJECT_ID, THRESHOLD)).as_deref(),
        Some("b")
    );
}

#[test]
fn forgetting_a_receiver_drops_exactly_its_devices() {
    let mut map: TextMap<BatteryState> = TextMap::new();
    for key in ["C547:1", "C547:2", "C52B:1", "C5:47"] {
        map.insert(key.to_string(), mk(key));
    }

    forget_receiver(&mut map, 0xC547);

    // "C5:47" survives: sharing leading characters is not enough.
    assert_eq!(map.keys(), ["C52B:1", "C5:47"]);
}

#[test]
fn forgetting_an_unknown_receiver_changes_nothing() {
    let mut map: TextMap<BatteryState> = TextMap::new();
    map.insert("C547:1".to_string(), mk("C547:1"));
    forget_receiver(&mut map, 0x1234);
    assert_eq!(map.len(), 1);
}

fn named(id: &str, name: &str, percent: u8) -> BatteryState {
    BatteryState {
        display_name: name.to_string(),
        battery_percent: percent,
        ..mk(id)
    }
}

#[test]
fn tooltip_lists_the_subject_first_then_the_rest() {
    let devices = vec![
        named("a", "MX Keys", 80),
        named("b", "G502 X PLUS", 42),
        named("c", "MX Master 3S", 15),
    ];
    let tooltip = tooltip_text(Language::English, &devices[1], &devices);
    assert_eq!(tooltip, "G502 X PLUS: 42%\nMX Keys: 80%\nMX Master 3S: 15%");
}

#[test]
fn tooltip_of_a_lone_device_has_no_trailing_newline() {
    let devices = vec![named("a", "G502 X PLUS", 42)];
    let tooltip = tooltip_text(Language::English, &devices[0], &devices);
    assert_eq!(tooltip, "G502 X PLUS: 42%");
}

#[test]
fn tooltip_drops_whole_lines_to_stay_inside_the_budget() {
    let devices: Vec<_> = (0..6)
        .map(|i| named(&format!("d{i}"), "Logitech Device With A Long Name", 50 + i))
        .collect();
    let tooltip = tooltip_text(Language::English, &devices[0], &devices);

    assert!(
        utf16_len(&tooltip) <= TOOLTIP_BUDGET,
        "tooltip was {} units: {tooltip}",
        utf16_len(&tooltip)
    );
    // Whole lines only: nothing but the marker may be a partial entry.
    let lines: Vec<_> = tooltip.lines().collect();
    let kept = lines.len() - 1;
    assert_eq!(lines[kept], format!("+{} more", 6 - kept));
    for line in &lines[..kept] {
        assert!(line.ends_with('%'), "line was cut mid-entry: {line}");
    }
}

#[test]
fn battery_label_composes_unit_from_the_string_table() {
    let actual: Vec<_> = [Language::English, Language::SimplifiedChinese]
        .into_iter()
        .flat_map(|language| {
            [false, true].map(|charging| battery_label(language, "G502 X PLUS", 46, charging))
        })
        .collect();
    assert_eq!(
        actual,
        [
            "G502 X PLUS: 46%",
            "G502 X PLUS: 46% (charging)",
            "G502 X PLUS: 46%",
            "G502 X PLUS: 46%（充电中）",
        ]
    );
}

#[test]
fn a_subject_that_does_not_fit_is_kept_alone() {
    let long = "x".repeat(200);
    let devices = vec![named("a", &long, 7), named("b", "Keys", 50)];
    let tooltip = tooltip_text(Language::English, &devices[0], &devices);
    assert_eq!(tooltip, format!("{long}: 7%"));
}

#[test]
fn the_tooltip_is_measured_in_utf16_units() {
    assert_eq!(utf16_len("a€😀"), 4);
    // Each of these takes two units.
    let wide = "😀".repeat(52);
    let devices = vec![named("a", &wide, 5), named("b", "K", 50)];
    let tooltip = tooltip_text(Language::SimplifiedChinese, &devices[0], &devices);
    assert_eq!(tooltip, format!("{wide}: 5%\nK: 50%"));
    let wider = "😀".repeat(54);
    let crowded = vec![named("a", &wider, 5), named("b", "Keyboard", 50)];
    let trimmed = tooltip_text(Language::SimplifiedChinese, &crowded[0], &crowded);
    assert_eq!(trimmed, format!("{wider}: 5%\n还有 1 个"));
}
