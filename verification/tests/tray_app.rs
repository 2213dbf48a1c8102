//! The tray application: its menu, and what clicks and events do.

use logitray::clock::{Moment, Span};
use logitray::config::AppConfig;
use logitray::hid::client::{DeviceEvent, WorkerCommand};
use logitray::i18n::Language;
use logitray::icon::{battery_color, IconColor, Image};
use logitray::menu::{
    device_is_checked, language_for_id, language_is_checked, menu_command, preset_is_checked,
    rebuild_device_menu, CheckEntry, MenuCommand, MenuEntry, MenuLayout,
};
use logitray::model::BatteryState;
use logitray::textmap::TextMap;
use logitray::tray::{sorted_devices, Action, Tray, Visuals};
use logitray::update::{CheckerCommand, Version};

fn state(pid: u16, index: u8, name: &str, percent: u8) -> BatteryState {
    BatteryState {
        device_key: format!("{pid:04X}:{index}"),
        display_name: name.to_string(),
        pid,
        device_index: index,
        battery_percent: percent,
        is_charging: false,
    }
}

fn describe(line: &MenuEntry) -> String {
    let check = |entry: &CheckEntry| {
        let mark = if entry.checked { "x" } else { " " };
        format!("[{mark}] {} ({})", entry.label, entry.id)
    };
    match line {
        MenuEntry::Line { label } => format!("- {label}"),
        MenuEntry::Devices { label } => format!("> {label}"),
        MenuEntry::Item { id, label } => format!("{label} ({id})"),
        MenuEntry::Check { entry } => check(entry),
        MenuEntry::Choices { label, entries } => {
            let list: Vec<_> = entries.iter().map(check).collect();
            format!("> {label}: {}", list.join(", "))
        }
        MenuEntry::Separator => "---".to_string(),
    }
}

fn described(lines: &[MenuEntry]) -> Vec<String> {
    lines.iter().map(describe).collect()
}

#[test]
fn the_menu_has_its_lines() {
    let menu = MenuLayout::build(&AppConfig::default(), None, true, false);
    assert_eq!(menu.language, Language::English);
    assert_eq!(
        described(&menu.lines),
        [
            "- No Logitech devices found",
            "> Select Device",
            "Refresh now (refresh)",
            "---",
            "[ ] Show percentage as text (viewmode)",
            "> Language: [x] Automatic (Windows language) (language:auto), \
             [ ] English (language:en), [ ] 简体中文 (language:zh-CN)",
            "> Poll interval: [ ] 15 seconds (poll:15), [ ] 30 seconds (poll:30), \
             [ ] 1 minute (poll:60), [ ] 2 minutes (poll:120), [x] 3 minutes (poll:180), \
             [ ] 5 minutes (poll:300), [ ] 15 minutes (poll:900)",
            "[x] Enable low-battery notifications (notify)",
            "> Low battery alert at: [ ] 5% (threshold:5), [ ] 10% (threshold:10), \
             [x] 15% (threshold:15), [ ] 20% (threshold:20), [ ] 25% (threshold:25), \
             [ ] 30% (threshold:30)",
            "> Reminder interval: [ ] 30 minutes (cooldown:30), [ ] 1 hour (cooldown:60), \
             [x] 2 hours (cooldown:120), [ ] 4 hours (cooldown:240), [ ] 8 hours (cooldown:480)",
            "[x] Start at login (autostart)",
            "[x] Check for updates automatically (checkupdates)",
            "---",
            "Open config file… (openconfig)",
            "---",
            "Exit (exit)",
        ]
    );
}

#[test]
fn the_automatic_mode_is_always_on_offer() {
    assert_eq!(
        described(&rebuild_device_menu(Language::English, &[], "lowest")),
        [
            "[x] Automatic (lowest battery) (device:lowest)",
            "---",
            "- No devices",
        ]
    );
    let devices = [state(0xC52B, 1, "MX Keys", 80), state(0xC52B, 2, "G502", 7)];
    assert_eq!(
        described(&rebuild_device_menu(
            Language::SimplifiedChinese,
            &devices,
            "C52B:2"
        )),
        [
            "[ ] 自动（电量最低） (device:lowest)",
            "---",
            "[ ] MX Keys: 80% (device:C52B:1)",
            "[x] G502: 7% (device:C52B:2)",
        ]
    );
}

#[test]
fn clicks_are_told_apart() {
    let shown: Vec<_> = [
        "refresh",
        "exit",
        "autostart",
        "viewmode",
        "notify",
        "language:zh-CN",
        "language:fr",
        "checkupdates",
        "updateavailable",
        "openconfig",
        "poll:60",
        "poll:",
        "threshold:30",
        "threshold:256",
        "cooldown:+5",
        "cooldown:5m",
        "device:C52B:1",
        "device:",
        "Refresh",
        "",
    ]
    .into_iter()
    .map(|id| format!("{:?}", menu_command(id)))
    .collect();
    assert_eq!(
        shown,
        [
            "Refresh",
            "Exit",
            "Autostart",
            "ViewMode",
            "Notify",
            "Language(SimplifiedChinese)",
            "Ignored",
            "CheckUpdates",
            "UpdateAvailable",
            "OpenConfig",
            "Poll(60)",
            "Ignored",
            "Threshold(30)",
            "Ignored",
            "Cooldown(5)",
            "Ignored",
            "Device(\"C52B:1\")",
            "Device(\"\")",
            "Ignored",
            "Ignored",
        ]
    );
    assert_eq!(language_for_id("en"), Some(Language::English));
    assert_eq!(language_for_id("EN"), None);
}

#[test]
fn marks_follow_the_value() {
    assert!(preset_is_checked("poll:60", "poll", 60));
    assert!(!preset_is_checked("poll:60", "poll", 6));
    assert!(!preset_is_checked("poll:60", "cooldown", 60));
    assert!(language_is_checked("language:en", Language::English));
    assert!(!language_is_checked("language:en", Language::Auto));
    assert!(device_is_checked("device:C52B:1", "C52B:1"));
    assert!(!device_is_checked("C52B:1", "C52B:1"));
    assert!(!device_is_checked("device:C52B:1", "C52B:2"));
}

#[test]
fn colors_follow_the_threshold() {
    let colors = |threshold: u8, levels: &[u8]| -> Vec<IconColor> {
        levels
            .iter()
            .map(|&percent| battery_color(percent, false, threshold))
            .collect()
    };
    let (green, orange, red) = (IconColor::Green, IconColor::Orange, IconColor::Red);
    assert_eq!(
        colors(15, &[0, 15, 16, 35, 36, 100]),
        [red, red, orange, orange, green, green]
    );
    assert_eq!(colors(30, &[30, 31, 50, 51]), [red, orange, orange, green]);
    assert_eq!(colors(5, &[35, 36]), [orange, green]);
    assert_eq!(battery_color(3, true, 15), IconColor::Blue);
}

#[test]
fn devices_are_listed_by_name_receiver_and_key() {
    let mut map: TextMap<BatteryState> = TextMap::new();
    for device in [
        state(0xC547, 1, "Mouse", 50),
        state(0xC52B, 2, "Mouse", 50),
        state(0xC52B, 1, "Mouse", 50),
        state(0xC548, 1, "Keyboard", 50),
        state(0xC549, 1, "keyboard", 50),
    ] {
        map.insert(device.device_key.clone(), device);
    }
    let keys: Vec<_> = sorted_devices(&map)
        .into_iter()
        .map(|d| d.device_key)
        .collect();
    assert_eq!(keys, ["C548:1", "C52B:1", "C52B:2", "C547:1", "C549:1"]);
}

fn now(secs: u64) -> Moment {
    Moment { nanos: 0 }.plus(Span::from_secs(secs))
}

fn painted(actions: &[Action]) -> &Visuals {
    actions
        .iter()
        .find_map(|action| match action {
            Action::Paint(visuals) => Some(visuals),
            _ => None,
        })
        .expect("the tray is painted")
}

fn saves(actions: &[Action]) -> bool {
    actions
        .iter()
        .any(|action| matches!(action, Action::SaveConfig))
}

#[test]
fn the_tray_starts_without_devices() {
    let tray = Tray::new(AppConfig::default(), Some(0x0804));
    assert_eq!(tray.language(), Language::SimplifiedChinese);
    let actions = tray.start();
    assert_eq!(painted(&actions).image, Image::Neutral);
    assert_eq!(painted(&actions).tooltip, "未找到罗技设备");
    assert_eq!(painted(&actions).status, "未找到罗技设备");
    match &actions[1] {
        Action::ListDevices(lines) => assert_eq!(described(lines)[2], "- 无设备"),
        other => panic!("unexpected action: {other:?}"),
    }
}

#[test]
fn readings_are_shown_and_alerted_about() {
    let mut tray = Tray::new(AppConfig::default(), None);
    let low = state(0xC52B, 1, "G502", 12);
    let (alert, actions) = tray.device_event(DeviceEvent::Update(low.clone()), now(100));
    let alert = alert.expect("an alert is due");
    assert_eq!(alert.device_key, "C52B:1");
    assert_eq!(alert.toast.title, "G502: 12%");
    assert_eq!(alert.toast.body, "Battery low, plug in charger soon");
    tray.low_battery_shown(&alert.device_key, now(100), true);
    assert_eq!(
        painted(&actions).image,
        Image::Glyph {
            percent: 12,
            color: IconColor::Red
        }
    );
    assert_eq!(painted(&actions).status, "G502: 12%");
    assert!(!saves(&actions));

    // In the cooldown.
    let (alert, _) = tray.device_event(DeviceEvent::Update(low.clone()), now(200));
    assert!(alert.is_none());
    // After it.
    let (alert, _) = tray.device_event(DeviceEvent::Update(low), now(100 + 120 * 60));
    assert!(alert.is_some());

    let (_, actions) = tray.device_event(
        DeviceEvent::Update(state(0xC547, 1, "Keys", 90)),
        now(20000),
    );
    assert_eq!(painted(&actions).tooltip, "G502: 12%\nKeys: 90%");
    let (_, actions) = tray.device_event(DeviceEvent::ReceiverGone(0xC52B), now(20001));
    assert_eq!(painted(&actions).status, "Keys: 90%");
    let (_, actions) = tray.device_event(DeviceEvent::Gone("C547:1".to_string()), now(20002));
    assert_eq!(painted(&actions).status, "No Logitech devices found");
    assert!(tray.devices().is_empty());
}

#[test]
fn a_pinned_device_that_is_away_is_said_to_be() {
    let mut tray = Tray::new(AppConfig::default(), None);
    tray.device_event(DeviceEvent::Update(state(0xC52B, 1, "G502", 50)), now(1));
    let actions = tray.click(menu_command("device:C547:1"), false);
    assert!(saves(&actions));
    assert!(matches!(&actions[0], Action::MarkDevice(key) if key == "C547:1"));
    assert_eq!(painted(&actions).status, "Selected device not connected");
    assert_eq!(tray.cfg().selected_device_id, "C547:1");
}

#[test]
fn the_first_device_is_adopted_by_an_empty_choice() {
    let cfg = AppConfig {
        selected_device_id: String::new(),
        ..AppConfig::default()
    };
    let mut tray = Tray::new(cfg, None);
    let (_, actions) =
        tray.device_event(DeviceEvent::Update(state(0xC52B, 1, "G502", 50)), now(1));
    assert!(saves(&actions));
    assert_eq!(tray.cfg().selected_device_id, "C52B:1");
    // It stays chosen when it goes.
    let (_, actions) = tray.device_event(DeviceEvent::Gone("C52B:1".to_string()), now(2));
    assert!(!saves(&actions));
    assert_eq!(tray.cfg().selected_device_id, "C52B:1");
}

#[test]
fn settings_are_changed_from_the_menu() {
    let mut tray = Tray::new(AppConfig::default(), None);
    tray.device_event(DeviceEvent::Update(state(0xC52B, 1, "G502", 25)), now(1));

    let actions = tray.click(menu_command("viewmode"), true);
    assert_eq!(
        painted(&actions).image,
        Image::Number {
            percent: 25,
            color: IconColor::Orange
        }
    );
    assert!(tray.text_mode());
    assert_eq!(tray.cfg().view_mode, "text");

    let actions = tray.click(menu_command("threshold:25"), false);
    assert_eq!(
        painted(&actions).image,
        Image::Number {
            percent: 25,
            color: IconColor::Red
        }
    );
    assert!(matches!(
        actions[1],
        Action::MarkPreset {
            prefix: "threshold",
            value: 25
        }
    ));
    // The alerts go by the new threshold too.
    let again = || DeviceEvent::Update(state(0xC52B, 1, "G502", 25));
    assert!(tray.device_event(again(), now(2)).0.is_some());
    let actions = tray.click(menu_command("notify"), false);
    assert!(saves(&actions) && actions.len() == 1);
    assert!(tray.device_event(again(), now(3)).0.is_none());

    let actions = tray.click(menu_command("poll:60"), false);
    assert!(matches!(
        actions[0],
        Action::Send(WorkerCommand::SetSafetyInterval(60))
    ));
    let actions = tray.click(menu_command("cooldown:30"), false);
    assert!(matches!(
        actions[1],
        Action::MarkPreset {
            prefix: "cooldown",
            value: 30
        }
    ));
    let actions = tray.click(menu_command("checkupdates"), false);
    assert!(matches!(
        actions[0],
        Action::TellChecker(CheckerCommand::SetEnabled(false))
    ));
    let actions = tray.click(menu_command("autostart"), true);
    assert!(matches!(actions[0], Action::SetAutostart(true)));
    let cfg = tray.cfg();
    assert_eq!(cfg.poll_interval_seconds, 60);
    assert_eq!(cfg.low_battery_threshold, 25);
    assert_eq!(cfg.low_battery_cooldown_minutes, 30);
    assert!(!cfg.notifications_enabled && !cfg.check_for_updates && cfg.autostart);
}

#[test]
fn commands_without_a_setting_change_nothing() {
    let mut tray = Tray::new(AppConfig::default(), None);
    let actions = tray.click(MenuCommand::Refresh, false);
    assert!(matches!(
        actions[..],
        [Action::Send(WorkerCommand::Refresh)]
    ));
    let actions = tray.click(MenuCommand::Exit, false);
    assert!(matches!(
        actions[..],
        [Action::Send(WorkerCommand::Exit), Action::Quit]
    ));
    let actions = tray.click(MenuCommand::OpenConfig, false);
    assert!(matches!(actions[..], [Action::OpenConfig]));
    let actions = tray.click(MenuCommand::UpdateAvailable, false);
    assert!(matches!(actions[..], [Action::OpenReleasePage]));
    assert!(tray.click(MenuCommand::Ignored, true).is_empty());
}

#[test]
fn a_language_takes_effect_once_its_menu_is_built() {
    let mut tray = Tray::new(AppConfig::default(), None);
    tray.device_event(DeviceEvent::Update(state(0xC52B, 1, "G502", 5)), now(1));
    tray.update_available(Version {
        major: 0,
        minor: 4,
        patch: 0,
    });
    let actions = tray.click(menu_command("language:zh-CN"), true);
    assert!(matches!(
        actions[..],
        [Action::BuildMenu(Language::SimplifiedChinese)]
    ));
    let replacement = tray.menu_for_language(Language::SimplifiedChinese, None, true);
    assert_eq!(replacement.menu.language, Language::SimplifiedChinese);
    assert_eq!(described(&replacement.menu.lines)[15], "退出 (exit)");
    assert_eq!(
        described(&replacement.devices)[2],
        "[ ] G502: 5% (device:C52B:1)"
    );
    assert_eq!(
        describe(&replacement.update.unwrap()),
        "有可用更新：v0.4.0 (updateavailable)"
    );

    let failed = tray.change_language(
        Language::SimplifiedChinese,
        Language::SimplifiedChinese,
        false,
    );
    assert!(matches!(
        failed[..],
        [Action::MarkLanguage(Language::Auto)]
    ));
    assert_eq!(tray.language(), Language::English);

    let changed = tray.change_language(
        Language::SimplifiedChinese,
        Language::SimplifiedChinese,
        true,
    );
    assert!(saves(&changed));
    assert_eq!(tray.cfg().language, Language::SimplifiedChinese);
    let (alert, _) = tray.device_event(
        DeviceEvent::Update(state(0xC52B, 2, "MX", 5)),
        now(2),
    );
    assert_eq!(alert.unwrap().toast.body, "电量低，请及时连接充电器");
}

#[test]
fn a_release_is_announced_once() {
    let release = |minor| Version {
        major: 0,
        minor,
        patch: 0,
    };
    let mut tray = Tray::new(AppConfig::default(), None);
    let (line, toast) = tray.update_available(release(4));
    assert_eq!(describe(&line), "Update available: v0.4.0 (updateavailable)");
    let toast = toast.unwrap();
    assert_eq!(toast.title, "Update available: v0.4.0");
    assert_eq!(toast.body, "Click to open the download page");
    // It is announced again until it was shown.
    assert!(tray.update_shown(release(4), false).is_empty());
    assert!(tray.update_available(release(4)).1.is_some());
    assert!(saves(&tray.update_shown(release(4), true)));
    assert!(tray.update_available(release(4)).1.is_none());
    assert!(tray.update_available(release(5)).1.is_some());
}
