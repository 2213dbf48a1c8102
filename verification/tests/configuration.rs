//! The configuration and the device profiles, as they are kept in TOML files.

use logitray::config::{
    app_data_dir, config_path, device_profiles_path, invalid_config_path, load_config_or_default,
    load_or_create_config, log_path, may_save_defaults, temp_file_name, temp_path, write_atomic,
    AppConfig, Aside, ConfigFields, ConfigFile, DataPath, DeviceProfile, DeviceProfiles, Loading,
    Root, TempPathError, WriteStep, AUTO_SUBJECT_ID,
};
use logitray::i18n::Language;
use toml::{Table, Value};

fn text_at(table: &Table, key: &str) -> Option<String> {
    table.get(key).map(|value| value.as_str().unwrap().to_string())
}

fn number_at(table: &Table, key: &str) -> Option<u64> {
    table
        .get(key)
        .map(|value| u64::try_from(value.as_integer().unwrap()).unwrap())
}

fn flag_at(table: &Table, key: &str) -> Option<bool> {
    table.get(key).map(|value| value.as_bool().unwrap())
}

/// The keys that a file holds.
fn parse(text: &str) -> ConfigFields {
    let table: Table = toml::from_str(text).unwrap();
    ConfigFields {
        language: text_at(&table, "language"),
        poll_interval_seconds: number_at(&table, "poll_interval_seconds"),
        low_battery_threshold: number_at(&table, "low_battery_threshold")
            .map(|percent| u8::try_from(percent).unwrap()),
        low_battery_cooldown_minutes: number_at(&table, "low_battery_cooldown_minutes"),
        selected_device_id: text_at(&table, "selected_device_id"),
        autostart: flag_at(&table, "autostart"),
        log_level: text_at(&table, "log_level"),
        view_mode: text_at(&table, "view_mode"),
        notifications_enabled: flag_at(&table, "notifications_enabled"),
        check_for_updates: flag_at(&table, "check_for_updates"),
        last_notified_update: text_at(&table, "last_notified_update"),
    }
}

fn put_number(table: &mut Table, key: &str, value: Option<u64>) {
    if let Some(value) = value {
        table.insert(key.to_string(), Value::Integer(i64::try_from(value).unwrap()));
    }
}

fn put_text(table: &mut Table, key: &str, value: Option<String>) {
    if let Some(value) = value {
        table.insert(key.to_string(), Value::String(value));
    }
}

fn put_flag(table: &mut Table, key: &str, value: Option<bool>) {
    if let Some(value) = value {
        table.insert(key.to_string(), Value::Boolean(value));
    }
}

/// The file that holds these keys.
fn print(fields: ConfigFields) -> String {
    let mut table = Table::new();
    put_text(&mut table, "language", fields.language);
    put_number(&mut table, "poll_interval_seconds", fields.poll_interval_seconds);
    put_number(
        &mut table,
        "low_battery_threshold",
        fields.low_battery_threshold.map(u64::from),
    );
    put_number(
        &mut table,
        "low_battery_cooldown_minutes",
        fields.low_battery_cooldown_minutes,
    );
    put_text(&mut table, "selected_device_id", fields.selected_device_id);
    put_flag(&mut table, "autostart", fields.autostart);
    put_text(&mut table, "log_level", fields.log_level);
    put_text(&mut table, "view_mode", fields.view_mode);
    put_flag(&mut table, "notifications_enabled", fields.notifications_enabled);
    put_flag(&mut table, "check_for_updates", fields.check_for_updates);
    put_text(&mut table, "last_notified_update", fields.last_notified_update);
    toml::to_string(&table).unwrap()
}

fn read(text: &str) -> AppConfig {
    AppConfig::from_fields(parse(text))
}

/// Writes the default configuration without `key`, appends `line` if given, then
/// loads, saves and reloads it, and returns both configurations.
fn reload_with(key: &str, line: Option<String>) -> (AppConfig, AppConfig) {
    let raw = print(AppConfig::default().to_fields());
    let mut text = raw
        .lines()
        .filter(|l| !l.starts_with(&format!("{key} =")))
        .collect::<Vec<_>>()
        .join("\n");
    if let Some(line) = line {
        text.push('\n');
        text.push_str(&line);
        text.push('\n');
    }
    let cfg = read(&text);
    let saved = print(cfg.to_fields());
    let restored = read(&saved);
    (cfg, restored)
}

#[test]
fn language_config_compatibility() {
    let actual: Vec<_> = [None, Some("auto"), Some("en"), Some("zh-CN"), Some("fr")]
        .into_iter()
        .map(|value| {
            let line = value.map(|value| format!("language = \"{value}\""));
            let (cfg, restored) = reload_with("language", line);
            (cfg.language, restored.language)
        })
        .collect();
    assert_eq!(
        actual,
        [
            (Language::Auto, Language::Auto),
            (Language::Auto, Language::Auto),
            (Language::English, Language::English),
            (Language::SimplifiedChinese, Language::SimplifiedChinese),
            (Language::English, Language::English),
        ]
    );
}

#[test]
fn check_for_updates_defaults_on_and_roundtrips() {
    let actual: Vec<_> = [None, Some(true), Some(false)]
        .into_iter()
        .map(|value| {
            let line = value.map(|value| format!("check_for_updates = {value}"));
            let (cfg, restored) = reload_with("check_for_updates", line);
            (cfg.check_for_updates, restored.check_for_updates)
        })
        .collect();
    assert_eq!(actual, [(true, true), (true, true), (false, false)]);
}

#[test]
fn last_notified_update_defaults_empty_and_roundtrips() {
    let actual: Vec<_> = [None, Some("v0.4.0")]
        .into_iter()
        .map(|value| {
            let line = value.map(|value| format!("last_notified_update = \"{value}\""));
            let (cfg, restored) = reload_with("last_notified_update", line);
            (cfg.last_notified_update, restored.last_notified_update)
        })
        .collect();
    assert_eq!(
        actual,
        [
            (String::new(), String::new()),
            ("v0.4.0".to_string(), "v0.4.0".to_string()),
        ]
    );
}

fn profile(feature: u16, index: u8, name: &str) -> DeviceProfile {
    DeviceProfile {
        battery_feature_id: feature,
        battery_feature_index: index,
        name: name.to_string(),
    }
}

/// The file that holds these profiles.
fn print_profiles(profiles: &DeviceProfiles) -> String {
    let mut devices = Table::new();
    for i in 0..profiles.devices.len() {
        let profile = profiles.devices.value_at(i);
        let mut entry = Table::new();
        put_number(
            &mut entry,
            "battery_feature_id",
            Some(u64::from(profile.battery_feature_id)),
        );
        put_number(
            &mut entry,
            "battery_feature_index",
            Some(u64::from(profile.battery_feature_index)),
        );
        put_text(&mut entry, "name", Some(profile.name.clone()));
        devices.insert(profiles.devices.key_at(i).clone(), Value::Table(entry));
    }
    let mut table = Table::new();
    table.insert("devices".to_string(), Value::Table(devices));
    toml::to_string_pretty(&table).expect("serialize profiles")
}

/// The profiles that a file holds.
fn parse_profiles(text: &str) -> DeviceProfiles {
    let table: Table = toml::from_str(text).expect("parse profiles");
    let mut profiles = DeviceProfiles::default();
    for (key, value) in table["devices"].as_table().unwrap() {
        let entry = value.as_table().unwrap();
        profiles.devices.insert(
            key.clone(),
            profile(
                u16::try_from(number_at(entry, "battery_feature_id").unwrap()).unwrap(),
                u8::try_from(number_at(entry, "battery_feature_index").unwrap()).unwrap(),
                &text_at(entry, "name").unwrap(),
            ),
        );
    }
    profiles
}

#[test]
fn device_profiles_roundtrip_and_upsert() {
    let mut profiles = DeviceProfiles::default();
    assert!(profiles.upsert(0x4099, profile(0x1001, 6, "G Pro")));
    // The identical profile changes nothing.
    assert!(!profiles.upsert(0x4099, profile(0x1001, 6, "G Pro")));

    let raw = print_profiles(&profiles);
    let parsed = parse_profiles(&raw);
    let p = parsed.get(0x4099).expect("profile present after roundtrip");
    assert_eq!(p.battery_feature_id, 0x1001);
    assert_eq!(p.battery_feature_index, 6);
    assert_eq!(p.name, "G Pro");
    assert!(parsed.get(0x1234).is_none());
}

#[test]
fn a_changed_profile_replaces_the_old_one() {
    let mut profiles = DeviceProfiles::default();
    assert!(profiles.upsert(0x00ab, profile(0x1000, 6, "G Pro")));
    assert!(profiles.upsert(0x00ab, profile(0x1004, 6, "G Pro")));
    assert!(profiles.upsert(0x00ab, profile(0x1004, 7, "G Pro")));
    assert!(profiles.upsert(0x00ab, profile(0x1004, 7, "G Pro X")));
    assert_eq!(profiles.devices.keys(), ["00ab"]);
    assert_eq!(profiles.get(0x00ab).unwrap().name, "G Pro X");
    assert_eq!(DeviceProfiles::key(0xC0DE), "c0de");
}

#[test]
fn config_toml_roundtrip() {
    let cfg = AppConfig::default();
    let raw = print(cfg.to_fields());
    let parsed = read(&raw);
    assert_eq!(parsed.poll_interval_seconds, cfg.poll_interval_seconds);
    assert_eq!(parsed.low_battery_threshold, cfg.low_battery_threshold);
    assert_eq!(parsed.autostart, cfg.autostart);
    assert_eq!(parsed.view_mode, cfg.view_mode);
    assert_eq!(parsed.notifications_enabled, cfg.notifications_enabled);
}

/// A missing key must cost that key's value, not the whole file.
#[test]
fn a_missing_key_falls_back_to_its_own_default() {
    let d = AppConfig::default();
    let missing = |key: &str| reload_with(key, None).0;
    assert_eq!(
        missing("poll_interval_seconds").poll_interval_seconds,
        d.poll_interval_seconds
    );
    assert_eq!(
        missing("low_battery_threshold").low_battery_threshold,
        d.low_battery_threshold
    );
    assert_eq!(
        missing("low_battery_cooldown_minutes").low_battery_cooldown_minutes,
        d.low_battery_cooldown_minutes
    );
    assert_eq!(
        missing("selected_device_id").selected_device_id,
        d.selected_device_id
    );
    assert_eq!(missing("autostart").autostart, d.autostart);
    assert_eq!(missing("log_level").log_level, d.log_level);
}

/// Even an empty file is a usable configuration.
#[test]
fn an_empty_config_parses_as_all_defaults() {
    let cfg = read("");
    let d = AppConfig::default();
    assert_eq!(cfg.selected_device_id, d.selected_device_id);
    assert_eq!(cfg.poll_interval_seconds, d.poll_interval_seconds);
    assert_eq!(cfg.low_battery_threshold, d.low_battery_threshold);
    assert_eq!(cfg.log_level, d.log_level);
    assert_eq!(cfg.autostart, d.autostart);
}

#[test]
fn fresh_configs_follow_the_lowest_battery() {
    assert_eq!(AppConfig::default().selected_device_id, AUTO_SUBJECT_ID);
}

#[test]
fn selected_device_id_roundtrips() {
    let actual: Vec<_> = [AUTO_SUBJECT_ID, "C547:1", ""]
        .into_iter()
        .map(|value| {
            let line = format!("selected_device_id = \"{value}\"");
            let (cfg, restored) = reload_with("selected_device_id", Some(line));
            (cfg.selected_device_id, restored.selected_device_id)
        })
        .collect();
    assert_eq!(
        actual,
        [
            ("lowest".to_string(), "lowest".to_string()),
            ("C547:1".to_string(), "C547:1".to_string()),
            (String::new(), String::new()),
        ]
    );
}

#[test]
fn default_autostart_is_opt_in() {
    assert!(!AppConfig::default().autostart);
}

#[test]
fn the_defaults_are_the_documented_ones() {
    let d = AppConfig::default();
    assert_eq!(d.language, Language::Auto);
    assert_eq!(d.poll_interval_seconds, 180);
    assert_eq!(d.low_battery_threshold, 15);
    assert_eq!(d.low_battery_cooldown_minutes, 120);
    assert_eq!(d.log_level, "info");
    assert_eq!(d.view_mode, "icon");
    assert!(d.notifications_enabled);
    assert!(d.check_for_updates);
    assert_eq!(d.last_notified_update, "");
}

#[test]
fn the_view_mode_ignores_case() {
    let mut cfg = AppConfig::default();
    assert!(!cfg.text_mode());
    for mode in ["text", "TEXT", "Text"] {
        cfg.view_mode = mode.to_string();
        assert!(cfg.text_mode());
    }
    cfg.view_mode = "texts".to_string();
    assert!(!cfg.text_mode());
}

#[test]
fn a_missing_file_is_created_and_a_broken_one_is_reported() {
    match load_or_create_config(ConfigFile::Missing) {
        Loading::Create(cfg) => assert_eq!(cfg.selected_device_id, AUTO_SUBJECT_ID),
        other => panic!("unexpected outcome: {other:?}"),
    }
    match load_or_create_config(ConfigFile::Broken("no good".to_string())) {
        Loading::Fail(why) => assert_eq!(why, "no good"),
        other => panic!("unexpected outcome: {other:?}"),
    }
    match load_or_create_config(ConfigFile::Parsed(parse("autostart = true"))) {
        Loading::Use(cfg) => assert!(cfg.autostart),
        other => panic!("unexpected outcome: {other:?}"),
    }
}

#[test]
fn a_broken_file_does_not_keep_the_tray_from_starting() {
    let loaded = AppConfig {
        autostart: true,
        ..AppConfig::default()
    };
    let (cfg, note) = load_config_or_default(Ok(loaded), &Aside::NoFile);
    assert!(cfg.autostart);
    assert_eq!(note, None);

    let notes: Vec<_> = [
        Aside::NoFile,
        Aside::Moved("there".to_string()),
        Aside::Stuck("denied".to_string()),
    ]
    .iter()
    .map(|aside| {
        let (cfg, note) = load_config_or_default(Err("bad".to_string()), aside);
        assert_eq!(cfg.selected_device_id, AUTO_SUBJECT_ID);
        note.unwrap()
    })
    .collect();
    assert_eq!(
        notes,
        [
            "bad; starting from defaults",
            "bad; moved it to there and starting from defaults",
            "bad; could not move it aside (denied), starting from defaults",
        ]
    );
}

#[test]
fn a_broken_file_that_cannot_be_moved_is_not_overwritten() {
    assert!(may_save_defaults(&Aside::NoFile));
    assert!(may_save_defaults(&Aside::Moved("there".to_string())));
    assert!(!may_save_defaults(&Aside::Stuck("denied".to_string())));
}

#[test]
fn a_path_needs_a_parent_and_a_file_name() {
    assert_eq!(
        temp_path(Some("dir"), Some("config.toml"), 12),
        Ok(("dir", ".config.toml.12.tmp".to_string()))
    );
    assert_eq!(
        temp_path::<&str>(None, Some("config.toml"), 12),
        Err(TempPathError::MissingParent)
    );
    assert_eq!(
        temp_path::<&str>(None, None, 12),
        Err(TempPathError::MissingParent)
    );
    assert_eq!(
        temp_path(Some("dir"), None, 12),
        Err(TempPathError::MissingFileName)
    );
}

#[test]
fn files_have_their_places() {
    let roaming = Some("roaming");
    let user = Some("user");
    let under = |root, parts: &[&str]| DataPath {
        root,
        parts: parts.iter().map(|part| part.to_string()).collect(),
    };
    assert_eq!(
        app_data_dir(roaming, user),
        under(Root::Dir("roaming"), &["logitray"])
    );
    assert_eq!(
        config_path(None, user),
        under(Root::Dir("user"), &["logitray", "config.toml"])
    );
    assert_eq!(
        invalid_config_path::<&str>(None, None),
        under(Root::WorkingDir, &["logitray", "config.toml.invalid"])
    );
    assert_eq!(
        log_path(roaming, None),
        under(Root::Dir("roaming"), &["logitray", "logitray.log"])
    );
    assert_eq!(
        device_profiles_path(roaming, None),
        under(Root::Dir("roaming"), &["logitray", "devices.toml"])
    );
    assert_eq!(temp_file_name("config.toml", 4711), ".config.toml.4711.tmp");
}

#[test]
fn writing_goes_by_way_of_a_temporary_file() {
    let steps = |replaces| {
        let mut step = WriteStep::CreateDirectory;
        let mut taken = vec![step];
        while step != WriteStep::Finished {
            step = write_atomic(step, true, replaces);
            taken.push(step);
        }
        taken
    };
    assert_eq!(
        steps(false),
        [
            WriteStep::CreateDirectory,
            WriteStep::CreateTemp,
            WriteStep::FillTemp,
            WriteStep::SyncTemp,
            WriteStep::RenameTemp,
            WriteStep::Finished,
        ]
    );
    assert_eq!(steps(true)[4], WriteStep::RemoveTarget);
    for step in [
        WriteStep::CreateDirectory,
        WriteStep::CreateTemp,
        WriteStep::FillTemp,
        WriteStep::SyncTemp,
        WriteStep::RemoveTarget,
    ] {
        assert_eq!(write_atomic(step, false, true), WriteStep::Failed);
    }
    assert_eq!(
        write_atomic(WriteStep::RenameTemp, false, false),
        WriteStep::DiscardTemp
    );
    assert_eq!(
        write_atomic(WriteStep::DiscardTemp, true, false),
        WriteStep::Failed
    );
}
