//! The command line, the printed report, the log, and the shell.

use logitray::app::{
    log_directives, maybe_rotate_logs, mode_of, rotated_path, run_once, Mode, RotateStep,
    RotatedPathError, LOG_FILES_TO_KEEP, MAX_LOG_FILE_BYTES,
};
use logitray::model::{BatteryState, PollResult};
use logitray::shell;
use tracing_subscriber::EnvFilter;

#[test]
fn documented_levels_apply_to_logitray_only() {
    let actual: Vec<_> = [
        "error", "warn", "info", "debug", "trace", "DEBUG", " debug ",
    ]
    .into_iter()
    .map(log_directives)
    .collect();
    assert_eq!(
        actual,
        [
            "error,logitray=error",
            "warn,logitray=warn",
            "info,logitray=info",
            // The finer levels stay out of the dependencies.
            "info,logitray=debug",
            "info,logitray=trace",
            "info,logitray=debug",
            "info,logitray=debug",
        ]
    );
}

#[test]
fn directive_strings_pass_through() {
    let actual: Vec<_> = ["logitray=debug,ureq=off", "logitray::hid=trace", "nonsense"]
        .into_iter()
        .map(log_directives)
        .collect();
    assert_eq!(
        actual,
        ["logitray=debug,ureq=off", "logitray::hid=trace", "nonsense"]
    );
}

#[test]
fn every_produced_directive_parses() {
    for level in ["error", "warn", "info", "debug", "trace"] {
        let directives = log_directives(level);
        assert!(
            EnvFilter::try_new(&directives).is_ok(),
            "EnvFilter rejected {directives}"
        );
    }
}

#[test]
fn white_space_of_any_kind_is_trimmed() {
    assert_eq!(log_directives("\u{3000}\tTrace\n"), "info,logitray=trace");
    assert_eq!(log_directives("  a b  "), "a b");
    assert_eq!(log_directives(" \n"), "");
}

#[test]
fn arguments_choose_the_mode() {
    let mode = |args: &[&str]| {
        let args: Vec<String> = args.iter().map(|arg| arg.to_string()).collect();
        mode_of(&args)
    };
    assert_eq!(mode(&["logitray"]), Mode::Tray);
    assert_eq!(mode(&["logitray", "--once"]), Mode::Once);
    assert_eq!(mode(&["logitray", "--once", "--diag"]), Mode::Diag);
    assert_eq!(mode(&["logitray", "--Once"]), Mode::Tray);
}

#[test]
fn a_single_run_prints_devices_and_errors() {
    let mut result = PollResult::new();
    let (out, err) = run_once(&result);
    assert_eq!(out, ["No supported Logitech devices found."]);
    assert!(err.is_empty());

    for (name, percent, charging) in [("MX Keys", 80, false), ("G502", 100, true)] {
        result.devices.push(BatteryState {
            device_key: "C52B:1".to_string(),
            display_name: name.to_string(),
            pid: 0xC52B,
            device_index: 1,
            battery_percent: percent,
            is_charging: charging,
        });
    }
    result.errors.push("receiver C52B: no".to_string());
    let (out, err) = run_once(&result);
    assert_eq!(out, ["MX Keys: 80%", "G502: 100% (charging)"]);
    assert_eq!(err, ["Errors:", "  receiver C52B: no"]);
}

#[test]
fn a_full_log_is_rotated() {
    let steps = |size| maybe_rotate_logs(size, MAX_LOG_FILE_BYTES, LOG_FILES_TO_KEEP);
    assert_eq!(steps(None), []);
    assert_eq!(steps(Some(1_048_575)), []);
    assert_eq!(
        steps(Some(1_048_576)),
        [
            RotateStep::Remove(2),
            RotateStep::Rename { from: 1, to: 2 },
            RotateStep::Rename { from: 0, to: 1 },
        ]
    );
    assert_eq!(maybe_rotate_logs(Some(u64::MAX), 1, 1), []);
    assert_eq!(maybe_rotate_logs(Some(u64::MAX), 1, 0), []);
}

#[test]
fn rotated_logs_are_numbered() {
    assert_eq!(
        rotated_path(Some("dir"), Some("logitray.log"), 2),
        Ok(("dir", "logitray.log.2".to_string()))
    );
    assert_eq!(
        rotated_path::<&str>(None, Some("logitray.log"), 2),
        Err(RotatedPathError::MissingParent)
    );
    assert_eq!(
        rotated_path(Some("dir"), None, 2),
        Err(RotatedPathError::MissingFileName)
    );
}

#[test]
fn low_results_of_the_shell_are_errors() {
    assert_eq!(
        shell::open("x", Some(2)).as_deref(),
        Some("failed opening x: ShellExecuteW error 2")
    );
    assert_eq!(
        shell::open("x", Some(32)).as_deref(),
        Some("failed opening x: ShellExecuteW error 32")
    );
    assert_eq!(shell::open("x", Some(33)), None);
    assert_eq!(
        shell::open("x", None).as_deref(),
        Some("cannot open x on this platform")
    );
}
