//! Versions, and the periodic check for a newer release. The check runs on a
//! clock that the tests set.

use logitray::clock::{Moment, Span};
use logitray::update::{
    newer_version, version_from_response, Checker, CheckerCommand, CheckerStep, FetchError,
    Schedule, Version, Wake, PACKAGE_VERSION,
};

fn v(major: u64, minor: u64, patch: u64) -> Version {
    Version {
        major,
        minor,
        patch,
    }
}

fn current() -> Version {
    v(0, 3, 0)
}

fn newer() -> Version {
    v(0, 4, 0)
}

#[test]
fn parses_tags_and_release_urls() {
    let actual = [
        Version::parse("0.3.0"),
        Version::parse("v1.2.3"),
        Version::parse("v1.2"),
        Version::parse("v1.2.3.4"),
        Version::parse("v1.2.3-rc1"),
        Version::parse(""),
        Version::parse_core("0.4.0-rc.1"),
        Version::parse_core("0.4.0+build.7"),
        Version::parse_core("0.4"),
        Version::from_release_url("https://github.com/Ithilias/logitray/releases/tag/v0.3.0"),
        Version::from_release_url("https://github.com/Ithilias/logitray/releases/tag/v0.3.0/"),
        Version::from_release_url("https://github.com/Ithilias/logitray/releases/tag/0.3.0?x=1#top"),
        Version::from_release_url("https://github.com/Ithilias/logitray/releases"),
    ];
    assert_eq!(
        actual,
        [
            Some(v(0, 3, 0)),
            Some(v(1, 2, 3)),
            None,
            None,
            None,
            None,
            Some(v(0, 4, 0)),
            Some(v(0, 4, 0)),
            None,
            Some(v(0, 3, 0)),
            Some(v(0, 3, 0)),
            Some(v(0, 3, 0)),
            None,
        ]
    );
    assert_eq!(v(0, 3, 0).to_string(), "v0.3.0");
    assert_eq!(
        Version::current(),
        Version::parse_core(PACKAGE_VERSION).unwrap()
    );
}

#[test]
fn newer_version_compares_numerically() {
    let actual = [
        newer_version(current(), v(0, 3, 0)),
        newer_version(current(), v(0, 2, 9)),
        newer_version(current(), v(0, 3, 1)),
        newer_version(current(), v(0, 10, 0)),
        newer_version(current(), v(1, 0, 0)),
    ];
    assert_eq!(
        actual,
        [
            None,
            None,
            Some(v(0, 3, 1)),
            Some(v(0, 10, 0)),
            Some(v(1, 0, 0))
        ]
    );
}

#[test]
fn numbers_out_of_range_are_no_versions() {
    assert_eq!(
        Version::parse("18446744073709551615.0.0"),
        Some(v(u64::MAX, 0, 0))
    );
    assert_eq!(Version::parse("18446744073709551616.0.0"), None);
    assert_eq!(Version::parse("1..2"), None);
    assert_eq!(Version::parse("vv1.2.3"), None);
    assert_eq!(Version::parse("+1.2.3"), Some(v(1, 2, 3)));
    assert_eq!(
        v(u64::MAX, 10, 200).to_string(),
        "v18446744073709551615.10.200"
    );
}

#[test]
fn tags_are_read_back() {
    for version in [v(0, 0, 0), v(1, 20, 300), v(u64::MAX, 9, 10)] {
        assert_eq!(Version::parse(&version.to_string()), Some(version));
    }
}

#[test]
fn the_release_page_has_to_redirect_to_a_release() {
    let page = "https://github.com/Ithilias/logitray/releases/tag/v0.4.0";
    assert_eq!(version_from_response(302, Some(page)).unwrap(), newer());
    assert_eq!(version_from_response(399, Some(page)).unwrap(), newer());
    assert!(matches!(
        version_from_response(200, Some(page)),
        Err(FetchError::UnexpectedStatus(200))
    ));
    assert!(matches!(
        version_from_response(400, None),
        Err(FetchError::UnexpectedStatus(400))
    ));
    assert!(matches!(
        version_from_response(302, None),
        Err(FetchError::MissingLocation)
    ));
    match version_from_response(302, Some("https://github.com/login")) {
        Err(FetchError::UnrecognizedUrl(url)) => assert_eq!(url, "https://github.com/login"),
        other => panic!("unexpected outcome: {other:?}"),
    }
}

fn millis(ms: u64) -> Moment {
    Moment { nanos: 0 }.plus(Span::from_millis(ms))
}

/// Checks immediately and then effectively never again.
fn once() -> Schedule {
    Schedule {
        first_delay: Span::from_secs(0),
        interval: Span::from_secs(3600),
        retry: Span::from_secs(3600),
    }
}

/// A checker on a clock of its own: `fetch` is what each check finds, given how
/// many were made before.
struct Bench<F: Fn(usize) -> Option<Version>> {
    checker: Checker,
    now: u64,
    fetches: usize,
    found: Vec<Version>,
    fetch: F,
}

impl<F: Fn(usize) -> Option<Version>> Bench<F> {
    fn new(enabled: bool, schedule: Schedule, fetch: F) -> Self {
        Bench {
            checker: Checker::new(enabled, current(), schedule, millis(0)),
            now: 0,
            fetches: 0,
            found: Vec::new(),
            fetch,
        }
    }

    fn send(&mut self, command: CheckerCommand) {
        let step = self.checker.wake(Wake::Command(command), millis(self.now));
        assert_eq!(step, CheckerStep::Wait);
    }

    /// Lets time pass, and returns what was reported meanwhile.
    fn run(&mut self, ms: u64) -> Vec<Version> {
        let end = self.now + ms;
        while let Some(span) = self.checker.wait_for(millis(self.now)) {
            let due = self.now + (span.nanos / 1_000_000) as u64;
            if due > end {
                break;
            }
            self.now = due;
            match self.checker.wake(Wake::Timeout, millis(due)) {
                CheckerStep::Check => {
                    let latest = (self.fetch)(self.fetches);
                    self.fetches += 1;
                    if let Some(version) = self.checker.settle(latest, &[], millis(due)) {
                        self.found.push(version);
                    }
                }
                step => panic!("unexpected step: {step:?}"),
            }
        }
        self.now = end;
        std::mem::take(&mut self.found)
    }
}

#[test]
fn checker_reports_once_and_only_while_enabled() {
    let mut bench = Bench::new(false, once(), |_| Some(newer()));
    assert_eq!(bench.run(200), []);

    bench.send(CheckerCommand::SetEnabled(true));
    assert_eq!(bench.run(5000), [newer()]);
    // The next check is an hour away, so that nothing else arrives.
    assert_eq!(bench.run(200), []);

    // Re-enabling checks again right away instead of waiting out the interval.
    bench.send(CheckerCommand::SetEnabled(false));
    bench.send(CheckerCommand::SetEnabled(true));
    assert_eq!(bench.run(5000), [newer()]);
}

#[test]
fn checker_ignores_current_version_and_errors() {
    let mut same = Bench::new(true, once(), |_| Some(current()));
    let mut failing = Bench::new(true, once(), |_| None);
    assert_eq!(same.run(5000), []);
    assert_eq!(failing.run(5000), []);
    // Both checks must actually have run for the silence to mean anything.
    assert!(same.fetches + failing.fetches >= 2);
    assert_eq!(same.run(300), []);
    assert_eq!(failing.run(300), []);
}

#[test]
fn checker_waits_out_the_first_delay() {
    let schedule = Schedule {
        first_delay: Span::from_millis(300),
        ..once()
    };
    let mut bench = Bench::new(true, schedule, |_| Some(newer()));
    assert_eq!(bench.run(100), []);
    assert_eq!(bench.run(5000), [newer()]);
}

#[test]
fn checker_retries_soon_after_a_failure() {
    let schedule = Schedule {
        first_delay: Span::from_secs(0),
        interval: Span::from_secs(10),
        retry: Span::from_millis(30),
    };
    let mut bench = Bench::new(true, schedule, |made| match made {
        0 => None,
        _ => Some(newer()),
    });
    // Well before the 10 s interval: the failure was retried.
    assert_eq!(bench.run(2000), [newer()]);
    assert!(bench.fetches >= 2);
}

#[test]
fn checker_repeats_after_the_interval_and_stops_when_disabled() {
    let schedule = Schedule {
        first_delay: Span::from_secs(0),
        interval: Span::from_millis(50),
        retry: Span::from_secs(10),
    };
    let mut bench = Bench::new(true, schedule, |_| Some(newer()));
    assert_eq!(bench.run(0), [newer()]);
    assert_eq!(bench.run(50), [newer()]);

    bench.send(CheckerCommand::SetEnabled(false));
    assert_eq!(bench.run(150), []);
    assert_eq!(bench.run(300), []);
}

#[test]
fn a_disable_during_a_check_wins_over_its_result() {
    let mut checker = Checker::new(true, current(), once(), millis(0));
    assert_eq!(checker.wake(Wake::Timeout, millis(0)), CheckerStep::Check);
    let commands = [
        CheckerCommand::SetEnabled(true),
        CheckerCommand::SetEnabled(false),
    ];
    assert_eq!(
        checker.settle(Some(newer()), &commands, millis(5)),
        None
    );
    assert_eq!(checker.wait_for(millis(5)), None);
    assert_eq!(
        checker.wake(Wake::Disconnected, millis(6)),
        CheckerStep::Stop
    );
}

#[test]
fn the_usual_schedule_is_daily() {
    let schedule = Schedule::default();
    assert_eq!(schedule.first_delay, Span::from_secs(60));
    assert_eq!(schedule.interval, Span::from_secs(24 * 60 * 60));
    assert_eq!(schedule.retry, Span::from_secs(10 * 60));
}
