//! Update check against the GitHub releases page. Notify only: nothing is ever
//! downloaded or replaced, the user is merely pointed at the release page.

use vstd::prelude::*;
use vstd::string::*;

use crate::clock::{Moment, Span, NANOS_PER_SECOND};
use crate::cut::{
    after_last, before_either, length_before_either, length_without_trailing, occurs,
    one_more_piece, pieces, split_at_each, start_of_last_piece, trimmed_end,
    unbroken_comes_after, unbroken_comes_before, unbroken_is_one_piece,
};
use crate::text::{
    chars_of, decimal, decimal_reads_back, is_digit, is_numeral, parse_number, parsed_number,
    push_decimal,
};

verus! {

/// Redirects to the newest release, so that its tag can be read from the
/// Location header.
pub const LATEST_RELEASE_URL: &'static str = "https://github.com/Ithilias/logitray/releases/latest";

/// The version of this build.
pub const PACKAGE_VERSION: &'static str = "0.3.0";

/// A released version.
#[derive(Clone, Copy, Debug, PartialEq, Eq, Structural, PartialOrd, Ord)]
pub struct Version {
    pub major: u64,
    pub minor: u64,
    pub patch: u64,
}

// ---------------------------------------------------------------------------
// Reading and writing versions
// ---------------------------------------------------------------------------

/// The three numbers between the dots, if there are exactly three.
pub open spec fn dotted_version(parts: Seq<Seq<char>>) -> Option<Version> {
    if parts.len() == 3 {
        match (
            parsed_number(parts[0], u64::MAX as nat),
            parsed_number(parts[1], u64::MAX as nat),
            parsed_number(parts[2], u64::MAX as nat),
        ) {
            (Some(major), Some(minor), Some(patch)) => Some(
                Version { major: major as u64, minor: minor as u64, patch: patch as u64 },
            ),
            _ => None,
        }
    } else {
        None
    }
}

/// A text without one leading `v`.
pub open spec fn without_v(text: Seq<char>) -> Seq<char> {
    if text.len() > 0 && text[0] == 'v' {
        text.skip(1)
    } else {
        text
    }
}

/// The version written as `1.2.3` or `v1.2.3`.
pub open spec fn version_in(text: Seq<char>) -> Option<Version> {
    dotted_version(split_at_each(without_v(text), '.'))
}

/// The version written before a pre-release or build suffix.
pub open spec fn core_version_in(text: Seq<char>) -> Option<Version> {
    version_in(before_either(text, '-', '+'))
}

/// The last segment of the path of a URL, trailing slashes disregarded.
pub open spec fn last_segment(url: Seq<char>) -> Seq<char> {
    after_last(trimmed_end(before_either(url, '?', '#'), '/'), '/')
}

/// The tag of a version, such as `v1.2.3`.
pub open spec fn tag_of(version: Version) -> Seq<char> {
    seq!['v'] + decimal(version.major as nat) + seq!['.'] + decimal(version.minor as nat) + seq![
        '.',
    ] + decimal(version.patch as nat)
}

fn version_in_chars(chars: &[char]) -> (version: Option<Version>)
    ensures
        version == version_in(chars@),
{
    let from: usize = if chars.len() > 0 && chars[0] == 'v' { 1 } else { 0 };
    let body: &[char] = vstd::slice::slice_subrange(chars, from, chars.len());
    assert(body@ == without_v(chars@));
    let parts = pieces(body, '.');
    let ghost split = split_at_each(body@, '.');
    assert(split == Seq::new(parts@.len(), |i: int| parts@[i]@));
    if parts.len() != 3 {
        return None;
    }
    assert(split[0] == parts@[0]@ && split[1] == parts@[1]@ && split[2] == parts@[2]@);
    match (
        parse_number(&parts[0], u64::MAX),
        parse_number(&parts[1], u64::MAX),
        parse_number(&parts[2], u64::MAX),
    ) {
        (Some(major), Some(minor), Some(patch)) => Some(Version { major, minor, patch }),
        _ => None,
    }
}

impl Version {
    /// The version of this build.
    pub fn current() -> (version: Self)
        ensures
            version == (Version { major: 0, minor: 3, patch: 0 }),
            Some(version) == core_version_in(PACKAGE_VERSION@),
    {
        proof {
            current_version_is_written();
        }
        Self::parse_core(PACKAGE_VERSION).expect("this build has a version")
    }

    /// Reads `1.2.3` or `v1.2.3`. Pre-release suffixes and extra components
    /// yield `None`, so that unusual tags are ignored rather than compared.
    pub fn parse(text: &str) -> (version: Option<Self>)
        ensures
            version == version_in(text@),
    {
        let chars = chars_of(text);
        version_in_chars(&chars)
    }

    /// Like [`Version::parse`], but drops a pre-release or build suffix first.
    pub fn parse_core(text: &str) -> (version: Option<Self>)
        ensures
            version == core_version_in(text@),
    {
        let chars = chars_of(text);
        let n = length_before_either(&chars, '-', '+');
        let core: &[char] = vstd::slice::slice_subrange(chars.as_slice(), 0, n);
        assert(core@ == chars@.take(n as int));
        version_in_chars(core)
    }

    /// Reads the tag from a release page URL such as
    /// `https://github.com/Ithilias/logitray/releases/tag/v0.3.0`.
    pub fn from_release_url(url: &str) -> (version: Option<Self>)
        ensures
            version == version_in(last_segment(url@)),
    {
        let chars = chars_of(url);
        let path_len = length_before_either(&chars, '?', '#');
        let path: &[char] = vstd::slice::slice_subrange(chars.as_slice(), 0, path_len);
        assert(path@ == chars@.take(path_len as int));
        let end = length_without_trailing(path, '/');
        let start = start_of_last_piece(path, end, '/');
        let segment: &[char] = vstd::slice::slice_subrange(path, start, end);
        version_in_chars(segment)
    }

    /// The tag of this version, such as `v1.2.3`.
    pub fn to_string(&self) -> (tag: String)
        ensures
            tag@ == tag_of(*self),
    {
        let mut tag = String::new();
        tag.push('v');
        push_decimal(&mut tag, self.major);
        tag.push('.');
        push_decimal(&mut tag, self.minor);
        tag.push('.');
        push_decimal(&mut tag, self.patch);
        assert(tag@ == tag_of(*self));
        tag
    }
}

proof fn numerals_are_unbroken(n: nat, c: char)
    requires
        !is_digit(c),
    ensures
        !occurs(decimal(n), c),
{
    decimal_reads_back(n);
    assert(is_numeral(decimal(n)));
}

/// The tag of a version is read back as that version.
pub proof fn tags_read_back(version: Version)
    ensures
        version_in(tag_of(version)) == Some(version),
{
    let a = decimal(version.major as nat);
    let b = decimal(version.minor as nat);
    let c = decimal(version.patch as nat);
    numerals_are_unbroken(version.major as nat, '.');
    numerals_are_unbroken(version.minor as nat, '.');
    numerals_are_unbroken(version.patch as nat, '.');
    let body = (a.push('.') + b).push('.') + c;
    assert(tag_of(version) == seq!['v'] + body);
    assert(without_v(tag_of(version)) == body);
    unbroken_is_one_piece(a, '.');
    one_more_piece(a, '.', b);
    one_more_piece(a.push('.') + b, '.', c);
    assert(split_at_each(body, '.') == seq![a, b, c]);
    decimal_reads_back(version.major as nat);
    decimal_reads_back(version.minor as nat);
    decimal_reads_back(version.patch as nat);
}

/// No tag holds a character that a URL gives another meaning.
proof fn tags_are_plain(version: Version, c: char)
    requires
        !is_digit(c),
        c != 'v',
        c != '.',
    ensures
        !occurs(tag_of(version), c),
{
    numerals_are_unbroken(version.major as nat, c);
    numerals_are_unbroken(version.minor as nat, c);
    numerals_are_unbroken(version.patch as nat, c);
    let a = decimal(version.major as nat);
    let b = decimal(version.minor as nat);
    let d = decimal(version.patch as nat);
    let t = tag_of(version);
    assert forall|i: int| 0 <= i < t.len() implies t[i] != c by {
        let x = i - 1;
        let y = x - a.len() - 1;
        let z = y - b.len() - 1;
        if 0 <= x < a.len() {
            assert(t[i] == a[x]);
        } else if 0 <= y < b.len() {
            assert(t[i] == b[y]);
        } else if 0 <= z < d.len() {
            assert(t[i] == d[z]);
        }
    }
}

/// The page of a release, with or without slashes behind it and whatever query
/// or fragment follows, yields the version that it was published under.
pub proof fn release_pages_read_back(
    base: Seq<char>,
    version: Version,
    slashes: nat,
    rest: Seq<char>,
)
    requires
        !occurs(base, '?'),
        !occurs(base, '#'),
        rest.len() > 0 ==> rest[0] == '?' || rest[0] == '#',
    ensures
        version_in(
            last_segment(
                base.push('/') + tag_of(version) + Seq::new(slashes, |i: int| '/') + rest,
            ),
        ) == Some(version),
{
    let tag = tag_of(version);
    let tail = Seq::new(slashes, |i: int| '/');
    let path = base.push('/') + tag + tail;
    tags_are_plain(version, '?');
    tags_are_plain(version, '#');
    tags_are_plain(version, '/');
    assert forall|i: int| 0 <= i < path.len() implies path[i] != '?' && path[i] != '#' by {
        if i < base.len() {
            assert(path[i] == base[i]);
        } else if base.len() + 1 <= i < base.len() + 1 + tag.len() {
            assert(path[i] == tag[i - base.len() - 1]);
        }
    }
    unbroken_comes_before(path, '?', '#');
    query_is_dropped(path, rest, '?', '#');
    let page = base.push('/') + tag;
    assert(tag.last() != '/') by {
        assert(tag[tag.len() - 1] != '/');
    }
    slashes_are_dropped(page, slashes);
    unbroken_comes_after(base, '/', tag);
    tags_read_back(version);
}

proof fn query_is_dropped(path: Seq<char>, rest: Seq<char>, a: char, b: char)
    requires
        before_either(path, a, b) == path,
        rest.len() > 0 ==> rest[0] == a || rest[0] == b,
    ensures
        before_either(path + rest, a, b) == path,
    decreases path.len(),
{
    let whole = path + rest;
    if path.len() == 0 {
        assert(whole == rest);
        assert(path == Seq::<char>::empty());
    } else {
        let head = seq![path[0]] + before_either(path.skip(1), a, b);
        assert(path[0] != a && path[0] != b);
        assert(head == path);
        assert(head.skip(1) == before_either(path.skip(1), a, b));
        query_is_dropped(path.skip(1), rest, a, b);
        assert(whole.skip(1) == path.skip(1) + rest);
        assert(whole[0] == path[0]);
        assert(seq![path[0]] + path.skip(1) == path);
    }
}

proof fn slashes_are_dropped(page: Seq<char>, slashes: nat)
    requires
        page.len() > 0,
        page.last() != '/',
    ensures
        trimmed_end(page + Seq::new(slashes, |i: int| '/'), '/') == page,
    decreases slashes,
{
    let whole = page + Seq::new(slashes, |i: int| '/');
    if slashes == 0 {
        assert(whole == page);
    } else {
        slashes_are_dropped(page, (slashes - 1) as nat);
        assert(whole.drop_last() == page + Seq::new((slashes - 1) as nat, |i: int| '/'));
    }
}

proof fn current_version_is_written()
    ensures
        core_version_in(PACKAGE_VERSION@) == Some(Version { major: 0, minor: 3, patch: 0 }),
{
    reveal_strlit("0.3.0");
    let text = PACKAGE_VERSION@;
    let version = Version { major: 0, minor: 3, patch: 0 };
    assert(decimal(0) == seq!['0']);
    assert(decimal(3) == seq!['3']);
    assert(text =~= seq!['0', '.', '3', '.', '0']);
    assert(tag_of(version) =~= seq!['v'] + text);
    assert(without_v(tag_of(version)) =~= text);
    tags_read_back(version);
    unbroken_comes_before(text, '-', '+');
}

// ---------------------------------------------------------------------------
// Which version is newer
// ---------------------------------------------------------------------------

/// `a` is newer than `b`: the first number in which they differ is larger.
pub open spec fn is_newer(a: Version, b: Version) -> bool {
    ||| a.major > b.major
    ||| a.major == b.major && a.minor > b.minor
    ||| a.major == b.major && a.minor == b.minor && a.patch > b.patch
}

/// `Some(latest)` when `latest` is newer than `current`.
pub fn newer_version(current: Version, latest: Version) -> (newer: Option<Version>)
    ensures
        newer == (if is_newer(latest, current) {
            Some(latest)
        } else {
            None
        }),
{
    if latest.major > current.major || (latest.major == current.major && (latest.minor
        > current.minor || (latest.minor == current.minor && latest.patch > current.patch))) {
        Some(latest)
    } else {
        None
    }
}

/// Being newer orders the versions: of two different ones exactly one is newer,
/// and what is newer than a newer version is newer.
pub proof fn newer_is_an_order(a: Version, b: Version, c: Version)
    ensures
        !is_newer(a, a),
        a != b ==> is_newer(a, b) != is_newer(b, a),
        is_newer(a, b) && is_newer(b, c) ==> is_newer(a, c),
{
}

// ---------------------------------------------------------------------------
// Reading the answer of the release page
// ---------------------------------------------------------------------------

/// Why the answer of the release page names no version.
#[derive(Debug)]
pub enum FetchError {
    /// The answer is not a redirect.
    UnexpectedStatus(u16),
    /// A redirect that does not say where to.
    MissingLocation,
    /// A redirect to something that is not the page of a release.
    UnrecognizedUrl(String),
}

/// The version that the answer of the release page points to. `location` is the
/// Location header, if there is one that is text.
pub fn version_from_response(status: u16, location: Option<&str>) -> (version: Result<
    Version,
    FetchError,
>)
    ensures
        match version {
            Ok(v) => 300 <= status < 400 && location is Some && version_in(
                last_segment(location->0@),
            ) == Some(v),
            Err(FetchError::UnexpectedStatus(s)) => s == status && !(300 <= status < 400),
            Err(FetchError::MissingLocation) => 300 <= status < 400 && location is None,
            Err(FetchError::UnrecognizedUrl(url)) => 300 <= status < 400 && location is Some
                && url@ == location->0@ && version_in(last_segment(location->0@)) is None,
        },
{
    if !(300 <= status && status < 400) {
        return Err(FetchError::UnexpectedStatus(status));
    }
    match location {
        None => Err(FetchError::MissingLocation),
        Some(url) => match Version::from_release_url(url) {
            Some(version) => Ok(version),
            None => Err(FetchError::UnrecognizedUrl(url.to_string())),
        },
    }
}

// ---------------------------------------------------------------------------
// The periodic check
// ---------------------------------------------------------------------------

/// What the checker can be told while it runs.
#[derive(Clone, Copy, Debug, PartialEq, Eq, Structural)]
pub enum CheckerCommand {
    SetEnabled(bool),
}

/// When checks are made.
#[derive(Clone, Copy, Debug, PartialEq, Eq, Structural)]
pub struct Schedule {
    /// Delay before the first check, so that an autostarted instance does not
    /// race the network coming up and a first-time user can opt out beforehand.
    pub first_delay: Span,
    pub interval: Span,
    /// Used instead of `interval` after a failed check.
    pub retry: Span,
}

impl Default for Schedule {
    /// A minute after the start, then daily, ten minutes after a failure.
    fn default() -> (schedule: Self)
        ensures
            schedule.first_delay.nanos == 60 * NANOS_PER_SECOND,
            schedule.interval.nanos == 24 * 60 * 60 * NANOS_PER_SECOND,
            schedule.retry.nanos == 10 * 60 * NANOS_PER_SECOND,
    {
        Schedule {
            first_delay: Span::from_secs(60),
            interval: Span::from_secs(86400),
            retry: Span::from_secs(600),
        }
    }
}

/// What ended a wait of the checker.
#[derive(Clone, Copy, Debug, PartialEq, Eq, Structural)]
pub enum Wake {
    Command(CheckerCommand),
    Timeout,
    /// Nobody is left who could send a command.
    Disconnected,
}

/// What the checker does next.
#[derive(Clone, Copy, Debug, PartialEq, Eq, Structural)]
pub enum CheckerStep {
    /// Wait again, as long as [`Checker::wait_for`] says.
    Wait,
    /// Ask for the latest version and hand the outcome to [`Checker::settle`].
    Check,
    Stop,
}

/// The state of the periodic check.
#[derive(Clone, Copy, Debug, PartialEq, Eq, Structural)]
pub struct Checker {
    pub enabled: bool,
    pub current: Version,
    pub schedule: Schedule,
    pub next_check: Moment,
}

/// What a checker becomes when a wait ends at `now`, and what it does then.
pub open spec fn after_wake(checker: Checker, wake: Wake, now: Moment) -> (Checker, CheckerStep) {
    match wake {
        Wake::Disconnected => (checker, CheckerStep::Stop),
        Wake::Command(CheckerCommand::SetEnabled(value)) => (
            Checker {
                enabled: value,
                next_check: if value && !checker.enabled {
                    now
                } else {
                    checker.next_check
                },
                ..checker
            },
            CheckerStep::Wait,
        ),
        Wake::Timeout => (
            checker,
            if checker.enabled && now.nanos >= checker.next_check.nanos {
                CheckerStep::Check
            } else {
                CheckerStep::Wait
            },
        ),
    }
}

/// Whether the checker is enabled once it has seen `commands`.
pub open spec fn enabled_after(enabled: bool, commands: Seq<CheckerCommand>) -> bool {
    if commands.len() == 0 {
        enabled
    } else {
        match commands.last() {
            CheckerCommand::SetEnabled(value) => value,
        }
    }
}

/// What a checker becomes when a check ends at `now`, and the version that it
/// reports. `latest` is what the check found, if it did not fail, and `commands`
/// is what arrived while it was under way.
pub open spec fn after_check(
    checker: Checker,
    latest: Option<Version>,
    commands: Seq<CheckerCommand>,
    now: Moment,
) -> (Checker, Option<Version>) {
    let enabled = enabled_after(checker.enabled, commands);
    if !enabled {
        (Checker { enabled, ..checker }, None)
    } else {
        match latest {
            Some(version) => (
                Checker { enabled, next_check: now.later(checker.schedule.interval), ..checker },
                if is_newer(version, checker.current) {
                    Some(version)
                } else {
                    None
                },
            ),
            None => (
                Checker { enabled, next_check: now.later(checker.schedule.retry), ..checker },
                None,
            ),
        }
    }
}

impl Checker {
    /// A checker that starts at `now`.
    pub fn new(enabled: bool, current: Version, schedule: Schedule, now: Moment) -> (checker: Self)
        requires
            now.nanos + schedule.first_delay.nanos <= u128::MAX,
        ensures
            checker == (Checker {
                enabled,
                current,
                schedule,
                next_check: now.later(schedule.first_delay),
            }),
    {
        Checker { enabled, current, schedule, next_check: now.plus(schedule.first_delay) }
    }

    /// How long to wait for a command: until the next check is due, or without
    /// limit while the checker is disabled.
    pub fn wait_for(&self, now: Moment) -> (span: Option<Span>)
        ensures
            span == (if self.enabled {
                Some(self.next_check.past(now))
            } else {
                None
            }),
    {
        if self.enabled {
            Some(self.next_check.since(now))
        } else {
            None
        }
    }

    /// Takes note of what ended a wait.
    pub fn wake(&mut self, wake: Wake, now: Moment) -> (step: CheckerStep)
        ensures
            (*final(self), step) == after_wake(*old(self), wake, now),
    {
        match wake {
            Wake::Disconnected => CheckerStep::Stop,
            Wake::Command(CheckerCommand::SetEnabled(value)) => {
                if value && !self.enabled {
                    self.next_check = now;
                }
                self.enabled = value;
                CheckerStep::Wait
            },
            Wake::Timeout => if self.enabled && now.nanos >= self.next_check.nanos {
                CheckerStep::Check
            } else {
                CheckerStep::Wait
            },
        }
    }

    /// Takes note of how a check went, and returns the version to report. A
    /// disable that arrived during the check wins over its result.
    pub fn settle(
        &mut self,
        latest: Option<Version>,
        commands: &[CheckerCommand],
        now: Moment,
    ) -> (report: Option<Version>)
        requires
            now.nanos + old(self).schedule.interval.nanos <= u128::MAX,
            now.nanos + old(self).schedule.retry.nanos <= u128::MAX,
        ensures
            (*final(self), report) == after_check(*old(self), latest, commands@, now),
    {
        if commands.len() > 0 {
            match commands[commands.len() - 1] {
                CheckerCommand::SetEnabled(value) => {
                    self.enabled = value;
                },
            }
        }
        if !self.enabled {
            return None;
        }
        match latest {
            Some(version) => {
                self.next_check = now.plus(self.schedule.interval);
                newer_version(self.current, version)
            },
            None => {
                self.next_check = now.plus(self.schedule.retry);
                None
            },
        }
    }
}

/// A disabled checker makes no check, whatever wakes it.
pub proof fn disabled_checker_is_silent(checker: Checker, wake: Wake, now: Moment)
    requires
        !checker.enabled,
    ensures
        after_wake(checker, wake, now).1 != CheckerStep::Check,
{
}

/// An enabled checker makes no check before the next one is due, and makes it
/// the first time that a wait runs out from then on.
pub proof fn checks_are_made_when_due(checker: Checker, now: Moment)
    requires
        checker.enabled,
    ensures
        after_wake(checker, Wake::Timeout, now).1 == CheckerStep::Check <==> now.nanos
            >= checker.next_check.nanos,
        checker.next_check.past(now).nanos == 0 <==> now.nanos >= checker.next_check.nanos,
{
}

/// Turning the check off and on again makes the next check due at once.
pub proof fn reenabling_checks_at_once(checker: Checker, off: Moment, on: Moment, now: Moment)
    requires
        on.nanos <= now.nanos,
    ensures
        ({
            let disabled = after_wake(
                checker,
                Wake::Command(CheckerCommand::SetEnabled(false)),
                off,
            ).0;
            let enabled = after_wake(disabled, Wake::Command(CheckerCommand::SetEnabled(true)), on).0;
            &&& enabled.next_check.past(now).nanos == 0
            &&& after_wake(enabled, Wake::Timeout, now).1 == CheckerStep::Check
        }),
{
}

/// Only what a check found is reported, only if it is newer than this build,
/// and only by a checker that is still enabled when the check ends.
pub proof fn only_newer_versions_are_reported(
    checker: Checker,
    latest: Option<Version>,
    commands: Seq<CheckerCommand>,
    now: Moment,
    version: Version,
)
    ensures
        after_check(checker, latest, commands, now).1 == Some(version) <==> latest == Some(version)
            && is_newer(version, checker.current) && enabled_after(checker.enabled, commands),
{
}

/// After a check that went through the next one is an interval away, after a
/// failed one only a retry span.
pub proof fn failures_are_retried_sooner(
    checker: Checker,
    latest: Option<Version>,
    now: Moment,
    then: Moment,
)
    requires
        checker.enabled,
        now.nanos + checker.schedule.interval.nanos <= u128::MAX,
        now.nanos + checker.schedule.retry.nanos <= u128::MAX,
    ensures
        ({
            let next = after_check(checker, latest, Seq::empty(), now).0;
            let span = if latest is Some {
                checker.schedule.interval
            } else {
                checker.schedule.retry
            };
            after_wake(next, Wake::Timeout, then).1 == CheckerStep::Check <==> then.nanos
                >= now.nanos + span.nanos
        }),
{
}

/// Texts with a dot between each two of them.
pub open spec fn dotted(parts: Seq<Seq<char>>) -> Seq<char>
    decreases parts.len(),
{
    if parts.len() == 0 {
        Seq::empty()
    } else if parts.len() == 1 {
        parts[0]
    } else {
        dotted(parts.drop_last()).push('.') + parts.last()
    }
}

proof fn dotted_comes_apart(parts: Seq<Seq<char>>)
    requires
        parts.len() > 0,
        forall|i: int| 0 <= i < parts.len() ==> !occurs(#[trigger] parts[i], '.'),
    ensures
        split_at_each(dotted(parts), '.') == parts,
    decreases parts.len(),
{
    if parts.len() == 1 {
        unbroken_is_one_piece(parts[0], '.');
        assert(parts == seq![parts[0]]);
    } else {
        let head = parts.drop_last();
        assert forall|i: int| 0 <= i < head.len() implies !occurs(#[trigger] head[i], '.') by {
            assert(head[i] == parts[i]);
        }
        assert(parts.last() == parts[parts.len() - 1]);
        dotted_comes_apart(head);
        one_more_piece(dotted(head), '.', parts.last());
        assert(head.push(parts.last()) == parts);
    }
}

/// A version is three numbers with dots between them, with or without a `v` before
/// them: no fewer, no more, and nothing but numbers.
pub proof fn versions_are_three_numbers(parts: Seq<Seq<char>>)
    requires
        parts.len() > 0,
        forall|i: int| 0 <= i < parts.len() ==> !occurs(#[trigger] parts[i], '.'),
    ensures
        ({
            let max = u64::MAX as nat;
            let text = dotted(parts);
            let read = version_in(seq!['v'] + text);
            let numbers = parts.len() == 3 && parsed_number(parts[0], max) is Some
                && parsed_number(parts[1], max) is Some && parsed_number(parts[2], max) is Some;
            &&& !numbers ==> read is None
            &&& numbers ==> read is Some && {
                &&& parsed_number(parts[0], max) == Some(read->0.major as nat)
                &&& parsed_number(parts[1], max) == Some(read->0.minor as nat)
                &&& parsed_number(parts[2], max) == Some(read->0.patch as nat)
            }
            &&& text.len() == 0 || text[0] != 'v' ==> version_in(text) == read
        }),
{
    let text = dotted(parts);
    let tagged = seq!['v'] + text;
    assert(tagged[0] == 'v');
    assert(tagged.skip(1) == text);
    dotted_comes_apart(parts);
    if parts.len() == 3 {
        crate::text::parsed_numbers_fit(parts[0], u64::MAX as nat);
        crate::text::parsed_numbers_fit(parts[1], u64::MAX as nat);
        crate::text::parsed_numbers_fit(parts[2], u64::MAX as nat);
    }
}

/// A suffix that begins with a minus or a plus makes no difference to the core of a
/// version, whatever it holds.
pub proof fn suffixes_make_no_difference(core: Seq<char>, suffix: Seq<char>)
    requires
        !occurs(core, '-'),
        !occurs(core, '+'),
        suffix.len() > 0 ==> suffix[0] == '-' || suffix[0] == '+',
    ensures
        core_version_in(core + suffix) == version_in(core),
{
    unbroken_comes_before(core, '-', '+');
    query_is_dropped(core, suffix, '-', '+');
}

/// The last segment of a URL is what stands behind the last slash, whatever number
/// of slashes and whatever query or fragment follow it.
pub proof fn last_segments_are_found(
    base: Seq<char>,
    segment: Seq<char>,
    slashes: nat,
    rest: Seq<char>,
)
    requires
        !occurs(base, '?') && !occurs(base, '#'),
        !occurs(segment, '?') && !occurs(segment, '#') && !occurs(segment, '/'),
        segment.len() > 0,
        rest.len() > 0 ==> rest[0] == '?' || rest[0] == '#',
    ensures
        last_segment(base.push('/') + segment + Seq::new(slashes, |i: int| '/') + rest) == segment,
{
    let tail = Seq::new(slashes, |i: int| '/');
    let page = base.push('/') + segment;
    let path = page + tail;
    assert forall|i: int| 0 <= i < path.len() implies path[i] != '?' && path[i] != '#' by {
        if i < base.len() {
            assert(path[i] == base[i]);
        } else if base.len() + 1 <= i < base.len() + 1 + segment.len() {
            assert(path[i] == segment[i - base.len() - 1]);
        }
    }
    unbroken_comes_before(path, '?', '#');
    query_is_dropped(path, rest, '?', '#');
    assert(page.last() == segment[segment.len() - 1]);
    slashes_are_dropped(page, slashes);
    unbroken_comes_after(base, '/', segment);
}

/// The first number in which two versions differ decides which is newer.
pub proof fn the_first_different_number_decides(a: Version, b: Version)
    ensures
        a.major != b.major ==> is_newer(a, b) == (a.major > b.major),
        a.major == b.major && a.minor != b.minor ==> is_newer(a, b) == (a.minor > b.minor),
        a.major == b.major && a.minor == b.minor ==> is_newer(a, b) == (a.patch > b.patch),
{
}

/// What the end of a wait changes: a command turns the check on or off, and turning
/// it on makes one due at once; one that repeats what is in force moves nothing.
/// Nothing else changes anything, and the checker stops when nobody is left to
/// command it.
pub proof fn commands_turn_the_check_on_and_off(checker: Checker, wake: Wake, now: Moment)
    ensures
        ({
            let (after, step) = after_wake(checker, wake, now);
            &&& after.current == checker.current
            &&& after.schedule == checker.schedule
            &&& wake matches Wake::Command(CheckerCommand::SetEnabled(value)) ==> {
                &&& after.enabled == value
                &&& value && !checker.enabled ==> after.next_check == now
                &&& !value || checker.enabled ==> after.next_check == checker.next_check
                &&& step == CheckerStep::Wait
            }
            &&& wake !is Command ==> after == checker
            &&& step == CheckerStep::Stop <==> wake is Disconnected
            &&& step == CheckerStep::Check <==> wake is Timeout && checker.enabled && now.nanos
                >= checker.next_check.nanos
        }),
{
}

/// What the end of a check changes: of the commands that came meanwhile the last is
/// in force; a checker that is off then reports nothing and plans nothing, one that
/// is on plans the next check, and reports what was found if it is newer.
pub proof fn checks_end_as_they_should(
    checker: Checker,
    latest: Option<Version>,
    commands: Seq<CheckerCommand>,
    now: Moment,
)
    requires
        now.nanos + checker.schedule.interval.nanos <= u128::MAX,
        now.nanos + checker.schedule.retry.nanos <= u128::MAX,
    ensures
        ({
            let (after, report) = after_check(checker, latest, commands, now);
            &&& after.current == checker.current
            &&& after.schedule == checker.schedule
            &&& commands.len() == 0 ==> after.enabled == checker.enabled
            &&& commands.len() > 0 ==> commands.last() == CheckerCommand::SetEnabled(after.enabled)
            &&& !after.enabled ==> report is None && after.next_check == checker.next_check
            &&& after.enabled && latest is Some ==> after.next_check.nanos == now.nanos
                + checker.schedule.interval.nanos
            &&& after.enabled && latest is None ==> after.next_check.nanos == now.nanos
                + checker.schedule.retry.nanos && report is None
            &&& after.enabled && latest is Some ==> report == (if is_newer(
                latest->0,
                checker.current,
            ) {
                latest
            } else {
                None
            })
        }),
{
}

} // verus!
