//! The command line, the printed report, and the log.

use vstd::prelude::*;
use vstd::string::*;

use crate::cut::{lowered, to_lower, trim, trimmed};
use crate::i18n::Language;
use crate::label::{label_of, state_label};
use crate::model::{readings, BatteryState, PollResult, Reading};
use crate::text::{decimal, push_decimal, same_text, texts};

verus! {

/// How many log files are kept, the current one included.
pub const LOG_FILES_TO_KEEP: usize = 3;

/// The size at which the log is rotated.
pub const MAX_LOG_FILE_BYTES: u64 = 1_048_576;

// ---------------------------------------------------------------------------
// The command line
// ---------------------------------------------------------------------------

/// What the program was started for.
#[derive(Clone, Copy, Debug, PartialEq, Eq, Structural)]
pub enum Mode {
    /// Dump what the hardware says.
    Diag,
    /// Print the battery levels.
    Once,
    /// Sit in the tray.
    Tray,
}

/// Whether `arg` is among the arguments.
pub open spec fn has_arg(args: Seq<String>, arg: Seq<char>) -> bool {
    exists|i: int| 0 <= i < args.len() && (#[trigger] args[i])@ == arg
}

fn any_arg(args: &[String], arg: &str) -> (found: bool)
    ensures
        found == has_arg(args@, arg@),
{
    let mut i: usize = 0;
    while i < args.len()
        invariant
            i <= args@.len(),
            forall|j: int| 0 <= j < i ==> (#[trigger] args@[j])@ != arg@,
        decreases args@.len() - i,
    {
        if same_text(args[i].as_str(), arg) {
            assert(args@[i as int]@ == arg@);
            return true;
        }
        i = i + 1;
    }
    false
}

/// What the program is started for with these arguments. The modes other than
/// the tray write to the console.
pub fn mode_of(args: &[String]) -> (mode: Mode)
    ensures
        mode == (if has_arg(args@, "--diag"@) {
            Mode::Diag
        } else if has_arg(args@, "--once"@) {
            Mode::Once
        } else {
            Mode::Tray
        }),
{
    if any_arg(args, "--diag") {
        Mode::Diag
    } else if any_arg(args, "--once") {
        Mode::Once
    } else {
        Mode::Tray
    }
}

// ---------------------------------------------------------------------------
// The printed report
// ---------------------------------------------------------------------------

/// The lines printed for the devices that were found.
pub open spec fn report_of(devices: Seq<Reading>) -> Seq<Seq<char>> {
    if devices.len() == 0 {
        seq!["No supported Logitech devices found."@]
    } else {
        Seq::new(devices.len(), |i: int| label_of(Language::English, devices[i]))
    }
}

/// The lines printed for what went wrong.
pub open spec fn complaint_of(errors: Seq<Seq<char>>) -> Seq<Seq<char>> {
    if errors.len() == 0 {
        Seq::empty()
    } else {
        seq!["Errors:"@] + Seq::new(errors.len(), |i: int| "  "@ + errors[i])
    }
}

/// The lines for the standard output: one per device. They are in English.
pub fn report_lines(devices: &[BatteryState]) -> (lines: Vec<String>)
    ensures
        texts(lines@) == report_of(readings(devices@)),
{
    let mut lines: Vec<String> = Vec::new();
    if devices.len() == 0 {
        lines.push("No supported Logitech devices found.".to_string());
        assert(texts(lines@) == report_of(readings(devices@)));
        return lines;
    }
    let mut i: usize = 0;
    while i < devices.len()
        invariant
            i <= devices@.len(),
            devices@.len() > 0,
            texts(lines@) == report_of(readings(devices@)).take(i as int),
        decreases devices@.len() - i,
    {
        let ghost before = texts(lines@);
        lines.push(state_label(Language::English, &devices[i]));
        assert(texts(lines@) == before.push(label_of(Language::English, devices@[i as int]@)));
        i = i + 1;
        assert(report_of(readings(devices@)).take(i as int) == report_of(readings(devices@)).take(
            i - 1,
        ).push(label_of(Language::English, devices@[i - 1]@)));
    }
    assert(report_of(readings(devices@)).take(i as int) == report_of(readings(devices@)));
    lines
}

/// The lines for the standard error output: none if nothing went wrong.
pub fn complaint_lines(errors: &[String]) -> (lines: Vec<String>)
    ensures
        texts(lines@) == complaint_of(texts(errors@)),
{
    let mut lines: Vec<String> = Vec::new();
    if errors.len() == 0 {
        assert(texts(lines@) == complaint_of(texts(errors@)));
        return lines;
    }
    lines.push("Errors:".to_string());
    let ghost whole = complaint_of(texts(errors@));
    assert(texts(lines@) == whole.take(1));
    let mut i: usize = 0;
    while i < errors.len()
        invariant
            i <= errors@.len(),
            errors@.len() > 0,
            whole == complaint_of(texts(errors@)),
            texts(lines@) == whole.take(i + 1),
        decreases errors@.len() - i,
    {
        let ghost before = texts(lines@);
        let mut line = "  ".to_string();
        line.append(errors[i].as_str());
        let ghost text = line@;
        lines.push(line);
        assert(texts(lines@) == before.push(text));
        i = i + 1;
        assert(whole.take(i + 1) == whole.take(i as int).push(whole[i as int]));
    }
    assert(whole.take(i + 1) == whole);
    lines
}

/// What a single run prints: to the standard output, and to the standard error.
pub fn run_once(result: &PollResult) -> (printed: (Vec<String>, Vec<String>))
    ensures
        texts(printed.0@) == report_of(readings(result.devices@)),
        texts(printed.1@) == complaint_of(texts(result.errors@)),
{
    (report_lines(&result.devices), complaint_lines(&result.errors))
}

// ---------------------------------------------------------------------------
// What is logged
// ---------------------------------------------------------------------------

/// Whether a text is one of the levels that the configuration documents.
pub open spec fn is_log_level(level: Seq<char>) -> bool {
    level == "error"@ || level == "warn"@ || level == "info"@ || level == "debug"@ || level
        == "trace"@
}

/// The level for everything but the application itself: never above `info`.
pub open spec fn dependency_level(level: Seq<char>) -> Seq<char> {
    if level == "error"@ || level == "warn"@ {
        level
    } else {
        "info"@
    }
}

/// The filter directives for a configured level.
pub open spec fn directives_for(log_level: Seq<char>) -> Seq<char> {
    let level = lowered(trimmed(log_level));
    if is_log_level(level) {
        dependency_level(level) + ",logitray="@ + level
    } else {
        trimmed(log_level)
    }
}

/// Turns a configured level into filter directives that apply it to the
/// application only. Everything else is capped at `info`, because the finer
/// levels fill the log with the HTTP internals of the update check. What is not
/// a documented level is passed on, so that directives can be written by hand.
pub fn log_directives(log_level: &str) -> (directives: String)
    ensures
        directives@ == directives_for(log_level@),
{
    let plain = trim(log_level);
    let level = to_lower(plain.as_str());
    let dependencies: &str = if same_text(level.as_str(), "error") {
        "error"
    } else if same_text(level.as_str(), "warn") {
        "warn"
    } else if same_text(level.as_str(), "info") || same_text(level.as_str(), "debug") || same_text(
        level.as_str(),
        "trace",
    ) {
        "info"
    } else {
        proof {
            log_levels_differ();
        }
        return plain;
    };
    proof {
        log_levels_differ();
    }
    let mut directives = dependencies.to_string();
    directives.append(",logitray=");
    directives.append(level.as_str());
    directives
}

proof fn log_levels_differ()
    ensures
        "error"@ != "warn"@,
        "info"@ != "error"@,
        "info"@ != "warn"@,
{
    reveal_strlit("error");
    reveal_strlit("warn");
    reveal_strlit("info");
    assert("error"@[0] == 'e' && "warn"@[0] == 'w' && "info"@[0] == 'i');
}

/// Whatever level is configured, nothing but the application is logged below
/// `info`; and the case of the letters and white space around a level do not
/// matter.
pub proof fn dependencies_are_capped(log_level: Seq<char>)
    ensures
        ({
            let level = lowered(trimmed(log_level));
            is_log_level(level) ==> {
                let cap = dependency_level(level);
                &&& cap == "error"@ || cap == "warn"@ || cap == "info"@
                &&& directives_for(log_level) == cap + ",logitray="@ + level
            }
        }),
        forall|other: Seq<char>|
            is_log_level(lowered(trimmed(log_level))) && lowered(#[trigger] trimmed(other))
                == lowered(trimmed(log_level)) ==> directives_for(other) == directives_for(
                log_level,
            ),
{
}

// ---------------------------------------------------------------------------
// Rotating the log
// ---------------------------------------------------------------------------

/// One step of rotating the log. Number 0 is the current log, and higher
/// numbers are older ones. A step on a file that does not exist is skipped.
#[derive(Clone, Copy, Debug, PartialEq, Eq, Structural)]
pub enum RotateStep {
    Remove(usize),
    Rename { from: usize, to: usize },
}

/// The steps of a rotation that keeps `keep` files: the oldest goes, and the
/// others move up, the oldest first.
pub open spec fn rotation_steps(keep: usize) -> Seq<RotateStep> {
    seq![RotateStep::Remove((keep - 1) as usize)] + Seq::new(
        (keep - 1) as nat,
        |j: int| RotateStep::Rename { from: (keep - 2 - j) as usize, to: (keep - 1 - j) as usize },
    )
}

/// The steps by which the log is rotated. `size` is that of the current log, if
/// there is one. Nothing is done before it has reached `max_bytes`, nor if no
/// older log would be kept.
pub fn maybe_rotate_logs(size: Option<u64>, max_bytes: u64, keep: usize) -> (steps: Vec<RotateStep>)
    ensures
        steps@ == (if size is Some && size->0 >= max_bytes && keep > 1 {
            rotation_steps(keep)
        } else {
            Seq::empty()
        }),
{
    let mut steps: Vec<RotateStep> = Vec::new();
    match size {
        Some(bytes) => if bytes < max_bytes {
            return steps;
        },
        None => {
            return steps;
        },
    }
    if keep <= 1 {
        return steps;
    }
    let ghost whole = rotation_steps(keep);
    let mut to: usize = keep - 1;
    steps.push(RotateStep::Remove(to));
    assert(steps@ == whole.take(1));
    while to > 0
        invariant
            to <= keep - 1,
            keep > 1,
            whole == rotation_steps(keep),
            steps@ == whole.take(keep - to),
        decreases to,
    {
        steps.push(RotateStep::Rename { from: to - 1, to });
        assert(whole[keep - to] == (RotateStep::Rename { from: (to - 1) as usize, to }));
        to = to - 1;
        assert(whole.take(keep - to) == whole.take(keep - to - 1).push(whole[keep - to - 1]));
    }
    assert(whole.take(keep as int) == whole);
    steps
}

/// What a step does to the log files, each with its contents.
pub open spec fn logs_after_step<C>(logs: Map<int, C>, step: RotateStep) -> Map<int, C> {
    match step {
        RotateStep::Remove(i) => logs.remove(i as int),
        RotateStep::Rename { from, to } => if logs.contains_key(from as int) {
            logs.insert(to as int, logs[from as int]).remove(from as int)
        } else {
            logs
        },
    }
}

/// What a number of steps do to the log files.
pub open spec fn logs_after<C>(logs: Map<int, C>, steps: Seq<RotateStep>) -> Map<int, C>
    decreases steps.len(),
{
    if steps.len() == 0 {
        logs
    } else {
        logs_after_step(logs_after(logs, steps.drop_last()), steps.last())
    }
}

/// The log files after a rotation: each has moved up by one, and only the
/// oldest is lost.
pub open spec fn rotated<C>(logs: Map<int, C>, keep: usize) -> Map<int, C> {
    Map::new(
        |i: int|
            if 0 <= i < keep {
                i > 0 && logs.contains_key(i - 1)
            } else {
                logs.contains_key(i)
            },
        |i: int|
            if 0 <= i < keep {
                logs[i - 1]
            } else {
                logs[i]
            },
    )
}

/// A rotation moves every log up by one and loses none but the oldest, so that
/// afterwards there is room for a new current log.
pub proof fn rotation_keeps_the_latest<C>(logs: Map<int, C>, keep: usize)
    requires
        keep > 1,
    ensures
        logs_after(logs, rotation_steps(keep)) == rotated(logs, keep),
        !rotated(logs, keep).contains_key(0),
{
    rotating(logs, keep, (keep - 1) as nat);
    assert(rotation_steps(keep).take(keep as int) == rotation_steps(keep));
    assert(logs_after(logs, rotation_steps(keep)) =~= rotated(logs, keep));
}

/// After the removal and `moves` renamings the numbers above those moves have
/// what was below them, the next one is free, and the rest is as it was.
proof fn rotating<C>(logs: Map<int, C>, keep: usize, moves: nat)
    requires
        keep > 1,
        moves <= keep - 1,
    ensures
        ({
            let now = logs_after(logs, rotation_steps(keep).take((moves + 1) as int));
            let free = keep - 1 - moves;
            &&& !now.contains_key(free)
            &&& forall|i: int|
                free < i < keep ==> (#[trigger] now.contains_key(i) == logs.contains_key(i - 1))
            &&& forall|i: int| free < i < keep && #[trigger] now.contains_key(i) ==> now[i] == logs[i
                - 1]
            &&& forall|i: int|
                i < free || i >= keep ==> (#[trigger] now.contains_key(i) == logs.contains_key(i))
            &&& forall|i: int|
                (i < free || i >= keep) && #[trigger] now.contains_key(i) ==> now[i] == logs[i]
        }),
    decreases moves,
{
    let steps = rotation_steps(keep);
    let now = logs_after(logs, steps.take((moves + 1) as int));
    assert(steps.take((moves + 1) as int).drop_last() == steps.take(moves as int));
    assert(steps.take((moves + 1) as int).last() == steps[moves as int]);
    if moves == 0 {
        assert(steps.take(0) == Seq::<RotateStep>::empty());
        assert(logs_after(logs, steps.take(0)) == logs);
        assert(steps[0] == RotateStep::Remove((keep - 1) as usize));
        assert(now == logs.remove(keep - 1));
    } else {
        rotating(logs, keep, (moves - 1) as nat);
        let was = logs_after(logs, steps.take(moves as int));
        let step = RotateStep::Rename {
            from: (keep - 1 - moves) as usize,
            to: (keep - moves) as usize,
        };
        assert(steps[moves as int] == step);
        assert(now == logs_after_step(was, step));
        assert(was.contains_key(keep - 1 - moves) == logs.contains_key(keep - 1 - moves));
    }
}

/// Why a log has no rotated name.
#[derive(Clone, Copy, Debug, PartialEq, Eq, Structural)]
pub enum RotatedPathError {
    MissingParent,
    MissingFileName,
}

/// Where log number `index` is kept: next to the current log, with the number
/// behind its name. `parent` and `file_name` are those of the current log, as
/// far as its path has them.
pub fn rotated_path<P>(parent: Option<P>, file_name: Option<&str>, index: usize) -> (path: Result<
    (P, String),
    RotatedPathError,
>)
    ensures
        match path {
            Ok((dir, name)) => parent == Some(dir) && file_name is Some && name@
                == file_name->0@ + "."@ + decimal(index as nat),
            Err(RotatedPathError::MissingParent) => parent is None,
            Err(RotatedPathError::MissingFileName) => parent is Some && file_name is None,
        },
{
    match (parent, file_name) {
        (None, _) => Err(RotatedPathError::MissingParent),
        (Some(_), None) => Err(RotatedPathError::MissingFileName),
        (Some(dir), Some(base)) => {
            let mut name = base.to_string();
            name.append(".");
            push_decimal(&mut name, index as u64);
            Ok((dir, name))
        },
    }
}

/// What is printed of the devices: one line for each, in the order of the list, in
/// English; and one line that says so if there are none.
pub proof fn every_device_is_printed(devices: Seq<Reading>, i: int)
    ensures
        devices.len() == 0 ==> report_of(devices).len() == 1 && report_of(devices)[0]
            == "No supported Logitech devices found."@,
        devices.len() > 0 ==> report_of(devices).len() == devices.len(),
        0 <= i < devices.len() ==> report_of(devices)[i] == crate::label::label_text(
            Language::English,
            devices[i].display_name,
            devices[i].battery_percent,
            devices[i].is_charging,
        ),
{
}

/// What is printed of the errors: a heading and one indented line for each, in the
/// order in which they came; nothing if there are none.
pub proof fn every_error_is_printed(errors: Seq<Seq<char>>, i: int)
    ensures
        errors.len() == 0 ==> complaint_of(errors).len() == 0,
        errors.len() > 0 ==> complaint_of(errors).len() == errors.len() + 1 && complaint_of(
            errors,
        )[0] == "Errors:"@,
        0 <= i < errors.len() ==> complaint_of(errors)[i + 1] == seq![' ', ' '] + errors[i],
{
    reveal_strlit("  ");
    assert("  "@ =~= seq![' ', ' ']);
}

/// A documented level applies to the application; everything else is logged at that
/// level too, but never below `info`. Any other text is taken as it is, without the
/// white space around it.
pub proof fn levels_apply_to_the_application(log_level: Seq<char>)
    ensures
        ({
            let level = lowered(trimmed(log_level));
            let directives = directives_for(log_level);
            &&& level == "error"@ ==> directives == "error"@ + ",logitray="@ + "error"@
            &&& level == "warn"@ ==> directives == "warn"@ + ",logitray="@ + "warn"@
            &&& level == "info"@ ==> directives == "info"@ + ",logitray="@ + "info"@
            &&& level == "debug"@ ==> directives == "info"@ + ",logitray="@ + "debug"@
            &&& level == "trace"@ ==> directives == "info"@ + ",logitray="@ + "trace"@
            &&& level != "error"@ && level != "warn"@ && level != "info"@ && level != "debug"@
                && level != "trace"@ ==> directives == trimmed(log_level)
        }),
{
    log_levels_differ();
    reveal_strlit("debug");
    reveal_strlit("trace");
    reveal_strlit("error");
    reveal_strlit("warn");
    assert("debug"@[0] == 'd' && "trace"@[0] == 't' && "error"@[0] == 'e' && "warn"@[0] == 'w');
}

/// The steps of a rotation: first the oldest log is removed, then each of the others
/// is moved up by one, the oldest of them first and the current one last.
pub proof fn rotations_go_from_the_oldest(keep: usize, j: int)
    requires
        keep > 1,
    ensures
        rotation_steps(keep).len() == keep,
        rotation_steps(keep)[0] == RotateStep::Remove((keep - 1) as usize),
        1 <= j < keep ==> rotation_steps(keep)[j] == (RotateStep::Rename {
            from: (keep - 1 - j) as usize,
            to: (keep - j) as usize,
        }),
{
}

/// What a rotation does to each log: the current one and those behind it become the
/// next older ones with their contents, the oldest that is kept is lost, and files
/// beyond those are left alone.
pub proof fn logs_grow_older_by_one<C>(logs: Map<int, C>, keep: usize, i: int)
    requires
        keep > 1,
    ensures
        ({
            let after = logs_after(logs, rotation_steps(keep));
            &&& !after.contains_key(0)
            &&& 0 < i < keep ==> after.contains_key(i) == logs.contains_key(i - 1)
            &&& 0 < i < keep && logs.contains_key(i - 1) ==> after[i] == logs[i - 1]
            &&& i >= keep ==> after.contains_key(i) == logs.contains_key(i)
            &&& i >= keep && logs.contains_key(i) ==> after[i] == logs[i]
        }),
{
    rotation_keeps_the_latest(logs, keep);
}

} // verus!
