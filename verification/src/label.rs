//! The texts that name a device and its battery: labels, tooltip, update entry.

use vstd::prelude::*;
use vstd::string::*;

use crate::cut::{
    fits_utf16, replace_all, replaced, stack, stacked, utf16_size,
};
use crate::i18n::{shown, Language, Text};
use crate::model::{readings, BatteryState, Reading};
use crate::text::{
    decimal, decimal_reads_back, decimal_string, parsed_number, push_decimal, texts,
};
use crate::update::{tag_of, Version};

verus! {

/// How much of a Windows tooltip is filled, in UTF-16 units. The tooltip has 128,
/// and a text of that length would leave no room for the terminator.
pub const TOOLTIP_BUDGET: usize = 120;

// ---------------------------------------------------------------------------
// Labels
// ---------------------------------------------------------------------------

/// The label of a device, such as `G502 X PLUS: 46%`.
pub open spec fn label_text(
    language: Language,
    name: Seq<char>,
    percent: u8,
    charging: bool,
) -> Seq<char> {
    name + ": "@ + decimal(percent as nat) + shown(
        language,
        if charging {
            Text::Charging
        } else {
            Text::Percent
        },
    )
}

/// The label of the device of a reading.
pub open spec fn label_of(language: Language, reading: Reading) -> Seq<char> {
    label_text(language, reading.display_name, reading.battery_percent, reading.is_charging)
}

/// The label that the tooltip, the status line and the device menu share. The
/// unit comes from the string table.
pub fn battery_label(language: Language, name: &str, percent: u8, charging: bool) -> (label: String)
    ensures
        label@ == label_text(language, name@, percent, charging),
{
    let unit = language.text(
        if charging {
            Text::Charging
        } else {
            Text::Percent
        },
    );
    let mut label = name.to_string();
    label.append(": ");
    push_decimal(&mut label, percent as u64);
    label.append(unit);
    label
}

/// The label of a device.
pub fn state_label(language: Language, state: &BatteryState) -> (label: String)
    ensures
        label@ == label_of(language, state@),
{
    battery_label(
        language,
        state.display_name.as_str(),
        state.battery_percent,
        state.is_charging,
    )
}

/// The text of the entry for a newer release.
pub open spec fn update_text(language: Language, version: Version) -> Seq<char> {
    shown(language, Text::UpdateAvailable) + tag_of(version)
}

/// The text of the entry for a newer release.
pub fn update_label(language: Language, version: Version) -> (label: String)
    ensures
        label@ == update_text(language, version),
{
    let mut label = language.text(Text::UpdateAvailable).to_string();
    label.append(version.to_string().as_str());
    label
}

// ---------------------------------------------------------------------------
// The tooltip
// ---------------------------------------------------------------------------

/// `+N more`, for the devices that did not fit in the tooltip.
pub open spec fn more_text(language: Language, dropped: nat) -> Seq<char> {
    replaced(shown(language, Text::MoreDevices), "{n}"@, decimal(dropped))
}

/// `+N more`, for the devices that did not fit in the tooltip.
pub fn more_marker(language: Language, dropped: usize) -> (marker: String)
    ensures
        marker@ == more_text(language, dropped as nat),
{
    proof {
        reveal_strlit("{n}");
    }
    replace_all(
        language.text(Text::MoreDevices),
        "{n}",
        decimal_string(dropped as u64).as_str(),
    )
}

/// The labels of the devices that do not have the key `key`, in order.
pub open spec fn other_labels(
    language: Language,
    key: Seq<char>,
    devices: Seq<Reading>,
) -> Seq<Seq<char>>
    decreases devices.len(),
{
    if devices.len() == 0 {
        Seq::empty()
    } else {
        let before = other_labels(language, key, devices.drop_last());
        if devices.last().device_key != key {
            before.push(label_of(language, devices.last()))
        } else {
            before
        }
    }
}

/// The lines of the tooltip, before any is dropped: the subject first.
pub open spec fn tooltip_lines(
    language: Language,
    subject: Reading,
    devices: Seq<Reading>,
) -> Seq<Seq<char>> {
    seq![label_of(language, subject)] + other_labels(language, subject.device_key, devices)
}

/// The tooltip with the first `keep` lines, and a marker for the others if there
/// are any.
pub open spec fn tooltip_keeping(language: Language, lines: Seq<Seq<char>>, keep: int) -> Seq<
    char,
> {
    if keep < lines.len() {
        stacked(lines.take(keep)) + seq!['\n'] + more_text(language, (lines.len() - keep) as nat)
    } else {
        stacked(lines.take(keep))
    }
}

/// The tooltip with as many of the first `keep` lines as fit; the first line
/// alone if not even it fits together with its marker.
pub open spec fn longest_tooltip(language: Language, lines: Seq<Seq<char>>, keep: nat) -> Seq<char>
    decreases keep,
{
    if keep == 0 {
        lines[0]
    } else if utf16_size(tooltip_keeping(language, lines, keep as int)) <= TOOLTIP_BUDGET {
        tooltip_keeping(language, lines, keep as int)
    } else {
        longest_tooltip(language, lines, (keep - 1) as nat)
    }
}

/// The tooltip.
pub open spec fn tooltip_of(
    language: Language,
    subject: Reading,
    devices: Seq<Reading>,
) -> Seq<char> {
    let lines = tooltip_lines(language, subject, devices);
    longest_tooltip(language, lines, lines.len())
}

/// The tooltip: one line per device, the followed device first. Whole trailing
/// lines are dropped, and counted by a marker, until it fits the budget. The
/// first line is kept even if it alone does not fit.
pub fn tooltip_text(language: Language, subject: &BatteryState, devices: &[BatteryState]) -> (tooltip:
    String)
    ensures
        tooltip@ == tooltip_of(language, subject@, readings(devices@)),
{
    let ghost all = readings(devices@);
    let ghost head = seq![label_of(language, subject@)];
    let mut lines: Vec<String> = Vec::new();
    lines.push(state_label(language, subject));
    let mut i: usize = 0;
    assert(all.take(0) == Seq::<Reading>::empty());
    assert(texts(lines@) == head + other_labels(language, subject@.device_key, all.take(0)));
    while i < devices.len()
        invariant
            i <= devices@.len(),
            all == readings(devices@),
            lines@.len() > 0,
            head == seq![label_of(language, subject@)],
            texts(lines@) == head + other_labels(
                language,
                subject@.device_key,
                all.take(i as int),
            ),
        decreases devices@.len() - i,
    {
        let ghost before = texts(lines@);
        let ghost others = other_labels(language, subject@.device_key, all.take(i as int));
        assert(all.take(i + 1).drop_last() == all.take(i as int));
        assert(all.take(i + 1).last() == devices@[i as int]@);
        if devices[i].device_key != subject.device_key {
            lines.push(state_label(language, &devices[i]));
            assert(texts(lines@) == before.push(label_of(language, all[i as int])));
            assert(before.push(label_of(language, all[i as int])) == head + others.push(
                label_of(language, all[i as int]),
            ));
        }
        i = i + 1;
    }
    assert(all.take(i as int) == all);
    let ghost full = tooltip_lines(language, subject@, all);
    assert(texts(lines@) == full);
    let mut keep: usize = lines.len();
    while keep > 0
        invariant
            keep <= lines@.len(),
            texts(lines@) == full,
            full == tooltip_lines(language, subject@, readings(devices@)),
            lines@.len() > 0,
            longest_tooltip(language, full, keep as nat) == longest_tooltip(
                language,
                full,
                full.len(),
            ),
            full.len() == lines@.len(),
        decreases keep,
    {
        let mut candidate = stack(&lines, keep);
        if keep < lines.len() {
            candidate.push('\n');
            candidate.append(more_marker(language, lines.len() - keep).as_str());
            assert(candidate@ == stacked(full.take(keep as int)) + seq!['\n'] + more_text(
                language,
                (full.len() - keep) as nat,
            ));
        }
        assert(candidate@ == tooltip_keeping(language, full, keep as int));
        if fits_utf16(candidate.as_str(), TOOLTIP_BUDGET) {
            return candidate;
        }
        keep = keep - 1;
    }
    assert(full[0] == lines@[0]@);
    lines[0].clone()
}

/// The tooltip fits the budget, unless the line of the subject and its marker do
/// not, in which case it is that line and nothing else.
pub proof fn tooltip_fits(language: Language, subject: Reading, devices: Seq<Reading>)
    ensures
        ({
            let lines = tooltip_lines(language, subject, devices);
            ||| utf16_size(tooltip_of(language, subject, devices)) <= TOOLTIP_BUDGET
            ||| tooltip_of(language, subject, devices) == label_of(language, subject)
                && utf16_size(tooltip_keeping(language, lines, 1)) > TOOLTIP_BUDGET
        }),
{
    let lines = tooltip_lines(language, subject, devices);
    longest_is_longest(language, lines, lines.len());
}

/// The tooltip is made of whole lines: as many of the first lines as fit together
/// with the marker for the others, or the first line alone if not even it fits
/// that way.
pub proof fn tooltip_drops_whole_lines(language: Language, subject: Reading, devices: Seq<Reading>)
    ensures
        ({
            let lines = tooltip_lines(language, subject, devices);
            let tooltip = tooltip_of(language, subject, devices);
            ||| tooltip == lines[0] && forall|keep: int|
                1 <= keep <= lines.len() ==> utf16_size(
                    #[trigger] tooltip_keeping(language, lines, keep),
                ) > TOOLTIP_BUDGET
            ||| exists|keep: int|
                1 <= keep <= lines.len() && tooltip == #[trigger] tooltip_keeping(
                    language,
                    lines,
                    keep,
                ) && utf16_size(tooltip) <= TOOLTIP_BUDGET && forall|more: int|
                    keep < more <= lines.len() ==> utf16_size(
                        #[trigger] tooltip_keeping(language, lines, more),
                    ) > TOOLTIP_BUDGET
        }),
{
    let lines = tooltip_lines(language, subject, devices);
    longest_is_longest(language, lines, lines.len());
}

/// Every device is listed if all the lines fit.
pub proof fn tooltip_lists_all_that_fit(language: Language, subject: Reading, devices: Seq<Reading>)
    requires
        utf16_size(stacked(tooltip_lines(language, subject, devices))) <= TOOLTIP_BUDGET,
    ensures
        tooltip_of(language, subject, devices) == stacked(
            tooltip_lines(language, subject, devices),
        ),
{
    let lines = tooltip_lines(language, subject, devices);
    assert(lines.take(lines.len() as int) == lines);
}

/// The tooltip begins with the line of the subject.
pub proof fn tooltip_begins_with_the_subject(
    language: Language,
    subject: Reading,
    devices: Seq<Reading>,
)
    ensures
        crate::cut::has_prefix(
            tooltip_of(language, subject, devices),
            label_of(language, subject),
        ),
{
    let lines = tooltip_lines(language, subject, devices);
    let first = label_of(language, subject);
    let tooltip = tooltip_of(language, subject, devices);
    longest_is_longest(language, lines, lines.len());
    assert(lines[0] == first);
    if tooltip == first {
        assert(first.take(first.len() as int) == first);
    } else {
        let keep = choose|keep: int|
            1 <= keep <= lines.len() && tooltip == #[trigger] tooltip_keeping(
                language,
                lines,
                keep,
            ) && forall|more: int|
                keep < more <= lines.len() ==> utf16_size(
                    #[trigger] tooltip_keeping(language, lines, more),
                ) > TOOLTIP_BUDGET;
        stack_begins_with_first(lines.take(keep));
        let body = stacked(lines.take(keep));
        assert(body.take(first.len() as int) == first);
        assert(tooltip.take(first.len() as int) == body.take(first.len() as int));
    }
}

proof fn stack_begins_with_first(lines: Seq<Seq<char>>)
    requires
        lines.len() > 0,
    ensures
        crate::cut::has_prefix(stacked(lines), lines[0]),
    decreases lines.len(),
{
    if lines.len() == 1 {
        assert(lines[0].take(lines[0].len() as int) == lines[0]);
    } else {
        stack_begins_with_first(lines.drop_last());
        let before = stacked(lines.drop_last());
        assert(stacked(lines).take(lines[0].len() as int) == before.take(lines[0].len() as int));
    }
}

proof fn longest_is_longest(language: Language, lines: Seq<Seq<char>>, keep: nat)
    requires
        keep <= lines.len(),
        forall|more: int|
            keep < more <= lines.len() ==> utf16_size(
                #[trigger] tooltip_keeping(language, lines, more),
            ) > TOOLTIP_BUDGET,
    ensures
        ({
            let tooltip = longest_tooltip(language, lines, keep);
            ||| tooltip == lines[0] && forall|k: int|
                1 <= k <= lines.len() ==> utf16_size(
                    #[trigger] tooltip_keeping(language, lines, k),
                ) > TOOLTIP_BUDGET
            ||| utf16_size(tooltip) <= TOOLTIP_BUDGET && exists|k: int|
                1 <= k <= keep && tooltip == #[trigger] tooltip_keeping(language, lines, k)
                    && forall|more: int|
                    k < more <= lines.len() ==> utf16_size(
                        #[trigger] tooltip_keeping(language, lines, more),
                    ) > TOOLTIP_BUDGET
        }),
    decreases keep,
{
    if keep > 0 {
        if utf16_size(tooltip_keeping(language, lines, keep as int)) > TOOLTIP_BUDGET {
            longest_is_longest(language, lines, (keep - 1) as nat);
        }
    }
}

/// A label is the name, a colon, the level, and a percent sign; what follows the
/// sign tells that the device is charging, and nothing follows it otherwise.
pub proof fn labels_tell_name_level_and_charging(
    language: Language,
    name: Seq<char>,
    percent: u8,
    charging: bool,
)
    ensures
        ({
            let label = label_text(language, name, percent, charging);
            let from = name.len() + 2;
            let to = from + decimal(percent as nat).len();
            &&& label.take(name.len() as int) == name
            &&& label[name.len() as int] == ':' && label[name.len() as int + 1] == ' '
            &&& parsed_number(label.subrange(from as int, to as int), 255) == Some(percent as nat)
            &&& label[to as int] == '%'
            &&& label.len() == to + 1 <==> !charging
            &&& label.len() > to
        }),
{
    reveal_strlit(": ");
    reveal_strlit("%");
    reveal_strlit("% (charging)");
    reveal_strlit("%（充电中）");
    let level = decimal(percent as nat);
    decimal_reads_back(percent as nat);
    let label = label_text(language, name, percent, charging);
    let from = name.len() + 2;
    assert(label.take(name.len() as int) == name);
    assert(label.subrange(from as int, (from + level.len()) as int) == level);
}

/// The lines of the tooltip are the label of the subject and then, in the order of
/// the list, the label of every device whose key is not that of the subject,
/// charging or not.
pub proof fn every_device_has_a_line(language: Language, subject: Reading, devices: Seq<Reading>)
    ensures
        ({
            let lines = tooltip_lines(language, subject, devices);
            let others = devices.filter(|d: Reading| d.device_key != subject.device_key);
            &&& lines.len() == 1 + others.len()
            &&& lines[0] == label_text(
                language,
                subject.display_name,
                subject.battery_percent,
                subject.is_charging,
            )
            &&& forall|i: int|
                0 <= i < others.len() ==> #[trigger] lines[i + 1] == label_text(
                    language,
                    others[i].display_name,
                    others[i].battery_percent,
                    others[i].is_charging,
                )
        }),
        forall|i: int|
            0 <= i < devices.len() && (#[trigger] devices[i]).device_key != subject.device_key
                ==> tooltip_lines(language, subject, devices).contains(
                label_text(
                    language,
                    devices[i].display_name,
                    devices[i].battery_percent,
                    devices[i].is_charging,
                ),
            ),
{
    let keep = |d: Reading| d.device_key != subject.device_key;
    let others = devices.filter(keep);
    let lines = tooltip_lines(language, subject, devices);
    others_are_filtered(language, subject.device_key, devices);
    assert forall|i: int| 0 <= i < devices.len() && (#[trigger] devices[i]).device_key
        != subject.device_key implies lines.contains(
        label_text(
            language,
            devices[i].display_name,
            devices[i].battery_percent,
            devices[i].is_charging,
        ),
    ) by {
        broadcast use vstd::seq_lib::group_filter_ensures;

        assert(keep(devices[i]));
        assert(others.contains(devices[i]));
        let k = choose|k: int| 0 <= k < others.len() && others[k] == devices[i];
        assert(lines[k + 1] == label_of(language, others[k]));
    }
}

proof fn others_are_filtered(language: Language, key: Seq<char>, devices: Seq<Reading>)
    ensures
        ({
            let others = devices.filter(|d: Reading| d.device_key != key);
            &&& other_labels(language, key, devices).len() == others.len()
            &&& forall|i: int|
                0 <= i < others.len() ==> #[trigger] other_labels(language, key, devices)[i]
                    == label_of(language, others[i])
        }),
    decreases devices.len(),
{
    reveal(Seq::filter);
    if devices.len() > 0 {
        others_are_filtered(language, key, devices.drop_last());
    }
}

/// The tooltip takes at most 120 units, or it is the label of the subject alone;
/// and it shows all that fits: no tooltip that keeps more lines would.
pub proof fn the_tooltip_fills_its_budget(
    language: Language,
    subject: Reading,
    devices: Seq<Reading>,
    keep: int,
)
    requires
        1 <= keep <= tooltip_lines(language, subject, devices).len(),
        utf16_size(
            tooltip_keeping(language, tooltip_lines(language, subject, devices), keep),
        ) <= 120,
    ensures
        utf16_size(tooltip_of(language, subject, devices)) <= 120,
        exists|k: int|
            keep <= k <= tooltip_lines(language, subject, devices).len() && tooltip_of(
                language,
                subject,
                devices,
            ) == #[trigger] tooltip_keeping(
                language,
                tooltip_lines(language, subject, devices),
                k,
            ),
{
    let lines = tooltip_lines(language, subject, devices);
    longest_is_longest(language, lines, lines.len());
    let tooltip = tooltip_of(language, subject, devices);
    let k = choose|k: int|
        1 <= k <= lines.len() && tooltip == #[trigger] tooltip_keeping(language, lines, k)
            && forall|more: int|
            k < more <= lines.len() ==> utf16_size(
                #[trigger] tooltip_keeping(language, lines, more),
            ) > TOOLTIP_BUDGET;
    assert(k >= keep);
}

/// A tooltip that keeps all lines is made of them alone. One that keeps fewer has
/// one line more, which says how many are missing.
pub proof fn missing_lines_are_counted(language: Language, lines: Seq<Seq<char>>, keep: int)
    requires
        1 <= keep <= lines.len(),
        forall|i: int| 0 <= i < lines.len() ==> !crate::cut::occurs(#[trigger] lines[i], '\n'),
    ensures
        keep == lines.len() ==> crate::cut::split_at_each(
            tooltip_keeping(language, lines, keep),
            '\n',
        ) == lines,
        keep < lines.len() ==> crate::cut::split_at_each(
            tooltip_keeping(language, lines, keep),
            '\n',
        ) == lines.take(keep).push(more_text(language, (lines.len() - keep) as nat)),
{
    let head = lines.take(keep);
    assert forall|i: int| 0 <= i < head.len() implies !crate::cut::occurs(
        #[trigger] head[i],
        '\n',
    ) by {
        assert(head[i] == lines[i]);
    }
    crate::cut::stacks_come_apart(head);
    if keep == lines.len() {
        assert(head == lines);
    } else {
        let dropped = (lines.len() - keep) as nat;
        markers_count(language, dropped);
        let marker = more_text(language, dropped);
        assert(tooltip_keeping(language, lines, keep) == stacked(head).push('\n') + marker);
        assert(!crate::cut::occurs(marker, '\n')) by {
            reveal_strlit("+");
            reveal_strlit(" more");
            reveal_strlit("还有 ");
            reveal_strlit(" 个");
            decimal_reads_back(dropped);
            let digits = decimal(dropped);
            assert forall|i: int| 0 <= i < marker.len() implies marker[i] != '\n' by {
                let before: int = if language == Language::SimplifiedChinese {
                    3
                } else {
                    1
                };
                if before <= i < before + digits.len() {
                    assert(marker[i] == digits[i - before]);
                    assert(crate::text::is_digit(digits[i - before]));
                }
            }
        }
        crate::cut::one_more_piece(stacked(head), '\n', marker);
    }
}

/// The marker says how many lines are missing, in the language of the tooltip.
pub proof fn markers_count(language: Language, dropped: nat)
    ensures
        more_text(language, dropped) == (if language == Language::SimplifiedChinese {
            "还有 "@ + decimal(dropped) + " 个"@
        } else {
            "+"@ + decimal(dropped) + " more"@
        }),
{
    reveal_strlit("+{n} more");
    reveal_strlit("还有 {n} 个");
    reveal_strlit("{n}");
    reveal_strlit("+");
    reveal_strlit(" more");
    reveal_strlit("还有 ");
    reveal_strlit(" 个");
    let from = "{n}"@;
    let to = decimal(dropped);
    if language == Language::SimplifiedChinese {
        crate::cut::one_occurrence_is_replaced("还有 "@, from, " 个"@, to);
        assert("还有 {n} 个"@ =~= "还有 "@ + from + " 个"@);
    } else {
        crate::cut::one_occurrence_is_replaced("+"@, from, " more"@, to);
        assert("+{n} more"@ =~= "+"@ + from + " more"@);
    }
}

/// The entry for a newer release ends with its tag.
pub proof fn update_entries_name_the_release(language: Language, version: Version)
    ensures
        ({
            let text = update_text(language, version);
            let n = shown(language, Text::UpdateAvailable).len() as int;
            &&& text.take(n) == shown(language, Text::UpdateAvailable)
            &&& crate::update::version_in(text.skip(n)) == Some(version)
        }),
{
    let text = update_text(language, version);
    let n = shown(language, Text::UpdateAvailable).len() as int;
    assert(text.take(n) == shown(language, Text::UpdateAvailable));
    assert(text.skip(n) == tag_of(version));
    crate::update::tags_read_back(version);
}

} // verus!
