//! Which device the tray icon speaks for.

use vstd::prelude::*;

use crate::config::AUTO_SUBJECT_ID;
use crate::model::{readings, BatteryState, Reading};
use crate::text::{opt_text, same_text};

verus! {

/// How much lower a candidate's battery must be before the automatic mode hands
/// the icon over. Devices report coarse levels, so that near-ties are common and
/// an exact comparison would flap the icon between two of them.
pub const AUTO_SWITCH_MARGIN: u8 = 5;

// ---------------------------------------------------------------------------
// The rule
// ---------------------------------------------------------------------------

/// Whether some device is running on its battery.
pub open spec fn any_discharging(devices: Seq<Reading>) -> bool {
    exists|i: int| 0 <= i < devices.len() && !(#[trigger] devices[i]).is_charging
}

/// Whether a device is a candidate. Charging devices are none as long as others
/// are not charging.
pub open spec fn is_candidate(device: Reading, discharging_only: bool) -> bool {
    discharging_only ==> !device.is_charging
}

/// The first candidate with a given key.
pub open spec fn first_with_key(
    devices: Seq<Reading>,
    key: Seq<char>,
    discharging_only: bool,
) -> Option<int>
    decreases devices.len(),
{
    if devices.len() == 0 {
        None
    } else {
        match first_with_key(devices.drop_last(), key, discharging_only) {
            Some(i) => Some(i),
            None => if is_candidate(devices.last(), discharging_only) && devices.last().device_key
                == key {
                Some(devices.len() - 1)
            } else {
                None
            },
        }
    }
}

/// The candidate with the lowest battery, the first of them if there are several.
pub open spec fn lowest_candidate(devices: Seq<Reading>, discharging_only: bool) -> Option<int>
    decreases devices.len(),
{
    if devices.len() == 0 {
        None
    } else {
        let last = devices.last();
        match lowest_candidate(devices.drop_last(), discharging_only) {
            Some(i) => if is_candidate(last, discharging_only) && last.battery_percent
                < devices[i].battery_percent {
                Some(devices.len() - 1)
            } else {
                Some(i)
            },
            None => if is_candidate(last, discharging_only) {
                Some(devices.len() - 1)
            } else {
                None
            },
        }
    }
}

/// Whether the icon passes from a device at `held` percent to one at `lowest`.
/// A small gap is not enough, unless the alert threshold lies in it.
pub open spec fn hands_over(held: u8, lowest: u8, threshold: u8) -> bool {
    ||| lowest <= threshold && held > threshold
    ||| held - lowest >= AUTO_SWITCH_MARGIN
}

/// The position of the device that the icon speaks for: the pinned one, or in
/// the automatic mode the one closest to running out, with `current` keeping the
/// icon while it is still a candidate and not clearly ahead of the lowest.
pub open spec fn subject_of(
    devices: Seq<Reading>,
    selected: Seq<char>,
    current: Option<Seq<char>>,
    threshold: u8,
) -> Option<int> {
    if selected != AUTO_SUBJECT_ID@ {
        first_with_key(devices, selected, false)
    } else {
        let only = any_discharging(devices);
        match lowest_candidate(devices, only) {
            None => None,
            Some(low) => match current {
                None => Some(low),
                Some(key) => match first_with_key(devices, key, only) {
                    None => Some(low),
                    Some(held) => if hands_over(
                        devices[held].battery_percent,
                        devices[low].battery_percent,
                        threshold,
                    ) {
                        Some(low)
                    } else {
                        Some(held)
                    },
                },
            },
        }
    }
}

/// Whether a picked device is the one at a given position.
pub open spec fn is_at(
    picked: Option<&BatteryState>,
    devices: Seq<BatteryState>,
    position: Option<int>,
) -> bool {
    match (picked, position) {
        (Some(device), Some(i)) => 0 <= i < devices.len() && *device == devices[i],
        (None, None) => true,
        _ => false,
    }
}

// ---------------------------------------------------------------------------
// Picking
// ---------------------------------------------------------------------------

fn find_key(devices: &[BatteryState], key: &str, discharging_only: bool) -> (at: Option<usize>)
    ensures
        match at {
            Some(i) => i < devices@.len() && first_with_key(
                readings(devices@),
                key@,
                discharging_only,
            ) == Some(i as int),
            None => first_with_key(readings(devices@), key@, discharging_only) is None,
        },
{
    let ghost all = readings(devices@);
    let mut i: usize = 0;
    assert(all.take(0) == Seq::<Reading>::empty());
    while i < devices.len()
        invariant
            i <= devices@.len(),
            all == readings(devices@),
            first_with_key(all.take(i as int), key@, discharging_only) is None,
        decreases devices@.len() - i,
    {
        assert(all.take(i + 1).drop_last() == all.take(i as int));
        assert(all.take(i + 1).last() == devices@[i as int]@);
        if (!discharging_only || !devices[i].is_charging) && same_text(
            devices[i].device_key.as_str(),
            key,
        ) {
            proof {
                first_stays(all, i + 1, key@, discharging_only);
            }
            return Some(i);
        }
        i = i + 1;
    }
    assert(all.take(i as int) == all);
    None
}

/// Further devices do not change which one is the first with a key.
proof fn first_stays(devices: Seq<Reading>, k: int, key: Seq<char>, only: bool)
    requires
        0 <= k <= devices.len(),
        first_with_key(devices.take(k), key, only) is Some,
    ensures
        first_with_key(devices, key, only) == first_with_key(devices.take(k), key, only),
    decreases devices.len() - k,
{
    if k < devices.len() {
        assert(devices.take(k + 1).drop_last() == devices.take(k));
        first_stays(devices, k + 1, key, only);
    } else {
        assert(devices.take(k) == devices);
    }
}

fn find_lowest(devices: &[BatteryState], discharging_only: bool) -> (at: Option<usize>)
    ensures
        match at {
            Some(i) => i < devices@.len() && lowest_candidate(readings(devices@), discharging_only)
                == Some(i as int),
            None => lowest_candidate(readings(devices@), discharging_only) is None,
        },
{
    let ghost all = readings(devices@);
    let mut at: Option<usize> = None;
    let mut i: usize = 0;
    assert(all.take(0) == Seq::<Reading>::empty());
    while i < devices.len()
        invariant
            i <= devices@.len(),
            all == readings(devices@),
            match at {
                Some(k) => k < i && lowest_candidate(all.take(i as int), discharging_only) == Some(
                    k as int,
                ),
                None => lowest_candidate(all.take(i as int), discharging_only) is None,
            },
        decreases devices@.len() - i,
    {
        let ghost head = all.take(i + 1);
        assert(head.drop_last() == all.take(i as int));
        assert(head.last() == devices@[i as int]@);
        if !discharging_only || !devices[i].is_charging {
            at = match at {
                Some(k) => {
                    assert(head[k as int] == devices@[k as int]@);
                    if devices[i].battery_percent < devices[k].battery_percent {
                        Some(i)
                    } else {
                        Some(k)
                    }
                },
                None => Some(i),
            };
        }
        i = i + 1;
    }
    assert(all.take(i as int) == all);
    at
}

fn has_discharging(devices: &[BatteryState]) -> (yes: bool)
    ensures
        yes == any_discharging(readings(devices@)),
{
    let mut i: usize = 0;
    while i < devices.len()
        invariant
            i <= devices@.len(),
            forall|j: int| 0 <= j < i ==> (#[trigger] readings(devices@)[j]).is_charging,
        decreases devices@.len() - i,
    {
        if !devices[i].is_charging {
            assert(!readings(devices@)[i as int].is_charging);
            return true;
        }
        i = i + 1;
    }
    false
}

/// The device that the icon speaks for.
///
/// Under [`AUTO_SUBJECT_ID`] that is whichever device is closest to running out.
/// Charging devices are passed over as long as another is not charging. `current`
/// is the key of the device that the icon spoke for before; it keeps the icon
/// unless another is lower by [`AUTO_SWITCH_MARGIN`], or has crossed the alert
/// threshold while it has not.
pub fn pick_subject<'a>(
    devices: &'a [BatteryState],
    selected_id: &str,
    current: Option<&str>,
    low_battery_threshold: u8,
) -> (picked: Option<&'a BatteryState>)
    ensures
        is_at(
            picked,
            devices@,
            subject_of(
                readings(devices@),
                selected_id@,
                match current {
                    Some(key) => Some(key@),
                    None => None,
                },
                low_battery_threshold,
            ),
        ),
{
    if !same_text(selected_id, AUTO_SUBJECT_ID) {
        return match find_key(devices, selected_id, false) {
            Some(i) => Some(&devices[i]),
            None => None,
        };
    }
    let only = has_discharging(devices);
    let low = match find_lowest(devices, only) {
        Some(i) => i,
        None => {
            return None;
        },
    };
    let held = match current {
        Some(key) => match find_key(devices, key, only) {
            Some(i) => i,
            None => {
                return Some(&devices[low]);
            },
        },
        None => {
            return Some(&devices[low]);
        },
    };
    let h = devices[held].battery_percent;
    let l = devices[low].battery_percent;
    assert(readings(devices@)[held as int].battery_percent == h);
    assert(readings(devices@)[low as int].battery_percent == l);
    let crossed_alert = l <= low_battery_threshold && h > low_battery_threshold;
    let clearly_lower = h >= l && h - l >= AUTO_SWITCH_MARGIN;
    if crossed_alert || clearly_lower {
        Some(&devices[low])
    } else {
        Some(&devices[held])
    }
}

/// The device that the icon last spoke for. It is not part of the configuration,
/// because in the automatic mode it changes whenever two batteries cross.
#[derive(Debug)]
pub struct SubjectTracker {
    pub key: Option<String>,
}

impl Default for SubjectTracker {
    fn default() -> (tracker: Self)
        ensures
            tracker.key is None,
    {
        SubjectTracker { key: None }
    }
}

/// The key of the device at a position.
pub open spec fn key_at(devices: Seq<Reading>, position: Option<int>) -> Option<Seq<char>> {
    match position {
        Some(i) => Some(devices[i].device_key),
        None => None,
    }
}

impl SubjectTracker {
    /// Picks the device anew for the current list, and remembers it.
    pub fn pick<'a>(
        &mut self,
        devices: &'a [BatteryState],
        selected_id: &str,
        low_battery_threshold: u8,
    ) -> (picked: Option<&'a BatteryState>)
        ensures
            ({
                let position = subject_of(
                    readings(devices@),
                    selected_id@,
                    opt_text(old(self).key),
                    low_battery_threshold,
                );
                &&& is_at(picked, devices@, position)
                &&& opt_text(final(self).key) == key_at(readings(devices@), position)
            }),
    {
        let current: Option<&str> = match &self.key {
            Some(key) => Some(key.as_str()),
            None => None,
        };
        let picked = pick_subject(devices, selected_id, current, low_battery_threshold);
        self.key = match picked {
            Some(device) => Some(device.device_key.clone()),
            None => None,
        };
        picked
    }
}

// ---------------------------------------------------------------------------
// What the rule amounts to
// ---------------------------------------------------------------------------

/// The first device with a key is a candidate with that key, and none before it is.
pub proof fn first_is_first(devices: Seq<Reading>, key: Seq<char>, only: bool)
    ensures
        match first_with_key(devices, key, only) {
            Some(i) => 0 <= i < devices.len() && is_candidate(devices[i], only)
                && devices[i].device_key == key && forall|j: int|
                0 <= j < i ==> !(is_candidate(#[trigger] devices[j], only)
                    && devices[j].device_key == key),
            None => forall|j: int|
                0 <= j < devices.len() ==> !(is_candidate(#[trigger] devices[j], only)
                    && devices[j].device_key == key),
        },
    decreases devices.len(),
{
    if devices.len() > 0 {
        let before = devices.drop_last();
        first_is_first(before, key, only);
        assert forall|j: int| 0 <= j < before.len() implies before[j] == #[trigger] devices[j] by {}
    }
}

/// The lowest candidate is one, none is lower, and none before it is as low.
pub proof fn lowest_is_lowest(devices: Seq<Reading>, only: bool)
    ensures
        match lowest_candidate(devices, only) {
            Some(i) => 0 <= i < devices.len() && is_candidate(devices[i], only) && (forall|j: int|
                0 <= j < devices.len() && is_candidate(#[trigger] devices[j], only)
                    ==> devices[i].battery_percent <= devices[j].battery_percent) && (forall|j: int|
                0 <= j < i && is_candidate(#[trigger] devices[j], only)
                    ==> devices[i].battery_percent < devices[j].battery_percent),
            None => forall|j: int|
                0 <= j < devices.len() ==> !is_candidate(#[trigger] devices[j], only),
        },
    decreases devices.len(),
{
    if devices.len() > 0 {
        let before = devices.drop_last();
        lowest_is_lowest(before, only);
        assert forall|j: int| 0 <= j < before.len() implies before[j] == #[trigger] devices[j] by {}
    }
}

/// A pinned device is followed whatever its battery, and nothing else is shown
/// in its place while it is away.
pub proof fn pinned_device_is_followed(
    devices: Seq<Reading>,
    selected: Seq<char>,
    current: Option<Seq<char>>,
    threshold: u8,
)
    requires
        selected != AUTO_SUBJECT_ID@,
    ensures
        match subject_of(devices, selected, current, threshold) {
            Some(i) => 0 <= i < devices.len() && devices[i].device_key == selected,
            None => forall|j: int|
                0 <= j < devices.len() ==> (#[trigger] devices[j]).device_key != selected,
        },
{
    first_is_first(devices, selected, false);
    if subject_of(devices, selected, current, threshold) is None {
        assert forall|j: int| 0 <= j < devices.len() implies (
        #[trigger] devices[j]).device_key != selected by {
            assert(is_candidate(devices[j], false));
        }
    }
}

/// In the automatic mode there is a subject whenever there is a device; it is
/// not charging unless all are; it is less than the margin above the lowest
/// candidate; and if a candidate is at or below the alert threshold, so is it.
pub proof fn automatic_subject_is_close_to_dying(
    devices: Seq<Reading>,
    current: Option<Seq<char>>,
    threshold: u8,
)
    ensures
        match subject_of(devices, AUTO_SUBJECT_ID@, current, threshold) {
            None => devices.len() == 0,
            Some(i) => {
                &&& 0 <= i < devices.len()
                &&& devices[i].is_charging ==> !any_discharging(devices)
                &&& forall|j: int|
                    0 <= j < devices.len() && is_candidate(
                        #[trigger] devices[j],
                        any_discharging(devices),
                    ) ==> {
                        &&& devices[i].battery_percent < devices[j].battery_percent
                            + AUTO_SWITCH_MARGIN
                        &&& devices[j].battery_percent <= threshold ==> devices[i].battery_percent
                            <= threshold
                    }
            },
        },
{
    let only = any_discharging(devices);
    lowest_is_lowest(devices, only);
    if current is Some {
        first_is_first(devices, current->0, only);
    }
    if devices.len() > 0 {
        if only {
            let k = choose|k: int| 0 <= k < devices.len() && !(#[trigger] devices[k]).is_charging;
            assert(is_candidate(devices[k], only));
        } else {
            assert(is_candidate(devices[0], only));
        }
    }
}

/// In the automatic mode the device that has the icon keeps it as long as it is
/// a candidate, no candidate is lower by the margin, and none has crossed the
/// alert threshold while it has not. So near-ties do not flap the icon.
pub proof fn incumbent_keeps_the_icon(devices: Seq<Reading>, key: Seq<char>, threshold: u8, h: int)
    requires
        first_with_key(devices, key, any_discharging(devices)) == Some(h),
        forall|j: int|
            0 <= j < devices.len() && is_candidate(#[trigger] devices[j], any_discharging(devices))
                ==> !hands_over(
                devices[h].battery_percent,
                devices[j].battery_percent,
                threshold,
            ),
    ensures
        subject_of(devices, AUTO_SUBJECT_ID@, Some(key), threshold) == Some(h),
{
    lowest_is_lowest(devices, any_discharging(devices));
    first_is_first(devices, key, any_discharging(devices));
}

/// In the automatic mode a device that is gone, or is charging while others are
/// not, loses the icon to the lowest candidate at once.
pub proof fn lost_incumbent_is_replaced(devices: Seq<Reading>, key: Seq<char>, threshold: u8)
    requires
        forall|j: int|
            0 <= j < devices.len() && (#[trigger] devices[j]).device_key == key
                ==> devices[j].is_charging && any_discharging(devices),
    ensures
        subject_of(devices, AUTO_SUBJECT_ID@, Some(key), threshold) == lowest_candidate(
            devices,
            any_discharging(devices),
        ),
{
    first_is_first(devices, key, any_discharging(devices));
}

/// Picking again from an unchanged list changes nothing.
pub proof fn picking_again_changes_nothing(
    devices: Seq<Reading>,
    selected: Seq<char>,
    current: Option<Seq<char>>,
    threshold: u8,
)
    requires
        forall|i: int, j: int|
            0 <= i < j < devices.len() ==> (#[trigger] devices[i]).device_key != (
            #[trigger] devices[j]).device_key,
    ensures
        ({
            let picked = subject_of(devices, selected, current, threshold);
            subject_of(devices, selected, key_at(devices, picked), threshold) == picked
        }),
{
    if selected == AUTO_SUBJECT_ID@ {
        let only = any_discharging(devices);
        lowest_is_lowest(devices, only);
        if current is Some {
            first_is_first(devices, current->0, only);
        }
        match subject_of(devices, selected, current, threshold) {
            None => {},
            Some(p) => {
                let key = devices[p].device_key;
                first_is_first(devices, key, only);
                assert(is_candidate(devices[p], only));
                let q = first_with_key(devices, key, only);
                assert(q is Some);
                if q->0 < p {
                    assert(devices[q->0].device_key != devices[p].device_key);
                } else if p < q->0 {
                    assert(devices[p].device_key != devices[q->0].device_key);
                }
            },
        }
    }
}

/// With a single device the automatic mode is the same as pinning that device.
pub proof fn automatic_is_pinned_for_one(
    device: Reading,
    current: Option<Seq<char>>,
    threshold: u8,
)
    requires
        device.device_key != AUTO_SUBJECT_ID@,
    ensures
        subject_of(seq![device], AUTO_SUBJECT_ID@, current, threshold) == Some(0int),
        subject_of(seq![device], device.device_key, current, threshold) == Some(0int),
{
    let devices = seq![device];
    automatic_subject_is_close_to_dying(devices, current, threshold);
    pinned_device_is_followed(devices, device.device_key, current, threshold);
    assert(devices[0].device_key == device.device_key);
}

/// In the automatic mode the device that has the icon keeps it as long as it is
/// running on its battery, or all devices are charging, every device that is in
/// the running with it is less than five points below it, and none of them is at
/// or below the alert threshold while it is above.
pub proof fn the_icon_stays_within_five_points(
    devices: Seq<Reading>,
    key: Seq<char>,
    threshold: u8,
    h: int,
)
    requires
        0 <= h < devices.len(),
        devices[h].device_key == key,
        forall|j: int| 0 <= j < h ==> (#[trigger] devices[j]).device_key != key,
        devices[h].is_charging ==> forall|k: int|
            0 <= k < devices.len() ==> (#[trigger] devices[k]).is_charging,
        forall|j: int|
            0 <= j < devices.len() && (!(#[trigger] devices[j]).is_charging
                || devices[h].is_charging) ==> {
                &&& devices[h].battery_percent < devices[j].battery_percent + 5
                &&& devices[j].battery_percent <= threshold ==> devices[h].battery_percent
                    <= threshold
            },
    ensures
        subject_of(devices, "lowest"@, Some(key), threshold) == Some(h),
{
    let only = any_discharging(devices);
    if only {
        let k = choose|k: int| 0 <= k < devices.len() && !(#[trigger] devices[k]).is_charging;
        assert(!devices[k].is_charging);
        assert(!devices[h].is_charging);
    } else if !devices[h].is_charging {
        assert(any_discharging(devices));
    }
    first_is_first(devices, key, only);
    assert(is_candidate(devices[h], only));
    lowest_is_lowest(devices, only);
}

/// In the automatic mode the icon goes to the device with the lowest battery, the
/// first of several, of those that are running on their batteries, or of all if
/// all are charging: unless the device that has the icon is among them, less than
/// five points above the lowest, and on the same side of the alert threshold.
pub proof fn the_icon_goes_to_the_lowest(
    devices: Seq<Reading>,
    current: Option<Seq<char>>,
    threshold: u8,
    i: int,
)
    requires
        0 <= i < devices.len(),
        devices[i].is_charging ==> forall|k: int|
            0 <= k < devices.len() ==> (#[trigger] devices[k]).is_charging,
        forall|j: int|
            0 <= j < devices.len() && (!(#[trigger] devices[j]).is_charging
                || devices[i].is_charging) ==> {
                &&& devices[i].battery_percent <= devices[j].battery_percent
                &&& j < i ==> devices[i].battery_percent < devices[j].battery_percent
                &&& current == Some(devices[j].device_key) ==> devices[j].battery_percent
                    >= devices[i].battery_percent + 5 || (devices[i].battery_percent <= threshold
                    && devices[j].battery_percent > threshold)
            },
    ensures
        subject_of(devices, "lowest"@, current, threshold) == Some(i),
{
    let only = any_discharging(devices);
    if only {
        let k = choose|k: int| 0 <= k < devices.len() && !(#[trigger] devices[k]).is_charging;
        assert(!devices[k].is_charging);
        assert(!devices[i].is_charging);
    } else if !devices[i].is_charging {
        assert(any_discharging(devices));
    }
    assert(is_candidate(devices[i], only));
    lowest_is_lowest(devices, only);
    let low = lowest_candidate(devices, only)->0;
    assert(low == i) by {
        if low < i {
            assert(devices[i].battery_percent < devices[low].battery_percent);
        } else if i < low {
            assert(devices[low].battery_percent < devices[i].battery_percent);
        }
    }
    if current is Some {
        first_is_first(devices, current->0, only);
    }
}

/// A pinned device has the icon wherever it stands in the list, charging or not,
/// and whichever device had it before; while it is away nothing has it. Without
/// any device nothing has it either.
pub proof fn a_pin_is_followed_to_the_device(
    devices: Seq<Reading>,
    selected: Seq<char>,
    current: Option<Seq<char>>,
    threshold: u8,
    i: int,
)
    ensures
        selected != "lowest"@ && 0 <= i < devices.len() && devices[i].device_key == selected && (
        forall|j: int| 0 <= j < i ==> (#[trigger] devices[j]).device_key != selected)
            ==> subject_of(devices, selected, current, threshold) == Some(i),
        selected != "lowest"@ && (forall|j: int|
            0 <= j < devices.len() ==> (#[trigger] devices[j]).device_key != selected)
            ==> subject_of(devices, selected, current, threshold) is None,
        devices.len() == 0 ==> subject_of(devices, selected, current, threshold) is None,
{
    first_is_first(devices, selected, false);
    if selected != "lowest"@ && 0 <= i < devices.len() && devices[i].device_key == selected {
        assert(is_candidate(devices[i], false));
    }
}

} // verus!
