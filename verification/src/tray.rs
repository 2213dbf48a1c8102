//! The tray application: what each click, each device event and each newer
//! release changes, and what is to be done about it.

use vstd::prelude::*;
use vstd::string::*;

use crate::clock::{Moment, Span, NANOS_PER_SECOND};
use crate::config::{
    is_text_mode, menu_view_modes_differ, AppConfig, Settings, AUTO_SUBJECT_ID,
};
use crate::cut::has_prefix;
use crate::hid::client::{DeviceEvent, Sighting, WorkerCommand};
use crate::i18n::{resolved, shown, Language, Text};
use crate::icon::{battery_color, color_of, Image};
use crate::label::{label_of, state_label, tooltip_of, tooltip_text, update_label, update_text};
use crate::menu::{
    device_lines, entries, rebuild_device_menu, show_update, update_line, Click, Entry,
    MenuCommand, MenuEntry, MenuLayout,
};
use crate::model::{
    arranges, device_keys_are_distinct, is_listing_of, key_of, listed_before, listing,
    listing_is_asymmetric, nothing_is_left_out, readings, receiver_prefix, BatteryState, Reading,
};
use crate::notify::{
    alert_due, alert_title, alerts_after_reading, alerts_after_toast, cooldown_seconds, Alerts,
    Notifier, Toast,
};
use crate::order::{precedes_is_irreflexive, precedes_is_total};
use crate::subject::{
    automatic_subject_is_close_to_dying, key_at, pinned_device_is_followed, subject_of,
    SubjectTracker,
};
use crate::text::{opt_text, push_hex4, same_text};
use crate::textmap::{ascending, entry_is_in_map, key_has_entry, map_of, TextMap};
use crate::update::{tag_of, CheckerCommand, Version};

verus! {

// ---------------------------------------------------------------------------
// The devices that are connected
// ---------------------------------------------------------------------------

/// The connected devices by key, with their states seen as readings.
pub open spec fn readings_by_key(map: Map<Seq<char>, BatteryState>) -> Map<Seq<char>, Reading> {
    Map::new(|k: Seq<char>| map.contains_key(k), |k: Seq<char>| map[k]@)
}

/// Each device is kept under its own key.
pub open spec fn is_keyed(map: Map<Seq<char>, Reading>) -> bool {
    forall|k: Seq<char>| #[trigger] map.contains_key(k) ==> map[k].device_key == k
}

/// `devices` lists the devices of `map`, each once, in the order of listing.
pub open spec fn is_roster(map: Map<Seq<char>, Reading>, devices: Seq<Reading>) -> bool {
    &&& forall|i: int|
        0 <= i < devices.len() ==> map.contains_key((#[trigger] devices[i]).device_key)
            && map[devices[i].device_key] == devices[i]
    &&& forall|k: Seq<char>| #[trigger]
        map.contains_key(k) ==> exists|i: int| 0 <= i < devices.len() && #[trigger] devices[i] == map[k]
    &&& forall|i: int, j: int|
        0 <= i < j < devices.len() ==> listed_before(#[trigger] devices[i], #[trigger] devices[j])
}

/// There is one way to list the devices, so that they do not change places
/// without a reason.
pub proof fn rosters_are_unique(map: Map<Seq<char>, Reading>, a: Seq<Reading>, b: Seq<Reading>)
    requires
        is_roster(map, a),
        is_roster(map, b),
    ensures
        a == b,
{
    if a.len() <= b.len() {
        rosters_agree(map, a, b, a.len() as int);
        roster_is_as_long(map, a, b);
    } else {
        rosters_agree(map, b, a, b.len() as int);
        roster_is_as_long(map, b, a);
    }
}

proof fn roster_is_as_long(map: Map<Seq<char>, Reading>, a: Seq<Reading>, b: Seq<Reading>)
    requires
        is_roster(map, a),
        is_roster(map, b),
        a.len() <= b.len(),
        forall|i: int| 0 <= i < a.len() ==> #[trigger] a[i] == b[i],
    ensures
        a.len() == b.len(),
{
    let n = a.len() as int;
    if n < b.len() {
        assert(map.contains_key(b[n].device_key));
        let p = choose|p: int| 0 <= p < a.len() && #[trigger] a[p] == map[b[n].device_key];
        assert(b[p] == a[p]);
        assert(listed_before(b[p], b[n]));
        listing_is_asymmetric(b[n], b[n]);
    }
}

proof fn rosters_agree(map: Map<Seq<char>, Reading>, a: Seq<Reading>, b: Seq<Reading>, n: int)
    requires
        is_roster(map, a),
        is_roster(map, b),
        0 <= n <= a.len() <= b.len(),
    ensures
        forall|i: int| 0 <= i < n ==> #[trigger] a[i] == b[i],
    decreases n,
{
    if n > 0 {
        rosters_agree(map, a, b, n - 1);
        let i = n - 1;
        assert(map.contains_key(a[i].device_key));
        assert(map.contains_key(b[i].device_key));
        let p = choose|p: int| 0 <= p < b.len() && #[trigger] b[p] == map[a[i].device_key];
        let q = choose|q: int| 0 <= q < a.len() && #[trigger] a[q] == map[b[i].device_key];
        listing_is_asymmetric(a[i], a[i]);
        listing_is_asymmetric(b[i], b[i]);
        listing_is_asymmetric(a[i], b[i]);
        if p < i {
            assert(a[p] == b[p]);
            assert(listed_before(a[p], a[i]));
        } else if p > i {
            assert(listed_before(b[i], b[p]));
            if q < i {
                assert(a[q] == b[q]);
                assert(listed_before(b[q], b[i]));
            } else if q > i {
                assert(listed_before(a[i], a[q]));
            }
        }
    }
}

/// The states in a map, by ascending key.
pub open spec fn values_of(list: Seq<(Seq<char>, BatteryState)>) -> Seq<Reading> {
    Seq::new(list.len(), |i: int| list[i].1@)
}

/// The connected devices, in the order of listing: by name, then by receiver,
/// then by key.
pub fn sorted_devices(map: &TextMap<BatteryState>) -> (devices: Vec<BatteryState>)
    ensures
        is_listing_of(values_of(map.in_order()), readings(devices@)),
        is_keyed(readings_by_key(map@)) ==> is_roster(readings_by_key(map@), readings(devices@)),
{
    let n = map.len();
    let mut values: Vec<BatteryState> = Vec::new();
    let mut i: usize = 0;
    while i < n
        invariant
            n == map.in_order().len(),
            i <= n,
            values@.len() == i,
            forall|j: int| 0 <= j < i ==> #[trigger] values@[j] == map.in_order()[j].1,
        decreases n - i,
    {
        values.push(map.value_at(i).clone());
        i = i + 1;
    }
    let devices = listing(&values);
    proof {
        let input = values_of(map.in_order());
        assert(readings(values@) =~= input);
        if is_keyed(readings_by_key(map@)) {
            listing_is_roster(map.in_order(), readings(devices@));
        }
    }
    devices
}

proof fn listing_is_roster(list: Seq<(Seq<char>, BatteryState)>, devices: Seq<Reading>)
    requires
        ascending(list),
        is_keyed(readings_by_key(map_of(list))),
        is_listing_of(values_of(list), devices),
    ensures
        is_roster(readings_by_key(map_of(list)), devices),
{
    let map = readings_by_key(map_of(list));
    let input = values_of(list);
    let order = choose|order: Seq<int>| arranges(order, input, devices);
    assert forall|k: int| 0 <= k < list.len() implies map.contains_key(list[k].0)
        && map[list[k].0] == #[trigger] input[k] && input[k].device_key == list[k].0 by {
        entry_is_in_map(list, k);
    }
    assert forall|i: int| 0 <= i < devices.len() implies map.contains_key(
        (#[trigger] devices[i]).device_key,
    ) && map[devices[i].device_key] == devices[i] by {
        assert(devices[i] == input[order[i]]);
    }
    assert forall|k: Seq<char>| #[trigger] map.contains_key(k) implies exists|i: int|
        0 <= i < devices.len() && #[trigger] devices[i] == map[k] by {
        let e = key_has_entry(list, k);
        assert(map[k] == input[e]);
        let i = nothing_is_left_out(order, input, devices, e);
        assert(devices[i] == map[k]);
    }
    assert forall|i: int, j: int| 0 <= i < j < devices.len() implies listed_before(
        #[trigger] devices[i],
        #[trigger] devices[j],
    ) by {
        assert(devices[i] == input[order[i]] && devices[j] == input[order[j]]);
        assert(!listed_before(devices[j], devices[i]));
        assert(order[i] != order[j]);
        let a = devices[i];
        let b = devices[j];
        if a.device_key == b.device_key {
            assert(list[order[i]].0 == list[order[j]].0);
            precedes_is_irreflexive(a.device_key);
            if order[i] < order[j] {
                assert(crate::order::precedes(list[order[i]].0, list[order[j]].0));
            } else {
                assert(crate::order::precedes(list[order[j]].0, list[order[i]].0));
            }
        }
        precedes_is_total(a.display_name, b.display_name);
        precedes_is_total(a.device_key, b.device_key);
    }
}

/// Takes out every device behind a receiver.
pub fn forget_receiver(map: &mut TextMap<BatteryState>, pid: u16)
    ensures
        final(map)@ == old(map)@.remove_keys(
            Set::new(|k: Seq<char>| has_prefix(k, receiver_prefix(pid))),
        ),
{
    let mut prefix = String::new();
    push_hex4(&mut prefix, pid, true);
    prefix.push(':');
    assert(prefix@ == receiver_prefix(pid));
    map.remove_prefixed(prefix.as_str());
}

/// Forgetting a receiver takes its own devices and leaves those of every other.
pub proof fn receivers_are_forgotten_alone(
    map: Map<Seq<char>, Reading>,
    pid: u16,
    other: u16,
    device_index: u8,
)
    ensures
        map.remove_keys(Set::new(|k: Seq<char>| has_prefix(k, receiver_prefix(pid)))).contains_key(
            key_of(other, device_index),
        ) <==> map.contains_key(key_of(other, device_index)) && other != pid,
{
    device_keys_are_distinct(other, device_index, pid, device_index);
}

/// The selection after a look at the connected devices: as long as nothing is
/// chosen, the first device is.
pub open spec fn adopted(selected: Seq<char>, devices: Seq<Reading>) -> Seq<char> {
    if selected.len() == 0 && devices.len() > 0 {
        devices[0].device_key
    } else {
        selected
    }
}

/// Chooses a device as long as none was chosen, and tells whether it did.
///
/// The choice is what the user wants and no guess: once made it is neither
/// changed nor cleared because the device is absent.
pub fn adopt_initial_device(selected_id: &mut String, devices: &[BatteryState]) -> (adopted_one: bool)
    ensures
        final(selected_id)@ == adopted(old(selected_id)@, readings(devices@)),
        adopted_one == (old(selected_id)@.len() == 0 && devices@.len() > 0),
{
    if !same_text(selected_id.as_str(), "") || devices.len() == 0 {
        proof {
            reveal_strlit("");
            assert(""@ =~= Seq::<char>::empty());
            if selected_id@.len() == 0 {
                assert(selected_id@ =~= Seq::<char>::empty());
            }
        }
        return false;
    }
    proof {
        reveal_strlit("");
        assert(readings(devices@)[0] == devices@[0]@);
    }
    *selected_id = devices[0].device_key.clone();
    true
}

// ---------------------------------------------------------------------------
// What the tray shows
// ---------------------------------------------------------------------------

/// What the tray shows: the icon, the tooltip, and the status line of the menu.
#[derive(Debug)]
pub struct Visuals {
    pub image: Image,
    pub tooltip: String,
    pub status: String,
}

/// [`Visuals`] with their texts seen as character sequences.
#[verifier::ext_equal]
pub struct Look {
    pub image: Image,
    pub tooltip: Seq<char>,
    pub status: Seq<char>,
}

impl View for Visuals {
    type V = Look;

    open spec fn view(&self) -> Look {
        Look { image: self.image, tooltip: self.tooltip@, status: self.status@ }
    }
}

/// What the tray shows when it speaks for `subject`. The tooltip covers all
/// devices, the status line the subject alone. Without a subject, nothing being
/// connected is told apart from the chosen device being away.
pub open spec fn look_of(
    devices: Seq<Reading>,
    subject: Option<Reading>,
    text_mode: bool,
    language: Language,
    threshold: u8,
) -> Look {
    match subject {
        Some(device) => {
            let percent = device.battery_percent;
            let color = color_of(percent, device.is_charging, threshold);
            Look {
                image: if text_mode {
                    Image::Number { percent, color }
                } else {
                    Image::Glyph { percent, color }
                },
                tooltip: tooltip_of(language, device, devices),
                status: label_of(language, device),
            }
        },
        None => {
            let message = shown(
                language,
                if devices.len() == 0 {
                    Text::NoDevicesFound
                } else {
                    Text::SelectedDeviceOffline
                },
            );
            Look { image: Image::Neutral, tooltip: message, status: message }
        },
    }
}

/// What the tray shows when it speaks for `subject`.
pub fn refresh_tray_visuals(
    devices: &[BatteryState],
    subject: Option<&BatteryState>,
    text_mode: bool,
    language: Language,
    low_battery_threshold: u8,
) -> (visuals: Visuals)
    ensures
        visuals@ == look_of(
            readings(devices@),
            match subject {
                Some(device) => Some(device@),
                None => None,
            },
            text_mode,
            language,
            low_battery_threshold,
        ),
{
    match subject {
        Some(device) => {
            let percent = device.battery_percent;
            let color = battery_color(percent, device.is_charging, low_battery_threshold);
            Visuals {
                image: if text_mode {
                    Image::Number { percent, color }
                } else {
                    Image::Glyph { percent, color }
                },
                tooltip: tooltip_text(language, device, devices),
                status: state_label(language, device),
            }
        },
        None => {
            let message = language.text(
                if devices.len() == 0 {
                    Text::NoDevicesFound
                } else {
                    Text::SelectedDeviceOffline
                },
            );
            Visuals {
                image: Image::Neutral,
                tooltip: message.to_string(),
                status: message.to_string(),
            }
        },
    }
}

// ---------------------------------------------------------------------------
// The state of the application
// ---------------------------------------------------------------------------

/// Something to be done outside.
#[derive(Debug)]
pub enum Action {
    /// Tell the supervisor.
    Send(WorkerCommand),
    /// Tell the update checker.
    TellChecker(CheckerCommand),
    /// Register the application to start at login, or not to.
    SetAutostart(bool),
    /// Save the configuration.
    SaveConfig,
    /// Show this in the tray.
    Paint(Visuals),
    /// Put these lines into the device submenu.
    ListDevices(Vec<MenuEntry>),
    /// Check the preset of a submenu that has this value, and no other.
    MarkPreset { prefix: &'static str, value: u64 },
    /// Check the entry of this device, and no other.
    MarkDevice(String),
    /// Check the entry of this language, and no other.
    MarkLanguage(Language),
    /// Build the menu for another language, then report with
    /// [`Tray::change_language`].
    BuildMenu(Language),
    /// Open the page of the latest release.
    OpenReleasePage,
    /// Open the configuration file.
    OpenConfig,
    /// End the application.
    Quit,
}

/// An [`Action`] with its texts seen as character sequences.
#[verifier::ext_equal]
pub enum Deed {
    Send(WorkerCommand),
    TellChecker(CheckerCommand),
    SetAutostart(bool),
    SaveConfig,
    Paint(Look),
    ListDevices(Seq<Entry>),
    MarkPreset { prefix: Seq<char>, value: u64 },
    MarkDevice(Seq<char>),
    MarkLanguage(Language),
    BuildMenu(Language),
    OpenReleasePage,
    OpenConfig,
    Quit,
}

impl View for Action {
    type V = Deed;

    open spec fn view(&self) -> Deed {
        match *self {
            Action::Send(command) => Deed::Send(command),
            Action::TellChecker(command) => Deed::TellChecker(command),
            Action::SetAutostart(on) => Deed::SetAutostart(on),
            Action::SaveConfig => Deed::SaveConfig,
            Action::Paint(visuals) => Deed::Paint(visuals@),
            Action::ListDevices(lines) => Deed::ListDevices(entries(lines@)),
            Action::MarkPreset { prefix, value } => Deed::MarkPreset { prefix: prefix@, value },
            Action::MarkDevice(key) => Deed::MarkDevice(key@),
            Action::MarkLanguage(language) => Deed::MarkLanguage(language),
            Action::BuildMenu(language) => Deed::BuildMenu(language),
            Action::OpenReleasePage => Deed::OpenReleasePage,
            Action::OpenConfig => Deed::OpenConfig,
            Action::Quit => Deed::Quit,
        }
    }
}

/// A list of actions, seen as a sequence.
pub open spec fn deeds(list: Seq<Action>) -> Seq<Deed> {
    Seq::new(list.len(), |i: int| list[i]@)
}

/// The state of the tray application.
pub struct Tray {
    cfg: AppConfig,
    text_mode: bool,
    language: Language,
    available_update: Option<Version>,
    notifier: Notifier,
    device_map: TextMap<BatteryState>,
    devices: Vec<BatteryState>,
    selected_id: String,
    subject: SubjectTracker,
}

/// A [`Tray`] with its parts seen as maps and sequences.
#[verifier::ext_equal]
pub struct TrayState {
    pub cfg: Settings,
    pub text_mode: bool,
    /// The language that the menu is in.
    pub language: Language,
    /// The newest release known, if it is newer than this one.
    pub available_update: Option<Version>,
    pub alerts: Alerts,
    /// What is connected, by device key.
    pub device_map: Map<Seq<char>, Reading>,
    /// What is connected, as it is listed.
    pub devices: Seq<Reading>,
    pub selected: Seq<char>,
    /// The key of the device that the icon last spoke for.
    pub subject: Option<Seq<char>>,
}

impl View for Tray {
    type V = TrayState;

    closed spec fn view(&self) -> TrayState {
        TrayState {
            cfg: self.cfg@,
            text_mode: self.text_mode,
            language: self.language,
            available_update: self.available_update,
            alerts: self.notifier@,
            device_map: readings_by_key(self.device_map@),
            devices: readings(self.devices@),
            selected: self.selected_id@,
            subject: opt_text(self.subject.key),
        }
    }
}

/// The cooldown that a number of minutes stands for.
pub open spec fn cooldown_of(minutes: u64) -> Span {
    Span { nanos: (cooldown_seconds(minutes) * NANOS_PER_SECOND) as u128 }
}

/// What holds of the state at any time: the list shows what is connected, and
/// what is in force is what the configuration says.
pub open spec fn is_consistent(t: TrayState) -> bool {
    &&& is_keyed(t.device_map)
    &&& is_roster(t.device_map, t.devices)
    &&& t.selected == t.cfg.selected_device_id
    &&& t.text_mode == is_text_mode(t.cfg.view_mode)
    &&& t.alerts.language == t.language
    &&& t.alerts.enabled == t.cfg.notifications_enabled
    &&& t.alerts.threshold == t.cfg.low_battery_threshold
    &&& t.alerts.cooldown == cooldown_of(t.cfg.low_battery_cooldown_minutes)
    &&& t.language != Language::Auto
}

/// The device at a position, if there is one.
pub open spec fn device_at(devices: Seq<Reading>, position: Option<int>) -> Option<Reading> {
    match position {
        Some(i) => Some(devices[i]),
        None => None,
    }
}

/// The position of the device that the icon speaks for.
pub open spec fn subject_now(t: TrayState) -> Option<int> {
    subject_of(t.devices, t.selected, t.subject, t.cfg.low_battery_threshold)
}

/// What the tray has to show.
pub open spec fn look_now(t: TrayState) -> Look {
    look_of(
        t.devices,
        device_at(t.devices, subject_now(t)),
        t.text_mode,
        t.language,
        t.cfg.low_battery_threshold,
    )
}

/// The state once the tray shows what it has to.
pub open spec fn painted(t: TrayState) -> TrayState {
    TrayState { subject: key_at(t.devices, subject_now(t)), ..t }
}

/// The state when the application starts.
pub open spec fn initial(cfg: Settings, language: Language) -> TrayState {
    TrayState {
        cfg,
        text_mode: is_text_mode(cfg.view_mode),
        language,
        available_update: None,
        alerts: Alerts {
            language,
            enabled: cfg.notifications_enabled,
            threshold: cfg.low_battery_threshold,
            cooldown: cooldown_of(cfg.low_battery_cooldown_minutes),
            last_sent: Map::empty(),
        },
        device_map: Map::empty(),
        devices: Seq::empty(),
        selected: cfg.selected_device_id,
        subject: None,
    }
}

// ---------------------------------------------------------------------------
// Clicks
// ---------------------------------------------------------------------------

/// What a click changes, before the tray shows it. `checked` is whether the entry
/// is checked now, for those that can be.
pub open spec fn changed_by(t: TrayState, click: Click, checked: bool) -> TrayState {
    match click {
        Click::Autostart => TrayState { cfg: Settings { autostart: checked, ..t.cfg }, ..t },
        Click::ViewMode => TrayState {
            text_mode: checked,
            cfg: Settings {
                view_mode: if checked {
                    "text"@
                } else {
                    "icon"@
                },
                ..t.cfg
            },
            ..t
        },
        Click::Notify => TrayState {
            cfg: Settings { notifications_enabled: checked, ..t.cfg },
            alerts: Alerts { enabled: checked, ..t.alerts },
            ..t
        },
        Click::CheckUpdates => TrayState {
            cfg: Settings { check_for_updates: checked, ..t.cfg },
            ..t
        },
        Click::Poll(secs) => TrayState {
            cfg: Settings { poll_interval_seconds: secs, ..t.cfg },
            ..t
        },
        Click::Threshold(percent) => TrayState {
            cfg: Settings { low_battery_threshold: percent, ..t.cfg },
            alerts: Alerts { threshold: percent, ..t.alerts },
            ..t
        },
        Click::Cooldown(minutes) => TrayState {
            cfg: Settings { low_battery_cooldown_minutes: minutes, ..t.cfg },
            alerts: Alerts { cooldown: cooldown_of(minutes), ..t.alerts },
            ..t
        },
        Click::Device(key) => TrayState {
            selected: key,
            cfg: Settings { selected_device_id: key, ..t.cfg },
            ..t
        },
        Click::Refresh => t,
        Click::Exit => t,
        Click::Language(_) => t,
        Click::UpdateAvailable => t,
        Click::OpenConfig => t,
        Click::Ignored => t,
    }
}

/// Whether a click has the tray painted anew. The threshold is among those
/// because the colors of the icon follow it.
pub open spec fn repaints(click: Click) -> bool {
    click is ViewMode || click is Threshold || click is Device
}

/// The state after a click.
pub open spec fn after_click(t: TrayState, click: Click, checked: bool) -> TrayState {
    let changed = changed_by(t, click, checked);
    if repaints(click) {
        painted(changed)
    } else {
        changed
    }
}

/// What a click leads to. `look` is what the tray has to show, for the clicks that
/// have it painted anew.
pub open spec fn deeds_of_click(click: Click, checked: bool, look: Look) -> Seq<Deed> {
    match click {
        Click::Refresh => seq![Deed::Send(WorkerCommand::Refresh)],
        Click::Exit => seq![Deed::Send(WorkerCommand::Exit), Deed::Quit],
        Click::Autostart => seq![Deed::SetAutostart(checked), Deed::SaveConfig],
        Click::ViewMode => seq![Deed::SaveConfig, Deed::Paint(look)],
        Click::Notify => seq![Deed::SaveConfig],
        Click::Language(language) => seq![Deed::BuildMenu(language)],
        Click::CheckUpdates => seq![
            Deed::TellChecker(CheckerCommand::SetEnabled(checked)),
            Deed::SaveConfig,
        ],
        Click::UpdateAvailable => seq![Deed::OpenReleasePage],
        Click::OpenConfig => seq![Deed::OpenConfig],
        Click::Poll(secs) => seq![
            Deed::Send(WorkerCommand::SetSafetyInterval(secs)),
            Deed::SaveConfig,
            Deed::MarkPreset { prefix: "poll"@, value: secs },
        ],
        Click::Threshold(percent) => seq![
            Deed::SaveConfig,
            Deed::MarkPreset { prefix: "threshold"@, value: percent as u64 },
            Deed::Paint(look),
        ],
        Click::Cooldown(minutes) => seq![
            Deed::SaveConfig,
            Deed::MarkPreset { prefix: "cooldown"@, value: minutes },
        ],
        Click::Device(key) => seq![
            Deed::MarkDevice(key),
            Deed::SaveConfig,
            Deed::Paint(look),
        ],
        Click::Ignored => seq![],
    }
}

// ---------------------------------------------------------------------------
// Devices, languages and releases
// ---------------------------------------------------------------------------

/// What is connected after an event.
pub open spec fn connected_after(map: Map<Seq<char>, Reading>, event: Sighting) -> Map<
    Seq<char>,
    Reading,
> {
    match event {
        Sighting::Update(reading) => map.insert(reading.device_key, reading),
        Sighting::Gone(key) => map.remove(key),
        Sighting::ReceiverGone(pid) => map.remove_keys(
            Set::new(|k: Seq<char>| has_prefix(k, receiver_prefix(pid))),
        ),
    }
}

/// What an event changes, before the tray shows it. `devices` is the list of what
/// is connected then.
pub open spec fn changed_by_device(t: TrayState, event: Sighting, devices: Seq<Reading>) -> TrayState {
    TrayState {
        alerts: match event {
            Sighting::Update(reading) => alerts_after_reading(t.alerts, reading),
            _ => t.alerts,
        },
        device_map: connected_after(t.device_map, event),
        devices,
        selected: adopted(t.selected, devices),
        cfg: Settings { selected_device_id: adopted(t.selected, devices), ..t.cfg },
        ..t
    }
}

/// What an event leads to. `changed` is the state with what it changes.
pub open spec fn deeds_of_device(before: TrayState, changed: TrayState) -> Seq<Deed> {
    (if before.selected.len() == 0 && changed.devices.len() > 0 {
        seq![Deed::SaveConfig]
    } else {
        seq![]
    }) + seq![
        Deed::ListDevices(device_lines(changed.language, changed.devices, changed.selected)),
        Deed::Paint(look_now(changed)),
    ]
}

/// What another language changes, before the tray shows it.
pub open spec fn changed_by_language(t: TrayState, choice: Language, language: Language) -> TrayState {
    TrayState {
        cfg: Settings { language: choice, ..t.cfg },
        language,
        alerts: Alerts { language, ..t.alerts },
        ..t
    }
}

/// The menu in another language, with its device submenu and the entry for a
/// newer release, if there is one.
#[derive(Debug)]
pub struct Replacement {
    pub menu: MenuLayout,
    pub devices: Vec<MenuEntry>,
    pub update: Option<MenuEntry>,
}

/// A low-battery alert to show, and the key of the device that it is about.
#[derive(Debug)]
pub struct LowBattery {
    pub device_key: String,
    pub toast: Toast,
}

fn actions_of_click(
    command: MenuCommand,
    checked: bool,
    visuals: Option<Visuals>,
    Ghost(look): Ghost<Look>,
) -> (actions: Vec<Action>)
    requires
        repaints(command@) <==> visuals is Some,
        visuals is Some ==> visuals->0@ == look,
    ensures
        deeds(actions@) == deeds_of_click(command@, checked, look),
{
    let ghost click = command@;
    let mut actions: Vec<Action> = Vec::new();
    match command {
        MenuCommand::Refresh => {
            actions.push(Action::Send(WorkerCommand::Refresh));
        },
        MenuCommand::Exit => {
            actions.push(Action::Send(WorkerCommand::Exit));
            actions.push(Action::Quit);
        },
        MenuCommand::Autostart => {
            actions.push(Action::SetAutostart(checked));
            actions.push(Action::SaveConfig);
        },
        MenuCommand::ViewMode => {
            actions.push(Action::SaveConfig);
        },
        MenuCommand::Notify => {
            actions.push(Action::SaveConfig);
        },
        MenuCommand::Language(language) => {
            actions.push(Action::BuildMenu(language));
        },
        MenuCommand::CheckUpdates => {
            actions.push(Action::TellChecker(CheckerCommand::SetEnabled(checked)));
            actions.push(Action::SaveConfig);
        },
        MenuCommand::UpdateAvailable => {
            actions.push(Action::OpenReleasePage);
        },
        MenuCommand::OpenConfig => {
            actions.push(Action::OpenConfig);
        },
        MenuCommand::Poll(secs) => {
            actions.push(Action::Send(WorkerCommand::SetSafetyInterval(secs)));
            actions.push(Action::SaveConfig);
            actions.push(Action::MarkPreset { prefix: "poll", value: secs });
        },
        MenuCommand::Threshold(percent) => {
            actions.push(Action::SaveConfig);
            actions.push(Action::MarkPreset { prefix: "threshold", value: percent as u64 });
        },
        MenuCommand::Cooldown(minutes) => {
            actions.push(Action::SaveConfig);
            actions.push(Action::MarkPreset { prefix: "cooldown", value: minutes });
        },
        MenuCommand::Device(key) => {
            actions.push(Action::MarkDevice(key));
            actions.push(Action::SaveConfig);
        },
        MenuCommand::Ignored => {},
    }
    if let Some(visuals) = visuals {
        actions.push(Action::Paint(visuals));
    }
    assert(deeds(actions@) =~= deeds_of_click(click, checked, look));
    actions
}

impl Tray {
    /// The application as it starts, with nothing connected.
    pub fn new(cfg: AppConfig, ui_language: Option<u16>) -> (tray: Self)
        ensures
            tray@ == initial(
                cfg@,
                resolved(
                    cfg@.language,
                    if ui_language is Some {
                        ui_language->0
                    } else {
                        0
                    },
                ),
            ),
            is_consistent(tray@),
    {
        let language = cfg.language.resolve(ui_language);
        let notifier = Notifier::new(
            language,
            cfg.notifications_enabled,
            cfg.low_battery_threshold,
            cfg.low_battery_cooldown_minutes,
        );
        let tray = Tray {
            text_mode: cfg.text_mode(),
            language,
            available_update: None,
            notifier,
            device_map: TextMap::new(),
            devices: Vec::new(),
            selected_id: cfg.selected_device_id.clone(),
            subject: SubjectTracker::default(),
            cfg,
        };
        proof {
            assert(readings_by_key(tray.device_map@) =~= Map::<Seq<char>, Reading>::empty());
            assert(readings(tray.devices@) =~= Seq::<Reading>::empty());
            assert(tray@ =~= initial(cfg@, language));
        }
        tray
    }

    /// The configuration to save.
    pub fn cfg(&self) -> (cfg: &AppConfig)
        ensures
            cfg@ == self@.cfg,
    {
        &self.cfg
    }

    /// Whether the icon shows a number.
    pub fn text_mode(&self) -> (on: bool)
        ensures
            on == self@.text_mode,
    {
        self.text_mode
    }

    /// The language that the menu is in.
    pub fn language(&self) -> (language: Language)
        ensures
            language == self@.language,
    {
        self.language
    }

    /// What is connected, as it is listed.
    pub fn devices(&self) -> (devices: &Vec<BatteryState>)
        ensures
            readings(devices@) == self@.devices,
    {
        &self.devices
    }

    /// What to show at the start, before anything is known of the devices.
    pub fn start(&self) -> (actions: Vec<Action>)
        ensures
            deeds(actions@) == seq![
                Deed::Paint(
                    look_of(
                        Seq::empty(),
                        None,
                        self@.text_mode,
                        self@.language,
                        self@.cfg.low_battery_threshold,
                    ),
                ),
                Deed::ListDevices(device_lines(self@.language, Seq::empty(), self@.selected)),
            ],
    {
        let none: Vec<BatteryState> = Vec::new();
        assert(readings(none@) =~= Seq::<Reading>::empty());
        let visuals = refresh_tray_visuals(
            &none,
            None,
            self.text_mode,
            self.language,
            self.cfg.low_battery_threshold,
        );
        let lines = rebuild_device_menu(self.language, &none, self.selected_id.as_str());
        let mut actions: Vec<Action> = Vec::new();
        actions.push(Action::Paint(visuals));
        actions.push(Action::ListDevices(lines));
        assert(deeds(actions@) =~= seq![
            Deed::Paint(
                look_of(
                    Seq::empty(),
                    None,
                    self@.text_mode,
                    self@.language,
                    self@.cfg.low_battery_threshold,
                ),
            ),
            Deed::ListDevices(device_lines(self@.language, Seq::empty(), self@.selected)),
        ]);
        actions
    }

    fn paint(&mut self) -> (visuals: Visuals)
        ensures
            visuals@ == look_now(old(self)@),
            final(self)@ == painted(old(self)@),
    {
        let threshold = self.cfg.low_battery_threshold;
        let picked = self.subject.pick(&self.devices, self.selected_id.as_str(), threshold);
        refresh_tray_visuals(&self.devices, picked, self.text_mode, self.language, threshold)
    }

    /// Makes the changes of a click, but for what the tray shows.
    fn apply(&mut self, command: &MenuCommand, checked: bool)
        requires
            is_consistent(old(self)@),
        ensures
            final(self)@ == changed_by(old(self)@, command@, checked),
            is_consistent(final(self)@),
    {
        match command {
            MenuCommand::Autostart => {
                self.cfg.autostart = checked;
            },
            MenuCommand::ViewMode => {
                proof {
                    menu_view_modes_differ();
                }
                self.text_mode = checked;
                self.cfg.view_mode = if checked {
                    "text".to_string()
                } else {
                    "icon".to_string()
                };
            },
            MenuCommand::Notify => {
                self.cfg.notifications_enabled = checked;
                self.notifier.set_enabled(checked);
            },
            MenuCommand::CheckUpdates => {
                self.cfg.check_for_updates = checked;
            },
            MenuCommand::Poll(secs) => {
                self.cfg.poll_interval_seconds = *secs;
            },
            MenuCommand::Threshold(percent) => {
                self.cfg.low_battery_threshold = *percent;
                self.notifier.set_threshold(*percent);
            },
            MenuCommand::Cooldown(minutes) => {
                self.cfg.low_battery_cooldown_minutes = *minutes;
                self.notifier.set_cooldown(*minutes);
            },
            MenuCommand::Device(key) => {
                self.selected_id = key.clone();
                self.cfg.selected_device_id = key.clone();
            },
            _ => {},
        }
    }

    /// Carries out a click. `checked` is whether the entry is checked now, for
    /// those that can be.
    pub fn click(&mut self, command: MenuCommand, checked: bool) -> (actions: Vec<Action>)
        requires
            is_consistent(old(self)@),
        ensures
            final(self)@ == after_click(old(self)@, command@, checked),
            deeds(actions@) == deeds_of_click(
                command@,
                checked,
                look_now(changed_by(old(self)@, command@, checked)),
            ),
            is_consistent(final(self)@),
    {
        self.apply(&command, checked);
        let ghost look = look_now(self@);
        let shows_anew = match &command {
            MenuCommand::ViewMode => true,
            MenuCommand::Threshold(_) => true,
            MenuCommand::Device(_) => true,
            _ => false,
        };
        let visuals = if shows_anew {
            Some(self.paint())
        } else {
            None
        };
        actions_of_click(command, checked, visuals, Ghost(look))
    }

    /// Takes note of what a worker reports at `now`, and returns the alert to
    /// show, if one is due, and what else is to be done. How the alert went is to
    /// be told with [`Tray::low_battery_shown`].
    pub fn device_event(&mut self, event: DeviceEvent, now: Moment) -> (outcome: (
        Option<LowBattery>,
        Vec<Action>,
    ))
        requires
            is_consistent(old(self)@),
        ensures
            ({
                let changed = changed_by_device(old(self)@, event@, final(self)@.devices);
                &&& final(self)@ == painted(changed)
                &&& deeds(outcome.1@) == deeds_of_device(old(self)@, changed)
            }),
            is_consistent(final(self)@),
            outcome.0 is Some <==> (event@ matches Sighting::Update(reading) && alert_due(
                old(self)@.alerts,
                reading,
                now,
            )),
            outcome.0 matches Some(alert) ==> alert.device_key@ == event@->Update_0.device_key
                && alert.toast.title@ == alert_title(event@->Update_0) && alert.toast.body@ == shown(
                old(self)@.language,
                Text::LowBattery,
            ),
    {
        let ghost before = self@;
        let ghost sighted = event@;
        let ghost map = self.device_map@;
        let alert = match event {
            DeviceEvent::Update(state) => {
                let toast = self.notifier.maybe_notify_low_battery(&state, now);
                let key = state.device_key.clone();
                let alert = match toast {
                    Some(toast) => Some(LowBattery { device_key: key.clone(), toast }),
                    None => None,
                };
                proof {
                    assert(readings_by_key(map.insert(key@, state)) =~= readings_by_key(map).insert(
                        key@,
                        state@,
                    ));
                }
                self.device_map.insert(key, state);
                alert
            },
            DeviceEvent::Gone(key) => {
                self.device_map.remove(key.as_str());
                assert(readings_by_key(map.remove(key@)) =~= readings_by_key(map).remove(key@));
                None
            },
            DeviceEvent::ReceiverGone(pid) => {
                forget_receiver(&mut self.device_map, pid);
                proof {
                    let gone = Set::new(|k: Seq<char>| has_prefix(k, receiver_prefix(pid)));
                    assert(readings_by_key(map.remove_keys(gone)) =~= readings_by_key(
                        map,
                    ).remove_keys(gone));
                }
                None
            },
        };
        proof {
            assert(readings_by_key(self.device_map@) == connected_after(before.device_map, sighted));
            assert(is_keyed(readings_by_key(self.device_map@)));
        }
        self.devices = sorted_devices(&self.device_map);
        let mut actions: Vec<Action> = Vec::new();
        let adopted_one = adopt_initial_device(&mut self.selected_id, &self.devices);
        if adopted_one {
            self.cfg.selected_device_id = self.selected_id.clone();
            actions.push(Action::SaveConfig);
        }
        let ghost changed = changed_by_device(before, sighted, readings(self.devices@));
        assert(self@ =~= changed);
        let lines = rebuild_device_menu(self.language, &self.devices, self.selected_id.as_str());
        actions.push(Action::ListDevices(lines));
        actions.push(Action::Paint(self.paint()));
        assert(deeds(actions@) =~= deeds_of_device(before, changed));
        (alert, actions)
    }

    /// Takes note of how the alert about a device went.
    pub fn low_battery_shown(&mut self, device_key: &str, now: Moment, was_shown: bool)
        requires
            is_consistent(old(self)@),
        ensures
            final(self)@ == (if was_shown {
                TrayState {
                    alerts: alerts_after_toast(old(self)@.alerts, device_key@, now),
                    ..old(self)@
                }
            } else {
                old(self)@
            }),
            is_consistent(final(self)@),
    {
        let _ = self.notifier.record_toast(device_key, now, was_shown);
    }

    /// The menu in another language.
    pub fn menu_for_language(
        &self,
        choice: Language,
        ui_language: Option<u16>,
        autostart: bool,
    ) -> (replacement: Replacement)
        ensures
            replacement.menu.language == resolved(
                choice,
                if ui_language is Some {
                    ui_language->0
                } else {
                    0
                },
            ),
            entries(replacement.menu.lines@) == crate::menu::menu_lines(
                replacement.menu.language,
                Settings { language: choice, ..self@.cfg },
                autostart,
                self@.text_mode,
            ),
            entries(replacement.devices@) == device_lines(
                replacement.menu.language,
                self@.devices,
                self@.selected,
            ),
            match (replacement.update, self@.available_update) {
                (Some(line), Some(version)) => line@ == update_line(
                    replacement.menu.language,
                    version,
                ),
                (None, None) => true,
                _ => false,
            },
    {
        let mut next_config = self.cfg.clone();
        next_config.language = choice;
        let menu = MenuLayout::build(&next_config, ui_language, autostart, self.text_mode);
        let devices = rebuild_device_menu(
            menu.language,
            &self.devices,
            self.selected_id.as_str(),
        );
        let update = match self.available_update {
            Some(version) => Some(show_update(menu.language, version)),
            None => None,
        };
        Replacement { menu, devices, update }
    }

    /// Takes note of whether the menu for the choice of another language could be
    /// built. `language` is the language that the menu is in. If it could not,
    /// all stays as it is.
    pub fn change_language(&mut self, choice: Language, language: Language, built: bool) -> (actions:
        Vec<Action>)
        requires
            is_consistent(old(self)@),
            language != Language::Auto,
        ensures
            is_consistent(final(self)@),
            built ==> final(self)@ == painted(changed_by_language(old(self)@, choice, language))
                && deeds(actions@) == seq![
                Deed::Paint(look_now(changed_by_language(old(self)@, choice, language))),
                Deed::SaveConfig,
            ],
            !built ==> final(self)@ == old(self)@ && deeds(actions@) == seq![
                Deed::MarkLanguage(old(self)@.cfg.language),
            ],
    {
        let ghost before = self@;
        let mut actions: Vec<Action> = Vec::new();
        if built {
            self.cfg.language = choice;
            self.language = language;
            self.notifier.set_language(language);
            assert(self@ =~= changed_by_language(before, choice, language));
            actions.push(Action::Paint(self.paint()));
            actions.push(Action::SaveConfig);
            assert(deeds(actions@) =~= seq![
                Deed::Paint(look_now(changed_by_language(before, choice, language))),
                Deed::SaveConfig,
            ]);
        } else {
            actions.push(Action::MarkLanguage(self.cfg.language));
            assert(deeds(actions@) =~= seq![Deed::MarkLanguage(before.cfg.language)]);
        }
        actions
    }

    /// Takes note of a newer release, and returns its menu entry and the
    /// notification to show, if it was not shown before. How that went is to be
    /// told with [`Tray::update_shown`].
    pub fn update_available(&mut self, version: Version) -> (news: (MenuEntry, Option<Toast>))
        requires
            is_consistent(old(self)@),
        ensures
            final(self)@ == (TrayState { available_update: Some(version), ..old(self)@ }),
            is_consistent(final(self)@),
            news.0@ == update_line(old(self)@.language, version),
            news.1 is Some <==> is_news(old(self)@.cfg, version),
            news.1 matches Some(toast) ==> toast.title@ == update_text(old(self)@.language, version)
                && toast.body@ == shown(old(self)@.language, Text::UpdateToastBody),
    {
        self.available_update = Some(version);
        let line = show_update(self.language, version);
        let tag = version.to_string();
        let toast = if same_text(self.cfg.last_notified_update.as_str(), tag.as_str()) {
            None
        } else {
            Some(
                Toast {
                    title: update_label(self.language, version),
                    body: self.language.text(Text::UpdateToastBody).to_string(),
                },
            )
        };
        (line, toast)
    }

    /// Takes note of whether the notification of a newer release was shown.
    pub fn update_shown(&mut self, version: Version, was_shown: bool) -> (actions: Vec<Action>)
        requires
            is_consistent(old(self)@),
        ensures
            is_consistent(final(self)@),
            was_shown ==> final(self)@ == (TrayState {
                cfg: Settings { last_notified_update: tag_of(version), ..old(self)@.cfg },
                ..old(self)@
            }) && deeds(actions@) == seq![Deed::SaveConfig],
            !was_shown ==> final(self)@ == old(self)@ && deeds(actions@) == Seq::<Deed>::empty(),
    {
        let mut actions: Vec<Action> = Vec::new();
        if was_shown {
            self.cfg.last_notified_update = version.to_string();
            actions.push(Action::SaveConfig);
            assert(deeds(actions@) =~= seq![Deed::SaveConfig]);
        } else {
            assert(deeds(actions@) =~= Seq::<Deed>::empty());
        }
        actions
    }
}

// ---------------------------------------------------------------------------
// What the application promises
// ---------------------------------------------------------------------------

/// No change of the configuration is lost: whenever a click or a device event
/// changes it, it is saved.
pub proof fn changes_are_saved(
    t: TrayState,
    click: Click,
    checked: bool,
    event: Sighting,
    devices: Seq<Reading>,
)
    requires
        is_consistent(t),
    ensures
        after_click(t, click, checked).cfg != t.cfg ==> deeds_of_click(
            click,
            checked,
            look_now(changed_by(t, click, checked)),
        ).contains(Deed::SaveConfig),
        changed_by_device(t, event, devices).cfg != t.cfg ==> deeds_of_device(
            t,
            changed_by_device(t, event, devices),
        ).contains(Deed::SaveConfig),
{
    let look = look_now(changed_by(t, click, checked));
    let list = deeds_of_click(click, checked, look);
    if after_click(t, click, checked).cfg != t.cfg {
        assert(list[0] == Deed::SaveConfig || list[1] == Deed::SaveConfig);
    }
    let changed = changed_by_device(t, event, devices);
    if changed.cfg != t.cfg {
        if !(t.selected.len() == 0 && devices.len() > 0) {
            assert(changed.cfg =~= t.cfg);
        }
        assert(deeds_of_device(t, changed)[0] == Deed::SaveConfig);
    }
}

/// The choice of a device survives its absence: once something is chosen, no
/// device event changes the choice, be the device there or not.
pub proof fn the_choice_survives(t: TrayState, event: Sighting, devices: Seq<Reading>)
    requires
        t.selected.len() > 0,
        is_consistent(t),
    ensures
        changed_by_device(t, event, devices).selected == t.selected,
        changed_by_device(t, event, devices).cfg == t.cfg,
{
    assert(changed_by_device(t, event, devices).cfg =~= t.cfg);
}

/// The icon never shows something outdated: a click that changes what the tray
/// has to show has it painted, with what it has to show then.
pub proof fn the_icon_follows_the_settings(t: TrayState, click: Click, checked: bool)
    ensures
        look_now(changed_by(t, click, checked)) != look_now(t) ==> deeds_of_click(
            click,
            checked,
            look_now(changed_by(t, click, checked)),
        ).contains(Deed::Paint(look_now(changed_by(t, click, checked)))),
{
    let look = look_now(changed_by(t, click, checked));
    let list = deeds_of_click(click, checked, look);
    if repaints(click) {
        assert(list.last() == Deed::Paint(look));
    }
}

/// Painting again shows the same: the icon does not move to another device
/// unless something has changed.
pub proof fn painting_again_changes_nothing(t: TrayState)
    requires
        is_consistent(t),
    ensures
        look_now(painted(t)) == look_now(t),
        painted(painted(t)) == painted(t),
{
    assert forall|i: int, j: int| 0 <= i < j < t.devices.len() implies (
    #[trigger] t.devices[i]).device_key != (#[trigger] t.devices[j]).device_key by {
        assert(listed_before(t.devices[i], t.devices[j]));
        if t.devices[i].device_key == t.devices[j].device_key {
            assert(t.devices[i] == t.devices[j]);
            listing_is_asymmetric(t.devices[i], t.devices[j]);
        }
    }
    crate::subject::picking_again_changes_nothing(
        t.devices,
        t.selected,
        t.subject,
        t.cfg.low_battery_threshold,
    );
}

/// A fresh reading is listed, once, and nothing older of that device with it; no
/// other device is affected.
pub proof fn fresh_readings_are_listed(
    map: Map<Seq<char>, Reading>,
    reading: Reading,
    devices: Seq<Reading>,
    other: Seq<char>,
)
    requires
        is_roster(connected_after(map, Sighting::Update(reading)), devices),
        other != reading.device_key,
    ensures
        devices.contains(reading),
        forall|i: int|
            0 <= i < devices.len() && (#[trigger] devices[i]).device_key == reading.device_key
                ==> devices[i] == reading,
        connected_after(map, Sighting::Update(reading)).contains_key(other) == map.contains_key(
            other,
        ),
        map.contains_key(other) ==> connected_after(map, Sighting::Update(reading))[other]
            == map[other],
{
    let after = connected_after(map, Sighting::Update(reading));
    assert(after.contains_key(reading.device_key));
}

/// The devices of a receiver that is gone are not listed any more. Those of
/// every other receiver still are.
pub proof fn gone_receivers_leave_no_device(
    map: Map<Seq<char>, Reading>,
    pid: u16,
    devices: Seq<Reading>,
    other: u16,
    device_index: u8,
)
    requires
        is_roster(connected_after(map, Sighting::ReceiverGone(pid)), devices),
    ensures
        forall|i: int|
            0 <= i < devices.len() ==> (#[trigger] devices[i]).device_key != key_of(
                pid,
                device_index,
            ),
        other != pid && map.contains_key(key_of(other, device_index)) ==> devices.contains(
            map[key_of(other, device_index)],
        ),
{
    receivers_are_forgotten_alone(map, pid, other, device_index);
    receivers_are_forgotten_alone(map, pid, pid, device_index);
    let after = connected_after(map, Sighting::ReceiverGone(pid));
    if other != pid && map.contains_key(key_of(other, device_index)) {
        assert(after.contains_key(key_of(other, device_index)));
    }
}

/// In the automatic mode the icon speaks for a device whenever one is connected.
/// With a pinned device it speaks for that device or for none.
pub proof fn the_icon_speaks_for_the_choice(t: TrayState)
    ensures
        t.selected == AUTO_SUBJECT_ID@ && t.devices.len() > 0 ==> subject_now(t) is Some
            && look_now(t).image !is Neutral,
        t.selected != AUTO_SUBJECT_ID@ ==> match device_at(t.devices, subject_now(t)) {
            Some(device) => device.device_key == t.selected,
            None => look_now(t).status == shown(
                t.language,
                if t.devices.len() == 0 {
                    Text::NoDevicesFound
                } else {
                    Text::SelectedDeviceOffline
                },
            ),
        },
{
    automatic_subject_is_close_to_dying(t.devices, t.subject, t.cfg.low_battery_threshold);
    if t.selected != AUTO_SUBJECT_ID@ {
        pinned_device_is_followed(
            t.devices,
            t.selected,
            t.subject,
            t.cfg.low_battery_threshold,
        );
    }
}

/// Whether a release is to be announced.
pub open spec fn is_news(cfg: Settings, version: Version) -> bool {
    cfg.last_notified_update != tag_of(version)
}

/// A release is announced once, however often it is found, even over restarts:
/// the configuration remembers it. Another release is announced again.
pub proof fn releases_are_announced_once(cfg: Settings, version: Version, other: Version)
    ensures
        ({
            let noted = Settings { last_notified_update: tag_of(version), ..cfg };
            &&& !is_news(noted, version)
            &&& is_news(noted, other) <==> other != version
            &&& crate::config::settings_in(crate::config::fields_for(noted)).last_notified_update
                == tag_of(version)
        }),
{
    crate::update::tags_read_back(version);
    crate::update::tags_read_back(other);
}

/// A click changes the setting that it is for, to what was clicked, and what is in
/// force with it. It changes no other setting, and nothing of what is known of the
/// devices, the alerts that were shown, and the releases. The icon moves only with
/// the clicks that have it painted: those on the view mode, the threshold and a
/// device.
pub proof fn clicks_change_their_own_setting(t: TrayState, click: Click, checked: bool)
    ensures
        ({
            let after = after_click(t, click, checked);
            &&& after.language == t.language
            &&& after.available_update == t.available_update
            &&& after.device_map == t.device_map
            &&& after.devices == t.devices
            &&& after.alerts.language == t.alerts.language
            &&& after.alerts.last_sent == t.alerts.last_sent
            &&& after.cfg.language == t.cfg.language
            &&& after.cfg.log_level == t.cfg.log_level
            &&& after.cfg.last_notified_update == t.cfg.last_notified_update
            &&& after.cfg.autostart == (if click is Autostart {
                checked
            } else {
                t.cfg.autostart
            })
            &&& after.cfg.view_mode == (if click is ViewMode && checked {
                "text"@
            } else if click is ViewMode {
                "icon"@
            } else {
                t.cfg.view_mode
            })
            &&& after.text_mode == (if click is ViewMode {
                checked
            } else {
                t.text_mode
            })
            &&& after.cfg.notifications_enabled == (if click is Notify {
                checked
            } else {
                t.cfg.notifications_enabled
            })
            &&& after.alerts.enabled == (if click is Notify {
                checked
            } else {
                t.alerts.enabled
            })
            &&& after.cfg.check_for_updates == (if click is CheckUpdates {
                checked
            } else {
                t.cfg.check_for_updates
            })
            &&& after.cfg.poll_interval_seconds == (match click {
                Click::Poll(secs) => secs,
                _ => t.cfg.poll_interval_seconds,
            })
            &&& after.cfg.low_battery_threshold == (match click {
                Click::Threshold(percent) => percent,
                _ => t.cfg.low_battery_threshold,
            })
            &&& after.alerts.threshold == (match click {
                Click::Threshold(percent) => percent,
                _ => t.alerts.threshold,
            })
            &&& after.cfg.low_battery_cooldown_minutes == (match click {
                Click::Cooldown(minutes) => minutes,
                _ => t.cfg.low_battery_cooldown_minutes,
            })
            &&& click !is Cooldown ==> after.alerts.cooldown == t.alerts.cooldown
            &&& after.selected == (match click {
                Click::Device(key) => key,
                _ => t.selected,
            })
            &&& after.cfg.selected_device_id == (match click {
                Click::Device(key) => key,
                _ => t.cfg.selected_device_id,
            })
            &&& after.subject == (if click is ViewMode || click is Threshold || click is Device {
                match subject_of(
                    t.devices,
                    after.selected,
                    t.subject,
                    after.cfg.low_battery_threshold,
                ) {
                    Some(i) => Some(t.devices[i].device_key),
                    None => None,
                }
            } else {
                t.subject
            })
        }),
{
}

/// A cooldown that is chosen is in force at once, in minutes, and is a minute at
/// least.
pub proof fn cooldowns_come_into_force(t: TrayState, minutes: u64, checked: bool)
    requires
        minutes * 60 <= u64::MAX,
    ensures
        ({
            let cooldown = after_click(t, Click::Cooldown(minutes), checked).alerts.cooldown;
            &&& minutes > 0 ==> cooldown.nanos == minutes * 60_000_000_000
            &&& minutes == 0 ==> cooldown.nanos == 60_000_000_000
        }),
{
}

/// What a click leads to, in full: which deeds it brings, and that it brings none
/// twice. The application quits at the entry for it, after the workers were told.
pub proof fn clicks_lead_to_deeds(click: Click, checked: bool, look: Look, deed: Deed)
    ensures
        deeds_of_click(click, checked, look).contains(deed) <==> (match deed {
            Deed::Send(command) => match command {
                WorkerCommand::Refresh => click is Refresh,
                WorkerCommand::Exit => click is Exit,
                WorkerCommand::SetSafetyInterval(secs) => click == Click::Poll(secs),
            },
            Deed::TellChecker(CheckerCommand::SetEnabled(on)) => click is CheckUpdates && on
                == checked,
            Deed::SetAutostart(on) => click is Autostart && on == checked,
            Deed::SaveConfig => click is Autostart || click is ViewMode || click is Notify || click
                is CheckUpdates || click is Poll || click is Threshold || click is Cooldown || click
                is Device,
            Deed::Paint(shows) => shows == look && (click is ViewMode || click is Threshold || click
                is Device),
            Deed::ListDevices(_) => false,
            Deed::MarkPreset { prefix, value } => {
                ||| click == Click::Poll(value) && prefix == "poll"@
                ||| click == Click::Cooldown(value) && prefix == "cooldown"@
                ||| click matches Click::Threshold(percent) && percent == value && prefix
                    == "threshold"@
            },
            Deed::MarkDevice(key) => click == Click::Device(key),
            Deed::MarkLanguage(_) => false,
            Deed::BuildMenu(language) => click == Click::Language(language),
            Deed::OpenReleasePage => click is UpdateAvailable,
            Deed::OpenConfig => click is OpenConfig,
            Deed::Quit => click is Exit,
        }),
        deeds_of_click(click, checked, look).no_duplicates(),
        click is Exit ==> deeds_of_click(click, checked, look).last() is Quit,
{
    let list = deeds_of_click(click, checked, look);
    assert(list.len() <= 3);
    assert(list.contains(deed) <==> list.len() > 0 && list[0] == deed || list.len() > 1 && list[1]
        == deed || list.len() > 2 && list[2] == deed);
}

/// What the tray shows: for a device its level and color, as a number or as a
/// battery, with a line on the device; without one, a message that tells whether
/// any device is there.
pub proof fn the_tray_shows_the_subject(
    devices: Seq<Reading>,
    device: Reading,
    text_mode: bool,
    language: Language,
    threshold: u8,
)
    ensures
        ({
            let look = look_of(devices, Some(device), text_mode, language, threshold);
            let color = color_of(device.battery_percent, device.is_charging, threshold);
            let percent = device.battery_percent;
            &&& text_mode ==> look.image == Image::Number { percent, color }
            &&& !text_mode ==> look.image == Image::Glyph { percent, color }
            &&& look.status == crate::label::label_text(
                language,
                device.display_name,
                device.battery_percent,
                device.is_charging,
            )
            &&& look.tooltip == tooltip_of(language, device, devices)
        }),
        ({
            let look = look_of(devices, None, text_mode, language, threshold);
            &&& look.image is Neutral
            &&& look.tooltip == look.status
            &&& devices.len() == 0 ==> look.status == shown(language, Text::NoDevicesFound)
            &&& devices.len() > 0 ==> look.status == shown(language, Text::SelectedDeviceOffline)
        }),
{
}

/// The tray always shows the device that it is to speak for, in the mode, language
/// and colors in force, and remembers whom it speaks for; painting changes nothing
/// else.
pub proof fn the_tray_shows_what_is_in_force(t: TrayState)
    ensures
        ({
            let position = subject_of(
                t.devices,
                t.selected,
                t.subject,
                t.cfg.low_battery_threshold,
            );
            let after = painted(t);
            &&& position matches Some(i) ==> after.subject == Some(t.devices[i].device_key)
                && look_now(t) == look_of(
                t.devices,
                Some(t.devices[i]),
                t.text_mode,
                t.language,
                t.cfg.low_battery_threshold,
            )
            &&& position is None ==> after.subject is None && look_now(t) == look_of(
                t.devices,
                None,
                t.text_mode,
                t.language,
                t.cfg.low_battery_threshold,
            )
            &&& after.cfg == t.cfg
            &&& after.text_mode == t.text_mode
            &&& after.language == t.language
            &&& after.available_update == t.available_update
            &&& after.alerts == t.alerts
            &&& after.device_map == t.device_map
            &&& after.devices == t.devices
            &&& after.selected == t.selected
        }),
{
}

/// What is connected after an event: the device that was read, as it was read; not
/// the device that is gone; no device whose key starts with the number of the
/// receiver that is gone; and all others as they were.
pub proof fn events_tell_what_is_connected(
    map: Map<Seq<char>, Reading>,
    event: Sighting,
    key: Seq<char>,
)
    ensures
        ({
            let after = connected_after(map, event);
            match event {
                Sighting::Update(reading) => {
                    &&& after.contains_key(key) <==> map.contains_key(key) || key
                        == reading.device_key
                    &&& after.contains_key(key) ==> after[key] == (if key == reading.device_key {
                        reading
                    } else {
                        map[key]
                    })
                },
                Sighting::Gone(gone) => {
                    &&& after.contains_key(key) <==> map.contains_key(key) && key != gone
                    &&& after.contains_key(key) ==> after[key] == map[key]
                },
                Sighting::ReceiverGone(pid) => {
                    &&& after.contains_key(key) <==> map.contains_key(key) && !(key.len() >= 5
                        && key.take(4) == crate::text::hex4(pid, true) && key[4] == ':')
                    &&& after.contains_key(key) ==> after[key] == map[key]
                },
            }
        }),
{
    if let Sighting::ReceiverGone(pid) = event {
        let prefix = receiver_prefix(pid);
        if key.len() >= 5 {
            assert(key.take(5).take(4) == key.take(4));
            assert(key.take(5)[4] == key[4]);
            assert(prefix.take(4) == crate::text::hex4(pid, true));
            assert(prefix[4] == ':');
            if key.take(4) == crate::text::hex4(pid, true) && key[4] == ':' {
                assert(key.take(5) == prefix);
            }
        }
    }
}

/// An event changes what is connected and listed, and nothing else but what follows
/// from it: a reading may end the alerts about its device, and the first device is
/// chosen while none is.
pub proof fn events_change_the_devices_alone(t: TrayState, event: Sighting, devices: Seq<Reading>)
    ensures
        ({
            let after = changed_by_device(t, event, devices);
            &&& after.devices == devices
            &&& after.device_map == connected_after(t.device_map, event)
            &&& event matches Sighting::Update(reading) ==> after.alerts == alerts_after_reading(
                t.alerts,
                reading,
            )
            &&& event !is Update ==> after.alerts == t.alerts
            &&& t.selected.len() > 0 || devices.len() == 0 ==> after.selected == t.selected
            &&& t.selected.len() == 0 && devices.len() > 0 ==> after.selected
                == devices[0].device_key
            &&& after.cfg == (Settings { selected_device_id: after.selected, ..t.cfg })
            &&& after.text_mode == t.text_mode
            &&& after.language == t.language
            &&& after.available_update == t.available_update
            &&& after.subject == t.subject
        }),
{
}

/// Every event has the devices listed and the tray painted, in this order, with the
/// selection in force; before that the configuration is saved exactly if a device
/// was chosen.
pub proof fn events_are_shown(t: TrayState, event: Sighting, devices: Seq<Reading>)
    ensures
        ({
            let changed = changed_by_device(t, event, devices);
            let list = deeds_of_device(t, changed);
            let chosen = t.selected.len() == 0 && devices.len() > 0;
            &&& list.len() == (if chosen {
                3
            } else {
                2int
            })
            &&& chosen ==> list[0] == Deed::SaveConfig
            &&& list[list.len() - 2] == Deed::ListDevices(
                device_lines(t.language, devices, changed.selected),
            )
            &&& list.last() == Deed::Paint(look_now(changed))
        }),
{
}

/// Another language changes the language of the menu and of the alerts, and the
/// choice of it; it changes nothing else.
pub proof fn languages_change_alone(t: TrayState, choice: Language, language: Language)
    ensures
        ({
            let after = changed_by_language(t, choice, language);
            &&& after.language == language
            &&& after.alerts.language == language
            &&& after.cfg.language == choice
            &&& Settings { language: t.cfg.language, ..after.cfg } == t.cfg
            &&& Alerts { language: t.alerts.language, ..after.alerts } == t.alerts
            &&& after.text_mode == t.text_mode
            &&& after.available_update == t.available_update
            &&& after.device_map == t.device_map
            &&& after.devices == t.devices
            &&& after.selected == t.selected
            &&& after.subject == t.subject
        }),
{
}

/// The application starts with what the configuration says in force, and with
/// nothing known of devices, alerts and releases.
pub proof fn the_configuration_is_in_force_at_the_start(cfg: Settings, language: Language)
    ensures
        ({
            let t = initial(cfg, language);
            &&& t.cfg == cfg
            &&& t.selected == cfg.selected_device_id
            &&& t.language == language && t.alerts.language == language
            &&& t.alerts.enabled == cfg.notifications_enabled
            &&& t.alerts.threshold == cfg.low_battery_threshold
            &&& 0 < cfg.low_battery_cooldown_minutes && cfg.low_battery_cooldown_minutes * 60
                <= u64::MAX ==> t.alerts.cooldown.nanos == cfg.low_battery_cooldown_minutes
                * 60_000_000_000
            &&& t.alerts.last_sent.dom() == Set::<Seq<char>>::empty()
            &&& t.device_map.dom() == Set::<Seq<char>>::empty()
            &&& t.devices.len() == 0
            &&& t.available_update is None
            &&& t.subject is None
        }),
{
}

} // verus!
