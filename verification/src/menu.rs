//! The tray menu: what stands in it, what is checked, and what a click means.

use vstd::prelude::*;
use vstd::string::*;

use crate::config::{AppConfig, Settings, AUTO_SUBJECT_ID};
use crate::cut::{prefix_comes_off, strip, stripped};
use crate::i18n::{resolved, shown, written, Language, Text};
use crate::label::{label_of, state_label, update_label, update_text};
use crate::model::{readings, BatteryState, Reading};
use crate::text::{
    chars_of, decimal, decimal_reads_back, parse_number, parsed_number, push_decimal, same_text,
};
use crate::update::Version;

verus! {

// ---------------------------------------------------------------------------
// Entries
// ---------------------------------------------------------------------------

/// An entry that is checked or not.
#[derive(Debug)]
pub struct CheckEntry {
    pub id: String,
    pub label: String,
    pub checked: bool,
}

/// A [`CheckEntry`] with its texts seen as character sequences.
#[verifier::ext_equal]
pub struct Choice {
    pub id: Seq<char>,
    pub label: Seq<char>,
    pub checked: bool,
}

impl View for CheckEntry {
    type V = Choice;

    open spec fn view(&self) -> Choice {
        Choice { id: self.id@, label: self.label@, checked: self.checked }
    }
}

/// A list of entries, seen as a sequence.
pub open spec fn choices(list: Seq<CheckEntry>) -> Seq<Choice> {
    Seq::new(list.len(), |i: int| list[i]@)
}

/// A line of the menu.
#[derive(Debug)]
pub enum MenuEntry {
    /// A text that cannot be clicked.
    Line { label: String },
    /// The submenu of devices, which changes with the devices.
    Devices { label: String },
    /// An entry that does something.
    Item { id: String, label: String },
    Check { entry: CheckEntry },
    /// A submenu of which one entry is checked.
    Choices { label: String, entries: Vec<CheckEntry> },
    Separator,
}

/// A [`MenuEntry`] with its texts seen as character sequences.
#[verifier::ext_equal]
pub enum Entry {
    Line { label: Seq<char> },
    Devices { label: Seq<char> },
    Item { id: Seq<char>, label: Seq<char> },
    Check { entry: Choice },
    Choices { label: Seq<char>, entries: Seq<Choice> },
    Separator,
}

impl View for MenuEntry {
    type V = Entry;

    open spec fn view(&self) -> Entry {
        match *self {
            MenuEntry::Line { label } => Entry::Line { label: label@ },
            MenuEntry::Devices { label } => Entry::Devices { label: label@ },
            MenuEntry::Item { id, label } => Entry::Item { id: id@, label: label@ },
            MenuEntry::Check { entry } => Entry::Check { entry: entry@ },
            MenuEntry::Choices { label, entries } => Entry::Choices {
                label: label@,
                entries: choices(entries@),
            },
            MenuEntry::Separator => Entry::Separator,
        }
    }
}

/// A list of lines, seen as a sequence.
pub open spec fn entries(list: Seq<MenuEntry>) -> Seq<Entry> {
    Seq::new(list.len(), |i: int| list[i]@)
}

// ---------------------------------------------------------------------------
// Presets
// ---------------------------------------------------------------------------

/// The intervals on offer for the safety re-read, in seconds.
pub open spec fn poll_presets() -> Seq<(Text, u64)> {
    seq![
        (Text::Seconds15, 15),
        (Text::Seconds30, 30),
        (Text::Minute1, 60),
        (Text::Minutes2, 120),
        (Text::Minutes3, 180),
        (Text::Minutes5, 300),
        (Text::Minutes15, 900),
    ]
}

/// The alert thresholds on offer, in percent.
pub open spec fn threshold_presets() -> Seq<u8> {
    seq![5, 10, 15, 20, 25, 30]
}

/// The cooldowns on offer, in minutes.
pub open spec fn cooldown_presets() -> Seq<(Text, u64)> {
    seq![
        (Text::Minutes30, 30),
        (Text::Hour1, 60),
        (Text::Hours2, 120),
        (Text::Hours4, 240),
        (Text::Hours8, 480),
    ]
}

/// The languages on offer.
pub open spec fn language_choices() -> Seq<Language> {
    seq![Language::Auto, Language::English, Language::SimplifiedChinese]
}

/// The labels and values of presets that have a text.
pub open spec fn labelled(language: Language, presets: Seq<(Text, u64)>) -> Seq<(Seq<char>, u64)> {
    Seq::new(presets.len(), |i: int| (shown(language, presets[i].0), presets[i].1))
}

/// The labels and values of the thresholds.
pub open spec fn percentages(presets: Seq<u8>) -> Seq<(Seq<char>, u64)> {
    Seq::new(presets.len(), |i: int| (decimal(presets[i] as nat) + "%"@, presets[i] as u64))
}

/// The id of the preset with a given value.
pub open spec fn preset_id(prefix: Seq<char>, value: u64) -> Seq<char> {
    prefix + ":"@ + decimal(value as nat)
}

/// The entries for a list of presets; those with the current value are checked.
pub open spec fn preset_choices(
    prefix: Seq<char>,
    presets: Seq<(Seq<char>, u64)>,
    current: u64,
) -> Seq<Choice> {
    Seq::new(
        presets.len(),
        |i: int|
            Choice {
                id: preset_id(prefix, presets[i].1),
                label: presets[i].0,
                checked: presets[i].1 == current,
            },
    )
}

fn poll_table() -> (presets: Vec<(Text, u64)>)
    ensures
        presets@ == poll_presets(),
{
    let mut presets: Vec<(Text, u64)> = Vec::new();
    presets.push((Text::Seconds15, 15));
    presets.push((Text::Seconds30, 30));
    presets.push((Text::Minute1, 60));
    presets.push((Text::Minutes2, 120));
    presets.push((Text::Minutes3, 180));
    presets.push((Text::Minutes5, 300));
    presets.push((Text::Minutes15, 900));
    presets
}

fn threshold_table() -> (presets: Vec<u8>)
    ensures
        presets@ == threshold_presets(),
{
    let mut presets: Vec<u8> = Vec::new();
    presets.push(5);
    presets.push(10);
    presets.push(15);
    presets.push(20);
    presets.push(25);
    presets.push(30);
    presets
}

fn cooldown_table() -> (presets: Vec<(Text, u64)>)
    ensures
        presets@ == cooldown_presets(),
{
    let mut presets: Vec<(Text, u64)> = Vec::new();
    presets.push((Text::Minutes30, 30));
    presets.push((Text::Hour1, 60));
    presets.push((Text::Hours2, 120));
    presets.push((Text::Hours4, 240));
    presets.push((Text::Hours8, 480));
    presets
}

/// Labels and values, with the labels seen as character sequences.
pub open spec fn labels_of(list: Seq<(String, u64)>) -> Seq<(Seq<char>, u64)> {
    Seq::new(list.len(), |i: int| (list[i].0@, list[i].1))
}

fn label_presets(language: Language, presets: &[(Text, u64)]) -> (labels: Vec<(String, u64)>)
    ensures
        labels_of(labels@) == labelled(language, presets@),
{
    let mut labels: Vec<(String, u64)> = Vec::new();
    let mut i: usize = 0;
    while i < presets.len()
        invariant
            i <= presets@.len(),
            labels_of(labels@) == labelled(language, presets@.take(i as int)),
        decreases presets@.len() - i,
    {
        let ghost before = labels_of(labels@);
        labels.push((language.text(presets[i].0).to_string(), presets[i].1));
        i = i + 1;
        assert(labels_of(labels@) == before.push(
            (shown(language, presets@[i - 1].0), presets@[i - 1].1),
        ));
        assert(labels_of(labels@) == labelled(language, presets@.take(i as int)));
    }
    assert(presets@.take(i as int) == presets@);
    labels
}

fn label_percentages(presets: &[u8]) -> (labels: Vec<(String, u64)>)
    ensures
        labels_of(labels@) == percentages(presets@),
{
    let mut labels: Vec<(String, u64)> = Vec::new();
    let mut i: usize = 0;
    while i < presets.len()
        invariant
            i <= presets@.len(),
            labels_of(labels@) == percentages(presets@.take(i as int)),
        decreases presets@.len() - i,
    {
        let ghost before = labels_of(labels@);
        let mut label = String::new();
        push_decimal(&mut label, presets[i] as u64);
        label.append("%");
        assert(label@ == decimal(presets@[i as int] as nat) + "%"@);
        labels.push((label, presets[i] as u64));
        i = i + 1;
        assert(labels_of(labels@) == before.push(
            (decimal(presets@[i - 1] as nat) + "%"@, presets@[i - 1] as u64),
        ));
        assert(labels_of(labels@) == percentages(presets@.take(i as int)));
    }
    assert(presets@.take(i as int) == presets@);
    labels
}

fn id_of_preset(prefix: &str, value: u64) -> (id: String)
    ensures
        id@ == preset_id(prefix@, value),
{
    let mut id = prefix.to_string();
    id.append(":");
    push_decimal(&mut id, value);
    id
}

/// The entries of a submenu of presets.
pub fn build_preset_submenu(prefix: &str, presets: Vec<(String, u64)>, current: u64) -> (items: Vec<
    CheckEntry,
>)
    ensures
        choices(items@) == preset_choices(prefix@, labels_of(presets@), current),
{
    let mut items: Vec<CheckEntry> = Vec::new();
    let mut i: usize = 0;
    let ghost all = labels_of(presets@);
    while i < presets.len()
        invariant
            i <= presets@.len(),
            all == labels_of(presets@),
            choices(items@) == preset_choices(prefix@, all.take(i as int), current),
        decreases presets@.len() - i,
    {
        let ghost before = choices(items@);
        let entry = CheckEntry {
            id: id_of_preset(prefix, presets[i].1),
            label: presets[i].0.clone(),
            checked: presets[i].1 == current,
        };
        let ghost choice = entry@;
        items.push(entry);
        i = i + 1;
        assert(choices(items@) == before.push(choice));
        assert(choices(items@) == preset_choices(prefix@, all.take(i as int), current));
    }
    assert(all.take(i as int) == all);
    items
}

/// Whether the preset entry with a given id is checked when `value` is current.
pub fn preset_is_checked(id: &str, prefix: &str, value: u64) -> (checked: bool)
    ensures
        checked == (id@ == preset_id(prefix@, value)),
{
    same_text(id, id_of_preset(prefix, value).as_str())
}

// ---------------------------------------------------------------------------
// Languages
// ---------------------------------------------------------------------------

/// The id of the entry for a language.
pub open spec fn language_id(choice: Language) -> Seq<char> {
    "language:"@ + written(choice)
}

/// What a language is called in the menu. Languages are named in themselves.
pub open spec fn language_name(language: Language, choice: Language) -> Seq<char> {
    match choice {
        Language::Auto => shown(language, Text::Automatic),
        Language::English => "English"@,
        Language::SimplifiedChinese => "简体中文"@,
    }
}

/// The entry for a language.
pub open spec fn language_choice(
    language: Language,
    choice: Language,
    current: Language,
) -> Choice {
    Choice {
        id: language_id(choice),
        label: language_name(language, choice),
        checked: choice == current,
    }
}

/// The entries of the language submenu.
pub open spec fn language_entries(language: Language, current: Language) -> Seq<Choice> {
    Seq::new(
        language_choices().len(),
        |i: int| language_choice(language, language_choices()[i], current),
    )
}

fn id_of_language(choice: Language) -> (id: String)
    ensures
        id@ == language_id(choice),
{
    let mut id = "language:".to_string();
    id.append(choice.to_config());
    id
}

fn build_language(language: Language, choice: Language, current: Language) -> (entry: CheckEntry)
    ensures
        entry@ == language_choice(language, choice, current),
{
    let label = match choice {
        Language::Auto => language.text(Text::Automatic),
        Language::English => "English",
        Language::SimplifiedChinese => "简体中文",
    };
    CheckEntry {
        id: id_of_language(choice),
        label: label.to_string(),
        checked: choice == current,
    }
}

fn build_languages(language: Language, current: Language) -> (items: Vec<CheckEntry>)
    ensures
        choices(items@) == language_entries(language, current),
{
    let mut items: Vec<CheckEntry> = Vec::new();
    items.push(build_language(language, Language::Auto, current));
    items.push(build_language(language, Language::English, current));
    items.push(build_language(language, Language::SimplifiedChinese, current));
    assert(choices(items@) =~= language_entries(language, current));
    items
}

/// Whether the language entry with a given id is checked when `current` is the
/// choice in the configuration.
pub fn language_is_checked(id: &str, current: Language) -> (checked: bool)
    ensures
        checked == (id@ == language_id(current)),
{
    same_text(id, id_of_language(current).as_str())
}

/// The language that the rest of an id stands for.
pub open spec fn language_for(id: Seq<char>) -> Option<Language> {
    if id == "auto"@ {
        Some(Language::Auto)
    } else if id == "en"@ {
        Some(Language::English)
    } else if id == "zh-CN"@ {
        Some(Language::SimplifiedChinese)
    } else {
        None
    }
}

/// The language that the rest of an id stands for. Unlike in the configuration,
/// an unknown one stands for none.
pub fn language_for_id(id: &str) -> (language: Option<Language>)
    ensures
        language == language_for(id@),
{
    if same_text(id, "auto") {
        Some(Language::Auto)
    } else if same_text(id, "en") {
        Some(Language::English)
    } else if same_text(id, "zh-CN") {
        Some(Language::SimplifiedChinese)
    } else {
        None
    }
}

// ---------------------------------------------------------------------------
// The whole menu
// ---------------------------------------------------------------------------

/// The lines of the menu, in a language, for given settings.
pub open spec fn menu_lines(
    language: Language,
    settings: Settings,
    autostart: bool,
    text_mode: bool,
) -> Seq<Entry> {
    seq![
        Entry::Line { label: shown(language, Text::NoDevicesFound) },
        Entry::Devices { label: shown(language, Text::SelectDevice) },
        Entry::Item { id: "refresh"@, label: shown(language, Text::Refresh) },
        Entry::Separator,
        checked_line("viewmode"@, shown(language, Text::TextMode), text_mode),
        Entry::Choices {
            label: shown(language, Text::Language),
            entries: language_entries(language, settings.language),
        },
        Entry::Choices {
            label: shown(language, Text::PollInterval),
            entries: preset_choices(
                "poll"@,
                labelled(language, poll_presets()),
                settings.poll_interval_seconds,
            ),
        },
        checked_line(
            "notify"@,
            shown(language, Text::Notifications),
            settings.notifications_enabled,
        ),
        Entry::Choices {
            label: shown(language, Text::Threshold),
            entries: preset_choices(
                "threshold"@,
                percentages(threshold_presets()),
                settings.low_battery_threshold as u64,
            ),
        },
        Entry::Choices {
            label: shown(language, Text::Cooldown),
            entries: preset_choices(
                "cooldown"@,
                labelled(language, cooldown_presets()),
                settings.low_battery_cooldown_minutes,
            ),
        },
        checked_line("autostart"@, shown(language, Text::Autostart), autostart),
        checked_line(
            "checkupdates"@,
            shown(language, Text::CheckForUpdates),
            settings.check_for_updates,
        ),
        Entry::Separator,
        Entry::Item { id: "openconfig"@, label: shown(language, Text::OpenConfig) },
        Entry::Separator,
        Entry::Item { id: "exit"@, label: shown(language, Text::Exit) },
    ]
}

/// A line that is checked or not.
pub open spec fn checked_line(id: Seq<char>, label: Seq<char>, checked: bool) -> Entry {
    Entry::Check { entry: Choice { id, label, checked } }
}

/// The menu.
#[derive(Debug)]
pub struct MenuLayout {
    /// The language that it is in.
    pub language: Language,
    pub lines: Vec<MenuEntry>,
}

fn item(language: Language, id: &str, text: Text) -> (line: MenuEntry)
    ensures
        line@ == (Entry::Item { id: id@, label: shown(language, text) }),
{
    MenuEntry::Item { id: id.to_string(), label: language.text(text).to_string() }
}

fn check(language: Language, id: &str, text: Text, checked: bool) -> (line: MenuEntry)
    ensures
        line@ == checked_line(id@, shown(language, text), checked),
{
    MenuEntry::Check {
        entry: CheckEntry { id: id.to_string(), label: language.text(text).to_string(), checked },
    }
}

fn submenu(language: Language, text: Text, items: Vec<CheckEntry>) -> (line: MenuEntry)
    ensures
        line@ == (Entry::Choices { label: shown(language, text), entries: choices(items@) }),
{
    MenuEntry::Choices { label: language.text(text).to_string(), entries: items }
}

impl MenuLayout {
    /// The menu for a configuration. `ui_language` is the id of the language that
    /// Windows uses; other systems have none.
    pub fn build(
        cfg: &AppConfig,
        ui_language: Option<u16>,
        initial_autostart: bool,
        initial_text_mode: bool,
    ) -> (menu: Self)
        ensures
            menu.language == resolved(
                cfg@.language,
                if ui_language is Some {
                    ui_language->0
                } else {
                    0
                },
            ),
            entries(menu.lines@) == menu_lines(
                menu.language,
                cfg@,
                initial_autostart,
                initial_text_mode,
            ),
    {
        let language = cfg.language.resolve(ui_language);
        let polls = build_preset_submenu(
            "poll",
            label_presets(language, &poll_table()),
            cfg.poll_interval_seconds,
        );
        let thresholds = build_preset_submenu(
            "threshold",
            label_percentages(&threshold_table()),
            cfg.low_battery_threshold as u64,
        );
        let cooldowns = build_preset_submenu(
            "cooldown",
            label_presets(language, &cooldown_table()),
            cfg.low_battery_cooldown_minutes,
        );
        let mut lines: Vec<MenuEntry> = Vec::new();
        lines.push(MenuEntry::Line { label: language.text(Text::NoDevicesFound).to_string() });
        lines.push(MenuEntry::Devices { label: language.text(Text::SelectDevice).to_string() });
        lines.push(item(language, "refresh", Text::Refresh));
        lines.push(MenuEntry::Separator);
        lines.push(check(language, "viewmode", Text::TextMode, initial_text_mode));
        lines.push(submenu(language, Text::Language, build_languages(language, cfg.language)));
        lines.push(submenu(language, Text::PollInterval, polls));
        lines.push(check(language, "notify", Text::Notifications, cfg.notifications_enabled));
        lines.push(submenu(language, Text::Threshold, thresholds));
        lines.push(submenu(language, Text::Cooldown, cooldowns));
        lines.push(check(language, "autostart", Text::Autostart, initial_autostart));
        lines.push(check(language, "checkupdates", Text::CheckForUpdates, cfg.check_for_updates));
        lines.push(MenuEntry::Separator);
        lines.push(item(language, "openconfig", Text::OpenConfig));
        lines.push(MenuEntry::Separator);
        lines.push(item(language, "exit", Text::Exit));
        assert(entries(lines@) =~= menu_lines(
            language,
            cfg@,
            initial_autostart,
            initial_text_mode,
        ));
        MenuLayout { language, lines }
    }
}

/// Where the entry for a newer release goes: directly under the status line.
pub const UPDATE_POSITION: usize = 1;

/// The entry for a newer release.
pub open spec fn update_line(language: Language, version: Version) -> Entry {
    Entry::Item { id: "updateavailable"@, label: update_text(language, version) }
}

/// The entry for a newer release.
pub fn show_update(language: Language, version: Version) -> (line: MenuEntry)
    ensures
        line@ == update_line(language, version),
{
    MenuEntry::Item { id: "updateavailable".to_string(), label: update_label(language, version) }
}

// ---------------------------------------------------------------------------
// The device submenu
// ---------------------------------------------------------------------------

/// The id of the entry for a device, or for the automatic mode.
pub open spec fn device_id(key: Seq<char>) -> Seq<char> {
    "device:"@ + key
}

/// The line for a device.
pub open spec fn device_line(language: Language, device: Reading, selected: Seq<char>) -> Entry {
    checked_line(
        device_id(device.device_key),
        label_of(language, device),
        device.device_key == selected,
    )
}

/// The lines of the device submenu. The automatic mode is on offer even when
/// nothing is connected.
pub open spec fn device_lines(
    language: Language,
    devices: Seq<Reading>,
    selected: Seq<char>,
) -> Seq<Entry> {
    seq![
        checked_line(
            device_id(AUTO_SUBJECT_ID@),
            shown(language, Text::AutomaticLowest),
            selected == AUTO_SUBJECT_ID@,
        ),
        Entry::Separator,
    ] + (if devices.len() == 0 {
        seq![Entry::Line { label: shown(language, Text::NoDevices) }]
    } else {
        Seq::new(devices.len(), |i: int| device_line(language, devices[i], selected))
    })
}

fn id_of_device(key: &str) -> (id: String)
    ensures
        id@ == device_id(key@),
{
    let mut id = "device:".to_string();
    id.append(key);
    id
}

/// The lines of the device submenu.
pub fn rebuild_device_menu(language: Language, devices: &[BatteryState], selected_id: &str) -> (lines:
    Vec<MenuEntry>)
    ensures
        entries(lines@) == device_lines(language, readings(devices@), selected_id@),
{
    let ghost all = readings(devices@);
    let mut lines: Vec<MenuEntry> = Vec::new();
    lines.push(
        MenuEntry::Check {
            entry: CheckEntry {
                id: id_of_device(AUTO_SUBJECT_ID),
                label: language.text(Text::AutomaticLowest).to_string(),
                checked: same_text(selected_id, AUTO_SUBJECT_ID),
            },
        },
    );
    lines.push(MenuEntry::Separator);
    let ghost top = entries(lines@);
    if devices.len() == 0 {
        lines.push(MenuEntry::Line { label: language.text(Text::NoDevices).to_string() });
        assert(entries(lines@) =~= device_lines(language, all, selected_id@));
        return lines;
    }
    let mut i: usize = 0;
    while i < devices.len()
        invariant
            i <= devices@.len(),
            all == readings(devices@),
            entries(lines@) == top + Seq::new(
                i as nat,
                |j: int| device_line(language, all[j], selected_id@),
            ),
        decreases devices@.len() - i,
    {
        let ghost before = entries(lines@);
        let line = MenuEntry::Check {
            entry: CheckEntry {
                id: id_of_device(devices[i].device_key.as_str()),
                label: state_label(language, &devices[i]),
                checked: same_text(devices[i].device_key.as_str(), selected_id),
            },
        };
        assert(line@ == device_line(language, all[i as int], selected_id@));
        let ghost shown_line = line@;
        lines.push(line);
        i = i + 1;
        assert(entries(lines@) =~= before.push(shown_line));
    }
    assert(entries(lines@) =~= device_lines(language, all, selected_id@));
    lines
}

/// Whether the device entry with a given id is checked.
pub fn device_is_checked(id: &str, selected_id: &str) -> (checked: bool)
    ensures
        checked == (stripped(id@, "device:"@) == Some(selected_id@)),
{
    match strip(id, "device:") {
        Some(key) => same_text(key.as_str(), selected_id),
        None => false,
    }
}

// ---------------------------------------------------------------------------
// Clicks
// ---------------------------------------------------------------------------

/// What a click asks for.
#[derive(Debug)]
pub enum MenuCommand {
    Refresh,
    Exit,
    Autostart,
    ViewMode,
    Notify,
    Language(Language),
    CheckUpdates,
    UpdateAvailable,
    OpenConfig,
    Poll(u64),
    Threshold(u8),
    Cooldown(u64),
    Device(String),
    /// Nothing that is known.
    Ignored,
}

/// A [`MenuCommand`] with its text seen as a character sequence.
#[verifier::ext_equal]
pub enum Click {
    Refresh,
    Exit,
    Autostart,
    ViewMode,
    Notify,
    Language(Language),
    CheckUpdates,
    UpdateAvailable,
    OpenConfig,
    Poll(u64),
    Threshold(u8),
    Cooldown(u64),
    Device(Seq<char>),
    Ignored,
}

impl View for MenuCommand {
    type V = Click;

    open spec fn view(&self) -> Click {
        match *self {
            MenuCommand::Refresh => Click::Refresh,
            MenuCommand::Exit => Click::Exit,
            MenuCommand::Autostart => Click::Autostart,
            MenuCommand::ViewMode => Click::ViewMode,
            MenuCommand::Notify => Click::Notify,
            MenuCommand::Language(language) => Click::Language(language),
            MenuCommand::CheckUpdates => Click::CheckUpdates,
            MenuCommand::UpdateAvailable => Click::UpdateAvailable,
            MenuCommand::OpenConfig => Click::OpenConfig,
            MenuCommand::Poll(secs) => Click::Poll(secs),
            MenuCommand::Threshold(percent) => Click::Threshold(percent),
            MenuCommand::Cooldown(minutes) => Click::Cooldown(minutes),
            MenuCommand::Device(key) => Click::Device(key@),
            MenuCommand::Ignored => Click::Ignored,
        }
    }
}

/// The number behind a prefix, if an id has that prefix.
pub open spec fn number_behind(id: Seq<char>, prefix: Seq<char>, max: nat) -> Option<nat> {
    match stripped(id, prefix) {
        Some(rest) => parsed_number(rest, max),
        None => None,
    }
}

/// What a click on the entry with a given id asks for.
pub open spec fn click_on(id: Seq<char>) -> Click {
    if id == "refresh"@ {
        Click::Refresh
    } else if id == "exit"@ {
        Click::Exit
    } else if id == "autostart"@ {
        Click::Autostart
    } else if id == "viewmode"@ {
        Click::ViewMode
    } else if id == "notify"@ {
        Click::Notify
    } else if stripped(id, "language:"@) is Some {
        match language_for(stripped(id, "language:"@)->0) {
            Some(language) => Click::Language(language),
            None => Click::Ignored,
        }
    } else if id == "checkupdates"@ {
        Click::CheckUpdates
    } else if id == "updateavailable"@ {
        Click::UpdateAvailable
    } else if id == "openconfig"@ {
        Click::OpenConfig
    } else if stripped(id, "poll:"@) is Some {
        match number_behind(id, "poll:"@, u64::MAX as nat) {
            Some(secs) => Click::Poll(secs as u64),
            None => Click::Ignored,
        }
    } else if stripped(id, "threshold:"@) is Some {
        match number_behind(id, "threshold:"@, u8::MAX as nat) {
            Some(percent) => Click::Threshold(percent as u8),
            None => Click::Ignored,
        }
    } else if stripped(id, "cooldown:"@) is Some {
        match number_behind(id, "cooldown:"@, u64::MAX as nat) {
            Some(minutes) => Click::Cooldown(minutes as u64),
            None => Click::Ignored,
        }
    } else {
        match stripped(id, "device:"@) {
            Some(key) => Click::Device(key),
            None => Click::Ignored,
        }
    }
}

/// What a click on the entry with a given id asks for.
pub fn menu_command(id: &str) -> (command: MenuCommand)
    ensures
        command@ == click_on(id@),
{
    if same_text(id, "refresh") {
        MenuCommand::Refresh
    } else if same_text(id, "exit") {
        MenuCommand::Exit
    } else if same_text(id, "autostart") {
        MenuCommand::Autostart
    } else if same_text(id, "viewmode") {
        MenuCommand::ViewMode
    } else if same_text(id, "notify") {
        MenuCommand::Notify
    } else if let Some(rest) = strip(id, "language:") {
        match language_for_id(rest.as_str()) {
            Some(language) => MenuCommand::Language(language),
            None => MenuCommand::Ignored,
        }
    } else if same_text(id, "checkupdates") {
        MenuCommand::CheckUpdates
    } else if same_text(id, "updateavailable") {
        MenuCommand::UpdateAvailable
    } else if same_text(id, "openconfig") {
        MenuCommand::OpenConfig
    } else if let Some(rest) = strip(id, "poll:") {
        match parse_number(&chars_of(rest.as_str()), u64::MAX) {
            Some(secs) => MenuCommand::Poll(secs),
            None => MenuCommand::Ignored,
        }
    } else if let Some(rest) = strip(id, "threshold:") {
        match parse_number(&chars_of(rest.as_str()), 255) {
            Some(percent) => MenuCommand::Threshold(percent as u8),
            None => MenuCommand::Ignored,
        }
    } else if let Some(rest) = strip(id, "cooldown:") {
        match parse_number(&chars_of(rest.as_str()), u64::MAX) {
            Some(minutes) => MenuCommand::Cooldown(minutes),
            None => MenuCommand::Ignored,
        }
    } else if let Some(key) = strip(id, "device:") {
        MenuCommand::Device(key)
    } else {
        MenuCommand::Ignored
    }
}

// ---------------------------------------------------------------------------
// What the menu promises
// ---------------------------------------------------------------------------

/// Every entry of the menu does what it stands for: its id is taken for the
/// command that it was made for, with the value that was written into it.
pub proof fn clicks_do_what_they_say(
    language: Language,
    secs: u64,
    percent: u8,
    minutes: u64,
    key: Seq<char>,
)
    ensures
        click_on("refresh"@) == Click::Refresh,
        click_on("exit"@) == Click::Exit,
        click_on("autostart"@) == Click::Autostart,
        click_on("viewmode"@) == Click::ViewMode,
        click_on("notify"@) == Click::Notify,
        click_on("checkupdates"@) == Click::CheckUpdates,
        click_on("updateavailable"@) == Click::UpdateAvailable,
        click_on("openconfig"@) == Click::OpenConfig,
        click_on(language_id(language)) == Click::Language(language),
        click_on(preset_id("poll"@, secs)) == Click::Poll(secs),
        click_on(preset_id("threshold"@, percent as u64)) == Click::Threshold(percent),
        click_on(preset_id("cooldown"@, minutes)) == Click::Cooldown(minutes),
        click_on(device_id(key)) == Click::Device(key),
{
    reveal_ids();
    assert("autostart"@[0] == 'a' && "viewmode"@[0] == 'v' && "notify"@[0] == 'n');
    assert("refresh"@[0] == 'r' && "exit"@[0] == 'e');
    assert("language:"@[0] == 'l' && "device:"@[0] == 'd');
    assert("checkupdates"@[0] == 'c' && "checkupdates"@[1] == 'h');
    assert("cooldown:"@[0] == 'c' && "cooldown:"@[1] == 'o');
    assert("updateavailable"@[0] == 'u' && "openconfig"@[0] == 'o');
    assert("poll:"@[0] == 'p' && "threshold:"@[0] == 't');
    languages_are_told_apart(language);
    prefix_comes_off("language:"@, written(language));
    prefix_comes_off("device:"@, key);
    decimal_reads_back(secs as nat);
    decimal_reads_back(percent as nat);
    decimal_reads_back(minutes as nat);
    assert("poll"@ + ":"@ == "poll:"@);
    assert("threshold"@ + ":"@ == "threshold:"@);
    assert("cooldown"@ + ":"@ == "cooldown:"@);
    prefix_comes_off("poll:"@, decimal(secs as nat));
    prefix_comes_off("threshold:"@, decimal(percent as nat));
    prefix_comes_off("cooldown:"@, decimal(minutes as nat));
    first_letters_matter(language_id(language));
    first_letters_matter(preset_id("poll"@, secs));
    first_letters_matter(preset_id("threshold"@, percent as u64));
    first_letters_matter(preset_id("cooldown"@, minutes));
    first_letters_matter(device_id(key));
    first_letters_matter("checkupdates"@);
    first_letters_matter("updateavailable"@);
    first_letters_matter("openconfig"@);
}

proof fn reveal_ids()
    ensures
        "refresh"@ == seq!['r', 'e', 'f', 'r', 'e', 's', 'h'],
        "exit"@ == seq!['e', 'x', 'i', 't'],
        "autostart"@ == seq!['a', 'u', 't', 'o', 's', 't', 'a', 'r', 't'],
        "viewmode"@ == seq!['v', 'i', 'e', 'w', 'm', 'o', 'd', 'e'],
        "notify"@ == seq!['n', 'o', 't', 'i', 'f', 'y'],
        "language:"@ == seq!['l', 'a', 'n', 'g', 'u', 'a', 'g', 'e', ':'],
        "checkupdates"@ == seq!['c', 'h', 'e', 'c', 'k', 'u', 'p', 'd', 'a', 't', 'e', 's'],
        "updateavailable"@[0] == 'u' && "updateavailable"@.len() == 15,
        "openconfig"@ == seq!['o', 'p', 'e', 'n', 'c', 'o', 'n', 'f', 'i', 'g'],
        "poll:"@ == seq!['p', 'o', 'l', 'l', ':'],
        "poll"@ == seq!['p', 'o', 'l', 'l'],
        "threshold:"@ == seq!['t', 'h', 'r', 'e', 's', 'h', 'o', 'l', 'd', ':'],
        "threshold"@ == seq!['t', 'h', 'r', 'e', 's', 'h', 'o', 'l', 'd'],
        "cooldown:"@ == seq!['c', 'o', 'o', 'l', 'd', 'o', 'w', 'n', ':'],
        "cooldown"@ == seq!['c', 'o', 'o', 'l', 'd', 'o', 'w', 'n'],
        "device:"@ == seq!['d', 'e', 'v', 'i', 'c', 'e', ':'],
        ":"@ == seq![':'],
{
    reveal_strlit("refresh");
    reveal_strlit("exit");
    reveal_strlit("autostart");
    reveal_strlit("viewmode");
    reveal_strlit("notify");
    reveal_strlit("language:");
    reveal_strlit("checkupdates");
    reveal_strlit("updateavailable");
    reveal_strlit("openconfig");
    reveal_strlit("poll:");
    reveal_strlit("poll");
    reveal_strlit("threshold:");
    reveal_strlit("threshold");
    reveal_strlit("cooldown:");
    reveal_strlit("cooldown");
    reveal_strlit("device:");
    reveal_strlit(":");
}

/// An id that begins otherwise has none of the prefixes.
proof fn first_letters_matter(id: Seq<char>)
    requires
        id.len() >= 2,
    ensures
        id[0] != 'l' ==> stripped(id, "language:"@) is None,
        id[0] != 'p' ==> stripped(id, "poll:"@) is None,
        id[0] != 't' ==> stripped(id, "threshold:"@) is None,
        id[0] != 'c' || id[1] != 'o' ==> stripped(id, "cooldown:"@) is None,
        id[0] != 'd' ==> stripped(id, "device:"@) is None,
{
    reveal_ids();
    if stripped(id, "language:"@) is Some {
        assert(id.take(9)[0] == id[0]);
    }
    if stripped(id, "poll:"@) is Some {
        assert(id.take(5)[0] == id[0]);
    }
    if stripped(id, "threshold:"@) is Some {
        assert(id.take(10)[0] == id[0]);
    }
    if stripped(id, "cooldown:"@) is Some {
        assert(id.take(9)[0] == id[0] && id.take(9)[1] == id[1]);
    }
    if stripped(id, "device:"@) is Some {
        assert(id.take(7)[0] == id[0]);
    }
}

proof fn languages_are_told_apart(language: Language)
    ensures
        language_for(written(language)) == Some(language),
{
    reveal_strlit("auto");
    reveal_strlit("en");
    reveal_strlit("zh-CN");
    assert("auto"@.len() == 4 && "en"@.len() == 2 && "zh-CN"@.len() == 5);
}

/// Marking the presets anew for a value gives the marks of a menu that is built
/// with that value: exactly the entry with the value is checked.
pub proof fn presets_are_marked_alike(
    prefix: Seq<char>,
    presets: Seq<(Seq<char>, u64)>,
    current: u64,
    value: u64,
    i: int,
)
    requires
        0 <= i < presets.len(),
    ensures
        (preset_choices(prefix, presets, current)[i].id == preset_id(prefix, value))
            == preset_choices(prefix, presets, value)[i].checked,
        preset_choices(prefix, presets, value)[i].checked == (presets[i].1 == value),
{
    let head = prefix + ":"@;
    let a = preset_id(prefix, presets[i].1);
    let b = preset_id(prefix, value);
    assert(a.skip(head.len() as int) == decimal(presets[i].1 as nat));
    assert(b.skip(head.len() as int) == decimal(value as nat));
    decimal_reads_back(presets[i].1 as nat);
    decimal_reads_back(value as nat);
}

/// No two presets of a submenu are checked at once.
pub proof fn one_preset_at_most_is_checked(language: Language, current: u64, i: int, j: int)
    requires
        0 <= i < j,
    ensures
        j < poll_presets().len() ==> !(preset_choices(
            "poll"@,
            labelled(language, poll_presets()),
            current,
        )[i].checked && preset_choices(
            "poll"@,
            labelled(language, poll_presets()),
            current,
        )[j].checked),
        j < threshold_presets().len() ==> !(preset_choices(
            "threshold"@,
            percentages(threshold_presets()),
            current,
        )[i].checked && preset_choices(
            "threshold"@,
            percentages(threshold_presets()),
            current,
        )[j].checked),
        j < cooldown_presets().len() ==> !(preset_choices(
            "cooldown"@,
            labelled(language, cooldown_presets()),
            current,
        )[i].checked && preset_choices(
            "cooldown"@,
            labelled(language, cooldown_presets()),
            current,
        )[j].checked),
{
}

/// Exactly one language is checked, and marking the languages anew for a choice
/// gives the marks of a menu that is built with that choice.
pub proof fn one_language_is_checked(language: Language, current: Language)
    ensures
        exists|i: int|
            0 <= i < language_entries(language, current).len() && (#[trigger] language_entries(
                language,
                current,
            )[i]).checked,
        forall|i: int, j: int|
            0 <= i < j < language_entries(language, current).len() ==> !((
            #[trigger] language_entries(language, current)[i]).checked && (
            #[trigger] language_entries(language, current)[j]).checked),
        forall|i: int|
            0 <= i < language_entries(language, current).len() ==> (#[trigger] language_entries(
                language,
                current,
            )[i]).checked == (language_entries(language, current)[i].id == language_id(current)),
{
    let all = language_entries(language, current);
    assert(all[0].checked == (Language::Auto == current));
    assert(all[1].checked == (Language::English == current));
    assert(all[2].checked == (Language::SimplifiedChinese == current));
    assert forall|i: int| 0 <= i < all.len() implies (#[trigger] all[i]).checked == (all[i].id
        == language_id(current)) by {
        let choice = language_choices()[i];
        languages_are_told_apart(choice);
        languages_are_told_apart(current);
        prefix_comes_off("language:"@, written(choice));
        prefix_comes_off("language:"@, written(current));
    }
}

/// Marking the devices anew for a selection gives the marks of a device menu that
/// is built with that selection.
pub proof fn devices_are_marked_alike(
    language: Language,
    devices: Seq<Reading>,
    selected: Seq<char>,
    other: Seq<char>,
    i: int,
)
    requires
        0 <= i < device_lines(language, devices, selected).len(),
        device_lines(language, devices, selected)[i] is Check,
    ensures
        device_lines(language, devices, other)[i] is Check,
        device_lines(language, devices, other)[i]->entry.checked == (stripped(
            device_lines(language, devices, selected)[i]->entry.id,
            "device:"@,
        ) == Some(other)),
{
    if i == 0 {
        prefix_comes_off("device:"@, AUTO_SUBJECT_ID@);
    } else if i >= 2 && devices.len() > 0 {
        prefix_comes_off("device:"@, devices[i - 2].device_key);
    }
}

/// The entries of the menu, in their order: what each is called, what a click on it
/// asks for, and when it is checked.
pub proof fn entries_do_what_they_show(
    language: Language,
    settings: Settings,
    autostart: bool,
    text_mode: bool,
)
    ensures
        ({
            let lines = menu_lines(language, settings, autostart, text_mode);
            &&& lines.len() == 16
            &&& lines[0] == Entry::Line { label: shown(language, Text::NoDevicesFound) }
            &&& lines[1] == Entry::Devices { label: shown(language, Text::SelectDevice) }
            &&& lines[2] matches Entry::Item { id, label } && click_on(id) == Click::Refresh && label
                == shown(language, Text::Refresh)
            &&& lines[3] is Separator
            &&& lines[4] matches Entry::Check { entry } && click_on(entry.id) == Click::ViewMode
                && entry.label == shown(language, Text::TextMode) && entry.checked == text_mode
            &&& lines[5] matches Entry::Choices { label, entries } && label == shown(
                language,
                Text::Language,
            ) && entries.len() == 3
            &&& lines[6] matches Entry::Choices { label, entries } && label == shown(
                language,
                Text::PollInterval,
            ) && entries.len() == 7
            &&& lines[7] matches Entry::Check { entry } && click_on(entry.id) == Click::Notify
                && entry.label == shown(language, Text::Notifications) && entry.checked
                == settings.notifications_enabled
            &&& lines[8] matches Entry::Choices { label, entries } && label == shown(
                language,
                Text::Threshold,
            ) && entries.len() == 6
            &&& lines[9] matches Entry::Choices { label, entries } && label == shown(
                language,
                Text::Cooldown,
            ) && entries.len() == 5
            &&& lines[10] matches Entry::Check { entry } && click_on(entry.id) == Click::Autostart
                && entry.label == shown(language, Text::Autostart) && entry.checked == autostart
            &&& lines[11] matches Entry::Check { entry } && click_on(entry.id)
                == Click::CheckUpdates && entry.label == shown(language, Text::CheckForUpdates)
                && entry.checked == settings.check_for_updates
            &&& lines[12] is Separator
            &&& lines[13] matches Entry::Item { id, label } && click_on(id) == Click::OpenConfig
                && label == shown(language, Text::OpenConfig)
            &&& lines[14] is Separator
            &&& lines[15] matches Entry::Item { id, label } && click_on(id) == Click::Exit && label
                == shown(language, Text::Exit)
        }),
{
    clicks_do_what_they_say(language, 0, 0, 0, Seq::empty());
}

/// The presets on offer: what each is called, the value that a click on it asks
/// for, and that it is checked exactly if that value is in force. The languages are
/// on offer in the same way.
pub proof fn presets_do_what_they_show(
    language: Language,
    settings: Settings,
    autostart: bool,
    text_mode: bool,
    k: int,
)
    ensures
        ({
            let lines = menu_lines(language, settings, autostart, text_mode);
            let tongues = seq![
                (shown(language, Text::Automatic), Language::Auto),
                ("English"@, Language::English),
                ("简体中文"@, Language::SimplifiedChinese),
            ];
            let seconds = seq![
                (Text::Seconds15, 15u64),
                (Text::Seconds30, 30u64),
                (Text::Minute1, 60u64),
                (Text::Minutes2, 120u64),
                (Text::Minutes3, 180u64),
                (Text::Minutes5, 300u64),
                (Text::Minutes15, 900u64),
            ];
            let percents = seq![5u8, 10u8, 15u8, 20u8, 25u8, 30u8];
            let minutes = seq![
                (Text::Minutes30, 30u64),
                (Text::Hour1, 60u64),
                (Text::Hours2, 120u64),
                (Text::Hours4, 240u64),
                (Text::Hours8, 480u64),
            ];
            &&& 0 <= k < 3 ==> {
                let entry = lines[5]->entries[k];
                &&& entry.label == tongues[k].0
                &&& click_on(entry.id) == Click::Language(tongues[k].1)
                &&& entry.checked == (tongues[k].1 == settings.language)
            }
            &&& 0 <= k < 7 ==> {
                let entry = lines[6]->entries[k];
                &&& entry.label == shown(language, seconds[k].0)
                &&& click_on(entry.id) == Click::Poll(seconds[k].1)
                &&& entry.checked == (seconds[k].1 == settings.poll_interval_seconds)
            }
            &&& 0 <= k < 6 ==> {
                let entry = lines[8]->entries[k];
                &&& entry.label == decimal(percents[k] as nat).push('%')
                &&& click_on(entry.id) == Click::Threshold(percents[k])
                &&& entry.checked == (percents[k] == settings.low_battery_threshold)
            }
            &&& 0 <= k < 5 ==> {
                let entry = lines[9]->entries[k];
                &&& entry.label == shown(language, minutes[k].0)
                &&& click_on(entry.id) == Click::Cooldown(minutes[k].1)
                &&& entry.checked == (minutes[k].1 == settings.low_battery_cooldown_minutes)
            }
        }),
{
    if 0 <= k < 3 {
        clicks_do_what_they_say(language_choices()[k], 0, 0, 0, Seq::empty());
    }
    if 0 <= k < 7 {
        clicks_do_what_they_say(language, poll_presets()[k].1, 0, 0, Seq::empty());
    }
    if 0 <= k < 6 {
        let percent = threshold_presets()[k];
        clicks_do_what_they_say(language, 0, percent, 0, Seq::empty());
        reveal_strlit("%");
        assert(decimal(percent as nat) + "%"@ == decimal(percent as nat).push('%'));
    }
    if 0 <= k < 5 {
        clicks_do_what_they_say(language, 0, 0, cooldown_presets()[k].1, Seq::empty());
    }
}

/// The device submenu: the automatic mode, checked if it is chosen, and below a
/// separator every device, as it is listed, with its label, checked if it is
/// chosen; a click on an entry chooses what it stands for. Without a device a line
/// says so.
pub proof fn devices_are_on_offer(
    language: Language,
    devices: Seq<Reading>,
    selected: Seq<char>,
    i: int,
)
    ensures
        ({
            let lines = device_lines(language, devices, selected);
            &&& lines[0] matches Entry::Check { entry } && click_on(entry.id) == Click::Device(
                "lowest"@,
            ) && entry.label == shown(language, Text::AutomaticLowest) && entry.checked == (selected
                == "lowest"@)
            &&& lines[1] is Separator
            &&& devices.len() == 0 ==> lines.len() == 3 && lines[2] == Entry::Line {
                label: shown(language, Text::NoDevices),
            }
            &&& devices.len() > 0 ==> lines.len() == devices.len() + 2
            &&& 0 <= i < devices.len() ==> {
                &&& lines[i + 2] matches Entry::Check { entry }
                &&& click_on(entry.id) == Click::Device(devices[i].device_key)
                &&& entry.label == crate::label::label_text(
                    language,
                    devices[i].display_name,
                    devices[i].battery_percent,
                    devices[i].is_charging,
                )
                &&& entry.checked == (devices[i].device_key == selected)
            }
        }),
{
    clicks_do_what_they_say(language, 0, 0, 0, "lowest"@);
    if 0 <= i < devices.len() {
        clicks_do_what_they_say(language, 0, 0, 0, devices[i].device_key);
    }
}

/// What stands behind the prefix of an id decides: a number that fits is taken, any
/// other text is ignored; and a language that is not on offer is ignored.
pub proof fn values_are_read_from_ids(rest: Seq<char>)
    ensures
        click_on("poll:"@ + rest) == (match parsed_number(rest, u64::MAX as nat) {
            Some(secs) => Click::Poll(secs as u64),
            None => Click::Ignored,
        }),
        click_on("threshold:"@ + rest) == (match parsed_number(rest, 255) {
            Some(percent) => Click::Threshold(percent as u8),
            None => Click::Ignored,
        }),
        click_on("cooldown:"@ + rest) == (match parsed_number(rest, u64::MAX as nat) {
            Some(minutes) => Click::Cooldown(minutes as u64),
            None => Click::Ignored,
        }),
        rest != "auto"@ && rest != "en"@ && rest != "zh-CN"@ ==> click_on("language:"@ + rest)
            == Click::Ignored,
{
    reveal_ids();
    let poll = "poll:"@ + rest;
    let threshold = "threshold:"@ + rest;
    let cooldown = "cooldown:"@ + rest;
    let tongue = "language:"@ + rest;
    assert(poll[0] == 'p' && threshold[0] == 't' && cooldown[0] == 'c' && cooldown[1] == 'o');
    assert(tongue[0] == 'l');
    assert("autostart"@[0] == 'a' && "viewmode"@[0] == 'v' && "notify"@[0] == 'n');
    assert("refresh"@[0] == 'r' && "exit"@[0] == 'e');
    assert("checkupdates"@[0] == 'c' && "checkupdates"@[1] == 'h');
    assert("updateavailable"@[0] == 'u' && "openconfig"@[0] == 'o');
    first_letters_matter(poll);
    first_letters_matter(threshold);
    first_letters_matter(cooldown);
    first_letters_matter(tongue);
    prefix_comes_off("poll:"@, rest);
    prefix_comes_off("threshold:"@, rest);
    prefix_comes_off("cooldown:"@, rest);
    prefix_comes_off("language:"@, rest);
}

/// Nothing but its own entry makes a command: what a click asks for tells the id of
/// the entry, up to how a number is written.
pub proof fn commands_come_from_their_entries(id: Seq<char>)
    ensures
        match click_on(id) {
            Click::Refresh => id == "refresh"@,
            Click::Exit => id == "exit"@,
            Click::Autostart => id == "autostart"@,
            Click::ViewMode => id == "viewmode"@,
            Click::Notify => id == "notify"@,
            Click::CheckUpdates => id == "checkupdates"@,
            Click::UpdateAvailable => id == "updateavailable"@,
            Click::OpenConfig => id == "openconfig"@,
            Click::Language(Language::Auto) => id == "language:"@ + "auto"@,
            Click::Language(Language::English) => id == "language:"@ + "en"@,
            Click::Language(Language::SimplifiedChinese) => id == "language:"@ + "zh-CN"@,
            Click::Poll(secs) => exists|rest: Seq<char>|
                id == "poll:"@ + rest && #[trigger] parsed_number(rest, u64::MAX as nat) == Some(
                    secs as nat,
                ),
            Click::Threshold(percent) => exists|rest: Seq<char>|
                id == "threshold:"@ + rest && #[trigger] parsed_number(rest, 255) == Some(
                    percent as nat,
                ),
            Click::Cooldown(minutes) => exists|rest: Seq<char>|
                id == "cooldown:"@ + rest && #[trigger] parsed_number(rest, u64::MAX as nat)
                    == Some(minutes as nat),
            Click::Device(key) => id == "device:"@ + key,
            Click::Ignored => true,
        },
{
    reveal_ids();
    if let Some(rest) = stripped(id, "language:"@) {
        assert(id == "language:"@ + rest);
    }
    if let Some(rest) = stripped(id, "poll:"@) {
        assert(id == "poll:"@ + rest);
        crate::text::parsed_numbers_fit(rest, u64::MAX as nat);
    }
    if let Some(rest) = stripped(id, "threshold:"@) {
        assert(id == "threshold:"@ + rest);
        crate::text::parsed_numbers_fit(rest, 255);
    }
    if let Some(rest) = stripped(id, "cooldown:"@) {
        assert(id == "cooldown:"@ + rest);
        crate::text::parsed_numbers_fit(rest, u64::MAX as nat);
    }
    if let Some(rest) = stripped(id, "device:"@) {
        assert(id == "device:"@ + rest);
    }
}

} // verus!
