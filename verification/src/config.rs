//! The configuration, the remembered device profiles, and the files that they
//! are kept in.

use vstd::prelude::*;
use vstd::string::*;

use crate::cut::{lowered, to_lower};
use crate::i18n::{chosen, languages_read_back, written, Language};
use crate::text::{
    decimal, hex4, hex4_is_injective, opt_text, push_decimal, push_hex4, same_text, texts,
};
use crate::textmap::TextMap;
use crate::APP_ID;

verus! {

/// The `selected_device_id` that means "follow whichever connected device has
/// the lowest battery" instead of a fixed device. Device keys hold a colon, so
/// that none of them can be mistaken for it.
pub const AUTO_SUBJECT_ID: &'static str = "lowest";

// ---------------------------------------------------------------------------
// The configuration
// ---------------------------------------------------------------------------

/// The configuration.
#[derive(Debug)]
pub struct AppConfig {
    pub language: Language,
    pub poll_interval_seconds: u64,
    pub low_battery_threshold: u8,
    pub low_battery_cooldown_minutes: u64,
    /// [`AUTO_SUBJECT_ID`], or the key of the device that the icon is pinned to.
    pub selected_device_id: String,
    pub autostart: bool,
    pub log_level: String,
    /// Tray display style: "icon" (battery glyph) or "text" (percentage number).
    pub view_mode: String,
    /// Whether low-battery notifications are shown at all.
    pub notifications_enabled: bool,
    /// Whether to look for a newer release at startup and once a day.
    pub check_for_updates: bool,
    /// Release that the update notification was last shown for, so that restarts
    /// do not repeat it.
    pub last_notified_update: String,
}

/// An [`AppConfig`] with its texts seen as character sequences.
#[verifier::ext_equal]
pub struct Settings {
    pub language: Language,
    pub poll_interval_seconds: u64,
    pub low_battery_threshold: u8,
    pub low_battery_cooldown_minutes: u64,
    pub selected_device_id: Seq<char>,
    pub autostart: bool,
    pub log_level: Seq<char>,
    pub view_mode: Seq<char>,
    pub notifications_enabled: bool,
    pub check_for_updates: bool,
    pub last_notified_update: Seq<char>,
}

impl View for AppConfig {
    type V = Settings;

    open spec fn view(&self) -> Settings {
        Settings {
            language: self.language,
            poll_interval_seconds: self.poll_interval_seconds,
            low_battery_threshold: self.low_battery_threshold,
            low_battery_cooldown_minutes: self.low_battery_cooldown_minutes,
            selected_device_id: self.selected_device_id@,
            autostart: self.autostart,
            log_level: self.log_level@,
            view_mode: self.view_mode@,
            notifications_enabled: self.notifications_enabled,
            check_for_updates: self.check_for_updates,
            last_notified_update: self.last_notified_update@,
        }
    }
}

impl Clone for AppConfig {
    fn clone(&self) -> (copy: Self)
        ensures
            copy == *self,
    {
        AppConfig {
            language: self.language,
            poll_interval_seconds: self.poll_interval_seconds,
            low_battery_threshold: self.low_battery_threshold,
            low_battery_cooldown_minutes: self.low_battery_cooldown_minutes,
            selected_device_id: self.selected_device_id.clone(),
            autostart: self.autostart,
            log_level: self.log_level.clone(),
            view_mode: self.view_mode.clone(),
            notifications_enabled: self.notifications_enabled,
            check_for_updates: self.check_for_updates,
            last_notified_update: self.last_notified_update.clone(),
        }
    }
}

/// The settings of a fresh installation.
pub open spec fn default_settings() -> Settings {
    Settings {
        language: Language::Auto,
        poll_interval_seconds: 180,
        low_battery_threshold: 15,
        low_battery_cooldown_minutes: 120,
        selected_device_id: AUTO_SUBJECT_ID@,
        autostart: false,
        log_level: "info"@,
        view_mode: "icon"@,
        notifications_enabled: true,
        check_for_updates: true,
        last_notified_update: Seq::empty(),
    }
}

/// Battery and charging changes are pushed by the devices, so this is only a
/// backstop re-read for missed events and resume. A few minutes is plenty and
/// keeps idle USB traffic low.
pub fn default_poll_interval_seconds() -> (seconds: u64)
    ensures
        seconds == default_settings().poll_interval_seconds,
{
    180
}

pub fn default_low_battery_threshold() -> (percent: u8)
    ensures
        percent == default_settings().low_battery_threshold,
{
    15
}

pub fn default_low_battery_cooldown_minutes() -> (minutes: u64)
    ensures
        minutes == default_settings().low_battery_cooldown_minutes,
{
    120
}

/// Fresh installations follow the lowest battery: with one device it is the same
/// as pinning it, and with several the icon answers "is anything about to die?".
pub fn default_selected_device_id() -> (id: String)
    ensures
        id@ == default_settings().selected_device_id,
{
    AUTO_SUBJECT_ID.to_string()
}

pub fn default_autostart() -> (on: bool)
    ensures
        on == default_settings().autostart,
{
    false
}

pub fn default_log_level() -> (level: String)
    ensures
        level@ == default_settings().log_level,
{
    "info".to_string()
}

pub fn default_view_mode() -> (mode: String)
    ensures
        mode@ == default_settings().view_mode,
{
    "icon".to_string()
}

pub fn default_notifications_enabled() -> (on: bool)
    ensures
        on == default_settings().notifications_enabled,
{
    true
}

pub fn default_check_for_updates() -> (on: bool)
    ensures
        on == default_settings().check_for_updates,
{
    true
}

impl Default for AppConfig {
    fn default() -> (cfg: Self)
        ensures
            cfg@ == default_settings(),
    {
        AppConfig {
            language: Language::Auto,
            poll_interval_seconds: default_poll_interval_seconds(),
            low_battery_threshold: default_low_battery_threshold(),
            low_battery_cooldown_minutes: default_low_battery_cooldown_minutes(),
            selected_device_id: default_selected_device_id(),
            autostart: default_autostart(),
            log_level: default_log_level(),
            view_mode: default_view_mode(),
            notifications_enabled: default_notifications_enabled(),
            check_for_updates: default_check_for_updates(),
            last_notified_update: String::new(),
        }
    }
}

/// Whether a view mode shows the percentage as text.
pub open spec fn is_text_mode(view_mode: Seq<char>) -> bool {
    lowered(view_mode) == lowered("text"@)
}

impl AppConfig {
    /// Whether the tray shows the percentage as text instead of the battery
    /// glyph. The case of the letters does not matter.
    pub fn text_mode(&self) -> (yes: bool)
        ensures
            yes == is_text_mode(self@.view_mode),
    {
        same_text(to_lower(self.view_mode.as_str()).as_str(), to_lower("text").as_str())
    }
}

/// The two view modes that the menu sets are told apart.
pub proof fn menu_view_modes_differ()
    ensures
        is_text_mode("text"@),
        !is_text_mode("icon"@),
{
    reveal_strlit("text");
    reveal_strlit("icon");
    assert(lowered("text"@)[0] == 't');
    assert(lowered("icon"@)[0] == 'i');
}

// ---------------------------------------------------------------------------
// What the configuration file says
// ---------------------------------------------------------------------------

/// The keys of the configuration file, as far as it has them.
#[derive(Debug)]
pub struct ConfigFields {
    pub language: Option<String>,
    pub poll_interval_seconds: Option<u64>,
    pub low_battery_threshold: Option<u8>,
    pub low_battery_cooldown_minutes: Option<u64>,
    pub selected_device_id: Option<String>,
    pub autostart: Option<bool>,
    pub log_level: Option<String>,
    pub view_mode: Option<String>,
    pub notifications_enabled: Option<bool>,
    pub check_for_updates: Option<bool>,
    pub last_notified_update: Option<String>,
}

/// [`ConfigFields`] with their texts seen as character sequences.
#[verifier::ext_equal]
pub struct Fields {
    pub language: Option<Seq<char>>,
    pub poll_interval_seconds: Option<u64>,
    pub low_battery_threshold: Option<u8>,
    pub low_battery_cooldown_minutes: Option<u64>,
    pub selected_device_id: Option<Seq<char>>,
    pub autostart: Option<bool>,
    pub log_level: Option<Seq<char>>,
    pub view_mode: Option<Seq<char>>,
    pub notifications_enabled: Option<bool>,
    pub check_for_updates: Option<bool>,
    pub last_notified_update: Option<Seq<char>>,
}

impl View for ConfigFields {
    type V = Fields;

    open spec fn view(&self) -> Fields {
        Fields {
            language: opt_text(self.language),
            poll_interval_seconds: self.poll_interval_seconds,
            low_battery_threshold: self.low_battery_threshold,
            low_battery_cooldown_minutes: self.low_battery_cooldown_minutes,
            selected_device_id: opt_text(self.selected_device_id),
            autostart: self.autostart,
            log_level: opt_text(self.log_level),
            view_mode: opt_text(self.view_mode),
            notifications_enabled: self.notifications_enabled,
            check_for_updates: self.check_for_updates,
            last_notified_update: opt_text(self.last_notified_update),
        }
    }
}

/// A value, or what stands in for it.
pub open spec fn value_or<T>(value: Option<T>, default: T) -> T {
    match value {
        Some(v) => v,
        None => default,
    }
}

/// The settings that a configuration file stands for: a key that it lacks has
/// its own default, and the other keys are what they are.
pub open spec fn settings_in(fields: Fields) -> Settings {
    let d = default_settings();
    Settings {
        language: match fields.language {
            Some(text) => chosen(text),
            None => d.language,
        },
        poll_interval_seconds: value_or(fields.poll_interval_seconds, d.poll_interval_seconds),
        low_battery_threshold: value_or(fields.low_battery_threshold, d.low_battery_threshold),
        low_battery_cooldown_minutes: value_or(fields.low_battery_cooldown_minutes, d.low_battery_cooldown_minutes),
        selected_device_id: value_or(fields.selected_device_id, d.selected_device_id),
        autostart: value_or(fields.autostart, d.autostart),
        log_level: value_or(fields.log_level, d.log_level),
        view_mode: value_or(fields.view_mode, d.view_mode),
        notifications_enabled: value_or(fields.notifications_enabled, d.notifications_enabled),
        check_for_updates: value_or(fields.check_for_updates, d.check_for_updates),
        last_notified_update: value_or(fields.last_notified_update, d.last_notified_update),
    }
}

/// What is written to the configuration file: every key.
pub open spec fn fields_for(settings: Settings) -> Fields {
    Fields {
        language: Some(written(settings.language)),
        poll_interval_seconds: Some(settings.poll_interval_seconds),
        low_battery_threshold: Some(settings.low_battery_threshold),
        low_battery_cooldown_minutes: Some(settings.low_battery_cooldown_minutes),
        selected_device_id: Some(settings.selected_device_id),
        autostart: Some(settings.autostart),
        log_level: Some(settings.log_level),
        view_mode: Some(settings.view_mode),
        notifications_enabled: Some(settings.notifications_enabled),
        check_for_updates: Some(settings.check_for_updates),
        last_notified_update: Some(settings.last_notified_update),
    }
}

/// A configuration file without any key.
pub open spec fn no_fields() -> Fields {
    Fields {
        language: None,
        poll_interval_seconds: None,
        low_battery_threshold: None,
        low_battery_cooldown_minutes: None,
        selected_device_id: None,
        autostart: None,
        log_level: None,
        view_mode: None,
        notifications_enabled: None,
        check_for_updates: None,
        last_notified_update: None,
    }
}

impl AppConfig {
    /// The configuration that a file with these keys stands for.
    pub fn from_fields(fields: ConfigFields) -> (cfg: Self)
        ensures
            cfg@ == settings_in(fields@),
    {
        AppConfig {
            language: match fields.language {
                Some(text) => Language::from_config(text.as_str()),
                None => Language::Auto,
            },
            poll_interval_seconds: match fields.poll_interval_seconds {
                Some(value) => value,
                None => default_poll_interval_seconds(),
            },
            low_battery_threshold: match fields.low_battery_threshold {
                Some(value) => value,
                None => default_low_battery_threshold(),
            },
            low_battery_cooldown_minutes: match fields.low_battery_cooldown_minutes {
                Some(value) => value,
                None => default_low_battery_cooldown_minutes(),
            },
            selected_device_id: match fields.selected_device_id {
                Some(value) => value,
                None => default_selected_device_id(),
            },
            autostart: match fields.autostart {
                Some(value) => value,
                None => default_autostart(),
            },
            log_level: match fields.log_level {
                Some(value) => value,
                None => default_log_level(),
            },
            view_mode: match fields.view_mode {
                Some(value) => value,
                None => default_view_mode(),
            },
            notifications_enabled: match fields.notifications_enabled {
                Some(value) => value,
                None => default_notifications_enabled(),
            },
            check_for_updates: match fields.check_for_updates {
                Some(value) => value,
                None => default_check_for_updates(),
            },
            last_notified_update: match fields.last_notified_update {
                Some(value) => value,
                None => String::new(),
            },
        }
    }

    /// The keys to write to the configuration file.
    pub fn to_fields(&self) -> (fields: ConfigFields)
        ensures
            fields@ == fields_for(self@),
    {
        ConfigFields {
            language: Some(self.language.to_config().to_string()),
            poll_interval_seconds: Some(self.poll_interval_seconds),
            low_battery_threshold: Some(self.low_battery_threshold),
            low_battery_cooldown_minutes: Some(self.low_battery_cooldown_minutes),
            selected_device_id: Some(self.selected_device_id.clone()),
            autostart: Some(self.autostart),
            log_level: Some(self.log_level.clone()),
            view_mode: Some(self.view_mode.clone()),
            notifications_enabled: Some(self.notifications_enabled),
            check_for_updates: Some(self.check_for_updates),
            last_notified_update: Some(self.last_notified_update.clone()),
        }
    }
}

/// Settings survive being written to the configuration file and read again.
pub proof fn settings_read_back(settings: Settings)
    ensures
        settings_in(fields_for(settings)) == settings,
{
    languages_read_back(settings.language);
}

/// Even an empty file is a usable configuration: that of a fresh installation.
pub proof fn empty_file_means_defaults()
    ensures
        settings_in(no_fields()) == default_settings(),
{
}

/// No device key is mistaken for the automatic mode.
pub proof fn device_keys_are_not_automatic(pid: u16, device_index: u8)
    ensures
        crate::model::key_of(pid, device_index) != AUTO_SUBJECT_ID@,
{
    reveal_strlit("lowest");
    assert(crate::model::key_of(pid, device_index)[4] == ':');
    assert(AUTO_SUBJECT_ID@[4] == 's');
}

/// Each setting depends on its own key alone, so that a missing key costs that
/// key's value and nothing else.
pub proof fn keys_stand_for_themselves(f: Fields, g: Fields)
    ensures
        f.language == g.language ==> settings_in(f).language == settings_in(g).language,
        f.poll_interval_seconds == g.poll_interval_seconds ==> settings_in(f).poll_interval_seconds == settings_in(g).poll_interval_seconds,
        f.low_battery_threshold == g.low_battery_threshold ==> settings_in(f).low_battery_threshold == settings_in(g).low_battery_threshold,
        f.low_battery_cooldown_minutes == g.low_battery_cooldown_minutes ==> settings_in(f).low_battery_cooldown_minutes == settings_in(g).low_battery_cooldown_minutes,
        f.selected_device_id == g.selected_device_id ==> settings_in(f).selected_device_id == settings_in(g).selected_device_id,
        f.autostart == g.autostart ==> settings_in(f).autostart == settings_in(g).autostart,
        f.log_level == g.log_level ==> settings_in(f).log_level == settings_in(g).log_level,
        f.view_mode == g.view_mode ==> settings_in(f).view_mode == settings_in(g).view_mode,
        f.notifications_enabled == g.notifications_enabled ==> settings_in(f).notifications_enabled == settings_in(g).notifications_enabled,
        f.check_for_updates == g.check_for_updates ==> settings_in(f).check_for_updates == settings_in(g).check_for_updates,
        f.last_notified_update == g.last_notified_update ==> settings_in(f).last_notified_update == settings_in(g).last_notified_update,
        f.language is None ==> settings_in(f).language == default_settings().language,
        f.poll_interval_seconds is None ==> settings_in(f).poll_interval_seconds == default_settings().poll_interval_seconds,
        f.low_battery_threshold is None ==> settings_in(f).low_battery_threshold == default_settings().low_battery_threshold,
        f.low_battery_cooldown_minutes is None ==> settings_in(f).low_battery_cooldown_minutes == default_settings().low_battery_cooldown_minutes,
        f.selected_device_id is None ==> settings_in(f).selected_device_id == default_settings().selected_device_id,
        f.autostart is None ==> settings_in(f).autostart == default_settings().autostart,
        f.log_level is None ==> settings_in(f).log_level == default_settings().log_level,
        f.view_mode is None ==> settings_in(f).view_mode == default_settings().view_mode,
        f.notifications_enabled is None ==> settings_in(f).notifications_enabled == default_settings().notifications_enabled,
        f.check_for_updates is None ==> settings_in(f).check_for_updates == default_settings().check_for_updates,
        f.last_notified_update is None ==> settings_in(f).last_notified_update == default_settings().last_notified_update,
{
}

// ---------------------------------------------------------------------------
// Loading the configuration
// ---------------------------------------------------------------------------

/// What was found where the configuration file belongs.
#[derive(Debug)]
pub enum ConfigFile {
    Missing,
    /// The file could not be read or parsed; the text says why.
    Broken(String),
    Parsed(ConfigFields),
}

/// What becomes of a configuration file.
#[derive(Debug)]
pub enum Loading {
    /// There was none: save this configuration and use it.
    Create(AppConfig),
    Use(AppConfig),
    Fail(String),
}

/// Decides what configuration to use, given what was found.
pub fn load_or_create_config(file: ConfigFile) -> (loading: Loading)
    ensures
        match file {
            ConfigFile::Missing => loading matches Loading::Create(cfg) && cfg@
                == default_settings(),
            ConfigFile::Broken(why) => loading matches Loading::Fail(text) && text@ == why@,
            ConfigFile::Parsed(fields) => loading matches Loading::Use(cfg) && cfg@ == settings_in(
                fields@,
            ),
        },
{
    match file {
        ConfigFile::Missing => Loading::Create(AppConfig::default()),
        ConfigFile::Broken(why) => Loading::Fail(why),
        ConfigFile::Parsed(fields) => Loading::Use(AppConfig::from_fields(fields)),
    }
}

/// What became of a configuration file that could not be used.
#[derive(Debug)]
pub enum Aside {
    /// There is no file that could be lost.
    NoFile,
    /// It was moved, to this place.
    Moved(String),
    /// It could not be moved; the text says why.
    Stuck(String),
}

/// The note on a configuration that could not be loaded.
pub open spec fn fallback_note(err: Seq<char>, aside: Aside) -> Seq<char> {
    match aside {
        Aside::NoFile => err + "; starting from defaults"@,
        Aside::Moved(place) => err + "; moved it to "@ + place@ + " and starting from defaults"@,
        Aside::Stuck(why) => err + "; could not move it aside ("@ + why@
            + "), starting from defaults"@,
    }
}

/// Describes what became of a configuration that could not be loaded.
pub fn preserve_invalid_config(err: &str, aside: &Aside) -> (note: String)
    ensures
        note@ == fallback_note(err@, *aside),
{
    let mut note = err.to_string();
    match aside {
        Aside::NoFile => {
            note.append("; starting from defaults");
        },
        Aside::Moved(place) => {
            note.append("; moved it to ");
            note.append(place.as_str());
            note.append(" and starting from defaults");
        },
        Aside::Stuck(why) => {
            note.append("; could not move it aside (");
            note.append(why.as_str());
            note.append("), starting from defaults");
        },
    }
    note
}

/// The configuration for the tray, which has no console to report to and must
/// not exit over a broken file: what was loaded, or else the defaults and a note
/// on what went wrong. `aside` says what became of the file in that case. Where
/// there is a note, the defaults are to be saved if [`may_save_defaults`] says so.
pub fn load_config_or_default(loaded: Result<AppConfig, String>, aside: &Aside) -> (result: (
    AppConfig,
    Option<String>,
))
    ensures
        match loaded {
            Ok(cfg) => result.0 == cfg && result.1 is None,
            Err(err) => result.0@ == default_settings() && result.1 is Some && result.1->0@
                == fallback_note(err@, *aside),
        },
{
    match loaded {
        Ok(cfg) => (cfg, None),
        Err(err) => (AppConfig::default(), Some(preserve_invalid_config(err.as_str(), aside))),
    }
}

/// Whether the defaults may be saved in place of a configuration that could not
/// be loaded. They may not while the user's file still stands there, because it
/// could not be moved: it would be lost.
pub fn may_save_defaults(aside: &Aside) -> (yes: bool)
    ensures
        yes == !(aside is Stuck),
{
    match aside {
        Aside::NoFile => true,
        Aside::Moved(_) => true,
        Aside::Stuck(_) => false,
    }
}

/// The configuration file and the place that a broken one is moved to, each with
/// its contents if it exists.
#[verifier::ext_equal]
pub struct ConfigDisk {
    pub config: Option<Seq<u8>>,
    pub invalid: Option<Seq<u8>>,
}

/// The files after the attempt to move the configuration file out of the way.
pub open spec fn moved_aside(disk: ConfigDisk, aside: Aside) -> ConfigDisk {
    if aside is Moved {
        ConfigDisk { config: None, invalid: disk.config }
    } else {
        disk
    }
}

/// What the files may be after the fallback to the defaults, whose text is
/// `defaults`. Where they may be saved, they are written as [`write_atomic`]
/// does, which may end or be cut off anywhere.
pub open spec fn is_after_fallback(
    before: ConfigDisk,
    aside: Aside,
    defaults: Seq<u8>,
    after: ConfigDisk,
) -> bool {
    let moved = moved_aside(before, aside);
    if aside is Stuck {
        after == moved
    } else {
        exists|temp: Option<Seq<u8>>, replaces: bool, outcomes: Seq<(bool, Seq<u8>)>|
            after == (ConfigDisk {
                config: (#[trigger] write_after(
                    Disk { target: moved.config, temp },
                    defaults,
                    replaces,
                    outcomes,
                )).1.target,
                ..moved
            })
    }
}

/// The user's broken file is never lost: after the fallback to the defaults it is
/// still there, byte for byte, where it could not be moved in its own place and
/// otherwise in the place that it was moved to.
pub proof fn broken_files_survive(
    before: ConfigDisk,
    aside: Aside,
    defaults: Seq<u8>,
    after: ConfigDisk,
)
    requires
        before.config is Some,
        !(aside is NoFile),
        is_after_fallback(before, aside, defaults, after),
    ensures
        aside is Stuck ==> after == before,
        aside is Moved ==> after.invalid == before.config,
{
}

// ---------------------------------------------------------------------------
// Where the files are
// ---------------------------------------------------------------------------

/// What a path starts from.
#[derive(Debug, PartialEq, Eq)]
pub enum Root<P> {
    Dir(P),
    WorkingDir,
}

/// A path: `parts` below one another, under `root`.
#[derive(Debug, PartialEq, Eq)]
pub struct DataPath<P> {
    pub root: Root<P>,
    pub parts: Vec<String>,
}

/// The directory that data is kept under: the roaming application data of
/// Windows, else the configuration directory of the user, else the working
/// directory.
pub open spec fn data_root<P>(appdata: Option<P>, config_dir: Option<P>) -> Root<P> {
    match (appdata, config_dir) {
        (Some(dir), _) => Root::Dir(dir),
        (None, Some(dir)) => Root::Dir(dir),
        (None, None) => Root::WorkingDir,
    }
}

/// The directory that the application keeps its files in. `appdata` is the
/// roaming application data directory, which only Windows has, and `config_dir`
/// is the configuration directory of the user.
pub fn app_data_dir<P>(appdata: Option<P>, config_dir: Option<P>) -> (path: DataPath<P>)
    ensures
        path.root == data_root(appdata, config_dir),
        texts(path.parts@) == seq![APP_ID@],
{
    let root = match appdata {
        Some(dir) => Root::Dir(dir),
        None => match config_dir {
            Some(dir) => Root::Dir(dir),
            None => Root::WorkingDir,
        },
    };
    let mut parts: Vec<String> = Vec::new();
    parts.push(APP_ID.to_string());
    assert(texts(parts@) == seq![APP_ID@]);
    DataPath { root, parts }
}

/// The file called `name` in the directory of the application.
fn data_file<P>(appdata: Option<P>, config_dir: Option<P>, name: &str) -> (path: DataPath<P>)
    ensures
        path.root == data_root(appdata, config_dir),
        texts(path.parts@) == seq![APP_ID@, name@],
{
    let mut path = app_data_dir(appdata, config_dir);
    let ghost before = texts(path.parts@);
    path.parts.push(name.to_string());
    assert(texts(path.parts@) == before.push(name@));
    assert(texts(path.parts@) == seq![APP_ID@, name@]);
    path
}

/// Where the configuration is kept.
pub fn config_path<P>(appdata: Option<P>, config_dir: Option<P>) -> (path: DataPath<P>)
    ensures
        path.root == data_root(appdata, config_dir),
        texts(path.parts@) == seq![APP_ID@, "config.toml"@],
{
    data_file(appdata, config_dir, "config.toml")
}

/// Where the log is written.
pub fn log_path<P>(appdata: Option<P>, config_dir: Option<P>) -> (path: DataPath<P>)
    ensures
        path.root == data_root(appdata, config_dir),
        texts(path.parts@) == seq![APP_ID@, APP_ID@ + ".log"@],
{
    let mut name = APP_ID.to_string();
    name.append(".log");
    data_file(appdata, config_dir, name.as_str())
}

/// Where a configuration file that could not be used is moved, so that falling
/// back to the defaults does not cost the user the file at the next save.
pub fn invalid_config_path<P>(appdata: Option<P>, config_dir: Option<P>) -> (path: DataPath<P>)
    ensures
        path.root == data_root(appdata, config_dir),
        texts(path.parts@) == seq![APP_ID@, "config.toml.invalid"@],
{
    data_file(appdata, config_dir, "config.toml.invalid")
}

/// Where the device profiles are kept.
pub fn device_profiles_path<P>(appdata: Option<P>, config_dir: Option<P>) -> (path: DataPath<P>)
    ensures
        path.root == data_root(appdata, config_dir),
        texts(path.parts@) == seq![APP_ID@, "devices.toml"@],
{
    data_file(appdata, config_dir, "devices.toml")
}

/// The name of the temporary file that stands in for `file_name` while process
/// `process_id` writes it.
pub open spec fn temp_name(file_name: Seq<char>, process_id: u32) -> Seq<char> {
    "."@ + file_name + "."@ + decimal(process_id as nat) + ".tmp"@
}

/// The name of the temporary file that stands in for `file_name` while process
/// `process_id` writes it.
pub fn temp_file_name(file_name: &str, process_id: u32) -> (name: String)
    ensures
        name@ == temp_name(file_name@, process_id),
{
    let mut name = ".".to_string();
    name.append(file_name);
    name.append(".");
    push_decimal(&mut name, process_id as u64);
    name.append(".tmp");
    name
}

/// Why a file cannot be written by way of a temporary file.
#[derive(Clone, Copy, Debug, PartialEq, Eq, Structural)]
pub enum TempPathError {
    MissingParent,
    MissingFileName,
}

/// Where the temporary file of a file is put: next to it. `parent` and
/// `file_name` are those of the file, as far as its path has them; a path that
/// lacks one of them cannot be written to.
pub fn temp_path<P>(parent: Option<P>, file_name: Option<&str>, process_id: u32) -> (path: Result<
    (P, String),
    TempPathError,
>)
    ensures
        path is Ok <==> parent is Some && file_name is Some,
        match path {
            Ok((dir, name)) => parent == Some(dir) && file_name is Some && name@ == temp_name(
                file_name->0@,
                process_id,
            ),
            Err(TempPathError::MissingParent) => parent is None,
            Err(TempPathError::MissingFileName) => parent is Some && file_name is None,
        },
{
    match (parent, file_name) {
        (None, _) => Err(TempPathError::MissingParent),
        (Some(_), None) => Err(TempPathError::MissingFileName),
        (Some(dir), Some(name)) => Ok((dir, temp_file_name(name, process_id))),
    }
}

/// The files of the application do not get in each other's way, nor does the
/// temporary file of one.
pub proof fn files_are_apart(process_id: u32)
    ensures
        "config.toml"@ != "config.toml.invalid"@,
        "config.toml"@ != "devices.toml"@,
        "config.toml"@ != APP_ID@ + ".log"@,
        "config.toml.invalid"@ != "devices.toml"@,
        "config.toml.invalid"@ != APP_ID@ + ".log"@,
        "devices.toml"@ != APP_ID@ + ".log"@,
        forall|name: Seq<char>|
            {
                let temp = #[trigger] temp_name(name, process_id);
                temp != "config.toml"@ && temp != "config.toml.invalid"@ && temp
                    != "devices.toml"@ && temp != APP_ID@ + ".log"@ && temp != name
            },
{
    reveal_strlit("config.toml");
    reveal_strlit("config.toml.invalid");
    reveal_strlit("devices.toml");
    reveal_strlit("logitray");
    reveal_strlit(".log");
    reveal_strlit(".");
    reveal_strlit(".tmp");
    assert("config.toml"@[0] == 'c');
    assert("devices.toml"@[0] == 'd');
    assert("config.toml.invalid"@[0] == 'c');
    assert((APP_ID@ + ".log"@)[0] == 'l');
    assert("config.toml"@.len() == 11 && "config.toml.invalid"@.len() == 19);
    assert forall|name: Seq<char>|
        {
            let temp = #[trigger] temp_name(name, process_id);
            temp != "config.toml"@ && temp != "config.toml.invalid"@ && temp != "devices.toml"@
                && temp != APP_ID@ + ".log"@ && temp != name
        } by {
        let temp = temp_name(name, process_id);
        assert(temp[0] == '.');
        assert(temp.len() > name.len());
    }
}

// ---------------------------------------------------------------------------
// Writing a file in one piece
// ---------------------------------------------------------------------------

/// One step of writing a file by way of a temporary file.
#[derive(Clone, Copy, Debug, PartialEq, Eq, Structural)]
pub enum WriteStep {
    /// Create the directory of the file, if it is not there.
    CreateDirectory,
    CreateTemp,
    FillTemp,
    SyncTemp,
    /// Remove the file that is to be replaced.
    RemoveTarget,
    RenameTemp,
    /// Remove the temporary file, which could not be renamed.
    DiscardTemp,
    Finished,
    Failed,
}

/// The step that follows `step`. `replaces` says whether the file has to be
/// removed before another can take its name.
pub open spec fn write_step_after(step: WriteStep, ok: bool, replaces: bool) -> WriteStep {
    match step {
        WriteStep::CreateDirectory => if ok {
            WriteStep::CreateTemp
        } else {
            WriteStep::Failed
        },
        WriteStep::CreateTemp => if ok {
            WriteStep::FillTemp
        } else {
            WriteStep::Failed
        },
        WriteStep::FillTemp => if ok {
            WriteStep::SyncTemp
        } else {
            WriteStep::Failed
        },
        WriteStep::SyncTemp => if !ok {
            WriteStep::Failed
        } else if replaces {
            WriteStep::RemoveTarget
        } else {
            WriteStep::RenameTemp
        },
        WriteStep::RemoveTarget => if ok {
            WriteStep::RenameTemp
        } else {
            WriteStep::Failed
        },
        WriteStep::RenameTemp => if ok {
            WriteStep::Finished
        } else {
            WriteStep::DiscardTemp
        },
        WriteStep::DiscardTemp => WriteStep::Failed,
        WriteStep::Finished => WriteStep::Finished,
        WriteStep::Failed => WriteStep::Failed,
    }
}

/// The step that follows `step`, which went well or not. `replaces` says
/// whether the file has to be removed before another can take its name, as it
/// has on Windows if it exists.
pub fn write_atomic(step: WriteStep, ok: bool, replaces: bool) -> (next: WriteStep)
    ensures
        next == write_step_after(step, ok, replaces),
{
    match step {
        WriteStep::Finished => WriteStep::Finished,
        WriteStep::Failed => WriteStep::Failed,
        WriteStep::DiscardTemp => WriteStep::Failed,
        WriteStep::RenameTemp => if ok {
            WriteStep::Finished
        } else {
            WriteStep::DiscardTemp
        },
        _ => if !ok {
            WriteStep::Failed
        } else {
            match step {
                WriteStep::CreateDirectory => WriteStep::CreateTemp,
                WriteStep::CreateTemp => WriteStep::FillTemp,
                WriteStep::FillTemp => WriteStep::SyncTemp,
                WriteStep::SyncTemp => if replaces {
                    WriteStep::RemoveTarget
                } else {
                    WriteStep::RenameTemp
                },
                _ => WriteStep::RenameTemp,
            }
        },
    }
}

/// The two files that a write touches, each with its contents if it exists.
#[verifier::ext_equal]
pub struct Disk {
    pub target: Option<Seq<u8>>,
    pub temp: Option<Seq<u8>>,
}

/// What a step does to the files. `partial` is what a failed write to the
/// temporary file may leave in it.
pub open spec fn disk_after(
    disk: Disk,
    step: WriteStep,
    ok: bool,
    raw: Seq<u8>,
    partial: Seq<u8>,
) -> Disk {
    match (step, ok) {
        (WriteStep::CreateTemp, true) => Disk { temp: Some(Seq::empty()), ..disk },
        (WriteStep::FillTemp, true) => Disk { temp: Some(raw), ..disk },
        (WriteStep::FillTemp, false) => Disk { temp: Some(partial), ..disk },
        (WriteStep::RemoveTarget, true) => Disk { target: None, ..disk },
        (WriteStep::RenameTemp, true) => Disk { target: disk.temp, temp: None },
        (WriteStep::DiscardTemp, true) => Disk { temp: None, ..disk },
        _ => disk,
    }
}

/// Where a write stands after its first steps, which went as `outcomes` says.
pub open spec fn write_after(
    disk: Disk,
    raw: Seq<u8>,
    replaces: bool,
    outcomes: Seq<(bool, Seq<u8>)>,
) -> (WriteStep, Disk)
    decreases outcomes.len(),
{
    if outcomes.len() == 0 {
        (WriteStep::CreateDirectory, disk)
    } else {
        let (step, now) = write_after(disk, raw, replaces, outcomes.drop_last());
        let (ok, partial) = outcomes.last();
        (write_step_after(step, ok, replaces), disk_after(now, step, ok, raw, partial))
    }
}

/// Whatever goes wrong and wherever the write is cut off, the file holds what
/// it held before or all of the new contents, or, where it has to be removed
/// first, is not there. Once the write is finished the file holds the new
/// contents and the temporary file is gone.
pub proof fn writes_are_all_or_nothing(
    disk: Disk,
    raw: Seq<u8>,
    replaces: bool,
    outcomes: Seq<(bool, Seq<u8>)>,
)
    ensures
        ({
            let (step, now) = write_after(disk, raw, replaces, outcomes);
            &&& now.target == disk.target || now.target == Some(raw) || (replaces && now.target
                == None::<Seq<u8>>)
            &&& step == WriteStep::Finished ==> now == (Disk { target: Some(raw), temp: None })
            &&& step == WriteStep::Failed && !replaces ==> now.target == disk.target
        }),
{
    write_invariant(disk, raw, replaces, outcomes);
}

/// A write that fails before the temporary file is complete leaves the file as it
/// was. One whose last step fails, the renaming, fails as a whole and has the
/// temporary file removed.
pub proof fn failed_writes_clean_up(
    disk: Disk,
    raw: Seq<u8>,
    replaces: bool,
    outcomes: Seq<(bool, Seq<u8>)>,
    partial: Seq<u8>,
    rest: Seq<u8>,
)
    ensures
        ({
            let (step, _) = write_after(disk, raw, replaces, outcomes);
            let (next, now) = write_after(disk, raw, replaces, outcomes.push((false, partial)));
            let (last, end) = write_after(
                disk,
                raw,
                replaces,
                outcomes.push((false, partial)).push((true, rest)),
            );
            &&& (step == WriteStep::CreateDirectory || step == WriteStep::CreateTemp || step
                == WriteStep::FillTemp || step == WriteStep::SyncTemp) ==> next
                == WriteStep::Failed && now.target == disk.target
            &&& step == WriteStep::RenameTemp ==> next == WriteStep::DiscardTemp && last
                == WriteStep::Failed && end.temp is None
        }),
{
    write_invariant(disk, raw, replaces, outcomes);
    let once = outcomes.push((false, partial));
    let twice = once.push((true, rest));
    assert(once.drop_last() == outcomes);
    assert(twice.drop_last() == once);
}

proof fn write_invariant(
    disk: Disk,
    raw: Seq<u8>,
    replaces: bool,
    outcomes: Seq<(bool, Seq<u8>)>,
)
    ensures
        ({
            let (step, now) = write_after(disk, raw, replaces, outcomes);
            match step {
                WriteStep::CreateDirectory
                | WriteStep::CreateTemp
                | WriteStep::FillTemp => now.target == disk.target,
                WriteStep::SyncTemp | WriteStep::RemoveTarget => now.target == disk.target
                    && now.temp == Some(raw),
                WriteStep::RenameTemp => now.temp == Some(raw) && (now.target == disk.target || (
                replaces && now.target == None::<Seq<u8>>)),
                WriteStep::DiscardTemp | WriteStep::Failed => now.target == disk.target || (replaces
                    && now.target == None::<Seq<u8>>),
                WriteStep::Finished => now == (Disk { target: Some(raw), temp: None }),
            }
        }),
    decreases outcomes.len(),
{
    if outcomes.len() > 0 {
        write_invariant(disk, raw, replaces, outcomes.drop_last());
    }
}

// ---------------------------------------------------------------------------
// Device profiles
// ---------------------------------------------------------------------------

/// What was learned about a device when it was first enumerated: which battery
/// feature to use and its table index, and the name to show.
#[derive(Debug)]
pub struct DeviceProfile {
    pub battery_feature_id: u16,
    pub battery_feature_index: u8,
    pub name: String,
}

/// A [`DeviceProfile`] with its name seen as a character sequence.
#[verifier::ext_equal]
pub struct Profile {
    pub battery_feature_id: u16,
    pub battery_feature_index: u8,
    pub name: Seq<char>,
}

impl View for DeviceProfile {
    type V = Profile;

    open spec fn view(&self) -> Profile {
        Profile {
            battery_feature_id: self.battery_feature_id,
            battery_feature_index: self.battery_feature_index,
            name: self.name@,
        }
    }
}

/// Device profiles by wireless product id, written as in [`DeviceProfiles::key`].
pub struct DeviceProfiles {
    pub devices: TextMap<DeviceProfile>,
}

impl View for DeviceProfiles {
    type V = Map<Seq<char>, Profile>;

    open spec fn view(&self) -> Map<Seq<char>, Profile> {
        self.devices@.map_values(|p: DeviceProfile| p@)
    }
}

impl Default for DeviceProfiles {
    fn default() -> (profiles: Self)
        ensures
            profiles@ == Map::<Seq<char>, Profile>::empty(),
    {
        let profiles = DeviceProfiles { devices: TextMap::new() };
        assert(profiles@ =~= Map::<Seq<char>, Profile>::empty());
        profiles
    }
}

impl DeviceProfiles {
    /// The key of a wireless product id: four lower-case hexadecimal digits.
    pub fn key(wpid: u16) -> (key: String)
        ensures
            key@ == hex4(wpid, false),
    {
        let mut key = String::new();
        push_hex4(&mut key, wpid, false);
        assert(key@ == hex4(wpid, false));
        key
    }

    /// The profile of a device.
    pub fn get(&self, wpid: u16) -> (profile: Option<&DeviceProfile>)
        ensures
            match profile {
                Some(p) => self@.contains_key(hex4(wpid, false)) && p@ == self@[hex4(wpid, false)],
                None => !self@.contains_key(hex4(wpid, false)),
            },
    {
        self.devices.get(Self::key(wpid).as_str())
    }

    /// Puts in a profile and returns whether that changed anything, so that a
    /// needless write to disk can be avoided.
    pub fn upsert(&mut self, wpid: u16, profile: DeviceProfile) -> (changed: bool)
        ensures
            final(self)@ == old(self)@.insert(hex4(wpid, false), profile@),
            changed == (final(self)@ != old(self)@),
    {
        let key = Self::key(wpid);
        let ghost k = key@;
        let ghost before = self@;
        let known = match self.devices.get(key.as_str()) {
            Some(existing) => existing.battery_feature_id == profile.battery_feature_id
                && existing.battery_feature_index == profile.battery_feature_index
                && existing.name == profile.name,
            None => false,
        };
        if known {
            assert(before[k] == profile@);
            assert(before.insert(k, profile@) =~= before);
            false
        } else {
            let ghost new = profile@;
            self.devices.insert(key, profile);
            assert(self@ =~= before.insert(k, new));
            assert(before.contains_key(k) ==> before[k] != new);
            assert(self@.contains_key(k) && self@[k] == new);
            true
        }
    }
}

/// A profile that was put in is found again, the profiles of other devices are
/// left alone, and putting it in once more changes nothing.
pub proof fn profiles_are_kept(
    profiles: Map<Seq<char>, Profile>,
    wpid: u16,
    profile: Profile,
    other: u16,
)
    ensures
        ({
            let after = profiles.insert(hex4(wpid, false), profile);
            &&& after.contains_key(hex4(wpid, false)) && after[hex4(wpid, false)] == profile
            &&& other != wpid ==> after.contains_key(hex4(other, false)) == profiles.contains_key(
                hex4(other, false),
            )
            &&& other != wpid && profiles.contains_key(hex4(other, false)) ==> after[hex4(
                other,
                false,
            )] == profiles[hex4(other, false)]
            &&& after.insert(hex4(wpid, false), profile) == after
        }),
{
    hex4_is_injective(wpid, other, false);
    let after = profiles.insert(hex4(wpid, false), profile);
    assert(after.insert(hex4(wpid, false), profile) =~= after);
}

/// What a configuration file says is taken, key by key; and what stands in for each
/// key that it lacks.
pub proof fn what_the_file_says_is_taken(f: Fields)
    ensures
        ({
            let s = settings_in(f);
            &&& s.language == (match f.language {
                Some(text) => chosen(text),
                None => Language::Auto,
            })
            &&& s.poll_interval_seconds == (match f.poll_interval_seconds {
                Some(secs) => secs,
                None => 180,
            })
            &&& s.low_battery_threshold == (match f.low_battery_threshold {
                Some(percent) => percent,
                None => 15,
            })
            &&& s.low_battery_cooldown_minutes == (match f.low_battery_cooldown_minutes {
                Some(minutes) => minutes,
                None => 120,
            })
            &&& s.selected_device_id == (match f.selected_device_id {
                Some(id) => id,
                None => "lowest"@,
            })
            &&& s.autostart == (f.autostart == Some(true))
            &&& s.log_level == (match f.log_level {
                Some(level) => level,
                None => "info"@,
            })
            &&& s.view_mode == (match f.view_mode {
                Some(mode) => mode,
                None => "icon"@,
            })
            &&& s.notifications_enabled == (f.notifications_enabled != Some(false))
            &&& s.check_for_updates == (f.check_for_updates != Some(false))
            &&& s.last_notified_update == (match f.last_notified_update {
                Some(tag) => tag,
                None => Seq::empty(),
            })
        }),
{
}

/// Every key is written, with the setting that it is for.
pub proof fn every_setting_is_written(s: Settings)
    ensures
        ({
            let f = fields_for(s);
            &&& f.language matches Some(text) && chosen(text) == s.language
            &&& f.poll_interval_seconds == Some(s.poll_interval_seconds)
            &&& f.low_battery_threshold == Some(s.low_battery_threshold)
            &&& f.low_battery_cooldown_minutes == Some(s.low_battery_cooldown_minutes)
            &&& f.selected_device_id == Some(s.selected_device_id)
            &&& f.autostart == Some(s.autostart)
            &&& f.log_level == Some(s.log_level)
            &&& f.view_mode == Some(s.view_mode)
            &&& f.notifications_enabled == Some(s.notifications_enabled)
            &&& f.check_for_updates == Some(s.check_for_updates)
            &&& f.last_notified_update == Some(s.last_notified_update)
        }),
{
    languages_read_back(s.language);
}

/// The mode that shows the percentage as text is `text`, in capitals or small
/// letters, and no other.
pub proof fn text_mode_is_called_text(mode: Seq<char>)
    ensures
        is_text_mode(mode) <==> {
            &&& mode.len() == 4
            &&& mode[0] == 't' || mode[0] == 'T'
            &&& mode[1] == 'e' || mode[1] == 'E'
            &&& mode[2] == 'x' || mode[2] == 'X'
            &&& mode[3] == 't' || mode[3] == 'T'
        },
{
    reveal_strlit("text");
    let wanted = lowered("text"@);
    assert(wanted =~= seq!['t', 'e', 'x', 't']);
    let low = lowered(mode);
    if is_text_mode(mode) {
        assert(low.len() == 4);
        assert(low[0] == 't' && low[1] == 'e' && low[2] == 'x' && low[3] == 't');
    }
    if mode.len() == 4 && (mode[0] == 't' || mode[0] == 'T') && (mode[1] == 'e' || mode[1] == 'E')
        && (mode[2] == 'x' || mode[2] == 'X') && (mode[3] == 't' || mode[3] == 'T') {
        assert(low =~= seq!['t', 'e', 'x', 't']);
    }
}

/// The note on a configuration that could not be loaded begins with what went wrong
/// and ends with what is used instead; it names the place that the file was moved
/// to, or what kept it from being moved.
pub proof fn notes_say_what_became_of_the_file(err: Seq<char>, aside: Aside)
    ensures
        ({
            let note = fallback_note(err, aside);
            let n = err.len() as int;
            &&& note.len() >= n + 22 && note.take(n) == err
            &&& note.skip(note.len() - 22) == "starting from defaults"@
            &&& aside matches Aside::Moved(place) ==> note.subrange(n + 14, n + 14 + place@.len())
                == place@
            &&& aside matches Aside::Stuck(why) ==> note.subrange(n + 27, n + 27 + why@.len())
                == why@
        }),
{
    reveal_strlit("; starting from defaults");
    reveal_strlit("; moved it to ");
    reveal_strlit(" and starting from defaults");
    reveal_strlit("; could not move it aside (");
    reveal_strlit("), starting from defaults");
    reveal_strlit("starting from defaults");
    let note = fallback_note(err, aside);
    let n = err.len() as int;
    assert(note.take(n) == err);
    assert(note.skip(note.len() - 22) == "starting from defaults"@);
    match aside {
        Aside::NoFile => {},
        Aside::Moved(place) => {
            assert(note.subrange(n + 14, n + 14 + place@.len()) == place@);
        },
        Aside::Stuck(why) => {
            assert(note.subrange(n + 27, n + 27 + why@.len()) == why@);
        },
    }
}

/// Data is kept under the roaming application data where there is such a directory,
/// otherwise under the configuration directory of the user, and only without either
/// in the working directory.
pub proof fn data_has_a_place<P>(appdata: Option<P>, config_dir: Option<P>)
    ensures
        appdata matches Some(dir) ==> data_root(appdata, config_dir) == Root::Dir(dir),
        appdata is None ==> (config_dir matches Some(dir) ==> data_root(appdata, config_dir)
            == Root::Dir(dir)),
        appdata is None && config_dir is None ==> data_root(appdata, config_dir) is WorkingDir,
{
}

/// Two processes that write the same file do not share a temporary file; it is
/// hidden, and holds the name of the file.
pub proof fn processes_have_their_own_files(name: Seq<char>, a: u32, b: u32)
    ensures
        a != b ==> temp_name(name, a) != temp_name(name, b),
        temp_name(name, a)[0] == '.',
        temp_name(name, a).subrange(1, 1 + name.len() as int) == name,
{
    reveal_strlit(".");
    reveal_strlit(".tmp");
    let x = temp_name(name, a);
    let y = temp_name(name, b);
    let from = name.len() + 2;
    assert(x.subrange(1, 1 + name.len() as int) == name);
    assert(x.subrange(from as int, x.len() - 4) == decimal(a as nat));
    assert(y.subrange(from as int, y.len() - 4) == decimal(b as nat));
    crate::text::decimal_reads_back(a as nat);
    crate::text::decimal_reads_back(b as nat);
}

/// The steps of a write that goes well: the directory, the temporary file, its
/// contents, and those forced to the disk, before the file itself is touched; it is
/// removed first only where it has to be, and the renaming comes last.
pub proof fn writes_go_step_by_step(replaces: bool)
    ensures
        write_step_after(WriteStep::CreateDirectory, true, replaces) == WriteStep::CreateTemp,
        write_step_after(WriteStep::CreateTemp, true, replaces) == WriteStep::FillTemp,
        write_step_after(WriteStep::FillTemp, true, replaces) == WriteStep::SyncTemp,
        write_step_after(WriteStep::SyncTemp, true, false) == WriteStep::RenameTemp,
        write_step_after(WriteStep::SyncTemp, true, true) == WriteStep::RemoveTarget,
        write_step_after(WriteStep::RemoveTarget, true, replaces) == WriteStep::RenameTemp,
        write_step_after(WriteStep::RenameTemp, true, replaces) == WriteStep::Finished,
{
}

/// A write ends well only if every step did, and nothing follows its end: a step
/// that fails ends it, and after a renaming that failed the temporary file is
/// removed before.
pub proof fn writes_end(step: WriteStep, ok: bool, replaces: bool)
    ensures
        ({
            let next = write_step_after(step, ok, replaces);
            &&& next == WriteStep::Finished <==> step == WriteStep::Finished || step
                == WriteStep::RenameTemp && ok
            &&& step == WriteStep::RenameTemp && !ok ==> next == WriteStep::DiscardTemp
            &&& step == WriteStep::DiscardTemp || step == WriteStep::Failed ==> next
                == WriteStep::Failed
            &&& !ok && step != WriteStep::RenameTemp && step != WriteStep::Finished ==> next
                == WriteStep::Failed
            &&& next == WriteStep::RemoveTarget ==> replaces
        }),
{
}

/// A write whose steps all go well is finished after as many as it has: the file
/// then holds the new contents, whatever it held.
pub proof fn writes_that_go_well_finish(
    disk: Disk,
    raw: Seq<u8>,
    replaces: bool,
    outcomes: Seq<(bool, Seq<u8>)>,
)
    requires
        forall|i: int| 0 <= i < outcomes.len() ==> (#[trigger] outcomes[i]).0,
        outcomes.len() == (if replaces {
            6
        } else {
            5int
        }),
    ensures
        write_after(disk, raw, replaces, outcomes).0 == WriteStep::Finished,
        write_after(disk, raw, replaces, outcomes).1.target == Some(raw),
        write_after(disk, raw, replaces, outcomes).1.temp is None,
{
    going_well(disk, raw, replaces, outcomes, outcomes.len() as int);
    assert(outcomes.take(outcomes.len() as int) == outcomes);
    writes_are_all_or_nothing(disk, raw, replaces, outcomes);
}

proof fn going_well(
    disk: Disk,
    raw: Seq<u8>,
    replaces: bool,
    outcomes: Seq<(bool, Seq<u8>)>,
    n: int,
)
    requires
        forall|i: int| 0 <= i < outcomes.len() ==> (#[trigger] outcomes[i]).0,
        0 <= n <= outcomes.len() <= 6,
        !replaces ==> outcomes.len() <= 5,
    ensures
        write_after(disk, raw, replaces, outcomes.take(n)).0 == (if n == 0 {
            WriteStep::CreateDirectory
        } else if n == 1 {
            WriteStep::CreateTemp
        } else if n == 2 {
            WriteStep::FillTemp
        } else if n == 3 {
            WriteStep::SyncTemp
        } else if n == 4 && replaces {
            WriteStep::RemoveTarget
        } else if n == 4 || n == 5 && replaces {
            WriteStep::RenameTemp
        } else {
            WriteStep::Finished
        }),
    decreases n,
{
    if n > 0 {
        going_well(disk, raw, replaces, outcomes, n - 1);
        assert(outcomes.take(n).drop_last() == outcomes.take(n - 1));
        assert(outcomes.take(n).last() == outcomes[n - 1]);
    }
}

} // verus!
