//! The two languages of the user interface and its string table.

use vstd::prelude::*;

use crate::text::same_text;

verus! {

/// A choice of language for the user interface.
#[derive(Clone, Copy, Debug, PartialEq, Eq, Structural)]
pub enum Language {
    /// The language that Windows uses.
    Auto,
    SimplifiedChinese,
    English,
}

/// The texts of the user interface.
#[derive(Clone, Copy, Debug, PartialEq, Eq, Structural)]
pub enum Text {
    NoDevicesFound,
    SelectedDeviceOffline,
    SelectDevice,
    /// The mode that follows the lowest battery.
    AutomaticLowest,
    Refresh,
    TextMode,
    PollInterval,
    Notifications,
    Threshold,
    Cooldown,
    Autostart,
    OpenConfig,
    Exit,
    NoDevices,
    /// `{n}` stands for the number of devices.
    MoreDevices,
    Percent,
    Charging,
    Language,
    /// The language that Windows uses.
    Automatic,
    CheckForUpdates,
    /// Goes before a version, hence the trailing separator.
    UpdateAvailable,
    UpdateToastBody,
    LowBattery,
    Seconds15,
    Seconds30,
    Minute1,
    Minutes2,
    Minutes3,
    Minutes5,
    Minutes15,
    Minutes30,
    Hour1,
    Hours2,
    Hours4,
    Hours8,
}

/// The English text.
pub open spec fn english(key: Text) -> Seq<char> {
    match key {
        Text::NoDevicesFound => "No Logitech devices found"@,
        Text::SelectedDeviceOffline => "Selected device not connected"@,
        Text::SelectDevice => "Select Device"@,
        Text::AutomaticLowest => "Automatic (lowest battery)"@,
        Text::Refresh => "Refresh now"@,
        Text::TextMode => "Show percentage as text"@,
        Text::PollInterval => "Poll interval"@,
        Text::Notifications => "Enable low-battery notifications"@,
        Text::Threshold => "Low battery alert at"@,
        Text::Cooldown => "Reminder interval"@,
        Text::Autostart => "Start at login"@,
        Text::OpenConfig => "Open config file…"@,
        Text::Exit => "Exit"@,
        Text::NoDevices => "No devices"@,
        Text::MoreDevices => "+{n} more"@,
        Text::Percent => "%"@,
        Text::Charging => "% (charging)"@,
        Text::Language => "Language"@,
        Text::Automatic => "Automatic (Windows language)"@,
        Text::CheckForUpdates => "Check for updates automatically"@,
        Text::UpdateAvailable => "Update available: "@,
        Text::UpdateToastBody => "Click to open the download page"@,
        Text::LowBattery => "Battery low, plug in charger soon"@,
        Text::Seconds15 => "15 seconds"@,
        Text::Seconds30 => "30 seconds"@,
        Text::Minute1 => "1 minute"@,
        Text::Minutes2 => "2 minutes"@,
        Text::Minutes3 => "3 minutes"@,
        Text::Minutes5 => "5 minutes"@,
        Text::Minutes15 => "15 minutes"@,
        Text::Minutes30 => "30 minutes"@,
        Text::Hour1 => "1 hour"@,
        Text::Hours2 => "2 hours"@,
        Text::Hours4 => "4 hours"@,
        Text::Hours8 => "8 hours"@,
    }
}

/// The text in simplified Chinese.
pub open spec fn chinese(key: Text) -> Seq<char> {
    match key {
        Text::NoDevicesFound => "未找到罗技设备"@,
        Text::SelectedDeviceOffline => "所选设备未连接"@,
        Text::SelectDevice => "选择设备"@,
        Text::AutomaticLowest => "自动（电量最低）"@,
        Text::Refresh => "立即刷新"@,
        Text::TextMode => "以文字显示百分比"@,
        Text::PollInterval => "轮询间隔"@,
        Text::Notifications => "启用低电量通知"@,
        Text::Threshold => "低电量提醒阈值"@,
        Text::Cooldown => "提醒间隔"@,
        Text::Autostart => "开机自动启动"@,
        Text::OpenConfig => "打开配置文件…"@,
        Text::Exit => "退出"@,
        Text::NoDevices => "无设备"@,
        Text::MoreDevices => "还有 {n} 个"@,
        Text::Percent => "%"@,
        Text::Charging => "%（充电中）"@,
        Text::Language => "语言"@,
        Text::Automatic => "自动（Windows 语言）"@,
        Text::CheckForUpdates => "自动检查更新"@,
        Text::UpdateAvailable => "有可用更新："@,
        Text::UpdateToastBody => "点击前往下载页面"@,
        Text::LowBattery => "电量低，请及时连接充电器"@,
        Text::Seconds15 => "15 秒"@,
        Text::Seconds30 => "30 秒"@,
        Text::Minute1 => "1 分钟"@,
        Text::Minutes2 => "2 分钟"@,
        Text::Minutes3 => "3 分钟"@,
        Text::Minutes5 => "5 分钟"@,
        Text::Minutes15 => "15 分钟"@,
        Text::Minutes30 => "30 分钟"@,
        Text::Hour1 => "1 小时"@,
        Text::Hours2 => "2 小时"@,
        Text::Hours4 => "4 小时"@,
        Text::Hours8 => "8 小时"@,
    }
}

/// A text as shown in a given language. Only simplified Chinese is not English.
pub open spec fn shown(language: Language, key: Text) -> Seq<char> {
    if language == Language::SimplifiedChinese {
        chinese(key)
    } else {
        english(key)
    }
}

/// Whether a Windows language id stands for simplified Chinese, as used in
/// mainland China and Singapore.
pub open spec fn is_simplified_chinese(id: u16) -> bool {
    id == 0x0804 || id == 0x1004 || id == 0x0004 || id == 0x7804
}

/// The language that is shown for a choice, where Windows uses language `id`.
pub open spec fn resolved(choice: Language, id: u16) -> Language {
    match choice {
        Language::Auto => if is_simplified_chinese(id) {
            Language::SimplifiedChinese
        } else {
            Language::English
        },
        Language::SimplifiedChinese => Language::SimplifiedChinese,
        Language::English => Language::English,
    }
}

/// How a choice of language is written in the configuration.
pub open spec fn written(choice: Language) -> Seq<char> {
    match choice {
        Language::Auto => "auto"@,
        Language::SimplifiedChinese => "zh-CN"@,
        Language::English => "en"@,
    }
}

/// The choice of language that a text in the configuration stands for. What is
/// not known stands for English.
pub open spec fn chosen(text: Seq<char>) -> Language {
    if text == "auto"@ {
        Language::Auto
    } else if text == "zh-CN"@ {
        Language::SimplifiedChinese
    } else {
        Language::English
    }
}

impl Default for Language {
    fn default() -> (language: Self)
        ensures
            language == Language::Auto,
    {
        Language::Auto
    }
}

impl Language {
    /// The language to show. `ui_language` is the id of the language that
    /// Windows uses; other systems have none.
    pub fn resolve(self, ui_language: Option<u16>) -> (language: Self)
        ensures
            language == resolved(
                self,
                if ui_language is Some {
                    ui_language->0
                } else {
                    0
                },
            ),
    {
        match ui_language {
            Some(id) => self.resolve_with_ui_language(id),
            None => self.resolve_with_ui_language(0),
        }
    }

    /// The language to show where Windows uses the language `id`.
    pub fn resolve_with_ui_language(self, id: u16) -> (language: Self)
        ensures
            language == resolved(self, id),
    {
        match self {
            Language::Auto => if id == 0x0804 || id == 0x1004 || id == 0x0004 || id == 0x7804 {
                Language::SimplifiedChinese
            } else {
                Language::English
            },
            Language::SimplifiedChinese => Language::SimplifiedChinese,
            Language::English => Language::English,
        }
    }

    /// The choice that a text in the configuration stands for.
    pub fn from_config(text: &str) -> (language: Self)
        ensures
            language == chosen(text@),
    {
        if same_text(text, "auto") {
            Language::Auto
        } else if same_text(text, "zh-CN") {
            Language::SimplifiedChinese
        } else {
            Language::English
        }
    }

    /// How this choice is written in the configuration.
    pub fn to_config(self) -> (text: &'static str)
        ensures
            text@ == written(self),
    {
        match self {
            Language::Auto => "auto",
            Language::SimplifiedChinese => "zh-CN",
            Language::English => "en",
        }
    }

    /// A text of the user interface.
    pub fn text(self, key: Text) -> (text: &'static str)
        ensures
            text@ == shown(self, key),
    {
        let (english, chinese): (&'static str, &'static str) = match key {
            Text::NoDevicesFound => ("No Logitech devices found", "未找到罗技设备"),
            Text::SelectedDeviceOffline => ("Selected device not connected", "所选设备未连接"),
            Text::SelectDevice => ("Select Device", "选择设备"),
            Text::AutomaticLowest => ("Automatic (lowest battery)", "自动（电量最低）"),
            Text::Refresh => ("Refresh now", "立即刷新"),
            Text::TextMode => ("Show percentage as text", "以文字显示百分比"),
            Text::PollInterval => ("Poll interval", "轮询间隔"),
            Text::Notifications => ("Enable low-battery notifications", "启用低电量通知"),
            Text::Threshold => ("Low battery alert at", "低电量提醒阈值"),
            Text::Cooldown => ("Reminder interval", "提醒间隔"),
            Text::Autostart => ("Start at login", "开机自动启动"),
            Text::OpenConfig => ("Open config file…", "打开配置文件…"),
            Text::Exit => ("Exit", "退出"),
            Text::NoDevices => ("No devices", "无设备"),
            Text::MoreDevices => ("+{n} more", "还有 {n} 个"),
            Text::Percent => ("%", "%"),
            Text::Charging => ("% (charging)", "%（充电中）"),
            Text::Language => ("Language", "语言"),
            Text::Automatic => ("Automatic (Windows language)", "自动（Windows 语言）"),
            Text::CheckForUpdates => ("Check for updates automatically", "自动检查更新"),
            Text::UpdateAvailable => ("Update available: ", "有可用更新："),
            Text::UpdateToastBody => ("Click to open the download page", "点击前往下载页面"),
            Text::LowBattery => ("Battery low, plug in charger soon", "电量低，请及时连接充电器"),
            Text::Seconds15 => ("15 seconds", "15 秒"),
            Text::Seconds30 => ("30 seconds", "30 秒"),
            Text::Minute1 => ("1 minute", "1 分钟"),
            Text::Minutes2 => ("2 minutes", "2 分钟"),
            Text::Minutes3 => ("3 minutes", "3 分钟"),
            Text::Minutes5 => ("5 minutes", "5 分钟"),
            Text::Minutes15 => ("15 minutes", "15 分钟"),
            Text::Minutes30 => ("30 minutes", "30 分钟"),
            Text::Hour1 => ("1 hour", "1 小时"),
            Text::Hours2 => ("2 hours", "2 小时"),
            Text::Hours4 => ("4 hours", "4 小时"),
            Text::Hours8 => ("8 hours", "8 小时"),
        };
        if self == Language::SimplifiedChinese {
            chinese
        } else {
            english
        }
    }
}

/// A choice of language survives being written to the configuration.
pub proof fn languages_read_back(choice: Language)
    ensures
        chosen(written(choice)) == choice,
{
    reveal_strlit("auto");
    reveal_strlit("zh-CN");
    reveal_strlit("en");
    assert("auto"@.len() == 4 && "zh-CN"@.len() == 5 && "en"@.len() == 2);
}

/// What is shown is always one of the two languages, a language chosen by name
/// is shown whatever Windows uses, and resolving again changes nothing.
pub proof fn resolving_settles_the_language(choice: Language, id: u16, other: u16)
    ensures
        resolved(choice, id) != Language::Auto,
        choice != Language::Auto ==> resolved(choice, id) == choice,
        resolved(resolved(choice, id), other) == resolved(choice, id),
{
}

/// Without a choice, Chinese is shown where Windows uses the Chinese of the
/// mainland or of Singapore, or simplified Chinese without a place, and English
/// everywhere else.
pub proof fn the_language_of_windows_is_shown(id: u16)
    ensures
        id == 0x0804 || id == 0x1004 || id == 0x0004 || id == 0x7804 ==> resolved(
            Language::Auto,
            id,
        ) == Language::SimplifiedChinese,
        id != 0x0804 && id != 0x1004 && id != 0x0004 && id != 0x7804 ==> resolved(
            Language::Auto,
            id,
        ) == Language::English,
{
}

/// What stands in the configuration for a language is taken letter for letter, and
/// whatever is unknown is taken for English.
pub proof fn unknown_languages_are_english(text: Seq<char>)
    ensures
        chosen(text) == Language::Auto <==> text == "auto"@,
        chosen(text) == Language::SimplifiedChinese <==> text == "zh-CN"@,
        chosen(text) == Language::English <==> text != "auto"@ && text != "zh-CN"@,
        written(Language::Auto) == "auto"@,
        written(Language::SimplifiedChinese) == "zh-CN"@,
        written(Language::English) == "en"@,
{
    languages_read_back(Language::Auto);
    languages_read_back(Language::SimplifiedChinese);
}

/// Chinese is shown to those who read Chinese, and English to everybody else.
pub proof fn texts_are_in_the_language(language: Language, key: Text)
    ensures
        language == Language::SimplifiedChinese ==> shown(language, key) == chinese(key),
        language != Language::SimplifiedChinese ==> shown(language, key) == english(key),
{
}

} // verus!
