//! The languages of the user interface.

use logitray::i18n::{Language, Text};

#[test]
fn automatic_detection_and_overrides() {
    let ids = [
        0x0804, 0x1004, 0x0004, 0x7804, 0, 0x0409, 0x0407, 0x0404, 0x0c04, 0x1404,
    ];
    let actual: Vec<_> = ids
        .into_iter()
        .map(|id| {
            (
                Language::Auto.resolve_with_ui_language(id),
                Language::English.resolve_with_ui_language(id),
                Language::SimplifiedChinese.resolve_with_ui_language(id),
            )
        })
        .collect();
    let en = Language::English;
    let zh = Language::SimplifiedChinese;
    let expected = [
        (zh, en, zh),
        (zh, en, zh),
        (zh, en, zh),
        (zh, en, zh),
        (en, en, zh),
        (en, en, zh),
        (en, en, zh),
        (en, en, zh),
        (en, en, zh),
        (en, en, zh),
    ];
    assert_eq!(actual, expected);
}

#[test]
fn visible_text_uses_selected_language() {
    let actual: Vec<_> = [Language::English, Language::SimplifiedChinese]
        .into_iter()
        .map(|language| {
            [
                Text::SelectDevice,
                Text::Charging,
                Text::LowBattery,
                Text::Minutes30,
            ]
            .map(|key| language.text(key))
        })
        .collect();
    assert_eq!(
        actual,
        [
            [
                "Select Device",
                "% (charging)",
                "Battery low, plug in charger soon",
                "30 minutes"
            ],
            [
                "选择设备",
                "%（充电中）",
                "电量低，请及时连接充电器",
                "30 分钟"
            ],
        ]
    );
}

#[test]
fn languages_survive_the_configuration() {
    for choice in [
        Language::Auto,
        Language::English,
        Language::SimplifiedChinese,
    ] {
        assert_eq!(Language::from_config(choice.to_config()), choice);
    }
    assert_eq!(Language::from_config("ZH-cn"), Language::English);
    assert_eq!(Language::default(), Language::Auto);
}

#[test]
fn other_systems_have_no_display_language() {
    assert_eq!(Language::Auto.resolve(None), Language::English);
    assert_eq!(
        Language::Auto.resolve(Some(0x0804)),
        Language::SimplifiedChinese
    );
}
