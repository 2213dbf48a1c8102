//! Texts, their order, and the map that is ordered by them.

use logitray::cut::{begins_with, replace_all, stack, strip, to_lower, trim};
use logitray::model::{device_key, listing, BatteryState, PollResult};
use logitray::order::{rank, Rank};
use logitray::text::{chars_of, decimal_string, parse_number, push_hex2, push_hex4, same_text};
use logitray::textmap::TextMap;

#[test]
fn numbers_are_written_and_read() {
    assert_eq!(decimal_string(0), "0");
    assert_eq!(decimal_string(u64::MAX), "18446744073709551615");
    let read = |text: &str, max| parse_number(&chars_of(text), max);
    assert_eq!(read("18446744073709551615", u64::MAX), Some(u64::MAX));
    assert_eq!(read("18446744073709551616", u64::MAX), None);
    assert_eq!(read("+007", 7), Some(7));
    assert_eq!(read("8", 7), None);
    assert_eq!(read("-1", 7), None);
    assert_eq!(read("+", 7), None);
    assert_eq!(read("٣", 7), None);
    let mut text = "x".to_string();
    push_hex4(&mut text, 0x0a1f, true);
    push_hex4(&mut text, 0x0a1f, false);
    push_hex2(&mut text, 0x2b);
    assert_eq!(text, "x0A1F0a1f2B");
    assert_eq!(device_key(0xC52B, 12), "C52B:12");
}

#[test]
fn texts_are_cut() {
    assert!(begins_with("C547:1", "C547:"));
    assert!(!begins_with("C54", "C547:"));
    assert_eq!(strip("poll:60", "poll:").as_deref(), Some("60"));
    assert_eq!(strip("poll", "poll:"), None);
    assert_eq!(trim("\u{a0} é \u{2028}"), "é");
    assert_eq!(to_lower("ÄDebug"), "Ädebug");
    assert_eq!(replace_all("a{n}{n}b", "{n}", "{n}1"), "a{n}1{n}1b");
    let lines = ["a".to_string(), "".to_string(), "c".to_string()];
    assert_eq!(stack(&lines, 3), "a\n\nc");
    assert_eq!(stack(&lines, 2), "a\n");
    assert!(same_text("é", "é") && !same_text("é", "e\u{301}"));
}

#[test]
fn texts_are_ordered_as_strings_are() {
    let texts = ["", "C52B:1", "C52B:10", "C52B:2", "c", "é", "\u{ffff}", "😀"];
    for (i, a) in texts.iter().enumerate() {
        for (j, b) in texts.iter().enumerate() {
            let expected = match (i < j, i == j) {
                (true, _) => Rank::Before,
                (_, true) => Rank::Same,
                _ => Rank::After,
            };
            assert_eq!(rank(a, b), expected);
            assert_eq!(a < b, i < j);
        }
    }
}

#[test]
fn a_map_keeps_its_keys_in_order() {
    let mut map: TextMap<u8> = TextMap::new();
    for (key, value) in [("b", 1), ("a", 2), ("c", 3), ("a", 4), ("ab", 5)] {
        map.insert(key.to_string(), value);
    }
    assert_eq!(map.keys(), ["a", "ab", "b", "c"]);
    assert_eq!(map.len(), 4);
    assert_eq!(map.get("a"), Some(&4));
    assert_eq!(map.get("d"), None);
    map.remove("b");
    map.remove("d");
    assert_eq!(map.keys(), ["a", "ab", "c"]);
    assert_eq!(map.value_at(2), &3);
    map.remove_prefixed("a");
    assert_eq!(map.keys(), ["c"]);
}

fn named(name: &str, pid: u16, key: &str, percent: u8) -> BatteryState {
    BatteryState {
        device_key: key.to_string(),
        display_name: name.to_string(),
        pid,
        device_index: 1,
        battery_percent: percent,
        is_charging: false,
    }
}

#[test]
fn devices_of_equal_rank_stay_as_they_came() {
    let list = [
        named("b", 1, "k", 1),
        named("a", 2, "k", 2),
        named("a", 1, "l", 3),
        named("a", 1, "k", 4),
        named("a", 1, "k", 5),
        named("B", 9, "z", 6),
    ];
    let order: Vec<u8> = listing(&list).iter().map(|d| d.battery_percent).collect();
    assert_eq!(order, [6, 4, 5, 3, 2, 1]);

    let mut result = PollResult::default();
    result.devices.push(named("z", 1, "k", 1));
    result.devices.push(named("a", 1, "k", 2));
    result.errors.push("kept".to_string());
    result.sort_devices();
    assert_eq!(result.devices[0].display_name, "a");
    assert_eq!(result.errors, ["kept"]);
}
