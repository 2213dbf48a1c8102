//! Receivers and devices: finding them, asking them, and reading their replies.

use logitray::hid::client::{
    continue_device, name_from, query_device, read_battery, without_padding, DeviceCache,
    FeatureCache, Query, QueryError, Stage,
};
use logitray::hid::exchange::{report_of, Exchange, ExchangeError, ExchangeStep};
use logitray::hid::protocol::{
    get_feature, is_charging_from_flags, is_charging_from_status, mv_to_percent, ping, ShortMsg,
    LONG_REPORT_ID, MAX_RETRIES, SW_ID,
};
use logitray::hid::receiver::{open_failed, ReceiverQuery};
use logitray::hid::scanner::{scan_receivers, HidInterface, ReceiverPath};
use logitray::model::PollResult;

fn interface(vendor_id: u16, product_id: u16, usage_page: u16, usage: u16, path: &str) -> HidInterface {
    HidInterface {
        vendor_id,
        product_id,
        usage_page,
        usage,
        path: path.as_bytes().to_vec(),
    }
}

fn scanned(interfaces: &[HidInterface]) -> Vec<(u16, String)> {
    let mut found: Vec<_> = scan_receivers(interfaces)
        .into_iter()
        .map(|ReceiverPath { pid, path }| (pid, String::from_utf8(path).unwrap()))
        .collect();
    found.sort();
    found
}

#[test]
fn the_long_interface_of_a_receiver_is_preferred() {
    let interfaces = [
        interface(0x046D, 0xC52B, 0xFF00, 1, "short"),
        interface(0x046D, 0xC52B, 0xFF00, 2, "long"),
        interface(0x046D, 0xC52B, 0xFF00, 1, "short again"),
        interface(0x046D, 0xC52B, 0xFF00, 2, "long again"),
        interface(0x046D, 0xC547, 0xFF00, 1, "one"),
        interface(0x046D, 0xC547, 0xFF00, 4, "two"),
        interface(0x046D, 0xC548, 0x0001, 2, "mouse"),
        interface(0x1532, 0xC549, 0xFF00, 2, "other vendor"),
    ];
    assert_eq!(
        scanned(&interfaces),
        [
            (0xC52B, "long".to_string()),
            (0xC547, "two".to_string()),
        ]
    );
    assert_eq!(scanned(&[]), []);
}

#[test]
fn requests_are_written_as_long_reports() {
    let request = ping(3, 0x56).encode_long();
    assert_eq!(request.len(), 20);
    assert_eq!(request[..7], [0x11, 3, 0, 0x10 + SW_ID, 0, 0, 0x56]);
    assert_eq!(request[7..], [0; 13]);
    let root = get_feature(2, 0x1004).encode_long();
    assert_eq!(root[..7], [0x11, 2, 0, SW_ID, 0x10, 0x04, 0]);
}

#[test]
fn reports_are_read_with_and_without_a_prefix() {
    let bare = [0x11, 1, 2, 3, 4, 5, 6, 7, 8];
    assert_eq!(report_of(&bare), Some([0x11, 1, 2, 3, 4, 5, 6]));
    let prefixed = [0, 0x10, 1, 2, 3, 4, 5, 6];
    assert_eq!(report_of(&prefixed), Some([0x10, 1, 2, 3, 4, 5, 6]));
    // Too short to hold a prefix and a report.
    assert_eq!(report_of(&prefixed[..7]), Some([0, 0x10, 1, 2, 3, 4, 5]));
    assert_eq!(report_of(&prefixed[..6]), None);
    assert!(ShortMsg::is_error(&[0x10, 1, 0x8f, 0, 0, 0, 0]));
    assert!(ShortMsg::is_error(&[0x11, 1, 0xff, 0, 0, 0, 0]));
    assert_eq!(ShortMsg::sw_id(&[0x11, 1, 2, 0x3a, 0, 0, 0]), 0x0a);
}

fn failure(step: ExchangeStep) -> ExchangeError {
    match step {
        ExchangeStep::Failed(err) => err,
        other => panic!("unexpected step: {other:?}"),
    }
}

#[test]
fn a_request_is_repeated_until_the_device_counts_as_silent() {
    let mut exchange = Exchange::new(get_feature(1, 0x0001));
    assert!(matches!(exchange.after_write(true), ExchangeStep::Read));
    for _ in 1..MAX_RETRIES {
        assert!(matches!(
            exchange.after_read(Some(&[])),
            ExchangeStep::Resend
        ));
    }
    let err = failure(exchange.after_read(Some(&[])));
    assert_eq!(
        err.message(),
        format!("no response after {MAX_RETRIES} attempts for feature 0x00")
    );
}

#[test]
fn only_the_reply_to_the_request_is_taken() {
    let mut exchange = Exchange::new(ShortMsg::new(1, 0x2b, 0, [0, 0, 0]));
    // A notification, and the reply to somebody else.
    for other in [[0x11, 1, 0x2b, 0x00, 9, 9, 9], [0x11, 1, 0x2c, SW_ID, 9, 9, 9]] {
        assert!(matches!(
            exchange.after_read(Some(&other)),
            ExchangeStep::Read
        ));
    }
    assert!(matches!(
        exchange.after_read(Some(&[1, 2, 3])),
        ExchangeStep::Read
    ));
    match exchange.after_read(Some(&[0x11, 1, 0x2b, SW_ID, 7, 8, 9])) {
        ExchangeStep::Done(reply) => assert_eq!(reply, [0x11, 1, 0x2b, SW_ID, 7, 8, 9]),
        other => panic!("unexpected step: {other:?}"),
    }
}

#[test]
fn failures_say_what_failed() {
    let mut exchange = Exchange::new(ShortMsg::new(1, 0x2b, 0, [0, 0, 0]));
    assert_eq!(
        failure(exchange.after_write(false)).message(),
        "HID write failed"
    );
    assert_eq!(
        failure(exchange.after_read(None)).message(),
        "HID read failed"
    );
    assert_eq!(
        failure(exchange.after_read(Some(&[0x10, 1, 0x8f, 0x2b, 0, 5, 0]))).message(),
        "HID++ error response for feature 0x2B"
    );
    assert_eq!(
        QueryError::Enumeration.message(4),
        "feature enumeration failed for index 4"
    );
    assert_eq!(
        QueryError::Unsupported(0x10a5).message(4),
        "unsupported battery feature 0x10A5"
    );
}

#[test]
fn battery_states_are_told() {
    let charging: Vec<u8> = (0..=7).filter(|&s| is_charging_from_status(s)).collect();
    assert_eq!(charging, [1, 2, 3, 4]);
    assert!(is_charging_from_flags(0x80));
    assert!(!is_charging_from_flags(0x7f));
    let levels: Vec<u8> = [u16::MAX, 4186, 4185, 3811, 3810, 3579, 3578, 0]
        .into_iter()
        .map(mv_to_percent)
        .collect();
    assert_eq!(levels, [100, 100, 90, 50, 40, 2, 0, 0]);
}

#[test]
fn names_are_read_as_utf8() {
    assert_eq!(name_from("MX Keys für Mac\0\0".as_bytes()), "MX Keys für Mac");
    assert_eq!(name_from(b"G\xffPro"), "G\u{fffd}Pro");
    assert_eq!(name_from(b"\0a\0"), "\0a");
    assert_eq!(without_padding("\0\0"), "");
}

/// A device as its receiver presents it.
struct Device {
    index: u8,
    /// The features from index 1 on. The feature set is at index 1.
    features: Vec<u16>,
    name: &'static [u8],
    battery: [u8; 3],
    /// The request, counted from zero, that fails.
    fails_at: Option<usize>,
}

impl Device {
    fn reply(&self, request: &ShortMsg, nth: usize) -> Result<[u8; 7], ExchangeError> {
        if self.fails_at == Some(nth) {
            return Err(ExchangeError::Read);
        }
        let place = |id: u16| {
            self.features
                .iter()
                .rposition(|&f| f == id)
                .map_or(0, |p| p as u8 + 1)
        };
        let asked = match request.feature_index {
            0 => 0,
            index => self.features[index as usize - 1],
        };
        let params = match (asked, request.function) {
            (0, 0) => [
                place(u16::from(request.param0) << 8 | u16::from(request.param1)),
                0,
                0,
            ],
            (0, _) => [4, 2, request.param2],
            (0x0001, 0) => [self.features.len() as u8, 0, 0],
            (0x0001, _) => {
                let id = self.features[request.param0 as usize - 1];
                [(id >> 8) as u8, id as u8, 0]
            }
            (0x0005, 0) => [self.name.len() as u8, 0, 0],
            (0x0005, _) => {
                let at = request.param0 as usize;
                let byte = |i: usize| self.name.get(at + i).copied().unwrap_or(0xee);
                [byte(0), byte(1), byte(2)]
            }
            _ => self.battery,
        };
        let head = request.encode_long();
        Ok([
            LONG_REPORT_ID,
            head[1],
            head[2],
            head[3],
            params[0],
            params[1],
            params[2],
        ])
    }
}

/// Polls a receiver with the given devices, and returns how many requests that
/// took.
fn poll(pid: u16, devices: &[Device], cache: &mut FeatureCache, result: &mut PollResult) -> usize {
    let mut query = ReceiverQuery::new(pid);
    let mut made = 0;
    let mut nth = 0;
    let mut current = 0;
    while let Some(request) = query.request() {
        if request.device_index != current {
            current = request.device_index;
            nth = 0;
        }
        let reply = match devices.iter().find(|d| d.index == request.device_index) {
            Some(device) => device.reply(&request, nth),
            None => Err(ExchangeError::Silent { feature: 0 }),
        };
        query = query.after_reply(reply, cache, result);
        nth += 1;
        made += 1;
    }
    made
}

fn mouse() -> Device {
    Device {
        index: 2,
        features: vec![0x0001, 0x0005, 0, 0x1004],
        name: b"MX Master 3S\0\0",
        battery: [55, 4, 1],
        fails_at: None,
    }
}

fn summary(result: &PollResult) -> Vec<(String, String, u8, bool)> {
    result
        .devices
        .iter()
        .map(|d| {
            (
                d.device_key.clone(),
                d.display_name.clone(),
                d.battery_percent,
                d.is_charging,
            )
        })
        .collect()
}

#[test]
fn a_new_device_is_enumerated_once() {
    let mut cache = FeatureCache::new();
    let mut result = PollResult::new();
    // Six looks, then set, count, four features, name length, five name parts,
    // and the battery.
    assert_eq!(poll(0xC52B, &[mouse()], &mut cache, &mut result), 6 + 13);
    assert_eq!(
        summary(&result),
        [("C52B:2".to_string(), "MX Master 3S".to_string(), 55, true)]
    );
    assert!(result.errors.is_empty());

    let mut again = PollResult::new();
    assert_eq!(poll(0xC52B, &[mouse()], &mut cache, &mut again), 6 + 1);
    assert_eq!(summary(&again), summary(&result));
}

#[test]
fn the_battery_feature_is_chosen_in_order() {
    let mut cache = FeatureCache::new();
    let mut result = PollResult::new();
    let voltage = Device {
        index: 1,
        features: vec![0x0001, 0x1004, 0x1001],
        name: b"",
        battery: [0x0f, 0xa0, 0x80],
        fails_at: None,
    };
    let level = Device {
        index: 6,
        features: vec![0x0001, 0x1001, 0x1000],
        name: b"",
        battery: [30, 20, 0],
        fails_at: None,
    };
    poll(0xC547, &[voltage, level], &mut cache, &mut result);
    assert_eq!(
        summary(&result),
        [
            // 4000 mV.
            ("C547:1".to_string(), "Logitech Device (index 1)".to_string(), 80, true),
            ("C547:6".to_string(), "Logitech Device (index 6)".to_string(), 30, false),
        ]
    );
}

#[test]
fn a_device_without_a_battery_is_left_out() {
    let mut cache = FeatureCache::new();
    let mut result = PollResult::new();
    let plain = Device {
        index: 3,
        features: vec![0x0001, 0x0005],
        name: b"Receiver",
        battery: [0, 0, 0],
        fails_at: None,
    };
    assert_eq!(poll(0xC52B, &[plain], &mut cache, &mut result), 6 + 4);
    assert!(result.devices.is_empty() && result.errors.is_empty());
    match query_device(0xC52B, 3, &cache) {
        Query::Finished(Ok(None)) => {}
        _ => panic!("the device is asked again"),
    }
}

#[test]
fn a_failed_enumeration_is_repeated() {
    for fails_at in 1..=6 {
        let mut cache = FeatureCache::new();
        let mut result = PollResult::new();
        let failing = Device {
            fails_at: Some(fails_at),
            ..mouse()
        };
        poll(0xC52B, &[failing], &mut cache, &mut result);
        assert!(result.devices.is_empty());
        assert_eq!(
            result.errors,
            ["receiver C52B index 2: feature enumeration failed for index 2"]
        );
        assert!(matches!(query_device(0xC52B, 2, &cache), Query::Ask(_)));
        assert_eq!(cache.devices.len(), 0);
    }
}

#[test]
fn a_name_that_cannot_be_read_is_replaced() {
    for fails_at in 7..=12 {
        let mut cache = FeatureCache::new();
        let mut result = PollResult::new();
        let failing = Device {
            fails_at: Some(fails_at),
            ..mouse()
        };
        poll(0xC52B, &[failing], &mut cache, &mut result);
        assert_eq!(
            summary(&result),
            [(
                "C52B:2".to_string(),
                "Logitech Device (index 2)".to_string(),
                55,
                true
            )]
        );
    }
}

#[test]
fn a_battery_that_cannot_be_read_is_reported() {
    let mut cache = FeatureCache::new();
    let mut result = PollResult::new();
    open_failed(0xC548, &mut result);
    let failing = Device {
        fails_at: Some(13),
        ..mouse()
    };
    let other = Device {
        index: 5,
        ..mouse()
    };
    poll(0xC52B, &[failing, other], &mut cache, &mut result);
    assert_eq!(
        result.errors,
        [
            "receiver C548: failed to open receiver C548",
            "receiver C52B index 2: HID read failed",
        ]
    );
    assert_eq!(result.devices.len(), 1);
    assert_eq!(result.devices[0].device_key, "C52B:5");
}

#[test]
fn an_unknown_battery_feature_is_refused() {
    let mut cache = FeatureCache::default();
    cache.devices.insert(
        "C52B:1".to_string(),
        DeviceCache {
            battery: Some((0x1002, 3)),
            display_name: "Odd".to_string(),
        },
    );
    match query_device(0xC52B, 1, &cache) {
        Query::Finished(Err(err)) => assert_eq!(err, QueryError::Unsupported(0x1002)),
        _ => panic!("the device is asked"),
    }
}

#[test]
fn a_wrong_echo_is_no_device() {
    let mut cache = FeatureCache::new();
    let mut result = PollResult::new();
    let query = ReceiverQuery::new(0xC52B);
    let echo = 0x55 ^ 1;
    assert_eq!(query.request().unwrap().param2, echo);
    let query = query.after_reply(
        Ok([0x11, 1, 0, 0x1a, 4, 2, echo + 1]),
        &mut cache,
        &mut result,
    );
    assert_eq!(query.request().unwrap().device_index, 2);
}

#[test]
fn only_battery_features_are_read() {
    let report = [0x11, 1, 3, SW_ID, 77, 0xa0, 2];
    assert_eq!(read_battery(0x1000, &report), Ok((77, true)));
    assert_eq!(read_battery(0x1004, &report), Ok((77, true)));
    assert_eq!(
        read_battery(0x1001, &[0x11, 1, 3, SW_ID, 0x0f, 0xa0, 2]),
        Ok((80, false))
    );
    assert_eq!(
        read_battery(0x9999, &report),
        Err(QueryError::Unsupported(0x9999))
    );
    for reply in [Ok(report), Err(ExchangeError::Read)] {
        let stage = Stage::Battery {
            battery: (0x9999, 3),
            name: "Odd".to_string(),
        };
        match continue_device(0xC52B, 1, stage, reply, &mut FeatureCache::new()) {
            Query::Finished(Err(err)) => assert_eq!(err, QueryError::Unsupported(0x9999)),
            _ => panic!("the device is read"),
        }
    }
}
