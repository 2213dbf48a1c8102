//! Querying the devices behind a receiver: which request comes next, and what is
//! learned from each reply.

use std::collections::HashMap;
use vstd::prelude::*;
use vstd::string::*;
use vstd::utf8::{decode_utf8, encode_utf8, encode_utf8_decode_utf8, encode_utf8_valid_utf8, valid_utf8};

use super::exchange::{exchange_message, ExchangeError};
use super::protocol::{
    flags_are_charging, get_battery_status, get_battery_voltage, get_feature, get_feature_count,
    get_feature_count_msg, get_feature_id, get_feature_id_msg, get_feature_msg,
    get_unified_battery_status, is_charging_from_flags, is_charging_from_status, msg,
    mv_to_percent, percent_at, status_is_charging, ShortMsg,
};
use crate::cut::{length_without_trailing, trimmed_end};
use crate::model::{device_key, key_of, BatteryState, Reading};
use crate::text::{chars_of, decimal, hex4, push_decimal, push_hex4, string_of};
use crate::textmap::TextMap;

verus! {

broadcast use vstd::std_specs::hash::group_hash_axioms;

/// How many devices can be paired with a receiver. They have the indices from 1
/// on.
pub const LAST_INDEX: u8 = 6;

/// The feature that lists the features.
pub const FEATURE_SET: u16 = 0x0001;

/// The feature that tells the name of the device.
pub const DEVICE_NAME: u16 = 0x0005;

/// The battery features, in order of preference.
pub const BATTERY_STATUS: u16 = 0x1000;

pub const BATTERY_VOLTAGE: u16 = 0x1001;

pub const UNIFIED_BATTERY: u16 = 0x1004;

// ---------------------------------------------------------------------------
// What passes between the user interface and the workers
// ---------------------------------------------------------------------------

/// What a worker reports of the devices behind its receiver.
#[derive(Debug)]
pub enum DeviceEvent {
    /// A device has a fresh reading.
    Update(BatteryState),
    /// The device with this key is gone.
    Gone(String),
    /// The receiver itself is gone, and all devices with it.
    ReceiverGone(u16),
}

/// A [`DeviceEvent`] with its texts seen as character sequences.
#[verifier::ext_equal]
pub enum Sighting {
    Update(Reading),
    Gone(Seq<char>),
    ReceiverGone(u16),
}

impl View for DeviceEvent {
    type V = Sighting;

    open spec fn view(&self) -> Sighting {
        match *self {
            DeviceEvent::Update(state) => Sighting::Update(state@),
            DeviceEvent::Gone(key) => Sighting::Gone(key@),
            DeviceEvent::ReceiverGone(pid) => Sighting::ReceiverGone(pid),
        }
    }
}

/// What a worker is told.
#[derive(Clone, Copy, Debug, PartialEq, Eq, Structural)]
pub enum WorkerCommand {
    /// Read all batteries now.
    Refresh,
    /// Read all batteries at least this often, in seconds.
    SetSafetyInterval(u64),
    Exit,
}

// ---------------------------------------------------------------------------
// What is remembered of a device
// ---------------------------------------------------------------------------

/// What does not change while a device stays paired. Finding it out takes many
/// requests, any of which may fail while the device is half asleep, so that it
/// is done once.
#[derive(Debug)]
pub struct DeviceCache {
    /// The battery feature to use and its index, if the device has one.
    pub battery: Option<(u16, u8)>,
    pub display_name: String,
}

/// A [`DeviceCache`] with its text seen as a character sequence.
#[verifier::ext_equal]
pub struct Known {
    pub battery: Option<(u16, u8)>,
    pub display_name: Seq<char>,
}

impl View for DeviceCache {
    type V = Known;

    open spec fn view(&self) -> Known {
        Known { battery: self.battery, display_name: self.display_name@ }
    }
}

/// What is remembered of each device, by device key.
pub struct FeatureCache {
    pub devices: TextMap<DeviceCache>,
}

/// What is remembered, seen as a map.
pub open spec fn known_devices(devices: Map<Seq<char>, DeviceCache>) -> Map<Seq<char>, Known> {
    Map::new(|k: Seq<char>| devices.contains_key(k), |k: Seq<char>| devices[k]@)
}

impl View for FeatureCache {
    type V = Map<Seq<char>, Known>;

    open spec fn view(&self) -> Map<Seq<char>, Known> {
        known_devices(self.devices@)
    }
}

impl FeatureCache {
    /// Nothing is remembered yet.
    pub fn new() -> (cache: Self)
        ensures
            cache@ == Map::<Seq<char>, Known>::empty(),
    {
        FeatureCache { devices: TextMap::new() }
    }

    fn learn(&mut self, key: String, known: DeviceCache)
        ensures
            final(self)@ == old(self)@.insert(key@, known@),
    {
        let ghost before = self.devices@;
        self.devices.insert(key, known);
        assert(known_devices(before.insert(key@, known)) =~= known_devices(before).insert(
            key@,
            known@,
        ));
    }
}

impl Default for FeatureCache {
    fn default() -> (cache: Self)
        ensures
            cache@ == Map::<Seq<char>, Known>::empty(),
    {
        FeatureCache::new()
    }
}

// ---------------------------------------------------------------------------
// Names
// ---------------------------------------------------------------------------

/// The text that `String::from_utf8_lossy` reads from a sequence of bytes.
pub uninterp spec fn lossy_utf8(bytes: Seq<u8>) -> Seq<char>;

/// `String::from_utf8_lossy` reads UTF-8. Its result depends on the bytes alone;
/// of bytes that are valid UTF-8 it is the text that they encode. What it makes
/// of invalid bytes is not stated beyond that.
#[verifier::external_body]
fn decode_lossy(bytes: &[u8]) -> (text: String)
    ensures
        text@ == lossy_utf8(bytes@),
        valid_utf8(bytes@) ==> text@ == decode_utf8(bytes@),
{
    String::from_utf8_lossy(bytes).into_owned()
}

/// A device's name, without the zeros that pad it.
pub fn without_padding(text: &str) -> (name: String)
    ensures
        name@ == trimmed_end(text@, '\0'),
{
    let chars = chars_of(text);
    let end = length_without_trailing(&chars, '\0');
    assert(chars@.subrange(0, end as int) == chars@.take(end as int));
    string_of(&chars, 0, end)
}

/// The name in the bytes that a device reports.
pub open spec fn name_in(bytes: Seq<u8>) -> Seq<char> {
    trimmed_end(lossy_utf8(bytes), '\0')
}

/// The name in the bytes that a device reports. Devices are shown under the name
/// that they report.
pub fn name_from(bytes: &[u8]) -> (name: String)
    ensures
        name@ == name_in(bytes@),
        valid_utf8(bytes@) ==> name@ == trimmed_end(decode_utf8(bytes@), '\0'),
{
    without_padding(decode_lossy(bytes).as_str())
}

/// What a device is called that does not tell its name.
pub open spec fn default_name(device_index: u8) -> Seq<char> {
    "Logitech Device (index "@ + decimal(device_index as nat) + ")"@
}

fn name_by_index(device_index: u8) -> (name: String)
    ensures
        name@ == default_name(device_index),
{
    let mut name = "Logitech Device (index ".to_string();
    push_decimal(&mut name, device_index as u64);
    name.append(")");
    name
}

// ---------------------------------------------------------------------------
// Battery readings
// ---------------------------------------------------------------------------

/// The number that two bytes stand for, the higher one first.
pub open spec fn big_endian(high: u8, low: u8) -> u16 {
    (high * 256 + low) as u16
}

fn from_big_endian(high: u8, low: u8) -> (n: u16)
    ensures
        n == big_endian(high, low),
{
    high as u16 * 256 + low as u16
}

/// The battery feature to use of those that a device has, and its index.
pub open spec fn battery_feature(features: Map<u16, u8>) -> Option<(u16, u8)> {
    if features.contains_key(BATTERY_STATUS) {
        Some((BATTERY_STATUS, features[BATTERY_STATUS]))
    } else if features.contains_key(BATTERY_VOLTAGE) {
        Some((BATTERY_VOLTAGE, features[BATTERY_VOLTAGE]))
    } else if features.contains_key(UNIFIED_BATTERY) {
        Some((UNIFIED_BATTERY, features[UNIFIED_BATTERY]))
    } else {
        None
    }
}

fn find_battery(features: &HashMap<u16, u8>) -> (battery: Option<(u16, u8)>)
    ensures
        battery == battery_feature(features@),
{
    match features.get(&BATTERY_STATUS) {
        Some(index) => Some((BATTERY_STATUS, *index)),
        None => match features.get(&BATTERY_VOLTAGE) {
            Some(index) => Some((BATTERY_VOLTAGE, *index)),
            None => match features.get(&UNIFIED_BATTERY) {
                Some(index) => Some((UNIFIED_BATTERY, *index)),
                None => None,
            },
        },
    }
}

/// Whether a feature is one that batteries can be read with.
pub open spec fn is_battery_feature(feature_id: u16) -> bool {
    feature_id == BATTERY_STATUS || feature_id == BATTERY_VOLTAGE || feature_id == UNIFIED_BATTERY
}

fn can_be_read(feature_id: u16) -> (yes: bool)
    ensures
        yes == is_battery_feature(feature_id),
{
    feature_id == BATTERY_STATUS || feature_id == BATTERY_VOLTAGE || feature_id == UNIFIED_BATTERY
}

/// Percentage and charging state in the reply to a request for a battery feature
/// that is known.
pub open spec fn battery_in(feature_id: u16, report: Seq<u8>) -> (u8, bool)
    recommends
        is_battery_feature(feature_id),
{
    if feature_id == BATTERY_VOLTAGE {
        (percent_at(big_endian(report[4], report[5])), flags_are_charging(report[6]))
    } else {
        (report[4], status_is_charging(report[6]))
    }
}


// ---------------------------------------------------------------------------
// Querying one device
// ---------------------------------------------------------------------------

/// Why a device could not be read.
#[derive(Clone, Copy, Debug, PartialEq, Eq, Structural)]
pub enum QueryError {
    /// Its features could not be listed.
    Enumeration,
    /// A battery feature that is not known.
    Unsupported(u16),
    /// It did not answer.
    Exchange(ExchangeError),
}

/// What is said of a device that could not be read.
pub open spec fn query_message(device_index: u8, err: QueryError) -> Seq<char> {
    match err {
        QueryError::Enumeration => "feature enumeration failed for index "@ + decimal(
            device_index as nat,
        ),
        QueryError::Unsupported(id) => "unsupported battery feature 0x"@ + hex4(id, true),
        QueryError::Exchange(err) => exchange_message(err),
    }
}

impl QueryError {
    /// What is said of this error on the device with the given index.
    pub fn message(&self, device_index: u8) -> (message: String)
        ensures
            message@ == query_message(device_index, *self),
    {
        match self {
            QueryError::Enumeration => {
                let mut message = "feature enumeration failed for index ".to_string();
                push_decimal(&mut message, device_index as u64);
                message
            },
            QueryError::Unsupported(id) => {
                let mut message = "unsupported battery feature 0x".to_string();
                push_hex4(&mut message, *id, true);
                message
            },
            QueryError::Exchange(err) => err.message(),
        }
    }
}

/// Percentage and charging state in the reply to a battery request. Only the
/// battery features can be read.
pub fn read_battery(feature_id: u16, report: &[u8; 7]) -> (battery: Result<(u8, bool), QueryError>)
    ensures
        battery == (if is_battery_feature(feature_id) {
            Ok(battery_in(feature_id, report@))
        } else {
            Err(QueryError::Unsupported(feature_id))
        }),
{
    if feature_id == BATTERY_VOLTAGE {
        Ok(
            (
                mv_to_percent(from_big_endian(report[4], report[5])),
                is_charging_from_flags(report[6]),
            ),
        )
    } else if feature_id == BATTERY_STATUS || feature_id == UNIFIED_BATTERY {
        Ok((report[4], is_charging_from_status(report[6])))
    } else {
        Err(QueryError::Unsupported(feature_id))
    }
}

/// How far the query of a device has come: what it is asked for next, and what
/// is known by then.
pub enum Stage {
    /// For the index of the feature set.
    FeatureSet,
    /// For the number of features.
    FeatureCount { feature_set: u8 },
    /// For the feature at `index`.
    FeatureId { feature_set: u8, count: u8, index: u8, features: HashMap<u16, u8> },
    /// For the length of the name.
    NameLength { battery: (u16, u8), name_index: u8 },
    /// For the part of the name behind `bytes`.
    NameChunk { battery: (u16, u8), name_index: u8, length: u8, bytes: Vec<u8> },
    /// For the state of the battery.
    Battery { battery: (u16, u8), name: String },
}

/// A [`Stage`] with what is known seen as maps and sequences.
#[verifier::ext_equal]
pub enum Phase {
    FeatureSet,
    FeatureCount { feature_set: u8 },
    FeatureId { feature_set: u8, count: u8, index: u8, features: Map<u16, u8> },
    NameLength { battery: (u16, u8), name_index: u8 },
    NameChunk { battery: (u16, u8), name_index: u8, length: u8, bytes: Seq<u8> },
    Battery { battery: (u16, u8), name: Seq<char> },
}

impl View for Stage {
    type V = Phase;

    open spec fn view(&self) -> Phase {
        match *self {
            Stage::FeatureSet => Phase::FeatureSet,
            Stage::FeatureCount { feature_set } => Phase::FeatureCount { feature_set },
            Stage::FeatureId { feature_set, count, index, features } => Phase::FeatureId {
                feature_set,
                count,
                index,
                features: features@,
            },
            Stage::NameLength { battery, name_index } => Phase::NameLength { battery, name_index },
            Stage::NameChunk { battery, name_index, length, bytes } => Phase::NameChunk {
                battery,
                name_index,
                length,
                bytes: bytes@,
            },
            Stage::Battery { battery, name } => Phase::Battery { battery, name: name@ },
        }
    }
}

/// What a device is asked for.
pub open spec fn asked(device_index: u8, phase: Phase) -> ShortMsg {
    match phase {
        Phase::FeatureSet => get_feature_msg(device_index, FEATURE_SET),
        Phase::FeatureCount { feature_set } => get_feature_count_msg(device_index, feature_set),
        Phase::FeatureId { feature_set, index, .. } => get_feature_id_msg(
            device_index,
            feature_set,
            index,
        ),
        Phase::NameLength { name_index, .. } => msg(device_index, name_index, 0, 0, 0, 0),
        Phase::NameChunk { name_index, bytes, .. } => msg(
            device_index,
            name_index,
            1,
            bytes.len() as u8,
            0,
            0,
        ),
        Phase::Battery { battery, .. } => msg(
            device_index,
            battery.1,
            if battery.0 == UNIFIED_BATTERY {
                1
            } else {
                0
            },
            0,
            0,
            0,
        ),
    }
}

impl Stage {
    /// The request to send to the device.
    pub fn request(&self, device_index: u8) -> (request: ShortMsg)
        ensures
            request == asked(device_index, self@),
    {
        match self {
            Stage::FeatureSet => get_feature(device_index, FEATURE_SET),
            Stage::FeatureCount { feature_set } => get_feature_count(device_index, *feature_set),
            Stage::FeatureId { feature_set, index, .. } => get_feature_id(
                device_index,
                *feature_set,
                *index,
            ),
            Stage::NameLength { name_index, .. } => ShortMsg::new(
                device_index,
                *name_index,
                0,
                [0, 0, 0],
            ),
            Stage::NameChunk { name_index, bytes, .. } => ShortMsg::new(
                device_index,
                *name_index,
                1,
                [bytes.len() as u8, 0, 0],
            ),
            Stage::Battery { battery, .. } => if battery.0 == UNIFIED_BATTERY {
                get_unified_battery_status(device_index, battery.1)
            } else if battery.0 == BATTERY_VOLTAGE {
                get_battery_voltage(device_index, battery.1)
            } else {
                get_battery_status(device_index, battery.1)
            },
        }
    }
}

/// How the query of a device goes on.
pub enum Query {
    /// There is more to ask.
    Ask(Stage),
    /// It is over. A device without a battery has no state.
    Finished(Result<Option<BatteryState>, QueryError>),
}

/// A [`Query`] with what is known seen as maps and sequences.
#[verifier::ext_equal]
pub enum Next {
    Ask(Phase),
    Finished(Result<Option<Reading>, QueryError>),
}

impl View for Query {
    type V = Next;

    open spec fn view(&self) -> Next {
        match *self {
            Query::Ask(stage) => Next::Ask(stage@),
            Query::Finished(Ok(Some(state))) => Next::Finished(Ok(Some(state@))),
            Query::Finished(Ok(None)) => Next::Finished(Ok(None)),
            Query::Finished(Err(err)) => Next::Finished(Err(err)),
        }
    }
}

/// What a reply leads to.
#[verifier::ext_equal]
pub struct Progress {
    /// What is to be remembered of the device.
    pub learned: Option<Known>,
    pub next: Next,
}

/// Where the query of a device begins that has a given entry in the cache.
pub open spec fn first_step(known: Option<Known>) -> Next {
    match known {
        None => Next::Ask(Phase::FeatureSet),
        Some(device) => match device.battery {
            None => Next::Finished(Ok(None)),
            Some(battery) => if is_battery_feature(battery.0) {
                Next::Ask(Phase::Battery { battery, name: device.display_name })
            } else {
                Next::Finished(Err(QueryError::Unsupported(battery.0)))
            },
        },
    }
}

/// What is remembered of the device with a given key.
pub open spec fn entry_of(cache: Map<Seq<char>, Known>, key: Seq<char>) -> Option<Known> {
    if cache.contains_key(key) {
        Some(cache[key])
    } else {
        None
    }
}

/// Features could not be listed.
pub open spec fn not_enumerated() -> Progress {
    Progress { learned: None, next: Next::Finished(Err(QueryError::Enumeration)) }
}

/// The name of a device is known, and with it all that is to be remembered.
pub open spec fn named(battery: (u16, u8), name: Seq<char>) -> Progress {
    Progress {
        learned: Some(Known { battery: Some(battery), display_name: name }),
        next: Next::Ask(Phase::Battery { battery, name }),
    }
}

/// The features of a device are known.
pub open spec fn enumerated(device_index: u8, features: Map<u16, u8>) -> Progress {
    match battery_feature(features) {
        None => Progress {
            learned: Some(Known { battery: None, display_name: Seq::empty() }),
            next: Next::Finished(Ok(None)),
        },
        Some(battery) => if features.contains_key(DEVICE_NAME) {
            Progress {
                learned: None,
                next: Next::Ask(Phase::NameLength { battery, name_index: features[DEVICE_NAME] }),
            }
        } else {
            named(battery, default_name(device_index))
        },
    }
}

/// The features with the one at `index` added. Zero stands for none.
pub open spec fn with_feature(features: Map<u16, u8>, id: u16, index: u8) -> Map<u16, u8> {
    if id != 0 {
        features.insert(id, index)
    } else {
        features
    }
}

/// The bytes of a name with as many of the three in a reply as are missing.
pub open spec fn with_chunk(bytes: Seq<u8>, report: Seq<u8>, length: u8) -> Seq<u8> {
    let missing = length - bytes.len();
    if missing <= 0 {
        bytes
    } else if missing < 3 {
        bytes + report.subrange(4, 4 + missing)
    } else {
        bytes + report.subrange(4, 7)
    }
}

/// What is reported of a device.
pub open spec fn reading_of(
    pid: u16,
    device_index: u8,
    name: Seq<char>,
    feature_id: u16,
    report: Seq<u8>,
) -> Reading {
    Reading {
        device_key: key_of(pid, device_index),
        display_name: name,
        pid,
        device_index,
        battery_percent: battery_in(feature_id, report).0,
        is_charging: battery_in(feature_id, report).1,
    }
}

/// What a reply, or the want of one, leads to.
pub open spec fn progress(
    pid: u16,
    device_index: u8,
    phase: Phase,
    reply: Result<Seq<u8>, ExchangeError>,
) -> Progress {
    match phase {
        Phase::FeatureSet => match reply {
            Err(_) => not_enumerated(),
            Ok(report) => if report[4] == 0 {
                not_enumerated()
            } else {
                Progress {
                    learned: None,
                    next: Next::Ask(Phase::FeatureCount { feature_set: report[4] }),
                }
            },
        },
        Phase::FeatureCount { feature_set } => match reply {
            Err(_) => not_enumerated(),
            Ok(report) => {
                let features = map![FEATURE_SET => feature_set];
                if report[4] == 0 {
                    enumerated(device_index, features)
                } else {
                    Progress {
                        learned: None,
                        next: Next::Ask(
                            Phase::FeatureId { feature_set, count: report[4], index: 1, features },
                        ),
                    }
                }
            },
        },
        Phase::FeatureId { feature_set, count, index, features } => match reply {
            Err(_) => not_enumerated(),
            Ok(report) => {
                let all = with_feature(features, big_endian(report[4], report[5]), index);
                if index >= count {
                    enumerated(device_index, all)
                } else {
                    Progress {
                        learned: None,
                        next: Next::Ask(
                            Phase::FeatureId {
                                feature_set,
                                count,
                                index: (index + 1) as u8,
                                features: all,
                            },
                        ),
                    }
                }
            },
        },
        Phase::NameLength { battery, name_index } => match reply {
            Err(_) => named(battery, default_name(device_index)),
            Ok(report) => if report[4] == 0 {
                named(battery, default_name(device_index))
            } else {
                Progress {
                    learned: None,
                    next: Next::Ask(
                        Phase::NameChunk {
                            battery,
                            name_index,
                            length: report[4],
                            bytes: Seq::empty(),
                        },
                    ),
                }
            },
        },
        Phase::NameChunk { battery, name_index, length, bytes } => match reply {
            Err(_) => named(battery, default_name(device_index)),
            Ok(report) => {
                let more = with_chunk(bytes, report, length);
                if more.len() < length {
                    Progress {
                        learned: None,
                        next: Next::Ask(
                            Phase::NameChunk { battery, name_index, length, bytes: more },
                        ),
                    }
                } else {
                    named(battery, name_in(more))
                }
            },
        },
        Phase::Battery { battery, name } => Progress {
            learned: None,
            next: Next::Finished(
                if !is_battery_feature(battery.0) {
                    Err(QueryError::Unsupported(battery.0))
                } else {
                    match reply {
                        Err(err) => Err(QueryError::Exchange(err)),
                        Ok(report) => Ok(
                            Some(reading_of(pid, device_index, name, battery.0, report)),
                        ),
                    }
                },
            ),
        },
    }
}

/// The cache after a step.
pub open spec fn cache_after(
    cache: Map<Seq<char>, Known>,
    key: Seq<char>,
    learned: Option<Known>,
) -> Map<Seq<char>, Known> {
    match learned {
        Some(known) => cache.insert(key, known),
        None => cache,
    }
}

/// A reply seen as a sequence.
pub open spec fn reply_view(reply: Result<[u8; 7], ExchangeError>) -> Result<
    Seq<u8>,
    ExchangeError,
> {
    match reply {
        Ok(report) => Ok(report@),
        Err(err) => Err(err),
    }
}

/// Begins the query of a device. What is remembered of it is not asked again.
pub fn query_device(pid: u16, device_index: u8, cache: &FeatureCache) -> (query: Query)
    ensures
        query@ == first_step(entry_of(cache@, key_of(pid, device_index))),
{
    let key = device_key(pid, device_index);
    match cache.devices.get(key.as_str()) {
        None => Query::Ask(Stage::FeatureSet),
        Some(device) => match device.battery {
            None => Query::Finished(Ok(None)),
            Some(battery) => if can_be_read(battery.0) {
                Query::Ask(Stage::Battery { battery, name: device.display_name.clone() })
            } else {
                Query::Finished(Err(QueryError::Unsupported(battery.0)))
            },
        },
    }
}

fn learn_name(pid: u16, device_index: u8, battery: (u16, u8), name: String, cache: &mut FeatureCache) -> (query: Query)
    ensures
        query@ == named(battery, name@).next,
        final(cache)@ == cache_after(
            old(cache)@,
            key_of(pid, device_index),
            named(battery, name@).learned,
        ),
{
    let known = DeviceCache { battery: Some(battery), display_name: name.clone() };
    cache.learn(device_key(pid, device_index), known);
    Query::Ask(Stage::Battery { battery, name })
}

/// The features of a device are known: goes on to its name.
fn after_features(
    pid: u16,
    device_index: u8,
    features: &HashMap<u16, u8>,
    cache: &mut FeatureCache,
) -> (query: Query)
    ensures
        query@ == enumerated(device_index, features@).next,
        final(cache)@ == cache_after(
            old(cache)@,
            key_of(pid, device_index),
            enumerated(device_index, features@).learned,
        ),
{
    match find_battery(features) {
        None => {
            let known = DeviceCache { battery: None, display_name: String::new() };
            cache.learn(device_key(pid, device_index), known);
            Query::Finished(Ok(None))
        },
        Some(battery) => match features.get(&DEVICE_NAME) {
            Some(index) => Query::Ask(Stage::NameLength { battery, name_index: *index }),
            None => learn_name(pid, device_index, battery, name_by_index(device_index), cache),
        },
    }
}

fn add_chunk(bytes: &mut Vec<u8>, report: &[u8; 7], length: u8)
    ensures
        final(bytes)@ == with_chunk(old(bytes)@, report@, length),
{
    let ghost before = bytes@;
    let mut i: usize = 4;
    while i < 7
        invariant
            4 <= i <= 7,
            bytes@ == before + report@.subrange(4, 4 + (bytes@.len() - before.len())),
            bytes@.len() - before.len() <= i - 4,
            bytes@.len() - before.len() == i - 4 || bytes@.len() >= length,
            before.len() < length ==> bytes@.len() <= length,
            before.len() >= length ==> bytes@.len() == before.len(),
        decreases 7 - i,
    {
        if bytes.len() < length as usize {
            bytes.push(report[i]);
            assert(bytes@ == before + report@.subrange(4, 4 + (bytes@.len() - before.len())));
        }
        i = i + 1;
    }
    assert(bytes@ == with_chunk(before, report@, length));
}

/// Takes the query of a device on by one reply, or the want of one.
pub fn continue_device(
    pid: u16,
    device_index: u8,
    stage: Stage,
    reply: Result<[u8; 7], ExchangeError>,
    cache: &mut FeatureCache,
) -> (query: Query)
    ensures
        query@ == progress(pid, device_index, stage@, reply_view(reply)).next,
        final(cache)@ == cache_after(
            old(cache)@,
            key_of(pid, device_index),
            progress(pid, device_index, stage@, reply_view(reply)).learned,
        ),
{
    match stage {
        Stage::FeatureSet => match reply {
            Err(_) => Query::Finished(Err(QueryError::Enumeration)),
            Ok(report) => if report[4] == 0 {
                Query::Finished(Err(QueryError::Enumeration))
            } else {
                Query::Ask(Stage::FeatureCount { feature_set: report[4] })
            },
        },
        Stage::FeatureCount { feature_set } => match reply {
            Err(_) => Query::Finished(Err(QueryError::Enumeration)),
            Ok(report) => {
                let mut features: HashMap<u16, u8> = HashMap::new();
                features.insert(FEATURE_SET, feature_set);
                assert(features@ =~= map![FEATURE_SET => feature_set]);
                if report[4] == 0 {
                    after_features(pid, device_index, &features, cache)
                } else {
                    Query::Ask(
                        Stage::FeatureId { feature_set, count: report[4], index: 1, features },
                    )
                }
            },
        },
        Stage::FeatureId { feature_set, count, index, features } => match reply {
            Err(_) => Query::Finished(Err(QueryError::Enumeration)),
            Ok(report) => {
                let mut features = features;
                let id = from_big_endian(report[4], report[5]);
                if id != 0 {
                    features.insert(id, index);
                }
                if index >= count {
                    after_features(pid, device_index, &features, cache)
                } else {
                    Query::Ask(Stage::FeatureId { feature_set, count, index: index + 1, features })
                }
            },
        },
        Stage::NameLength { battery, name_index } => match reply {
            Err(_) => learn_name(pid, device_index, battery, name_by_index(device_index), cache),
            Ok(report) => if report[4] == 0 {
                learn_name(pid, device_index, battery, name_by_index(device_index), cache)
            } else {
                Query::Ask(
                    Stage::NameChunk { battery, name_index, length: report[4], bytes: Vec::new() },
                )
            },
        },
        Stage::NameChunk { battery, name_index, length, bytes } => match reply {
            Err(_) => learn_name(pid, device_index, battery, name_by_index(device_index), cache),
            Ok(report) => {
                let mut bytes = bytes;
                add_chunk(&mut bytes, &report, length);
                if bytes.len() < length as usize {
                    Query::Ask(Stage::NameChunk { battery, name_index, length, bytes })
                } else {
                    learn_name(pid, device_index, battery, name_from(&bytes), cache)
                }
            },
        },
        Stage::Battery { battery, name } => if !can_be_read(battery.0) {
            Query::Finished(Err(QueryError::Unsupported(battery.0)))
        } else {
            match reply {
                Err(err) => Query::Finished(Err(QueryError::Exchange(err))),
                Ok(report) => match read_battery(battery.0, &report) {
                    Err(err) => Query::Finished(Err(err)),
                    Ok((battery_percent, is_charging)) => Query::Finished(
                        Ok(
                            Some(
                                BatteryState {
                                    device_key: device_key(pid, device_index),
                                    display_name: name,
                                    pid,
                                    device_index,
                                    battery_percent,
                                    is_charging,
                                },
                            ),
                        ),
                    ),
                },
            }
        },
    }
}

// ---------------------------------------------------------------------------
// Whole queries
// ---------------------------------------------------------------------------

/// Where a query stands after a number of replies, and what was learned on the
/// way. What comes after its end is not looked at.
pub open spec fn queried(
    pid: u16,
    device_index: u8,
    start: Progress,
    replies: Seq<Result<Seq<u8>, ExchangeError>>,
) -> Progress
    decreases replies.len(),
{
    if replies.len() == 0 {
        start
    } else {
        let before = queried(pid, device_index, start, replies.drop_last());
        match before.next {
            Next::Finished(_) => before,
            Next::Ask(phase) => {
                let after = progress(pid, device_index, phase, replies.last());
                Progress {
                    learned: if after.learned is Some {
                        after.learned
                    } else {
                        before.learned
                    },
                    next: after.next,
                }
            },
        }
    }
}

/// A query about to ask something.
pub open spec fn asking(phase: Phase) -> Progress {
    Progress { learned: None, next: Next::Ask(phase) }
}

/// The features of a device that lists `ids`, the first at index 1.
pub open spec fn features_listed(feature_set: u8, ids: Seq<u16>) -> Map<u16, u8>
    decreases ids.len(),
{
    if ids.len() == 0 {
        map![FEATURE_SET => feature_set]
    } else {
        with_feature(
            features_listed(feature_set, ids.drop_last()),
            ids.last(),
            ids.len() as u8,
        )
    }
}

/// What a device says that has its feature set at `feature_set` and lists `ids`.
pub open spec fn lists_features(
    replies: Seq<Result<Seq<u8>, ExchangeError>>,
    feature_set: u8,
    ids: Seq<u16>,
) -> bool {
    &&& replies.len() == ids.len() + 2
    &&& replies[0] is Ok && replies[0]->Ok_0[4] == feature_set
    &&& replies[1] is Ok && replies[1]->Ok_0[4] == ids.len()
    &&& forall|k: int|
        0 <= k < ids.len() ==> (#[trigger] replies[k + 2]) is Ok && big_endian(
            replies[k + 2]->Ok_0[4],
            replies[k + 2]->Ok_0[5],
        ) == ids[k]
}

/// The query of a new device asks for every feature that the device lists, and
/// goes on with all of them.
pub proof fn features_are_enumerated(
    pid: u16,
    device_index: u8,
    feature_set: u8,
    ids: Seq<u16>,
    replies: Seq<Result<Seq<u8>, ExchangeError>>,
)
    requires
        feature_set != 0,
        ids.len() <= 255,
        lists_features(replies, feature_set, ids),
    ensures
        queried(pid, device_index, asking(Phase::FeatureSet), replies) == enumerated(
            device_index,
            features_listed(feature_set, ids),
        ),
        forall|k: int|
            0 <= k < ids.len() ==> #[trigger] queried(
                pid,
                device_index,
                asking(Phase::FeatureSet),
                replies.take(k + 2),
            ) == asking(
                Phase::FeatureId {
                    feature_set,
                    count: ids.len() as u8,
                    index: (k + 1) as u8,
                    features: features_listed(feature_set, ids.take(k)),
                },
            ),
{
    let start = asking(Phase::FeatureSet);
    assert forall|k: int| 0 <= k < ids.len() implies #[trigger] queried(
        pid,
        device_index,
        start,
        replies.take(k + 2),
    ) == asking(
        Phase::FeatureId {
            feature_set,
            count: ids.len() as u8,
            index: (k + 1) as u8,
            features: features_listed(feature_set, ids.take(k)),
        },
    ) by {
        enumerating(pid, device_index, feature_set, ids, replies, k);
    }
    let n = ids.len() as int;
    if n == 0 {
        counted(pid, device_index, feature_set, ids, replies);
        assert(replies.take(2) == replies);
        assert(replies.drop_last() == replies.take(1));
    } else {
        let last = replies.take(n + 1);
        assert(replies.drop_last() == last);
        assert(last == replies.take((n - 1) + 2));
        assert(replies.last() == replies[(n - 1) + 2]);
        assert(ids.take(n - 1) == ids.drop_last());
        enumerating(pid, device_index, feature_set, ids, replies, n - 1);
        assert(big_endian(replies.last()->Ok_0[4], replies.last()->Ok_0[5]) == ids.last());
        let phase = Phase::FeatureId {
            feature_set,
            count: ids.len() as u8,
            index: n as u8,
            features: features_listed(feature_set, ids.drop_last()),
        };
        assert(queried(pid, device_index, start, replies.drop_last()) == asking(phase));
        assert(progress(pid, device_index, phase, replies.last()) == enumerated(
            device_index,
            features_listed(feature_set, ids),
        ));
    }
}

proof fn counted(
    pid: u16,
    device_index: u8,
    feature_set: u8,
    ids: Seq<u16>,
    replies: Seq<Result<Seq<u8>, ExchangeError>>,
)
    requires
        feature_set != 0,
        ids.len() <= 255,
        lists_features(replies, feature_set, ids),
    ensures
        queried(pid, device_index, asking(Phase::FeatureSet), replies.take(1)) == asking(
            Phase::FeatureCount { feature_set },
        ),
{
    let start = asking(Phase::FeatureSet);
    assert(replies.take(1).drop_last().len() == 0);
    assert(queried(pid, device_index, start, replies.take(1).drop_last()) == start);
    assert(replies.take(1).last() == replies[0]);
}

proof fn enumerating(
    pid: u16,
    device_index: u8,
    feature_set: u8,
    ids: Seq<u16>,
    replies: Seq<Result<Seq<u8>, ExchangeError>>,
    k: int,
)
    requires
        feature_set != 0,
        ids.len() <= 255,
        lists_features(replies, feature_set, ids),
        0 <= k < ids.len(),
    ensures
        queried(pid, device_index, asking(Phase::FeatureSet), replies.take(k + 2)) == asking(
            Phase::FeatureId {
                feature_set,
                count: ids.len() as u8,
                index: (k + 1) as u8,
                features: features_listed(feature_set, ids.take(k)),
            },
        ),
    decreases k,
{
    if k == 0 {
        counted(pid, device_index, feature_set, ids, replies);
        assert(replies.take(2).drop_last() == replies.take(1));
        assert(replies.take(2).last() == replies[1]);
        assert(ids.take(0).len() == 0);
    } else {
        enumerating(pid, device_index, feature_set, ids, replies, k - 1);
        assert(replies.take(k + 2).drop_last() == replies.take(k + 1));
        assert(replies.take(k + 2).last() == replies[(k - 1) + 2]);
        assert(ids.take(k).drop_last() == ids.take(k - 1));
        assert(ids.take(k).last() == ids[k - 1]);
    }
}

/// A feature that is listed is known by the place where it is listed last. One
/// that is not listed is not known, but for the feature set itself.
pub proof fn features_have_their_index(feature_set: u8, ids: Seq<u16>, id: u16, i: int)
    requires
        ids.len() <= 255,
        id != 0,
        forall|j: int| i < j < ids.len() ==> #[trigger] ids[j] != id,
        0 <= i < ids.len() ==> ids[i] == id,
        -1 <= i < ids.len(),
    ensures
        i >= 0 ==> features_listed(feature_set, ids).contains_key(id) && features_listed(
            feature_set,
            ids,
        )[id] == i + 1,
        i == -1 && id != FEATURE_SET ==> !features_listed(feature_set, ids).contains_key(id),
        i == -1 && id == FEATURE_SET ==> features_listed(feature_set, ids).contains_key(id)
            && features_listed(feature_set, ids)[id] == feature_set,
    decreases ids.len(),
{
    if ids.len() > 0 {
        let n = ids.len() as int;
        assert(ids.last() == ids[n - 1]);
        if i < n - 1 {
            let head = ids.drop_last();
            assert forall|j: int| i < j < head.len() implies #[trigger] head[j] != id by {
                assert(head[j] == ids[j]);
            }
            features_have_their_index(feature_set, head, id, i);
        }
    }
}

/// What a device says whose name is made of `name`, asked for its length and
/// then for three bytes at a time.
pub open spec fn tells_name(replies: Seq<Result<Seq<u8>, ExchangeError>>, name: Seq<u8>) -> bool {
    &&& replies.len() == 1 + (name.len() + 2) / 3
    &&& replies[0] is Ok && replies[0]->Ok_0[4] == name.len()
    &&& forall|k: int|
        1 <= k < replies.len() ==> (#[trigger] replies[k]) is Ok && replies[k]->Ok_0.len() == 7
    &&& forall|i: int|
        0 <= i < name.len() ==> replies[1 + i / 3]->Ok_0[4 + i % 3] == #[trigger] name[i]
}

/// The name of a new device is asked for from where the last part ended, and is
/// remembered whole.
pub proof fn names_are_read_whole(
    pid: u16,
    device_index: u8,
    battery: (u16, u8),
    name_index: u8,
    name: Seq<u8>,
    replies: Seq<Result<Seq<u8>, ExchangeError>>,
)
    requires
        1 <= name.len() <= 255,
        tells_name(replies, name),
    ensures
        queried(
            pid,
            device_index,
            asking(Phase::NameLength { battery, name_index }),
            replies,
        ) == named(battery, name_in(name)),
        forall|k: int|
            0 <= k < (name.len() + 2) / 3 ==> #[trigger] queried(
                pid,
                device_index,
                asking(Phase::NameLength { battery, name_index }),
                replies.take(k + 1),
            ) == asking(
                Phase::NameChunk {
                    battery,
                    name_index,
                    length: name.len() as u8,
                    bytes: name.take(3 * k),
                },
            ),
{
    let start = asking(Phase::NameLength { battery, name_index });
    assert forall|k: int| 0 <= k < (name.len() + 2) / 3 implies #[trigger] queried(
        pid,
        device_index,
        start,
        replies.take(k + 1),
    ) == asking(
        Phase::NameChunk {
            battery,
            name_index,
            length: name.len() as u8,
            bytes: name.take(3 * k),
        },
    ) by {
        naming(pid, device_index, battery, name_index, name, replies, k);
    }
    let k = (name.len() + 2) / 3 - 1;
    assert(replies.drop_last() == replies.take(k + 1));
    assert(replies.last() == replies[k + 1]);
    let report = replies[k + 1]->Ok_0;
    let so_far = name.take(3 * k);
    let rest = report.subrange(4, 4 + (name.len() - 3 * k));
    assert forall|j: int| 0 <= j < rest.len() implies #[trigger] rest[j] == name[3 * k + j] by {
        assert((3 * k + j) / 3 == k && (3 * k + j) % 3 == j);
    }
    assert(with_chunk(so_far, report, name.len() as u8) =~= name);
    naming(pid, device_index, battery, name_index, name, replies, k);
    let phase = Phase::NameChunk {
        battery,
        name_index,
        length: name.len() as u8,
        bytes: so_far,
    };
    assert(queried(pid, device_index, start, replies.drop_last()) == asking(phase));
    assert(progress(pid, device_index, phase, replies.last()) == named(battery, name_in(name)));
}

proof fn naming(
    pid: u16,
    device_index: u8,
    battery: (u16, u8),
    name_index: u8,
    name: Seq<u8>,
    replies: Seq<Result<Seq<u8>, ExchangeError>>,
    k: int,
)
    requires
        1 <= name.len() <= 255,
        tells_name(replies, name),
        0 <= k < (name.len() + 2) / 3,
    ensures
        queried(
            pid,
            device_index,
            asking(Phase::NameLength { battery, name_index }),
            replies.take(k + 1),
        ) == asking(
            Phase::NameChunk {
                battery,
                name_index,
                length: name.len() as u8,
                bytes: name.take(3 * k),
            },
        ),
    decreases k,
{
    let start = asking(Phase::NameLength { battery, name_index });
    if k == 0 {
        assert(replies.take(1).drop_last().len() == 0);
        assert(queried(pid, device_index, start, replies.take(1).drop_last()) == start);
        assert(replies.take(1).last() == replies[0]);
        assert(name.take(0) =~= Seq::<u8>::empty());
    } else {
        naming(pid, device_index, battery, name_index, name, replies, k - 1);
        assert(replies.take(k + 1).drop_last() == replies.take(k));
        assert(replies.take(k + 1).last() == replies[k]);
        let report = replies[k]->Ok_0;
        let so_far = name.take(3 * (k - 1));
        let three = report.subrange(4, 7);
        assert forall|j: int| 0 <= j < 3 implies #[trigger] three[j] == name[3 * (k - 1) + j] by {
            assert((3 * (k - 1) + j) / 3 == k - 1 && (3 * (k - 1) + j) % 3 == j);
        }
        assert(with_chunk(so_far, report, name.len() as u8) =~= name.take(3 * k));
    }
}

/// Replies are taken one after the other: what comes later goes on from where
/// what came before has led.
pub proof fn queries_go_on(
    pid: u16,
    device_index: u8,
    start: Progress,
    first: Seq<Result<Seq<u8>, ExchangeError>>,
    more: Seq<Result<Seq<u8>, ExchangeError>>,
)
    ensures
        queried(pid, device_index, start, first + more) == queried(
            pid,
            device_index,
            queried(pid, device_index, start, first),
            more,
        ),
    decreases more.len(),
{
    let all = first + more;
    if more.len() == 0 {
        assert(all == first);
    } else {
        queries_go_on(pid, device_index, start, first, more.drop_last());
        assert(all.drop_last() == first + more.drop_last());
        assert(all.last() == more.last());
    }
}

/// A new device that answers everything is reported under the name that it tells
/// and with the level that it tells, and is remembered. No reply but the last
/// ends the query.
pub proof fn answering_devices_are_read(
    pid: u16,
    device_index: u8,
    feature_set: u8,
    ids: Seq<u16>,
    name: Seq<u8>,
    listing: Seq<Result<Seq<u8>, ExchangeError>>,
    naming_replies: Seq<Result<Seq<u8>, ExchangeError>>,
    report: Seq<u8>,
)
    requires
        feature_set != 0,
        ids.len() <= 255,
        lists_features(listing, feature_set, ids),
        battery_feature(features_listed(feature_set, ids)) is Some,
        features_listed(feature_set, ids).contains_key(DEVICE_NAME),
        1 <= name.len() <= 255,
        tells_name(naming_replies, name),
    ensures
        ({
            let battery = battery_feature(features_listed(feature_set, ids))->0;
            let replies = listing + naming_replies + seq![Ok(report)];
            let start = asking(Phase::FeatureSet);
            &&& queried(pid, device_index, start, replies) == (Progress {
                learned: Some(Known { battery: Some(battery), display_name: name_in(name) }),
                next: Next::Finished(
                    Ok(Some(reading_of(pid, device_index, name_in(name), battery.0, report))),
                ),
            })
            &&& forall|k: int|
                0 <= k < replies.len() ==> (#[trigger] queried(
                    pid,
                    device_index,
                    start,
                    replies.take(k),
                )).next is Ask
        }),
{
    let features = features_listed(feature_set, ids);
    let battery = battery_feature(features)->0;
    let name_index = features[DEVICE_NAME];
    let start = asking(Phase::FeatureSet);
    let known = listing + naming_replies;
    let replies = known + seq![Ok(report)];
    features_are_enumerated(pid, device_index, feature_set, ids, listing);
    let middle = queried(pid, device_index, start, listing);
    assert(middle == asking(Phase::NameLength { battery, name_index }));
    names_are_read_whole(pid, device_index, battery, name_index, name, naming_replies);
    queries_go_on(pid, device_index, start, listing, naming_replies);
    assert(queried(pid, device_index, start, known) == named(battery, name_in(name)));
    assert(replies.drop_last() == known);
    assert(replies.last() == Ok::<Seq<u8>, ExchangeError>(report));
    assert forall|k: int| 0 <= k < replies.len() implies (#[trigger] queried(
        pid,
        device_index,
        start,
        replies.take(k),
    )).next is Ask by {
        if k == 0 {
            assert(replies.take(0).len() == 0);
        } else if k == 1 {
            assert(replies.take(1) == listing.take(1));
            counted(pid, device_index, feature_set, ids, listing);
        } else if k < listing.len() {
            assert(replies.take(k) == listing.take((k - 2) + 2));
            enumerating(pid, device_index, feature_set, ids, listing, k - 2);
        } else if k == listing.len() {
            assert(replies.take(k) == listing);
        } else if k < known.len() {
            let j = k - listing.len() - 1;
            assert(replies.take(k) == listing + naming_replies.take(j + 1));
            queries_go_on(pid, device_index, start, listing, naming_replies.take(j + 1));
            naming(pid, device_index, battery, name_index, name, naming_replies, j);
        } else {
            assert(replies.take(k) == known);
        }
    }
}

/// A name that a device pads with zeros is shown as it is, whatever its letters.
pub proof fn padding_is_dropped(name: Seq<char>, zeros: nat)
    requires
        name.len() > 0 ==> name.last() != '\0',
    ensures
        valid_utf8(encode_utf8(name + Seq::new(zeros, |i: int| '\0'))),
        trimmed_end(decode_utf8(encode_utf8(name + Seq::new(zeros, |i: int| '\0'))), '\0') == name,
{
    let padded = name + Seq::new(zeros, |i: int| '\0');
    encode_utf8_valid_utf8(padded);
    encode_utf8_decode_utf8(padded);
    zeros_are_trimmed(name, zeros);
}

proof fn zeros_are_trimmed(name: Seq<char>, zeros: nat)
    requires
        name.len() > 0 ==> name.last() != '\0',
    ensures
        trimmed_end(name + Seq::new(zeros, |i: int| '\0'), '\0') == name,
    decreases zeros,
{
    let padded = name + Seq::new(zeros, |i: int| '\0');
    if zeros == 0 {
        assert(padded == name);
    } else {
        zeros_are_trimmed(name, (zeros - 1) as nat);
        assert(padded.drop_last() == name + Seq::new((zeros - 1) as nat, |i: int| '\0'));
        assert(padded.last() == '\0');
    }
}

/// Whether a phase is one that queries come to.
pub open spec fn is_reachable(phase: Phase) -> bool {
    match phase {
        Phase::FeatureSet => true,
        Phase::FeatureCount { .. } => true,
        Phase::FeatureId { count, index, .. } => 1 <= index <= count,
        Phase::NameLength { battery, .. } => is_battery_feature(battery.0),
        Phase::NameChunk { battery, length, bytes, .. } => is_battery_feature(battery.0)
            && bytes.len() < length,
        Phase::Battery { battery, .. } => is_battery_feature(battery.0),
    }
}

/// How many requests may follow at most.
pub open spec fn requests_left(phase: Phase) -> int {
    match phase {
        Phase::FeatureSet => 1003,
        Phase::FeatureCount { .. } => 1002,
        Phase::FeatureId { count, index, .. } => 500 + (count - index),
        Phase::NameLength { .. } => 300,
        Phase::NameChunk { length, bytes, .. } => length - bytes.len(),
        Phase::Battery { .. } => 0,
    }
}

/// Every query comes to an end: whatever the replies, each leaves fewer requests
/// to be made.
pub proof fn queries_end(
    pid: u16,
    device_index: u8,
    phase: Phase,
    reply: Result<Seq<u8>, ExchangeError>,
)
    requires
        is_reachable(phase),
        reply is Ok ==> reply->Ok_0.len() == 7,
    ensures
        progress(pid, device_index, phase, reply).next matches Next::Ask(next) ==> is_reachable(next)
            && 0 <= requests_left(next) < requests_left(phase),
{
}

/// Queries begin with a phase that they come to.
pub proof fn queries_begin_well(known: Option<Known>)
    ensures
        first_step(known) matches Next::Ask(phase) ==> is_reachable(phase) && requests_left(phase)
            >= 0,
{
}

/// What is learned of a device serves the later queries: the first goes on as
/// they begin. No device that is remembered is asked for its features or its
/// name again.
pub proof fn what_is_learned_is_not_asked_again(
    pid: u16,
    device_index: u8,
    phase: Phase,
    reply: Result<Seq<u8>, ExchangeError>,
)
    requires
        is_reachable(phase),
    ensures
        progress(pid, device_index, phase, reply).learned matches Some(known) ==> progress(
            pid,
            device_index,
            phase,
            reply,
        ).next == first_step(Some(known)),
        forall|known: Known|
            #![trigger first_step(Some(known))]
            first_step(Some(known)) is Finished || first_step(Some(known))->Ask_0 is Battery,
{
}

/// A device whose features could not be listed is not remembered, so that it is
/// asked again the next time. One that fails to tell its name or its battery
/// level is.
pub proof fn failed_enumerations_are_repeated(
    pid: u16,
    device_index: u8,
    phase: Phase,
    err: ExchangeError,
)
    ensures
        (phase is FeatureSet || phase is FeatureCount || phase is FeatureId) ==> progress(
            pid,
            device_index,
            phase,
            Err(err),
        ) == not_enumerated(),
        phase matches Phase::NameLength { battery, .. } ==> progress(
            pid,
            device_index,
            phase,
            Err(err),
        ) == named(battery, default_name(device_index)),
        phase matches Phase::NameChunk { battery, .. } ==> progress(
            pid,
            device_index,
            phase,
            Err(err),
        ) == named(battery, default_name(device_index)),
{
}

// ---------------------------------------------------------------------------
// What is asked, and what the replies mean
// ---------------------------------------------------------------------------

/// The battery of a device is read with the function that its feature has for it:
/// function 1 of feature `0x1004`, and function 0 of the other two. The request
/// goes to the device and the feature in question, and has no parameters.
pub proof fn batteries_are_asked_for_by_feature(
    device_index: u8,
    feature_id: u16,
    feature_index: u8,
    name: Seq<char>,
)
    ensures
        ({
            let request = asked(
                device_index,
                Phase::Battery { battery: (feature_id, feature_index), name },
            );
            let report = super::protocol::long_report(request);
            &&& feature_id == 0x1004 ==> request.function == 1 && report[3] / 16 == 1
            &&& feature_id == 0x1000 ==> request.function == 0 && report[3] / 16 == 0
            &&& feature_id == 0x1001 ==> request.function == 0 && report[3] / 16 == 0
            &&& report[1] == device_index && report[2] == feature_index
            &&& report[4] == 0 && report[5] == 0 && report[6] == 0
        }),
{
}

/// What a device is asked on the way to its battery: the root for the index of the
/// feature set, the feature set for the number of features and for each of them by
/// index, and the name feature for the length and for the parts by offset.
pub proof fn features_and_names_are_asked_for(
    device_index: u8,
    feature_set: u8,
    count: u8,
    index: u8,
    features: Map<u16, u8>,
    battery: (u16, u8),
    bytes: Seq<u8>,
)
    requires
        bytes.len() < 256,
    ensures
        ({
            let set = asked(device_index, Phase::FeatureSet);
            let number = asked(device_index, Phase::FeatureCount { feature_set });
            let one = asked(
                device_index,
                Phase::FeatureId { feature_set, count, index, features },
            );
            let length = asked(device_index, Phase::NameLength { battery, name_index: index });
            let part = asked(
                device_index,
                Phase::NameChunk { battery, name_index: index, length: count, bytes },
            );
            &&& set.device_index == device_index && number.device_index == device_index
                && one.device_index == device_index && length.device_index == device_index
                && part.device_index == device_index
            &&& set.feature_index == 0 && set.function == 0 && set.param0 == 0 && set.param1 == 1
            &&& number.feature_index == feature_set && number.function == 0
            &&& one.feature_index == feature_set && one.function == 1 && one.param0 == index
            &&& length.feature_index == index && length.function == 0
            &&& part.feature_index == index && part.function == 1 && part.param0 == bytes.len()
        }),
{
}

/// What the reply to a battery request says, for each of the three features: the
/// level and the state as they are, or the voltage, as sixteen bits, and flags.
pub proof fn batteries_are_read_by_feature(report: Seq<u8>)
    ensures
        battery_in(0x1000, report).0 == report[4],
        battery_in(0x1004, report).0 == report[4],
        battery_in(0x1001, report).0 == percent_at((report[4] * 256 + report[5]) as u16),
        battery_in(0x1000, report).1 <==> 1 <= report[6] <= 4,
        battery_in(0x1004, report).1 <==> 1 <= report[6] <= 4,
        battery_in(0x1001, report).1 <==> report[6] >= 0x80,
{
}

/// Of several battery features the first of `0x1000`, `0x1001` and `0x1004` is
/// used, at the index that the device has it at.
pub proof fn battery_features_have_an_order(features: Map<u16, u8>)
    ensures
        features.contains_key(0x1000) ==> battery_feature(features) == Some(
            (0x1000u16, features[0x1000]),
        ),
        !features.contains_key(0x1000) && features.contains_key(0x1001) ==> battery_feature(
            features,
        ) == Some((0x1001u16, features[0x1001])),
        !features.contains_key(0x1000) && !features.contains_key(0x1001) && features.contains_key(
            0x1004,
        ) ==> battery_feature(features) == Some((0x1004u16, features[0x1004])),
        battery_feature(features) is None <==> !features.contains_key(0x1000)
            && !features.contains_key(0x1001) && !features.contains_key(0x1004),
        forall|id: u16| #[trigger]
            is_battery_feature(id) <==> id == 0x1000 || id == 0x1001 || id == 0x1004,
{
}

/// A device whose features are known goes on to its name, if it tells one, and to
/// its battery under a name made of its index, if it does not. One without a
/// battery feature is done with, and remembered as such.
pub proof fn features_lead_on(device_index: u8, features: Map<u16, u8>)
    ensures
        ({
            let after = enumerated(device_index, features);
            match battery_feature(features) {
                None => {
                    &&& after.next == Next::Finished(Ok(None))
                    &&& after.learned matches Some(known)
                    &&& known.battery is None
                },
                Some(battery) => if features.contains_key(0x0005) {
                    after.learned is None && after.next == Next::Ask(
                        Phase::NameLength { battery, name_index: features[0x0005] },
                    )
                } else {
                    &&& after.next matches Next::Ask(Phase::Battery { battery: used, name })
                    &&& used == battery && name == default_name(device_index)
                    &&& after.learned == Some(Known { battery: Some(battery), display_name: name })
                },
            }
        }),
{
}

/// The name that stands in for one that is not told holds the index of the device.
pub proof fn default_names_hold_the_index(device_index: u8)
    ensures
        ({
            let name = default_name(device_index);
            let digits = decimal(device_index as nat);
            &&& name.len() == 24 + digits.len()
            &&& name.take(23) == "Logitech Device (index "@
            &&& name.subrange(23, name.len() - 1) == digits
            &&& name.last() == ')'
        }),
{
    reveal_strlit("Logitech Device (index ");
    reveal_strlit(")");
    let name = default_name(device_index);
    assert(name.take(23) == "Logitech Device (index "@);
    assert(name.subrange(23, name.len() - 1) == decimal(device_index as nat));
}

/// A query begins where what is remembered of the device leaves off.
pub proof fn queries_begin_where_memory_ends(known: Known)
    ensures
        first_step(None) == Next::Ask(Phase::FeatureSet),
        known.battery is None ==> first_step(Some(known)) == Next::Finished(Ok(None)),
        known.battery matches Some(battery) && (battery.0 == 0x1000 || battery.0 == 0x1001
            || battery.0 == 0x1004) ==> first_step(Some(known)) == Next::Ask(
            Phase::Battery { battery: known.battery->0, name: known.display_name },
        ),
        known.battery matches Some(battery) && battery.0 != 0x1000 && battery.0 != 0x1001
            && battery.0 != 0x1004 ==> first_step(Some(known)) is Finished && first_step(
            Some(known),
        )->Finished_0 == Err::<Option<Reading>, QueryError>(
            QueryError::Unsupported((known.battery->0).0),
        ),
{
}

/// A device that is asked for its battery is reported with the name that it has,
/// the key of its receiver and index, and what the reply says; if it does not
/// answer, with why.
pub proof fn replies_become_readings(
    pid: u16,
    device_index: u8,
    battery: (u16, u8),
    name: Seq<char>,
    report: Seq<u8>,
    err: ExchangeError,
)
    requires
        battery.0 == 0x1000 || battery.0 == 0x1001 || battery.0 == 0x1004,
    ensures
        ({
            let phase = Phase::Battery { battery, name };
            let told = progress(pid, device_index, phase, Ok(report));
            &&& told.learned is None
            &&& told.next matches Next::Finished(Ok(Some(reading))) && {
                &&& reading.device_key == key_of(pid, device_index)
                &&& reading.display_name == name
                &&& reading.pid == pid
                &&& reading.device_index == device_index
                &&& battery.0 != 0x1001 ==> reading.battery_percent == report[4] && (
                reading.is_charging <==> 1 <= report[6] <= 4)
                &&& battery.0 == 0x1001 ==> reading.battery_percent == percent_at(
                    (report[4] * 256 + report[5]) as u16,
                ) && (reading.is_charging <==> report[6] >= 0x80)
            }
            &&& progress(pid, device_index, phase, Err(err)).next == Next::Finished(
                Err(QueryError::Exchange(err)),
            )
        }),
{
}

/// Listing the features goes from the index of the feature set to their number and
/// then from one to the next. A reply that says that there is no feature set, or
/// the want of a reply, ends the query without a reading.
pub proof fn features_are_listed_step_by_step(
    pid: u16,
    device_index: u8,
    phase: Phase,
    report: Seq<u8>,
    err: ExchangeError,
)
    ensures
        phase is FeatureSet || phase is FeatureCount || phase is FeatureId ==> {
            let failed = progress(pid, device_index, phase, Err(err));
            &&& failed.learned is None
            &&& failed.next == Next::Finished(Err(QueryError::Enumeration))
        },
        phase is FeatureSet ==> {
            let after = progress(pid, device_index, phase, Ok(report));
            &&& after.learned is None
            &&& report[4] == 0 ==> after.next == Next::Finished(Err(QueryError::Enumeration))
            &&& report[4] != 0 ==> after.next == Next::Ask(
                Phase::FeatureCount { feature_set: report[4] },
            )
        },
        phase matches Phase::FeatureCount { feature_set } ==> {
            let after = progress(pid, device_index, phase, Ok(report));
            let own = map![0x0001u16 => feature_set];
            &&& report[4] == 0 ==> after == enumerated(device_index, own)
            &&& report[4] != 0 ==> after.learned is None && after.next == Next::Ask(
                Phase::FeatureId { feature_set, count: report[4], index: 1, features: own },
            )
        },
        phase matches Phase::FeatureId { feature_set, count, index, features } ==> {
            let after = progress(pid, device_index, phase, Ok(report));
            let id = (report[4] * 256 + report[5]) as u16;
            let all = if id == 0 {
                features
            } else {
                features.insert(id, index)
            };
            &&& index >= count ==> after == enumerated(device_index, all)
            &&& index < count ==> after.learned is None && after.next == Next::Ask(
                Phase::FeatureId { feature_set, count, index: (index + 1) as u8, features: all },
            )
        },
{
}

/// A name is read three bytes at a time, up to the length that the device told and
/// no further. A device that tells none, or stops telling it, is given a name by
/// its index; either way its battery is asked for next.
pub proof fn names_are_read_step_by_step(
    pid: u16,
    device_index: u8,
    battery: (u16, u8),
    name_index: u8,
    length: u8,
    bytes: Seq<u8>,
    report: Seq<u8>,
    err: ExchangeError,
)
    requires
        bytes.len() < length,
        report.len() == 7,
    ensures
        ({
            let first = Phase::NameLength { battery, name_index };
            let then = Phase::NameChunk { battery, name_index, length, bytes };
            let asked_length = progress(pid, device_index, first, Ok(report));
            let asked_part = progress(pid, device_index, then, Ok(report));
            let nameless = Progress {
                learned: Some(
                    Known { battery: Some(battery), display_name: default_name(device_index) },
                ),
                next: Next::Ask(Phase::Battery { battery, name: default_name(device_index) }),
            };
            &&& progress(pid, device_index, first, Err(err)) == nameless
            &&& progress(pid, device_index, then, Err(err)) == nameless
            &&& report[4] == 0 ==> asked_length == nameless
            &&& report[4] != 0 ==> asked_length.learned is None && asked_length.next == Next::Ask(
                Phase::NameChunk { battery, name_index, length: report[4], bytes: Seq::empty() },
            )
            &&& length - bytes.len() > 3 ==> asked_part.learned is None && asked_part.next
                == Next::Ask(
                Phase::NameChunk {
                    battery,
                    name_index,
                    length,
                    bytes: bytes + seq![report[4], report[5], report[6]],
                },
            )
            &&& length - bytes.len() <= 3 ==> {
                let name = name_in(bytes + report.subrange(4, 4 + length - bytes.len()));
                &&& asked_part.learned == Some(Known { battery: Some(battery), display_name: name })
                &&& asked_part.next == Next::Ask(Phase::Battery { battery, name })
            }
        }),
{
    assert(report.subrange(4, 7) == seq![report[4], report[5], report[6]]);
}

/// A battery feature that is not known is never read, whatever the device replies:
/// the query ends with an error that names it.
pub proof fn unknown_battery_features_are_errors(
    pid: u16,
    device_index: u8,
    battery: (u16, u8),
    name: Seq<char>,
    reply: Result<Seq<u8>, ExchangeError>,
)
    requires
        battery.0 != 0x1000 && battery.0 != 0x1001 && battery.0 != 0x1004,
    ensures
        ({
            let after = progress(pid, device_index, Phase::Battery { battery, name }, reply);
            &&& after.learned is None
            &&& after.next matches Next::Finished(Err(QueryError::Unsupported(id)))
            &&& id == battery.0
        }),
{
}

/// What is said of a query that failed ends with what it failed over: the index of
/// the device, the number of the feature, or what is said of the exchange.
pub proof fn complaints_name_the_reason(device_index: u8, id: u16, err: ExchangeError)
    ensures
        ({
            let listing = query_message(device_index, QueryError::Enumeration);
            let feature = query_message(device_index, QueryError::Unsupported(id));
            let n = decimal(device_index as nat).len() as int;
            &&& listing.take(26) == "feature enumeration failed"@
            &&& listing.skip(listing.len() - n) == decimal(device_index as nat)
            &&& feature.take(27) == "unsupported battery feature"@
            &&& feature.skip(feature.len() - 4) == hex4(id, true)
            &&& query_message(device_index, QueryError::Exchange(err)) == exchange_message(err)
        }),
{
    reveal_strlit("feature enumeration failed");
    reveal_strlit("feature enumeration failed for index ");
    reveal_strlit("unsupported battery feature");
    reveal_strlit("unsupported battery feature 0x");
    let listing = query_message(device_index, QueryError::Enumeration);
    let feature = query_message(device_index, QueryError::Unsupported(id));
    let n = decimal(device_index as nat).len() as int;
    assert(listing.take(26) == "feature enumeration failed"@);
    assert(listing.skip(listing.len() - n) == decimal(device_index as nat));
    assert(feature.take(27) == "unsupported battery feature"@);
    assert(feature.skip(feature.len() - 4) == hex4(id, true));
}

} // verus!
