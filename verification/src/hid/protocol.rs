//! HID++ messages: what is sent to a device and how its replies are read.

use vstd::prelude::*;

verus! {

/// The first byte of a short report.
pub const SHORT_REPORT_ID: u8 = 0x10;

/// The first byte of a long report.
pub const LONG_REPORT_ID: u8 = 0x11;

/// Marks the requests of this application, and with them the replies to them.
pub const SW_ID: u8 = 0x0a;

/// How often a request is sent before the device is given up on.
pub const MAX_RETRIES: u32 = 3;

/// How long to wait for one report, in milliseconds.
pub const READ_TIMEOUT_MS: i32 = 500;

/// What a HID++ 1.0 error has in place of the feature index.
pub const ERROR_1_0: u8 = 0x8f;

/// What a HID++ 2.0 error has in place of the feature index.
pub const ERROR_2_0: u8 = 0xff;

/// A request: a function of a feature of a device, with three parameters.
#[derive(Clone, Copy, Debug, PartialEq, Eq, Structural)]
pub struct ShortMsg {
    pub device_index: u8,
    pub feature_index: u8,
    /// One of the sixteen functions of the feature.
    pub function: u8,
    pub param0: u8,
    pub param1: u8,
    pub param2: u8,
}

/// A request.
pub open spec fn msg(
    device_index: u8,
    feature_index: u8,
    function: u8,
    param0: u8,
    param1: u8,
    param2: u8,
) -> ShortMsg {
    ShortMsg { device_index, feature_index, function, param0, param1, param2 }
}

/// A request as a long report: the header, the parameters, and zeros.
pub open spec fn long_report(request: ShortMsg) -> Seq<u8> {
    seq![
        LONG_REPORT_ID,
        request.device_index,
        request.feature_index,
        ((request.function % 16) * 16 + SW_ID) as u8,
        request.param0,
        request.param1,
        request.param2,
    ] + Seq::new(13, |i: int| 0u8)
}

/// Whether a report is an error report.
pub open spec fn is_error_report(report: Seq<u8>) -> bool {
    report[2] == ERROR_1_0 || report[2] == ERROR_2_0
}

/// Whether a report answers a request, which is written as a report.
pub open spec fn answers(report: Seq<u8>, request: Seq<u8>) -> bool {
    report[2] == request[2] && report[3] % 16 == SW_ID
}

impl ShortMsg {
    pub fn new(device_index: u8, feature_index: u8, function: u8, params: [u8; 3]) -> (request: Self)
        ensures
            request == msg(
                device_index,
                feature_index,
                function,
                params@[0],
                params@[1],
                params@[2],
            ),
    {
        ShortMsg {
            device_index,
            feature_index,
            function,
            param0: params[0],
            param1: params[1],
            param2: params[2],
        }
    }

    /// This request as a long report. Wireless devices answer on the long channel.
    pub fn encode_long(&self) -> (report: [u8; 20])
        ensures
            report@ == long_report(*self),
    {
        let head: u8 = (self.function % 16) * 16 + SW_ID;
        let report: [u8; 20] = [
            LONG_REPORT_ID,
            self.device_index,
            self.feature_index,
            head,
            self.param0,
            self.param1,
            self.param2,
            0,
            0,
            0,
            0,
            0,
            0,
            0,
            0,
            0,
            0,
            0,
            0,
            0,
        ];
        assert(report@ == long_report(*self));
        report
    }

    /// Whether a report is an error report.
    pub fn is_error(report: &[u8; 7]) -> (yes: bool)
        ensures
            yes == is_error_report(report@),
    {
        report[2] == ERROR_1_0 || report[2] == ERROR_2_0
    }

    /// Which software a report answers.
    pub fn sw_id(report: &[u8; 7]) -> (id: u8)
        ensures
            id == report@[3] % 16,
    {
        report[3] % 16
    }
}

// ---------------------------------------------------------------------------
// The requests
// ---------------------------------------------------------------------------

/// Asks whether a device is there. It sends `echo` back.
pub open spec fn ping_msg(device_index: u8, echo: u8) -> ShortMsg {
    msg(device_index, 0, 1, 0, 0, echo)
}

/// Asks for the index of a feature.
pub open spec fn get_feature_msg(device_index: u8, feature_id: u16) -> ShortMsg {
    msg(device_index, 0, 0, (feature_id / 256) as u8, (feature_id % 256) as u8, 0)
}

/// Asks how many features there are.
pub open spec fn get_feature_count_msg(device_index: u8, feature_set: u8) -> ShortMsg {
    msg(device_index, feature_set, 0, 0, 0, 0)
}

/// Asks which feature has a given index.
pub open spec fn get_feature_id_msg(device_index: u8, feature_set: u8, index: u8) -> ShortMsg {
    msg(device_index, feature_set, 1, index, 0, 0)
}

pub fn ping(device_index: u8, echo: u8) -> (request: ShortMsg)
    ensures
        request == ping_msg(device_index, echo),
{
    ShortMsg::new(device_index, 0, 1, [0, 0, echo])
}

pub fn get_feature(device_index: u8, feature_id: u16) -> (request: ShortMsg)
    ensures
        request == get_feature_msg(device_index, feature_id),
{
    ShortMsg::new(
        device_index,
        0,
        0,
        [(feature_id / 256) as u8, (feature_id % 256) as u8, 0],
    )
}

pub fn get_feature_count(device_index: u8, feature_set: u8) -> (request: ShortMsg)
    ensures
        request == get_feature_count_msg(device_index, feature_set),
{
    ShortMsg::new(device_index, feature_set, 0, [0, 0, 0])
}

pub fn get_feature_id(device_index: u8, feature_set: u8, index: u8) -> (request: ShortMsg)
    ensures
        request == get_feature_id_msg(device_index, feature_set, index),
{
    ShortMsg::new(device_index, feature_set, 1, [index, 0, 0])
}

/// Asks for level and status, of feature `0x1000`.
pub fn get_battery_status(device_index: u8, feature_index: u8) -> (request: ShortMsg)
    ensures
        request == msg(device_index, feature_index, 0, 0, 0, 0),
{
    ShortMsg::new(device_index, feature_index, 0, [0, 0, 0])
}

/// Asks for voltage and flags, of feature `0x1001`.
pub fn get_battery_voltage(device_index: u8, feature_index: u8) -> (request: ShortMsg)
    ensures
        request == msg(device_index, feature_index, 0, 0, 0, 0),
{
    ShortMsg::new(device_index, feature_index, 0, [0, 0, 0])
}

/// Asks for level and status, of feature `0x1004`.
pub fn get_unified_battery_status(device_index: u8, feature_index: u8) -> (request: ShortMsg)
    ensures
        request == msg(device_index, feature_index, 1, 0, 0, 0),
{
    ShortMsg::new(device_index, feature_index, 1, [0, 0, 0])
}

// ---------------------------------------------------------------------------
// Battery readings
// ---------------------------------------------------------------------------

/// Whether a battery status means that the device is on its charger: charging,
/// in the final stage, full, or charging slowly.
pub open spec fn status_is_charging(status: u8) -> bool {
    1 <= status <= 4
}

pub fn is_charging_from_status(status: u8) -> (charging: bool)
    ensures
        charging == status_is_charging(status),
{
    1 <= status && status <= 4
}

/// Whether voltage flags mean that the device is on its charger: the top bit.
pub open spec fn flags_are_charging(flags: u8) -> bool {
    flags >= 0x80
}

pub fn is_charging_from_flags(flags: u8) -> (charging: bool)
    ensures
        charging == flags_are_charging(flags),
{
    flags >= 0x80
}

/// The estimated percentage for a cell voltage in millivolts: that of the
/// highest step of the discharge curve that the voltage reaches.
pub open spec fn percent_at(millivolts: u16) -> u8 {
    if millivolts >= 4186 {
        100
    } else if millivolts >= 4067 {
        90
    } else if millivolts >= 3989 {
        80
    } else if millivolts >= 3922 {
        70
    } else if millivolts >= 3859 {
        60
    } else if millivolts >= 3811 {
        50
    } else if millivolts >= 3778 {
        40
    } else if millivolts >= 3751 {
        30
    } else if millivolts >= 3717 {
        20
    } else if millivolts >= 3671 {
        10
    } else if millivolts >= 3646 {
        5
    } else if millivolts >= 3579 {
        2
    } else {
        0
    }
}

pub fn mv_to_percent(millivolts: u16) -> (percent: u8)
    ensures
        percent == percent_at(millivolts),
{
    if millivolts >= 4186 {
        100
    } else if millivolts >= 4067 {
        90
    } else if millivolts >= 3989 {
        80
    } else if millivolts >= 3922 {
        70
    } else if millivolts >= 3859 {
        60
    } else if millivolts >= 3811 {
        50
    } else if millivolts >= 3778 {
        40
    } else if millivolts >= 3751 {
        30
    } else if millivolts >= 3717 {
        20
    } else if millivolts >= 3671 {
        10
    } else if millivolts >= 3646 {
        5
    } else if millivolts >= 3579 {
        2
    } else {
        0
    }
}

/// A higher voltage never reads as a lower percentage, and none as more than a
/// hundred.
pub proof fn percent_follows_voltage(low: u16, high: u16)
    requires
        low <= high,
    ensures
        percent_at(low) <= percent_at(high) <= 100,
{
}

/// A request is written as twenty bytes: the id of a long report, the device, the
/// feature, the function above the mark of this application, the parameters, and
/// zeros. Of the number of the function the lowest four bits are written.
pub proof fn requests_are_laid_out(request: ShortMsg)
    ensures
        ({
            let report = long_report(request);
            &&& report.len() == 20
            &&& report[0] == 0x11
            &&& report[1] == request.device_index
            &&& report[2] == request.feature_index
            &&& report[3] / 16 == request.function % 16
            &&& report[3] % 16 == SW_ID
            &&& report[4] == request.param0
            &&& report[5] == request.param1
            &&& report[6] == request.param2
            &&& forall|i: int| 7 <= i < 20 ==> #[trigger] report[i] == 0
        }),
{
}

/// An error report has one of two values in place of the feature, and nothing
/// else makes one.
pub proof fn errors_are_told_by_the_feature(report: Seq<u8>)
    ensures
        is_error_report(report) <==> report[2] == 0x8f || report[2] == 0xff,
{
}

/// The steps of the discharge curve, from the highest: the voltage that a cell has
/// at least, and the percentage that it stands for.
pub open spec fn discharge_curve() -> Seq<(u16, u8)> {
    seq![
        (4186, 100),
        (4067, 90),
        (3989, 80),
        (3922, 70),
        (3859, 60),
        (3811, 50),
        (3778, 40),
        (3751, 30),
        (3717, 20),
        (3671, 10),
        (3646, 5),
        (3579, 2),
        (0, 0),
    ]
}

/// A voltage stands for the percentage of the step of the curve that it lies on,
/// up to the next.
pub proof fn voltages_lie_on_the_curve(millivolts: u16, step: int)
    requires
        0 <= step < 13,
        discharge_curve()[step].0 <= millivolts,
        step > 0 ==> millivolts < discharge_curve()[step - 1].0,
    ensures
        percent_at(millivolts) == discharge_curve()[step].1,
{
}

/// The state of a battery means charging for the four states from 1 to 4, and the
/// flags of a voltage for those with the highest bit.
pub proof fn charging_is_told_by_state_or_flags(byte: u8)
    ensures
        status_is_charging(byte) <==> byte == 1 || byte == 2 || byte == 3 || byte == 4,
        flags_are_charging(byte) <==> byte / 128 == 1,
{
}

/// What the requests ask: a ping is function 1 of the root, and carries what is to
/// be sent back; the root is asked for a feature by its number, high byte first;
/// the feature set is asked for the number of features with function 0, and for
/// one of them with function 1.
pub proof fn requests_say_what_they_ask(device_index: u8, feature_index: u8, id: u16, byte: u8)
    ensures
        ({
            let probe = long_report(ping_msg(device_index, byte));
            let find = long_report(get_feature_msg(device_index, id));
            let count = long_report(get_feature_count_msg(device_index, feature_index));
            let one = long_report(get_feature_id_msg(device_index, feature_index, byte));
            &&& probe[1] == device_index && probe[2] == 0 && probe[3] / 16 == 1
            &&& probe[4] == 0 && probe[5] == 0 && probe[6] == byte
            &&& find[1] == device_index && find[2] == 0 && find[3] / 16 == 0
            &&& find[4] * 256 + find[5] == id && find[6] == 0
            &&& count[1] == device_index && count[2] == feature_index && count[3] / 16 == 0
            &&& count[4] == 0 && count[5] == 0 && count[6] == 0
            &&& one[1] == device_index && one[2] == feature_index && one[3] / 16 == 1
            &&& one[4] == byte && one[5] == 0 && one[6] == 0
        }),
{
}

} // verus!
