//! Polling a receiver: its devices are looked for one after the other, and those
//! that answer are queried.

use vstd::prelude::*;
use vstd::string::*;

use super::client::{
    answering_devices_are_read, asked, asking, battery_feature, cache_after, continue_device,
    entry_of, features_listed, first_step, is_battery_feature, is_reachable, lists_features,
    name_in, progress, queried, queries_begin_well, queries_end, query_device, query_message,
    reading_of, reply_view, requests_left, tells_name, FeatureCache, Known, Next, Phase, Query,
    QueryError, Stage, DEVICE_NAME, LAST_INDEX,
};
use super::exchange::ExchangeError;
use super::protocol::{ping, ping_msg, ShortMsg};
use crate::model::{key_of, readings, Findings, PollResult, Reading};
use crate::text::{decimal, hex4, push_decimal, push_hex4, texts};

verus! {

/// What a device has to send back when it is looked for.
pub open spec fn echo_of(device_index: u8) -> u8 {
    0x55u8 ^ device_index
}

/// The poll of one receiver: which device it has come to, and how far the query
/// of that device has come. A device without a stage is still looked for.
pub struct ReceiverQuery {
    pub pid: u16,
    pub device_index: u8,
    pub stage: Option<Stage>,
}

/// A [`ReceiverQuery`] with what is known seen as maps and sequences.
#[verifier::ext_equal]
pub struct Round {
    pub pid: u16,
    pub device_index: u8,
    pub phase: Option<Phase>,
}

impl View for ReceiverQuery {
    type V = Round;

    open spec fn view(&self) -> Round {
        Round {
            pid: self.pid,
            device_index: self.device_index,
            phase: match self.stage {
                Some(stage) => Some(stage@),
                None => None,
            },
        }
    }
}

/// The request to send next. There is none once all devices have been polled.
pub open spec fn round_request(round: Round) -> Option<ShortMsg> {
    if round.device_index > LAST_INDEX {
        None
    } else {
        Some(
            match round.phase {
                None => ping_msg(round.device_index, echo_of(round.device_index)),
                Some(phase) => asked(round.device_index, phase),
            },
        )
    }
}

/// What is said of a device that could not be read.
pub open spec fn device_complaint(pid: u16, device_index: u8, err: QueryError) -> Seq<char> {
    "receiver "@ + hex4(pid, true) + " index "@ + decimal(device_index as nat) + ": "@
        + query_message(device_index, err)
}

/// What is said of a receiver that could not be opened.
pub open spec fn open_complaint(pid: u16) -> Seq<char> {
    "receiver "@ + hex4(pid, true) + ": failed to open receiver "@ + hex4(pid, true)
}

/// What has been found, with the outcome of one more device.
pub open spec fn recorded(
    found: Findings,
    pid: u16,
    device_index: u8,
    outcome: Result<Option<Reading>, QueryError>,
) -> Findings {
    match outcome {
        Ok(Some(reading)) => Findings { devices: found.devices.push(reading), ..found },
        Ok(None) => found,
        Err(err) => Findings {
            errors: found.errors.push(device_complaint(pid, device_index, err)),
            ..found
        },
    }
}

/// The poll of a receiver with all that it works on.
#[verifier::ext_equal]
pub struct Survey {
    pub round: Round,
    pub cache: Map<Seq<char>, Known>,
    pub found: Findings,
}

/// The poll goes on with the next device.
pub open spec fn next_device(round: Round) -> Round {
    Round { device_index: (round.device_index + 1) as u8, phase: None, ..round }
}

/// The poll after a step of the query of the current device.
pub open spec fn settled(survey: Survey, next: Next) -> Survey {
    match next {
        Next::Ask(phase) => Survey { round: Round { phase: Some(phase), ..survey.round }, ..survey },
        Next::Finished(outcome) => Survey {
            round: next_device(survey.round),
            found: recorded(survey.found, survey.round.pid, survey.round.device_index, outcome),
            ..survey
        },
    }
}

/// The poll after a reply, or the want of one. Once all devices have been polled
/// nothing changes any more.
pub open spec fn survey_after(survey: Survey, reply: Result<Seq<u8>, ExchangeError>) -> Survey {
    let round = survey.round;
    let key = key_of(round.pid, round.device_index);
    if round.device_index > LAST_INDEX {
        survey
    } else {
        match round.phase {
            None => if reply is Ok && reply->Ok_0[6] == echo_of(round.device_index) {
                settled(survey, first_step(entry_of(survey.cache, key)))
            } else {
                Survey { round: next_device(round), ..survey }
            },
            Some(phase) => {
                let step = progress(round.pid, round.device_index, phase, reply);
                settled(
                    Survey { cache: cache_after(survey.cache, key, step.learned), ..survey },
                    step.next,
                )
            },
        }
    }
}

/// Notes that a receiver could not be opened.
pub fn open_failed(pid: u16, result: &mut PollResult)
    ensures
        final(result)@ == (Findings {
            errors: old(result)@.errors.push(open_complaint(pid)),
            ..old(result)@
        }),
{
    let ghost before = result@;
    let mut message = "receiver ".to_string();
    push_hex4(&mut message, pid, true);
    message.append(": failed to open receiver ");
    push_hex4(&mut message, pid, true);
    result.errors.push(message);
    assert(texts(result.errors@) == before.errors.push(open_complaint(pid)));
}

fn record(
    pid: u16,
    device_index: u8,
    outcome: Result<Option<crate::model::BatteryState>, QueryError>,
    result: &mut PollResult,
)
    ensures
        final(result)@ == recorded(
            old(result)@,
            pid,
            device_index,
            Query::Finished(outcome)@->Finished_0,
        ),
{
    let ghost before = result@;
    match outcome {
        Ok(Some(state)) => {
            result.devices.push(state);
            assert(readings(result.devices@) == before.devices.push(state@));
        },
        Ok(None) => {},
        Err(err) => {
            let mut message = "receiver ".to_string();
            push_hex4(&mut message, pid, true);
            message.append(" index ");
            push_decimal(&mut message, device_index as u64);
            message.append(": ");
            message.append(err.message(device_index).as_str());
            result.errors.push(message);
            assert(texts(result.errors@) == before.errors.push(
                device_complaint(pid, device_index, err),
            ));
        },
    }
}

impl ReceiverQuery {
    /// The poll of a receiver, before any request.
    pub fn new(pid: u16) -> (query: Self)
        ensures
            query@ == (Round { pid, device_index: 1, phase: None }),
    {
        ReceiverQuery { pid, device_index: 1, stage: None }
    }

    /// The request to send next, or `None` once all devices have been polled.
    pub fn request(&self) -> (request: Option<ShortMsg>)
        ensures
            request == round_request(self@),
    {
        if self.device_index > LAST_INDEX {
            None
        } else {
            Some(
                match &self.stage {
                    None => ping(self.device_index, 0x55u8 ^ self.device_index),
                    Some(stage) => stage.request(self.device_index),
                },
            )
        }
    }

    fn settle(self, query: Query, result: &mut PollResult) -> (next: Self)
        requires
            self.device_index <= LAST_INDEX,
        ensures
            forall|cache: Map<Seq<char>, Known>| #[trigger]
                settled(Survey { round: self@, cache, found: old(result)@ }, query@) == (Survey {
                    round: next@,
                    cache,
                    found: final(result)@,
                }),
    {
        match query {
            Query::Ask(stage) => ReceiverQuery {
                pid: self.pid,
                device_index: self.device_index,
                stage: Some(stage),
            },
            Query::Finished(outcome) => {
                record(self.pid, self.device_index, outcome, result);
                ReceiverQuery { pid: self.pid, device_index: self.device_index + 1, stage: None }
            },
        }
    }

    /// Takes the poll on by the reply to the last request, or the want of one.
    pub fn after_reply(
        self,
        reply: Result<[u8; 7], ExchangeError>,
        cache: &mut FeatureCache,
        result: &mut PollResult,
    ) -> (next: Self)
        ensures
            (Survey { round: next@, cache: final(cache)@, found: final(result)@ }) == survey_after(
                Survey { round: self@, cache: old(cache)@, found: old(result)@ },
                reply_view(reply),
            ),
    {
        let pid = self.pid;
        let device_index = self.device_index;
        if device_index > LAST_INDEX {
            return self;
        }
        match self.stage {
            None => {
                let waiting = ReceiverQuery { pid, device_index, stage: None };
                let answered = match &reply {
                    Ok(report) => report[6] == 0x55u8 ^ device_index,
                    Err(_) => false,
                };
                if answered {
                    let query = query_device(pid, device_index, cache);
                    waiting.settle(query, result)
                } else {
                    ReceiverQuery { pid, device_index: device_index + 1, stage: None }
                }
            },
            Some(stage) => {
                let query = continue_device(pid, device_index, stage, reply, cache);
                let waiting = ReceiverQuery { pid, device_index, stage: None };
                waiting.settle(query, result)
            },
        }
    }
}

// ---------------------------------------------------------------------------
// Whole polls
// ---------------------------------------------------------------------------

/// The poll after a number of replies.
pub open spec fn polled(survey: Survey, replies: Seq<Result<Seq<u8>, ExchangeError>>) -> Survey
    decreases replies.len(),
{
    if replies.len() == 0 {
        survey
    } else {
        survey_after(polled(survey, replies.drop_last()), replies.last())
    }
}

/// A poll about to begin.
pub open spec fn beginning(pid: u16, cache: Map<Seq<char>, Known>, found: Findings) -> Survey {
    Survey { round: Round { pid, device_index: 1, phase: None }, cache, found }
}

/// The devices that a poll of a receiver adds: each has the key of its receiver
/// and index, and the indices ascend.
pub open spec fn are_devices_of(devices: Seq<Reading>, pid: u16, below: u8) -> bool {
    &&& forall|i: int|
        0 <= i < devices.len() ==> {
            &&& (#[trigger] devices[i]).pid == pid
            &&& 1 <= devices[i].device_index < below
            &&& devices[i].device_key == key_of(pid, devices[i].device_index)
        }
    &&& forall|i: int, j: int|
        0 <= i < j < devices.len() ==> (#[trigger] devices[i]).device_index < (
        #[trigger] devices[j]).device_index
}

/// Whatever a receiver's devices reply, a poll keeps the devices and the errors
/// that were found before it and reports each device at most once, under its own
/// key. New readings and new errors together are no more than the devices that the
/// poll is done with, so six at most. All that is remembered of other receivers'
/// devices is kept.
pub proof fn devices_are_reported_once(
    pid: u16,
    cache: Map<Seq<char>, Known>,
    found: Findings,
    replies: Seq<Result<Seq<u8>, ExchangeError>>,
)
    ensures
        ({
            let after = polled(beginning(pid, cache, found), replies);
            &&& after.round.pid == pid
            &&& 1 <= after.round.device_index <= LAST_INDEX + 1
            &&& found.devices.len() <= after.found.devices.len()
            &&& found.devices == after.found.devices.take(found.devices.len() as int)
            &&& are_devices_of(
                after.found.devices.skip(found.devices.len() as int),
                pid,
                after.round.device_index,
            )
            &&& found.errors.len() <= after.found.errors.len()
            &&& found.errors == after.found.errors.take(found.errors.len() as int)
            &&& (after.found.devices.len() - found.devices.len()) + (after.found.errors.len()
                - found.errors.len()) < after.round.device_index
            &&& forall|key: Seq<char>|
                (forall|i: u8| key != #[trigger] key_of(pid, i)) ==> #[trigger] entry_of(
                    after.cache,
                    key,
                ) == entry_of(cache, key)
        }),
    decreases replies.len(),
{
    let start = beginning(pid, cache, found);
    let n = found.devices.len() as int;
    if replies.len() == 0 {
        assert(found.devices.take(n) == found.devices);
        assert(found.errors.take(found.errors.len() as int) == found.errors);
    } else {
        devices_are_reported_once(pid, cache, found, replies.drop_last());
        let before = polled(start, replies.drop_last());
        let after = polled(start, replies);
        assert(after == survey_after(before, replies.last()));
        let b = before.round.device_index;
        let old_part = before.found.devices.skip(n);
        let m = found.errors.len() as int;
        if after.found.errors != before.found.errors {
            assert(after.found.errors == before.found.errors.push(after.found.errors.last()));
            assert(after.found.errors.take(m) == before.found.errors.take(m));
        }
        if after.found.devices != before.found.devices {
            assert(before.round.phase is Some);
            let reading = after.found.devices.last();
            assert(after.found.devices == before.found.devices.push(reading));
            assert(reading.device_key == key_of(pid, b) && reading.pid == pid
                && reading.device_index == b);
            let new_part = after.found.devices.skip(n);
            assert(new_part == old_part.push(reading));
            assert(after.found.devices.take(n) == before.found.devices.take(n));
            assert(are_devices_of(new_part, pid, after.round.device_index)) by {
                assert forall|i: int| 0 <= i < new_part.len() implies {
                    &&& (#[trigger] new_part[i]).pid == pid
                    &&& 1 <= new_part[i].device_index < after.round.device_index
                    &&& new_part[i].device_key == key_of(pid, new_part[i].device_index)
                } by {
                    if i < old_part.len() {
                        assert(new_part[i] == old_part[i]);
                    }
                }
                assert forall|i: int, j: int| 0 <= i < j < new_part.len() implies (
                #[trigger] new_part[i]).device_index < (#[trigger] new_part[j]).device_index by {
                    assert(new_part[i] == old_part[i]);
                    if j < old_part.len() {
                        assert(new_part[j] == old_part[j]);
                    }
                }
            }
        }
        assert forall|key: Seq<char>|
            (forall|i: u8| key != #[trigger] key_of(pid, i)) implies #[trigger] entry_of(
            after.cache,
            key,
        ) == entry_of(cache, key) by {
            assert(key != key_of(pid, b));
            assert(entry_of(before.cache, key) == entry_of(cache, key));
        }
    }
}

/// While a device is queried, the poll goes as the query does.
proof fn polling_is_querying(survey: Survey, replies: Seq<Result<Seq<u8>, ExchangeError>>)
    requires
        survey.round.device_index <= LAST_INDEX,
        survey.round.phase is Some,
        forall|k: int|
            0 <= k < replies.len() ==> (#[trigger] queried(
                survey.round.pid,
                survey.round.device_index,
                asking(survey.round.phase->0),
                replies.take(k),
            )).next is Ask,
    ensures
        ({
            let round = survey.round;
            let key = key_of(round.pid, round.device_index);
            let query = queried(round.pid, round.device_index, asking(round.phase->0), replies);
            polled(survey, replies) == settled(
                Survey { cache: cache_after(survey.cache, key, query.learned), ..survey },
                query.next,
            )
        }),
    decreases replies.len(),
{
    let round = survey.round;
    let key = key_of(round.pid, round.device_index);
    let start = asking(round.phase->0);
    if replies.len() == 0 {
        assert(polled(survey, replies) =~= survey);
    } else {
        let head = replies.drop_last();
        assert forall|k: int| 0 <= k < head.len() implies (#[trigger] queried(
            round.pid,
            round.device_index,
            start,
            head.take(k),
        )).next is Ask by {
            assert(head.take(k) == replies.take(k));
        }
        polling_is_querying(survey, head);
        assert(head == replies.take(replies.len() - 1));
        let before = queried(round.pid, round.device_index, start, head);
        assert(before.next is Ask);
        let after = progress(round.pid, round.device_index, before.next->Ask_0, replies.last());
        if after.learned is Some && before.learned is Some {
            assert(survey.cache.insert(key, before.learned->0).insert(key, after.learned->0)
                =~= survey.cache.insert(key, after.learned->0));
        }
    }
}

/// A new device that answers everything is found: the poll reports it under the
/// name and with the level that it tells, remembers it, and goes on with the next
/// device.
pub proof fn answering_devices_are_found(
    survey: Survey,
    echo: Seq<u8>,
    feature_set: u8,
    ids: Seq<u16>,
    name: Seq<u8>,
    listing: Seq<Result<Seq<u8>, ExchangeError>>,
    naming: Seq<Result<Seq<u8>, ExchangeError>>,
    report: Seq<u8>,
)
    requires
        survey.round.device_index <= LAST_INDEX,
        survey.round.phase is None,
        !survey.cache.contains_key(key_of(survey.round.pid, survey.round.device_index)),
        echo.len() == 7 && echo[6] == echo_of(survey.round.device_index),
        feature_set != 0,
        ids.len() <= 255,
        lists_features(listing, feature_set, ids),
        battery_feature(features_listed(feature_set, ids)) is Some,
        features_listed(feature_set, ids).contains_key(DEVICE_NAME),
        1 <= name.len() <= 255,
        tells_name(naming, name),
    ensures
        ({
            let round = survey.round;
            let battery = battery_feature(features_listed(feature_set, ids))->0;
            polled(survey, seq![Ok(echo)] + (listing + naming + seq![Ok(report)])) == (Survey {
                round: next_device(round),
                cache: survey.cache.insert(
                    key_of(round.pid, round.device_index),
                    Known { battery: Some(battery), display_name: name_in(name) },
                ),
                found: Findings {
                    devices: survey.found.devices.push(
                        reading_of(
                            round.pid,
                            round.device_index,
                            name_in(name),
                            battery.0,
                            report,
                        ),
                    ),
                    ..survey.found
                },
            })
        }),
{
    let round = survey.round;
    let replies = listing + naming + seq![Ok(report)];
    answering_devices_are_read(
        round.pid,
        round.device_index,
        feature_set,
        ids,
        name,
        listing,
        naming,
        report,
    );
    let first: Seq<Result<Seq<u8>, ExchangeError>> = seq![Ok(echo)];
    assert(first.drop_last().len() == 0);
    assert(polled(survey, first.drop_last()) == survey);
    let asked_first = Survey {
        round: Round { phase: Some(Phase::FeatureSet), ..round },
        ..survey
    };
    assert(polled(survey, first) == asked_first);
    polling_is_querying(asked_first, replies);
    polls_go_on(survey, first, replies);
}

proof fn polls_go_on(
    survey: Survey,
    first: Seq<Result<Seq<u8>, ExchangeError>>,
    more: Seq<Result<Seq<u8>, ExchangeError>>,
)
    ensures
        polled(survey, first + more) == polled(polled(survey, first), more),
    decreases more.len(),
{
    let all = first + more;
    if more.len() == 0 {
        assert(all == first);
    } else {
        polls_go_on(survey, first, more.drop_last());
        assert(all.drop_last() == first + more.drop_last());
        assert(all.last() == more.last());
    }
}

/// A device that is remembered is asked for its battery alone, and reported with
/// the level that it tells.
pub proof fn remembered_devices_are_read_at_once(
    survey: Survey,
    echo: Seq<u8>,
    battery: (u16, u8),
    report: Seq<u8>,
)
    requires
        survey.round.device_index <= LAST_INDEX,
        survey.round.phase is None,
        survey.cache.contains_key(key_of(survey.round.pid, survey.round.device_index)),
        survey.cache[key_of(survey.round.pid, survey.round.device_index)].battery == Some(battery),
        is_battery_feature(battery.0),
        echo.len() == 7 && echo[6] == echo_of(survey.round.device_index),
    ensures
        ({
            let round = survey.round;
            let known = survey.cache[key_of(round.pid, round.device_index)];
            polled(survey, seq![Ok(echo), Ok(report)]) == (Survey {
                round: next_device(round),
                found: Findings {
                    devices: survey.found.devices.push(
                        reading_of(
                            round.pid,
                            round.device_index,
                            known.display_name,
                            battery.0,
                            report,
                        ),
                    ),
                    ..survey.found
                },
                ..survey
            })
        }),
{
    let both: Seq<Result<Seq<u8>, ExchangeError>> = seq![Ok(echo), Ok(report)];
    let first = both.drop_last();
    assert(first.drop_last().len() == 0);
    assert(polled(survey, first.drop_last()) == survey);
    assert(first.last() == Ok::<Seq<u8>, ExchangeError>(echo));
    assert(both.last() == Ok::<Seq<u8>, ExchangeError>(report));
    let known = survey.cache[key_of(survey.round.pid, survey.round.device_index)];
    let phase = Phase::Battery { battery, name: known.display_name };
    let middle = Survey { round: Round { phase: Some(phase), ..survey.round }, ..survey };
    assert(polled(survey, first) == middle);
    assert(polled(survey, both) == survey_after(middle, Ok(report)));
}

/// A device that does not answer when it is looked for, or answers with something
/// else, is passed over: nothing is reported and nothing remembered.
pub proof fn silent_devices_are_passed_over(
    survey: Survey,
    reply: Result<Seq<u8>, ExchangeError>,
)
    requires
        survey.round.device_index <= LAST_INDEX,
        survey.round.phase is None,
        reply is Ok ==> reply->Ok_0[6] != echo_of(survey.round.device_index),
    ensures
        survey_after(survey, reply) == (Survey { round: next_device(survey.round), ..survey }),
{
}

/// A device that cannot be read does not keep the others from being polled: the
/// poll reports it and goes on.
pub proof fn failures_do_not_stop_the_poll(survey: Survey, err: ExchangeError)
    requires
        survey.round.device_index <= LAST_INDEX,
        survey.round.phase matches Some(Phase::Battery { battery, .. }) && is_battery_feature(
            battery.0,
        ),
    ensures
        survey_after(survey, Err(err)) == (Survey {
            round: next_device(survey.round),
            found: Findings {
                errors: survey.found.errors.push(
                    device_complaint(
                        survey.round.pid,
                        survey.round.device_index,
                        QueryError::Exchange(err),
                    ),
                ),
                ..survey.found
            },
            ..survey
        }),
{
}

/// Whether a round is one that polls come to.
pub open spec fn is_reachable_round(round: Round) -> bool {
    round.phase matches Some(phase) ==> is_reachable(phase) && requests_left(phase) >= 0
}

/// Every poll comes to an end: with each reply it comes to the next device, or
/// the query of the current one comes closer to its own end.
pub proof fn polls_end(survey: Survey, reply: Result<Seq<u8>, ExchangeError>)
    requires
        survey.round.device_index <= LAST_INDEX,
        is_reachable_round(survey.round),
        reply is Ok ==> reply->Ok_0.len() == 7,
    ensures
        ({
            let before = survey.round;
            let after = survey_after(survey, reply).round;
            &&& is_reachable_round(after)
            &&& after.device_index == before.device_index + 1 && after.phase is None
                || after.device_index == before.device_index && after.phase is Some && (
            before.phase is None || requests_left(after.phase->0) < requests_left(before.phase->0))
        }),
{
    let round = survey.round;
    queries_begin_well(entry_of(survey.cache, key_of(round.pid, round.device_index)));
    if let Some(phase) = round.phase {
        queries_end(round.pid, round.device_index, phase, reply);
    }
}

/// What a device is looked for with differs from device to device, so that a late
/// reply of one is not taken for a reply of another.
pub proof fn echoes_differ(a: u8, b: u8)
    ensures
        echo_of(a) == echo_of(b) ==> a == b,
{
    assert((0x55u8 ^ a) == (0x55u8 ^ b) ==> a == b) by (bit_vector);
}

/// Six devices are looked for, each with a ping of its own that asks for a byte of
/// its own back. A device that answered is asked what its query has come to. After
/// the sixth there is nothing to ask.
pub proof fn six_devices_are_looked_for(round: Round)
    ensures
        round.device_index > 6 ==> round_request(round) is None,
        round.device_index <= 6 ==> round_request(round) is Some,
        round.device_index <= 6 && round.phase is None ==> {
            let report = super::protocol::long_report(round_request(round)->0);
            &&& report[1] == round.device_index
            &&& report[2] == 0 && report[3] / 16 == 1
            &&& report[6] == 0x55u8 ^ round.device_index
        },
        round.device_index <= 6 && round.phase is Some ==> round_request(round) == Some(
            asked(round.device_index, round.phase->0),
        ),
{
}

/// Looking for a device: only the byte that was asked back counts as an answer. A
/// device that gave it is queried, from where memory ends; any other is passed
/// over, and the next is looked for.
pub proof fn devices_answer_with_their_byte(
    survey: Survey,
    reply: Result<Seq<u8>, ExchangeError>,
)
    requires
        survey.round.device_index <= 6,
        survey.round.phase is None,
    ensures
        ({
            let after = survey_after(survey, reply);
            let index = survey.round.device_index;
            let key = key_of(survey.round.pid, index);
            let answered = reply is Ok && reply->Ok_0[6] == 0x55u8 ^ index;
            &&& after.round.pid == survey.round.pid
            &&& after.cache == survey.cache
            &&& !answered ==> after.round.device_index == index + 1 && after.round.phase is None
                && after.found == survey.found
            &&& answered && !survey.cache.contains_key(key) ==> after.round.device_index == index
                && after.round.phase == Some(Phase::FeatureSet) && after.found == survey.found
            &&& answered && survey.cache.contains_key(key) && survey.cache[key].battery is None
                ==> after.round.device_index == index + 1 && after.round.phase is None
                && after.found == survey.found
        }),
{
}

/// What the end of a query adds to the findings: a reading is added to the devices,
/// a failure to the errors, and a device without a battery to neither; then the
/// next device is looked for. What was learned is remembered under the key of the
/// device, and nothing else is touched.
pub proof fn findings_grow_by_one(survey: Survey, reply: Result<Seq<u8>, ExchangeError>)
    requires
        survey.round.device_index <= 6,
        survey.round.phase is Some,
    ensures
        ({
            let after = survey_after(survey, reply);
            let round = survey.round;
            let key = key_of(round.pid, round.device_index);
            let step = progress(round.pid, round.device_index, round.phase->0, reply);
            &&& after.round.pid == round.pid
            &&& step.learned is None ==> after.cache == survey.cache
            &&& step.learned matches Some(known) ==> after.cache == survey.cache.insert(key, known)
            &&& step.next matches Next::Ask(phase) ==> after.round.device_index
                == round.device_index && after.round.phase == Some(phase) && after.found
                == survey.found
            &&& step.next is Finished ==> after.round.device_index == round.device_index + 1
                && after.round.phase is None
            &&& step.next == Next::Finished(Ok(None)) ==> after.found == survey.found
            &&& step.next matches Next::Finished(Ok(Some(reading))) ==> after.found.devices
                == survey.found.devices.push(reading) && after.found.errors == survey.found.errors
            &&& step.next matches Next::Finished(Err(err)) ==> after.found.errors
                == survey.found.errors.push(device_complaint(round.pid, round.device_index, err))
                && after.found.devices == survey.found.devices
        }),
{
}

/// Once all devices have been polled, nothing changes any more.
pub proof fn finished_polls_stay_as_they_are(survey: Survey, reply: Result<Seq<u8>, ExchangeError>)
    requires
        survey.round.device_index > 6,
    ensures
        survey_after(survey, reply) == survey,
{
}

/// What is said of a device or of a receiver begins with the number of the receiver
/// as four hexadecimal digits.
pub proof fn complaints_name_the_receiver(pid: u16, device_index: u8, err: QueryError)
    ensures
        ({
            let device = device_complaint(pid, device_index, err);
            let receiver = open_complaint(pid);
            let n = decimal(device_index as nat).len() as int;
            let said = query_message(device_index, err);
            &&& device.take(9) == "receiver "@ && device.subrange(9, 13) == hex4(pid, true)
            &&& device.subrange(13, 20) == " index "@
            &&& device.subrange(20, 20 + n) == decimal(device_index as nat)
            &&& device.subrange(20 + n, 22 + n) == ": "@ && device.skip(22 + n) == said
            &&& receiver.take(9) == "receiver "@ && receiver.subrange(9, 13) == hex4(pid, true)
            &&& receiver.skip(receiver.len() - 4) == hex4(pid, true)
        }),
{
    reveal_strlit("receiver ");
    reveal_strlit(" index ");
    reveal_strlit(": ");
    reveal_strlit(": failed to open receiver ");
    let device = device_complaint(pid, device_index, err);
    let receiver = open_complaint(pid);
    let n = decimal(device_index as nat).len() as int;
    assert(device.take(9) == "receiver "@);
    assert(device.subrange(9, 13) == hex4(pid, true));
    assert(device.subrange(13, 20) == " index "@);
    assert(device.subrange(20, 20 + n) == decimal(device_index as nat));
    assert(device.subrange(20 + n, 22 + n) == ": "@);
    assert(device.skip(22 + n) == query_message(device_index, err));
    assert(receiver.take(9) == "receiver "@);
    assert(receiver.subrange(9, 13) == hex4(pid, true));
    assert(receiver.skip(receiver.len() - 4) == hex4(pid, true));
}

} // verus!
