//! One request to a device and the reply to it: what to do after each write and
//! each read.

use vstd::prelude::*;
use vstd::string::*;

use super::protocol::{
    answers, is_error_report, long_report, ShortMsg, LONG_REPORT_ID, MAX_RETRIES, SHORT_REPORT_ID,
    SW_ID,
};
use crate::text::{decimal, hex2, push_decimal, push_hex2};

verus! {

/// How long to pause before a request is written again, in milliseconds.
pub const RETRY_DELAY_MS: u64 = 100;

/// Why a request was not answered.
#[derive(Clone, Copy, Debug, PartialEq, Eq, Structural)]
pub enum ExchangeError {
    /// The request could not be written.
    Write,
    /// Nothing could be read.
    Read,
    /// The device answered with an error.
    Refused { feature: u8 },
    /// The device did not answer, however often it was asked.
    Silent { feature: u8 },
}

/// What is said of a failed exchange.
pub open spec fn exchange_message(err: ExchangeError) -> Seq<char> {
    match err {
        ExchangeError::Write => "HID write failed"@,
        ExchangeError::Read => "HID read failed"@,
        ExchangeError::Refused { feature } => "HID++ error response for feature 0x"@ + hex2(feature),
        ExchangeError::Silent { feature } => "no response after "@ + decimal(MAX_RETRIES as nat)
            + " attempts for feature 0x"@ + hex2(feature),
    }
}

impl ExchangeError {
    /// What is said of this error.
    pub fn message(&self) -> (message: String)
        ensures
            message@ == exchange_message(*self),
    {
        match self {
            ExchangeError::Write => "HID write failed".to_string(),
            ExchangeError::Read => "HID read failed".to_string(),
            ExchangeError::Refused { feature } => {
                let mut message = "HID++ error response for feature 0x".to_string();
                push_hex2(&mut message, *feature);
                message
            },
            ExchangeError::Silent { feature } => {
                let mut message = "no response after ".to_string();
                push_decimal(&mut message, MAX_RETRIES as u64);
                message.append(" attempts for feature 0x");
                push_hex2(&mut message, *feature);
                message
            },
        }
    }
}

/// The header and the parameters in what was read, if it is long enough. The
/// system may put a byte in front of the report, which itself starts with one of
/// the two report ids.
pub open spec fn report_in(read: Seq<u8>) -> Option<Seq<u8>> {
    if read.len() >= 8 && read[0] != SHORT_REPORT_ID && read[0] != LONG_REPORT_ID {
        Some(read.subrange(1, 8))
    } else if read.len() >= 7 {
        Some(read.subrange(0, 7))
    } else {
        None
    }
}

/// The header and the parameters in what was read.
pub fn report_of(read: &[u8]) -> (report: Option<[u8; 7]>)
    ensures
        match report {
            Some(bytes) => report_in(read@) == Some(bytes@),
            None => report_in(read@) is None,
        },
{
    if read.len() >= 8 && read[0] != SHORT_REPORT_ID && read[0] != LONG_REPORT_ID {
        let bytes: [u8; 7] = [read[1], read[2], read[3], read[4], read[5], read[6], read[7]];
        assert(bytes@ == read@.subrange(1, 8));
        Some(bytes)
    } else if read.len() >= 7 {
        let bytes: [u8; 7] = [read[0], read[1], read[2], read[3], read[4], read[5], read[6]];
        assert(bytes@ == read@.subrange(0, 7));
        Some(bytes)
    } else {
        None
    }
}

/// What to do next about a request.
#[derive(Debug)]
pub enum ExchangeStep {
    /// Read on.
    Read,
    /// Pause, then write the request again.
    Resend,
    /// This is the reply.
    Done([u8; 7]),
    /// There will be no reply.
    Failed(ExchangeError),
}

/// An [`ExchangeStep`] with its reply seen as a sequence.
#[verifier::ext_equal]
pub enum Verdict {
    Read,
    Resend,
    Done(Seq<u8>),
    Failed(ExchangeError),
}

impl View for ExchangeStep {
    type V = Verdict;

    open spec fn view(&self) -> Verdict {
        match *self {
            ExchangeStep::Read => Verdict::Read,
            ExchangeStep::Resend => Verdict::Resend,
            ExchangeStep::Done(report) => Verdict::Done(report@),
            ExchangeStep::Failed(err) => Verdict::Failed(err),
        }
    }
}

/// What a read means for a request that was written `attempt` times before. A
/// read that fails is `None`, one that times out is empty.
pub open spec fn verdict(request: ShortMsg, attempt: int, read: Option<Seq<u8>>) -> Verdict {
    match read {
        None => Verdict::Failed(ExchangeError::Read),
        Some(bytes) => if bytes.len() == 0 {
            if attempt + 1 < MAX_RETRIES {
                Verdict::Resend
            } else {
                Verdict::Failed(ExchangeError::Silent { feature: request.feature_index })
            }
        } else {
            match report_in(bytes) {
                None => Verdict::Read,
                Some(report) => if is_error_report(report) {
                    Verdict::Failed(ExchangeError::Refused { feature: request.feature_index })
                } else if answers(report, long_report(request)) {
                    Verdict::Done(report)
                } else {
                    Verdict::Read
                }
            }
        },
    }
}

/// A request under way.
#[derive(Clone, Copy, Debug, PartialEq, Eq, Structural)]
pub struct Exchange {
    pub request: ShortMsg,
    /// How often the request was written and timed out.
    pub attempt: u32,
}

impl Exchange {
    /// A request that was not written yet.
    pub fn new(request: ShortMsg) -> (exchange: Self)
        ensures
            exchange == (Exchange { request, attempt: 0 }),
    {
        Exchange { request, attempt: 0 }
    }

    /// What to do after the request was written, or could not be.
    pub fn after_write(&self, ok: bool) -> (step: ExchangeStep)
        ensures
            step@ == (if ok {
                Verdict::Read
            } else {
                Verdict::Failed(ExchangeError::Write)
            }),
    {
        if ok {
            ExchangeStep::Read
        } else {
            ExchangeStep::Failed(ExchangeError::Write)
        }
    }

    /// What to do after a read: what came, nothing if it timed out, or `None` if
    /// it failed. Reports that answer something else are passed over.
    pub fn after_read(&mut self, read: Option<&[u8]>) -> (step: ExchangeStep)
        ensures
            step@ == verdict(
                old(self).request,
                old(self).attempt as int,
                match read {
                    Some(bytes) => Some(bytes@),
                    None => None,
                },
            ),
            final(self).request == old(self).request,
            final(self).attempt == old(self).attempt + (if step@ is Resend {
                1int
            } else {
                0
            }),
    {
        let feature = self.request.feature_index;
        let bytes = match read {
            Some(bytes) => bytes,
            None => {
                return ExchangeStep::Failed(ExchangeError::Read);
            },
        };
        if bytes.len() == 0 {
            return if self.attempt < MAX_RETRIES - 1 {
                self.attempt = self.attempt + 1;
                ExchangeStep::Resend
            } else {
                ExchangeStep::Failed(ExchangeError::Silent { feature })
            };
        }
        match report_of(bytes) {
            None => ExchangeStep::Read,
            Some(report) => if ShortMsg::is_error(&report) {
                ExchangeStep::Failed(ExchangeError::Refused { feature })
            } else if report[2] == feature && ShortMsg::sw_id(&report) == SW_ID {
                ExchangeStep::Done(report)
            } else {
                ExchangeStep::Read
            },
        }
    }
}

// ---------------------------------------------------------------------------
// Whole exchanges
// ---------------------------------------------------------------------------

/// How often a request has timed out, and what to do, after a number of reads.
/// What comes after the reply, or after the failure, is not looked at.
pub open spec fn exchanged(request: ShortMsg, reads: Seq<Option<Seq<u8>>>) -> (int, Verdict)
    decreases reads.len(),
{
    if reads.len() == 0 {
        (0, Verdict::Read)
    } else {
        let (attempt, before) = exchanged(request, reads.drop_last());
        match before {
            Verdict::Done(_) => (attempt, before),
            Verdict::Failed(_) => (attempt, before),
            _ => {
                let next = verdict(request, attempt, reads.last());
                (if next is Resend {
                    attempt + 1
                } else {
                    attempt
                }, next)
            },
        }
    }
}

/// A request is written at most [`MAX_RETRIES`] times: the first time, and once
/// for every timeout but the last. With the last the device counts as silent.
pub proof fn requests_are_written_a_few_times(request: ShortMsg, reads: Seq<Option<Seq<u8>>>)
    ensures
        0 <= exchanged(request, reads).0 < MAX_RETRIES,
        exchanged(request, reads).0 < MAX_RETRIES - 1 ==> !(exchanged(request, reads).1
            == Verdict::Failed(ExchangeError::Silent { feature: request.feature_index })),
    decreases reads.len(),
{
    if reads.len() > 0 {
        requests_are_written_a_few_times(request, reads.drop_last());
    }
}

/// A device that never answers is given up on.
pub proof fn silence_is_noticed(request: ShortMsg, reads: Seq<Option<Seq<u8>>>)
    requires
        reads.len() >= MAX_RETRIES,
        forall|i: int| 0 <= i < reads.len() ==> #[trigger] reads[i] == Some(Seq::<u8>::empty()),
    ensures
        exchanged(request, reads).1 == Verdict::Failed(
            ExchangeError::Silent { feature: request.feature_index },
        ),
    decreases reads.len(),
{
    if reads.len() > MAX_RETRIES {
        silence_is_noticed(request, reads.drop_last());
    } else {
        let two = reads.drop_last();
        let one = two.drop_last();
        assert(one.drop_last().len() == 0);
        assert(one.last() == reads[0] && two.last() == reads[1] && reads.last() == reads[2]);
        assert(exchanged(request, one) == (1int, Verdict::Resend)) by {
            assert(exchanged(request, one.drop_last()) == (0int, Verdict::Read));
        }
        assert(exchanged(request, two) == (2int, Verdict::Resend));
    }
}

/// What is returned as the reply answers the request and is no error; what
/// answers something else is passed over without giving up.
pub proof fn replies_answer_the_request(request: ShortMsg, attempt: int, read: Option<Seq<u8>>)
    ensures
        verdict(request, attempt, read) matches Verdict::Done(report) ==> read is Some && report_in(
            read->0,
        ) == Some(report) && report.len() == 7 && report[2] == request.feature_index && report[3] % 16
            == SW_ID && !is_error_report(report),
        read is Some && read->0.len() > 0 && (report_in(read->0) matches Some(report)
            ==> !is_error_report(report) && !answers(report, long_report(request))) ==> verdict(
            request,
            attempt,
            read,
        ) is Read,
{
    assert(long_report(request)[2] == request.feature_index);
}

/// What was read holds the report: from its start, if it starts with a report id or
/// is no longer than a report, and otherwise behind one byte.
pub open spec fn carries(read: Seq<u8>, report: Seq<u8>) -> bool {
    &&& read.len() >= 7
    &&& read.len() == 7 || read[0] == 0x10 || read[0] == 0x11 ==> report == read.take(7)
    &&& read.len() > 7 && read[0] != 0x10 && read[0] != 0x11 ==> report == read.subrange(1, 8)
}

/// The reply to a request is taken: whatever the request, a report that is no error
/// and has the bytes of the request itself for the feature and for the function and
/// the mark of this application ends the exchange, and is the reply. It makes no
/// difference whether the system put a byte in front of it.
pub proof fn own_replies_are_taken(
    request: ShortMsg,
    attempt: int,
    read: Seq<u8>,
    report: Seq<u8>,
)
    requires
        carries(read, report),
        report[2] != 0x8f && report[2] != 0xff,
        report[2] == long_report(request)[2],
        report[3] == long_report(request)[3],
    ensures
        verdict(request, attempt, Some(read)) == Verdict::Done(report),
{
    assert(read.subrange(0, 7) == read.take(7));
}

/// What a read means depends on its report alone. A report of another feature, or
/// one that does not carry the mark of this application, is passed over. An error
/// ends the exchange. Every other report is the reply.
pub proof fn reports_are_sorted(request: ShortMsg, attempt: int, read: Seq<u8>, report: Seq<u8>)
    requires
        carries(read, report),
    ensures
        ({
            let means = verdict(request, attempt, Some(read));
            let is_error = report[2] == 0x8f || report[2] == 0xff;
            &&& is_error ==> means == Verdict::Failed(
                ExchangeError::Refused { feature: request.feature_index },
            )
            &&& !is_error && report[2] == request.feature_index && report[3] % 16 == SW_ID
                ==> means == Verdict::Done(report)
            &&& !is_error && (report[2] != request.feature_index || report[3] % 16 != SW_ID)
                ==> means == Verdict::Read
        }),
{
    assert(read.subrange(0, 7) == read.take(7));
    assert(long_report(request)[2] == request.feature_index);
}

/// A read that brought fewer than seven bytes says nothing. One that brought none
/// has the request written again, three times in all. One that failed ends the
/// exchange.
pub proof fn reads_without_a_report(request: ShortMsg, attempt: int, read: Option<Seq<u8>>)
    requires
        read matches Some(bytes) ==> bytes.len() < 7,
    ensures
        ({
            let means = verdict(request, attempt, read);
            &&& read is None ==> means == Verdict::Failed(ExchangeError::Read)
            &&& read is Some && read->0.len() > 0 ==> means == Verdict::Read
            &&& read is Some && read->0.len() == 0 && attempt < 2 ==> means == Verdict::Resend
            &&& read is Some && read->0.len() == 0 && attempt >= 2 ==> means == Verdict::Failed(
                ExchangeError::Silent { feature: request.feature_index },
            )
        }),
{
}

/// A whole exchange: whatever came before, as long as nothing has settled it, the
/// reply settles it, and what comes after is not looked at.
pub proof fn exchanges_end_with_the_reply(
    request: ShortMsg,
    before: Seq<Option<Seq<u8>>>,
    read: Seq<u8>,
    report: Seq<u8>,
    after: Seq<Option<Seq<u8>>>,
)
    requires
        exchanged(request, before).1 is Read || exchanged(request, before).1 is Resend,
        carries(read, report),
        report[2] != 0x8f && report[2] != 0xff,
        report[2] == long_report(request)[2],
        report[3] == long_report(request)[3],
    ensures
        exchanged(request, before.push(Some(read)) + after).1 == Verdict::Done(report),
    decreases after.len(),
{
    let whole = before.push(Some(read)) + after;
    if after.len() == 0 {
        assert(whole == before.push(Some(read)));
        assert(whole.drop_last() == before);
        own_replies_are_taken(request, exchanged(request, before).0, read, report);
    } else {
        exchanges_end_with_the_reply(request, before, read, report, after.drop_last());
        assert(whole.drop_last() == before.push(Some(read)) + after.drop_last());
    }
}

/// What is said of an exchange that failed: that writing or reading did, or at the
/// end the number of the feature that was asked.
pub proof fn complaints_name_the_feature(feature: u8)
    ensures
        exchange_message(ExchangeError::Write) == "HID write failed"@,
        exchange_message(ExchangeError::Read) == "HID read failed"@,
        ({
            let refused = exchange_message(ExchangeError::Refused { feature });
            let silent = exchange_message(ExchangeError::Silent { feature });
            &&& refused.skip(refused.len() - 2) == hex2(feature)
            &&& silent.skip(silent.len() - 2) == hex2(feature)
            &&& refused.take(21) == "HID++ error response "@
            &&& silent.take(28) == "no response after 3 attempts"@
        }),
{
    reveal_strlit("HID++ error response for feature 0x");
    reveal_strlit("HID++ error response ");
    reveal_strlit("no response after ");
    reveal_strlit("no response after 3 attempts");
    reveal_strlit(" attempts for feature 0x");
    let refused = exchange_message(ExchangeError::Refused { feature });
    let silent = exchange_message(ExchangeError::Silent { feature });
    assert(decimal(3) == seq!['3']);
    assert(refused.skip(refused.len() - 2) == hex2(feature));
    assert(silent.skip(silent.len() - 2) == hex2(feature));
    assert(refused.take(21) == "HID++ error response "@);
    assert(silent.take(28) == "no response after 3 attempts"@);
}

} // verus!
