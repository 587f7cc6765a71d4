//! The rate-limit-aware side of fetching: a ban is announced in the body of an
//! ordinary response, together with the time to wait.
//!
//! The caller sends the request and hands each response body to [`check`],
//! which answers with what to do: deliver the response, or wait and ask once
//! more. The response to the second request is delivered whatever it holds.

use crate::text::{chars_of, contains, is_numeral, numeral_value, occurs, parse_u64};
use vstd::prelude::*;

verus! {

/// The sentence by which a response announces a ban.
pub const BAN_NOTICE: &'static str =
    "This IP address has been temporarily banned due to an excessive request rate";

/// The word whose presence tells the two wordings of the wait apart.
pub const HOURS_WORD: &'static str = "hours";

/// The wording of a wait in hours and minutes.
pub const HOURS_PATTERN: &'static str = r"(\d+)\s*hours?\s*and\s*(\d+)\s*minutes?";

/// The wording of a wait in minutes and seconds.
pub const MINUTES_PATTERN: &'static str = r"(\d+)\s*minutes?\s*and\s*(\d+)\s*seconds?";

/// The two patterns that this crate searches a body for.
pub open spec fn is_wait_pattern(pattern: Seq<char>) -> bool {
    pattern == HOURS_PATTERN@ || pattern == MINUTES_PATTERN@
}

/// The texts of the first and the second capture group of the leftmost match
/// of the regular expression `pattern` in `text`; `None` where `text` holds
/// no match.
pub uninterp spec fn captured_pair(pattern: Seq<char>, text: Seq<char>) -> Option<
    (Seq<char>, Seq<char>),
>;

/// Trusted: `regex::Regex::new`, `regex::Regex::captures` and the indexing of
/// `regex::Captures` by group number. The contract claims only that the answer
/// is a function of the two texts, and names it. The compiled pattern is
/// unwrapped and the groups are indexed: both patterns that `is_wait_pattern`
/// admits compile, and in each of them both groups take part in every match.
#[verifier::external_body]
pub(crate) fn capture_pair(pattern: &str, text: &str) -> (groups: Option<(String, String)>)
    requires
        is_wait_pattern(pattern@),
    ensures
        groups.deep_view() == captured_pair(pattern@, text@),
{
    let re = regex::Regex::new(pattern).unwrap();
    re.captures(text).map(|c| (c[1].to_string(), c[2].to_string()))
}

/// The units in which a ban notice words its wait.
#[derive(Clone, Copy, Debug, PartialEq, Eq, Structural)]
pub enum WaitUnits {
    HoursMinutes,
    MinutesSeconds,
}

/// The wait that a ban notice announces, as worded.
#[derive(Clone, Copy, Debug, PartialEq, Eq, Structural)]
pub enum BanState {
    HoursMinutes { hours: u64, minutes: u64 },
    MinutesSeconds { minutes: u64, seconds: u64 },
}

impl BanState {
    /// The announced wait in seconds.
    pub open spec fn duration(self) -> nat {
        match self {
            BanState::HoursMinutes { hours, minutes } => (hours * 3600 + minutes * 60) as nat,
            BanState::MinutesSeconds { minutes, seconds } => (minutes * 60 + seconds) as nat,
        }
    }

    /// The wait that the numbers `major` and `minor` announce in `units`.
    pub open spec fn worded(units: WaitUnits, major: u64, minor: u64) -> BanState {
        match units {
            WaitUnits::HoursMinutes => BanState::HoursMinutes { hours: major, minutes: minor },
            WaitUnits::MinutesSeconds => BanState::MinutesSeconds {
                minutes: major,
                seconds: minor,
            },
        }
    }

    /// The announced wait in seconds; `None` where a `u64` cannot hold it.
    pub fn wait_seconds(&self) -> (seconds: Option<u64>)
        ensures
            seconds == if self.duration() <= u64::MAX {
                Some(self.duration() as u64)
            } else {
                None
            },
    {
        let (major, factor, minor, unit): (u64, u64, u64, u64) = match *self {
            BanState::HoursMinutes { hours, minutes } => (hours, 3600, minutes, 60),
            BanState::MinutesSeconds { minutes, seconds } => (minutes, 60, seconds, 1),
        };
        assert(self.duration() == major * factor + minor * unit);
        match (major.checked_mul(factor), minor.checked_mul(unit)) {
            (Some(high), Some(low)) => high.checked_add(low),
            _ => None,
        }
    }
}

/// What a response body says about a ban.
#[derive(Clone, Copy, Debug, PartialEq, Eq, Structural)]
pub enum BanNotice {
    /// The body holds no ban notice.
    Absent,
    /// The body holds the notice, but no wait in the expected wording.
    Unreadable,
    /// The body holds the notice and this wait.
    Announced(BanState),
    /// The body holds the notice and a wait in the expected wording, but one
    /// of its two numbers is not a decimal numeral that a `u64` holds.
    Malformed,
}

/// A text that reads as a `u64` in decimal.
pub open spec fn reads_as_u64(digits: Seq<char>) -> bool {
    is_numeral(digits) && numeral_value(digits) <= u64::MAX
}

/// What the two captured numbers announce in `units`.
pub open spec fn announced(units: WaitUnits, groups: Option<(Seq<char>, Seq<char>)>) -> BanNotice {
    match groups {
        None => BanNotice::Unreadable,
        Some((major, minor)) => if reads_as_u64(major) && reads_as_u64(minor) {
            BanNotice::Announced(
                BanState::worded(
                    units,
                    numeral_value(major) as u64,
                    numeral_value(minor) as u64,
                ),
            )
        } else {
            BanNotice::Malformed
        },
    }
}

/// What `body` says about a ban. The wording in hours and minutes is looked
/// for where the body holds the word "hours" anywhere, the wording in minutes
/// and seconds where it does not.
pub open spec fn notice_in(body: Seq<char>) -> BanNotice {
    if !occurs(BAN_NOTICE@, body) {
        BanNotice::Absent
    } else if occurs(HOURS_WORD@, body) {
        announced(WaitUnits::HoursMinutes, captured_pair(HOURS_PATTERN@, body))
    } else {
        announced(WaitUnits::MinutesSeconds, captured_pair(MINUTES_PATTERN@, body))
    }
}

/// Reads the two numbers that a pattern captured from a ban notice.
pub fn notice_from(units: WaitUnits, groups: Option<(String, String)>) -> (notice: BanNotice)
    ensures
        notice == announced(units, groups.deep_view()),
{
    match groups {
        None => BanNotice::Unreadable,
        Some((major, minor)) => {
            let major_chars = chars_of(major.as_str());
            let minor_chars = chars_of(minor.as_str());
            match (parse_u64(major_chars.as_slice()), parse_u64(minor_chars.as_slice())) {
                (Some(a), Some(b)) => match units {
                    WaitUnits::HoursMinutes => BanNotice::Announced(
                        BanState::HoursMinutes { hours: a, minutes: b },
                    ),
                    WaitUnits::MinutesSeconds => BanNotice::Announced(
                        BanState::MinutesSeconds { minutes: a, seconds: b },
                    ),
                },
                _ => BanNotice::Malformed,
            }
        },
    }
}

/// Inspects a response body for a ban notice and the wait it announces.
pub fn ban_notice(body: &str) -> (notice: BanNotice)
    ensures
        notice == notice_in(body@),
{
    let text = chars_of(body);
    let marker = chars_of(BAN_NOTICE);
    if !contains(text.as_slice(), marker.as_slice()) {
        return BanNotice::Absent;
    }
    let hours = chars_of(HOURS_WORD);
    if contains(text.as_slice(), hours.as_slice()) {
        notice_from(WaitUnits::HoursMinutes, capture_pair(HOURS_PATTERN, body))
    } else {
        notice_from(WaitUnits::MinutesSeconds, capture_pair(MINUTES_PATTERN, body))
    }
}

/// Which response to a request this is.
#[derive(Clone, Copy, Debug, PartialEq, Eq, Structural)]
pub enum Attempt {
    /// The response to the request as first sent.
    First,
    /// The response to the request as sent again after a ban notice.
    Retry,
}

/// What the caller does with a response.
#[derive(Clone, Copy, Debug, PartialEq, Eq, Structural)]
pub enum FetchAction {
    /// Hand the response on as it is.
    Deliver,
    /// Send the request again at once: the ban notice announces no wait in
    /// the expected wording.
    RetryNow,
    /// Warn of the ban, sleep for `seconds`, then send the request again.
    RetryAfter { ban: BanState, seconds: u64 },
    /// Give up: the ban notice announces a wait that cannot be read as a
    /// number of seconds.
    Abort,
}

/// What a ban notice asks of the caller.
pub open spec fn action_for(notice: BanNotice) -> FetchAction {
    match notice {
        BanNotice::Absent => FetchAction::Deliver,
        BanNotice::Unreadable => FetchAction::RetryNow,
        BanNotice::Announced(ban) => if ban.duration() <= u64::MAX {
            FetchAction::RetryAfter { ban, seconds: ban.duration() as u64 }
        } else {
            FetchAction::Abort
        },
        BanNotice::Malformed => FetchAction::Abort,
    }
}

/// What the caller does with the response `body` to the given attempt. Only
/// the first response is inspected.
pub open spec fn next_action(attempt: Attempt, body: Seq<char>) -> FetchAction {
    match attempt {
        Attempt::First => action_for(notice_in(body)),
        Attempt::Retry => FetchAction::Deliver,
    }
}

/// Decides what to do with a response, given the notice found in it.
pub fn act_on(notice: BanNotice) -> (action: FetchAction)
    ensures
        action == action_for(notice),
{
    match notice {
        BanNotice::Absent => FetchAction::Deliver,
        BanNotice::Unreadable => FetchAction::RetryNow,
        BanNotice::Announced(ban) => match ban.wait_seconds() {
            Some(seconds) => FetchAction::RetryAfter { ban, seconds },
            None => FetchAction::Abort,
        },
        BanNotice::Malformed => FetchAction::Abort,
    }
}

/// Decides what to do with the response to a request. The first response is
/// inspected for a ban notice; the response to the retry is delivered without
/// a look at it, so a request is sent twice at most.
pub fn check(attempt: Attempt, body: &str) -> (action: FetchAction)
    ensures
        action == next_action(attempt, body@),
        attempt == Attempt::Retry ==> action == FetchAction::Deliver,
{
    match attempt {
        Attempt::First => act_on(ban_notice(body)),
        Attempt::Retry => FetchAction::Deliver,
    }
}

} // verus!
