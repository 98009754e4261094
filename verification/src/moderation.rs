//! The moderation state of a stored item, and the rule by which a fresh look
//! at its post moves it on.

use crate::error::{CheckingError, RedditError};
use crate::reddit::RedditPost;
use vstd::prelude::*;

verus! {

/// Where a stored item stands. An item is in exactly one of these states.
#[derive(Debug, Clone, Copy, PartialEq, Eq, Structural)]
pub enum ModerationState {
    /// Taken in and not yet judged; every item starts here.
    Pending,
    /// Judged fit to show.
    Verified,
    /// Judged unfit; never shown.
    Banned,
}

impl ModerationState {
    /// The number that stands for this state where items are stored.
    pub open spec fn number(self) -> u8 {
        match self {
            ModerationState::Pending => 0,
            ModerationState::Verified => 1,
            ModerationState::Banned => 2,
        }
    }

    /// The number that stands for this state where items are stored: 0 for
    /// pending, 1 for verified, 2 for banned.
    pub fn code(self) -> (code: u8)
        ensures
            code == self.number(),
    {
        match self {
            ModerationState::Pending => 0,
            ModerationState::Verified => 1,
            ModerationState::Banned => 2,
        }
    }

    /// The state that a stored number stands for; `None` for a number that
    /// stands for no state.
    pub fn from_code(code: u8) -> (state: Option<ModerationState>)
        ensures
            code > 2 ==> state is None,
            code <= 2 ==> (state matches Some(found) && found.number() == code),
    {
        if code == 0 {
            Some(ModerationState::Pending)
        } else if code == 1 {
            Some(ModerationState::Verified)
        } else if code == 2 {
            Some(ModerationState::Banned)
        } else {
            None
        }
    }

    /// Whether an item in this state may be shown.
    pub fn is_servable(self) -> (servable: bool)
        ensures
            servable == (self != ModerationState::Banned),
    {
        match self {
            ModerationState::Banned => false,
            _ => true,
        }
    }
}

/// A post with at least this score is verified.
pub const VERIFY_MIN_SCORE: i64 = 128;

/// A post at least this many days old is verified.
pub const VERIFY_MIN_AGE_DAYS: i64 = 60;

/// Seconds in a day.
pub const SECONDS_PER_DAY: i64 = 86_400;

/// 0001-01-01 00:00:00 UTC, in seconds since 1970-01-01 00:00:00 UTC.
pub const CALENDAR_START: i64 = -62_135_596_800;

/// 9999-12-31 23:59:59 UTC, in seconds since 1970-01-01 00:00:00 UTC.
pub const CALENDAR_END: i64 = 253_402_300_799;

/// The number of the UTC day that the moment `secs` falls on, day 0 being
/// 1970-01-01.
pub open spec fn utc_day(secs: int) -> int {
    secs / (SECONDS_PER_DAY as int)
}

/// Whole days from the UTC date of `created` to the UTC date of `now`.
pub open spec fn age_in_days(created: int, now: int) -> int {
    utc_day(now) - utc_day(created)
}

/// Whether the moment `secs` lies in the years 1 to 9999.
pub open spec fn in_calendar(secs: int) -> bool {
    CALENDAR_START <= secs <= CALENDAR_END
}

/// A fresh look at the post shows that its item must go.
pub open spec fn must_ban(post: RedditPost) -> bool {
    ||| post.ineligible()
    ||| post.over_18
    ||| post.quarantine
    ||| post.ban_marked()
    ||| post.hidden
}

/// The post has earned trust by its score or by its age, where the age is
/// known.
pub open spec fn earns_trust(post: RedditPost, age_days: Option<int>) -> bool {
    ||| post.score >= VERIFY_MIN_SCORE
    ||| (age_days matches Some(days) && days >= VERIFY_MIN_AGE_DAYS)
}

/// The state that a pending item takes after a fresh look at its post.
pub open spec fn verdict(post: RedditPost, age_days: Option<int>) -> ModerationState {
    if must_ban(post) {
        ModerationState::Banned
    } else if earns_trust(post, age_days) {
        ModerationState::Verified
    } else {
        ModerationState::Pending
    }
}

/// `age_days` as a mathematical integer.
pub open spec fn as_int_days(age_days: Option<i64>) -> Option<int> {
    match age_days {
        Some(days) => Some(days as int),
        None => None,
    }
}

/// The state of a pending item after a re-check whose fetch ended as
/// `fetched`, where `age_days` is the age of the post if one came back.
pub open spec fn recheck_result(
    fetched: Result<RedditPost, RedditError>,
    age_days: Option<int>,
) -> Result<ModerationState, CheckingError> {
    match fetched {
        Ok(post) => Ok(verdict(post, age_days)),
        Err(RedditError::NotFound) => Ok(ModerationState::Banned),
        Err(e) => Err(CheckingError::Feed(e)),
    }
}

/// Takes both moments with `chrono::DateTime::from_timestamp`, their dates
/// with `naive_utc().date()`, and the days from the first date to the second
/// with `NaiveDate::signed_duration_since` and `TimeDelta::num_days`.
///
/// Trusted: where a number comes back, it is the number of the second
/// moment's UTC day less that of the first; and one comes back whenever
/// both moments lie in the years 1 to 9999, which `chrono` can represent.
#[verifier::external_body]
fn days_between_dates(from_secs: i64, to_secs: i64) -> (days: Option<i64>)
    ensures
        days matches Some(d) ==> d == age_in_days(from_secs as int, to_secs as int),
        in_calendar(from_secs as int) && in_calendar(to_secs as int) ==> days is Some,
{
    let from = chrono::DateTime::from_timestamp(from_secs, 0)?;
    let to = chrono::DateTime::from_timestamp(to_secs, 0)?;
    Some(to.naive_utc().date().signed_duration_since(from.naive_utc().date()).num_days())
}

/// The age of a post in whole days: from the UTC date on which it was made
/// to the UTC date of `now`. `None` where a moment lies outside the
/// calendar; moments in the years 1 to 9999 always have an age.
pub fn post_age_days(created: i64, now: i64) -> (age: Option<i64>)
    ensures
        age matches Some(days) ==> days == age_in_days(created as int, now as int),
        in_calendar(created as int) && in_calendar(now as int) ==> age is Some,
{
    days_between_dates(created, now)
}

/// Judges a pending item by a fresh copy of its post. The item is banned if
/// the post may not be kept, is for adults only, quarantined, marked as
/// removed or hidden; else it is verified if the post has a score of 128 or
/// more, or is 60 days old or older; else it stays pending. A post of
/// unknown age can only be verified by its score.
pub fn judge(post: &RedditPost, age_days: Option<i64>) -> (state: ModerationState)
    ensures
        state == verdict(*post, as_int_days(age_days)),
{
    if post.is_unsafe() || post.over_18 || post.quarantine || post.has_ban_marker()
        || post.hidden {
        ModerationState::Banned
    } else if post.score >= VERIFY_MIN_SCORE {
        ModerationState::Verified
    } else {
        match age_days {
            Some(days) => {
                if days >= VERIFY_MIN_AGE_DAYS {
                    ModerationState::Verified
                } else {
                    ModerationState::Pending
                }
            },
            None => ModerationState::Pending,
        }
    }
}

/// Decides what becomes of a pending item once its post has been asked for
/// again at the moment `now`. A post that is gone bans the item; any other
/// failure of the feed is handed on and decides nothing; a post that came
/// back is judged at its age.
pub fn recheck(fetched: Result<RedditPost, RedditError>, now: i64) -> (outcome: Result<
    ModerationState,
    CheckingError,
>)
    ensures
        fetched is Err ==> outcome == recheck_result(fetched, None),
        fetched matches Ok(post) ==> {
            let age = Some(age_in_days(post.created as int, now as int));
            &&& outcome == recheck_result(fetched, age) || outcome == recheck_result(fetched, None)
            &&& in_calendar(post.created as int) && in_calendar(now as int) ==> outcome
                == recheck_result(fetched, age)
        },
{
    match fetched {
        Ok(post) => {
            let age = post_age_days(post.created, now);
            Ok(judge(&post, age))
        },
        Err(RedditError::NotFound) => Ok(ModerationState::Banned),
        Err(e) => Err(CheckingError::Feed(e)),
    }
}

/// What the ban rule adds to the rule of eligibility is the mark for
/// adults: quarantined, hidden and marked posts are ineligible already.
pub proof fn lemma_must_ban_is_ineligible_or_adult(post: RedditPost)
    ensures
        must_ban(post) <==> post.ineligible() || post.over_18,
{
}

/// A pending item is never verified on a post that must be banned, and is
/// banned on every post that is not eligible.
pub proof fn lemma_verdict_exclusive(post: RedditPost, age_days: Option<int>)
    ensures
        post.ineligible() ==> verdict(post, age_days) == ModerationState::Banned,
        verdict(post, age_days) == ModerationState::Verified ==> !must_ban(post) && earns_trust(
            post,
            age_days,
        ),
        verdict(post, age_days) == ModerationState::Pending ==> !must_ban(post) && !earns_trust(
            post,
            age_days,
        ),
{
}

} // verus!
