use birbfetcher::error::{CheckingError, RedditError};
use birbfetcher::moderation::{
    judge, post_age_days, recheck, ModerationState, CALENDAR_END, CALENDAR_START,
    VERIFY_MIN_AGE_DAYS, VERIFY_MIN_SCORE,
};
use birbfetcher::reddit::RedditPost;

const DAY: i64 = 86_400;
const NOW: i64 = 1_700_000_000;

fn post(score: i64, age_days: i64) -> RedditPost {
    RedditPost {
        banned_by: None,
        subreddit: "birbs".to_string(),
        score,
        hidden: false,
        permalink: "r/birbs/comments/abc/a_bird".to_string(),
        url: "https://i.redd.it/x.png".to_string(),
        subreddit_type: "public".to_string(),
        quarantine: false,
        over_18: false,
        created: NOW - age_days * DAY,
    }
}

#[test]
fn high_score_is_verified() {
    assert_eq!(judge(&post(200, 10), Some(10)), ModerationState::Verified);
    assert_eq!(recheck(Ok(post(200, 10)), NOW), Ok(ModerationState::Verified));
}

#[test]
fn ban_marker_is_banned() {
    let mut marked = post(200, 10);
    marked.banned_by = Some("mod".to_string());
    assert_eq!(judge(&marked, Some(10)), ModerationState::Banned);
    assert_eq!(recheck(Ok(marked), NOW), Ok(ModerationState::Banned));
}

#[test]
fn young_low_score_stays_pending() {
    assert_eq!(judge(&post(5, 1), Some(1)), ModerationState::Pending);
    assert_eq!(recheck(Ok(post(5, 1)), NOW), Ok(ModerationState::Pending));
}

#[test]
fn post_that_is_gone_is_banned() {
    assert_eq!(recheck(Err(RedditError::NotFound), NOW), Ok(ModerationState::Banned));
}

#[test]
fn other_feed_failures_decide_nothing() {
    for e in [RedditError::Network, RedditError::BadStatus(503), RedditError::Deserialize] {
        assert_eq!(recheck(Err(e), NOW), Err(CheckingError::Feed(e)));
    }
}

#[test]
fn score_threshold_is_128() {
    assert_eq!(VERIFY_MIN_SCORE, 128);
    assert_eq!(judge(&post(127, 0), Some(0)), ModerationState::Pending);
    assert_eq!(judge(&post(128, 0), Some(0)), ModerationState::Verified);
    assert_eq!(judge(&post(128, 0), None), ModerationState::Verified);
    assert_eq!(judge(&post(i64::MAX, 0), None), ModerationState::Verified);
}

#[test]
fn age_threshold_is_60_days() {
    assert_eq!(VERIFY_MIN_AGE_DAYS, 60);
    assert_eq!(judge(&post(1, 59), Some(59)), ModerationState::Pending);
    assert_eq!(judge(&post(1, 60), Some(60)), ModerationState::Verified);
    assert_eq!(judge(&post(1, 60), None), ModerationState::Pending);
    assert_eq!(judge(&post(1, 0), Some(i64::MAX)), ModerationState::Verified);
    assert_eq!(judge(&post(1, 0), Some(i64::MIN)), ModerationState::Pending);
    assert_eq!(recheck(Ok(post(1, 59)), NOW), Ok(ModerationState::Pending));
    assert_eq!(recheck(Ok(post(1, 60)), NOW), Ok(ModerationState::Verified));
    assert_eq!(recheck(Ok(post(1, 61)), NOW), Ok(ModerationState::Verified));
}

#[test]
fn ban_goes_before_trust() {
    let mut p = post(1000, 1000);
    p.over_18 = true;
    assert_eq!(judge(&p, Some(1000)), ModerationState::Banned);
    let mut p = post(1000, 1000);
    p.quarantine = true;
    assert_eq!(judge(&p, Some(1000)), ModerationState::Banned);
    let mut p = post(1000, 1000);
    p.hidden = true;
    assert_eq!(judge(&p, Some(1000)), ModerationState::Banned);
    let mut p = post(1000, 1000);
    p.url = "https://example.org/x.png".to_string();
    assert_eq!(judge(&p, Some(1000)), ModerationState::Banned);
    let mut p = post(1000, 1000);
    p.score = 0;
    assert_eq!(judge(&p, Some(1000)), ModerationState::Banned);
}

#[test]
fn empty_ban_marker_does_not_ban() {
    let mut p = post(200, 10);
    p.banned_by = Some(String::new());
    assert_eq!(judge(&p, Some(10)), ModerationState::Verified);
}

#[test]
fn age_counts_calendar_days() {
    assert_eq!(post_age_days(0, 0), Some(0));
    assert_eq!(post_age_days(0, DAY - 1), Some(0));
    assert_eq!(post_age_days(0, DAY), Some(1));
    assert_eq!(post_age_days(DAY - 1, DAY), Some(1));
    assert_eq!(post_age_days(0, 60 * DAY), Some(60));
    assert_eq!(post_age_days(NOW - 10 * DAY, NOW), Some(10));
    assert_eq!(post_age_days(1_600_000_000, 1_700_000_000), Some(1157));
}

#[test]
fn age_of_a_post_from_the_future_is_negative() {
    assert_eq!(post_age_days(DAY, 0), Some(-1));
    assert_eq!(post_age_days(NOW + 3 * DAY, NOW), Some(-3));
    assert_eq!(recheck(Ok(post(1, -3)), NOW), Ok(ModerationState::Pending));
}

#[test]
fn age_before_1970_rounds_down_to_the_day() {
    assert_eq!(post_age_days(-1, 0), Some(1));
    assert_eq!(post_age_days(-DAY, -1), Some(0));
    assert_eq!(post_age_days(-DAY - 1, -1), Some(1));
    assert_eq!(post_age_days(-DAY - 1, 0), Some(2));
}

#[test]
fn every_moment_in_the_calendar_has_an_age() {
    assert_eq!(post_age_days(CALENDAR_START, CALENDAR_END), Some(3_652_058));
    assert_eq!(post_age_days(CALENDAR_END, CALENDAR_START), Some(-3_652_058));
    assert_eq!(post_age_days(CALENDAR_START, CALENDAR_START), Some(0));
}

#[test]
fn moments_beyond_the_calendar_have_no_age() {
    assert_eq!(post_age_days(i64::MAX, 0), None);
    assert_eq!(post_age_days(0, i64::MIN), None);
    let mut p = post(1, 0);
    p.created = i64::MIN;
    assert_eq!(recheck(Ok(p.clone()), NOW), Ok(ModerationState::Pending));
    p.score = 128;
    assert_eq!(recheck(Ok(p), NOW), Ok(ModerationState::Verified));
}

#[test]
fn state_codes() {
    assert_eq!(ModerationState::Pending.code(), 0);
    assert_eq!(ModerationState::Verified.code(), 1);
    assert_eq!(ModerationState::Banned.code(), 2);
    for state in [ModerationState::Pending, ModerationState::Verified, ModerationState::Banned] {
        assert_eq!(ModerationState::from_code(state.code()), Some(state));
    }
    assert_eq!(ModerationState::from_code(3), None);
    assert_eq!(ModerationState::from_code(255), None);
}

#[test]
fn banned_items_are_not_servable() {
    assert!(ModerationState::Pending.is_servable());
    assert!(ModerationState::Verified.is_servable());
    assert!(!ModerationState::Banned.is_servable());
}
