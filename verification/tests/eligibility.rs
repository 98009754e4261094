use birbfetcher::reddit::RedditPost;

fn sample() -> RedditPost {
    RedditPost {
        banned_by: None,
        subreddit: "birbs".to_string(),
        score: 10,
        hidden: false,
        permalink: "r/birbs/comments/abc/a_bird".to_string(),
        url: "https://i.redd.it/x.png".to_string(),
        subreddit_type: "public".to_string(),
        quarantine: false,
        over_18: false,
        created: 1_600_000_000,
    }
}

#[test]
fn plain_public_picture_is_eligible() {
    let post = sample();
    assert!(post.is_safe());
    assert!(!post.is_unsafe());
    assert!(post.is_url_safe());
}

#[test]
fn ban_marker_makes_ineligible() {
    let mut post = sample();
    post.banned_by = Some("moderator".to_string());
    assert!(post.is_unsafe());
    assert!(!post.is_safe());
    assert!(post.has_ban_marker());
}

#[test]
fn empty_ban_marker_does_not_count() {
    let mut post = sample();
    post.banned_by = Some(String::new());
    assert!(!post.has_ban_marker());
    assert!(post.is_safe());
}

#[test]
fn blank_ban_marker_counts() {
    let mut post = sample();
    post.banned_by = Some(" ".to_string());
    assert!(post.has_ban_marker());
    assert!(post.is_unsafe());
}

#[test]
fn empty_channel_is_ineligible() {
    let mut post = sample();
    post.subreddit = String::new();
    assert!(post.is_unsafe());
}

#[test]
fn empty_url_is_ineligible() {
    let mut post = sample();
    post.url = String::new();
    assert!(post.is_unsafe());
    assert!(!post.is_url_safe());
}

#[test]
fn hidden_is_ineligible() {
    let mut post = sample();
    post.hidden = true;
    assert!(post.is_unsafe());
}

#[test]
fn quarantined_is_ineligible() {
    let mut post = sample();
    post.quarantine = true;
    assert!(post.is_unsafe());
}

#[test]
fn score_below_one_is_ineligible() {
    let mut post = sample();
    post.score = 0;
    assert!(post.is_unsafe());
    post.score = -5;
    assert!(post.is_unsafe());
    post.score = i64::MIN;
    assert!(post.is_unsafe());
    post.score = 1;
    assert!(post.is_safe());
    post.score = i64::MAX;
    assert!(post.is_safe());
}

#[test]
fn channel_must_be_public() {
    let mut post = sample();
    post.subreddit_type = "restricted".to_string();
    assert!(post.is_unsafe());
    post.subreddit_type = "Public".to_string();
    assert!(post.is_unsafe());
    post.subreddit_type = String::new();
    assert!(post.is_unsafe());
    post.subreddit_type = "public ".to_string();
    assert!(post.is_unsafe());
}

#[test]
fn adult_mark_alone_does_not_make_ineligible() {
    let mut post = sample();
    post.over_18 = true;
    assert!(post.is_safe());
}

#[test]
fn url_must_be_on_the_trusted_host() {
    let mut post = sample();
    for url in [
        "http://i.redd.it/x.png",
        "https://i.imgur.com/x.png",
        "https://i.redd.it.evil.example/x.png",
        " https://i.redd.it/x.png",
        "https://I.REDD.IT/x.png",
        "i.redd.it/x.png",
    ] {
        post.url = url.to_string();
        assert!(!post.is_url_safe(), "{}", url);
        assert!(post.is_unsafe(), "{}", url);
    }
}

#[test]
fn url_must_end_like_a_picture() {
    let mut post = sample();
    for url in [
        "https://i.redd.it/x.jpg",
        "https://i.redd.it/x.jpeg",
        "https://i.redd.it/x.png",
        "https://i.redd.it/x.gif",
        "https://i.redd.it/x.gifv",
        "https://i.redd.it/x.webm",
        "https://i.redd.it/.png",
    ] {
        post.url = url.to_string();
        assert!(post.is_url_safe(), "{}", url);
        assert!(post.is_safe(), "{}", url);
    }
    for url in [
        "https://i.redd.it/x.PNG",
        "https://i.redd.it/x.bmp",
        "https://i.redd.it/x.png?size=1",
        "https://i.redd.it/x.png ",
        "https://i.redd.it/x",
        "https://i.redd.it/",
        "https://i.redd.it/xpng",
    ] {
        post.url = url.to_string();
        assert!(!post.is_url_safe(), "{}", url);
        assert!(post.is_unsafe(), "{}", url);
    }
}

#[test]
fn safe_is_the_opposite_of_unsafe() {
    let mut post = sample();
    for score in [-1, 0, 1, 2] {
        for hidden in [false, true] {
            for quarantine in [false, true] {
                post.score = score;
                post.hidden = hidden;
                post.quarantine = quarantine;
                assert_eq!(post.is_safe(), !post.is_unsafe());
                assert_eq!(post.is_safe(), score >= 1 && !hidden && !quarantine);
            }
        }
    }
}

#[test]
fn duplicate_is_equal() {
    let mut post = sample();
    post.banned_by = Some("someone".to_string());
    assert_eq!(post.duplicate(), post);
    assert_eq!(sample().duplicate(), sample());
}
