use birbfetcher::digest::{sha256, storage_key};
use birbfetcher::error::{CheckingError, ProcessingError, RedditError, RepositoryError, StoreError};
use birbfetcher::ingest::IngestAction::{AskStore, Finish, InsertRow, WriteBlob};
use birbfetcher::ingest::IngestEvent::{BlobWritten, RowInserted, StoreAnswered};
use birbfetcher::ingest::{first_action, prepare, step, ContentReply};
use birbfetcher::moderation::ModerationState;
use birbfetcher::reddit::{PostType, RedditPost};
use birbfetcher::repository::MetadataRepository;
use birbfetcher::store::ContentStore;
use birbfetcher::tasks::{
    apply_verdict, eligible_posts, gather_posts, listing_requests, process_checking, process_post,
    process_posts, state_change, FetchedPost, ListingRequest,
};

const NOW: i64 = 1_700_000_000;

fn post(name: &str, score: i64) -> RedditPost {
    RedditPost {
        banned_by: None,
        subreddit: "birbs".to_string(),
        score,
        hidden: false,
        permalink: format!("r/birbs/comments/{}", name),
        url: format!("https://i.redd.it/{}.png", name),
        subreddit_type: "public".to_string(),
        quarantine: false,
        over_18: false,
        created: NOW - 86_400,
    }
}

fn picture(body: &[u8]) -> ContentReply {
    ContentReply::Answer {
        status: 200,
        content_type: Some("image/png".to_string()),
        body: Some(body.to_vec()),
    }
}

#[test]
fn a_cycle_asks_hot_then_new_for_every_channel() {
    let channels = vec!["birbs".to_string(), "parrots".to_string()];
    assert_eq!(
        listing_requests(&channels),
        vec![
            ListingRequest { subreddit: "birbs".to_string(), order: PostType::Hot },
            ListingRequest { subreddit: "birbs".to_string(), order: PostType::New },
            ListingRequest { subreddit: "parrots".to_string(), order: PostType::Hot },
            ListingRequest { subreddit: "parrots".to_string(), order: PostType::New },
        ]
    );
    assert_eq!(listing_requests(&vec![]), vec![]);
}

#[test]
fn failed_listings_are_passed_over() {
    let answers = vec![
        Ok(vec![post("a", 1), post("b", 2)]),
        Err(RedditError::Network),
        Ok(vec![]),
        Err(RedditError::BadStatus(500)),
        Ok(vec![post("c", 3)]),
    ];
    assert_eq!(gather_posts(&answers), vec![post("a", 1), post("b", 2), post("c", 3)]);
    assert_eq!(gather_posts(&vec![Err(RedditError::Deserialize)]), vec![]);
    assert_eq!(gather_posts(&vec![]), vec![]);
}

#[test]
fn only_eligible_posts_are_kept() {
    let mut hidden = post("h", 5);
    hidden.hidden = true;
    let posts = vec![post("a", 1), post("low", 0), hidden, post("b", 2)];
    assert_eq!(eligible_posts(&posts), vec![post("a", 1), post("b", 2)]);
    assert_eq!(eligible_posts(&vec![post("low", -1)]), vec![]);
    assert_eq!(eligible_posts(&vec![]), vec![]);
}

#[test]
fn prepare_computes_digest_and_key() {
    let candidate = prepare(&post("a", 1), picture(b"abc")).unwrap();
    assert_eq!(candidate.digest, sha256(b"abc"));
    assert_eq!(candidate.key, "BA7816BF8F01CFEA414140DE5DAE2223B00361A396177A9CB410FF61F20015AD");
    assert_eq!(candidate.key, storage_key(&candidate.digest));
    assert_eq!(candidate.body, b"abc".to_vec());
    assert_eq!(candidate.content_type, "image/png");
    assert_eq!(candidate.permalink, "r/birbs/comments/a");
    assert_eq!(candidate.source_url, "https://i.redd.it/a.png");
}

#[test]
fn prepare_refuses_in_order() {
    let p = post("a", 1);
    assert_eq!(prepare(&p, ContentReply::Unreachable), Err(ProcessingError::Network));
    let reply = ContentReply::Answer { status: 404, content_type: None, body: None };
    assert_eq!(prepare(&p, reply), Err(ProcessingError::BadStatus(404)));
    let reply = ContentReply::Answer { status: 199, content_type: Some("image/png".to_string()), body: Some(vec![1]) };
    assert_eq!(prepare(&p, reply), Err(ProcessingError::BadStatus(199)));
    let reply = ContentReply::Answer { status: 300, content_type: Some("image/png".to_string()), body: Some(vec![1]) };
    assert_eq!(prepare(&p, reply), Err(ProcessingError::BadStatus(300)));
    let reply = ContentReply::Answer { status: 200, content_type: None, body: None };
    assert_eq!(prepare(&p, reply), Err(ProcessingError::InvalidContentType));
    let reply = ContentReply::Answer { status: 200, content_type: None, body: Some(vec![1]) };
    assert_eq!(prepare(&p, reply), Err(ProcessingError::InvalidContentType));
    let reply = ContentReply::Answer { status: 299, content_type: Some("image/png".to_string()), body: None };
    assert_eq!(prepare(&p, reply), Err(ProcessingError::Network));
    let reply = ContentReply::Answer { status: 200, content_type: Some(String::new()), body: Some(vec![]) };
    assert_eq!(prepare(&p, reply).unwrap().digest, sha256(b""));
}

#[test]
fn steps_of_taking_in() {
    assert_eq!(first_action(), AskStore);
    assert_eq!(step(AskStore, StoreAnswered(true)), Finish(Err(ProcessingError::Duplicate)));
    assert_eq!(step(AskStore, StoreAnswered(false)), WriteBlob);
    assert_eq!(step(WriteBlob, BlobWritten(Ok(()))), InsertRow);
    assert_eq!(step(WriteBlob, BlobWritten(Err(StoreError::AlreadyExists))), InsertRow);
    assert_eq!(step(WriteBlob, BlobWritten(Err(StoreError::Io))), Finish(Err(ProcessingError::StorageIO)));
    assert_eq!(step(WriteBlob, BlobWritten(Err(StoreError::NotFound))), Finish(Err(ProcessingError::StorageIO)));
    assert_eq!(step(InsertRow, RowInserted(Ok(9))), Finish(Ok(9)));
    assert_eq!(
        step(InsertRow, RowInserted(Err(RepositoryError::Duplicate))),
        Finish(Err(ProcessingError::Duplicate))
    );
    assert_eq!(
        step(InsertRow, RowInserted(Err(RepositoryError::Persistence))),
        Finish(Err(ProcessingError::Persistence))
    );
}

#[test]
fn events_that_answer_nothing_are_ignored() {
    assert_eq!(step(AskStore, BlobWritten(Ok(()))), AskStore);
    assert_eq!(step(AskStore, RowInserted(Ok(1))), AskStore);
    assert_eq!(step(WriteBlob, StoreAnswered(true)), WriteBlob);
    assert_eq!(step(WriteBlob, RowInserted(Ok(1))), WriteBlob);
    assert_eq!(step(InsertRow, StoreAnswered(false)), InsertRow);
    assert_eq!(step(InsertRow, BlobWritten(Err(StoreError::Io))), InsertRow);
    assert_eq!(step(Finish(Ok(3)), StoreAnswered(true)), Finish(Ok(3)));
    assert_eq!(step(Finish(Ok(3)), RowInserted(Ok(4))), Finish(Ok(3)));
}

#[test]
fn a_new_picture_is_stored_and_listed_as_pending() {
    let mut store = ContentStore::new();
    let mut repository = MetadataRepository::new();
    let outcome = process_post(&mut store, &mut repository, &post("a", 1), picture(b"bird"));
    assert_eq!(outcome, Ok(1));
    assert_eq!(store.read(&sha256(b"bird")), Ok(b"bird".to_vec()));
    let item = repository.get(1).unwrap();
    assert_eq!(item.digest, sha256(b"bird"));
    assert_eq!(item.permalink, "r/birbs/comments/a");
    assert_eq!(item.source_url, "https://i.redd.it/a.png");
    assert_eq!(item.content_type, "image/png");
    assert_eq!(item.state, ModerationState::Pending);
}

#[test]
fn the_same_picture_is_taken_in_once() {
    let mut store = ContentStore::new();
    let mut repository = MetadataRepository::new();
    assert_eq!(process_post(&mut store, &mut repository, &post("a", 1), picture(b"bird")), Ok(1));
    assert_eq!(
        process_post(&mut store, &mut repository, &post("b", 1), picture(b"bird")),
        Err(ProcessingError::Duplicate)
    );
    assert_eq!(store.len(), 1);
    assert_eq!(repository.len(), 1);
    assert_eq!(repository.get(1).unwrap().permalink, "r/birbs/comments/a");
    assert_eq!(process_post(&mut store, &mut repository, &post("c", 1), picture(b"other")), Ok(2));
}

#[test]
fn a_row_without_a_blob_still_stops_a_second_row() {
    let mut store = ContentStore::new();
    let mut repository = MetadataRepository::new();
    repository.insert(&sha256(b"bird"), "r/old", "https://i.redd.it/old.png", "image/png").unwrap();
    assert_eq!(
        process_post(&mut store, &mut repository, &post("a", 1), picture(b"bird")),
        Err(ProcessingError::Duplicate)
    );
    assert_eq!(repository.len(), 1);
    assert!(store.contains(&sha256(b"bird")));
}

#[test]
fn refused_replies_change_nothing() {
    let mut store = ContentStore::new();
    let mut repository = MetadataRepository::new();
    let p = post("a", 1);
    assert_eq!(
        process_post(&mut store, &mut repository, &p, ContentReply::Unreachable),
        Err(ProcessingError::Network)
    );
    let reply = ContentReply::Answer { status: 503, content_type: Some("image/png".to_string()), body: Some(vec![1]) };
    assert_eq!(process_post(&mut store, &mut repository, &p, reply), Err(ProcessingError::BadStatus(503)));
    let reply = ContentReply::Answer { status: 200, content_type: None, body: Some(vec![1]) };
    assert_eq!(process_post(&mut store, &mut repository, &p, reply), Err(ProcessingError::InvalidContentType));
    assert_eq!(store.len(), 0);
    assert_eq!(repository.len(), 0);
}

#[test]
fn a_failing_post_does_not_stop_the_batch() {
    let mut store = ContentStore::new();
    let mut repository = MetadataRepository::new();
    let items = vec![
        FetchedPost { post: post("a", 1), reply: picture(b"one") },
        FetchedPost { post: post("b", 1), reply: ContentReply::Unreachable },
        FetchedPost { post: post("c", 1), reply: picture(b"one") },
        FetchedPost {
            post: post("d", 1),
            reply: ContentReply::Answer { status: 404, content_type: None, body: None },
        },
        FetchedPost { post: post("e", 1), reply: picture(b"two") },
    ];
    let outcomes = process_posts(&mut store, &mut repository, items);
    assert_eq!(
        outcomes,
        vec![
            Ok(1),
            Err(ProcessingError::Network),
            Err(ProcessingError::Duplicate),
            Err(ProcessingError::BadStatus(404)),
            Ok(2),
        ]
    );
    assert_eq!(store.len(), 2);
    assert_eq!(repository.len(), 2);
    assert_eq!(repository.get(2).unwrap().permalink, "r/birbs/comments/e");
    assert_eq!(process_posts(&mut store, &mut repository, vec![]), vec![]);
}

#[test]
fn state_change_writes_nothing_for_pending() {
    assert_eq!(state_change(ModerationState::Pending), None);
    assert_eq!(state_change(ModerationState::Verified), Some(ModerationState::Verified));
    assert_eq!(state_change(ModerationState::Banned), Some(ModerationState::Banned));
}

fn one_pending() -> MetadataRepository {
    let mut repository = MetadataRepository::new();
    repository.insert(&[1], "r/birbs/comments/a", "https://i.redd.it/a.png", "image/png").unwrap();
    repository.insert(&[2], "r/birbs/comments/b", "https://i.redd.it/b.png", "image/png").unwrap();
    repository
}

#[test]
fn recheck_verifies_a_trusted_post() {
    let mut repository = one_pending();
    assert_eq!(process_checking(&mut repository, 1, Ok(post("a", 200)), NOW), Ok(()));
    assert_eq!(repository.get(1).unwrap().state, ModerationState::Verified);
    assert_eq!(repository.get(2).unwrap().state, ModerationState::Pending);
}

#[test]
fn recheck_bans_a_marked_post() {
    let mut repository = one_pending();
    let mut marked = post("a", 200);
    marked.banned_by = Some("mod".to_string());
    assert_eq!(process_checking(&mut repository, 1, Ok(marked), NOW), Ok(()));
    assert_eq!(repository.get(1).unwrap().state, ModerationState::Banned);
}

#[test]
fn recheck_leaves_a_young_post_pending() {
    let mut repository = one_pending();
    assert_eq!(process_checking(&mut repository, 1, Ok(post("a", 5)), NOW), Ok(()));
    assert_eq!(repository.get(1).unwrap().state, ModerationState::Pending);
}

#[test]
fn recheck_bans_a_post_that_is_gone() {
    let mut repository = one_pending();
    assert_eq!(process_checking(&mut repository, 2, Err(RedditError::NotFound), NOW), Ok(()));
    assert_eq!(repository.get(2).unwrap().state, ModerationState::Banned);
    assert_eq!(repository.get(1).unwrap().state, ModerationState::Pending);
}

#[test]
fn recheck_that_fails_changes_nothing() {
    let mut repository = one_pending();
    assert_eq!(
        process_checking(&mut repository, 1, Err(RedditError::Network), NOW),
        Err(CheckingError::Feed(RedditError::Network))
    );
    assert_eq!(
        process_checking(&mut repository, 1, Err(RedditError::BadStatus(429)), NOW),
        Err(CheckingError::Feed(RedditError::BadStatus(429)))
    );
    assert_eq!(repository.get(1).unwrap().state, ModerationState::Pending);
}

#[test]
fn apply_verdict_hands_failures_on() {
    let mut repository = one_pending();
    assert_eq!(
        apply_verdict(&mut repository, 1, Err(CheckingError::Persistence)),
        Err(CheckingError::Persistence)
    );
    assert_eq!(apply_verdict(&mut repository, 1, Ok(ModerationState::Pending)), Ok(()));
    assert_eq!(repository.get(1).unwrap().state, ModerationState::Pending);
    assert_eq!(apply_verdict(&mut repository, 1, Ok(ModerationState::Banned)), Ok(()));
    assert_eq!(repository.get(1).unwrap().state, ModerationState::Banned);
    assert_eq!(apply_verdict(&mut repository, 9, Ok(ModerationState::Banned)), Ok(()));
    assert_eq!(repository.len(), 2);
}
