//! The two periodic tasks: taking in new posts, and looking again at the
//! items that are still pending.

use crate::digest::sha256_digest;
use crate::error::{CheckingError, ProcessingError, RedditError, RepositoryError};
use crate::ingest::{
    actions_left, first_action, prepare, refusal, reply_body, reply_content_type, step, ContentReply,
    IngestAction, IngestEvent,
};
use crate::moderation::{
    age_in_days, in_calendar, recheck, recheck_result, ModerationState,
};
use crate::reddit::{PostType, RedditPost};
use crate::repository::{
    after_insert, after_transition, insert_result, ItemView, MetadataRepository,
};
use crate::store::{after_write, ContentStore};
use vstd::prelude::*;

verus! {

/// One listing to ask the feed for.
#[derive(Debug, Clone, PartialEq, Eq)]
pub struct ListingRequest {
    pub subreddit: String,
    pub order: PostType,
}

/// The listings of one cycle: for every channel, in the order given, first
/// its `hot` listing and then its `new` one.
pub open spec fn requests_for(subreddits: Seq<String>) -> Seq<ListingRequest> {
    Seq::new(
        2 * subreddits.len(),
        |i: int|
            ListingRequest {
                subreddit: subreddits[i / 2],
                order: if i % 2 == 0 {
                    PostType::Hot
                } else {
                    PostType::New
                },
            },
    )
}

/// The posts of all listings that could be fetched, in the order of the
/// listings. A listing that failed adds nothing and stops nothing.
pub open spec fn fetched_posts(answers: Seq<Result<Vec<RedditPost>, RedditError>>) -> Seq<
    RedditPost,
>
    decreases answers.len(),
{
    if answers.len() == 0 {
        Seq::empty()
    } else {
        let before = fetched_posts(answers.drop_last());
        match answers.last() {
            Ok(posts) => before + posts@,
            Err(_) => before,
        }
    }
}

/// The posts among `posts` that may be kept, in their order.
pub open spec fn eligible(posts: Seq<RedditPost>) -> Seq<RedditPost> {
    posts.filter(|post: RedditPost| !post.ineligible())
}

/// The listings to ask for in one cycle: for every channel, in the order
/// given, first its `hot` listing and then its `new` one.
pub fn listing_requests(subreddits: &Vec<String>) -> (requests: Vec<ListingRequest>)
    ensures
        requests@ == requests_for(subreddits@),
{
    let mut requests: Vec<ListingRequest> = Vec::new();
    let mut i: usize = 0;
    while i < subreddits.len()
        invariant
            i <= subreddits@.len(),
            requests@.len() == 2 * i,
            forall|k: int| 0 <= k < 2 * i ==> requests@[k] == requests_for(subreddits@)[k],
        decreases subreddits@.len() - i,
    {
        requests.push(ListingRequest { subreddit: subreddits[i].clone(), order: PostType::Hot });
        requests.push(ListingRequest { subreddit: subreddits[i].clone(), order: PostType::New });
        assert((2 * i) / 2 == i && (2 * i) % 2 == 0);
        assert((2 * i + 1) / 2 == i && (2 * i + 1) % 2 == 1);
        i += 1;
    }
    assert(requests@ =~= requests_for(subreddits@));
    requests
}

/// Gathers what a cycle's listings brought: the posts of every listing
/// that could be fetched, in the order of the listings. A failed listing is
/// passed over; the rest of the cycle goes on.
pub fn gather_posts(answers: &Vec<Result<Vec<RedditPost>, RedditError>>) -> (posts: Vec<
    RedditPost,
>)
    ensures
        posts@ == fetched_posts(answers@),
{
    let mut posts: Vec<RedditPost> = Vec::new();
    let mut i: usize = 0;
    assert(answers@.take(0) =~= Seq::empty());
    while i < answers.len()
        invariant
            i <= answers@.len(),
            posts@ == fetched_posts(answers@.take(i as int)),
        decreases answers@.len() - i,
    {
        let ghost before = posts@;
        match &answers[i] {
            Ok(listing) => {
                let mut j: usize = 0;
                while j < listing.len()
                    invariant
                        j <= listing@.len(),
                        posts@ == before + listing@.take(j as int),
                    decreases listing@.len() - j,
                {
                    posts.push(listing[j].duplicate());
                    assert(listing@.take(j + 1) =~= listing@.take(j as int).push(listing@[j as int]));
                    j += 1;
                }
                assert(listing@.take(listing@.len() as int) =~= listing@);
            },
            Err(_) => {},
        }
        proof {
            let next = answers@.take(i + 1);
            assert(next.drop_last() =~= answers@.take(i as int));
            assert(next.last() == answers@[i as int]);
        }
        i += 1;
    }
    assert(answers@.take(answers@.len() as int) =~= answers@);
    posts
}

/// Keeps the posts that may be kept, in their order.
pub fn eligible_posts(posts: &Vec<RedditPost>) -> (kept: Vec<RedditPost>)
    ensures
        kept@ == eligible(posts@),
{
    let mut kept: Vec<RedditPost> = Vec::new();
    let mut i: usize = 0;
    let ghost keep = |post: RedditPost| !post.ineligible();
    proof {
        reveal(Seq::filter);
        assert(posts@.take(0) =~= Seq::empty());
    }
    while i < posts.len()
        invariant
            i <= posts@.len(),
            keep == |post: RedditPost| !post.ineligible(),
            kept@ == posts@.take(i as int).filter(keep),
        decreases posts@.len() - i,
    {
        proof {
            let next = posts@.take(i + 1);
            assert(next.drop_last() =~= posts@.take(i as int));
            assert(next.last() == posts@[i as int]);
            reveal(Seq::filter);
        }
        if posts[i].is_safe() {
            kept.push(posts[i].duplicate());
        }
        i += 1;
    }
    assert(posts@.take(posts@.len() as int) =~= posts@);
    kept
}

/// What taking in a post answers, given what the content store and the
/// metadata repository held before: the reason why the reply cannot be
/// taken in; else `Duplicate` where the store holds the digest or the
/// repository has a row for it; else `Persistence` where the repository
/// has run out of numbers; else the number of the new row.
pub open spec fn ingest_result(
    contents: Map<Seq<u8>, Seq<u8>>,
    rows: Seq<ItemView>,
    reply: ContentReply,
) -> Result<u32, ProcessingError> {
    match refusal(reply) {
        Some(reason) => Err(reason),
        None => {
            let digest = sha256_digest(reply_body(reply));
            if contents.dom().contains(digest) {
                Err(ProcessingError::Duplicate)
            } else {
                match insert_result(rows, digest) {
                    Ok(id) => Ok(id),
                    Err(RepositoryError::Duplicate) => Err(ProcessingError::Duplicate),
                    Err(RepositoryError::Persistence) => Err(ProcessingError::Persistence),
                }
            }
        },
    }
}

/// What the content store holds after a post was taken in: the body under
/// its digest, unless the reply could not be taken in; a blob that was
/// there before stays as it was.
pub open spec fn store_after_ingest(
    contents: Map<Seq<u8>, Seq<u8>>,
    reply: ContentReply,
) -> Map<Seq<u8>, Seq<u8>> {
    if refusal(reply) is None {
        after_write(contents, sha256_digest(reply_body(reply)), reply_body(reply))
    } else {
        contents
    }
}

/// The rows of the metadata repository after a post was taken in: with a
/// new pending row for it where the reply could be taken in and the store
/// did not hold its digest, unchanged otherwise.
pub open spec fn rows_after_ingest(
    contents: Map<Seq<u8>, Seq<u8>>,
    rows: Seq<ItemView>,
    post: RedditPost,
    reply: ContentReply,
) -> Seq<ItemView> {
    if refusal(reply) is None && !contents.dom().contains(sha256_digest(reply_body(reply))) {
        after_insert(
            rows,
            sha256_digest(reply_body(reply)),
            post.permalink@,
            post.url@,
            reply_content_type(reply),
        )
    } else {
        rows
    }
}

/// Takes in one post whose picture was asked for with the answer `reply`:
/// computes the digest of the body, leaves the post alone as a duplicate
/// where the content store holds that digest, and else writes the blob and
/// then inserts the row, pending. Whatever goes wrong concerns this post
/// only.
pub fn process_post(
    store: &mut ContentStore,
    repository: &mut MetadataRepository,
    post: &RedditPost,
    reply: ContentReply,
) -> (outcome: Result<u32, ProcessingError>)
    requires
        old(store).wf(),
        old(repository).wf(),
    ensures
        final(store).wf(),
        final(repository).wf(),
        outcome == ingest_result(old(store)@, old(repository)@, reply),
        final(store)@ == store_after_ingest(old(store)@, reply),
        final(repository)@ == rows_after_ingest(old(store)@, old(repository)@, *post, reply),
{
    let candidate = match prepare(post, reply) {
        Ok(candidate) => candidate,
        Err(reason) => {
            return Err(reason);
        },
    };
    let ghost digest = sha256_digest(reply_body(reply));
    let mut waiting = first_action();
    loop
        invariant
            store.wf(),
            repository.wf(),
            refusal(reply) is None,
            digest == sha256_digest(reply_body(reply)),
            candidate.digest@ == digest,
            candidate.body@ == reply_body(reply),
            candidate.content_type@ == reply_content_type(reply),
            candidate.permalink@ == post.permalink@,
            candidate.source_url@ == post.url@,
            waiting == IngestAction::AskStore ==> store@ == old(store)@ && repository@ == old(
                repository,
            )@,
            waiting == IngestAction::WriteBlob ==> store@ == old(store)@ && repository@ == old(
                repository,
            )@ && !old(store)@.dom().contains(digest),
            waiting == IngestAction::InsertRow ==> store@ == after_write(
                old(store)@,
                digest,
                reply_body(reply),
            ) && repository@ == old(repository)@ && !old(store)@.dom().contains(digest),
            waiting matches IngestAction::Finish(result) ==> {
                &&& result == ingest_result(old(store)@, old(repository)@, reply)
                &&& store@ == store_after_ingest(old(store)@, reply)
                &&& repository@ == rows_after_ingest(old(store)@, old(repository)@, *post, reply)
            },
        decreases actions_left(waiting),
    {
        match waiting {
            IngestAction::AskStore => {
                let found = store.contains(candidate.digest.as_slice());
                waiting = step(waiting, IngestEvent::StoreAnswered(found));
            },
            IngestAction::WriteBlob => {
                let written = store.write(candidate.digest.as_slice(), candidate.body.as_slice());
                waiting = step(waiting, IngestEvent::BlobWritten(written));
            },
            IngestAction::InsertRow => {
                let inserted = repository.insert(
                    candidate.digest.as_slice(),
                    candidate.permalink.as_str(),
                    candidate.source_url.as_str(),
                    candidate.content_type.as_str(),
                );
                waiting = step(waiting, IngestEvent::RowInserted(inserted));
            },
            IngestAction::Finish(result) => {
                return result;
            },
        }
    }
}

/// The state to save after a re-check that decided `state`: none where
/// the item stays pending, for then nothing is written.
pub fn state_change(state: ModerationState) -> (change: Option<ModerationState>)
    ensures
        state == ModerationState::Pending ==> change is None,
        state != ModerationState::Pending ==> change == Some(state),
{
    match state {
        ModerationState::Pending => None,
        _ => Some(state),
    }
}

/// The rows after a re-check of the item numbered `id` ended as `decided`:
/// the item takes the state decided, unless it stays pending or nothing
/// was decided.
pub open spec fn rows_after_verdict(
    rows: Seq<ItemView>,
    id: u32,
    decided: Result<ModerationState, CheckingError>,
) -> Seq<ItemView> {
    match decided {
        Ok(ModerationState::Pending) => rows,
        Ok(state) => after_transition(rows, id, state),
        Err(_) => rows,
    }
}

/// What a re-check answers that ended as `decided`.
pub open spec fn verdict_outcome(decided: Result<ModerationState, CheckingError>) -> Result<
    (),
    CheckingError,
> {
    match decided {
        Ok(_) => Ok(()),
        Err(reason) => Err(reason),
    }
}

/// Whether a re-check that ended as `decided` accounts for the answer
/// `outcome` and for the rows `after`.
pub open spec fn checked_as(
    before: Seq<ItemView>,
    after: Seq<ItemView>,
    outcome: Result<(), CheckingError>,
    id: u32,
    decided: Result<ModerationState, CheckingError>,
) -> bool {
    outcome == verdict_outcome(decided) && after == rows_after_verdict(before, id, decided)
}

/// Saves what a re-check of the item numbered `id` decided. A decision to
/// ban or to verify is written; a decision to leave the item pending
/// writes nothing; a re-check that failed writes nothing and hands its
/// failure on.
pub fn apply_verdict(
    repository: &mut MetadataRepository,
    id: u32,
    decided: Result<ModerationState, CheckingError>,
) -> (outcome: Result<(), CheckingError>)
    requires
        old(repository).wf(),
    ensures
        final(repository).wf(),
        checked_as(old(repository)@, final(repository)@, outcome, id, decided),
{
    match decided {
        Ok(state) => {
            match state_change(state) {
                Some(change) => {
                    match repository.transition(id, change) {
                        Ok(()) => Ok(()),
                        Err(_) => Err(CheckingError::Persistence),
                    }
                },
                None => Ok(()),
            }
        },
        Err(reason) => Err(reason),
    }
}

/// Looks again at the pending item numbered `id`, whose post was asked
/// for at the moment `now` with the answer `fetched`. A post that is gone
/// bans the item. A post that came back bans it, verifies it or leaves it
/// pending, by its flags, its score and its age. Any other failure of the
/// feed changes nothing and is handed on.
pub fn process_checking(
    repository: &mut MetadataRepository,
    id: u32,
    fetched: Result<RedditPost, RedditError>,
    now: i64,
) -> (outcome: Result<(), CheckingError>)
    requires
        old(repository).wf(),
    ensures
        final(repository).wf(),
        fetched is Err ==> checked_as(
            old(repository)@,
            final(repository)@,
            outcome,
            id,
            recheck_result(fetched, None),
        ),
        fetched matches Ok(post) ==> {
            let age = Some(age_in_days(post.created as int, now as int));
            let dated = in_calendar(post.created as int) && in_calendar(now as int);
            ||| checked_as(
                old(repository)@,
                final(repository)@,
                outcome,
                id,
                recheck_result(fetched, age),
            )
            ||| (!dated && checked_as(
                old(repository)@,
                final(repository)@,
                outcome,
                id,
                recheck_result(fetched, None),
            ))
        },
{
    let decided = recheck(fetched, now);
    apply_verdict(repository, id, decided)
}

/// A post together with what came back when its picture was asked for.
#[derive(Debug, Clone, PartialEq, Eq)]
pub struct FetchedPost {
    pub post: RedditPost,
    pub reply: ContentReply,
}

/// What the content store holds after the posts of a batch were taken in,
/// one after the other.
pub open spec fn batch_contents(
    contents: Map<Seq<u8>, Seq<u8>>,
    rows: Seq<ItemView>,
    items: Seq<FetchedPost>,
) -> Map<Seq<u8>, Seq<u8>>
    decreases items.len(),
{
    if items.len() == 0 {
        contents
    } else {
        store_after_ingest(batch_contents(contents, rows, items.drop_last()), items.last().reply)
    }
}

/// The rows of the metadata repository after the posts of a batch were
/// taken in, one after the other.
pub open spec fn batch_rows(
    contents: Map<Seq<u8>, Seq<u8>>,
    rows: Seq<ItemView>,
    items: Seq<FetchedPost>,
) -> Seq<ItemView>
    decreases items.len(),
{
    if items.len() == 0 {
        rows
    } else {
        rows_after_ingest(
            batch_contents(contents, rows, items.drop_last()),
            batch_rows(contents, rows, items.drop_last()),
            items.last().post,
            items.last().reply,
        )
    }
}

/// What taking in the posts of a batch answers, post by post: each post is
/// judged by what the posts before it left behind, whether they failed or
/// not.
pub open spec fn batch_outcomes(
    contents: Map<Seq<u8>, Seq<u8>>,
    rows: Seq<ItemView>,
    items: Seq<FetchedPost>,
) -> Seq<Result<u32, ProcessingError>>
    decreases items.len(),
{
    if items.len() == 0 {
        Seq::empty()
    } else {
        batch_outcomes(contents, rows, items.drop_last()).push(
            ingest_result(
                batch_contents(contents, rows, items.drop_last()),
                batch_rows(contents, rows, items.drop_last()),
                items.last().reply,
            ),
        )
    }
}

/// Takes in the posts of a batch, one after the other in the order given.
/// A post that fails is answered with its failure and the batch goes on
/// with the next: there is one answer for every post.
pub fn process_posts(
    store: &mut ContentStore,
    repository: &mut MetadataRepository,
    items: Vec<FetchedPost>,
) -> (outcomes: Vec<Result<u32, ProcessingError>>)
    requires
        old(store).wf(),
        old(repository).wf(),
    ensures
        final(store).wf(),
        final(repository).wf(),
        outcomes@ == batch_outcomes(old(store)@, old(repository)@, items@),
        outcomes@.len() == items@.len(),
        final(store)@ == batch_contents(old(store)@, old(repository)@, items@),
        final(repository)@ == batch_rows(old(store)@, old(repository)@, items@),
{
    let mut outcomes: Vec<Result<u32, ProcessingError>> = Vec::new();
    let ghost first_contents = store@;
    let ghost first_rows = repository@;
    let ghost all = items@;
    for item in it: items.into_iter()
        invariant
            store.wf(),
            repository.wf(),
            it.seq() == all,
            outcomes@.len() == it.index(),
            outcomes@ == batch_outcomes(first_contents, first_rows, all.take(it.index() as int)),
            store@ == batch_contents(first_contents, first_rows, all.take(it.index() as int)),
            repository@ == batch_rows(first_contents, first_rows, all.take(it.index() as int)),
    {
        proof {
            let next = all.take(it.index() + 1);
            assert(next.drop_last() =~= all.take(it.index() as int));
            assert(next.last() == item);
        }
        let FetchedPost { post, reply } = item;
        let outcome = process_post(store, repository, &post, reply);
        outcomes.push(outcome);
    }
    assert(all.take(all.len() as int) =~= all);
    outcomes
}

/// Content is taken in once: after a post whose reply could be taken in,
/// whatever became of it, a post with the same body is answered
/// `Duplicate` and changes neither the content store nor the repository.
pub proof fn lemma_ingest_twice(
    contents: Map<Seq<u8>, Seq<u8>>,
    rows: Seq<ItemView>,
    post: RedditPost,
    reply: ContentReply,
    second_post: RedditPost,
    second_reply: ContentReply,
)
    requires
        refusal(reply) is None,
        refusal(second_reply) is None,
        reply_body(second_reply) == reply_body(reply),
    ensures
        ({
            let stored = store_after_ingest(contents, reply);
            let listed = rows_after_ingest(contents, rows, post, reply);
            &&& stored.dom().contains(sha256_digest(reply_body(reply)))
            &&& ingest_result(stored, listed, second_reply) == Err::<u32, ProcessingError>(
                ProcessingError::Duplicate,
            )
            &&& store_after_ingest(stored, second_reply) == stored
            &&& rows_after_ingest(stored, listed, second_post, second_reply) == listed
        }),
{
}

/// A post that fails leaves the content store and the repository as a
/// post that was never there, but for a blob that was written before the
/// row was refused; the blobs and rows of other posts are never touched.
pub proof fn lemma_failure_is_contained(
    contents: Map<Seq<u8>, Seq<u8>>,
    rows: Seq<ItemView>,
    post: RedditPost,
    reply: ContentReply,
)
    requires
        ingest_result(contents, rows, reply) is Err,
    ensures
        rows_after_ingest(contents, rows, post, reply) == rows,
        refusal(reply) is Some ==> store_after_ingest(contents, reply) == contents,
        forall|digest: Seq<u8>|
            contents.dom().contains(digest) ==> store_after_ingest(contents, reply).dom().contains(
                digest,
            ) && store_after_ingest(contents, reply)[digest] == contents[digest],
{
}

/// Every blob is stored under the digest of its own bytes.
pub open spec fn content_addressed(contents: Map<Seq<u8>, Seq<u8>>) -> bool {
    forall|digest: Seq<u8>| #[trigger]
        contents.dom().contains(digest) ==> digest == sha256_digest(contents[digest])
}

/// Taking in a post keeps the content store content-addressed: what it
/// writes, it writes under the digest of the bytes written.
pub proof fn lemma_ingest_keeps_content_addressed(
    contents: Map<Seq<u8>, Seq<u8>>,
    reply: ContentReply,
)
    requires
        content_addressed(contents),
    ensures
        content_addressed(store_after_ingest(contents, reply)),
{
    let after = store_after_ingest(contents, reply);
    assert forall|digest: Seq<u8>| #[trigger] after.dom().contains(digest) implies digest
        == sha256_digest(after[digest]) by {
        if contents.dom().contains(digest) {
            assert(after[digest] == contents[digest]);
        }
    }
}

/// A row is never without its blob: where every row's digest is in the
/// content store before a post is taken in, it is so afterwards.
pub proof fn lemma_ingest_keeps_rows_backed(
    contents: Map<Seq<u8>, Seq<u8>>,
    rows: Seq<ItemView>,
    post: RedditPost,
    reply: ContentReply,
)
    requires
        forall|k: int| 0 <= k < rows.len() ==> contents.dom().contains((#[trigger] rows[k]).digest),
    ensures
        ({
            let stored = store_after_ingest(contents, reply);
            let listed = rows_after_ingest(contents, rows, post, reply);
            forall|k: int| 0 <= k < listed.len() ==> stored.dom().contains((#[trigger] listed[k]).digest)
        }),
{
    let stored = store_after_ingest(contents, reply);
    let listed = rows_after_ingest(contents, rows, post, reply);
    assert forall|k: int| 0 <= k < listed.len() implies stored.dom().contains(
        (#[trigger] listed[k]).digest,
    ) by {
        if k < rows.len() {
            assert(listed[k] == rows[k]);
            assert(contents.dom().contains(rows[k].digest));
        }
    }
}

} // verus!
