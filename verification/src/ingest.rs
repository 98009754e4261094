//! Taking in one post: from the answer of the picture's host to the blob
//! in the content store and the row in the metadata repository.

use crate::digest::{hex_upper, sha256, sha256_digest, storage_key};
use crate::error::{ProcessingError, RepositoryError, StoreError};
use crate::reddit::{status_ok, RedditPost};
use vstd::prelude::*;

verus! {

/// What came back when the picture of a post was asked for.
#[derive(Debug, Clone, PartialEq, Eq)]
pub enum ContentReply {
    /// The host could not be reached.
    Unreachable,
    /// The host answered.
    Answer {
        status: u16,
        /// The content type that the answer names, where it names one that
        /// can be read as text.
        content_type: Option<String>,
        /// The body of the answer, where it could be read to its end.
        body: Option<Vec<u8>>,
    },
}

/// A picture that was fetched and may be stored.
#[derive(Debug, Clone, PartialEq, Eq)]
pub struct Candidate {
    /// The digest of `body`.
    pub digest: Vec<u8>,
    /// The name of the blob: `digest` in upper-case hexadecimal.
    pub key: String,
    pub permalink: String,
    pub source_url: String,
    pub content_type: String,
    pub body: Vec<u8>,
}

/// Why a reply cannot be taken in, if it cannot: the host was out of
/// reach, then a status other than 200 to 299, then no content type, then
/// a body that could not be read.
pub open spec fn refusal(reply: ContentReply) -> Option<ProcessingError> {
    match reply {
        ContentReply::Unreachable => Some(ProcessingError::Network),
        ContentReply::Answer { status, content_type, body } => {
            if !status_ok(status) {
                Some(ProcessingError::BadStatus(status))
            } else if content_type is None {
                Some(ProcessingError::InvalidContentType)
            } else if body is None {
                Some(ProcessingError::Network)
            } else {
                None
            }
        },
    }
}

/// The body of a reply that can be taken in.
pub open spec fn reply_body(reply: ContentReply) -> Seq<u8> {
    reply->body->0@
}

/// The content type of a reply that can be taken in.
pub open spec fn reply_content_type(reply: ContentReply) -> Seq<char> {
    reply->content_type->0@
}

/// Whether `candidate` is what `reply` yields for `post`.
pub open spec fn candidate_of(candidate: Candidate, post: RedditPost, reply: ContentReply) -> bool {
    &&& candidate.body@ == reply_body(reply)
    &&& candidate.digest@ == sha256_digest(reply_body(reply))
    &&& candidate.key@ == hex_upper(candidate.digest@)
    &&& candidate.content_type@ == reply_content_type(reply)
    &&& candidate.permalink@ == post.permalink@
    &&& candidate.source_url@ == post.url@
}

/// Turns the reply of a picture's host into a candidate for storing: the
/// body with its digest and key, the content type, and the post's address
/// and picture address. A reply that cannot be taken in is refused with
/// the reason.
pub fn prepare(post: &RedditPost, reply: ContentReply) -> (outcome: Result<
    Candidate,
    ProcessingError,
>)
    ensures
        refusal(reply) matches Some(reason) ==> outcome == Err::<Candidate, ProcessingError>(
            reason,
        ),
        refusal(reply) is None ==> (outcome matches Ok(candidate) && candidate_of(
            candidate,
            *post,
            reply,
        )),
{
    match reply {
        ContentReply::Unreachable => Err(ProcessingError::Network),
        ContentReply::Answer { status, content_type, body } => {
            if !(200 <= status && status <= 299) {
                return Err(ProcessingError::BadStatus(status));
            }
            let content_type = match content_type {
                Some(named) => named,
                None => {
                    return Err(ProcessingError::InvalidContentType);
                },
            };
            let body = match body {
                Some(bytes) => bytes,
                None => {
                    return Err(ProcessingError::Network);
                },
            };
            let digest = sha256(body.as_slice());
            let key = storage_key(digest.as_slice());
            Ok(
                Candidate {
                    digest,
                    key,
                    permalink: post.permalink.clone(),
                    source_url: post.url.clone(),
                    content_type,
                    body,
                },
            )
        },
    }
}

/// What is to be done next for a candidate.
#[derive(Debug, Clone, Copy, PartialEq, Eq)]
pub enum IngestAction {
    /// Ask the content store whether a blob is stored under the digest.
    AskStore,
    /// Write the body to the content store under the digest.
    WriteBlob,
    /// Insert the row into the metadata repository.
    InsertRow,
    /// Nothing more: the post was taken in under this number, or was not.
    Finish(Result<u32, ProcessingError>),
}

/// What happened when an action was carried out.
#[derive(Debug, Clone, Copy, PartialEq, Eq)]
pub enum IngestEvent {
    /// The content store said whether a blob is stored under the digest.
    StoreAnswered(bool),
    /// The content store wrote the blob, or did not.
    BlobWritten(Result<(), StoreError>),
    /// The metadata repository inserted the row, or did not.
    RowInserted(Result<u32, RepositoryError>),
}

/// The action that follows `waiting` once `event` came in. A blob that is
/// stored already ends the work as a duplicate. A blob that was written, or
/// that turned out to be there when it was to be written, is followed by
/// its row. The row's number, or the reason why there is none, ends the
/// work. An event that does not answer the action waited for changes
/// nothing.
pub open spec fn next_action(waiting: IngestAction, event: IngestEvent) -> IngestAction {
    match (waiting, event) {
        (IngestAction::AskStore, IngestEvent::StoreAnswered(true)) => IngestAction::Finish(
            Err(ProcessingError::Duplicate),
        ),
        (IngestAction::AskStore, IngestEvent::StoreAnswered(false)) => IngestAction::WriteBlob,
        (IngestAction::WriteBlob, IngestEvent::BlobWritten(Ok(_))) => IngestAction::InsertRow,
        (
            IngestAction::WriteBlob,
            IngestEvent::BlobWritten(Err(StoreError::AlreadyExists)),
        ) => IngestAction::InsertRow,
        (IngestAction::WriteBlob, IngestEvent::BlobWritten(Err(_))) => IngestAction::Finish(
            Err(ProcessingError::StorageIO),
        ),
        (IngestAction::InsertRow, IngestEvent::RowInserted(Ok(id))) => IngestAction::Finish(Ok(id)),
        (
            IngestAction::InsertRow,
            IngestEvent::RowInserted(Err(RepositoryError::Duplicate)),
        ) => IngestAction::Finish(Err(ProcessingError::Duplicate)),
        (
            IngestAction::InsertRow,
            IngestEvent::RowInserted(Err(RepositoryError::Persistence)),
        ) => IngestAction::Finish(Err(ProcessingError::Persistence)),
        _ => waiting,
    }
}

/// How many actions may still follow `waiting`.
pub open spec fn actions_left(waiting: IngestAction) -> nat {
    match waiting {
        IngestAction::AskStore => 3,
        IngestAction::WriteBlob => 2,
        IngestAction::InsertRow => 1,
        IngestAction::Finish(_) => 0,
    }
}

/// Whether `event` answers the action `waiting`.
pub open spec fn answers(waiting: IngestAction, event: IngestEvent) -> bool {
    match (waiting, event) {
        (IngestAction::AskStore, IngestEvent::StoreAnswered(_)) => true,
        (IngestAction::WriteBlob, IngestEvent::BlobWritten(_)) => true,
        (IngestAction::InsertRow, IngestEvent::RowInserted(_)) => true,
        _ => false,
    }
}

/// The first action for every candidate: ask the content store.
pub fn first_action() -> (action: IngestAction)
    ensures
        action == IngestAction::AskStore,
{
    IngestAction::AskStore
}

/// The action that follows `waiting` once `event` came in.
pub fn step(waiting: IngestAction, event: IngestEvent) -> (next: IngestAction)
    ensures
        next == next_action(waiting, event),
{
    match waiting {
        IngestAction::AskStore => match event {
            IngestEvent::StoreAnswered(true) => IngestAction::Finish(
                Err(ProcessingError::Duplicate),
            ),
            IngestEvent::StoreAnswered(false) => IngestAction::WriteBlob,
            _ => waiting,
        },
        IngestAction::WriteBlob => match event {
            IngestEvent::BlobWritten(Ok(_)) => IngestAction::InsertRow,
            IngestEvent::BlobWritten(Err(StoreError::AlreadyExists)) => IngestAction::InsertRow,
            IngestEvent::BlobWritten(Err(_)) => IngestAction::Finish(
                Err(ProcessingError::StorageIO),
            ),
            _ => waiting,
        },
        IngestAction::InsertRow => match event {
            IngestEvent::RowInserted(Ok(id)) => IngestAction::Finish(Ok(id)),
            IngestEvent::RowInserted(Err(RepositoryError::Duplicate)) => IngestAction::Finish(
                Err(ProcessingError::Duplicate),
            ),
            IngestEvent::RowInserted(Err(RepositoryError::Persistence)) => IngestAction::Finish(
                Err(ProcessingError::Persistence),
            ),
            _ => waiting,
        },
        IngestAction::Finish(_) => waiting,
    }
}

/// Every event that answers the action waited for brings the work nearer
/// to its end, so a candidate is done after three actions at most; any
/// other event leaves it where it is.
pub proof fn lemma_step_progress(waiting: IngestAction, event: IngestEvent)
    ensures
        answers(waiting, event) ==> actions_left(next_action(waiting, event)) < actions_left(
            waiting,
        ),
        !answers(waiting, event) ==> next_action(waiting, event) == waiting,
{
}

/// A row is inserted only after the content store was asked and the blob
/// is in place, and a blob is never written where the store holds one.
pub proof fn lemma_step_order(waiting: IngestAction, event: IngestEvent)
    ensures
        next_action(waiting, event) == IngestAction::InsertRow && waiting
            != IngestAction::InsertRow ==> waiting == IngestAction::WriteBlob,
        next_action(waiting, event) == IngestAction::WriteBlob && waiting
            != IngestAction::WriteBlob ==> waiting == IngestAction::AskStore && event
            == IngestEvent::StoreAnswered(false),
{
}

} // verus!
