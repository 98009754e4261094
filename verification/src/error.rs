//! What can go wrong in each part of the pipeline.

use vstd::prelude::*;

verus! {

/// A failure of the feed.
#[derive(Debug, Clone, Copy, PartialEq, Eq, Structural)]
pub enum RedditError {
    /// The feed could not be reached, or its answer could not be read.
    Network,
    /// The feed answered with a status outside 200..=299.
    BadStatus(u16),
    /// The answer was not a document of the expected shape.
    Deserialize,
    /// The feed holds no such post.
    NotFound,
}

/// A failure while re-checking one stored item.
#[derive(Debug, Clone, Copy, PartialEq, Eq, Structural)]
pub enum CheckingError {
    /// The new state could not be saved.
    Persistence,
    /// The post could not be fetched again.
    Feed(RedditError),
}

/// A failure while taking in one post.
#[derive(Debug, Clone, Copy, PartialEq, Eq, Structural)]
pub enum ProcessingError {
    /// The picture could not be fetched, or its body could not be read.
    Network,
    /// The picture's host answered with a status outside 200..=299.
    BadStatus(u16),
    /// The answer named no usable content type.
    InvalidContentType,
    /// The same content is stored already.
    Duplicate,
    /// The blob could not be written.
    StorageIO,
    /// The item's row could not be saved.
    Persistence,
}

/// A failure of the content store.
#[derive(Debug, Clone, Copy, PartialEq, Eq, Structural)]
pub enum StoreError {
    /// A blob with this digest is stored already; nothing was written.
    AlreadyExists,
    /// No blob with this digest is stored.
    NotFound,
    /// The storage medium failed.
    Io,
}

/// A failure of the metadata repository.
#[derive(Debug, Clone, Copy, PartialEq, Eq, Structural)]
pub enum RepositoryError {
    /// A row with this digest exists already; nothing was inserted.
    Duplicate,
    /// The repository could not carry out the operation.
    Persistence,
}

/// A failure while bringing the schema up to date.
#[derive(Debug, Clone, Copy, PartialEq, Eq, Structural)]
pub enum MigrationError {
    /// A statement failed, or the version could not be read or saved.
    Persistence,
}

} // verus!
