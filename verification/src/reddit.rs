//! Posts as the feed describes them, and the rule that decides which of them
//! may be kept.

use crate::error::RedditError;
use crate::text::{ends_with, starts_with};
use vstd::prelude::*;
use vstd::string::StringExecFns;

verus! {

/// The orders in which the feed lists a channel's posts.
#[derive(Copy, Clone, Eq, PartialEq, Debug, Structural)]
pub enum PostType {
    New,
    Hot,
}

impl PostType {
    /// The word that stands for this order in a feed address.
    pub open spec fn label(self) -> Seq<char> {
        match self {
            PostType::New => "new"@,
            PostType::Hot => "hot"@,
        }
    }

    /// The word that stands for this order in a feed address: `new` or `hot`.
    pub fn name(self) -> (word: &'static str)
        ensures
            word@ == self.label(),
    {
        match self {
            PostType::New => "new",
            PostType::Hot => "hot",
        }
    }
}

/// One post as the feed describes it.
#[derive(Debug, Clone, PartialEq, Eq)]
pub struct RedditPost {
    /// Who removed the post, where the feed names anyone.
    pub banned_by: Option<String>,
    /// The channel the post belongs to.
    pub subreddit: String,
    /// Votes for the post less votes against it.
    pub score: i64,
    pub hidden: bool,
    /// The post's address within the feed; it names the post for good.
    pub permalink: String,
    /// Where the picture is.
    pub url: String,
    /// Who may read the channel; `public` for an open one.
    pub subreddit_type: String,
    pub quarantine: bool,
    pub over_18: bool,
    /// When the post was made, in whole seconds since 1970-01-01 00:00:00 UTC.
    pub created: i64,
}

/// The start of every address that a picture may be fetched from.
pub open spec fn trusted_prefix() -> Seq<char> {
    "https://i.redd.it/"@
}

/// Whether `url` ends like a picture or a short film.
pub open spec fn has_media_ending(url: Seq<char>) -> bool {
    ||| ".jpg"@.is_suffix_of(url)
    ||| ".jpeg"@.is_suffix_of(url)
    ||| ".png"@.is_suffix_of(url)
    ||| ".gif"@.is_suffix_of(url)
    ||| ".gifv"@.is_suffix_of(url)
    ||| ".webm"@.is_suffix_of(url)
}

/// Whether `url` is on the trusted host and ends like a picture or a short
/// film.
pub open spec fn url_allowed(url: Seq<char>) -> bool {
    trusted_prefix().is_prefix_of(url) && has_media_ending(url)
}

impl RedditPost {
    /// A ban marker counts when it is there and not empty.
    pub open spec fn ban_marked(&self) -> bool {
        self.banned_by matches Some(marker) && marker@.len() > 0
    }

    /// The post may not be kept.
    pub open spec fn ineligible(&self) -> bool {
        ||| self.subreddit@.len() == 0
        ||| self.url@.len() == 0
        ||| self.hidden
        ||| self.quarantine
        ||| self.ban_marked()
        ||| self.score < 1
        ||| self.subreddit_type@ != "public"@
        ||| !url_allowed(self.url@)
    }

    /// A copy of this post.
    pub fn duplicate(&self) -> (copy: RedditPost)
        ensures
            copy == *self,
    {
        let banned_by = match &self.banned_by {
            Some(marker) => Some(marker.clone()),
            None => None,
        };
        RedditPost {
            banned_by,
            subreddit: self.subreddit.clone(),
            score: self.score,
            hidden: self.hidden,
            permalink: self.permalink.clone(),
            url: self.url.clone(),
            subreddit_type: self.subreddit_type.clone(),
            quarantine: self.quarantine,
            over_18: self.over_18,
            created: self.created,
        }
    }

    /// Whether the feed names a remover for this post. An empty name does
    /// not count.
    pub fn has_ban_marker(&self) -> (marked: bool)
        ensures
            marked == self.ban_marked(),
    {
        match &self.banned_by {
            None => false,
            Some(marker) => !marker.as_str().is_empty(),
        }
    }

    /// Whether the post must be left alone: it names no channel or no
    /// address, is hidden, quarantined or marked as removed, has a score
    /// under 1, belongs to a channel that is not public, or its address is
    /// not an allowed one.
    pub fn is_unsafe(&self) -> (refused: bool)
        ensures
            refused == self.ineligible(),
    {
        self.subreddit.as_str().is_empty()
            || self.url.as_str().is_empty()
            || self.hidden
            || self.quarantine
            || self.has_ban_marker()
            || self.score < 1
            || self.subreddit_type != String::from_str("public")
            || !self.is_url_safe()
    }

    /// Whether the post may be kept: the opposite of `is_unsafe`.
    pub fn is_safe(&self) -> (kept: bool)
        ensures
            kept == !self.ineligible(),
    {
        !self.is_unsafe()
    }

    /// Whether the picture's address starts with `https://i.redd.it/` and
    /// ends with one of `.jpg`, `.jpeg`, `.png`, `.gif`, `.gifv`, `.webm`.
    pub fn is_url_safe(&self) -> (allowed: bool)
        ensures
            allowed == url_allowed(self.url@),
    {
        let url = self.url.as_str();
        starts_with(url, "https://i.redd.it/") && (ends_with(url, ".jpg") || ends_with(
            url,
            ".jpeg",
        ) || ends_with(url, ".png") || ends_with(url, ".gif") || ends_with(url, ".gifv")
            || ends_with(url, ".webm"))
    }
}

/// The address of a channel's listing in the given order, a hundred posts
/// at most.
pub open spec fn listing_address(subreddit: Seq<char>, ty: PostType) -> Seq<char> {
    "https://reddit.com/r/"@ + subreddit + "/"@ + ty.label() + ".json?limit=100"@
}

/// The address under which the feed describes the single post `permalink`.
pub open spec fn post_address(permalink: Seq<char>) -> Seq<char> {
    "https://reddit.com/"@ + permalink + ".json"@
}

/// Whether an answer with this status carries what was asked for: 200 up to
/// 299.
pub open spec fn status_ok(status: u16) -> bool {
    200 <= status <= 299
}

/// The address to ask for a channel's listing in the given order.
pub fn listing_url(subreddit: &str, ty: PostType) -> (url: String)
    ensures
        url@ == listing_address(subreddit@, ty),
{
    let mut url = String::from_str("https://reddit.com/r/");
    url.append(subreddit);
    url.append("/");
    url.append(ty.name());
    url.append(".json?limit=100");
    url
}

/// The address to ask for a single post.
pub fn post_url(permalink: &str) -> (url: String)
    ensures
        url@ == post_address(permalink@),
{
    let mut url = String::from_str("https://reddit.com/");
    url.append(permalink);
    url.append(".json");
    url
}

/// Accepts an answer of the feed by its status: 200 up to 299 passes, any
/// other status is handed back as it came.
pub fn check_status(status: u16) -> (outcome: Result<(), RedditError>)
    ensures
        status_ok(status) ==> outcome == Ok::<(), RedditError>(()),
        !status_ok(status) ==> outcome == Err::<(), RedditError>(RedditError::BadStatus(status)),
{
    if 200 <= status && status <= 299 {
        Ok(())
    } else {
        Err(RedditError::BadStatus(status))
    }
}

/// The body of an answer of the feed, once decoded.
#[derive(Debug, Clone, PartialEq, Eq)]
pub enum FeedDocument {
    /// The body is no document of the expected shape.
    Malformed,
    /// The body is well formed and lists nothing at all.
    Empty,
    /// The posts of the first listing in the body, in the order given.
    Listing(Vec<RedditPost>),
}

/// The posts of a channel's listing: all that the document lists, in its
/// order; none where it lists nothing; an error where it is malformed.
pub fn listed_posts(document: FeedDocument) -> (outcome: Result<Vec<RedditPost>, RedditError>)
    ensures
        document is Malformed ==> outcome == Err::<Vec<RedditPost>, RedditError>(
            RedditError::Deserialize,
        ),
        document is Empty ==> (outcome matches Ok(posts) && posts@.len() == 0),
        document matches FeedDocument::Listing(children) ==> outcome == Ok::<
            Vec<RedditPost>,
            RedditError,
        >(children),
{
    match document {
        FeedDocument::Malformed => Err(RedditError::Deserialize),
        FeedDocument::Empty => Ok(Vec::new()),
        FeedDocument::Listing(children) => Ok(children),
    }
}

/// The one post that a document about a single post describes: the last of
/// its listing. A document that lists nothing, or whose listing is empty,
/// means that the post is gone.
pub fn single_post(document: FeedDocument) -> (outcome: Result<RedditPost, RedditError>)
    ensures
        document is Malformed ==> outcome == Err::<RedditPost, RedditError>(
            RedditError::Deserialize,
        ),
        document is Empty ==> outcome == Err::<RedditPost, RedditError>(RedditError::NotFound),
        document matches FeedDocument::Listing(children) ==> {
            if children@.len() == 0 {
                outcome == Err::<RedditPost, RedditError>(RedditError::NotFound)
            } else {
                outcome == Ok::<RedditPost, RedditError>(children@.last())
            }
        },
{
    match document {
        FeedDocument::Malformed => Err(RedditError::Deserialize),
        FeedDocument::Empty => Err(RedditError::NotFound),
        FeedDocument::Listing(children) => {
            let mut children = children;
            match children.pop() {
                Some(post) => Ok(post),
                None => Err(RedditError::NotFound),
            }
        },
    }
}

} // verus!
