use vstd::prelude::*;

verus! {

/// The way in which an upstream payload departs from the expected shape.
#[derive(Clone, Copy, Debug, PartialEq, Eq, Structural)]
pub enum Malformed {
    NoTweetId,
    NoAuthorId,
    NoCreatedAt,
    BadCreatedAt,
    NoRefTweets,
    NoType,
    NoId,
    NoIncludedTweets,
    MissingTarget,
    NestedRetweet,
    NoLikeCount,
    NoQuoteCount,
    NoReplyCount,
    NoRetweetCount,
    MetricOverflow,
    NoText,
    NoMediaKey,
    NoUserId,
    NoName,
    NoUsername,
    NoUrl,
    NoData,
    NoHeader,
    BadHeader,
    BadParams,
    /// The upstream service refused the request as the client's fault.
    ClientError,
}

/// Failure classes of the pipeline.
#[derive(Clone, Copy, Debug, PartialEq, Eq, Structural)]
pub enum ApiError {
    /// Network failure or server error of the upstream service: worth retrying.
    TransientUpstream,
    /// Malformed payload or client error: never retried.
    PermanentUpstream(Malformed),
    /// The store refused an operation for a reason other than a key conflict.
    StorageFailure,
    /// An author or a parent tweet was missing when a row that refers to it
    /// was to be inserted.
    OrderingViolation,
}

impl ApiError {
    pub open spec fn transient(self) -> bool {
        self == ApiError::TransientUpstream
    }

    /// Whether a retry may help.
    pub fn is_transient(&self) -> (r: bool)
        ensures
            r == self.transient(),
    {
        match self {
            ApiError::TransientUpstream => true,
            _ => false,
        }
    }
}

/// Rejection of a request whose parameters do not validate.
#[derive(Debug)]
pub struct MyError(pub String);

impl MyError {
    /// The text shown to the caller; it never echoes the rejected input.
    pub fn message(&self) -> (r: String)
        ensures
            r@ == "A validation error occured on the input."@,
    {
        "A validation error occured on the input.".to_owned()
    }
}

} // verus!
