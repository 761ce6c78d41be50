use vstd::prelude::*;

verus! {

/// Counters of a user object as sent by the upstream service. Each field
/// is `None` where the object lacks it or holds another type.
pub struct UserPayload {
    pub id: Option<String>,
    pub name: Option<String>,
    pub username: Option<String>,
    pub url: Option<String>,
    pub profile_image_url: Option<String>,
    pub followers_count: Option<i64>,
    pub following_count: Option<i64>,
    pub listed_count: Option<i64>,
    pub tweet_count: Option<i64>,
}

/// The `public_metrics` object of a tweet.
pub struct PublicMetrics {
    pub like_count: Option<i64>,
    pub quote_count: Option<i64>,
    pub reply_count: Option<i64>,
    pub retweet_count: Option<i64>,
}

/// One entry of a tweet's reference list: `kind` is the entry's `type`.
pub struct Reference {
    pub kind: Option<String>,
    pub id: Option<String>,
}

/// The reference list of a tweet: missing, present with another shape
/// than a list, or a list.
pub enum References {
    Absent,
    NotAList,
    List(Vec<Reference>),
}

/// A tweet object as sent by the upstream service.
pub struct TweetPayload {
    pub id: Option<String>,
    pub author_id: Option<String>,
    pub created_at: Option<String>,
    pub text: Option<String>,
    pub referenced_tweets: References,
    pub public_metrics: PublicMetrics,
    /// Keys under `attachments.media_keys`; an entry is `None` where it is
    /// not a string.
    pub media_keys: Option<Vec<Option<String>>>,
}

/// A media object: an entry of the batch's catalog, or what is stored for
/// one key of a tweet. `kind` is the object's `type`.
pub struct MediaPayload {
    pub media_key: Option<String>,
    pub kind: Option<String>,
    pub url: Option<String>,
    pub preview_image_url: Option<String>,
}

/// The side-car of a batch: every user, tweet and media object that the
/// batch's tweets refer to.
pub struct Includes {
    pub users: Option<Vec<UserPayload>>,
    pub tweets: Option<Vec<TweetPayload>>,
    pub media: Option<Vec<MediaPayload>>,
}

/// A timeline response: the tweets of one user and their side-car.
pub struct Timeline {
    pub data: Option<Vec<TweetPayload>>,
    pub includes: Includes,
}

/// A single-tweet response.
pub struct TweetBody {
    pub data: TweetPayload,
    pub includes: Includes,
}

/// One page of the followed-account listing.
pub struct FollowingPage {
    pub data: Option<Vec<UserPayload>>,
    pub next_token: Option<String>,
}

} // verus!
