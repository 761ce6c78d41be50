use vstd::prelude::*;
use vstd::string::*;
use crate::config::Settings;
use crate::twitter::model::payload::{FollowingPage, UserPayload};
use crate::twitter::scrapers::general::{request_url, v2_api_get, ApiCall, Params, ParamsView};
use crate::utils::errors::{ApiError, Malformed};
use crate::utils::text::opt_text;

verus! {

/// What a request asks the upstream service to expand.
pub open spec fn expansions() -> Seq<char> {
    "author_id,referenced_tweets.id,referenced_tweets.id.author_id,in_reply_to_user_id,attachments.media_keys"@
}

/// Parameters of a request for tweets: everything the store reads.
pub open spec fn tweet_params(max_results: Option<u32>) -> ParamsView {
    ParamsView {
        expansions: Some(expansions()),
        tweet___fields: Some("created_at,in_reply_to_user_id,public_metrics,referenced_tweets"@),
        user___fields: Some("name,username,profile_image_url,url,public_metrics"@),
        media___fields: Some("preview_image_url,url"@),
        max_results,
        pagination_token: None,
    }
}

/// Parameters of a request for tweets.
pub fn build_tweet_params(max_results: Option<u32>) -> (r: Params)
    ensures
        r@ == tweet_params(max_results),
{
    Params {
        expansions: Some(
            "author_id,referenced_tweets.id,referenced_tweets.id.author_id,in_reply_to_user_id,attachments.media_keys".to_owned(),
        ),
        tweet___fields: Some(
            "created_at,in_reply_to_user_id,public_metrics,referenced_tweets".to_owned(),
        ),
        user___fields: Some("name,username,profile_image_url,url,public_metrics".to_owned()),
        media___fields: Some("preview_image_url,url".to_owned()),
        max_results,
        pagination_token: None,
    }
}

/// What `v2_api_get` returns for an address and parameters.
pub open spec fn call_matches(
    r: Result<ApiCall, ApiError>,
    config: Settings,
    url: Seq<char>,
    params: ParamsView,
) -> bool {
    match request_url(url, Some(params)) {
        Some(full) => r is Ok && r->Ok_0.url@ == full && r->Ok_0.authorization@ == "Bearer "@
            + config.twitter.bearer_token@,
        None => r is Err && r->Err_0 == ApiError::PermanentUpstream(Malformed::BadParams),
    }
}

/// The request for the latest tweets of a user, as many as the settings
/// ask for per timeline.
pub fn get_user_timeline(config: &Settings, user_id: &str) -> (r: Result<ApiCall, ApiError>)
    ensures
        call_matches(
            r,
            *config,
            "https://api.twitter.com/2/users/"@ + user_id@ + "/tweets"@,
            tweet_params(Some(config.app.refresh_tweets_per_user)),
        ),
{
    let mut url = "https://api.twitter.com/2/users/".to_owned();
    url.append(user_id);
    url.append("/tweets");
    let params = build_tweet_params(Some(config.app.refresh_tweets_per_user));
    v2_api_get(config, url, Some(&params))
}

/// The request for one tweet with everything it refers to.
pub fn get_single_tweet(config: &Settings, tweet_id: &str) -> (r: Result<ApiCall, ApiError>)
    ensures
        call_matches(
            r,
            *config,
            "https://api.twitter.com/2/tweets/"@ + tweet_id@,
            tweet_params(None),
        ),
{
    let mut url = "https://api.twitter.com/2/tweets/".to_owned();
    url.append(tweet_id);
    let params = build_tweet_params(None);
    v2_api_get(config, url, Some(&params))
}

/// The request for one page, of up to 1000 entries, of the accounts that
/// the configured account follows.
pub fn fetch_followed_users(config: &Settings, pagination_token: Option<String>) -> (r: Result<
    ApiCall,
    ApiError,
>)
    ensures
        call_matches(
            r,
            *config,
            "https://api.twitter.com/2/users/"@ + config.app.followers_for_account@
                + "/following"@,
            ParamsView {
                expansions: None,
                tweet___fields: None,
                user___fields: None,
                media___fields: None,
                max_results: Some(1000u32),
                pagination_token: opt_text(pagination_token),
            },
        ),
{
    let mut url = "https://api.twitter.com/2/users/".to_owned();
    url.append(config.app.followers_for_account.as_str());
    url.append("/following");
    let params = Params {
        expansions: None,
        tweet___fields: None,
        user___fields: None,
        media___fields: None,
        max_results: Some(1000),
        pagination_token,
    };
    v2_api_get(config, url, Some(&params))
}

/// Takes one page of the followed-account listing into the list gathered
/// so far and says where to go on: with the page's token, or nowhere. A
/// page without a list of accounts is malformed and leaves the list as it
/// was.
pub fn fetch_all_followed_users(users: &mut Vec<UserPayload>, page: FollowingPage) -> (r: Result<
    Option<String>,
    ApiError,
>)
    ensures
        match page.data {
            Some(list) => r == Ok::<Option<String>, ApiError>(page.next_token) && final(users)@
                == old(users)@ + list@,
            None => r == Err::<Option<String>, ApiError>(
                ApiError::PermanentUpstream(Malformed::NoData),
            ) && final(users)@ == old(users)@,
        },
{
    let mut page = page;
    match page.data {
        Some(mut list) => {
            users.append(&mut list);
            Ok(page.next_token)
        },
        None => Err(ApiError::PermanentUpstream(Malformed::NoData)),
    }
}

} // verus!
