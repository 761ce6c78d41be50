use vstd::prelude::*;
use vstd::string::*;
use crate::config::Settings;
use crate::utils::errors::{ApiError, Malformed};
use crate::utils::outside::{clock_of, clock_text, encode_url_param, format_clock, url_param};
use crate::utils::text::{
    decimal_digits, decimal_text, from_chars, opt_text, parse_u32, parse_u32_spec, replace_all,
    replaced, to_chars,
};

verus! {

/// Query parameters of a request. Three underscores in a field's name
/// stand for the dot of the upstream parameter's name.
#[allow(non_snake_case)]
#[derive(Debug)]
pub struct Params {
    pub expansions: Option<String>,
    pub tweet___fields: Option<String>,
    pub user___fields: Option<String>,
    pub media___fields: Option<String>,
    pub max_results: Option<u32>,
    pub pagination_token: Option<String>,
}

#[allow(non_snake_case)]
pub struct ParamsView {
    pub expansions: Option<Seq<char>>,
    pub tweet___fields: Option<Seq<char>>,
    pub user___fields: Option<Seq<char>>,
    pub media___fields: Option<Seq<char>>,
    pub max_results: Option<u32>,
    pub pagination_token: Option<Seq<char>>,
}

impl View for Params {
    type V = ParamsView;

    open spec fn view(&self) -> ParamsView {
        ParamsView {
            expansions: opt_text(self.expansions),
            tweet___fields: opt_text(self.tweet___fields),
            user___fields: opt_text(self.user___fields),
            media___fields: opt_text(self.media___fields),
            max_results: self.max_results,
            pagination_token: opt_text(self.pagination_token),
        }
    }
}

/// The rate budget as a response reports it.
#[derive(Clone, Copy, Debug, PartialEq, Eq, Structural)]
pub struct RateLimits {
    pub limit_left: u32,
    pub limit_total: u32,
    /// When the window resets, in seconds since the Unix epoch.
    pub reset_time: i64,
}

/// A query with one more parameter: nothing is added for a missing value;
/// parameters are joined by `&`.
pub open spec fn with_param(
    query: Option<Seq<char>>,
    key: Seq<char>,
    value: Option<Seq<char>>,
) -> Option<Seq<char>> {
    match (query, value) {
        (None, _) => None,
        (Some(q), None) => Some(q),
        (Some(q), Some(v)) => joined(query, url_param(key, v)),
    }
}

/// The query string of a request: the parameters that have a value, in
/// the order of the fields, with the dots of their names restored.
pub open spec fn query_of(p: ParamsView) -> Option<Seq<char>> {
    let max_results = match p.max_results {
        Some(n) => Some(decimal_digits(n as nat)),
        None => None,
    };
    match with_param(
        with_param(
            with_param(
                with_param(
                    with_param(
                        with_param(Some(Seq::empty()), "expansions"@, p.expansions),
                        "tweet___fields"@,
                        p.tweet___fields,
                    ),
                    "user___fields"@,
                    p.user___fields,
                ),
                "media___fields"@,
                p.media___fields,
            ),
            "max_results"@,
            max_results,
        ),
        "pagination_token"@,
        p.pagination_token,
    ) {
        Some(raw) => Some(replaced(raw, "___"@, "."@)),
        None => None,
    }
}

/// A query with one more written parameter, joined by `&`; no query
/// where there was none or the parameter could not be written.
pub open spec fn joined(query: Option<Seq<char>>, pair: Option<Seq<char>>) -> Option<Seq<char>> {
    match (query, pair) {
        (Some(q), Some(p)) => Some(
            if q.len() == 0 {
                p
            } else {
                q + "&"@ + p
            },
        ),
        _ => None,
    }
}

/// Joins a written parameter to a query under construction.
pub fn join_param(query: Option<String>, pair: Option<String>) -> (r: Option<String>)
    ensures
        opt_text(r) == joined(opt_text(query), opt_text(pair)),
{
    let mut q = match query {
        Some(q) => q,
        None => { return None; },
    };
    match pair {
        None => None,
        Some(pair) => {
            if q.as_str().unicode_len() == 0 {
                Some(pair)
            } else {
                q.append("&");
                q.append(pair.as_str());
                Some(q)
            }
        },
    }
}

/// Adds a parameter to a query under construction.
pub fn add_param(query: Option<String>, key: &str, value: &Option<String>) -> (r: Option<String>)
    ensures
        opt_text(r) == with_param(opt_text(query), key@, opt_text(*value)),
{
    match value {
        Some(v) => {
            if query.is_none() {
                return None;
            }
            join_param(query, encode_url_param(key, v.as_str()))
        },
        None => query,
    }
}

impl Params {
    /// The query string that these parameters make.
    pub fn to_query(&self) -> (r: Option<String>)
        ensures
            opt_text(r) == query_of(self@),
    {
        let max_results = match self.max_results {
            Some(n) => Some(decimal_text(n as u64)),
            None => None,
        };
        let q = add_param(Some(String::new()), "expansions", &self.expansions);
        let q = add_param(q, "tweet___fields", &self.tweet___fields);
        let q = add_param(q, "user___fields", &self.user___fields);
        let q = add_param(q, "media___fields", &self.media___fields);
        let q = add_param(q, "max_results", &max_results);
        let q = add_param(q, "pagination_token", &self.pagination_token);
        match q {
            Some(raw) => Some(
                from_chars(&replace_all(&to_chars(raw.as_str()), &to_chars("___"), &to_chars("."))),
            ),
            None => None,
        }
    }
}

/// A request to the upstream service, ready to be sent.
pub struct ApiCall {
    pub url: String,
    /// Value of the `Authorization` header.
    pub authorization: String,
}

/// Address of a request: the endpoint, then `?` and the query where
/// parameters are given.
pub open spec fn request_url(url: Seq<char>, params: Option<ParamsView>) -> Option<Seq<char>> {
    match params {
        None => Some(url),
        Some(p) => match query_of(p) {
            Some(q) => Some(url + "?"@ + q),
            None => None,
        },
    }
}

/// Makes the GET request for an endpoint: its address with the query, and
/// the bearer token of the settings as authorization.
pub fn v2_api_get(config: &Settings, url: String, params: Option<&Params>) -> (r: Result<
    ApiCall,
    ApiError,
>)
    ensures
        match request_url(
            url@,
            match params {
                Some(p) => Some(p@),
                None => None,
            },
        ) {
            Some(full) => r is Ok && r->Ok_0.url@ == full && r->Ok_0.authorization@ == "Bearer "@
                + config.twitter.bearer_token@,
            None => r is Err && r->Err_0 == ApiError::PermanentUpstream(Malformed::BadParams),
        },
{
    let mut url = url;
    match params {
        Some(p) => match p.to_query() {
            Some(q) => {
                url.append("?");
                url.append(q.as_str());
            },
            None => { return Err(ApiError::PermanentUpstream(Malformed::BadParams)); },
        },
        None => {},
    }
    let mut authorization = "Bearer ".to_owned();
    authorization.append(config.twitter.bearer_token.as_str());
    Ok(ApiCall { url, authorization })
}

/// What one header says: a missing header and one that is no number are
/// told apart.
pub open spec fn header_value(header: Option<Seq<char>>) -> Result<u32, ApiError> {
    match header {
        None => Err(ApiError::PermanentUpstream(Malformed::NoHeader)),
        Some(text) => match parse_u32_spec(text) {
            Some(v) => Ok(v),
            None => Err(ApiError::PermanentUpstream(Malformed::BadHeader)),
        },
    }
}

/// The rate budget that three headers report, read in the order
/// remaining, limit, reset; the first one that fails decides the error.
pub open spec fn rate_limits_of(
    remaining: Option<Seq<char>>,
    limit: Option<Seq<char>>,
    reset: Option<Seq<char>>,
) -> Result<RateLimits, ApiError> {
    match header_value(remaining) {
        Err(e) => Err(e),
        Ok(left) => match header_value(limit) {
            Err(e) => Err(e),
            Ok(total) => match header_value(reset) {
                Err(e) => Err(e),
                Ok(at) => Ok(
                    RateLimits { limit_left: left, limit_total: total, reset_time: at as i64 },
                ),
            },
        },
    }
}

/// Reads one header as a number.
pub fn read_header(header: Option<&str>) -> (r: Result<u32, ApiError>)
    ensures
        r == header_value(
            match header {
                Some(h) => Some(h@),
                None => None,
            },
        ),
{
    match header {
        None => Err(ApiError::PermanentUpstream(Malformed::NoHeader)),
        Some(text) => match parse_u32(text) {
            Some(v) => Ok(v),
            None => Err(ApiError::PermanentUpstream(Malformed::BadHeader)),
        },
    }
}

/// Reads the rate budget from the values of the headers
/// `x-rate-limit-remaining`, `x-rate-limit-limit` and `x-rate-limit-reset`.
pub fn handle_rate_limits(remaining: Option<&str>, limit: Option<&str>, reset: Option<&str>) -> (r:
    Result<RateLimits, ApiError>)
    ensures
        r == rate_limits_of(
            match remaining {
                Some(h) => Some(h@),
                None => None,
            },
            match limit {
                Some(h) => Some(h@),
                None => None,
            },
            match reset {
                Some(h) => Some(h@),
                None => None,
            },
        ),
{
    let limit_left = read_header(remaining)?;
    let limit_total = read_header(limit)?;
    let reset_time = read_header(reset)?;
    Ok(RateLimits { limit_left, limit_total, reset_time: reset_time as i64 })
}

impl RateLimits {
    /// The line that reports this budget with a given time of reset.
    pub open spec fn line_of(self, clock: Seq<char>) -> Seq<char> {
        "RATE LIMIT LEFT: "@ + decimal_digits(self.limit_left as nat) + " / "@ + decimal_digits(
            self.limit_total as nat,
        ) + ", RESET TIME: "@ + clock
    }

    /// The line that reports this budget: what is left, the total, and the
    /// time of day at which the window resets.
    pub open spec fn line(self) -> Option<Seq<char>> {
        match clock_text(self.reset_time) {
            Some(_) => Some(self.line_of(clock_of(self.reset_time))),
            None => None,
        }
    }

    /// The line that reports this budget with a given time of reset.
    pub fn line_with(&self, clock: &str) -> (r: String)
        ensures
            r@ == self.line_of(clock@),
    {
        let mut line = "RATE LIMIT LEFT: ".to_owned();
        line.append(decimal_text(self.limit_left as u64).as_str());
        line.append(" / ");
        line.append(decimal_text(self.limit_total as u64).as_str());
        line.append(", RESET TIME: ");
        line.append(clock);
        line
    }

    /// The line that reports this budget; `None` where the reset time is
    /// beyond what a calendar date can hold.
    pub fn to_string(&self) -> (r: Option<String>)
        ensures
            opt_text(r) == self.line(),
    {
        match format_clock(self.reset_time) {
            Some(clock) => Some(self.line_with(clock.as_str())),
            None => None,
        }
    }
}

} // verus!
