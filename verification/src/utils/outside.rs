use vstd::prelude::*;

verus! {

/// Microseconds since the Unix epoch of the instant that an RFC 3339 text
/// denotes, as chrono reads it; `None` where chrono rejects the text.
pub uninterp spec fn rfc3339_micros(text: Seq<char>) -> Option<i64>;

/// RFC 3339 text that chrono writes for an instant given in microseconds
/// since the Unix epoch; `None` where chrono cannot represent the instant.
pub uninterp spec fn rfc3339_text(micros: i64) -> Option<Seq<char>>;

/// Calls chrono's `DateTime::parse_from_rfc3339` and converts the instant
/// with `timestamp_micros`. The result depends on the text alone.
#[verifier::external_body]
pub(crate) fn parse_rfc3339(text: &str) -> (r: Option<i64>)
    ensures
        r == rfc3339_micros(text@),
{
    chrono::DateTime::parse_from_rfc3339(text).ok().map(|d| d.timestamp_micros())
}

/// Calls chrono's `DateTime::from_timestamp_micros` and writes the instant
/// with `to_rfc3339`. The result depends on the number alone.
#[verifier::external_body]
pub(crate) fn format_rfc3339(micros: i64) -> (r: Option<String>)
    ensures
        crate::utils::text::opt_text(r) == rfc3339_text(micros),
{
    chrono::DateTime::from_timestamp_micros(micros).map(|d| d.to_rfc3339())
}

/// Calls chrono's `Utc::now` and converts with `timestamp_micros`. chrono
/// builds the instant from a duration since the epoch, so it is never
/// negative; nothing else is known of it.
#[verifier::external_body]
pub(crate) fn now_micros() -> (r: i64)
    ensures
        r >= 0,
{
    chrono::Utc::now().timestamp_micros()
}

/// Calls uuid's `Uuid::new_v4` and converts with `as_u128`. The value is
/// random: nothing is claimed of it.
#[verifier::external_body]
pub(crate) fn new_row_id() -> (r: u128)
{
    uuid::Uuid::new_v4().as_u128()
}

/// What serde_url_params writes for a map of one entry: the key, `=`, and
/// the value in percent encoding; `None` where it refuses the entry.
pub uninterp spec fn url_param(key: Seq<char>, value: Seq<char>) -> Option<Seq<char>>;

/// Calls `serde_url_params::to_string` on a map that holds the one entry.
/// The result depends on key and value alone.
#[verifier::external_body]
pub(crate) fn encode_url_param(key: &str, value: &str) -> (r: Option<String>)
    ensures
        crate::utils::text::opt_text(r) == url_param(key@, value@),
{
    serde_url_params::to_string(&std::collections::BTreeMap::from([(key, value)])).ok()
}

/// Two decimal digits of a number below 100.
pub open spec fn two_digits(n: int) -> Seq<char> {
    seq![crate::utils::text::digit_char(n / 10), crate::utils::text::digit_char(n % 10)]
}

/// Time of day of an instant given in seconds since the Unix epoch, as
/// hours, minutes and seconds of two digits each, followed by ` GMT`.
pub open spec fn clock_of(secs: i64) -> Seq<char> {
    let of_day = (secs as int) % 86400;
    two_digits(of_day / 3600) + ":"@ + two_digits((of_day % 3600) / 60) + ":"@ + two_digits(
        of_day % 60,
    ) + " GMT"@
}

/// What chrono writes for an instant given in seconds since the Unix
/// epoch, with the pattern `%H:%M:%S GMT`; `None` where chrono cannot
/// represent the instant.
pub uninterp spec fn clock_text(secs: i64) -> Option<Seq<char>>;

/// Calls chrono's `DateTime::from_timestamp` and writes the instant with
/// `format`. The result depends on the number alone; where chrono
/// represents the instant, the text is the time of day in UTC.
#[verifier::external_body]
pub(crate) fn format_clock(secs: i64) -> (r: Option<String>)
    ensures
        crate::utils::text::opt_text(r) == clock_text(secs),
        r matches Some(text) ==> text@ == clock_of(secs),
{
    chrono::DateTime::from_timestamp(secs, 0).map(|d| d.format("%H:%M:%S GMT").to_string())
}

/// The number that tokio-retry's exponential back-off keeps between two
/// delays: the base at first, then multiplied by the base after each
/// delay, staying at the largest `u64` once a product exceeds it.
pub open spec fn backoff_current(base: u64, i: nat) -> u64
    decreases i,
{
    if i == 0 {
        base
    } else if backoff_current(base, (i - 1) as nat) * base > u64::MAX {
        u64::MAX
    } else {
        (backoff_current(base, (i - 1) as nat) * base) as u64
    }
}

/// Delay number `i` of the back-off, in milliseconds: the kept number
/// times the factor, or the largest `u64` where the product exceeds it.
pub open spec fn backoff_delay(base: u64, factor: u64, i: nat) -> u64 {
    if backoff_current(base, i) * factor > u64::MAX {
        u64::MAX
    } else {
        (backoff_current(base, i) * factor) as u64
    }
}

/// Takes the first `count` delays of tokio-retry's
/// `ExponentialBackoff::from_millis(base).factor(factor)`, which sets no
/// longest delay, and converts each to milliseconds.
#[verifier::external_body]
pub(crate) fn backoff_delays(base: u64, factor: u64, count: usize) -> (r: Vec<u64>)
    ensures
        r@.len() == count,
        forall|i: int| 0 <= i < count ==> r@[i] == backoff_delay(base, factor, i as nat),
{
    tokio_retry::strategy::ExponentialBackoff::from_millis(base).factor(factor).take(count).map(
        |d| d.as_millis() as u64,
    ).collect()
}

} // verus!
