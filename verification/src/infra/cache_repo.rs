//! Decisions of the analysis cache: when an entry has expired and when the cache is
//! over its size limit. The entries themselves are stored by the application (SQLite),
//! under the keys of `crate::digest::cache_key`.
use vstd::prelude::*;

verus! {

/// The instant of an RFC 3339 timestamp as (seconds since the epoch, nanoseconds), or
/// `None` when the text is not one.
pub uninterp spec fn rfc3339_instant(text: Seq<char>) -> Option<(i64, u32)>;

/// `chrono::DateTime::parse_from_rfc3339`, read as `timestamp()` and
/// `timestamp_subsec_nanos()`; `None` for a text that does not parse. The instant is
/// named, not described.
#[verifier::external_body]
fn parse_rfc3339(text: &str) -> (res: Option<(i64, u32)>)
    ensures
        res == rfc3339_instant(text@),
{
    match chrono::DateTime::parse_from_rfc3339(text) {
        Ok(dt) => Some((dt.timestamp(), dt.timestamp_subsec_nanos())),
        Err(_) => None,
    }
}

pub open spec fn instant_before(a: (i64, u32), b: (i64, u32)) -> bool {
    a.0 < b.0 || (a.0 == b.0 && a.1 < b.1)
}

/// An entry has expired when its expiry is before now; an expiry that does not read as a
/// timestamp counts as expired.
pub open spec fn expired(expires_at: Seq<char>, now: (i64, u32)) -> bool {
    match rfc3339_instant(expires_at) {
        Some(t) => instant_before(t, now),
        None => true,
    }
}

pub fn is_expired(expires_at: &str, now: (i64, u32)) -> (b: bool)
    ensures
        b == expired(expires_at@, now),
{
    match parse_rfc3339(expires_at) {
        Some(t) => t.0 < now.0 || (t.0 == now.0 && t.1 < now.1),
        None => true,
    }
}

/// The size of the database file: pages times page size, 0 for a negative count and the
/// largest value when the product does not fit.
pub fn database_size_bytes(page_count: i64, page_size: i64) -> (n: u64)
    ensures
        n == if page_count <= 0 || page_size <= 0 { 0 } else if page_count * page_size > u64::MAX { u64::MAX as int } else { page_count * page_size },
{
    if page_count <= 0 || page_size <= 0 {
        0
    } else {
        match (page_count as u64).checked_mul(page_size as u64) {
            Some(n) => n,
            None => u64::MAX,
        }
    }
}

/// The cache is within its limit when its size is at most the limit in MiB.
pub fn within_size_limit(size_bytes: u64, max_size_mb: u64) -> (b: bool)
    ensures
        b == (size_bytes <= max_size_mb * 1048576),
{
    match max_size_mb.checked_mul(1048576) {
        Some(limit) => size_bytes <= limit,
        None => true,
    }
}

} // verus!
