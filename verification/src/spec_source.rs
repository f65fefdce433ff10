//! Where the OpenAPI document comes from: remote-first, cached, with the
//! embedded copy as the last resort.
//!
//! 1. If the cache is fresh → use the cache (zero latency)
//! 2. Try fetching from the live API → cache it and return it
//! 3. A stale cache is better than the embedded copy
//! 4. Embedded fallback
//!
//! The file system, the clock and the network are reached by the caller; this
//! module decides.
use vstd::prelude::*;
use crate::path::{join_relative, join_relative_exec};

verus! {

/// Cache time to live: refetch after one hour.
pub const CACHE_TTL_SECS: u64 = 3600;

/// The home directory: `HOME`, else `USERPROFILE`, when set.
pub open spec fn home_dir(home: Option<Seq<char>>, user_profile: Option<Seq<char>>) -> Option<Seq<char>> {
    match home {
        Some(h) => Some(h),
        None => user_profile,
    }
}

/// The cache directory `<home>/.ironprose`, for the home directory taken from
/// `HOME`, else `USERPROFILE`; `None` when neither is set.
pub fn cache_dir(home: Option<&str>, user_profile: Option<&str>) -> (r: Option<String>)
    ensures
        match home_dir(
            match home {
                Some(h) => Some(h@),
                None => None,
            },
            match user_profile {
                Some(u) => Some(u@),
                None => None,
            },
        ) {
            Some(h) => r matches Some(d) && d@ == join_relative(h, ".ironprose"@),
            None => r is None,
        },
{
    match home {
        Some(h) => Some(join_relative_exec(h, ".ironprose")),
        None => match user_profile {
            Some(u) => Some(join_relative_exec(u, ".ironprose")),
            None => None,
        },
    }
}

/// Cache file location: `<cache directory>/openapi.json`, when there is a
/// cache directory.
pub fn cache_path(cache_dir: Option<&str>) -> (r: Option<String>)
    ensures
        match cache_dir {
            Some(d) => r matches Some(p) && p@ == join_relative(d@, "openapi.json"@),
            None => r is None,
        },
{
    match cache_dir {
        Some(d) => Some(join_relative_exec(d, "openapi.json")),
        None => None,
    }
}

/// Whether a cache of the given age (in whole seconds since it was last
/// written; `None` when its time is unknown or in the future) is fresh: it is
/// younger than the time to live.
pub fn cache_is_fresh(age_secs: Option<u64>) -> (r: bool)
    ensures
        r == (age_secs matches Some(a) && a < CACHE_TTL_SECS),
{
    match age_secs {
        Some(a) => a < CACHE_TTL_SECS,
        None => false,
    }
}

/// The URL of the live API's OpenAPI document.
pub fn openapi_url(api_base: &str) -> (r: String)
    ensures
        r@ == api_base@ + "/api/openapi.json"@,
{
    let mut url = String::from_str(api_base);
    url.append("/api/openapi.json");
    url
}

/// Whether a reply of the live API with this status carries the document.
pub fn fetch_succeeded(status: u16) -> (r: bool)
    ensures
        r == (200 <= status && status <= 299),
{
    200 <= status && status <= 299
}

/// The next source of the OpenAPI document to try.
#[derive(Debug)]
pub enum SpecStep {
    /// Read the cache, which is fresh.
    FreshCache,
    /// Fetch from the live API; on success the document is also written to the cache.
    Remote,
    /// Read the cache, however old.
    StaleCache,
    /// Use the embedded copy, which always succeeds.
    Embedded,
}

/// The first source to try.
pub fn first_spec_step(cache_fresh: bool) -> (r: SpecStep)
    ensures
        cache_fresh ==> r is FreshCache,
        !cache_fresh ==> r is Remote,
{
    if cache_fresh {
        SpecStep::FreshCache
    } else {
        SpecStep::Remote
    }
}

/// The source to try after `step` gave nothing.
pub fn next_spec_step(step: SpecStep) -> (r: SpecStep)
    ensures
        step is FreshCache ==> r is Remote,
        step is Remote ==> r is StaleCache,
        step is StaleCache ==> r is Embedded,
        step is Embedded ==> r is Embedded,
{
    match step {
        SpecStep::FreshCache => SpecStep::Remote,
        SpecStep::Remote => SpecStep::StaleCache,
        SpecStep::StaleCache => SpecStep::Embedded,
        SpecStep::Embedded => SpecStep::Embedded,
    }
}

/// Whether a document obtained at `step` is written to the cache.
pub fn caches_result(step: &SpecStep) -> (r: bool)
    ensures
        r == (*step is Remote),
{
    match step {
        SpecStep::Remote => true,
        _ => false,
    }
}

} // verus!
