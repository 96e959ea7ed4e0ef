//! Decisions around fetching the feed: where to ask, under which quota, which
//! answers to accept, and which cache-validation metadata to keep.
//!
//! The requests themselves, the wait for a permit and the download are the
//! caller's; this module hands it plain values.
use vstd::prelude::*;

verus! {

/// Why a fetch failed.
#[derive(Debug, Clone, Copy, PartialEq, Eq, Structural)]
pub enum FetchError {
    /// The server answered with this status, which is not a success.
    RemoteRejected(u16),
    /// The request or the transfer failed.
    Transport,
    /// The archive lacks a table it must hold.
    MissingMember,
    /// An address that is not a valid URL.
    InvalidUrl,
    /// A quota of zero permits, or a burst of zero.
    InvalidQuota,
}

/// The serialization of the URL that `s` parses to, if it parses.
pub uninterp spec fn url_parsed(s: Seq<char>) -> Option<Seq<char>>;

/// The serialization of `input` resolved against the URL `base`, if both parse.
pub uninterp spec fn url_joined(base: Seq<char>, input: Seq<char>) -> Option<Seq<char>>;

/// Relies on url::Url::parse, and on the URL's serialization.
#[verifier::external_body]
fn parse_url(s: &str) -> (r: Option<String>)
    ensures
        match r {
            Some(u) => url_parsed(s@) == Some(u@),
            None => url_parsed(s@) is None,
        },
{
    match url::Url::parse(s) {
        Ok(u) => Some(u.into()),
        Err(_) => None,
    }
}

/// Whether the URL that `s` parses to has a host; false when it does not parse.
pub uninterp spec fn url_with_host(s: Seq<char>) -> bool;

/// Relies on url::Url::parse and url::Url::has_host.
#[verifier::external_body]
fn url_has_host(s: &str) -> (r: bool)
    ensures
        r == url_with_host(s@),
{
    match url::Url::parse(s) {
        Ok(u) => u.has_host(),
        Err(_) => false,
    }
}

/// Relies on url::Url::join, on a base read by url::Url::parse, and on the result's
/// serialization.
#[verifier::external_body]
fn join_url(base: &str, input: &str) -> (r: Option<String>)
    ensures
        match r {
            Some(u) => url_joined(base@, input@) == Some(u@),
            None => url_joined(base@, input@) is None,
        },
{
    match url::Url::parse(base) {
        Ok(b) => match b.join(input) {
            Ok(u) => Some(u.into()),
            Err(_) => None,
        },
        Err(_) => None,
    }
}

/// The base address of the public transport API.
pub fn default_api_base() -> (r: &'static str)
    ensures
        r@ == "https://api.transport.nsw.gov.au/v1/"@,
{
    "https://api.transport.nsw.gov.au/v1/"
}

/// `s` as a URL, in its normal form; refused unless it parses and has a host, as a
/// request needs one.
pub fn parse_api_base(s: &str) -> (r: Result<String, FetchError>)
    ensures
        match url_parsed(s@) {
            Some(u) => if url_with_host(s@) {
                r matches Ok(x) && x@ == u
            } else {
                r == Err::<String, FetchError>(FetchError::InvalidUrl)
            },
            None => r == Err::<String, FetchError>(FetchError::InvalidUrl),
        },
{
    match parse_url(s) {
        Some(u) => {
            if url_has_host(s) {
                Ok(u)
            } else {
                Err(FetchError::InvalidUrl)
            }
        },
        None => Err(FetchError::InvalidUrl),
    }
}

/// The timetables endpoint under `api_base`.
pub fn timetables_endpoint(api_base: &str) -> (r: Result<String, FetchError>)
    ensures
        match url_joined(api_base@, "publictransport/timetables/"@) {
            Some(u) => r matches Ok(x) && x@ == u,
            None => r == Err::<String, FetchError>(FetchError::InvalidUrl),
        },
{
    match join_url(api_base, "publictransport/timetables/") {
        Some(u) => Ok(u),
        None => Err(FetchError::InvalidUrl),
    }
}

/// The address of the complete GTFS static feed under `api_base`.
pub fn complete_gtfs_endpoint(api_base: &str) -> (r: Result<String, FetchError>)
    ensures
        match url_joined(api_base@, "publictransport/timetables/"@) {
            Some(t) => match url_joined(t, "complete/gtfs"@) {
                Some(u) => r matches Ok(x) && x@ == u,
                None => r == Err::<String, FetchError>(FetchError::InvalidUrl),
            },
            None => r == Err::<String, FetchError>(FetchError::InvalidUrl),
        },
{
    let t = timetables_endpoint(api_base)?;
    match join_url(t.as_str(), "complete/gtfs") {
        Some(u) => Ok(u),
        None => Err(FetchError::InvalidUrl),
    }
}

/// The value of the authorization header that carries the key `key`.
pub fn authorization_value(key: &str) -> (r: String)
    ensures
        r@ == "apikey "@ + key@,
{
    let mut out = String::new();
    out.append("apikey ");
    out.append(key);
    proof {
        assert(out@ =~= "apikey "@ + key@);
    }
    out
}

/// The rate limiter's quota, carried through unopened.
#[verifier::external_type_specification]
#[verifier::external_body]
pub struct ExQuota(governor::Quota);

/// A quota as the rate limiter takes it, with the rate and burst it was made with.
pub struct LimiterQuota {
    quota: governor::Quota,
    per_hour: Ghost<u32>,
    burst: Ghost<u32>,
}

impl LimiterQuota {
    /// Permits an hour.
    pub closed spec fn spec_per_hour(&self) -> u32 {
        self.per_hour@
    }

    /// Permits that may be spent at once.
    pub closed spec fn spec_burst(&self) -> u32 {
        self.burst@
    }

    /// The quota, for the rate limiter.
    pub fn into_governor(self) -> governor::Quota {
        self.quota
    }
}

/// Relies on governor::Quota::per_hour: `n` permits an hour, refilled evenly, and a
/// burst of `n`.
#[verifier::external_body]
fn quota_per_hour(n: u32) -> (r: LimiterQuota)
    requires
        n > 0,
    ensures
        r.spec_per_hour() == n,
        r.spec_burst() == n,
{
    LimiterQuota {
        quota: governor::Quota::per_hour(std::num::NonZeroU32::new(n).unwrap()),
        per_hour: Ghost(n),
        burst: Ghost(n),
    }
}

/// Relies on governor::Quota::allow_burst: the same rate, with a burst of `burst`.
#[verifier::external_body]
fn quota_with_burst(q: LimiterQuota, burst: u32) -> (r: LimiterQuota)
    requires
        burst > 0,
    ensures
        r.spec_per_hour() == q.spec_per_hour(),
        r.spec_burst() == burst,
{
    LimiterQuota {
        quota: q.quota.allow_burst(std::num::NonZeroU32::new(burst).unwrap()),
        per_hour: q.per_hour,
        burst: Ghost(burst),
    }
}

/// A request quota: permits an hour, and how many may be spent at once.
#[derive(Debug, Clone, Copy)]
pub struct RateQuota {
    per_hour: u32,
    burst: u32,
}

impl RateQuota {
    #[verifier::type_invariant]
    spec fn positive(&self) -> bool {
        self.per_hour > 0 && self.burst > 0
    }

    pub closed spec fn spec_per_hour(&self) -> u32 {
        self.per_hour
    }

    pub closed spec fn spec_burst(&self) -> u32 {
        self.burst
    }

    /// A quota, refused when either number is zero.
    pub fn new(per_hour: u32, burst: u32) -> (r: Result<RateQuota, FetchError>)
        ensures
            per_hour > 0 && burst > 0 <==> r is Ok,
            r matches Ok(q) ==> q.spec_per_hour() == per_hour && q.spec_burst() == burst,
            r matches Err(e) ==> e == FetchError::InvalidQuota,
    {
        if per_hour == 0 || burst == 0 {
            Err(FetchError::InvalidQuota)
        } else {
            Ok(RateQuota { per_hour, burst })
        }
    }

    /// The quota of the public transport API: 2500 requests an hour, 5 at once.
    pub fn transport_nsw() -> (r: RateQuota)
        ensures
            r.spec_per_hour() == 2500,
            r.spec_burst() == 5,
    {
        RateQuota { per_hour: 2500, burst: 5 }
    }

    pub fn per_hour(&self) -> (r: u32)
        ensures
            r == self.spec_per_hour(),
            r > 0,
    {
        proof {
            use_type_invariant(self);
        }
        self.per_hour
    }

    pub fn burst(&self) -> (r: u32)
        ensures
            r == self.spec_burst(),
            r > 0,
    {
        proof {
            use_type_invariant(self);
        }
        self.burst
    }

    /// The quota as the rate limiter takes it: the same rate and burst.
    pub fn to_governor(&self) -> (r: LimiterQuota)
        ensures
            r.spec_per_hour() == self.spec_per_hour(),
            r.spec_burst() == self.spec_burst(),
    {
        proof {
            use_type_invariant(self);
        }
        quota_with_burst(quota_per_hour(self.per_hour), self.burst)
    }
}

/// The quota that the client's rate limiter runs on: 2500 permits an hour, 5 at once.
pub fn transport_nsw_limiter_quota() -> (r: LimiterQuota)
    ensures
        r.spec_per_hour() == 2500,
        r.spec_burst() == 5,
{
    RateQuota::transport_nsw().to_governor()
}

/// The cache-validation metadata of an answer.
#[derive(Debug, Clone)]
pub struct CacheValidators {
    pub etag: Option<String>,
    pub last_modified: Option<String>,
}

/// Accepts an answer with a success status, keeping its metadata; any other status
/// is refused.
pub fn accept_response(status: u16, etag: Option<String>, last_modified: Option<String>) -> (r:
    Result<CacheValidators, FetchError>)
    ensures
        200 <= status <= 299 <==> r is Ok,
        r matches Ok(v) ==> v.etag == etag && v.last_modified == last_modified,
        r matches Err(e) ==> e == FetchError::RemoteRejected(status),
{
    if 200 <= status && status <= 299 {
        Ok(CacheValidators { etag, last_modified })
    } else {
        Err(FetchError::RemoteRejected(status))
    }
}

/// Where a fetch stands.
#[derive(Debug)]
pub enum FetchState {
    /// Nothing done yet.
    Idle,
    /// Waiting for the rate limiter to grant a permit.
    AwaitingPermit,
    /// The request is out.
    AwaitingResponse,
    /// The body is being written to local storage.
    Storing(CacheValidators),
    /// The payload is stored and handed over.
    Finished,
    /// The fetch failed; nothing more happens.
    Failed(FetchError),
}

/// What the caller reports back after carrying out an action.
#[derive(Debug)]
pub enum FetchEvent {
    /// The caller wants the resource.
    Start,
    /// The rate limiter granted a permit.
    PermitGranted,
    /// The server answered.
    Responded { status: u16, etag: Option<String>, last_modified: Option<String> },
    /// The request or the transfer failed.
    TransportFailed,
    /// The whole body is in local storage.
    Stored,
}

/// What the caller does next.
#[derive(Debug)]
pub enum FetchAction {
    /// Wait for one permit of the rate limiter.
    AcquirePermit,
    /// Send the request.
    SendRequest,
    /// Stream the body to local storage.
    StoreBody,
    /// Hand over the stored payload with this metadata.
    Deliver(CacheValidators),
    /// Give up with this error.
    Fail(FetchError),
    /// The event does not fit the state; nothing to do.
    Ignore,
}

/// One step of a fetch: a permit before the one request, then the answer decides.
pub open spec fn fetch_next(s: FetchState, e: FetchEvent) -> (FetchState, FetchAction) {
    match (s, e) {
        (FetchState::Idle, FetchEvent::Start) => (FetchState::AwaitingPermit, FetchAction::AcquirePermit),
        (FetchState::AwaitingPermit, FetchEvent::PermitGranted) => (
            FetchState::AwaitingResponse,
            FetchAction::SendRequest,
        ),
        (FetchState::AwaitingResponse, FetchEvent::Responded { status, etag, last_modified }) => {
            if 200 <= status <= 299 {
                (
                    FetchState::Storing(CacheValidators { etag, last_modified }),
                    FetchAction::StoreBody,
                )
            } else {
                (
                    FetchState::Failed(FetchError::RemoteRejected(status)),
                    FetchAction::Fail(FetchError::RemoteRejected(status)),
                )
            }
        },
        (FetchState::AwaitingResponse, FetchEvent::TransportFailed) => (
            FetchState::Failed(FetchError::Transport),
            FetchAction::Fail(FetchError::Transport),
        ),
        (FetchState::Storing(_), FetchEvent::TransportFailed) => (
            FetchState::Failed(FetchError::Transport),
            FetchAction::Fail(FetchError::Transport),
        ),
        (FetchState::Storing(v), FetchEvent::Stored) => (FetchState::Finished, FetchAction::Deliver(v)),
        (s, _) => (s, FetchAction::Ignore),
    }
}

/// Takes one step of a fetch.
pub fn fetch_step(state: FetchState, event: FetchEvent) -> (r: (FetchState, FetchAction))
    ensures
        r == fetch_next(state, event),
{
    match (state, event) {
        (FetchState::Idle, FetchEvent::Start) => (FetchState::AwaitingPermit, FetchAction::AcquirePermit),
        (FetchState::AwaitingPermit, FetchEvent::PermitGranted) => (
            FetchState::AwaitingResponse,
            FetchAction::SendRequest,
        ),
        (FetchState::AwaitingResponse, FetchEvent::Responded { status, etag, last_modified }) => {
            match accept_response(status, etag, last_modified) {
                Ok(v) => (FetchState::Storing(v), FetchAction::StoreBody),
                Err(e) => (FetchState::Failed(e), FetchAction::Fail(e)),
            }
        },
        (FetchState::AwaitingResponse, FetchEvent::TransportFailed) => (
            FetchState::Failed(FetchError::Transport),
            FetchAction::Fail(FetchError::Transport),
        ),
        (FetchState::Storing(_), FetchEvent::TransportFailed) => (
            FetchState::Failed(FetchError::Transport),
            FetchAction::Fail(FetchError::Transport),
        ),
        (FetchState::Storing(v), FetchEvent::Stored) => (FetchState::Finished, FetchAction::Deliver(v)),
        (s, _) => (s, FetchAction::Ignore),
    }
}

/// A request is sent only on the permit granted for it: `SendRequest` comes only
/// from a fetch waiting for a permit that has just been granted, and leaves it
/// waiting for the answer.
pub proof fn lemma_request_follows_permit(s: FetchState, e: FetchEvent)
    ensures
        fetch_next(s, e).1 is SendRequest ==> s is AwaitingPermit && e is PermitGranted
            && fetch_next(s, e).0 is AwaitingResponse,
{
}

/// One permit, one request: once the request is out, no later step of the same
/// fetch sends another or asks for another permit.
pub proof fn lemma_one_request_per_fetch(s: FetchState, e: FetchEvent)
    requires
        !(s is Idle),
        !(s is AwaitingPermit),
    ensures
        !(fetch_next(s, e).1 is SendRequest),
        !(fetch_next(s, e).1 is AcquirePermit),
        !(fetch_next(s, e).0 is Idle),
        !(fetch_next(s, e).0 is AwaitingPermit),
{
}

/// A fetched resource with the cache-validation metadata that came with it.
#[derive(Debug)]
pub enum ResourceWithValidity<T> {
    ETagAndModification { value: T, etag: String, last_modified: String },
    ETag((T, String)),
    LastModified((T, String)),
    Missing(T),
}

impl<T> ResourceWithValidity<T> {
    pub open spec fn spec_value(&self) -> T {
        match self {
            ResourceWithValidity::ETagAndModification { value, .. } => *value,
            ResourceWithValidity::ETag((v, _)) => *v,
            ResourceWithValidity::LastModified((v, _)) => *v,
            ResourceWithValidity::Missing(v) => *v,
        }
    }

    pub open spec fn spec_etag(&self) -> Option<String> {
        match self {
            ResourceWithValidity::ETagAndModification { etag, .. } => Some(*etag),
            ResourceWithValidity::ETag((_, e)) => Some(*e),
            _ => None,
        }
    }

    pub open spec fn spec_last_modified(&self) -> Option<String> {
        match self {
            ResourceWithValidity::ETagAndModification { last_modified, .. } => Some(
                *last_modified,
            ),
            ResourceWithValidity::LastModified((_, m)) => Some(*m),
            _ => None,
        }
    }

    /// `value` tagged with whichever of the two validators are present.
    pub fn with_validity(value: T, validators: CacheValidators) -> (r: ResourceWithValidity<T>)
        ensures
            r.spec_value() == value,
            r.spec_etag() == validators.etag,
            r.spec_last_modified() == validators.last_modified,
    {
        match (validators.etag, validators.last_modified) {
            (Some(etag), Some(last_modified)) => ResourceWithValidity::ETagAndModification {
                value,
                etag,
                last_modified,
            },
            (Some(etag), None) => ResourceWithValidity::ETag((value, etag)),
            (None, Some(last_modified)) => ResourceWithValidity::LastModified(
                (value, last_modified),
            ),
            (None, None) => ResourceWithValidity::Missing(value),
        }
    }

    /// The resource, without its metadata.
    pub fn into_value(self) -> (r: T)
        ensures
            r == self.spec_value(),
    {
        match self {
            ResourceWithValidity::ETagAndModification { value, .. } => value,
            ResourceWithValidity::ETag((v, _)) => v,
            ResourceWithValidity::LastModified((v, _)) => v,
            ResourceWithValidity::Missing(v) => v,
        }
    }
}

} // verus!
