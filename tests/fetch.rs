use gtfs_extract::fetch::{
    accept_response, authorization_value, complete_gtfs_endpoint, default_api_base, fetch_step, parse_api_base,
    timetables_endpoint, transport_nsw_limiter_quota, CacheValidators, FetchAction, FetchError, FetchEvent, FetchState, RateQuota,
    ResourceWithValidity,
};

#[test]
fn endpoint_is_joined_under_the_base() {
    assert_eq!(
        complete_gtfs_endpoint(default_api_base()).unwrap(),
        "https://api.transport.nsw.gov.au/v1/publictransport/timetables/complete/gtfs"
    );
    assert_eq!(
        timetables_endpoint("https://example.org/api/").unwrap(),
        "https://example.org/api/publictransport/timetables/"
    );
    assert_eq!(complete_gtfs_endpoint("not a url"), Err(FetchError::InvalidUrl));
}

#[test]
fn api_base_is_normalised() {
    assert_eq!(parse_api_base("https://Example.org").unwrap(), "https://example.org/");
    assert_eq!(parse_api_base("::"), Err(FetchError::InvalidUrl));
    assert_eq!(parse_api_base("mailto:someone@example.org"), Err(FetchError::InvalidUrl));
    assert_eq!(parse_api_base("data:text/plain,feed"), Err(FetchError::InvalidUrl));
}

#[test]
fn authorization_carries_the_key() {
    assert_eq!(authorization_value("SECRET-REDACTED"), "apikey SECRET-REDACTED");
}

#[test]
fn only_success_statuses_are_accepted() {
    let v = accept_response(200, Some("\"x\"".to_string()), None).unwrap();
    assert_eq!(v.etag.as_deref(), Some("\"x\""));
    assert_eq!(v.last_modified, None);
    assert!(accept_response(299, None, None).is_ok());
    assert!(matches!(accept_response(404, None, None), Err(FetchError::RemoteRejected(404))));
    assert!(matches!(accept_response(301, None, None), Err(FetchError::RemoteRejected(301))));
    assert!(matches!(accept_response(503, None, None), Err(FetchError::RemoteRejected(503))));
}

fn validators(etag: Option<&str>, last_modified: Option<&str>) -> CacheValidators {
    CacheValidators { etag: etag.map(String::from), last_modified: last_modified.map(String::from) }
}

#[test]
fn validity_follows_the_metadata() {
    let r = ResourceWithValidity::with_validity(1, validators(Some("e"), Some("m")));
    assert!(matches!(r, ResourceWithValidity::ETagAndModification { value: 1, ref etag, ref last_modified } if etag == "e" && last_modified == "m"));
    let r = ResourceWithValidity::with_validity(2, validators(Some("e"), None));
    assert!(matches!(r, ResourceWithValidity::ETag((2, ref e)) if e == "e"));
    let r = ResourceWithValidity::with_validity(3, validators(None, Some("m")));
    assert!(matches!(r, ResourceWithValidity::LastModified((3, ref m)) if m == "m"));
    let r = ResourceWithValidity::with_validity(4, validators(None, None));
    assert!(matches!(r, ResourceWithValidity::Missing(4)));
    assert_eq!(r.into_value(), 4);
}

#[test]
fn quota_must_be_positive() {
    assert!(matches!(RateQuota::new(0, 5), Err(FetchError::InvalidQuota)));
    assert!(matches!(RateQuota::new(10, 0), Err(FetchError::InvalidQuota)));
    let q = RateQuota::new(10, 2).unwrap();
    assert_eq!((q.per_hour(), q.burst()), (10, 2));
    let g = q.to_governor().into_governor();
    assert_eq!(g.burst_size().get(), 2);
    assert_eq!(g.replenish_interval(), std::time::Duration::from_secs(360));
}

#[test]
fn calls_beyond_the_burst_must_wait() {
    let quota = RateQuota::transport_nsw();
    assert_eq!((quota.per_hour(), quota.burst()), (2500, 5));
    let g = transport_nsw_limiter_quota().into_governor();
    assert_eq!(g.burst_size().get(), 5);
    assert_eq!(g.replenish_interval(), std::time::Duration::from_millis(1440));
    let limiter = governor::RateLimiter::direct(g);
    for _ in 0..5 {
        assert!(limiter.check().is_ok());
    }
    assert!(limiter.check().is_err());
}

#[test]
fn fetch_waits_for_a_permit_then_stores_and_delivers() {
    let (s, a) = fetch_step(FetchState::Idle, FetchEvent::Start);
    assert!(matches!(a, FetchAction::AcquirePermit));
    let (s, a) = fetch_step(s, FetchEvent::PermitGranted);
    assert!(matches!(a, FetchAction::SendRequest));
    let responded = FetchEvent::Responded { status: 200, etag: Some("e".to_string()), last_modified: None };
    let (s, a) = fetch_step(s, responded);
    assert!(matches!(a, FetchAction::StoreBody));
    let (s, a) = fetch_step(s, FetchEvent::Stored);
    assert!(matches!(s, FetchState::Finished));
    match a {
        FetchAction::Deliver(v) => {
            assert_eq!(v.etag.as_deref(), Some("e"));
            assert_eq!(v.last_modified, None);
        }
        other => panic!("unexpected action {:?}", other),
    }
}

#[test]
fn fetch_fails_on_a_rejected_status() {
    let (s, _) = fetch_step(FetchState::AwaitingPermit, FetchEvent::PermitGranted);
    let (s, a) = fetch_step(s, FetchEvent::Responded { status: 429, etag: None, last_modified: None });
    assert!(matches!(a, FetchAction::Fail(FetchError::RemoteRejected(429))));
    assert!(matches!(s, FetchState::Failed(FetchError::RemoteRejected(429))));
    let (_, a) = fetch_step(s, FetchEvent::PermitGranted);
    assert!(matches!(a, FetchAction::Ignore));
}

#[test]
fn fetch_fails_when_the_transfer_breaks() {
    let storing = FetchState::Storing(CacheValidators { etag: None, last_modified: None });
    let (_, a) = fetch_step(storing, FetchEvent::TransportFailed);
    assert!(matches!(a, FetchAction::Fail(FetchError::Transport)));
    let (_, a) = fetch_step(FetchState::AwaitingResponse, FetchEvent::TransportFailed);
    assert!(matches!(a, FetchAction::Fail(FetchError::Transport)));
}

#[test]
fn no_request_without_a_permit() {
    let (s, a) = fetch_step(FetchState::Idle, FetchEvent::PermitGranted);
    assert!(matches!(a, FetchAction::Ignore));
    assert!(matches!(s, FetchState::Idle));
    let (_, a) = fetch_step(FetchState::AwaitingResponse, FetchEvent::PermitGranted);
    assert!(matches!(a, FetchAction::Ignore));
}
