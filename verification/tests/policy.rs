use splitdns::cache::DnsCache;
use splitdns::cidr::IpManager;
use splitdns::dns::{IpAddress, Message, QueryKind, Question, RData, Record, ResponseCode};
use splitdns::handler::{HandleOutcome, RequestHandler, Upstream, UpstreamError};
use splitdns::registry::ResolverManager;

fn request(id: u16, name: &str, qtype: QueryKind) -> Message {
    Message {
        id,
        response: false,
        authoritative: false,
        recursion_desired: true,
        recursion_available: false,
        rcode: ResponseCode::NoError,
        queries: vec![Question { name: name.to_string(), qtype }],
        answers: vec![],
    }
}

fn a_record(name: &str, ttl: u32, addr: u32) -> Record {
    Record { name: name.to_string(), ttl, rdata: RData::A(addr) }
}

fn handler() -> RequestHandler {
    let registry = ResolverManager::new(&vec![(
        "10.0.0.53".to_string(),
        vec!["*.corp.internal.".to_string()],
    )]);
    let mut cidrs = IpManager::new();
    cidrs.load_cidrs(&vec!["1.0.0.0/8".to_string()]);
    RequestHandler::new(
        registry,
        cidrs,
        DnsCache::new(),
        vec!["ads.example.com.".to_string()],
        vec![("router.lan.".to_string(), IpAddress::V4(0x0A000001))],
    )
}

fn done(outcome: HandleOutcome) -> Message {
    match outcome {
        HandleOutcome::Done(m) => m,
        HandleOutcome::Lookup(_) => panic!("expected a finished response"),
    }
}

#[test]
fn empty_question_is_formerr() {
    let mut h = handler();
    let req = Message {
        id: 9,
        response: false,
        authoritative: false,
        recursion_desired: true,
        recursion_available: false,
        rcode: ResponseCode::NoError,
        queries: vec![],
        answers: vec![],
    };
    let resp = done(h.handle_request(&req, 0));
    assert_eq!(resp.rcode, ResponseCode::FormErr);
    assert!(resp.answers.is_empty());
    assert_eq!(resp.id, 9);
}

#[test]
fn blacklisted_name_is_nxdomain_with_no_answers() {
    let mut h = handler();
    let resp = done(h.handle_request(&request(1, "Ads.Example.Com", QueryKind::A), 0));
    assert_eq!(resp.rcode, ResponseCode::NXDomain);
    assert!(resp.answers.is_empty());
    assert_eq!(resp.id, 1);
}

#[test]
fn blacklist_wins_over_pin_and_cache() {
    let registry = ResolverManager::new(&vec![]);
    let cidrs = IpManager::new();
    let mut cache = DnsCache::new();
    cache.set("both.test.".to_string(), vec![a_record("both.test.", 600, 5)], 0);
    let mut h = RequestHandler::new(
        registry,
        cidrs,
        cache,
        vec!["both.test.".to_string()],
        vec![("both.test.".to_string(), IpAddress::V4(7))],
    );
    let resp = done(h.handle_request(&request(2, "both.test.", QueryKind::A), 0));
    assert_eq!(resp.rcode, ResponseCode::NXDomain);
    assert!(resp.answers.is_empty());
}

#[test]
fn pinned_name_answers_synthetically() {
    let mut h = handler();
    let resp = done(h.handle_request(&request(3, "router.lan.", QueryKind::A), 0));
    assert_eq!(resp.rcode, ResponseCode::NoError);
    assert_eq!(resp.answers, vec![a_record("router.lan.", 300, 0x0A000001)]);
    assert_eq!(resp.id, 3);
    assert!(resp.response);
    assert!(resp.recursion_desired);
    assert!(resp.recursion_available);
    assert!(!resp.authoritative);
    assert_eq!(resp.queries, vec![Question { name: "router.lan.".to_string(), qtype: QueryKind::A }]);
}

#[test]
fn pin_of_wrong_family_answers_null_record() {
    let mut h = handler();
    let resp = done(h.handle_request(&request(4, "router.lan.", QueryKind::Aaaa), 0));
    assert_eq!(resp.rcode, ResponseCode::NoError);
    assert_eq!(
        resp.answers,
        vec![Record {
            name: "router.lan.".to_string(),
            ttl: 300,
            rdata: RData::Null(vec![]),
        }]
    );
}

#[test]
fn routed_name_goes_to_its_upstream_and_is_not_cached() {
    let mut h = handler();
    let req = request(5, "host1.corp.internal.", QueryKind::A);
    match h.handle_request(&req, 0) {
        HandleOutcome::Lookup(Upstream::Specific(0)) => (),
        other => panic!("expected the routed upstream, got {:?}", fmt(&other)),
    }
    let records = vec![a_record("host1.corp.internal.", 60, 0x0A000002)];
    let resp = h.on_specific_response(&req, Ok(records.clone()));
    assert_eq!(resp.rcode, ResponseCode::NoError);
    assert_eq!(resp.answers, records);
    // nothing was cached: the same query is routed again
    match h.handle_request(&req, 1) {
        HandleOutcome::Lookup(Upstream::Specific(0)) => (),
        _ => panic!("the routed answer must not be cached"),
    }
}

fn fmt(o: &HandleOutcome) -> String {
    match o {
        HandleOutcome::Done(m) => format!("Done(rcode {:?})", m.rcode),
        HandleOutcome::Lookup(u) => format!("Lookup({:?})", u),
    }
}

#[test]
fn domestic_answer_is_kept_and_cached() {
    let mut h = handler();
    let req = request(6, "domestic.test.", QueryKind::A);
    match h.handle_request(&req, 100) {
        HandleOutcome::Lookup(Upstream::Domestic) => (),
        other => panic!("expected the domestic leg, got {}", fmt(&other)),
    }
    // 1.2.3.4 lies in 1.0.0.0/8
    let records = vec![a_record("domestic.test.", 300, 0x01020304)];
    let resp = done(h.on_domestic_response(&req, Ok(records.clone()), 100));
    assert_eq!(resp.rcode, ResponseCode::NoError);
    assert_eq!(resp.answers, records);
    // a second query within the ttl is a cache hit
    let resp2 = done(h.handle_request(&req, 300));
    assert_eq!(resp2.rcode, ResponseCode::NoError);
    assert_eq!(resp2.answers, records);
    // and past the deadline it goes back to the domestic leg
    match h.handle_request(&req, 401) {
        HandleOutcome::Lookup(Upstream::Domestic) => (),
        other => panic!("expected a miss past the deadline, got {}", fmt(&other)),
    }
}

#[test]
fn foreign_answer_is_kept_and_cached_after_retry() {
    let mut h = handler();
    let req = request(7, "foreign.test.", QueryKind::A);
    match h.handle_request(&req, 0) {
        HandleOutcome::Lookup(Upstream::Domestic) => (),
        other => panic!("expected the domestic leg, got {}", fmt(&other)),
    }
    // 8.8.8.8 is outside the set: retry with the foreign leg
    let domestic = vec![a_record("foreign.test.", 300, 0x08080808)];
    match h.on_domestic_response(&req, Ok(domestic), 0) {
        HandleOutcome::Lookup(Upstream::Foreign) => (),
        other => panic!("expected the foreign leg, got {}", fmt(&other)),
    }
    let foreign = vec![a_record("foreign.test.", 300, 0x08080404)];
    let resp = h.on_foreign_response(&req, Ok(foreign.clone()), 0);
    assert_eq!(resp.rcode, ResponseCode::NoError);
    assert_eq!(resp.answers, foreign);
    // the foreign answer is what the cache now serves
    let resp2 = done(h.handle_request(&req, 100));
    assert_eq!(resp2.answers, foreign);
}

#[test]
fn empty_domestic_answer_falls_through_to_foreign() {
    let mut h = handler();
    let req = request(8, "empty.test.", QueryKind::A);
    h.handle_request(&req, 0);
    match h.on_domestic_response(&req, Ok(vec![]), 0) {
        HandleOutcome::Lookup(Upstream::Foreign) => (),
        other => panic!("an empty answer is not domestic, got {}", fmt(&other)),
    }
}

#[test]
fn upstream_errors_are_servfail_and_never_cached() {
    let mut h = handler();
    let req = request(10, "err.test.", QueryKind::A);
    h.handle_request(&req, 0);
    let resp = done(h.on_domestic_response(&req, Err(UpstreamError), 0));
    assert_eq!(resp.rcode, ResponseCode::ServFail);
    assert!(resp.answers.is_empty());
    assert_eq!(resp.id, 10);
    // nothing was cached
    match h.handle_request(&req, 0) {
        HandleOutcome::Lookup(Upstream::Domestic) => (),
        other => panic!("a failed lookup must not be cached, got {}", fmt(&other)),
    }
    let resp2 = h.on_foreign_response(&req, Err(UpstreamError), 0);
    assert_eq!(resp2.rcode, ResponseCode::ServFail);
    assert!(resp2.answers.is_empty());
    let resp3 = h.on_specific_response(&req, Err(UpstreamError));
    assert_eq!(resp3.rcode, ResponseCode::ServFail);
    assert!(resp3.answers.is_empty());
}

#[test]
fn query_name_is_normalized_against_cache_and_pins() {
    let mut h = handler();
    // mixed case and no trailing dot still hits the pin table
    let resp = done(h.handle_request(&request(11, "Router.Lan", QueryKind::A), 0));
    assert_eq!(resp.rcode, ResponseCode::NoError);
    assert_eq!(resp.answers, vec![a_record("router.lan.", 300, 0x0A000001)]);
}
