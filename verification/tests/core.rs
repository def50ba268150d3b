use splitdns::cache::DnsCache;
use splitdns::cidr::IpManager;
use splitdns::config::Config;
use splitdns::dns::{IpAddress, Message, QueryKind, Question, RData, Record, ResponseCode};
use splitdns::names::normalize_name;
use splitdns::registry::ResolverManager;

fn a_record(name: &str, ttl: u32, addr: u32) -> Record {
    Record { name: name.to_string(), ttl, rdata: RData::A(addr) }
}

#[test]
fn normalize_lowercases_and_appends_dot() {
    assert_eq!(normalize_name("ExAmPle.COM"), "example.com.");
    assert_eq!(normalize_name("already.done."), "already.done.");
    assert_eq!(normalize_name(""), ".");
}

#[test]
fn ensure_trailing_dot_appends_once() {
    assert_eq!(Config::ensure_trailing_dot("abc"), "abc.");
    assert_eq!(Config::ensure_trailing_dot("abc."), "abc.");
    assert_eq!(Config::ensure_trailing_dot(""), ".");
    assert_eq!(Config::ensure_trailing_dot("MiXed"), "MiXed.");
}

#[test]
fn config_normalize_touches_only_domains() {
    let c = Config {
        server_port: 53,
        domestic_dns: vec!["114.114.114.114".to_string()],
        foreign_dns: vec!["8.8.8.8".to_string()],
        blacklist: vec!["Ads.Example.com".to_string()],
        domain_specific_dns: vec![(
            "10.0.0.53".to_string(),
            vec!["*.Corp.Internal".to_string(), "Host.Corp".to_string()],
        )],
        custom_domain_ip: vec![("Router.LAN".to_string(), "10.0.0.1".to_string())],
    };
    let n = c.normalize();
    assert_eq!(n.server_port, 53);
    assert_eq!(n.domestic_dns, vec!["114.114.114.114".to_string()]);
    assert_eq!(n.blacklist, vec!["ads.example.com.".to_string()]);
    assert_eq!(n.domain_specific_dns[0].0, "10.0.0.53");
    assert_eq!(
        n.domain_specific_dns[0].1,
        vec!["*.corp.internal.".to_string(), "host.corp.".to_string()]
    );
    assert_eq!(n.custom_domain_ip[0].0, "router.lan.");
    assert_eq!(n.custom_domain_ip[0].1, "10.0.0.1");
}

#[test]
fn cache_round_trip_until_deadline() {
    let mut cache = DnsCache::new();
    let records = vec![a_record("a.test.", 60, 0x01020304), a_record("a.test.", 120, 0x01020305)];
    cache.set("a.test.".to_string(), records.clone(), 1000);
    // lifetime is the least ttl: 60 seconds
    assert_eq!(cache.get(&"a.test.".to_string(), 1000), Some(records.clone()));
    assert_eq!(cache.get(&"a.test.".to_string(), 1060), Some(records.clone()));
    assert_eq!(cache.get(&"a.test.".to_string(), 1061), None);
    // the expired entry was removed by the read
    assert_eq!(cache.get(&"a.test.".to_string(), 1000), None);
}

#[test]
fn cache_empty_set_is_noop() {
    let mut cache = DnsCache::new();
    cache.set("b.test.".to_string(), vec![], 5);
    assert_eq!(cache.get(&"b.test.".to_string(), 5), None);
}

#[test]
fn cache_miss_on_other_name() {
    let mut cache = DnsCache::new();
    cache.set("a.test.".to_string(), vec![a_record("a.test.", 60, 1)], 0);
    assert_eq!(cache.get(&"b.test.".to_string(), 0), None);
}

#[test]
fn cidr_membership_is_per_prefix() {
    let mut m = IpManager::new();
    m.load_cidrs(&vec![
        "1.0.0.0/8".to_string(),
        "not a cidr".to_string(),
        "".to_string(),
        "2001:db8::/32".to_string(),
        "1.0.0.0/8".to_string(),
    ]);
    // 1.2.3.4 is inside 1.0.0.0/8
    assert!(m.is_domestic(IpAddress::V4(0x01020304)));
    // 8.8.8.8 is not
    assert!(!m.is_domestic(IpAddress::V4(0x08080808)));
    // 2001:db8::1 is inside 2001:db8::/32
    assert!(m.is_domestic(IpAddress::V6(0x2001_0db8_0000_0000_0000_0000_0000_0001)));
    // a v4 prefix never matches a v6 address with the same top bits
    assert!(!m.is_domestic(IpAddress::V6(0x0102_0304_0000_0000_0000_0000_0000_0000)));
}

#[test]
fn cidr_empty_set_contains_nothing() {
    let m = IpManager::new();
    assert!(!m.is_domestic(IpAddress::V4(0)));
}

#[test]
fn registry_wildcard_matches_subdomains_not_bare_suffix() {
    let entries = vec![(
        "10.0.0.53".to_string(),
        vec!["*.corp.internal.".to_string()],
    )];
    let r = ResolverManager::new(&entries);
    assert_eq!(r.get_resolver(&"host1.corp.internal.".to_string()), Some(0));
    assert_eq!(r.get_resolver(&"a.b.corp.internal.".to_string()), Some(0));
    // the bare suffix without the dot does not match
    assert_eq!(r.get_resolver(&"corp.internal.".to_string()), None);
    assert_eq!(r.get_resolver(&"other.com.".to_string()), None);
}

#[test]
fn registry_exact_wins_over_wildcard() {
    let entries = vec![
        ("10.0.0.53".to_string(), vec!["*.x.y.".to_string()]),
        ("10.0.0.54".to_string(), vec!["a.x.y.".to_string()]),
    ];
    let r = ResolverManager::new(&entries);
    // both rules match a.x.y.; the exact one decides
    assert_eq!(r.get_resolver(&"a.x.y.".to_string()), Some(1));
    // any other subdomain goes to the wildcard
    assert_eq!(r.get_resolver(&"b.x.y.".to_string()), Some(0));
    assert_eq!(r.upstream_addrs, vec!["10.0.0.53".to_string(), "10.0.0.54".to_string()]);
}

#[test]
fn registry_first_wildcard_wins() {
    let entries = vec![
        ("10.0.0.53".to_string(), vec!["*.corp.internal.".to_string()]),
        ("10.0.0.54".to_string(), vec!["*.internal.".to_string()]),
    ];
    let r = ResolverManager::new(&entries);
    assert_eq!(r.get_resolver(&"h.corp.internal.".to_string()), Some(0));
    assert_eq!(r.get_resolver(&"h.internal.".to_string()), Some(1));
}

#[test]
fn message_equality_is_structural() {
    let q = Question { name: "a.test.".to_string(), qtype: QueryKind::A };
    let m1 = Message {
        id: 7,
        response: false,
        authoritative: false,
        recursion_desired: true,
        recursion_available: false,
        rcode: ResponseCode::NoError,
        queries: vec![q.clone()],
        answers: vec![],
    };
    let m2 = m1.clone();
    assert_eq!(m1, m2);
}
