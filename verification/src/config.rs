//! The configuration the core consumes, and its ingress normalization: every
//! domain in the blacklist, the per-domain routing entries and the pin table
//! is lowercased and given a trailing dot.

use vstd::prelude::*;
use vstd::string::StrSliceExecFns;
use vstd::string::StringExecFns;
use crate::names::{normalize_spec, normalize_name, with_trailing_dot};

verus! {

/// The configuration, as plain values: the listen port, the upstream address
/// lists of the two split legs, the blacklist, the per-domain routing entries
/// (upstream address with its domains), and the pin table (domain with its
/// address literal).
pub struct Config {
    pub server_port: u16,
    pub domestic_dns: Vec<String>,
    pub foreign_dns: Vec<String>,
    pub blacklist: Vec<String>,
    pub domain_specific_dns: Vec<(String, Vec<String>)>,
    pub custom_domain_ip: Vec<(String, String)>,
}

impl Config {
    /// The domain unchanged when it already ends in a dot, and with one
    /// appended otherwise.
    pub fn ensure_trailing_dot(domain: &str) -> (r: String)
        ensures
            r@ == with_trailing_dot(domain@),
    {
        let n = domain.unicode_len();
        let mut out = String::from_str(domain);
        if n == 0 || domain.get_char(n - 1) != '.' {
            proof { reveal_strlit("."); }
            out.append(".");
            proof {
                assert(out@ =~= with_trailing_dot(domain@));
            }
        }
        out
    }

    /// The configuration with every externally supplied domain in canonical
    /// form; ports and address literals are kept as given.
    pub fn normalize(self) -> (r: Config)
        ensures
            r.server_port == self.server_port,
            r.domestic_dns == self.domestic_dns,
            r.foreign_dns == self.foreign_dns,
            r.blacklist.deep_view() == self.blacklist.deep_view().map_values(
                |d: Seq<char>| normalize_spec(d),
            ),
            r.domain_specific_dns.deep_view() == self.domain_specific_dns.deep_view().map_values(
                (|e: (Seq<char>, Seq<Seq<char>>)| (
                    e.0,
                    e.1.map_values(|d: Seq<char>| normalize_spec(d)),
                )),
            ),
            r.custom_domain_ip.deep_view() == self.custom_domain_ip.deep_view().map_values(
                (|e: (Seq<char>, Seq<char>)| (normalize_spec(e.0), e.1)),
            ),
    {
        let Config { server_port, domestic_dns, foreign_dns, blacklist, domain_specific_dns, custom_domain_ip } = self;
        let ghost old_bl = blacklist.deep_view();
        let ghost old_ds = domain_specific_dns.deep_view();
        let ghost old_ci = custom_domain_ip.deep_view();
        let new_blacklist = normalize_all(&blacklist);
        let mut new_specific: Vec<(String, Vec<String>)> = Vec::new();
        let mut i: usize = 0;
        while i < domain_specific_dns.len()
            invariant
                i <= domain_specific_dns.len(),
                old_ds == domain_specific_dns.deep_view(),
                old_ds.len() == domain_specific_dns.len(),
                new_specific@.len() == i,
                forall|k: int|
                    0 <= k < i ==> #[trigger] new_specific@[k].deep_view() == (
                    old_ds[k].0,
                    old_ds[k].1.map_values(|d: Seq<char>| normalize_spec(d)),
                    ),
            decreases domain_specific_dns.len() - i,
        {
            let pair = &domain_specific_dns[i];
            let addr = pair.0.clone();
            let domains = normalize_all(&pair.1);
            proof {
                assert(old_ds[i as int] == domain_specific_dns@[i as int].deep_view());
            }
            new_specific.push((addr, domains));
            i = i + 1;
        }
        let mut new_custom: Vec<(String, String)> = Vec::new();
        let mut j: usize = 0;
        while j < custom_domain_ip.len()
            invariant
                j <= custom_domain_ip.len(),
                old_ci == custom_domain_ip.deep_view(),
                old_ci.len() == custom_domain_ip.len(),
                new_custom@.len() == j,
                forall|k: int|
                    0 <= k < j ==> #[trigger] new_custom@[k].deep_view() == (
                    normalize_spec(old_ci[k].0),
                    old_ci[k].1,
                    ),
            decreases custom_domain_ip.len() - j,
        {
            let pair = &custom_domain_ip[j];
            let key = normalize_name(pair.0.as_str());
            let ip = pair.1.clone();
            proof {
                assert(old_ci[j as int] == custom_domain_ip@[j as int].deep_view());
            }
            new_custom.push((key, ip));
            j = j + 1;
        }
        let r = Config {
            server_port,
            domestic_dns,
            foreign_dns,
            blacklist: new_blacklist,
            domain_specific_dns: new_specific,
            custom_domain_ip: new_custom,
        };
        proof {
            assert forall|k: int| 0 <= k < old_ds.len() implies r.domain_specific_dns.deep_view()[k]
                == old_ds.map_values(
                (|e: (Seq<char>, Seq<Seq<char>>)| (
                    e.0,
                    e.1.map_values(|d: Seq<char>| normalize_spec(d)),
                )),
            )[k] by {
                assert(r.domain_specific_dns.deep_view()[k] == r.domain_specific_dns@[k].deep_view());
            }
            assert(r.domain_specific_dns.deep_view() =~= old_ds.map_values(
                (|e: (Seq<char>, Seq<Seq<char>>)| (
                    e.0,
                    e.1.map_values(|d: Seq<char>| normalize_spec(d)),
                )),
            ));
            assert forall|k: int| 0 <= k < old_ci.len() implies r.custom_domain_ip.deep_view()[k]
                == old_ci.map_values(
                (|e: (Seq<char>, Seq<char>)| (normalize_spec(e.0), e.1)),
            )[k] by {
                assert(r.custom_domain_ip.deep_view()[k] == r.custom_domain_ip@[k].deep_view());
            }
            assert(r.custom_domain_ip.deep_view() =~= old_ci.map_values(
                (|e: (Seq<char>, Seq<char>)| (normalize_spec(e.0), e.1)),
            ));
        }
        r
    }
}

/// Every name of the list in canonical form, in order.
pub fn normalize_all(v: &Vec<String>) -> (r: Vec<String>)
    ensures
        r.deep_view() == v.deep_view().map_values((|d: Seq<char>| normalize_spec(d))),
{
    let mut r: Vec<String> = Vec::new();
    let mut i: usize = 0;
    while i < v.len()
        invariant
            i <= v.len(),
            r@.len() == i,
            forall|k: int| 0 <= k < i ==> #[trigger] r@[k]@ == normalize_spec(v@[k]@),
        decreases v.len() - i,
    {
        r.push(normalize_name(v[i].as_str()));
        i = i + 1;
    }
    proof {
        assert forall|k: int| 0 <= k < v@.len() implies r.deep_view()[k] == v.deep_view().map_values(
            (|d: Seq<char>| normalize_spec(d)),
        )[k] by {
            assert(r.deep_view()[k] == r@[k]@);
        }
        assert(r.deep_view() =~= v.deep_view().map_values((|d: Seq<char>| normalize_spec(d))));
    }
    r
}

} // verus!
