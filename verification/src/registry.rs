//! The upstream registry: per-domain routing rules built once from
//! configuration. A rule is either an exact name or a wildcard suffix; exact
//! rules win over every wildcard, and wildcards are tried in registration
//! order, first match first.

use vstd::prelude::*;
use vstd::string::StrSliceExecFns;
use vstd::string::StringExecFns;
use crate::names::{ends_with, ends_with_exec};

verus! {

/// The registry's view: the upstream addresses by client index, the exact
/// rules, and the wildcard rules in order. A rule pairs a name (or suffix)
/// with the index of the client it routes to.
#[verifier::ext_equal]
pub struct RegistryV {
    pub addrs: Seq<Seq<char>>,
    pub exact: Seq<(Seq<char>, usize)>,
    pub wildcard: Seq<(Seq<char>, usize)>,
}

/// The first exact rule for the name, in registration order.
pub open spec fn exact_lookup(es: Seq<(Seq<char>, usize)>, name: Seq<char>) -> Option<usize>
    decreases es.len(),
{
    if es.len() == 0 {
        None
    } else if es[0].0 == name {
        Some(es[0].1)
    } else {
        exact_lookup(es.drop_first(), name)
    }
}

/// The first wildcard rule whose suffix ends the name.
pub open spec fn wildcard_lookup(ws: Seq<(Seq<char>, usize)>, name: Seq<char>) -> Option<
    usize,
>
    decreases ws.len(),
{
    if ws.len() == 0 {
        None
    } else if ends_with(name, ws[0].0) {
        Some(ws[0].1)
    } else {
        wildcard_lookup(ws.drop_first(), name)
    }
}

/// The selection rule: exact first, then the wildcards in order.
pub open spec fn registry_lookup(r: RegistryV, name: Seq<char>) -> Option<usize> {
    match exact_lookup(r.exact, name) {
        Some(u) => Some(u),
        None => wildcard_lookup(r.wildcard, name),
    }
}

/// A domain starting in `*.` registers its remainder (dot included) as a
/// wildcard suffix; any other domain registers as an exact rule.
pub open spec fn register_domain(r: RegistryV, domain: Seq<char>, idx: usize) -> RegistryV {
    if domain.len() >= 2 && domain[0] == '*' && domain[1] == '.' {
        RegistryV { wildcard: r.wildcard.push((domain.drop_first(), idx)), ..r }
    } else {
        RegistryV { exact: r.exact.push((domain, idx)), ..r }
    }
}

pub open spec fn register_domains(r: RegistryV, domains: Seq<Seq<char>>, idx: usize) -> RegistryV
    decreases domains.len(),
{
    if domains.len() == 0 {
        r
    } else {
        register_domain(register_domains(r, domains.drop_last(), idx), domains.last(), idx)
    }
}

/// One configuration entry: a fresh client for the upstream address, and each
/// of its domains registered to that client.
pub open spec fn register_entry(r: RegistryV, addr: Seq<char>, domains: Seq<Seq<char>>) -> RegistryV {
    let idx = r.addrs.len() as usize;
    register_domains(
        RegistryV { addrs: r.addrs.push(addr), ..r },
        domains,
        idx,
    )
}

pub open spec fn build_registry(r: RegistryV, entries: Seq<(Seq<char>, Seq<Seq<char>>)>) -> RegistryV
    decreases entries.len(),
{
    if entries.len() == 0 {
        r
    } else {
        register_entry(
            build_registry(r, entries.drop_last()),
            entries.last().0,
            entries.last().1,
        )
    }
}

pub open spec fn empty_registry() -> RegistryV {
    RegistryV { addrs: Seq::empty(), exact: Seq::empty(), wildcard: Seq::empty() }
}

/// The upstream registry. `upstream_addrs` names one upstream address per
/// client index; the surrounding program builds the actual clients from it.
pub struct ResolverManager {
    pub upstream_addrs: Vec<String>,
    exact: Vec<(String, usize)>,
    wildcard: Vec<(String, usize)>,
}

impl View for ResolverManager {
    type V = RegistryV;

    closed spec fn view(&self) -> RegistryV {
        RegistryV {
            addrs: self.upstream_addrs.deep_view(),
            exact: pairs_view(self.exact@),
            wildcard: pairs_view(self.wildcard@),
        }
    }
}

pub open spec fn pairs_view(v: Seq<(String, usize)>) -> Seq<(Seq<char>, usize)> {
    v.map_values(|p: (String, usize)| (p.0@, p.1))
}

impl ResolverManager {
    /// Builds the routing rules from the configuration entries, one client
    /// per entry, in order.
    pub fn new(entries: &Vec<(String, Vec<String>)>) -> (r: ResolverManager)
        ensures
            r@ == build_registry(empty_registry(), entries.deep_view()),
    {
        let ghost es = entries.deep_view();
        let mut r = ResolverManager {
            upstream_addrs: Vec::new(),
            exact: Vec::new(),
            wildcard: Vec::new(),
        };
        proof {
            assert(r@ =~~= empty_registry());
        }
        let mut i: usize = 0;
        while i < entries.len()
            invariant
                i <= entries.len(),
                es == entries.deep_view(),
                es.len() == entries.len(),
                r@ == build_registry(empty_registry(), es.take(i as int)),
                r@.addrs.len() == i,
            decreases entries.len() - i,
        {
            proof {
                assert(es.take(i + 1).drop_last() =~= es.take(i as int));
                assert(es.take(i + 1).last() == es[i as int]);
                assert(es[i as int] == entries.deep_view()[i as int]);
                assert(entries.deep_view()[i as int] == entries@[i as int].deep_view());
            }
            let entry = &entries[i];
            r.upstream_addrs.push(entry.0.clone());
            proof {
                assert(r@.addrs =~= build_registry(empty_registry(), es.take(i as int)).addrs.push(
                    entry.0@,
                ));
                assert(r@ =~~= RegistryV {
                    addrs: build_registry(empty_registry(), es.take(i as int)).addrs.push(
                        entry.0@,
                    ),
                    ..build_registry(empty_registry(), es.take(i as int))
                });
            }
            register_all(&mut r, &entry.1, i);
            proof {
                assert(entry.1.deep_view() == es[i as int].1);
                assert(entry.0@ == es[i as int].0);
                assert(r@ == build_registry(empty_registry(), es.take(i + 1)));
            }
            i = i + 1;
        }
        proof {
            assert(es.take(entries.len() as int) =~= es);
        }
        r
    }

    /// The selection used by the policy: the routed client's index, or
    /// nothing when neither an exact nor a wildcard rule matches.
    pub fn get_resolver(&self, domain: &String) -> (r: Option<usize>)
        ensures
            r == registry_lookup(self@, domain@),
    {
        proof {
            assert(self@.exact.skip(0) =~= self@.exact);
        }
        let mut i: usize = 0;
        while i < self.exact.len()
            invariant
                i <= self.exact.len(),
                forall|k: int| 0 <= k < i ==> (#[trigger] self@.exact[k]).0 != domain@,
                exact_lookup(self@.exact, domain@) == exact_lookup(
                    self@.exact.skip(i as int),
                    domain@,
                ),
            decreases self.exact.len() - i,
        {
            proof {
                assert(self@.exact[i as int] == (self.exact@[i as int].0@,
                    self.exact@[i as int].1));
            }
            if self.exact[i].0.eq(domain) {
                proof {
                    assert(self@.exact.skip(i as int)[0] == self@.exact[i as int]);
                }
                return Some(self.exact[i].1);
            }
            proof {
                assert(self@.exact.skip(i as int).drop_first() =~= self@.exact.skip(i + 1));
                assert(self@.exact.skip(i as int)[0] == self@.exact[i as int]);
            }
            i = i + 1;
        }
        proof {
            assert(self@.exact.skip(self.exact.len() as int) =~= Seq::<(Seq<char>,
                usize)>::empty());
        }
        proof {
            assert(self@.wildcard.skip(0) =~= self@.wildcard);
        }
        let mut j: usize = 0;
        while j < self.wildcard.len()
            invariant
                j <= self.wildcard.len(),
                exact_lookup(self@.exact, domain@) is None,
                wildcard_lookup(self@.wildcard, domain@) == wildcard_lookup(
                    self@.wildcard.skip(j as int),
                    domain@,
                ),
            decreases self.wildcard.len() - j,
        {
            proof {
                assert(self@.wildcard[j as int] == (self.wildcard@[j as int].0@,
                    self.wildcard@[j as int].1));
                assert(self@.wildcard.skip(j as int)[0] == self@.wildcard[j as int]);
            }
            if ends_with_exec(domain.as_str(), self.wildcard[j].0.as_str()) {
                return Some(self.wildcard[j].1);
            }
            proof {
                assert(self@.wildcard.skip(j as int).drop_first() =~= self@.wildcard.skip(
                    j + 1,
                ));
            }
            j = j + 1;
        }
        proof {
            assert(self@.wildcard.skip(self.wildcard.len() as int) =~= Seq::<(Seq<char>,
                usize)>::empty());
        }
        None
    }
}

/// Registers every domain of one entry to the client `idx`.
fn register_all(r: &mut ResolverManager, domains: &Vec<String>, idx: usize)
    ensures
        final(r)@ == register_domains(old(r)@, domains.deep_view(), idx),
        final(r).upstream_addrs == old(r).upstream_addrs,
{
    let ghost ds = domains.deep_view();
    let mut i: usize = 0;
    while i < domains.len()
        invariant
            i <= domains.len(),
            ds == domains.deep_view(),
            ds.len() == domains.len(),
            r@ == register_domains(old(r)@, ds.take(i as int), idx),
            r.upstream_addrs == old(r).upstream_addrs,
        decreases domains.len() - i,
    {
        let ghost pre = r@;
        proof {
            assert(ds.take(i + 1).drop_last() =~= ds.take(i as int));
            assert(ds.take(i + 1).last() == ds[i as int]);
            assert(ds[i as int] == domains@[i as int]@);
        }
        let d = &domains[i];
        let n = d.as_str().unicode_len();
        let is_wild = if n >= 2 {
            let c0 = d.as_str().get_char(0);
            let c1 = d.as_str().get_char(1);
            c0 == '*' && c1 == '.'
        } else {
            false
        };
        if is_wild {
            let suffix = String::from_str(d.as_str().substring_char(1, n));
            proof {
                assert(suffix@ =~= d@.drop_first());
            }
            r.wildcard.push((suffix, idx));
            proof {
                assert(pairs_view(r.wildcard@) =~= pre.wildcard.push((d@.drop_first(), idx)));
                assert(r@ =~~= register_domain(pre, ds[i as int], idx));
                assert(r@ =~~= register_domains(old(r)@, ds.take(i + 1), idx));
            }
        } else {
            let name = d.clone();
            r.exact.push((name, idx));
            proof {
                assert(pairs_view(r.exact@) =~= pre.exact.push((d@, idx)));
                assert(r@ =~~= register_domain(pre, ds[i as int], idx));
                assert(r@ =~~= register_domains(old(r)@, ds.take(i + 1), idx));
            }
        }
        i = i + 1;
    }
    proof {
        assert(ds.take(domains.len() as int) =~= ds);
    }
}

/// Law (exact precedence): an exact rule for the name decides the selection,
/// whatever wildcards would also match.
pub proof fn lemma_exact_precedence(r: RegistryV, name: Seq<char>)
    requires
        exact_lookup(r.exact, name) is Some,
    ensures
        registry_lookup(r, name) == exact_lookup(r.exact, name),
{
}

/// Law (wildcard coverage): when no exact rule holds the name and the rule at
/// position `i` is the first wildcard whose suffix ends it, the name routes to
/// that rule's client.
pub proof fn lemma_wildcard_match(r: RegistryV, name: Seq<char>, i: int)
    requires
        exact_lookup(r.exact, name) is None,
        0 <= i < r.wildcard.len(),
        ends_with(name, r.wildcard[i].0),
        forall|j: int| 0 <= j < i ==> !ends_with(name, (#[trigger] r.wildcard[j]).0),
    ensures
        registry_lookup(r, name) == Some(r.wildcard[i].1),
{
    lemma_wildcard_first(r.wildcard, name, i);
}

proof fn lemma_wildcard_first(ws: Seq<(Seq<char>, usize)>, name: Seq<char>, i: int)
    requires
        0 <= i < ws.len(),
        ends_with(name, ws[i].0),
        forall|j: int| 0 <= j < i ==> !ends_with(name, (#[trigger] ws[j]).0),
    ensures
        wildcard_lookup(ws, name) == Some(ws[i].1),
    decreases i,
{
    if i > 0 {
        assert(ws.drop_first()[i - 1] == ws[i]);
        assert(forall|j: int|
            0 <= j < i - 1 ==> (#[trigger] ws.drop_first()[j]) == ws[j + 1]);
        lemma_wildcard_first(ws.drop_first(), name, i - 1);
    }
}

/// Law (the bare suffix does not match): a wildcard for `*.s` stores the
/// suffix `.s`, and the name `s` itself, one character shorter, never ends
/// with it.
pub proof fn lemma_bare_name_no_match(name: Seq<char>, suffix: Seq<char>)
    requires
        suffix == seq!['.'] + name,
    ensures
        !ends_with(name, suffix),
{
    assert(suffix.len() == name.len() + 1);
}

} // verus!
