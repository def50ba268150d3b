//! The answer cache: a concurrent map from canonical name to a record set
//! with a monotonic deadline. Entries live for the least time to live among
//! their records and are purged lazily on the first read past the deadline.

use vstd::prelude::*;
use crate::dns::{min_ttl, Record, RecordV};

verus! {

/// One cached answer: the records and the deadline, in seconds of the
/// monotonic clock.
#[derive(Clone)]
pub struct CacheEntry {
    pub records: Vec<Record>,
    pub expire_at: u64,
}

pub struct CacheEntryV {
    pub records: Seq<RecordV>,
    pub expire_at: u64,
}

impl View for CacheEntry {
    type V = CacheEntryV;

    open spec fn view(&self) -> CacheEntryV {
        CacheEntryV { records: self.records.deep_view(), expire_at: self.expire_at }
    }
}

#[verifier::external_type_specification]
#[verifier::external_body]
#[verifier::reject_recursive_types(K)]
#[verifier::reject_recursive_types(V)]
#[verifier::reject_recursive_types(S)]
pub struct ExDashMap<K, V, S>(dashmap::DashMap<K, V, S>);

/// What the concurrent map holds, keyed by the name's characters.
pub uninterp spec fn dashmap_contents(m: dashmap::DashMap<String, CacheEntry>) -> Map<
    Seq<char>,
    CacheEntryV,
>;

pub open spec fn empty_cache_map() -> Map<Seq<char>, CacheEntryV> {
    Map::empty()
}

/// Relies on dashmap::DashMap::new: creates an empty map.
#[verifier::external_body]
fn dm_new() -> (r: dashmap::DashMap<String, CacheEntry>)
    ensures
        dashmap_contents(r) == empty_cache_map(),
{
    dashmap::DashMap::new()
}

/// Relies on dashmap::DashMap::get: returns the entry under the key, if one
/// is held; the clone copies the fields.
#[verifier::external_body]
fn dm_get(m: &dashmap::DashMap<String, CacheEntry>, k: &String) -> (r: Option<CacheEntry>)
    ensures
        match r {
            Some(e) => dashmap_contents(*m).contains_key(k@) && e@ == dashmap_contents(
                *m,
            )[k@],
            None => !dashmap_contents(*m).contains_key(k@),
        },
{
    m.get(k).map(|e| e.value().clone())
}

/// Relies on dashmap::DashMap::insert: maps the key to the new entry,
/// replacing any old one.
#[verifier::external_body]
fn dm_insert(m: &mut dashmap::DashMap<String, CacheEntry>, k: String, v: CacheEntry)
    ensures
        dashmap_contents(*final(m)) == dashmap_contents(*old(m)).insert(k@, v@),
{
    m.insert(k, v);
}

/// Relies on dashmap::DashMap::remove: drops the entry under the key.
#[verifier::external_body]
fn dm_remove(m: &mut dashmap::DashMap<String, CacheEntry>, k: &String)
    ensures
        dashmap_contents(*final(m)) == dashmap_contents(*old(m)).remove(k@),
{
    m.remove(k);
}

/// What a read at instant `now` returns: the records, if the entry is there
/// and its deadline has not passed.
pub open spec fn cache_lookup(
    m: Map<Seq<char>, CacheEntryV>,
    name: Seq<char>,
    now: u64,
) -> Option<Seq<RecordV>> {
    if m.contains_key(name) && now <= m[name].expire_at {
        Some(m[name].records)
    } else {
        None
    }
}

/// The map after a read at instant `now`: an entry found past its deadline is
/// removed, everything else stays.
pub open spec fn cache_after_lookup(
    m: Map<Seq<char>, CacheEntryV>,
    name: Seq<char>,
    now: u64,
) -> Map<Seq<char>, CacheEntryV> {
    if m.contains_key(name) && now > m[name].expire_at {
        m.remove(name)
    } else {
        m
    }
}

/// The map after a write at instant `now`: a nonempty record set is stored
/// with the deadline `now` plus its least time to live; an empty one is not
/// stored at all.
pub open spec fn cache_update(
    m: Map<Seq<char>, CacheEntryV>,
    name: Seq<char>,
    records: Seq<RecordV>,
    now: u64,
) -> Map<Seq<char>, CacheEntryV> {
    if records.len() == 0 {
        m
    } else {
        m.insert(
            name,
            CacheEntryV { records, expire_at: (now + min_ttl(records)) as u64 },
        )
    }
}

/// The answer cache.
pub struct DnsCache {
    map: dashmap::DashMap<String, CacheEntry>,
}

impl View for DnsCache {
    type V = Map<Seq<char>, CacheEntryV>;

    closed spec fn view(&self) -> Map<Seq<char>, CacheEntryV> {
        dashmap_contents(self.map)
    }
}

impl DnsCache {
    pub fn new() -> (c: DnsCache)
        ensures
            c@ == empty_cache_map(),
    {
        DnsCache { map: dm_new() }
    }

    /// A read: returns a copy of the records while the entry's deadline has
    /// not passed, and otherwise removes the expired entry and misses.
    pub fn get(&mut self, domain: &String, now: u64) -> (r: Option<Vec<Record>>)
        ensures
            (match r {
                Some(rs) => cache_lookup(old(self)@, domain@, now) == Some(rs.deep_view()),
                None => cache_lookup(old(self)@, domain@, now) is None,
            }),
            final(self)@ == cache_after_lookup(old(self)@, domain@, now),
    {
        match dm_get(&self.map, domain) {
            Some(entry) => {
                if now <= entry.expire_at {
                    Some(entry.records)
                } else {
                    dm_remove(&mut self.map, domain);
                    None
                }
            },
            None => None,
        }
    }

    /// A write: stores the records under the name with the deadline `now`
    /// plus their least time to live; an empty record set is a no-op.
    pub fn set(&mut self, domain: String, records: Vec<Record>, now: u64)
        requires
            now + 0xffff_ffffu64 <= u64::MAX,
        ensures
            final(self)@ == cache_update(old(self)@, domain@, records.deep_view(), now),
    {
        if records.len() == 0 {
            return ;
        }
        proof {
            assert(records.deep_view().len() == records@.len());
        }
        let min = crate::dns::min_ttl_exec(&records);
        let expire_at = now + (min as u64);
        dm_insert(&mut self.map, domain, CacheEntry { records, expire_at });
    }
}

/// Law (round trip): a nonempty record set written under a name reads back
/// unchanged, in order, at every instant up to its deadline.
pub proof fn lemma_cache_round_trip(
    m: Map<Seq<char>, CacheEntryV>,
    name: Seq<char>,
    records: Seq<RecordV>,
    now: u64,
    later: u64,
)
    requires
        records.len() > 0,
        now + min_ttl(records) <= u64::MAX,
        later <= now + min_ttl(records),
    ensures
        cache_lookup(cache_update(m, name, records, now), name, later) == Some(records),
{
}

/// Law (lifetime): a stored entry's deadline lies exactly the least time to
/// live of its records past the instant of the write.
pub proof fn lemma_cache_lifetime(
    m: Map<Seq<char>, CacheEntryV>,
    name: Seq<char>,
    records: Seq<RecordV>,
    now: u64,
)
    requires
        records.len() > 0,
        now + min_ttl(records) <= u64::MAX,
    ensures
        cache_update(m, name, records, now).contains_key(name),
        cache_update(m, name, records, now)[name].expire_at - now == min_ttl(records),
        cache_update(m, name, records, now)[name].records == records,
{
}

/// Law (expiry): past the deadline a read misses, and the entry is removed by
/// that read.
pub proof fn lemma_cache_expiry(m: Map<Seq<char>, CacheEntryV>, name: Seq<char>, now: u64)
    requires
        m.contains_key(name),
        now > m[name].expire_at,
    ensures
        cache_lookup(m, name, now) is None,
        !cache_after_lookup(m, name, now).contains_key(name),
{
}

} // verus!
