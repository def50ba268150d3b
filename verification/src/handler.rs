//! The policy engine: the per-request decision tree over blacklist, pin
//! table, cache, per-domain routing and the split decision. Upstream lookups
//! are outside work, so the engine is driven in steps: `handle_request`
//! either finishes a response or names the upstream to ask, and the
//! `on_*_response` steps take the upstream's result and carry on.

use vstd::prelude::*;
use vstd::string::StrSliceExecFns;
use crate::dns::{
    clone_records, clone_questions, IpAddress, Message, MessageV, QueryKind, RData, RDataV,
    Record, RecordV, ResponseCode,
};
use crate::cache::{cache_after_lookup, cache_lookup, cache_update, CacheEntryV, DnsCache};
use crate::cidr::{cidr_contains, IpManager, IpNetwork};
use crate::names::{normalize_spec, normalize_name};
use crate::registry::{registry_lookup, RegistryV, ResolverManager};

verus! {

/// The upstream a pending lookup goes to: one of the two split legs, or a
/// routed client by its index in the registry.
#[derive(Clone, Copy, PartialEq, Eq, Structural, Debug)]
pub enum Upstream {
    Domestic,
    Foreign,
    Specific(usize),
}

/// An upstream lookup that failed or timed out.
#[derive(Clone, Copy, PartialEq, Eq, Structural, Debug)]
pub struct UpstreamError;

/// What one policy step yields: a finished response, or the upstream whose
/// answer the next step needs.
pub enum HandleOutcome {
    Done(Message),
    Lookup(Upstream),
}

pub enum HandleOutcomeV {
    Done(MessageV),
    Lookup(Upstream),
}

impl View for HandleOutcome {
    type V = HandleOutcomeV;

    open spec fn view(&self) -> HandleOutcomeV {
        match self {
            HandleOutcome::Done(m) => HandleOutcomeV::Done(m@),
            HandleOutcome::Lookup(u) => HandleOutcomeV::Lookup(*u),
        }
    }
}

/// The response to a request: same id and question, the response bit on,
/// not authoritative, recursion desired and available, with the given code
/// and answers.
pub open spec fn response_view(req: MessageV, code: ResponseCode, answers: Seq<RecordV>) -> MessageV {
    MessageV {
        id: req.id,
        response: true,
        authoritative: false,
        recursion_desired: true,
        recursion_available: true,
        rcode: code,
        queries: req.queries,
        answers,
    }
}

pub fn build_response(request: &Message, code: ResponseCode, answers: Vec<Record>) -> (r: Message)
    ensures
        r@ == response_view(request@, code, answers.deep_view()),
{
    let r = Message {
        id: request.id,
        response: true,
        authoritative: false,
        recursion_desired: true,
        recursion_available: true,
        rcode: code,
        queries: clone_questions(&request.queries),
        answers,
    };
    proof {
        assert(r@ =~~= response_view(request@, code, answers.deep_view()));
    }
    r
}

/// The synthetic pin answer: the pinned address when it fits the query type,
/// and an empty `Null` record otherwise; always with a time to live of 300.
pub open spec fn pin_record_view(name: Seq<char>, qtype: QueryKind, ip: IpAddress) -> RecordV {
    match (qtype, ip) {
        (QueryKind::A, IpAddress::V4(a)) => RecordV { name, ttl: 300, rdata: RDataV::A(a) },
        (QueryKind::Aaaa, IpAddress::V6(a)) => RecordV {
            name,
            ttl: 300,
            rdata: RDataV::Aaaa(a),
        },
        _ => RecordV { name, ttl: 300, rdata: RDataV::Null(Seq::empty()) },
    }
}

pub fn create_record(name: &String, qtype: QueryKind, ip: IpAddress) -> (r: Record)
    ensures
        r@ == pin_record_view(name@, qtype, ip),
{
    let rdata = match (qtype, ip) {
        (QueryKind::A, IpAddress::V4(a)) => RData::A(a),
        (QueryKind::Aaaa, IpAddress::V6(a)) => RData::Aaaa(a),
        _ => RData::Null(Vec::new()),
    };
    let r = Record { name: name.clone(), ttl: 300, rdata };
    proof {
        assert(r@.rdata =~~= pin_record_view(name@, qtype, ip).rdata);
    }
    r
}

/// The addresses among a record set's `A` and `Aaaa` data, in order.
pub open spec fn answer_ips(rs: Seq<RecordV>) -> Seq<IpAddress>
    decreases rs.len(),
{
    if rs.len() == 0 {
        Seq::empty()
    } else {
        let prev = answer_ips(rs.drop_last());
        match rs.last().rdata {
            RDataV::A(a) => prev.push(IpAddress::V4(a)),
            RDataV::Aaaa(a) => prev.push(IpAddress::V6(a)),
            _ => prev,
        }
    }
}

pub fn extract_ips(answers: &Vec<Record>) -> (r: Vec<IpAddress>)
    ensures
        r@ == answer_ips(answers.deep_view()),
{
    let ghost v = answers.deep_view();
    let mut r: Vec<IpAddress> = Vec::new();
    let mut i: usize = 0;
    while i < answers.len()
        invariant
            i <= answers.len(),
            v == answers.deep_view(),
            v.len() == answers.len(),
            r@ == answer_ips(v.take(i as int)),
        decreases answers.len() - i,
    {
        proof {
            assert(v.take(i + 1).drop_last() =~= v.take(i as int));
            assert(v.take(i + 1).last() == v[i as int]);
            assert(v[i as int] == answers@[i as int]@);
        }
        match &answers[i].rdata {
            RData::A(a) => r.push(IpAddress::V4(*a)),
            RData::Aaaa(a) => r.push(IpAddress::V6(*a)),
            _ => (),
        }
        i = i + 1;
    }
    proof {
        assert(v.take(answers.len() as int) =~= v);
    }
    r
}

/// Membership of an address in the CIDR set.
pub open spec fn cidr_set_contains(cidrs: Seq<IpNetwork>, ip: IpAddress) -> bool {
    exists|j: int| 0 <= j < cidrs.len() && cidr_contains(#[trigger] cidrs[j], ip)
}

/// At least one of the addresses is in the CIDR set.
pub open spec fn any_in_set(cidrs: Seq<IpNetwork>, ips: Seq<IpAddress>) -> bool {
    exists|i: int| 0 <= i < ips.len() && cidr_set_contains(cidrs, #[trigger] ips[i])
}

fn any_domestic(m: &IpManager, ips: &Vec<IpAddress>) -> (r: bool)
    requires
        m.wf(),
    ensures
        r == any_in_set(m@, ips@),
{
    let mut i: usize = 0;
    while i < ips.len()
        invariant
            i <= ips.len(),
            m.wf(),
            forall|k: int| 0 <= k < i ==> !cidr_set_contains(m@, #[trigger] ips@[k]),
        decreases ips.len() - i,
    {
        if m.is_domestic(ips[i]) {
            proof {
                assert(cidr_set_contains(m@, ips@[i as int]));
            }
            return true;
        }
        i = i + 1;
    }
    false
}

/// The blacklist holds the name.
pub open spec fn blacklist_has(bl: Seq<Seq<char>>, name: Seq<char>) -> bool {
    exists|i: int| 0 <= i < bl.len() && #[trigger] bl[i] == name
}

fn blacklist_contains(bl: &Vec<String>, name: &String) -> (r: bool)
    ensures
        r == blacklist_has(bl.deep_view(), name@),
{
    let mut i: usize = 0;
    while i < bl.len()
        invariant
            i <= bl.len(),
            forall|k: int| 0 <= k < i ==> #[trigger] bl.deep_view()[k] != name@,
        decreases bl.len() - i,
    {
        if bl[i].eq(name) {
            proof {
                assert(bl.deep_view()[i as int] == name@);
            }
            return true;
        }
        proof {
            assert(bl.deep_view()[i as int] == bl@[i as int]@);
        }
        i = i + 1;
    }
    false
}

/// The pinned address of the first pin entry for the name, if any.
pub open spec fn pin_lookup(pins: Seq<(Seq<char>, IpAddress)>, name: Seq<char>) -> Option<
    IpAddress,
>
    decreases pins.len(),
{
    if pins.len() == 0 {
        None
    } else if pins[0].0 == name {
        Some(pins[0].1)
    } else {
        pin_lookup(pins.drop_first(), name)
    }
}

pub open spec fn pins_view(v: Seq<(String, IpAddress)>) -> Seq<(Seq<char>, IpAddress)> {
    v.map_values(|p: (String, IpAddress)| (p.0@, p.1))
}

fn pin_lookup_exec(pins: &Vec<(String, IpAddress)>, name: &String) -> (r: Option<IpAddress>)
    ensures
        r == pin_lookup(pins_view(pins@), name@),
{
    proof {
        assert(pins_view(pins@).skip(0) =~= pins_view(pins@));
    }
    let mut i: usize = 0;
    while i < pins.len()
        invariant
            i <= pins.len(),
            pin_lookup(pins_view(pins@), name@) == pin_lookup(
                pins_view(pins@).skip(i as int),
                name@,
            ),
        decreases pins.len() - i,
    {
        proof {
            assert(pins_view(pins@)[i as int] == (pins@[i as int].0@, pins@[i as int].1));
            assert(pins_view(pins@).skip(i as int)[0] == pins_view(pins@)[i as int]);
        }
        if pins[i].0.eq(name) {
            return Some(pins[i].1);
        }
        proof {
            assert(pins_view(pins@).skip(i as int).drop_first() =~= pins_view(pins@).skip(
                i + 1,
            ));
        }
        i = i + 1;
    }
    proof {
        assert(pins_view(pins@).skip(pins.len() as int) =~= Seq::<(Seq<char>,
            IpAddress)>::empty());
    }
    None
}

/// The policy engine's state: the routing rules, the CIDR set, the cache,
/// the blacklist and the pin table. Everything but the cache is fixed after
/// construction.
pub struct RequestHandler {
    pub resolver_manager: ResolverManager,
    pub ip_manager: IpManager,
    pub cache: DnsCache,
    pub blacklist: Vec<String>,
    pub custom_domain_ip: Vec<(String, IpAddress)>,
}

#[verifier::ext_equal]
pub struct HandlerV {
    pub registry: RegistryV,
    pub cidrs: Seq<IpNetwork>,
    pub cache: Map<Seq<char>, CacheEntryV>,
    pub blacklist: Seq<Seq<char>>,
    pub pins: Seq<(Seq<char>, IpAddress)>,
}

impl View for RequestHandler {
    type V = HandlerV;

    open spec fn view(&self) -> HandlerV {
        HandlerV {
            registry: self.resolver_manager@,
            cidrs: self.ip_manager@,
            cache: self.cache@,
            blacklist: self.blacklist.deep_view(),
            pins: pins_view(self.custom_domain_ip@),
        }
    }
}

/// The outcome of the first step, before any upstream is asked.
pub open spec fn decide_outcome(h: HandlerV, req: MessageV, now: u64) -> HandleOutcomeV {
    if req.queries.len() == 0 {
        HandleOutcomeV::Done(response_view(req, ResponseCode::FormErr, Seq::empty()))
    } else {
        let name = normalize_spec(req.queries[0].name);
        if blacklist_has(h.blacklist, name) {
            HandleOutcomeV::Done(response_view(req, ResponseCode::NXDomain, Seq::empty()))
        } else {
            match pin_lookup(h.pins, name) {
                Some(ip) => HandleOutcomeV::Done(
                    response_view(
                        req,
                        ResponseCode::NoError,
                        seq![pin_record_view(name, req.queries[0].qtype, ip)],
                    ),
                ),
                None => match cache_lookup(h.cache, name, now) {
                    Some(records) => HandleOutcomeV::Done(
                        response_view(req, ResponseCode::NoError, records),
                    ),
                    None => match registry_lookup(h.registry, name) {
                        Some(u) => HandleOutcomeV::Lookup(Upstream::Specific(u)),
                        None => HandleOutcomeV::Lookup(Upstream::Domestic),
                    },
                },
            }
        }
    }
}

/// The cache after the first step: only the read against it can change it,
/// and only by purging an expired entry under the queried name.
pub open spec fn decide_cache(h: HandlerV, req: MessageV, now: u64) -> Map<Seq<char>, CacheEntryV> {
    if req.queries.len() == 0 {
        h.cache
    } else {
        let name = normalize_spec(req.queries[0].name);
        if blacklist_has(h.blacklist, name) || pin_lookup(h.pins, name) is Some {
            h.cache
        } else {
            cache_after_lookup(h.cache, name, now)
        }
    }
}

/// A response built from an upstream's result: the records on success, and
/// ServFail with no answers on failure.
pub open spec fn lookup_response(req: MessageV, result: Result<Seq<RecordV>, UpstreamError>) -> MessageV {
    match result {
        Result::Ok(records) => response_view(req, ResponseCode::NoError, records),
        Result::Err(e) => response_view(req, ResponseCode::ServFail, Seq::empty()),
    }
}

/// The view of an upstream result.
pub open spec fn result_view(result: Result<Vec<Record>, UpstreamError>) -> Result<
    Seq<RecordV>,
    UpstreamError,
> {
    match result {
        Result::Ok(records) => Result::Ok(records.deep_view()),
        Result::Err(e) => Result::Err(e),
    }
}

/// The outcome of the step after the domestic leg: a failed lookup is
/// ServFail; an answer with an in-region address is final; anything else goes
/// to the foreign leg.
pub open spec fn domestic_outcome(
    h: HandlerV,
    req: MessageV,
    result: Result<Seq<RecordV>, UpstreamError>,
    now: u64,
) -> HandleOutcomeV {
    match result {
        Result::Err(e) => HandleOutcomeV::Done(
            response_view(req, ResponseCode::ServFail, Seq::empty()),
        ),
        Result::Ok(records) => if any_in_set(h.cidrs, answer_ips(records)) {
            HandleOutcomeV::Done(response_view(req, ResponseCode::NoError, records))
        } else {
            HandleOutcomeV::Lookup(Upstream::Foreign)
        },
    }
}

/// The cache after the domestic step: written exactly when the answer stayed
/// domestic, and only under the queried name.
pub open spec fn domestic_cache(
    h: HandlerV,
    req: MessageV,
    result: Result<Seq<RecordV>, UpstreamError>,
    now: u64,
) -> Map<Seq<char>, CacheEntryV> {
    match result {
        Result::Err(e) => h.cache,
        Result::Ok(records) => if any_in_set(h.cidrs, answer_ips(records)) {
            cache_update(h.cache, normalize_spec(req.queries[0].name), records, now)
        } else {
            h.cache
        },
    }
}

/// The cache after the foreign step: the answer is written on success, and
/// nothing on failure.
pub open spec fn foreign_cache(
    h: HandlerV,
    req: MessageV,
    result: Result<Seq<RecordV>, UpstreamError>,
    now: u64,
) -> Map<Seq<char>, CacheEntryV> {
    match result {
        Result::Err(e) => h.cache,
        Result::Ok(records) => cache_update(
            h.cache,
            normalize_spec(req.queries[0].name),
            records,
            now,
        ),
    }
}

impl RequestHandler {
    /// The CIDR set's prefixes are well formed.
    pub open spec fn wf(&self) -> bool {
        self.ip_manager.wf()
    }

    pub fn new(
        resolver_manager: ResolverManager,
        ip_manager: IpManager,
        cache: DnsCache,
        blacklist: Vec<String>,
        custom_domain_ip: Vec<(String, IpAddress)>,
    ) -> (r: RequestHandler)
        requires
            ip_manager.wf(),
        ensures
            r.wf(),
            r@ == (HandlerV {
                registry: resolver_manager@,
                cidrs: ip_manager@,
                cache: cache@,
                blacklist: blacklist.deep_view(),
                pins: pins_view(custom_domain_ip@),
            }),
    {
        RequestHandler { resolver_manager, ip_manager, cache, blacklist, custom_domain_ip }
    }

    /// The first step of a request: answers directly from blacklist, pin
    /// table or cache, or names the upstream whose answer the next step
    /// needs. Only the cache read can change the state.
    pub fn handle_request(&mut self, request: &Message, now: u64) -> (r: HandleOutcome)
        requires
            old(self).wf(),
        ensures
            final(self).wf(),
            r@ == decide_outcome(old(self)@, request@, now),
            final(self)@ == (HandlerV { cache: decide_cache(old(self)@, request@, now), ..old(
                self,
            )@ }),
    {
        if request.queries.len() == 0 {
            let empty: Vec<Record> = Vec::new();
            proof {
                assert(empty.deep_view() =~= Seq::<RecordV>::empty());
            }
            let r = HandleOutcome::Done(build_response(request, ResponseCode::FormErr, empty));
            proof {
                assert(final(self)@ =~~= (HandlerV { cache: decide_cache(old(self)@, request@, now),
                    ..old(self)@ }));
            }
            return r;
        }
        proof {
            assert(request@.queries[0] == request.queries@[0]@);
        }
        let name = normalize_name(request.queries[0].name.as_str());
        if blacklist_contains(&self.blacklist, &name) {
            let empty: Vec<Record> = Vec::new();
            proof {
                assert(empty.deep_view() =~= Seq::<RecordV>::empty());
            }
            let r = HandleOutcome::Done(build_response(request, ResponseCode::NXDomain, empty));
            proof {
                assert(final(self)@ =~~= (HandlerV { cache: decide_cache(old(self)@, request@, now),
                    ..old(self)@ }));
            }
            return r;
        }
        match pin_lookup_exec(&self.custom_domain_ip, &name) {
            Some(ip) => {
                let rec = create_record(&name, request.queries[0].qtype, ip);
                let mut answers: Vec<Record> = Vec::new();
                answers.push(rec);
                let r = HandleOutcome::Done(
                    build_response(request, ResponseCode::NoError, answers),
                );
                proof {
                    let ghost n = normalize_spec(request@.queries[0].name);
                    assert(answers.deep_view() =~= seq![pin_record_view(n, request@.queries[0].qtype,
                        ip)]);
                    assert(final(self)@ =~~= (HandlerV { cache: decide_cache(old(self)@, request@,
                        now), ..old(self)@ }));
                }
                return r;
            },
            None => (),
        }
        match self.cache.get(&name, now) {
            Some(records) => {
                let r = HandleOutcome::Done(
                    build_response(request, ResponseCode::NoError, records),
                );
                proof {
                    assert(final(self)@ =~~= (HandlerV { cache: decide_cache(old(self)@, request@,
                        now), ..old(self)@ }));
                }
                return r;
            },
            None => (),
        }
        let r = match self.resolver_manager.get_resolver(&name) {
            Some(u) => HandleOutcome::Lookup(Upstream::Specific(u)),
            None => HandleOutcome::Lookup(Upstream::Domestic),
        };
        proof {
            assert(final(self)@ =~~= (HandlerV { cache: decide_cache(old(self)@, request@, now),
                ..old(self)@ }));
        }
        r
    }

    /// The step after a routed (specific) upstream answered. It takes the
    /// state immutably: a routed answer is never written to the cache.
    pub fn on_specific_response(&self, request: &Message, result: Result<
        Vec<Record>,
        UpstreamError,
    >) -> (r: Message)
        ensures
            r@ == lookup_response(request@, result_view(result)),
    {
        match result {
            Result::Ok(records) => build_response(request, ResponseCode::NoError, records),
            Result::Err(_) => {
                let empty: Vec<Record> = Vec::new();
                proof {
                    assert(empty.deep_view() =~= Seq::<RecordV>::empty());
                }
                build_response(request, ResponseCode::ServFail, empty)
            },
        }
    }

    /// The step after the domestic leg answered: keep and cache the answer
    /// when one of its addresses is in-region, fail on error without caching,
    /// and otherwise send the query to the foreign leg.
    pub fn on_domestic_response(
        &mut self,
        request: &Message,
        result: Result<Vec<Record>, UpstreamError>,
        now: u64,
    ) -> (r: HandleOutcome)
        requires
            old(self).wf(),
            request@.queries.len() > 0,
            now + 0xffff_ffffu64 <= u64::MAX,
        ensures
            final(self).wf(),
            r@ == domestic_outcome(old(self)@, request@, result_view(result), now),
            final(self)@ == (HandlerV { cache: domestic_cache(old(self)@, request@, result_view(
                result,
            ), now), ..old(self)@ }),
    {
        match result {
            Result::Err(_) => {
                let empty: Vec<Record> = Vec::new();
                proof {
                    assert(empty.deep_view() =~= Seq::<RecordV>::empty());
                }
                let r = HandleOutcome::Done(
                    build_response(request, ResponseCode::ServFail, empty),
                );
                proof {
                    assert(final(self)@ =~~= (HandlerV { cache: domestic_cache(old(self)@, request@,
                        result_view(result), now), ..old(self)@ }));
                }
                r
            },
            Result::Ok(records) => {
                let ips = extract_ips(&records);
                if any_domestic(&self.ip_manager, &ips) {
                    proof {
                        assert(request@.queries[0] == request.queries@[0]@);
                    }
                    let name = normalize_name(request.queries[0].name.as_str());
                    let resp = build_response(
                        request,
                        ResponseCode::NoError,
                        clone_records(&records),
                    );
                    self.cache.set(name, records, now);
                    let r = HandleOutcome::Done(resp);
                    proof {
                        assert(final(self)@ =~~= (HandlerV { cache: domestic_cache(old(self)@,
                            request@, result_view(result), now), ..old(self)@ }));
                    }
                    r
                } else {
                    HandleOutcome::Lookup(Upstream::Foreign)
                }
            },
        }
    }

    /// The step after the foreign leg answered: its answer is kept and, on
    /// success, written to the cache; on error nothing is cached.
    pub fn on_foreign_response(
        &mut self,
        request: &Message,
        result: Result<Vec<Record>, UpstreamError>,
        now: u64,
    ) -> (r: Message)
        requires
            old(self).wf(),
            request@.queries.len() > 0,
            now + 0xffff_ffffu64 <= u64::MAX,
        ensures
            final(self).wf(),
            r@ == lookup_response(request@, result_view(result)),
            final(self)@ == (HandlerV { cache: foreign_cache(old(self)@, request@, result_view(
                result,
            ), now), ..old(self)@ }),
    {
        match result {
            Result::Err(_) => {
                let empty: Vec<Record> = Vec::new();
                proof {
                    assert(empty.deep_view() =~= Seq::<RecordV>::empty());
                }
                let r = build_response(request, ResponseCode::ServFail, empty);
                proof {
                    assert(final(self)@ =~~= (HandlerV { cache: foreign_cache(old(self)@, request@,
                        result_view(result), now), ..old(self)@ }));
                }
                r
            },
            Result::Ok(records) => {
                proof {
                    assert(request@.queries[0] == request.queries@[0]@);
                }
                let name = normalize_name(request.queries[0].name.as_str());
                let resp = build_response(request, ResponseCode::NoError, clone_records(&records));
                self.cache.set(name, records, now);
                proof {
                    assert(final(self)@ =~~= (HandlerV { cache: foreign_cache(old(self)@, request@,
                        result_view(result), now), ..old(self)@ }));
                }
                resp
            },
        }
    }
}

/// Law (blacklist first): a blacklisted name is answered NXDomain with no
/// answers, whatever the cache and the pin table hold, and the state is
/// untouched.
pub proof fn lemma_blacklist_always_nxdomain(h: HandlerV, req: MessageV, now: u64)
    requires
        req.queries.len() > 0,
        blacklist_has(h.blacklist, normalize_spec(req.queries[0].name)),
    ensures
        decide_outcome(h, req, now) == HandleOutcomeV::Done(
            response_view(req, ResponseCode::NXDomain, Seq::empty()),
        ),
        decide_cache(h, req, now) == h.cache,
{
}

/// Law (response header): every response of the engine carries the request's
/// id and question, has the response bit on, is not authoritative, and has
/// recursion desired and available.
pub proof fn lemma_response_header(req: MessageV, code: ResponseCode, answers: Seq<RecordV>)
    ensures
        ({
            let r = response_view(req, code, answers);
            r.id == req.id && r.response && !r.authoritative && r.recursion_desired
                && r.recursion_available && r.queries == req.queries && r.rcode == code
                && r.answers == answers
        }),
{
}

} // verus!
