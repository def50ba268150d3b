//! The data model of the resolver: addresses, resource records, questions and
//! messages, with their mathematical views.

use vstd::prelude::*;

verus! {

/// An IP address, as the split decision sees it: the raw bits of a
/// version 4 or version 6 address.
#[derive(Clone, Copy, PartialEq, Eq, Structural, Debug)]
pub enum IpAddress {
    V4(u32),
    V6(u128),
}

/// The kind of a question: address (`A`), IPv6 address (`Aaaa`), or any other
/// record type, carried by its wire code and forwarded verbatim.
#[derive(Clone, Copy, PartialEq, Eq, Structural, Debug)]
pub enum QueryKind {
    A,
    Aaaa,
    Other(u16),
}

/// Resource record data. `A` and `Aaaa` carry address bits, `Null` opaque
/// bytes (used for synthetic pin answers that cannot satisfy the query type),
/// and `Other` any further record type as (wire type code, encoded rdata).
#[derive(Clone, Debug, PartialEq, Eq)]
pub enum RData {
    A(u32),
    Aaaa(u128),
    Null(Vec<u8>),
    Other(u16, Vec<u8>),
}

/// The view of `RData`: byte payloads become sequences.
pub enum RDataV {
    A(u32),
    Aaaa(u128),
    Null(Seq<u8>),
    Other(u16, Seq<u8>),
}

impl View for RData {
    type V = RDataV;

    open spec fn view(&self) -> RDataV {
        match self {
            RData::A(a) => RDataV::A(*a),
            RData::Aaaa(a) => RDataV::Aaaa(*a),
            RData::Null(b) => RDataV::Null(b@),
            RData::Other(code, b) => RDataV::Other(*code, b@),
        }
    }
}

impl DeepView for RData {
    type V = RDataV;

    open spec fn deep_view(&self) -> RDataV {
        self.view()
    }
}

/// A resource record: owner name, time to live in seconds, and data. The
/// record's type is the one implied by its data.
#[derive(Clone, Debug, PartialEq, Eq)]
pub struct Record {
    pub name: String,
    pub ttl: u32,
    pub rdata: RData,
}

pub struct RecordV {
    pub name: Seq<char>,
    pub ttl: u32,
    pub rdata: RDataV,
}

impl View for Record {
    type V = RecordV;

    open spec fn view(&self) -> RecordV {
        RecordV { name: self.name@, ttl: self.ttl, rdata: self.rdata@ }
    }
}

impl DeepView for Record {
    type V = RecordV;

    open spec fn deep_view(&self) -> RecordV {
        self.view()
    }
}

/// One question of a message: a name and the kind asked for.
#[derive(Clone, Debug, PartialEq, Eq)]
pub struct Question {
    pub name: String,
    pub qtype: QueryKind,
}

pub struct QuestionV {
    pub name: Seq<char>,
    pub qtype: QueryKind,
}

impl View for Question {
    type V = QuestionV;

    open spec fn view(&self) -> QuestionV {
        QuestionV { name: self.name@, qtype: self.qtype }
    }
}

impl DeepView for Question {
    type V = QuestionV;

    open spec fn deep_view(&self) -> QuestionV {
        self.view()
    }
}

/// The response codes this server produces.
#[derive(Clone, Copy, PartialEq, Eq, Structural, Debug)]
pub enum ResponseCode {
    NoError,
    FormErr,
    ServFail,
    NXDomain,
}

/// A DNS message, reduced to what the policy reads and writes: header fields,
/// the question section and the answer section.
#[derive(Clone, Debug, PartialEq, Eq)]
pub struct Message {
    pub id: u16,
    pub response: bool,
    pub authoritative: bool,
    pub recursion_desired: bool,
    pub recursion_available: bool,
    pub rcode: ResponseCode,
    pub queries: Vec<Question>,
    pub answers: Vec<Record>,
}

pub struct MessageV {
    pub id: u16,
    pub response: bool,
    pub authoritative: bool,
    pub recursion_desired: bool,
    pub recursion_available: bool,
    pub rcode: ResponseCode,
    pub queries: Seq<QuestionV>,
    pub answers: Seq<RecordV>,
}

impl View for Message {
    type V = MessageV;

    open spec fn view(&self) -> MessageV {
        MessageV {
            id: self.id,
            response: self.response,
            authoritative: self.authoritative,
            recursion_desired: self.recursion_desired,
            recursion_available: self.recursion_available,
            rcode: self.rcode,
            queries: self.queries.deep_view(),
            answers: self.answers.deep_view(),
        }
    }
}

pub fn clone_bytes(v: &Vec<u8>) -> (r: Vec<u8>)
    ensures
        r@ == v@,
{
    let mut r: Vec<u8> = Vec::new();
    let mut i: usize = 0;
    while i < v.len()
        invariant
            i <= v.len(),
            r@ == v@.take(i as int),
        decreases v.len() - i,
    {
        r.push(v[i]);
        i = i + 1;
        proof {
            assert(r@ =~= v@.take(i as int));
        }
    }
    proof {
        assert(r@ =~= v@);
    }
    r
}

pub fn clone_rdata(d: &RData) -> (r: RData)
    ensures
        r@ == d@,
{
    match d {
        RData::A(a) => RData::A(*a),
        RData::Aaaa(a) => RData::Aaaa(*a),
        RData::Null(b) => RData::Null(clone_bytes(b)),
        RData::Other(code, b) => RData::Other(*code, clone_bytes(b)),
    }
}

pub fn clone_record(rec: &Record) -> (r: Record)
    ensures
        r@ == rec@,
{
    Record { name: rec.name.clone(), ttl: rec.ttl, rdata: clone_rdata(&rec.rdata) }
}

pub fn clone_records(rs: &Vec<Record>) -> (r: Vec<Record>)
    ensures
        r.deep_view() == rs.deep_view(),
{
    let mut r: Vec<Record> = Vec::new();
    let mut i: usize = 0;
    while i < rs.len()
        invariant
            i <= rs.len(),
            r@.len() == i,
            forall|k: int| 0 <= k < i ==> #[trigger] r@[k].deep_view() == rs@[k].deep_view(),
        decreases rs.len() - i,
    {
        r.push(clone_record(&rs[i]));
        i = i + 1;
    }
    proof {
        assert forall|k: int| 0 <= k < rs@.len() implies r.deep_view()[k]
            == rs.deep_view()[k] by {
            assert(r@[k].deep_view() == rs@[k].deep_view());
        }
        assert(r.deep_view() =~= rs.deep_view());
    }
    r
}

pub fn clone_question(q: &Question) -> (r: Question)
    ensures
        r@ == q@,
{
    Question { name: q.name.clone(), qtype: q.qtype }
}

pub fn clone_questions(qs: &Vec<Question>) -> (r: Vec<Question>)
    ensures
        r.deep_view() == qs.deep_view(),
{
    let mut r: Vec<Question> = Vec::new();
    let mut i: usize = 0;
    while i < qs.len()
        invariant
            i <= qs.len(),
            r@.len() == i,
            forall|k: int| 0 <= k < i ==> #[trigger] r@[k].deep_view() == qs@[k].deep_view(),
        decreases qs.len() - i,
    {
        r.push(clone_question(&qs[i]));
        i = i + 1;
    }
    proof {
        assert forall|k: int| 0 <= k < qs@.len() implies r.deep_view()[k]
            == qs.deep_view()[k] by {
            assert(r@[k].deep_view() == qs@[k].deep_view());
        }
        assert(r.deep_view() =~= qs.deep_view());
    }
    r
}

/// The least time to live among the records from position `i` on; zero for an
/// empty range.
pub open spec fn min_ttl_from(rs: Seq<RecordV>, i: int) -> u32
    decreases rs.len() - i,
{
    if i < 0 || i >= rs.len() {
        0u32
    } else if i == rs.len() - 1 {
        rs[i].ttl
    } else {
        let m = min_ttl_from(rs, i + 1);
        if rs[i].ttl <= m {
            rs[i].ttl
        } else {
            m
        }
    }
}

/// The least time to live among a record set; zero when it is empty.
pub open spec fn min_ttl(rs: Seq<RecordV>) -> u32 {
    min_ttl_from(rs, 0)
}

pub fn min_ttl_exec(rs: &Vec<Record>) -> (m: u32)
    requires
        rs.len() > 0,
    ensures
        m == min_ttl(rs.deep_view()),
{
    let ghost v = rs.deep_view();
    let mut i: usize = rs.len() - 1;
    let mut cur: u32 = rs[i].ttl;
    proof {
        assert(cur == min_ttl_from(v, i as int));
    }
    while i > 0
        invariant
            i < rs.len(),
            v == rs.deep_view(),
            v.len() == rs.len(),
            cur == min_ttl_from(v, i as int),
        decreases i,
    {
        i = i - 1;
        let t = rs[i].ttl;
        if t <= cur {
            cur = t;
        }
    }
    cur
}

} // verus!
