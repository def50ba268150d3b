//! The CIDR set: a deduplicated list of IP prefixes and the containment test
//! that decides whether an answer's address is in-region.

use vstd::prelude::*;

verus! {

/// An IP prefix: the address bits as given and the prefix length.
#[derive(Clone, Copy, PartialEq, Eq, Structural, Debug)]
pub enum IpNetwork {
    V4 { addr: u32, prefix_len: u8 },
    V6 { addr: u128, prefix_len: u8 },
}

/// A prefix length never exceeds the width of its address family.
pub open spec fn network_wf(c: IpNetwork) -> bool {
    match c {
        IpNetwork::V4 { prefix_len, .. } => prefix_len <= 32,
        IpNetwork::V6 { prefix_len, .. } => prefix_len <= 128,
    }
}

/// Containment: the top `prefix_len` bits of the address equal those of the
/// prefix. A v4 prefix never contains a v6 address, nor the converse.
pub open spec fn cidr_contains(c: IpNetwork, ip: crate::dns::IpAddress) -> bool {
    match (c, ip) {
        (IpNetwork::V4 { addr, prefix_len }, crate::dns::IpAddress::V4(a)) => {
            prefix_len == 0 || (a >> ((32 - prefix_len) as u32)) == (addr >> ((32
                - prefix_len) as u32))
        },
        (IpNetwork::V6 { addr, prefix_len }, crate::dns::IpAddress::V6(a)) => {
            prefix_len == 0 || (a >> ((128 - prefix_len) as u32)) == (addr >> ((128
                - prefix_len) as u32))
        },
        _ => false,
    }
}

/// What ipnet's textual-prefix parser returns on a given line.
pub uninterp spec fn parsed_cidr(s: Seq<char>) -> Option<IpNetwork>;

/// Relies on ipnet's `FromStr` for `IpNet`: parses `addr/len` in either
/// address family, and rejects prefix lengths over the address width, so a
/// parsed prefix is well formed.
#[verifier::external_body]
fn parse_cidr(s: &str) -> (r: Option<IpNetwork>)
    ensures
        r == parsed_cidr(s@),
        (r matches Some(c) ==> network_wf(c)),
{
    match s.parse::<ipnet::IpNet>() {
        Ok(ipnet::IpNet::V4(n)) => Some(
            IpNetwork::V4 { addr: u32::from(n.addr()), prefix_len: n.prefix_len() },
        ),
        Ok(ipnet::IpNet::V6(n)) => Some(
            IpNetwork::V6 { addr: u128::from(n.addr()), prefix_len: n.prefix_len() },
        ),
        Err(_) => None,
    }
}

/// The set grown by one prefix, skipping duplicates.
pub open spec fn add_cidr(s: Seq<IpNetwork>, c: IpNetwork) -> Seq<IpNetwork> {
    if s.contains(c) {
        s
    } else {
        s.push(c)
    }
}

/// The set grown by every line that parses, in order; malformed lines are
/// skipped.
pub open spec fn load_cidrs_spec(s: Seq<IpNetwork>, lines: Seq<Seq<char>>) -> Seq<IpNetwork>
    decreases lines.len(),
{
    if lines.len() == 0 {
        s
    } else {
        let prev = load_cidrs_spec(s, lines.drop_last());
        match parsed_cidr(lines.last()) {
            Some(c) => add_cidr(prev, c),
            None => prev,
        }
    }
}

/// The curated set of in-region prefixes.
pub struct IpManager {
    cidr_set: Vec<IpNetwork>,
}

impl View for IpManager {
    type V = Seq<IpNetwork>;

    closed spec fn view(&self) -> Seq<IpNetwork> {
        self.cidr_set@
    }
}

impl IpManager {
    /// Every held prefix is well formed and occurs once.
    pub open spec fn wf(&self) -> bool {
        &&& (forall|i: int| 0 <= i < self@.len() ==> network_wf(#[trigger] self@[i]))
        &&& (forall|i: int, j: int| 0 <= i < j < self@.len() ==> self@[i] != self@[j])
    }

    pub fn new() -> (r: IpManager)
        ensures
            r@ == Seq::<IpNetwork>::empty(),
            r.wf(),
    {
        IpManager { cidr_set: Vec::new() }
    }

    fn insert(&mut self, c: IpNetwork)
        requires
            old(self).wf(),
            network_wf(c),
        ensures
            final(self).wf(),
            final(self)@ == add_cidr(old(self)@, c),
    {
        let ghost s = self@;
        let mut i: usize = 0;
        while i < self.cidr_set.len()
            invariant
                self@ == s,
                self.wf(),
                i <= self.cidr_set.len(),
                forall|k: int| 0 <= k < i ==> self@[k] != c,
            decreases self.cidr_set.len() - i,
        {
            if self.cidr_set[i] == c {
                proof {
                    assert(s.contains(c));
                }
                return ;
            }
            i = i + 1;
        }
        proof {
            assert(!s.contains(c));
        }
        self.cidr_set.push(c);
    }

    /// Takes textual prefixes, one per entry; entries that do not parse are
    /// skipped, duplicates are kept once.
    pub fn load_cidrs(&mut self, cidr_list: &Vec<String>)
        requires
            old(self).wf(),
        ensures
            final(self).wf(),
            final(self)@ == load_cidrs_spec(old(self)@, cidr_list.deep_view()),
    {
        let ghost lines = cidr_list.deep_view();
        let mut i: usize = 0;
        while i < cidr_list.len()
            invariant
                i <= cidr_list.len(),
                lines == cidr_list.deep_view(),
                lines.len() == cidr_list.len(),
                self.wf(),
                self@ == load_cidrs_spec(old(self)@, lines.take(i as int)),
            decreases cidr_list.len() - i,
        {
            proof {
                assert(lines[i as int] == cidr_list@[i as int]@);
                assert(lines.take(i + 1).drop_last() =~= lines.take(i as int));
                assert(lines.take(i + 1).last() == lines[i as int]);
            }
            match parse_cidr(cidr_list[i].as_str()) {
                Some(c) => self.insert(c),
                None => (),
            }
            i = i + 1;
        }
        proof {
            assert(lines.take(cidr_list.len() as int) =~= lines);
        }
    }

    /// The membership test of the split decision: true exactly when some
    /// prefix of the set contains the address.
    pub fn is_domestic(&self, ip: crate::dns::IpAddress) -> (r: bool)
        requires
            self.wf(),
        ensures
            r == exists|i: int|
                0 <= i < self@.len() && cidr_contains(#[trigger] self@[i], ip),
    {
        let mut i: usize = 0;
        while i < self.cidr_set.len()
            invariant
                i <= self.cidr_set.len(),
                self.wf(),
                forall|k: int| 0 <= k < i ==> !cidr_contains(#[trigger] self@[k], ip),
            decreases self.cidr_set.len() - i,
        {
            proof {
                assert(self@[i as int] == self.cidr_set@[i as int]);
                assert(network_wf(self@[i as int]));
            }
            if contains_exec(&self.cidr_set[i], ip) {
                proof {
                    assert(cidr_contains(self@[i as int], ip));
                }
                return true;
            }
            i = i + 1;
        }
        false
    }
}

/// One prefix's containment test, as executable code.
fn contains_exec(c: &IpNetwork, ip: crate::dns::IpAddress) -> (r: bool)
    requires
        network_wf(*c),
    ensures
        r == cidr_contains(*c, ip),
{
    match (c, ip) {
        (IpNetwork::V4 { addr, prefix_len }, crate::dns::IpAddress::V4(a)) => {
            if *prefix_len == 0 {
                true
            } else {
                let sh: u32 = (32 - *prefix_len) as u32;
                (a >> sh) == (*addr >> sh)
            }
        },
        (IpNetwork::V6 { addr, prefix_len }, crate::dns::IpAddress::V6(a)) => {
            if *prefix_len == 0 {
                true
            } else {
                let sh: u32 = (128 - *prefix_len) as u32;
                (a >> sh) == (*addr >> sh)
            }
        },
        _ => false,
    }
}

} // verus!
