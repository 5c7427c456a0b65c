//! A stub DNS resolver's query engine: the search-domain policy, the
//! nameserver sequence, the query message, the UDP-first transport policy
//! and the extraction of addresses from a response.
//!
//! The engine performs no I/O. Each layer that waits on the network is a
//! step function: it says what has to be done next and takes what came of
//! it. A caller runs the loop and the sockets.

pub mod addr;
pub mod errors;
pub mod lookups;
pub mod message;
pub mod name;
pub mod resolvers;

use crate::addr::IpAddress;
use core::time::Duration;
use vstd::prelude::*;

verus! {

/// The texts of a list of strings.
pub open spec fn texts(list: Seq<String>) -> Seq<Seq<char>> {
    Seq::new(list.len(), |i: int| list[i]@)
}

/// An address and a port: where a nameserver listens.
#[derive(Clone, Copy, Debug, PartialEq, Eq)]
pub struct SocketAddress {
    pub ip: IpAddress,
    pub port: u16,
}

/// One line of a hosts table: an address and the names that map to it.
/// The names form a set: none occurs twice.
///
/// The set is held as a vector, in the order in which the names were
/// first given. Of a tree set or a hash set of strings nothing can be
/// proved here: what such a set holds after an insertion is stated only
/// for keys whose ordering or hashing obeys laws, and for strings there
/// are none to go by.
#[derive(Debug, PartialEq)]
pub struct HostEntry {
    ip: IpAddress,
    hosts: Vec<String>,
}

impl HostEntry {
    #[verifier::type_invariant]
    spec fn distinct(self) -> bool {
        texts(self.hosts@).no_duplicates()
    }

    /// The address of the entry.
    pub closed spec fn address(self) -> IpAddress {
        self.ip
    }

    /// The names of the entry, each once, in the order in which they were
    /// first given.
    pub closed spec fn names(self) -> Seq<Seq<char>> {
        texts(self.hosts@)
    }

    /// An entry for `ip` with the names in `hosts`. A name that is given
    /// more than once is kept once, at its first place.
    pub fn new(ip: IpAddress, hosts: Vec<String>) -> (entry: HostEntry)
        ensures
            entry.address() == ip,
            entry.names().no_duplicates(),
            entry.names().to_set() == texts(hosts@).to_set(),
            entry.names() == first_occurrences(texts(hosts@)),
    {
        let mut kept: Vec<String> = Vec::new();
        let mut at: usize = 0;
        while at < hosts.len()
            invariant
                at <= hosts.len(),
                texts(kept@) == first_occurrences(texts(hosts@).take(at as int)),
            decreases hosts.len() - at,
        {
            let host = &hosts[at];
            let mut seen = false;
            let mut back: usize = 0;
            while back < kept.len()
                invariant
                    back <= kept.len(),
                    seen == texts(kept@).take(back as int).contains(host@),
                decreases kept.len() - back,
            {
                let same = kept[back] == *host;
                proof {
                    if same {
                        assert(texts(kept@).take(back + 1)[back as int] == host@);
                    }
                }
                seen = seen || same;
                back = back + 1;
            }
            proof {
                assert(texts(kept@).take(kept@.len() as int) =~= texts(kept@));
                let front = texts(hosts@).take(at as int);
                assert(texts(hosts@).take(at + 1) =~= front.push(host@));
                lemma_first_occurrences_push(front, host@);
            }
            if !seen {
                kept.push(host.clone());
            }
            at = at + 1;
        }
        proof {
            assert(texts(hosts@).take(hosts@.len() as int) =~= texts(hosts@));
            lemma_first_occurrences(texts(hosts@));
        }
        HostEntry { ip, hosts: kept }
    }

    /// The address of the entry.
    pub fn ip(&self) -> (ip: IpAddress)
        ensures
            ip == self.address(),
    {
        self.ip
    }

    /// The names of the entry.
    pub fn hosts(&self) -> (hosts: &Vec<String>)
        ensures
            texts(hosts@) == self.names(),
            self.names().no_duplicates(),
    {
        proof {
            use_type_invariant(self);
        }
        &self.hosts
    }
}

impl Clone for HostEntry {
    /// An entry with the same address and the same names.
    fn clone(&self) -> (copy: HostEntry)
        ensures
            copy.address() == self.address(),
            copy.names() == self.names(),
    {
        proof {
            use_type_invariant(self);
        }
        let mut hosts: Vec<String> = Vec::new();
        let mut at: usize = 0;
        while at < self.hosts.len()
            invariant
                at <= self.hosts.len(),
                hosts@.len() == at,
                texts(hosts@) == texts(self.hosts@).take(at as int),
            decreases self.hosts.len() - at,
        {
            let copy = self.hosts[at].clone();
            proof {
                assert(texts(hosts@.push(copy)) =~= texts(self.hosts@).take(at + 1));
            }
            hosts.push(copy);
            at = at + 1;
        }
        HostEntry { ip: self.ip, hosts }
    }
}

/// `list` without the items that occurred before.
pub open spec fn first_occurrences(list: Seq<Seq<char>>) -> Seq<Seq<char>>
    decreases list.len(),
{
    if list.len() == 0 {
        Seq::empty()
    } else if first_occurrences(list.drop_last()).contains(list.last()) {
        first_occurrences(list.drop_last())
    } else {
        first_occurrences(list.drop_last()).push(list.last())
    }
}

/// How `first_occurrences` grows with the list.
pub proof fn lemma_first_occurrences_push(list: Seq<Seq<char>>, item: Seq<char>)
    ensures
        first_occurrences(list.push(item)) == if first_occurrences(list).contains(item) {
            first_occurrences(list)
        } else {
            first_occurrences(list).push(item)
        },
{
    assert(list.push(item).drop_last() =~= list);
}

/// `first_occurrences` keeps every item of the list, once.
pub proof fn lemma_first_occurrences(list: Seq<Seq<char>>)
    ensures
        first_occurrences(list).no_duplicates(),
        first_occurrences(list).to_set() == list.to_set(),
    decreases list.len(),
{
    if list.len() > 0 {
        let front = list.drop_last();
        let kept = first_occurrences(front);
        lemma_first_occurrences(front);
        assert forall|x: Seq<char>| list.to_set().contains(x) <==> first_occurrences(list).to_set().contains(
            x,
        ) by {
            if list.contains(x) {
                let k = choose|k: int| 0 <= k < list.len() && list[k] == x;
                if k < front.len() {
                    assert(front[k] == x);
                    assert(front.to_set().contains(x));
                    let j = choose|j: int| 0 <= j < kept.len() && kept[j] == x;
                    assert(first_occurrences(list)[j] == x);
                } else if !kept.contains(x) {
                    assert(first_occurrences(list)[kept.len() as int] == x);
                }
            }
            if first_occurrences(list).contains(x) {
                let j = choose|j: int| 0 <= j < first_occurrences(list).len() && first_occurrences(list)[j] == x;
                if j < kept.len() {
                    assert(kept.to_set().contains(x));
                }
            }
        }
    }
}

/// The configuration of a resolver as a value of specifications.
pub struct ResolverView {
    /// The hosts table.
    pub entries: Seq<HostEntry>,
    /// The search suffixes, in the order of preference.
    pub search: Seq<Seq<char>>,
    /// The nameservers, in the order in which they are asked.
    pub nameservers: Seq<SocketAddress>,
    /// The time that one attempt may take.
    pub timeout: Duration,
    /// The number of dots that decides between the two ways of lookup.
    pub ndots: u8,
    /// The attempts on each transport, for each nameserver.
    pub attempts: u8,
    /// Whether the nameservers are to be rotated.
    pub rotate: bool,
    /// The UDP payload size that each query advertises.
    pub udp_payload_size: u16,
}

/// A resolver: its configuration, fixed when it is made.
pub struct DnsResolver {
    entries: Vec<HostEntry>,
    search: Vec<String>,
    nameservers: Vec<SocketAddress>,
    timeout: Duration,
    ndots: u8,
    attempts: u8,
    rotate: bool,
    udp_payload_size: u16,
}

impl View for DnsResolver {
    type V = ResolverView;

    closed spec fn view(&self) -> ResolverView {
        ResolverView {
            entries: self.entries@,
            search: texts(self.search@),
            nameservers: self.nameservers@,
            timeout: self.timeout,
            ndots: self.ndots,
            attempts: self.attempts,
            rotate: self.rotate,
            udp_payload_size: self.udp_payload_size,
        }
    }
}

impl DnsResolver {
    /// A resolver with the given configuration.
    pub fn new(
        entries: Vec<HostEntry>,
        search: Vec<String>,
        nameservers: Vec<SocketAddress>,
        timeout: Duration,
        ndots: u8,
        attempts: u8,
        rotate: bool,
        udp_payload_size: u16,
    ) -> (resolver: DnsResolver)
        ensures
            resolver@ == (ResolverView {
                entries: entries@,
                search: texts(search@),
                nameservers: nameservers@,
                timeout,
                ndots,
                attempts,
                rotate,
                udp_payload_size,
            }),
    {
        DnsResolver { entries, search, nameservers, timeout, ndots, attempts, rotate, udp_payload_size }
    }

    /// The hosts table.
    pub fn entries(&self) -> (entries: &Vec<HostEntry>)
        ensures
            entries@ == self@.entries,
    {
        &self.entries
    }

    /// The search suffixes, in the order of preference.
    pub fn search(&self) -> (search: &Vec<String>)
        ensures
            texts(search@) == self@.search,
    {
        &self.search
    }

    /// The nameservers, in the order in which they are asked.
    pub fn nameservers(&self) -> (nameservers: &Vec<SocketAddress>)
        ensures
            nameservers@ == self@.nameservers,
    {
        &self.nameservers
    }

    /// The time that one attempt may take.
    pub fn timeout(&self) -> (timeout: Duration)
        ensures
            timeout == self@.timeout,
    {
        self.timeout
    }

    /// The number of dots that decides between the two ways of lookup.
    pub fn ndots(&self) -> (ndots: u8)
        ensures
            ndots == self@.ndots,
    {
        self.ndots
    }

    /// The attempts on each transport, for each nameserver.
    pub fn attempts(&self) -> (attempts: u8)
        ensures
            attempts == self@.attempts,
    {
        self.attempts
    }

    /// Whether the nameservers are to be rotated.
    pub fn rotate(&self) -> (rotate: bool)
        ensures
            rotate == self@.rotate,
    {
        self.rotate
    }

    /// The UDP payload size that each query advertises.
    pub fn udp_payload_size(&self) -> (udp_payload_size: u16)
        ensures
            udp_payload_size == self@.udp_payload_size,
    {
        self.udp_payload_size
    }
}

} // verus!
