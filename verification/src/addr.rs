//! Addresses, and their extraction from a response message.

use domain::base::Message;
use domain::rdata::{Aaaa, A};
use vstd::prelude::*;

verus! {

/// The record type of an IPv4 address record.
pub const RTYPE_A: u16 = 1;

/// The record type of an IPv6 address record.
pub const RTYPE_AAAA: u16 = 28;

/// An IP address, as its octets in network order.
#[derive(Clone, Copy, Debug, PartialEq, Eq, Hash)]
pub enum IpAddress {
    V4([u8; 4]),
    V6([u8; 16]),
}

/// An address with its time to live, in seconds.
pub type AddressTtl = (IpAddress, u32);

/// What the extraction reads of one record of an answer section.
#[derive(Clone, Copy, Debug, PartialEq, Eq)]
pub struct AnswerRecord {
    /// The record type.
    pub rtype: u16,
    /// The time to live, in seconds.
    pub ttl: u32,
    /// The address, where the record data reads as that of an A record.
    pub a: Option<[u8; 4]>,
    /// The address, where the record data reads as that of an AAAA record.
    pub aaaa: Option<[u8; 16]>,
}

/// The answer section of a message as `domain` reads it: one entry for each
/// record that its iterator hands out, `None` for an entry that did not
/// parse. The whole is `None` where the message is shorter than a header or
/// its question section cannot be passed.
pub uninterp spec fn answer_records(message: Seq<u8>) -> Option<Seq<Option<AnswerRecord>>>;

/// `Message::from_octets`, `Message::answer` and the records of the section
/// it returns, each reduced to its type (`ParsedRecord::rtype`), its TTL
/// (`ParsedRecord::ttl`) and its data read as A and as AAAA
/// (`ParsedRecord::to_record`, which gives no record for another type or
/// for data that does not parse). The result is the named reading of the
/// message.
#[verifier::external_body]
fn read_answer_section(message: &[u8]) -> (slots: Option<Vec<Option<AnswerRecord>>>)
    ensures
        match slots {
            Some(s) => answer_records(message@) == Some(s@),
            None => answer_records(message@) is None,
        },
{
    let parsed = Message::from_octets(message).ok()?;
    let section = parsed.answer().ok()?;
    Some(section.map(|item| item.ok().map(|record| AnswerRecord {
        rtype: record.rtype().to_int(),
        ttl: record.ttl().as_secs(),
        a: record.to_record::<A>().ok().flatten().map(|r| r.data().addr().octets()),
        aaaa: record.to_record::<Aaaa>().ok().flatten().map(|r| r.data().addr().octets()),
    })).collect())
}

/// The address that an entry of the answer section stands for: that of an
/// A or AAAA record whose data parsed, with the record's TTL. Every other
/// entry stands for none.
pub open spec fn address_of(slot: Option<AnswerRecord>) -> Option<AddressTtl> {
    match slot {
        Some(record) => if record.rtype == RTYPE_A {
            match record.a {
                Some(octets) => Some((IpAddress::V4(octets), record.ttl)),
                None => None,
            }
        } else if record.rtype == RTYPE_AAAA {
            match record.aaaa {
                Some(octets) => Some((IpAddress::V6(octets), record.ttl)),
                None => None,
            }
        } else {
            None
        },
        None => None,
    }
}

/// The addresses among the entries, in their order.
pub open spec fn addresses(slots: Seq<Option<AnswerRecord>>) -> Seq<AddressTtl>
    decreases slots.len(),
{
    if slots.len() == 0 {
        Seq::empty()
    } else {
        match address_of(slots[0]) {
            Some(address) => seq![address] + addresses(slots.skip(1)),
            None => addresses(slots.skip(1)),
        }
    }
}

/// The addresses that a response message holds: those of its answer
/// section, none where the section cannot be reached.
pub open spec fn message_addresses(message: Seq<u8>) -> Seq<AddressTtl> {
    match answer_records(message) {
        Some(slots) => addresses(slots),
        None => Seq::empty(),
    }
}

/// The addresses of `front + back` are those of `front` followed by those
/// of `back`.
pub proof fn lemma_addresses_concat(front: Seq<Option<AnswerRecord>>, back: Seq<Option<AnswerRecord>>)
    ensures
        addresses(front + back) == addresses(front) + addresses(back),
    decreases front.len(),
{
    if front.len() > 0 {
        assert((front + back).skip(1) =~= front.skip(1) + back);
        lemma_addresses_concat(front.skip(1), back);
    }
}

/// Extraction yields exactly the address records, in section order: an
/// entry that is an address record adds its address and TTL at its place
/// among the others, and an entry that is none, wherever it stands among
/// them, adds nothing.
pub proof fn lemma_addresses_around(
    front: Seq<Option<AnswerRecord>>,
    slot: Option<AnswerRecord>,
    back: Seq<Option<AnswerRecord>>,
)
    ensures
        addresses(front + seq![slot] + back) == match address_of(slot) {
            Some(address) => addresses(front) + seq![address] + addresses(back),
            None => addresses(front) + addresses(back),
        },
{
    lemma_addresses_concat(front + seq![slot], back);
    lemma_addresses_concat(front, seq![slot]);
    reveal_with_fuel(addresses, 2);
}

/// The address of one entry, as `address_of` gives it.
fn slot_address(slot: &Option<AnswerRecord>) -> (address: Option<AddressTtl>)
    ensures
        address == address_of(*slot),
{
    match slot {
        Some(record) => {
            if record.rtype == RTYPE_A {
                match record.a {
                    Some(octets) => Some((IpAddress::V4(octets), record.ttl)),
                    None => None,
                }
            } else if record.rtype == RTYPE_AAAA {
                match record.aaaa {
                    Some(octets) => Some((IpAddress::V6(octets), record.ttl)),
                    None => None,
                }
            } else {
                None
            }
        },
        None => None,
    }
}

/// A single pass over the addresses of a response.
#[derive(Debug)]
pub struct Iter {
    slots: Vec<Option<AnswerRecord>>,
    position: usize,
}

impl View for Iter {
    type V = Seq<AddressTtl>;

    /// The addresses still to come.
    closed spec fn view(&self) -> Seq<AddressTtl> {
        addresses(self.slots@.skip(self.position as int))
    }
}

impl Iter {
    #[verifier::type_invariant]
    spec fn within(self) -> bool {
        self.position <= self.slots.len()
    }

    /// Hands out the next address and moves past it, skipping every entry
    /// that is no address. `None` once no address is left.
    pub fn next(&mut self) -> (item: Option<AddressTtl>)
        ensures
            match item {
                Some(address) => old(self)@.len() > 0 && address == old(self)@[0]
                    && final(self)@ == old(self)@.skip(1),
                None => old(self)@.len() == 0 && final(self)@.len() == 0,
            },
    {
        proof {
            use_type_invariant(&*self);
        }
        while self.position < self.slots.len()
            invariant
                self.position <= self.slots.len(),
                self.slots == old(self).slots,
                addresses(self.slots@.skip(self.position as int)) == old(self)@,
            decreases self.slots.len() - self.position,
        {
            let found = slot_address(&self.slots[self.position]);
            proof {
                let rest = self.slots@.skip(self.position as int);
                assert(rest.skip(1) =~= self.slots@.skip(self.position as int + 1));
            }
            self.position = self.position + 1;
            if let Some(address) = found {
                return Some(address);
            }
        }
        None
    }
}

/// A response message, kept for the addresses in it.
#[derive(Debug)]
pub struct IpAddresses {
    message: Vec<u8>,
}

impl View for IpAddresses {
    type V = Seq<u8>;

    /// The octets of the message.
    closed spec fn view(&self) -> Seq<u8> {
        self.message@
    }
}

impl IpAddresses {
    /// Keeps a response message as it came off the wire.
    pub fn from(message: Vec<u8>) -> (response: IpAddresses)
        ensures
            response@ == message@,
    {
        IpAddresses { message }
    }

    /// The octets of the message.
    pub fn as_bytes(&self) -> (octets: &Vec<u8>)
        ensures
            octets@ == self@,
    {
        &self.message
    }

    /// A fresh pass over the addresses of the answer section: every A and
    /// AAAA record in section order, each with its TTL, and nothing else.
    /// It is empty where the message has no answer section to reach.
    pub fn iter(&self) -> (pass: Iter)
        ensures
            pass@ == message_addresses(self@),
    {
        match read_answer_section(self.message.as_slice()) {
            Some(slots) => {
                assert(slots@.skip(0) =~= slots@);
                Iter { slots, position: 0 }
            },
            None => {
                let slots: Vec<Option<AnswerRecord>> = Vec::new();
                Iter { slots, position: 0 }
            },
        }
    }

    /// All addresses of the answer section, in section order.
    pub fn addresses(&self) -> (found: Vec<AddressTtl>)
        ensures
            found@ == message_addresses(self@),
    {
        let mut pass = self.iter();
        let mut found: Vec<AddressTtl> = Vec::new();
        loop
            invariant
                found@ + pass@ == message_addresses(self@),
            ensures
                found@ == message_addresses(self@),
            decreases pass@.len(),
        {
            match pass.next() {
                Some(address) => {
                    found.push(address);
                },
                None => {
                    break;
                },
            }
        }
        found
    }
}

} // verus!
