//! The query message: how it is built, and what is read of a message's
//! header.
//!
//! A query holds the header, one question and, in the additional section,
//! one OPT record that advertises the UDP payload size. It is built by the
//! `domain` crate, call by call; this module states what each call does to
//! the octets and proves what comes out.

use crate::errors::Error;
use crate::name::{is_wire_name, labels_end, name_octets, AbsoluteName};
use core::convert::Infallible;
use domain::base::iana::{Class, Rtype};
use domain::base::message_builder::{
    AdditionalBuilder, MessageBuilder, PushError, QuestionBuilder, StaticCompressor,
};
use domain::base::name::Name;
use domain::base::Question as WireQuestion;
use vstd::prelude::*;
use vstd::slice::{slice_subrange, slice_to_vec};

verus! {

/// The length of a message header.
pub const HEADER_LEN: usize = 12;

/// The class of the Internet.
pub const CLASS_IN: u16 = 1;

/// The length of the longest query: 27 octets around a name of 255.
pub const MAX_QUERY_LEN: usize = 282;

/// The record type of the OPT pseudo-record.
pub const RTYPE_OPT: u16 = 41;

/// The record types this resolver asks for.
#[derive(Clone, Copy, Debug, PartialEq, Eq, Structural)]
pub enum RecordType {
    /// An IPv4 address.
    A,
    /// An IPv6 address.
    Aaaa,
}

impl RecordType {
    /// The type's number on the wire.
    pub open spec fn spec_code(self) -> u16 {
        match self {
            RecordType::A => crate::addr::RTYPE_A,
            RecordType::Aaaa => crate::addr::RTYPE_AAAA,
        }
    }

    /// The type's number on the wire.
    #[verifier::when_used_as_spec(spec_code)]
    pub fn code(self) -> (code: u16)
        ensures
            code == self.spec_code(),
    {
        match self {
            RecordType::A => crate::addr::RTYPE_A,
            RecordType::Aaaa => crate::addr::RTYPE_AAAA,
        }
    }
}

/// One question: a name and a record type, in class IN.
#[derive(Debug)]
pub struct Question<'a> {
    pub name: &'a AbsoluteName,
    pub rtype: RecordType,
}

impl<'a> Question<'a> {
    /// A question about `name`.
    pub fn new(name: &'a AbsoluteName, rtype: RecordType) -> (question: Question<'a>)
        ensures
            question.name == name,
            question.rtype == rtype,
    {
        Question { name, rtype }
    }
}

/// A 16-bit number in network order.
pub open spec fn be16(value: u16) -> Seq<u8> {
    seq![(value / 256) as u8, (value % 256) as u8]
}

/// The 16-bit number that stands at `at` in network order.
pub open spec fn read16(octets: Seq<u8>, at: int) -> int {
    octets[at] * 256 + octets[at + 1]
}

/// `octets` with the 16-bit number at `at` replaced.
pub open spec fn write16(octets: Seq<u8>, at: int, value: u16) -> Seq<u8> {
    octets.update(at, (value / 256) as u8).update(at + 1, (value % 256) as u8)
}

/// The header of a query: the ID, the flags with only "recursion desired"
/// set, one question, no answer and authority records, one additional
/// record.
pub open spec fn query_header(id: u16) -> Seq<u8> {
    be16(id) + seq![1u8, 0u8] + be16(1) + be16(0) + be16(0) + be16(1)
}

/// A question on the wire: the name, the type and the class.
pub open spec fn question_wire(name: Seq<u8>, rtype: u16) -> Seq<u8> {
    name + be16(rtype) + be16(CLASS_IN)
}

/// An OPT record without options: the root name, the type, the UDP payload
/// size where a record has its class, four zero octets where it has its
/// TTL (extended rcode, version and flags), and an empty record data.
pub open spec fn opt_wire(udp_payload_size: u16) -> Seq<u8> {
    seq![0u8] + be16(RTYPE_OPT) + be16(udp_payload_size) + seq![0u8, 0u8, 0u8, 0u8] + be16(0)
}

/// The whole query message.
pub open spec fn query_wire(id: u16, name: Seq<u8>, rtype: u16, udp_payload_size: u16) -> Seq<u8> {
    query_header(id) + question_wire(name, rtype) + opt_wire(udp_payload_size)
}

#[verifier::external_type_specification]
#[verifier::external_body]
#[verifier::reject_recursive_types(Target)]
pub struct ExMessageBuilder<Target>(MessageBuilder<Target>);

#[verifier::external_type_specification]
#[verifier::external_body]
#[verifier::reject_recursive_types(Target)]
pub struct ExQuestionBuilder<Target>(QuestionBuilder<Target>);

#[verifier::external_type_specification]
#[verifier::external_body]
#[verifier::reject_recursive_types(Target)]
pub struct ExAdditionalBuilder<Target>(AdditionalBuilder<Target>);

#[verifier::external_type_specification]
#[verifier::external_body]
#[verifier::reject_recursive_types(Target)]
pub struct ExStaticCompressor<Target>(StaticCompressor<Target>);

#[verifier::external_type_specification]
#[verifier::external_body]
pub struct ExPushError(PushError);

/// The octets that a message builder has gathered so far.
pub uninterp spec fn builder_octets(builder: MessageBuilder<StaticCompressor<Vec<u8>>>) -> Seq<u8>;

/// The push limit of a message builder: a push fails if it would bring
/// the message to this length or beyond.
pub uninterp spec fn builder_limit(builder: MessageBuilder<StaticCompressor<Vec<u8>>>) -> nat;

/// The octets that a question builder has gathered so far.
pub uninterp spec fn question_octets(builder: QuestionBuilder<StaticCompressor<Vec<u8>>>) -> Seq<u8>;

/// The push limit of the message builder inside a question builder.
pub uninterp spec fn question_limit(builder: QuestionBuilder<StaticCompressor<Vec<u8>>>) -> nat;

/// The octets that an additional builder has gathered so far.
pub uninterp spec fn additional_octets(builder: AdditionalBuilder<StaticCompressor<Vec<u8>>>) -> Seq<u8>;

/// The push limit of the message builder inside an additional builder.
pub uninterp spec fn additional_limit(builder: AdditionalBuilder<StaticCompressor<Vec<u8>>>) -> nat;

/// `MessageBuilder::from_target` on `StaticCompressor::new` of an empty
/// vector: the builder empties the target and appends a header of twelve
/// zero octets. Appending to a vector cannot fail, so this does not. The
/// new builder has no push limit, which it holds as `usize::MAX`.
#[verifier::external_body]
fn new_builder() -> (made: Result<MessageBuilder<StaticCompressor<Vec<u8>>>, Infallible>)
    ensures
        match made {
            Ok(builder) => builder_octets(builder) == Seq::new(12, |i: int| 0u8) && builder_limit(builder)
                == usize::MAX,
            Err(_) => false,
        },
{
    MessageBuilder::from_target(StaticCompressor::new(Vec::new()))
}

/// `Header::set_rd(true)` on `MessageBuilder::header_mut`: sets the lowest
/// bit of the third octet. `header_mut` panics on fewer than four octets.
#[verifier::external_body]
fn set_recursion_desired(builder: &mut MessageBuilder<StaticCompressor<Vec<u8>>>)
    requires
        builder_octets(*old(builder)).len() >= 4,
    ensures
        builder_octets(*final(builder)) == builder_octets(*old(builder)).update(
            2,
            builder_octets(*old(builder))[2] | 1u8,
        ),
        builder_limit(*final(builder)) == builder_limit(*old(builder)),
{
    builder.header_mut().set_rd(true)
}

/// `Header::set_id` on `MessageBuilder::header_mut`: writes the ID into the
/// first two octets, in network order. `header_mut` panics on fewer than
/// four octets.
#[verifier::external_body]
fn set_id(builder: &mut MessageBuilder<StaticCompressor<Vec<u8>>>, id: u16)
    requires
        builder_octets(*old(builder)).len() >= 4,
    ensures
        builder_octets(*final(builder)) == write16(builder_octets(*old(builder)), 0, id),
        builder_limit(*final(builder)) == builder_limit(*old(builder)),
{
    builder.header_mut().set_id(id)
}

/// `MessageBuilder::question`: the same builder, open for questions.
#[verifier::external_body]
fn into_question(builder: MessageBuilder<StaticCompressor<Vec<u8>>>) -> (section: QuestionBuilder<
    StaticCompressor<Vec<u8>>,
>)
    ensures
        question_octets(section) == builder_octets(builder),
        question_limit(section) == builder_limit(builder),
{
    builder.question()
}

/// `QuestionBuilder::push` of a question in class IN, on a builder that
/// holds the header alone. It appends the name, the type and the class and
/// adds one to the question count, at octets 4 and 5. The compressor finds
/// nothing to point back to in a message without an earlier name, so the
/// name goes in as it is. With a vector behind the builder the push fails
/// only where the message would reach the push limit or the count would
/// overflow, and `requires` leaves both out.
#[verifier::external_body]
fn push_question(
    section: &mut QuestionBuilder<StaticCompressor<Vec<u8>>>,
    name: &Name<Vec<u8>>,
    rtype: u16,
) -> (pushed: Result<(), PushError>)
    requires
        question_octets(*old(section)).len() == 12,
        read16(question_octets(*old(section)), 4) < 65535,
        12 + question_wire(name_octets(*name), rtype).len() < question_limit(*old(section)),
    ensures
        pushed is Ok,
        question_octets(*final(section)) == write16(
            question_octets(*old(section)),
            4,
            (read16(question_octets(*old(section)), 4) + 1) as u16,
        ) + question_wire(name_octets(*name), rtype),
        question_limit(*final(section)) == question_limit(*old(section)),
{
    section.push(WireQuestion::new(name, Rtype::from_int(rtype), Class::IN))
}

/// `QuestionBuilder::additional`: the same builder, with empty answer and
/// authority sections, open for additional records.
#[verifier::external_body]
fn into_additional(section: QuestionBuilder<StaticCompressor<Vec<u8>>>) -> (additional:
    AdditionalBuilder<StaticCompressor<Vec<u8>>>)
    ensures
        additional_octets(additional) == question_octets(section),
        additional_limit(additional) == question_limit(section),
{
    section.additional()
}

/// `AdditionalBuilder::opt` with a closure that calls
/// `OptBuilder::set_udp_payload_size` and nothing else. It appends an OPT
/// record without options and adds one to the additional count, at octets
/// 10 and 11. With a vector behind the builder the push fails only where
/// the message would reach the push limit or the count would overflow,
/// and `requires` leaves both out.
#[verifier::external_body]
fn push_opt(additional: &mut AdditionalBuilder<StaticCompressor<Vec<u8>>>, udp_payload_size: u16) -> (pushed:
    Result<(), PushError>)
    requires
        additional_octets(*old(additional)).len() >= 12,
        read16(additional_octets(*old(additional)), 10) < 65535,
        additional_octets(*old(additional)).len() + opt_wire(udp_payload_size).len() < additional_limit(
            *old(additional),
        ),
    ensures
        pushed is Ok,
        additional_octets(*final(additional)) == write16(
            additional_octets(*old(additional)),
            10,
            (read16(additional_octets(*old(additional)), 10) + 1) as u16,
        ) + opt_wire(udp_payload_size),
{
    additional.opt(|opt| {
        opt.set_udp_payload_size(udp_payload_size);
        Ok(())
    })
}

/// `AdditionalBuilder::finish` and `StaticCompressor::into_target`: the
/// octets gathered, as a vector.
#[verifier::external_body]
fn finish(additional: AdditionalBuilder<StaticCompressor<Vec<u8>>>) -> (octets: Vec<u8>)
    ensures
        octets@ == additional_octets(additional),
{
    additional.finish().into_target()
}

/// Builds the query message for one question: the given ID, "recursion
/// desired", the question, and an OPT record that advertises
/// `udp_payload_size`.
///
/// The message is always built, and its octets are exactly `query_wire`:
/// the buffer is a vector, which takes whatever is appended, and one
/// question and one record overflow no count. The two errors that the
/// builder's calls can return by their types, `AppendError` for the buffer
/// and `PushError` for the question or the OPT record, are mapped and never
/// arise.
pub fn create_message(id: u16, question: &Question, udp_payload_size: u16) -> (built: Result<Vec<u8>, Error>)
    ensures
        built matches Ok(octets) && octets@ == query_wire(
            id,
            question.name@,
            question.rtype.code(),
            udp_payload_size,
        ) && octets@.len() == question.name@.len() + 27 && octets@.len() <= MAX_QUERY_LEN,
{
    let mut message = match new_builder() {
        Ok(builder) => builder,
        Err(_) => {
            return Err(Error::AppendError);
        },
    };
    set_recursion_desired(&mut message);
    set_id(&mut message, id);
    proof {
        assert(0u8 | 1u8 == 1u8) by (bit_vector);
    }
    let mut message = into_question(message);
    match push_question(&mut message, question.name.inner(), question.rtype.code()) {
        Ok(()) => {},
        Err(_) => {
            return Err(Error::PushError);
        },
    }
    let mut message = into_additional(message);
    match push_opt(&mut message, udp_payload_size) {
        Ok(()) => {},
        Err(_) => {
            return Err(Error::PushError);
        },
    }
    Ok(finish(message))
}

/// The ID in the header of a message, or `None` where the message is
/// shorter than a header.
pub open spec fn header_id(message: Seq<u8>) -> Option<u16> {
    if message.len() >= HEADER_LEN {
        Some((message[0] * 256 + message[1]) as u16)
    } else {
        None
    }
}

/// Whether the header of a message has the "truncated" flag set.
pub open spec fn header_truncated(message: Seq<u8>) -> bool {
    message.len() >= HEADER_LEN && message[2] & 2u8 != 0u8
}

/// Reads the ID of a message.
pub fn response_id(message: &[u8]) -> (id: Option<u16>)
    ensures
        id == header_id(message@),
{
    if message.len() >= HEADER_LEN {
        let high: u16 = message[0] as u16;
        let low: u16 = message[1] as u16;
        Some(high * 256 + low)
    } else {
        None
    }
}

/// Reads the "truncated" flag of a message. A message shorter than a
/// header has none.
pub fn is_truncated(message: &[u8]) -> (truncated: bool)
    ensures
        truncated == header_truncated(message@),
{
    message.len() >= HEADER_LEN && message[2] & 2u8 != 0u8
}

/// What a query message says: its ID, its question and the UDP payload
/// size that its OPT record advertises.
#[derive(Clone, Debug, PartialEq, Eq)]
pub struct QueryFields {
    /// The transaction ID.
    pub id: u16,
    /// The name asked about, in wire format.
    pub name: Vec<u8>,
    /// The record type asked for.
    pub rtype: u16,
    /// The class asked in.
    pub class: u16,
    /// The UDP payload size advertised.
    pub udp_payload_size: u16,
}

/// The fields of a query as a value of specifications.
pub struct QueryFieldsView {
    pub id: u16,
    pub name: Seq<u8>,
    pub rtype: u16,
    pub class: u16,
    pub udp_payload_size: u16,
}

impl View for QueryFields {
    type V = QueryFieldsView;

    open spec fn view(&self) -> QueryFieldsView {
        QueryFieldsView {
            id: self.id,
            name: self.name@,
            rtype: self.rtype,
            class: self.class,
            udp_payload_size: self.udp_payload_size,
        }
    }
}

/// The length of an OPT record without options.
pub const OPT_LEN: usize = 11;

/// The reading of a query message: a header that counts one question, no
/// answer or authority record and one additional record; the question,
/// with an uncompressed name of at most 255 octets; and, to the end of the
/// message, an OPT record without options. `None` for every message of
/// another shape.
pub open spec fn decoded_query(message: Seq<u8>) -> Option<QueryFieldsView> {
    if message.len() < HEADER_LEN || read16(message, 4) != 1 || read16(message, 6) != 0 || read16(
        message,
        8,
    ) != 0 || read16(message, 10) != 1 {
        None
    } else {
        match labels_end(message, HEADER_LEN as int) {
            None => None,
            Some(end) => if end - HEADER_LEN > 255 || message.len() != end + 4 + OPT_LEN || message[end + 4]
                != 0 || read16(message, end + 5) != RTYPE_OPT || read16(message, end + 13) != 0 {
                None
            } else {
                Some(
                    QueryFieldsView {
                        id: read16(message, 0) as u16,
                        name: message.subrange(HEADER_LEN as int, end),
                        rtype: read16(message, end) as u16,
                        class: read16(message, end + 2) as u16,
                        udp_payload_size: read16(message, end + 7) as u16,
                    },
                )
            },
        }
    }
}

/// The 16-bit number at `at`.
fn get16(message: &[u8], at: usize) -> (value: u16)
    requires
        at + 1 < message@.len(),
    ensures
        value == read16(message@, at as int),
{
    let high: u16 = message[at] as u16;
    let low: u16 = message[at + 1] as u16;
    high * 256 + low
}

/// Where the labels that start at `from` end, as `labels_end` says.
fn find_labels_end(message: &[u8], from: usize) -> (end: Option<usize>)
    ensures
        match end {
            Some(e) => labels_end(message@, from as int) == Some(e as int) && from < e <= message@.len(),
            None => labels_end(message@, from as int) is None,
        },
{
    let len = message.len();
    let mut at = from;
    while at < len
        invariant
            len == message@.len(),
            from <= at,
            labels_end(message@, from as int) == labels_end(message@, at as int),
        decreases len - at,
    {
        let width = message[at] as usize;
        if width == 0 {
            return Some(at + 1);
        }
        if width > 63 || width >= len - at - 1 {
            return None;
        }
        at = at + 1 + width;
    }
    None
}

/// Reads a query message back, as `decoded_query` says.
pub fn decode_query(message: &[u8]) -> (fields: Option<QueryFields>)
    ensures
        match fields {
            Some(read) => decoded_query(message@) == Some(read@),
            None => decoded_query(message@) is None,
        },
{
    let len = message.len();
    if len < HEADER_LEN {
        return None;
    }
    if get16(message, 4) != 1 || get16(message, 6) != 0 || get16(message, 8) != 0 || get16(message, 10) != 1 {
        return None;
    }
    let end = match find_labels_end(message, HEADER_LEN) {
        Some(end) => end,
        None => {
            return None;
        },
    };
    if end - HEADER_LEN > 255 || len - end != 4 + OPT_LEN {
        return None;
    }
    if message[end + 4] != 0 || get16(message, end + 5) != RTYPE_OPT || get16(message, end + 13) != 0 {
        return None;
    }
    Some(
        QueryFields {
            id: get16(message, 0),
            name: slice_to_vec(slice_subrange(message, HEADER_LEN, end)),
            rtype: get16(message, end),
            class: get16(message, end + 2),
            udp_payload_size: get16(message, end + 7),
        },
    )
}

/// Labels read the same wherever the name stands in a message.
proof fn lemma_labels_end_within(before: Seq<u8>, name: Seq<u8>, after: Seq<u8>, from: int)
    requires
        0 <= from,
        labels_end(name, from) is Some,
    ensures
        labels_end(before + name + after, before.len() + from) == Some(
            before.len() + labels_end(name, from)->0,
        ),
    decreases name.len() - from,
{
    if name[from] != 0 {
        lemma_labels_end_within(before, name, after, from + 1 + name[from] as int);
    }
}

/// A query that is built and then read back gives what it was built
/// from: the ID, the name, the record type, the class IN and the UDP
/// payload size.
pub proof fn lemma_query_round_trip(id: u16, name: Seq<u8>, rtype: u16, udp_payload_size: u16)
    requires
        is_wire_name(name),
    ensures
        decoded_query(query_wire(id, name, rtype, udp_payload_size)) == Some(
            QueryFieldsView { id, name, rtype, class: CLASS_IN, udp_payload_size },
        ),
        header_id(query_wire(id, name, rtype, udp_payload_size)) == Some(id),
        !header_truncated(query_wire(id, name, rtype, udp_payload_size)),
{
    let message = query_wire(id, name, rtype, udp_payload_size);
    let header = query_header(id);
    let after = be16(rtype) + be16(CLASS_IN) + opt_wire(udp_payload_size);
    assert(message =~= header + name + after);
    lemma_labels_end_within(header, name, after, 0);
    assert(message.subrange(HEADER_LEN as int, HEADER_LEN + name.len()) =~= name);
    assert(1u8 & 2u8 == 0u8) by (bit_vector);
}

} // verus!
