//! Resolution over the network: which names are asked for, which
//! nameservers are asked, and what becomes of their answers.
//!
//! A lookup waits on the network at every level, so each level is a step
//! function: the search over the suffixes, the walk along the nameservers,
//! and the two questions that one nameserver is asked.

use crate::addr::{message_addresses, AddressTtl, IpAddresses};
use crate::errors::Error;
use crate::lookups::{begin, query_question_and_nameserver, Action, Exchange};
use crate::message::{query_wire, Question, RecordType};
use crate::name::{absolute_name, AbsoluteName};
use crate::{texts, DnsResolver, SocketAddress};
use vstd::prelude::*;
use vstd::string::*;
use vstd::utf8::*;

verus! {

/// The dot, as an octet.
pub const DOT: u8 = 0x2e;

/// How often `needle` occurs in `octets`.
pub open spec fn occurrences(octets: Seq<u8>, needle: u8) -> nat
    decreases octets.len(),
{
    if octets.len() == 0 {
        0
    } else {
        occurrences(octets.drop_last(), needle) + if octets.last() == needle {
            1nat
        } else {
            0nat
        }
    }
}

/// `memchr::Memchr::new(needle, haystack).count()`: the iterator yields
/// the position of every occurrence of the needle, so their count is the
/// number of occurrences.
#[verifier::external_body]
fn count_byte(needle: u8, haystack: &[u8]) -> (count: usize)
    ensures
        count == occurrences(haystack@, needle),
{
    memchr::Memchr::new(needle, haystack).count()
}

/// The number of dots in a name.
pub open spec fn dot_count(name: Seq<char>) -> nat
    decreases name.len(),
{
    if name.len() == 0 {
        0
    } else {
        dot_count(name.drop_last()) + if name.last() == '.' {
            1nat
        } else {
            0nat
        }
    }
}

/// Whether a name ends in a dot.
pub open spec fn ends_with_dot(name: Seq<char>) -> bool {
    name.len() > 0 && name.last() == '.'
}

/// Whether a name is looked up with the search suffixes: it has at least
/// `ndots` dots, or it ends in a dot.
pub open spec fn global_scope(name: Seq<char>, ndots: u8) -> bool {
    dot_count(name) >= ndots || ends_with_dot(name)
}

/// A name without its trailing dot, if it has one. Only one dot goes.
pub open spec fn strip_trailing_dot(name: Seq<char>) -> Seq<char> {
    if ends_with_dot(name) {
        name.drop_last()
    } else {
        name
    }
}

/// The number of dots that a suffix starts with.
pub open spec fn leading_dots(suffix: Seq<char>) -> nat
    decreases suffix.len(),
{
    if suffix.len() > 0 && suffix[0] == '.' {
        1 + leading_dots(suffix.skip(1))
    } else {
        0
    }
}

/// A suffix without the dots it starts with.
pub open spec fn trim_leading_dots(suffix: Seq<char>) -> Seq<char> {
    suffix.skip(leading_dots(suffix) as int)
}

/// The name that is tried for a search suffix: the stem, a dot, and the
/// suffix without its leading dots.
pub open spec fn candidate(stem: Seq<char>, suffix: Seq<char>) -> Seq<char> {
    stem + seq!['.'] + trim_leading_dots(suffix)
}

proof fn lemma_occurrences_concat(front: Seq<u8>, back: Seq<u8>, needle: u8)
    ensures
        occurrences(front + back, needle) == occurrences(front, needle) + occurrences(back, needle),
    decreases back.len(),
{
    if back.len() == 0 {
    } else {
        assert((front + back).drop_last() =~= front + back.drop_last());
        lemma_occurrences_concat(front, back.drop_last(), needle);
    }
}

proof fn lemma_scalar_dots(scalar: u32)
    requires
        is_scalar(scalar),
    ensures
        occurrences(encode_scalar(scalar), DOT) == if scalar == 0x2e {
            1nat
        } else {
            0nat
        },
{
    assert(scalar <= 0x7F ==> ((scalar & 0x7F) as u8 == 0x2eu8 <==> scalar == 0x2e)) by (bit_vector);
    assert(0xC0u8 | ((scalar >> 6) & 0x1F) as u8 != 0x2eu8) by (bit_vector);
    assert(0xE0u8 | ((scalar >> 12) & 0x0F) as u8 != 0x2eu8) by (bit_vector);
    assert(0xF0u8 | ((scalar >> 18) & 0x7) as u8 != 0x2eu8) by (bit_vector);
    assert(0x80u8 | (scalar & 0x3F) as u8 != 0x2eu8) by (bit_vector);
    assert(0x80u8 | ((scalar >> 6) & 0x3F) as u8 != 0x2eu8) by (bit_vector);
    assert(0x80u8 | ((scalar >> 12) & 0x3F) as u8 != 0x2eu8) by (bit_vector);
    reveal_with_fuel(occurrences, 5);
}

proof fn lemma_dot_count_concat(front: Seq<char>, back: Seq<char>)
    ensures
        dot_count(front + back) == dot_count(front) + dot_count(back),
    decreases back.len(),
{
    if back.len() == 0 {
    } else {
        assert((front + back).drop_last() =~= front + back.drop_last());
        lemma_dot_count_concat(front, back.drop_last());
    }
}

/// The dots of a text are the dot octets of its UTF-8 encoding: no octet
/// of a longer encoding is a dot.
pub proof fn lemma_dots_in_utf8(text: Seq<char>)
    ensures
        occurrences(encode_utf8(text), DOT) == dot_count(text),
    decreases text.len(),
{
    if text.len() > 0 {
        let first = text[0];
        let rest = text.drop_first();
        lemma_dots_in_utf8(rest);
        char_is_scalar(first);
        lemma_scalar_dots(first as u32);
        lemma_occurrences_concat(encode_scalar(first as u32), encode_utf8(rest), DOT);
        assert(text =~= seq![first] + rest);
        lemma_dot_count_concat(seq![first], rest);
        reveal_with_fuel(dot_count, 2);
        assert(first == '.' <==> first as u32 == 0x2e) by {
            char_u32_cast(first, first as u32);
            char_u32_cast('.', 0x2e);
        }
    }
}

/// What a lookup came to: the addresses found, or why it failed.
pub open spec fn outcome_view(outcome: Result<Vec<AddressTtl>, Error>) -> Result<Seq<AddressTtl>, Error> {
    match outcome {
        Ok(found) => Ok(found@),
        Err(e) => Err(e),
    }
}

/// The state of a search as a value of specifications.
pub struct SearchView {
    /// The name without its trailing dot.
    pub stem: Seq<char>,
    /// Whether the search goes through the suffixes.
    pub global: bool,
    /// The number of suffixes whose names have been handed out.
    pub tried: usize,
    /// Whether the search is over.
    pub over: bool,
}

impl SearchView {
    /// The state with the search over.
    pub open spec fn end(self) -> SearchView {
        SearchView { over: true, ..self }
    }
}

/// What a search asks for next, as a value of specifications; a name
/// stands as its wire format.
pub enum SearchStepView {
    /// Look this name up with the nameservers.
    Lookup(Seq<u8>),
    /// The search is over.
    Done(Result<Seq<AddressTtl>, Error>),
}

/// The step of a search to its next suffix: the lookup of the candidate
/// for that suffix; the end with `Error::NameParse` where the candidate is
/// no domain name; the end with nothing found where no suffix is left.
pub open spec fn next_candidate(search: Seq<Seq<char>>, state: SearchView) -> (SearchView, SearchStepView) {
    if state.tried >= search.len() {
        (state.end(), SearchStepView::Done(Ok(Seq::empty())))
    } else {
        match absolute_name(candidate(state.stem, search[state.tried as int])) {
            Some(wire) => (
                SearchView { tried: (state.tried + 1) as usize, ..state },
                SearchStepView::Lookup(wire),
            ),
            None => (state.end(), SearchStepView::Done(Err(Error::NameParse))),
        }
    }
}

/// The start of a search. A name in global scope goes through the
/// suffixes. Any other is taken as it stands, without a suffix.
pub open spec fn search_begin(search: Seq<Seq<char>>, ndots: u8, name: Seq<char>) -> (
    SearchView,
    SearchStepView,
) {
    let stem = strip_trailing_dot(name);
    if global_scope(name, ndots) {
        next_candidate(search, SearchView { stem, global: true, tried: 0, over: false })
    } else {
        let state = SearchView { stem, global: false, tried: 0, over: false };
        match absolute_name(stem) {
            Some(wire) => (state, SearchStepView::Lookup(wire)),
            None => (state.end(), SearchStepView::Done(Err(Error::NameParse))),
        }
    }
}

/// One step of a search, on the outcome of the lookup it asked for. In
/// global scope a lookup without an error ends the search with what it
/// found, be it nothing, and an error moves on to the next suffix. Out of
/// global scope the outcome of the one lookup is the result. A search that
/// is over stays over.
pub open spec fn search_step(
    search: Seq<Seq<char>>,
    state: SearchView,
    outcome: Result<Seq<AddressTtl>, Error>,
) -> (SearchView, SearchStepView) {
    if state.over {
        (state, SearchStepView::Done(Ok(Seq::empty())))
    } else if !state.global {
        (state.end(), SearchStepView::Done(outcome))
    } else {
        match outcome {
            Ok(found) => (state.end(), SearchStepView::Done(Ok(found))),
            Err(_) => next_candidate(search, state),
        }
    }
}

/// A search in progress.
#[derive(Debug)]
pub struct Search {
    stem: String,
    global: bool,
    tried: usize,
    over: bool,
}

impl View for Search {
    type V = SearchView;

    closed spec fn view(&self) -> SearchView {
        SearchView { stem: self.stem@, global: self.global, tried: self.tried, over: self.over }
    }
}

impl Search {
    /// Whether the search is over.
    pub fn is_over(&self) -> (over: bool)
        ensures
            over == self@.over,
    {
        self.over
    }
}

/// What a search asks for next.
#[derive(Debug)]
pub enum SearchStep {
    /// Look this name up with the nameservers, and come back with the
    /// outcome.
    Lookup(AbsoluteName),
    /// The search is over.
    Done(Result<Vec<AddressTtl>, Error>),
}

impl View for SearchStep {
    type V = SearchStepView;

    open spec fn view(&self) -> SearchStepView {
        match self {
            SearchStep::Lookup(name) => SearchStepView::Lookup(name@),
            SearchStep::Done(outcome) => SearchStepView::Done(outcome_view(*outcome)),
        }
    }
}

/// The state of a walk along the nameservers as a value of
/// specifications.
pub struct LookupView {
    /// The number of the nameserver that is being asked.
    pub asking: usize,
    /// Whether the walk is over.
    pub over: bool,
}

/// What a walk along the nameservers asks for next, as a value of
/// specifications.
pub enum LookupStepView {
    /// Ask this nameserver.
    Query(SocketAddress),
    /// The walk is over.
    Done(Result<Seq<AddressTtl>, Error>),
}

/// The step of a walk to the nameserver of a given number: the query to
/// it, or the end with nothing found where the list has no such number.
pub open spec fn ask(nameservers: Seq<SocketAddress>, number: int) -> (LookupView, LookupStepView) {
    if 0 <= number < nameservers.len() {
        (LookupView { asking: number as usize, over: false }, LookupStepView::Query(nameservers[number]))
    } else {
        (LookupView { asking: nameservers.len() as usize, over: true }, LookupStepView::Done(Ok(Seq::empty())))
    }
}

/// The start of a walk: the first nameserver.
pub open spec fn lookup_begin(nameservers: Seq<SocketAddress>) -> (LookupView, LookupStepView) {
    ask(nameservers, 0)
}

/// One step of a walk, on the outcome of the query it asked for. An
/// outcome without an error ends the walk with what was found, be it
/// nothing. A transport failure moves on to the next nameserver, and ends
/// the walk with nothing found after the last. Any other error, which no
/// other nameserver would mend, ends the walk with that error. A walk that
/// is over stays over.
pub open spec fn lookup_step(
    nameservers: Seq<SocketAddress>,
    state: LookupView,
    outcome: Result<Seq<AddressTtl>, Error>,
) -> (LookupView, LookupStepView) {
    if state.over {
        (state, LookupStepView::Done(Ok(Seq::empty())))
    } else {
        match outcome {
            Ok(found) => (LookupView { over: true, ..state }, LookupStepView::Done(Ok(found))),
            Err(e) => if e == Error::Transport {
                ask(nameservers, state.asking + 1)
            } else {
                (LookupView { over: true, ..state }, LookupStepView::Done(Err(e)))
            },
        }
    }
}

/// A walk along the nameservers in progress.
#[derive(Debug)]
pub struct Lookup {
    asking: usize,
    over: bool,
}

impl View for Lookup {
    type V = LookupView;

    closed spec fn view(&self) -> LookupView {
        LookupView { asking: self.asking, over: self.over }
    }
}

impl Lookup {
    /// Whether the walk is over.
    pub fn is_over(&self) -> (over: bool)
        ensures
            over == self@.over,
    {
        self.over
    }
}

/// What a walk along the nameservers asks for next.
#[derive(Debug)]
pub enum LookupStep {
    /// Ask this nameserver both questions, and come back with the outcome.
    Query(SocketAddress),
    /// The walk is over.
    Done(Result<Vec<AddressTtl>, Error>),
}

impl View for LookupStep {
    type V = LookupStepView;

    open spec fn view(&self) -> LookupStepView {
        match self {
            LookupStep::Query(nameserver) => LookupStepView::Query(*nameserver),
            LookupStep::Done(outcome) => LookupStepView::Done(outcome_view(*outcome)),
        }
    }
}

/// The addresses that the outcome of one question adds: those of its
/// response, none where there was no response.
pub open spec fn response_addresses(response: Option<Seq<u8>>) -> Seq<AddressTtl> {
    match response {
        Some(message) => message_addresses(message),
        None => Seq::empty(),
    }
}

/// What one nameserver's two outcomes come to. An error of the A question
/// goes first, then one of the AAAA question. Without an error: the
/// addresses of the A question's response, then those of the AAAA
/// question's, each in the order of its answer section.
pub open spec fn merged(
    ipv4: Result<Option<Seq<u8>>, Error>,
    ipv6: Result<Option<Seq<u8>>, Error>,
) -> Result<Seq<AddressTtl>, Error> {
    match (ipv4, ipv6) {
        (Err(e), _) => Err(e),
        (Ok(_), Err(e)) => Err(e),
        (Ok(first), Ok(second)) => Ok(response_addresses(first) + response_addresses(second)),
    }
}

/// The outcome of one question as a value of specifications.
pub open spec fn exchange_outcome(outcome: Result<Option<IpAddresses>, Error>) -> Result<
    Option<Seq<u8>>,
    Error,
> {
    match outcome {
        Ok(Some(response)) => Ok(Some(response@)),
        Ok(None) => Ok(None),
        Err(e) => Err(e),
    }
}

/// Merges the outcomes of the two questions that one nameserver was
/// asked, once both are in.
pub fn collect_addresses(
    ipv4: Result<Option<IpAddresses>, Error>,
    ipv6: Result<Option<IpAddresses>, Error>,
) -> (found: Result<Vec<AddressTtl>, Error>)
    ensures
        outcome_view(found) == merged(exchange_outcome(ipv4), exchange_outcome(ipv6)),
{
    let first = match ipv4 {
        Ok(response) => response,
        Err(e) => {
            return Err(e);
        },
    };
    let second = match ipv6 {
        Ok(response) => response,
        Err(e) => {
            return Err(e);
        },
    };
    let mut found: Vec<AddressTtl> = match first {
        Some(response) => response.addresses(),
        None => Vec::new(),
    };
    let mut more: Vec<AddressTtl> = match second {
        Some(response) => response.addresses(),
        None => Vec::new(),
    };
    found.append(&mut more);
    Ok(found)
}

/// A suffix without the dots it starts with.
fn trimmed(suffix: &str) -> (rest: &str)
    ensures
        rest@ == trim_leading_dots(suffix@),
{
    let len = suffix.unicode_len();
    let mut at: usize = 0;
    proof {
        assert(suffix@.skip(0) =~= suffix@);
    }
    while at < len && suffix.get_char(at) == '.'
        invariant
            len == suffix@.len(),
            at <= len,
            leading_dots(suffix@) == at + leading_dots(suffix@.skip(at as int)),
        decreases len - at,
    {
        proof {
            assert(suffix@.skip(at as int).skip(1) =~= suffix@.skip(at + 1));
        }
        at = at + 1;
    }
    suffix.substring_char(at, len)
}

impl DnsResolver {
    /// Resolves a name over the network: starts the search for it.
    pub fn query_resolv(&self, name: &str) -> (started: (Search, SearchStep))
        ensures
            (started.0@, started.1@) == search_begin(self@.search, self@.ndots, name@),
    {
        self.dns_with_search(name)
    }

    /// Starts the search for a name.
    ///
    /// The name is in global scope if it has at least `ndots` dots or ends
    /// in a dot. One trailing dot is taken off. In global scope the search
    /// goes through the suffixes in their order, asking for the name, a
    /// dot and the suffix; with no suffix at all it ends at once, with
    /// nothing found. Out of global scope the name is looked up as it
    /// stands and no suffix is used. A name that does not parse ends the
    /// search with `Error::NameParse`, before any lookup.
    pub fn dns_with_search(&self, name: &str) -> (started: (Search, SearchStep))
        ensures
            (started.0@, started.1@) == search_begin(self@.search, self@.ndots, name@),
    {
        let num_dots = count_byte(DOT, name.as_bytes());
        proof {
            lemma_dots_in_utf8(name@);
        }
        let len = name.unicode_len();
        let ends = len > 0 && name.get_char(len - 1) == '.';
        let global = num_dots >= self.ndots() as usize || ends;
        let stem = if ends {
            name.substring_char(0, len - 1)
        } else {
            name
        };
        let mut search = Search { stem: String::from_str(stem), global, tried: 0, over: false };
        if global {
            let step = self.next_candidate(&mut search);
            (search, step)
        } else {
            match AbsoluteName::parse(stem) {
                Ok(absolute) => (search, SearchStep::Lookup(absolute)),
                Err(e) => {
                    search.over = true;
                    (search, SearchStep::Done(Err(e)))
                },
            }
        }
    }

    fn next_candidate(&self, search: &mut Search) -> (step: SearchStep)
        ensures
            (final(search)@, step@) == next_candidate(self@.search, old(search)@),
    {
        let suffixes = self.search();
        if search.tried >= suffixes.len() {
            search.over = true;
            return SearchStep::Done(Ok(Vec::new()));
        }
        let suffix = suffixes[search.tried].as_str();
        proof {
            reveal_strlit(".");
            assert("."@ =~= seq!['.']);
        }
        let mut host = search.stem.clone();
        host.append(".");
        host.append(trimmed(suffix));
        match AbsoluteName::parse(host.as_str()) {
            Ok(absolute) => {
                search.tried = search.tried + 1;
                SearchStep::Lookup(absolute)
            },
            Err(e) => {
                search.over = true;
                SearchStep::Done(Err(e))
            },
        }
    }

    /// Takes the outcome of the lookup that the search asked for and names
    /// the next step, as `search_step` says.
    pub fn dns_with_search_next(&self, search: &mut Search, outcome: Result<Vec<AddressTtl>, Error>) -> (step:
        SearchStep)
        ensures
            (final(search)@, step@) == search_step(self@.search, old(search)@, outcome_view(outcome)),
    {
        if search.over {
            SearchStep::Done(Ok(Vec::new()))
        } else if !search.global {
            search.over = true;
            SearchStep::Done(outcome)
        } else {
            match outcome {
                Ok(found) => {
                    search.over = true;
                    SearchStep::Done(Ok(found))
                },
                Err(_) => self.next_candidate(search),
            }
        }
    }

    fn ask(&self, number: usize) -> (asked: (Lookup, LookupStep))
        ensures
            (asked.0@, asked.1@) == ask(self@.nameservers, number as int),
    {
        let nameservers = self.nameservers();
        if number < nameservers.len() {
            (Lookup { asking: number, over: false }, LookupStep::Query(nameservers[number]))
        } else {
            (Lookup { asking: nameservers.len(), over: true }, LookupStep::Done(Ok(Vec::new())))
        }
    }

    /// Starts the lookup of one name: the walk along the nameservers, in
    /// their order. With no nameserver it ends at once, with nothing
    /// found.
    pub fn dns_lookup(&self) -> (started: (Lookup, LookupStep))
        ensures
            (started.0@, started.1@) == lookup_begin(self@.nameservers),
    {
        self.ask(0)
    }

    /// Takes the outcome of the query that the walk asked for and names
    /// the next step, as `lookup_step` says.
    pub fn dns_lookup_next(&self, lookup: &mut Lookup, outcome: Result<Vec<AddressTtl>, Error>) -> (step:
        LookupStep)
        ensures
            (final(lookup)@, step@) == lookup_step(self@.nameservers, old(lookup)@, outcome_view(outcome)),
    {
        if lookup.over {
            return LookupStep::Done(Ok(Vec::new()));
        }
        match outcome {
            Ok(found) => {
                lookup.over = true;
                LookupStep::Done(Ok(found))
            },
            Err(Error::Transport) => {
                let count = self.nameservers().len();
                let number = if lookup.asking < count {
                    lookup.asking + 1
                } else {
                    count
                };
                let (next, step) = self.ask(number);
                lookup.asking = next.asking;
                lookup.over = next.over;
                step
            },
            Err(e) => {
                lookup.over = true;
                LookupStep::Done(Err(e))
            },
        }
    }

    /// Starts the two questions that a nameserver is asked about a name:
    /// first the one for A records, then the one for AAAA records, each
    /// with an ID of its own, the resolver's number of attempts and its
    /// UDP payload size. Both exchanges always start. They run side by
    /// side; their outcomes are merged by `collect_addresses` once both
    /// are in.
    pub fn query_name_and_nameserver(&self, name: &AbsoluteName) -> (started: (
        Result<(Exchange, Action), Error>,
        Result<(Exchange, Action), Error>,
    ))
        ensures
            started_as(started.0, name@, RecordType::A, self@.attempts, self@.udp_payload_size),
            started_as(started.1, name@, RecordType::Aaaa, self@.attempts, self@.udp_payload_size),
    {
        let ipv4 = query_question_and_nameserver(
            &Question::new(name, RecordType::A),
            self.attempts(),
            self.udp_payload_size(),
        );
        let ipv6 = query_question_and_nameserver(
            &Question::new(name, RecordType::Aaaa),
            self.attempts(),
            self.udp_payload_size(),
        );
        (ipv4, ipv6)
    }
}

/// That an exchange was started for a question, under whatever ID it
/// drew: it stands where `begin` puts it, with the query for that
/// question.
pub open spec fn started_as(
    started: Result<(Exchange, Action), Error>,
    name: Seq<u8>,
    rtype: RecordType,
    attempts: u8,
    udp_payload_size: u16,
) -> bool {
    started matches Ok((exchange, action)) && (exchange@, action@) == begin(
        exchange@.id,
        query_wire(exchange@.id, name, rtype.code(), udp_payload_size),
        attempts,
        udp_payload_size,
    )
}

/// Where a search stands after the outcomes of its lookups, one after the
/// other: at the end it has reached, or at the lookup it waits for.
pub open spec fn search_end(
    search: Seq<Seq<char>>,
    state: SearchView,
    step: SearchStepView,
    outcomes: Seq<Result<Seq<AddressTtl>, Error>>,
) -> SearchStepView
    decreases outcomes.len(),
{
    match step {
        SearchStepView::Done(_) => step,
        SearchStepView::Lookup(_) => if outcomes.len() == 0 {
            step
        } else {
            let next = search_step(search, state, outcomes[0]);
            search_end(search, next.0, next.1, outcomes.skip(1))
        },
    }
}

/// What going through the suffixes from number `from` on comes to, where
/// `outcomes` are the outcomes of the lookups in their order: the suffixes
/// are tried one by one, the first lookup without an error gives the
/// result, a candidate that is no domain name ends the search with
/// `Error::NameParse`, and with no suffix left nothing is found.
pub open spec fn suffix_search(
    search: Seq<Seq<char>>,
    stem: Seq<char>,
    from: int,
    outcomes: Seq<Result<Seq<AddressTtl>, Error>>,
) -> SearchStepView
    decreases search.len() - from,
{
    if from < 0 || from >= search.len() {
        SearchStepView::Done(Ok(Seq::empty()))
    } else {
        match absolute_name(candidate(stem, search[from])) {
            None => SearchStepView::Done(Err(Error::NameParse)),
            Some(wire) => if outcomes.len() == 0 {
                SearchStepView::Lookup(wire)
            } else {
                match outcomes[0] {
                    Ok(found) => SearchStepView::Done(Ok(found)),
                    Err(_) => suffix_search(search, stem, from + 1, outcomes.skip(1)),
                }
            },
        }
    }
}

proof fn lemma_search_from(
    search: Seq<Seq<char>>,
    state: SearchView,
    outcomes: Seq<Result<Seq<AddressTtl>, Error>>,
)
    requires
        state.global,
        !state.over,
        search.len() <= usize::MAX,
    ensures
        search_end(search, next_candidate(search, state).0, next_candidate(search, state).1, outcomes)
            == suffix_search(search, state.stem, state.tried as int, outcomes),
    decreases search.len() - state.tried,
{
    let next = next_candidate(search, state);
    if state.tried < search.len() && outcomes.len() > 0 && next.1 is Lookup {
        match outcomes[0] {
            Ok(found) => {
                assert(search_end(search, next.0.end(), SearchStepView::Done(Ok(found)), outcomes.skip(1))
                    == SearchStepView::Done(Ok(found)));
            },
            Err(_) => {
                lemma_search_from(search, next.0, outcomes.skip(1));
            },
        }
    }
}

/// A name in global scope, that is one with at least `ndots` dots or with
/// a trailing dot, is looked up with the search suffixes: in their order,
/// up to the first lookup without an error, whose result, be it empty, is
/// the result of the search. With no suffix configured, or none left, the
/// result is empty.
pub proof fn lemma_search_in_global_scope(
    search: Seq<Seq<char>>,
    ndots: u8,
    name: Seq<char>,
    outcomes: Seq<Result<Seq<AddressTtl>, Error>>,
)
    requires
        search.len() <= usize::MAX,
        dot_count(name) >= ndots || ends_with_dot(name),
    ensures
        search_end(search, search_begin(search, ndots, name).0, search_begin(search, ndots, name).1, outcomes)
            == suffix_search(search, strip_trailing_dot(name), 0, outcomes),
        search.len() == 0 ==> search_begin(search, ndots, name).1 == SearchStepView::Done(Ok(Seq::empty())),
{
    lemma_search_from(
        search,
        SearchView { stem: strip_trailing_dot(name), global: true, tried: 0, over: false },
        outcomes,
    );
}

/// A name with fewer than `ndots` dots and without a trailing dot is taken
/// as absolute: the one name that is looked up is the name itself, no
/// search suffix is applied, and the outcome of that lookup is the result.
pub proof fn lemma_search_out_of_global_scope(
    search: Seq<Seq<char>>,
    ndots: u8,
    name: Seq<char>,
    outcomes: Seq<Result<Seq<AddressTtl>, Error>>,
)
    requires
        dot_count(name) < ndots,
        !ends_with_dot(name),
    ensures
        search_end(search, search_begin(search, ndots, name).0, search_begin(search, ndots, name).1, outcomes)
            == match absolute_name(name) {
            None => SearchStepView::Done(Err(Error::NameParse)),
            Some(wire) => if outcomes.len() == 0 {
                SearchStepView::Lookup(wire)
            } else {
                SearchStepView::Done(outcomes[0])
            },
        },
{
    let begun = search_begin(search, ndots, name);
    if outcomes.len() > 0 && begun.1 is Lookup {
        let next = search_step(search, begun.0, outcomes[0]);
        assert(search_end(search, next.0, next.1, outcomes.skip(1)) == next.1);
    }
}

/// Where a walk along the nameservers stands after the outcomes of its
/// queries, one after the other.
pub open spec fn lookup_end(
    nameservers: Seq<SocketAddress>,
    state: LookupView,
    step: LookupStepView,
    outcomes: Seq<Result<Seq<AddressTtl>, Error>>,
) -> LookupStepView
    decreases outcomes.len(),
{
    match step {
        LookupStepView::Done(_) => step,
        LookupStepView::Query(_) => if outcomes.len() == 0 {
            step
        } else {
            let next = lookup_step(nameservers, state, outcomes[0]);
            lookup_end(nameservers, next.0, next.1, outcomes.skip(1))
        },
    }
}

/// What asking the nameservers from number `from` on comes to, where
/// `outcomes` are the outcomes of the queries in their order: the first
/// outcome without an error gives the result, a transport failure passes
/// to the next nameserver, any other error is the result, and with no
/// nameserver left nothing is found.
pub open spec fn nameserver_walk(
    nameservers: Seq<SocketAddress>,
    from: int,
    outcomes: Seq<Result<Seq<AddressTtl>, Error>>,
) -> LookupStepView
    decreases nameservers.len() - from,
{
    if from < 0 || from >= nameservers.len() {
        LookupStepView::Done(Ok(Seq::empty()))
    } else if outcomes.len() == 0 {
        LookupStepView::Query(nameservers[from])
    } else {
        match outcomes[0] {
            Ok(found) => LookupStepView::Done(Ok(found)),
            Err(e) => if e == Error::Transport {
                nameserver_walk(nameservers, from + 1, outcomes.skip(1))
            } else {
                LookupStepView::Done(Err(e))
            },
        }
    }
}

proof fn lemma_lookup_from(
    nameservers: Seq<SocketAddress>,
    from: int,
    outcomes: Seq<Result<Seq<AddressTtl>, Error>>,
)
    requires
        0 <= from,
        nameservers.len() <= usize::MAX,
    ensures
        lookup_end(nameservers, ask(nameservers, from).0, ask(nameservers, from).1, outcomes)
            == nameserver_walk(nameservers, from, outcomes),
    decreases nameservers.len() - from,
{
    if from < nameservers.len() && outcomes.len() > 0 {
        let next = lookup_step(nameservers, ask(nameservers, from).0, outcomes[0]);
        if next.1 is Query {
            lemma_lookup_from(nameservers, from + 1, outcomes.skip(1));
        } else {
            assert(lookup_end(nameservers, next.0, next.1, outcomes.skip(1)) == next.1);
        }
    }
}

/// The nameservers are asked in their order, and the first outcome
/// without an error, be it empty, is the result of the lookup.
pub proof fn lemma_lookup_walks_the_nameservers(
    nameservers: Seq<SocketAddress>,
    outcomes: Seq<Result<Seq<AddressTtl>, Error>>,
)
    requires
        nameservers.len() <= usize::MAX,
    ensures
        lookup_end(nameservers, lookup_begin(nameservers).0, lookup_begin(nameservers).1, outcomes)
            == nameserver_walk(nameservers, 0, outcomes),
{
    lemma_lookup_from(nameservers, 0, outcomes);
}

proof fn lemma_walk_of_failures(
    nameservers: Seq<SocketAddress>,
    from: int,
    outcomes: Seq<Result<Seq<AddressTtl>, Error>>,
)
    requires
        0 <= from <= nameservers.len(),
        outcomes.len() >= nameservers.len() - from,
        forall|i: int| 0 <= i < outcomes.len() ==> #[trigger] outcomes[i] == Err::<Seq<AddressTtl>, Error>(
            Error::Transport,
        ),
    ensures
        nameserver_walk(nameservers, from, outcomes) == LookupStepView::Done(Ok(Seq::empty())),
    decreases nameservers.len() - from,
{
    if from < nameservers.len() {
        lemma_walk_of_failures(nameservers, from + 1, outcomes.skip(1));
    }
}

/// Where every nameserver fails, the lookup does not: it ends with an
/// empty result. So it does where a nameserver lets both questions run
/// out of attempts, which is no failure but an answer without addresses.
/// A search that gets an empty result ends with it, whichever way it
/// looks names up.
pub proof fn lemma_unreachable_nameservers_give_nothing(
    nameservers: Seq<SocketAddress>,
    outcomes: Seq<Result<Seq<AddressTtl>, Error>>,
    search: Seq<Seq<char>>,
    state: SearchView,
    walk: LookupView,
)
    requires
        nameservers.len() <= usize::MAX,
        outcomes.len() >= nameservers.len(),
        forall|i: int| 0 <= i < outcomes.len() ==> #[trigger] outcomes[i] == Err::<Seq<AddressTtl>, Error>(
            Error::Transport,
        ),
    ensures
        lookup_end(nameservers, lookup_begin(nameservers).0, lookup_begin(nameservers).1, outcomes)
            == LookupStepView::Done(Ok(Seq::empty())),
        merged(Ok(None), Ok(None)) == Ok::<Seq<AddressTtl>, Error>(Seq::empty()),
        lookup_step(nameservers, walk, Ok(Seq::empty())).1 == LookupStepView::Done(Ok(Seq::empty())),
        search_step(search, state, Ok(Seq::empty())).1 == SearchStepView::Done(Ok(Seq::empty())),
{
    lemma_lookup_from(nameservers, 0, outcomes);
    lemma_walk_of_failures(nameservers, 0, outcomes);
}


} // verus!
