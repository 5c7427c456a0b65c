use dnsaur::addr::{IpAddress, IpAddresses};
use dnsaur::errors::Error;
use dnsaur::lookups::Action;
use dnsaur::name::AbsoluteName;
use dnsaur::resolvers::resolv::{collect_addresses, LookupStep, SearchStep};
use dnsaur::{DnsResolver, SocketAddress};
use domain::base::iana::Class;
use domain::base::{MessageBuilder, Name, Ttl};
use domain::rdata::{Aaaa, A};
use std::str::FromStr;
use std::time::Duration;

fn server(last: u8) -> SocketAddress {
    SocketAddress { ip: IpAddress::V4([10, 0, 0, last]), port: 53 }
}

fn resolver(search: &[&str], ndots: u8, servers: usize) -> DnsResolver {
    DnsResolver::new(
        Vec::new(),
        search.iter().map(|s| s.to_string()).collect(),
        (0..servers).map(|i| server(i as u8 + 1)).collect(),
        Duration::from_secs(5),
        ndots,
        2,
        false,
        1232,
    )
}

fn wire(text: &str) -> Vec<u8> {
    AbsoluteName::parse(text).unwrap().to_wire()
}

fn asked(step: &SearchStep) -> Vec<u8> {
    match step {
        SearchStep::Lookup(name) => name.to_wire(),
        other => panic!("no lookup: {:?}", other),
    }
}

#[test]
fn name_with_enough_dots_goes_through_the_suffixes_in_order() {
    let r = resolver(&["first.example", "second.example"], 1, 1);
    let (mut search, step) = r.dns_with_search("www.corp");
    assert_eq!(asked(&step), wire("www.corp.first.example."));
    let step = r.dns_with_search_next(&mut search, Err(Error::PushError));
    assert_eq!(asked(&step), wire("www.corp.second.example."));
    let found = vec![(IpAddress::V4([1, 2, 3, 4]), 60u32)];
    match r.dns_with_search_next(&mut search, Ok(found.clone())) {
        SearchStep::Done(Ok(got)) => assert_eq!(got, found),
        other => panic!("unexpected step {:?}", other),
    }
    assert!(search.is_over());
}

#[test]
fn first_lookup_without_error_ends_the_search_even_if_empty() {
    let r = resolver(&["first.example", "second.example"], 1, 1);
    let (mut search, _) = r.query_resolv("www.corp");
    assert!(matches!(r.dns_with_search_next(&mut search, Ok(vec![])), SearchStep::Done(Ok(got)) if got.is_empty()));
    assert!(matches!(r.dns_with_search_next(&mut search, Err(Error::Transport)), SearchStep::Done(Ok(got)) if got.is_empty()));
}

#[test]
fn search_with_all_suffixes_failing_finds_nothing() {
    let r = resolver(&["first.example", "second.example"], 0, 1);
    let (mut search, step) = r.dns_with_search("host");
    assert_eq!(asked(&step), wire("host.first.example."));
    let step = r.dns_with_search_next(&mut search, Err(Error::AppendError));
    assert_eq!(asked(&step), wire("host.second.example."));
    assert!(matches!(r.dns_with_search_next(&mut search, Err(Error::Transport)), SearchStep::Done(Ok(got)) if got.is_empty()));
}

#[test]
fn search_in_global_scope_without_suffixes_finds_nothing() {
    let r = resolver(&[], 1, 1);
    let (search, step) = r.dns_with_search("www.example.com");
    assert!(matches!(step, SearchStep::Done(Ok(got)) if got.is_empty()));
    assert!(search.is_over());
    let (_, step) = r.dns_with_search("not a name..");
    assert!(matches!(step, SearchStep::Done(Ok(got)) if got.is_empty()));
}

#[test]
fn name_with_few_dots_is_looked_up_as_it_stands() {
    let r = resolver(&["first.example"], 2, 1);
    let (mut search, step) = r.dns_with_search("www.corp");
    assert_eq!(asked(&step), wire("www.corp."));
    assert!(matches!(
        r.dns_with_search_next(&mut search, Err(Error::PushError)),
        SearchStep::Done(Err(Error::PushError))
    ));
    assert!(search.is_over());
    let (mut search, step) = r.dns_with_search("localhost");
    assert_eq!(asked(&step), b"\x09localhost\x00".to_vec());
    let found = vec![(IpAddress::V6([0; 16]), 1u32)];
    assert!(matches!(r.dns_with_search_next(&mut search, Ok(found.clone())), SearchStep::Done(Ok(got)) if got == found));
}

#[test]
fn trailing_dot_puts_a_name_in_global_scope_and_is_taken_off() {
    let r = resolver(&["example.org"], 5, 1);
    let (_, step) = r.dns_with_search("host.");
    assert_eq!(asked(&step), wire("host.example.org."));
}

#[test]
fn only_one_trailing_dot_is_taken_off() {
    let r = resolver(&["example.org"], 5, 1);
    let (search, step) = r.dns_with_search("host..");
    assert!(matches!(step, SearchStep::Done(Err(Error::NameParse))));
    assert!(search.is_over());
}

#[test]
fn leading_dots_of_a_suffix_are_trimmed() {
    let r = resolver(&[".example.org", "..example.net", "."], 0, 1);
    let (mut search, step) = r.dns_with_search("host");
    assert_eq!(asked(&step), wire("host.example.org."));
    let step = r.dns_with_search_next(&mut search, Err(Error::PushError));
    assert_eq!(asked(&step), wire("host.example.net."));
    let step = r.dns_with_search_next(&mut search, Err(Error::PushError));
    assert_eq!(asked(&step), wire("host."));
}

#[test]
fn ndots_counts_every_dot() {
    let r = resolver(&["example.org"], 3, 1);
    let (_, step) = r.dns_with_search("a.b.c");
    assert_eq!(asked(&step), wire("a.b.c."));
    let (_, step) = r.dns_with_search("a.b.c.d");
    assert_eq!(asked(&step), wire("a.b.c.d.example.org."));
    let (_, step) = r.dns_with_search("...");
    assert!(matches!(step, SearchStep::Done(Err(Error::NameParse))));
}

#[test]
fn dots_are_counted_among_characters_of_any_width() {
    let r = resolver(&[], 2, 1);
    let (_, step) = r.dns_with_search("\u{e9}.\u{4e2d}.\u{1f600}");
    assert!(matches!(step, SearchStep::Done(Ok(got)) if got.is_empty()));
    let (_, step) = r.dns_with_search("\u{e9}\u{2e2e}.\u{1f600}");
    assert!(!matches!(step, SearchStep::Done(Ok(_))));
}

#[test]
fn malformed_name_fails_before_any_lookup() {
    let r = resolver(&["example.org"], 1, 1);
    let (_, step) = r.dns_with_search("a..b");
    assert!(matches!(step, SearchStep::Done(Err(Error::NameParse))));
    let r = resolver(&["example.org"], 9, 1);
    let (_, step) = r.dns_with_search("a..b");
    assert!(matches!(step, SearchStep::Done(Err(Error::NameParse))));
}

#[test]
fn malformed_candidate_ends_the_search_when_its_turn_comes() {
    let r = resolver(&["good.example", "bad..example", "late.example"], 0, 1);
    let (mut search, step) = r.dns_with_search("host");
    assert_eq!(asked(&step), wire("host.good.example."));
    assert!(matches!(
        r.dns_with_search_next(&mut search, Err(Error::PushError)),
        SearchStep::Done(Err(Error::NameParse))
    ));
    assert!(search.is_over());
}

#[test]
fn nameservers_are_asked_in_order_until_one_answers() {
    let r = resolver(&[], 1, 3);
    let (mut lookup, step) = r.dns_lookup();
    assert!(matches!(step, LookupStep::Query(s) if s == server(1)));
    assert!(matches!(r.dns_lookup_next(&mut lookup, Err(Error::Transport)), LookupStep::Query(s) if s == server(2)));
    assert!(!lookup.is_over());
    assert!(matches!(r.dns_lookup_next(&mut lookup, Ok(vec![])), LookupStep::Done(Ok(got)) if got.is_empty()));
    assert!(lookup.is_over());
    assert!(matches!(r.dns_lookup_next(&mut lookup, Err(Error::PushError)), LookupStep::Done(Ok(got)) if got.is_empty()));
}

#[test]
fn lookup_with_every_nameserver_failing_finds_nothing() {
    let r = resolver(&[], 1, 2);
    let (mut lookup, _) = r.dns_lookup();
    assert!(matches!(r.dns_lookup_next(&mut lookup, Err(Error::Transport)), LookupStep::Query(s) if s == server(2)));
    assert!(matches!(r.dns_lookup_next(&mut lookup, Err(Error::Transport)), LookupStep::Done(Ok(got)) if got.is_empty()));
    assert!(lookup.is_over());
}

#[test]
fn lookup_without_nameservers_finds_nothing() {
    let r = resolver(&[], 1, 0);
    let (lookup, step) = r.dns_lookup();
    assert!(matches!(step, LookupStep::Done(Ok(got)) if got.is_empty()));
    assert!(lookup.is_over());
}

#[test]
fn lookup_hands_on_an_error_of_message_building() {
    let r = resolver(&[], 1, 3);
    let (mut lookup, _) = r.dns_lookup();
    assert!(matches!(
        r.dns_lookup_next(&mut lookup, Err(Error::AppendError)),
        LookupStep::Done(Err(Error::AppendError))
    ));
    assert!(lookup.is_over());
}

fn answer(records: &[(u8, u32)], v6: bool) -> IpAddresses {
    let owner: Name<Vec<u8>> = Name::from_str("example.com.").unwrap();
    let mut builder = MessageBuilder::new_vec().answer();
    for (last, ttl) in records {
        if v6 {
            let mut octets = [0u8; 16];
            octets[15] = *last;
            builder.push((owner.clone(), Class::IN, Ttl::from_secs(*ttl), Aaaa::new(octets.into()))).unwrap();
        } else {
            builder.push((owner.clone(), Class::IN, Ttl::from_secs(*ttl), A::from_octets(10, 0, 0, *last))).unwrap();
        }
    }
    IpAddresses::from(builder.finish())
}

fn v6(last: u8) -> IpAddress {
    let mut octets = [0u8; 16];
    octets[15] = last;
    IpAddress::V6(octets)
}

#[test]
fn addresses_of_both_questions_are_merged_ipv4_first() {
    let merged = collect_addresses(Ok(Some(answer(&[(1, 10), (2, 20)], false))), Ok(Some(answer(&[(3, 30)], true))));
    assert_eq!(
        merged,
        Ok(vec![(IpAddress::V4([10, 0, 0, 1]), 10), (IpAddress::V4([10, 0, 0, 2]), 20), (v6(3), 30)])
    );
}

#[test]
fn question_without_a_response_adds_nothing() {
    assert_eq!(collect_addresses(Ok(None), Ok(Some(answer(&[(3, 30)], true)))), Ok(vec![(v6(3), 30)]));
    assert_eq!(
        collect_addresses(Ok(Some(answer(&[(1, 10)], false))), Ok(None)),
        Ok(vec![(IpAddress::V4([10, 0, 0, 1]), 10)])
    );
    assert_eq!(collect_addresses(Ok(None), Ok(None)), Ok(vec![]));
}

#[test]
fn error_of_either_question_fails_the_nameserver() {
    assert_eq!(collect_addresses(Err(Error::Transport), Ok(Some(answer(&[(3, 30)], true)))), Err(Error::Transport));
    assert_eq!(collect_addresses(Ok(Some(answer(&[(1, 10)], false))), Err(Error::Transport)), Err(Error::Transport));
    assert_eq!(collect_addresses(Err(Error::PushError), Err(Error::Transport)), Err(Error::PushError));
}

#[test]
fn both_questions_start_with_the_resolvers_settings() {
    let r = resolver(&[], 1, 1);
    let name = AbsoluteName::parse("example.com").unwrap();
    let (ipv4, ipv6) = r.query_name_and_nameserver(&name);
    let (first, action) = ipv4.unwrap();
    assert!(matches!(action, Action::SendUdp));
    let first = dnsaur::message::decode_query(first.query()).unwrap();
    assert_eq!(first.rtype, 1);
    assert_eq!(first.name, name.to_wire());
    assert_eq!(first.udp_payload_size, 1232);
    let (second, action) = ipv6.unwrap();
    assert!(matches!(action, Action::SendUdp));
    let fields = dnsaur::message::decode_query(second.query()).unwrap();
    assert_eq!(fields.rtype, 28);
    assert_eq!(fields.id, second.id());
}

#[test]
fn candidate_that_grows_beyond_a_name_ends_the_search() {
    let stem = format!("{}.{}.{}", "a".repeat(63), "a".repeat(63), "a".repeat(63));
    let suffix = format!("{}.x", "b".repeat(60));
    let r = resolver(&[suffix.as_str()], 0, 1);
    let (search, step) = r.dns_with_search(&stem);
    assert!(matches!(step, SearchStep::Done(Err(Error::NameParse))));
    assert!(search.is_over());
    let r = resolver(&[], 9, 1);
    let (_, step) = r.dns_with_search(&format!("{}.{}", stem, suffix));
    assert!(matches!(step, SearchStep::Done(Err(Error::NameParse))));
}
