use dnsaur::addr::{IpAddress, IpAddresses};
use domain::base::iana::Class;
use domain::base::{MessageBuilder, Name, Rtype, Ttl};
use domain::rdata::{Aaaa, Cname, A};
use std::str::FromStr;

fn owner() -> Name<Vec<u8>> {
    Name::from_str("example.com.").unwrap()
}

#[test]
fn extraction_skips_a_cname_and_keeps_section_order() {
    let mut builder = MessageBuilder::new_vec().question();
    builder.push((owner(), Rtype::A)).unwrap();
    let mut builder = builder.answer();
    builder
        .push((owner(), Class::IN, Ttl::from_secs(60), Cname::new(Name::<Vec<u8>>::from_str("x.").unwrap())))
        .unwrap();
    builder.push((owner(), Class::IN, Ttl::from_secs(300), A::from_octets(93, 184, 216, 34))).unwrap();
    let v6: [u8; 16] = [0x26, 0x06, 0x28, 0x00, 0x02, 0x20, 0x00, 0x01, 0x02, 0x48, 0x18, 0x93, 0x25, 0xc8, 0x19, 0x46];
    builder.push((owner(), Class::IN, Ttl::from_secs(300), Aaaa::new(v6.into()))).unwrap();
    let response = IpAddresses::from(builder.finish());
    let expected = vec![(IpAddress::V4([93, 184, 216, 34]), 300u32), (IpAddress::V6(v6), 300u32)];
    assert_eq!(response.addresses(), expected);

    let mut pass = response.iter();
    assert_eq!(pass.next(), Some(expected[0]));
    assert_eq!(pass.next(), Some(expected[1]));
    assert_eq!(pass.next(), None);
    assert_eq!(pass.next(), None);

    let mut again = response.iter();
    assert_eq!(again.next(), Some(expected[0]));
}

#[test]
fn extraction_of_an_empty_answer_section() {
    let mut builder = MessageBuilder::new_vec().question();
    builder.push((owner(), Rtype::A)).unwrap();
    let response = IpAddresses::from(builder.finish());
    assert_eq!(response.addresses(), vec![]);
    assert_eq!(response.iter().next(), None);
}

#[test]
fn extraction_from_a_message_shorter_than_a_header() {
    let response = IpAddresses::from(vec![0u8; 5]);
    assert_eq!(response.addresses(), vec![]);
    assert_eq!(response.as_bytes(), &vec![0u8; 5]);
}

#[test]
fn extraction_from_a_message_with_a_broken_question_section() {
    let mut message = vec![0u8; 12];
    message[5] = 1;
    message[7] = 1;
    let response = IpAddresses::from(message);
    assert_eq!(response.addresses(), vec![]);
}

#[test]
fn extraction_keeps_what_precedes_a_cut_record() {
    let mut builder = MessageBuilder::new_vec().answer();
    builder.push((owner(), Class::IN, Ttl::from_secs(7), A::from_octets(10, 0, 0, 1))).unwrap();
    builder.push((owner(), Class::IN, Ttl::from_secs(8), A::from_octets(10, 0, 0, 2))).unwrap();
    let mut message = builder.finish();
    message.truncate(message.len() - 2);
    let response = IpAddresses::from(message);
    assert_eq!(response.addresses(), vec![(IpAddress::V4([10, 0, 0, 1]), 7u32)]);
}

#[test]
fn extraction_skips_an_address_record_with_data_of_the_wrong_length() {
    let mut message = vec![0u8, 0, 0x80, 0, 0, 0, 0, 2, 0, 0, 0, 0];
    message.extend_from_slice(&[0, 0, 1, 0, 1, 0, 0, 0, 9, 0, 3, 1, 2, 3]);
    message.extend_from_slice(&[0, 0, 1, 0, 1, 0, 0, 0, 9, 0, 4, 1, 2, 3, 4]);
    let response = IpAddresses::from(message);
    assert_eq!(response.addresses(), vec![(IpAddress::V4([1, 2, 3, 4]), 9u32)]);
}
