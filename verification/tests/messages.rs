use dnsaur::message::{create_message, is_truncated, response_id, Question, RecordType};
use dnsaur::name::AbsoluteName;

fn expected_query(id: u16, name: &[u8], rtype: u16, payload: u16) -> Vec<u8> {
    let mut octets = Vec::new();
    octets.extend_from_slice(&id.to_be_bytes());
    octets.extend_from_slice(&[0x01, 0x00, 0x00, 0x01, 0x00, 0x00, 0x00, 0x00, 0x00, 0x01]);
    octets.extend_from_slice(name);
    octets.extend_from_slice(&rtype.to_be_bytes());
    octets.extend_from_slice(&[0x00, 0x01]);
    octets.push(0);
    octets.extend_from_slice(&[0x00, 0x29]);
    octets.extend_from_slice(&payload.to_be_bytes());
    octets.extend_from_slice(&[0, 0, 0, 0, 0, 0]);
    octets
}

#[test]
fn query_for_an_a_record_has_the_stated_octets() {
    let name = AbsoluteName::parse("example.com").unwrap();
    let built = create_message(0x1234, &Question::new(&name, RecordType::A), 1232).unwrap();
    assert_eq!(built, expected_query(0x1234, b"\x07example\x03com\x00", 1, 1232));
    assert_eq!(built.len(), 13 + 27);
}

#[test]
fn query_for_an_aaaa_record_has_the_stated_octets() {
    let name = AbsoluteName::parse("example.com").unwrap();
    let built = create_message(0xffff, &Question::new(&name, RecordType::Aaaa), 512).unwrap();
    assert_eq!(built, expected_query(0xffff, b"\x07example\x03com\x00", 28, 512));
}

#[test]
fn query_name_with_repeated_labels_is_not_compressed() {
    let name = AbsoluteName::parse("a.b.a.b.a.b").unwrap();
    let wire = name.to_wire();
    assert_eq!(wire, b"\x01a\x01b\x01a\x01b\x01a\x01b\x00".to_vec());
    let built = create_message(1, &Question::new(&name, RecordType::A), 4096).unwrap();
    assert_eq!(built, expected_query(1, &wire, 1, 4096));
}

#[test]
fn query_for_the_root_name() {
    let name = AbsoluteName::parse("").unwrap();
    assert_eq!(name.to_wire(), vec![0u8]);
    assert!(AbsoluteName::parse(".").is_err());
    let built = create_message(0, &Question::new(&name, RecordType::A), 0).unwrap();
    assert_eq!(built, expected_query(0, &[0], 1, 0));
}

#[test]
fn query_for_a_name_of_full_length() {
    let label = "a".repeat(63);
    let text = format!("{}.{}.{}.{}", label, label, label, "b".repeat(61));
    let name = AbsoluteName::parse(&text).unwrap();
    let wire = name.to_wire();
    assert_eq!(wire.len(), 255);
    let built = create_message(9, &Question::new(&name, RecordType::Aaaa), 1232).unwrap();
    assert_eq!(built, expected_query(9, &wire, 28, 1232));
    assert_eq!(built.len(), 282);
}

#[test]
fn query_is_read_back_by_the_outside_parser() {
    let name = AbsoluteName::parse("www.example.org").unwrap();
    let built = create_message(0xbeef, &Question::new(&name, RecordType::Aaaa), 1400).unwrap();
    let parsed = domain::base::Message::from_octets(built.as_slice()).unwrap();
    assert_eq!(parsed.header().id(), 0xbeef);
    assert!(parsed.header().rd());
    assert!(!parsed.header().qr());
    assert_eq!(parsed.header_counts().qdcount(), 1);
    assert_eq!(parsed.header_counts().arcount(), 1);
    let question = parsed.sole_question().unwrap();
    assert_eq!(question.qtype(), domain::base::Rtype::AAAA);
    assert_eq!(question.qclass(), domain::base::iana::Class::IN);
    assert_eq!(format!("{}", question.qname()), "www.example.org");
    assert_eq!(parsed.opt().unwrap().udp_payload_size(), 1400);
}

#[test]
fn response_id_reads_the_first_two_octets() {
    let mut message = vec![0u8; 12];
    message[0] = 0xab;
    message[1] = 0xcd;
    assert_eq!(response_id(&message), Some(0xabcd));
    assert_eq!(response_id(&message[..11]), None);
    assert_eq!(response_id(&[]), None);
}

#[test]
fn is_truncated_reads_the_flag() {
    let mut message = vec![0u8; 12];
    assert!(!is_truncated(&message));
    message[2] = 0x02;
    assert!(is_truncated(&message));
    message[2] = 0xfd;
    assert!(!is_truncated(&message));
    message[2] = 0x83;
    assert!(is_truncated(&message));
    assert!(!is_truncated(&[0, 0, 2]));
}

#[test]
fn query_for_example_com_is_the_forty_known_octets() {
    let name = AbsoluteName::parse("example.com.").unwrap();
    let built = create_message(0x1234, &Question::new(&name, RecordType::A), 1232);
    let expected: Vec<u8> = vec![
        0x12, 0x34, 0x01, 0x00, 0x00, 0x01, 0x00, 0x00, 0x00, 0x00, 0x00, 0x01, 0x07, 0x65, 0x78, 0x61, 0x6d,
        0x70, 0x6c, 0x65, 0x03, 0x63, 0x6f, 0x6d, 0x00, 0x00, 0x01, 0x00, 0x01, 0x00, 0x00, 0x29, 0x04, 0xd0,
        0x00, 0x00, 0x00, 0x00, 0x00, 0x00,
    ];
    assert_eq!(built, Ok(expected));
}

#[test]
fn equal_inputs_build_equal_queries() {
    let name = AbsoluteName::parse("a.example").unwrap();
    let first = create_message(77, &Question::new(&name, RecordType::Aaaa), 900);
    let second = create_message(77, &Question::new(&name, RecordType::Aaaa), 900);
    assert!(first.is_ok());
    assert_eq!(first, second);
}
