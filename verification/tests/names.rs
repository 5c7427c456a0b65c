use dnsaur::errors::Error;
use dnsaur::name::AbsoluteName;

#[test]
fn parse_appends_the_root_label() {
    let name = AbsoluteName::parse("example.com").unwrap();
    assert_eq!(name.to_wire(), b"\x07example\x03com\x00".to_vec());
}

#[test]
fn parse_keeps_an_absolute_name() {
    let name = AbsoluteName::parse("example.com.").unwrap();
    assert_eq!(name.to_wire(), b"\x07example\x03com\x00".to_vec());
}

#[test]
fn parse_rejects_an_empty_label() {
    assert!(matches!(AbsoluteName::parse("a..b"), Err(Error::NameParse)));
}

fn long_name(last_label: &str) -> String {
    format!("{}.{}.{}.{}.{}", "a".repeat(63), "a".repeat(63), "a".repeat(63), "b".repeat(60), last_label)
}

#[test]
fn parse_rejects_a_name_of_256_octets() {
    let text = long_name("x");
    assert_eq!(text.len(), 254);
    assert!(matches!(AbsoluteName::parse(&text), Err(Error::NameParse)));
    let text = format!("{}.", text);
    assert!(matches!(AbsoluteName::parse(&text), Err(Error::NameParse)));
}

#[test]
fn parse_accepts_a_name_of_255_octets() {
    let text = format!("{}.{}.{}.{}", "a".repeat(63), "a".repeat(63), "a".repeat(63), "b".repeat(61));
    assert_eq!(AbsoluteName::parse(&text).unwrap().to_wire().len(), 255);
    let text = format!("{}.{}.{}.{}.", "a".repeat(63), "a".repeat(63), "a".repeat(63), "b".repeat(59));
    assert_eq!(AbsoluteName::parse(&text).unwrap().to_wire().len(), 253);
}

#[test]
fn parse_rejects_a_label_of_64_octets() {
    assert!(matches!(AbsoluteName::parse(&"a".repeat(64)), Err(Error::NameParse)));
    assert!(AbsoluteName::parse(&"a".repeat(63)).is_ok());
}
