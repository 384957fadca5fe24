use ramp::names::{Id, Name};

const G: &str = "0279be667ef9dcbbac55a06295ce870b07029bfcdb2dce28d959f2815b16f81798";
const G_UNCOMPRESSED: &str = "0479be667ef9dcbbac55a06295ce870b07029bfcdb2dce28d959f2815b16f81798483ada7726a3c4655da4fbfc0e1108a8fd17b448a68554199c47d08ffb10d4b8";

#[test]
fn id_hash_matches_air() {
    let id = Id::hash("Room");
    let expected: [u8; 32] = air::Id::hash("Room").into();
    assert_eq!(id.bytes, expected);
    assert_ne!(Id::hash("Room").bytes, Id::hash("ChatRoom2.5").bytes);
}

#[test]
fn id_text_round_trip() {
    let mut bytes = [0u8; 32];
    bytes[0] = 0xab;
    bytes[31] = 0x01;
    let id = Id::new(bytes);
    let text = id.to_text();
    assert_eq!(text.len(), 64);
    assert!(text.starts_with("ab00"));
    assert!(text.ends_with("01"));
    let back = Id::parse(&text).unwrap();
    assert_eq!(back, id);
    let upper = text.to_uppercase();
    assert_eq!(Id::parse(&upper).unwrap(), id);
}

#[test]
fn id_parse_rejects_bad_text() {
    assert!(Id::parse("abcd").is_none());
    assert!(Id::parse(&"g".repeat(64)).is_none());
    assert!(Id::parse(&"0".repeat(63)).is_none());
    assert!(Id::parse(&"0".repeat(66)).is_none());
    assert_eq!(Id::parse(&"0".repeat(64)).unwrap(), Id::default());
}

#[test]
fn id_equality() {
    let a = Id::new([1u8; 32]);
    let b = Id::new([1u8; 32]);
    let mut other = [1u8; 32];
    other[17] = 2;
    let c = Id::new(other);
    assert!(a.same(&b));
    assert!(!a.same(&c));
    assert_eq!(a, b);
    assert_ne!(a, c);
}

#[test]
fn name_parse_is_canonical() {
    let a = Name::parse(G).unwrap();
    assert_eq!(a.as_str(), G);
    let b = Name::parse(G_UNCOMPRESSED).unwrap();
    assert_eq!(b.as_str(), G);
    assert!(a.same(&b));
    let upper = Name::parse(&G.to_uppercase()).unwrap();
    assert_eq!(upper.as_str(), G);
}

#[test]
fn name_parse_rejects_non_keys() {
    assert!(Name::parse("hello").is_none());
    assert!(Name::parse(&"0".repeat(66)).is_none());
}
