use std::str::FromStr;
use tmkms::{ConsensusError, Id};

const EMPTY_KEY_ID: &str = "E3B0C44298FC1C149AFBF4C8996FB92427AE41E4";

#[test]
fn id_from_public_key_is_digest_prefix() {
    let id = Id::from_public_key(&[]);
    assert_eq!(id.to_hex_string(), EMPTY_KEY_ID);
    let abc = Id::from_public_key(b"abc");
    assert_eq!(abc.to_hex_string(), "BA7816BF8F01CFEA414140DE5DAE2223B00361A3");
}

#[test]
fn id_new_and_as_bytes() {
    let mut bytes = [0u8; 20];
    for (i, b) in bytes.iter_mut().enumerate() {
        *b = i as u8;
    }
    let id = Id::new(bytes);
    assert_eq!(id.as_bytes(), &bytes[..]);
    assert_eq!(id.to_hex_string(), "000102030405060708090A0B0C0D0E0F10111213");
}

#[test]
fn id_hex_round_trip() {
    let id = Id::new([0xAB; 20]);
    let text = id.to_hex_string();
    assert_eq!(text, "ABABABABABABABABABABABABABABABABABABABAB");
    assert!(Id::parse(&text).unwrap() == id);
    let key_id = Id::from_public_key(b"some key");
    assert!(Id::parse(&key_id.to_hex_string()).unwrap() == key_id);
}

#[test]
fn id_parse_accepts_either_case() {
    let upper = Id::parse(EMPTY_KEY_ID).unwrap();
    let lower = Id::parse(&EMPTY_KEY_ID.to_lowercase()).unwrap();
    assert!(upper == lower);
    assert!(upper == Id::from_public_key(&[]));
    assert!(Id::from_str(EMPTY_KEY_ID).unwrap() == upper);
}

#[test]
fn id_parse_rejects_malformed() {
    assert_eq!(Id::parse("").err(), Some(ConsensusError::Parse));
    assert_eq!(Id::parse("E3B0").err(), Some(ConsensusError::Parse));
    assert_eq!(
        Id::parse("E3B0C44298FC1C149AFBF4C8996FB92427AE41E4AA").err(),
        Some(ConsensusError::Parse)
    );
    assert_eq!(
        Id::parse("E3B0C44298FC1C149AFBF4C8996FB92427AE41E").err(),
        Some(ConsensusError::Parse)
    );
    assert_eq!(
        Id::parse("G3B0C44298FC1C149AFBF4C8996FB92427AE41E4").err(),
        Some(ConsensusError::Parse)
    );
    assert_eq!(
        Id::parse("E3B0C44298FC1C149AFBF4C8996FB92427AE41E ").err(),
        Some(ConsensusError::Parse)
    );
}

#[test]
fn id_parse_accepts_mixed_case() {
    let mixed = Id::parse("e3B0c44298Fc1C149afbF4C8996fb92427AE41e4").unwrap();
    assert!(mixed == Id::parse(EMPTY_KEY_ID).unwrap());
    let ab = format!("aB{}", "0".repeat(38));
    let mut expected = [0u8; 20];
    expected[0] = 0xAB;
    assert!(Id::parse(&ab).unwrap() == Id::new(expected));
    assert_eq!(
        Id::parse("g3B0c44298Fc1C149afbF4C8996fb92427AE41e4").err(),
        Some(ConsensusError::Parse)
    );
}

#[test]
fn id_equality_is_by_bytes() {
    let a = Id::new([1; 20]);
    let b = Id::new([1; 20]);
    let mut other = [1u8; 20];
    other[19] = 2;
    let c = Id::new(other);
    assert!(a.ct_eq(&b));
    assert!(!a.ct_eq(&c));
    assert!(a == b);
    assert!(a != c);
}

#[test]
fn id_from_str_cases() {
    assert!(Id::from_str(&"00".repeat(20)).unwrap() == Id::new([0u8; 20]));
    assert_eq!(Id::from_str(&"AB".repeat(19)).err(), Some(ConsensusError::Parse));
    let with_g = "0G".to_string() + &"0".repeat(38);
    assert_eq!(Id::from_str(&with_g).err(), Some(ConsensusError::Parse));
    let ab = format!("aB{}", "0".repeat(38));
    let mut expected = [0u8; 20];
    expected[0] = 0xAB;
    assert!(Id::from_str(&ab).unwrap() == Id::new(expected));
    let id = Id::from_public_key(b"key");
    assert!(Id::from_str(&id.to_hex_string()).unwrap() == id);
    assert!(Id::from_str(&id.to_hex_string().to_lowercase()).unwrap() == id);
}

#[test]
fn id_as_ref_is_its_bytes() {
    let id = Id::new([9; 20]);
    let bytes: &[u8] = id.as_ref();
    assert_eq!(bytes, &[9u8; 20][..]);
}
