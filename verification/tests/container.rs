//! Persistence through the container format: save to bytes, open from
//! bytes, and every way a container can be rejected.

use ogma_store::error::StoreError;
use ogma_store::store::{CompressionLevel, Store, StoreOptions};

#[derive(Debug, Eq, PartialEq)]
pub struct Address {
    pub street: String,
    pub apt: Option<String>,
    pub city: String,
    pub state: String,
    pub zip: String,
}

#[derive(Debug, Eq, PartialEq)]
pub struct Person {
    pub first_name: String,
    pub middle_initial: Option<char>,
    pub last_name: String,
    pub age: u8,
    pub address: Address,
}

impl serde::Serialize for Address {
    fn serialize<S: serde::Serializer>(&self, s: S) -> Result<S::Ok, S::Error> {
        (&self.street, &self.apt, &self.city, &self.state, &self.zip).serialize(s)
    }
}

impl<'de> serde::Deserialize<'de> for Address {
    fn deserialize<D: serde::Deserializer<'de>>(d: D) -> Result<Self, D::Error> {
        let (street, apt, city, state, zip) =
            <(String, Option<String>, String, String, String)>::deserialize(d)?;
        Ok(Address { street, apt, city, state, zip })
    }
}

impl serde::Serialize for Person {
    fn serialize<S: serde::Serializer>(&self, s: S) -> Result<S::Ok, S::Error> {
        (&self.first_name, &self.middle_initial, &self.last_name, &self.age, &self.address)
            .serialize(s)
    }
}

impl<'de> serde::Deserialize<'de> for Person {
    fn deserialize<D: serde::Deserializer<'de>>(d: D) -> Result<Self, D::Error> {
        let (first_name, middle_initial, last_name, age, address) =
            <(String, Option<char>, String, u8, Address)>::deserialize(d)?;
        Ok(Person { first_name, middle_initial, last_name, age, address })
    }
}

fn get_person() -> Person {
    Person {
        first_name: "John".to_string(),
        middle_initial: None,
        last_name: "Smith".to_string(),
        age: 35,
        address: Address {
            street: "123 Main St".to_string(),
            apt: Some("F22".to_string()),
            city: "Chicago".to_string(),
            state: "Illinois".to_string(),
            zip: "60606".to_string(),
        },
    }
}

#[test]
fn test_disk_store() {
    let mut store: Store<u64, Person> = Store::new(Default::default());
    let x = store.set(5, get_person());
    assert!(x.is_none());

    let bytes = store.save().unwrap();
    store = Store::open(Default::default(), Some(bytes)).unwrap();

    let first = store.get(&5);
    assert!(first.is_some());

    let person = first.unwrap();
    assert_eq!(person, &get_person());
}

#[test]
fn round_trip_at_every_named_level() {
    for level in [-7i32, -1, 0, 3, 6, 9, 22] {
        let opts = StoreOptions::new("unused".to_string())
            .with_compression_level(CompressionLevel::new(level));
        let mut store: Store<u64, String> = Store::new(opts);
        store.set(1, "one".to_string());
        store.set(2, "two".to_string());
        store.set(3, "three".to_string());
        store.set(2, "dos".to_string());

        let bytes = store.save().unwrap();
        let reloaded: Store<u64, String> =
            Store::open(StoreOptions::default(), Some(bytes)).unwrap();

        assert_eq!(reloaded.len(), 3);
        assert_eq!(reloaded.get(&1), Some(&"one".to_string()));
        assert_eq!(reloaded.get(&2), Some(&"dos".to_string()));
        assert_eq!(reloaded.get(&3), Some(&"three".to_string()));
    }
}

#[test]
fn empty_store_round_trips() {
    let store: Store<u64, u64> = Store::new(Default::default());
    let bytes = store.save().unwrap();
    let reloaded: Store<u64, u64> = Store::open(Default::default(), Some(bytes)).unwrap();
    assert!(reloaded.is_empty());
}

#[test]
fn open_without_a_file_is_an_empty_store() {
    let store: Store<u64, Person> = Store::open(Default::default(), None).unwrap();
    assert!(store.is_empty());
    assert_eq!(store.len(), 0);
}

#[test]
fn open_rejects_a_foreign_magic_identifier() {
    let mut store: Store<u64, u64> = Store::new(Default::default());
    store.set(1, 2);
    let mut bytes = store.save().unwrap();
    bytes[0] = b'X';
    let err = Store::<u64, u64>::open(Default::default(), Some(bytes)).unwrap_err();
    assert!(matches!(err, StoreError::InvalidFile));
}

#[test]
fn open_rejects_garbage_whatever_follows() {
    let bytes = vec![1u8, 2, 3, 4, 3, 0, 40, 181, 47, 253];
    let err = Store::<u64, u64>::open(Default::default(), Some(bytes)).unwrap_err();
    assert!(matches!(err, StoreError::InvalidFile));
}

#[test]
fn open_rejects_a_truncated_header() {
    let bytes = vec![b'O', b'G'];
    let err = Store::<u64, u64>::open(Default::default(), Some(bytes)).unwrap_err();
    assert!(matches!(err, StoreError::InvalidFile));
}

#[test]
fn open_rejects_a_different_version() {
    let mut store: Store<u64, u64> = Store::new(Default::default());
    store.set(1, 2);
    let mut bytes = store.save().unwrap();
    bytes[4] = 2;
    bytes[5] = 0;
    let err = Store::<u64, u64>::open(Default::default(), Some(bytes)).unwrap_err();
    match err {
        StoreError::WrongVersion { expected, actual } => {
            assert_eq!(expected, 3);
            assert_eq!(actual, 2);
        },
        other => panic!("expected a version error, got {:?}", other),
    }
}

#[test]
fn open_reports_a_broken_compressed_body() {
    let mut bytes = vec![b'O', b'G', b'M', b'A', 3, 0];
    bytes.extend_from_slice(&[1, 2, 3, 4, 5]);
    let err = Store::<u64, u64>::open(Default::default(), Some(bytes)).unwrap_err();
    assert!(matches!(err, StoreError::Io(_)));
}

#[test]
fn open_reports_a_body_that_is_not_a_document() {
    let mut bytes = vec![b'O', b'G', b'M', b'A', 3, 0];
    let not_a_document = [0xc1u8];
    let compressed = zstd::stream::encode_all(&not_a_document[..], 3).unwrap();
    bytes.extend_from_slice(&compressed);
    let err = Store::<u64, u64>::open(Default::default(), Some(bytes)).unwrap_err();
    assert!(matches!(err, StoreError::Decode(_)));
}

#[test]
fn header_writer_and_validator_agree() {
    let mut out: Vec<u8> = Vec::new();
    ogma_store::format::write_header(&mut out);
    assert_eq!(out, vec![79, 71, 77, 65, 3, 0]);
    assert!(ogma_store::format::validate_header(&out).is_ok());
}

#[test]
fn saved_bytes_start_with_the_header() {
    let store: Store<u64, u64> = Store::new(Default::default());
    let bytes = store.save().unwrap();
    assert!(bytes.len() >= 6);
    assert_eq!(&bytes[0..6], &[b'O', b'G', b'M', b'A', 3, 0]);
}

#[test]
fn duplicate_records_on_disk_let_the_later_one_win() {
    // A document listing the same key twice: rebuild keeps the later record.
    let doc: Vec<(u64, String)> = vec![
        (1, "first".to_string()),
        (2, "middle".to_string()),
        (1, "second".to_string()),
    ];
    let store = Store::from_document(StoreOptions::default(), doc);
    assert_eq!(store.len(), 2);
    assert_eq!(store.get(&1), Some(&"second".to_string()));
    assert_eq!(store.get(&2), Some(&"middle".to_string()));
}

#[test]
fn to_document_lists_every_pair_once() {
    let mut store: Store<u64, u64> = Store::new(Default::default());
    store.set(1, 10);
    store.set(2, 20);
    let mut doc: Vec<(u64, u64)> = store.to_document().into_iter().map(|p| (*p.0, *p.1)).collect();
    doc.sort();
    assert_eq!(doc, vec![(1, 10), (2, 20)]);
}
