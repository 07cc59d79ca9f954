//! Two kinds of identifier, each declared in full, and what holds of them
//! through parsing, display and a structured format.

use std::fmt;
use std::str::FromStr;

use pref_id::id::{deserialize, parse, serialize};
use pref_id::{Id, IdParseError, SEPARATOR_LENGTH, UUID_STRING_LENGTH};
use serde::de::Error as DeError;
use serde::{Deserialize, Deserializer, Serialize, Serializer};
use serde_test::{assert_de_tokens_error, assert_tokens, Token};
use uuid::Uuid;

#[derive(Debug, Clone, Copy, PartialEq, Eq, Hash)]
struct TestId(Uuid);

impl Id for TestId {
    fn prefix() -> &'static str {
        "test"
    }

    fn from_uuid(payload: u128) -> Self {
        TestId(Uuid::from_u128(payload))
    }

    fn get(self) -> u128 {
        self.0.as_u128()
    }
}

impl From<Uuid> for TestId {
    fn from(id: Uuid) -> Self {
        TestId(id)
    }
}

impl FromStr for TestId {
    type Err = IdParseError;

    fn from_str(s: &str) -> Result<Self, Self::Err> {
        parse(s)
    }
}

impl fmt::Display for TestId {
    fn fmt(&self, f: &mut fmt::Formatter<'_>) -> fmt::Result {
        f.write_str(&serialize(*self))
    }
}

impl Serialize for TestId {
    fn serialize<S: Serializer>(&self, serializer: S) -> Result<S::Ok, S::Error> {
        serializer.serialize_str(&serialize(*self))
    }
}

impl<'de> Deserialize<'de> for TestId {
    fn deserialize<D: Deserializer<'de>>(deserializer: D) -> Result<Self, D::Error> {
        let s = String::deserialize(deserializer)?;
        deserialize(&s).map_err(D::Error::custom)
    }
}

#[derive(Debug, Clone, Copy, PartialEq, Eq, Hash)]
struct TestIdImplicitCrate(Uuid);

impl Id for TestIdImplicitCrate {
    fn prefix() -> &'static str {
        "test_id_implicit_crate"
    }

    fn from_uuid(payload: u128) -> Self {
        TestIdImplicitCrate(Uuid::from_u128(payload))
    }

    fn get(self) -> u128 {
        self.0.as_u128()
    }
}

impl From<Uuid> for TestIdImplicitCrate {
    fn from(id: Uuid) -> Self {
        TestIdImplicitCrate(id)
    }
}

impl Serialize for TestIdImplicitCrate {
    fn serialize<S: Serializer>(&self, serializer: S) -> Result<S::Ok, S::Error> {
        serializer.serialize_str(&serialize(*self))
    }
}

impl<'de> Deserialize<'de> for TestIdImplicitCrate {
    fn deserialize<D: Deserializer<'de>>(deserializer: D) -> Result<Self, D::Error> {
        let s = String::deserialize(deserializer)?;
        deserialize(&s).map_err(D::Error::custom)
    }
}

#[test]
fn test_id() {
    let id = uuid::Uuid::nil();
    let test_id = TestId::from(id);

    const EXPECTED_STRING: &str = "test-00000000-0000-0000-0000-000000000000";
    assert_eq!(
        EXPECTED_STRING.len(),
        UUID_STRING_LENGTH + SEPARATOR_LENGTH + TestId::prefix().len()
    );

    assert_tokens(&test_id, &[Token::String(EXPECTED_STRING)]);
}

#[test]
fn test_id_parse() {
    assert_eq!(
        TestId::from_str("test-00000000-0000-0000-0000-000000000000")
            .expect("this prefixed id should be valid"),
        TestId::from(uuid::Uuid::nil())
    );

    assert_eq!(
        TestId::from_str("test1-00000000-0000-0000-0000-000000000000")
            .expect_err("incorrect prefix should be invalid"),
        IdParseError::InvalidPrefix
    );

    assert!(matches!(
        TestId::from_str("test-00000000-0000-0000-0000-00")
            .expect_err("incorrect UUID should be invalid"),
        IdParseError::InvalidUuid(_)
    ));
}

#[test]
fn test_id_with_crate_unspecified() {
    let id = uuid::Uuid::nil();
    let test_id = TestIdImplicitCrate::from(id);

    const EXPECTED_STRING: &str = "test_id_implicit_crate-00000000-0000-0000-0000-000000000000";
    assert_eq!(
        EXPECTED_STRING.len(),
        UUID_STRING_LENGTH + SEPARATOR_LENGTH + TestIdImplicitCrate::prefix().len()
    );

    assert_tokens(&test_id, &[Token::String(EXPECTED_STRING)]);
}

#[test]
fn nil_id_is_written_exactly() {
    let text = serialize(TestId::from(Uuid::nil()));
    assert_eq!(text, "test-00000000-0000-0000-0000-000000000000");
    assert_eq!(text.len(), 41);
    assert_eq!(TestId::from(Uuid::nil()).to_string(), text);
}

#[test]
fn every_digit_is_written_in_its_place() {
    let id = TestId::from_uuid(0x0123_4567_89ab_cdef_fedc_ba98_7654_3210);
    assert_eq!(serialize(id), "test-01234567-89ab-cdef-fedc-ba9876543210");
    assert_eq!(id.get(), 0x0123_4567_89ab_cdef_fedc_ba98_7654_3210);
}

#[test]
fn parse_gives_back_what_serialize_wrote() {
    let payloads = [
        0u128,
        1,
        u128::MAX,
        0xa1a2_a3a4_b1b2_c1c2_d1d2_d3d4_d5d6_d7d8,
        0x8000_0000_0000_0000_0000_0000_0000_0000,
    ];
    for payload in payloads {
        let id = TestId::from_uuid(payload);
        assert_eq!(parse::<TestId>(&serialize(id)), Ok(id));
        let other = TestIdImplicitCrate::from_uuid(payload);
        assert_eq!(parse::<TestIdImplicitCrate>(&serialize(other)), Ok(other));
    }
}

#[test]
fn serialized_length_is_prefix_and_thirty_seven() {
    for payload in [0u128, 7, u128::MAX] {
        assert_eq!(serialize(TestId::from_uuid(payload)).len(), 4 + 1 + 36);
        assert_eq!(
            serialize(TestIdImplicitCrate::from_uuid(payload)).len(),
            22 + 1 + 36
        );
    }
}

#[test]
fn one_kind_refuses_the_text_of_another() {
    let text = serialize(TestId::from(Uuid::nil()));
    assert_eq!(
        parse::<TestIdImplicitCrate>(&text),
        Err(IdParseError::InvalidPrefix)
    );
    let text = serialize(TestIdImplicitCrate::from(Uuid::nil()));
    assert_eq!(parse::<TestId>(&text), Err(IdParseError::InvalidPrefix));
}

#[test]
fn deserialize_reports_the_message_of_the_parse_error() {
    assert_eq!(
        deserialize::<TestId>("test1-00000000-0000-0000-0000-000000000000"),
        Err("failed to parse ID: invalid prefix".to_string())
    );
    assert_eq!(
        deserialize::<TestId>("test-00000000-0000-0000-0000-00"),
        Err(
            "failed to parse ID: invalid UUID: invalid group length in group 4: expected 12, found 2"
                .to_string()
        )
    );
    assert_eq!(
        deserialize::<TestId>("test-00000000-0000-0000-0000-000000000000"),
        Ok(TestId::from(Uuid::nil()))
    );
}

#[test]
fn structured_deserialization_fails_with_the_prefix_message() {
    assert_de_tokens_error::<TestId>(
        &[Token::String("test1-00000000-0000-0000-0000-000000000000")],
        "failed to parse ID: invalid prefix",
    );
    assert_de_tokens_error::<TestId>(
        &[Token::Str("test-00000000-0000-0000-0000-00")],
        "failed to parse ID: invalid UUID: invalid group length in group 4: expected 12, found 2",
    );
}

#[test]
fn a_uuid_without_hyphens_is_refused_with_the_message_of_a_malformed_uuid() {
    let r = TestId::from_str("test-00000000000000000000000000000000").map_err(|e| e.message());
    let t = r.expect_err("the hyphens are missing");
    assert!(t.starts_with("failed to parse ID: invalid UUID: "));
    assert_eq!(
        deserialize::<TestId>("test-00000000000000000000000000000000"),
        Err(t)
    );
    assert!(matches!(
        parse::<TestId>("test-{00000000-0000-0000-0000-000000000000}"),
        Err(IdParseError::InvalidUuid(_))
    ));
    assert!(matches!(
        parse::<TestId>("test-urn:uuid:00000000-0000-0000-0000-000000000000"),
        Err(IdParseError::InvalidUuid(_))
    ));
}

#[test]
fn the_message_of_a_malformed_uuid_ends_in_the_cause() {
    let cause = "zz"
        .parse::<uuid::fmt::Hyphenated>()
        .expect_err("the uuid is malformed");
    let error = TestId::from_str("test-zz").expect_err("the uuid is malformed");
    assert_eq!(error, IdParseError::InvalidUuid(cause.clone()));
    assert_eq!(
        error.message(),
        format!("failed to parse ID: invalid UUID: {cause}")
    );
    let other = TestId::from_str("test-00000000-0000-0000-0000-00").expect_err("it is cut short");
    assert_ne!(error.message(), other.message());
}
