//! Why a text was not accepted as an identifier.

use vstd::prelude::*;

verus! {

/// The error of the UUID parser, carried through unopened.
#[verifier::external_type_specification]
#[verifier::external_body]
pub struct ExUuidError(uuid::Error);

/// `Clone::clone` of `uuid::Error`, which the `uuid` crate derives: the copy
/// equals the value that it was made from.
pub assume_specification[ <uuid::Error as Clone>::clone ](cause: &uuid::Error) -> (copy:
    uuid::Error)
    ensures
        copy == *cause,
;

/// The two ways in which parsing an identifier fails.
#[derive(Debug, Clone, PartialEq, Eq, Hash)]
pub enum IdParseError {
    /// The text does not start with the prefix of the kind followed by the
    /// separator.
    InvalidPrefix,
    /// The prefix matched, but what follows the separator is not a UUID. The
    /// parser's own error is kept for diagnostics.
    InvalidUuid(uuid::Error),
}

/// What [`IdParseError::message`] says of a wrong prefix.
pub open spec fn invalid_prefix_message() -> Seq<char> {
    "failed to parse ID: invalid prefix"@
}

/// What [`IdParseError::message`] says of a malformed UUID, where the parser
/// describes its error as `cause`.
pub open spec fn invalid_uuid_message(cause: Seq<char>) -> Seq<char> {
    "failed to parse ID: invalid UUID: "@ + cause
}

/// The text in which the `uuid` crate describes the error `cause`: what its
/// `Display` writes.
pub uninterp spec fn cause_text(cause: uuid::Error) -> Seq<char>;

/// The description of an error of the UUID parser: `to_string` of
/// `uuid::Error`, which goes through its `Display`. The contract claims that
/// the text depends on the error alone.
#[verifier::external_body]
fn describe_cause(cause: &uuid::Error) -> (text: String)
    ensures
        text@ == cause_text(*cause),
{
    cause.to_string()
}

/// The message for a malformed UUID, given the parser's description of
/// what was wrong.
pub fn compose_invalid_uuid_message(cause: &str) -> (text: String)
    ensures
        text@ == invalid_uuid_message(cause@),
{
    let mut text = "failed to parse ID: invalid UUID: ".to_owned();
    text.append(cause);
    text
}

impl IdParseError {
    /// The message of this error: one fixed text for a wrong prefix; for a
    /// malformed UUID the fixed lead, and then the parser's own description
    /// of what was wrong.
    pub open spec fn message_text(self) -> Seq<char> {
        match self {
            IdParseError::InvalidPrefix => invalid_prefix_message(),
            IdParseError::InvalidUuid(cause) => invalid_uuid_message(cause_text(cause)),
        }
    }

    /// The message of this error, as a reader of a log sees it.
    pub fn message(&self) -> (text: String)
        ensures
            text@ == self.message_text(),
    {
        match self {
            IdParseError::InvalidPrefix => "failed to parse ID: invalid prefix".to_owned(),
            IdParseError::InvalidUuid(cause) => {
                let described = describe_cause(cause);
                compose_invalid_uuid_message(described.as_str())
            },
        }
    }
}

} // verus!
