//! Universally unique identifiers as 128-bit numbers.

use vstd::prelude::*;
use vstd::string::StringExecFns;
use crate::ascii::hex_text;
use crate::be::be_bytes;

verus! {

/// `uuid::Error`: why the `uuid` crate could not read a text. Nothing of
/// its inside is known.
#[verifier::external_type_specification]
#[verifier::external_body]
pub struct ExUuidError(uuid::Error);

/// The identifier that a text spells, in any of the forms that the
/// `uuid` crate reads, or `None` where the text spells none.
pub uninterp spec fn uuid_text_value(text: Seq<char>) -> Option<u128>;

/// The hyphenated text of the identifier `v`: its 32 hexadecimal digits
/// in lower case, in groups of 8, 4, 4, 4 and 12.
pub open spec fn hyphenated_text(v: u128) -> Seq<char> {
    let digits = hex_text(be_bytes(v as nat, 16));
    digits.subrange(0, 8) + seq!['-'] + digits.subrange(8, 12) + seq!['-'] + digits.subrange(
        12,
        16,
    ) + seq!['-'] + digits.subrange(16, 20) + seq!['-'] + digits.subrange(20, 32)
}

/// Whether `v` bears the marks of a random identifier: version 4 and the
/// variant of RFC 4122.
pub open spec fn is_random_uuid(v: u128) -> bool {
    (v / 0x1000_0000_0000_0000_0000) % 0x10 == 4 && (v / 0x4000_0000_0000_0000) % 4 == 2
}

/// `uuid::Uuid::parse_str`: the identifier that the text spells, as a
/// number whose first byte is the most significant, or the crate's error
/// where the text spells none.
#[verifier::external_body]
fn parse_text(text: &str) -> (r: Result<u128, uuid::Error>)
    ensures
        match r {
            Ok(v) => uuid_text_value(text@) == Some(v),
            Err(_) => uuid_text_value(text@) is None,
        },
{
    match uuid::Uuid::parse_str(text) {
        Ok(u) => Ok(u.as_u128()),
        Err(e) => Err(e),
    }
}

/// The message of an error of the `uuid` crate. Nothing is claimed of it.
#[verifier::external_body]
fn error_text(e: &uuid::Error) -> (r: String) {
    format!("{}", e)
}

/// `uuid::Uuid::to_string`: the hyphenated text, in lower case, of the
/// identifier whose number is `v`.
#[verifier::external_body]
fn text_of(v: u128) -> (r: String)
    ensures
        r@ == hyphenated_text(v),
{
    uuid::Uuid::from_u128(v).to_string()
}

/// `uuid::Uuid::new_v4`: a random identifier. Of every outcome only the
/// version and the variant are known.
#[verifier::external_body]
fn random_value() -> (r: u128)
    ensures
        is_random_uuid(r),
{
    uuid::Uuid::new_v4().as_u128()
}

/// A universally unique identifier.
#[derive(Debug, Clone, Copy, PartialEq, Eq, Structural)]
pub struct Uuid {
    uuid: u128,
}

/// Why a text is no identifier.
#[derive(Debug, PartialEq, Eq)]
pub struct InvalidUuid {
    pub message: String,
}

impl View for Uuid {
    type V = u128;

    /// The identifier as one number, its first byte the most significant.
    closed spec fn view(&self) -> u128 {
        self.uuid
    }
}

impl Uuid {
    /// The identifier whose 16 bytes spell `value`, the first byte the
    /// most significant.
    pub fn from_u128(value: u128) -> (r: Uuid)
        ensures
            r@ == value,
    {
        Uuid { uuid: value }
    }

    /// The identifier as one number.
    pub fn get_inner(&self) -> (r: u128)
        ensures
            r == self@,
    {
        self.uuid
    }

    /// Generates a random UUID v4.
    pub fn random_v4() -> (r: Uuid)
        ensures
            is_random_uuid(r@),
    {
        Uuid { uuid: random_value() }
    }

    /// Parses a UUID from a string. It fails where the string is not a
    /// valid UUID, with a message that says why.
    pub fn from_string(str: String) -> (r: Result<Uuid, InvalidUuid>)
        ensures
            match (uuid_text_value(str@), r) {
                (Some(v), Ok(u)) => u@ == v,
                (None, Err(e)) => "Failed to parse UUID: "@.is_prefix_of(e.message@),
                _ => false,
            },
    {
        match parse_text(str.as_str()) {
            Ok(v) => Ok(Uuid { uuid: v }),
            Err(e) => {
                let mut message: String = String::from_str("Failed to parse UUID: ");
                let detail: String = error_text(&e);
                message.append(detail.as_str());
                Err(InvalidUuid { message })
            },
        }
    }

    /// Returns the string representation of the UUID.
    pub fn to_string(&self) -> (r: String)
        ensures
            r@ == hyphenated_text(self@),
    {
        text_of(self.uuid)
    }
}

} // verus!
