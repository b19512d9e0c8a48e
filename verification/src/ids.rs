//! Random identifiers for registrations and connections.

use vstd::prelude::*;
use vstd::string::StrSliceExecFns;
use vstd::utf8::{encode_utf8, is_ascii_chars, is_ascii_chars_encode_utf8};

verus! {

/// A universally unique identifier of the `uuid` crate.
#[verifier::external_type_specification]
#[verifier::external_body]
pub struct ExUuid(uuid::Uuid);

/// The length of a registration's identifier, in characters.
pub const ID_LEN: usize = 8;

/// Whether `c` is a decimal digit or one of the letters `a` to `f`.
pub open spec fn is_lower_hex(c: char) -> bool {
    ('0' <= c && c <= '9') || ('a' <= c && c <= 'f')
}

/// Whether every character of `s` is a lower-case hexadecimal digit.
pub open spec fn all_lower_hex(s: Seq<char>) -> bool {
    forall|i: int| 0 <= i < s.len() ==> is_lower_hex(#[trigger] s[i])
}

/// Whether `s` is an identifier in simple form: 32 lower-case hexadecimal digits.
pub open spec fn is_simple_uuid(s: Seq<char>) -> bool {
    s.len() == 32 && all_lower_hex(s)
}

/// Whether `s` has the shape of an identifier in hyphenated form: 36
/// characters, each a lower-case hexadecimal digit or a hyphen.
pub open spec fn is_hyphenated_uuid(s: Seq<char>) -> bool {
    s.len() == 36 && forall|i: int| 0 <= i < s.len() ==> is_lower_hex(#[trigger] s[i]) || s[i] == '-'
}

/// Whether `s` has the shape of a drawn registration identifier: eight
/// lower-case hexadecimal digits.
pub open spec fn is_short_id(s: Seq<char>) -> bool {
    s.len() == ID_LEN && all_lower_hex(s)
}

/// Calls `uuid::Uuid::new_v4`, which fills the identifier from the operating
/// system's random source. Nothing is promised of the value; the call aborts
/// where the system has no random bytes to give.
#[verifier::external_body]
fn new_v4() -> uuid::Uuid {
    uuid::Uuid::new_v4()
}

/// Formats an identifier through `uuid::Uuid::to_simple`, whose `Display`
/// writes its sixteen bytes as 32 lower-case hexadecimal digits without hyphens.
#[verifier::external_body]
fn to_simple_string(id: uuid::Uuid) -> (s: String)
    ensures
        is_simple_uuid(s@),
{
    id.to_simple().to_string()
}

/// Formats an identifier through the `Display` of `uuid::Uuid`, which writes
/// the hyphenated form: 36 characters, each a lower-case hexadecimal digit
/// or a hyphen.
#[verifier::external_body]
fn to_hyphenated_string(id: uuid::Uuid) -> (s: String)
    ensures
        is_hyphenated_uuid(s@),
{
    id.to_string()
}

/// The first eight characters of `uuid`.
pub fn short_id(uuid: &str) -> (id: String)
    requires
        uuid@.len() >= ID_LEN,
    ensures
        id@ == uuid@.subrange(0, ID_LEN as int),
{
    uuid.substring_char(0, ID_LEN).to_owned()
}

/// Draws a random identifier for a connection.
pub fn draw_connection_id() -> (id: String)
    ensures
        is_simple_uuid(id@),
{
    to_simple_string(new_v4())
}

/// Draws a random identifier for a registration: the first eight digits of
/// a random identifier in simple form.
pub fn draw_id() -> (id: String)
    ensures
        is_short_id(id@),
{
    let full = draw_connection_id();
    let id = short_id(full.as_str());
    assert forall|i: int| 0 <= i < id@.len() implies is_lower_hex(#[trigger] id@[i]) by {
        assert(id@[i] == full@[i]);
    }
    id
}

/// Draws a random process secret, in hyphenated form. It takes 36 bytes,
/// enough to salt a hash.
pub fn draw_secret() -> (secret: String)
    ensures
        is_hyphenated_uuid(secret@),
        encode_utf8(secret@).len() == 36,
{
    let secret = to_hyphenated_string(new_v4());
    proof {
        assert(is_ascii_chars(secret@));
        is_ascii_chars_encode_utf8(secret@);
    }
    secret
}

} // verus!
