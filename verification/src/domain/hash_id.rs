//! Identifiers of payloads: URL-safe strings, random when newly made.

use vstd::prelude::*;

verus! {

/// Whether `c` is a hexadecimal digit in lower case.
pub open spec fn is_lower_hex(c: char) -> bool {
    ('0' <= c && c <= '9') || ('a' <= c && c <= 'f')
}

/// Whether `text` is a version 4 UUID in its simple form: 32 hexadecimal
/// digits in lower case without hyphens, the version digit `4` and a
/// variant digit of `8`, `9`, `a` or `b`.
pub open spec fn is_simple_uuid_v4(text: Seq<char>) -> bool {
    &&& text.len() == 32
    &&& forall|i: int| 0 <= i < 32 ==> is_lower_hex(#[trigger] text[i])
    &&& text[12] == '4'
    &&& (text[16] == '8' || text[16] == '9' || text[16] == 'a' || text[16] == 'b')
}

/// Draws a random UUID with `uuid::Uuid::new_v4` and writes it with
/// `Uuid::simple` and `to_string`. The contract claims the shape of the
/// text only; that two draws differ is likely and not promised. Like
/// `new_v4` it panics where the operating system cannot supply random
/// bytes.
#[verifier::external_body]
fn random_simple_uuid() -> (text: String)
    ensures
        is_simple_uuid_v4(text@),
{
    uuid::Uuid::new_v4().simple().to_string()
}

/// A unique identifier for a payload.
#[derive(Debug, Clone, PartialEq, Eq, Hash)]
pub struct HashId(String);

impl View for HashId {
    type V = Seq<char>;

    closed spec fn view(&self) -> Seq<char> {
        self.0@
    }
}

impl HashId {
    /// Creates a new random identifier: a version 4 UUID in simple form.
    pub fn new() -> (id: HashId)
        ensures
            is_simple_uuid_v4(id@),
            id@.len() > 0,
    {
        HashId(random_simple_uuid())
    }

    /// Makes an identifier of an existing string, as it stands.
    pub fn from_string(val: String) -> (id: HashId)
        ensures
            id@ == val@,
    {
        HashId(val)
    }

    /// The identifier as a string.
    pub fn as_string(&self) -> (text: &str)
        ensures
            text@ == self@,
    {
        self.0.as_str()
    }
}

impl Default for HashId {
    /// A new random identifier.
    fn default() -> (id: HashId)
        ensures
            is_simple_uuid_v4(id@),
    {
        HashId::new()
    }
}

} // verus!
