//! Connection identities: random version-4 UUIDs in their simple form.

use vstd::prelude::*;
use vstd::string::*;
use crate::text::join;

verus! {

/// A digit of lower-case hexadecimal.
pub open spec fn is_lower_hex(c: char) -> bool {
    ('0' <= c && c <= '9') || ('a' <= c && c <= 'f')
}

/// The shape of a generated identity: 32 lower-case hexadecimal digits.
pub open spec fn is_identity(text: Seq<char>) -> bool {
    &&& text.len() == 32
    &&& forall|i: int| 0 <= i < text.len() ==> is_lower_hex(#[trigger] text[i])
}

/// Calls `uuid::Uuid::new_v4` and writes the result with
/// `uuid::Uuid::simple`. Trusted: the text is 32 lower-case hexadecimal
/// digits. Which digits is left open: they are random. The call panics
/// where the operating system hands out no random bytes.
#[verifier::external_body]
pub(crate) fn fresh_identity() -> (id: String)
    ensures
        is_identity(id@),
{
    uuid::Uuid::new_v4().simple().to_string()
}

/// The address under which a client connects with its identity.
pub open spec fn connection_url(host: Seq<char>, id: Seq<char>) -> Seq<char> {
    "ws://"@ + host + "/ws/"@ + id
}

/// Builds the address under which a client connects with its identity.
pub fn connection_url_for(host: &str, id: &str) -> (url: String)
    ensures
        url@ == connection_url(host@, id@),
{
    let mut url = join("ws://", host);
    url.append("/ws/");
    url.append(id);
    url
}

} // verus!
