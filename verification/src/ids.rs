//! Opaque random identifiers and the clock.

use crate::text::{all_ident_chars, is_ascii_digit, is_ident_char};
use vstd::prelude::*;

verus! {

pub open spec fn is_lower_hex(c: char) -> bool {
    is_ascii_digit(c) || ('a' <= c && c <= 'f')
}

/// An opaque token: 32 lowercase hexadecimal digits.
pub open spec fn is_opaque_token(s: Seq<char>) -> bool {
    &&& s.len() == 32
    &&& forall|i: int| 0 <= i < s.len() ==> is_lower_hex(#[trigger] s[i])
}

/// Calls `uuid::Uuid::new_v4` and formats it with `simple()`. The uuid crate
/// writes that form as 32 lowercase hexadecimal digits; which digits come out
/// is random and is not stated.
#[verifier::external_body]
pub fn new_opaque_token() -> (r: String)
    ensures
        is_opaque_token(r@),
{
    uuid::Uuid::new_v4().simple().to_string()
}

/// Milliseconds since the Unix epoch, from `std::time::SystemTime::now`.
/// The value depends on the machine's clock and is not stated.
#[verifier::external_body]
pub fn now_ms() -> (r: u64) {
    let elapsed = std::time::SystemTime::now().duration_since(std::time::UNIX_EPOCH);
    match elapsed {
        Ok(d) => d.as_millis() as u64,
        Err(_) => 0,
    }
}

} // verus!
