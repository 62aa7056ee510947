//! Random generation of IDs and agent names. The randomness comes from
//! outside crates behind trusted wrappers; everything built on top is
//! verified for every value the wrappers may hand back.

use vstd::prelude::*;

verus! {

use vstd::string::StrSliceExecFns;
use vstd::string::StringExecFns;
use crate::ids::has_prefix;

/// A lowercase hexadecimal digit.
pub open spec fn is_lower_hex_digit(c: char) -> bool {
    ('0' <= c && c <= '9') || ('a' <= c && c <= 'f')
}

/// Relies on uuid::Uuid::new_v4 and the Display of its `simple` form: 32
/// characters, each nibble of the fresh 128-bit value written as a
/// lowercase hexadecimal digit.
#[verifier::external_body]
fn fresh_token() -> (r: String)
    ensures
        r@.len() == 32,
        forall|k: int| 0 <= k < r@.len() ==> is_lower_hex_digit(#[trigger] r@[k]),
{
    uuid::Uuid::new_v4().simple().to_string()
}

/// Relies on names::Generator: `next` always yields an adjective-noun
/// pair joined by a hyphen, drawn from non-empty word lists, so the name
/// is never empty; nor is the fallback.
#[verifier::external_body]
pub fn generate_agent_name() -> (r: String)
    ensures
        r@.len() > 0,
{
    let mut generator = names::Generator::default();
    match generator.next() {
        Some(n) => n,
        None => String::from_str("unnamed-agent"),
    }
}

/// A freshly drawn ID: the given prefix followed by the first 12
/// characters of a random 128-bit token, all lowercase hexadecimal.
/// Unique only with overwhelming probability; the store still checks
/// freshness before trusting it.
pub fn fresh_id(prefix: &str) -> (r: String)
    ensures
        r@.len() == prefix@.len() + 12,
        has_prefix(r@, prefix@),
        forall|k: int|
            prefix@.len() <= k < r@.len() ==> is_lower_hex_digit(#[trigger] r@[k]),
{
    let token = fresh_token();
    let mut r = prefix.to_owned();
    r.append(token.as_str().substring_char(0, 12));
    proof {
        assert(r@.subrange(0, prefix@.len() as int) =~= prefix@);
    }
    r
}

} // verus!
