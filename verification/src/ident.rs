//! Identifiers for new timers.

use uuid::Uuid;
use vstd::prelude::*;

verus! {

/// Length of an identifier: 32 hexadecimal digits in five groups, with four
/// hyphens between them.
pub const ID_LENGTH: usize = 36;

/// Calls `uuid::Uuid::new_v4` and writes the identifier in its hyphenated
/// form, which takes 36 characters. The identifier is drawn at random, so
/// nothing else is known of it. `new_v4` does not return if the operating
/// system hands out no random bytes.
#[verifier::external_body]
pub(crate) fn random_id() -> (id: String)
    ensures
        id@.len() == ID_LENGTH,
{
    Uuid::new_v4().to_string()
}

} // verus!
