use vstd::prelude::*;

verus! {

/// The length of an identifier in its hyphenated form: 32 hexadecimal
/// digits and four hyphens.
pub const ID_LENGTH: usize = 36;

/// Draws a random identifier from `uuid::Uuid::new_v4` and writes it out
/// with the identifier's own `Display`, which is the hyphenated form of
/// 36 characters. Nothing is claimed of which identifier comes back: two
/// calls may differ.
#[verifier::external_body]
pub(crate) fn fresh_id() -> (id: String)
    ensures
        id@.len() == ID_LENGTH,
{
    uuid::Uuid::new_v4().to_string()
}

} // verus!
