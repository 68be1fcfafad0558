use vstd::prelude::*;

verus! {

/// Relies on `bytes::Bytes`: a received chunk is held and handed on as it
/// came, and nothing here looks inside it.
#[verifier::external_type_specification]
#[verifier::external_body]
pub struct ExBytes(bytes::Bytes);

} // verus!
