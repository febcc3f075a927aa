use rand::Rng;
use uuid::Uuid;
use vstd::prelude::*;

use crate::codec::{base64_standard_decoding, base64_standard_encode, base64_standard_encoding};

verus! {

/// `uuid::Uuid`, carried through the library as an opaque value.
#[verifier::external_type_specification]
#[verifier::external_body]
pub struct ExUuid(Uuid);

/// Calls `Uuid::new_v4`, a random identifier; nothing is stated of it.
#[verifier::external_body]
pub(crate) fn uuid_v4() -> (r: Uuid) {
    Uuid::new_v4()
}

/// Calls `Uuid::as_bytes` and copies the 16 bytes out.
#[verifier::external_body]
pub(crate) fn uuid_bytes(id: &Uuid) -> (r: Vec<u8>)
    ensures
        r@.len() == 16,
{
    id.as_bytes().to_vec()
}

/// Calls `ToString::to_string` on a `Uuid`, its hyphenated lower-case form of
/// 36 characters.
#[verifier::external_body]
pub(crate) fn uuid_text(id: &Uuid) -> (r: String)
    ensures
        r@.len() == 36,
{
    id.to_string()
}

/// A fresh random identifier in hyphenated form.
pub fn new_id() -> (r: String)
    ensures
        r@.len() == 36,
{
    let id = uuid_v4();
    uuid_text(&id)
}

/// A fresh 16-byte random nonce, standard-base64 encoded.
pub fn random_nonce() -> (r: String)
    ensures
        exists|bytes: Seq<u8>| bytes.len() == 16 && r@ == base64_standard_encoding(bytes),
        base64_standard_decoding(r@) matches Some(b) && b.len() == 16,
{
    let id = uuid_v4();
    let bytes = uuid_bytes(&id);
    base64_standard_encode(bytes.as_slice())
}

/// Calls `Rng::gen_range(low..high)` on `rand::rngs::OsRng`, a random number
/// of the half-open range; `gen_range` panics on an empty range, which
/// `requires` leaves out.
#[verifier::external_body]
pub(crate) fn random_in_range(low: u64, high: u64) -> (r: u64)
    requires
        low < high,
    ensures
        low <= r < high,
{
    rand::rngs::OsRng.gen_range(low..high)
}

} // verus!
