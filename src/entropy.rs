//! Random bytes from the operating system, and random identifiers built on them.
use vstd::prelude::*;
use rand::RngCore;

verus! {

/// Relies on `rand::rngs::OsRng::try_fill_bytes`: `n` random bytes from the
/// operating system, or nothing when it cannot supply them.
#[verifier::external_body]
pub(crate) fn random_bytes(n: usize) -> (r: Option<Vec<u8>>)
    ensures
        r matches Some(v) ==> v@.len() == n,
{
    let mut v = vec![0u8; n];
    match rand::rngs::OsRng.try_fill_bytes(&mut v) {
        Ok(()) => Some(v),
        Err(_) => None,
    }
}

/// Relies on `uuid::Builder::from_random_bytes`: the bytes of a version 4
/// identifier made from 16 random bytes.
#[verifier::external_body]
fn uuid_v4_from(random: [u8; 16]) -> (r: [u8; 16]) {
    uuid::Builder::from_random_bytes(random).into_uuid().into_bytes()
}

/// Relies on the `Display` form of `uuid::Uuid`: the hyphenated text of an
/// identifier, 36 characters.
#[verifier::external_body]
pub(crate) fn uuid_text(id: [u8; 16]) -> (r: String)
    ensures
        r@.len() == 36,
{
    uuid::Uuid::from_bytes(id).to_string()
}

/// The first 16 bytes of `v` as an array.
fn array16(v: &Vec<u8>) -> (r: [u8; 16])
    requires
        v@.len() == 16,
    ensures
        r@ == v@,
{
    let mut a: [u8; 16] = [0u8; 16];
    let mut i: usize = 0;
    while i < 16
        invariant
            v@.len() == 16,
            i <= 16,
            a@.len() == 16,
            forall|j: int| 0 <= j < i ==> a@[j] == v@[j],
        decreases 16 - i,
    {
        a[i] = v[i];
        i = i + 1;
    }
    assert(a@ =~= v@);
    a
}

/// The first 12 bytes of `v` as an array.
pub(crate) fn array12(v: &Vec<u8>) -> (r: [u8; 12])
    requires
        v@.len() == 12,
    ensures
        r@ == v@,
{
    let mut a: [u8; 12] = [0u8; 12];
    let mut i: usize = 0;
    while i < 12
        invariant
            v@.len() == 12,
            i <= 12,
            a@.len() == 12,
            forall|j: int| 0 <= j < i ==> a@[j] == v@[j],
        decreases 12 - i,
    {
        a[i] = v[i];
        i = i + 1;
    }
    assert(a@ =~= v@);
    a
}

/// A fresh random version 4 identifier, or nothing when no random bytes can be had.
pub fn new_message_id() -> (r: Option<[u8; 16]>) {
    match random_bytes(16) {
        Some(v) => Some(uuid_v4_from(array16(&v))),
        None => None,
    }
}

} // verus!
