//! An account record of the security accounts manager: a username and its NT hash,
//! wiped with `zeroize` once no longer needed.

use vstd::prelude::*;
use zeroize::Zeroize;

verus! {

/// A username with the NT hash of its password.
#[derive(Debug)]
pub struct SamPackage {
    pub username: String,
    pub nt_hash: [u8; 16],
}

/// Wipes a string with `<String as Zeroize>::zeroize`.
///
/// Trusted: the source overwrites the bytes with zeros and then clears the string, so
/// it is empty afterwards.
#[verifier::external_body]
fn zeroize_string(s: &mut String)
    ensures
        final(s)@.len() == 0,
{
    s.zeroize();
}

/// Wipes a hash with `<[u8; 16] as Zeroize>::zeroize`.
///
/// Trusted: the source overwrites every byte with zero.
#[verifier::external_body]
fn zeroize_hash(h: &mut [u8; 16])
    ensures
        forall|i: int| 0 <= i < 16 ==> #[trigger] final(h)@[i] == 0u8,
{
    h.zeroize();
}

impl SamPackage {
    /// A record of `username` with `nt_hash`.
    pub fn new(username: String, nt_hash: [u8; 16]) -> (r: Self)
        ensures
            r.username@ == username@,
            r.nt_hash == nt_hash,
    {
        SamPackage { username, nt_hash }
    }

    /// Overwrites the record with zeros: the username is emptied, every hash byte is 0.
    pub fn wipe(&mut self)
        ensures
            final(self).username@.len() == 0,
            forall|i: int| 0 <= i < 16 ==> #[trigger] final(self).nt_hash@[i] == 0u8,
    {
        zeroize_string(&mut self.username);
        zeroize_hash(&mut self.nt_hash);
    }
}

} // verus!
