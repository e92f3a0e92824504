//! AES-128-SIV authenticated encryption, as NTS uses it: the key of one
//! direction of an association, a 16-octet nonce, and the packet so far as
//! associated data.

use aes_siv::aead::{Aead, KeyInit, Payload};
use aes_siv::{Aes128SivAead, Key, Nonce};
use vstd::prelude::*;

verus! {

/// The ciphertext (synthetic IV followed by the encrypted message) that
/// AES-128-SIV gives for key, nonce, message and associated data.
pub uninterp spec fn siv_seal(key: Seq<u8>, nonce: Seq<u8>, msg: Seq<u8>, aad: Seq<u8>) -> Seq<u8>;

/// The message that AES-128-SIV recovers from a ciphertext under key, nonce
/// and associated data, or `None` where the ciphertext does not authenticate.
pub uninterp spec fn siv_open(key: Seq<u8>, nonce: Seq<u8>, ct: Seq<u8>, aad: Seq<u8>) -> Option<
    Seq<u8>,
>;

/// Whether the message `msg` sealed under key, nonce and associated data
/// opens back to `msg`, with a ciphertext 16 octets longer.
pub open spec fn sealing_opens(key: Seq<u8>, nonce: Seq<u8>, msg: Seq<u8>, aad: Seq<u8>) -> bool {
    &&& siv_open(key, nonce, siv_seal(key, nonce, msg, aad), aad) == Some(msg)
    &&& siv_seal(key, nonce, msg, aad).len() == msg.len() + 16
}

/// The key of one direction of an NTS association: two AES-128 keys, 32
/// octets in all.
pub struct Cipher {
    pub key: [u8; 32],
}

/// The number of octets of a nonce.
pub const NONCE_LENGTH: usize = 16;

/// The number of octets that sealing adds to a message.
pub const TAG_LENGTH: usize = 16;

impl Cipher {
    pub fn new(key: [u8; 32]) -> (r: Cipher)
        ensures
            r.key@ == key@,
    {
        Cipher { key }
    }

    /// The cipher whose key is all zero octets, for packets whose encrypted
    /// fields are of no concern.
    pub fn zero_key() -> (r: Cipher)
        ensures
            r.key@ == Seq::new(32, |i: int| 0u8),
    {
        let c = Cipher { key: [0u8; 32] };
        assert(c.key@ =~= Seq::new(32, |i: int| 0u8));
        c
    }
}

/// Relies on aes_siv's `Aes128SivAead`, built from the key with
/// `KeyInit::new`, and its `Aead::encrypt`: the result is a function of key,
/// nonce, message and associated data, 16 octets longer than the message
/// (the synthetic IV comes first), and `Aead::decrypt` with the same key,
/// nonce and associated data gives the message back. The crate's source
/// fails only with more than 126 associated-data strings; one is given,
/// beside the nonce.
#[verifier::external_body]
pub(crate) fn seal(key: &[u8; 32], nonce: &[u8; 16], msg: &[u8], aad: &[u8]) -> (r: Vec<u8>)
    ensures
        r@ == siv_seal(key@, nonce@, msg@, aad@),
        r@.len() == msg@.len() + 16,
        siv_open(key@, nonce@, r@, aad@) == Some(msg@),
{
    let cipher = Aes128SivAead::new(Key::<Aes128SivAead>::from_slice(key.as_slice()));
    cipher.encrypt(Nonce::from_slice(nonce.as_slice()), Payload { msg, aad }).unwrap()
}

/// Relies on aes_siv's `Aes128SivAead`, built from the key with
/// `KeyInit::new`, and its `Aead::decrypt`: the outcome is a function of key,
/// nonce, ciphertext and associated data. `Nonce::from_slice` panics unless
/// the nonce has 16 octets, hence the requirement.
#[verifier::external_body]
pub(crate) fn open(key: &[u8; 32], nonce: &[u8], ct: &[u8], aad: &[u8]) -> (r: Option<Vec<u8>>)
    requires
        nonce@.len() == 16,
    ensures
        r matches Some(p) ==> siv_open(key@, nonce@, ct@, aad@) == Some(p@),
        r is None ==> siv_open(key@, nonce@, ct@, aad@) is None,
{
    let cipher = Aes128SivAead::new(Key::<Aes128SivAead>::from_slice(key.as_slice()));
    cipher.decrypt(Nonce::from_slice(nonce), Payload { msg: ct, aad }).ok()
}

} // verus!
