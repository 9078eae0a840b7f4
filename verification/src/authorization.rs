//! The check of the basic-authorization header of a request.

use vstd::prelude::*;
use base64::Engine;
use crate::engine::bytes::blake3_keyed;
use crate::engine::bytes::blake3_keyed_digest;
use crate::text::part_views;
use crate::text::same_bytes;
use crate::text::split;
use crate::text::split_bytes;

verus! {

/// The bytes that text in standard base64, with padding, stands for; none for text that is
/// no such base64.
pub uninterp spec fn base64_standard(text: Seq<u8>) -> Option<Seq<u8>>;

/// The BLAKE3 key that is derived from a context string and no key material.
pub uninterp spec fn blake3_derived_key(context: Seq<char>) -> Seq<u8>;

/// `base64::Engine::decode` of the engine `base64::engine::general_purpose::STANDARD`: the
/// bytes that the text stands for, which the contract names, and nothing where the engine
/// reports an error.
#[verifier::external_body]
fn base64_decode(text: &[u8]) -> (res: Option<Vec<u8>>)
    ensures
        match res {
            Some(bytes) => base64_standard(text@) == Some(bytes@),
            None => base64_standard(text@) is None,
        },
{
    base64::engine::general_purpose::STANDARD.decode(text).ok()
}

/// `blake3::derive_key` with no key material: the key of the context, which the contract
/// names.
#[verifier::external_body]
fn derive_key(context: &str) -> (key: [u8; 32])
    ensures
        key@ == blake3_derived_key(context@),
{
    blake3::derive_key(context, &[])
}

/// `constant_time_eq::constant_time_eq_32`: whether the two byte strings are equal.
#[verifier::external_body]
fn constant_time_equal(a: &[u8; 32], b: &[u8; 32]) -> (equal: bool)
    ensures
        equal == (a@ == b@),
{
    constant_time_eq::constant_time_eq_32(a, b)
}

/// The word `Basic`.
pub open spec fn basic_word() -> Seq<u8> {
    seq![66u8, 97u8, 115u8, 105u8, 99u8]
}

/// The hash of credentials: their keyed BLAKE3 digest of 256 bits, under the key that is
/// derived from the context `purplecoin.basic_auth`.
pub open spec fn credentials_hash(credentials: Seq<u8>) -> Seq<u8> {
    blake3_keyed(blake3_derived_key("purplecoin.basic_auth"@), credentials, 32)
}

/// The credentials of a user as a header carries them: the name, a colon, the password.
pub open spec fn credentials(username: Seq<u8>, password: Seq<u8>) -> Seq<u8> {
    username + seq![58u8] + password
}

/// The token of a basic-authorization header: the header is the word `Basic`, one space
/// and the token, which has no space. Any other header has none.
pub open spec fn basic_token(auth: Seq<u8>) -> Option<Seq<u8>> {
    let parts = split(auth, 32u8);
    if parts.len() == 2 && parts[0] == basic_word() {
        Some(parts[1])
    } else {
        None
    }
}

/// Whether `auth` is a basic-authorization header for the given credentials: it has a
/// token, the token is base64, and the hash of what it stands for is the hash of the
/// credentials.
pub open spec fn authorized(auth: Seq<u8>, username: Seq<u8>, password: Seq<u8>) -> bool {
    match basic_token(auth) {
        Some(token) => match base64_standard(token) {
            Some(decoded) => credentials_hash(decoded) == credentials_hash(
                credentials(username, password),
            ),
            None => false,
        },
        None => false,
    }
}

/// Reads the token of a basic-authorization header.
pub fn read_basic_token(auth: &[u8]) -> (res: Option<Vec<u8>>)
    ensures
        match res {
            Some(token) => basic_token(auth@) == Some(token@),
            None => basic_token(auth@) is None,
        },
{
    let mut split = split_bytes(auth, 32);
    if split.len() != 2 {
        return None;
    }
    assert(part_views(split@)[0] == split@[0]@);
    assert(part_views(split@)[1] == split@[1]@);
    let basic: [u8; 5] = [66, 97, 115, 105, 99];
    assert(basic@ =~= basic_word());
    if !same_bytes(split[0].as_slice(), basic.as_slice()) {
        return None;
    }
    split.pop()
}

/// The credentials of a user as a header carries them.
fn join_credentials(username: &[u8], password: &[u8]) -> (joined: Vec<u8>)
    ensures
        joined@ == credentials(username@, password@),
{
    let mut joined: Vec<u8> = Vec::new();
    let mut i: usize = 0;
    while i < username.len()
        invariant
            i <= username.len(),
            joined@ == username@.take(i as int),
        decreases username.len() - i,
    {
        joined.push(username[i]);
        i += 1;
        assert(joined@ =~= username@.take(i as int));
    }
    assert(username@.take(i as int) =~= username@);
    joined.push(58);
    let mut j: usize = 0;
    while j < password.len()
        invariant
            j <= password.len(),
            joined@ == username@ + seq![58u8] + password@.take(j as int),
        decreases password.len() - j,
    {
        joined.push(password[j]);
        j += 1;
        assert(joined@ =~= username@ + seq![58u8] + password@.take(j as int));
    }
    assert(password@.take(j as int) =~= password@);
    joined
}

/// Whether `auth` is a basic-authorization header for the given credentials. The hashes of
/// the credentials that are given and of those that are asked for are compared, in constant
/// time.
pub fn check_authorization_header(auth: &[u8], username: &[u8], password: &[u8]) -> (ok: bool)
    ensures
        ok == authorized(auth@, username@, password@),
{
    let token = match read_basic_token(auth) {
        Some(token) => token,
        None => {
            return false;
        },
    };
    let decoded = match base64_decode(token.as_slice()) {
        Some(decoded) => decoded,
        None => {
            return false;
        },
    };
    let key = derive_key("purplecoin.basic_auth");
    let oracle_key = join_credentials(username, password);
    let oracle_hash = blake3_keyed_digest::<32>(&key, oracle_key.as_slice());
    let hash = blake3_keyed_digest::<32>(&key, decoded.as_slice());
    constant_time_equal(&oracle_hash, &hash)
}

} // verus!
