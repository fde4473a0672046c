//! Proving that both ends know the same secret, before anything is injected.
//!
//! On one bidirectional stream the controller sends the protocol's version, the
//! controlled side a fresh nonce, the controller the HMAC-SHA256 of the nonce under
//! the secret, and the controlled side a verdict of one byte. The secret itself never
//! goes over the wire, and the controller does not count itself as connected before
//! it has the verdict.

use hmac::{Hmac, Mac};
use rand::RngCore;
use sha2::Sha256;
use vstd::prelude::*;
use vstd::string::*;
use vstd::utf8::*;

verus! {

/// The version of the protocol: 3 has a tag at the head of every stream, and streams
/// of files.
pub const HS_VERSION: u8 = 3;

/// The length of a nonce.
pub const HS_NONCE_LEN: usize = 32;

/// The length of an HMAC-SHA256.
pub const HS_MAC_LEN: usize = 32;

/// The length of the shortest secret.
pub const SECRET_MIN: usize = 16;

/// The HMAC-SHA256 of `data` under the key `secret`.
pub uninterp spec fn hmac_tag(secret: Seq<u8>, data: Seq<u8>) -> Seq<u8>;

/// `hmac::Hmac<sha2::Sha256>`, from `new_from_slice` (which takes a key of any length)
/// through `update` to `finalize`: the result depends on the key and the data alone.
#[verifier::external_body]
fn hmac_sha256(secret: &[u8], data: &[u8]) -> (r: [u8; HS_MAC_LEN])
    ensures
        r@ == hmac_tag(secret@, data@),
{
    let mut mac = <Hmac<Sha256>>::new_from_slice(secret).expect("a key of any length");
    mac.update(data);
    mac.finalize().into_bytes().into()
}

/// `hmac::Hmac<sha2::Sha256>`, from `new_from_slice` through `update` to
/// `verify_slice`, which compares in constant time: true exactly of the code that
/// `finalize` gives.
#[verifier::external_body]
fn hmac_verifies(secret: &[u8], data: &[u8], code: &[u8]) -> (r: bool)
    ensures
        r == (code@ == hmac_tag(secret@, data@)),
{
    let mut mac = <Hmac<Sha256>>::new_from_slice(secret).expect("a key of any length");
    mac.update(data);
    mac.verify_slice(code).is_ok()
}

/// `rand::thread_rng` and its `fill_bytes`: nothing is known of the bytes.
#[verifier::external_body]
fn random_nonce() -> (r: [u8; HS_NONCE_LEN]) {
    let mut nonce = [0u8; HS_NONCE_LEN];
    rand::thread_rng().fill_bytes(&mut nonce);
    nonce
}

/// Why the two ends do not work together.
#[derive(Debug, Clone, Copy, PartialEq, Eq, Structural)]
pub enum HandshakeError {
    /// The controller speaks this version of the protocol.
    Version(u8),
    /// The controller does not know the secret.
    BadMac,
    /// The controlled side has refused.
    Refused,
}

/// The controlled side's answer to the controller's first byte: a fresh nonce, unless
/// the controller speaks another version of the protocol.
pub fn challenge(version: u8) -> (r: Result<[u8; HS_NONCE_LEN], HandshakeError>)
    ensures
        r is Ok <==> version == HS_VERSION,
        r matches Err(e) ==> e == HandshakeError::Version(version),
{
    if version != HS_VERSION {
        return Err(HandshakeError::Version(version));
    }
    Ok(random_nonce())
}

/// The controller's answer to the nonce.
pub fn answer(secret: &Vec<u8>, nonce: &[u8; HS_NONCE_LEN]) -> (r: [u8; HS_MAC_LEN])
    ensures
        r@ == hmac_tag(secret@, nonce@),
{
    hmac_sha256(secret.as_slice(), nonce.as_slice())
}

/// The controlled side's decision: the verdict to send, and what to make of the
/// connection.
#[derive(Debug, Clone, Copy, PartialEq, Eq)]
pub struct Ruling {
    pub verdict: u8,
    pub outcome: Result<(), HandshakeError>,
}

/// The decision, once it is known whether the answer is right.
pub open spec fn ruled(ok: bool) -> Ruling {
    if ok {
        Ruling { verdict: 1, outcome: Ok(()) }
    } else {
        Ruling { verdict: 0, outcome: Err(HandshakeError::BadMac) }
    }
}

/// The decision, once it is known whether the answer is right.
pub fn rule(ok: bool) -> (r: Ruling)
    ensures
        r == ruled(ok),
{
    if ok {
        Ruling { verdict: 1, outcome: Ok(()) }
    } else {
        Ruling { verdict: 0, outcome: Err(HandshakeError::BadMac) }
    }
}

/// The controlled side's decision on what the controller has answered to the nonce.
pub fn judge(
    secret: &Vec<u8>,
    nonce: &[u8; HS_NONCE_LEN],
    received: &[u8; HS_MAC_LEN],
) -> (r: Ruling)
    ensures
        r == ruled(received@ == hmac_tag(secret@, nonce@)),
{
    rule(hmac_verifies(secret.as_slice(), nonce.as_slice(), received.as_slice()))
}

/// What a verdict means to the controller.
pub open spec fn understood(verdict: u8) -> Result<(), HandshakeError> {
    if verdict == 1 {
        Ok(())
    } else {
        Err(HandshakeError::Refused)
    }
}

/// What the verdict means to the controller.
pub fn concluded(verdict: u8) -> (r: Result<(), HandshakeError>)
    ensures
        r == understood(verdict),
{
    if verdict == 1 {
        Ok(())
    } else {
        Err(HandshakeError::Refused)
    }
}

/// Both ends come to the same conclusion, whatever the controller has answered, and it
/// is to go on exactly if the answer is the HMAC of the nonce under the controlled
/// side's secret.
pub proof fn both_ends_agree(secret: Seq<u8>, nonce: Seq<u8>, received: Seq<u8>)
    ensures
        ({
            let ruling = ruled(received == hmac_tag(secret, nonce));
            &&& ruling.outcome is Ok <==> received == hmac_tag(secret, nonce)
            &&& understood(ruling.verdict) is Ok <==> ruling.outcome is Ok
        }),
{
}

/// A controller that knows the secret is let in, whatever the nonce.
pub proof fn the_secret_lets_in(secret: Seq<u8>, nonce: Seq<u8>)
    ensures
        ({
            let received = hmac_tag(secret, nonce);
            let ruling = ruled(received == hmac_tag(secret, nonce));
            ruling.outcome is Ok && understood(ruling.verdict) is Ok
        }),
{
}

/// Another secret is refused, unless it gives the same HMAC of the nonce.
pub proof fn another_secret_is_refused(secret: Seq<u8>, other: Seq<u8>, nonce: Seq<u8>)
    requires
        hmac_tag(other, nonce) != hmac_tag(secret, nonce),
    ensures
        ({
            let received = hmac_tag(other, nonce);
            let ruling = ruled(received == hmac_tag(secret, nonce));
            ruling.outcome == Err::<(), HandshakeError>(HandshakeError::BadMac) && understood(
                ruling.verdict,
            ) == Err::<(), HandshakeError>(HandshakeError::Refused)
        }),
{
}

/// Why there is no secret to work with.
#[derive(Debug, Clone, Copy, PartialEq, Eq, Structural)]
pub enum SecretError {
    /// None is set.
    Missing,
    /// It has fewer than `SECRET_MIN` bytes.
    TooShort,
}

/// The secret that is set: the environment's or, where that has none, the file's.
pub open spec fn set_secret(env: Option<Seq<char>>, file: Option<Seq<u8>>) -> Option<Seq<u8>> {
    match env {
        Some(s) => Some(encode_utf8(s)),
        None => file,
    }
}

/// The secret to work with, from the environment variable and the content of the
/// secret file, each where it is there. A program without a shell's environment has
/// only the file. There is no running without a secret: anyone who could connect
/// would be in control.
pub fn load_secret(env: Option<String>, file: Option<Vec<u8>>) -> (r: Result<
    Vec<u8>,
    SecretError,
>)
    ensures
        ({
            let env = match env {
                Some(s) => Some(s@),
                None => None,
            };
            let file = match file {
                Some(b) => Some(b@),
                None => None,
            };
            match set_secret(env, file) {
                Some(s) => if s.len() < SECRET_MIN {
                    r == Err::<Vec<u8>, SecretError>(SecretError::TooShort)
                } else {
                    r matches Ok(bytes) && bytes@ == s
                },
                None => r == Err::<Vec<u8>, SecretError>(SecretError::Missing),
            }
        }),
{
    let secret: Vec<u8> = match env {
        Some(s) => {
            let mut bytes: Vec<u8> = Vec::new();
            bytes.extend_from_slice(s.as_str().as_bytes());
            assert(bytes@ =~= encode_utf8(s@));
            bytes
        },
        None => match file {
            Some(b) => b,
            None => {
                return Err(SecretError::Missing);
            },
        },
    };
    if secret.len() < SECRET_MIN {
        Err(SecretError::TooShort)
    } else {
        Ok(secret)
    }
}

/// A verdict is a yes only if it is 1, whatever else comes; a yes is sent for the right
/// answer, and 0 for any other.
pub proof fn verdicts(verdict: u8, ok: bool)
    ensures
        understood(verdict) is Ok <==> verdict == 1,
        understood(verdict) is Err ==> understood(verdict) == Err::<(), HandshakeError>(
            HandshakeError::Refused,
        ),
        ruled(ok).verdict == (if ok {
            1u8
        } else {
            0u8
        }),
        ruled(ok).outcome == (if ok {
            Ok::<(), HandshakeError>(())
        } else {
            Err::<(), HandshakeError>(HandshakeError::BadMac)
        }),
{
}

/// The secret is used as it was set, to the last byte: the environment's text, or else
/// what the file holds. It is missing only where both are.
pub proof fn secret_is_used_as_it_is(env: Option<Seq<char>>, file: Option<Seq<u8>>)
    ensures
        set_secret(env, file) is None <==> env is None && file is None,
        env matches Some(s) ==> (set_secret(env, file) matches Some(b) && valid_utf8(b)
            && decode_utf8(b) == s),
        env is None ==> set_secret(env, file) == file,
{
    if let Some(s) = env {
        encode_utf8_valid_utf8(s);
        encode_utf8_decode_utf8(s);
    }
}

/// The sizes that both ends have to agree on.
pub proof fn handshake_sizes()
    ensures
        HS_VERSION == 3,
        HS_NONCE_LEN == 32,
        HS_MAC_LEN == 32,
        SECRET_MIN == 16,
{
}

} // verus!
