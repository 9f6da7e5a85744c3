//! Personal-message signatures: the signed-message digest, signer recovery,
//! and the check that a signature comes from a given wallet.

use vstd::prelude::*;
use vstd::string::{StrSliceExecFns, StringSliceAdditionalSpecFns};
use ethers::types::{Address, Signature, H256};
use sha3::{Digest, Keccak256};
use std::str::FromStr;
use crate::text::{decimal_digits, hex_pairs, push_decimal, strip_hex_prefix};

verus! {

/// What prefixes a message before it is hashed for signing.
pub const SIGNED_MESSAGE_PREFIX: &'static str = "\x19Ethereum Signed Message:\n";

/// The Keccak-256 digest of the given bytes.
pub uninterp spec fn keccak256_of(data: Seq<u8>) -> Seq<u8>;

/// The address whose key made a 65-byte signature of a 32-byte digest, if
/// one can be recovered.
pub uninterp spec fn recovered_signer(signature: Seq<u8>, digest: Seq<u8>) -> Option<Seq<u8>>;


/// Why a signature could not be checked.
#[derive(Debug, Clone, Copy, PartialEq, Eq, Structural)]
pub enum SignatureError {
    MalformedSignature,
    MalformedAddress,
    RecoveryFailure,
}

/// The 65 signature bytes a text holds: hexadecimal, with an optional `0x`.
pub open spec fn signature_bytes(s: Seq<char>) -> Option<Seq<u8>> {
    match hex_pairs(strip_hex_prefix(s)) {
        Some(b) => if b.len() == 65 {
            Some(b)
        } else {
            None
        },
        None => None,
    }
}

/// `s` without one leading `0x`.
pub open spec fn strip_lower_hex_prefix(s: Seq<char>) -> Seq<char> {
    if s.len() >= 2 && s[0] == '0' && s[1] == 'x' {
        s.subrange(2, s.len() as int)
    } else {
        s
    }
}

/// The characters that are skipped among the digits of an address.
pub open spec fn is_hex_space(c: char) -> bool {
    c == ' ' || c == '\t' || c == '\n' || c == '\r'
}

/// The twenty address bytes that a text reads as, if it reads as one: one
/// optional leading `0x`, then, spaces, tabs and line breaks left out, forty
/// hexadecimal digits read in pairs.
pub open spec fn parsed_address(s: Seq<char>) -> Option<Seq<u8>> {
    let digits = strip_lower_hex_prefix(s).filter(|c: char| !is_hex_space(c));
    if digits.len() == 40 {
        hex_pairs(digits)
    } else {
        None
    }
}

/// The bytes that are hashed when `message` is signed as a personal message:
/// the prefix, the message's length in decimal, then the message.
pub open spec fn personal_message(message: Seq<u8>) -> Seq<u8> {
    SIGNED_MESSAGE_PREFIX.spec_bytes() + decimal_digits(message.len()) + message
}

/// The digest that a wallet signs for `message`.
pub open spec fn message_digest(message: Seq<u8>) -> Seq<u8> {
    keccak256_of(personal_message(message))
}

/// The outcome of checking `signature` over `message` against `wallet`.
pub open spec fn verify_spec(wallet: Seq<char>, message: Seq<u8>, signature: Seq<char>) -> Result<
    bool,
    SignatureError,
> {
    match signature_bytes(signature) {
        None => Err(SignatureError::MalformedSignature),
        Some(sig) => match recovered_signer(sig, message_digest(message)) {
            None => Err(SignatureError::RecoveryFailure),
            Some(signer) => match parsed_address(wallet) {
                None => Err(SignatureError::MalformedAddress),
                Some(expected) => Ok(signer == expected),
            },
        },
    }
}

/// Relies on `sha3::Keccak256`: a 32-byte digest of the bytes alone.
#[verifier::external_body]
fn keccak256(data: &[u8]) -> (r: Vec<u8>)
    ensures
        r@ == keccak256_of(data@),
        r@.len() == 32,
{
    Keccak256::digest(data).to_vec()
}

/// Relies on ethers' `Signature::from_str` (hex decoding with an optional
/// `0x` or `0X`, then exactly 65 bytes) and `Signature::to_vec`, which gives
/// back the bytes it was read from.
#[verifier::external_body]
fn parse_signature(text: &str) -> (r: Option<Vec<u8>>)
    ensures
        r matches Some(b) ==> signature_bytes(text@) == Some(b@),
        r is None ==> signature_bytes(text@) is None,
{
    Signature::from_str(text).ok().map(|s| s.to_vec())
}

/// Relies on ethers' `Signature::recover` over a precomputed digest: the
/// address whose public key the signature recovers to, if any.
#[verifier::external_body]
fn recover_signer(signature: &[u8], digest: &[u8]) -> (r: Option<Vec<u8>>)
    requires
        signature@.len() == 65,
        digest@.len() == 32,
    ensures
        r matches Some(a) ==> recovered_signer(signature@, digest@) == Some(a@) && a@.len() == 20,
        r is None ==> recovered_signer(signature@, digest@) is None,
{
    match Signature::try_from(signature) {
        Ok(sig) => sig.recover(H256::from_slice(digest)).ok().map(|a| a.as_bytes().to_vec()),
        Err(_) => None,
    }
}

/// Relies on ethers' `Address::from_str` (fixed-hash over rustc-hex): an
/// optional `0x`, then hexadecimal digit pairs read as twenty bytes, high digit
/// first, with spaces, tabs and line breaks among them skipped; anything else,
/// or another count of digits, is refused.
#[verifier::external_body]
pub(crate) fn parse_address(text: &str) -> (r: Option<Vec<u8>>)
    ensures
        r matches Some(a) ==> parsed_address(text@) == Some(a@) && a@.len() == 20,
        r is None ==> parsed_address(text@) is None,
{
    Address::from_str(text).ok().map(|a| a.as_bytes().to_vec())
}

/// Whether two byte strings are equal.
fn bytes_equal(a: &Vec<u8>, b: &Vec<u8>) -> (r: bool)
    ensures
        r == (a@ == b@),
{
    if a.len() != b.len() {
        return false;
    }
    let mut i: usize = 0;
    while i < a.len()
        invariant
            a@.len() == b@.len(),
            i <= a@.len(),
            forall|j: int| 0 <= j < i ==> a@[j] == b@[j],
        decreases a@.len() - i,
    {
        if a[i] != b[i] {
            return false;
        }
        i = i + 1;
    }
    assert(a@ =~= b@);
    true
}

/// The bytes hashed when `message` is signed as a personal message.
pub fn personal_message_bytes(message: &str) -> (r: Vec<u8>)
    ensures
        r@ == personal_message(message.spec_bytes()),
{
    let mut out = SIGNED_MESSAGE_PREFIX.as_bytes_vec();
    let mut body = message.as_bytes_vec();
    push_decimal(body.len(), &mut out);
    out.append(&mut body);
    out
}

/// The digest a wallet signs for `message`: Keccak-256 of the prefixed message.
pub fn hash_message(message: &str) -> (r: Vec<u8>)
    ensures
        r@ == message_digest(message.spec_bytes()),
        r@.len() == 32,
{
    let bytes = personal_message_bytes(message);
    keccak256(bytes.as_slice())
}

/// Whether `signature` over `message` was made by the key of `wallet_address`.
pub fn verify_signature(wallet_address: &str, message: &str, signature: &str) -> (r: Result<
    bool,
    SignatureError,
>)
    ensures
        r == verify_spec(wallet_address@, message.spec_bytes(), signature@),
{
    let sig = match parse_signature(signature) {
        None => {
            return Err(SignatureError::MalformedSignature);
        },
        Some(s) => s,
    };
    let digest = hash_message(message);
    let signer = match recover_signer(sig.as_slice(), digest.as_slice()) {
        None => {
            return Err(SignatureError::RecoveryFailure);
        },
        Some(a) => a,
    };
    let expected = match parse_address(wallet_address) {
        None => {
            return Err(SignatureError::MalformedAddress);
        },
        Some(a) => a,
    };
    Ok(bytes_equal(&signer, &expected))
}

/// A signature is accepted exactly when its text holds 65 bytes, a signer
/// is recovered from them over the message's digest, and that signer is the
/// address the wallet text reads as.
pub proof fn lemma_accepted_iff_signer_is_wallet(wallet: Seq<char>, message: Seq<u8>, signature: Seq<char>)
    ensures
        verify_spec(wallet, message, signature) == Ok::<bool, SignatureError>(true) <==> exists|sig: Seq<u8>|
            signature_bytes(signature) == Some(sig) && (#[trigger] recovered_signer(sig, message_digest(message)))
                is Some && recovered_signer(sig, message_digest(message)) == parsed_address(wallet),
{
    if verify_spec(wallet, message, signature) == Ok::<bool, SignatureError>(true) {
        let sig = signature_bytes(signature)->Some_0;
        assert(recovered_signer(sig, message_digest(message)) is Some);
    }
}
} // verus!
