//! Keys, hashes, and the texts that keys are written as.

use vstd::prelude::*;

use base64::Engine;
use p256::elliptic_curve::sec1::ToEncodedPoint;
use pkcs8::DecodePrivateKey;
use pkcs8::EncodePrivateKey;
use sha2::Digest;

use crate::octets;

verus! {

/// The SHA-256 hash of `data`.
pub uninterp spec fn sha256(data: Seq<u8>) -> Seq<u8>;

/// Trusted: `sha2::Sha256::digest` gives the SHA-256 hash of its argument, 32 bytes.
#[verifier::external_body]
pub(crate) fn sha256_digest(data: &[u8]) -> (r: Vec<u8>)
    ensures
        r@ == sha256(data@),
        r@.len() == 32,
{
    sha2::Sha256::digest(data).to_vec()
}

/// The address of a public key: the first 20 bytes of its hash.
pub open spec fn address(public_key: Seq<u8>) -> Seq<u8> {
    sha256(public_key).subrange(0, 20)
}

/// The address of a public key: the first 20 bytes of its hash.
pub fn key_address(public_key: &[u8]) -> (r: Vec<u8>)
    ensures
        r@ == address(public_key@),
        r@.len() == 20,
{
    let hash = sha256_digest(public_key);
    octets::copy_bytes(vstd::slice::slice_subrange(hash.as_slice(), 0, 20))
}

/// An Ed25519 public key.
#[derive(Clone, Copy, Debug, PartialEq, Eq, PartialOrd, Ord, Hash)]
pub struct PublicKey {
    pub bytes: [u8; 32],
}

impl View for PublicKey {
    type V = Seq<u8>;

    open spec fn view(&self) -> Seq<u8> {
        self.bytes@
    }
}

impl PublicKey {
    /// The key of these bytes: any 32 bytes are one, and nothing else is.
    pub fn from_raw_ed25519(bytes: &[u8]) -> (r: Option<PublicKey>)
        ensures
            r is Some <==> bytes@.len() == 32,
            r matches Some(key) ==> key@ == bytes@,
    {
        match raw_ed25519(bytes) {
            Some(raw) => Some(PublicKey { bytes: octets::to_array_32(raw.as_slice()) }),
            None => None,
        }
    }

    /// The bytes of the key.
    pub fn to_bytes(&self) -> (r: Vec<u8>)
        ensures
            r@ == self@,
    {
        octets::copy_bytes(self.bytes.as_slice())
    }
}

/// Trusted: `tendermint::PublicKey::from_raw_ed25519` takes any 32 bytes and refuses every other
/// number of them; `to_bytes` gives back the bytes that went in.
#[verifier::external_body]
fn raw_ed25519(bytes: &[u8]) -> (r: Option<Vec<u8>>)
    ensures
        r is Some <==> bytes@.len() == 32,
        r is Some ==> r->0@ == bytes@,
{
    tendermint::PublicKey::from_raw_ed25519(bytes).map(|key| key.to_bytes())
}

/// The Ed25519 public key of a secret key.
pub uninterp spec fn ed25519_public(secret: Seq<u8>) -> Seq<u8>;

/// Trusted: `ed25519_dalek::SigningKey::from_bytes` and `verifying_key` derive the public key of a
/// secret key, 32 bytes.
#[verifier::external_body]
pub(crate) fn ed25519_public_key(secret: &[u8; 32]) -> (r: [u8; 32])
    ensures
        r@ == ed25519_public(secret@),
{
    ed25519_dalek::SigningKey::from_bytes(secret).verifying_key().to_bytes()
}

/// Trusted: `rand::random` gives 32 bytes. Nothing holds of every outcome.
#[verifier::external_body]
pub(crate) fn random_secret() -> [u8; 32] {
    rand::random::<[u8; 32]>()
}

/// The public key in uncompressed form, 65 bytes, of the P-256 key that `pkcs8` holds in PKCS#8
/// DER, or `None` where it holds none.
pub uninterp spec fn p256_public(pkcs8: Seq<u8>) -> Option<Seq<u8>>;

/// Trusted: `p256::SecretKey::from_pkcs8_der` reads a key, and `to_encoded_point(false)` writes its
/// public key: 65 bytes, of which the first is 4.
#[verifier::external_body]
fn p256_public_key(pkcs8: &[u8]) -> (r: Option<Vec<u8>>)
    ensures
        r is None <==> p256_public(pkcs8@) is None,
        r is Some ==> p256_public(pkcs8@) == Some(r->0@),
        r is Some ==> r->0@.len() == 65 && r->0@[0] == 4,
{
    p256::SecretKey::from_pkcs8_der(pkcs8).ok().map(
        |key| key.public_key().to_encoded_point(false).as_bytes().to_vec(),
    )
}

/// Trusted: `p256::SecretKey::random` makes a key and `to_pkcs8_der` writes it in PKCS#8 DER. What
/// it writes is read back as a key; which key it is depends on chance. `None` where it cannot be
/// written.
#[verifier::external_body]
pub(crate) fn random_p256_pkcs8() -> (r: Option<Vec<u8>>)
    ensures
        r is Some ==> p256_public(r->0@) is Some,
{
    let secret = p256::SecretKey::random(&mut rand_core::OsRng);
    secret.to_pkcs8_der().ok().map(|der| der.as_bytes().to_vec())
}

/// The public half of an ECDSA P-256 key pair.
#[derive(Clone, Debug, PartialEq, Eq)]
pub struct KeyPair {
    public_key: Vec<u8>,
}

impl View for KeyPair {
    type V = Seq<u8>;

    closed spec fn view(&self) -> Seq<u8> {
        self.public_key@
    }
}

impl KeyPair {
    /// The key pair that `pkcs8` holds in PKCS#8 DER, or `None` where it holds none.
    pub fn decode(pkcs8: &[u8]) -> (r: Option<KeyPair>)
        ensures
            r is None <==> p256_public(pkcs8@) is None,
            r matches Some(pair) ==> p256_public(pkcs8@) == Some(pair@),
    {
        match p256_public_key(pkcs8) {
            Some(public_key) => Some(KeyPair { public_key }),
            None => None,
        }
    }

    /// The public key.
    pub fn public_key(&self) -> (r: Vec<u8>)
        ensures
            r@ == self@,
    {
        octets::copy_bytes(self.public_key.as_slice())
    }
}

/// The character of the base64 alphabet with value `v`.
pub open spec fn base64_char(v: int) -> char {
    if v < 26 {
        (65 + v) as char
    } else if v < 52 {
        (71 + v) as char
    } else if v < 62 {
        (v - 4) as char
    } else if v == 62 {
        '+'
    } else {
        '/'
    }
}

/// Byte `i` of `data`, or 0 past its end.
pub open spec fn byte_or_zero(data: Seq<u8>, i: int) -> int {
    if i < data.len() {
        data[i] as int
    } else {
        0
    }
}

/// The six bits that character `i` of the base64 text of `data` stands for.
pub open spec fn six_bits(data: Seq<u8>, i: int) -> int {
    let first = byte_or_zero(data, 3 * (i / 4));
    let second = byte_or_zero(data, 3 * (i / 4) + 1);
    let third = byte_or_zero(data, 3 * (i / 4) + 2);
    if i % 4 == 0 {
        first / 4
    } else if i % 4 == 1 {
        (first % 4) * 16 + second / 16
    } else if i % 4 == 2 {
        (second % 16) * 4 + third / 64
    } else {
        third % 64
    }
}

/// `data` in the standard base64 alphabet: four characters for each three bytes, the last four
/// padded with `=`.
pub open spec fn base64_text(data: Seq<u8>) -> Seq<char> {
    Seq::new(
        4 * ((data.len() + 2) / 3),
        |i: int|
            if i % 4 >= 2 && 3 * (i / 4) + (i % 4) - 1 >= data.len() {
                '='
            } else {
                base64_char(six_bits(data, i))
            },
    )
}

/// Trusted: `base64`'s `STANDARD` engine writes the standard alphabet with padding.
#[verifier::external_body]
pub(crate) fn base64_encode(data: &[u8]) -> (r: String)
    ensures
        r@ == base64_text(data@),
{
    base64::engine::general_purpose::STANDARD.encode(data)
}

} // verus!
