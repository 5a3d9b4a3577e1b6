//! RSA key material held as plain numbers, and the PKCS#1 v1.5 operations on it.
//!
//! Every number of a key is a sequence of big-endian bytes. The arithmetic of
//! signing and verifying is done by the `rsa` crate; what this module proves
//! is when that crate is called, and with what.

use crate::number::at_least_two;
use crate::number::be_value;
use crate::number::significant_len;
use crate::number::significant_length;
use rsa::BigUint;
use rsa::PaddingScheme;
use rsa::PublicKey as RsaVerify;
use rsa::RSAPrivateKey;
use rsa::RSAPublicKey;
use sha2::Digest;
use sha2::Sha256;
use vstd::prelude::*;

verus! {

/// The largest public exponent that a key may have.
pub const MAX_PUBLIC_EXPONENT: u64 = 0x4000_0000;

/// The length of a SHA-256 digest, in bytes.
pub const SHA256_LEN: usize = 32;

/// The numbers of a private key.
pub ghost struct KeyParts {
    pub n: Seq<u8>,
    pub e: Seq<u8>,
    pub d: Seq<u8>,
    pub primes: Seq<Seq<u8>>,
}

/// The numbers that a list of byte vectors stands for, as sequences of bytes.
pub open spec fn byte_views(items: Seq<Vec<u8>>) -> Seq<Seq<u8>> {
    Seq::new(items.len(), |i: int| items[i]@)
}

/// The product of the numbers in a list.
pub open spec fn product_of(factors: Seq<Seq<u8>>) -> nat
    decreases factors.len(),
{
    if factors.len() == 0 {
        1
    } else {
        product_of(factors.drop_last()) * be_value(factors.last())
    }
}

/// Every factor is two or more.
pub open spec fn factors_usable(primes: Seq<Seq<u8>>) -> bool {
    forall|i: int| 0 <= i < primes.len() ==> be_value(#[trigger] primes[i]) >= 2
}

/// The private exponent undoes the public one modulo each factor less one.
pub open spec fn exponents_match(e: nat, d: nat, primes: Seq<Seq<u8>>) -> bool {
    forall|i: int|
        0 <= i < primes.len() ==> (e * d) % ((be_value(#[trigger] primes[i]) - 1) as nat) == 1
}

/// A private key whose numbers fit together: at least two factors, each two
/// or more, whose product is the modulus; a public exponent between 2 and
/// 2^30; and a private exponent that matches it.
pub open spec fn key_is_sound(parts: KeyParts) -> bool {
    &&& parts.primes.len() >= 2
    &&& factors_usable(parts.primes)
    &&& 2 <= be_value(parts.e) <= MAX_PUBLIC_EXPONENT
    &&& product_of(parts.primes) == be_value(parts.n)
    &&& exponents_match(be_value(parts.e), be_value(parts.d), parts.primes)
}

/// The second factor is no longer than the first, in bytes. Signing works
/// its way up from the second factor to the first in steps of the first, so
/// the second must not be out of all proportion to it; with this the steps
/// are fewer than 256. Keys are commonly written with the larger factor first.
pub open spec fn factors_balanced(primes: Seq<Seq<u8>>) -> bool {
    primes.len() >= 2 ==> significant_len(primes[1]) <= significant_len(primes[0])
}

/// A key that signing can be done with: its numbers fit together and its
/// first two factors are balanced.
pub open spec fn key_is_usable(parts: KeyParts) -> bool {
    key_is_sound(parts) && factors_balanced(parts.primes)
}

/// How the signed bytes are framed before the RSA operation.
#[derive(Clone, Copy, Debug, PartialEq, Eq, Structural)]
pub enum SignatureScheme {
    /// The bytes are signed as they are.
    Raw,
    /// The bytes are a SHA-256 digest and are framed as one.
    Sha256,
}

/// The room that the framed bytes take in a signature, before padding.
pub open spec fn framed_len(scheme: SignatureScheme, len: nat) -> nat {
    match scheme {
        SignatureScheme::Raw => len,
        SignatureScheme::Sha256 => 51,
    }
}

/// Why a key was not accepted.
#[derive(Clone, Copy, Debug, PartialEq, Eq, Structural)]
pub enum KeyError {
    /// Fewer than two factors were given.
    TooFewPrimes,
    /// A factor is zero or one.
    InvalidPrime,
    /// The second factor is longer than the first.
    UnbalancedPrimes,
    /// The numbers do not fit together.
    Unsound,
}

/// Why nothing was signed.
#[derive(Clone, Copy, Debug, PartialEq, Eq, Structural)]
pub enum SignError {
    /// The bytes to sign, framed and padded, are longer than the modulus.
    MessageTooLong,
    /// The RSA operation failed its own check.
    Internal,
}

/// The signature that PKCS#1 v1.5 gives for a key and bytes, if it gives one.
pub uninterp spec fn pkcs1v15_signature(
    n: Seq<u8>,
    e: Seq<u8>,
    d: Seq<u8>,
    primes: Seq<Seq<u8>>,
    digested: bool,
    message: Seq<u8>,
) -> Option<Seq<u8>>;

/// Whether PKCS#1 v1.5 accepts a signature for a public key and bytes.
pub uninterp spec fn pkcs1v15_accepts(
    n: Seq<u8>,
    e: Seq<u8>,
    digested: bool,
    message: Seq<u8>,
    signature: Seq<u8>,
) -> bool;

/// The SHA-256 digest of bytes.
pub uninterp spec fn sha256_digest(data: Seq<u8>) -> Seq<u8>;

/// A public key: modulus and public exponent.
#[derive(Debug, Clone, PartialEq, Eq)]
pub struct PublicKey {
    pub modulus: Vec<u8>,
    pub exponent: Vec<u8>,
}

/// A private key whose numbers have been checked to fit together, and whose
/// second factor is no longer than the first.
#[derive(Debug, PartialEq, Eq)]
pub struct SecurityKey {
    n: Vec<u8>,
    e: Vec<u8>,
    d: Vec<u8>,
    primes: Vec<Vec<u8>>,
}

impl View for SecurityKey {
    type V = KeyParts;

    closed spec fn view(&self) -> KeyParts {
        KeyParts { n: self.n@, e: self.e@, d: self.d@, primes: byte_views(self.primes@) }
    }
}

/// Calls `RSAPrivateKey::validate` on the key that `RSAPrivateKey::from_components`
/// builds from the four numbers. The crate's check accepts a key exactly when
/// the public exponent is in range, the factors multiply to the modulus and
/// the exponents match modulo each factor less one. Both calls divide by a
/// factor less one, so every factor has to be two or more, and the first call
/// reads the first two factors.
#[verifier::external_body]
fn rsa_validate(n: &Vec<u8>, e: &Vec<u8>, d: &Vec<u8>, primes: &Vec<Vec<u8>>) -> (ok: bool)
    requires
        primes.len() >= 2,
        factors_usable(byte_views(primes@)),
    ensures
        ok == key_is_sound(KeyParts { n: n@, e: e@, d: d@, primes: byte_views(primes@) }),
{
    let factors = primes.iter().map(|p| BigUint::from_bytes_be(p)).collect();
    let (n, e) = (BigUint::from_bytes_be(n), BigUint::from_bytes_be(e));
    RSAPrivateKey::from_components(n, e, BigUint::from_bytes_be(d), factors).validate().is_ok()
}

/// Calls `RSAPrivateKey::sign` with PKCS#1 v1.5 padding on the key that
/// `RSAPrivateKey::from_components` builds. The crate refuses bytes that,
/// framed, leave fewer than 11 bytes of the modulus for padding; otherwise the
/// signature is a function of the key and the bytes, which is named here and
/// not spelled out. On its way the crate takes a number that may be as low
/// as minus the second factor and adds the first factor to it until it is no
/// longer negative. So the second factor must be no longer than the first:
/// the additions are then fewer than 256, and without that bound the call
/// may not end in any useful time.
#[verifier::external_body]
fn rsa_sign(
    key: &SecurityKey,
    scheme: SignatureScheme,
    message: &[u8],
) -> (res: Result<Vec<u8>, SignError>)
    requires
        key_is_sound(key@),
        factors_balanced(key@.primes),
        scheme == SignatureScheme::Sha256 ==> message@.len() == SHA256_LEN,
    ensures
        (res matches Err(SignError::MessageTooLong)) <==> (significant_len(key@.n) < framed_len(
            scheme,
            message@.len(),
        ) + 11),
        match res {
            Ok(signature) => pkcs1v15_signature(
                key@.n,
                key@.e,
                key@.d,
                key@.primes,
                scheme == SignatureScheme::Sha256,
                message@,
            ) == Some(signature@),
            Err(_) => pkcs1v15_signature(
                key@.n,
                key@.e,
                key@.d,
                key@.primes,
                scheme == SignatureScheme::Sha256,
                message@,
            ) is None,
        },
{
    let primes = key.primes.iter().map(|p| BigUint::from_bytes_be(p)).collect();
    let (n, e) = (BigUint::from_bytes_be(&key.n), BigUint::from_bytes_be(&key.e));
    let private = RSAPrivateKey::from_components(n, e, BigUint::from_bytes_be(&key.d), primes);
    let hash = match scheme {
        SignatureScheme::Raw => None,
        SignatureScheme::Sha256 => Some(rsa::Hash::SHA2_256),
    };
    match private.sign(PaddingScheme::new_pkcs1v15_sign(hash), message) {
        Ok(signature) => Ok(signature),
        Err(rsa::errors::Error::MessageTooLong) => Err(SignError::MessageTooLong),
        Err(_) => Err(SignError::Internal),
    }
}

/// Calls `RSAPublicKey::verify` with PKCS#1 v1.5 padding on the key that
/// `RSAPublicKey::new` builds; a key that the crate refuses to build accepts
/// nothing. Whether a signature is accepted is a function of the key, the
/// bytes and the signature, which is named here and not spelled out.
#[verifier::external_body]
fn rsa_verify(
    key: &PublicKey,
    scheme: SignatureScheme,
    message: &[u8],
    signature: &[u8],
) -> (ok: bool)
    ensures
        ok == pkcs1v15_accepts(
            key.modulus@,
            key.exponent@,
            scheme == SignatureScheme::Sha256,
            message@,
            signature@,
        ),
{
    let hash = match scheme {
        SignatureScheme::Raw => None,
        SignatureScheme::Sha256 => Some(rsa::Hash::SHA2_256),
    };
    let (n, e) = (BigUint::from_bytes_be(&key.modulus), BigUint::from_bytes_be(&key.exponent));
    match RSAPublicKey::new(n, e) {
        Ok(key) => key.verify(PaddingScheme::new_pkcs1v15_sign(hash), message, signature).is_ok(),
        Err(_) => false,
    }
}

/// Calls `Sha256::digest` of the `sha2` crate: the digest of the bytes, which
/// is 32 bytes long.
#[verifier::external_body]
pub(crate) fn sha256(data: &[u8]) -> (digest: Vec<u8>)
    ensures
        digest@ == sha256_digest(data@),
        digest@.len() == SHA256_LEN,
{
    Sha256::digest(data).to_vec()
}

impl PublicKey {
    /// A public key from its two numbers.
    pub fn new(modulus: Vec<u8>, exponent: Vec<u8>) -> (key: PublicKey)
        ensures
            key.modulus == modulus,
            key.exponent == exponent,
    {
        PublicKey { modulus, exponent }
    }

    /// Whether `signature` is this key's signature of `message` under `scheme`.
    /// Under `Sha256` the message is digested first.
    pub fn accepts(&self, scheme: SignatureScheme, message: &[u8], signature: &[u8]) -> (ok: bool)
        ensures
            ok == signature_accepted(*self, scheme, message@, signature@),
    {
        match scheme {
            SignatureScheme::Raw => rsa_verify(self, scheme, message, signature),
            SignatureScheme::Sha256 => {
                let digest = sha256(message);
                rsa_verify(self, scheme, digest.as_slice(), signature)
            },
        }
    }
}

/// What is handed to the RSA operation for a message under a scheme.
pub open spec fn signed_bytes(scheme: SignatureScheme, message: Seq<u8>) -> Seq<u8> {
    match scheme {
        SignatureScheme::Raw => message,
        SignatureScheme::Sha256 => sha256_digest(message),
    }
}

/// Whether a public key accepts a signature of a message under a scheme.
pub open spec fn signature_accepted(
    key: PublicKey,
    scheme: SignatureScheme,
    message: Seq<u8>,
    signature: Seq<u8>,
) -> bool {
    pkcs1v15_accepts(
        key.modulus@,
        key.exponent@,
        scheme == SignatureScheme::Sha256,
        signed_bytes(scheme, message),
        signature,
    )
}

/// The signature of a message by a key under a scheme, if there is one.
pub open spec fn signature_of(
    parts: KeyParts,
    scheme: SignatureScheme,
    message: Seq<u8>,
) -> Option<Seq<u8>> {
    pkcs1v15_signature(
        parts.n,
        parts.e,
        parts.d,
        parts.primes,
        scheme == SignatureScheme::Sha256,
        signed_bytes(scheme, message),
    )
}

/// Whether a message is too long to be signed by a key with modulus `n`.
pub open spec fn too_long_to_sign(n: Seq<u8>, scheme: SignatureScheme, message: Seq<u8>) -> bool {
    significant_len(n) < framed_len(scheme, message.len()) + 11
}

impl Clone for SecurityKey {
    fn clone(&self) -> (key: SecurityKey)
        ensures
            key@ == self@,
    {
        proof {
            use_type_invariant(self);
        }
        let mut primes: Vec<Vec<u8>> = Vec::new();
        let mut i: usize = 0;
        while i < self.primes.len()
            invariant
                i <= self.primes.len(),
                primes@.len() == i,
                forall|j: int| 0 <= j < i ==> (#[trigger] primes@[j])@ == self.primes@[j]@,
            decreases self.primes.len() - i,
        {
            primes.push(self.primes[i].clone());
            i += 1;
        }
        assert(byte_views(primes@) =~= byte_views(self.primes@));
        SecurityKey { n: self.n.clone(), e: self.e.clone(), d: self.d.clone(), primes }
    }
}

impl SecurityKey {
    #[verifier::type_invariant]
    spec fn usable(self) -> bool {
        key_is_usable(self@)
    }

    /// A private key from its numbers, each in big-endian bytes. The key is
    /// accepted exactly when its numbers fit together and the second factor
    /// is no longer than the first.
    pub fn from_components(
        n: Vec<u8>,
        e: Vec<u8>,
        d: Vec<u8>,
        primes: Vec<Vec<u8>>,
    ) -> (res: Result<SecurityKey, KeyError>)
        ensures
            match res {
                Ok(key) => {
                    &&& key@ == (KeyParts { n: n@, e: e@, d: d@, primes: byte_views(primes@) })
                    &&& key_is_usable(key@)
                },
                Err(KeyError::TooFewPrimes) => primes.len() < 2,
                Err(KeyError::InvalidPrime) => primes.len() >= 2 && !factors_usable(
                    byte_views(primes@),
                ),
                Err(KeyError::UnbalancedPrimes) => {
                    &&& primes.len() >= 2
                    &&& factors_usable(byte_views(primes@))
                    &&& !factors_balanced(byte_views(primes@))
                },
                Err(KeyError::Unsound) => {
                    &&& primes.len() >= 2
                    &&& factors_usable(byte_views(primes@))
                    &&& factors_balanced(byte_views(primes@))
                    &&& !key_is_sound(
                        KeyParts { n: n@, e: e@, d: d@, primes: byte_views(primes@) },
                    )
                },
            },
    {
        if primes.len() < 2 {
            return Err(KeyError::TooFewPrimes);
        }
        let mut i: usize = 0;
        while i < primes.len()
            invariant
                2 <= primes.len(),
                i <= primes.len(),
                forall|j: int| 0 <= j < i ==> be_value(#[trigger] byte_views(primes@)[j]) >= 2,
            decreases primes.len() - i,
        {
            let usable = at_least_two(&primes[i]);
            assert(byte_views(primes@)[i as int] == primes@[i as int]@);
            if !usable {
                return Err(KeyError::InvalidPrime);
            }
            i += 1;
        }
        let first = significant_length(&primes[0]);
        let second = significant_length(&primes[1]);
        assert(byte_views(primes@)[0] == primes@[0]@);
        assert(byte_views(primes@)[1] == primes@[1]@);
        if second > first {
            return Err(KeyError::UnbalancedPrimes);
        }
        if rsa_validate(&n, &e, &d, &primes) {
            Ok(SecurityKey { n, e, d, primes })
        } else {
            Err(KeyError::Unsound)
        }
    }

    /// The public half of this key.
    pub fn public_key(&self) -> (key: PublicKey)
        ensures
            key.modulus@ == self@.n,
            key.exponent@ == self@.e,
    {
        PublicKey { modulus: self.n.clone(), exponent: self.e.clone() }
    }

    /// Signs `message` under `scheme`. Under `Sha256` the message is digested
    /// first. Nothing is signed when the message, framed and padded, does not
    /// fit the modulus.
    pub fn sign(&self, scheme: SignatureScheme, message: &[u8]) -> (res: Result<Vec<u8>, SignError>)
        ensures
            (res matches Err(SignError::MessageTooLong)) <==> too_long_to_sign(
                self@.n,
                scheme,
                message@,
            ),
            match res {
                Ok(signature) => signature_of(self@, scheme, message@) == Some(signature@),
                Err(_) => signature_of(self@, scheme, message@) is None,
            },
    {
        proof {
            use_type_invariant(self);
        }
        match scheme {
            SignatureScheme::Raw => rsa_sign(self, scheme, message),
            SignatureScheme::Sha256 => {
                let digest = sha256(message);
                rsa_sign(self, scheme, digest.as_slice())
            },
        }
    }
}

} // verus!
