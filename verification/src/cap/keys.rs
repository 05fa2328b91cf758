//! Keys as raw bytes.

use crate::cap::biscuit;
use crate::cap::biscuit::{
    check_private_key, derive_public_key, generate_secret, hex_encode, read_public_key,
};
use crate::cap::error::CapError;
use vstd::prelude::*;
use vstd::slice::slice_to_vec;

verus! {

/// The signature algorithm of a key.
#[derive(Debug, Clone, Copy, PartialEq, Eq, Structural)]
pub enum KeyAlgorithm {
    /// Ed25519.
    Ed25519,
    /// ECDSA on the NIST curve P-256.
    Secp256r1,
}

/// A private key.
#[derive(Debug)]
pub struct BiscuitPrivateKey {
    algorithm: KeyAlgorithm,
    bytes: Vec<u8>,
}

/// A public key, in canonical bytes.
#[derive(Debug)]
pub struct BiscuitPublicKey {
    algorithm: KeyAlgorithm,
    bytes: Vec<u8>,
}

/// A private key together with its public key.
#[derive(Debug)]
pub struct BiscuitKeyPair {
    private: BiscuitPrivateKey,
}

impl View for BiscuitPrivateKey {
    type V = (KeyAlgorithm, Seq<u8>);

    closed spec fn view(&self) -> (KeyAlgorithm, Seq<u8>) {
        (self.algorithm, self.bytes@)
    }
}

impl View for BiscuitPublicKey {
    type V = (KeyAlgorithm, Seq<u8>);

    closed spec fn view(&self) -> (KeyAlgorithm, Seq<u8>) {
        (self.algorithm, self.bytes@)
    }
}

impl View for BiscuitKeyPair {
    type V = (KeyAlgorithm, Seq<u8>);

    closed spec fn view(&self) -> (KeyAlgorithm, Seq<u8>) {
        self.private@
    }
}

impl BiscuitPrivateKey {
    #[verifier::type_invariant]
    spec fn wf(self) -> bool {
        biscuit::private_key_valid(self.algorithm, self.bytes@)
    }

    /// Reads a private key. Any 32 bytes are an Ed25519 key.
    pub fn from_bytes(bytes: &[u8], algorithm: KeyAlgorithm) -> (r: Result<Self, CapError>)
        ensures
            match r {
                Ok(k) => biscuit::private_key_valid(algorithm, bytes@) && k@ == (algorithm, bytes@),
                Err(e) => !biscuit::private_key_valid(algorithm, bytes@) && e is Denied,
            },
            algorithm == KeyAlgorithm::Ed25519 ==> (r is Ok <==> bytes@.len() == 32),
            bytes@.len() != 32 ==> (r matches Err(e) && e.denies(
                "invalid private key: "@ + "invalid key size"@,
            )),
    {
        match check_private_key(algorithm, bytes) {
            Ok(_) => Ok(BiscuitPrivateKey { algorithm, bytes: slice_to_vec(bytes) }),
            Err(e) => Err(
                CapError::Denied(String::from_str("invalid private key: ").concat(&e)),
            ),
        }
    }

    /// The raw bytes of the key.
    pub fn to_bytes(&self) -> (r: Vec<u8>)
        ensures
            r@ == self@.1,
            biscuit::private_key_valid(self@.0, r@),
    {
        proof {
            use_type_invariant(self);
        }
        slice_to_vec(self.bytes.as_slice())
    }

    /// The algorithm of the key.
    pub fn algorithm(&self) -> (r: KeyAlgorithm)
        ensures
            r == self@.0,
    {
        self.algorithm
    }

    /// The public key that belongs to this private key.
    pub fn public(&self) -> (r: BiscuitPublicKey)
        ensures
            r@ == (self@.0, biscuit::public_key_of(self@.0, self@.1)),
    {
        proof {
            use_type_invariant(self);
        }
        BiscuitPublicKey {
            algorithm: self.algorithm,
            bytes: derive_public_key(self.algorithm, self.bytes.as_slice()),
        }
    }
}

impl BiscuitPublicKey {
    #[verifier::type_invariant]
    spec fn wf(self) -> bool {
        biscuit::public_key_form(self.algorithm, self.bytes@) == Some(self.bytes@)
    }

    /// Reads a public key.
    pub fn from_bytes(bytes: &[u8], algorithm: KeyAlgorithm) -> (r: Result<Self, CapError>)
        ensures
            match r {
                Ok(k) => biscuit::public_key_form(algorithm, bytes@) == Some(k@.1) && k@.0 == algorithm,
                Err(e) => biscuit::public_key_form(algorithm, bytes@) is None && e is Denied,
            },
    {
        match read_public_key(algorithm, bytes) {
            Ok(k) => Ok(BiscuitPublicKey { algorithm, bytes: k }),
            Err(e) => Err(CapError::Denied(String::from_str("invalid public key: ").concat(&e))),
        }
    }

    /// The canonical bytes of the key.
    pub fn to_bytes(&self) -> (r: Vec<u8>)
        ensures
            r@ == self@.1,
    {
        slice_to_vec(self.bytes.as_slice())
    }

    /// The algorithm of the key.
    pub fn algorithm(&self) -> (r: KeyAlgorithm)
        ensures
            r == self@.0,
    {
        self.algorithm
    }

    /// The datalog text of the key: its algorithm and its bytes in hexadecimal.
    pub fn to_text(&self) -> (r: String)
        ensures
            r@ == biscuit::key_text(self@),
            biscuit::public_key_form(self@.0, self@.1) == Some(self@.1),
    {
        proof {
            use_type_invariant(self);
        }
        let name = match self.algorithm {
            KeyAlgorithm::Ed25519 => "ed25519/",
            KeyAlgorithm::Secp256r1 => "secp256r1/",
        };
        String::from_str(name).concat(&hex_encode(self.bytes.as_slice()))
    }
}

impl BiscuitKeyPair {
    /// A fresh Ed25519 key pair.
    pub fn new() -> (r: Self)
        ensures
            r@.0 == KeyAlgorithm::Ed25519,
            r@.1.len() == 32,
    {
        let bytes = generate_secret();
        let check = check_private_key(KeyAlgorithm::Ed25519, bytes.as_slice());
        BiscuitKeyPair { private: BiscuitPrivateKey { algorithm: KeyAlgorithm::Ed25519, bytes } }
    }

    /// The private key.
    pub fn private(&self) -> (r: BiscuitPrivateKey)
        ensures
            r@ == self@,
    {
        proof {
            use_type_invariant(&self.private);
        }
        BiscuitPrivateKey {
            algorithm: self.private.algorithm,
            bytes: slice_to_vec(self.private.bytes.as_slice()),
        }
    }

    /// The public key.
    pub fn public(&self) -> (r: BiscuitPublicKey)
        ensures
            r@ == (self@.0, biscuit::public_key_of(self@.0, self@.1)),
    {
        self.private.public()
    }
}

/// The keys of a pair belong together: the public key of its private key is its public key. A
/// private key that is stored and loaded again is the same.
pub proof fn law_keys_of_a_pair_belong_together(
    pair: &BiscuitKeyPair,
    private: BiscuitPrivateKey,
    held: &BiscuitPrivateKey,
    a: BiscuitPublicKey,
    b: BiscuitPublicKey,
    stored: Vec<u8>,
    bytes: &[u8],
    algorithm: KeyAlgorithm,
    r: Result<BiscuitPrivateKey, CapError>,
)
    requires
        call_ensures(BiscuitKeyPair::private, (pair,), private),
        *held == private,
        call_ensures(BiscuitPrivateKey::public, (held,), a),
        call_ensures(BiscuitKeyPair::public, (pair,), b),
        call_ensures(BiscuitPrivateKey::to_bytes, (held,), stored),
        bytes@ == stored@,
        call_ensures(BiscuitPrivateKey::algorithm, (held,), algorithm),
        call_ensures(BiscuitPrivateKey::from_bytes, (bytes, algorithm), r),
    ensures
        a@ == b@,
        r matches Ok(k) && k@ == private@,
{
}

} // verus!
