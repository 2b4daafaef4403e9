//! Signing and verifying byte strings with a keyed hash (BLAKE3) or with Ed25519
//! signatures, loading their keys from raw bytes, and making new keys.
use vstd::prelude::*;
use vstd::slice::slice_to_vec;

use crate::genpass::{draw_password, fits, GenPassOpts};

verus! {

/// Bytes in every key: a BLAKE3 key, an Ed25519 secret scalar or public point.
pub const KEY_LENGTH: usize = 32;

/// Bytes in an Ed25519 signature.
pub const SIGNATURE_LENGTH: usize = 64;

/// The signing algorithm.
#[derive(Debug, Clone, Copy, PartialEq, Eq, Structural)]
pub enum TextSignFormat {
    /// A keyed BLAKE3 hash under a shared 32-byte secret.
    Blake3,
    /// An Ed25519 signature: a secret scalar signs, its public point verifies.
    Ed25519,
}

impl TextSignFormat {
    /// The lower-case name of the algorithm, as the command line spells it.
    pub fn as_str(&self) -> (r: &'static str)
        ensures
            r@ == (match self {
                TextSignFormat::Blake3 => "blake3"@,
                TextSignFormat::Ed25519 => "ed25519"@,
            }),
    {
        match self {
            TextSignFormat::Blake3 => "blake3",
            TextSignFormat::Ed25519 => "ed25519",
        }
    }
}

/// Why key bytes cannot serve as a key.
#[derive(Debug, Clone, Copy, PartialEq, Eq, Structural)]
pub enum LoadError {
    WrongLength { expected: usize, actual: usize },
    /// The length is right, but the bytes are no point of the curve.
    MalformedKey,
}

/// Why no key could be made.
#[derive(Debug, Clone, Copy, PartialEq, Eq, Structural)]
pub enum GenerationError {
    /// The operating system's secure random source failed.
    RandomnessUnavailable,
}

/// The error for key bytes of the wrong length, if they are.
pub open spec fn length_error(key: Seq<u8>) -> Option<LoadError> {
    if key.len() != KEY_LENGTH {
        Some(LoadError::WrongLength { expected: KEY_LENGTH, actual: key.len() as usize })
    } else {
        None
    }
}

/// The keyed BLAKE3 hash of `message` under `key`.
pub uninterp spec fn keyed_hash_of(key: Seq<u8>, message: Seq<u8>) -> Seq<u8>;

/// The Ed25519 signature of `message` under the secret scalar `secret`.
pub uninterp spec fn ed25519_signature_of(secret: Seq<u8>, message: Seq<u8>) -> Seq<u8>;

/// The compressed public point of the secret scalar `secret`.
pub uninterp spec fn ed25519_public_of(secret: Seq<u8>) -> Seq<u8>;

/// Whether `public` is the compressed form of a point of the curve.
pub uninterp spec fn ed25519_point_valid(public: Seq<u8>) -> bool;

/// Whether Ed25519 verification accepts `signature` for `message` under `public`.
pub uninterp spec fn ed25519_accepts(public: Seq<u8>, message: Seq<u8>, signature: Seq<u8>) -> bool;

/// Relies on `blake3::keyed_hash`: the 32-byte keyed hash, a function of the key
/// and the message alone.
#[verifier::external_body]
fn blake3_keyed_hash(key: &[u8; 32], message: &[u8]) -> (r: [u8; 32])
    ensures
        r@ == keyed_hash_of(key@, message@),
{
    *blake3::keyed_hash(key, message).as_bytes()
}

/// Relies on ed25519_dalek's `SigningKey::from_bytes` and `Signer::sign`: the
/// deterministic RFC 8032 signature, which `Verifier::verify` accepts under the
/// signing key's own verifying key (as the crate's documentation shows).
#[verifier::external_body]
fn ed25519_sign(secret: &[u8; 32], message: &[u8]) -> (r: [u8; 64])
    ensures
        r@ == ed25519_signature_of(secret@, message@),
        ed25519_accepts(ed25519_public_of(secret@), message@, r@),
{
    ed25519_dalek::Signer::sign(&ed25519_dalek::SigningKey::from_bytes(secret), message).to_bytes()
}

/// Relies on ed25519_dalek's `SigningKey::verifying_key`: the compressed public
/// point of the secret scalar, which `VerifyingKey::from_bytes` accepts.
#[verifier::external_body]
fn ed25519_public_key(secret: &[u8; 32]) -> (r: [u8; 32])
    ensures
        r@ == ed25519_public_of(secret@),
        ed25519_point_valid(r@),
{
    ed25519_dalek::SigningKey::from_bytes(secret).verifying_key().to_bytes()
}

/// Relies on ed25519_dalek's `VerifyingKey::from_bytes`, which succeeds exactly
/// when the bytes decompress to a curve point.
#[verifier::external_body]
fn ed25519_check_point(public: &[u8; 32]) -> (r: bool)
    ensures
        r == ed25519_point_valid(public@),
{
    ed25519_dalek::VerifyingKey::from_bytes(public).is_ok()
}

/// Relies on ed25519_dalek's `Verifier::verify` for `VerifyingKey`, with the
/// signature taken as its 64 bytes (`Signature::from_bytes`).
#[verifier::external_body]
fn ed25519_verify(public: &[u8; 32], message: &[u8], signature: &[u8; 64]) -> (r: bool)
    requires
        ed25519_point_valid(public@),
    ensures
        r == ed25519_accepts(public@, message@, signature@),
{
    match ed25519_dalek::VerifyingKey::from_bytes(public) {
        Ok(key) => {
            let signature = ed25519_dalek::Signature::from_bytes(signature);
            ed25519_dalek::Verifier::verify(&key, message, &signature).is_ok()
        },
        Err(_) => false,
    }
}

#[verifier::external_type_specification]
#[verifier::external_body]
pub struct ExRandError(rand::Error);

/// Relies on rand's `OsRng` (`RngCore::try_fill_bytes`): 32 bytes from the
/// operating system's secure random source, or the error that it failed.
#[verifier::external_body]
fn os_random_secret() -> (r: Result<[u8; 32], rand::Error>) {
    let mut secret = [0u8; 32];
    rand::RngCore::try_fill_bytes(&mut rand::rngs::OsRng, &mut secret).map(|_| secret)
}

/// The first `N` bytes of `bytes`, as an array.
fn to_array<const N: usize>(bytes: &[u8]) -> (r: [u8; N])
    requires
        bytes@.len() == N,
    ensures
        r@ == bytes@,
{
    let mut r = [0u8; N];
    let mut i: usize = 0;
    while i < N
        invariant
            bytes@.len() == N,
            i <= N,
            r@.len() == N,
            forall|j: int| 0 <= j < i ==> r@[j] == bytes@[j],
        decreases N - i,
    {
        r[i] = bytes[i];
        i += 1;
    }
    assert(r@ =~= bytes@);
    r
}

/// Compares two byte strings without stopping at the first difference, so that
/// the time taken does not tell where a forged signature went wrong.
pub fn bytes_equal(a: &[u8], b: &[u8]) -> (r: bool)
    ensures
        r == (a@ == b@),
{
    if a.len() != b.len() {
        return false;
    }
    let mut diff: u8 = 0;
    let mut i: usize = 0;
    while i < a.len()
        invariant
            a@.len() == b@.len(),
            i <= a@.len(),
            diff == 0 <==> forall|j: int| 0 <= j < i ==> a@[j] == b@[j],
        decreases a@.len() - i,
    {
        let x = a[i];
        let y = b[i];
        let d = diff;
        assert((d | (x ^ y)) == 0 <==> (d == 0 && x == y)) by (bit_vector);
        diff = diff | (x ^ y);
        i += 1;
    }
    if diff == 0 {
        assert(a@ =~= b@);
    }
    diff == 0
}

/// Makes signatures.
pub trait TextSign {
    /// The signature made for `message`.
    spec fn signature_of(&self, message: Seq<u8>) -> Seq<u8>;

    fn sign(&self, message: &[u8]) -> (r: Vec<u8>)
        ensures
            r@ == self.signature_of(message@),
    ;
}

/// Checks signatures.
pub trait TextVerify {
    /// Whether `signature` is accepted for `message`.
    spec fn accepts(&self, message: Seq<u8>, signature: Seq<u8>) -> bool;

    /// Any bytes may be offered as a signature: those of the wrong shape are refused.
    fn verify(&self, message: &[u8], signature: &[u8]) -> (r: bool)
        ensures
            r == self.accepts(message@, signature@),
    ;
}

/// Builds a backend from raw key bytes.
pub trait KeyLoader: Sized {
    /// Why `key` cannot be loaded, if it cannot.
    spec fn load_error(key: Seq<u8>) -> Option<LoadError>;

    /// The key bytes that the backend holds.
    spec fn loaded_key(&self) -> Seq<u8>;

    fn load(key: &[u8]) -> (r: Result<Self, LoadError>)
        ensures
            match r {
                Ok(backend) => Self::load_error(key@) is None && backend.loaded_key() == key@,
                Err(e) => Self::load_error(key@) == Some(e),
            },
    ;
}

/// Makes fresh key material.
pub trait KeyGenerator {
    /// Whether `keys` is a key set as this backend makes them.
    spec fn is_key_set(keys: Seq<Seq<u8>>) -> bool;

    fn generate() -> (r: Result<Vec<Vec<u8>>, GenerationError>)
        ensures
            r matches Ok(keys) ==> Self::is_key_set(keys.deep_view()),
    ;
}

/// Keyed BLAKE3 hashing under a shared secret: signs and verifies.
pub struct Blake3 {
    key: [u8; 32],
}

impl View for Blake3 {
    type V = Seq<u8>;

    closed spec fn view(&self) -> Seq<u8> {
        self.key@
    }
}

/// The options with which keyed-hash secrets are drawn: 32 characters, every class.
pub open spec fn secret_opts() -> GenPassOpts {
    GenPassOpts { length: 32, lowercase: true, uppercase: true, number: true, symbol: true }
}

impl Blake3 {
    pub fn new(key: [u8; 32]) -> (r: Self)
        ensures
            r@ == key@,
    {
        Blake3 { key }
    }

    pub fn try_new(key: &[u8]) -> (r: Result<Self, LoadError>)
        ensures
            match r {
                Ok(backend) => length_error(key@) is None && backend@ == key@,
                Err(e) => length_error(key@) == Some(e),
            },
    {
        if key.len() != KEY_LENGTH {
            return Err(LoadError::WrongLength { expected: KEY_LENGTH, actual: key.len() });
        }
        Ok(Self::new(to_array(key)))
    }
}

impl TextSign for Blake3 {
    open spec fn signature_of(&self, message: Seq<u8>) -> Seq<u8> {
        keyed_hash_of(self@, message)
    }

    fn sign(&self, message: &[u8]) -> (r: Vec<u8>)
        ensures
            r@.len() == KEY_LENGTH,
    {
        let hash = blake3_keyed_hash(&self.key, message);
        slice_to_vec(&hash)
    }
}

impl TextVerify for Blake3 {
    open spec fn accepts(&self, message: Seq<u8>, signature: Seq<u8>) -> bool {
        signature == keyed_hash_of(self@, message)
    }

    fn verify(&self, message: &[u8], signature: &[u8]) -> (r: bool) {
        let hash = blake3_keyed_hash(&self.key, message);
        bytes_equal(&hash, signature)
    }
}

impl KeyLoader for Blake3 {
    open spec fn load_error(key: Seq<u8>) -> Option<LoadError> {
        length_error(key)
    }

    open spec fn loaded_key(&self) -> Seq<u8> {
        self@
    }

    fn load(key: &[u8]) -> (r: Result<Self, LoadError>) {
        Self::try_new(key)
    }
}

impl KeyGenerator for Blake3 {
    /// One secret: a password of 32 characters, every class among them.
    open spec fn is_key_set(keys: Seq<Seq<u8>>) -> bool {
        keys.len() == 1 && fits(secret_opts(), keys[0])
    }

    fn generate() -> (r: Result<Vec<Vec<u8>>, GenerationError>)
        ensures
            r is Ok,
    {
        let opts = GenPassOpts {
            length: 32,
            lowercase: true,
            uppercase: true,
            number: true,
            symbol: true,
        };
        let secret = draw_password(&opts);
        let ghost bytes = secret@;
        let keys = vec![secret];
        assert(keys@[0].deep_view() =~= bytes);
        assert(keys.deep_view() =~= seq![bytes]);
        Ok(keys)
    }
}

/// Ed25519 signing with a secret scalar.
pub struct Ed25519Signer {
    key: [u8; 32],
}

impl View for Ed25519Signer {
    type V = Seq<u8>;

    closed spec fn view(&self) -> Seq<u8> {
        self.key@
    }
}

impl Ed25519Signer {
    pub fn new(key: [u8; 32]) -> (r: Self)
        ensures
            r@ == key@,
    {
        Ed25519Signer { key }
    }

    pub fn try_new(key: &[u8]) -> (r: Result<Self, LoadError>)
        ensures
            match r {
                Ok(backend) => length_error(key@) is None && backend@ == key@,
                Err(e) => length_error(key@) == Some(e),
            },
    {
        if key.len() != KEY_LENGTH {
            return Err(LoadError::WrongLength { expected: KEY_LENGTH, actual: key.len() });
        }
        Ok(Self::new(to_array(key)))
    }
}

impl TextSign for Ed25519Signer {
    open spec fn signature_of(&self, message: Seq<u8>) -> Seq<u8> {
        ed25519_signature_of(self@, message)
    }

    fn sign(&self, message: &[u8]) -> (r: Vec<u8>)
        ensures
            r@.len() == SIGNATURE_LENGTH,
            ed25519_accepts(ed25519_public_of(self@), message@, r@),
    {
        let signature = ed25519_sign(&self.key, message);
        slice_to_vec(&signature)
    }
}

impl KeyLoader for Ed25519Signer {
    open spec fn load_error(key: Seq<u8>) -> Option<LoadError> {
        length_error(key)
    }

    open spec fn loaded_key(&self) -> Seq<u8> {
        self@
    }

    fn load(key: &[u8]) -> (r: Result<Self, LoadError>) {
        Self::try_new(key)
    }
}

impl KeyGenerator for Ed25519Signer {
    /// A secret scalar, then its public point.
    open spec fn is_key_set(keys: Seq<Seq<u8>>) -> bool {
        &&& keys.len() == 2
        &&& keys[0].len() == KEY_LENGTH
        &&& keys[1].len() == KEY_LENGTH
        &&& keys[1] == ed25519_public_of(keys[0])
        &&& ed25519_point_valid(keys[1])
    }

    fn generate() -> (r: Result<Vec<Vec<u8>>, GenerationError>)
        ensures
            r matches Err(e) ==> e == GenerationError::RandomnessUnavailable,
    {
        match os_random_secret() {
            Ok(secret) => Ok(key_set_from_secret(secret)),
            Err(_) => Err(GenerationError::RandomnessUnavailable),
        }
    }
}

/// The Ed25519 key set of a drawn secret scalar: the secret, then its public point.
pub fn key_set_from_secret(secret: [u8; 32]) -> (r: Vec<Vec<u8>>)
    ensures
        r.deep_view() == seq![secret@, ed25519_public_of(secret@)],
        ed25519_point_valid(r.deep_view()[1]),
        <Ed25519Signer as KeyGenerator>::is_key_set(r.deep_view()),
{
    let public = ed25519_public_key(&secret);
    let keys = vec![slice_to_vec(&secret), slice_to_vec(&public)];
    assert(keys@[0].deep_view() =~= secret@);
    assert(keys@[1].deep_view() =~= public@);
    assert(keys.deep_view() =~= seq![secret@, public@]);
    keys
}

/// Ed25519 verification with a public point.
pub struct Ed25519Verifier {
    key: [u8; 32],
}

impl View for Ed25519Verifier {
    type V = Seq<u8>;

    closed spec fn view(&self) -> Seq<u8> {
        self.key@
    }
}

/// Why bytes cannot serve as an Ed25519 public key, if they cannot.
pub open spec fn public_key_error(key: Seq<u8>) -> Option<LoadError> {
    if key.len() != KEY_LENGTH {
        length_error(key)
    } else if !ed25519_point_valid(key) {
        Some(LoadError::MalformedKey)
    } else {
        None
    }
}

impl Ed25519Verifier {
    #[verifier::type_invariant]
    spec fn holds_point(&self) -> bool {
        ed25519_point_valid(self.key@)
    }

    pub fn new(key: [u8; 32]) -> (r: Self)
        requires
            ed25519_point_valid(key@),
        ensures
            r@ == key@,
    {
        Ed25519Verifier { key }
    }

    pub fn try_new(key: &[u8]) -> (r: Result<Self, LoadError>)
        ensures
            match r {
                Ok(backend) => public_key_error(key@) is None && backend@ == key@,
                Err(e) => public_key_error(key@) == Some(e),
            },
    {
        if key.len() != KEY_LENGTH {
            return Err(LoadError::WrongLength { expected: KEY_LENGTH, actual: key.len() });
        }
        let key: [u8; 32] = to_array(key);
        if !ed25519_check_point(&key) {
            return Err(LoadError::MalformedKey);
        }
        Ok(Self::new(key))
    }
}

impl TextVerify for Ed25519Verifier {
    open spec fn accepts(&self, message: Seq<u8>, signature: Seq<u8>) -> bool {
        signature.len() == SIGNATURE_LENGTH && ed25519_accepts(self@, message, signature)
    }

    fn verify(&self, message: &[u8], signature: &[u8]) -> (r: bool) {
        proof {
            use_type_invariant(self);
        }
        if signature.len() != SIGNATURE_LENGTH {
            return false;
        }
        let signature: [u8; 64] = to_array(signature);
        ed25519_verify(&self.key, message, &signature)
    }
}

impl KeyLoader for Ed25519Verifier {
    open spec fn load_error(key: Seq<u8>) -> Option<LoadError> {
        public_key_error(key)
    }

    open spec fn loaded_key(&self) -> Seq<u8> {
        self@
    }

    fn load(key: &[u8]) -> (r: Result<Self, LoadError>) {
        Self::try_new(key)
    }
}

} // verus!
