//! The text-signing engine: picks a backend by algorithm, loads its key, signs or
//! verifies, and carries signatures as URL-safe base64 text.
use vstd::prelude::*;
use vstd::utf8::encode_utf8;

use crate::codec::{
    ascii_text, decode_signature, decoded, encode_signature, encoded, lemma_text_round_trip,
    Base64Format, CodecError,
};
use crate::text::{
    ed25519_accepts, ed25519_public_of, ed25519_signature_of, keyed_hash_of, length_error,
    public_key_error, Blake3, Ed25519Signer, Ed25519Verifier, GenerationError, KeyGenerator,
    KeyLoader, LoadError, TextSign, TextSignFormat, TextVerify, SIGNATURE_LENGTH,
};

verus! {

/// A request to sign what `input` names (a path, or `-` for standard input) with
/// the key in the file `key`.
pub struct TextSignOpts {
    pub input: String,
    pub key: String,
    pub format: TextSignFormat,
}

/// A request to check the signature text `sig` for what `input` names, with the
/// key in the file `key`.
pub struct TextVerifyOpts {
    pub input: String,
    pub key: String,
    pub format: TextSignFormat,
    pub sig: String,
}

/// A request for fresh key material, to be written under the directory `output`.
pub struct TextKeyGenerateOpts {
    pub format: TextSignFormat,
    pub output: String,
}

/// Why a request failed.
#[derive(Debug, Clone, Copy, PartialEq, Eq, Structural)]
pub enum TextError {
    Load(LoadError),
    Codec(CodecError),
    Generation(GenerationError),
}

/// Why `key` cannot sign under `format`, if it cannot.
pub open spec fn signing_key_error(format: TextSignFormat, key: Seq<u8>) -> Option<LoadError> {
    length_error(key)
}

/// Why `key` cannot verify under `format`, if it cannot.
pub open spec fn verifying_key_error(format: TextSignFormat, key: Seq<u8>) -> Option<LoadError> {
    match format {
        TextSignFormat::Blake3 => length_error(key),
        TextSignFormat::Ed25519 => public_key_error(key),
    }
}

/// The raw signature of `message` under the signing key `key`.
pub open spec fn signature(format: TextSignFormat, key: Seq<u8>, message: Seq<u8>) -> Seq<u8> {
    match format {
        TextSignFormat::Blake3 => keyed_hash_of(key, message),
        TextSignFormat::Ed25519 => ed25519_signature_of(key, message),
    }
}

/// Whether `sig` is accepted for `message` under the verifying key `key`.
pub open spec fn accepted(
    format: TextSignFormat,
    key: Seq<u8>,
    message: Seq<u8>,
    sig: Seq<u8>,
) -> bool {
    match format {
        TextSignFormat::Blake3 => sig == keyed_hash_of(key, message),
        TextSignFormat::Ed25519 => sig.len() == SIGNATURE_LENGTH && ed25519_accepts(
            key,
            message,
            sig,
        ),
    }
}

/// The text form of a raw signature.
pub open spec fn signature_text(sig: Seq<u8>) -> Seq<char> {
    ascii_text(encoded(sig, Base64Format::Urlsafe))
}

/// The raw signature that a text stands for, if any.
pub open spec fn signature_from_text(text: Seq<char>) -> Option<Seq<u8>> {
    decoded(encode_utf8(text), Base64Format::Urlsafe)
}

/// A backend that signs.
pub enum Signer {
    Blake3(Blake3),
    Ed25519(Ed25519Signer),
}

impl Signer {
    pub open spec fn algorithm(&self) -> TextSignFormat {
        match self {
            Signer::Blake3(_) => TextSignFormat::Blake3,
            Signer::Ed25519(_) => TextSignFormat::Ed25519,
        }
    }

    pub open spec fn key_bytes(&self) -> Seq<u8> {
        match self {
            Signer::Blake3(b) => b@,
            Signer::Ed25519(s) => s@,
        }
    }
}

impl TextSign for Signer {
    open spec fn signature_of(&self, message: Seq<u8>) -> Seq<u8> {
        signature(self.algorithm(), self.key_bytes(), message)
    }

    fn sign(&self, message: &[u8]) -> (r: Vec<u8>)
        ensures
            r@.len() <= SIGNATURE_LENGTH,
            self.algorithm() == TextSignFormat::Ed25519 ==> r@.len() == SIGNATURE_LENGTH,
            self.algorithm() == TextSignFormat::Ed25519 ==> ed25519_accepts(
                ed25519_public_of(self.key_bytes()),
                message@,
                r@,
            ),
    {
        match self {
            Signer::Blake3(b) => b.sign(message),
            Signer::Ed25519(s) => s.sign(message),
        }
    }
}

/// A backend that verifies.
pub enum Verifier {
    Blake3(Blake3),
    Ed25519(Ed25519Verifier),
}

impl Verifier {
    pub open spec fn algorithm(&self) -> TextSignFormat {
        match self {
            Verifier::Blake3(_) => TextSignFormat::Blake3,
            Verifier::Ed25519(_) => TextSignFormat::Ed25519,
        }
    }

    pub open spec fn key_bytes(&self) -> Seq<u8> {
        match self {
            Verifier::Blake3(b) => b@,
            Verifier::Ed25519(v) => v@,
        }
    }
}

impl TextVerify for Verifier {
    open spec fn accepts(&self, message: Seq<u8>, sig: Seq<u8>) -> bool {
        accepted(self.algorithm(), self.key_bytes(), message, sig)
    }

    fn verify(&self, message: &[u8], sig: &[u8]) -> (r: bool) {
        match self {
            Verifier::Blake3(b) => b.verify(message, sig),
            Verifier::Ed25519(v) => v.verify(message, sig),
        }
    }
}

/// The signing backend of `format`, holding `key`.
pub fn load_signer(format: TextSignFormat, key: &[u8]) -> (r: Result<Signer, LoadError>)
    ensures
        match r {
            Ok(s) => signing_key_error(format, key@) is None && s.algorithm() == format
                && s.key_bytes() == key@,
            Err(e) => signing_key_error(format, key@) == Some(e),
        },
{
    match format {
        TextSignFormat::Blake3 => match Blake3::load(key) {
            Ok(b) => Ok(Signer::Blake3(b)),
            Err(e) => Err(e),
        },
        TextSignFormat::Ed25519 => match Ed25519Signer::load(key) {
            Ok(s) => Ok(Signer::Ed25519(s)),
            Err(e) => Err(e),
        },
    }
}

/// The verifying backend of `format`, holding `key`.
pub fn load_verifier(format: TextSignFormat, key: &[u8]) -> (r: Result<Verifier, LoadError>)
    ensures
        match r {
            Ok(v) => verifying_key_error(format, key@) is None && v.algorithm() == format
                && v.key_bytes() == key@,
            Err(e) => verifying_key_error(format, key@) == Some(e),
        },
{
    match format {
        TextSignFormat::Blake3 => match Blake3::load(key) {
            Ok(b) => Ok(Verifier::Blake3(b)),
            Err(e) => Err(e),
        },
        TextSignFormat::Ed25519 => match Ed25519Verifier::load(key) {
            Ok(v) => Ok(Verifier::Ed25519(v)),
            Err(e) => Err(e),
        },
    }
}

/// Signs the bytes read for `opts.input` with the key bytes read from `opts.key`,
/// and returns the signature as text.
pub fn process_sign(opts: &TextSignOpts, key: &[u8], input: &[u8]) -> (r: Result<
    String,
    TextError,
>)
    ensures
        match r {
            Ok(text) => {
                &&& signing_key_error(opts.format, key@) is None
                &&& text@ == signature_text(signature(opts.format, key@, input@))
                &&& opts.format == TextSignFormat::Ed25519 ==> accepted(
                    opts.format,
                    ed25519_public_of(key@),
                    input@,
                    signature(opts.format, key@, input@),
                )
            },
            Err(e) => signing_key_error(opts.format, key@) matches Some(le) && e
                == TextError::Load(le),
        },
{
    let signer = match load_signer(opts.format, key) {
        Ok(s) => s,
        Err(e) => return Err(TextError::Load(e)),
    };
    let signed = signer.sign(input);
    Ok(encode_signature(&signed))
}

/// Checks the signature text `opts.sig` for the bytes read for `opts.input`, with
/// the key bytes read from `opts.key`. Text that is no signature is an error; a
/// signature that does not match is `false`.
pub fn process_verify(opts: &TextVerifyOpts, key: &[u8], input: &[u8]) -> (r: Result<
    bool,
    TextError,
>)
    ensures
        match r {
            Ok(verdict) => {
                &&& signature_from_text(opts.sig@) matches Some(sig)
                &&& verifying_key_error(opts.format, key@) is None
                &&& verdict == accepted(opts.format, key@, input@, sig)
            },
            Err(e) => {
                ||| signature_from_text(opts.sig@) is None && e == TextError::Codec(
                    CodecError::InvalidEncoding,
                )
                ||| signature_from_text(opts.sig@) is Some && (verifying_key_error(
                    opts.format,
                    key@,
                ) matches Some(le) && e == TextError::Load(le))
            },
        },
{
    let sig = match decode_signature(opts.sig.as_str()) {
        Ok(sig) => sig,
        Err(e) => return Err(TextError::Codec(e)),
    };
    let verifier = match load_verifier(opts.format, key) {
        Ok(v) => v,
        Err(e) => return Err(TextError::Load(e)),
    };
    Ok(verifier.verify(input, &sig))
}

/// Fresh key material for `opts.format`: one secret for a keyed hash; a secret
/// scalar and then its public point for Ed25519.
pub fn process_generate(opts: &TextKeyGenerateOpts) -> (r: Result<Vec<Vec<u8>>, TextError>)
    ensures
        opts.format == TextSignFormat::Blake3 ==> (r matches Ok(keys)
            && <Blake3 as KeyGenerator>::is_key_set(keys.deep_view())),
        opts.format == TextSignFormat::Ed25519 ==> match r {
            Ok(keys) => <Ed25519Signer as KeyGenerator>::is_key_set(keys.deep_view()),
            Err(e) => e == TextError::Generation(GenerationError::RandomnessUnavailable),
        },
{
    let generated = match opts.format {
        TextSignFormat::Blake3 => Blake3::generate(),
        TextSignFormat::Ed25519 => Ed25519Signer::generate(),
    };
    match generated {
        Ok(keys) => Ok(keys),
        Err(e) => Err(TextError::Generation(e)),
    }
}

/// The text form of any raw signature reads back as that signature.
pub proof fn lemma_signature_text_round_trip(sig: Seq<u8>)
    ensures
        signature_from_text(signature_text(sig)) == Some(sig),
{
    lemma_text_round_trip(sig, Base64Format::Urlsafe);
}

/// A keyed-hash signature, carried as text and read back, is accepted for the same
/// message under the key that made it.
pub proof fn lemma_keyed_hash_sign_then_verify(key: Seq<u8>, message: Seq<u8>)
    ensures
        signature_from_text(signature_text(signature(TextSignFormat::Blake3, key, message)))
            == Some(signature(TextSignFormat::Blake3, key, message)),
        accepted(
            TextSignFormat::Blake3,
            key,
            message,
            signature(TextSignFormat::Blake3, key, message),
        ),
{
    lemma_signature_text_round_trip(signature(TextSignFormat::Blake3, key, message));
}

/// A keyed-hash signature with any one byte changed is refused.
pub proof fn lemma_keyed_hash_tampered_refused(key: Seq<u8>, message: Seq<u8>, i: int, b: u8)
    requires
        0 <= i < signature(TextSignFormat::Blake3, key, message).len(),
        b != signature(TextSignFormat::Blake3, key, message)[i],
    ensures
        !accepted(
            TextSignFormat::Blake3,
            key,
            message,
            signature(TextSignFormat::Blake3, key, message).update(i, b),
        ),
{
    let sig = signature(TextSignFormat::Blake3, key, message);
    assert(sig.update(i, b)[i] != sig[i]);
}

} // verus!
