use rcli::engine::{
    load_signer, load_verifier, process_generate, process_sign, process_verify, TextError,
    TextKeyGenerateOpts, TextSignOpts, TextVerifyOpts,
};
use rcli::codec::CodecError;
use rcli::text::{
    bytes_equal, key_set_from_secret, Blake3, Ed25519Signer, Ed25519Verifier, KeyGenerator, KeyLoader, LoadError,
    TextSign, TextSignFormat, TextVerify,
};

fn hex(s: &str) -> Vec<u8> {
    (0..s.len())
        .step_by(2)
        .map(|i| u8::from_str_radix(&s[i..i + 2], 16).unwrap())
        .collect()
}

fn sign_opts(format: TextSignFormat) -> TextSignOpts {
    TextSignOpts { input: "-".to_string(), key: "key".to_string(), format }
}

fn verify_opts(format: TextSignFormat, sig: &str) -> TextVerifyOpts {
    TextVerifyOpts {
        input: "-".to_string(),
        key: "key".to_string(),
        format,
        sig: sig.to_string(),
    }
}

const RFC_SECRET: &str = "9d61b19deffd5a60ba844af492ec2cc44449c5697b326919703bac031cae7f60";
const RFC_PUBLIC: &str = "d75a980182b10ab7d54bfed3c964073a0ee172f3daa62325af021a68f707511a";
fn rfc_empty_sig() -> Vec<u8> {
    let mut sig = hex("e5564300c360ac729086e2cc806e828a84877f1eb8e5d974d873e06522490155");
    sig.extend(hex("5fb8821590a33bacc61e39701cf9b46bd25bf5f0595bbe24655141438e7a100b"));
    sig
}

#[test]
fn test_ed25519_sign_verify() {
    let keys = Ed25519Signer::generate().unwrap();
    let sk = Ed25519Signer::load(&keys[0]).unwrap();
    let pk = Ed25519Verifier::load(&keys[1]).unwrap();

    let data = b"hello world";
    let sig = sk.sign(data);
    assert!(pk.verify(data, &sig));
}

#[test]
fn keyed_hash_of_zero_key_matches_vector() {
    let signer = Blake3::new([0u8; 32]);
    let expected = hex("f70d67530338246a6522eae9daad92c0dfd4bcf4e511602d96e9afd1d2210479");
    let first = signer.sign(b"hello world");
    assert_eq!(first, expected);
    assert_eq!(signer.sign(b"hello world"), first);
}

#[test]
fn keyed_hash_signature_text_is_reproducible() {
    let key = [0u8; 32];
    let text = process_sign(&sign_opts(TextSignFormat::Blake3), &key, b"hello world").unwrap();
    assert_eq!(text, "9w1nUwM4JGplIurp2q2SwN_UvPTlEWAtlumv0dIhBHk");
    let again = process_sign(&sign_opts(TextSignFormat::Blake3), &key, b"hello world").unwrap();
    assert_eq!(text, again);
}

#[test]
fn keyed_hash_sign_then_verify() {
    let key: Vec<u8> = (0u8..32).collect();
    for message in [&b""[..], b"a", b"hello world", &[0xffu8; 1000][..]] {
        let text = process_sign(&sign_opts(TextSignFormat::Blake3), &key, message).unwrap();
        let verdict = process_verify(&verify_opts(TextSignFormat::Blake3, &text), &key, message);
        assert_eq!(verdict, Ok(true));
    }
}

#[test]
fn ed25519_sign_then_verify_through_engine() {
    let keys = process_generate(&TextKeyGenerateOpts {
        format: TextSignFormat::Ed25519,
        output: ".".to_string(),
    })
    .unwrap();
    let opts = sign_opts(TextSignFormat::Ed25519);
    let text = process_sign(&opts, &keys[0], b"hello world").unwrap();
    let verdict =
        process_verify(&verify_opts(TextSignFormat::Ed25519, &text), &keys[1], b"hello world");
    assert_eq!(verdict, Ok(true));
}

#[test]
fn ed25519_matches_rfc8032_vector() {
    let secret = hex(RFC_SECRET);
    let signer = Ed25519Signer::try_new(&secret).unwrap();
    assert_eq!(signer.sign(b""), rfc_empty_sig());
    let verifier = Ed25519Verifier::try_new(&hex(RFC_PUBLIC)).unwrap();
    assert!(verifier.verify(b"", &rfc_empty_sig()));
    assert!(!verifier.verify(b"x", &rfc_empty_sig()));
}

#[test]
fn keyed_hash_flipped_byte_is_refused() {
    let signer = Blake3::new([7u8; 32]);
    let sig = signer.sign(b"message");
    for i in 0..sig.len() {
        let mut tampered = sig.clone();
        tampered[i] ^= 0x01;
        assert!(!signer.verify(b"message", &tampered));
    }
    assert!(signer.verify(b"message", &sig));
}

#[test]
fn ed25519_flipped_byte_is_refused() {
    let signer = Ed25519Signer::try_new(&hex(RFC_SECRET)).unwrap();
    let verifier = Ed25519Verifier::try_new(&hex(RFC_PUBLIC)).unwrap();
    let sig = signer.sign(b"hello world");
    for i in 0..sig.len() {
        let mut tampered = sig.clone();
        tampered[i] ^= 0x80;
        assert!(!verifier.verify(b"hello world", &tampered));
    }
}

#[test]
fn signature_of_wrong_length_is_refused_not_an_error() {
    let verifier = Ed25519Verifier::try_new(&hex(RFC_PUBLIC)).unwrap();
    assert!(!verifier.verify(b"", &rfc_empty_sig()[..63]));
    let keyed = Blake3::new([0u8; 32]);
    assert!(!keyed.verify(b"hello world", &[0u8; 31]));
    let short = rcli::codec::encode_signature(&[1u8, 2, 3]);
    let opts = verify_opts(TextSignFormat::Ed25519, &short);
    let verdict = process_verify(&opts, &hex(RFC_PUBLIC), b"");
    assert_eq!(verdict, Ok(false));
}

#[test]
fn cross_key_is_refused() {
    let text = process_sign(&sign_opts(TextSignFormat::Blake3), &[1u8; 32], b"hello").unwrap();
    let verdict = process_verify(&verify_opts(TextSignFormat::Blake3, &text), &[2u8; 32], b"hello");
    assert_eq!(verdict, Ok(false));

    let first = Ed25519Signer::generate().unwrap();
    let second = Ed25519Signer::generate().unwrap();
    let text = process_sign(&sign_opts(TextSignFormat::Ed25519), &first[0], b"hello").unwrap();
    let verdict =
        process_verify(&verify_opts(TextSignFormat::Ed25519, &text), &second[1], b"hello");
    assert_eq!(verdict, Ok(false));
}

#[test]
fn generated_key_sets_have_their_shape() {
    let keyed = process_generate(&TextKeyGenerateOpts {
        format: TextSignFormat::Blake3,
        output: ".".to_string(),
    })
    .unwrap();
    assert_eq!(keyed.len(), 1);
    assert_eq!(keyed[0].len(), 32);
    assert!(keyed[0].iter().any(|c| c.is_ascii_uppercase()));
    assert!(keyed[0].iter().any(|c| c.is_ascii_lowercase()));
    assert!(keyed[0].iter().any(|c| c.is_ascii_digit()));
    assert!(keyed[0].iter().any(|c| b"!@#$%^&*_".contains(c)));

    let pair = process_generate(&TextKeyGenerateOpts {
        format: TextSignFormat::Ed25519,
        output: ".".to_string(),
    })
    .unwrap();
    assert_eq!(pair.len(), 2);
    assert_eq!(pair[0].len(), 32);
    assert_eq!(pair[1].len(), 32);
    assert!(Blake3::try_new(&keyed[0]).is_ok());
    assert!(Ed25519Verifier::try_new(&pair[1]).is_ok());
}

#[test]
fn generated_public_key_belongs_to_secret() {
    let secret = hex(RFC_SECRET);
    let signer = Ed25519Signer::try_new(&secret).unwrap();
    let pair = Ed25519Signer::generate().unwrap();
    assert_ne!(pair[0], pair[1]);
    let other = Ed25519Signer::try_new(&pair[0]).unwrap();
    let verifier = Ed25519Verifier::try_new(&pair[1]).unwrap();
    assert!(verifier.verify(b"m", &other.sign(b"m")));
    assert!(!verifier.verify(b"m", &signer.sign(b"m")));
}

#[test]
fn short_keyed_hash_key_is_wrong_length() {
    let key = [0u8; 31];
    assert_eq!(
        Blake3::try_new(&key).err(),
        Some(LoadError::WrongLength { expected: 32, actual: 31 })
    );
    assert_eq!(
        Blake3::load(&key).err(),
        Some(LoadError::WrongLength { expected: 32, actual: 31 })
    );
    let result = process_sign(&sign_opts(TextSignFormat::Blake3), &key, b"hello");
    assert_eq!(result, Err(TextError::Load(LoadError::WrongLength { expected: 32, actual: 31 })));
}

#[test]
fn long_ed25519_keys_are_wrong_length() {
    let key = [0u8; 33];
    assert_eq!(
        Ed25519Signer::try_new(&key).err(),
        Some(LoadError::WrongLength { expected: 32, actual: 33 })
    );
    assert_eq!(
        Ed25519Verifier::load(&key).err(),
        Some(LoadError::WrongLength { expected: 32, actual: 33 })
    );
}

#[test]
fn point_off_the_curve_is_malformed() {
    let mut key = [0u8; 32];
    key[0] = 2;
    assert_eq!(Ed25519Verifier::try_new(&key).err(), Some(LoadError::MalformedKey));
    let text = rcli::codec::encode_signature(&[0u8; 64]);
    let verdict = process_verify(&verify_opts(TextSignFormat::Ed25519, &text), &key, b"");
    assert_eq!(verdict, Err(TextError::Load(LoadError::MalformedKey)));
    assert!(load_signer(TextSignFormat::Ed25519, &key).is_ok());
    assert!(load_verifier(TextSignFormat::Ed25519, &key).is_err());
}

#[test]
fn bad_signature_text_is_an_error() {
    let verdict =
        process_verify(&verify_opts(TextSignFormat::Blake3, "not_base64!!"), &[0u8; 32], b"x");
    assert_eq!(verdict, Err(TextError::Codec(CodecError::InvalidEncoding)));
    let opts = verify_opts(TextSignFormat::Blake3, "not_base64!!");
    let verdict = process_verify(&opts, &[0u8; 3], b"x");
    assert_eq!(verdict, Err(TextError::Codec(CodecError::InvalidEncoding)));
}

#[test]
fn bytes_equal_compares_whole_strings() {
    assert!(bytes_equal(b"", b""));
    assert!(bytes_equal(b"abc", b"abc"));
    assert!(!bytes_equal(b"abc", b"abd"));
    assert!(!bytes_equal(b"abc", b"ab"));
}

#[test]
fn algorithm_names() {
    assert_eq!(TextSignFormat::Blake3.as_str(), "blake3");
    assert_eq!(TextSignFormat::Ed25519.as_str(), "ed25519");
}

#[test]
fn key_set_of_rfc_secret_holds_its_public_point() {
    let secret: [u8; 32] = hex(RFC_SECRET).try_into().unwrap();
    let keys = key_set_from_secret(secret);
    assert_eq!(keys, vec![hex(RFC_SECRET), hex(RFC_PUBLIC)]);
}
