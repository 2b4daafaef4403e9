use rcli::codec::{
    decode, decode_signature, encode, encode_signature, process_decode, process_encode,
    Base64DecodeOpts, Base64EncodeOpts, Base64Format, CodecError,
};

fn enc_opts(format: Base64Format) -> Base64EncodeOpts {
    Base64EncodeOpts { input: "-".to_string(), format }
}

fn dec_opts(format: Base64Format) -> Base64DecodeOpts {
    Base64DecodeOpts { input: "-".to_string(), format }
}

#[test]
fn encodes_rfc4648_examples() {
    let cases = [
        ("", ""),
        ("f", "Zg=="),
        ("fo", "Zm8="),
        ("foo", "Zm9v"),
        ("foob", "Zm9vYg=="),
        ("fooba", "Zm9vYmE="),
        ("foobar", "Zm9vYmFy"),
    ];
    for (plain, text) in cases {
        assert_eq!(encode(plain.as_bytes(), Base64Format::Standard), text);
        assert_eq!(encode(plain.as_bytes(), Base64Format::Urlsafe), text.trim_end_matches('='));
        assert_eq!(decode(text.as_bytes(), Base64Format::Standard), Ok(plain.as_bytes().to_vec()));
    }
}

#[test]
fn alphabets_differ_in_two_symbols() {
    let data = [0xfbu8, 0xff, 0xbf];
    assert_eq!(encode(&data, Base64Format::Standard), "+/+/");
    assert_eq!(encode(&data, Base64Format::Urlsafe), "-_-_");
    assert_eq!(decode(b"-_-_", Base64Format::Urlsafe), Ok(data.to_vec()));
    assert_eq!(decode(b"+/+/", Base64Format::Urlsafe), Err(CodecError::InvalidEncoding));
    assert_eq!(decode(b"-_-_", Base64Format::Standard), Err(CodecError::InvalidEncoding));
}

#[test]
fn process_encode_and_decode_follow_the_format() {
    let data = b"hello";
    assert_eq!(process_encode(&enc_opts(Base64Format::Standard), data), "aGVsbG8=");
    assert_eq!(process_encode(&enc_opts(Base64Format::Urlsafe), data), "aGVsbG8");
    assert_eq!(process_decode(&dec_opts(Base64Format::Standard), b"aGVsbG8="), Ok(data.to_vec()));
    assert_eq!(process_decode(&dec_opts(Base64Format::Urlsafe), b"aGVsbG8"), Ok(data.to_vec()));
    assert_eq!(
        process_decode(&dec_opts(Base64Format::Urlsafe), b"aGVsbG8="),
        Err(CodecError::InvalidEncoding)
    );
    assert_eq!(
        process_decode(&dec_opts(Base64Format::Standard), b"aGVsbG8"),
        Err(CodecError::InvalidEncoding)
    );
}

#[test]
fn round_trip_of_signature_bytes() {
    let mut samples: Vec<Vec<u8>> = vec![vec![], vec![0], vec![255, 254], (0u8..=255).collect()];
    samples.push(vec![0x5a; 32]);
    samples.push(vec![0xa5; 64]);
    for s in samples {
        let text = encode_signature(&s);
        assert!(!text.contains('='));
        assert_eq!(decode_signature(&text), Ok(s.clone()));
        for format in [Base64Format::Standard, Base64Format::Urlsafe] {
            assert_eq!(decode(encode(&s, format).as_bytes(), format), Ok(s.clone()));
        }
    }
}

#[test]
fn not_base64_is_invalid_encoding() {
    assert_eq!(decode_signature("not_base64!!"), Err(CodecError::InvalidEncoding));
}

#[test]
fn non_canonical_texts_are_refused() {
    assert_eq!(decode(b"Zh", Base64Format::Urlsafe), Err(CodecError::InvalidEncoding));
    assert_eq!(decode(b"Z", Base64Format::Urlsafe), Err(CodecError::InvalidEncoding));
    assert_eq!(decode(b"Zg=", Base64Format::Standard), Err(CodecError::InvalidEncoding));
    assert_eq!(decode_signature("Zg\u{e9}"), Err(CodecError::InvalidEncoding));
    assert_eq!(decode(b"", Base64Format::Urlsafe), Ok(vec![]));
}

#[test]
fn format_names() {
    assert_eq!(Base64Format::Standard.as_str(), "standard");
    assert_eq!(Base64Format::Urlsafe.as_str(), "urlsafe");
}
