//! Base64 text encoding of byte strings (RFC 4648), in the standard alphabet with
//! padding and in the URL-safe alphabet without it.
use vstd::prelude::*;
use vstd::utf8::encode_utf8;

verus! {

/// Which base64 variant a text uses.
#[derive(Debug, Clone, Copy, PartialEq, Eq, Structural)]
pub enum Base64Format {
    /// `A-Z a-z 0-9 + /`, padded with `=` to a multiple of four symbols.
    Standard,
    /// `A-Z a-z 0-9 - _`, never padded.
    Urlsafe,
}

impl Base64Format {
    /// The lower-case name of the variant, as the command line spells it.
    pub fn as_str(&self) -> (r: &'static str)
        ensures
            r@ == (match self {
                Base64Format::Standard => "standard"@,
                Base64Format::Urlsafe => "urlsafe"@,
            }),
    {
        match self {
            Base64Format::Standard => "standard",
            Base64Format::Urlsafe => "urlsafe",
        }
    }
}

/// Text that is not the base64 encoding of any byte string.
#[derive(Debug, Clone, Copy, PartialEq, Eq, Structural)]
pub enum CodecError {
    InvalidEncoding,
}

/// A request to encode the bytes read from `input` (a path, or `-` for standard input).
pub struct Base64EncodeOpts {
    pub input: String,
    pub format: Base64Format,
}

/// A request to decode the text read from `input` (a path, or `-` for standard input).
pub struct Base64DecodeOpts {
    pub input: String,
    pub format: Base64Format,
}

/// The ASCII code of the symbol for the six-bit value `v`.
pub open spec fn symbol(v: u8, format: Base64Format) -> u8 {
    if v < 26 {
        (v + 65) as u8
    } else if v < 52 {
        (v + 71) as u8
    } else if v < 62 {
        (v - 4) as u8
    } else if v == 62 {
        if format == Base64Format::Standard { 43u8 } else { 45u8 }
    } else {
        if format == Base64Format::Standard { 47u8 } else { 95u8 }
    }
}

/// The padding symbol `=`.
pub open spec fn pad_symbol() -> u8 {
    61u8
}

/// The first three symbols that encode the bytes `a b c`.
pub open spec fn group(a: u8, b: u8, c: u8, format: Base64Format) -> Seq<u8> {
    seq![
        symbol(a >> 2, format),
        symbol(((a & 3) << 4) | (b >> 4), format),
        symbol(((b & 15) << 2) | (c >> 6), format),
    ]
}

/// The padding that closes a final group of `missing` absent bytes.
pub open spec fn padding(missing: nat, format: Base64Format) -> Seq<u8> {
    if format == Base64Format::Standard {
        Seq::new(missing, |i: int| pad_symbol())
    } else {
        Seq::empty()
    }
}

/// The base64 encoding of `data`, as ASCII codes: every three bytes become four
/// symbols; a final one or two bytes become two or three symbols, and padding.
pub open spec fn encoded(data: Seq<u8>, format: Base64Format) -> Seq<u8>
    decreases data.len(),
{
    if data.len() == 0 {
        Seq::empty()
    } else if data.len() == 1 {
        group(data[0], 0, 0, format).take(2) + padding(2, format)
    } else if data.len() == 2 {
        group(data[0], data[1], 0, format) + padding(1, format)
    } else {
        group(data[0], data[1], data[2], format).push(symbol(data[2] & 63, format))
            + encoded(data.subrange(3, data.len() as int), format)
    }
}

/// The characters of a text of ASCII codes.
pub open spec fn ascii_text(codes: Seq<u8>) -> Seq<char> {
    codes.map_values(|c: u8| c as char)
}

/// The byte string whose encoding `text` is, if there is one.
pub open spec fn decoded(text: Seq<u8>, format: Base64Format) -> Option<Seq<u8>> {
    if exists|data: Seq<u8>| encoded(data, format) == text {
        Some(choose|data: Seq<u8>| encoded(data, format) == text)
    } else {
        None
    }
}

proof fn lemma_symbol_injective(x: u8, y: u8, format: Base64Format)
    requires
        x < 64,
        y < 64,
        symbol(x, format) == symbol(y, format),
    ensures
        x == y,
{
}

proof fn lemma_sextets(a: u8, b: u8, c: u8)
    ensures
        a >> 2 < 64,
        ((a & 3) << 4) | (b >> 4) < 64,
        ((b & 15) << 2) | (c >> 6) < 64,
        c & 63 < 64,
{
    assert(a >> 2 < 64 && ((a & 3) << 4) | (b >> 4) < 64 && ((b & 15) << 2) | (c >> 6) < 64
        && c & 63 < 64) by (bit_vector);
}

/// Equal symbols for the bytes `a b c` and `x y z` mean equal bytes, as far as the
/// symbols reach: two symbols fix the first byte, three the first two.
proof fn lemma_group_injective(a: u8, b: u8, c: u8, x: u8, y: u8, z: u8, format: Base64Format)
    ensures
        symbol(a >> 2, format) == symbol(x >> 2, format) && symbol((a & 3) << 4, format)
            == symbol((x & 3) << 4, format) ==> a == x,
        group(a, b, 0, format) == group(x, y, 0, format) ==> a == x && b == y,
        group(a, b, c, format) == group(x, y, z, format) && symbol(c & 63, format) == symbol(
            z & 63,
            format,
        ) ==> a == x && b == y && c == z,
{
    lemma_sextets(a, b, c);
    lemma_sextets(x, y, z);
    lemma_sextets(a, b, 0);
    lemma_sextets(x, y, 0);
    assert((a & 3) << 4 < 64 && (x & 3) << 4 < 64) by (bit_vector);
    if symbol(a >> 2, format) == symbol(x >> 2, format) && symbol((a & 3) << 4, format) == symbol(
        (x & 3) << 4,
        format,
    ) {
        lemma_symbol_injective(a >> 2, x >> 2, format);
        lemma_symbol_injective((a & 3) << 4, (x & 3) << 4, format);
        assert(a == x) by (bit_vector)
            requires
                a >> 2 == x >> 2,
                (a & 3) << 4 == (x & 3) << 4,
        ;
    }
    if group(a, b, 0, format) == group(x, y, 0, format) {
        assert(group(a, b, 0, format)[0] == group(x, y, 0, format)[0]);
        assert(group(a, b, 0, format)[1] == group(x, y, 0, format)[1]);
        assert(group(a, b, 0, format)[2] == group(x, y, 0, format)[2]);
        lemma_symbol_injective(a >> 2, x >> 2, format);
        lemma_symbol_injective(((a & 3) << 4) | (b >> 4), ((x & 3) << 4) | (y >> 4), format);
        lemma_symbol_injective(((b & 15) << 2) | (0u8 >> 6), ((y & 15) << 2) | (0u8 >> 6), format);
        assert(a == x && b == y) by (bit_vector)
            requires
                a >> 2 == x >> 2,
                ((a & 3) << 4) | (b >> 4) == ((x & 3) << 4) | (y >> 4),
                ((b & 15) << 2) | (0u8 >> 6) == ((y & 15) << 2) | (0u8 >> 6),
        ;
    }
    if group(a, b, c, format) == group(x, y, z, format) && symbol(c & 63, format) == symbol(
        z & 63,
        format,
    ) {
        assert(group(a, b, c, format)[0] == group(x, y, z, format)[0]);
        assert(group(a, b, c, format)[1] == group(x, y, z, format)[1]);
        assert(group(a, b, c, format)[2] == group(x, y, z, format)[2]);
        lemma_symbol_injective(a >> 2, x >> 2, format);
        lemma_symbol_injective(((a & 3) << 4) | (b >> 4), ((x & 3) << 4) | (y >> 4), format);
        lemma_symbol_injective(((b & 15) << 2) | (c >> 6), ((y & 15) << 2) | (z >> 6), format);
        lemma_symbol_injective(c & 63, z & 63, format);
        assert(a == x && b == y && c == z) by (bit_vector)
            requires
                a >> 2 == x >> 2,
                ((a & 3) << 4) | (b >> 4) == ((x & 3) << 4) | (y >> 4),
                ((b & 15) << 2) | (c >> 6) == ((y & 15) << 2) | (z >> 6),
                c & 63 == z & 63,
        ;
    }
}

/// What the first symbols of an encoding look like, by the length of the data.
proof fn lemma_encoded_shape(data: Seq<u8>, format: Base64Format)
    ensures
        data.len() == 0 <==> encoded(data, format).len() == 0,
        data.len() == 1 ==> encoded(data, format).len() == (if format == Base64Format::Standard {
            4int
        } else {
            2int
        }),
        data.len() == 1 && format == Base64Format::Standard ==> encoded(data, format)[2]
            == pad_symbol(),
        data.len() == 2 ==> encoded(data, format).len() == (if format == Base64Format::Standard {
            4int
        } else {
            3int
        }),
        data.len() == 2 && format == Base64Format::Standard ==> encoded(data, format)[3]
            == pad_symbol(),
        data.len() >= 2 ==> encoded(data, format)[2] != pad_symbol(),
        data.len() >= 3 ==> encoded(data, format).len() >= 4,
        data.len() >= 3 ==> encoded(data, format)[3] != pad_symbol(),
{
    if data.len() >= 2 {
        let c = if data.len() == 2 { 0u8 } else { data[2] };
        lemma_sextets(data[0], data[1], c);
    }
    if data.len() >= 3 {
        lemma_sextets(data[0], data[1], data[2]);
    }
}

/// No two byte strings have the same encoding.
proof fn lemma_encoded_injective(a: Seq<u8>, b: Seq<u8>, format: Base64Format)
    requires
        encoded(a, format) == encoded(b, format),
    ensures
        a == b,
    decreases a.len(),
{
    let ea = encoded(a, format);
    lemma_encoded_shape(a, format);
    lemma_encoded_shape(b, format);
    if a.len() == 0 || b.len() == 0 {
        assert(a.len() == 0 && b.len() == 0);
        assert(a =~= b);
    } else if a.len() >= 3 && b.len() >= 3 {
        let ga = group(a[0], a[1], a[2], format);
        let gb = group(b[0], b[1], b[2], format);
        let ra = a.subrange(3, a.len() as int);
        let rb = b.subrange(3, b.len() as int);
        assert(ea =~= ga.push(symbol(a[2] & 63, format)) + encoded(ra, format));
        assert(ea =~= gb.push(symbol(b[2] & 63, format)) + encoded(rb, format));
        assert(ga =~= ea.subrange(0, 3));
        assert(gb =~= ea.subrange(0, 3));
        assert(ea[3] == symbol(a[2] & 63, format));
        assert(ea[3] == symbol(b[2] & 63, format));
        lemma_group_injective(a[0], a[1], a[2], b[0], b[1], b[2], format);
        assert(encoded(ra, format) =~= ea.subrange(4, ea.len() as int));
        assert(encoded(rb, format) =~= ea.subrange(4, ea.len() as int));
        lemma_encoded_injective(ra, rb, format);
        assert(a =~= a.subrange(0, 3) + ra);
        assert(b =~= b.subrange(0, 3) + rb);
        assert(a.subrange(0, 3) =~= b.subrange(0, 3));
    } else if a.len() == 1 && b.len() == 1 {
        assert(ea[0] == symbol(a[0] >> 2, format));
        assert(ea[1] == symbol((a[0] & 3) << 4, format)) by {
            assert(((a[0] & 3) << 4) | (0u8 >> 4) == (a[0] & 3) << 4) by (bit_vector);
        }
        assert(encoded(b, format)[1] == symbol((b[0] & 3) << 4, format)) by {
            assert(((b[0] & 3) << 4) | (0u8 >> 4) == (b[0] & 3) << 4) by (bit_vector);
        }
        lemma_group_injective(a[0], 0, 0, b[0], 0, 0, format);
        assert(a =~= b);
    } else if a.len() == 2 && b.len() == 2 {
        let ga = group(a[0], a[1], 0, format);
        let gb = group(b[0], b[1], 0, format);
        assert(ga =~= ea.subrange(0, 3));
        assert(gb =~= ea.subrange(0, 3));
        lemma_group_injective(a[0], a[1], 0, b[0], b[1], 0, format);
        assert(a =~= b);
    }
}

/// Decoding an encoding gives back the bytes that were encoded.
pub proof fn lemma_decode_encode(data: Seq<u8>, format: Base64Format)
    ensures
        decoded(encoded(data, format), format) == Some(data),
{
    let text = encoded(data, format);
    assert(exists|d: Seq<u8>| encoded(d, format) == text);
    let d = choose|d: Seq<u8>| encoded(d, format) == text;
    lemma_encoded_injective(d, data, format);
}

#[verifier::external_type_specification]
#[verifier::external_body]
pub struct ExDecodeError(base64::DecodeError);

/// Relies on `base64::Engine::encode` with the `STANDARD` engine: the padded
/// standard-alphabet encoding. It panics only where the output length overflows.
#[verifier::external_body]
fn encode_standard(data: &[u8]) -> (r: String)
    requires
        data@.len() <= usize::MAX / 2,
    ensures
        r@ == ascii_text(encoded(data@, Base64Format::Standard)),
{
    base64::Engine::encode(&base64::engine::general_purpose::STANDARD, data)
}

/// Relies on `base64::Engine::encode` with the `URL_SAFE_NO_PAD` engine: the
/// unpadded URL-safe encoding. It panics only where the output length overflows.
#[verifier::external_body]
fn encode_url_safe(data: &[u8]) -> (r: String)
    requires
        data@.len() <= usize::MAX / 2,
    ensures
        r@ == ascii_text(encoded(data@, Base64Format::Urlsafe)),
{
    base64::Engine::encode(&base64::engine::general_purpose::URL_SAFE_NO_PAD, data)
}

/// Relies on `base64::Engine::decode` with the `STANDARD` engine, whose
/// configuration demands canonical padding and zero trailing bits: it accepts
/// exactly the texts that its encoder produces.
#[verifier::external_body]
fn decode_standard(text: &[u8]) -> (r: Result<Vec<u8>, base64::DecodeError>)
    ensures
        r matches Ok(data) ==> encoded(data@, Base64Format::Standard) == text@,
        r is Err ==> forall|data: Seq<u8>| #[trigger]
            encoded(data, Base64Format::Standard) != text@,
{
    base64::Engine::decode(&base64::engine::general_purpose::STANDARD, text)
}

/// Relies on `base64::Engine::decode` with the `URL_SAFE_NO_PAD` engine, whose
/// configuration refuses padding and nonzero trailing bits: it accepts exactly the
/// texts that its encoder produces.
#[verifier::external_body]
fn decode_url_safe(text: &[u8]) -> (r: Result<Vec<u8>, base64::DecodeError>)
    ensures
        r matches Ok(data) ==> encoded(data@, Base64Format::Urlsafe) == text@,
        r is Err ==> forall|data: Seq<u8>| #[trigger]
            encoded(data, Base64Format::Urlsafe) != text@,
{
    base64::Engine::decode(&base64::engine::general_purpose::URL_SAFE_NO_PAD, text)
}

/// The base64 text of `data` in the given variant.
pub fn encode(data: &[u8], format: Base64Format) -> (r: String)
    requires
        data@.len() <= usize::MAX / 2,
    ensures
        r@ == ascii_text(encoded(data@, format)),
{
    match format {
        Base64Format::Standard => encode_standard(data),
        Base64Format::Urlsafe => encode_url_safe(data),
    }
}

/// The bytes that `text` encodes in the given variant; an error where it encodes none.
pub fn decode(text: &[u8], format: Base64Format) -> (r: Result<Vec<u8>, CodecError>)
    ensures
        match r {
            Ok(data) => decoded(text@, format) == Some(data@),
            Err(e) => decoded(text@, format) is None && e == CodecError::InvalidEncoding,
        },
{
    let result = match format {
        Base64Format::Standard => decode_standard(text),
        Base64Format::Urlsafe => decode_url_safe(text),
    };
    match result {
        Ok(data) => {
            proof {
                lemma_decode_encode(data@, format);
            }
            Ok(data)
        },
        Err(_) => {
            assert(!exists|data: Seq<u8>| encoded(data, format) == text@);
            Err(CodecError::InvalidEncoding)
        },
    }
}

/// Encodes the bytes read for `opts` in the variant it asks for.
pub fn process_encode(opts: &Base64EncodeOpts, input: &[u8]) -> (r: String)
    requires
        input@.len() <= usize::MAX / 2,
    ensures
        r@ == ascii_text(encoded(input@, opts.format)),
{
    encode(input, opts.format)
}

/// Decodes the text read for `opts` in the variant it asks for.
pub fn process_decode(opts: &Base64DecodeOpts, input: &[u8]) -> (r: Result<Vec<u8>, CodecError>)
    ensures
        match r {
            Ok(data) => decoded(input@, opts.format) == Some(data@),
            Err(e) => decoded(input@, opts.format) is None && e == CodecError::InvalidEncoding,
        },
{
    decode(input, opts.format)
}

/// The text form of a raw signature: URL-safe base64 without padding.
pub fn encode_signature(signature: &[u8]) -> (r: String)
    requires
        signature@.len() <= usize::MAX / 2,
    ensures
        r@ == ascii_text(encoded(signature@, Base64Format::Urlsafe)),
{
    encode(signature, Base64Format::Urlsafe)
}

/// The raw signature that a text form stands for. The length is not checked here.
pub fn decode_signature(text: &str) -> (r: Result<Vec<u8>, CodecError>)
    ensures
        match r {
            Ok(data) => decoded(encode_utf8(text@), Base64Format::Urlsafe) == Some(data@),
            Err(e) => decoded(encode_utf8(text@), Base64Format::Urlsafe) is None && e
                == CodecError::InvalidEncoding,
        },
{
    decode(text.as_bytes(), Base64Format::Urlsafe)
}

/// Whether `c` is one of the 64 symbols of the variant's alphabet.
pub open spec fn in_alphabet(c: u8, format: Base64Format) -> bool {
    ||| 'A' as u8 <= c <= 'Z' as u8
    ||| 'a' as u8 <= c <= 'z' as u8
    ||| '0' as u8 <= c <= '9' as u8
    ||| c == symbol(62, format)
    ||| c == symbol(63, format)
}

/// Whether `c` may stand in an encoding: a symbol, or padding where the variant pads.
pub open spec fn may_appear(c: u8, format: Base64Format) -> bool {
    in_alphabet(c, format) || (format == Base64Format::Standard && c == pad_symbol())
}

/// Every byte of an encoding is a symbol of the alphabet or padding.
proof fn lemma_encoded_symbols(data: Seq<u8>, format: Base64Format)
    ensures
        forall|i: int|
            0 <= i < encoded(data, format).len() ==> may_appear(
                #[trigger] encoded(data, format)[i],
                format,
            ),
    decreases data.len(),
{
    if data.len() >= 3 {
        let rest = data.subrange(3, data.len() as int);
        lemma_encoded_symbols(rest, format);
        let head = group(data[0], data[1], data[2], format).push(symbol(data[2] & 63, format));
        assert(encoded(data, format) =~= head + encoded(rest, format));
        assert forall|i: int| 0 <= i < encoded(data, format).len() implies may_appear(
            #[trigger] encoded(data, format)[i],
            format,
        ) by {
            if i >= 4 {
                assert(encoded(data, format)[i] == encoded(rest, format)[i - 4]);
            }
        }
    }
}

/// Every symbol of an encoding is an ASCII code.
pub proof fn lemma_encoded_ascii(data: Seq<u8>, format: Base64Format)
    ensures
        forall|i: int|
            0 <= i < encoded(data, format).len() ==> #[trigger] encoded(data, format)[i] < 128,
{
    lemma_encoded_symbols(data, format);
    assert forall|i: int| 0 <= i < encoded(data, format).len() implies #[trigger] encoded(
        data,
        format,
    )[i] < 128 by {
        assert(may_appear(encoded(data, format)[i], format));
    }
}

/// A text holding a byte outside the alphabet (or padding where the variant has
/// none) decodes to nothing.
pub proof fn lemma_foreign_byte_refused(text: Seq<u8>, i: int, format: Base64Format)
    requires
        0 <= i < text.len(),
        !may_appear(text[i], format),
    ensures
        decoded(text, format) is None,
{
    if exists|data: Seq<u8>| encoded(data, format) == text {
        let data = choose|data: Seq<u8>| encoded(data, format) == text;
        lemma_encoded_symbols(data, format);
        assert(may_appear(encoded(data, format)[i], format));
    }
}

/// How many symbols encode `n` bytes.
pub open spec fn encoded_len(n: nat, format: Base64Format) -> nat
    decreases n,
{
    if n == 0 {
        0
    } else if n < 3 {
        if format == Base64Format::Standard {
            4
        } else {
            n + 1
        }
    } else {
        4 + encoded_len((n - 3) as nat, format)
    }
}

/// The length of an encoding depends on the length of the data alone; it is never
/// one more than a multiple of four, and padding makes it a multiple of four.
proof fn lemma_encoded_len(data: Seq<u8>, format: Base64Format)
    ensures
        encoded(data, format).len() == encoded_len(data.len(), format),
        encoded_len(data.len(), format) % 4 != 1,
        format == Base64Format::Standard ==> encoded_len(data.len(), format) % 4 == 0,
    decreases data.len(),
{
    if data.len() >= 3 {
        lemma_encoded_len(data.subrange(3, data.len() as int), format);
    }
}

/// A text whose length no encoding has (one more than a multiple of four, or for
/// the padded variant anything but a multiple of four) decodes to nothing.
pub proof fn lemma_malformed_length_refused(text: Seq<u8>, format: Base64Format)
    requires
        text.len() % 4 == 1 || (format == Base64Format::Standard && text.len() % 4 != 0),
    ensures
        decoded(text, format) is None,
{
    if exists|data: Seq<u8>| encoded(data, format) == text {
        let data = choose|data: Seq<u8>| encoded(data, format) == text;
        lemma_encoded_len(data, format);
    }
}

/// A text of ASCII codes, written out as UTF-8, is those codes again.
pub proof fn lemma_ascii_text_bytes(codes: Seq<u8>)
    requires
        forall|i: int| 0 <= i < codes.len() ==> #[trigger] codes[i] < 128,
    ensures
        encode_utf8(ascii_text(codes)) == codes,
{
    let text = ascii_text(codes);
    assert(vstd::utf8::is_ascii_chars(text)) by {
        assert forall|i: int| 0 <= i < text.len() implies '\0' <= #[trigger] text[i]
            <= '\u{7f}' by {
            assert(codes[i] < 128);
        }
    }
    vstd::utf8::is_ascii_chars_encode_utf8(text);
    assert forall|i: int| 0 <= i < codes.len() implies #[trigger] encode_utf8(text)[i]
        == codes[i] by {
        assert(text[i] as u8 == encode_utf8(text)[i]);
        assert(codes[i] < 128);
    }
    assert(encode_utf8(text) =~= codes);
}

/// The text that `encode` returns, read back as bytes and decoded in the same
/// variant, gives the encoded bytes again.
pub proof fn lemma_text_round_trip(data: Seq<u8>, format: Base64Format)
    ensures
        decoded(encode_utf8(ascii_text(encoded(data, format))), format) == Some(data),
{
    lemma_encoded_ascii(data, format);
    lemma_ascii_text_bytes(encoded(data, format));
    lemma_decode_encode(data, format);
}

} // verus!
