use base64::engine::general_purpose::STANDARD;
use base64::Engine;
use inference_engine::utils::base64_encoder::{Base64Encoder, DecodeError};

const VECTORS: [(&str, &str); 7] = [
    ("", ""),
    ("f", "Zg=="),
    ("fo", "Zm8="),
    ("foo", "Zm9v"),
    ("foob", "Zm9vYg=="),
    ("fooba", "Zm9vYmE="),
    ("foobar", "Zm9vYmFy"),
];

#[test]
fn payloads_are_encoded_with_the_standard_alphabet_and_padding() {
    let encoder = Base64Encoder::new();
    for (plain, encoded) in VECTORS.iter() {
        assert_eq!(encoder.b64_encode_payload(plain.as_bytes()), *encoded);
        assert_eq!(encoder.b64_encode(plain.as_bytes()), *encoded);
    }
    assert_eq!(encoder.b64_encode_payload(&[0xfb, 0xff, 0xfe]), "+//+");
}

#[test]
fn payloads_are_decoded() {
    let encoder = Base64Encoder::new();
    for (plain, encoded) in VECTORS.iter() {
        assert_eq!(encoder.b64_decode_payload(encoded.as_bytes()), Ok(plain.as_bytes().to_vec()));
        assert_eq!(encoder.b64_decode(encoded.to_string()), Ok(plain.as_bytes().to_vec()));
    }
    assert_eq!(encoder.b64_decode_payload(b"+//+"), Ok(vec![0xfb, 0xff, 0xfe]));
}

#[test]
fn every_kind_goes_through_the_same_engine() {
    let encoder = Base64Encoder::new();
    let input = [0u8, 1, 2, 253, 254, 255, 17];
    let expected = STANDARD.encode(input);
    assert_eq!(expected, "AAEC/f7/EQ==");
    assert_eq!(encoder.b64_encode_payload(&input), expected);
    assert_eq!(encoder.b64_encode_signature(&input), expected);
    assert_eq!(encoder.b64_encode_public_key(&input), expected);
    assert_eq!(encoder.b64_encode_secret_key(&input), expected);
    assert_eq!(encoder.b64_decode_payload(expected.as_bytes()), Ok(input.to_vec()));
    assert_eq!(encoder.b64_decode_signature(expected.as_bytes()), Ok(input.to_vec()));
    assert_eq!(encoder.b64_decode_public_key(expected.as_bytes()), Ok(input.to_vec()));
    assert_eq!(encoder.b64_decode_secret_key(expected.as_bytes()), Ok(input.to_vec()));
}

#[test]
fn what_is_encoded_decodes_to_itself() {
    let encoder = Base64Encoder::new();
    let mut input = Vec::new();
    for n in 0..300u32 {
        let encoded = encoder.b64_encode_signature(&input);
        assert_eq!(encoded.len(), (input.len() + 2) / 3 * 4);
        assert_eq!(encoder.b64_decode_signature(encoded.as_bytes()), Ok(input.clone()));
        input.push((n * 7 % 256) as u8);
    }
}

#[test]
fn a_byte_that_is_no_symbol_is_named_with_its_place() {
    let encoder = Base64Encoder::new();
    assert_eq!(encoder.b64_decode_payload(b"Zm9v!mFy"), Err(DecodeError::InvalidByte(4, b'!')));
    assert_eq!(encoder.b64_decode_public_key(b"Zm-v"), Err(DecodeError::InvalidByte(2, b'-')));
    assert_eq!(encoder.b64_decode_secret_key(b"Zg==Zg=="), Err(DecodeError::InvalidByte(2, b'=')));
}

#[test]
fn a_length_that_fits_no_encoding_is_refused() {
    let encoder = Base64Encoder::new();
    assert_eq!(encoder.b64_decode_payload(b"Z"), Err(DecodeError::InvalidLength(1)));
    assert_eq!(encoder.b64_decode_signature(b"Zm9vY"), Err(DecodeError::InvalidLength(5)));
}

#[test]
fn a_last_symbol_with_bits_to_spare_is_refused() {
    let encoder = Base64Encoder::new();
    assert_eq!(
        encoder.b64_decode_payload(b"Zh=="),
        Err(DecodeError::InvalidLastSymbol(1, b'h'))
    );
}

#[test]
fn padding_that_is_missing_is_refused() {
    let encoder = Base64Encoder::new();
    assert_eq!(encoder.b64_decode_payload(b"Zg"), Err(DecodeError::InvalidPadding));
    assert_eq!(encoder.b64_decode_payload(b"Zg="), Err(DecodeError::InvalidPadding));
    assert_eq!(encoder.b64_decode_payload(b"Zm8"), Err(DecodeError::InvalidPadding));
}

#[test]
fn the_errors_are_those_of_the_engine() {
    let encoder = Base64Encoder::new();
    let inputs: [&[u8]; 8] = [b"Z", b"Zg", b"Zg=", b"Zh==", b"Zm9v!mFy", b"====", b"Zm9vY", b"Zg==\n"];
    for input in inputs.iter() {
        let expected = match STANDARD.decode(input) {
            Ok(bytes) => Ok(bytes),
            Err(base64::DecodeError::InvalidByte(at, byte)) => Err(DecodeError::InvalidByte(at, byte)),
            Err(base64::DecodeError::InvalidLength(len)) => Err(DecodeError::InvalidLength(len)),
            Err(base64::DecodeError::InvalidLastSymbol(at, byte)) => {
                Err(DecodeError::InvalidLastSymbol(at, byte))
            }
            Err(base64::DecodeError::InvalidPadding) => Err(DecodeError::InvalidPadding),
        };
        assert!(expected.is_err());
        assert_eq!(encoder.b64_decode_payload(input), expected);
    }
}
