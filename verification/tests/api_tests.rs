use reed_solomon::api;
use reed_solomon::rs::{RsError, calc_syndromes, syndromes_zero};

#[test]
fn test_encode_length_mismatch() {
    let message: Vec<u8> = vec![1, 2, 3];
    let result = api::encode(4, 9, &message);
    assert_eq!(
        result.unwrap_err(),
        RsError::LengthMismatch { expected: 5, actual: 3 }
    );
}

#[test]
fn test_decode_length_mismatch() {
    let codeword: Vec<u8> = vec![0; 8];
    let result = api::decode(4, 9, &codeword);
    assert_eq!(
        result.unwrap_err(),
        RsError::LengthMismatch { expected: 9, actual: 8 }
    );
}

#[test]
fn test_encode_saturating_parity() {
    // More parity symbols than the declared size leaves room for zero data
    // bytes; an empty message is then the only accepted input.
    let empty: Vec<u8> = Vec::new();
    assert!(api::encode(8, 4, &empty).is_ok());
    let one: Vec<u8> = vec![7];
    assert_eq!(
        api::encode(8, 4, &one).unwrap_err(),
        RsError::LengthMismatch { expected: 0, actual: 1 }
    );
}

#[test]
fn test_hello_round_trip() {
    // nsym = 4, k = 5, n = 9: the codeword starts with the message and has
    // all-zero syndromes.
    let message: Vec<u8> = b"Hello".to_vec();
    let codeword = api::encode(4, 9, &message).unwrap();
    assert_eq!(codeword.len(), 9);
    assert_eq!(&codeword[..5], b"Hello");
    let syndromes = calc_syndromes(&codeword, 4);
    assert!(syndromes_zero(&syndromes));

    let (decoded, positions) = api::decode(4, 9, &codeword).unwrap();
    assert_eq!(decoded, message);
    assert!(positions.is_empty());
}

#[test]
fn test_hello_single_error() {
    let message: Vec<u8> = b"Hello".to_vec();
    let mut codeword = api::encode(4, 9, &message).unwrap();
    codeword[2] ^= 0x55;
    let (decoded, positions) = api::decode(4, 9, &codeword).unwrap();
    assert_eq!(decoded, message);
    assert_eq!(positions, vec![2]);
}

#[test]
fn test_hello_two_errors() {
    let message: Vec<u8> = b"Hello".to_vec();
    let mut codeword = api::encode(4, 9, &message).unwrap();
    codeword[1] ^= 0x12;
    codeword[4] ^= 0x34;
    let (decoded, mut positions) = api::decode(4, 9, &codeword).unwrap();
    assert_eq!(decoded, message);
    positions.sort();
    assert_eq!(positions, vec![1, 4]);
}

#[test]
fn test_hello_three_errors_fail() {
    // Three errors exceed floor(4 / 2) = 2: decode must refuse rather than
    // hand back a wrong message.
    let message: Vec<u8> = b"Hello".to_vec();
    let mut codeword = api::encode(4, 9, &message).unwrap();
    codeword[0] ^= 0x11;
    codeword[2] ^= 0x22;
    codeword[4] ^= 0x33;
    let result = api::decode(4, 9, &codeword);
    match result {
        Ok(_) => panic!("decode accepted an overloaded codeword"),
        Err(
            RsError::UncorrectableTrivialLocator
            | RsError::TooManyErrors
            | RsError::LocatorSearchMismatch
            | RsError::VerificationFailed,
        ) => {}
        Err(other) => panic!("unexpected decode failure kind: {:?}", other),
    }
}

#[test]
fn test_every_single_error_value_corrected() {
    // Flipping one byte by any nonzero XOR pattern decodes back.
    let message: Vec<u8> = b"Hi".to_vec();
    let codeword = api::encode(2, 4, &message).unwrap();
    for flip in 1u8..=255 {
        let mut corrupted = codeword.clone();
        corrupted[1] ^= flip;
        let (decoded, positions) = api::decode(2, 4, &corrupted).unwrap();
        assert_eq!(decoded, message);
        assert_eq!(positions, vec![1]);
    }
}
