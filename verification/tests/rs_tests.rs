use reed_solomon::rs::{
    RsError, berlekamp_massey, build_generator, calc_syndromes, chien_search, decode, encode,
    forney, poly_eval_at, syndromes_zero,
};

#[test]
fn test_syndrome_zero_for_valid_codeword() {
    let nsym = 4;
    let gen = build_generator(nsym);
    let message: Vec<u8> = b"Hello".to_vec();
    let codeword = encode(&message, nsym, &gen);
    let syndromes = calc_syndromes(&codeword, nsym);
    assert!(
        syndromes_zero(&syndromes),
        "syndromes should be zero for valid codeword: {:?}",
        syndromes
    );
}

#[test]
fn test_encode_decode_no_errors() {
    let nsym = 4;
    let gen = build_generator(nsym);
    let message: Vec<u8> = b"Hello".to_vec();
    let codeword = encode(&message, nsym, &gen);

    let (decoded, positions) = decode(&codeword, nsym).unwrap();
    assert_eq!(decoded, message);
    assert!(positions.is_empty());
}

#[test]
fn test_encode_decode_single_error() {
    let nsym = 4;
    let gen = build_generator(nsym);
    let message: Vec<u8> = b"Hello".to_vec();
    let mut codeword = encode(&message, nsym, &gen);

    codeword[2] ^= 0x55;

    let (decoded, positions) = decode(&codeword, nsym).unwrap();
    assert_eq!(decoded, message);
    assert_eq!(positions, vec![2]);
}

#[test]
fn test_encode_decode_two_errors() {
    let nsym = 4;
    let gen = build_generator(nsym);
    let message: Vec<u8> = b"Hello".to_vec();
    let mut codeword = encode(&message, nsym, &gen);

    codeword[1] ^= 0x12;
    codeword[4] ^= 0x34;

    let (decoded, positions) = decode(&codeword, nsym).unwrap();
    assert_eq!(decoded, message);
    assert!(positions.contains(&1));
    assert!(positions.contains(&4));
}

#[test]
fn test_too_many_errors() {
    let nsym = 4;
    let gen = build_generator(nsym);
    let message: Vec<u8> = b"Hello".to_vec();
    let mut codeword = encode(&message, nsym, &gen);

    codeword[0] ^= 0x11;
    codeword[2] ^= 0x22;
    codeword[4] ^= 0x33;

    let result = decode(&codeword, nsym);
    assert!(result.is_err());
    match result.unwrap_err() {
        RsError::UncorrectableTrivialLocator
        | RsError::TooManyErrors
        | RsError::LocatorSearchMismatch
        | RsError::VerificationFailed => {}
        other => panic!("unexpected decode failure kind: {:?}", other),
    }
}

#[test]
fn test_generator_degree() {
    for nsym in 1usize..=254 {
        let gen = build_generator(nsym);
        assert_eq!(gen.len(), nsym + 1);
        assert_eq!(gen[nsym], 1);
    }
}

#[test]
fn test_generator_concrete() {
    // (x + 1)(x + 2) = x^2 + 3x + 2 with constant term first.
    let gen = build_generator(2);
    assert_eq!(gen, vec![2, 3, 1]);
}

#[test]
fn test_generator_roots_vanish() {
    // The generator vanishes at alpha^0 .. alpha^(nsym-1): 1, 2, 4, 8, ...
    let gen = build_generator(4);
    let mut x: u8 = 1;
    for _ in 0..4 {
        assert_eq!(poly_eval_at(&gen, x), 0);
        x = if x & 0x80 != 0 { (x << 1) ^ 0x1d } else { x << 1 };
    }
    assert_ne!(poly_eval_at(&gen, 16), 0);
}

#[test]
fn test_codeword_too_short() {
    let codeword: Vec<u8> = vec![1, 2];
    assert_eq!(decode(&codeword, 4).unwrap_err(), RsError::CodewordTooShort);
}

#[test]
fn test_three_errors_corrected_with_wide_parity() {
    let nsym = 6;
    let gen = build_generator(nsym);
    let message: Vec<u8> = b"abcdef".to_vec();
    let mut codeword = encode(&message, nsym, &gen);

    codeword[0] ^= 0x01;
    codeword[5] ^= 0x7f;
    codeword[10] ^= 0xee;

    let (decoded, mut positions) = decode(&codeword, nsym).unwrap();
    assert_eq!(decoded, message);
    positions.sort();
    assert_eq!(positions, vec![0, 5, 10]);
}

#[test]
fn test_pipeline_stages_single_error() {
    // Drive the decode stages by hand for a known single error.
    let nsym = 4;
    let gen = build_generator(nsym);
    let message: Vec<u8> = b"Hello".to_vec();
    let mut codeword = encode(&message, nsym, &gen);
    codeword[3] ^= 0x40;

    let syndromes = calc_syndromes(&codeword, nsym);
    assert!(!syndromes_zero(&syndromes));

    let sigma = berlekamp_massey(&syndromes);
    assert_eq!(sigma.len(), 2);
    assert_eq!(sigma[0], 1);

    let positions = chien_search(&sigma, codeword.len());
    assert_eq!(positions, vec![3]);

    let magnitudes = forney(&syndromes, &sigma, &positions, codeword.len());
    assert_eq!(magnitudes, vec![0x40]);
}
