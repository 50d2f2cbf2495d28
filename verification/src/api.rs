use vstd::prelude::*;

use crate::rs::{
    RsError, all_zero, apply_corrections, bm_spec, chien_spec, decode_post, encode_spec,
    forney_spec, generator_spec, syndromes_spec,
};

verus! {

// The two operations that form the entire boundary surface of the codec:
// length-validated encode and decode over declared (nsize, nsym) parameters.
// A host binding layer around them only marshals bytes and reports errors.

/// Encode a message of exactly nsize - nsym bytes (saturating: a parity
/// count beyond nsize leaves no room for data) into an nsize-byte systematic
/// codeword.  A message of any other length is refused with LengthMismatch.
pub fn encode(nsym: usize, nsize: usize, message: &Vec<u8>) -> (res: Result<Vec<u8>, RsError>)
    requires
        nsym <= usize::MAX - 2,
    ensures
        ({
            let k: int = if nsym <= nsize {
                nsize - nsym
            } else {
                0
            };
            &&& ((res matches Err(e)) <==> message@.len() != k)
            &&& (res matches Err(e) ==> e == (RsError::LengthMismatch {
                expected: k as usize,
                actual: message@.len() as usize,
            }))
            &&& (res matches Ok(cw) ==> cw@ == encode_spec(
                message@,
                nsym as nat,
                generator_spec(nsym as nat),
            ) && cw@.len() == k + nsym && (nsym <= nsize ==> cw@.len() == nsize) && cw@.take(k)
                == message@)
        }),
{
    let k: usize = if nsym <= nsize {
        nsize - nsym
    } else {
        0
    };
    if message.len() != k {
        return Err(RsError::LengthMismatch { expected: k, actual: message.len() });
    }
    let generator = crate::rs::build_generator(nsym);
    let codeword = crate::rs::encode(message, nsym, &generator);
    proof {
        assert(codeword@.take(k as int) =~= message@);
    }
    Ok(codeword)
}

/// Decode an nsize-byte codeword carrying nsym parity symbols.  A byte
/// sequence of any other length is refused with LengthMismatch; otherwise
/// the decode pipeline runs and its result is handed through.
pub fn decode(nsym: usize, nsize: usize, codeword: &Vec<u8>) -> (res: Result<
    (Vec<u8>, Vec<usize>),
    RsError,
>)
    requires
        codeword@.len() >= nsym ==> nsym * codeword@.len() <= usize::MAX,
        codeword@.len() >= nsym ==> 2 * codeword@.len() + 2 <= usize::MAX,
    ensures
        codeword@.len() == nsize ==> decode_post(codeword@, nsym as nat, res),
        ((res matches Err(e) && e matches RsError::LengthMismatch { .. }) <==> codeword@.len()
            != nsize),
        (res matches Err(e) ==> (e matches RsError::LengthMismatch { expected, actual }
            ==> expected == nsize && actual == codeword@.len())),
{
    if codeword.len() != nsize {
        return Err(RsError::LengthMismatch { expected: nsize, actual: codeword.len() });
    }
    let res = crate::rs::decode(codeword, nsym);
    proof {
        let cw = codeword@;
        let n = cw.len() as int;
        let synd = syndromes_spec(cw, nsym as nat);
        let sigma = bm_spec(synd);
        crate::rs::lemma_bm_spec_len(synd);
        let deg = sigma.len() - 1;
        let positions = chien_spec(sigma, n);
        let mags = forney_spec(synd, sigma, positions, n);
        let corrected = apply_corrections(cw, positions, mags, positions.len() as int);
        if n < nsym {
            assert(res matches Err(e) && e == RsError::CodewordTooShort);
        } else if all_zero(synd) {
            assert(res is Ok);
        } else if deg == 0 {
            assert(res matches Err(e) && e == RsError::UncorrectableTrivialLocator);
        } else if 2 * deg > nsym {
            assert(res matches Err(e) && e == RsError::TooManyErrors);
        } else if positions.len() != deg {
            assert(res matches Err(e) && e == RsError::LocatorSearchMismatch);
        } else if !all_zero(syndromes_spec(corrected, nsym as nat)) {
            assert(res matches Err(e) && e == RsError::VerificationFailed);
        } else {
            assert(res is Ok);
        }
    }
    res
}

} // verus!
