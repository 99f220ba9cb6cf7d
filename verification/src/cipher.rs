//! The block cipher stage: AES-128 in CBC mode without a padding scheme,
//! followed by the removal of every zero byte from the plaintext.

use vstd::prelude::*;
use crate::codec::{aes128_cbc_decrypt, aes128_cbc_plaintext};
use crate::decoder::DlcDecoder;
use crate::error::DlcError;

verus! {

/// The length of a cipher block, of the key and of the IV, in bytes.
pub const BLOCK_LEN: usize = 16;

/// `bytes` without its zero bytes, the others in their order.
pub open spec fn without_zeros(bytes: Seq<u8>) -> Seq<u8> {
    bytes.filter(|b: u8| b != 0)
}

/// What decrypting `data` gives: a cipher error for a key or IV that is not
/// 16 bytes long or data that is not a whole number of blocks, else the
/// plaintext without its zero bytes.
pub open spec fn decrypted(data: Seq<u8>, key: Seq<u8>, iv: Seq<u8>) -> Result<Seq<u8>, DlcError> {
    if key.len() != BLOCK_LEN || iv.len() != BLOCK_LEN || data.len() % (BLOCK_LEN as nat) != 0 {
        Err(DlcError::CipherError)
    } else {
        Ok(without_zeros(aes128_cbc_plaintext(data, key, iv)))
    }
}

/// Removes every zero byte, wherever it stands.
pub fn strip_zero_bytes(bytes: &[u8]) -> (r: Vec<u8>)
    ensures
        r@ == without_zeros(bytes@),
{
    let mut out: Vec<u8> = Vec::new();
    let mut i: usize = 0;
    proof {
        reveal(Seq::filter);
    }
    while i < bytes.len()
        invariant
            i <= bytes@.len(),
            out@ == without_zeros(bytes@.take(i as int)),
        decreases bytes.len() - i,
    {
        let b = bytes[i];
        proof {
            let seen = bytes@.take(i as int);
            assert(bytes@.take(i + 1) =~= seen.push(b));
            seen.lemma_filter_push(b, |b: u8| b != 0);
        }
        if b != 0 {
            out.push(b);
        }
        i += 1;
    }
    assert(bytes@.take(bytes@.len() as int) =~= bytes@);
    out
}

impl DlcDecoder {
    /// Decrypts `data` and removes every zero byte from the plaintext. A key
    /// or an IV that is not 16 bytes long, and data that is not a whole
    /// number of blocks, are cipher errors.
    pub fn decrypt_raw_data(data: &[u8], key: &[u8], iv: &[u8]) -> (r: Result<Vec<u8>, DlcError>)
        ensures
            match r {
                Ok(plain) => decrypted(data@, key@, iv@) == Ok::<Seq<u8>, DlcError>(plain@),
                Err(e) => decrypted(data@, key@, iv@) == Err::<Seq<u8>, DlcError>(e),
            },
    {
        if key.len() != BLOCK_LEN || iv.len() != BLOCK_LEN {
            return Err(DlcError::CipherError);
        }
        match aes128_cbc_decrypt(data, key, iv) {
            Ok(plain) => Ok(strip_zero_bytes(plain.as_slice())),
            Err(_) => Err(DlcError::CipherError),
        }
    }
}

/// A key or an IV that is not 16 bytes long is a cipher error, and so is
/// data that is not a whole number of blocks.
pub proof fn bad_lengths_are_cipher_errors(data: Seq<u8>, key: Seq<u8>, iv: Seq<u8>)
    requires
        key.len() != BLOCK_LEN || iv.len() != BLOCK_LEN || data.len() % (BLOCK_LEN as nat) != 0,
    ensures
        decrypted(data, key, iv) == Err::<Seq<u8>, DlcError>(DlcError::CipherError),
{
}

/// Stripping leaves no zero byte behind.
pub proof fn without_zeros_has_no_zero(bytes: Seq<u8>)
    ensures
        forall|i: int| 0 <= i < without_zeros(bytes).len() ==> without_zeros(bytes)[i] != 0,
{
    let keep = |b: u8| b != 0;
    assert forall|i: int| 0 <= i < bytes.filter(keep).len() implies bytes.filter(keep)[i]
        != 0 by {
        bytes.lemma_filter_pred(keep, i);
    }
}

/// Stripping what was stripped changes nothing.
pub proof fn without_zeros_idempotent(bytes: Seq<u8>)
    ensures
        without_zeros(without_zeros(bytes)) == without_zeros(bytes),
    decreases bytes.len(),
{
    let keep = |b: u8| b != 0;
    reveal(Seq::filter);
    if bytes.len() > 0 {
        without_zeros_idempotent(bytes.drop_last());
        let rest = bytes.drop_last().filter(keep);
        if keep(bytes.last()) {
            rest.lemma_filter_push(bytes.last(), keep);
        }
    }
}

} // verus!
