//! What the decoder takes on trust: base64, UTF-8 validation and the block
//! cipher are not proved here. Each item below states what is believed of
//! the code it stands for.

use vstd::prelude::*;
use vstd::utf8::*;

verus! {

/// `base64::DecodeError`, carried through unopened.
#[verifier::external_type_specification]
#[verifier::external_body]
pub struct ExDecodeError(base64::DecodeError);

/// `crypto::symmetriccipher::SymmetricCipherError`, carried through unopened.
#[verifier::external_type_specification]
#[verifier::external_body]
pub struct ExSymmetricCipherError(crypto::symmetriccipher::SymmetricCipherError);

/// `core::str::Utf8Error`, carried through unopened.
#[verifier::external_type_specification]
#[verifier::external_body]
pub struct ExUtf8Error(core::str::Utf8Error);

/// The bytes that standard, padded base64 text stands for; `None` for text
/// that `base64::decode` rejects.
pub uninterp spec fn base64_decoding(input: Seq<u8>) -> Option<Seq<u8>>;

/// The plaintext of `data` under AES-128 in CBC mode with the given key and
/// initialisation vector, no padding removed.
pub uninterp spec fn aes128_cbc_plaintext(data: Seq<u8>, key: Seq<u8>, iv: Seq<u8>) -> Seq<u8>;

/// `core::str::from_utf8` succeeds exactly on valid UTF-8, and the string it
/// returns holds the characters that the bytes encode.
pub assume_specification[ core::str::from_utf8 ](bytes: &[u8]) -> (r: Result<
    &str,
    core::str::Utf8Error,
>)
    ensures
        match r {
            Ok(s) => valid_utf8(bytes@) && s@ == decode_utf8(bytes@),
            Err(_) => !valid_utf8(bytes@),
        },
;

/// `String::push` appends the character to the end of the string.
pub assume_specification[ String::push ](s: &mut String, c: char)
    ensures
        final(s)@ == old(s)@.push(c),
;

/// `base64::decode`: a function of its input alone. Its result is
/// `base64_decoding` of the input; an error stands for `None`.
#[verifier::external_body]
pub(crate) fn base64_decode(input: &[u8]) -> (r: Result<Vec<u8>, base64::DecodeError>)
    ensures
        match r {
            Ok(bytes) => base64_decoding(input@) == Some(bytes@),
            Err(_) => base64_decoding(input@) is None,
        },
{
    base64::decode(input)
}

/// `crypto::aes::cbc_decryptor` for a 128-bit key without padding, and one
/// call of its `decrypt` over the whole input into a buffer of the input's
/// length. The decryptor fails exactly when the input is not a whole number
/// of 16-byte blocks; otherwise it fills the buffer with the plaintext,
/// which `aes128_cbc_plaintext` names. Key and IV must be 16 bytes long: the
/// outside code does not check them.
#[verifier::external_body]
pub(crate) fn aes128_cbc_decrypt(data: &[u8], key: &[u8], iv: &[u8]) -> (r: Result<
    Vec<u8>,
    crypto::symmetriccipher::SymmetricCipherError,
>)
    requires
        key@.len() == 16,
        iv@.len() == 16,
    ensures
        r is Ok <==> data@.len() % 16 == 0,
        r matches Ok(plain) ==> plain@ == aes128_cbc_plaintext(data@, key@, iv@),
{
    let mut plain = vec![0u8; data.len()];
    let mut engine = crypto::aes::cbc_decryptor(
        crypto::aes::KeySize::KeySize128,
        key,
        iv,
        crypto::blockmodes::NoPadding,
    );
    let mut source = crypto::buffer::RefReadBuffer::new(data);
    let mut sink = crypto::buffer::RefWriteBuffer::new(&mut plain);
    match engine.decrypt(&mut source, &mut sink, true) {
        Ok(_) => Ok(plain),
        Err(e) => Err(e),
    }
}

} // verus!
