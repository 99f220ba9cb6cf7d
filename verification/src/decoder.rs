//! The decoder and its configuration.

use vstd::prelude::*;
use vstd::string::*;
use vstd::utf8::*;
use crate::cipher::decrypted;
use crate::codec::{base64_decode, base64_decoding};
use crate::container::{
    content_blob,
    key_segment,
    key_suffix,
    reply_key,
    split_container,
    KeyRequest,
    ServiceReply,
    KEY_END,
    KEY_START,
    KEY_SUFFIX_LEN,
    REPLY_LEN,
};
use crate::error::DlcError;
use crate::package::{DlcPackage, PackageModel};
use crate::parser::package_of;
use crate::text::{read_text, text_in};

verus! {

broadcast use vstd::string::group_string_axioms;

/// The address at which the key service is asked about `suffix` on behalf
/// of the application `app_name`.
pub open spec fn request_url(app_name: Seq<char>, suffix: Seq<char>) -> Seq<char> {
    "http://service.jdownloader.org/dlcrypt/service.php?srcType=dlc&destType="@ + app_name
        + "&data="@ + suffix
}

/// The client identification that the key service insists on.
pub open spec fn user_agent() -> Seq<char> {
    "Mozilla/5.3 (Windows; U; Windows NT 5.1; de; rv:1.8.1.6) Gecko/2232 Firefox/3.0.0.R"@
}

/// The wrapped content key that the service's reply holds. Key material that
/// is not UTF-8 cannot be asked about; a request that failed, an answer of
/// the wrong length and a key that is not base64 are refused in that order.
pub open spec fn wrapped_key(suffix: Seq<u8>, reply: Option<Seq<u8>>) -> Result<Seq<u8>, DlcError> {
    if !valid_utf8(suffix) {
        Err(DlcError::EncodingError)
    } else {
        match reply {
            None => Err(DlcError::TransportError),
            Some(body) => match reply_key(body) {
                Err(e) => Err(e),
                Ok(segment) => match base64_decoding(segment) {
                    Some(key) => Ok(key),
                    None => Err(DlcError::Base64DecodeError),
                },
            },
        }
    }
}

/// The text inside content that is base64 around ciphertext around base64.
pub open spec fn unwrapped_text(blob: Seq<u8>, key: Seq<u8>) -> Result<Seq<char>, DlcError> {
    match base64_decoding(blob) {
        None => Err(DlcError::Base64DecodeError),
        Some(cipher) => match decrypted(cipher, key, key) {
            Err(e) => Err(e),
            Ok(inner) => match base64_decoding(inner) {
                None => Err(DlcError::Base64DecodeError),
                Some(bytes) => match text_in(bytes) {
                    Some(text) => Ok(text),
                    None => Err(DlcError::EncodingError),
                },
            },
        },
    }
}

/// Decodes containers for one application of the key service: the
/// application's identifier and the key and IV under which the service
/// wraps the content key.
#[derive(Debug)]
pub struct DlcDecoder {
    jd_app_name: String,
    jd_decryption_key: Vec<u8>,
    jd_decryption_iv: Vec<u8>,
}

impl DlcDecoder {
    /// The application identifier sent to the key service.
    pub closed spec fn app_name(&self) -> Seq<char> {
        self.jd_app_name@
    }

    /// The key under which the key service wraps the content key.
    pub closed spec fn cipher_key(&self) -> Seq<u8> {
        self.jd_decryption_key@
    }

    /// The IV that goes with `cipher_key`.
    pub closed spec fn cipher_iv(&self) -> Seq<u8> {
        self.jd_decryption_iv@
    }

    /// A decoder with the stock application identifier, key and IV.
    pub fn new() -> (r: DlcDecoder)
        ensures
            r.app_name() == "pylo"@,
            r.cipher_key() == "cb99b5cbc24db398".spec_bytes(),
            r.cipher_iv() == "9bc24cb995cb8db3".spec_bytes(),
            r.cipher_key().len() == 16,
            r.cipher_iv().len() == 16,
    {
        proof {
            reveal_strlit("cb99b5cbc24db398");
            reveal_strlit("9bc24cb995cb8db3");
            is_ascii_spec_bytes("cb99b5cbc24db398");
            is_ascii_spec_bytes("9bc24cb995cb8db3");
        }
        DlcDecoder {
            jd_app_name: "pylo".to_owned(),
            jd_decryption_key: "cb99b5cbc24db398".as_bytes_vec(),
            jd_decryption_iv: "9bc24cb995cb8db3".as_bytes_vec(),
        }
    }

    /// The request for a container's key: none for a container that is too
    /// short or whose key material is not UTF-8.
    pub open spec fn request_for(&self, data: Seq<u8>) -> Result<Seq<char>, DlcError> {
        if data.len() <= KEY_SUFFIX_LEN {
            Err(DlcError::CorruptedContainer)
        } else {
            match text_in(key_suffix(data)) {
                Some(suffix) => Ok(request_url(self.app_name(), suffix)),
                None => Err(DlcError::EncodingError),
            }
        }
    }

    /// The text that a container holds, given the key service's reply.
    pub open spec fn text_of_container(&self, data: Seq<u8>, reply: Option<Seq<u8>>) -> Result<
        Seq<char>,
        DlcError,
    > {
        if data.len() <= KEY_SUFFIX_LEN {
            Err(DlcError::CorruptedContainer)
        } else {
            match wrapped_key(key_suffix(data), reply) {
                Err(e) => Err(e),
                Ok(wrapped) => match decrypted(wrapped, self.cipher_key(), self.cipher_iv()) {
                    Err(e) => Err(e),
                    Ok(key) => unwrapped_text(content_blob(data), key),
                },
            }
        }
    }

    /// The package that a container holds, given the key service's reply.
    pub open spec fn decoded(&self, data: Seq<u8>, reply: Option<Seq<u8>>) -> Result<
        PackageModel,
        DlcError,
    > {
        match self.text_of_container(data, reply) {
            Ok(text) => Ok(package_of(text)),
            Err(e) => Err(e),
        }
    }

    /// A decoder for another application of the key service.
    pub fn with_config(app_name: String, key: Vec<u8>, iv: Vec<u8>) -> (r: DlcDecoder)
        ensures
            r.app_name() == app_name@,
            r.cipher_key() == key@,
            r.cipher_iv() == iv@,
    {
        DlcDecoder { jd_app_name: app_name, jd_decryption_key: key, jd_decryption_iv: iv }
    }

    /// Says what to ask the key service for the key of this container.
    pub fn key_request(&self, data: &[u8]) -> (r: Result<KeyRequest, DlcError>)
        ensures
            match r {
                Ok(request) => {
                    &&& self.request_for(data@) == Ok::<Seq<char>, DlcError>(request.url@)
                    &&& request.user_agent@ == user_agent()
                },
                Err(e) => self.request_for(data@) == Err::<Seq<char>, DlcError>(e),
            },
    {
        let (_, suffix) = match split_container(data) {
            Ok(parts) => parts,
            Err(e) => { return Err(e); },
        };
        let suffix_text = match core::str::from_utf8(suffix) {
            Ok(text) => text,
            Err(_) => { return Err(DlcError::EncodingError); },
        };
        let mut url =
            "http://service.jdownloader.org/dlcrypt/service.php?srcType=dlc&destType=".to_owned();
        url.append(self.jd_app_name.as_str());
        url.append("&data=");
        url.append(suffix_text);
        let agent =
            "Mozilla/5.3 (Windows; U; Windows NT 5.1; de; rv:1.8.1.6) Gecko/2232 Firefox/3.0.0.R".to_owned();
        Ok(KeyRequest { url, user_agent: agent })
    }

    /// Takes the wrapped content key out of the key service's reply to the
    /// request for the key material `key`.
    pub fn get_jd_decryption_key(&self, key: &[u8], reply: &ServiceReply) -> (r: Result<
        Vec<u8>,
        DlcError,
    >)
        ensures
            match r {
                Ok(wrapped) => wrapped_key(key@, reply@) == Ok::<Seq<u8>, DlcError>(wrapped@),
                Err(e) => wrapped_key(key@, reply@) == Err::<Seq<u8>, DlcError>(e),
            },
    {
        match core::str::from_utf8(key) {
            Ok(_) => {},
            Err(_) => { return Err(DlcError::EncodingError); },
        }
        let body = match reply {
            ServiceReply::Body(body) => body,
            ServiceReply::NoAnswer => { return Err(DlcError::TransportError); },
        };
        let segment = match key_segment(body.as_slice()) {
            Ok(segment) => segment,
            Err(e) => { return Err(e); },
        };
        match base64_decode(segment) {
            Ok(wrapped) => Ok(wrapped),
            Err(_) => Err(DlcError::Base64DecodeError),
        }
    }

    /// Unwraps content with the content key, which serves as the IV too.
    pub fn unwrap_content(blob: &[u8], key: &[u8]) -> (r: Result<String, DlcError>)
        ensures
            match r {
                Ok(text) => unwrapped_text(blob@, key@) == Ok::<Seq<char>, DlcError>(text@),
                Err(e) => unwrapped_text(blob@, key@) == Err::<Seq<char>, DlcError>(e),
            },
    {
        let cipher = match base64_decode(blob) {
            Ok(cipher) => cipher,
            Err(_) => { return Err(DlcError::Base64DecodeError); },
        };
        let inner = match DlcDecoder::decrypt_raw_data(cipher.as_slice(), key, key) {
            Ok(inner) => inner,
            Err(e) => { return Err(e); },
        };
        let bytes = match base64_decode(inner.as_slice()) {
            Ok(bytes) => bytes,
            Err(_) => { return Err(DlcError::Base64DecodeError); },
        };
        match read_text(bytes.as_slice()) {
            Some(text) => Ok(text),
            None => Err(DlcError::EncodingError),
        }
    }

    /// Decrypts a container to its text, given the key service's reply to
    /// `key_request`.
    pub fn decrypt_dlc(&self, data: &[u8], reply: &ServiceReply) -> (r: Result<String, DlcError>)
        ensures
            match r {
                Ok(text) => self.text_of_container(data@, reply@) == Ok::<Seq<char>, DlcError>(
                    text@,
                ),
                Err(e) => self.text_of_container(data@, reply@) == Err::<Seq<char>, DlcError>(e),
            },
    {
        let (blob, suffix) = match split_container(data) {
            Ok(parts) => parts,
            Err(e) => { return Err(e); },
        };
        let wrapped = match self.get_jd_decryption_key(suffix, reply) {
            Ok(wrapped) => wrapped,
            Err(e) => { return Err(e); },
        };
        let key = match DlcDecoder::decrypt_raw_data(
            wrapped.as_slice(),
            self.jd_decryption_key.as_slice(),
            self.jd_decryption_iv.as_slice(),
        ) {
            Ok(key) => key,
            Err(e) => { return Err(e); },
        };
        DlcDecoder::unwrap_content(blob, key.as_slice())
    }

    /// Decodes a container, given the key service's reply to `key_request`.
    pub fn from_data(&self, data: &[u8], reply: &ServiceReply) -> (r: Result<DlcPackage, DlcError>)
        ensures
            match r {
                Ok(package) => self.decoded(data@, reply@) == Ok::<PackageModel, DlcError>(
                    package@,
                ),
                Err(e) => self.decoded(data@, reply@) == Err::<PackageModel, DlcError>(e),
            },
            data@.len() <= KEY_SUFFIX_LEN ==> (r matches Err(e) && e
                == DlcError::CorruptedContainer),
            data@.len() > KEY_SUFFIX_LEN && valid_utf8(key_suffix(data@)) && (reply@ matches Some(
                body,
            ) && body.len() != REPLY_LEN) ==> (r matches Err(e) && e
                == DlcError::UnexpectedServiceResponse),
    {
        let text = match self.decrypt_dlc(data, reply) {
            Ok(text) => text,
            Err(e) => { return Err(e); },
        };
        let mut dlc = match self.parse_header(text.as_str()) {
            Ok(dlc) => dlc,
            Err(e) => { return Err(e); },
        };
        match self.parse_body(&mut dlc, text.as_str()) {
            Ok(_) => {},
            Err(e) => { return Err(e); },
        }
        Ok(dlc)
    }
}

/// A container of 88 bytes or fewer is corrupted, whatever the key service
/// replied; there is nothing to ask the service either.
pub proof fn short_container_is_corrupted(
    decoder: DlcDecoder,
    data: Seq<u8>,
    reply: Option<Seq<u8>>,
)
    requires
        data.len() <= KEY_SUFFIX_LEN,
    ensures
        decoder.decoded(data, reply) == Err::<PackageModel, DlcError>(DlcError::CorruptedContainer),
        decoder.request_for(data) == Err::<Seq<char>, DlcError>(DlcError::CorruptedContainer),
{
}

/// Where there is nothing to ask the key service, decoding fails for the
/// same reason, whatever the reply.
pub proof fn no_request_no_package(decoder: DlcDecoder, data: Seq<u8>, reply: Option<Seq<u8>>)
    requires
        decoder.request_for(data) is Err,
    ensures
        decoder.decoded(data, reply) matches Err(e) && decoder.request_for(data) == Err::<
            Seq<char>,
            DlcError,
        >(e),
{
}

/// For a container that the key service could be asked about, a reply that
/// is not 33 bytes long is an unexpected response.
pub proof fn wrong_reply_length_is_refused(decoder: DlcDecoder, data: Seq<u8>, body: Seq<u8>)
    requires
        data.len() > KEY_SUFFIX_LEN,
        valid_utf8(key_suffix(data)),
        body.len() != REPLY_LEN,
    ensures
        decoder.decoded(data, Some(body)) == Err::<PackageModel, DlcError>(
            DlcError::UnexpectedServiceResponse,
        ),
{
}

/// For a container that the key service could be asked about, a request that
/// failed on the way is a transport error.
pub proof fn missing_reply_is_transport_error(decoder: DlcDecoder, data: Seq<u8>)
    requires
        data.len() > KEY_SUFFIX_LEN,
        valid_utf8(key_suffix(data)),
    ensures
        decoder.decoded(data, None) == Err::<PackageModel, DlcError>(DlcError::TransportError),
{
}

/// A key or content layer that is not base64 is a base64 error: the key
/// inside a well-formed reply, the content itself, and what the cipher
/// leaves of the content.
pub proof fn malformed_base64_is_an_error(
    suffix: Seq<u8>,
    body: Seq<u8>,
    blob: Seq<u8>,
    key: Seq<u8>,
)
    ensures
        valid_utf8(suffix) && body.len() == REPLY_LEN && base64_decoding(
            body.subrange(KEY_START as int, KEY_END as int),
        ) is None ==> wrapped_key(suffix, Some(body)) == Err::<Seq<u8>, DlcError>(
            DlcError::Base64DecodeError,
        ),
        base64_decoding(blob) is None ==> unwrapped_text(blob, key) == Err::<Seq<char>, DlcError>(
            DlcError::Base64DecodeError,
        ),
        base64_decoding(blob) matches Some(cipher) && decrypted(cipher, key, key) matches Ok(inner)
            && base64_decoding(inner) is None ==> unwrapped_text(blob, key) == Err::<
            Seq<char>,
            DlcError,
        >(DlcError::Base64DecodeError),
{
}

/// Whatever text a container holds is read without failure: decoding fails
/// only where decrypting does.
pub proof fn readable_text_always_parses(
    decoder: DlcDecoder,
    data: Seq<u8>,
    reply: Option<Seq<u8>>,
)
    ensures
        decoder.decoded(data, reply) is Ok <==> decoder.text_of_container(data, reply) is Ok,
{
}

} // verus!
