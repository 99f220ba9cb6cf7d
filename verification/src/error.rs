//! The failures a decode can end in.

use vstd::prelude::*;

verus! {

broadcast use vstd::string::group_string_axioms;

/// Why a container could not be decoded.
#[derive(Debug, Clone, Copy, PartialEq, Eq, Structural)]
pub enum DlcError {
    /// The container is too short to hold the key material.
    CorruptedContainer,
    /// The key service could not be reached.
    TransportError,
    /// The key service answered with a body of the wrong length.
    UnexpectedServiceResponse,
    /// A mandatory base64 layer did not decode.
    Base64DecodeError,
    /// The cipher rejected its key, its IV or the length of its input.
    CipherError,
    /// Bytes that must be text are not valid UTF-8.
    EncodingError,
}

impl DlcError {
    /// The failure in words.
    pub open spec fn text(&self) -> Seq<char> {
        match self {
            DlcError::CorruptedContainer => "Corrupted data"@,
            DlcError::TransportError => "The key service could not be reached"@,
            DlcError::UnexpectedServiceResponse => "Unexpected answer of the key service"@,
            DlcError::Base64DecodeError => "Invalid base64"@,
            DlcError::CipherError => "Can't decrypt"@,
            DlcError::EncodingError => "Invalid UTF-8"@,
        }
    }

    /// The failure in words, for a caller to show.
    pub fn message(&self) -> (r: String)
        ensures
            r@ == self.text(),
    {
        match self {
            DlcError::CorruptedContainer => "Corrupted data".to_owned(),
            DlcError::TransportError => "The key service could not be reached".to_owned(),
            DlcError::UnexpectedServiceResponse => "Unexpected answer of the key service".to_owned(),
            DlcError::Base64DecodeError => "Invalid base64".to_owned(),
            DlcError::CipherError => "Can't decrypt".to_owned(),
            DlcError::EncodingError => "Invalid UTF-8".to_owned(),
        }
    }
}

} // verus!
