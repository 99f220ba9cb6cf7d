//! The raw container and the exchange with the key service.
//!
//! A container ends in 88 bytes of key material. The key service, asked with
//! that material, answers with 33 bytes: a tag, 24 characters of base64 and
//! a closing tag. This module cuts both apart; it sends nothing itself.

use vstd::prelude::*;
use vstd::slice::slice_subrange;
use crate::error::DlcError;

verus! {

/// The number of bytes of key material at the end of a container.
pub const KEY_SUFFIX_LEN: usize = 88;

/// The length of a well-formed answer of the key service.
pub const REPLY_LEN: usize = 33;

/// Where the base64 key starts in the service's answer.
pub const KEY_START: usize = 4;

/// Where the base64 key ends in the service's answer.
pub const KEY_END: usize = 28;

/// The content of a container: all but its last 88 bytes.
pub open spec fn content_blob(data: Seq<u8>) -> Seq<u8> {
    data.take(data.len() - KEY_SUFFIX_LEN)
}

/// The key material of a container: its last 88 bytes.
pub open spec fn key_suffix(data: Seq<u8>) -> Seq<u8> {
    data.skip(data.len() - KEY_SUFFIX_LEN)
}

/// The base64 key inside the service's answer, or why the answer is refused.
pub open spec fn reply_key(body: Seq<u8>) -> Result<Seq<u8>, DlcError> {
    if body.len() != REPLY_LEN {
        Err(DlcError::UnexpectedServiceResponse)
    } else {
        Ok(body.subrange(KEY_START as int, KEY_END as int))
    }
}

/// What came back from the key service.
#[derive(Debug, Clone, PartialEq, Eq)]
pub enum ServiceReply {
    /// The whole body of the answer.
    Body(Vec<u8>),
    /// No answer: the request failed on the way.
    NoAnswer,
}

impl View for ServiceReply {
    type V = Option<Seq<u8>>;

    open spec fn view(&self) -> Option<Seq<u8>> {
        match self {
            ServiceReply::Body(body) => Some(body@),
            ServiceReply::NoAnswer => None,
        }
    }
}

/// The request to send to the key service: a plain retrieval of `url`,
/// identified by `user_agent`.
#[derive(Debug, Clone, PartialEq, Eq)]
pub struct KeyRequest {
    pub url: String,
    pub user_agent: String,
}

/// Cuts a container into its content and its key material. A container of
/// 88 bytes or fewer is corrupted.
pub fn split_container(data: &[u8]) -> (r: Result<(&[u8], &[u8]), DlcError>)
    ensures
        match r {
            Ok((blob, suffix)) => {
                &&& data@.len() > KEY_SUFFIX_LEN
                &&& blob@ == content_blob(data@)
                &&& suffix@ == key_suffix(data@)
            },
            Err(e) => data@.len() <= KEY_SUFFIX_LEN && e == DlcError::CorruptedContainer,
        },
{
    if data.len() <= KEY_SUFFIX_LEN {
        return Err(DlcError::CorruptedContainer);
    }
    let mid: usize = data.len() - KEY_SUFFIX_LEN;
    let blob = slice_subrange(data, 0, mid);
    let suffix = slice_subrange(data, mid, data.len());
    Ok((blob, suffix))
}

/// Takes the base64 key out of the service's answer. An answer that is not
/// 33 bytes long is refused.
pub fn key_segment(body: &[u8]) -> (r: Result<&[u8], DlcError>)
    ensures
        match r {
            Ok(key) => reply_key(body@) == Ok::<Seq<u8>, DlcError>(key@),
            Err(e) => reply_key(body@) == Err::<Seq<u8>, DlcError>(e),
        },
{
    if body.len() != REPLY_LEN {
        return Err(DlcError::UnexpectedServiceResponse);
    }
    Ok(slice_subrange(body, KEY_START, KEY_END))
}

} // verus!
