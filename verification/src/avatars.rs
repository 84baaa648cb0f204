//! Avatar bookkeeping: file naming and the transport encoding of image
//! bytes.
//!
//! The avatar images themselves live on disk and are scanned, read and
//! copied by the shell around the crate.

use vstd::prelude::*;
use crate::native_resp::NativeResponseEvent;

verus! {

/// Where a stored avatar lives: the avatar folder, the id as file stem, and
/// the image's own extension.
pub fn build_avatar_path(custom_avatars_path: &str, ulid: &str, ext: &str) -> (r: String)
    ensures
        r@ == custom_avatars_path@ + "/"@ + ulid@ + "."@ + ext@,
{
    String::from_str(custom_avatars_path).concat("/").concat(ulid).concat(".").concat(ext)
}

/// The unpadded standard-alphabet base64 form of a byte sequence, as
/// computed by the `base64` crate.
pub uninterp spec fn base64_nopad_of(data: Seq<u8>) -> Seq<char>;

/// Relies on `base64::encode_config` with the standard alphabet and no
/// padding: the result is a function of the bytes alone, four characters
/// for every three bytes with the tail unpadded.
#[verifier::external_body]
pub fn encode_avatar_to_string(avatar: Vec<u8>) -> (r: String)
    ensures
        r@ == base64_nopad_of(avatar@),
        r@.len() == (avatar@.len() * 4 + 2) / 3,
{
    base64::encode_config(avatar, base64::STANDARD_NO_PAD)
}

/// The event that hands the extension the current avatar list.
pub fn avatars_updated_event(avatars: Vec<String>) -> (r: NativeResponseEvent)
    ensures
        r == (NativeResponseEvent::AvatarsUpdated { avatars: avatars }),
{
    NativeResponseEvent::AvatarsUpdated { avatars }
}

} // verus!
