//! `GetAvatar`: hand the extension an avatar image, transport-encoded, with
//! its media type.
//!
//! Parsing the avatar id, the cache lookup and the file read are the
//! shell's work; the response is assembled here.

use vstd::prelude::*;
use crate::avatars::{base64_nopad_of, encode_avatar_to_string};
use crate::native_resp::{NativeResponse, NativeResponseData};
use crate::strutil::str_eq;

verus! {

/// The media type reported for an avatar file's extension.
pub open spec fn mime_for_extension(ext: Option<Seq<char>>) -> Seq<char> {
    match ext {
        Some(e) => if e == "jpg"@ || e == "jpeg"@ {
            "image/jpeg"@
        } else if e == "png"@ {
            "image/png"@
        } else {
            "application/octet-stream"@
        },
        None => "application/octet-stream"@,
    }
}

/// The success response for an avatar read from disk: the image bytes in
/// their transport encoding, plus the media type its extension implies.
pub fn process_get_avatar(avatar_data: Vec<u8>, extension: Option<&String>) -> (r: NativeResponse)
    ensures
        r matches NativeResponse::Success { success, data } && success && (data matches
            NativeResponseData::GetAvatarResult { data: d, mime } && d@ == base64_nopad_of(
            avatar_data@,
        ) && mime@ == mime_for_extension(extension.deep_view())),
{
    let mime: &str = match extension {
        Some(e) => {
            if str_eq(e.as_str(), "jpg") || str_eq(e.as_str(), "jpeg") {
                "image/jpeg"
            } else if str_eq(e.as_str(), "png") {
                "image/png"
            } else {
                "application/octet-stream"
            }
        },
        None => "application/octet-stream",
    };
    let encoded = encode_avatar_to_string(avatar_data);
    NativeResponse::success(
        NativeResponseData::GetAvatarResult { data: encoded, mime: mime.to_owned() },
    )
}

/// The response when the requested avatar id is not in the cache.
pub fn avatar_not_found_response() -> (r: NativeResponse)
    ensures
        r matches NativeResponse::Error { success, error, debug_msg } && success == false
            && error@ == "Avatar not found!"@ && debug_msg is None,
{
    NativeResponse::error("Avatar not found!")
}

} // verus!
