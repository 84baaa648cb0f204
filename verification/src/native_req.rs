//! Commands the extension sends over the stdio protocol.
//!
//! The wire form is a JSON envelope decoded by the shell around the crate;
//! here each command is a plain value the dispatcher and handlers consume.

use vstd::prelude::*;
use crate::profiles::JsonMap;

verus! {

#[derive(Debug, PartialEq)]
pub struct NativeMessageInitialize {
    pub extension_id: String,
    pub extension_version: Option<String>,
    pub profile_id: Option<String>,
}

#[derive(Debug, PartialEq)]
pub struct NativeMessageLaunchProfile {
    pub profile_id: String,
    pub url: Option<String>,
}

#[derive(Debug, PartialEq)]
pub struct NativeMessageCreateProfile {
    pub name: String,
    pub avatar: String,
    pub options: JsonMap,
}

#[derive(Debug, PartialEq)]
pub struct NativeMessageDeleteProfile {
    pub profile_id: String,
}

#[derive(Debug, PartialEq)]
pub struct NativeMessageUpdateProfile {
    pub profile_id: String,
    pub name: String,
    pub avatar: Option<String>,
    pub options: JsonMap,
    pub default: bool,
}

#[derive(Debug, PartialEq)]
pub struct NativeMessageUpdateOptions {
    pub changes: JsonMap,
}

#[derive(Debug, PartialEq)]
pub struct NativeMessageGetAvatar {
    pub avatar: String,
}

#[derive(Debug, PartialEq)]
pub struct NativeMessageDeleteAvatar {
    pub avatar: String,
}

#[derive(Debug, PartialEq)]
pub struct NativeMessageUpdateProfileOrder {
    pub order: Vec<String>,
}

/// The closed set of commands; dispatch matches on it exhaustively.
#[derive(Debug, PartialEq)]
pub enum NativeMessage {
    Initialize(NativeMessageInitialize),
    LaunchProfile(NativeMessageLaunchProfile),
    CreateProfile(NativeMessageCreateProfile),
    DeleteProfile(NativeMessageDeleteProfile),
    UpdateProfile(NativeMessageUpdateProfile),
    UpdateOptions(NativeMessageUpdateOptions),
    CloseManager,
    AddAvatars,
    GetAvatar(NativeMessageGetAvatar),
    DeleteAvatar(NativeMessageDeleteAvatar),
    UpdateProfileOrder(NativeMessageUpdateProfileOrder),
}

/// One stdio frame's decoded content: the caller-chosen request id and the
/// command it carries.
#[derive(Debug, PartialEq)]
pub struct NativeMessageWrapper {
    pub id: i64,
    pub msg: NativeMessage,
}

} // verus!
