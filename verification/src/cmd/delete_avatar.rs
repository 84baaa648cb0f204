//! `DeleteAvatar`: after the shell removed the image file, confirm and tell
//! every instance to rescan its avatars.

use vstd::prelude::*;
use crate::ipc::{BroadcastPlan, IpcCommand, notify_update_avatars};
use crate::native_resp::{NativeResponse, NativeResponseData};
use crate::profiles::ProfilesIniState;
use crate::profiles_order::entry_ids;

verus! {

/// The success response and the avatar-refresh broadcast for a completed
/// deletion.
pub fn process_cmd_delete_avatar(profiles: &ProfilesIniState) -> (r: (
    NativeResponse,
    BroadcastPlan,
))
    ensures
        r.0 == (NativeResponse::Success {
            success: true,
            data: NativeResponseData::AvatarDeleted,
        }),
        r.1.cmd == IpcCommand::UpdateAvatars,
        r.1.targets.deep_view() == entry_ids(profiles@.profile_entries),
{
    (NativeResponse::success(NativeResponseData::AvatarDeleted), notify_update_avatars(profiles))
}

} // verus!
