//! `AddAvatars`: the user picks image files through the shell's native
//! dialog; each is size-checked and copied into the avatar folder under a
//! fresh id.

use vstd::prelude::*;
use crate::ipc::{BroadcastPlan, IpcCommand, notify_update_avatars};
use crate::native_resp::{NativeResponse, NativeResponseData};
use crate::profiles::ProfilesIniState;
use crate::profiles_order::entry_ids;

verus! {

/// The size cap for one avatar image, in bytes.
pub fn avatar_size_ok(file_len: u64) -> (r: bool)
    ensures
        r == (file_len <= 500000),
{
    file_len <= 500000
}

/// The success response and the avatar-refresh broadcast once every picked
/// file was stored.
pub fn process_add_avatars(profiles: &ProfilesIniState) -> (r: (NativeResponse, BroadcastPlan))
    ensures
        r.0 == (NativeResponse::Success {
            success: true,
            data: NativeResponseData::AvatarsUpdated,
        }),
        r.1.cmd == IpcCommand::UpdateAvatars,
        r.1.targets.deep_view() == entry_ids(profiles@.profile_entries),
{
    (NativeResponse::success(NativeResponseData::AvatarsUpdated), notify_update_avatars(profiles))
}

} // verus!
