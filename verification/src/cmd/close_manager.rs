//! `CloseManager`: ask every other running instance to close its manager.

use vstd::prelude::*;
use crate::ipc::{BroadcastPlan, IpcCommand, ids_except, notify_close_manager};
use crate::native_resp::{NativeResponse, NativeResponseData};
use crate::profiles::ProfilesIniState;

verus! {

/// Plans the close broadcast (the sender's own manager is excluded) and the
/// success response.
pub fn process_cmd_close_manager(
    profiles: &ProfilesIniState,
    cur_profile_id: Option<&String>,
) -> (r: (NativeResponse, BroadcastPlan))
    ensures
        r.0 == (NativeResponse::Success {
            success: true,
            data: NativeResponseData::ManagerClosed,
        }),
        r.1.cmd == IpcCommand::CloseManager,
        r.1.targets.deep_view() == ids_except(
            profiles@.profile_entries,
            cur_profile_id.deep_view(),
        ),
{
    let plan = notify_close_manager(profiles, cur_profile_id);
    (NativeResponse::success(NativeResponseData::ManagerClosed), plan)
}

} // verus!
