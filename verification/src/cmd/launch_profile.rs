//! `LaunchProfile`: find the requested profile; the shell then tries to
//! focus a running instance over the bus and falls back to launching a
//! fresh browser process.

use vstd::prelude::*;
use crate::native_req::NativeMessageLaunchProfile;
use crate::native_resp::NativeResponse;
use crate::profiles::{ProfileEntry, ProfilesIniState, clone_entry, find_index, find_profile_index};

verus! {

/// Resolves the launch target. The caller first asks the instance bound to
/// this profile to focus its window; only when that fails does it resolve
/// the binary and spawn, with the failure taxonomy of the launch planner.
pub fn process_cmd_launch_profile(
    profiles: &ProfilesIniState,
    msg: &NativeMessageLaunchProfile,
) -> (r: Result<ProfileEntry, NativeResponse>)
    ensures
        match r {
            Ok(e) => find_index(profiles@.profile_entries, msg.profile_id@) >= 0 && e@
                == profiles@.profile_entries[find_index(
                profiles@.profile_entries,
                msg.profile_id@,
            )],
            Err(resp) => find_index(profiles@.profile_entries, msg.profile_id@) < 0 && (resp
                matches NativeResponse::Error { success, error, .. } && success == false && error@
                == "No profile with the specified id could be found!"@),
        },
{
    match find_profile_index(&profiles.profile_entries, msg.profile_id.as_str()) {
        Some(k) => {
            let e = clone_entry(&profiles.profile_entries[k]);
            proof {
                assert(profiles.profile_entries@[k as int]@ == profiles@.profile_entries[k as int]);
            }
            Ok(e)
        },
        None => Err(NativeResponse::error("No profile with the specified id could be found!")),
    }
}

} // verus!
