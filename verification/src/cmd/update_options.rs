//! `UpdateOptions`: merge a set of changes into the global options.
//!
//! The registry is re-read and the options file re-written by the shell
//! around each call; two overlapping writers are not merged — the last
//! write wins, as the storage model says.

use vstd::prelude::*;
use crate::ipc::{BroadcastPlan, IpcCommand, notify_options_changed};
use crate::native_req::NativeMessageUpdateOptions;
use crate::native_resp::{NativeResponse, NativeResponseData};
use crate::options::{apply_option_changes, merge_options};
use crate::profiles::{JsonMap, ProfilesIniState, clone_json_map};
use crate::profiles_order::entry_ids;

verus! {

#[derive(Debug)]
pub struct UpdateOptionsOutcome {
    /// The merged options, to be persisted as the new global options file.
    pub new_options: JsonMap,
    pub response: NativeResponse,
    pub notify: BroadcastPlan,
}

/// Applies the requested changes to the options read at the start of this
/// unit of work and reports the merged result.
pub fn process_cmd_update_options(
    profiles: &ProfilesIniState,
    current_options: &JsonMap,
    msg: &NativeMessageUpdateOptions,
) -> (r: UpdateOptionsOutcome)
    ensures
        r.new_options.deep_view() == merge_options(
            current_options.deep_view(),
            msg.changes.deep_view(),
        ),
        r.response matches NativeResponse::Success { success, data } && success && (data matches
            NativeResponseData::OptionsUpdated { options } && options.deep_view()
            == merge_options(current_options.deep_view(), msg.changes.deep_view())),
        r.notify.cmd == IpcCommand::UpdateOptions,
        r.notify.targets.deep_view() == entry_ids(profiles@.profile_entries),
{
    let new_options = apply_option_changes(current_options, &msg.changes);
    let response = NativeResponse::success(
        NativeResponseData::OptionsUpdated { options: clone_json_map(&new_options) },
    );
    let notify = notify_options_changed(profiles);
    UpdateOptionsOutcome { new_options, response, notify }
}

} // verus!
