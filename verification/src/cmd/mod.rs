//! The command dispatcher's decision layer.
//!
//! The process runs in two phases. During initialization only `Initialize`
//! is served; afterwards every command but a second `Initialize` is. The
//! responses for the two gates, and the error shown when the registry could
//! not be loaded at the start of a unit of work, are fixed here.

use vstd::prelude::*;
use crate::native_req::NativeMessage;
use crate::native_resp::NativeResponse;

pub mod add_avatars;
pub mod close_manager;
pub mod create_profile;
pub mod delete_avatar;
pub mod delete_profile;
pub mod get_avatar;
pub mod initialize;
pub mod launch_profile;
pub mod update_options;
pub mod update_profile;
pub mod update_profiles_order;

verus! {

/// The response for any non-`Initialize` command that arrives before
/// initialization completed.
pub fn not_ready_response() -> (r: NativeResponse)
    ensures
        r matches NativeResponse::Error { success, error, debug_msg } && success == false
            && error@ == "Connector is not ready yet!"@ && (debug_msg matches Some(d) && d@
            == "Connector has not been initialized."@),
{
    NativeResponse::error_with_dbg_str(
        "Connector is not ready yet!",
        "Connector has not been initialized.".to_owned(),
    )
}

/// The response for an `Initialize` that arrives after initialization
/// already completed.
pub fn reinitialize_response() -> (r: NativeResponse)
    ensures
        r matches NativeResponse::Error { success, error, debug_msg } && success == false
            && error@ == "Connector cannot be initialized multiple times!"@ && debug_msg is None,
{
    NativeResponse::error("Connector cannot be initialized multiple times!")
}

/// The response when the registry could not be loaded at the start of a
/// unit of work; the debug detail carries the load failure.
pub fn profiles_load_error_response(debug: String) -> (r: NativeResponse)
    ensures
        r matches NativeResponse::Error { success, error, debug_msg } && success == false
            && error@ == "Failed to load profile list."@ && debug_msg == Some(debug),
{
    NativeResponse::error_with_dbg_str("Failed to load profile list.", debug)
}

/// The steady-state gate: after initialization, `Initialize` is the one
/// command that is rejected outright; every other command proceeds.
pub fn steady_state_gate(msg: &NativeMessage) -> (r: Option<NativeResponse>)
    ensures
        match r {
            Some(resp) => msg is Initialize && (resp matches NativeResponse::Error {
                success,
                error,
                debug_msg,
            } && success == false && error@ == "Connector cannot be initialized multiple times!"@),
            None => !(msg is Initialize),
        },
{
    match msg {
        NativeMessage::Initialize(_) => Some(reinitialize_response()),
        _ => None,
    }
}

} // verus!
