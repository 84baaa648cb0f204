//! The inter-instance bus: per-profile addressing, the fast local path, and
//! what each inbound bus command does.
//!
//! The transport itself (a request/reply socket per running instance) is
//! driven by the shell around the crate; everything it needs to decide —
//! which endpoint to dial, what bytes to send, whether a reply means
//! success, and how to react to a received command — is computed here.

use vstd::prelude::*;
use crate::native_resp::NativeResponseEvent;
use crate::profiles::{ProfilesIniState, ProfileEntry, JsonMap, ReadProfilesError, assoc_get, clone_entry, clone_json_map, find_index, find_profile_index};
use crate::profiles_order::{OrderData, entry_ids, profile_ids, native_notify_updated_profile_order};
use crate::state::AppState;
use crate::strutil::str_eq;

verus! {

broadcast use vstd::string::group_string_axioms;

/// The closed command set peers exchange; the reply is a single status
/// byte, zero for success.
#[derive(Debug, PartialEq)]
pub enum IpcCommand {
    FocusWindow(FocusWindowCommand),
    UpdateProfileList,
    CloseManager,
    UpdateOptions,
    UpdateAvatars,
    UpdateProfileOrder,
}

#[derive(Debug, PartialEq)]
pub struct FocusWindowCommand {
    pub url: Option<String>,
}

#[derive(Debug)]
pub enum IpcError {
    BadStatus,
    SerializationError(String),
    IoError(String),
    NetworkError(String),
}

/// The endpoint where the instance bound to a profile listens: the derived
/// id embedded in a per-profile socket (Unix) or named-pipe (Windows)
/// address.
pub fn get_ipc_socket_name(profile_id: &str, unix: bool) -> (r: String)
    ensures
        unix ==> r@ == "ipc:///tmp/fps-profile_"@ + profile_id@,
        !unix ==> r@ == "ipc://fps-profile_"@ + profile_id@,
{
    if unix {
        String::from_str("ipc:///tmp/fps-profile_").concat(profile_id)
    } else {
        String::from_str("ipc://fps-profile_").concat(profile_id)
    }
}

/// Whether a reply means the peer executed the command: a non-empty reply
/// whose first byte is zero.
pub fn ipc_reply_ok(reply: &Vec<u8>) -> (r: bool)
    ensures
        r == (reply@.len() > 0 && reply@[0] == 0),
{
    reply.len() > 0 && reply[0] == 0
}

/// How to deliver one command to one profile's instance.
pub enum SendIpcPlan {
    /// The target is this instance: execute the command in process, without
    /// touching the transport.
    Local,
    /// Dial the target's endpoint and send the encoded command.
    Remote { socket_name: String, payload: Vec<u8> },
}

/// Routes a command: the fast local path when the target is the sender's
/// own profile, the transport otherwise.
pub fn plan_send_ipc_cmd(
    cur_profile_id: Option<&String>,
    target_profile_id: &str,
    cmd: &IpcCommand,
    unix: bool,
) -> (r: SendIpcPlan)
    requires
        crate::ipc_codec::encodable(*cmd),
    ensures
        match r {
            SendIpcPlan::Local => cur_profile_id.deep_view() == Some(target_profile_id@),
            SendIpcPlan::Remote { socket_name, payload } => {
                &&& cur_profile_id.deep_view() != Some(target_profile_id@)
                &&& payload@ == crate::ipc_codec::encode_ipc_spec(*cmd)
                &&& (unix ==> socket_name@ == "ipc:///tmp/fps-profile_"@ + target_profile_id@)
                &&& (!unix ==> socket_name@ == "ipc://fps-profile_"@ + target_profile_id@)
            },
        },
{
    let is_local = match cur_profile_id {
        Some(cur) => str_eq(cur.as_str(), target_profile_id),
        None => false,
    };
    if is_local {
        SendIpcPlan::Local
    } else {
        SendIpcPlan::Remote {
            socket_name: get_ipc_socket_name(target_profile_id, unix),
            payload: crate::ipc_codec::encode_ipc_command(cmd),
        }
    }
}

/// A fan-out: the same command, best-effort, to each target in order. The
/// shell must not stop at an unreachable peer; a failed delivery is logged
/// and the loop continues.
#[derive(Debug)]
pub struct BroadcastPlan {
    pub cmd: IpcCommand,
    pub targets: Vec<String>,
}

/// Tells every known instance that the profile list changed.
pub fn notify_profile_changed(profiles: &ProfilesIniState) -> (r: BroadcastPlan)
    ensures
        r.cmd == IpcCommand::UpdateProfileList,
        r.targets.deep_view() == entry_ids(profiles@.profile_entries),
{
    BroadcastPlan { cmd: IpcCommand::UpdateProfileList, targets: profile_ids(profiles) }
}

/// Tells every known instance that the global options changed.
pub fn notify_options_changed(profiles: &ProfilesIniState) -> (r: BroadcastPlan)
    ensures
        r.cmd == IpcCommand::UpdateOptions,
        r.targets.deep_view() == entry_ids(profiles@.profile_entries),
{
    BroadcastPlan { cmd: IpcCommand::UpdateOptions, targets: profile_ids(profiles) }
}

/// Tells every known instance that the avatar store changed.
pub fn notify_update_avatars(profiles: &ProfilesIniState) -> (r: BroadcastPlan)
    ensures
        r.cmd == IpcCommand::UpdateAvatars,
        r.targets.deep_view() == entry_ids(profiles@.profile_entries),
{
    BroadcastPlan { cmd: IpcCommand::UpdateAvatars, targets: profile_ids(profiles) }
}

/// Tells every known instance that the display order changed.
pub fn notify_update_profile_order(profiles: &ProfilesIniState) -> (r: BroadcastPlan)
    ensures
        r.cmd == IpcCommand::UpdateProfileOrder,
        r.targets.deep_view() == entry_ids(profiles@.profile_entries),
{
    BroadcastPlan { cmd: IpcCommand::UpdateProfileOrder, targets: profile_ids(profiles) }
}

/// Every profile id except the excluded one.
pub open spec fn ids_except(
    entries: Seq<crate::profiles::ProfileEntryV>,
    excluded: Option<Seq<char>>,
) -> Seq<Seq<char>>
    decreases entries.len(),
{
    if entries.len() == 0 {
        Seq::empty()
    } else {
        let rest = ids_except(entries.drop_first(), excluded);
        if excluded == Some(entries[0].id) {
            rest
        } else {
            seq![entries[0].id] + rest
        }
    }
}

/// Tells every other instance to close its manager window; the sender's own
/// manager is the one asking, so it is skipped.
pub fn notify_close_manager(profiles: &ProfilesIniState, cur_profile_id: Option<&String>) -> (r:
    BroadcastPlan)
    ensures
        r.cmd == IpcCommand::CloseManager,
        r.targets.deep_view() == ids_except(
            profiles@.profile_entries,
            cur_profile_id.deep_view(),
        ),
{
    let ghost ge = profiles@.profile_entries;
    let n = profiles.profile_entries.len();
    let mut targets: Vec<String> = Vec::new();
    let mut i: usize = 0;
    proof {
        assert(ge.skip(0) =~= ge);
        assert(targets.deep_view() =~= Seq::<Seq<char>>::empty());
    }
    while i < n
        invariant
            0 <= i <= n,
            n == profiles.profile_entries@.len(),
            ge == profiles@.profile_entries,
            ids_except(ge, cur_profile_id.deep_view()) == targets.deep_view() + ids_except(
                ge.skip(i as int),
                cur_profile_id.deep_view(),
            ),
        decreases n - i,
    {
        let e = &profiles.profile_entries[i];
        proof {
            assert(e@ == ge[i as int]);
            assert(ge.skip(i as int)[0] == ge[i as int]);
            assert(ge.skip(i as int).drop_first() =~= ge.skip(i + 1));
        }
        let skip_this = match cur_profile_id {
            Some(cur) => str_eq(cur.as_str(), e.id.as_str()),
            None => false,
        };
        if !skip_this {
            let ghost td0 = targets.deep_view();
            targets.push(e.id.clone());
            proof {
                assert(targets.deep_view() =~= td0.push(ge[i as int].id));
                assert(ids_except(ge.skip(i as int), cur_profile_id.deep_view()) =~= seq![
                    ge[i as int].id,
                ] + ids_except(ge.skip(i + 1), cur_profile_id.deep_view()));
            }
        } else {
            proof {
                assert(ids_except(ge.skip(i as int), cur_profile_id.deep_view()) =~= ids_except(
                    ge.skip(i + 1),
                    cur_profile_id.deep_view(),
                ));
            }
        }
        i = i + 1;
    }
    proof {
        assert(ge.skip(n as int) =~= Seq::<crate::profiles::ProfileEntryV>::empty());
        assert(targets.deep_view() =~= ids_except(ge, cur_profile_id.deep_view()));
    }
    BroadcastPlan { cmd: IpcCommand::CloseManager, targets }
}

/// Asks the instance bound to `target_profile_id` to focus its window.
pub fn notify_focus_window(
    cur_profile_id: Option<&String>,
    target_profile_id: &str,
    url: Option<String>,
    unix: bool,
) -> (r: SendIpcPlan)
    ensures
        match r {
            SendIpcPlan::Local => cur_profile_id.deep_view() == Some(target_profile_id@),
            SendIpcPlan::Remote { socket_name, payload } => {
                &&& cur_profile_id.deep_view() != Some(target_profile_id@)
                &&& (unix ==> socket_name@ == "ipc:///tmp/fps-profile_"@ + target_profile_id@)
                &&& (!unix ==> socket_name@ == "ipc://fps-profile_"@ + target_profile_id@)
                &&& (crate::ipc_codec::encodable(
                    IpcCommand::FocusWindow(FocusWindowCommand { url: url }),
                ) ==> payload@ == crate::ipc_codec::encode_ipc_spec(
                    IpcCommand::FocusWindow(FocusWindowCommand { url: url }),
                ))
            },
        },
{
    let cmd = IpcCommand::FocusWindow(FocusWindowCommand { url });
    if encodable_url(&cmd) {
        plan_send_ipc_cmd(cur_profile_id, target_profile_id, &cmd, unix)
    } else {
        // a URL too large for the wire cannot be sent; treat the peer as
        // unreachable and let the caller fall back to a local launch
        match cur_profile_id {
            Some(cur) => {
                if str_eq(cur.as_str(), target_profile_id) {
                    SendIpcPlan::Local
                } else {
                    SendIpcPlan::Remote {
                        socket_name: get_ipc_socket_name(target_profile_id, unix),
                        payload: Vec::new(),
                    }
                }
            },
            None => SendIpcPlan::Remote {
                socket_name: get_ipc_socket_name(target_profile_id, unix),
                payload: Vec::new(),
            },
        }
    }
}

/// Whether the command's URL fits the wire format.
fn encodable_url(cmd: &IpcCommand) -> (r: bool)
    ensures
        r == crate::ipc_codec::encodable(*cmd),
{
    match cmd {
        IpcCommand::FocusWindow(f) => match &f.url {
            Some(u) => (u.as_str().as_bytes().len() as u64) < 0x100000000u64,
            None => true,
        },
        _ => true,
    }
}

/// Whether the window-focus workaround is enabled in the global options:
/// the flag's recorded JSON value is `true`.
pub open spec fn focus_workaround_enabled(options: Seq<(Seq<char>, Seq<char>)>) -> bool {
    assoc_get(options, "windowFocusWorkaround"@) == Some("true"@)
}

fn focus_workaround_enabled_exec(options: &JsonMap) -> (r: bool)
    ensures
        r == focus_workaround_enabled(options.deep_view()),
{
    let n = options.len();
    let mut i: usize = 0;
    while i < n
        invariant
            0 <= i <= n,
            n == options@.len(),
            forall|k: int|
                0 <= k < i ==> options.deep_view()[k].0 != "windowFocusWorkaround"@,
        decreases n - i,
    {
        let kv = &options[i];
        proof {
            assert(options.deep_view()[i as int] == (kv.0@, kv.1@));
        }
        if str_eq(kv.0.as_str(), "windowFocusWorkaround") {
            proof {
                crate::profiles::lemma_assoc_get_skip(
                    options.deep_view(),
                    "windowFocusWorkaround"@,
                    i as int,
                );
                assert(options.deep_view().skip(i as int)[0] == options.deep_view()[i as int]);
            }
            return str_eq(kv.1.as_str(), "true");
        }
        i = i + 1;
    }
    proof {
        crate::profiles::lemma_assoc_get_skip(
            options.deep_view(),
            "windowFocusWorkaround"@,
            n as int,
        );
    }
    false
}

/// What the receiving instance does with one inbound bus command.
#[derive(Debug)]
pub enum IpcHandleAction {
    /// Emit this event toward the extension.
    EmitEvent(NativeResponseEvent),
    /// Launch a fresh browser window on this profile pointed at `url`
    /// (window-focus workaround).
    ForkBrowser { profile: ProfileEntry, url: String },
    /// Rescan the avatar store and notify the extension of the result.
    RefreshAvatars,
    /// Nothing to do (the command could not be served; the cause is
    /// logged).
    Nothing,
}

/// The default page a workaround window opens when the peer asked for no
/// particular URL: the extension's own focus page.
pub open spec fn spec_winfocus_url(extension_id: Seq<char>) -> Seq<char> {
    "moz-extension://"@ + extension_id + "/src/entries/winfocus/index.html"@
}

/// Decides how this instance serves one inbound bus command, given the
/// state the shell read for it: the registry (as loaded), the global
/// options, and the persisted display order.
pub fn handle_ipc_cmd(
    cmd: IpcCommand,
    app_state: &AppState,
    profiles: &Result<ProfilesIniState, ReadProfilesError>,
    global_options: &JsonMap,
    order: &OrderData,
) -> (r: IpcHandleAction)
    ensures
        (cmd matches IpcCommand::FocusWindow(f) ==> match r {
            IpcHandleAction::ForkBrowser { profile, url } => {
                &&& app_state@.internal_extension_id is Some
                &&& app_state@.cur_profile_id is Some
                &&& focus_workaround_enabled(global_options.deep_view())
                &&& profiles matches Ok(p) && find_index(
                    p@.profile_entries,
                    app_state@.cur_profile_id.unwrap(),
                ) >= 0 && profile@ == p@.profile_entries[find_index(
                    p@.profile_entries,
                    app_state@.cur_profile_id.unwrap(),
                )]
                &&& url@ == (match f.url {
                    Some(u) => u@,
                    None => spec_winfocus_url(app_state@.internal_extension_id.unwrap()),
                })
            },
            IpcHandleAction::EmitEvent(ev) => ev == (NativeResponseEvent::FocusWindow {
                url: f.url,
            }),
            _ => false,
        }),
        (cmd is UpdateProfileList ==> match r {
            IpcHandleAction::EmitEvent(ev) => {
                &&& profiles is Ok
                &&& app_state@.cur_profile_id is Some
                &&& (ev matches NativeResponseEvent::ProfileList { current_profile_id, profiles: pl }
                    && current_profile_id@ == app_state@.cur_profile_id.unwrap()
                    && pl.deep_view() == crate::native_resp::spec_profile_list(
                    profiles.unwrap()@.profile_entries,
                ))
            },
            IpcHandleAction::Nothing => profiles is Err || app_state@.cur_profile_id is None,
            _ => false,
        }),
        (cmd is CloseManager ==> r == IpcHandleAction::EmitEvent(
            NativeResponseEvent::CloseManager,
        )),
        (cmd is UpdateOptions ==> match r {
            IpcHandleAction::EmitEvent(ev) => ev matches NativeResponseEvent::OptionsUpdated {
                options } && options.deep_view() == global_options.deep_view(),
            _ => false,
        }),
        (cmd is UpdateAvatars ==> r is RefreshAvatars),
        (cmd is UpdateProfileOrder ==> match r {
            IpcHandleAction::EmitEvent(ev) => ev matches
                NativeResponseEvent::ProfileOrderUpdated { order: o } && o.deep_view() == order@,
            _ => false,
        }),
{
    match cmd {
        IpcCommand::FocusWindow(f) => {
            handle_ipc_cmd_focus_window(app_state, f, profiles, global_options)
        },
        IpcCommand::UpdateProfileList => {
            match profiles {
                Ok(p) => match &app_state.cur_profile_id {
                    Some(pid) => IpcHandleAction::EmitEvent(
                        NativeResponseEvent::ProfileList {
                            current_profile_id: pid.clone(),
                            profiles: crate::native_resp::profile_list_of(&p.profile_entries),
                        },
                    ),
                    None => IpcHandleAction::Nothing,
                },
                Err(_) => IpcHandleAction::Nothing,
            }
        },
        IpcCommand::CloseManager => IpcHandleAction::EmitEvent(NativeResponseEvent::CloseManager),
        IpcCommand::UpdateOptions => IpcHandleAction::EmitEvent(
            NativeResponseEvent::OptionsUpdated { options: clone_json_map(global_options) },
        ),
        IpcCommand::UpdateAvatars => IpcHandleAction::RefreshAvatars,
        IpcCommand::UpdateProfileOrder => IpcHandleAction::EmitEvent(
            native_notify_updated_profile_order(order),
        ),
    }
}

/// The window-focus decision: with the workaround enabled and the bound
/// profile known, open a fresh window on it; otherwise ask the extension to
/// focus the existing one.
fn handle_ipc_cmd_focus_window(
    app_state: &AppState,
    cmd: FocusWindowCommand,
    profiles: &Result<ProfilesIniState, ReadProfilesError>,
    global_options: &JsonMap,
) -> (r: IpcHandleAction)
    ensures
        match r {
            IpcHandleAction::ForkBrowser { profile, url } => {
                &&& app_state@.internal_extension_id is Some
                &&& app_state@.cur_profile_id is Some
                &&& focus_workaround_enabled(global_options.deep_view())
                &&& profiles matches Ok(p) && find_index(
                    p@.profile_entries,
                    app_state@.cur_profile_id.unwrap(),
                ) >= 0 && profile@ == p@.profile_entries[find_index(
                    p@.profile_entries,
                    app_state@.cur_profile_id.unwrap(),
                )]
                &&& url@ == (match cmd.url {
                    Some(u) => u@,
                    None => spec_winfocus_url(app_state@.internal_extension_id.unwrap()),
                })
            },
            IpcHandleAction::EmitEvent(ev) => ev == (NativeResponseEvent::FocusWindow {
                url: cmd.url,
            }),
            _ => false,
        },
{
    if let (Some(extension_id), Some(cur_profile_id)) = (
        &app_state.internal_extension_id,
        &app_state.cur_profile_id,
    ) {
        if focus_workaround_enabled_exec(global_options) {
            if let Ok(p) = profiles {
                if let Some(k) = find_profile_index(&p.profile_entries, cur_profile_id.as_str()) {
                    let profile = clone_entry(&p.profile_entries[k]);
                    let url = match cmd.url {
                        Some(u) => u,
                        None => String::from_str("moz-extension://").concat(
                            extension_id.as_str(),
                        ).concat("/src/entries/winfocus/index.html"),
                    };
                    proof {
                        assert(p.profile_entries@[k as int]@ == p@.profile_entries[k as int]);
                    }
                    return IpcHandleAction::ForkBrowser { profile, url };
                }
            }
        }
    }
    IpcHandleAction::EmitEvent(NativeResponseEvent::FocusWindow { url: cmd.url })
}

} // verus!
