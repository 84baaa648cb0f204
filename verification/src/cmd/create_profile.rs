//! `CreateProfile`: add a profile under a fresh on-disk folder.
//!
//! The display name must not collide (trimmed, ASCII-case-insensitively)
//! with any existing profile; the new profile's folder name embeds a fresh
//! ULID, its id is derived from that path, and it is never the default.
//! Creating the folder on disk, copying the extension into the new profile,
//! and persisting the state are the shell's steps around this decision.

use vstd::prelude::*;
use crate::ipc::{BroadcastPlan, IpcCommand, notify_profile_changed};
use crate::native_req::NativeMessageCreateProfile;
use crate::native_resp::{
    NativeResponse, NativeResponseData, NativeResponseProfileListProfileEntry,
    spec_profile_list_entry,
};
use crate::profiles::{
    ProfileEntry, ProfileEntryV, ProfilesIniState, at_most_one_default, calc_profile_id,
    check_name_conflict, clone_json_map, clone_state, id_of, name_conflict,
};
use crate::profiles_order::entry_ids;
use crate::strutil::{starts_with_of, trim, trim_of};

verus! {

broadcast use vstd::string::group_string_axioms;

/// Relies on `ulid::Ulid::new` and its Crockford base32 rendering: a fresh
/// identifier as 26 characters. Which value comes back depends on the clock
/// and on randomness, so nothing more is assumed of it.
#[verifier::external_body]
fn new_ulid_string() -> (r: String)
    ensures
        r@.len() == 26,
{
    ulid::Ulid::new().to_string()
}

/// The entry a successful create appends: located under the fresh relative
/// path, named by the trimmed request, holding the request's avatar and
/// options, and never the default.
pub open spec fn spec_new_profile_entry(
    path: Seq<char>,
    trimmed_name: Seq<char>,
    avatar: Seq<char>,
    options: Seq<(Seq<char>, Seq<char>)>,
) -> ProfileEntryV {
    ProfileEntryV {
        id: id_of(path, true),
        name: trimmed_name,
        is_relative: true,
        path: path,
        default: false,
        avatar: Some(avatar),
        options: options,
    }
}

#[derive(Debug)]
pub struct CreateProfileOutcome {
    /// The registry with the new entry appended, to be persisted.
    pub state: ProfilesIniState,
    pub response: NativeResponse,
    pub notify: BroadcastPlan,
}

/// Decides a create request. A name collision rejects the request before
/// anything is touched; otherwise the new entry is appended and the new
/// registry is handed back for the shell to persist and announce.
pub fn process_cmd_create_profile(
    profiles: &ProfilesIniState,
    msg: &NativeMessageCreateProfile,
) -> (r: Result<CreateProfileOutcome, NativeResponse>)
    ensures
        match r {
            Ok(o) => {
                &&& !name_conflict(profiles@.profile_entries, trim_of(msg.name@), None)
                &&& o.state@.backing_sections == profiles@.backing_sections
                &&& o.state@.profile_entries.len() == profiles@.profile_entries.len() + 1
                &&& o.state@.profile_entries.take(profiles@.profile_entries.len() as int)
                    == profiles@.profile_entries
                &&& ({
                    let e = o.state@.profile_entries.last();
                    e == spec_new_profile_entry(
                        e.path,
                        trim_of(msg.name@),
                        msg.avatar@,
                        msg.options.deep_view(),
                    ) && starts_with_of(e.path, "profile-"@) && e.path.len() == 34
                })
                &&& (o.response matches NativeResponse::Success { success, data } && success && (
                data matches NativeResponseData::ProfileCreated { profile } && profile@
                    == spec_profile_list_entry(o.state@.profile_entries.last())))
                &&& o.notify.cmd == IpcCommand::UpdateProfileList
                &&& o.notify.targets.deep_view() == entry_ids(o.state@.profile_entries)
                &&& (at_most_one_default(profiles@.profile_entries) ==> at_most_one_default(
                    o.state@.profile_entries,
                ))
            },
            Err(resp) => {
                &&& name_conflict(profiles@.profile_entries, trim_of(msg.name@), None)
                &&& (resp matches NativeResponse::Error { success, error, .. } && success == false
                    && error@
                    == "A profile with this name already exists. Please choose another name."@)
            },
        },
{
    let new_trimmed_name = trim(msg.name.as_str());
    if check_name_conflict(&profiles.profile_entries, new_trimmed_name, None) {
        return Err(
            NativeResponse::error(
                "A profile with this name already exists. Please choose another name.",
            ),
        );
    }
    let suffix = new_ulid_string();
    let new_profile_path = String::from_str("profile-").concat(suffix.as_str());
    proof {
        reveal_strlit("profile-");
        assert("profile-"@.len() == 8);
        assert(new_profile_path@.subrange(0, 8) =~= "profile-"@);
    }
    let id = calc_profile_id(new_profile_path.as_str(), true);
    let new_profile = ProfileEntry {
        id: id,
        name: new_trimmed_name.to_owned(),
        is_relative: true,
        path: new_profile_path,
        default: false,
        avatar: Some(msg.avatar.clone()),
        options: clone_json_map(&msg.options),
    };
    let resp_entry = NativeResponseProfileListProfileEntry::from_profile_entry(&new_profile);
    let mut state = clone_state(profiles);
    let ghost old_entries = profiles@.profile_entries;
    state.profile_entries.push(new_profile);
    proof {
        assert(state@.profile_entries.take(old_entries.len() as int) =~= old_entries);
        if at_most_one_default(old_entries) {
            assert forall|i: int, j: int|
                0 <= i < j < state@.profile_entries.len() implies !(
            state@.profile_entries[i].default && state@.profile_entries[j].default) by {
                if j < old_entries.len() {
                    assert(state@.profile_entries[i] == old_entries[i]);
                    assert(state@.profile_entries[j] == old_entries[j]);
                } else {
                    assert(state@.profile_entries[j] == state@.profile_entries.last());
                }
            }
        }
    }
    let notify = notify_profile_changed(&state);
    let response = NativeResponse::success(
        NativeResponseData::ProfileCreated { profile: resp_entry },
    );
    Ok(CreateProfileOutcome { state, response, notify })
}

} // verus!
