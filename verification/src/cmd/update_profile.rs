//! `UpdateProfile`: rewrite a profile's display name, avatar, options and
//! (one-way) its default flag.
//!
//! Asking for `default` makes the target the sole default; not asking
//! leaves the flags as they are. The new name must not collide with any
//! other profile's name, trimmed and ASCII-case-insensitively.

use vstd::prelude::*;
use crate::ipc::{BroadcastPlan, IpcCommand, notify_profile_changed};
use crate::native_req::NativeMessageUpdateProfile;
use crate::native_resp::{
    NativeResponse, NativeResponseData, NativeResponseProfileListProfileEntry, ProfileListEntryV,
};
use crate::profiles::{
    ProfileEntry, ProfileEntryV, ProfilesIniState, at_most_one_default, check_name_conflict,
    clone_entry, clone_json_map, clone_opt_string, clone_state, find_index, find_profile_index,
    lemma_find_index_in_range, lemma_find_index_some, name_conflict,
};
use crate::profiles_order::entry_ids;
use crate::strutil::{str_eq, trim, trim_of};

verus! {

/// The entry list after an update aimed at `id`: the target takes the new
/// name, avatar and options, its default flag is set when requested and
/// kept otherwise, and a requested default clears every other entry's flag.
pub open spec fn spec_update_entries(
    entries: Seq<ProfileEntryV>,
    id: Seq<char>,
    name: Seq<char>,
    avatar: Option<Seq<char>>,
    options: Seq<(Seq<char>, Seq<char>)>,
    make_default: bool,
) -> Seq<ProfileEntryV> {
    let k = find_index(entries, id);
    Seq::new(
        entries.len(),
        |i: int|
            if i == k {
                ProfileEntryV {
                    id: entries[k].id,
                    name: name,
                    is_relative: entries[k].is_relative,
                    path: entries[k].path,
                    default: entries[k].default || make_default,
                    avatar: avatar,
                    options: options,
                }
            } else if make_default && entries[i].id != id {
                ProfileEntryV { default: false, ..entries[i] }
            } else {
                entries[i]
            },
    )
}

#[derive(Debug)]
pub struct UpdateProfileOutcome {
    /// The registry with the target rewritten, to be persisted.
    pub state: ProfilesIniState,
    pub response: NativeResponse,
    pub notify: BroadcastPlan,
}

/// Decides an update request: name collision and unknown id are rejected
/// before any mutation; otherwise the rewritten registry is handed back for
/// the shell to persist and announce.
pub fn process_cmd_update_profile(
    profiles: &ProfilesIniState,
    msg: &NativeMessageUpdateProfile,
) -> (r: Result<UpdateProfileOutcome, NativeResponse>)
    ensures
        match r {
            Ok(o) => {
                &&& !name_conflict(
                    profiles@.profile_entries,
                    trim_of(msg.name@),
                    Some(msg.profile_id@),
                )
                &&& find_index(profiles@.profile_entries, msg.profile_id@) >= 0
                &&& o.state@.backing_sections == profiles@.backing_sections
                &&& o.state@.profile_entries == spec_update_entries(
                    profiles@.profile_entries,
                    msg.profile_id@,
                    msg.name@,
                    msg.avatar.deep_view(),
                    msg.options.deep_view(),
                    msg.default,
                )
                &&& (o.response matches NativeResponse::Success { success, data } && success && (
                data matches NativeResponseData::ProfileUpdated { profile } && profile@ == (
                ProfileListEntryV {
                    id: msg.profile_id@,
                    name: msg.name@,
                    default: o.state@.profile_entries[find_index(
                        profiles@.profile_entries,
                        msg.profile_id@,
                    )].default,
                    avatar: msg.avatar.deep_view(),
                    options: msg.options.deep_view(),
                })))
                &&& o.notify.cmd == IpcCommand::UpdateProfileList
                &&& o.notify.targets.deep_view() == entry_ids(o.state@.profile_entries)
                &&& (msg.default && crate::profiles::distinct_ids(profiles@.profile_entries)
                    ==> at_most_one_default(o.state@.profile_entries))
                &&& (!msg.default && at_most_one_default(profiles@.profile_entries)
                    ==> at_most_one_default(o.state@.profile_entries))
            },
            Err(resp) => {
                &&& (resp matches NativeResponse::Error { success, .. } && success == false)
                &&& (name_conflict(
                    profiles@.profile_entries,
                    trim_of(msg.name@),
                    Some(msg.profile_id@),
                ) ==> error_text_of(resp)
                    == "A profile with this name already exists. Please choose another name."@)
                &&& (!name_conflict(
                    profiles@.profile_entries,
                    trim_of(msg.name@),
                    Some(msg.profile_id@),
                ) ==> find_index(profiles@.profile_entries, msg.profile_id@) < 0
                    && error_text_of(resp)
                    == "No profile with the specified id could be found!"@)
            },
        },
{
    let new_trimmed_name = trim(msg.name.as_str());
    if check_name_conflict(
        &profiles.profile_entries,
        new_trimmed_name,
        Some(msg.profile_id.as_str()),
    ) {
        return Err(
            NativeResponse::error(
                "A profile with this name already exists. Please choose another name.",
            ),
        );
    }
    let k = match find_profile_index(&profiles.profile_entries, msg.profile_id.as_str()) {
        Some(k) => k,
        None => {
            return Err(NativeResponse::error("No profile with the specified id could be found!"));
        },
    };
    let ghost ge = profiles@.profile_entries;
    let ghost target = spec_update_entries(
        ge,
        msg.profile_id@,
        msg.name@,
        msg.avatar.deep_view(),
        msg.options.deep_view(),
        msg.default,
    );
    let n = profiles.profile_entries.len();
    let mut new_entries: Vec<ProfileEntry> = Vec::new();
    let mut i: usize = 0;
    while i < n
        invariant
            0 <= i <= n,
            n == profiles.profile_entries@.len(),
            ge == profiles@.profile_entries,
            k < n,
            find_index(ge, msg.profile_id@) == k,
            target == spec_update_entries(
                ge,
                msg.profile_id@,
                msg.name@,
                msg.avatar.deep_view(),
                msg.options.deep_view(),
                msg.default,
            ),
            new_entries.deep_view().len() == i,
            forall|j: int| 0 <= j < i ==> new_entries.deep_view()[j] == target[j],
        decreases n - i,
    {
        let e = &profiles.profile_entries[i];
        proof {
            assert(e@ == ge[i as int]);
        }
        let item: ProfileEntry = if i == k {
            ProfileEntry {
                id: e.id.clone(),
                name: msg.name.clone(),
                is_relative: e.is_relative,
                path: e.path.clone(),
                default: e.default || msg.default,
                avatar: clone_opt_string(&msg.avatar),
                options: clone_json_map(&msg.options),
            }
        } else {
            let mut c = clone_entry(e);
            if msg.default && !str_eq(e.id.as_str(), msg.profile_id.as_str()) {
                c.default = false;
            }
            c
        };
        proof {
            assert(item@ == target[i as int]);
        }
        let ghost nd0 = new_entries.deep_view();
        new_entries.push(item);
        proof {
            assert(new_entries.deep_view() =~= nd0.push(target[i as int]));
        }
        i = i + 1;
    }
    let new_default = new_entries[k].default;
    let resp_profile = NativeResponseProfileListProfileEntry {
        id: msg.profile_id.clone(),
        name: msg.name.clone(),
        default: new_default,
        avatar: clone_opt_string(&msg.avatar),
        options: clone_json_map(&msg.options),
    };
    let mut state = clone_state(profiles);
    state.profile_entries = new_entries;
    proof {
        assert(state@.profile_entries =~= target);
        if msg.default && crate::profiles::distinct_ids(ge) {
            lemma_find_index_in_range(ge, msg.profile_id@);
            assert forall|i2: int, j2: int|
                0 <= i2 < j2 < target.len() implies !(target[i2].default && target[j2].default)
                by {
                if target[i2].default && target[j2].default {
                    if i2 != k as int {
                        assert(ge[i2].id == msg.profile_id@);
                        assert(ge[k as int].id == msg.profile_id@);
                        assert(i2 == k as int);
                    }
                    if j2 != k as int {
                        assert(ge[j2].id == msg.profile_id@);
                        assert(ge[k as int].id == msg.profile_id@);
                        assert(j2 == k as int);
                    }
                }
            }
        }
        if !msg.default && at_most_one_default(ge) {
            assert forall|i2: int, j2: int|
                0 <= i2 < j2 < target.len() implies !(target[i2].default && target[j2].default)
                by {
                assert(target[i2].default ==> ge[i2].default);
                assert(target[j2].default ==> ge[j2].default);
            }
        }
    }
    let notify = notify_profile_changed(&state);
    let response = NativeResponse::success(
        NativeResponseData::ProfileUpdated { profile: resp_profile },
    );
    Ok(UpdateProfileOutcome { state, response, notify })
}

/// The user-facing text of an error response; empty for a success.
pub open spec fn error_text_of(r: NativeResponse) -> Seq<char> {
    match r {
        NativeResponse::Error { error, .. } => error@,
        _ => Seq::empty(),
    }
}

/// Idempotence of `UpdateProfile`: applying the same update to its own
/// result changes nothing — the target is found at the same position, the
/// name check still passes, and the entry list is already in its final
/// form. A second identical request therefore persists the same state and
/// earns the same response.
pub proof fn lemma_update_profile_idempotent(
    entries: Seq<ProfileEntryV>,
    id: Seq<char>,
    name: Seq<char>,
    avatar: Option<Seq<char>>,
    options: Seq<(Seq<char>, Seq<char>)>,
    make_default: bool,
)
    requires
        find_index(entries, id) >= 0,
    ensures
        ({
            let once = spec_update_entries(entries, id, name, avatar, options, make_default);
            &&& find_index(once, id) == find_index(entries, id)
            &&& spec_update_entries(once, id, name, avatar, options, make_default) == once
            &&& (!name_conflict(entries, trim_of(name), Some(id)) ==> !name_conflict(
                once,
                trim_of(name),
                Some(id),
            ))
        }),
{
    let k = find_index(entries, id);
    let once = spec_update_entries(entries, id, name, avatar, options, make_default);
    lemma_find_index_in_range(entries, id);
    assert(forall|i: int| 0 <= i < once.len() ==> once[i].id == entries[i].id);
    lemma_find_index_some(once, id, k);
    let twice = spec_update_entries(once, id, name, avatar, options, make_default);
    assert(twice =~= once);
    if !name_conflict(entries, trim_of(name), Some(id)) {
        if name_conflict(once, trim_of(name), Some(id)) {
            let i = choose|i: int|
                0 <= i < once.len() && once[i].id != id && crate::strutil::eq_ignore_case_of(
                    trim_of(once[i].name),
                    trim_of(name),
                );
            assert(i != k);
            assert(once[i].name == entries[i].name);
        }
    }
}

} // verus!
