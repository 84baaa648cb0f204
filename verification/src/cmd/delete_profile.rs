//! `DeleteProfile`: remove a profile and keep a default alive.
//!
//! The entry leaves the registry; when it was the default, the first
//! remaining profile is promoted. The shell checks that the profile is not
//! in use and removes its folder between this decision and the save, then
//! re-derives the display order and announces the change.

use vstd::prelude::*;
use crate::ipc::{BroadcastPlan, IpcCommand, notify_profile_changed};
use crate::native_req::NativeMessageDeleteProfile;
use crate::native_resp::{NativeResponse, NativeResponseData};
use crate::profiles::{
    ProfileEntry, ProfileEntryV, ProfilesIniState, at_most_one_default, clone_entry, clone_state,
    find_index, find_profile_index, lemma_find_index_in_range,
};
use crate::profiles_order::entry_ids;

verus! {

/// The entry list after deleting position `k`: the entry is removed, and if
/// it carried the default flag the first remaining entry takes it.
pub open spec fn spec_delete_entries(entries: Seq<ProfileEntryV>, k: int) -> Seq<ProfileEntryV> {
    let rest = entries.remove(k);
    if entries[k].default && rest.len() > 0 {
        rest.update(0, ProfileEntryV { default: true, ..rest[0] })
    } else {
        rest
    }
}

#[derive(Debug)]
pub struct DeleteProfileOutcome {
    /// The registry without the deleted entry, to be persisted.
    pub state: ProfilesIniState,
    /// The removed entry; the shell resolves its folder to check for a
    /// running instance and to delete the files.
    pub removed: ProfileEntry,
    pub response: NativeResponse,
    pub notify: BroadcastPlan,
}

/// Decides a delete request. An unknown id is rejected; otherwise the entry
/// leaves the list, the default is re-established if needed, and the
/// remaining instances are told of the new list.
pub fn process_cmd_delete_profile(
    profiles: &ProfilesIniState,
    msg: &NativeMessageDeleteProfile,
) -> (r: Result<DeleteProfileOutcome, NativeResponse>)
    ensures
        match r {
            Ok(o) => {
                &&& find_index(profiles@.profile_entries, msg.profile_id@) >= 0
                &&& o.removed@ == profiles@.profile_entries[find_index(
                    profiles@.profile_entries,
                    msg.profile_id@,
                )]
                &&& o.state@.backing_sections == profiles@.backing_sections
                &&& o.state@.profile_entries == spec_delete_entries(
                    profiles@.profile_entries,
                    find_index(profiles@.profile_entries, msg.profile_id@),
                )
                &&& o.response == (NativeResponse::Success {
                    success: true,
                    data: NativeResponseData::ProfileDeleted,
                })
                &&& o.notify.cmd == IpcCommand::UpdateProfileList
                &&& o.notify.targets.deep_view() == entry_ids(o.state@.profile_entries)
                &&& (at_most_one_default(profiles@.profile_entries) ==> at_most_one_default(
                    o.state@.profile_entries,
                ))
            },
            Err(resp) => {
                &&& find_index(profiles@.profile_entries, msg.profile_id@) < 0
                &&& (resp matches NativeResponse::Error { success, error, .. } && success == false
                    && error@ == "No profile with the specified id could be found!"@)
            },
        },
{
    let k = match find_profile_index(&profiles.profile_entries, msg.profile_id.as_str()) {
        Some(k) => k,
        None => {
            return Err(NativeResponse::error("No profile with the specified id could be found!"));
        },
    };
    let ghost ge = profiles@.profile_entries;
    let ghost target = spec_delete_entries(ge, k as int);
    let n = profiles.profile_entries.len();
    let removed = clone_entry(&profiles.profile_entries[k]);
    proof {
        assert(profiles.profile_entries@[k as int]@ == ge[k as int]);
    }
    let mut new_entries: Vec<ProfileEntry> = Vec::new();
    let mut i: usize = 0;
    while i < n
        invariant
            0 <= i <= n,
            n == profiles.profile_entries@.len(),
            ge == profiles@.profile_entries,
            k < n,
            new_entries.deep_view().len() == (if i <= k {
                i as int
            } else {
                i - 1
            }),
            forall|j: int|
                0 <= j < new_entries.deep_view().len() ==> new_entries.deep_view()[j] == ge.remove(
                    k as int,
                )[j],
        decreases n - i,
    {
        let e = &profiles.profile_entries[i];
        proof {
            assert(e@ == ge[i as int]);
        }
        if i != k {
            let ghost nd0 = new_entries.deep_view();
            new_entries.push(clone_entry(e));
            proof {
                assert(new_entries.deep_view() =~= nd0.push(ge[i as int]));
                if i < k {
                    assert(ge.remove(k as int)[i as int] == ge[i as int]);
                } else {
                    assert(ge.remove(k as int)[i - 1] == ge[i as int]);
                }
            }
        }
        i = i + 1;
    }
    proof {
        assert(new_entries.deep_view() =~= ge.remove(k as int));
    }
    if removed.default && new_entries.len() > 0 {
        let mut first = clone_entry(&new_entries[0]);
        first.default = true;
        proof {
            assert(new_entries@[0]@ == ge.remove(k as int)[0]);
        }
        new_entries[0] = first;
        proof {
            assert(new_entries.deep_view() =~= target);
        }
    } else {
        proof {
            assert(new_entries.deep_view() =~= target);
        }
    }
    let mut state = clone_state(profiles);
    state.profile_entries = new_entries;
    proof {
        assert(state@.profile_entries =~= target);
        lemma_find_index_in_range(ge, msg.profile_id@);
        if at_most_one_default(ge) {
            let rest = ge.remove(k as int);
            assert(forall|a: int, b: int|
                0 <= a < b < rest.len() ==> !(#[trigger] rest[a].default && #[trigger] rest[
                b].default)) by {
                assert(forall|a: int|
                    0 <= a < rest.len() ==> #[trigger] rest[a] == (if a < k {
                        ge[a]
                    } else {
                        ge[a + 1]
                    }));
            }
            if ge[k as int].default && rest.len() > 0 {
                assert(forall|a: int| 0 <= a < rest.len() ==> !(#[trigger] rest[a].default))
                    by {
                    assert(forall|a: int|
                        0 <= a < rest.len() ==> #[trigger] rest[a] == (if a < k {
                            ge[a]
                        } else {
                            ge[a + 1]
                        }));
                };
                assert(at_most_one_default(target));
            } else {
                assert(at_most_one_default(target));
            }
        }
    }
    let notify = notify_profile_changed(&state);
    let response = NativeResponse::success(NativeResponseData::ProfileDeleted);
    Ok(DeleteProfileOutcome { state, removed, response, notify })
}

/// The response when the profile's folder is still locked by a running
/// browser instance.
pub fn profile_in_use_response() -> (r: NativeResponse)
    ensures
        r matches NativeResponse::Error { success, error, debug_msg } && success == false
            && debug_msg is None,
{
    NativeResponse::error(
        "This profile is in use and therefore cannot be deleted, close the profile and try again.\n\nAlternatively, your browser may have crashed the last time you used this profile and the profile was never properly shut down, you can try opening and closing the profile to resolve this issue.",
    )
}

} // verus!
