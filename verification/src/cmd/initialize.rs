//! `Initialize`: the handshake that binds this process to a profile.
//!
//! The extension hands over its id and, when it cached one, the profile id
//! from the previous session. Without a cached id the bound profile is
//! detected by scanning each profile's extension storage for a marker
//! carrying the extension's id — the shell performs the directory scan and
//! hands in one flag per profile. On the first ever run the bound profile
//! becomes the sole default. Success freezes the application state; failure
//! leaves it untouched so the next message may try again.

use vstd::prelude::*;
use crate::native_req::{NativeMessage, NativeMessageInitialize};
use crate::native_resp::{
    NativeResponse, NativeResponseData, NativeResponseEvent, profile_list_of, spec_profile_list,
};
use crate::options::native_notify_updated_options;
use crate::profiles::{
    JsonMap, ProfileEntry, ProfileEntryV, ProfilesIniState, at_most_one_default, clone_entry,
    clone_json_map, clone_opt_string, clone_state, find_index, find_profile_index,
    lemma_find_index_in_range,
};
use crate::state::{AppState, AppStateV};
use crate::strutil::str_eq;

verus! {

/// Index of the first marker hit, or a negative value when no profile's
/// storage carries the extension's marker.
pub open spec fn first_true(hits: Seq<bool>) -> int
    decreases hits.len(),
{
    if hits.len() == 0 {
        -1
    } else if hits[0] {
        0
    } else {
        let r = first_true(hits.drop_first());
        if r < 0 {
            -1
        } else {
            r + 1
        }
    }
}

proof fn lemma_first_true_some(hits: Seq<bool>, i: int)
    requires
        0 <= i < hits.len(),
        hits[i],
        forall|k: int| 0 <= k < i ==> !hits[k],
    ensures
        first_true(hits) == i,
    decreases i,
{
    if i > 0 {
        lemma_first_true_some(hits.drop_first(), i - 1);
    }
}

proof fn lemma_first_true_none(hits: Seq<bool>)
    requires
        forall|k: int| 0 <= k < hits.len() ==> !hits[k],
    ensures
        first_true(hits) == -1,
    decreases hits.len(),
{
    if hits.len() > 0 {
        lemma_first_true_none(hits.drop_first());
    }
}

/// The profile this process binds to: the id the extension cached, else the
/// id of the first profile whose storage carries the marker.
pub open spec fn detected_profile(
    entries: Seq<ProfileEntryV>,
    hits: Seq<bool>,
    cached_pid: Option<Seq<char>>,
) -> Option<Seq<char>> {
    match cached_pid {
        Some(p) => Some(p),
        None => {
            let k = first_true(hits);
            if k >= 0 {
                Some(entries[k].id)
            } else {
                None
            }
        },
    }
}

/// The entry list after the first-run promotion: the bound profile becomes
/// the default and every other entry's flag is cleared; an unknown id
/// changes nothing.
pub open spec fn promoted_entries(entries: Seq<ProfileEntryV>, pid: Seq<char>) -> Seq<
    ProfileEntryV,
> {
    let k = find_index(entries, pid);
    if k < 0 {
        entries
    } else {
        Seq::new(
            entries.len(),
            |i: int|
                if i == k {
                    ProfileEntryV { default: true, ..entries[i] }
                } else if entries[i].id != pid {
                    ProfileEntryV { default: false, ..entries[i] }
                } else {
                    entries[i]
                },
        )
    }
}

/// What an initialization attempt decides: the response, the frozen state
/// on success, an optional registry write (first-run promotion), and the
/// events announcing the new state.
pub struct InitOutcome {
    pub response: NativeResponse,
    /// The frozen application state; `None` leaves the current state in
    /// place for the next attempt.
    pub new_app_state: Option<AppState>,
    /// The registry to persist when the first run promoted a default.
    pub save_state: Option<ProfilesIniState>,
    /// Emitted after a success: the profile list, then the current options.
    pub events: Vec<NativeResponseEvent>,
}

/// The ensures shared by every successful initialization.
pub open spec fn init_success_outcome(
    o: InitOutcome,
    st: AppStateV,
    entries: Seq<ProfileEntryV>,
    backing: Seq<crate::inifile::IniSectionV>,
    pid: Seq<char>,
    extension_id: Seq<char>,
    global_options: Seq<(Seq<char>, Seq<char>)>,
    cached: bool,
) -> bool {
    let promote = st.first_run && find_index(entries, pid) >= 0;
    let evt_entries = if st.first_run {
        promoted_entries(entries, pid)
    } else {
        entries
    };
    &&& (o.response matches NativeResponse::Success { success, data } && success && data == (
    NativeResponseData::Initialized { cached: cached }))
    &&& (o.new_app_state matches Some(st2) && st2@ == (AppStateV {
        config: st.config,
        first_run: false,
        cur_profile_id: Some(pid),
        extension_id: st.extension_id,
        internal_extension_id: Some(extension_id),
        config_dir: st.config_dir,
        data_dir: st.data_dir,
    }))
    &&& (promote ==> (o.save_state matches Some(sv) && sv@.backing_sections == backing
        && sv@.profile_entries == promoted_entries(entries, pid)))
    &&& (promote && crate::profiles::distinct_ids(entries) ==> at_most_one_default(
        promoted_entries(entries, pid),
    ))
    &&& (!promote ==> o.save_state is None)
    &&& o.events@.len() == 2
    &&& (o.events@[0] matches NativeResponseEvent::ProfileList { current_profile_id, profiles }
        && current_profile_id@ == pid && profiles.deep_view() == spec_profile_list(evt_entries))
    &&& (o.events@[1] matches NativeResponseEvent::OptionsUpdated { options } && options.deep_view()
        == global_options)
}

/// Builds the promoted entry list for the first run.
fn promote_default(entries: &Vec<ProfileEntry>, pid: &str) -> (r: Vec<ProfileEntry>)
    ensures
        r.deep_view() == promoted_entries(entries.deep_view(), pid@),
{
    let ghost ge = entries.deep_view();
    let ghost target = promoted_entries(ge, pid@);
    let k = match find_profile_index(entries, pid) {
        Some(k) => k,
        None => {
            let mut out: Vec<ProfileEntry> = Vec::new();
            let n = entries.len();
            let mut i: usize = 0;
            while i < n
                invariant
                    0 <= i <= n,
                    n == entries@.len(),
                    ge == entries.deep_view(),
                    out.deep_view().len() == i,
                    forall|j: int| 0 <= j < i ==> out.deep_view()[j] == ge[j],
                decreases n - i,
            {
                let e = &entries[i];
                proof {
                    assert(e@ == ge[i as int]);
                }
                let ghost od0 = out.deep_view();
                out.push(clone_entry(e));
                proof {
                    assert(out.deep_view() =~= od0.push(ge[i as int]));
                }
                i = i + 1;
            }
            proof {
                assert(out.deep_view() =~= target);
            }
            return out;
        },
    };
    let n = entries.len();
    let mut out: Vec<ProfileEntry> = Vec::new();
    let mut i: usize = 0;
    while i < n
        invariant
            0 <= i <= n,
            n == entries@.len(),
            ge == entries.deep_view(),
            k < n,
            find_index(ge, pid@) == k,
            target == promoted_entries(ge, pid@),
            out.deep_view().len() == i,
            forall|j: int| 0 <= j < i ==> out.deep_view()[j] == target[j],
        decreases n - i,
    {
        let e = &entries[i];
        proof {
            assert(e@ == ge[i as int]);
        }
        let mut c = clone_entry(e);
        if i == k {
            c.default = true;
        } else if !str_eq(e.id.as_str(), pid) {
            c.default = false;
        }
        proof {
            assert(c@ == target[i as int]);
        }
        let ghost od0 = out.deep_view();
        out.push(c);
        proof {
            assert(out.deep_view() =~= od0.push(target[i as int]));
        }
        i = i + 1;
    }
    proof {
        assert(out.deep_view() =~= target);
    }
    out
}

/// Completes a successful initialization: freezes the state, promotes the
/// first-run default, and prepares the announcement events.
fn finish_init(
    app_state: &AppState,
    profiles: &ProfilesIniState,
    pid: &str,
    internal_ext_id: String,
    global_options: &JsonMap,
    cached: bool,
) -> (r: InitOutcome)
    ensures
        init_success_outcome(
            r,
            app_state@,
            profiles@.profile_entries,
            profiles@.backing_sections,
            pid@,
            internal_ext_id@,
            global_options.deep_view(),
            cached,
        ),
{
    let new_app_state = AppState {
        config: app_state.config.clone(),
        first_run: false,
        cur_profile_id: Some(pid.to_owned()),
        extension_id: clone_opt_string(&app_state.extension_id),
        internal_extension_id: Some(internal_ext_id),
        config_dir: app_state.config_dir.clone(),
        data_dir: app_state.data_dir.clone(),
    };
    let mut save_state: Option<ProfilesIniState> = None;
    let mut evt_profiles: Vec<crate::native_resp::NativeResponseProfileListProfileEntry>;
    if app_state.first_run {
        let promoted = promote_default(&profiles.profile_entries, pid);
        evt_profiles = profile_list_of(&promoted);
        match find_profile_index(&profiles.profile_entries, pid) {
            Some(_) => {
                let mut st = clone_state(profiles);
                st.profile_entries = promoted;
                proof {
                    let ge = profiles@.profile_entries;
                    lemma_find_index_in_range(ge, pid@);
                    let tgt = promoted_entries(ge, pid@);
                    let k = find_index(ge, pid@);
                    if crate::profiles::distinct_ids(ge) {
                        assert forall|a: int, b: int|
                            0 <= a < b < tgt.len() implies !(tgt[a].default && tgt[b].default)
                            by {
                            if tgt[a].default && tgt[b].default {
                                if a != k {
                                    assert(ge[a].id == pid@ && ge[k].id == pid@);
                                    assert(a == k);
                                }
                                if b != k {
                                    assert(ge[b].id == pid@ && ge[k].id == pid@);
                                    assert(b == k);
                                }
                            }
                        }
                    }
                }
                save_state = Some(st);
            },
            None => {
            },
        }
    } else {
        evt_profiles = profile_list_of(&profiles.profile_entries);
    }
    let ev1 = NativeResponseEvent::ProfileList {
        current_profile_id: pid.to_owned(),
        profiles: evt_profiles,
    };
    let ev2 = native_notify_updated_options(clone_json_map(global_options));
    let mut events: Vec<NativeResponseEvent> = Vec::new();
    events.push(ev1);
    events.push(ev2);
    let response = NativeResponse::success(NativeResponseData::Initialized { cached });
    InitOutcome { response, new_app_state: Some(new_app_state), save_state, events }
}

/// Decides an `Initialize` request: binds the cached or detected profile,
/// or reports that no profile could be detected, leaving the state free for
/// the next attempt.
pub fn process_cmd_initialize(
    app_state: &AppState,
    profiles: &ProfilesIniState,
    msg: &NativeMessageInitialize,
    marker_hits: &Vec<bool>,
    global_options: &JsonMap,
) -> (r: InitOutcome)
    requires
        marker_hits@.len() == profiles.profile_entries@.len(),
    ensures
        ({
            let chosen = detected_profile(
                profiles@.profile_entries,
                marker_hits@,
                msg.profile_id.deep_view(),
            );
            match chosen {
                Some(pid) => init_success_outcome(
                    r,
                    app_state@,
                    profiles@.profile_entries,
                    profiles@.backing_sections,
                    pid,
                    msg.extension_id@,
                    global_options.deep_view(),
                    msg.profile_id is Some,
                ),
                None => {
                    &&& (r.response matches NativeResponse::Error { success, error, .. }
                        && success == false && error@ == "Unable to detect current profile."@)
                    &&& r.new_app_state is None
                    &&& r.save_state is None
                    &&& r.events@.len() == 0
                },
            }
        }),
{
    match &msg.profile_id {
        Some(pid) => finish_init(
            app_state,
            profiles,
            pid.as_str(),
            msg.extension_id.clone(),
            global_options,
            true,
        ),
        None => {
            let n = marker_hits.len();
            let mut i: usize = 0;
            while i < n
                invariant
                    0 <= i <= n,
                    n == marker_hits@.len(),
                    n == profiles.profile_entries@.len(),
                    msg.profile_id is None,
                    forall|k: int| 0 <= k < i ==> !marker_hits@[k],
                decreases n - i,
            {
                if marker_hits[i] {
                    proof {
                        lemma_first_true_some(marker_hits@, i as int);
                    }
                    let e = &profiles.profile_entries[i];
                    proof {
                        assert(e@ == profiles@.profile_entries[i as int]);
                    }
                    let pid = e.id.clone();
                    proof {
                        assert(pid@ == profiles@.profile_entries[i as int].id);
                        assert(detected_profile(
                            profiles@.profile_entries,
                            marker_hits@,
                            msg.profile_id.deep_view(),
                        ) == Some(profiles@.profile_entries[i as int].id));
                    }
                    return finish_init(
                        app_state,
                        profiles,
                        pid.as_str(),
                        msg.extension_id.clone(),
                        global_options,
                        msg.profile_id.is_some(),
                    );
                }
                i = i + 1;
            }
            proof {
                lemma_first_true_none(marker_hits@);
            }
            InitOutcome {
                response: NativeResponse::error("Unable to detect current profile."),
                new_app_state: None,
                save_state: None,
                events: Vec::new(),
            }
        },
    }
}

/// The initialization-phase dispatcher: only `Initialize` is served; any
/// other command is told the connector is not ready.
pub fn execute_init_cmd(
    app_state: &AppState,
    msg: &NativeMessage,
    profiles: &ProfilesIniState,
    marker_hits: &Vec<bool>,
    global_options: &JsonMap,
) -> (r: InitOutcome)
    requires
        marker_hits@.len() == profiles.profile_entries@.len(),
    ensures
        (msg matches NativeMessage::Initialize(m) ==> ({
            let chosen = detected_profile(
                profiles@.profile_entries,
                marker_hits@,
                m.profile_id.deep_view(),
            );
            match chosen {
                Some(pid) => init_success_outcome(
                    r,
                    app_state@,
                    profiles@.profile_entries,
                    profiles@.backing_sections,
                    pid,
                    m.extension_id@,
                    global_options.deep_view(),
                    m.profile_id is Some,
                ),
                None => r.response matches NativeResponse::Error { success, error, .. }
                    && success == false && error@ == "Unable to detect current profile."@
                    && r.new_app_state is None && r.save_state is None,
            }
        })),
        (!(msg is Initialize) ==> ({
            &&& (r.response matches NativeResponse::Error { success, error, .. } && success
                == false && error@ == "Connector is not ready yet!"@)
            &&& r.new_app_state is None
            &&& r.save_state is None
            &&& r.events@.len() == 0
        })),
{
    match msg {
        NativeMessage::Initialize(m) => process_cmd_initialize(
            app_state,
            profiles,
            m,
            marker_hits,
            global_options,
        ),
        _ => InitOutcome {
            response: crate::cmd::not_ready_response(),
            new_app_state: None,
            save_state: None,
            events: Vec::new(),
        },
    }
}

} // verus!
