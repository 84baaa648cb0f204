//! Responses and unsolicited events sent back over the stdio protocol.

use vstd::prelude::*;
use crate::profiles::{JsonMap, ProfileEntry, ProfileEntryV, clone_json_map, clone_opt_string};

verus! {

/// What a request gets back: a typed success payload, or an error with a
/// user-facing text plus an optional debug detail; events share the channel
/// under the reserved id.
#[derive(Debug, PartialEq)]
pub enum NativeResponse {
    Error { success: bool, error: String, debug_msg: Option<String> },
    Success { success: bool, data: NativeResponseData },
    Event(NativeResponseEvent),
}

/// The id that marks a frame as an event rather than a response.
pub const NATIVE_RESP_ID_EVENT: i64 = -1;

#[derive(Debug, PartialEq)]
pub struct NativeResponseWrapper {
    pub id: i64,
    pub resp: NativeResponse,
}

impl NativeResponseWrapper {
    /// Wraps an event under the reserved event id.
    pub fn event(event: NativeResponseEvent) -> (r: NativeResponseWrapper)
        ensures
            r.id == NATIVE_RESP_ID_EVENT,
            r.resp == NativeResponse::Event(event),
    {
        NativeResponseWrapper { id: NATIVE_RESP_ID_EVENT, resp: NativeResponse::event(event) }
    }
}

impl NativeResponse {
    /// An error with no debug detail.
    pub fn error(msg: &str) -> (r: NativeResponse)
        ensures
            r matches NativeResponse::Error { success, error, debug_msg } && success == false
                && error@ == msg@ && debug_msg is None,
    {
        NativeResponse::Error { success: false, error: msg.to_owned(), debug_msg: None }
    }

    /// An error carrying the rendered debug form of a failure.
    pub fn error_with_dbg_msg(msg: &str, err: String) -> (r: NativeResponse)
        ensures
            r matches NativeResponse::Error { success, error, debug_msg } && success == false
                && error@ == msg@ && debug_msg == Some(err),
    {
        NativeResponse::Error { success: false, error: msg.to_owned(), debug_msg: Some(err) }
    }

    /// An error carrying an opaque debug detail for the log.
    pub fn error_with_dbg_str(msg: &str, err: String) -> (r: NativeResponse)
        ensures
            r matches NativeResponse::Error { success, error, debug_msg } && success == false
                && error@ == msg@ && debug_msg == Some(err),
    {
        NativeResponse::Error { success: false, error: msg.to_owned(), debug_msg: Some(err) }
    }

    /// A success wrapping the payload for the command that ran.
    pub fn success(data: NativeResponseData) -> (r: NativeResponse)
        ensures
            r == (NativeResponse::Success { success: true, data: data }),
    {
        NativeResponse::Success { success: true, data }
    }

    /// An event response.
    pub fn event(event: NativeResponseEvent) -> (r: NativeResponse)
        ensures
            r == NativeResponse::Event(event),
    {
        NativeResponse::Event(event)
    }
}

/// The profile record as shown to the extension.
#[derive(Debug, PartialEq)]
pub struct NativeResponseProfileListProfileEntry {
    pub id: String,
    pub name: String,
    pub default: bool,
    pub avatar: Option<String>,
    pub options: JsonMap,
}

pub ghost struct ProfileListEntryV {
    pub id: Seq<char>,
    pub name: Seq<char>,
    pub default: bool,
    pub avatar: Option<Seq<char>>,
    pub options: Seq<(Seq<char>, Seq<char>)>,
}

impl View for NativeResponseProfileListProfileEntry {
    type V = ProfileListEntryV;

    open spec fn view(&self) -> ProfileListEntryV {
        ProfileListEntryV {
            id: self.id@,
            name: self.name@,
            default: self.default,
            avatar: self.avatar.deep_view(),
            options: self.options.deep_view(),
        }
    }
}

impl DeepView for NativeResponseProfileListProfileEntry {
    type V = ProfileListEntryV;

    open spec fn deep_view(&self) -> ProfileListEntryV {
        self.view()
    }
}

/// The record shown for a registry entry: everything but the on-disk
/// location.
pub open spec fn spec_profile_list_entry(e: ProfileEntryV) -> ProfileListEntryV {
    ProfileListEntryV {
        id: e.id,
        name: e.name,
        default: e.default,
        avatar: e.avatar,
        options: e.options,
    }
}

pub open spec fn spec_profile_list(entries: Seq<ProfileEntryV>) -> Seq<ProfileListEntryV> {
    Seq::new(entries.len(), |i: int| spec_profile_list_entry(entries[i]))
}

impl NativeResponseProfileListProfileEntry {
    /// Projects a registry entry to its extension-visible record.
    pub fn from_profile_entry(entry: &ProfileEntry) -> (r: NativeResponseProfileListProfileEntry)
        ensures
            r@ == spec_profile_list_entry(entry@),
    {
        NativeResponseProfileListProfileEntry {
            id: entry.id.clone(),
            name: entry.name.clone(),
            default: entry.default,
            avatar: clone_opt_string(&entry.avatar),
            options: clone_json_map(&entry.options),
        }
    }
}

/// Builds the extension-visible list for all entries, in registry order.
pub fn profile_list_of(entries: &Vec<ProfileEntry>) -> (r: Vec<NativeResponseProfileListProfileEntry>)
    ensures
        r.deep_view() == spec_profile_list(entries.deep_view()),
{
    let n = entries.len();
    let mut r: Vec<NativeResponseProfileListProfileEntry> = Vec::new();
    let mut i: usize = 0;
    while i < n
        invariant
            0 <= i <= n,
            n == entries@.len(),
            r.deep_view().len() == i,
            forall|k: int|
                0 <= k < i ==> r.deep_view()[k] == spec_profile_list_entry(
                    entries.deep_view()[k],
                ),
        decreases n - i,
    {
        let e = &entries[i];
        proof {
            assert(e@ == entries.deep_view()[i as int]);
        }
        let item = NativeResponseProfileListProfileEntry::from_profile_entry(e);
        let ghost rd0 = r.deep_view();
        r.push(item);
        proof {
            let ev = entries.deep_view()[i as int];
            assert(r.deep_view() =~= rd0.push(spec_profile_list_entry(ev)));
        }
        i = i + 1;
    }
    proof {
        assert(r.deep_view() =~= spec_profile_list(entries.deep_view()));
    }
    r
}

#[derive(Debug, PartialEq)]
pub enum NativeResponseData {
    Initialized { cached: bool },
    ProfileLaunched,
    ProfileCreated { profile: NativeResponseProfileListProfileEntry },
    ProfileUpdated { profile: NativeResponseProfileListProfileEntry },
    ProfileDeleted,
    OptionsUpdated { options: JsonMap },
    ManagerClosed,
    AvatarsUpdated,
    GetAvatarResult { data: String, mime: String },
    AvatarDeleted,
    ProfileOrderUpdated,
}

#[derive(Debug, PartialEq)]
pub enum NativeResponseEvent {
    ProfileList {
        current_profile_id: String,
        profiles: Vec<NativeResponseProfileListProfileEntry>,
    },
    FocusWindow { url: Option<String> },
    CloseManager,
    ConnectorInformation { version: String },
    OptionsUpdated { options: JsonMap },
    AvatarsUpdated { avatars: Vec<String> },
    ProfileOrderUpdated { order: Vec<String> },
}

} // verus!
