//! Command handlers: update idempotence, deletion with default promotion,
//! initialization, option merging and order updates.

use profile_connector::cmd::delete_profile::process_cmd_delete_profile;
use profile_connector::cmd::initialize::process_cmd_initialize;
use profile_connector::cmd::update_options::process_cmd_update_options;
use profile_connector::cmd::update_profile::process_cmd_update_profile;
use profile_connector::cmd::update_profiles_order::process_cmd_update_profiles_order;
use profile_connector::cmd::steady_state_gate;
use profile_connector::config::Config;
use profile_connector::inifile::IniSection;
use profile_connector::native_req::{
    NativeMessage, NativeMessageDeleteProfile, NativeMessageInitialize,
    NativeMessageUpdateOptions, NativeMessageUpdateProfile, NativeMessageUpdateProfileOrder,
};
use profile_connector::native_resp::{NativeResponse, NativeResponseData, NativeResponseEvent};
use profile_connector::profiles::parse_profile_sections;
use profile_connector::profiles_order::OrderData;
use profile_connector::state::AppState;

fn profile_section(idx: usize, name: &str, path: &str, default: bool) -> IniSection {
    let mut props = vec![
        ("Name".to_owned(), name.to_owned()),
        ("IsRelative".to_owned(), "1".to_owned()),
        ("Path".to_owned(), path.to_owned()),
    ];
    if default {
        props.push(("Default".to_owned(), "1".to_owned()));
    }
    IniSection { name: Some(format!("Profile{}", idx)), props }
}

fn two_profiles() -> profile_connector::profiles::ProfilesIniState {
    let secs = vec![
        profile_section(0, "first", "p1", true),
        profile_section(1, "second", "p2", false),
    ];
    parse_profile_sections(&secs, &vec![], &vec![]).unwrap()
}

fn app_state(first_run: bool) -> AppState {
    AppState {
        config: Config::new(None, None, "/home/user/.mozilla/firefox".to_owned()),
        first_run,
        cur_profile_id: None,
        extension_id: Some("ext-public".to_owned()),
        internal_extension_id: None,
        config_dir: "/home/user/.config/connector".to_owned(),
        data_dir: "/home/user/.local/share/connector".to_owned(),
    }
}

#[test]
fn update_profile_is_idempotent() {
    let st = two_profiles();
    let target = st.profile_entries[1].id.clone();
    let msg = NativeMessageUpdateProfile {
        profile_id: target,
        name: "renamed".to_owned(),
        avatar: Some("av".to_owned()),
        options: vec![("x".to_owned(), "true".to_owned())],
        default: true,
    };
    let once = process_cmd_update_profile(&st, &msg).unwrap();
    let twice = process_cmd_update_profile(&once.state, &msg).unwrap();
    assert_eq!(once.state, twice.state);
    assert_eq!(once.response, twice.response);
}

#[test]
fn update_profile_unknown_id_and_conflict() {
    let st = two_profiles();
    let missing = NativeMessageUpdateProfile {
        profile_id: "no-such-id".to_owned(),
        name: "x".to_owned(),
        avatar: None,
        options: vec![],
        default: false,
    };
    match process_cmd_update_profile(&st, &missing) {
        Err(NativeResponse::Error { error, .. }) => {
            assert_eq!(error, "No profile with the specified id could be found!");
        }
        other => panic!("expected unknown-id error, got {:?}", other),
    }
    let conflict = NativeMessageUpdateProfile {
        profile_id: st.profile_entries[1].id.clone(),
        name: " FIRST ".to_owned(),
        avatar: None,
        options: vec![],
        default: false,
    };
    match process_cmd_update_profile(&st, &conflict) {
        Err(NativeResponse::Error { error, .. }) => {
            assert_eq!(
                error,
                "A profile with this name already exists. Please choose another name."
            );
        }
        other => panic!("expected name-conflict error, got {:?}", other),
    }
}

#[test]
fn delete_default_promotes_first_remaining_and_notifies_survivors() {
    let st = two_profiles();
    let id1 = st.profile_entries[0].id.clone();
    let id2 = st.profile_entries[1].id.clone();
    let out = process_cmd_delete_profile(
        &st,
        &NativeMessageDeleteProfile { profile_id: id1.clone() },
    ).unwrap();

    // the deleted default's flag moves to the first remaining profile
    assert_eq!(out.state.profile_entries.len(), 1);
    assert_eq!(out.state.profile_entries[0].id, id2);
    assert!(out.state.profile_entries[0].default);
    assert_eq!(out.removed.id, id1);
    assert_eq!(out.response, NativeResponse::Success {
        success: true,
        data: NativeResponseData::ProfileDeleted,
    });
    // the broadcast goes to the remaining profile only
    assert_eq!(out.notify.targets, vec![id2.clone()]);

    // the order list drops the deleted id
    let mut order = OrderData { order: vec![id1.clone(), id2.clone()] };
    order.recalculate(&out.state);
    assert_eq!(order.order, vec![id2]);
}

#[test]
fn order_recalculate_keeps_rank_and_appends_new() {
    let st = two_profiles();
    let id1 = st.profile_entries[0].id.clone();
    let id2 = st.profile_entries[1].id.clone();
    // only the second profile has a recorded rank; the first is new and
    // goes to the end
    let mut order = OrderData { order: vec![id2.clone(), "gone".to_owned()] };
    order.recalculate(&st);
    assert_eq!(order.order, vec![id2, id1]);
}

#[test]
fn initialize_without_marker_fails_then_cached_id_succeeds() {
    let st = two_profiles();
    let state = app_state(false);
    let no_marker = NativeMessageInitialize {
        extension_id: "ext1".to_owned(),
        extension_version: None,
        profile_id: None,
    };
    let attempt = process_cmd_initialize(&state, &st, &no_marker, &vec![false, false], &vec![]);
    match attempt.response {
        NativeResponse::Error { error, .. } => {
            assert_eq!(error, "Unable to detect current profile.");
        }
        other => panic!("expected detection failure, got {:?}", other),
    }
    assert!(attempt.new_app_state.is_none());
    assert!(attempt.save_state.is_none());
    assert!(attempt.events.is_empty());

    // the next attempt with a cached profile id succeeds and freezes state
    let cached = NativeMessageInitialize {
        extension_id: "ext1".to_owned(),
        extension_version: None,
        profile_id: Some(st.profile_entries[1].id.clone()),
    };
    let ok = process_cmd_initialize(&state, &st, &cached, &vec![false, false], &vec![]);
    assert_eq!(ok.response, NativeResponse::Success {
        success: true,
        data: NativeResponseData::Initialized { cached: true },
    });
    let frozen = ok.new_app_state.expect("state must be frozen on success");
    assert_eq!(frozen.cur_profile_id.as_deref(), Some(st.profile_entries[1].id.as_str()));
    assert_eq!(frozen.internal_extension_id.as_deref(), Some("ext1"));
    assert!(!frozen.first_run);
    assert_eq!(ok.events.len(), 2);

    // once initialized, a second Initialize is rejected by the dispatcher
    match steady_state_gate(&NativeMessage::Initialize(NativeMessageInitialize {
        extension_id: "ext1".to_owned(),
        extension_version: None,
        profile_id: None,
    })) {
        Some(NativeResponse::Error { error, .. }) => {
            assert_eq!(error, "Connector cannot be initialized multiple times!");
        }
        other => panic!("expected rejection, got {:?}", other),
    }
}

#[test]
fn initialize_by_marker_scan_promotes_first_run_default() {
    let st = two_profiles();
    let state = app_state(true);
    let msg = NativeMessageInitialize {
        extension_id: "ext1".to_owned(),
        extension_version: None,
        profile_id: None,
    };
    // the second profile's storage carries the marker; scan order decides
    let out = process_cmd_initialize(&state, &st, &msg, &vec![false, true], &vec![]);
    assert_eq!(out.response, NativeResponse::Success {
        success: true,
        data: NativeResponseData::Initialized { cached: false },
    });
    let saved = out.save_state.expect("first run must persist the promoted default");
    assert!(!saved.profile_entries[0].default);
    assert!(saved.profile_entries[1].default);
    match &out.events[0] {
        NativeResponseEvent::ProfileList { current_profile_id, profiles } => {
            assert_eq!(current_profile_id, &st.profile_entries[1].id);
            assert_eq!(profiles.len(), 2);
            assert!(profiles[1].default);
        }
        other => panic!("expected the profile list event, got {:?}", other),
    }
}

#[test]
fn concurrent_option_updates_are_last_writer_wins() {
    // Two workers read the same options at the start of their units of
    // work, then merge disjoint changes. Each merge alone is the union of
    // the base with its own changes; whichever write lands last overwrites
    // the other's key, so the persisted store is NOT the union of both.
    let st = two_profiles();
    let base = vec![("keep".to_owned(), "0".to_owned())];
    let first = process_cmd_update_options(&st, &base, &NativeMessageUpdateOptions {
        changes: vec![("a".to_owned(), "1".to_owned())],
    });
    let second = process_cmd_update_options(&st, &base, &NativeMessageUpdateOptions {
        changes: vec![("b".to_owned(), "2".to_owned())],
    });
    assert_eq!(first.new_options, vec![
        ("keep".to_owned(), "0".to_owned()),
        ("a".to_owned(), "1".to_owned()),
    ]);
    // the second write is the one that survives: it carries `b` but not `a`
    assert_eq!(second.new_options, vec![
        ("keep".to_owned(), "0".to_owned()),
        ("b".to_owned(), "2".to_owned()),
    ]);
    assert!(!second.new_options.iter().any(|(k, _)| k == "a"));
}

#[test]
fn option_merge_replaces_in_place_and_appends() {
    let st = two_profiles();
    let base = vec![
        ("x".to_owned(), "1".to_owned()),
        ("y".to_owned(), "2".to_owned()),
    ];
    let out = process_cmd_update_options(&st, &base, &NativeMessageUpdateOptions {
        changes: vec![("y".to_owned(), "9".to_owned()), ("z".to_owned(), "3".to_owned())],
    });
    assert_eq!(out.new_options, vec![
        ("x".to_owned(), "1".to_owned()),
        ("y".to_owned(), "9".to_owned()),
        ("z".to_owned(), "3".to_owned()),
    ]);
    match out.response {
        NativeResponse::Success { data: NativeResponseData::OptionsUpdated { options }, .. } => {
            assert_eq!(options, out.new_options);
        }
        other => panic!("expected options payload, got {:?}", other),
    }
}

#[test]
fn order_update_validates_membership_and_duplicates() {
    let st = two_profiles();
    let id1 = st.profile_entries[0].id.clone();
    let id2 = st.profile_entries[1].id.clone();

    let ok = process_cmd_update_profiles_order(&st, &NativeMessageUpdateProfileOrder {
        order: vec![id2.clone(), id1.clone()],
    }).unwrap();
    assert_eq!(ok.order.order, vec![id2.clone(), id1.clone()]);

    for bad in [
        vec!["unknown".to_owned()],
        vec![id1.clone(), id1.clone()],
    ] {
        match process_cmd_update_profiles_order(&st, &NativeMessageUpdateProfileOrder {
            order: bad,
        }) {
            Err(NativeResponse::Error { error, .. }) => {
                assert_eq!(error, "Attempted to re-arrange profile that does not exist!");
            }
            other => panic!("expected rejection, got {:?}", other),
        }
    }
}

#[test]
fn initialize_marker_scan_takes_first_hit() {
    let st = two_profiles();
    let state = app_state(false);
    let msg = NativeMessageInitialize {
        extension_id: "ext1".to_owned(),
        extension_version: None,
        profile_id: None,
    };
    let out = process_cmd_initialize(&state, &st, &msg, &vec![true, true], &vec![]);
    let frozen = out.new_app_state.expect("a marker hit must initialize");
    assert_eq!(
        frozen.cur_profile_id.as_deref(),
        Some(st.profile_entries[0].id.as_str())
    );
}

#[test]
fn update_without_default_flag_keeps_existing_default() {
    let st = two_profiles();
    let msg = NativeMessageUpdateProfile {
        profile_id: st.profile_entries[1].id.clone(),
        name: "still second".to_owned(),
        avatar: None,
        options: vec![],
        default: false,
    };
    let out = process_cmd_update_profile(&st, &msg).unwrap();
    assert!(out.state.profile_entries[0].default);
    assert!(!out.state.profile_entries[1].default);
    assert_eq!(out.state.profile_entries[1].name, "still second");
}
