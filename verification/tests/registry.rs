//! Registry behaviour: stable ids, load/save round trips, satellite-store
//! integrity and the name-collision rule.

use profile_connector::inifile::IniSection;
use profile_connector::profiles::{
    calc_profile_id, parse_profile_sections, read_profiles, write_profiles, ProfileEntry,
    ProfilesIniState, ReadProfilesError,
};
use profile_connector::native_resp::NativeResponse;
use profile_connector::cmd::create_profile::process_cmd_create_profile;
use profile_connector::native_req::NativeMessageCreateProfile;

fn section(name: Option<&str>, props: &[(&str, &str)]) -> IniSection {
    IniSection {
        name: name.map(|s| s.to_owned()),
        props: props.iter().map(|(k, v)| (k.to_string(), v.to_string())).collect(),
    }
}

fn profile_section(idx: usize, name: &str, rel: &str, path: &str, default: bool) -> IniSection {
    let mut props = vec![
        ("Name".to_owned(), name.to_owned()),
        ("IsRelative".to_owned(), rel.to_owned()),
        ("Path".to_owned(), path.to_owned()),
    ];
    if default {
        props.push(("Default".to_owned(), "1".to_owned()));
    }
    IniSection { name: Some(format!("Profile{}", idx)), props }
}

#[test]
fn derived_ids_are_deterministic_and_distinct() {
    let a1 = calc_profile_id("profile-xyz", true);
    let a2 = calc_profile_id("profile-xyz", true);
    assert_eq!(a1, a2);
    assert_eq!(a1.len(), 64);
    assert!(a1.chars().all(|c| c.is_ascii_hexdigit() && !c.is_ascii_lowercase()));

    // distinct in the flag, the path, or both
    let b = calc_profile_id("profile-xyz", false);
    let c = calc_profile_id("profile-abc", true);
    let d = calc_profile_id("", true);
    assert_ne!(a1, b);
    assert_ne!(a1, c);
    assert_ne!(a1, d);
    assert_ne!(b, c);
}

#[test]
fn id_does_not_depend_on_display_name() {
    let secs1 = vec![profile_section(0, "Old Name", "1", "p1", false)];
    let secs2 = vec![profile_section(0, "New Name", "1", "p1", false)];
    let st1 = parse_profile_sections(&secs1, &vec![], &vec![]).unwrap();
    let st2 = parse_profile_sections(&secs2, &vec![], &vec![]).unwrap();
    assert_eq!(st1.profile_entries[0].id, st2.profile_entries[0].id);
}

#[test]
fn parse_rejects_profile_missing_required_field() {
    // a profile-shaped section without Path is a format error, not skipped
    let secs = vec![section(Some("Profile0"), &[("Name", "A"), ("IsRelative", "1")])];
    match parse_profile_sections(&secs, &vec![], &vec![]) {
        Err(ReadProfilesError::BadIniFormat) => {}
        other => panic!("expected BadIniFormat, got {:?}", other),
    }
}

#[test]
fn read_profiles_parses_ini_text_and_keeps_unknown_sections() {
    let text = "[General]\nStartWithLastProfile=1\n\n[Profile0]\nName=alpha\nIsRelative=1\nPath=p0\nDefault=1\n\n[Profile1]\nName=beta\nIsRelative=0\nPath=/abs/p1\n";
    let st = read_profiles(text, &vec![], &vec![]).unwrap();
    assert_eq!(st.profile_entries.len(), 2);
    assert_eq!(st.profile_entries[0].name, "alpha");
    assert!(st.profile_entries[0].is_relative);
    assert!(st.profile_entries[0].default);
    assert_eq!(st.profile_entries[1].path, "/abs/p1");
    assert!(!st.profile_entries[1].is_relative);
    assert!(!st.profile_entries[1].default);
    assert_eq!(st.backing_sections.len(), 1);
    assert_eq!(st.backing_sections[0].name.as_deref(), Some("General"));
    assert_eq!(st.backing_sections[0].props, vec![(
        "StartWithLastProfile".to_owned(),
        "1".to_owned(),
    )]);
}

#[test]
fn read_profiles_reports_ini_error() {
    match read_profiles("[unterminated\nfoo", &vec![], &vec![]) {
        Err(ReadProfilesError::IniError(_)) => {}
        other => panic!("expected IniError, got {:?}", other),
    }
}

#[test]
fn save_load_round_trip_preserves_records_and_satellites() {
    let id0 = calc_profile_id("p0", true);
    let id1 = calc_profile_id("p1", true);
    let secs = vec![
        section(Some("General"), &[("StartWithLastProfile", "1")]),
        profile_section(0, "alpha", "1", "p0", true),
        profile_section(1, "beta", "1", "p1", false),
    ];
    let avatars = vec![(id0.clone(), "avatar-ref-0".to_owned())];
    let options = vec![
        (id0.clone(), vec![("color".to_owned(), "\"red\"".to_owned())]),
        (id1.clone(), vec![]),
    ];
    let st = parse_profile_sections(&secs, &avatars, &options).unwrap();

    let plan = write_profiles(&st);
    let st2 = parse_profile_sections(&plan.sections, &plan.avatars, &plan.options).unwrap();

    assert_eq!(st.profile_entries, st2.profile_entries);
    // the satellite stores rebuilt by the save carry exactly the entries' data
    assert_eq!(plan.avatars, vec![(id0.clone(), "avatar-ref-0".to_owned())]);
    assert_eq!(plan.options.len(), 2);
    assert_eq!(plan.options[0].0, id0);
    assert_eq!(plan.options[1].0, id1);
    assert_eq!(plan.default_profile_path.as_deref(), Some("p0"));
}

#[test]
fn save_propagates_default_into_install_sections() {
    let secs = vec![
        section(Some("Install4F96D1932A9F858E"), &[("Default", "old-path"), ("Locked", "1")]),
        profile_section(0, "alpha", "1", "p0", true),
    ];
    let st = parse_profile_sections(&secs, &vec![], &vec![]).unwrap();
    let plan = write_profiles(&st);
    let install = &plan.sections[0];
    assert_eq!(install.name.as_deref(), Some("Install4F96D1932A9F858E"));
    assert!(install.props.contains(&("Default".to_owned(), "p0".to_owned())));
    assert!(install.props.contains(&("Locked".to_owned(), "0".to_owned())));
}

#[test]
fn save_referential_integrity_of_satellites() {
    // a stale satellite record is dropped by load and absent after save
    let stale = ("ffffffff".to_owned(), "stale-avatar".to_owned());
    let secs = vec![profile_section(0, "alpha", "1", "p0", false)];
    let st = parse_profile_sections(&secs, &vec![stale], &vec![]).unwrap();
    assert_eq!(st.profile_entries[0].avatar, None);
    let plan = write_profiles(&st);
    let ids: Vec<String> = st.profile_entries.iter().map(|e| e.id.clone()).collect();
    for (k, _) in &plan.avatars {
        assert!(ids.contains(k));
    }
    for (k, _) in &plan.options {
        assert!(ids.contains(k));
    }
    assert!(plan.avatars.is_empty());
}

#[test]
fn create_profile_rejects_conflicting_name_and_changes_nothing() {
    let secs = vec![profile_section(0, "My Profile", "1", "p0", false)];
    let st = parse_profile_sections(&secs, &vec![], &vec![]).unwrap();
    let msg = NativeMessageCreateProfile {
        name: "  my profile  ".to_owned(),
        avatar: "a".to_owned(),
        options: vec![],
    };
    match process_cmd_create_profile(&st, &msg) {
        Err(NativeResponse::Error { success, error, .. }) => {
            assert!(!success);
            assert_eq!(
                error,
                "A profile with this name already exists. Please choose another name."
            );
        }
        other => panic!("expected a name-conflict error, got {:?}", other),
    }
    // the input state was only borrowed; nothing was persisted or mutated
    assert_eq!(st.profile_entries.len(), 1);
}

#[test]
fn create_profile_appends_fresh_relative_entry() {
    let secs = vec![profile_section(0, "alpha", "1", "p0", true)];
    let st = parse_profile_sections(&secs, &vec![], &vec![]).unwrap();
    let msg = NativeMessageCreateProfile {
        name: "  beta  ".to_owned(),
        avatar: "av1".to_owned(),
        options: vec![("k".to_owned(), "1".to_owned())],
    };
    let out = process_cmd_create_profile(&st, &msg).unwrap();
    assert_eq!(out.state.profile_entries.len(), 2);
    let e: &ProfileEntry = &out.state.profile_entries[1];
    assert_eq!(e.name, "beta");
    assert!(e.is_relative);
    assert!(!e.default);
    assert!(e.path.starts_with("profile-"));
    assert_eq!(e.path.len(), "profile-".len() + 26);
    assert_eq!(e.id, calc_profile_id(&e.path, true));
    assert_eq!(e.avatar.as_deref(), Some("av1"));
    // the broadcast after a create goes to every profile, the new one included
    assert_eq!(out.notify.targets.len(), 2);
}

#[test]
fn state_partial_eq_smoke() {
    let secs = vec![profile_section(0, "alpha", "1", "p0", false)];
    let a: ProfilesIniState = parse_profile_sections(&secs, &vec![], &vec![]).unwrap();
    let b = parse_profile_sections(&secs, &vec![], &vec![]).unwrap();
    assert_eq!(a, b);
}
