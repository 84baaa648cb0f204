//! The launch state machine, the bus codec and routing, the frame layout,
//! and the platform helpers.

use profile_connector::avatars::{build_avatar_path, encode_avatar_to_string};
use profile_connector::cmd::close_manager::process_cmd_close_manager;
use profile_connector::cmd::get_avatar::process_get_avatar;
use profile_connector::cmd::launch_profile::process_cmd_launch_profile;
use profile_connector::config::{get_default_browser_profile_folder, get_msix_package, Config, Platform};
use profile_connector::framing::{decode_frame_len, encode_frame};
use profile_connector::inifile::IniSection;
use profile_connector::ipc::{
    get_ipc_socket_name, handle_ipc_cmd, ipc_reply_ok, notify_focus_window, plan_send_ipc_cmd,
    FocusWindowCommand, IpcCommand, IpcHandleAction, SendIpcPlan,
};
use profile_connector::ipc_codec::{decode_ipc_command, encode_ipc_command};
use profile_connector::native_req::NativeMessageLaunchProfile;
use profile_connector::native_resp::{NativeResponse, NativeResponseData, NativeResponseEvent};
use profile_connector::process::{
    build_browser_args, launch_error_response, plan_msix_launch, profile_launched_response,
    resolve_browser_binary, spawn_browser_plan, BrowserLaunchPlan, ForkBrowserProcError,
};
use profile_connector::profiles::parse_profile_sections;
use profile_connector::profiles_order::OrderData;
use profile_connector::state::AppState;
use profile_connector::storage::{
    avatar_data_path, custom_avatars_path, global_options_data_path, options_data_path,
    order_data_path,
};
use profile_connector::strutil::{eq_ignore_ascii_case, trim, usize_to_string};

fn profile_section(idx: usize, name: &str, path: &str, default: bool) -> IniSection {
    let mut props = vec![
        ("Name".to_owned(), name.to_owned()),
        ("IsRelative".to_owned(), "1".to_owned()),
        ("Path".to_owned(), path.to_owned()),
    ];
    if default {
        props.push(("Default".to_owned(), "1".to_owned()));
    }
    IniSection { name: Some(format!("Profile{}", idx)), props }
}

fn two_profiles() -> profile_connector::profiles::ProfilesIniState {
    let secs = vec![
        profile_section(0, "first", "p1", true),
        profile_section(1, "second", "p2", false),
    ];
    parse_profile_sections(&secs, &vec![], &vec![]).unwrap()
}

fn app_state_bound_to(id: &str) -> AppState {
    AppState {
        config: Config::new(None, None, "/home/user/.mozilla/firefox".to_owned()),
        first_run: false,
        cur_profile_id: Some(id.to_owned()),
        extension_id: Some("ext-public".to_owned()),
        internal_extension_id: Some("ext-internal".to_owned()),
        config_dir: "/cfg".to_owned(),
        data_dir: "/data".to_owned(),
    }
}

#[test]
fn launch_focuses_running_instance_without_spawning() {
    // the target profile exists, a peer is reachable and replies status 0:
    // the command is answered with ProfileLaunched and no process planning
    // takes place
    let st = two_profiles();
    let target = st.profile_entries[1].id.clone();
    let entry = process_cmd_launch_profile(&st, &NativeMessageLaunchProfile {
        profile_id: target.clone(),
        url: None,
    }).unwrap();
    assert_eq!(entry.id, target);

    let plan = notify_focus_window(None, &target, None, true);
    match plan {
        SendIpcPlan::Remote { socket_name, .. } => {
            assert_eq!(socket_name, format!("ipc:///tmp/fps-profile_{}", target));
        }
        SendIpcPlan::Local => panic!("an unbound sender must use the transport"),
    }
    let peer_reply: Vec<u8> = vec![0];
    assert!(ipc_reply_ok(&peer_reply));
    assert_eq!(profile_launched_response(), NativeResponse::Success {
        success: true,
        data: NativeResponseData::ProfileLaunched,
    });
    // a non-zero or empty reply means the peer did not serve the command
    assert!(!ipc_reply_ok(&vec![1]));
    assert!(!ipc_reply_ok(&vec![]));
}

#[test]
fn launch_with_missing_binary_reports_restart_guidance() {
    // no reachable peer; the binary resolves to the parent process path but
    // no longer exists on disk
    let config = Config::new(None, None, String::new());
    let parent = "/usr/lib/firefox/firefox".to_owned();
    let binary = resolve_browser_binary(&config, Some(&parent)).unwrap();
    assert_eq!(binary, parent);
    let err = match spawn_browser_plan(binary, false, "second", None) {
        Err(e) => e,
        Ok(_) => panic!("a missing binary must not spawn"),
    };
    assert_eq!(err, ForkBrowserProcError::BinaryDoesNotExist);
    match launch_error_response(&err) {
        NativeResponse::Error { success, error, .. } => {
            assert!(!success);
            assert!(error.contains("can no longer be found"));
            assert!(error.contains("Please restart your browser to resolve this issue."));
        }
        other => panic!("expected an error response, got {:?}", other),
    }
}

#[test]
fn launch_resolution_prefers_configured_binary() {
    let config = Config::new(None, Some("/opt/custom/firefox".to_owned()), String::new());
    assert_eq!(
        resolve_browser_binary(&config, None).unwrap(),
        "/opt/custom/firefox"
    );
    let none = Config::new(None, None, String::new());
    assert_eq!(
        resolve_browser_binary(&none, None),
        Err(ForkBrowserProcError::BinaryNotFound)
    );
}

#[test]
fn browser_args_and_store_activation_string() {
    assert_eq!(build_browser_args("second", None), vec!["-P".to_owned(), "second".to_owned()]);
    assert_eq!(
        build_browser_args("second", Some("https://example.org".to_owned())),
        vec![
            "-P".to_owned(),
            "second".to_owned(),
            "--new-tab".to_owned(),
            "https://example.org".to_owned(),
        ]
    );
    match plan_msix_launch("Mozilla.Firefox_n80bbvh6b1yt2", "My \"quoted\" profile", None) {
        BrowserLaunchPlan::Activate { aumid, arg_string } => {
            assert_eq!(aumid, "Mozilla.Firefox_n80bbvh6b1yt2!App");
            assert_eq!(arg_string, "\"-P\" \"My \"\"\"quoted\"\"\" profile\"");
        }
        BrowserLaunchPlan::Spawn { .. } => panic!("store package must activate, not spawn"),
    }
}

#[test]
fn msix_package_detection() {
    let store = "C:\\Program Files\\WindowsApps\\Mozilla.Firefox_97.0.1.0_x64__n80bbvh6b1yt2\\VFS\\ProgramFiles\\Firefox Package Root\\firefox.exe";
    assert_eq!(get_msix_package(store).unwrap(), "Mozilla.Firefox_n80bbvh6b1yt2");
    assert!(get_msix_package("C:\\Program Files\\Mozilla Firefox\\firefox.exe").is_err());
    assert!(get_msix_package("firefox").is_err());
}

#[test]
fn default_profile_folder_per_platform() {
    assert_eq!(
        get_default_browser_profile_folder("/home/u", &Platform::Linux, None),
        "/home/u/.mozilla/firefox"
    );
    assert_eq!(
        get_default_browser_profile_folder("/Users/u", &Platform::Macos, None),
        "/Users/u/Library/Application Support/Firefox"
    );
    let pkg = "Mozilla.Firefox_n80bbvh6b1yt2".to_owned();
    assert_eq!(
        get_default_browser_profile_folder("C:/Users/u", &Platform::Windows, Some(&pkg)),
        "C:/Users/u/AppData/Local/Packages/Mozilla.Firefox_n80bbvh6b1yt2/LocalCache/Roaming/Mozilla/Firefox"
    );
    assert_eq!(
        get_default_browser_profile_folder("C:/Users/u", &Platform::Windows, None),
        "C:/Users/u/AppData/Roaming/Mozilla/Firefox"
    );
}

#[test]
fn bus_codec_round_trips_every_command() {
    let cmds = vec![
        IpcCommand::FocusWindow(FocusWindowCommand { url: None }),
        IpcCommand::FocusWindow(FocusWindowCommand {
            url: Some("https://example.org/page?q=1".to_owned()),
        }),
        IpcCommand::UpdateProfileList,
        IpcCommand::CloseManager,
        IpcCommand::UpdateOptions,
        IpcCommand::UpdateAvatars,
        IpcCommand::UpdateProfileOrder,
    ];
    for cmd in cmds {
        let wire = encode_ipc_command(&cmd);
        assert_eq!(decode_ipc_command(&wire), Some(cmd));
    }
}

#[test]
fn bus_codec_rejects_garbage_and_truncation() {
    assert_eq!(decode_ipc_command(&vec![]), None);
    assert_eq!(decode_ipc_command(&vec![0x00, 0x01, 0x02]), None);
    let mut wire = encode_ipc_command(&IpcCommand::UpdateOptions);
    wire.pop();
    assert_eq!(decode_ipc_command(&wire), None);
    let mut extended = encode_ipc_command(&IpcCommand::CloseManager);
    extended.push(0x00);
    assert_eq!(decode_ipc_command(&extended), None);
}

#[test]
fn bus_socket_name_embeds_profile_id() {
    assert_eq!(get_ipc_socket_name("abc123", true), "ipc:///tmp/fps-profile_abc123");
    assert_eq!(get_ipc_socket_name("abc123", false), "ipc://fps-profile_abc123");
}

#[test]
fn bus_send_uses_fast_path_for_own_profile() {
    let me = "deadbeef".to_owned();
    match plan_send_ipc_cmd(Some(&me), "deadbeef", &IpcCommand::UpdateOptions, true) {
        SendIpcPlan::Local => {}
        SendIpcPlan::Remote { .. } => panic!("own profile must take the fast path"),
    }
    match plan_send_ipc_cmd(Some(&me), "feedface", &IpcCommand::UpdateOptions, true) {
        SendIpcPlan::Remote { socket_name, payload } => {
            assert_eq!(socket_name, "ipc:///tmp/fps-profile_feedface");
            assert_eq!(payload, encode_ipc_command(&IpcCommand::UpdateOptions));
        }
        SendIpcPlan::Local => panic!("another profile must use the transport"),
    }
}

#[test]
fn close_manager_broadcast_excludes_sender() {
    let st = two_profiles();
    let me = st.profile_entries[0].id.clone();
    let other = st.profile_entries[1].id.clone();
    let (resp, plan) = process_cmd_close_manager(&st, Some(&me));
    assert_eq!(resp, NativeResponse::Success {
        success: true,
        data: NativeResponseData::ManagerClosed,
    });
    assert_eq!(plan.cmd, IpcCommand::CloseManager);
    assert_eq!(plan.targets, vec![other]);
}

#[test]
fn focus_command_uses_workaround_window_when_enabled() {
    let st = two_profiles();
    let me = st.profile_entries[0].id.clone();
    let state = app_state_bound_to(&me);
    let options = vec![("windowFocusWorkaround".to_owned(), "true".to_owned())];
    let order = OrderData { order: vec![] };
    let action = handle_ipc_cmd(
        IpcCommand::FocusWindow(FocusWindowCommand { url: None }),
        &state,
        &Ok(two_profiles()),
        &options,
        &order,
    );
    match action {
        IpcHandleAction::ForkBrowser { profile, url } => {
            assert_eq!(profile.id, me);
            assert_eq!(url, "moz-extension://ext-internal/src/entries/winfocus/index.html");
        }
        other => panic!("expected a workaround window, got {:?}", other),
    }
    // without the workaround the extension is asked to focus instead
    let action = handle_ipc_cmd(
        IpcCommand::FocusWindow(FocusWindowCommand { url: Some("u".to_owned()) }),
        &state,
        &Ok(two_profiles()),
        &vec![],
        &order,
    );
    match action {
        IpcHandleAction::EmitEvent(NativeResponseEvent::FocusWindow { url }) => {
            assert_eq!(url.as_deref(), Some("u"));
        }
        other => panic!("expected a focus event, got {:?}", other),
    }
}

#[test]
fn frame_round_trip() {
    let payload = b"{\"id\":7,\"msg\":{}}".to_vec();
    let frame = encode_frame(&payload);
    assert_eq!(frame.len(), payload.len() + 4);
    let len = decode_frame_len(&frame[0..4]);
    assert_eq!(len as usize, payload.len());
    assert_eq!(&frame[4..], &payload[..]);
    let empty = encode_frame(&[]);
    assert_eq!(empty, vec![0, 0, 0, 0]);
    assert_eq!(decode_frame_len(&empty[0..4]), 0);
}

#[test]
fn storage_paths_and_avatar_helpers() {
    assert_eq!(global_options_data_path("/cfg"), "/cfg/global-options.json");
    assert_eq!(avatar_data_path("/cfg"), "/cfg/avatars.json");
    assert_eq!(options_data_path("/cfg"), "/cfg/profile-options.json");
    assert_eq!(order_data_path("/cfg"), "/cfg/profile-order.json");
    assert_eq!(custom_avatars_path("/data"), "/data/avatars");
    assert_eq!(
        build_avatar_path("/data/avatars", "01D39ZY06FGSCTVN4T2V9PKHFZ", "png"),
        "/data/avatars/01D39ZY06FGSCTVN4T2V9PKHFZ.png"
    );
}

#[test]
fn avatar_encoding_and_mime() {
    // unpadded standard base64 of "hello"
    assert_eq!(encode_avatar_to_string(b"hello".to_vec()), "aGVsbG8");
    assert_eq!(encode_avatar_to_string(Vec::new()), "");
    let png = "png".to_owned();
    match process_get_avatar(b"hello".to_vec(), Some(&png)) {
        NativeResponse::Success {
            data: NativeResponseData::GetAvatarResult { data, mime },
            ..
        } => {
            assert_eq!(data, "aGVsbG8");
            assert_eq!(mime, "image/png");
        }
        other => panic!("expected an avatar payload, got {:?}", other),
    }
    let odd = "bmp".to_owned();
    match process_get_avatar(Vec::new(), Some(&odd)) {
        NativeResponse::Success {
            data: NativeResponseData::GetAvatarResult { mime, .. },
            ..
        } => assert_eq!(mime, "application/octet-stream"),
        other => panic!("expected an avatar payload, got {:?}", other),
    }
}

#[test]
fn string_helpers() {
    assert_eq!(trim("  padded name\t"), "padded name");
    assert_eq!(trim(""), "");
    assert_eq!(trim("  "), "");
    assert!(eq_ignore_ascii_case("Alpha", "aLPHA"));
    assert!(!eq_ignore_ascii_case("Alpha", "Alphb"));
    assert_eq!(usize_to_string(0), "0");
    assert_eq!(usize_to_string(907), "907");
}

#[test]
fn trim_handles_unicode_whitespace() {
    assert_eq!(trim("\u{a0}\u{2003}name\u{3000}"), "name");
    assert_eq!(trim("inner space kept"), "inner space kept");
}
