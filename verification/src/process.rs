//! The process-launch state machine: resolving the browser binary, building
//! its arguments, and the failure taxonomy shown to the user.
//!
//! Actually spawning or activating a process is operating-system work done
//! by the shell around the crate; every decision on the way there is made
//! here.

use vstd::prelude::*;
use crate::config::Config;
use crate::native_resp::NativeResponse;
use crate::strutil::string_push;

verus! {

broadcast use vstd::string::group_string_axioms;

/// Why a launch failed; each variant carries its own user guidance.
#[derive(Debug, PartialEq)]
pub enum ForkBrowserProcError {
    BadExitCode,
    ForkError { error_message: String },
    ProcessLaunchError { error_message: String },
    MSIXProcessLaunchError { error_message: String },
    BinaryNotFound,
    BinaryDoesNotExist,
    COMError { error_message: String },
}

/// Why the running browser's own binary could not be determined.
#[derive(Debug, PartialEq)]
pub enum GetParentProcError {
    NoCrashReporterEnvVar,
    LinuxOpenCurProcFailed { error_message: String },
    LinuxFailedToParsePidString { error_message: String },
    LinuxCouldNotFindPPid,
    LinuxResolveParentExeFailed { error_message: String },
}

/// The browser binary is recorded by the crash reporter in the environment
/// the browser gave this process; the shell reads the variable and hands its
/// value in.
pub fn get_parent_proc_path(env_value: Option<String>) -> (r: Result<String, GetParentProcError>)
    ensures
        match r {
            Ok(p) => env_value == Some(p),
            Err(e) => env_value is None && e == GetParentProcError::NoCrashReporterEnvVar,
        },
{
    match env_value {
        Some(p) => Ok(p),
        None => Err(GetParentProcError::NoCrashReporterEnvVar),
    }
}

/// The command line handed to the browser: select the profile by name, and
/// optionally open a URL in a new tab.
pub open spec fn spec_browser_args(profile_name: Seq<char>, url: Option<Seq<char>>) -> Seq<
    Seq<char>,
> {
    match url {
        None => seq!["-P"@, profile_name],
        Some(u) => seq!["-P"@, profile_name, "--new-tab"@, u],
    }
}

/// Builds the browser's argument list for a profile and an optional URL.
pub fn build_browser_args(profile_name: &str, url: Option<String>) -> (r: Vec<String>)
    ensures
        r.deep_view() == spec_browser_args(profile_name@, url.deep_view()),
{
    let mut v: Vec<String> = Vec::new();
    v.push("-P".to_owned());
    v.push(profile_name.to_owned());
    match url {
        Some(u) => {
            v.push("--new-tab".to_owned());
            v.push(u);
            proof {
                assert(v.deep_view() =~= spec_browser_args(profile_name@, url.deep_view()));
            }
        },
        None => {
            proof {
                assert(v.deep_view() =~= spec_browser_args(profile_name@, url.deep_view()));
            }
        },
    }
    v
}

/// Picks the binary to launch: the configured override first, else the
/// running browser's own binary.
pub fn resolve_browser_binary(config: &Config, parent_proc_path: Option<&String>) -> (r: Result<
    String,
    ForkBrowserProcError,
>)
    ensures
        match r {
            Ok(p) => match config@.browser_binary {
                Some(b) => p@ == b,
                None => parent_proc_path.deep_view() == Some(p@),
            },
            Err(e) => config@.browser_binary is None && parent_proc_path is None && e
                == ForkBrowserProcError::BinaryNotFound,
        },
{
    match config.browser_binary() {
        Some(b) => Ok(b.clone()),
        None => match parent_proc_path {
            Some(p) => Ok(p.clone()),
            None => Err(ForkBrowserProcError::BinaryNotFound),
        },
    }
}

/// How the shell should start the browser.
pub enum BrowserLaunchPlan {
    /// Ask the operating system to activate the store-distributed package,
    /// with the arguments serialized into one quoted string.
    Activate { aumid: String, arg_string: String },
    /// Start the resolved binary directly, detached from this process.
    Spawn { binary: String, args: Vec<String> },
}

/// Decides the direct-spawn path once the shell has answered whether the
/// resolved binary still exists on disk.
pub fn spawn_browser_plan(
    binary: String,
    binary_exists: bool,
    profile_name: &str,
    url: Option<String>,
) -> (r: Result<BrowserLaunchPlan, ForkBrowserProcError>)
    ensures
        match r {
            Ok(p) => binary_exists && (p matches BrowserLaunchPlan::Spawn { binary: b, args }
                && b == binary && args.deep_view() == spec_browser_args(
                profile_name@,
                url.deep_view(),
            )),
            Err(e) => !binary_exists && e == ForkBrowserProcError::BinaryDoesNotExist,
        },
{
    if !binary_exists {
        return Err(ForkBrowserProcError::BinaryDoesNotExist);
    }
    let args = build_browser_args(profile_name, url);
    Ok(BrowserLaunchPlan::Spawn { binary, args })
}

/// One argument quoted for the activation string: surrounded by quotes, each
/// inner quote escaped by tripling it.
pub open spec fn msix_escape(a: Seq<char>) -> Seq<char>
    decreases a.len(),
{
    if a.len() == 0 {
        Seq::empty()
    } else {
        (if a[0] == '"' {
            seq!['"', '"', '"']
        } else {
            seq![a[0]]
        }) + msix_escape(a.drop_first())
    }
}

pub open spec fn msix_quote(a: Seq<char>) -> Seq<char> {
    seq!['"'] + msix_escape(a) + seq!['"']
}

/// The activation argument string: each argument quoted, joined by spaces.
pub open spec fn msix_args_of(args: Seq<Seq<char>>) -> Seq<char>
    decreases args.len(),
{
    if args.len() == 0 {
        Seq::empty()
    } else if args.len() == 1 {
        msix_quote(args[0])
    } else {
        msix_quote(args[0]) + seq![' '] + msix_args_of(args.drop_first())
    }
}

fn push_quoted(out: &mut String, a: &str)
    ensures
        final(out)@ == old(out)@ + msix_quote(a@),
{
    string_push(out, '"');
    let n = a.unicode_len();
    let mut i: usize = 0;
    let ghost base = out@;
    while i < n
        invariant
            0 <= i <= n,
            n == a@.len(),
            out@ == base + msix_escape(a@.take(i as int)),
        decreases n - i,
    {
        let c = a.get_char(i);
        if c == '"' {
            string_push(out, '"');
            string_push(out, '"');
            string_push(out, '"');
        } else {
            string_push(out, c);
        }
        proof {
            lemma_msix_escape_snoc(a@.take(i + 1));
            assert(a@.take(i + 1).drop_last() =~= a@.take(i as int));
            assert(out@ =~= base + msix_escape(a@.take(i + 1)));
        }
        i = i + 1;
    }
    proof {
        assert(a@.take(n as int) =~= a@);
    }
    string_push(out, '"');
    proof {
        assert(out@ =~= old(out)@ + msix_quote(a@));
    }
}

proof fn lemma_msix_escape_snoc(a: Seq<char>)
    requires
        a.len() > 0,
    ensures
        msix_escape(a) == msix_escape(a.drop_last()) + (if a.last() == '"' {
            seq!['"', '"', '"']
        } else {
            seq![a.last()]
        }),
    decreases a.len(),
{
    if a.len() == 1 {
        assert(a.drop_last() =~= Seq::<char>::empty());
        assert(a.drop_first() =~= Seq::<char>::empty());
        assert(msix_escape(a) =~= msix_escape(a.drop_last()) + (if a.last() == '"' {
            seq!['"', '"', '"']
        } else {
            seq![a.last()]
        }));
    } else {
        lemma_msix_escape_snoc(a.drop_first());
        assert(a.drop_first().drop_last() =~= a.drop_last().drop_first());
        assert(a.drop_first().last() == a.last());
        assert(msix_escape(a) =~= msix_escape(a.drop_last()) + (if a.last() == '"' {
            seq!['"', '"', '"']
        } else {
            seq![a.last()]
        }));
    }
}

/// Serializes an argument list into the single activation string.
pub fn build_msix_args_string(args: &Vec<String>) -> (r: String)
    ensures
        r@ == msix_args_of(args.deep_view()),
{
    let ghost ga = args.deep_view();
    let n = args.len();
    let mut out = String::new();
    if n == 0 {
        proof {
            assert(out@ =~= msix_args_of(ga));
        }
        return out;
    }
    let mut i: usize = 0;
    proof {
        assert(ga.skip(0) =~= ga);
        assert(out@ =~= Seq::<char>::empty());
    }
    while i < n
        invariant
            0 < n == args@.len(),
            0 <= i <= n,
            ga == args.deep_view(),
            msix_args_of(ga) == out@ + (if i < n {
                msix_args_of(ga.skip(i as int))
            } else {
                Seq::<char>::empty()
            }),
        decreases n - i,
    {
        let a = &args[i];
        proof {
            assert(a@ == ga[i as int]);
            assert(ga.skip(i as int)[0] == ga[i as int]);
            assert(ga.skip(i as int).drop_first() =~= ga.skip(i + 1));
        }
        push_quoted(&mut out, a.as_str());
        if i + 1 < n {
            string_push(&mut out, ' ');
            proof {
                assert(ga.skip(i as int).len() > 1);
                assert(msix_args_of(ga.skip(i as int)) =~= msix_quote(ga[i as int]) + seq![' ']
                    + msix_args_of(ga.skip(i + 1)));
            }
        } else {
            proof {
                assert(ga.skip(i as int).len() == 1);
                assert(msix_args_of(ga.skip(i as int)) =~= msix_quote(ga[i as int]));
            }
        }
        i = i + 1;
    }
    out
}

/// The activation identity of the store package's application.
pub fn msix_aumid(package: &str) -> (r: String)
    ensures
        r@ == package@ + "!App"@,
{
    String::from_str(package).concat("!App")
}

/// Decides the store-activation path for a store-distributed browser.
pub fn plan_msix_launch(package: &str, profile_name: &str, url: Option<String>) -> (r:
    BrowserLaunchPlan)
    ensures
        r matches BrowserLaunchPlan::Activate { aumid, arg_string } && aumid@ == package@
            + "!App"@ && arg_string@ == msix_args_of(
            spec_browser_args(profile_name@, url.deep_view()),
        ),
{
    let browser_args = build_browser_args(profile_name, url);
    let arg_string = build_msix_args_string(&browser_args);
    BrowserLaunchPlan::Activate { aumid: msix_aumid(package), arg_string }
}

/// The response reported for a launch that ran.
pub fn profile_launched_response() -> (r: NativeResponse)
    ensures
        r == (NativeResponse::Success {
            success: true,
            data: crate::native_resp::NativeResponseData::ProfileLaunched,
        }),
{
    NativeResponse::success(crate::native_resp::NativeResponseData::ProfileLaunched)
}

/// The user-facing response for each launch failure; the debug detail
/// carries the failure's own message where it has one.
pub fn launch_error_response(e: &ForkBrowserProcError) -> (r: NativeResponse)
    ensures
        r matches NativeResponse::Error { success, error, debug_msg } && success == false
            && error@ == spec_launch_error_text(*e),
{
    match e {
        ForkBrowserProcError::BadExitCode => NativeResponse::error_with_dbg_str(
            "Failed to launch browser with new profile (bad exit code)!",
            "BadExitCode".to_owned(),
        ),
        ForkBrowserProcError::ForkError { error_message } => NativeResponse::error_with_dbg_str(
            "Failed to launch browser with new profile (fork error)!",
            error_message.clone(),
        ),
        ForkBrowserProcError::ProcessLaunchError { error_message } => {
            NativeResponse::error_with_dbg_str(
                "Failed to launch browser with new profile!",
                error_message.clone(),
            )
        },
        ForkBrowserProcError::MSIXProcessLaunchError { error_message } => {
            NativeResponse::error_with_dbg_str(
                "Failed to launch browser with new profile (Windows AAM error)!",
                error_message.clone(),
            )
        },
        ForkBrowserProcError::BinaryNotFound => NativeResponse::error_with_dbg_str(
            "Unable to find browser binary!",
            "BinaryNotFound".to_owned(),
        ),
        ForkBrowserProcError::BinaryDoesNotExist => NativeResponse::error(
            "The version of your browser that is currently running can no longer be found. This is usually because your browser has updated but you haven't restarted your browser recently to apply the update. Please restart your browser to resolve this issue.",
        ),
        ForkBrowserProcError::COMError { error_message } => NativeResponse::error_with_dbg_str(
            "Failed to launch browser with new profile (Windows COM error)!",
            error_message.clone(),
        ),
    }
}

/// The guidance text for each launch failure.
pub open spec fn spec_launch_error_text(e: ForkBrowserProcError) -> Seq<char> {
    match e {
        ForkBrowserProcError::BadExitCode =>
            "Failed to launch browser with new profile (bad exit code)!"@,
        ForkBrowserProcError::ForkError { .. } =>
            "Failed to launch browser with new profile (fork error)!"@,
        ForkBrowserProcError::ProcessLaunchError { .. } =>
            "Failed to launch browser with new profile!"@,
        ForkBrowserProcError::MSIXProcessLaunchError { .. } =>
            "Failed to launch browser with new profile (Windows AAM error)!"@,
        ForkBrowserProcError::BinaryNotFound => "Unable to find browser binary!"@,
        ForkBrowserProcError::BinaryDoesNotExist =>
            "The version of your browser that is currently running can no longer be found. This is usually because your browser has updated but you haven't restarted your browser recently to apply the update. Please restart your browser to resolve this issue."@,
        ForkBrowserProcError::COMError { .. } =>
            "Failed to launch browser with new profile (Windows COM error)!"@,
    }
}

} // verus!
