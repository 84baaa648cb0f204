//! User configuration and platform facts resolved once at startup.
//!
//! The configuration file may override the browser's profile directory and
//! binary; otherwise platform defaults apply. Platform-dependent facts (the
//! user's home directory, whether the browser is a store-distributed
//! package) are computed by the shell around the crate and passed in as
//! plain values.

use vstd::prelude::*;
use crate::strutil::{
    first_index_of, last_index_of, lemma_first_index_some, lemma_last_index_some, path_segments,
    split_path_segments, str_eq, find_char, rfind_char,
};

verus! {

broadcast use vstd::string::group_string_axioms;

/// Optional user overrides plus the resolved platform default for the
/// browser's profile directory.
pub struct Config {
    browser_profile_dir: Option<String>,
    browser_binary: Option<String>,
    default_profile_dir: String,
}

pub ghost struct ConfigV {
    pub browser_profile_dir: Option<Seq<char>>,
    pub browser_binary: Option<Seq<char>>,
    pub default_profile_dir: Seq<char>,
}

impl View for Config {
    type V = ConfigV;

    closed spec fn view(&self) -> ConfigV {
        ConfigV {
            browser_profile_dir: self.browser_profile_dir.deep_view(),
            browser_binary: self.browser_binary.deep_view(),
            default_profile_dir: self.default_profile_dir@,
        }
    }
}

/// The directory holding the browser's profiles: the configured override,
/// else the platform default.
pub open spec fn spec_browser_profile_dir(c: ConfigV) -> Seq<char> {
    match c.browser_profile_dir {
        Some(d) => d,
        None => c.default_profile_dir,
    }
}

impl Config {
    /// Bundles the overrides read from the configuration file with the
    /// platform default resolved at startup.
    pub fn new(
        browser_profile_dir: Option<String>,
        browser_binary: Option<String>,
        default_profile_dir: String,
    ) -> (r: Config)
        ensures
            r@ == (ConfigV {
                browser_profile_dir: browser_profile_dir.deep_view(),
                browser_binary: browser_binary.deep_view(),
                default_profile_dir: default_profile_dir@,
            }),
    {
        Config { browser_profile_dir, browser_binary, default_profile_dir }
    }

    /// The directory holding the browser's profiles.
    pub fn browser_profile_dir(&self) -> (r: String)
        ensures
            r@ == spec_browser_profile_dir(self@),
    {
        match &self.browser_profile_dir {
            Some(d) => d.clone(),
            None => self.default_profile_dir.clone(),
        }
    }

    /// The configured browser binary, if any.
    pub fn browser_binary(&self) -> (r: Option<&String>)
        ensures
            r.deep_view() == self@.browser_binary,
    {
        self.browser_binary.as_ref()
    }

    /// The primary profile list file.
    pub fn profiles_ini_path(&self) -> (r: String)
        ensures
            r@ == spec_browser_profile_dir(self@) + "/profiles.ini"@,
    {
        self.browser_profile_dir().concat("/profiles.ini")
    }

    /// The browser's installs file, which records a default profile per
    /// install.
    pub fn installs_ini_path(&self) -> (r: String)
        ensures
            r@ == spec_browser_profile_dir(self@) + "/installs.ini"@,
    {
        self.browser_profile_dir().concat("/installs.ini")
    }
}

impl Clone for Config {
    /// The copy carries the same overrides and resolved default.
    fn clone(&self) -> (r: Config)
        ensures
            r@ == self@,
    {
        Config {
            browser_profile_dir: match &self.browser_profile_dir {
                Some(d) => Some(d.clone()),
                None => None,
            },
            browser_binary: match &self.browser_binary {
                Some(b) => Some(b.clone()),
                None => None,
            },
            default_profile_dir: self.default_profile_dir.clone(),
        }
    }
}

impl Default for Config {
    /// No overrides and no resolved default directory.
    fn default() -> (r: Config)
        ensures
            r@.browser_profile_dir is None,
            r@.browser_binary is None,
            r@.default_profile_dir == Seq::<char>::empty(),
    {
        Config { browser_profile_dir: None, browser_binary: None, default_profile_dir: String::new() }
    }
}

// === STORE-PACKAGE DETECTION ===

/// The path components examined for store-package detection: everything
/// after the drive prefix or the leading separator; an unrooted path has
/// none.
pub open spec fn msix_components(path: Seq<char>) -> Seq<Seq<char>> {
    let segs = path_segments(path);
    if segs.len() > 0 && segs[0].len() > 0 && segs[0].last() == ':' {
        segs.drop_first()
    } else if path.len() > 0 && crate::strutil::is_path_sep(path[0]) {
        segs
    } else {
        Seq::empty()
    }
}

/// The store package identity a browser binary path reveals: for a binary
/// under `Program Files/WindowsApps/<package>/...`, the package's name and
/// id joined by an underscore; `None` for any other location.
pub open spec fn msix_package_of(path: Seq<char>) -> Option<Seq<char>> {
    let comps = msix_components(path);
    if comps.len() >= 3 && comps[0] == "Program Files"@ && comps[1] == "WindowsApps"@ {
        let package = comps[2];
        let f = first_index_of(package, '_');
        let l = last_index_of(package, '_');
        if f >= 0 {
            Some(package.take(f) + seq!['_'] + package.skip(l + 1))
        } else {
            None
        }
    } else {
        None
    }
}

/// Detects whether the browser runs as a store-distributed package by the
/// shape of its binary path, and extracts the package identity used for
/// application activation. The error text is only ever logged.
pub fn get_msix_package(parent_proc_path: &str) -> (r: Result<String, String>)
    ensures
        match r {
            Ok(p) => msix_package_of(parent_proc_path@) == Some(p@),
            Err(_) => msix_package_of(parent_proc_path@) is None,
        },
{
    let segs = split_path_segments(parent_proc_path);
    let rooted_by_prefix = if segs.len() > 0 {
        let s0 = &segs[0];
        let n0 = s0.unicode_len();
        n0 > 0 && s0.get_char(n0 - 1) == ':'
    } else {
        false
    };
    let rooted_by_sep = parent_proc_path.unicode_len() > 0 && {
        let c = parent_proc_path.get_char(0);
        c == '/' || c == '\\'
    };
    let comps_start: usize = if rooted_by_prefix {
        1
    } else {
        0
    };
    if !rooted_by_prefix && !rooted_by_sep {
        return Err(String::from_str("browser path has no root component"));
    }
    proof {
        if rooted_by_prefix {
            assert(msix_components(parent_proc_path@) =~= segs.deep_view().skip(1));
        } else {
            assert(msix_components(parent_proc_path@) =~= segs.deep_view());
        }
    }
    if segs.len() < comps_start + 3 {
        return Err(String::from_str("browser path is not in store-package format"));
    }
    let c0 = &segs[comps_start];
    let c1 = &segs[comps_start + 1];
    let package = &segs[comps_start + 2];
    if !str_eq(c0.as_str(), "Program Files") || !str_eq(c1.as_str(), "WindowsApps") {
        return Err(String::from_str("browser path is not in store-package format"));
    }
    let f = match find_char(package.as_str(), '_') {
        Some(f) => f,
        None => {
            proof {
                let pk = segs.deep_view()[comps_start + 2];
                assert(first_index_of(pk, '_') < 0) by {
                    if first_index_of(pk, '_') >= 0 {
                        lemma_first_index_in_range(pk, '_');
                    }
                }
            }
            return Err(String::from_str("store package name has no underscore"));
        },
    };
    let l = match rfind_char(package.as_str(), '_') {
        Some(l) => l,
        None => {
            proof {
                assert(false);
            }
            return Err(String::from_str("store package name has no underscore"));
        },
    };
    proof {
        let pk = segs.deep_view()[comps_start + 2];
        lemma_first_index_some(pk, '_', f as int);
        lemma_last_index_some(pk, '_', l as int);
    }
    let name_part = package.as_str().substring_char(0, f);
    let pkg_len = package.unicode_len();
    proof {
        assert(l < pkg_len);
    }
    let id_part = package.as_str().substring_char(l + 1, pkg_len);
    let result = String::from_str(name_part).concat("_").concat(id_part);
    proof {
        reveal_strlit("_");
        assert("_"@.len() == 1 && "_"@[0] == '_');
        assert("_"@ =~= seq!['_']);
        let pk = segs.deep_view()[comps_start + 2];
        assert(result@ =~= pk.take(f as int) + seq!['_'] + pk.skip(l + 1));
    }
    Ok(result)
}

proof fn lemma_first_index_in_range(cs: Seq<char>, c: char)
    requires
        first_index_of(cs, c) >= 0,
    ensures
        first_index_of(cs, c) < cs.len(),
        cs[first_index_of(cs, c)] == c,
    decreases cs.len(),
{
    if cs.len() > 0 && cs[0] != c {
        if first_index_of(cs.drop_first(), c) >= 0 {
            lemma_first_index_in_range(cs.drop_first(), c);
        }
    }
}

// === DEFAULT PROFILE DIRECTORY ===

/// The operating-system family, fixed at build time by the shell around the
/// crate.
pub enum Platform {
    Linux,
    Macos,
    Windows,
}

/// Where the browser keeps its profiles by default on each platform; on the
/// store-packaged browser the directory lives under the package's local
/// cache.
pub open spec fn spec_default_browser_profile_folder(
    home: Seq<char>,
    platform: Platform,
    msix_package: Option<Seq<char>>,
) -> Seq<char> {
    match platform {
        Platform::Linux => home + "/.mozilla/firefox"@,
        Platform::Macos => home + "/Library/Application Support/Firefox"@,
        Platform::Windows => match msix_package {
            Some(p) => home + "/AppData/Local/Packages/"@ + p
                + "/LocalCache/Roaming/Mozilla/Firefox"@,
            None => home + "/AppData/Roaming/Mozilla/Firefox"@,
        },
    }
}

/// Resolves the platform default for the browser's profile directory.
pub fn get_default_browser_profile_folder(
    home: &str,
    platform: &Platform,
    msix_package: Option<&String>,
) -> (r: String)
    ensures
        r@ == spec_default_browser_profile_folder(home@, *platform, msix_package.deep_view()),
{
    match platform {
        Platform::Linux => String::from_str(home).concat("/.mozilla/firefox"),
        Platform::Macos => String::from_str(home).concat("/Library/Application Support/Firefox"),
        Platform::Windows => match msix_package {
            Some(p) => String::from_str(home).concat("/AppData/Local/Packages/").concat(
                p.as_str(),
            ).concat("/LocalCache/Roaming/Mozilla/Firefox"),
            None => String::from_str(home).concat("/AppData/Roaming/Mozilla/Firefox"),
        },
    }
}

} // verus!
