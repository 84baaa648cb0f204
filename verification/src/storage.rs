//! Locations of the registry's data files inside the per-user directories.
//!
//! Paths are plain strings joined with `/`; the shell around the crate hands
//! in the resolved configuration and data directories.

use vstd::prelude::*;

verus! {

/// The global options store inside the configuration directory.
pub fn global_options_data_path(config_dir: &str) -> (r: String)
    ensures
        r@ == config_dir@ + "/global-options.json"@,
{
    String::from_str(config_dir).concat("/global-options.json")
}

/// The avatar store inside the configuration directory.
pub fn avatar_data_path(config_dir: &str) -> (r: String)
    ensures
        r@ == config_dir@ + "/avatars.json"@,
{
    String::from_str(config_dir).concat("/avatars.json")
}

/// The per-profile options store inside the configuration directory.
pub fn options_data_path(config_dir: &str) -> (r: String)
    ensures
        r@ == config_dir@ + "/profile-options.json"@,
{
    String::from_str(config_dir).concat("/profile-options.json")
}

/// The display-order store inside the configuration directory.
pub fn order_data_path(config_dir: &str) -> (r: String)
    ensures
        r@ == config_dir@ + "/profile-order.json"@,
{
    String::from_str(config_dir).concat("/profile-order.json")
}

/// The folder holding user-added avatar images inside the data directory.
pub fn custom_avatars_path(data_dir: &str) -> (r: String)
    ensures
        r@ == data_dir@ + "/avatars"@,
{
    String::from_str(data_dir).concat("/avatars")
}

} // verus!
