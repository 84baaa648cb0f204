//! Process-wide application state.
//!
//! The state is created at startup, completed exactly once by a successful
//! `Initialize` command, and read-only afterwards; every worker observes the
//! same frozen snapshot.

use vstd::prelude::*;
use crate::config::{Config, ConfigV};

verus! {

/// The application state shared by every command.
pub struct AppState {
    pub config: Config,
    pub first_run: bool,
    pub cur_profile_id: Option<String>,
    pub extension_id: Option<String>,
    pub internal_extension_id: Option<String>,
    pub config_dir: String,
    pub data_dir: String,
}

pub ghost struct AppStateV {
    pub config: ConfigV,
    pub first_run: bool,
    pub cur_profile_id: Option<Seq<char>>,
    pub extension_id: Option<Seq<char>>,
    pub internal_extension_id: Option<Seq<char>>,
    pub config_dir: Seq<char>,
    pub data_dir: Seq<char>,
}

impl View for AppState {
    type V = AppStateV;

    open spec fn view(&self) -> AppStateV {
        AppStateV {
            config: self.config@,
            first_run: self.first_run,
            cur_profile_id: self.cur_profile_id.deep_view(),
            extension_id: self.extension_id.deep_view(),
            internal_extension_id: self.internal_extension_id.deep_view(),
            config_dir: self.config_dir@,
            data_dir: self.data_dir@,
        }
    }
}

/// Whether initialization has completed: the bound profile and the
/// extension's internal id are known.
pub open spec fn is_initialized(st: AppStateV) -> bool {
    st.cur_profile_id is Some && st.internal_extension_id is Some
}

} // verus!
