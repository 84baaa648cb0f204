//! Background coordinator for a browser-profile-switching extension.
//!
//! The crate is the verified core of the connector process: the profile
//! registry with its stable id derivation and multi-file persistence model,
//! the command handlers expressed as pure state transitions, the
//! inter-instance bus protocol (command codec, addressing and fast-path
//! routing), the stdio frame layout, and the process-launch decision logic.
//! All file, network and process I/O is performed by an unverified shell
//! around this crate, which hands plain values in and carries effects out.

use vstd::prelude::*;

pub mod avatars;
pub mod cmd;
pub mod config;
pub mod framing;
pub mod inifile;
pub mod ipc;
pub mod ipc_codec;
pub mod native_req;
pub mod native_resp;
pub mod options;
pub mod process;
pub mod profiles;
pub mod profiles_order;
pub mod state;
pub mod storage;
pub mod strutil;

verus! {

} // verus!
