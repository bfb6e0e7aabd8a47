use vstd::prelude::*;

pub mod api;
pub mod args;
pub mod auth;
pub mod blob_store;
pub mod cflags;
pub mod distfiles;
pub mod docker;
pub mod ids;
pub mod cli_config;
pub mod client;
pub mod makeconf;
pub mod metrics;
pub mod paths;
pub mod payloads;
pub mod progress;
pub mod portage_env;
pub mod portage_files;
pub mod pty;
pub mod queue;
pub mod restore;
pub mod retry;
pub mod registry;
pub mod repo;
pub mod runtime;
pub mod server_config;
pub mod signing;
pub mod snapshot;
pub mod state;
pub mod status_bar;
pub mod strmap;
pub mod sync_progress;
pub mod text;
pub mod trace;
pub mod tree_store;
pub mod upload;
pub mod vdb;
pub mod verbosity;
pub mod version;

verus! {

} // verus!
