//! Run lifecycle, projection and storage-key logic of the Fabro workflow
//! server, with machine-checked contracts.

pub mod status;
pub mod text;
pub mod sorting;
pub mod keyed;
pub mod ids;
pub mod keys;
pub mod projection;
pub mod reducer;
pub mod replay;
pub mod projection_cache;
pub mod materializer;
pub mod environment;
pub mod session;
pub mod api;
pub mod live_run;
pub mod lint;
pub mod template;
pub mod records;
pub mod event_props;
pub mod interview;
pub mod maintenance;
pub mod diagnostics;
pub mod command_log;
pub mod provenance;
pub mod steer;
pub mod run_lifecycle;
pub mod answers;
pub mod session_runtime;
pub mod github_repo;
