//! The decisions behind `runway sync`: which assets go to a target, what
//! happens to each of them on the way, and what the next sync starts from.
pub mod asset;
pub mod config;
pub mod error;
pub mod flow;
pub mod flow_laws;
pub mod flow_step_laws;
pub mod hash;
pub mod leaf_laws;
pub mod local;
pub mod local_flow_laws;
pub mod local_laws;
pub mod local_step_laws;
pub mod ordered_map;
pub mod paths;
pub mod permission_laws;
pub mod permission_step_laws;
pub mod permissions;
pub mod roblox;
pub mod roblox_laws;
pub mod roblox_step_laws;
pub mod session;
pub mod session_laws;
pub mod session_step_laws;
pub mod state;
pub mod text;
pub mod text_laws;
pub mod upload;
pub mod upload_laws;
pub mod upload_step_laws;
pub mod walker;
pub mod walker_laws;
