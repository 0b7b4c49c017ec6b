//! Verified core logic of the aifo-coder launcher.
#![allow(unused_imports)]

pub mod text;
pub mod fork_names;
pub mod escape;
pub mod color;
pub mod errors;
pub mod strategy;
pub mod cli;
pub mod fork_meta;
pub mod lock;
pub mod session;
pub mod windows_helpers;
pub mod inner;
pub mod git;
pub mod images;
pub mod proxy;
pub mod registry;
pub mod tidy;
pub mod fork_sessions;
pub mod fork_list;
pub mod merge;
pub mod merge_run;
pub mod orchestrators;
pub mod doctor;
pub mod shim;
pub mod shim_body;
pub mod docker;
pub mod fork_run;
pub mod fork_prep;
pub mod mounts;
pub mod runtime;
pub mod banner;
pub mod run_info;
pub mod shim_proc;
pub mod fork_flow;
