//! A log-structured block volume and the harness logic that exercises it.
//!
//! The library performs no input or output. Operations on a volume are state machines that
//! ask for block requests and are told how each one completed.

pub mod body;
pub mod bytes;
pub mod checksum;
pub mod completion;
pub mod crash;
pub mod descriptor;
pub mod device;
pub mod durability;
pub mod error;
pub mod fallback;
pub mod footer;
pub mod history;
pub mod lab;
pub mod layout;
pub mod mount_helper;
pub mod mount_plan;
pub mod mounts;
pub mod opening;
pub mod operations;
pub mod paths;
pub mod recovery;
pub mod replay;
pub mod service;
pub mod target;
pub mod text;
pub mod volume;
