//! The decisions of the acceptance lab: what it runs, what it accepts, and what it cleans up.

pub mod campaign;
pub mod cleanup;
pub mod command;
pub mod config;
pub mod demands;
pub mod device;
pub mod error;
pub mod evidence;
pub mod ext4;
pub mod ext4_run;
pub mod lifecycle;
pub mod node;
pub mod parts;
pub mod plan;
pub mod process;
pub mod scenario;
pub mod suite;
pub mod ublk;
pub mod workload;
