//! Core of a Docker-like microVM runtime: box lifecycle bookkeeping,
//! option validation, image configuration, the init-pipeline's pure stages,
//! the guest RPC protocol decisions, and the cancellation fabric.
//!
//! Everything here is verified; process spawning, sockets, the persistent
//! store and the VMM live outside the library and hand it plain values.

pub mod assoc;
pub mod cancel;
pub mod cli_flags;
pub mod command;
pub mod disk;
pub mod errors;
pub mod exec;
pub mod format;
pub mod guest_rootfs;
pub mod image_config;
pub mod init_config;
pub mod inspect;
pub mod json;
pub mod options;
pub mod options_json;
pub mod ports;
pub mod registry;
pub mod schema;
pub mod status;
pub mod strutil;
