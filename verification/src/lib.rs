//! The decisions of a SPICE guest agent for Wayland sessions.
//!
//! The agent sits between the `spice-vdagentd` daemon and a Wayland
//! compositor. This crate holds everything it decides: how daemon messages
//! are framed, what each message and each compositor event leads to, how host
//! file transfers progress, and how monitor requests are turned into
//! compositor commands. Sockets, files, processes and Wayland objects stay
//! with the caller, who performs the returned actions and reports back.

pub mod wire;
pub mod udscs;
pub mod text;
pub mod monitors;
pub mod keyfile;
pub mod path;
pub mod save_dir;
pub mod file_xfer;
pub mod data_control;
pub mod agent;
