//! Port-based routing of Windows OpenSSH sessions to different shells, and the logic
//! of the tray application that installs and configures it.
//!
//! The routing CLI reads the configuration ([`config`]), picks the route for the
//! server port ([`routing`]), renders its command template, writes the remote command
//! to a temporary script ([`temp`]), converts paths for WSL ([`wsl`]) and starts the
//! shell under a job object ([`launch`]), logging as it goes ([`log`]). The tray
//! application validates and saves the configuration, runs administrative scripts with
//! elevated rights ([`actions`], [`elevate`]), reports the installation status
//! ([`status`]) and checks that the deployed CLI is current ([`sync`]).
//! Strings are handled through the character-level helpers in [`text`].

pub mod text;
pub mod config;
pub mod routing;
pub mod wsl;
pub mod temp;
pub mod launch;
pub mod log;
pub mod elevate;
pub mod actions;
pub mod status;
pub mod sync;
