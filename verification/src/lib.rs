//! Orchestration core of a directory synchroniser that drives an external
//! transfer tool over SFTP.
//!
//! - [`remote_path`]: how remote path segments are normalised and joined.
//! - [`rclone`]: what must hold before the tool is called, where the tool is
//!   found, and how one invocation is built.
//! - [`plan`]: the units of a run, each routed through a backup directory.
//! - [`engine`]: the run in progress, as a state machine that the caller
//!   drives.
//! - [`sync_manager`]: the live status of the run in flight.
//! - [`start`]: starting a run and ending it in the status.
//! - [`runs`]: the results and summaries of runs, and their history.
//! - [`config`]: the configuration, and the files of the application.
//! - [`ssh_keys`] and [`share_server`]: the key pair of the application, and
//!   the sharing of a text on the local network.
//! - [`text`]: the character-level helpers that the rest is built on.
//!
//! Apart from asking for the home directory of the user and for random
//! identifiers, the library does not touch the machine: it reads no file,
//! starts no process and does not look at the clock. The caller does that,
//! and hands in what it found.

pub mod config;
pub mod engine;
pub mod plan;
pub mod rclone;
pub mod remote_path;
pub mod runs;
pub mod share_server;
pub mod ssh_keys;
pub mod start;
pub mod sync_manager;
pub mod text;
