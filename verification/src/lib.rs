//! A coordination core for multi-agent software projects whose shared state
//! lives in files: the project phase machine, the scheduler that recommends
//! which agent should act next, the mailbox documents that agents exchange,
//! and the rules that decide which paths of a project tree matter.
//!
//! Nothing in this crate touches the disk. Every operation takes what was
//! read as plain values and returns what is to be written.
pub mod clock;
pub mod communication;
pub mod file_watcher;
pub mod frame;
pub mod ident;
pub mod mailbox;
pub mod messages;
pub mod project;
pub mod reading;
pub mod scheduler;
pub mod state_manager;
pub mod text;
pub mod types;
pub mod workflow;
