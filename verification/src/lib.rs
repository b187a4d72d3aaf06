//! An encrypted, replicated event log for a personal task tracker.
//!
//! The log lives in several directories that an outside sync agent keeps
//! in step. This crate holds the rules: how a key is derived and held, how
//! a log is sealed and opened, which replicas exist, how their contents are
//! merged, and how the password is rotated. It never touches the disk: the
//! caller reads the replica files, hands their contents in, and performs
//! the writes that come back.

pub mod config;
pub mod error;
pub mod event;
pub mod crypto;
pub mod storage;
pub mod task;
pub mod util;
