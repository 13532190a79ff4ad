//! Naming and discovery of lab tasks that run as transient systemd units.
//!
//! A task launched by the launcher is a transient service whose unit name
//! encodes the task's name and its start time; the monitor finds these
//! units again by reading the name back.

pub mod common;
pub mod task;
pub mod monitor;
pub mod introspect;
