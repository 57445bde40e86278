//! Decision logic of an idempotent workstation-provisioning tool.
//!
//! Every provisioning step follows the same discipline: observe the current
//! state of the machine (is a binary present, does a file already hold a
//! line, is a package listed), decide whether an action is needed, and state
//! how the outcome is recorded so that re-running the tool is safe.  This
//! crate holds those rules as verified functions over plain values; the
//! surrounding program performs the observations and runs the commands.

pub mod catalog;
pub mod identity;
pub mod installer;
pub mod orchestrator;
pub mod presence;
pub mod profile;
pub mod selector;
pub mod ssh;
pub mod text;
