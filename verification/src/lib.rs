//! Core of a daemon that reacts to display-output hotplug and attribute
//! changes: it diffs successive snapshots of the connected outputs into
//! classified change events and decides which configured triggers fire
//! for each event.
pub mod delta;
pub mod matcher;
pub mod output;
pub mod registry;
pub mod triggers;
