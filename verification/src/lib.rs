//! Core of a live preview server for one document: raw file-change events are
//! debounced into coalesced signals, each signal is kept as at most one pending
//! reload per connected viewer, and the document is rendered on demand.

pub mod assets;
pub mod broadcast;
pub mod debounce;
pub mod mailbox;
pub mod render;
pub mod watch;
