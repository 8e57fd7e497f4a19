//! Verified core of a remote-control client for a network-attached media
//! device: the action vocabulary with its debounce-delay tables, the textual
//! command grammar used in batch mode, the key-binding table, and the
//! decision logic of the interactive input loop and its literal-text
//! sub-mode. Terminal and network I/O live outside this crate.

pub mod action;
pub mod command;
pub mod encode;
pub mod keyboard;
