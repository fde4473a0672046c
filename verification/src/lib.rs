//! quickvm: the verified core of a QUIC-based software KVM.
//!
//! One machine (the controller) captures its keyboard and mouse and, once the
//! cursor has been pushed across the configured screen edge, forwards them to
//! another machine (the controlled side), which injects them. This crate holds
//! everything of that which is decided or computed: the input model, the wire
//! format, the authentication exchange, the clipboard and file-transfer rules,
//! the edge-switching state machine, the key tables, and the decisions that the
//! capture backends, the injector and the tray take. Sockets, operating-system
//! hooks and floating-point arithmetic stay with the program around it.

pub mod clipboard;
pub mod clipboard_files;
pub mod config;
pub mod controlled;
pub mod controller;
pub mod coord;
pub mod emulation;
pub mod event;
pub mod handshake;
pub mod keymap;
pub mod link;
pub mod macos;
pub mod names;
pub mod proto;
pub mod transfer;
pub mod tray;
pub mod windows;
pub mod wire;
