//! Resolves raw hardware identifiers from the platform's device tree
//! into human-readable identity and classification, and manages a
//! pending/applied autosuspend configuration per device.
//!
//! Three subsystems make up the core: a strict parser for the
//! vendor/device/class registry text ([`db`]), classifiers that
//! correlate per-device attribute-file text with the registry under
//! documented tie-break heuristics ([`usb`], [`pci`]), and a
//! configuration state machine that tracks pending edits, validates
//! human-readable delay text ([`delay`]) and drives a two-phase,
//! partially-recoverable apply protocol ([`state`]).
//!
//! File and device I/O stay outside: callers read the registry bytes
//! and attribute files, hand their text in, and perform the writes the
//! apply protocol asks for.
pub mod db;
pub mod delay;
pub mod fault;
pub mod pci;
pub mod state;
pub mod text;
pub mod usb;
