//! Watches the top-level windows for a named application, scans each
//! matching window's accessibility tree for a button phrase (optionally
//! gated by a context phrase elsewhere in the same tree) and decides which
//! control to activate, with a two-tier cache and load-adaptive polling.
//!
//! The accessibility tree is modelled by [`tree::UiTree`]: handles are node
//! indices and every read may fail. The button-like control-type check
//! applies to every scan, whether of a whole window or of a cached ancestor;
//! a Tier-1 hit only re-reads the cached control's name, since that control
//! passed the check when it was cached. A scan result allows an action when
//! it holds a button and, if context phrases are configured, a context hit.
//!
//! Modules, leaves first: `text` (substring, blank, order), `tree`,
//! `scanner`, `order`, `events`, `windows` (enumeration and
//! classification), `report` (log and status lines), `schedule` (back-off),
//! `action` (invoke, else click), `engine` (the cycle and the cache tiers)
//! and `screen` (the observer's state).
pub mod text;
pub mod tree;
pub mod scanner;
pub mod order;
pub mod events;
pub mod windows;
pub mod report;
pub mod schedule;
pub mod action;
pub mod engine;
pub mod screen;
