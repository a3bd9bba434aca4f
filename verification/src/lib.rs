//! Core of a launcher for a dedicated game server: it keeps the operator's
//! preferences, catalogues the configuration files of a directory, composes the
//! server's command line and decides each step of a detached launch.
//!
//! The library touches neither the window nor the disk nor the process table.
//! Whoever drives it hands in what the outside world answered (a directory
//! listing, whether a file exists, how a spawn ended) and carries out the action
//! that comes back.
//!
//! - [`settings`]: the preferences and the place where they are kept.
//! - [`catalog`]: which files of a listing are configurations, in what order
//!   they are offered, and which of them a query selects.
//! - [`command`]: the argument vector of a launch and its preview.
//! - [`launcher`]: the plan of a launch and what each answer leads to.
//! - [`launcher_app`]: the launcher's state as a machine of events and actions.
//! - [`order`], [`paths`], [`text`]: the listing order, paths as text, and text.

pub mod catalog;
pub mod command;
pub mod launcher;
pub mod launcher_app;
pub mod order;
pub mod paths;
pub mod settings;
pub mod text;
