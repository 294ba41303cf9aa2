//! Interactive publishing of static pages: the verified core.
//!
//! The tool around this library reads directories, asks the user and talks to
//! the chain. What it decides is decided here, on plain values:
//!
//! - [`picker`] browses directories until a file is chosen, over the listings
//!   that [`listing`] builds and with the facts collected in [`laws`];
//! - [`minify`] plans how the bytes to publish are had from the chosen file;
//! - [`config`] reads and records the address of the contract in the settings;
//! - [`menu`] resolves the menu and the choice of a main page;
//! - [`path`] puts questions of path syntax to the standard library.

pub mod config;
pub mod error;
pub mod laws;
pub mod listing;
pub mod menu;
pub mod minify;
pub mod path;
pub mod picker;
