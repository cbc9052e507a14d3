//! Overlay management for Gentoo Portage: configuration parsing, source
//! merging and the state machine behind the terminal interface.
pub mod text;
pub mod types;
pub mod locale;
pub mod packages;
pub mod actions;
pub mod sync;
pub mod app;
pub mod repos_conf;
pub mod sources;
pub mod remote;
pub mod utils;
pub mod keys;
pub mod custom;
pub mod github;
pub mod display;
