//! The logic of Scadline, a desktop viewer for OpenSCAD models.

pub mod app_laws;
pub mod app_state;
pub mod cache;
pub mod calendar;
pub mod cli;
pub mod config;
pub mod cube;
pub mod git;
pub mod loader;
pub mod mesh;
pub mod migrate;
pub mod migrate_laws;
pub mod paths;
pub mod prune;
pub mod revision;
pub mod service;
pub mod text;
pub mod timeline;
pub mod ui;
