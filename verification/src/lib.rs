//! The logic of a Quick-Look style file previewer.
pub mod app;
pub mod browser;
pub mod cli;
pub mod config;
pub mod console;
pub mod content;
pub mod daemon;
pub mod dialog;
pub mod doctor;
pub mod fonts;
pub mod hotkey;
pub mod icon;
pub mod path;
pub mod path_laws;
pub mod probe;
pub mod recent;
pub mod scan;
pub mod selection;
pub mod state;
pub mod style;
pub mod table;
pub mod text;
