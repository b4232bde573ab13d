//! Plug-in manager logic for Endless Sky: the plug-in index, name resolution,
//! the install state of a plug-in and the steps that each command takes.

pub mod index;
pub mod state;
pub mod table;
pub mod yaml;
