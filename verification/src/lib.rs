//! Configuration of a coverage run: the settings, how they are gathered
//! from arguments and configuration files, and the path logic that decides
//! which source files are left out.
pub mod glob;
pub mod path;
pub mod path_laws;
pub mod split;
pub mod types;
pub mod config;
