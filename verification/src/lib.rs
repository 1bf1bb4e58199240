//! A model of the string values found in compose-style configuration
//! documents: a value may hold shell-style variable references
//! (`$VAR`, `${VAR}`, `${VAR-default}`, `${VAR:-default}`, `$$`) that are
//! kept unexpanded until a variable source is supplied.

pub mod environment;
pub mod errors;
pub mod external_network;
pub mod grammar;
pub mod interpolate_all;
pub mod interpolation;
pub mod network_interface;
pub mod permissions;
pub mod raw_or;
pub mod string_map;
pub mod volumes_from;
