//! Verified core of a netplan-compatible network configuration tool.
//!
//! The configuration model, the YAML document merge and lookup rules, the
//! systemd-networkd and NetworkManager renderers and the decisions of the
//! command-line tools are proved against specifications here; reading and
//! writing files, running programs and YAML (de)serialisation live in the
//! application crate around this library.
pub mod text;
pub mod yaml;
pub mod yaml_laws;
pub mod config;
pub mod backends;
pub mod cli;
