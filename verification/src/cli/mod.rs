//! The decisions of the command-line tools. Each tool's reading of files,
//! running of programs and printing is done by the caller; what the tool
//! decides, computes and prints is here.
pub mod apply;
pub mod generate;
pub mod get;
pub mod info;
pub mod ip;
pub mod rebind;
pub mod root;
pub mod set;
pub mod status;
pub mod try_cmd;
