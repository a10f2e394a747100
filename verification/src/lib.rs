//! The configuration of a mail account: working out the settings of its
//! servers from the address alone, trying them, and writing down what
//! worked; with the configuration table that keeps the settings, the steps
//! that bring an older database up to date, and the decisions of the IMAP
//! session about folders.
//!
//! Nothing here reads a file or talks to a server. Where that is needed, the
//! library says what is to be done and takes the answer from its caller.

pub mod address;
pub mod autoconfig;
pub mod configure;
pub mod context;
pub mod dc_imap;
pub mod decimal;
pub mod guarantees;
pub mod housekeeping;
pub mod job;
pub mod login_param;
pub mod migration;
pub mod ongoing;
pub mod provider;
pub mod schema;
pub mod sql;
pub mod text;
