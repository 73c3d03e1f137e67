//! Core logic of the `banker` command-line client for Enable Banking:
//! configuration lookup, record identifiers, session bookkeeping, the
//! synchronisation merge of fetched transactions into the local store,
//! time-frame handling and the text that the commands print.

pub mod text;
pub mod ids;
pub mod sync;
pub mod time;
pub mod remote;
pub mod session;
pub mod config;
pub mod report;
pub mod output;
pub mod cli;
pub mod local;
pub mod db;
pub mod auth;
pub mod systemd;
pub mod api;
pub mod bank;
pub mod command_tree;
