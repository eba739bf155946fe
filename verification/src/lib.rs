//! Verified core of a Dr.COM campus-network client.
//!
//! Every frame, parser, retry rule and state machine of the client lives here
//! as a pure function over plain values. Sockets, files, clocks and windows
//! belong to the programs that call this library.

pub mod adapter;
pub mod auth;
pub mod bytes;
pub mod cli;
pub mod config;
pub mod diagnostics;
pub mod event_log;
pub mod keepalive;
pub mod login_response;
pub mod md5;
pub mod net;
pub mod panel;
pub mod preferences;
pub mod protocol;
pub mod reconnect;
pub mod reference_login;
pub mod retry;
pub mod route;
pub mod session;
pub mod session_laws;
pub mod session_steps;
pub mod single_instance;
pub mod static_ipv4;
pub mod text;
pub mod transport;
pub mod ui_backend;
