//! A server that answers A2A requests by running Codex: what it decides, keeps and says.
//!
//! Reading and writing, processes, time and the disk are left to the program around it.

pub mod auth;
pub mod backend;
pub mod call_laws;
pub mod config;
pub mod http;
pub mod json;
pub mod laws;
pub mod locks;
pub mod names;
pub mod net;
pub mod order;
pub mod process;
pub mod registry;
pub mod rpc;
pub mod run;
pub mod run_laws;
pub mod send;
pub mod service;
pub mod sessions;
pub mod state;
pub mod stream;
pub mod task;
pub mod tasks;
pub mod text;
pub mod wire_laws;
