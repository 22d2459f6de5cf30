//! The logic behind the desktop window of the Gnome MCP Bridge.
//!
//! The window talks to a running `gfb serve --transport http`: it shows whether the server is up,
//! lists and calls its tools, shows the audit log and the pending approvals, and grants approvals.
//! What is decided and computed on the way stands here, with its contract. Sockets, files,
//! processes, threads and widgets are left to the program around it, and so is decoding the records
//! on disk into entries.
//!
//! - [`state`]: the state of the window, and how answers and clicks change it.
//! - [`panels`]: what the panels show of it.
//! - [`worker`]: what is asked of the background worker, and how it answers.
//! - [`rpc`], [`tools`]: requests to the server and the meaning of its replies.
//! - [`records`], [`order`], [`time`]: the audit log and the pending approvals, newest first.
//! - [`approve`], [`paths`]: the program that grants approvals, and where files are kept.
//! - [`json`], [`json_text`], [`text`]: JSON documents and plain text.

pub mod approve;
pub mod json;
pub mod json_text;
pub mod order;
pub mod panels;
pub mod paths;
pub mod records;
pub mod rpc;
pub mod state;
pub mod text;
pub mod time;
pub mod tools;
pub mod worker;
