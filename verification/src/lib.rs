//! The logic of a coding agent: its conversation graph, its loop, the tools it works
//! with, and the terminal and web interfaces around it.
//!
//! The library decides; it does not act. Where the agent has to wait for a model, a
//! tool, the store or the user, the library offers a machine that takes what happened
//! and says what to do next. Each function states what it returns in its contract,
//! over the views of its arguments, and the laws that hold of the whole are proved
//! as functions of their own.

pub mod agent;
pub mod agent_laws;
pub mod auth;
pub mod auth_laws;
pub mod cli;
pub mod clock;
pub mod events;
pub mod graph;
pub mod graph_laws;
pub mod includes;
pub mod json;
pub mod log;
pub mod model;
pub mod request_laws;
pub mod requests;
pub mod rpc;
pub mod run;
pub mod run_laws;
pub mod run_trace;
pub mod run_work;
pub mod schema_laws;
pub mod schemas;
pub mod screen;
pub mod sessions;
pub mod shutdown;
pub mod sse;
pub mod survey;
pub mod text;
pub mod text_laws;
pub mod title;
pub mod title_laws;
pub mod tool_calls;
pub mod tool_laws;
pub mod tools;
pub mod tui;
pub mod tui_laws;
pub mod watch;
pub mod watch_laws;
pub mod wire_laws;
