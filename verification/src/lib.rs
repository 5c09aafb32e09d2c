//! Verified core of wikidesk, a companion server that shares LLM wikis between agents.

pub mod agent;
pub mod api;
pub mod client;
pub mod config;
pub mod delivery;
pub mod duration;
pub mod flow;
pub mod names;
pub mod paths;
pub mod queue;
pub mod remote_sync;
pub mod research_task;
pub mod rewrite;
pub mod runner;
pub mod server;
pub mod surface;
pub mod sync;
pub mod text;
pub mod views;
pub mod wiki_instance;
