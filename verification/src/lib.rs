//! Agent orchestration core for a terminal coding assistant.
//!
//! The parts, leaves first: text helpers (`text`, `lines`, `clip`, `number`),
//! structured values (`json`), the reasoning filter for streamed responses
//! (`stream`), recovery of an action from free text (`extract`), the tool
//! registry and executor (`tools`, `executor`, `results`, `markup`, `mcp`),
//! the persistent shell session (`shell`), the service's protocol
//! (`protocol`, `response`) and the agent loop (`agent`, `agent_loop`).
//! Around them stand the state behind the screen (`chat`, `console`,
//! `markdown`), the settings (`config`), the session store (`session`), the
//! sandbox setup (`docker_setup`) and speech (`audio`).
//!
//! Everything that touches a process, a file or the network is left to a
//! driver: the state machines here take events and answer with actions. The
//! modules whose names end in `_laws` state what holds of every run.

pub mod agent;
pub mod agent_laws;
pub mod agent_loop;
pub mod audio;
pub mod chat;
pub mod clip;
pub mod config;
pub mod console;
pub mod docker_setup;
pub mod executor;
pub mod extract;
pub mod json;
pub mod lines;
pub mod markdown;
pub mod markup;
pub mod mcp;
pub mod number;
pub mod protocol;
pub mod response;
pub mod results;
pub mod session;
pub mod shell;
pub mod shell_laws;
pub mod stream;
pub mod stream_laws;
pub mod text;
pub mod tool_laws;
pub mod tools;
