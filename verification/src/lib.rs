//! Supervisor and chat proxy for a locally launched inference server.
//!
//! The library holds the decisions and leaves the doing to its caller: it
//! opens no socket, starts no process and sends no request. Each operation is
//! cut into steps. A step takes what the caller found out, changes the state,
//! and says what to do next.
//!
//! - `ports`: choosing the port, by probing and scanning.
//! - `release`: freeing a port that another process holds.
//! - `supervisor`: the run state of the server process, its events, its end.
//! - `start`: one run of `start`, from the first probe to the warm-up.
//! - `message`, `history`: the conversations, one capped log per session.
//! - `json`: the documents that go to the server and come from it.
//! - `chat`: a request and its answer.
//! - `stream`: a streamed answer, frame by frame.
//! - `lifecycle`: what happens when a session ends.
//! - `text`: numbers and bytes as text.

pub mod chat;
pub mod history;
pub mod json;
pub mod lifecycle;
pub mod message;
pub mod ports;
pub mod release;
pub mod start;
pub mod stream;
pub mod supervisor;
pub mod text;
