//! Tasks for a hosted language-model inference API: what a chat request
//! holds, the JSON document it puts on the wire, and how the answer is taken
//! out of the decoded response.
//!
//! Nothing here sends or receives. A [`Task`] describes its request as a
//! [`Request`]; the caller sends it, decodes the answer and hands the decoded
//! body back to the task.

pub mod chat;
pub mod json;
pub mod task;

pub use chat::{ChatBody, ChatOutput, Message, ResponseChat, Role, TaskChat};
pub use json::{Json, Number};
pub use task::{Method, Request, Task};
