use vstd::prelude::*;

pub mod text;
pub mod order;
pub mod clock;
pub mod archive;
pub mod chat_cmd;
pub mod claude_handler;
pub mod agent_stream;
pub mod json;
pub mod hashing;
pub mod agency_import;
pub mod agency_push;
pub mod checkpoint;
pub mod cleanup;
pub mod assign;
pub mod task_ops;
pub mod failure;
pub mod chat_messages;
pub mod adaptive;

verus! {
}
