//! The logic of an adapter that speaks the Agent Client Protocol on one side and
//! drives the `agy` command on the other.

pub mod adapter;
pub mod delivery;
pub mod dispatch;
pub mod encoding;
pub mod handlers;
pub mod json;
pub mod laws;
pub mod models;
pub mod narration;
pub mod paths;
pub mod prompt;
pub mod proto;
pub mod response;
pub mod rpc;
pub mod stream;
pub mod table;
pub mod text;
pub mod tools;
pub mod wording;
